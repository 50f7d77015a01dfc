use kociemba::cube_ops::coords::{CornerOrientRawCoord, EdgeOrientRawCoord};
use kociemba::cube_ops::partial_reprs::corner_orient::CornerOrient;
use kociemba::cube_ops::partial_reprs::edge_orient::EdgeOrient;

#[test]
fn corner_orient_coord_round_trip() {
    let samples = [
        [0, 0, 0, 0, 0, 0, 0, 0],
        [1, 2, 0, 1, 2, 0, 1, last_twist(&[1, 2, 0, 1, 2, 0, 1])],
        [2, 2, 2, 2, 2, 2, 2, last_twist(&[2, 2, 2, 2, 2, 2, 2])],
        [0, 1, 1, 0, 0, 2, 0, last_twist(&[0, 1, 1, 0, 0, 2, 0])],
    ];
    for twists in samples {
        let x = CornerOrient(twists);
        let coord = x.into_coord();
        assert!(coord.0 < 2187);
        assert_eq!(CornerOrient::from_coord(coord), x);
    }
    assert_eq!(CornerOrient([2, 2, 2, 2, 2, 2, 2, 1]).into_coord(), CornerOrientRawCoord(2186));
    for c in 0..2187u16 {
        assert_eq!(CornerOrient::from_coord(CornerOrientRawCoord(c)).into_coord().0, c);
    }
}

fn last_twist(first: &[u8; 7]) -> u8 {
    let s: u8 = first.iter().sum();
    (3 - s % 3) % 3
}

#[test]
fn edge_orient_coord_round_trip() {
    let mut flips = [1, 0, 1, 1, 0, 0, 1, 0, 1, 1, 1, 0];
    let sum: u8 = flips[..11].iter().sum();
    flips[11] = sum % 2;
    let x = EdgeOrient(flips);
    let coord = x.into_coord();
    assert!(coord.0 < 2048);
    assert_eq!(EdgeOrient::from_coord(coord), x);
    assert_eq!(EdgeOrient([1; 12]).into_coord(), EdgeOrientRawCoord(2047));
    for c in 0..2048u16 {
        assert_eq!(EdgeOrient::from_coord(EdgeOrientRawCoord(c)).into_coord().0, c);
    }
}
