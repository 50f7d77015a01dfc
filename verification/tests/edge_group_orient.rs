use kociemba::cube_ops::coords::{EdgeGroupRawCoord, EdgeOrientRawCoord};
use kociemba::cube_ops::partial_reprs::edge_group_orient::{EdgeGroupOrient, EdgeGroupOrientRawCoord};

#[test]
fn edge_group_orient_test() {
    for i in 0..(2048 * 495) {
        let coord = EdgeGroupOrientRawCoord(i as u32);
        let group_orient = EdgeGroupOrient::from_coord(coord);
        assert_eq!(coord, group_orient.into_coord())
    }
}

#[test]
fn join_packs_and_split_unpacks() {
    let j = EdgeGroupOrientRawCoord::join(EdgeGroupRawCoord(1), EdgeOrientRawCoord(5));
    assert_eq!(j.0, 2053);
    for g in [0u16, 1, 17, 494] {
        for o in [0u16, 1, 1000, 2047] {
            let (g2, o2) = EdgeGroupOrientRawCoord::join(EdgeGroupRawCoord(g), EdgeOrientRawCoord(o)).split();
            assert_eq!((g2.0, o2.0), (g, o));
        }
    }
}
