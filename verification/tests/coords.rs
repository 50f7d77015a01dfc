use kociemba::coords::{
    phase_1_cubies, phase_2_cubies, CornerOrientCoord, CornerPermCoord, EEdgePermCoord,
    EdgeGroupCoord, EdgeOrientCoord, UDEdgePermCoord,
};

#[test]
fn test_corner_orient() {
    for i in 0..2187 {
        let cube = phase_1_cubies(i.into(), 0.into(), 0.into());
        assert_eq!(CornerOrientCoord::from_cubie(cube), i.into());
        assert_eq!(EdgeOrientCoord::from_cubie(cube), 0.into());
        assert_eq!(EdgeGroupCoord::from_cubie(cube), 0.into());
    }
}

#[test]
fn test_edge_orient() {
    for i in 0..2048 {
        let cube = phase_1_cubies(0.into(), i.into(), 0.into());
        assert_eq!(CornerOrientCoord::from_cubie(cube), 0.into());
        assert_eq!(EdgeOrientCoord::from_cubie(cube), i.into());
        assert_eq!(EdgeGroupCoord::from_cubie(cube), 0.into());
    }
}

#[test]
fn test_edge_group() {
    for i in 0..495 {
        let cube = phase_1_cubies(0.into(), 0.into(), i.into());
        assert_eq!(CornerOrientCoord::from_cubie(cube), 0.into());
        assert_eq!(EdgeOrientCoord::from_cubie(cube), 0.into());
        assert_eq!(EdgeGroupCoord::from_cubie(cube), i.into());
    }
}

#[test]
fn test_corner_perm() {
    for i in 0..40320 {
        let cube = phase_2_cubies(i.into(), 0.into(), 0.into());
        assert_eq!(CornerPermCoord::from_cubie(cube), i.into());
        assert_eq!(UDEdgePermCoord::from_cubie(cube), 0.into());
        assert_eq!(EEdgePermCoord::from_cubie(cube), 0.into());
    }
}

#[test]
fn test_ud_edge_perm() {
    for i in 0..40320 {
        let cube = phase_2_cubies(0.into(), i.into(), 0.into());
        assert_eq!(CornerPermCoord::from_cubie(cube), 0.into());
        assert_eq!(UDEdgePermCoord::from_cubie(cube), i.into());
        assert_eq!(EEdgePermCoord::from_cubie(cube), 0.into());
    }
}

#[test]
fn test_e_edge_perm() {
    for i in 0..24 {
        let cube = phase_2_cubies(0.into(), 0.into(), i.into());
        assert_eq!(CornerPermCoord::from_cubie(cube), 0.into());
        assert_eq!(UDEdgePermCoord::from_cubie(cube), 0.into());
        assert_eq!(EEdgePermCoord::from_cubie(cube), i.into());
    }
}

#[test]
fn phase_1_cubies_keep_all_three_coordinates() {
    let mut a: u16 = 0;
    let mut b: u16 = 0;
    let mut c: u16 = 0;
    for _ in 0..3000 {
        a = (a + 44) % 2187;
        b = (b + 17) % 2048;
        c = (c + 4) % 495;
        let cube = phase_1_cubies(a.into(), b.into(), c.into());
        assert!(cube.is_valid());
        assert_eq!(CornerOrientCoord::from_cubie(cube), a.into());
        assert_eq!(EdgeOrientCoord::from_cubie(cube), b.into());
        assert_eq!(EdgeGroupCoord::from_cubie(cube), c.into());
    }
}

#[test]
fn phase_2_cubies_keep_all_three_coordinates() {
    let mut a: u16 = 0;
    let mut b: u16 = 0;
    let mut c: u8 = 0;
    for _ in 0..3000 {
        a = (a + 23) % 40320;
        b = (b + 101) % 40320;
        c = (c + 5) % 24;
        let cube = phase_2_cubies(a.into(), b.into(), c.into());
        assert_eq!(CornerOrientCoord::from_cubie(cube).inner(), 0);
        assert_eq!(EdgeOrientCoord::from_cubie(cube).inner(), 0);
        assert_eq!(EdgeGroupCoord::from_cubie(cube).inner(), 0);
        assert_eq!(CornerPermCoord::from_cubie(cube), a.into());
        assert_eq!(UDEdgePermCoord::from_cubie(cube), b.into());
        assert_eq!(EEdgePermCoord::from_cubie(cube), c.into());
    }
}

#[test]
fn coordinate_values_convert_both_ways() {
    let c: CornerOrientCoord = 1234u16.into();
    assert_eq!(c.inner(), 1234);
    let raw: u16 = c.into();
    assert_eq!(raw, 1234);
    let e: EEdgePermCoord = 23u8.into();
    let raw: u8 = e.into();
    assert_eq!(raw, 23);
}

#[test]
fn into_cubie_wraps_orientation_coordinates() {
    // the corner twist coordinate is read modulo 3^7, the flip coordinate modulo 2^11
    let a = CornerOrientCoord::from(2187 + 5).into_cubie();
    assert_eq!(CornerOrientCoord::from_cubie(a).inner(), 5);
    let b = EdgeOrientCoord::from(2048 + 9).into_cubie();
    assert_eq!(EdgeOrientCoord::from_cubie(b).inner(), 9);
}

#[test]
fn edge_group_cubie_is_even() {
    for i in 0..495u16 {
        let cube = EdgeGroupCoord::from(i).into_cubie();
        assert!(!cube.edge_perm.is_odd());
    }
}
