use kociemba::cubie_repr::CubieRepr;
use kociemba::repr_coord::ReprCoord;

#[test]
fn repr_coord_test_coords() {
    let mut corner_orient: u16 = 0;
    let mut edge_orient: u16 = 0;
    let mut edge_group: u16 = 0;
    let mut corner_perm: u16 = 0;
    let mut ud_edge_perm: u16 = 0;
    let mut e_edge_perm: u8 = 0;

    for _ in 0..1000 {
        corner_orient = (corner_orient + 44) % 2187;
        edge_orient = (edge_orient + 17) % 2048;
        edge_group = (edge_group + 4) % 495;
        corner_perm = (corner_perm + 23) % 40320;
        ud_edge_perm = (ud_edge_perm + 101) % 40320;
        e_edge_perm = (e_edge_perm + 5) % 24;

        let cube: CubieRepr = ReprCoord {
            corner_orient: corner_orient.into(),
            edge_orient: edge_orient.into(),
            edge_group: edge_group.into(),
            corner_perm: corner_perm.into(),
            ud_edge_perm: ud_edge_perm.into(),
            e_edge_perm: e_edge_perm.into(),
        }
        .into_cubie();

        assert_eq!(cube.coord_corner_orient(), corner_orient);
        assert_eq!(cube.coord_edge_orient(), edge_orient);
        assert_eq!(cube.coord_edge_grouping(), edge_group);
        assert_eq!(cube.coord_corner_perm(), corner_perm);
        assert_eq!(cube.coord_ud_edge_perm(), ud_edge_perm);
        assert_eq!(cube.coord_e_edge_perm(), e_edge_perm);
    }
}

#[test]
fn coord_test_coords() {
    let mut co = 0;
    let mut eo = 0;
    let mut eg = 0;
    let mut cp = 0;
    let mut udep = 0;
    let mut eep = 0;

    for _ in 0..1000 {
        co = (co + 44) % 2187;
        eo = (eo + 17) % 2048;
        eg = (eg + 4) % 495;
        cp = (cp + 23) % 40320;
        udep = (udep + 101) % 40320;
        eep = (eep + 5) % 24;

        let cube = CubieRepr::from_coords(co, eo, eg, cp, udep, eep);

        assert_eq!(cube.coord_corner_orient(), co);
        assert_eq!(cube.coord_edge_orient(), eo);
        assert_eq!(cube.coord_edge_grouping(), eg);
        assert_eq!(cube.coord_corner_perm(), cp);
        assert_eq!(cube.coord_ud_edge_perm(), udep);
        assert_eq!(cube.coord_e_edge_perm(), eep);
    }
}

#[test]
fn coords_read_back_through_repr_coord() {
    let c = ReprCoord {
        corner_orient: 2000u16.into(),
        edge_orient: 2047u16.into(),
        edge_group: 494u16.into(),
        corner_perm: 40319u16.into(),
        ud_edge_perm: 12345u16.into(),
        e_edge_perm: 23u8.into(),
    };
    assert_eq!(ReprCoord::from_cubie(c.into_cubie()), c);
}

#[test]
fn solved_cubie_has_zero_coords() {
    let c = CubieRepr::new();
    assert!(c.is_solved());
    assert_eq!(c.coord_corner_orient(), 0);
    assert_eq!(c.coord_edge_orient(), 0);
    assert_eq!(c.coord_edge_grouping(), 0);
    assert_eq!(c.coord_edge_grouping_and_orient(), 0);
    assert_eq!(c.coord_corner_perm(), 0);
    assert_eq!(c.coord_ud_edge_perm(), 0);
    assert_eq!(c.coord_e_edge_perm(), 0);
    assert_eq!(CubieRepr::from_coords(0, 0, 0, 0, 0, 0), c);
}

#[test]
fn orientation_digits_lowest_first() {
    // corner 0 carries the lowest base-3 digit, edge 0 the lowest bit
    let c = CubieRepr::from_coords(1, 1, 0, 0, 0, 0);
    assert_eq!(c.corner_orient, [1, 0, 0, 0, 0, 0, 0, 2]);
    assert_eq!(c.edge_orient, [1, 0, 0, 0, 0, 0, 0, 0, 0, 0, 0, 1]);
    let d = CubieRepr::from_coords(3, 2, 0, 0, 0, 0);
    assert_eq!(d.corner_orient, [0, 1, 0, 0, 0, 0, 0, 2]);
    assert_eq!(d.edge_orient, [0, 1, 0, 0, 0, 0, 0, 0, 0, 0, 0, 1]);
    assert_eq!(c.coord_edge_grouping_and_orient(), 1);
    let e = CubieRepr::from_coords(0, 5, 7, 0, 0, 0);
    assert_eq!(e.coord_edge_grouping_and_orient(), 7 * 2048 + 5);
}

#[test]
fn moved_cubie_is_not_solved() {
    let mut c = CubieRepr::new();
    c.corner_orient[3] = 1;
    assert!(!c.is_solved());
}
