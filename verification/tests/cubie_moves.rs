use kociemba::cubie_repr::CubieRepr;
use kociemba::moves::{Move, Phase2Move};

#[test]
fn moves_test_all_moves() {
    let mut c = CubieRepr::default();
    c.phase_1_move(Move::U1);
    c.phase_1_move(Move::U2);
    c.phase_1_move(Move::U3);
    c.phase_1_move(Move::U2);

    assert!(c.is_valid());
    assert!(c.is_solved());

    c.phase_1_move(Move::D1);
    c.phase_1_move(Move::D2);
    c.phase_1_move(Move::D3);
    c.phase_1_move(Move::D2);

    assert!(c.is_valid());
    assert!(c.is_solved());

    c.phase_1_move(Move::F1);
    c.phase_1_move(Move::F2);
    c.phase_1_move(Move::F3);
    c.phase_1_move(Move::F2);

    assert!(c.is_valid());
    assert!(c.is_solved());

    c.phase_1_move(Move::B1);
    c.phase_1_move(Move::B2);
    c.phase_1_move(Move::B3);
    c.phase_1_move(Move::B2);

    assert!(c.is_valid());
    assert!(c.is_solved());

    c.phase_1_move(Move::R1);
    c.phase_1_move(Move::R2);
    c.phase_1_move(Move::R3);
    c.phase_1_move(Move::R2);

    assert!(c.is_valid());
    assert!(c.is_solved());

    c.phase_1_move(Move::L1);
    c.phase_1_move(Move::L2);
    c.phase_1_move(Move::L3);
    c.phase_1_move(Move::L2);

    assert!(c.is_valid());
    assert!(c.is_solved());
}

#[test]
fn moves_test_long_identity() {
    let mut c = CubieRepr::default();
    c.phase_1_move(Move::F1);

    assert!(c.is_valid());
    assert!(!c.is_solved());
    c.phase_1_move(Move::R1);

    assert!(c.is_valid());
    assert!(!c.is_solved());
    c.phase_1_move(Move::F3);

    assert!(c.is_valid());
    assert!(!c.is_solved());
    c.phase_1_move(Move::U1);

    assert!(c.is_valid());
    assert!(!c.is_solved());
    c.phase_1_move(Move::B2);

    assert!(c.is_valid());
    assert!(!c.is_solved());
    c.phase_1_move(Move::L3);

    assert!(c.is_valid());
    assert!(!c.is_solved());
    c.phase_1_move(Move::D3);

    assert!(c.is_valid());
    assert!(!c.is_solved());
    c.phase_1_move(Move::R2);

    assert!(c.is_valid());
    assert!(!c.is_solved());
    c.phase_1_move(Move::L1);

    assert!(c.is_valid());
    assert!(!c.is_solved());
    c.phase_1_move(Move::B2);

    assert!(c.is_valid());
    assert!(!c.is_solved());
    c.phase_1_move(Move::F3);

    assert!(c.is_valid());
    assert!(!c.is_solved());
    c.phase_1_move(Move::D1);

    assert!(c.is_valid());
    assert!(!c.is_solved());
    c.phase_1_move(Move::U2);

    assert!(c.is_valid());
    assert!(!c.is_solved());
    c.phase_1_move(Move::R1);

    assert!(c.is_valid());
    assert!(!c.is_solved());
    c.phase_1_move(Move::B1);

    assert!(c.is_valid());
    assert!(!c.is_solved());
    c.phase_1_move(Move::U3);

    assert!(c.is_valid());
    assert!(!c.is_solved());
    c.phase_1_move(Move::B3);

    assert!(c.is_valid());
    assert!(!c.is_solved());
    c.phase_1_move(Move::D1);

    assert!(c.is_valid());
    assert!(!c.is_solved());
    c.phase_1_move(Move::F3);

    assert!(c.is_valid());
    assert!(!c.is_solved());
    c.phase_1_move(Move::U2);

    assert!(c.is_valid());
    assert!(!c.is_solved());
    c.phase_1_move(Move::F3);

    assert!(c.is_valid());
    assert!(!c.is_solved());
    c.phase_1_move(Move::R1);

    assert!(c.is_valid());
    assert!(!c.is_solved());
    c.phase_1_move(Move::U1);

    assert!(c.is_valid());
    assert!(!c.is_solved());
    c.phase_1_move(Move::R3);

    assert!(c.is_valid());
    assert!(!c.is_solved());
    c.phase_1_move(Move::L2);

    assert!(c.is_valid());
    assert!(!c.is_solved());
    c.phase_1_move(Move::U1);

    assert!(c.is_valid());
    assert!(!c.is_solved());
    c.phase_1_move(Move::L2);

    assert!(c.is_valid());
    assert!(!c.is_solved());
    c.phase_1_move(Move::D3);

    assert!(c.is_valid());
    assert!(!c.is_solved());
    c.phase_1_move(Move::L2);

    assert!(c.is_valid());
    assert!(!c.is_solved());
    c.phase_1_move(Move::D2);

    assert!(c.is_valid());
    assert!(!c.is_solved());
    c.phase_1_move(Move::F2);

    assert!(c.is_valid());
    assert!(!c.is_solved());
    c.phase_1_move(Move::D1);

    assert!(c.is_valid());
    assert!(c.is_solved());
}

#[test]
fn moves_sexy_move() {
    let mut c = CubieRepr::default();

    for _ in 0..6 {
        c.phase_1_move(Move::U1);
        c.phase_1_move(Move::F1);
        c.phase_1_move(Move::U3);
        c.phase_1_move(Move::F3);
    }

    assert!(c.is_valid());
    assert!(c.is_solved());
}

#[test]
fn hundred_thousand_moves() {
    let mut c = CubieRepr::default();

    for _ in 0..100 {
        c.phase_1_move(Move::F1);
        c.phase_1_move(Move::R1);
        c.phase_1_move(Move::F3);
        c.phase_1_move(Move::U1);
        c.phase_1_move(Move::B2);
        c.phase_1_move(Move::L3);
        c.phase_1_move(Move::D3);
        c.phase_1_move(Move::R2);
        c.phase_1_move(Move::L1);
        c.phase_1_move(Move::B2);
        c.phase_1_move(Move::F3);
        c.phase_1_move(Move::D1);
        c.phase_1_move(Move::U2);
        c.phase_1_move(Move::R1);
        c.phase_1_move(Move::B1);
        c.phase_1_move(Move::U3);
        c.phase_1_move(Move::B3);
        c.phase_1_move(Move::D1);
        c.phase_1_move(Move::F3);
        c.phase_1_move(Move::U2);
        c.phase_1_move(Move::F3);
        c.phase_1_move(Move::R1);
        c.phase_1_move(Move::U1);
        c.phase_1_move(Move::R3);
        c.phase_1_move(Move::L2);
        c.phase_1_move(Move::U1);
        c.phase_1_move(Move::L2);
        c.phase_1_move(Move::D3);
        c.phase_1_move(Move::L2);
        c.phase_1_move(Move::D2);
        c.phase_1_move(Move::F2);
        c.phase_1_move(Move::D1);
        c.phase_1_move(Move::F1);
        c.phase_1_move(Move::R1);
        c.phase_1_move(Move::F3);
        c.phase_1_move(Move::U1);
        c.phase_1_move(Move::B2);
        c.phase_1_move(Move::L3);
        c.phase_1_move(Move::D3);
        c.phase_1_move(Move::R2);
        c.phase_1_move(Move::L2);
        c.phase_1_move(Move::L3);
        c.phase_1_move(Move::B2);
        c.phase_1_move(Move::F3);
        c.phase_1_move(Move::D1);
        c.phase_1_move(Move::U2);
        c.phase_1_move(Move::R1);
        c.phase_1_move(Move::B1);
        c.phase_1_move(Move::U3);
        c.phase_1_move(Move::B3);
        c.phase_1_move(Move::D1);
        c.phase_1_move(Move::F3);
        c.phase_1_move(Move::U1);
        c.phase_1_move(Move::U1);
        c.phase_1_move(Move::F3);
        c.phase_1_move(Move::R1);
        c.phase_1_move(Move::U1);
        c.phase_1_move(Move::R3);
        c.phase_1_move(Move::L2);
        c.phase_1_move(Move::U1);
        c.phase_1_move(Move::L2);
        c.phase_1_move(Move::D3);
        c.phase_1_move(Move::L2);
        c.phase_1_move(Move::D2);
        c.phase_1_move(Move::F2);
        c.phase_1_move(Move::D1);
        c.phase_1_move(Move::F1);
        c.phase_1_move(Move::R1);
        c.phase_1_move(Move::F3);
        c.phase_1_move(Move::U1);
        c.phase_1_move(Move::B2);
        c.phase_1_move(Move::L3);
        c.phase_1_move(Move::D3);
        c.phase_1_move(Move::R2);
        c.phase_1_move(Move::L1);
        c.phase_1_move(Move::B2);
        c.phase_1_move(Move::F2);
        c.phase_1_move(Move::F1);
        c.phase_1_move(Move::D1);
        c.phase_1_move(Move::U2);
        c.phase_1_move(Move::R1);
        c.phase_1_move(Move::B1);
        c.phase_1_move(Move::U3);
        c.phase_1_move(Move::B3);
        c.phase_1_move(Move::D1);
        c.phase_1_move(Move::F3);
        c.phase_1_move(Move::U2);
        c.phase_1_move(Move::F3);
        c.phase_1_move(Move::R1);
        c.phase_1_move(Move::U1);
        c.phase_1_move(Move::R3);
        c.phase_1_move(Move::L2);
        c.phase_1_move(Move::U1);
        c.phase_1_move(Move::L2);
        c.phase_1_move(Move::D3);
        c.phase_1_move(Move::L1);
        c.phase_1_move(Move::L1);
        c.phase_1_move(Move::D2);
        c.phase_1_move(Move::F2);
        c.phase_1_move(Move::D1);
    }

    assert!(c.is_valid());
    assert!(c.is_solved());
}

#[test]
fn moves_test_apply() {
    let mut c = CubieRepr::new();

    c.phase_1_move(Move::R1);
    c.phase_1_move(Move::U1);
    c.phase_1_move(Move::R3);
    c.phase_1_move(Move::U3);

    let i = c.get_index();
    let o = c.get_orient();

    let mut c2 = CubieRepr::new();

    for _ in 0..6 {
        c2.apply(i, &o);
    }

    assert!(c2.is_solved());
}

#[test]
fn moves_test_2_move_apply() {
    let mut c = CubieRepr::new();

    c.phase_1_move(Move::R1);
    c.phase_1_move(Move::U1);

    let i = c.get_index();
    let o = c.get_orient();

    let mut c2 = CubieRepr::new();
    c2.apply(i, &o);
    let mut count = 1;
    while !c2.is_solved() {
        count += 1;
        c2.apply(i, &o);
    }

    assert_eq!(count, 105);
}

#[test]
fn moves_test_long_apply() {
    let mut c = CubieRepr::new();

    c.phase_1_move(Move::R1);
    c.phase_1_move(Move::U2);
    c.phase_1_move(Move::D3);
    c.phase_1_move(Move::B1);
    c.phase_1_move(Move::D3);

    let i = c.get_index();
    let o = c.get_orient();

    let mut c2 = CubieRepr::new();
    c2.apply(i, &o);
    let mut count = 1;
    while !c2.is_solved() {
        count += 1;
        c2.apply(i, &o);
    }
    assert_eq!(count, 1260);
}

#[test]
fn half_turns_match_phase_2_moves() {
    let mut a = CubieRepr::new();
    let mut b = CubieRepr::new();
    a.phase_1_move(Move::R2);
    a.phase_1_move(Move::U1);
    a.phase_1_move(Move::F2);
    b.phase_2_move(Phase2Move::R2);
    b.phase_2_move(Phase2Move::U1);
    b.phase_2_move(Phase2Move::F2);
    assert!(a == b);
    assert!(!a.is_solved());
}

#[test]
fn quarter_turn_bytes() {
    let mut c = CubieRepr::new();
    c.phase_1_move(Move::F1);
    assert_eq!(c.corner_perm, [1, 5, 2, 3, 0, 4, 6, 7]);
    assert_eq!(c.corner_orient, [1, 2, 0, 0, 2, 1, 0, 0]);
    assert_eq!(c.edge_perm, [5, 1, 4, 3, 0, 2, 6, 7, 8, 9, 10, 11]);
    assert_eq!(c.edge_orient, [1, 0, 1, 0, 1, 1, 0, 0, 0, 0, 0, 0]);
    let bytes = c.into_array();
    assert_eq!(CubieRepr::from_array_unchecked(bytes), c);
    assert_eq!(&bytes[0..8], &c.corner_perm[..]);
    assert_eq!(&bytes[16..28], &c.edge_orient[..]);
}

#[test]
fn index_and_orient_of_a_cube() {
    let mut c = CubieRepr::new();
    c.phase_1_move(Move::U1);
    let i = c.get_index();
    assert_eq!(&i[0..8], &[2, 0, 3, 1, 4, 5, 6, 7]);
    assert_eq!(&i[8..16], &[10, 8, 11, 9, 12, 13, 14, 15]);
    assert_eq!(&i[28..40], &[36, 37, 30, 31, 32, 33, 34, 35, 29, 28, 38, 39]);
    assert_eq!(c.get_orient(), [0u8; 20]);
}

#[test]
fn invalid_cube_is_not_valid() {
    let mut c = CubieRepr::new();
    c.corner_perm[0] = 1;
    assert!(!c.is_valid());
    let mut c = CubieRepr::new();
    c.edge_perm[11] = 12;
    assert!(!c.is_valid());
    assert!(CubieRepr::default().is_valid());
}

#[test]
fn apply_reads_zero_past_the_bytes() {
    let c = CubieRepr::new();
    let mut idx = c.get_index();
    idx[0] = 45;
    idx[1] = 100;
    let mut d = CubieRepr::new();
    d.apply(idx, &[0u8; 20]);
    assert_eq!(d.corner_perm[0], 0);
    assert_eq!(d.corner_perm[1], 1);
    let mut idx = c.get_index();
    idx[2] = 45;
    let mut d = CubieRepr::new();
    d.apply(idx, &[0u8; 20]);
    assert_eq!(d.corner_perm[2], 0);
    assert!(!d.is_valid());
}

#[test]
fn mirror_of_a_front_turn() {
    let mut c = CubieRepr::new();
    c.phase_1_move(Move::F1);
    let m = c.apply_w_const();
    assert_eq!(m.corner_perm, [5, 1, 3, 2, 4, 0, 7, 6]);
    assert_eq!(m.corner_orient, [1, 2, 0, 0, 2, 1, 0, 0]);
    assert_eq!(m.edge_orient, [1, 0, 1, 0, 1, 1, 0, 0, 0, 0, 0, 0]);
    assert_eq!(m.edge_perm, [5, 1, 4, 3, 2, 0, 7, 6, 9, 8, 11, 10]);
    assert_eq!(m.apply_w_const(), c);
    assert_eq!(c.apply_w_const_no_orient().apply_w_const_only_orient(), m);
    let s = CubieRepr::new().apply_w_const();
    assert_eq!(s.corner_perm, [1, 0, 3, 2, 5, 4, 7, 6]);
    assert_eq!(s.edge_perm, [0, 1, 2, 3, 5, 4, 7, 6, 9, 8, 11, 10]);
    assert_eq!(s.corner_orient, [0; 8]);
}

#[test]
fn move_notation_strings() {
    let all: Vec<&str> = Move::all_iter().into_iter().map(|m| m.notation()).collect();
    assert_eq!(
        all,
        vec![
            "U", "U2", "U'", "D", "D2", "D'", "F", "F2", "F'", "B", "B2", "B'", "R", "R2", "R'",
            "L", "L2", "L'"
        ]
    );
}

#[test]
fn applying_a_moved_cube_is_making_the_move() {
    let mut d = CubieRepr::new();
    for m in [Move::R1, Move::U2, Move::F3, Move::B1, Move::L3, Move::D2] {
        d.phase_1_move(m);
    }
    for m in Move::all_iter() {
        let mut c = CubieRepr::new();
        c.phase_1_move(m);
        let mut by_apply = d;
        by_apply.apply(c.get_index(), &c.get_orient());
        let mut by_move = d;
        by_move.phase_1_move(m);
        assert_eq!(by_apply, by_move);
        assert!(by_move.is_valid());
    }
}
