use kociemba::moves::{Move, Phase2Move};
use kociemba::three_solver::CubieRepr;

#[test]
fn coord_test() {
    let c = CubieRepr::default();

    // phase 1
    assert_eq!(c.coord_corner_orient().0, 0);
    assert_eq!(c.coord_edge_orient().0, 0);
    assert_eq!(c.coord_edge_grouping().0, 0);

    // phase 2
    assert_eq!(c.coord_corner_perm().0, 0);
    assert_eq!(c.coord_ud_edge_perm().0, 0);
    assert_eq!(c.coord_e_edge_perm().0, 0);
}

#[test]
fn coord_move_test() {
    let mut c = CubieRepr::default();
    for face in [
        [Move::U1, Move::U2, Move::U3, Move::U2],
        [Move::D1, Move::D2, Move::D3, Move::D2],
        [Move::F1, Move::F2, Move::F3, Move::F2],
        [Move::B1, Move::B2, Move::B3, Move::B2],
        [Move::R1, Move::R2, Move::R3, Move::R2],
        [Move::L1, Move::L2, Move::L3, Move::L2],
    ] {
        for m in face {
            c.phase_1_move(m);
        }
        assert!(c.is_valid());
        assert!(c.is_solved());
    }
}

#[test]
fn three_solver_sexy_move() {
    let mut c = CubieRepr::default();

    for _ in 0..6 {
        c.phase_1_move(Move::U1);
        c.phase_1_move(Move::F1);
        c.phase_1_move(Move::U3);
        c.phase_1_move(Move::F3);
    }

    assert!(c.is_valid());
    assert!(c.is_solved());
}

#[test]
fn moves_change_coordinates() {
    let mut c = CubieRepr::default();
    c.phase_1_move(Move::F1);
    assert!(c.coord_corner_orient().0 != 0);
    assert!(c.coord_edge_orient().0 != 0);
    assert!(!c.is_solved());
    c.phase_1_move(Move::F3);
    assert!(c.is_solved());
    assert_eq!(c.coord_corner_orient().0, 0);
    assert_eq!(c.coord_edge_orient().0, 0);
    c.phase_2_move(Phase2Move::R2);
    assert!(c.coord_corner_perm().0 != 0);
    assert_eq!(c.coord_corner_orient().0, 0);
    c.phase_2_move(Phase2Move::R2);
    assert!(c.is_solved());
}
