use kociemba::coords::{EEdgePermCoord, UDEdgePermCoord};
use kociemba::cube_ops::coords::{CornerOrientRawCoord, CornerPermSymCoord, EdgeGroupOrientSymCoord};
use kociemba::cube_ops::phase_1_repr::Phase1InitRepr;
use kociemba::cube_ops::repr_coord::{SymReducedRepr, Unpacked};
use kociemba::moves::Move;
use kociemba::repr_cubie::ReprCube;
use kociemba::repr_phase_2::ReprPhase2;

#[test]
fn solved_cube_faces_are_uniform() {
    let colors = ReprCube::solved().facelet_colors();
    for f in 0..6 {
        for p in 0..9 {
            assert_eq!(colors[9 * f + p] as usize, f);
        }
    }
}

#[test]
fn a_quarter_turn_of_u_keeps_the_u_face() {
    let colors = ReprCube::from_move(Move::U1).facelet_colors();
    for p in 0..9 {
        assert_eq!(colors[p], 0);
        assert_eq!(colors[9 + p], 1);
    }
    // the top row of the front face now shows another side's color
    assert!(colors[18] != 2);
    // each color appears nine times
    for c in 0..6u8 {
        assert_eq!(colors.iter().filter(|x| **x == c).count(), 9);
    }
}

#[test]
fn init_repr_index_round_trip() {
    let r = Phase1InitRepr {
        edge_group_orient: EdgeGroupOrientSymCoord(64429),
        corner_orient: CornerOrientRawCoord(2186),
    };
    let i = r.into_index();
    assert_eq!(i, 64429 * 2187 + 2186);
    assert_eq!(Phase1InitRepr::from_index(i), r);
    assert!(Phase1InitRepr::solved().is_domino_reduced());
    assert!(!r.is_domino_reduced());
    assert_eq!(Phase1InitRepr::from_index(0), Phase1InitRepr::solved());
}

#[test]
fn packed_words_unpack_by_phase() {
    let solved = SymReducedRepr([0, 0, 0, 0]);
    assert!(solved.is_solved());
    assert!(solved.is_phase_1_solved());
    match solved.unpack() {
        Unpacked::Phase2(p) => {
            assert_eq!(p.corner_perm_combo_coord.sym_coord, CornerPermSymCoord(0));
            assert_eq!(p.e_edge_perm_raw_coord.0, 0);
            assert_eq!(p.ud_edge_perm_raw_coord.0, 0);
        }
        Unpacked::Phase1(_) => panic!("a solved cube is in phase 2"),
    }

    let phase1 = SymReducedRepr([7, (3 << 12) | 100, (0b1011 << 12) | 2000, 0x1235]);
    assert!(!phase1.is_solved());
    assert!(!phase1.is_phase_1_solved());
    match phase1.unpack() {
        Unpacked::Phase1(p) => {
            assert_eq!(p.edge_group_orient_combo_coord.sym_coord, EdgeGroupOrientSymCoord(7));
            assert_eq!(p.corner_perm_combo_coord.domino_conjugation.0, 3);
            assert_eq!(p.corner_orient_raw_coord, CornerOrientRawCoord(100));
            assert_eq!(p.corner_perm_combo_coord.sym_coord, CornerPermSymCoord(2000));
            // four high bits, then the parity of the last two words
            assert_eq!(p.e_edge_perm_raw_coord.0, 0b10111);
            assert_eq!(p.ud_edge_perm_raw_coord.0, 0x1235);
        }
        Unpacked::Phase2(_) => panic!("phase 1 is not solved"),
    }

    let phase2 = SymReducedRepr([0, 0, (0b0110 << 12) | 5, 2]);
    assert!(phase2.is_phase_1_solved());
    match phase2.unpack() {
        Unpacked::Phase2(p) => {
            assert_eq!(p.corner_perm_combo_coord.sym_coord, CornerPermSymCoord(5));
            assert_eq!(p.e_edge_perm_raw_coord.0, 0b01101);
        }
        Unpacked::Phase1(_) => panic!("phase 1 is solved"),
    }
}

#[test]
fn phase_2_completion() {
    let done = ReprPhase2 {
        sym_corner_perm: CornerPermSymCoord(0),
        ud_edge_perm: UDEdgePermCoord::from(0),
        e_edge_perm: EEdgePermCoord::from(0),
    };
    assert!(done.is_complete());
    let not_done = ReprPhase2 {
        sym_corner_perm: CornerPermSymCoord(0),
        ud_edge_perm: UDEdgePermCoord::from(3),
        e_edge_perm: EEdgePermCoord::from(0),
    };
    assert!(!not_done.is_complete());
}
