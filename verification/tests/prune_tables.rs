use kociemba::cube_ops::coords::{CornerPermSymCoord, UDEdgePermRawCoord};
use kociemba::cube_ops::corner_perm_combo_coord::CornerPermComboCoord;
use kociemba::cube_ops::cube_sym::DominoSymmetry;
use kociemba::tables::prune_phase_2::{
    bottom_up_distances, bottom_up_level_step, pack_distance, pack_distances, PartialPhase2,
    TABLE_ENTRY_COUNT,
};

#[test]
fn partial_phase_2_index_round_trip() {
    for index in [0usize, 1, 40319, 40320, 40321, 12902505, TABLE_ENTRY_COUNT - 1] {
        let p = PartialPhase2::from_index(index);
        assert_eq!(p.corner_perm_combo_coord.domino_conjugation, DominoSymmetry(0));
        assert_eq!(p.into_index(), index);
    }
    let p = PartialPhase2 {
        corner_perm_combo_coord: CornerPermComboCoord {
            sym_coord: CornerPermSymCoord(2767),
            domino_conjugation: DominoSymmetry(0),
        },
        ud_edge_perm_raw_coord: UDEdgePermRawCoord(40319),
    };
    assert_eq!(p.into_index(), TABLE_ENTRY_COUNT - 1);
    assert_eq!(PartialPhase2::from_index(p.into_index()), p);
    assert_eq!(PartialPhase2::from_index(81000).ud_edge_perm_raw_coord, UDEdgePermRawCoord(360));
    assert_eq!(PartialPhase2::from_index(81000).corner_perm_combo_coord.sym_coord, CornerPermSymCoord(2));
}

/// A path 0 - 1 - 2 - 3 with a branch 1 - 4, and a state 5 joined to nothing.
fn small_graph() -> Vec<Vec<usize>> {
    vec![vec![1], vec![0, 2, 4], vec![1, 3], vec![2], vec![1], vec![]]
}

#[test]
fn level_step_reaches_neighbours_of_the_level() {
    let adjacent = small_graph();
    let mut table = vec![1, 0, 0, 0, 0, 0];
    let next = bottom_up_level_step(&mut table, 0, &adjacent);
    assert_eq!(next, vec![1]);
    assert_eq!(table, vec![1, 2, 0, 0, 0, 0]);
    let next = bottom_up_level_step(&mut table, 1, &adjacent);
    assert_eq!(next, vec![2, 4]);
    assert_eq!(table, vec![1, 2, 3, 0, 3, 0]);
    let next = bottom_up_level_step(&mut table, 0, &adjacent);
    assert!(next.is_empty());
    assert_eq!(table, vec![1, 2, 3, 0, 3, 0]);
}

#[test]
fn distances_from_the_root() {
    let adjacent = small_graph();
    assert_eq!(bottom_up_distances(&adjacent, 0), vec![1, 2, 3, 4, 3, 0]);
    assert_eq!(bottom_up_distances(&adjacent, 3), vec![4, 3, 2, 1, 4, 0]);
    assert_eq!(bottom_up_distances(&adjacent, 5), vec![0, 0, 0, 0, 0, 1]);
}

#[test]
fn distances_pack_into_nibbles() {
    assert_eq!(pack_distance(0), 0);
    assert_eq!(pack_distance(3), 0);
    assert_eq!(pack_distance(4), 1);
    assert_eq!(pack_distance(18), 15);
    assert_eq!(pack_distance(40), 15);
    let working = vec![1, 5, 8, 20, 30];
    assert_eq!(pack_distances(&working), vec![0x10, 0xf4, 0x0f]);
}

use kociemba::cube_ops::coords::{CornerOrientRawCoord, EdgeGroupOrientSymCoord};
use kociemba::cube_ops::phase_1_repr::Phase1InitRepr;
use kociemba::tables::prune_phase_1::{
    top_down_distances, top_down_level_step, visited_index, write_index, PrunePhase1Table,
};

#[test]
fn two_bit_entries_are_written_once() {
    let mut table = vec![0u8; 2];
    assert!(write_index(&mut table, 0, 0));
    assert!(write_index(&mut table, 5, 4));
    assert!(!write_index(&mut table, 5, 0));
    assert!(write_index(&mut table, 3, 2));
    assert_eq!(table, vec![0b1100_0001, 0b0000_1000]);
    assert!(visited_index(&table, 0));
    assert!(!visited_index(&table, 1));
    assert!(visited_index(&table, 3));
    assert!(visited_index(&table, 5));
    assert!(!visited_index(&table, 7));
}

#[test]
fn top_down_step_marks_unreached_neighbours() {
    let adjacent = small_graph();
    let mut table = vec![0u8; 2];
    assert!(write_index(&mut table, 0, 0));
    let next = top_down_level_step(&mut table, 0, &vec![0], &adjacent);
    assert_eq!(next, vec![1]);
    let next = top_down_level_step(&mut table, 1, &next, &adjacent);
    assert_eq!(next, vec![2, 4]);
    let next = top_down_level_step(&mut table, 2, &next, &adjacent);
    assert_eq!(next, vec![3]);
    let next = top_down_level_step(&mut table, 3, &next, &adjacent);
    assert!(next.is_empty());
    // distances 0, 1, 2, 3, 2 and unreached, as d % 3 + 1
    assert_eq!(table, vec![0b01_11_10_01, 0b00_00_00_11]);
    let pruning = PrunePhase1Table(table);
    let at = |i: u16| Phase1InitRepr {
        edge_group_orient: EdgeGroupOrientSymCoord(0),
        corner_orient: CornerOrientRawCoord(i),
    };
    assert_eq!(pruning.get_value(at(0)), 0);
    assert_eq!(pruning.get_value(at(2)), 2);
    assert_eq!(pruning.get_value(at(3)), 0);
    assert_eq!(pruning.get_value(at(4)), 2);
}

#[test]
fn top_down_distances_modulo_three() {
    let adjacent = small_graph();
    let (table, levels) = top_down_distances(&adjacent, 0);
    assert_eq!(levels, 4);
    assert_eq!(table, vec![0b01_11_10_01, 0b00_00_00_11]);
    let (table, levels) = top_down_distances(&adjacent, 5);
    assert_eq!(levels, 1);
    assert_eq!(table, vec![0, 0b00_00_01_00]);
}
