use vstd::prelude::*;
use crate::moves::{phase_2_as_move, Move, Phase2Move};
use crate::conjugation::{
    conj_tail_state, law_conjugation_identity, lemma_mirror_then, lemma_prefix_parts, lemma_suffix_parts,
};
use crate::repr_cubie::{
    composable, conj_prefix_state, conj_state, conjugations_composable, law_then_associative,
    lemma_moves_wf, lemma_then_wf, move_state, phase_2_turns_composable, turns_composable,
    mirror_corners, solved_state, state_then, state_wf, CubeState,
    S_LR2_PARTIAL_CORNER_PERM, S_LR2_PARTIAL_EDGE_PERM, S_LR2_PARTIAL_CORNER_ORIENT, S_LR2_PARTIAL_EDGE_ORIENT, S_U4_1_CORNER_PERM, S_U4_1_EDGE_PERM, S_U4_1_CORNER_ORIENT, S_U4_1_EDGE_ORIENT, S_U4_2_CORNER_PERM, S_U4_2_EDGE_PERM, S_U4_2_CORNER_ORIENT, S_U4_2_EDGE_ORIENT, S_U4_3_CORNER_PERM, S_U4_3_EDGE_PERM, S_U4_3_CORNER_ORIENT, S_U4_3_EDGE_ORIENT, S_F2_CORNER_PERM, S_F2_EDGE_PERM, S_F2_CORNER_ORIENT, S_F2_EDGE_ORIENT, SOLVED_CORNER_PERM, SOLVED_EDGE_PERM, SOLVED_CORNER_ORIENT, SOLVED_EDGE_ORIENT,
};
use crate::symmetries::{
    law_transform_group, lemma_tables_in_range, TRANSFORM_COMPOSE_LOOKUP, TRANSFORM_INVERT_LOOKUP,
};

verus! {

/// The prefix of the conjugation by each transform, written out.
pub open spec fn prefix_table(t: u8) -> CubeState {
    match t {
        0 => CubeState { corner_perm: seq![0u8, 1, 2, 3, 4, 5, 6, 7], edge_perm: seq![0u8, 1, 2, 3, 4, 5, 6, 7, 8, 9, 10, 11], corner_orient: seq![0u8, 0, 0, 0, 0, 0, 0, 0], edge_orient: seq![0u8, 0, 0, 0, 0, 0, 0, 0, 0, 0, 0, 0] },
        1 => CubeState { corner_perm: seq![1u8, 0, 3, 2, 5, 4, 7, 6], edge_perm: seq![0u8, 1, 3, 2, 4, 5, 7, 6, 9, 8, 11, 10], corner_orient: seq![0u8, 0, 0, 0, 0, 0, 0, 0], edge_orient: seq![0u8, 0, 0, 0, 0, 0, 0, 0, 0, 0, 0, 0] },
        2 => CubeState { corner_perm: seq![1u8, 3, 0, 2, 5, 7, 4, 6], edge_perm: seq![3u8, 2, 0, 1, 7, 6, 4, 5, 9, 11, 8, 10], corner_orient: seq![0u8, 0, 0, 0, 0, 0, 0, 0], edge_orient: seq![0u8, 0, 0, 0, 0, 0, 0, 0, 1, 1, 1, 1] },
        3 => CubeState { corner_perm: seq![0u8, 2, 1, 3, 4, 6, 5, 7], edge_perm: seq![2u8, 3, 0, 1, 6, 7, 4, 5, 8, 10, 9, 11], corner_orient: seq![0u8, 0, 0, 0, 0, 0, 0, 0], edge_orient: seq![0u8, 0, 0, 0, 0, 0, 0, 0, 1, 1, 1, 1] },
        4 => CubeState { corner_perm: seq![3u8, 2, 1, 0, 7, 6, 5, 4], edge_perm: seq![1u8, 0, 3, 2, 5, 4, 7, 6, 11, 10, 9, 8], corner_orient: seq![0u8, 0, 0, 0, 0, 0, 0, 0], edge_orient: seq![0u8, 0, 0, 0, 0, 0, 0, 0, 0, 0, 0, 0] },
        5 => CubeState { corner_perm: seq![2u8, 3, 0, 1, 6, 7, 4, 5], edge_perm: seq![1u8, 0, 2, 3, 5, 4, 6, 7, 10, 11, 8, 9], corner_orient: seq![0u8, 0, 0, 0, 0, 0, 0, 0], edge_orient: seq![0u8, 0, 0, 0, 0, 0, 0, 0, 0, 0, 0, 0] },
        6 => CubeState { corner_perm: seq![2u8, 0, 3, 1, 6, 4, 7, 5], edge_perm: seq![2u8, 3, 1, 0, 6, 7, 5, 4, 10, 8, 11, 9], corner_orient: seq![0u8, 0, 0, 0, 0, 0, 0, 0], edge_orient: seq![0u8, 0, 0, 0, 0, 0, 0, 0, 1, 1, 1, 1] },
        7 => CubeState { corner_perm: seq![3u8, 1, 2, 0, 7, 5, 6, 4], edge_perm: seq![3u8, 2, 1, 0, 7, 6, 5, 4, 11, 9, 10, 8], corner_orient: seq![0u8, 0, 0, 0, 0, 0, 0, 0], edge_orient: seq![0u8, 0, 0, 0, 0, 0, 0, 0, 1, 1, 1, 1] },
        8 => CubeState { corner_perm: seq![5u8, 4, 7, 6, 1, 0, 3, 2], edge_perm: seq![4u8, 5, 7, 6, 0, 1, 3, 2, 9, 8, 11, 10], corner_orient: seq![0u8, 0, 0, 0, 0, 0, 0, 0], edge_orient: seq![0u8, 0, 0, 0, 0, 0, 0, 0, 0, 0, 0, 0] },
        9 => CubeState { corner_perm: seq![4u8, 5, 6, 7, 0, 1, 2, 3], edge_perm: seq![4u8, 5, 6, 7, 0, 1, 2, 3, 8, 9, 10, 11], corner_orient: seq![0u8, 0, 0, 0, 0, 0, 0, 0], edge_orient: seq![0u8, 0, 0, 0, 0, 0, 0, 0, 0, 0, 0, 0] },
        10 => CubeState { corner_perm: seq![7u8, 5, 6, 4, 3, 1, 2, 0], edge_perm: seq![7u8, 6, 5, 4, 3, 2, 1, 0, 11, 9, 10, 8], corner_orient: seq![0u8, 0, 0, 0, 0, 0, 0, 0], edge_orient: seq![0u8, 0, 0, 0, 0, 0, 0, 0, 1, 1, 1, 1] },
        11 => CubeState { corner_perm: seq![6u8, 4, 7, 5, 2, 0, 3, 1], edge_perm: seq![6u8, 7, 5, 4, 2, 3, 1, 0, 10, 8, 11, 9], corner_orient: seq![0u8, 0, 0, 0, 0, 0, 0, 0], edge_orient: seq![0u8, 0, 0, 0, 0, 0, 0, 0, 1, 1, 1, 1] },
        12 => CubeState { corner_perm: seq![6u8, 7, 4, 5, 2, 3, 0, 1], edge_perm: seq![5u8, 4, 6, 7, 1, 0, 2, 3, 10, 11, 8, 9], corner_orient: seq![0u8, 0, 0, 0, 0, 0, 0, 0], edge_orient: seq![0u8, 0, 0, 0, 0, 0, 0, 0, 0, 0, 0, 0] },
        13 => CubeState { corner_perm: seq![7u8, 6, 5, 4, 3, 2, 1, 0], edge_perm: seq![5u8, 4, 7, 6, 1, 0, 3, 2, 11, 10, 9, 8], corner_orient: seq![0u8, 0, 0, 0, 0, 0, 0, 0], edge_orient: seq![0u8, 0, 0, 0, 0, 0, 0, 0, 0, 0, 0, 0] },
        14 => CubeState { corner_perm: seq![4u8, 6, 5, 7, 0, 2, 1, 3], edge_perm: seq![6u8, 7, 4, 5, 2, 3, 0, 1, 8, 10, 9, 11], corner_orient: seq![0u8, 0, 0, 0, 0, 0, 0, 0], edge_orient: seq![0u8, 0, 0, 0, 0, 0, 0, 0, 1, 1, 1, 1] },
        15 => CubeState { corner_perm: seq![5u8, 7, 4, 6, 1, 3, 0, 2], edge_perm: seq![7u8, 6, 4, 5, 3, 2, 0, 1, 9, 11, 8, 10], corner_orient: seq![0u8, 0, 0, 0, 0, 0, 0, 0], edge_orient: seq![0u8, 0, 0, 0, 0, 0, 0, 0, 1, 1, 1, 1] },
        _ => solved_state(),
    }
}

/// The tail of the conjugation by each transform, written out.
pub open spec fn tail_table(t: u8) -> CubeState {
    match t {
        0 => CubeState { corner_perm: seq![0u8, 1, 2, 3, 4, 5, 6, 7], edge_perm: seq![0u8, 1, 2, 3, 4, 5, 6, 7, 8, 9, 10, 11], corner_orient: seq![0u8, 0, 0, 0, 0, 0, 0, 0], edge_orient: seq![0u8, 0, 0, 0, 0, 0, 0, 0, 0, 0, 0, 0] },
        1 => CubeState { corner_perm: seq![1u8, 0, 3, 2, 5, 4, 7, 6], edge_perm: seq![0u8, 1, 3, 2, 4, 5, 7, 6, 9, 8, 11, 10], corner_orient: seq![0u8, 0, 0, 0, 0, 0, 0, 0], edge_orient: seq![0u8, 0, 0, 0, 0, 0, 0, 0, 0, 0, 0, 0] },
        2 => CubeState { corner_perm: seq![2u8, 0, 3, 1, 6, 4, 7, 5], edge_perm: seq![2u8, 3, 1, 0, 6, 7, 5, 4, 10, 8, 11, 9], corner_orient: seq![0u8, 0, 0, 0, 0, 0, 0, 0], edge_orient: seq![0u8, 0, 0, 0, 0, 0, 0, 0, 1, 1, 1, 1] },
        3 => CubeState { corner_perm: seq![0u8, 2, 1, 3, 4, 6, 5, 7], edge_perm: seq![2u8, 3, 0, 1, 6, 7, 4, 5, 8, 10, 9, 11], corner_orient: seq![0u8, 0, 0, 0, 0, 0, 0, 0], edge_orient: seq![0u8, 0, 0, 0, 0, 0, 0, 0, 1, 1, 1, 1] },
        4 => CubeState { corner_perm: seq![3u8, 2, 1, 0, 7, 6, 5, 4], edge_perm: seq![1u8, 0, 3, 2, 5, 4, 7, 6, 11, 10, 9, 8], corner_orient: seq![0u8, 0, 0, 0, 0, 0, 0, 0], edge_orient: seq![0u8, 0, 0, 0, 0, 0, 0, 0, 0, 0, 0, 0] },
        5 => CubeState { corner_perm: seq![2u8, 3, 0, 1, 6, 7, 4, 5], edge_perm: seq![1u8, 0, 2, 3, 5, 4, 6, 7, 10, 11, 8, 9], corner_orient: seq![0u8, 0, 0, 0, 0, 0, 0, 0], edge_orient: seq![0u8, 0, 0, 0, 0, 0, 0, 0, 0, 0, 0, 0] },
        6 => CubeState { corner_perm: seq![1u8, 3, 0, 2, 5, 7, 4, 6], edge_perm: seq![3u8, 2, 0, 1, 7, 6, 4, 5, 9, 11, 8, 10], corner_orient: seq![0u8, 0, 0, 0, 0, 0, 0, 0], edge_orient: seq![0u8, 0, 0, 0, 0, 0, 0, 0, 1, 1, 1, 1] },
        7 => CubeState { corner_perm: seq![3u8, 1, 2, 0, 7, 5, 6, 4], edge_perm: seq![3u8, 2, 1, 0, 7, 6, 5, 4, 11, 9, 10, 8], corner_orient: seq![0u8, 0, 0, 0, 0, 0, 0, 0], edge_orient: seq![0u8, 0, 0, 0, 0, 0, 0, 0, 1, 1, 1, 1] },
        8 => CubeState { corner_perm: seq![5u8, 4, 7, 6, 1, 0, 3, 2], edge_perm: seq![4u8, 5, 7, 6, 0, 1, 3, 2, 9, 8, 11, 10], corner_orient: seq![0u8, 0, 0, 0, 0, 0, 0, 0], edge_orient: seq![0u8, 0, 0, 0, 0, 0, 0, 0, 0, 0, 0, 0] },
        9 => CubeState { corner_perm: seq![4u8, 5, 6, 7, 0, 1, 2, 3], edge_perm: seq![4u8, 5, 6, 7, 0, 1, 2, 3, 8, 9, 10, 11], corner_orient: seq![0u8, 0, 0, 0, 0, 0, 0, 0], edge_orient: seq![0u8, 0, 0, 0, 0, 0, 0, 0, 0, 0, 0, 0] },
        10 => CubeState { corner_perm: seq![7u8, 5, 6, 4, 3, 1, 2, 0], edge_perm: seq![7u8, 6, 5, 4, 3, 2, 1, 0, 11, 9, 10, 8], corner_orient: seq![0u8, 0, 0, 0, 0, 0, 0, 0], edge_orient: seq![0u8, 0, 0, 0, 0, 0, 0, 0, 1, 1, 1, 1] },
        11 => CubeState { corner_perm: seq![5u8, 7, 4, 6, 1, 3, 0, 2], edge_perm: seq![7u8, 6, 4, 5, 3, 2, 0, 1, 9, 11, 8, 10], corner_orient: seq![0u8, 0, 0, 0, 0, 0, 0, 0], edge_orient: seq![0u8, 0, 0, 0, 0, 0, 0, 0, 1, 1, 1, 1] },
        12 => CubeState { corner_perm: seq![6u8, 7, 4, 5, 2, 3, 0, 1], edge_perm: seq![5u8, 4, 6, 7, 1, 0, 2, 3, 10, 11, 8, 9], corner_orient: seq![0u8, 0, 0, 0, 0, 0, 0, 0], edge_orient: seq![0u8, 0, 0, 0, 0, 0, 0, 0, 0, 0, 0, 0] },
        13 => CubeState { corner_perm: seq![7u8, 6, 5, 4, 3, 2, 1, 0], edge_perm: seq![5u8, 4, 7, 6, 1, 0, 3, 2, 11, 10, 9, 8], corner_orient: seq![0u8, 0, 0, 0, 0, 0, 0, 0], edge_orient: seq![0u8, 0, 0, 0, 0, 0, 0, 0, 0, 0, 0, 0] },
        14 => CubeState { corner_perm: seq![4u8, 6, 5, 7, 0, 2, 1, 3], edge_perm: seq![6u8, 7, 4, 5, 2, 3, 0, 1, 8, 10, 9, 11], corner_orient: seq![0u8, 0, 0, 0, 0, 0, 0, 0], edge_orient: seq![0u8, 0, 0, 0, 0, 0, 0, 0, 1, 1, 1, 1] },
        15 => CubeState { corner_perm: seq![6u8, 4, 7, 5, 2, 0, 3, 1], edge_perm: seq![6u8, 7, 5, 4, 2, 3, 1, 0, 10, 8, 11, 9], corner_orient: seq![0u8, 0, 0, 0, 0, 0, 0, 0], edge_orient: seq![0u8, 0, 0, 0, 0, 0, 0, 0, 1, 1, 1, 1] },
        _ => solved_state(),
    }
}
/// The symmetry cubes, written out.
proof fn lemma_symmetry_literals()
    ensures
        S_LR2_PARTIAL_CORNER_PERM@ == seq![1u8, 0, 3, 2, 5, 4, 7, 6],
        S_LR2_PARTIAL_EDGE_PERM@ == seq![0u8, 1, 3, 2, 4, 5, 7, 6, 9, 8, 11, 10],
        S_LR2_PARTIAL_CORNER_ORIENT@ == seq![0u8, 0, 0, 0, 0, 0, 0, 0],
        S_LR2_PARTIAL_EDGE_ORIENT@ == seq![0u8, 0, 0, 0, 0, 0, 0, 0, 0, 0, 0, 0],
        S_U4_1_CORNER_PERM@ == seq![2u8, 0, 3, 1, 6, 4, 7, 5],
        S_U4_1_EDGE_PERM@ == seq![2u8, 3, 1, 0, 6, 7, 5, 4, 10, 8, 11, 9],
        S_U4_1_CORNER_ORIENT@ == seq![0u8, 0, 0, 0, 0, 0, 0, 0],
        S_U4_1_EDGE_ORIENT@ == seq![0u8, 0, 0, 0, 0, 0, 0, 0, 1, 1, 1, 1],
        S_U4_2_CORNER_PERM@ == seq![3u8, 2, 1, 0, 7, 6, 5, 4],
        S_U4_2_EDGE_PERM@ == seq![1u8, 0, 3, 2, 5, 4, 7, 6, 11, 10, 9, 8],
        S_U4_2_CORNER_ORIENT@ == seq![0u8, 0, 0, 0, 0, 0, 0, 0],
        S_U4_2_EDGE_ORIENT@ == seq![0u8, 0, 0, 0, 0, 0, 0, 0, 0, 0, 0, 0],
        S_U4_3_CORNER_PERM@ == seq![1u8, 3, 0, 2, 5, 7, 4, 6],
        S_U4_3_EDGE_PERM@ == seq![3u8, 2, 0, 1, 7, 6, 4, 5, 9, 11, 8, 10],
        S_U4_3_CORNER_ORIENT@ == seq![0u8, 0, 0, 0, 0, 0, 0, 0],
        S_U4_3_EDGE_ORIENT@ == seq![0u8, 0, 0, 0, 0, 0, 0, 0, 1, 1, 1, 1],
        S_F2_CORNER_PERM@ == seq![5u8, 4, 7, 6, 1, 0, 3, 2],
        S_F2_EDGE_PERM@ == seq![4u8, 5, 7, 6, 0, 1, 3, 2, 9, 8, 11, 10],
        S_F2_CORNER_ORIENT@ == seq![0u8, 0, 0, 0, 0, 0, 0, 0],
        S_F2_EDGE_ORIENT@ == seq![0u8, 0, 0, 0, 0, 0, 0, 0, 0, 0, 0, 0],
        SOLVED_CORNER_PERM@ == seq![0u8, 1, 2, 3, 4, 5, 6, 7],
        SOLVED_EDGE_PERM@ == seq![0u8, 1, 2, 3, 4, 5, 6, 7, 8, 9, 10, 11],
        SOLVED_CORNER_ORIENT@ == seq![0u8, 0, 0, 0, 0, 0, 0, 0],
        SOLVED_EDGE_ORIENT@ == seq![0u8, 0, 0, 0, 0, 0, 0, 0, 0, 0, 0, 0],
{
    assert(S_LR2_PARTIAL_CORNER_PERM@ =~= seq![1u8, 0, 3, 2, 5, 4, 7, 6]);
    assert(S_LR2_PARTIAL_EDGE_PERM@ =~= seq![0u8, 1, 3, 2, 4, 5, 7, 6, 9, 8, 11, 10]);
    assert(S_LR2_PARTIAL_CORNER_ORIENT@ =~= seq![0u8, 0, 0, 0, 0, 0, 0, 0]);
    assert(S_LR2_PARTIAL_EDGE_ORIENT@ =~= seq![0u8, 0, 0, 0, 0, 0, 0, 0, 0, 0, 0, 0]);
    assert(S_U4_1_CORNER_PERM@ =~= seq![2u8, 0, 3, 1, 6, 4, 7, 5]);
    assert(S_U4_1_EDGE_PERM@ =~= seq![2u8, 3, 1, 0, 6, 7, 5, 4, 10, 8, 11, 9]);
    assert(S_U4_1_CORNER_ORIENT@ =~= seq![0u8, 0, 0, 0, 0, 0, 0, 0]);
    assert(S_U4_1_EDGE_ORIENT@ =~= seq![0u8, 0, 0, 0, 0, 0, 0, 0, 1, 1, 1, 1]);
    assert(S_U4_2_CORNER_PERM@ =~= seq![3u8, 2, 1, 0, 7, 6, 5, 4]);
    assert(S_U4_2_EDGE_PERM@ =~= seq![1u8, 0, 3, 2, 5, 4, 7, 6, 11, 10, 9, 8]);
    assert(S_U4_2_CORNER_ORIENT@ =~= seq![0u8, 0, 0, 0, 0, 0, 0, 0]);
    assert(S_U4_2_EDGE_ORIENT@ =~= seq![0u8, 0, 0, 0, 0, 0, 0, 0, 0, 0, 0, 0]);
    assert(S_U4_3_CORNER_PERM@ =~= seq![1u8, 3, 0, 2, 5, 7, 4, 6]);
    assert(S_U4_3_EDGE_PERM@ =~= seq![3u8, 2, 0, 1, 7, 6, 4, 5, 9, 11, 8, 10]);
    assert(S_U4_3_CORNER_ORIENT@ =~= seq![0u8, 0, 0, 0, 0, 0, 0, 0]);
    assert(S_U4_3_EDGE_ORIENT@ =~= seq![0u8, 0, 0, 0, 0, 0, 0, 0, 1, 1, 1, 1]);
    assert(S_F2_CORNER_PERM@ =~= seq![5u8, 4, 7, 6, 1, 0, 3, 2]);
    assert(S_F2_EDGE_PERM@ =~= seq![4u8, 5, 7, 6, 0, 1, 3, 2, 9, 8, 11, 10]);
    assert(S_F2_CORNER_ORIENT@ =~= seq![0u8, 0, 0, 0, 0, 0, 0, 0]);
    assert(S_F2_EDGE_ORIENT@ =~= seq![0u8, 0, 0, 0, 0, 0, 0, 0, 0, 0, 0, 0]);
    assert(SOLVED_CORNER_PERM@ =~= seq![0u8, 1, 2, 3, 4, 5, 6, 7]);
    assert(SOLVED_EDGE_PERM@ =~= seq![0u8, 1, 2, 3, 4, 5, 6, 7, 8, 9, 10, 11]);
    assert(SOLVED_CORNER_ORIENT@ =~= seq![0u8, 0, 0, 0, 0, 0, 0, 0]);
    assert(SOLVED_EDGE_ORIENT@ =~= seq![0u8, 0, 0, 0, 0, 0, 0, 0, 0, 0, 0, 0]);
}

/// The prefix and tail of the conjugation by 0, computed from the symmetries.
#[verifier::spinoff_prover]
proof fn lemma_parts_table_0()
    ensures
        conj_prefix_state(0) == prefix_table(0),
        conj_tail_state(0) == tail_table(0),
        mirror_corners(prefix_table(0)) == prefix_table(0),
        mirror_corners(tail_table(0)) == tail_table(0),
{
    lemma_symmetry_literals();
    assert(conj_prefix_state(0) =~~= prefix_table(0));
    assert(conj_tail_state(0) =~~= tail_table(0));
    assert(mirror_corners(prefix_table(0)) =~~= prefix_table(0));
    assert(mirror_corners(tail_table(0)) =~~= tail_table(0));
}

/// The prefix and tail of the conjugation by 1, computed from the symmetries.
#[verifier::spinoff_prover]
proof fn lemma_parts_table_1()
    ensures
        conj_prefix_state(1) == prefix_table(1),
        conj_tail_state(1) == tail_table(1),
        mirror_corners(prefix_table(1)) == prefix_table(1),
        mirror_corners(tail_table(1)) == tail_table(1),
{
    lemma_symmetry_literals();
    assert(conj_prefix_state(1) =~~= prefix_table(1));
    assert(conj_tail_state(1) =~~= tail_table(1));
    assert(mirror_corners(prefix_table(1)) =~~= prefix_table(1));
    assert(mirror_corners(tail_table(1)) =~~= tail_table(1));
}

/// The prefix and tail of the conjugation by 2, computed from the symmetries.
#[verifier::spinoff_prover]
proof fn lemma_parts_table_2()
    ensures
        conj_prefix_state(2) == prefix_table(2),
        conj_tail_state(2) == tail_table(2),
        mirror_corners(prefix_table(2)) == prefix_table(2),
        mirror_corners(tail_table(2)) == tail_table(2),
{
    lemma_symmetry_literals();
    assert(conj_prefix_state(2) =~~= prefix_table(2));
    assert(conj_tail_state(2) =~~= tail_table(2));
    assert(mirror_corners(prefix_table(2)) =~~= prefix_table(2));
    assert(mirror_corners(tail_table(2)) =~~= tail_table(2));
}

/// The prefix and tail of the conjugation by 3, computed from the symmetries.
#[verifier::spinoff_prover]
proof fn lemma_parts_table_3()
    ensures
        conj_prefix_state(3) == prefix_table(3),
        conj_tail_state(3) == tail_table(3),
        mirror_corners(prefix_table(3)) == prefix_table(3),
        mirror_corners(tail_table(3)) == tail_table(3),
{
    lemma_symmetry_literals();
    assert(conj_prefix_state(3) =~~= prefix_table(3));
    assert(conj_tail_state(3) =~~= tail_table(3));
    assert(mirror_corners(prefix_table(3)) =~~= prefix_table(3));
    assert(mirror_corners(tail_table(3)) =~~= tail_table(3));
}

/// The prefix and tail of the conjugation by 4, computed from the symmetries.
#[verifier::spinoff_prover]
proof fn lemma_parts_table_4()
    ensures
        conj_prefix_state(4) == prefix_table(4),
        conj_tail_state(4) == tail_table(4),
        mirror_corners(prefix_table(4)) == prefix_table(4),
        mirror_corners(tail_table(4)) == tail_table(4),
{
    lemma_symmetry_literals();
    assert(conj_prefix_state(4) =~~= prefix_table(4));
    assert(conj_tail_state(4) =~~= tail_table(4));
    assert(mirror_corners(prefix_table(4)) =~~= prefix_table(4));
    assert(mirror_corners(tail_table(4)) =~~= tail_table(4));
}

/// The prefix and tail of the conjugation by 5, computed from the symmetries.
#[verifier::spinoff_prover]
proof fn lemma_parts_table_5()
    ensures
        conj_prefix_state(5) == prefix_table(5),
        conj_tail_state(5) == tail_table(5),
        mirror_corners(prefix_table(5)) == prefix_table(5),
        mirror_corners(tail_table(5)) == tail_table(5),
{
    lemma_symmetry_literals();
    assert(conj_prefix_state(5) =~~= prefix_table(5));
    assert(conj_tail_state(5) =~~= tail_table(5));
    assert(mirror_corners(prefix_table(5)) =~~= prefix_table(5));
    assert(mirror_corners(tail_table(5)) =~~= tail_table(5));
}

/// The prefix and tail of the conjugation by 6, computed from the symmetries.
#[verifier::spinoff_prover]
proof fn lemma_parts_table_6()
    ensures
        conj_prefix_state(6) == prefix_table(6),
        conj_tail_state(6) == tail_table(6),
        mirror_corners(prefix_table(6)) == prefix_table(6),
        mirror_corners(tail_table(6)) == tail_table(6),
{
    lemma_symmetry_literals();
    assert(conj_prefix_state(6) =~~= prefix_table(6));
    assert(conj_tail_state(6) =~~= tail_table(6));
    assert(mirror_corners(prefix_table(6)) =~~= prefix_table(6));
    assert(mirror_corners(tail_table(6)) =~~= tail_table(6));
}

/// The prefix and tail of the conjugation by 7, computed from the symmetries.
#[verifier::spinoff_prover]
proof fn lemma_parts_table_7()
    ensures
        conj_prefix_state(7) == prefix_table(7),
        conj_tail_state(7) == tail_table(7),
        mirror_corners(prefix_table(7)) == prefix_table(7),
        mirror_corners(tail_table(7)) == tail_table(7),
{
    lemma_symmetry_literals();
    assert(conj_prefix_state(7) =~~= prefix_table(7));
    assert(conj_tail_state(7) =~~= tail_table(7));
    assert(mirror_corners(prefix_table(7)) =~~= prefix_table(7));
    assert(mirror_corners(tail_table(7)) =~~= tail_table(7));
}

/// The prefix and tail of the conjugation by 8, computed from the symmetries.
#[verifier::spinoff_prover]
proof fn lemma_parts_table_8()
    ensures
        conj_prefix_state(8) == prefix_table(8),
        conj_tail_state(8) == tail_table(8),
        mirror_corners(prefix_table(8)) == prefix_table(8),
        mirror_corners(tail_table(8)) == tail_table(8),
{
    lemma_symmetry_literals();
    assert(conj_prefix_state(8) =~~= prefix_table(8));
    assert(conj_tail_state(8) =~~= tail_table(8));
    assert(mirror_corners(prefix_table(8)) =~~= prefix_table(8));
    assert(mirror_corners(tail_table(8)) =~~= tail_table(8));
}

/// The prefix and tail of the conjugation by 9, computed from the symmetries.
#[verifier::spinoff_prover]
proof fn lemma_parts_table_9()
    ensures
        conj_prefix_state(9) == prefix_table(9),
        conj_tail_state(9) == tail_table(9),
        mirror_corners(prefix_table(9)) == prefix_table(9),
        mirror_corners(tail_table(9)) == tail_table(9),
{
    lemma_symmetry_literals();
    assert(conj_prefix_state(9) =~~= prefix_table(9));
    assert(conj_tail_state(9) =~~= tail_table(9));
    assert(mirror_corners(prefix_table(9)) =~~= prefix_table(9));
    assert(mirror_corners(tail_table(9)) =~~= tail_table(9));
}

/// The prefix and tail of the conjugation by 10, computed from the symmetries.
#[verifier::spinoff_prover]
proof fn lemma_parts_table_10()
    ensures
        conj_prefix_state(10) == prefix_table(10),
        conj_tail_state(10) == tail_table(10),
        mirror_corners(prefix_table(10)) == prefix_table(10),
        mirror_corners(tail_table(10)) == tail_table(10),
{
    lemma_symmetry_literals();
    assert(conj_prefix_state(10) =~~= prefix_table(10));
    assert(conj_tail_state(10) =~~= tail_table(10));
    assert(mirror_corners(prefix_table(10)) =~~= prefix_table(10));
    assert(mirror_corners(tail_table(10)) =~~= tail_table(10));
}

/// The prefix and tail of the conjugation by 11, computed from the symmetries.
#[verifier::spinoff_prover]
proof fn lemma_parts_table_11()
    ensures
        conj_prefix_state(11) == prefix_table(11),
        conj_tail_state(11) == tail_table(11),
        mirror_corners(prefix_table(11)) == prefix_table(11),
        mirror_corners(tail_table(11)) == tail_table(11),
{
    lemma_symmetry_literals();
    assert(conj_prefix_state(11) =~~= prefix_table(11));
    assert(conj_tail_state(11) =~~= tail_table(11));
    assert(mirror_corners(prefix_table(11)) =~~= prefix_table(11));
    assert(mirror_corners(tail_table(11)) =~~= tail_table(11));
}

/// The prefix and tail of the conjugation by 12, computed from the symmetries.
#[verifier::spinoff_prover]
proof fn lemma_parts_table_12()
    ensures
        conj_prefix_state(12) == prefix_table(12),
        conj_tail_state(12) == tail_table(12),
        mirror_corners(prefix_table(12)) == prefix_table(12),
        mirror_corners(tail_table(12)) == tail_table(12),
{
    lemma_symmetry_literals();
    assert(conj_prefix_state(12) =~~= prefix_table(12));
    assert(conj_tail_state(12) =~~= tail_table(12));
    assert(mirror_corners(prefix_table(12)) =~~= prefix_table(12));
    assert(mirror_corners(tail_table(12)) =~~= tail_table(12));
}

/// The prefix and tail of the conjugation by 13, computed from the symmetries.
#[verifier::spinoff_prover]
proof fn lemma_parts_table_13()
    ensures
        conj_prefix_state(13) == prefix_table(13),
        conj_tail_state(13) == tail_table(13),
        mirror_corners(prefix_table(13)) == prefix_table(13),
        mirror_corners(tail_table(13)) == tail_table(13),
{
    lemma_symmetry_literals();
    assert(conj_prefix_state(13) =~~= prefix_table(13));
    assert(conj_tail_state(13) =~~= tail_table(13));
    assert(mirror_corners(prefix_table(13)) =~~= prefix_table(13));
    assert(mirror_corners(tail_table(13)) =~~= tail_table(13));
}

/// The prefix and tail of the conjugation by 14, computed from the symmetries.
#[verifier::spinoff_prover]
proof fn lemma_parts_table_14()
    ensures
        conj_prefix_state(14) == prefix_table(14),
        conj_tail_state(14) == tail_table(14),
        mirror_corners(prefix_table(14)) == prefix_table(14),
        mirror_corners(tail_table(14)) == tail_table(14),
{
    lemma_symmetry_literals();
    assert(conj_prefix_state(14) =~~= prefix_table(14));
    assert(conj_tail_state(14) =~~= tail_table(14));
    assert(mirror_corners(prefix_table(14)) =~~= prefix_table(14));
    assert(mirror_corners(tail_table(14)) =~~= tail_table(14));
}

/// The prefix and tail of the conjugation by 15, computed from the symmetries.
#[verifier::spinoff_prover]
proof fn lemma_parts_table_15()
    ensures
        conj_prefix_state(15) == prefix_table(15),
        conj_tail_state(15) == tail_table(15),
        mirror_corners(prefix_table(15)) == prefix_table(15),
        mirror_corners(tail_table(15)) == tail_table(15),
{
    lemma_symmetry_literals();
    assert(conj_prefix_state(15) =~~= prefix_table(15));
    assert(conj_tail_state(15) =~~= tail_table(15));
    assert(mirror_corners(prefix_table(15)) =~~= prefix_table(15));
    assert(mirror_corners(tail_table(15)) =~~= tail_table(15));
}

/// The prefix and tail of each conjugation, written out.
proof fn lemma_parts_table(t: u8)
    requires
        t < 16,
    ensures
        conj_prefix_state(t) == prefix_table(t),
        conj_tail_state(t) == tail_table(t),
        mirror_corners(prefix_table(t)) == prefix_table(t),
        mirror_corners(tail_table(t)) == tail_table(t),
{
    if t == 0 {
        lemma_parts_table_0();
    } else if t == 1 {
        lemma_parts_table_1();
    } else if t == 2 {
        lemma_parts_table_2();
    } else if t == 3 {
        lemma_parts_table_3();
    } else if t == 4 {
        lemma_parts_table_4();
    } else if t == 5 {
        lemma_parts_table_5();
    } else if t == 6 {
        lemma_parts_table_6();
    } else if t == 7 {
        lemma_parts_table_7();
    } else if t == 8 {
        lemma_parts_table_8();
    } else if t == 9 {
        lemma_parts_table_9();
    } else if t == 10 {
        lemma_parts_table_10();
    } else if t == 11 {
        lemma_parts_table_11();
    } else if t == 12 {
        lemma_parts_table_12();
    } else if t == 13 {
        lemma_parts_table_13();
    } else if t == 14 {
        lemma_parts_table_14();
    } else if t == 15 {
        lemma_parts_table_15();
    }
}

/// Row 0 of the composition table, checked on the written-out prefixes and tails.
#[verifier::spinoff_prover]
#[verifier::rlimit(50)]
proof fn lemma_compose_row_0(b: u8)
    requires
        b < 16,
    ensures
        state_then(prefix_table(b), prefix_table(0)) == prefix_table(TRANSFORM_COMPOSE_LOOKUP@[0 * 16 + b]),
        state_then(tail_table(0), tail_table(b)) == tail_table(TRANSFORM_COMPOSE_LOOKUP@[0 * 16 + b]),
        TRANSFORM_COMPOSE_LOOKUP@[0 * 16 + b] < 16,
        (TRANSFORM_COMPOSE_LOOKUP@[0 * 16 + b] % 2 == 1) == ((0u8 % 2 == 1) != (b % 2 == 1)),
{
    if b == 0 {
        assert(TRANSFORM_COMPOSE_LOOKUP@[(0 * 16 + 0) as int] == 0);
        assert(state_then(prefix_table(0), prefix_table(0)) =~~= prefix_table(0));
        assert(state_then(tail_table(0), tail_table(0)) =~~= tail_table(0));
    } else if b == 1 {
        assert(TRANSFORM_COMPOSE_LOOKUP@[(0 * 16 + 1) as int] == 1);
        assert(state_then(prefix_table(1), prefix_table(0)) =~~= prefix_table(1));
        assert(state_then(tail_table(0), tail_table(1)) =~~= tail_table(1));
    } else if b == 2 {
        assert(TRANSFORM_COMPOSE_LOOKUP@[(0 * 16 + 2) as int] == 2);
        assert(state_then(prefix_table(2), prefix_table(0)) =~~= prefix_table(2));
        assert(state_then(tail_table(0), tail_table(2)) =~~= tail_table(2));
    } else if b == 3 {
        assert(TRANSFORM_COMPOSE_LOOKUP@[(0 * 16 + 3) as int] == 3);
        assert(state_then(prefix_table(3), prefix_table(0)) =~~= prefix_table(3));
        assert(state_then(tail_table(0), tail_table(3)) =~~= tail_table(3));
    } else if b == 4 {
        assert(TRANSFORM_COMPOSE_LOOKUP@[(0 * 16 + 4) as int] == 4);
        assert(state_then(prefix_table(4), prefix_table(0)) =~~= prefix_table(4));
        assert(state_then(tail_table(0), tail_table(4)) =~~= tail_table(4));
    } else if b == 5 {
        assert(TRANSFORM_COMPOSE_LOOKUP@[(0 * 16 + 5) as int] == 5);
        assert(state_then(prefix_table(5), prefix_table(0)) =~~= prefix_table(5));
        assert(state_then(tail_table(0), tail_table(5)) =~~= tail_table(5));
    } else if b == 6 {
        assert(TRANSFORM_COMPOSE_LOOKUP@[(0 * 16 + 6) as int] == 6);
        assert(state_then(prefix_table(6), prefix_table(0)) =~~= prefix_table(6));
        assert(state_then(tail_table(0), tail_table(6)) =~~= tail_table(6));
    } else if b == 7 {
        assert(TRANSFORM_COMPOSE_LOOKUP@[(0 * 16 + 7) as int] == 7);
        assert(state_then(prefix_table(7), prefix_table(0)) =~~= prefix_table(7));
        assert(state_then(tail_table(0), tail_table(7)) =~~= tail_table(7));
    } else if b == 8 {
        assert(TRANSFORM_COMPOSE_LOOKUP@[(0 * 16 + 8) as int] == 8);
        assert(state_then(prefix_table(8), prefix_table(0)) =~~= prefix_table(8));
        assert(state_then(tail_table(0), tail_table(8)) =~~= tail_table(8));
    } else if b == 9 {
        assert(TRANSFORM_COMPOSE_LOOKUP@[(0 * 16 + 9) as int] == 9);
        assert(state_then(prefix_table(9), prefix_table(0)) =~~= prefix_table(9));
        assert(state_then(tail_table(0), tail_table(9)) =~~= tail_table(9));
    } else if b == 10 {
        assert(TRANSFORM_COMPOSE_LOOKUP@[(0 * 16 + 10) as int] == 10);
        assert(state_then(prefix_table(10), prefix_table(0)) =~~= prefix_table(10));
        assert(state_then(tail_table(0), tail_table(10)) =~~= tail_table(10));
    } else if b == 11 {
        assert(TRANSFORM_COMPOSE_LOOKUP@[(0 * 16 + 11) as int] == 11);
        assert(state_then(prefix_table(11), prefix_table(0)) =~~= prefix_table(11));
        assert(state_then(tail_table(0), tail_table(11)) =~~= tail_table(11));
    } else if b == 12 {
        assert(TRANSFORM_COMPOSE_LOOKUP@[(0 * 16 + 12) as int] == 12);
        assert(state_then(prefix_table(12), prefix_table(0)) =~~= prefix_table(12));
        assert(state_then(tail_table(0), tail_table(12)) =~~= tail_table(12));
    } else if b == 13 {
        assert(TRANSFORM_COMPOSE_LOOKUP@[(0 * 16 + 13) as int] == 13);
        assert(state_then(prefix_table(13), prefix_table(0)) =~~= prefix_table(13));
        assert(state_then(tail_table(0), tail_table(13)) =~~= tail_table(13));
    } else if b == 14 {
        assert(TRANSFORM_COMPOSE_LOOKUP@[(0 * 16 + 14) as int] == 14);
        assert(state_then(prefix_table(14), prefix_table(0)) =~~= prefix_table(14));
        assert(state_then(tail_table(0), tail_table(14)) =~~= tail_table(14));
    } else if b == 15 {
        assert(TRANSFORM_COMPOSE_LOOKUP@[(0 * 16 + 15) as int] == 15);
        assert(state_then(prefix_table(15), prefix_table(0)) =~~= prefix_table(15));
        assert(state_then(tail_table(0), tail_table(15)) =~~= tail_table(15));
    }
}

/// Row 1 of the composition table, checked on the written-out prefixes and tails.
#[verifier::spinoff_prover]
#[verifier::rlimit(50)]
proof fn lemma_compose_row_1(b: u8)
    requires
        b < 16,
    ensures
        state_then(prefix_table(b), prefix_table(1)) == prefix_table(TRANSFORM_COMPOSE_LOOKUP@[1 * 16 + b]),
        state_then(tail_table(1), tail_table(b)) == tail_table(TRANSFORM_COMPOSE_LOOKUP@[1 * 16 + b]),
        TRANSFORM_COMPOSE_LOOKUP@[1 * 16 + b] < 16,
        (TRANSFORM_COMPOSE_LOOKUP@[1 * 16 + b] % 2 == 1) == ((1u8 % 2 == 1) != (b % 2 == 1)),
{
    if b == 0 {
        assert(TRANSFORM_COMPOSE_LOOKUP@[(1 * 16 + 0) as int] == 1);
        assert(state_then(prefix_table(0), prefix_table(1)) =~~= prefix_table(1));
        assert(state_then(tail_table(1), tail_table(0)) =~~= tail_table(1));
    } else if b == 1 {
        assert(TRANSFORM_COMPOSE_LOOKUP@[(1 * 16 + 1) as int] == 0);
        assert(state_then(prefix_table(1), prefix_table(1)) =~~= prefix_table(0));
        assert(state_then(tail_table(1), tail_table(1)) =~~= tail_table(0));
    } else if b == 2 {
        assert(TRANSFORM_COMPOSE_LOOKUP@[(1 * 16 + 2) as int] == 7);
        assert(state_then(prefix_table(2), prefix_table(1)) =~~= prefix_table(7));
        assert(state_then(tail_table(1), tail_table(2)) =~~= tail_table(7));
    } else if b == 3 {
        assert(TRANSFORM_COMPOSE_LOOKUP@[(1 * 16 + 3) as int] == 6);
        assert(state_then(prefix_table(3), prefix_table(1)) =~~= prefix_table(6));
        assert(state_then(tail_table(1), tail_table(3)) =~~= tail_table(6));
    } else if b == 4 {
        assert(TRANSFORM_COMPOSE_LOOKUP@[(1 * 16 + 4) as int] == 5);
        assert(state_then(prefix_table(4), prefix_table(1)) =~~= prefix_table(5));
        assert(state_then(tail_table(1), tail_table(4)) =~~= tail_table(5));
    } else if b == 5 {
        assert(TRANSFORM_COMPOSE_LOOKUP@[(1 * 16 + 5) as int] == 4);
        assert(state_then(prefix_table(5), prefix_table(1)) =~~= prefix_table(4));
        assert(state_then(tail_table(1), tail_table(5)) =~~= tail_table(4));
    } else if b == 6 {
        assert(TRANSFORM_COMPOSE_LOOKUP@[(1 * 16 + 6) as int] == 3);
        assert(state_then(prefix_table(6), prefix_table(1)) =~~= prefix_table(3));
        assert(state_then(tail_table(1), tail_table(6)) =~~= tail_table(3));
    } else if b == 7 {
        assert(TRANSFORM_COMPOSE_LOOKUP@[(1 * 16 + 7) as int] == 2);
        assert(state_then(prefix_table(7), prefix_table(1)) =~~= prefix_table(2));
        assert(state_then(tail_table(1), tail_table(7)) =~~= tail_table(2));
    } else if b == 8 {
        assert(TRANSFORM_COMPOSE_LOOKUP@[(1 * 16 + 8) as int] == 9);
        assert(state_then(prefix_table(8), prefix_table(1)) =~~= prefix_table(9));
        assert(state_then(tail_table(1), tail_table(8)) =~~= tail_table(9));
    } else if b == 9 {
        assert(TRANSFORM_COMPOSE_LOOKUP@[(1 * 16 + 9) as int] == 8);
        assert(state_then(prefix_table(9), prefix_table(1)) =~~= prefix_table(8));
        assert(state_then(tail_table(1), tail_table(9)) =~~= tail_table(8));
    } else if b == 10 {
        assert(TRANSFORM_COMPOSE_LOOKUP@[(1 * 16 + 10) as int] == 15);
        assert(state_then(prefix_table(10), prefix_table(1)) =~~= prefix_table(15));
        assert(state_then(tail_table(1), tail_table(10)) =~~= tail_table(15));
    } else if b == 11 {
        assert(TRANSFORM_COMPOSE_LOOKUP@[(1 * 16 + 11) as int] == 14);
        assert(state_then(prefix_table(11), prefix_table(1)) =~~= prefix_table(14));
        assert(state_then(tail_table(1), tail_table(11)) =~~= tail_table(14));
    } else if b == 12 {
        assert(TRANSFORM_COMPOSE_LOOKUP@[(1 * 16 + 12) as int] == 13);
        assert(state_then(prefix_table(12), prefix_table(1)) =~~= prefix_table(13));
        assert(state_then(tail_table(1), tail_table(12)) =~~= tail_table(13));
    } else if b == 13 {
        assert(TRANSFORM_COMPOSE_LOOKUP@[(1 * 16 + 13) as int] == 12);
        assert(state_then(prefix_table(13), prefix_table(1)) =~~= prefix_table(12));
        assert(state_then(tail_table(1), tail_table(13)) =~~= tail_table(12));
    } else if b == 14 {
        assert(TRANSFORM_COMPOSE_LOOKUP@[(1 * 16 + 14) as int] == 11);
        assert(state_then(prefix_table(14), prefix_table(1)) =~~= prefix_table(11));
        assert(state_then(tail_table(1), tail_table(14)) =~~= tail_table(11));
    } else if b == 15 {
        assert(TRANSFORM_COMPOSE_LOOKUP@[(1 * 16 + 15) as int] == 10);
        assert(state_then(prefix_table(15), prefix_table(1)) =~~= prefix_table(10));
        assert(state_then(tail_table(1), tail_table(15)) =~~= tail_table(10));
    }
}

/// Row 2 of the composition table, checked on the written-out prefixes and tails.
#[verifier::spinoff_prover]
#[verifier::rlimit(50)]
proof fn lemma_compose_row_2(b: u8)
    requires
        b < 16,
    ensures
        state_then(prefix_table(b), prefix_table(2)) == prefix_table(TRANSFORM_COMPOSE_LOOKUP@[2 * 16 + b]),
        state_then(tail_table(2), tail_table(b)) == tail_table(TRANSFORM_COMPOSE_LOOKUP@[2 * 16 + b]),
        TRANSFORM_COMPOSE_LOOKUP@[2 * 16 + b] < 16,
        (TRANSFORM_COMPOSE_LOOKUP@[2 * 16 + b] % 2 == 1) == ((2u8 % 2 == 1) != (b % 2 == 1)),
{
    if b == 0 {
        assert(TRANSFORM_COMPOSE_LOOKUP@[(2 * 16 + 0) as int] == 2);
        assert(state_then(prefix_table(0), prefix_table(2)) =~~= prefix_table(2));
        assert(state_then(tail_table(2), tail_table(0)) =~~= tail_table(2));
    } else if b == 1 {
        assert(TRANSFORM_COMPOSE_LOOKUP@[(2 * 16 + 1) as int] == 3);
        assert(state_then(prefix_table(1), prefix_table(2)) =~~= prefix_table(3));
        assert(state_then(tail_table(2), tail_table(1)) =~~= tail_table(3));
    } else if b == 2 {
        assert(TRANSFORM_COMPOSE_LOOKUP@[(2 * 16 + 2) as int] == 4);
        assert(state_then(prefix_table(2), prefix_table(2)) =~~= prefix_table(4));
        assert(state_then(tail_table(2), tail_table(2)) =~~= tail_table(4));
    } else if b == 3 {
        assert(TRANSFORM_COMPOSE_LOOKUP@[(2 * 16 + 3) as int] == 5);
        assert(state_then(prefix_table(3), prefix_table(2)) =~~= prefix_table(5));
        assert(state_then(tail_table(2), tail_table(3)) =~~= tail_table(5));
    } else if b == 4 {
        assert(TRANSFORM_COMPOSE_LOOKUP@[(2 * 16 + 4) as int] == 6);
        assert(state_then(prefix_table(4), prefix_table(2)) =~~= prefix_table(6));
        assert(state_then(tail_table(2), tail_table(4)) =~~= tail_table(6));
    } else if b == 5 {
        assert(TRANSFORM_COMPOSE_LOOKUP@[(2 * 16 + 5) as int] == 7);
        assert(state_then(prefix_table(5), prefix_table(2)) =~~= prefix_table(7));
        assert(state_then(tail_table(2), tail_table(5)) =~~= tail_table(7));
    } else if b == 6 {
        assert(TRANSFORM_COMPOSE_LOOKUP@[(2 * 16 + 6) as int] == 0);
        assert(state_then(prefix_table(6), prefix_table(2)) =~~= prefix_table(0));
        assert(state_then(tail_table(2), tail_table(6)) =~~= tail_table(0));
    } else if b == 7 {
        assert(TRANSFORM_COMPOSE_LOOKUP@[(2 * 16 + 7) as int] == 1);
        assert(state_then(prefix_table(7), prefix_table(2)) =~~= prefix_table(1));
        assert(state_then(tail_table(2), tail_table(7)) =~~= tail_table(1));
    } else if b == 8 {
        assert(TRANSFORM_COMPOSE_LOOKUP@[(2 * 16 + 8) as int] == 14);
        assert(state_then(prefix_table(8), prefix_table(2)) =~~= prefix_table(14));
        assert(state_then(tail_table(2), tail_table(8)) =~~= tail_table(14));
    } else if b == 9 {
        assert(TRANSFORM_COMPOSE_LOOKUP@[(2 * 16 + 9) as int] == 15);
        assert(state_then(prefix_table(9), prefix_table(2)) =~~= prefix_table(15));
        assert(state_then(tail_table(2), tail_table(9)) =~~= tail_table(15));
    } else if b == 10 {
        assert(TRANSFORM_COMPOSE_LOOKUP@[(2 * 16 + 10) as int] == 8);
        assert(state_then(prefix_table(10), prefix_table(2)) =~~= prefix_table(8));
        assert(state_then(tail_table(2), tail_table(10)) =~~= tail_table(8));
    } else if b == 11 {
        assert(TRANSFORM_COMPOSE_LOOKUP@[(2 * 16 + 11) as int] == 9);
        assert(state_then(prefix_table(11), prefix_table(2)) =~~= prefix_table(9));
        assert(state_then(tail_table(2), tail_table(11)) =~~= tail_table(9));
    } else if b == 12 {
        assert(TRANSFORM_COMPOSE_LOOKUP@[(2 * 16 + 12) as int] == 10);
        assert(state_then(prefix_table(12), prefix_table(2)) =~~= prefix_table(10));
        assert(state_then(tail_table(2), tail_table(12)) =~~= tail_table(10));
    } else if b == 13 {
        assert(TRANSFORM_COMPOSE_LOOKUP@[(2 * 16 + 13) as int] == 11);
        assert(state_then(prefix_table(13), prefix_table(2)) =~~= prefix_table(11));
        assert(state_then(tail_table(2), tail_table(13)) =~~= tail_table(11));
    } else if b == 14 {
        assert(TRANSFORM_COMPOSE_LOOKUP@[(2 * 16 + 14) as int] == 12);
        assert(state_then(prefix_table(14), prefix_table(2)) =~~= prefix_table(12));
        assert(state_then(tail_table(2), tail_table(14)) =~~= tail_table(12));
    } else if b == 15 {
        assert(TRANSFORM_COMPOSE_LOOKUP@[(2 * 16 + 15) as int] == 13);
        assert(state_then(prefix_table(15), prefix_table(2)) =~~= prefix_table(13));
        assert(state_then(tail_table(2), tail_table(15)) =~~= tail_table(13));
    }
}

/// Row 3 of the composition table, checked on the written-out prefixes and tails.
#[verifier::spinoff_prover]
#[verifier::rlimit(50)]
proof fn lemma_compose_row_3(b: u8)
    requires
        b < 16,
    ensures
        state_then(prefix_table(b), prefix_table(3)) == prefix_table(TRANSFORM_COMPOSE_LOOKUP@[3 * 16 + b]),
        state_then(tail_table(3), tail_table(b)) == tail_table(TRANSFORM_COMPOSE_LOOKUP@[3 * 16 + b]),
        TRANSFORM_COMPOSE_LOOKUP@[3 * 16 + b] < 16,
        (TRANSFORM_COMPOSE_LOOKUP@[3 * 16 + b] % 2 == 1) == ((3u8 % 2 == 1) != (b % 2 == 1)),
{
    if b == 0 {
        assert(TRANSFORM_COMPOSE_LOOKUP@[(3 * 16 + 0) as int] == 3);
        assert(state_then(prefix_table(0), prefix_table(3)) =~~= prefix_table(3));
        assert(state_then(tail_table(3), tail_table(0)) =~~= tail_table(3));
    } else if b == 1 {
        assert(TRANSFORM_COMPOSE_LOOKUP@[(3 * 16 + 1) as int] == 2);
        assert(state_then(prefix_table(1), prefix_table(3)) =~~= prefix_table(2));
        assert(state_then(tail_table(3), tail_table(1)) =~~= tail_table(2));
    } else if b == 2 {
        assert(TRANSFORM_COMPOSE_LOOKUP@[(3 * 16 + 2) as int] == 1);
        assert(state_then(prefix_table(2), prefix_table(3)) =~~= prefix_table(1));
        assert(state_then(tail_table(3), tail_table(2)) =~~= tail_table(1));
    } else if b == 3 {
        assert(TRANSFORM_COMPOSE_LOOKUP@[(3 * 16 + 3) as int] == 0);
        assert(state_then(prefix_table(3), prefix_table(3)) =~~= prefix_table(0));
        assert(state_then(tail_table(3), tail_table(3)) =~~= tail_table(0));
    } else if b == 4 {
        assert(TRANSFORM_COMPOSE_LOOKUP@[(3 * 16 + 4) as int] == 7);
        assert(state_then(prefix_table(4), prefix_table(3)) =~~= prefix_table(7));
        assert(state_then(tail_table(3), tail_table(4)) =~~= tail_table(7));
    } else if b == 5 {
        assert(TRANSFORM_COMPOSE_LOOKUP@[(3 * 16 + 5) as int] == 6);
        assert(state_then(prefix_table(5), prefix_table(3)) =~~= prefix_table(6));
        assert(state_then(tail_table(3), tail_table(5)) =~~= tail_table(6));
    } else if b == 6 {
        assert(TRANSFORM_COMPOSE_LOOKUP@[(3 * 16 + 6) as int] == 5);
        assert(state_then(prefix_table(6), prefix_table(3)) =~~= prefix_table(5));
        assert(state_then(tail_table(3), tail_table(6)) =~~= tail_table(5));
    } else if b == 7 {
        assert(TRANSFORM_COMPOSE_LOOKUP@[(3 * 16 + 7) as int] == 4);
        assert(state_then(prefix_table(7), prefix_table(3)) =~~= prefix_table(4));
        assert(state_then(tail_table(3), tail_table(7)) =~~= tail_table(4));
    } else if b == 8 {
        assert(TRANSFORM_COMPOSE_LOOKUP@[(3 * 16 + 8) as int] == 15);
        assert(state_then(prefix_table(8), prefix_table(3)) =~~= prefix_table(15));
        assert(state_then(tail_table(3), tail_table(8)) =~~= tail_table(15));
    } else if b == 9 {
        assert(TRANSFORM_COMPOSE_LOOKUP@[(3 * 16 + 9) as int] == 14);
        assert(state_then(prefix_table(9), prefix_table(3)) =~~= prefix_table(14));
        assert(state_then(tail_table(3), tail_table(9)) =~~= tail_table(14));
    } else if b == 10 {
        assert(TRANSFORM_COMPOSE_LOOKUP@[(3 * 16 + 10) as int] == 13);
        assert(state_then(prefix_table(10), prefix_table(3)) =~~= prefix_table(13));
        assert(state_then(tail_table(3), tail_table(10)) =~~= tail_table(13));
    } else if b == 11 {
        assert(TRANSFORM_COMPOSE_LOOKUP@[(3 * 16 + 11) as int] == 12);
        assert(state_then(prefix_table(11), prefix_table(3)) =~~= prefix_table(12));
        assert(state_then(tail_table(3), tail_table(11)) =~~= tail_table(12));
    } else if b == 12 {
        assert(TRANSFORM_COMPOSE_LOOKUP@[(3 * 16 + 12) as int] == 11);
        assert(state_then(prefix_table(12), prefix_table(3)) =~~= prefix_table(11));
        assert(state_then(tail_table(3), tail_table(12)) =~~= tail_table(11));
    } else if b == 13 {
        assert(TRANSFORM_COMPOSE_LOOKUP@[(3 * 16 + 13) as int] == 10);
        assert(state_then(prefix_table(13), prefix_table(3)) =~~= prefix_table(10));
        assert(state_then(tail_table(3), tail_table(13)) =~~= tail_table(10));
    } else if b == 14 {
        assert(TRANSFORM_COMPOSE_LOOKUP@[(3 * 16 + 14) as int] == 9);
        assert(state_then(prefix_table(14), prefix_table(3)) =~~= prefix_table(9));
        assert(state_then(tail_table(3), tail_table(14)) =~~= tail_table(9));
    } else if b == 15 {
        assert(TRANSFORM_COMPOSE_LOOKUP@[(3 * 16 + 15) as int] == 8);
        assert(state_then(prefix_table(15), prefix_table(3)) =~~= prefix_table(8));
        assert(state_then(tail_table(3), tail_table(15)) =~~= tail_table(8));
    }
}

/// Row 4 of the composition table, checked on the written-out prefixes and tails.
#[verifier::spinoff_prover]
#[verifier::rlimit(50)]
proof fn lemma_compose_row_4(b: u8)
    requires
        b < 16,
    ensures
        state_then(prefix_table(b), prefix_table(4)) == prefix_table(TRANSFORM_COMPOSE_LOOKUP@[4 * 16 + b]),
        state_then(tail_table(4), tail_table(b)) == tail_table(TRANSFORM_COMPOSE_LOOKUP@[4 * 16 + b]),
        TRANSFORM_COMPOSE_LOOKUP@[4 * 16 + b] < 16,
        (TRANSFORM_COMPOSE_LOOKUP@[4 * 16 + b] % 2 == 1) == ((4u8 % 2 == 1) != (b % 2 == 1)),
{
    if b == 0 {
        assert(TRANSFORM_COMPOSE_LOOKUP@[(4 * 16 + 0) as int] == 4);
        assert(state_then(prefix_table(0), prefix_table(4)) =~~= prefix_table(4));
        assert(state_then(tail_table(4), tail_table(0)) =~~= tail_table(4));
    } else if b == 1 {
        assert(TRANSFORM_COMPOSE_LOOKUP@[(4 * 16 + 1) as int] == 5);
        assert(state_then(prefix_table(1), prefix_table(4)) =~~= prefix_table(5));
        assert(state_then(tail_table(4), tail_table(1)) =~~= tail_table(5));
    } else if b == 2 {
        assert(TRANSFORM_COMPOSE_LOOKUP@[(4 * 16 + 2) as int] == 6);
        assert(state_then(prefix_table(2), prefix_table(4)) =~~= prefix_table(6));
        assert(state_then(tail_table(4), tail_table(2)) =~~= tail_table(6));
    } else if b == 3 {
        assert(TRANSFORM_COMPOSE_LOOKUP@[(4 * 16 + 3) as int] == 7);
        assert(state_then(prefix_table(3), prefix_table(4)) =~~= prefix_table(7));
        assert(state_then(tail_table(4), tail_table(3)) =~~= tail_table(7));
    } else if b == 4 {
        assert(TRANSFORM_COMPOSE_LOOKUP@[(4 * 16 + 4) as int] == 0);
        assert(state_then(prefix_table(4), prefix_table(4)) =~~= prefix_table(0));
        assert(state_then(tail_table(4), tail_table(4)) =~~= tail_table(0));
    } else if b == 5 {
        assert(TRANSFORM_COMPOSE_LOOKUP@[(4 * 16 + 5) as int] == 1);
        assert(state_then(prefix_table(5), prefix_table(4)) =~~= prefix_table(1));
        assert(state_then(tail_table(4), tail_table(5)) =~~= tail_table(1));
    } else if b == 6 {
        assert(TRANSFORM_COMPOSE_LOOKUP@[(4 * 16 + 6) as int] == 2);
        assert(state_then(prefix_table(6), prefix_table(4)) =~~= prefix_table(2));
        assert(state_then(tail_table(4), tail_table(6)) =~~= tail_table(2));
    } else if b == 7 {
        assert(TRANSFORM_COMPOSE_LOOKUP@[(4 * 16 + 7) as int] == 3);
        assert(state_then(prefix_table(7), prefix_table(4)) =~~= prefix_table(3));
        assert(state_then(tail_table(4), tail_table(7)) =~~= tail_table(3));
    } else if b == 8 {
        assert(TRANSFORM_COMPOSE_LOOKUP@[(4 * 16 + 8) as int] == 12);
        assert(state_then(prefix_table(8), prefix_table(4)) =~~= prefix_table(12));
        assert(state_then(tail_table(4), tail_table(8)) =~~= tail_table(12));
    } else if b == 9 {
        assert(TRANSFORM_COMPOSE_LOOKUP@[(4 * 16 + 9) as int] == 13);
        assert(state_then(prefix_table(9), prefix_table(4)) =~~= prefix_table(13));
        assert(state_then(tail_table(4), tail_table(9)) =~~= tail_table(13));
    } else if b == 10 {
        assert(TRANSFORM_COMPOSE_LOOKUP@[(4 * 16 + 10) as int] == 14);
        assert(state_then(prefix_table(10), prefix_table(4)) =~~= prefix_table(14));
        assert(state_then(tail_table(4), tail_table(10)) =~~= tail_table(14));
    } else if b == 11 {
        assert(TRANSFORM_COMPOSE_LOOKUP@[(4 * 16 + 11) as int] == 15);
        assert(state_then(prefix_table(11), prefix_table(4)) =~~= prefix_table(15));
        assert(state_then(tail_table(4), tail_table(11)) =~~= tail_table(15));
    } else if b == 12 {
        assert(TRANSFORM_COMPOSE_LOOKUP@[(4 * 16 + 12) as int] == 8);
        assert(state_then(prefix_table(12), prefix_table(4)) =~~= prefix_table(8));
        assert(state_then(tail_table(4), tail_table(12)) =~~= tail_table(8));
    } else if b == 13 {
        assert(TRANSFORM_COMPOSE_LOOKUP@[(4 * 16 + 13) as int] == 9);
        assert(state_then(prefix_table(13), prefix_table(4)) =~~= prefix_table(9));
        assert(state_then(tail_table(4), tail_table(13)) =~~= tail_table(9));
    } else if b == 14 {
        assert(TRANSFORM_COMPOSE_LOOKUP@[(4 * 16 + 14) as int] == 10);
        assert(state_then(prefix_table(14), prefix_table(4)) =~~= prefix_table(10));
        assert(state_then(tail_table(4), tail_table(14)) =~~= tail_table(10));
    } else if b == 15 {
        assert(TRANSFORM_COMPOSE_LOOKUP@[(4 * 16 + 15) as int] == 11);
        assert(state_then(prefix_table(15), prefix_table(4)) =~~= prefix_table(11));
        assert(state_then(tail_table(4), tail_table(15)) =~~= tail_table(11));
    }
}

/// Row 5 of the composition table, checked on the written-out prefixes and tails.
#[verifier::spinoff_prover]
#[verifier::rlimit(50)]
proof fn lemma_compose_row_5(b: u8)
    requires
        b < 16,
    ensures
        state_then(prefix_table(b), prefix_table(5)) == prefix_table(TRANSFORM_COMPOSE_LOOKUP@[5 * 16 + b]),
        state_then(tail_table(5), tail_table(b)) == tail_table(TRANSFORM_COMPOSE_LOOKUP@[5 * 16 + b]),
        TRANSFORM_COMPOSE_LOOKUP@[5 * 16 + b] < 16,
        (TRANSFORM_COMPOSE_LOOKUP@[5 * 16 + b] % 2 == 1) == ((5u8 % 2 == 1) != (b % 2 == 1)),
{
    if b == 0 {
        assert(TRANSFORM_COMPOSE_LOOKUP@[(5 * 16 + 0) as int] == 5);
        assert(state_then(prefix_table(0), prefix_table(5)) =~~= prefix_table(5));
        assert(state_then(tail_table(5), tail_table(0)) =~~= tail_table(5));
    } else if b == 1 {
        assert(TRANSFORM_COMPOSE_LOOKUP@[(5 * 16 + 1) as int] == 4);
        assert(state_then(prefix_table(1), prefix_table(5)) =~~= prefix_table(4));
        assert(state_then(tail_table(5), tail_table(1)) =~~= tail_table(4));
    } else if b == 2 {
        assert(TRANSFORM_COMPOSE_LOOKUP@[(5 * 16 + 2) as int] == 3);
        assert(state_then(prefix_table(2), prefix_table(5)) =~~= prefix_table(3));
        assert(state_then(tail_table(5), tail_table(2)) =~~= tail_table(3));
    } else if b == 3 {
        assert(TRANSFORM_COMPOSE_LOOKUP@[(5 * 16 + 3) as int] == 2);
        assert(state_then(prefix_table(3), prefix_table(5)) =~~= prefix_table(2));
        assert(state_then(tail_table(5), tail_table(3)) =~~= tail_table(2));
    } else if b == 4 {
        assert(TRANSFORM_COMPOSE_LOOKUP@[(5 * 16 + 4) as int] == 1);
        assert(state_then(prefix_table(4), prefix_table(5)) =~~= prefix_table(1));
        assert(state_then(tail_table(5), tail_table(4)) =~~= tail_table(1));
    } else if b == 5 {
        assert(TRANSFORM_COMPOSE_LOOKUP@[(5 * 16 + 5) as int] == 0);
        assert(state_then(prefix_table(5), prefix_table(5)) =~~= prefix_table(0));
        assert(state_then(tail_table(5), tail_table(5)) =~~= tail_table(0));
    } else if b == 6 {
        assert(TRANSFORM_COMPOSE_LOOKUP@[(5 * 16 + 6) as int] == 7);
        assert(state_then(prefix_table(6), prefix_table(5)) =~~= prefix_table(7));
        assert(state_then(tail_table(5), tail_table(6)) =~~= tail_table(7));
    } else if b == 7 {
        assert(TRANSFORM_COMPOSE_LOOKUP@[(5 * 16 + 7) as int] == 6);
        assert(state_then(prefix_table(7), prefix_table(5)) =~~= prefix_table(6));
        assert(state_then(tail_table(5), tail_table(7)) =~~= tail_table(6));
    } else if b == 8 {
        assert(TRANSFORM_COMPOSE_LOOKUP@[(5 * 16 + 8) as int] == 13);
        assert(state_then(prefix_table(8), prefix_table(5)) =~~= prefix_table(13));
        assert(state_then(tail_table(5), tail_table(8)) =~~= tail_table(13));
    } else if b == 9 {
        assert(TRANSFORM_COMPOSE_LOOKUP@[(5 * 16 + 9) as int] == 12);
        assert(state_then(prefix_table(9), prefix_table(5)) =~~= prefix_table(12));
        assert(state_then(tail_table(5), tail_table(9)) =~~= tail_table(12));
    } else if b == 10 {
        assert(TRANSFORM_COMPOSE_LOOKUP@[(5 * 16 + 10) as int] == 11);
        assert(state_then(prefix_table(10), prefix_table(5)) =~~= prefix_table(11));
        assert(state_then(tail_table(5), tail_table(10)) =~~= tail_table(11));
    } else if b == 11 {
        assert(TRANSFORM_COMPOSE_LOOKUP@[(5 * 16 + 11) as int] == 10);
        assert(state_then(prefix_table(11), prefix_table(5)) =~~= prefix_table(10));
        assert(state_then(tail_table(5), tail_table(11)) =~~= tail_table(10));
    } else if b == 12 {
        assert(TRANSFORM_COMPOSE_LOOKUP@[(5 * 16 + 12) as int] == 9);
        assert(state_then(prefix_table(12), prefix_table(5)) =~~= prefix_table(9));
        assert(state_then(tail_table(5), tail_table(12)) =~~= tail_table(9));
    } else if b == 13 {
        assert(TRANSFORM_COMPOSE_LOOKUP@[(5 * 16 + 13) as int] == 8);
        assert(state_then(prefix_table(13), prefix_table(5)) =~~= prefix_table(8));
        assert(state_then(tail_table(5), tail_table(13)) =~~= tail_table(8));
    } else if b == 14 {
        assert(TRANSFORM_COMPOSE_LOOKUP@[(5 * 16 + 14) as int] == 15);
        assert(state_then(prefix_table(14), prefix_table(5)) =~~= prefix_table(15));
        assert(state_then(tail_table(5), tail_table(14)) =~~= tail_table(15));
    } else if b == 15 {
        assert(TRANSFORM_COMPOSE_LOOKUP@[(5 * 16 + 15) as int] == 14);
        assert(state_then(prefix_table(15), prefix_table(5)) =~~= prefix_table(14));
        assert(state_then(tail_table(5), tail_table(15)) =~~= tail_table(14));
    }
}

/// Row 6 of the composition table, checked on the written-out prefixes and tails.
#[verifier::spinoff_prover]
#[verifier::rlimit(50)]
proof fn lemma_compose_row_6(b: u8)
    requires
        b < 16,
    ensures
        state_then(prefix_table(b), prefix_table(6)) == prefix_table(TRANSFORM_COMPOSE_LOOKUP@[6 * 16 + b]),
        state_then(tail_table(6), tail_table(b)) == tail_table(TRANSFORM_COMPOSE_LOOKUP@[6 * 16 + b]),
        TRANSFORM_COMPOSE_LOOKUP@[6 * 16 + b] < 16,
        (TRANSFORM_COMPOSE_LOOKUP@[6 * 16 + b] % 2 == 1) == ((6u8 % 2 == 1) != (b % 2 == 1)),
{
    if b == 0 {
        assert(TRANSFORM_COMPOSE_LOOKUP@[(6 * 16 + 0) as int] == 6);
        assert(state_then(prefix_table(0), prefix_table(6)) =~~= prefix_table(6));
        assert(state_then(tail_table(6), tail_table(0)) =~~= tail_table(6));
    } else if b == 1 {
        assert(TRANSFORM_COMPOSE_LOOKUP@[(6 * 16 + 1) as int] == 7);
        assert(state_then(prefix_table(1), prefix_table(6)) =~~= prefix_table(7));
        assert(state_then(tail_table(6), tail_table(1)) =~~= tail_table(7));
    } else if b == 2 {
        assert(TRANSFORM_COMPOSE_LOOKUP@[(6 * 16 + 2) as int] == 0);
        assert(state_then(prefix_table(2), prefix_table(6)) =~~= prefix_table(0));
        assert(state_then(tail_table(6), tail_table(2)) =~~= tail_table(0));
    } else if b == 3 {
        assert(TRANSFORM_COMPOSE_LOOKUP@[(6 * 16 + 3) as int] == 1);
        assert(state_then(prefix_table(3), prefix_table(6)) =~~= prefix_table(1));
        assert(state_then(tail_table(6), tail_table(3)) =~~= tail_table(1));
    } else if b == 4 {
        assert(TRANSFORM_COMPOSE_LOOKUP@[(6 * 16 + 4) as int] == 2);
        assert(state_then(prefix_table(4), prefix_table(6)) =~~= prefix_table(2));
        assert(state_then(tail_table(6), tail_table(4)) =~~= tail_table(2));
    } else if b == 5 {
        assert(TRANSFORM_COMPOSE_LOOKUP@[(6 * 16 + 5) as int] == 3);
        assert(state_then(prefix_table(5), prefix_table(6)) =~~= prefix_table(3));
        assert(state_then(tail_table(6), tail_table(5)) =~~= tail_table(3));
    } else if b == 6 {
        assert(TRANSFORM_COMPOSE_LOOKUP@[(6 * 16 + 6) as int] == 4);
        assert(state_then(prefix_table(6), prefix_table(6)) =~~= prefix_table(4));
        assert(state_then(tail_table(6), tail_table(6)) =~~= tail_table(4));
    } else if b == 7 {
        assert(TRANSFORM_COMPOSE_LOOKUP@[(6 * 16 + 7) as int] == 5);
        assert(state_then(prefix_table(7), prefix_table(6)) =~~= prefix_table(5));
        assert(state_then(tail_table(6), tail_table(7)) =~~= tail_table(5));
    } else if b == 8 {
        assert(TRANSFORM_COMPOSE_LOOKUP@[(6 * 16 + 8) as int] == 10);
        assert(state_then(prefix_table(8), prefix_table(6)) =~~= prefix_table(10));
        assert(state_then(tail_table(6), tail_table(8)) =~~= tail_table(10));
    } else if b == 9 {
        assert(TRANSFORM_COMPOSE_LOOKUP@[(6 * 16 + 9) as int] == 11);
        assert(state_then(prefix_table(9), prefix_table(6)) =~~= prefix_table(11));
        assert(state_then(tail_table(6), tail_table(9)) =~~= tail_table(11));
    } else if b == 10 {
        assert(TRANSFORM_COMPOSE_LOOKUP@[(6 * 16 + 10) as int] == 12);
        assert(state_then(prefix_table(10), prefix_table(6)) =~~= prefix_table(12));
        assert(state_then(tail_table(6), tail_table(10)) =~~= tail_table(12));
    } else if b == 11 {
        assert(TRANSFORM_COMPOSE_LOOKUP@[(6 * 16 + 11) as int] == 13);
        assert(state_then(prefix_table(11), prefix_table(6)) =~~= prefix_table(13));
        assert(state_then(tail_table(6), tail_table(11)) =~~= tail_table(13));
    } else if b == 12 {
        assert(TRANSFORM_COMPOSE_LOOKUP@[(6 * 16 + 12) as int] == 14);
        assert(state_then(prefix_table(12), prefix_table(6)) =~~= prefix_table(14));
        assert(state_then(tail_table(6), tail_table(12)) =~~= tail_table(14));
    } else if b == 13 {
        assert(TRANSFORM_COMPOSE_LOOKUP@[(6 * 16 + 13) as int] == 15);
        assert(state_then(prefix_table(13), prefix_table(6)) =~~= prefix_table(15));
        assert(state_then(tail_table(6), tail_table(13)) =~~= tail_table(15));
    } else if b == 14 {
        assert(TRANSFORM_COMPOSE_LOOKUP@[(6 * 16 + 14) as int] == 8);
        assert(state_then(prefix_table(14), prefix_table(6)) =~~= prefix_table(8));
        assert(state_then(tail_table(6), tail_table(14)) =~~= tail_table(8));
    } else if b == 15 {
        assert(TRANSFORM_COMPOSE_LOOKUP@[(6 * 16 + 15) as int] == 9);
        assert(state_then(prefix_table(15), prefix_table(6)) =~~= prefix_table(9));
        assert(state_then(tail_table(6), tail_table(15)) =~~= tail_table(9));
    }
}

/// Row 7 of the composition table, checked on the written-out prefixes and tails.
#[verifier::spinoff_prover]
#[verifier::rlimit(50)]
proof fn lemma_compose_row_7(b: u8)
    requires
        b < 16,
    ensures
        state_then(prefix_table(b), prefix_table(7)) == prefix_table(TRANSFORM_COMPOSE_LOOKUP@[7 * 16 + b]),
        state_then(tail_table(7), tail_table(b)) == tail_table(TRANSFORM_COMPOSE_LOOKUP@[7 * 16 + b]),
        TRANSFORM_COMPOSE_LOOKUP@[7 * 16 + b] < 16,
        (TRANSFORM_COMPOSE_LOOKUP@[7 * 16 + b] % 2 == 1) == ((7u8 % 2 == 1) != (b % 2 == 1)),
{
    if b == 0 {
        assert(TRANSFORM_COMPOSE_LOOKUP@[(7 * 16 + 0) as int] == 7);
        assert(state_then(prefix_table(0), prefix_table(7)) =~~= prefix_table(7));
        assert(state_then(tail_table(7), tail_table(0)) =~~= tail_table(7));
    } else if b == 1 {
        assert(TRANSFORM_COMPOSE_LOOKUP@[(7 * 16 + 1) as int] == 6);
        assert(state_then(prefix_table(1), prefix_table(7)) =~~= prefix_table(6));
        assert(state_then(tail_table(7), tail_table(1)) =~~= tail_table(6));
    } else if b == 2 {
        assert(TRANSFORM_COMPOSE_LOOKUP@[(7 * 16 + 2) as int] == 5);
        assert(state_then(prefix_table(2), prefix_table(7)) =~~= prefix_table(5));
        assert(state_then(tail_table(7), tail_table(2)) =~~= tail_table(5));
    } else if b == 3 {
        assert(TRANSFORM_COMPOSE_LOOKUP@[(7 * 16 + 3) as int] == 4);
        assert(state_then(prefix_table(3), prefix_table(7)) =~~= prefix_table(4));
        assert(state_then(tail_table(7), tail_table(3)) =~~= tail_table(4));
    } else if b == 4 {
        assert(TRANSFORM_COMPOSE_LOOKUP@[(7 * 16 + 4) as int] == 3);
        assert(state_then(prefix_table(4), prefix_table(7)) =~~= prefix_table(3));
        assert(state_then(tail_table(7), tail_table(4)) =~~= tail_table(3));
    } else if b == 5 {
        assert(TRANSFORM_COMPOSE_LOOKUP@[(7 * 16 + 5) as int] == 2);
        assert(state_then(prefix_table(5), prefix_table(7)) =~~= prefix_table(2));
        assert(state_then(tail_table(7), tail_table(5)) =~~= tail_table(2));
    } else if b == 6 {
        assert(TRANSFORM_COMPOSE_LOOKUP@[(7 * 16 + 6) as int] == 1);
        assert(state_then(prefix_table(6), prefix_table(7)) =~~= prefix_table(1));
        assert(state_then(tail_table(7), tail_table(6)) =~~= tail_table(1));
    } else if b == 7 {
        assert(TRANSFORM_COMPOSE_LOOKUP@[(7 * 16 + 7) as int] == 0);
        assert(state_then(prefix_table(7), prefix_table(7)) =~~= prefix_table(0));
        assert(state_then(tail_table(7), tail_table(7)) =~~= tail_table(0));
    } else if b == 8 {
        assert(TRANSFORM_COMPOSE_LOOKUP@[(7 * 16 + 8) as int] == 11);
        assert(state_then(prefix_table(8), prefix_table(7)) =~~= prefix_table(11));
        assert(state_then(tail_table(7), tail_table(8)) =~~= tail_table(11));
    } else if b == 9 {
        assert(TRANSFORM_COMPOSE_LOOKUP@[(7 * 16 + 9) as int] == 10);
        assert(state_then(prefix_table(9), prefix_table(7)) =~~= prefix_table(10));
        assert(state_then(tail_table(7), tail_table(9)) =~~= tail_table(10));
    } else if b == 10 {
        assert(TRANSFORM_COMPOSE_LOOKUP@[(7 * 16 + 10) as int] == 9);
        assert(state_then(prefix_table(10), prefix_table(7)) =~~= prefix_table(9));
        assert(state_then(tail_table(7), tail_table(10)) =~~= tail_table(9));
    } else if b == 11 {
        assert(TRANSFORM_COMPOSE_LOOKUP@[(7 * 16 + 11) as int] == 8);
        assert(state_then(prefix_table(11), prefix_table(7)) =~~= prefix_table(8));
        assert(state_then(tail_table(7), tail_table(11)) =~~= tail_table(8));
    } else if b == 12 {
        assert(TRANSFORM_COMPOSE_LOOKUP@[(7 * 16 + 12) as int] == 15);
        assert(state_then(prefix_table(12), prefix_table(7)) =~~= prefix_table(15));
        assert(state_then(tail_table(7), tail_table(12)) =~~= tail_table(15));
    } else if b == 13 {
        assert(TRANSFORM_COMPOSE_LOOKUP@[(7 * 16 + 13) as int] == 14);
        assert(state_then(prefix_table(13), prefix_table(7)) =~~= prefix_table(14));
        assert(state_then(tail_table(7), tail_table(13)) =~~= tail_table(14));
    } else if b == 14 {
        assert(TRANSFORM_COMPOSE_LOOKUP@[(7 * 16 + 14) as int] == 13);
        assert(state_then(prefix_table(14), prefix_table(7)) =~~= prefix_table(13));
        assert(state_then(tail_table(7), tail_table(14)) =~~= tail_table(13));
    } else if b == 15 {
        assert(TRANSFORM_COMPOSE_LOOKUP@[(7 * 16 + 15) as int] == 12);
        assert(state_then(prefix_table(15), prefix_table(7)) =~~= prefix_table(12));
        assert(state_then(tail_table(7), tail_table(15)) =~~= tail_table(12));
    }
}

/// Row 8 of the composition table, checked on the written-out prefixes and tails.
#[verifier::spinoff_prover]
#[verifier::rlimit(50)]
proof fn lemma_compose_row_8(b: u8)
    requires
        b < 16,
    ensures
        state_then(prefix_table(b), prefix_table(8)) == prefix_table(TRANSFORM_COMPOSE_LOOKUP@[8 * 16 + b]),
        state_then(tail_table(8), tail_table(b)) == tail_table(TRANSFORM_COMPOSE_LOOKUP@[8 * 16 + b]),
        TRANSFORM_COMPOSE_LOOKUP@[8 * 16 + b] < 16,
        (TRANSFORM_COMPOSE_LOOKUP@[8 * 16 + b] % 2 == 1) == ((8u8 % 2 == 1) != (b % 2 == 1)),
{
    if b == 0 {
        assert(TRANSFORM_COMPOSE_LOOKUP@[(8 * 16 + 0) as int] == 8);
        assert(state_then(prefix_table(0), prefix_table(8)) =~~= prefix_table(8));
        assert(state_then(tail_table(8), tail_table(0)) =~~= tail_table(8));
    } else if b == 1 {
        assert(TRANSFORM_COMPOSE_LOOKUP@[(8 * 16 + 1) as int] == 9);
        assert(state_then(prefix_table(1), prefix_table(8)) =~~= prefix_table(9));
        assert(state_then(tail_table(8), tail_table(1)) =~~= tail_table(9));
    } else if b == 2 {
        assert(TRANSFORM_COMPOSE_LOOKUP@[(8 * 16 + 2) as int] == 10);
        assert(state_then(prefix_table(2), prefix_table(8)) =~~= prefix_table(10));
        assert(state_then(tail_table(8), tail_table(2)) =~~= tail_table(10));
    } else if b == 3 {
        assert(TRANSFORM_COMPOSE_LOOKUP@[(8 * 16 + 3) as int] == 11);
        assert(state_then(prefix_table(3), prefix_table(8)) =~~= prefix_table(11));
        assert(state_then(tail_table(8), tail_table(3)) =~~= tail_table(11));
    } else if b == 4 {
        assert(TRANSFORM_COMPOSE_LOOKUP@[(8 * 16 + 4) as int] == 12);
        assert(state_then(prefix_table(4), prefix_table(8)) =~~= prefix_table(12));
        assert(state_then(tail_table(8), tail_table(4)) =~~= tail_table(12));
    } else if b == 5 {
        assert(TRANSFORM_COMPOSE_LOOKUP@[(8 * 16 + 5) as int] == 13);
        assert(state_then(prefix_table(5), prefix_table(8)) =~~= prefix_table(13));
        assert(state_then(tail_table(8), tail_table(5)) =~~= tail_table(13));
    } else if b == 6 {
        assert(TRANSFORM_COMPOSE_LOOKUP@[(8 * 16 + 6) as int] == 14);
        assert(state_then(prefix_table(6), prefix_table(8)) =~~= prefix_table(14));
        assert(state_then(tail_table(8), tail_table(6)) =~~= tail_table(14));
    } else if b == 7 {
        assert(TRANSFORM_COMPOSE_LOOKUP@[(8 * 16 + 7) as int] == 15);
        assert(state_then(prefix_table(7), prefix_table(8)) =~~= prefix_table(15));
        assert(state_then(tail_table(8), tail_table(7)) =~~= tail_table(15));
    } else if b == 8 {
        assert(TRANSFORM_COMPOSE_LOOKUP@[(8 * 16 + 8) as int] == 0);
        assert(state_then(prefix_table(8), prefix_table(8)) =~~= prefix_table(0));
        assert(state_then(tail_table(8), tail_table(8)) =~~= tail_table(0));
    } else if b == 9 {
        assert(TRANSFORM_COMPOSE_LOOKUP@[(8 * 16 + 9) as int] == 1);
        assert(state_then(prefix_table(9), prefix_table(8)) =~~= prefix_table(1));
        assert(state_then(tail_table(8), tail_table(9)) =~~= tail_table(1));
    } else if b == 10 {
        assert(TRANSFORM_COMPOSE_LOOKUP@[(8 * 16 + 10) as int] == 2);
        assert(state_then(prefix_table(10), prefix_table(8)) =~~= prefix_table(2));
        assert(state_then(tail_table(8), tail_table(10)) =~~= tail_table(2));
    } else if b == 11 {
        assert(TRANSFORM_COMPOSE_LOOKUP@[(8 * 16 + 11) as int] == 3);
        assert(state_then(prefix_table(11), prefix_table(8)) =~~= prefix_table(3));
        assert(state_then(tail_table(8), tail_table(11)) =~~= tail_table(3));
    } else if b == 12 {
        assert(TRANSFORM_COMPOSE_LOOKUP@[(8 * 16 + 12) as int] == 4);
        assert(state_then(prefix_table(12), prefix_table(8)) =~~= prefix_table(4));
        assert(state_then(tail_table(8), tail_table(12)) =~~= tail_table(4));
    } else if b == 13 {
        assert(TRANSFORM_COMPOSE_LOOKUP@[(8 * 16 + 13) as int] == 5);
        assert(state_then(prefix_table(13), prefix_table(8)) =~~= prefix_table(5));
        assert(state_then(tail_table(8), tail_table(13)) =~~= tail_table(5));
    } else if b == 14 {
        assert(TRANSFORM_COMPOSE_LOOKUP@[(8 * 16 + 14) as int] == 6);
        assert(state_then(prefix_table(14), prefix_table(8)) =~~= prefix_table(6));
        assert(state_then(tail_table(8), tail_table(14)) =~~= tail_table(6));
    } else if b == 15 {
        assert(TRANSFORM_COMPOSE_LOOKUP@[(8 * 16 + 15) as int] == 7);
        assert(state_then(prefix_table(15), prefix_table(8)) =~~= prefix_table(7));
        assert(state_then(tail_table(8), tail_table(15)) =~~= tail_table(7));
    }
}

/// Row 9 of the composition table, checked on the written-out prefixes and tails.
#[verifier::spinoff_prover]
#[verifier::rlimit(50)]
proof fn lemma_compose_row_9(b: u8)
    requires
        b < 16,
    ensures
        state_then(prefix_table(b), prefix_table(9)) == prefix_table(TRANSFORM_COMPOSE_LOOKUP@[9 * 16 + b]),
        state_then(tail_table(9), tail_table(b)) == tail_table(TRANSFORM_COMPOSE_LOOKUP@[9 * 16 + b]),
        TRANSFORM_COMPOSE_LOOKUP@[9 * 16 + b] < 16,
        (TRANSFORM_COMPOSE_LOOKUP@[9 * 16 + b] % 2 == 1) == ((9u8 % 2 == 1) != (b % 2 == 1)),
{
    if b == 0 {
        assert(TRANSFORM_COMPOSE_LOOKUP@[(9 * 16 + 0) as int] == 9);
        assert(state_then(prefix_table(0), prefix_table(9)) =~~= prefix_table(9));
        assert(state_then(tail_table(9), tail_table(0)) =~~= tail_table(9));
    } else if b == 1 {
        assert(TRANSFORM_COMPOSE_LOOKUP@[(9 * 16 + 1) as int] == 8);
        assert(state_then(prefix_table(1), prefix_table(9)) =~~= prefix_table(8));
        assert(state_then(tail_table(9), tail_table(1)) =~~= tail_table(8));
    } else if b == 2 {
        assert(TRANSFORM_COMPOSE_LOOKUP@[(9 * 16 + 2) as int] == 15);
        assert(state_then(prefix_table(2), prefix_table(9)) =~~= prefix_table(15));
        assert(state_then(tail_table(9), tail_table(2)) =~~= tail_table(15));
    } else if b == 3 {
        assert(TRANSFORM_COMPOSE_LOOKUP@[(9 * 16 + 3) as int] == 14);
        assert(state_then(prefix_table(3), prefix_table(9)) =~~= prefix_table(14));
        assert(state_then(tail_table(9), tail_table(3)) =~~= tail_table(14));
    } else if b == 4 {
        assert(TRANSFORM_COMPOSE_LOOKUP@[(9 * 16 + 4) as int] == 13);
        assert(state_then(prefix_table(4), prefix_table(9)) =~~= prefix_table(13));
        assert(state_then(tail_table(9), tail_table(4)) =~~= tail_table(13));
    } else if b == 5 {
        assert(TRANSFORM_COMPOSE_LOOKUP@[(9 * 16 + 5) as int] == 12);
        assert(state_then(prefix_table(5), prefix_table(9)) =~~= prefix_table(12));
        assert(state_then(tail_table(9), tail_table(5)) =~~= tail_table(12));
    } else if b == 6 {
        assert(TRANSFORM_COMPOSE_LOOKUP@[(9 * 16 + 6) as int] == 11);
        assert(state_then(prefix_table(6), prefix_table(9)) =~~= prefix_table(11));
        assert(state_then(tail_table(9), tail_table(6)) =~~= tail_table(11));
    } else if b == 7 {
        assert(TRANSFORM_COMPOSE_LOOKUP@[(9 * 16 + 7) as int] == 10);
        assert(state_then(prefix_table(7), prefix_table(9)) =~~= prefix_table(10));
        assert(state_then(tail_table(9), tail_table(7)) =~~= tail_table(10));
    } else if b == 8 {
        assert(TRANSFORM_COMPOSE_LOOKUP@[(9 * 16 + 8) as int] == 1);
        assert(state_then(prefix_table(8), prefix_table(9)) =~~= prefix_table(1));
        assert(state_then(tail_table(9), tail_table(8)) =~~= tail_table(1));
    } else if b == 9 {
        assert(TRANSFORM_COMPOSE_LOOKUP@[(9 * 16 + 9) as int] == 0);
        assert(state_then(prefix_table(9), prefix_table(9)) =~~= prefix_table(0));
        assert(state_then(tail_table(9), tail_table(9)) =~~= tail_table(0));
    } else if b == 10 {
        assert(TRANSFORM_COMPOSE_LOOKUP@[(9 * 16 + 10) as int] == 7);
        assert(state_then(prefix_table(10), prefix_table(9)) =~~= prefix_table(7));
        assert(state_then(tail_table(9), tail_table(10)) =~~= tail_table(7));
    } else if b == 11 {
        assert(TRANSFORM_COMPOSE_LOOKUP@[(9 * 16 + 11) as int] == 6);
        assert(state_then(prefix_table(11), prefix_table(9)) =~~= prefix_table(6));
        assert(state_then(tail_table(9), tail_table(11)) =~~= tail_table(6));
    } else if b == 12 {
        assert(TRANSFORM_COMPOSE_LOOKUP@[(9 * 16 + 12) as int] == 5);
        assert(state_then(prefix_table(12), prefix_table(9)) =~~= prefix_table(5));
        assert(state_then(tail_table(9), tail_table(12)) =~~= tail_table(5));
    } else if b == 13 {
        assert(TRANSFORM_COMPOSE_LOOKUP@[(9 * 16 + 13) as int] == 4);
        assert(state_then(prefix_table(13), prefix_table(9)) =~~= prefix_table(4));
        assert(state_then(tail_table(9), tail_table(13)) =~~= tail_table(4));
    } else if b == 14 {
        assert(TRANSFORM_COMPOSE_LOOKUP@[(9 * 16 + 14) as int] == 3);
        assert(state_then(prefix_table(14), prefix_table(9)) =~~= prefix_table(3));
        assert(state_then(tail_table(9), tail_table(14)) =~~= tail_table(3));
    } else if b == 15 {
        assert(TRANSFORM_COMPOSE_LOOKUP@[(9 * 16 + 15) as int] == 2);
        assert(state_then(prefix_table(15), prefix_table(9)) =~~= prefix_table(2));
        assert(state_then(tail_table(9), tail_table(15)) =~~= tail_table(2));
    }
}

/// Row 10 of the composition table, checked on the written-out prefixes and tails.
#[verifier::spinoff_prover]
#[verifier::rlimit(50)]
proof fn lemma_compose_row_10(b: u8)
    requires
        b < 16,
    ensures
        state_then(prefix_table(b), prefix_table(10)) == prefix_table(TRANSFORM_COMPOSE_LOOKUP@[10 * 16 + b]),
        state_then(tail_table(10), tail_table(b)) == tail_table(TRANSFORM_COMPOSE_LOOKUP@[10 * 16 + b]),
        TRANSFORM_COMPOSE_LOOKUP@[10 * 16 + b] < 16,
        (TRANSFORM_COMPOSE_LOOKUP@[10 * 16 + b] % 2 == 1) == ((10u8 % 2 == 1) != (b % 2 == 1)),
{
    if b == 0 {
        assert(TRANSFORM_COMPOSE_LOOKUP@[(10 * 16 + 0) as int] == 10);
        assert(state_then(prefix_table(0), prefix_table(10)) =~~= prefix_table(10));
        assert(state_then(tail_table(10), tail_table(0)) =~~= tail_table(10));
    } else if b == 1 {
        assert(TRANSFORM_COMPOSE_LOOKUP@[(10 * 16 + 1) as int] == 11);
        assert(state_then(prefix_table(1), prefix_table(10)) =~~= prefix_table(11));
        assert(state_then(tail_table(10), tail_table(1)) =~~= tail_table(11));
    } else if b == 2 {
        assert(TRANSFORM_COMPOSE_LOOKUP@[(10 * 16 + 2) as int] == 12);
        assert(state_then(prefix_table(2), prefix_table(10)) =~~= prefix_table(12));
        assert(state_then(tail_table(10), tail_table(2)) =~~= tail_table(12));
    } else if b == 3 {
        assert(TRANSFORM_COMPOSE_LOOKUP@[(10 * 16 + 3) as int] == 13);
        assert(state_then(prefix_table(3), prefix_table(10)) =~~= prefix_table(13));
        assert(state_then(tail_table(10), tail_table(3)) =~~= tail_table(13));
    } else if b == 4 {
        assert(TRANSFORM_COMPOSE_LOOKUP@[(10 * 16 + 4) as int] == 14);
        assert(state_then(prefix_table(4), prefix_table(10)) =~~= prefix_table(14));
        assert(state_then(tail_table(10), tail_table(4)) =~~= tail_table(14));
    } else if b == 5 {
        assert(TRANSFORM_COMPOSE_LOOKUP@[(10 * 16 + 5) as int] == 15);
        assert(state_then(prefix_table(5), prefix_table(10)) =~~= prefix_table(15));
        assert(state_then(tail_table(10), tail_table(5)) =~~= tail_table(15));
    } else if b == 6 {
        assert(TRANSFORM_COMPOSE_LOOKUP@[(10 * 16 + 6) as int] == 8);
        assert(state_then(prefix_table(6), prefix_table(10)) =~~= prefix_table(8));
        assert(state_then(tail_table(10), tail_table(6)) =~~= tail_table(8));
    } else if b == 7 {
        assert(TRANSFORM_COMPOSE_LOOKUP@[(10 * 16 + 7) as int] == 9);
        assert(state_then(prefix_table(7), prefix_table(10)) =~~= prefix_table(9));
        assert(state_then(tail_table(10), tail_table(7)) =~~= tail_table(9));
    } else if b == 8 {
        assert(TRANSFORM_COMPOSE_LOOKUP@[(10 * 16 + 8) as int] == 6);
        assert(state_then(prefix_table(8), prefix_table(10)) =~~= prefix_table(6));
        assert(state_then(tail_table(10), tail_table(8)) =~~= tail_table(6));
    } else if b == 9 {
        assert(TRANSFORM_COMPOSE_LOOKUP@[(10 * 16 + 9) as int] == 7);
        assert(state_then(prefix_table(9), prefix_table(10)) =~~= prefix_table(7));
        assert(state_then(tail_table(10), tail_table(9)) =~~= tail_table(7));
    } else if b == 10 {
        assert(TRANSFORM_COMPOSE_LOOKUP@[(10 * 16 + 10) as int] == 0);
        assert(state_then(prefix_table(10), prefix_table(10)) =~~= prefix_table(0));
        assert(state_then(tail_table(10), tail_table(10)) =~~= tail_table(0));
    } else if b == 11 {
        assert(TRANSFORM_COMPOSE_LOOKUP@[(10 * 16 + 11) as int] == 1);
        assert(state_then(prefix_table(11), prefix_table(10)) =~~= prefix_table(1));
        assert(state_then(tail_table(10), tail_table(11)) =~~= tail_table(1));
    } else if b == 12 {
        assert(TRANSFORM_COMPOSE_LOOKUP@[(10 * 16 + 12) as int] == 2);
        assert(state_then(prefix_table(12), prefix_table(10)) =~~= prefix_table(2));
        assert(state_then(tail_table(10), tail_table(12)) =~~= tail_table(2));
    } else if b == 13 {
        assert(TRANSFORM_COMPOSE_LOOKUP@[(10 * 16 + 13) as int] == 3);
        assert(state_then(prefix_table(13), prefix_table(10)) =~~= prefix_table(3));
        assert(state_then(tail_table(10), tail_table(13)) =~~= tail_table(3));
    } else if b == 14 {
        assert(TRANSFORM_COMPOSE_LOOKUP@[(10 * 16 + 14) as int] == 4);
        assert(state_then(prefix_table(14), prefix_table(10)) =~~= prefix_table(4));
        assert(state_then(tail_table(10), tail_table(14)) =~~= tail_table(4));
    } else if b == 15 {
        assert(TRANSFORM_COMPOSE_LOOKUP@[(10 * 16 + 15) as int] == 5);
        assert(state_then(prefix_table(15), prefix_table(10)) =~~= prefix_table(5));
        assert(state_then(tail_table(10), tail_table(15)) =~~= tail_table(5));
    }
}

/// Row 11 of the composition table, checked on the written-out prefixes and tails.
#[verifier::spinoff_prover]
#[verifier::rlimit(50)]
proof fn lemma_compose_row_11(b: u8)
    requires
        b < 16,
    ensures
        state_then(prefix_table(b), prefix_table(11)) == prefix_table(TRANSFORM_COMPOSE_LOOKUP@[11 * 16 + b]),
        state_then(tail_table(11), tail_table(b)) == tail_table(TRANSFORM_COMPOSE_LOOKUP@[11 * 16 + b]),
        TRANSFORM_COMPOSE_LOOKUP@[11 * 16 + b] < 16,
        (TRANSFORM_COMPOSE_LOOKUP@[11 * 16 + b] % 2 == 1) == ((11u8 % 2 == 1) != (b % 2 == 1)),
{
    if b == 0 {
        assert(TRANSFORM_COMPOSE_LOOKUP@[(11 * 16 + 0) as int] == 11);
        assert(state_then(prefix_table(0), prefix_table(11)) =~~= prefix_table(11));
        assert(state_then(tail_table(11), tail_table(0)) =~~= tail_table(11));
    } else if b == 1 {
        assert(TRANSFORM_COMPOSE_LOOKUP@[(11 * 16 + 1) as int] == 10);
        assert(state_then(prefix_table(1), prefix_table(11)) =~~= prefix_table(10));
        assert(state_then(tail_table(11), tail_table(1)) =~~= tail_table(10));
    } else if b == 2 {
        assert(TRANSFORM_COMPOSE_LOOKUP@[(11 * 16 + 2) as int] == 9);
        assert(state_then(prefix_table(2), prefix_table(11)) =~~= prefix_table(9));
        assert(state_then(tail_table(11), tail_table(2)) =~~= tail_table(9));
    } else if b == 3 {
        assert(TRANSFORM_COMPOSE_LOOKUP@[(11 * 16 + 3) as int] == 8);
        assert(state_then(prefix_table(3), prefix_table(11)) =~~= prefix_table(8));
        assert(state_then(tail_table(11), tail_table(3)) =~~= tail_table(8));
    } else if b == 4 {
        assert(TRANSFORM_COMPOSE_LOOKUP@[(11 * 16 + 4) as int] == 15);
        assert(state_then(prefix_table(4), prefix_table(11)) =~~= prefix_table(15));
        assert(state_then(tail_table(11), tail_table(4)) =~~= tail_table(15));
    } else if b == 5 {
        assert(TRANSFORM_COMPOSE_LOOKUP@[(11 * 16 + 5) as int] == 14);
        assert(state_then(prefix_table(5), prefix_table(11)) =~~= prefix_table(14));
        assert(state_then(tail_table(11), tail_table(5)) =~~= tail_table(14));
    } else if b == 6 {
        assert(TRANSFORM_COMPOSE_LOOKUP@[(11 * 16 + 6) as int] == 13);
        assert(state_then(prefix_table(6), prefix_table(11)) =~~= prefix_table(13));
        assert(state_then(tail_table(11), tail_table(6)) =~~= tail_table(13));
    } else if b == 7 {
        assert(TRANSFORM_COMPOSE_LOOKUP@[(11 * 16 + 7) as int] == 12);
        assert(state_then(prefix_table(7), prefix_table(11)) =~~= prefix_table(12));
        assert(state_then(tail_table(11), tail_table(7)) =~~= tail_table(12));
    } else if b == 8 {
        assert(TRANSFORM_COMPOSE_LOOKUP@[(11 * 16 + 8) as int] == 7);
        assert(state_then(prefix_table(8), prefix_table(11)) =~~= prefix_table(7));
        assert(state_then(tail_table(11), tail_table(8)) =~~= tail_table(7));
    } else if b == 9 {
        assert(TRANSFORM_COMPOSE_LOOKUP@[(11 * 16 + 9) as int] == 6);
        assert(state_then(prefix_table(9), prefix_table(11)) =~~= prefix_table(6));
        assert(state_then(tail_table(11), tail_table(9)) =~~= tail_table(6));
    } else if b == 10 {
        assert(TRANSFORM_COMPOSE_LOOKUP@[(11 * 16 + 10) as int] == 5);
        assert(state_then(prefix_table(10), prefix_table(11)) =~~= prefix_table(5));
        assert(state_then(tail_table(11), tail_table(10)) =~~= tail_table(5));
    } else if b == 11 {
        assert(TRANSFORM_COMPOSE_LOOKUP@[(11 * 16 + 11) as int] == 4);
        assert(state_then(prefix_table(11), prefix_table(11)) =~~= prefix_table(4));
        assert(state_then(tail_table(11), tail_table(11)) =~~= tail_table(4));
    } else if b == 12 {
        assert(TRANSFORM_COMPOSE_LOOKUP@[(11 * 16 + 12) as int] == 3);
        assert(state_then(prefix_table(12), prefix_table(11)) =~~= prefix_table(3));
        assert(state_then(tail_table(11), tail_table(12)) =~~= tail_table(3));
    } else if b == 13 {
        assert(TRANSFORM_COMPOSE_LOOKUP@[(11 * 16 + 13) as int] == 2);
        assert(state_then(prefix_table(13), prefix_table(11)) =~~= prefix_table(2));
        assert(state_then(tail_table(11), tail_table(13)) =~~= tail_table(2));
    } else if b == 14 {
        assert(TRANSFORM_COMPOSE_LOOKUP@[(11 * 16 + 14) as int] == 1);
        assert(state_then(prefix_table(14), prefix_table(11)) =~~= prefix_table(1));
        assert(state_then(tail_table(11), tail_table(14)) =~~= tail_table(1));
    } else if b == 15 {
        assert(TRANSFORM_COMPOSE_LOOKUP@[(11 * 16 + 15) as int] == 0);
        assert(state_then(prefix_table(15), prefix_table(11)) =~~= prefix_table(0));
        assert(state_then(tail_table(11), tail_table(15)) =~~= tail_table(0));
    }
}

/// Row 12 of the composition table, checked on the written-out prefixes and tails.
#[verifier::spinoff_prover]
#[verifier::rlimit(50)]
proof fn lemma_compose_row_12(b: u8)
    requires
        b < 16,
    ensures
        state_then(prefix_table(b), prefix_table(12)) == prefix_table(TRANSFORM_COMPOSE_LOOKUP@[12 * 16 + b]),
        state_then(tail_table(12), tail_table(b)) == tail_table(TRANSFORM_COMPOSE_LOOKUP@[12 * 16 + b]),
        TRANSFORM_COMPOSE_LOOKUP@[12 * 16 + b] < 16,
        (TRANSFORM_COMPOSE_LOOKUP@[12 * 16 + b] % 2 == 1) == ((12u8 % 2 == 1) != (b % 2 == 1)),
{
    if b == 0 {
        assert(TRANSFORM_COMPOSE_LOOKUP@[(12 * 16 + 0) as int] == 12);
        assert(state_then(prefix_table(0), prefix_table(12)) =~~= prefix_table(12));
        assert(state_then(tail_table(12), tail_table(0)) =~~= tail_table(12));
    } else if b == 1 {
        assert(TRANSFORM_COMPOSE_LOOKUP@[(12 * 16 + 1) as int] == 13);
        assert(state_then(prefix_table(1), prefix_table(12)) =~~= prefix_table(13));
        assert(state_then(tail_table(12), tail_table(1)) =~~= tail_table(13));
    } else if b == 2 {
        assert(TRANSFORM_COMPOSE_LOOKUP@[(12 * 16 + 2) as int] == 14);
        assert(state_then(prefix_table(2), prefix_table(12)) =~~= prefix_table(14));
        assert(state_then(tail_table(12), tail_table(2)) =~~= tail_table(14));
    } else if b == 3 {
        assert(TRANSFORM_COMPOSE_LOOKUP@[(12 * 16 + 3) as int] == 15);
        assert(state_then(prefix_table(3), prefix_table(12)) =~~= prefix_table(15));
        assert(state_then(tail_table(12), tail_table(3)) =~~= tail_table(15));
    } else if b == 4 {
        assert(TRANSFORM_COMPOSE_LOOKUP@[(12 * 16 + 4) as int] == 8);
        assert(state_then(prefix_table(4), prefix_table(12)) =~~= prefix_table(8));
        assert(state_then(tail_table(12), tail_table(4)) =~~= tail_table(8));
    } else if b == 5 {
        assert(TRANSFORM_COMPOSE_LOOKUP@[(12 * 16 + 5) as int] == 9);
        assert(state_then(prefix_table(5), prefix_table(12)) =~~= prefix_table(9));
        assert(state_then(tail_table(12), tail_table(5)) =~~= tail_table(9));
    } else if b == 6 {
        assert(TRANSFORM_COMPOSE_LOOKUP@[(12 * 16 + 6) as int] == 10);
        assert(state_then(prefix_table(6), prefix_table(12)) =~~= prefix_table(10));
        assert(state_then(tail_table(12), tail_table(6)) =~~= tail_table(10));
    } else if b == 7 {
        assert(TRANSFORM_COMPOSE_LOOKUP@[(12 * 16 + 7) as int] == 11);
        assert(state_then(prefix_table(7), prefix_table(12)) =~~= prefix_table(11));
        assert(state_then(tail_table(12), tail_table(7)) =~~= tail_table(11));
    } else if b == 8 {
        assert(TRANSFORM_COMPOSE_LOOKUP@[(12 * 16 + 8) as int] == 4);
        assert(state_then(prefix_table(8), prefix_table(12)) =~~= prefix_table(4));
        assert(state_then(tail_table(12), tail_table(8)) =~~= tail_table(4));
    } else if b == 9 {
        assert(TRANSFORM_COMPOSE_LOOKUP@[(12 * 16 + 9) as int] == 5);
        assert(state_then(prefix_table(9), prefix_table(12)) =~~= prefix_table(5));
        assert(state_then(tail_table(12), tail_table(9)) =~~= tail_table(5));
    } else if b == 10 {
        assert(TRANSFORM_COMPOSE_LOOKUP@[(12 * 16 + 10) as int] == 6);
        assert(state_then(prefix_table(10), prefix_table(12)) =~~= prefix_table(6));
        assert(state_then(tail_table(12), tail_table(10)) =~~= tail_table(6));
    } else if b == 11 {
        assert(TRANSFORM_COMPOSE_LOOKUP@[(12 * 16 + 11) as int] == 7);
        assert(state_then(prefix_table(11), prefix_table(12)) =~~= prefix_table(7));
        assert(state_then(tail_table(12), tail_table(11)) =~~= tail_table(7));
    } else if b == 12 {
        assert(TRANSFORM_COMPOSE_LOOKUP@[(12 * 16 + 12) as int] == 0);
        assert(state_then(prefix_table(12), prefix_table(12)) =~~= prefix_table(0));
        assert(state_then(tail_table(12), tail_table(12)) =~~= tail_table(0));
    } else if b == 13 {
        assert(TRANSFORM_COMPOSE_LOOKUP@[(12 * 16 + 13) as int] == 1);
        assert(state_then(prefix_table(13), prefix_table(12)) =~~= prefix_table(1));
        assert(state_then(tail_table(12), tail_table(13)) =~~= tail_table(1));
    } else if b == 14 {
        assert(TRANSFORM_COMPOSE_LOOKUP@[(12 * 16 + 14) as int] == 2);
        assert(state_then(prefix_table(14), prefix_table(12)) =~~= prefix_table(2));
        assert(state_then(tail_table(12), tail_table(14)) =~~= tail_table(2));
    } else if b == 15 {
        assert(TRANSFORM_COMPOSE_LOOKUP@[(12 * 16 + 15) as int] == 3);
        assert(state_then(prefix_table(15), prefix_table(12)) =~~= prefix_table(3));
        assert(state_then(tail_table(12), tail_table(15)) =~~= tail_table(3));
    }
}

/// Row 13 of the composition table, checked on the written-out prefixes and tails.
#[verifier::spinoff_prover]
#[verifier::rlimit(50)]
proof fn lemma_compose_row_13(b: u8)
    requires
        b < 16,
    ensures
        state_then(prefix_table(b), prefix_table(13)) == prefix_table(TRANSFORM_COMPOSE_LOOKUP@[13 * 16 + b]),
        state_then(tail_table(13), tail_table(b)) == tail_table(TRANSFORM_COMPOSE_LOOKUP@[13 * 16 + b]),
        TRANSFORM_COMPOSE_LOOKUP@[13 * 16 + b] < 16,
        (TRANSFORM_COMPOSE_LOOKUP@[13 * 16 + b] % 2 == 1) == ((13u8 % 2 == 1) != (b % 2 == 1)),
{
    if b == 0 {
        assert(TRANSFORM_COMPOSE_LOOKUP@[(13 * 16 + 0) as int] == 13);
        assert(state_then(prefix_table(0), prefix_table(13)) =~~= prefix_table(13));
        assert(state_then(tail_table(13), tail_table(0)) =~~= tail_table(13));
    } else if b == 1 {
        assert(TRANSFORM_COMPOSE_LOOKUP@[(13 * 16 + 1) as int] == 12);
        assert(state_then(prefix_table(1), prefix_table(13)) =~~= prefix_table(12));
        assert(state_then(tail_table(13), tail_table(1)) =~~= tail_table(12));
    } else if b == 2 {
        assert(TRANSFORM_COMPOSE_LOOKUP@[(13 * 16 + 2) as int] == 11);
        assert(state_then(prefix_table(2), prefix_table(13)) =~~= prefix_table(11));
        assert(state_then(tail_table(13), tail_table(2)) =~~= tail_table(11));
    } else if b == 3 {
        assert(TRANSFORM_COMPOSE_LOOKUP@[(13 * 16 + 3) as int] == 10);
        assert(state_then(prefix_table(3), prefix_table(13)) =~~= prefix_table(10));
        assert(state_then(tail_table(13), tail_table(3)) =~~= tail_table(10));
    } else if b == 4 {
        assert(TRANSFORM_COMPOSE_LOOKUP@[(13 * 16 + 4) as int] == 9);
        assert(state_then(prefix_table(4), prefix_table(13)) =~~= prefix_table(9));
        assert(state_then(tail_table(13), tail_table(4)) =~~= tail_table(9));
    } else if b == 5 {
        assert(TRANSFORM_COMPOSE_LOOKUP@[(13 * 16 + 5) as int] == 8);
        assert(state_then(prefix_table(5), prefix_table(13)) =~~= prefix_table(8));
        assert(state_then(tail_table(13), tail_table(5)) =~~= tail_table(8));
    } else if b == 6 {
        assert(TRANSFORM_COMPOSE_LOOKUP@[(13 * 16 + 6) as int] == 15);
        assert(state_then(prefix_table(6), prefix_table(13)) =~~= prefix_table(15));
        assert(state_then(tail_table(13), tail_table(6)) =~~= tail_table(15));
    } else if b == 7 {
        assert(TRANSFORM_COMPOSE_LOOKUP@[(13 * 16 + 7) as int] == 14);
        assert(state_then(prefix_table(7), prefix_table(13)) =~~= prefix_table(14));
        assert(state_then(tail_table(13), tail_table(7)) =~~= tail_table(14));
    } else if b == 8 {
        assert(TRANSFORM_COMPOSE_LOOKUP@[(13 * 16 + 8) as int] == 5);
        assert(state_then(prefix_table(8), prefix_table(13)) =~~= prefix_table(5));
        assert(state_then(tail_table(13), tail_table(8)) =~~= tail_table(5));
    } else if b == 9 {
        assert(TRANSFORM_COMPOSE_LOOKUP@[(13 * 16 + 9) as int] == 4);
        assert(state_then(prefix_table(9), prefix_table(13)) =~~= prefix_table(4));
        assert(state_then(tail_table(13), tail_table(9)) =~~= tail_table(4));
    } else if b == 10 {
        assert(TRANSFORM_COMPOSE_LOOKUP@[(13 * 16 + 10) as int] == 3);
        assert(state_then(prefix_table(10), prefix_table(13)) =~~= prefix_table(3));
        assert(state_then(tail_table(13), tail_table(10)) =~~= tail_table(3));
    } else if b == 11 {
        assert(TRANSFORM_COMPOSE_LOOKUP@[(13 * 16 + 11) as int] == 2);
        assert(state_then(prefix_table(11), prefix_table(13)) =~~= prefix_table(2));
        assert(state_then(tail_table(13), tail_table(11)) =~~= tail_table(2));
    } else if b == 12 {
        assert(TRANSFORM_COMPOSE_LOOKUP@[(13 * 16 + 12) as int] == 1);
        assert(state_then(prefix_table(12), prefix_table(13)) =~~= prefix_table(1));
        assert(state_then(tail_table(13), tail_table(12)) =~~= tail_table(1));
    } else if b == 13 {
        assert(TRANSFORM_COMPOSE_LOOKUP@[(13 * 16 + 13) as int] == 0);
        assert(state_then(prefix_table(13), prefix_table(13)) =~~= prefix_table(0));
        assert(state_then(tail_table(13), tail_table(13)) =~~= tail_table(0));
    } else if b == 14 {
        assert(TRANSFORM_COMPOSE_LOOKUP@[(13 * 16 + 14) as int] == 7);
        assert(state_then(prefix_table(14), prefix_table(13)) =~~= prefix_table(7));
        assert(state_then(tail_table(13), tail_table(14)) =~~= tail_table(7));
    } else if b == 15 {
        assert(TRANSFORM_COMPOSE_LOOKUP@[(13 * 16 + 15) as int] == 6);
        assert(state_then(prefix_table(15), prefix_table(13)) =~~= prefix_table(6));
        assert(state_then(tail_table(13), tail_table(15)) =~~= tail_table(6));
    }
}

/// Row 14 of the composition table, checked on the written-out prefixes and tails.
#[verifier::spinoff_prover]
#[verifier::rlimit(50)]
proof fn lemma_compose_row_14(b: u8)
    requires
        b < 16,
    ensures
        state_then(prefix_table(b), prefix_table(14)) == prefix_table(TRANSFORM_COMPOSE_LOOKUP@[14 * 16 + b]),
        state_then(tail_table(14), tail_table(b)) == tail_table(TRANSFORM_COMPOSE_LOOKUP@[14 * 16 + b]),
        TRANSFORM_COMPOSE_LOOKUP@[14 * 16 + b] < 16,
        (TRANSFORM_COMPOSE_LOOKUP@[14 * 16 + b] % 2 == 1) == ((14u8 % 2 == 1) != (b % 2 == 1)),
{
    if b == 0 {
        assert(TRANSFORM_COMPOSE_LOOKUP@[(14 * 16 + 0) as int] == 14);
        assert(state_then(prefix_table(0), prefix_table(14)) =~~= prefix_table(14));
        assert(state_then(tail_table(14), tail_table(0)) =~~= tail_table(14));
    } else if b == 1 {
        assert(TRANSFORM_COMPOSE_LOOKUP@[(14 * 16 + 1) as int] == 15);
        assert(state_then(prefix_table(1), prefix_table(14)) =~~= prefix_table(15));
        assert(state_then(tail_table(14), tail_table(1)) =~~= tail_table(15));
    } else if b == 2 {
        assert(TRANSFORM_COMPOSE_LOOKUP@[(14 * 16 + 2) as int] == 8);
        assert(state_then(prefix_table(2), prefix_table(14)) =~~= prefix_table(8));
        assert(state_then(tail_table(14), tail_table(2)) =~~= tail_table(8));
    } else if b == 3 {
        assert(TRANSFORM_COMPOSE_LOOKUP@[(14 * 16 + 3) as int] == 9);
        assert(state_then(prefix_table(3), prefix_table(14)) =~~= prefix_table(9));
        assert(state_then(tail_table(14), tail_table(3)) =~~= tail_table(9));
    } else if b == 4 {
        assert(TRANSFORM_COMPOSE_LOOKUP@[(14 * 16 + 4) as int] == 10);
        assert(state_then(prefix_table(4), prefix_table(14)) =~~= prefix_table(10));
        assert(state_then(tail_table(14), tail_table(4)) =~~= tail_table(10));
    } else if b == 5 {
        assert(TRANSFORM_COMPOSE_LOOKUP@[(14 * 16 + 5) as int] == 11);
        assert(state_then(prefix_table(5), prefix_table(14)) =~~= prefix_table(11));
        assert(state_then(tail_table(14), tail_table(5)) =~~= tail_table(11));
    } else if b == 6 {
        assert(TRANSFORM_COMPOSE_LOOKUP@[(14 * 16 + 6) as int] == 12);
        assert(state_then(prefix_table(6), prefix_table(14)) =~~= prefix_table(12));
        assert(state_then(tail_table(14), tail_table(6)) =~~= tail_table(12));
    } else if b == 7 {
        assert(TRANSFORM_COMPOSE_LOOKUP@[(14 * 16 + 7) as int] == 13);
        assert(state_then(prefix_table(7), prefix_table(14)) =~~= prefix_table(13));
        assert(state_then(tail_table(14), tail_table(7)) =~~= tail_table(13));
    } else if b == 8 {
        assert(TRANSFORM_COMPOSE_LOOKUP@[(14 * 16 + 8) as int] == 2);
        assert(state_then(prefix_table(8), prefix_table(14)) =~~= prefix_table(2));
        assert(state_then(tail_table(14), tail_table(8)) =~~= tail_table(2));
    } else if b == 9 {
        assert(TRANSFORM_COMPOSE_LOOKUP@[(14 * 16 + 9) as int] == 3);
        assert(state_then(prefix_table(9), prefix_table(14)) =~~= prefix_table(3));
        assert(state_then(tail_table(14), tail_table(9)) =~~= tail_table(3));
    } else if b == 10 {
        assert(TRANSFORM_COMPOSE_LOOKUP@[(14 * 16 + 10) as int] == 4);
        assert(state_then(prefix_table(10), prefix_table(14)) =~~= prefix_table(4));
        assert(state_then(tail_table(14), tail_table(10)) =~~= tail_table(4));
    } else if b == 11 {
        assert(TRANSFORM_COMPOSE_LOOKUP@[(14 * 16 + 11) as int] == 5);
        assert(state_then(prefix_table(11), prefix_table(14)) =~~= prefix_table(5));
        assert(state_then(tail_table(14), tail_table(11)) =~~= tail_table(5));
    } else if b == 12 {
        assert(TRANSFORM_COMPOSE_LOOKUP@[(14 * 16 + 12) as int] == 6);
        assert(state_then(prefix_table(12), prefix_table(14)) =~~= prefix_table(6));
        assert(state_then(tail_table(14), tail_table(12)) =~~= tail_table(6));
    } else if b == 13 {
        assert(TRANSFORM_COMPOSE_LOOKUP@[(14 * 16 + 13) as int] == 7);
        assert(state_then(prefix_table(13), prefix_table(14)) =~~= prefix_table(7));
        assert(state_then(tail_table(14), tail_table(13)) =~~= tail_table(7));
    } else if b == 14 {
        assert(TRANSFORM_COMPOSE_LOOKUP@[(14 * 16 + 14) as int] == 0);
        assert(state_then(prefix_table(14), prefix_table(14)) =~~= prefix_table(0));
        assert(state_then(tail_table(14), tail_table(14)) =~~= tail_table(0));
    } else if b == 15 {
        assert(TRANSFORM_COMPOSE_LOOKUP@[(14 * 16 + 15) as int] == 1);
        assert(state_then(prefix_table(15), prefix_table(14)) =~~= prefix_table(1));
        assert(state_then(tail_table(14), tail_table(15)) =~~= tail_table(1));
    }
}

/// Row 15 of the composition table, checked on the written-out prefixes and tails.
#[verifier::spinoff_prover]
#[verifier::rlimit(50)]
proof fn lemma_compose_row_15(b: u8)
    requires
        b < 16,
    ensures
        state_then(prefix_table(b), prefix_table(15)) == prefix_table(TRANSFORM_COMPOSE_LOOKUP@[15 * 16 + b]),
        state_then(tail_table(15), tail_table(b)) == tail_table(TRANSFORM_COMPOSE_LOOKUP@[15 * 16 + b]),
        TRANSFORM_COMPOSE_LOOKUP@[15 * 16 + b] < 16,
        (TRANSFORM_COMPOSE_LOOKUP@[15 * 16 + b] % 2 == 1) == ((15u8 % 2 == 1) != (b % 2 == 1)),
{
    if b == 0 {
        assert(TRANSFORM_COMPOSE_LOOKUP@[(15 * 16 + 0) as int] == 15);
        assert(state_then(prefix_table(0), prefix_table(15)) =~~= prefix_table(15));
        assert(state_then(tail_table(15), tail_table(0)) =~~= tail_table(15));
    } else if b == 1 {
        assert(TRANSFORM_COMPOSE_LOOKUP@[(15 * 16 + 1) as int] == 14);
        assert(state_then(prefix_table(1), prefix_table(15)) =~~= prefix_table(14));
        assert(state_then(tail_table(15), tail_table(1)) =~~= tail_table(14));
    } else if b == 2 {
        assert(TRANSFORM_COMPOSE_LOOKUP@[(15 * 16 + 2) as int] == 13);
        assert(state_then(prefix_table(2), prefix_table(15)) =~~= prefix_table(13));
        assert(state_then(tail_table(15), tail_table(2)) =~~= tail_table(13));
    } else if b == 3 {
        assert(TRANSFORM_COMPOSE_LOOKUP@[(15 * 16 + 3) as int] == 12);
        assert(state_then(prefix_table(3), prefix_table(15)) =~~= prefix_table(12));
        assert(state_then(tail_table(15), tail_table(3)) =~~= tail_table(12));
    } else if b == 4 {
        assert(TRANSFORM_COMPOSE_LOOKUP@[(15 * 16 + 4) as int] == 11);
        assert(state_then(prefix_table(4), prefix_table(15)) =~~= prefix_table(11));
        assert(state_then(tail_table(15), tail_table(4)) =~~= tail_table(11));
    } else if b == 5 {
        assert(TRANSFORM_COMPOSE_LOOKUP@[(15 * 16 + 5) as int] == 10);
        assert(state_then(prefix_table(5), prefix_table(15)) =~~= prefix_table(10));
        assert(state_then(tail_table(15), tail_table(5)) =~~= tail_table(10));
    } else if b == 6 {
        assert(TRANSFORM_COMPOSE_LOOKUP@[(15 * 16 + 6) as int] == 9);
        assert(state_then(prefix_table(6), prefix_table(15)) =~~= prefix_table(9));
        assert(state_then(tail_table(15), tail_table(6)) =~~= tail_table(9));
    } else if b == 7 {
        assert(TRANSFORM_COMPOSE_LOOKUP@[(15 * 16 + 7) as int] == 8);
        assert(state_then(prefix_table(7), prefix_table(15)) =~~= prefix_table(8));
        assert(state_then(tail_table(15), tail_table(7)) =~~= tail_table(8));
    } else if b == 8 {
        assert(TRANSFORM_COMPOSE_LOOKUP@[(15 * 16 + 8) as int] == 3);
        assert(state_then(prefix_table(8), prefix_table(15)) =~~= prefix_table(3));
        assert(state_then(tail_table(15), tail_table(8)) =~~= tail_table(3));
    } else if b == 9 {
        assert(TRANSFORM_COMPOSE_LOOKUP@[(15 * 16 + 9) as int] == 2);
        assert(state_then(prefix_table(9), prefix_table(15)) =~~= prefix_table(2));
        assert(state_then(tail_table(15), tail_table(9)) =~~= tail_table(2));
    } else if b == 10 {
        assert(TRANSFORM_COMPOSE_LOOKUP@[(15 * 16 + 10) as int] == 1);
        assert(state_then(prefix_table(10), prefix_table(15)) =~~= prefix_table(1));
        assert(state_then(tail_table(15), tail_table(10)) =~~= tail_table(1));
    } else if b == 11 {
        assert(TRANSFORM_COMPOSE_LOOKUP@[(15 * 16 + 11) as int] == 0);
        assert(state_then(prefix_table(11), prefix_table(15)) =~~= prefix_table(0));
        assert(state_then(tail_table(15), tail_table(11)) =~~= tail_table(0));
    } else if b == 12 {
        assert(TRANSFORM_COMPOSE_LOOKUP@[(15 * 16 + 12) as int] == 7);
        assert(state_then(prefix_table(12), prefix_table(15)) =~~= prefix_table(7));
        assert(state_then(tail_table(15), tail_table(12)) =~~= tail_table(7));
    } else if b == 13 {
        assert(TRANSFORM_COMPOSE_LOOKUP@[(15 * 16 + 13) as int] == 6);
        assert(state_then(prefix_table(13), prefix_table(15)) =~~= prefix_table(6));
        assert(state_then(tail_table(15), tail_table(13)) =~~= tail_table(6));
    } else if b == 14 {
        assert(TRANSFORM_COMPOSE_LOOKUP@[(15 * 16 + 14) as int] == 5);
        assert(state_then(prefix_table(14), prefix_table(15)) =~~= prefix_table(5));
        assert(state_then(tail_table(15), tail_table(14)) =~~= tail_table(5));
    } else if b == 15 {
        assert(TRANSFORM_COMPOSE_LOOKUP@[(15 * 16 + 15) as int] == 4);
        assert(state_then(prefix_table(15), prefix_table(15)) =~~= prefix_table(4));
        assert(state_then(tail_table(15), tail_table(15)) =~~= tail_table(4));
    }
}

/// Composing the prefixes and tails of two conjugations gives those of the table's
/// composite.
proof fn lemma_compose_parts(a: u8, b: u8)
    requires
        a < 16,
        b < 16,
    ensures
        state_then(prefix_table(b), prefix_table(a)) == prefix_table(TRANSFORM_COMPOSE_LOOKUP@[a * 16 + b]),
        state_then(tail_table(a), tail_table(b)) == tail_table(TRANSFORM_COMPOSE_LOOKUP@[a * 16 + b]),
        TRANSFORM_COMPOSE_LOOKUP@[a * 16 + b] < 16,
        (TRANSFORM_COMPOSE_LOOKUP@[a * 16 + b] % 2 == 1) == ((a % 2 == 1) != (b % 2 == 1)),
{
    if a == 0 {
        lemma_compose_row_0(b);
    } else if a == 1 {
        lemma_compose_row_1(b);
    } else if a == 2 {
        lemma_compose_row_2(b);
    } else if a == 3 {
        lemma_compose_row_3(b);
    } else if a == 4 {
        lemma_compose_row_4(b);
    } else if a == 5 {
        lemma_compose_row_5(b);
    } else if a == 6 {
        lemma_compose_row_6(b);
    } else if a == 7 {
        lemma_compose_row_7(b);
    } else if a == 8 {
        lemma_compose_row_8(b);
    } else if a == 9 {
        lemma_compose_row_9(b);
    } else if a == 10 {
        lemma_compose_row_10(b);
    } else if a == 11 {
        lemma_compose_row_11(b);
    } else if a == 12 {
        lemma_compose_row_12(b);
    } else if a == 13 {
        lemma_compose_row_13(b);
    } else if a == 14 {
        lemma_compose_row_14(b);
    } else if a == 15 {
        lemma_compose_row_15(b);
    }
}

/// `s` with its twists mirrored when `flag` holds.
pub open spec fn mirror_if(s: CubeState, flag: bool) -> CubeState {
    if flag {
        mirror_corners(s)
    } else {
        s
    }
}

/// Mirroring the twists twice gives them back.
proof fn lemma_mirror_twice(s: CubeState)
    requires
        state_wf(s),
    ensures
        state_wf(mirror_corners(s)),
        mirror_corners(mirror_corners(s)) == s,
{
    let m = mirror_corners(s);
    assert forall|i: int| 0 <= i < 8 implies #[trigger] m.corner_orient[i] < 3 by {
        assert((s.corner_orient[i] as int) < 3);
    }
    let mm = mirror_corners(m);
    assert forall|i: int| 0 <= i < 8 implies mm.corner_orient[i] == s.corner_orient[i] by {
        assert((s.corner_orient[i] as int) < 3);
    }
    assert(mm.corner_orient =~= s.corner_orient);
    assert(mm =~= s);
}

/// A conjugation is its prefix, then the cube, then its tail, with the twists mirrored when
/// the transform mirrors.
proof fn lemma_conj_shape(c: CubeState, t: u8)
    requires
        state_wf(c),
        t < 16,
    ensures
        state_wf(state_then(state_then(prefix_table(t), c), tail_table(t))),
        conj_state(c, t) == mirror_if(state_then(state_then(prefix_table(t), c), tail_table(t)), t % 2 == 1),
        state_wf(conj_state(c, t)),
        state_wf(prefix_table(t)),
        state_wf(tail_table(t)),
{
    lemma_parts_table(t);
    lemma_prefix_parts(t);
    let pc = state_then(prefix_table(t), c);
    lemma_then_wf(prefix_table(t), c);
    lemma_suffix_parts(pc, t);
    lemma_then_wf(pc, tail_table(t));
    let y = state_then(pc, tail_table(t));
    lemma_mirror_twice(y);
}

/// Conjugating by `a` and then by `b` is conjugating by the composite that the table gives.
pub proof fn law_conjugation_compose(c: CubeState, a: u8, b: u8)
    requires
        state_wf(c),
        a < 16,
        b < 16,
    ensures
        conj_state(conj_state(c, a), b) == conj_state(c, TRANSFORM_COMPOSE_LOOKUP@[a * 16 + b]),
{
    lemma_compose_parts(a, b);
    let k = TRANSFORM_COMPOSE_LOOKUP@[a * 16 + b];
    lemma_parts_table(a);
    lemma_parts_table(b);
    lemma_conj_shape(c, a);
    lemma_conj_shape(c, k);
    let pa = prefix_table(a);
    let ta = tail_table(a);
    let pb = prefix_table(b);
    let tb = tail_table(b);
    let bc = state_then(pa, c);
    lemma_then_wf(pa, c);
    let y = state_then(bc, ta);
    let x = conj_state(c, a);
    lemma_conj_shape(x, b);
    assert(state_wf(pb) && state_wf(tb));
    // the prefix and tail of `b` pass through the mirror of `a`
    lemma_then_wf(pb, y);
    let py = state_then(pb, y);
    lemma_then_wf(py, tb);
    let z = state_then(py, tb);
    if a % 2 == 1 {
        lemma_mirror_then(pb, y);
        lemma_mirror_then(py, tb);
    }
    assert(state_then(state_then(pb, x), tb) == mirror_if(z, a % 2 == 1));
    // regroup: (pb ((pa c) ta)) tb == ((pb pa) c) (ta tb)
    law_then_associative(pb, bc, ta);
    law_then_associative(pb, pa, c);
    lemma_then_wf(pb, pa);
    lemma_then_wf(state_then(pb, pa), c);
    let abc = state_then(state_then(pb, pa), c);
    law_then_associative(abc, ta, tb);
    assert(z == state_then(state_then(prefix_table(k), c), tail_table(k)));
    lemma_mirror_twice(z);
}

/// Conjugating by a transform and then by its inverse gives the cube back.
pub proof fn law_conjugation_inverse(c: CubeState, t: u8)
    requires
        state_wf(c),
        t < 16,
    ensures
        TRANSFORM_INVERT_LOOKUP@[t as int] < 16,
        conj_state(conj_state(c, t), TRANSFORM_INVERT_LOOKUP@[t as int]) == c,
{
    lemma_tables_in_range();
    law_transform_group(t);
    law_conjugation_compose(c, t, TRANSFORM_INVERT_LOOKUP@[t as int]);
    law_conjugation_identity(c);
}

/// A well-formed cube can be composed with every face turn, every phase 2 move and the start
/// of every conjugation, which is what building its table entries asks.
pub proof fn lemma_wf_composable(c: CubeState)
    requires
        state_wf(c),
    ensures
        turns_composable(c),
        phase_2_turns_composable(c),
        conjugations_composable(c),
{
    assert forall|m: Move| #[trigger] composable(c, move_state(m)) by {
        lemma_moves_wf(m);
        lemma_then_wf(c, move_state(m));
    }
    assert forall|m: Phase2Move| #[trigger] composable(c, move_state(phase_2_as_move(m))) by {
        lemma_moves_wf(phase_2_as_move(m));
        lemma_then_wf(c, move_state(phase_2_as_move(m)));
    }
    assert forall|t: u8| 1 <= t < 16 implies #[trigger] composable(conj_prefix_state(t), c) by {
        lemma_prefix_parts(t);
        lemma_then_wf(conj_prefix_state(t), c);
    }
}

} // verus!
