use vstd::prelude::*;
use crate::moves::Move;
use crate::repr_cubie::{
    law_then_associative, law_then_identity, lemma_moves_wf, move_state, solved_state, state_then, state_wf,
    CubeState, SOLVED_CORNER_ORIENT, SOLVED_CORNER_PERM, SOLVED_EDGE_ORIENT, SOLVED_EDGE_PERM,
    U1_CORNER_PERM, U1_EDGE_PERM, U1_CORNER_ORIENT, U1_EDGE_ORIENT,
    U2_CORNER_PERM, U2_EDGE_PERM, U2_CORNER_ORIENT, U2_EDGE_ORIENT,
    U3_CORNER_PERM, U3_EDGE_PERM, U3_CORNER_ORIENT, U3_EDGE_ORIENT,
    D1_CORNER_PERM, D1_EDGE_PERM, D1_CORNER_ORIENT, D1_EDGE_ORIENT,
    D2_CORNER_PERM, D2_EDGE_PERM, D2_CORNER_ORIENT, D2_EDGE_ORIENT,
    D3_CORNER_PERM, D3_EDGE_PERM, D3_CORNER_ORIENT, D3_EDGE_ORIENT,
    F1_CORNER_PERM, F1_EDGE_PERM, F1_CORNER_ORIENT, F1_EDGE_ORIENT,
    F2_CORNER_PERM, F2_EDGE_PERM, F2_CORNER_ORIENT, F2_EDGE_ORIENT,
    F3_CORNER_PERM, F3_EDGE_PERM, F3_CORNER_ORIENT, F3_EDGE_ORIENT,
    B1_CORNER_PERM, B1_EDGE_PERM, B1_CORNER_ORIENT, B1_EDGE_ORIENT,
    B2_CORNER_PERM, B2_EDGE_PERM, B2_CORNER_ORIENT, B2_EDGE_ORIENT,
    B3_CORNER_PERM, B3_EDGE_PERM, B3_CORNER_ORIENT, B3_EDGE_ORIENT,
    R1_CORNER_PERM, R1_EDGE_PERM, R1_CORNER_ORIENT, R1_EDGE_ORIENT,
    R2_CORNER_PERM, R2_EDGE_PERM, R2_CORNER_ORIENT, R2_EDGE_ORIENT,
    R3_CORNER_PERM, R3_EDGE_PERM, R3_CORNER_ORIENT, R3_EDGE_ORIENT,
    L1_CORNER_PERM, L1_EDGE_PERM, L1_CORNER_ORIENT, L1_EDGE_ORIENT,
    L2_CORNER_PERM, L2_EDGE_PERM, L2_CORNER_ORIENT, L2_EDGE_ORIENT,
    L3_CORNER_PERM, L3_EDGE_PERM, L3_CORNER_ORIENT, L3_EDGE_ORIENT,
};

verus! {

/// The clockwise quarter turn of the face that `m` turns.
pub open spec fn quarter_of(m: Move) -> Move {
    match m {
        Move::U1 | Move::U2 | Move::U3 => Move::U1,
        Move::D1 | Move::D2 | Move::D3 => Move::D1,
        Move::F1 | Move::F2 | Move::F3 => Move::F1,
        Move::B1 | Move::B2 | Move::B3 => Move::B1,
        Move::R1 | Move::R2 | Move::R3 => Move::R1,
        Move::L1 | Move::L2 | Move::L3 => Move::L1,
    }
}

/// The half turn of the face that `m` turns.
pub open spec fn half_of(m: Move) -> Move {
    match m {
        Move::U1 | Move::U2 | Move::U3 => Move::U2,
        Move::D1 | Move::D2 | Move::D3 => Move::D2,
        Move::F1 | Move::F2 | Move::F3 => Move::F2,
        Move::B1 | Move::B2 | Move::B3 => Move::B2,
        Move::R1 | Move::R2 | Move::R3 => Move::R2,
        Move::L1 | Move::L2 | Move::L3 => Move::L2,
    }
}

/// The counterclockwise quarter turn of the face that `m` turns.
pub open spec fn counter_of(m: Move) -> Move {
    match m {
        Move::U1 | Move::U2 | Move::U3 => Move::U3,
        Move::D1 | Move::D2 | Move::D3 => Move::D3,
        Move::F1 | Move::F2 | Move::F3 => Move::F3,
        Move::B1 | Move::B2 | Move::B3 => Move::B3,
        Move::R1 | Move::R2 | Move::R3 => Move::R3,
        Move::L1 | Move::L2 | Move::L3 => Move::L3,
    }
}

/// The three equations of a face: a half turn is two quarter turns, a counterclockwise turn
/// three, and four quarter turns are the solved cube.
pub open spec fn face_powers(q: CubeState, h: CubeState, c: CubeState) -> bool {
    &&& state_then(q, q) == h
    &&& state_then(h, q) == c
    &&& state_then(c, q) == solved_state()
}

#[verifier::spinoff_prover]
proof fn lemma_powers_u()
    ensures
        face_powers(move_state(Move::U1), move_state(Move::U2), move_state(Move::U3)),
{
    assert(U1_CORNER_PERM@ =~= seq![2u8, 0, 3, 1, 4, 5, 6, 7]);
    assert(U1_EDGE_PERM@ =~= seq![2u8, 3, 1, 0, 4, 5, 6, 7, 8, 9, 10, 11]);
    assert(U1_CORNER_ORIENT@ =~= seq![0u8, 0, 0, 0, 0, 0, 0, 0]);
    assert(U1_EDGE_ORIENT@ =~= seq![0u8, 0, 0, 0, 0, 0, 0, 0, 0, 0, 0, 0]);
    assert(U2_CORNER_PERM@ =~= seq![3u8, 2, 1, 0, 4, 5, 6, 7]);
    assert(U2_EDGE_PERM@ =~= seq![1u8, 0, 3, 2, 4, 5, 6, 7, 8, 9, 10, 11]);
    assert(U2_CORNER_ORIENT@ =~= seq![0u8, 0, 0, 0, 0, 0, 0, 0]);
    assert(U2_EDGE_ORIENT@ =~= seq![0u8, 0, 0, 0, 0, 0, 0, 0, 0, 0, 0, 0]);
    assert(U3_CORNER_PERM@ =~= seq![1u8, 3, 0, 2, 4, 5, 6, 7]);
    assert(U3_EDGE_PERM@ =~= seq![3u8, 2, 0, 1, 4, 5, 6, 7, 8, 9, 10, 11]);
    assert(U3_CORNER_ORIENT@ =~= seq![0u8, 0, 0, 0, 0, 0, 0, 0]);
    assert(U3_EDGE_ORIENT@ =~= seq![0u8, 0, 0, 0, 0, 0, 0, 0, 0, 0, 0, 0]);
    assert(SOLVED_CORNER_PERM@ =~= seq![0u8, 1, 2, 3, 4, 5, 6, 7]);
    assert(SOLVED_EDGE_PERM@ =~= seq![0u8, 1, 2, 3, 4, 5, 6, 7, 8, 9, 10, 11]);
    assert(SOLVED_CORNER_ORIENT@ =~= seq![0u8, 0, 0, 0, 0, 0, 0, 0]);
    assert(SOLVED_EDGE_ORIENT@ =~= seq![0u8, 0, 0, 0, 0, 0, 0, 0, 0, 0, 0, 0]);
    let q = move_state(Move::U1);
    let h = move_state(Move::U2);
    let c = move_state(Move::U3);
    assert(state_then(q, q) =~= h);
    assert(state_then(h, q) =~= c);
    assert(state_then(c, q) =~= solved_state());
}

#[verifier::spinoff_prover]
proof fn lemma_powers_d()
    ensures
        face_powers(move_state(Move::D1), move_state(Move::D2), move_state(Move::D3)),
{
    assert(D1_CORNER_PERM@ =~= seq![0u8, 1, 2, 3, 5, 7, 4, 6]);
    assert(D1_EDGE_PERM@ =~= seq![0u8, 1, 2, 3, 7, 6, 4, 5, 8, 9, 10, 11]);
    assert(D1_CORNER_ORIENT@ =~= seq![0u8, 0, 0, 0, 0, 0, 0, 0]);
    assert(D1_EDGE_ORIENT@ =~= seq![0u8, 0, 0, 0, 0, 0, 0, 0, 0, 0, 0, 0]);
    assert(D2_CORNER_PERM@ =~= seq![0u8, 1, 2, 3, 7, 6, 5, 4]);
    assert(D2_EDGE_PERM@ =~= seq![0u8, 1, 2, 3, 5, 4, 7, 6, 8, 9, 10, 11]);
    assert(D2_CORNER_ORIENT@ =~= seq![0u8, 0, 0, 0, 0, 0, 0, 0]);
    assert(D2_EDGE_ORIENT@ =~= seq![0u8, 0, 0, 0, 0, 0, 0, 0, 0, 0, 0, 0]);
    assert(D3_CORNER_PERM@ =~= seq![0u8, 1, 2, 3, 6, 4, 7, 5]);
    assert(D3_EDGE_PERM@ =~= seq![0u8, 1, 2, 3, 6, 7, 5, 4, 8, 9, 10, 11]);
    assert(D3_CORNER_ORIENT@ =~= seq![0u8, 0, 0, 0, 0, 0, 0, 0]);
    assert(D3_EDGE_ORIENT@ =~= seq![0u8, 0, 0, 0, 0, 0, 0, 0, 0, 0, 0, 0]);
    assert(SOLVED_CORNER_PERM@ =~= seq![0u8, 1, 2, 3, 4, 5, 6, 7]);
    assert(SOLVED_EDGE_PERM@ =~= seq![0u8, 1, 2, 3, 4, 5, 6, 7, 8, 9, 10, 11]);
    assert(SOLVED_CORNER_ORIENT@ =~= seq![0u8, 0, 0, 0, 0, 0, 0, 0]);
    assert(SOLVED_EDGE_ORIENT@ =~= seq![0u8, 0, 0, 0, 0, 0, 0, 0, 0, 0, 0, 0]);
    let q = move_state(Move::D1);
    let h = move_state(Move::D2);
    let c = move_state(Move::D3);
    assert(state_then(q, q) =~= h);
    assert(state_then(h, q) =~= c);
    assert(state_then(c, q) =~= solved_state());
}

#[verifier::spinoff_prover]
proof fn lemma_powers_f()
    ensures
        face_powers(move_state(Move::F1), move_state(Move::F2), move_state(Move::F3)),
{
    assert(F1_CORNER_PERM@ =~= seq![1u8, 5, 2, 3, 0, 4, 6, 7]);
    assert(F1_EDGE_PERM@ =~= seq![9u8, 1, 2, 3, 8, 5, 6, 7, 0, 4, 10, 11]);
    assert(F1_CORNER_ORIENT@ =~= seq![1u8, 2, 0, 0, 2, 1, 0, 0]);
    assert(F1_EDGE_ORIENT@ =~= seq![1u8, 0, 0, 0, 1, 0, 0, 0, 1, 1, 0, 0]);
    assert(F2_CORNER_PERM@ =~= seq![5u8, 4, 2, 3, 1, 0, 6, 7]);
    assert(F2_EDGE_PERM@ =~= seq![4u8, 1, 2, 3, 0, 5, 6, 7, 9, 8, 10, 11]);
    assert(F2_CORNER_ORIENT@ =~= seq![0u8, 0, 0, 0, 0, 0, 0, 0]);
    assert(F2_EDGE_ORIENT@ =~= seq![0u8, 0, 0, 0, 0, 0, 0, 0, 0, 0, 0, 0]);
    assert(F3_CORNER_PERM@ =~= seq![4u8, 0, 2, 3, 5, 1, 6, 7]);
    assert(F3_EDGE_PERM@ =~= seq![8u8, 1, 2, 3, 9, 5, 6, 7, 4, 0, 10, 11]);
    assert(F3_CORNER_ORIENT@ =~= seq![1u8, 2, 0, 0, 2, 1, 0, 0]);
    assert(F3_EDGE_ORIENT@ =~= seq![1u8, 0, 0, 0, 1, 0, 0, 0, 1, 1, 0, 0]);
    assert(SOLVED_CORNER_PERM@ =~= seq![0u8, 1, 2, 3, 4, 5, 6, 7]);
    assert(SOLVED_EDGE_PERM@ =~= seq![0u8, 1, 2, 3, 4, 5, 6, 7, 8, 9, 10, 11]);
    assert(SOLVED_CORNER_ORIENT@ =~= seq![0u8, 0, 0, 0, 0, 0, 0, 0]);
    assert(SOLVED_EDGE_ORIENT@ =~= seq![0u8, 0, 0, 0, 0, 0, 0, 0, 0, 0, 0, 0]);
    let q = move_state(Move::F1);
    let h = move_state(Move::F2);
    let c = move_state(Move::F3);
    assert(state_then(q, q) =~= h);
    assert(state_then(h, q) =~= c);
    assert(state_then(c, q) =~= solved_state());
}

#[verifier::spinoff_prover]
proof fn lemma_powers_b()
    ensures
        face_powers(move_state(Move::B1), move_state(Move::B2), move_state(Move::B3)),
{
    assert(B1_CORNER_PERM@ =~= seq![0u8, 1, 6, 2, 4, 5, 7, 3]);
    assert(B1_EDGE_PERM@ =~= seq![0u8, 10, 2, 3, 4, 11, 6, 7, 8, 9, 5, 1]);
    assert(B1_CORNER_ORIENT@ =~= seq![0u8, 0, 2, 1, 0, 0, 1, 2]);
    assert(B1_EDGE_ORIENT@ =~= seq![0u8, 1, 0, 0, 0, 1, 0, 0, 0, 0, 1, 1]);
    assert(B2_CORNER_PERM@ =~= seq![0u8, 1, 7, 6, 4, 5, 3, 2]);
    assert(B2_EDGE_PERM@ =~= seq![0u8, 5, 2, 3, 4, 1, 6, 7, 8, 9, 11, 10]);
    assert(B2_CORNER_ORIENT@ =~= seq![0u8, 0, 0, 0, 0, 0, 0, 0]);
    assert(B2_EDGE_ORIENT@ =~= seq![0u8, 0, 0, 0, 0, 0, 0, 0, 0, 0, 0, 0]);
    assert(B3_CORNER_PERM@ =~= seq![0u8, 1, 3, 7, 4, 5, 2, 6]);
    assert(B3_EDGE_PERM@ =~= seq![0u8, 11, 2, 3, 4, 10, 6, 7, 8, 9, 1, 5]);
    assert(B3_CORNER_ORIENT@ =~= seq![0u8, 0, 2, 1, 0, 0, 1, 2]);
    assert(B3_EDGE_ORIENT@ =~= seq![0u8, 1, 0, 0, 0, 1, 0, 0, 0, 0, 1, 1]);
    assert(SOLVED_CORNER_PERM@ =~= seq![0u8, 1, 2, 3, 4, 5, 6, 7]);
    assert(SOLVED_EDGE_PERM@ =~= seq![0u8, 1, 2, 3, 4, 5, 6, 7, 8, 9, 10, 11]);
    assert(SOLVED_CORNER_ORIENT@ =~= seq![0u8, 0, 0, 0, 0, 0, 0, 0]);
    assert(SOLVED_EDGE_ORIENT@ =~= seq![0u8, 0, 0, 0, 0, 0, 0, 0, 0, 0, 0, 0]);
    let q = move_state(Move::B1);
    let h = move_state(Move::B2);
    let c = move_state(Move::B3);
    assert(state_then(q, q) =~= h);
    assert(state_then(h, q) =~= c);
    assert(state_then(c, q) =~= solved_state());
}

#[verifier::spinoff_prover]
proof fn lemma_powers_r()
    ensures
        face_powers(move_state(Move::R1), move_state(Move::R2), move_state(Move::R3)),
{
    assert(R1_CORNER_PERM@ =~= seq![4u8, 1, 0, 3, 6, 5, 2, 7]);
    assert(R1_EDGE_PERM@ =~= seq![0u8, 1, 8, 3, 4, 5, 10, 7, 6, 9, 2, 11]);
    assert(R1_CORNER_ORIENT@ =~= seq![2u8, 0, 1, 0, 1, 0, 2, 0]);
    assert(R1_EDGE_ORIENT@ =~= seq![0u8, 0, 0, 0, 0, 0, 0, 0, 0, 0, 0, 0]);
    assert(R2_CORNER_PERM@ =~= seq![6u8, 1, 4, 3, 2, 5, 0, 7]);
    assert(R2_EDGE_PERM@ =~= seq![0u8, 1, 6, 3, 4, 5, 2, 7, 10, 9, 8, 11]);
    assert(R2_CORNER_ORIENT@ =~= seq![0u8, 0, 0, 0, 0, 0, 0, 0]);
    assert(R2_EDGE_ORIENT@ =~= seq![0u8, 0, 0, 0, 0, 0, 0, 0, 0, 0, 0, 0]);
    assert(R3_CORNER_PERM@ =~= seq![2u8, 1, 6, 3, 0, 5, 4, 7]);
    assert(R3_EDGE_PERM@ =~= seq![0u8, 1, 10, 3, 4, 5, 8, 7, 2, 9, 6, 11]);
    assert(R3_CORNER_ORIENT@ =~= seq![2u8, 0, 1, 0, 1, 0, 2, 0]);
    assert(R3_EDGE_ORIENT@ =~= seq![0u8, 0, 0, 0, 0, 0, 0, 0, 0, 0, 0, 0]);
    assert(SOLVED_CORNER_PERM@ =~= seq![0u8, 1, 2, 3, 4, 5, 6, 7]);
    assert(SOLVED_EDGE_PERM@ =~= seq![0u8, 1, 2, 3, 4, 5, 6, 7, 8, 9, 10, 11]);
    assert(SOLVED_CORNER_ORIENT@ =~= seq![0u8, 0, 0, 0, 0, 0, 0, 0]);
    assert(SOLVED_EDGE_ORIENT@ =~= seq![0u8, 0, 0, 0, 0, 0, 0, 0, 0, 0, 0, 0]);
    let q = move_state(Move::R1);
    let h = move_state(Move::R2);
    let c = move_state(Move::R3);
    assert(state_then(q, q) =~= h);
    assert(state_then(h, q) =~= c);
    assert(state_then(c, q) =~= solved_state());
}

#[verifier::spinoff_prover]
proof fn lemma_powers_l()
    ensures
        face_powers(move_state(Move::L1), move_state(Move::L2), move_state(Move::L3)),
{
    assert(L1_CORNER_PERM@ =~= seq![0u8, 3, 2, 7, 4, 1, 6, 5]);
    assert(L1_EDGE_PERM@ =~= seq![0u8, 1, 2, 11, 4, 5, 6, 9, 8, 3, 10, 7]);
    assert(L1_CORNER_ORIENT@ =~= seq![0u8, 1, 0, 2, 0, 2, 0, 1]);
    assert(L1_EDGE_ORIENT@ =~= seq![0u8, 0, 0, 0, 0, 0, 0, 0, 0, 0, 0, 0]);
    assert(L2_CORNER_PERM@ =~= seq![0u8, 7, 2, 5, 4, 3, 6, 1]);
    assert(L2_EDGE_PERM@ =~= seq![0u8, 1, 2, 7, 4, 5, 6, 3, 8, 11, 10, 9]);
    assert(L2_CORNER_ORIENT@ =~= seq![0u8, 0, 0, 0, 0, 0, 0, 0]);
    assert(L2_EDGE_ORIENT@ =~= seq![0u8, 0, 0, 0, 0, 0, 0, 0, 0, 0, 0, 0]);
    assert(L3_CORNER_PERM@ =~= seq![0u8, 5, 2, 1, 4, 7, 6, 3]);
    assert(L3_EDGE_PERM@ =~= seq![0u8, 1, 2, 9, 4, 5, 6, 11, 8, 7, 10, 3]);
    assert(L3_CORNER_ORIENT@ =~= seq![0u8, 1, 0, 2, 0, 2, 0, 1]);
    assert(L3_EDGE_ORIENT@ =~= seq![0u8, 0, 0, 0, 0, 0, 0, 0, 0, 0, 0, 0]);
    assert(SOLVED_CORNER_PERM@ =~= seq![0u8, 1, 2, 3, 4, 5, 6, 7]);
    assert(SOLVED_EDGE_PERM@ =~= seq![0u8, 1, 2, 3, 4, 5, 6, 7, 8, 9, 10, 11]);
    assert(SOLVED_CORNER_ORIENT@ =~= seq![0u8, 0, 0, 0, 0, 0, 0, 0]);
    assert(SOLVED_EDGE_ORIENT@ =~= seq![0u8, 0, 0, 0, 0, 0, 0, 0, 0, 0, 0, 0]);
    let q = move_state(Move::L1);
    let h = move_state(Move::L2);
    let c = move_state(Move::L3);
    assert(state_then(q, q) =~= h);
    assert(state_then(h, q) =~= c);
    assert(state_then(c, q) =~= solved_state());
}

/// A half turn is two quarter turns of the same face, a counterclockwise turn three, and
/// four quarter turns leave the solved cube.
pub proof fn law_face_turn_powers(m: Move)
    ensures
        face_powers(move_state(quarter_of(m)), move_state(half_of(m)), move_state(counter_of(m))),
{
    match m {
        Move::U1 | Move::U2 | Move::U3 => lemma_powers_u(),
        Move::D1 | Move::D2 | Move::D3 => lemma_powers_d(),
        Move::F1 | Move::F2 | Move::F3 => lemma_powers_f(),
        Move::B1 | Move::B2 | Move::B3 => lemma_powers_b(),
        Move::R1 | Move::R2 | Move::R3 => lemma_powers_r(),
        Move::L1 | Move::L2 | Move::L3 => lemma_powers_l(),
    }
}

/// Four quarter turns of one face bring every cube back.
pub proof fn law_four_quarter_turns(s: CubeState, m: Move)
    requires
        state_wf(s),
    ensures
        state_then(state_then(state_then(state_then(s, move_state(quarter_of(m))), move_state(quarter_of(m))), move_state(quarter_of(m))), move_state(quarter_of(m))) == s,
{
    let q = move_state(quarter_of(m));
    let h = move_state(half_of(m));
    let c = move_state(counter_of(m));
    law_face_turn_powers(m);
    lemma_moves_wf(quarter_of(m));
    lemma_moves_wf(half_of(m));
    lemma_moves_wf(counter_of(m));
    law_then_associative(s, q, q);
    law_then_associative(s, h, q);
    law_then_associative(s, c, q);
    law_then_identity(s);
}

} // verus!
