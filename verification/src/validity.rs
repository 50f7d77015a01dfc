use vstd::prelude::*;
use vstd::arithmetic::div_mod::lemma_add_mod_noop;
use crate::digits::digit_sum;
use crate::permutation_math::parity::{law_compose_parity, lemma_reindexed_sum, reindexed};
use crate::permutation_math::lehmer_rank::{lemma_sorted_inversions_zero, sorted_prefix};
use crate::repr_cubie::{
    law_then_inverse, lemma_then_wf, orient_then, solved_state, state_inverse, state_then, state_valid,
    state_wf, CubeState, SOLVED_CORNER_ORIENT, SOLVED_CORNER_PERM, SOLVED_EDGE_ORIENT, SOLVED_EDGE_PERM,
};

verus! {

/// Adding two sequences entry by entry modulo `m` adds their sums modulo `m`.
proof fn lemma_sum_mod(x: Seq<u8>, y: Seq<u8>, z: Seq<u8>, m: int, n: int)
    requires
        m > 0,
        0 <= n <= x.len(),
        n <= y.len(),
        n <= z.len(),
        forall|i: int| 0 <= i < n ==> #[trigger] z[i] == (x[i] + y[i]) % m,
    ensures
        digit_sum(z, n) % m == (digit_sum(x, n) + digit_sum(y, n)) % m,
    decreases n,
{
    if n > 0 {
        lemma_sum_mod(x, y, z, m, n - 1);
        let zs = digit_sum(z, n - 1);
        let s = digit_sum(x, n - 1) + digit_sum(y, n - 1);
        let t = x[n - 1] + y[n - 1];
        assert(z[n - 1] == t % m);
        lemma_add_mod_noop(zs, t, m);
        lemma_add_mod_noop(s, t, m);
        assert((zs + t) % m == (s + t) % m) by {
            assert(zs % m == s % m);
        }
        assert(digit_sum(z, n) == zs + z[n - 1]);
        lemma_add_mod_noop(zs, z[n - 1] as int, m);
        vstd::arithmetic::div_mod::lemma_mod_twice(t, m);
    }
}

/// The orientations after `b` sum, modulo `m`, to the sums of those of `a` and of `b`.
proof fn lemma_orient_then_sum(ao: Seq<u8>, bp: Seq<u8>, bo: Seq<u8>, m: int)
    requires
        0 < m <= 256,
        crate::permutation_math::permutation::is_permutation(bp),
        ao.len() == bp.len(),
        bo.len() == bp.len(),
    ensures
        digit_sum(orient_then(ao, bp, bo, m), bp.len() as int) % m == (digit_sum(ao, bp.len() as int)
            + digit_sum(bo, bp.len() as int)) % m,
{
    let n = bp.len() as int;
    let x = reindexed(ao, bp);
    let z = orient_then(ao, bp, bo, m);
    assert forall|i: int| 0 <= i < n implies #[trigger] z[i] == (x[i] + bo[i]) % m by {
        assert(0 <= (ao[bp[i] as int] + bo[i]) % m < m);
    }
    lemma_sum_mod(x, bo, z, m, n);
    lemma_reindexed_sum(ao, bp);
}

/// A cube made of two valid cubes, one after the other, is valid: twists summing to a
/// multiple of 3, flips to a multiple of 2, and corner and edge permutations of equal parity
/// are kept by composition, and so by every face turn.
pub proof fn law_then_keeps_valid(a: CubeState, b: CubeState)
    requires
        state_wf(a),
        state_wf(b),
        state_valid(a),
        state_valid(b),
    ensures
        state_wf(state_then(a, b)),
        state_valid(state_then(a, b)),
{
    lemma_then_wf(a, b);
    let c = state_then(a, b);
    lemma_orient_then_sum(a.edge_orient, b.edge_perm, b.edge_orient, 2);
    lemma_orient_then_sum(a.corner_orient, b.corner_perm, b.corner_orient, 3);
    lemma_add_mod_noop(digit_sum(a.edge_orient, 12), digit_sum(b.edge_orient, 12), 2);
    lemma_add_mod_noop(digit_sum(a.corner_orient, 8), digit_sum(b.corner_orient, 8), 3);
    law_compose_parity(a.edge_perm, b.edge_perm);
    law_compose_parity(a.corner_perm, b.corner_perm);
}

proof fn lemma_sum_zero(s: Seq<u8>, n: int)
    requires
        0 <= n <= s.len(),
        forall|i: int| 0 <= i < n ==> s[i] == 0,
    ensures
        digit_sum(s, n) == 0,
    decreases n,
{
    if n > 0 {
        lemma_sum_zero(s, n - 1);
    }
}

/// The solved cube is valid.
proof fn lemma_solved_valid()
    ensures
        state_valid(solved_state()),
{
    let s = solved_state();
    assert(SOLVED_CORNER_ORIENT@ =~= Seq::new(8, |i: int| 0u8));
    assert(SOLVED_EDGE_ORIENT@ =~= Seq::new(12, |i: int| 0u8));
    assert(SOLVED_CORNER_PERM@ =~= Seq::new(8, |i: int| i as u8));
    assert(SOLVED_EDGE_PERM@ =~= Seq::new(12, |i: int| i as u8));
    lemma_sum_zero(s.corner_orient, 8);
    lemma_sum_zero(s.edge_orient, 12);
    assert(sorted_prefix(s.corner_perm, 8));
    assert(sorted_prefix(s.edge_perm, 12));
    lemma_sorted_inversions_zero(s.corner_perm, 8);
    lemma_sorted_inversions_zero(s.edge_perm, 12);
}

/// The inverse of a valid cube is valid.
pub proof fn law_inverse_keeps_valid(s: CubeState)
    requires
        state_wf(s),
        state_valid(s),
    ensures
        state_wf(state_inverse(s)),
        state_valid(state_inverse(s)),
{
    law_then_inverse(s);
    lemma_solved_valid();
    let t = state_inverse(s);
    lemma_orient_then_sum(s.edge_orient, t.edge_perm, t.edge_orient, 2);
    lemma_orient_then_sum(s.corner_orient, t.corner_perm, t.corner_orient, 3);
    lemma_add_mod_noop(digit_sum(s.edge_orient, 12), digit_sum(t.edge_orient, 12), 2);
    lemma_add_mod_noop(digit_sum(s.corner_orient, 8), digit_sum(t.corner_orient, 8), 3);
    law_compose_parity(s.edge_perm, t.edge_perm);
    law_compose_parity(s.corner_perm, t.corner_perm);
    assert(digit_sum(t.edge_orient, 12) % 2 == 0);
    assert(digit_sum(t.corner_orient, 8) % 3 == 0);
}

} // verus!
