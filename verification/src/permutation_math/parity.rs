use vstd::prelude::*;
use super::lehmer_rank::{
    lemma_count_greater_append, lemma_inversions_same_digits, lemma_sorted_inversions_zero,
    sorted_prefix,
};
use super::permutation::{compose, count_greater, inversions, is_odd_seq, is_permutation, lehmer_digit};

verus! {

/// `s` with slots `k` and `k + 1` exchanged.
pub open spec fn swap_adjacent(s: Seq<u8>, k: int) -> Seq<u8> {
    s.update(k, s[k + 1]).update(k + 1, s[k])
}

/// `s[i]` moved to slot `i` for every slot: `s` read through `p`.
pub open spec fn reindexed(s: Seq<u8>, p: Seq<u8>) -> Seq<u8> {
    Seq::new(p.len(), |i: int| s[p[i] as int])
}

proof fn lemma_count_greater_single(x: u8, v: u8)
    ensures
        count_greater(seq![x], v) == if x > v {
            1nat
        } else {
            0nat
        },
{
    reveal_with_fuel(count_greater, 2);
    assert(seq![x].drop_last() =~= Seq::<u8>::empty());
}

/// Exchanging two adjacent distinct slots adds one inversion when they were in order and
/// removes one when they were not.
pub proof fn lemma_swap_adjacent_inversions(s: Seq<u8>, k: int, n: int)
    requires
        0 <= k,
        k + 1 < n <= s.len(),
        s[k] != s[k + 1],
    ensures
        inversions(swap_adjacent(s, k), n) == inversions(s, n) + if s[k] < s[k + 1] {
            1int
        } else {
            -1int
        },
{
    let t = swap_adjacent(s, k);
    assert forall|j: int| 0 <= j < k implies lehmer_digit(s, j) == lehmer_digit(t, j) by {
        assert(t.take(j) =~= s.take(j));
    }
    lemma_inversions_same_digits(s, t, 0, k);
    let a = s.take(k);
    let b = seq![s[k]];
    let c = seq![s[k + 1]];
    assert forall|j: int| k + 1 < j < n implies lehmer_digit(s, j) == lehmer_digit(t, j) by {
        let d = s.subrange(k + 2, j);
        let v = s[j];
        assert(t[j] == v);
        assert(s.take(j) =~= a + b + c + d);
        assert(t.take(j) =~= a + c + b + d);
        lemma_count_greater_append(a + b + c, d, v);
        lemma_count_greater_append(a + b, c, v);
        lemma_count_greater_append(a, b, v);
        lemma_count_greater_append(a + c + b, d, v);
        lemma_count_greater_append(a + c, b, v);
        lemma_count_greater_append(a, c, v);
    }
    lemma_inversions_same_digits(s, t, k + 2, n);
    assert(s.take(k + 1) =~= a + b);
    assert(t.take(k + 1) =~= a + c);
    assert(t.take(k) =~= a);
    lemma_count_greater_append(a, b, s[k + 1]);
    lemma_count_greater_append(a, c, s[k]);
    lemma_count_greater_single(s[k], s[k + 1]);
    lemma_count_greater_single(s[k + 1], s[k]);
    assert(lehmer_digit(s, k) == count_greater(a, s[k]));
    assert(lehmer_digit(t, k) == count_greater(a, s[k + 1]));
    assert(inversions(s, k + 1) == inversions(s, k) + lehmer_digit(s, k));
    assert(inversions(s, k + 2) == inversions(s, k + 1) + lehmer_digit(s, k + 1));
    assert(inversions(t, k + 1) == inversions(t, k) + lehmer_digit(t, k));
    assert(inversions(t, k + 2) == inversions(t, k + 1) + lehmer_digit(t, k + 1));
}

proof fn lemma_increasing_gap(p: Seq<u8>, i: int, j: int)
    requires
        forall|k: int| 0 <= k < p.len() - 1 ==> #[trigger] p[k] < p[k + 1],
        0 <= i <= j < p.len(),
    ensures
        p[j] >= p[i] + (j - i),
    decreases j - i,
{
    if i < j {
        lemma_increasing_gap(p, i, j - 1);
        assert(p[j - 1] < p[j]);
    }
}

/// A permutation of `0..n` whose slots increase is the identity.
proof fn lemma_increasing_is_identity(p: Seq<u8>)
    requires
        forall|i: int| 0 <= i < p.len() ==> (#[trigger] p[i] as int) < p.len(),
        forall|k: int| 0 <= k < p.len() - 1 ==> #[trigger] p[k] < p[k + 1],
    ensures
        forall|i: int| 0 <= i < p.len() ==> #[trigger] p[i] == i,
{
    let n = p.len() as int;
    assert forall|i: int| 0 <= i < n implies #[trigger] p[i] == i by {
        lemma_increasing_gap(p, 0, i);
        lemma_increasing_gap(p, i, n - 1);
        assert(p[n - 1] < n);
    }
}

/// A permutation that moves something has two adjacent slots out of order.
pub proof fn lemma_descent_exists(p: Seq<u8>)
    requires
        is_permutation(p),
        exists|i: int| 0 <= i < p.len() && #[trigger] p[i] != i,
    ensures
        exists|k: int| 0 <= k < p.len() - 1 && #[trigger] p[k] > p[k + 1],
{
    let n = p.len() as int;
    if forall|k: int| 0 <= k < n - 1 ==> #[trigger] p[k] <= p[k + 1] {
        assert forall|k: int| 0 <= k < n - 1 implies #[trigger] p[k] < p[k + 1] by {
            assert(p[k] <= p[k + 1]);
            assert(p[k] != p[k + 1]);
        }
        lemma_increasing_is_identity(p);
        let i = choose|i: int| 0 <= i < n && #[trigger] p[i] != i;
        assert(p[i] == i);
    } else {
        let k = choose|k: int| !(0 <= k < n - 1 ==> #[trigger] p[k] <= p[k + 1]);
        assert(0 <= k < n - 1 && p[k] > p[k + 1]);
    }
}

/// A permutation with two adjacent slots exchanged is a permutation.
pub proof fn lemma_swap_adjacent_permutation(p: Seq<u8>, k: int)
    requires
        is_permutation(p),
        0 <= k,
        k + 1 < p.len(),
    ensures
        is_permutation(swap_adjacent(p, k)),
{
    let q = swap_adjacent(p, k);
    assert forall|i: int, j: int| 0 <= i < q.len() && 0 <= j < q.len() && i != j implies #[trigger] q[i] != #[trigger] q[j] by {
        let si = if i == k {
            k + 1
        } else if i == k + 1 {
            k
        } else {
            i
        };
        let sj = if j == k {
            k + 1
        } else if j == k + 1 {
            k
        } else {
            j
        };
        assert(q[i] == p[si]);
        assert(q[j] == p[sj]);
    }
    assert forall|i: int| 0 <= i < q.len() implies (#[trigger] q[i] as int) < q.len() by {
        if i == k {
            assert(q[i] == p[k + 1]);
        } else if i == k + 1 {
            assert(q[i] == p[k]);
        }
    }
}

/// The parity of a composition is the sum of the parities: composing with an odd
/// permutation flips the parity, with an even one keeps it.
pub proof fn law_compose_parity(a: Seq<u8>, p: Seq<u8>)
    requires
        is_permutation(a),
        is_permutation(p),
        a.len() == p.len(),
    ensures
        is_odd_seq(compose(a, p)) == (is_odd_seq(a) != is_odd_seq(p)),
    decreases inversions(p, p.len() as int),
{
    let n = p.len() as int;
    if forall|i: int| 0 <= i < n ==> p[i] == i {
        assert(compose(a, p) =~= a);
        assert(sorted_prefix(p, n));
        lemma_sorted_inversions_zero(p, n);
    } else {
        lemma_descent_exists(p);
        let k = choose|k: int| 0 <= k < n - 1 && #[trigger] p[k] > p[k + 1];
        let q = swap_adjacent(p, k);
        lemma_swap_adjacent_permutation(p, k);
        lemma_swap_adjacent_inversions(p, k, n);
        assert(swap_adjacent(q, k) =~= p);
        law_compose_parity(a, q);
        let c = compose(a, q);
        assert(compose(a, p) =~= swap_adjacent(c, k));
        assert(c[k] != c[k + 1]) by {
            assert(q[k] != q[k + 1]);
        }
        lemma_swap_adjacent_inversions(c, k, n);
    }
}

/// The sum of the first `n` entries of `s` and `t` grows by the same amount over slots where
/// they agree.
proof fn lemma_sum_same_entries(s: Seq<u8>, t: Seq<u8>, m: int, n: int)
    requires
        0 <= m <= n,
        forall|k: int| m <= k < n ==> s[k] == t[k],
    ensures
        crate::digits::digit_sum(s, n) - crate::digits::digit_sum(s, m) == crate::digits::digit_sum(t, n)
            - crate::digits::digit_sum(t, m),
    decreases n - m,
{
    if m < n {
        lemma_sum_same_entries(s, t, m, n - 1);
    }
}

/// Reading a sequence through a permutation keeps the sum of its entries.
pub proof fn lemma_reindexed_sum(s: Seq<u8>, p: Seq<u8>)
    requires
        is_permutation(p),
        s.len() == p.len(),
    ensures
        crate::digits::digit_sum(reindexed(s, p), p.len() as int) == crate::digits::digit_sum(s, p.len() as int),
    decreases inversions(p, p.len() as int),
{
    let n = p.len() as int;
    if forall|i: int| 0 <= i < n ==> p[i] == i {
        lemma_sum_same_entries(reindexed(s, p), s, 0, n);
    } else {
        lemma_descent_exists(p);
        let k = choose|k: int| 0 <= k < n - 1 && #[trigger] p[k] > p[k + 1];
        let q = swap_adjacent(p, k);
        lemma_swap_adjacent_permutation(p, k);
        lemma_swap_adjacent_inversions(p, k, n);
        lemma_reindexed_sum(s, q);
        let r = reindexed(s, q);
        let rp = reindexed(s, p);
        assert(rp =~= swap_adjacent(r, k));
        lemma_sum_same_entries(rp, r, 0, k);
        lemma_sum_same_entries(rp, r, k + 2, n);
        assert(crate::digits::digit_sum(rp, k + 1) == crate::digits::digit_sum(rp, k) + rp[k]);
        assert(crate::digits::digit_sum(rp, k + 2) == crate::digits::digit_sum(rp, k + 1) + rp[k + 1]);
        assert(crate::digits::digit_sum(r, k + 1) == crate::digits::digit_sum(r, k) + r[k]);
        assert(crate::digits::digit_sum(r, k + 2) == crate::digits::digit_sum(r, k + 1) + r[k + 1]);
    }
}

} // verus!
