use vstd::prelude::*;
use super::lehmer_rank::{
    lemma_count_greater_append, lemma_count_greater_none, lemma_count_greater_same_order,
    lemma_inversions_same_digits,
};
use super::permutation::{
    count_greater, inversions, is_odd_seq, is_permutation, lehmer_digit, lemma_permutation_onto,
    Permutation,
};

verus! {

/// The binomial coefficient, by Pascal's rule.
pub open spec fn binom(n: int, k: int) -> nat
    decreases n,
{
    if k == 0 {
        1
    } else if n <= 0 || k < 0 {
        0
    } else {
        binom(n - 1, k - 1) + binom(n - 1, k)
    }
}

/// Number of `true` entries.
pub open spec fn count_true(s: Seq<bool>) -> nat
    decreases s.len(),
{
    if s.len() == 0 {
        0
    } else {
        count_true(s.drop_last()) + if s.last() {
            1nat
        } else {
            0nat
        }
    }
}

/// The rank of a selection in the combinatorial number system, read from slot `n - 1`
/// downwards while `k + 1` selected slots remain to be met: every unselected slot `p`
/// contributes `C(p, k)`.
pub open spec fn combo_rank(a: Seq<bool>, n: int, k: int) -> nat
    decreases n,
{
    if n <= 0 {
        0
    } else if !a[n - 1] {
        binom(n - 1, k) + combo_rank(a, n - 1, k)
    } else if k <= 0 {
        0
    } else {
        combo_rank(a, n - 1, k - 1)
    }
}

/// The greedy decoding of `coord` into slots `0..=k`, with `i + 1` slots to select.
pub open spec fn combo_greedy(coord: int, k: int, i: int) -> Seq<bool>
    decreases k + 1,
{
    if k < 0 {
        Seq::empty()
    } else if coord >= binom(k, i) {
        combo_greedy(coord - binom(k, i), k - 1, i).push(false)
    } else if i <= 0 {
        Seq::new(k as nat, |t: int| false).push(true)
    } else {
        combo_greedy(coord, k - 1, i - 1).push(true)
    }
}

/// The arrangement that fills the unselected slots with `0, 1, ..` and the selected slots
/// with `8, 9, ..`, each in slot order.
pub open spec fn rep_raw(a: Seq<bool>) -> Seq<u8> {
    Seq::new(
        a.len(),
        |p: int|
            if a[p] {
                (8 + count_true(a.take(p))) as u8
            } else {
                (p - count_true(a.take(p))) as u8
            },
    )
}

/// Exchanges the values `10` and `11` (more generally, flips the low bit of values above 9).
pub open spec fn flip_top_pair(s: Seq<u8>) -> Seq<u8> {
    Seq::new(
        s.len(),
        |i: int|
            if s[i] > 9 {
                if s[i] % 2 == 0 {
                    (s[i] + 1) as u8
                } else {
                    (s[i] - 1) as u8
                }
            } else {
                s[i]
            },
    )
}

/// The even arrangement that realizes the selection `a`.
pub open spec fn representative(a: Seq<bool>) -> Seq<u8> {
    if is_odd_seq(rep_raw(a)) {
        flip_top_pair(rep_raw(a))
    } else {
        rep_raw(a)
    }
}

pub proof fn lemma_count_true_take_step(a: Seq<bool>, p: int)
    requires
        0 <= p < a.len(),
    ensures
        count_true(a.take(p + 1)) == count_true(a.take(p)) + if a[p] {
            1nat
        } else {
            0nat
        },
{
    assert(a.take(p + 1) =~= a.take(p).push(a[p]));
    lemma_count_true_push(a.take(p), a[p]);
}

pub proof fn lemma_count_true_take_monotone(a: Seq<bool>, p: int, q: int)
    requires
        0 <= p <= q <= a.len(),
    ensures
        count_true(a.take(p)) <= count_true(a.take(q)),
        p - count_true(a.take(p)) <= q - count_true(a.take(q)),
        count_true(a.take(q)) <= q,
    decreases q,
{
    if q == 0 {
        assert(a.take(0) =~= Seq::<bool>::empty());
    } else {
        lemma_count_true_take_step(a, q - 1);
        if p < q {
            lemma_count_true_take_monotone(a, p, q - 1);
        } else {
            lemma_count_true_take_monotone(a, q - 1, q - 1);
        }
    }
}

/// For a selection of four of twelve slots, `rep_raw` is a permutation that puts the values
/// `8..12` exactly in the selected slots.
pub proof fn lemma_rep_raw_valid(a: Seq<bool>)
    requires
        a.len() == 12,
        count_true(a) == 4,
    ensures
        is_permutation(rep_raw(a)),
        forall|p: int| 0 <= p < 12 ==> (#[trigger] rep_raw(a)[p] >= 8) == a[p],
{
    let r = rep_raw(a);
    assert(a.take(12) =~= a);
    assert forall|p: int| 0 <= p < 12 implies (#[trigger] r[p] as int) < 12 && (r[p] >= 8) == a[p] by {
        lemma_count_true_take_step(a, p);
        lemma_count_true_take_monotone(a, p + 1, 12);
        lemma_count_true_take_monotone(a, p, p);
    }
    assert forall|p: int, q: int| 0 <= p < 12 && 0 <= q < 12 && p != q implies #[trigger] r[p] != #[trigger] r[q] by {
        if p < q {
            lemma_count_true_take_step(a, p);
            lemma_count_true_take_monotone(a, p + 1, q);
            lemma_count_true_take_monotone(a, p, p);
            lemma_count_true_take_monotone(a, q, q);
        } else {
            lemma_count_true_take_step(a, q);
            lemma_count_true_take_monotone(a, q + 1, p);
            lemma_count_true_take_monotone(a, q, q);
            lemma_count_true_take_monotone(a, p, p);
        }
    }
}

/// Exchanging the two top values keeps a permutation of twelve a permutation, and keeps
/// which slots hold a value of at least 8.
pub proof fn lemma_flip_top_pair_valid(s: Seq<u8>)
    requires
        s.len() == 12,
        is_permutation(s),
    ensures
        is_permutation(flip_top_pair(s)),
        forall|p: int| 0 <= p < 12 ==> (#[trigger] flip_top_pair(s)[p] >= 8) == (s[p] >= 8),
{
    let f = flip_top_pair(s);
    assert forall|p: int, q: int| 0 <= p < 12 && 0 <= q < 12 && p != q implies #[trigger] f[p] != #[trigger] f[q] by {
        assert(s[p] != s[q]);
    }
}

/// Inversion counts that agree on the digit of every slot but `m` differ by the digits of `m`.
proof fn lemma_inversions_one_slot(s: Seq<u8>, t: Seq<u8>, m: int, n: int)
    requires
        0 <= m < n,
        forall|k: int| 0 <= k < n && k != m ==> lehmer_digit(s, k) == lehmer_digit(t, k),
    ensures
        inversions(t, n) - inversions(s, n) == lehmer_digit(t, m) - lehmer_digit(s, m),
    decreases n,
{
    if n - 1 > m {
        lemma_inversions_one_slot(s, t, m, n - 1);
    } else {
        lemma_inversions_same_digits(s, t, 0, m);
        reveal_with_fuel(inversions, 1);
        assert(inversions(s, 0) == 0 && inversions(t, 0) == 0);
    }
}

/// Exchanging the values 10 and 11 of a permutation of twelve changes only how those two
/// compare, so the number of inversions changes by one and the parity flips.
pub proof fn lemma_flip_top_pair_parity(s: Seq<u8>)
    requires
        s.len() == 12,
        is_permutation(s),
    ensures
        is_odd_seq(flip_top_pair(s)) != is_odd_seq(s),
{
    let f = flip_top_pair(s);
    lemma_permutation_onto(s, 10);
    lemma_permutation_onto(s, 11);
    let a = choose|i: int| 0 <= i < 12 && s[i] as int == 10;
    let b = choose|i: int| 0 <= i < 12 && s[i] as int == 11;
    assert(a != b);
    assert(f[a] == 11 && f[b] == 10);
    assert forall|j: int| 0 <= j < 12 && j != a && j != b implies s[j] < 10 && #[trigger] f[j] == s[j] by {
        assert(s[j] != s[a]);
        assert(s[j] != s[b]);
    }
    // every slot other than the later of the two keeps its digit
    let late = if a < b { b } else { a };
    let early = if a < b { a } else { b };
    assert forall|k: int| 0 <= k < 12 && k != late implies lehmer_digit(s, k) == lehmer_digit(f, k) by {
        if k == early {
            // no earlier slot holds 10 or 11
            assert forall|i: int| 0 <= i < k implies s.take(k)[i] < 10 && f.take(k)[i] < 10 by {
                assert(s.take(k)[i] == s[i]);
                assert(f.take(k)[i] == f[i]);
            }
            lemma_count_greater_none(s.take(k), s[k]);
            lemma_count_greater_none(f.take(k), f[k]);
        } else {
            assert(s[k] < 10 && f[k] == s[k]);
            assert forall|i: int| 0 <= i < k implies (s.take(k)[i] > s[k]) == (f.take(k)[i] > f[k]) by {
                assert(s.take(k)[i] == s[i]);
                assert(f.take(k)[i] == f[i]);
                if i != a && i != b {
                    assert(f[i] == s[i]);
                }
            }
            lemma_count_greater_same_order(s.take(k), s[k], f.take(k), f[k]);
        }
    }
    // the later slot gains or loses exactly the pair itself
    let p1 = s.take(early);
    let q1 = f.take(early);
    let p3 = s.subrange(early + 1, late);
    let q3 = f.subrange(early + 1, late);
    assert(s.take(late) =~= p1 + seq![s[early]] + p3);
    assert(f.take(late) =~= q1 + seq![f[early]] + q3);
    assert forall|i: int| 0 <= i < p1.len() implies p1[i] < 10 && q1[i] < 10 by {
        assert(p1[i] == s[i]);
        assert(q1[i] == f[i]);
    }
    assert forall|i: int| 0 <= i < p3.len() implies p3[i] < 10 && q3[i] < 10 by {
        assert(p3[i] == s[i + early + 1]);
        assert(q3[i] == f[i + early + 1]);
    }
    lemma_count_greater_append(p1 + seq![s[early]], p3, s[late]);
    lemma_count_greater_append(p1, seq![s[early]], s[late]);
    lemma_count_greater_append(q1 + seq![f[early]], q3, f[late]);
    lemma_count_greater_append(q1, seq![f[early]], f[late]);
    lemma_count_greater_none(p1, s[late]);
    lemma_count_greater_none(q1, f[late]);
    lemma_count_greater_none(p3, s[late]);
    lemma_count_greater_none(q3, f[late]);
    reveal_with_fuel(count_greater, 2);
    assert(seq![s[early]].drop_last() =~= Seq::<u8>::empty());
    assert(seq![f[early]].drop_last() =~= Seq::<u8>::empty());
    assert(lehmer_digit(s, late) + lehmer_digit(f, late) == 1);
    lemma_inversions_one_slot(s, f, late, 12);
}

pub proof fn lemma_representative_valid(a: Seq<bool>)
    requires
        a.len() == 12,
        count_true(a) == 4,
    ensures
        is_permutation(representative(a)),
        representative(a).len() == 12,
        forall|p: int| 0 <= p < 12 ==> (#[trigger] representative(a)[p] >= 8) == a[p],
{
    lemma_rep_raw_valid(a);
    lemma_flip_top_pair_valid(rep_raw(a));
}

pub const COMBINATIONS: [[u16; 4]; 12] = [
    [1, 0, 0, 0],
    [1, 1, 0, 0],
    [1, 2, 1, 0],
    [1, 3, 3, 1],
    [1, 4, 6, 4],
    [1, 5, 10, 10],
    [1, 6, 15, 20],
    [1, 7, 21, 35],
    [1, 8, 28, 56],
    [1, 9, 36, 84],
    [1, 10, 45, 120],
    [1, 11, 55, 165],
];

proof fn lemma_binom_values()
    ensures
        forall|n: int, k: int| 0 <= n < 12 && 0 <= k < 4 ==> COMBINATIONS@[n]@[k] == binom(n, k),
        binom(12, 4) == 495,
{
    assert(binom(0, 0) == 1);
    assert(binom(0, 1) == 0);
    assert(binom(0, 2) == 0);
    assert(binom(0, 3) == 0);
    assert(binom(0, 4) == 0);
    assert(binom(1, 0) == 1);
    assert(binom(1, 1) == 1);
    assert(binom(1, 2) == 0);
    assert(binom(1, 3) == 0);
    assert(binom(1, 4) == 0);
    assert(binom(2, 0) == 1);
    assert(binom(2, 1) == 2);
    assert(binom(2, 2) == 1);
    assert(binom(2, 3) == 0);
    assert(binom(2, 4) == 0);
    assert(binom(3, 0) == 1);
    assert(binom(3, 1) == 3);
    assert(binom(3, 2) == 3);
    assert(binom(3, 3) == 1);
    assert(binom(3, 4) == 0);
    assert(binom(4, 0) == 1);
    assert(binom(4, 1) == 4);
    assert(binom(4, 2) == 6);
    assert(binom(4, 3) == 4);
    assert(binom(4, 4) == 1);
    assert(binom(5, 0) == 1);
    assert(binom(5, 1) == 5);
    assert(binom(5, 2) == 10);
    assert(binom(5, 3) == 10);
    assert(binom(5, 4) == 5);
    assert(binom(6, 0) == 1);
    assert(binom(6, 1) == 6);
    assert(binom(6, 2) == 15);
    assert(binom(6, 3) == 20);
    assert(binom(6, 4) == 15);
    assert(binom(7, 0) == 1);
    assert(binom(7, 1) == 7);
    assert(binom(7, 2) == 21);
    assert(binom(7, 3) == 35);
    assert(binom(7, 4) == 35);
    assert(binom(8, 0) == 1);
    assert(binom(8, 1) == 8);
    assert(binom(8, 2) == 28);
    assert(binom(8, 3) == 56);
    assert(binom(8, 4) == 70);
    assert(binom(9, 0) == 1);
    assert(binom(9, 1) == 9);
    assert(binom(9, 2) == 36);
    assert(binom(9, 3) == 84);
    assert(binom(9, 4) == 126);
    assert(binom(10, 0) == 1);
    assert(binom(10, 1) == 10);
    assert(binom(10, 2) == 45);
    assert(binom(10, 3) == 120);
    assert(binom(10, 4) == 210);
    assert(binom(11, 0) == 1);
    assert(binom(11, 1) == 11);
    assert(binom(11, 2) == 55);
    assert(binom(11, 3) == 165);
    assert(binom(11, 4) == 330);
    assert(binom(12, 0) == 1);
    assert(binom(12, 1) == 12);
    assert(binom(12, 2) == 66);
    assert(binom(12, 3) == 220);
    assert(binom(12, 4) == 495);
    assert forall|n: int, k: int| 0 <= n < 12 && 0 <= k < 4 implies COMBINATIONS@[n]@[k] == binom(n, k) by {
    }
}

proof fn lemma_binom_above(n: int, k: int)
    requires
        0 <= n < k,
    ensures
        binom(n, k) == 0,
    decreases n,
{
    if n > 0 {
        lemma_binom_above(n - 1, k - 1);
        lemma_binom_above(n - 1, k);
    }
}

proof fn lemma_binom_pascal(n: int, k: int)
    requires
        n >= 1,
        k >= 1,
    ensures
        binom(n, k) == binom(n - 1, k - 1) + binom(n - 1, k),
{
}

proof fn lemma_combo_rank_prefix(a: Seq<bool>, b: Seq<bool>, n: int, k: int)
    requires
        0 <= n <= a.len(),
        n <= b.len(),
        forall|t: int| 0 <= t < n ==> a[t] == b[t],
    ensures
        combo_rank(a, n, k) == combo_rank(b, n, k),
    decreases n,
{
    if n > 0 {
        lemma_combo_rank_prefix(a, b, n - 1, k);
        lemma_combo_rank_prefix(a, b, n - 1, k - 1);
    }
}

proof fn lemma_count_true_push(s: Seq<bool>, b: bool)
    ensures
        count_true(s.push(b)) == count_true(s) + if b {
            1nat
        } else {
            0nat
        },
{
    assert(s.push(b).drop_last() =~= s);
}

proof fn lemma_count_true_all_false(s: Seq<bool>)
    requires
        forall|t: int| 0 <= t < s.len() ==> !s[t],
    ensures
        count_true(s) == 0,
    decreases s.len(),
{
    if s.len() > 0 {
        lemma_count_true_all_false(s.drop_last());
    }
}

proof fn lemma_count_true_zero(s: Seq<bool>)
    requires
        count_true(s) == 0,
    ensures
        forall|t: int| 0 <= t < s.len() ==> !s[t],
    decreases s.len(),
{
    if s.len() > 0 {
        lemma_count_true_zero(s.drop_last());
        assert forall|t: int| 0 <= t < s.len() implies !s[t] by {
            if t < s.len() - 1 {
                assert(s[t] == s.drop_last()[t]);
            }
        }
    }
}

/// The greedy decoding is a selection of `i + 1` slots whose rank is `coord`.
pub proof fn lemma_combo_greedy(coord: int, k: int, i: int)
    requires
        0 <= i <= k,
        0 <= coord < binom(k + 1, i + 1),
    ensures
        combo_greedy(coord, k, i).len() == k + 1,
        combo_rank(combo_greedy(coord, k, i), k + 1, i) == coord,
        count_true(combo_greedy(coord, k, i)) == i + 1,
    decreases k,
{
    let g = combo_greedy(coord, k, i);
    lemma_binom_pascal(k + 1, i + 1);
    if coord >= binom(k, i) {
        if k == i {
            lemma_binom_above(k, i + 1);
        }
        let c2 = coord - binom(k, i);
        lemma_combo_greedy(c2, k - 1, i);
        let g2 = combo_greedy(c2, k - 1, i);
        assert(g == g2.push(false));
        lemma_combo_rank_prefix(g, g2, k, i);
        lemma_count_true_push(g2, false);
    } else if i <= 0 {
        let z = Seq::new(k as nat, |t: int| false);
        assert(g == z.push(true));
        lemma_count_true_all_false(z);
        lemma_count_true_push(z, true);
        assert(binom(k, 0) == 1);
    } else {
        lemma_combo_greedy(coord, k - 1, i - 1);
        let g2 = combo_greedy(coord, k - 1, i - 1);
        assert(g == g2.push(true));
        lemma_combo_rank_prefix(g, g2, k, i - 1);
        lemma_count_true_push(g2, true);
    }
}

/// A selection of `k + 1` of the first `n` slots ranks below `C(n, k + 1)`.
pub proof fn lemma_combo_rank_range(a: Seq<bool>, n: int, k: int)
    requires
        0 <= n <= a.len(),
        0 <= k,
        count_true(a.take(n)) == k + 1,
    ensures
        combo_rank(a, n, k) < binom(n, k + 1),
    decreases n,
{
    if n == 0 {
        assert(a.take(0) =~= Seq::<bool>::empty());
    } else {
        assert(a.take(n) =~= a.take(n - 1).push(a[n - 1]));
        lemma_count_true_push(a.take(n - 1), a[n - 1]);
        lemma_binom_pascal(n, k + 1);
        if !a[n - 1] {
            lemma_combo_rank_range(a, n - 1, k);
        } else if k == 0 {
            assert(binom(n - 1, 0) == 1);
        } else {
            lemma_combo_rank_range(a, n - 1, k - 1);
        }
    }
}

/// Decoding the rank of a selection gives the selection back.
pub proof fn lemma_combo_greedy_of_rank(a: Seq<bool>, n: int, k: int)
    requires
        1 <= n <= a.len(),
        0 <= k,
        count_true(a.take(n)) == k + 1,
    ensures
        combo_greedy(combo_rank(a, n, k) as int, n - 1, k) == a.take(n),
    decreases n,
{
    assert(a.take(n) =~= a.take(n - 1).push(a[n - 1]));
    lemma_count_true_push(a.take(n - 1), a[n - 1]);
    let c = combo_rank(a, n, k) as int;
    if !a[n - 1] {
        if n == 1 {
            assert(a.take(0) =~= Seq::<bool>::empty());
        }
        lemma_combo_greedy_of_rank(a, n - 1, k);
    } else if k == 0 {
        lemma_count_true_zero(a.take(n - 1));
        assert(binom(n - 1, 0) == 1);
        assert(a.take(n) =~= Seq::new((n - 1) as nat, |t: int| false).push(true));
    } else {
        lemma_combo_rank_range(a, n - 1, k - 1);
        if n == 1 {
            assert(a.take(0) =~= Seq::<bool>::empty());
        }
        lemma_combo_greedy_of_rank(a, n - 1, k - 1);
    }
}

proof fn lemma_combo_rank_bound(a: Seq<bool>, n: int, k: int)
    requires
        0 <= n <= 12,
        0 <= k <= 3,
    ensures
        combo_rank(a, n, k) <= n * 165,
    decreases n,
{
    if n > 0 {
        lemma_binom_values();
        lemma_combo_rank_bound(a, n - 1, k);
        if k > 0 {
            lemma_combo_rank_bound(a, n - 1, k - 1);
        }
        assert(binom(n - 1, k) <= 165);
    }
}

/// Which 4 of the 12 edge slots hold an E-slice edge.
#[derive(Clone, Copy, PartialEq, Eq, Hash, Debug)]
pub struct EdgeCombination(pub [bool; 12]);

impl EdgeCombination {
    /// Exactly four slots are selected.
    pub open spec fn valid(self) -> bool {
        count_true(self.0@) == 4
    }

    /// The E-slice edges in the last four slots.
    pub fn solved() -> (r: Self)
        ensures
            r.0@ == seq![false, false, false, false, false, false, false, false, true, true, true, true],
            r.valid(),
    {
        let r = Self([false, false, false, false, false, false, false, false, true, true, true, true]);
        proof {
            assert(r.0@ =~= seq![false, false, false, false, false, false, false, false, true, true, true, true]);
            reveal_with_fuel(count_true, 13);
        }
        r
    }

    fn is_valid(array: [bool; 12]) -> (r: bool)
        ensures
            r == (count_true(array@) == 4),
    {
        let mut seen: u8 = 0;
        let mut i: usize = 0;
        while i < 12
            invariant
                i <= 12,
                seen == count_true(array@.take(i as int)),
                seen <= i,
            decreases 12 - i,
        {
            proof {
                assert(array@.take(i + 1) =~= array@.take(i as int).push(array@[i as int]));
                lemma_count_true_push(array@.take(i as int), array@[i as int]);
            }
            if array[i] {
                seen += 1;
            }
            i += 1;
        }
        assert(array@.take(12) =~= array@);
        seen == 4
    }

    pub fn const_into_array(self) -> (r: [bool; 12])
        ensures
            r == self.0,
    {
        self.0
    }

    /// Accepts the array exactly when it selects four slots; otherwise hands it back.
    pub fn try_const_from_array(array: [bool; 12]) -> (r: Result<Self, [bool; 12]>)
        ensures
            match r {
                Ok(c) => count_true(array@) == 4 && c.0 == array,
                Err(a) => count_true(array@) != 4 && a == array,
            },
    {
        if Self::is_valid(array) {
            Ok(Self(array))
        } else {
            Err(array)
        }
    }

    pub fn const_from_array(array: [bool; 12]) -> (r: Self)
        requires
            count_true(array@) == 4,
        ensures
            r.0 == array,
    {
        match Self::try_const_from_array(array) {
            Ok(val) => val,
            Err(_) => {
                proof {
                    assert(false);
                }
                Self(array)
            },
        }
    }

    /// The selection `array`, which must select four slots; nothing is checked at run time.
    pub fn const_from_array_unchecked(array: [bool; 12]) -> (r: Self)
        requires
            count_true(array@) == 4,
        ensures
            r.0 == array,
    {
        Self(array)
    }

    /// Move the selection along `perm`: slot `i` takes the mark of slot `perm[i]`.
    pub fn permute(self, perm: Permutation<12>) -> (r: Self)
        requires
            perm.valid(),
        ensures
            forall|i: int| 0 <= i < 12 ==> r.0@[i] == self.0@[perm.0@[i] as int],
    {
        let mut out = self;
        perm.apply_to(&mut out.0);
        out
    }

    /// The even permutation that sends unselected slots to `0..8` and selected slots to
    /// `8..12`, each in slot order, with `10` and `11` exchanged when that order is odd.
    pub fn into_representative_even_perm(self) -> (r: Permutation<12>)
        ensures
            r.0@ == representative(self.0@),
            self.valid() ==> r.valid(),
            self.valid() ==> forall|p: int| 0 <= p < 12 ==> (#[trigger] r.0@[p] >= 8) == self.0@[p],
            self.valid() ==> !is_odd_seq(r.0@),
    {
        let mut i: u8 = 0;
        let mut j: u8 = 0;
        let mut out = [0u8; 12];
        let ghost raw = rep_raw(self.0@);
        while i + j < 12
            invariant
                i + j <= 12,
                j as int == count_true(self.0@.take((i + j) as int)),
                raw == rep_raw(self.0@),
                forall|p: int| 0 <= p < i + j ==> out@[p] == raw[p],
            decreases 12 - i - j,
        {
            let p = (i + j) as usize;
            proof {
                lemma_count_true_take_step(self.0@, p as int);
                lemma_count_true_take_monotone(self.0@, p as int, p as int);
            }
            if self.0[p] {
                out[p] = 8 + j;
                j += 1;
            } else {
                out[p] = i;
                i += 1;
            }
        }
        assert(out@ =~= raw);
        let mut perm = Permutation(out);
        if perm.is_odd() {
            let mut k: usize = 0;
            while k < 12
                invariant
                    k <= 12,
                    raw.len() == 12,
                    forall|t: int| 0 <= t < k ==> perm.0@[t] == flip_top_pair(raw)[t],
                    forall|t: int| k <= t < 12 ==> perm.0@[t] == raw[t],
                decreases 12 - k,
            {
                if perm.0[k] > 9 {
                    let v = perm.0[k];
                    perm.0[k] = if v % 2 == 0 {
                        v + 1
                    } else {
                        v - 1
                    };
                }
                k += 1;
            }
            assert(perm.0@ =~= flip_top_pair(raw));
        }
        proof {
            if self.valid() {
                lemma_representative_valid(self.0@);
                lemma_rep_raw_valid(self.0@);
                lemma_flip_top_pair_parity(raw);
            }
        }
        perm
    }

    /// The rank of the selection, in `0..495` for a valid selection.
    pub fn into_coord(self) -> (r: u16)
        ensures
            r == combo_rank(self.0@, 12, 3),
            self.valid() ==> r < 495,
            self.valid() ==> combo_greedy(r as int, 11, 3) == self.0@,
    {
        proof {
            lemma_binom_values();
            lemma_combo_rank_bound(self.0@, 12, 3);
        }
        let mut sum: u16 = 0;
        let mut k: usize = 3;
        let mut n: usize = 11;
        loop
            invariant_except_break
                n <= 11,
                k <= 3,
                sum + combo_rank(self.0@, n + 1, k as int) == combo_rank(self.0@, 12, 3),
                combo_rank(self.0@, 12, 3) <= 12 * 165,
                forall|a: int, b: int| 0 <= a < 12 && 0 <= b < 4 ==> COMBINATIONS@[a]@[b] == binom(a, b),
            ensures
                sum == combo_rank(self.0@, 12, 3),
            decreases n,
        {
            if !self.0[n] {
                sum += COMBINATIONS[n][k];
            } else if k == 0 {
                assert(combo_rank(self.0@, n + 1, 0) == 0);
                break;
            } else {
                k -= 1;
            }
            if n == 0 {
                assert(combo_rank(self.0@, 0, k as int) == 0);
                break;
            }
            n -= 1;
        }
        proof {
            if self.valid() {
                assert(self.0@.take(12) =~= self.0@);
                lemma_combo_rank_range(self.0@, 12, 3);
                lemma_combo_greedy_of_rank(self.0@, 12, 3);
            }
        }
        sum
    }

    /// The selection of rank `coord`.
    pub fn from_coord(coord: u16) -> (r: Self)
        requires
            coord < 495,
        ensures
            r.0@ == combo_greedy(coord as int, 11, 3),
            r.valid(),
            combo_rank(r.0@, 12, 3) == coord,
    {
        proof {
            lemma_binom_values();
            lemma_combo_greedy(coord as int, 11, 3);
        }
        let ghost whole = combo_greedy(coord as int, 11, 3);
        let mut rest = coord;
        let mut buf = [false; 12];
        let mut k: usize = 11;
        let mut i: usize = 3;
        loop
            invariant_except_break
                i <= k <= 11,
                i <= 3,
                rest < binom(k + 1, i + 1),
                whole.len() == 12,
                whole.take(k + 1) == combo_greedy(rest as int, k as int, i as int),
                forall|t: int| k < t < 12 ==> buf@[t] == whole[t],
                forall|t: int| 0 <= t <= k ==> !buf@[t],
                forall|a: int, b: int| 0 <= a < 12 && 0 <= b < 4 ==> COMBINATIONS@[a]@[b] == binom(a, b),
            ensures
                buf@ == whole,
            decreases k,
        {
            let c = COMBINATIONS[k][i];
            proof {
                lemma_binom_pascal(k + 1, i + 1);
                if k == i {
                    lemma_binom_above(k as int, i + 1);
                }
            }
            if rest >= c {
                proof {
                    let g2 = combo_greedy(rest - c, k - 1, i as int);
                    assert(whole.take(k + 1) == g2.push(false));
                    assert(whole.take(k as int) =~= whole.take(k + 1).drop_last());
                    assert(whole[k as int] == whole.take(k + 1)[k as int]);
                }
                rest -= c;
                k -= 1;
            } else {
                buf[k] = true;
                if i == 0 {
                    proof {
                        assert(whole.take(k + 1) == Seq::new(k as nat, |t: int| false).push(true));
                        assert forall|t: int| 0 <= t <= k implies buf@[t] == whole[t] by {
                            assert(whole[t] == whole.take(k + 1)[t]);
                        }
                        assert(buf@ =~= whole);
                    }
                    break;
                }
                proof {
                    let g2 = combo_greedy(rest as int, k - 1, i - 1);
                    assert(whole.take(k + 1) == g2.push(true));
                    assert(whole.take(k as int) =~= whole.take(k + 1).drop_last());
                    assert(whole[k as int] == whole.take(k + 1)[k as int]);
                }
                i -= 1;
                k -= 1;
            }
        }
        Self(buf)
    }
}

} // verus!
