use vstd::prelude::*;
use vstd::arithmetic::power::pow;
use crate::digits::{
    digit_sum, digits_below, lemma_digit_sum_bound, lemma_digit_sum_prefix, lemma_lsd_bound,
    lemma_lsd_nonneg, lemma_lsd_prefix, lemma_lsd_split, lemma_lsd_step, lemma_pow_positive,
    lemma_pow_values,
    lsd_value,
};
use crate::permutation_coord::{
    edge_grouping, edge_grouping_inverse, permutation_coord_4, permutation_coord_4_inverse,
    permutation_coord_8, permutation_coord_8_inverse,
};
use crate::permutation_math::grouping::{
    combo_rank, count_true, lemma_count_true_take_monotone, lemma_count_true_take_step,
};
use crate::permutation_math::lehmer_rank::{factorial, lehmer_rank, lemma_rank_same_order};
use crate::permutation_math::permutation::{is_permutation, Permutation};

verus! {

/// The values below 8 (U/D edges) among the first `n` slots, in slot order.
pub open spec fn ud_values(s: Seq<u8>, n: int) -> Seq<u8>
    decreases n,
{
    if n <= 0 {
        Seq::empty()
    } else if s[n - 1] < 8 {
        ud_values(s, n - 1).push(s[n - 1])
    } else {
        ud_values(s, n - 1)
    }
}

/// The values of at least 8 (E-slice edges) among the first `n` slots, in slot order.
pub open spec fn e_values(s: Seq<u8>, n: int) -> Seq<u8>
    decreases n,
{
    if n <= 0 {
        Seq::empty()
    } else if s[n - 1] >= 8 {
        e_values(s, n - 1).push(s[n - 1])
    } else {
        e_values(s, n - 1)
    }
}

/// `s` followed by zeros up to length `n`.
pub open spec fn padded(s: Seq<u8>, n: int) -> Seq<u8> {
    s + Seq::new((n - s.len()) as nat, |i: int| 0u8)
}

/// Which slots hold an E-slice edge.
pub open spec fn e_marks(s: Seq<u8>) -> Seq<bool> {
    Seq::new(s.len(), |i: int| s[i] >= 8)
}

proof fn lemma_ud_values_len(s: Seq<u8>, m: int, n: int)
    requires
        0 <= m <= n,
    ensures
        ud_values(s, m).len() <= ud_values(s, n).len(),
        ud_values(s, n).len() <= n,
    decreases n,
{
    if n > 0 {
        lemma_ud_values_len(s, if m < n { m } else { n - 1 }, n - 1);
    }
}

proof fn lemma_e_values_len(s: Seq<u8>, m: int, n: int)
    requires
        0 <= m <= n,
    ensures
        e_values(s, m).len() <= e_values(s, n).len(),
        e_values(s, n).len() <= n,
    decreases n,
{
    if n > 0 {
        lemma_e_values_len(s, if m < n { m } else { n - 1 }, n - 1);
    }
}

/// The 40 bytes of the solved cube.
pub open spec fn solved_bytes() -> Seq<u8> {
    Seq::new(
        40,
        |i: int|
            if i < 8 {
                i as u8
            } else if i < 28 {
                0u8
            } else {
                (i - 28) as u8
            },
    )
}

/// A cube as the pieces in each slot and their twists and flips.
#[derive(Clone, Copy, PartialEq, Eq, Debug)]
pub struct CubieRepr {
    pub corner_perm: [u8; 8],
    pub corner_orient: [u8; 8],
    pub edge_orient: [u8; 12],
    pub edge_perm: [u8; 12],
}

impl CubieRepr {
    /// The solved cube.
    pub fn new() -> (r: Self)
        ensures
            forall|i: int| 0 <= i < 8 ==> r.corner_perm@[i] == i && r.corner_orient@[i] == 0,
            forall|i: int| 0 <= i < 12 ==> r.edge_perm@[i] == i && r.edge_orient@[i] == 0,
            r.bytes() == solved_bytes(),
    {
        let r = CubieRepr {
            corner_perm: [0, 1, 2, 3, 4, 5, 6, 7],
            corner_orient: [0; 8],
            edge_orient: [0; 12],
            edge_perm: [0, 1, 2, 3, 4, 5, 6, 7, 8, 9, 10, 11],
        };
        assert(r.bytes() =~= solved_bytes());
        r
    }

    /// Whether every piece is home and untwisted.
    pub fn is_solved(&self) -> (r: bool)
        ensures
            r == ((forall|i: int| 0 <= i < 8 ==> self.corner_perm@[i] == i && self.corner_orient@[i] == 0)
                && (forall|i: int| 0 <= i < 12 ==> self.edge_perm@[i] == i && self.edge_orient@[i] == 0)),
    {
        let solved = Self::new();
        let mut same = true;
        let mut i: usize = 0;
        while i < 8
            invariant
                i <= 8,
                forall|k: int| 0 <= k < 8 ==> solved.corner_perm@[k] == k && solved.corner_orient@[k] == 0,
                same == (forall|k: int| 0 <= k < i ==> self.corner_perm@[k] == k && self.corner_orient@[k] == 0),
            decreases 8 - i,
        {
            if self.corner_perm[i] != solved.corner_perm[i] || self.corner_orient[i] != solved.corner_orient[i] {
                same = false;
            }
            i += 1;
        }
        let mut edges_same = true;
        let mut i: usize = 0;
        while i < 12
            invariant
                i <= 12,
                edges_same == (forall|k: int| 0 <= k < i ==> self.edge_perm@[k] == k && self.edge_orient@[k] == 0),
                same == (forall|k: int| 0 <= k < 8 ==> self.corner_perm@[k] == k && self.corner_orient@[k] == 0),
                forall|k: int| 0 <= k < 12 ==> solved.edge_perm@[k] == k && solved.edge_orient@[k] == 0,
            decreases 12 - i,
        {
            if self.edge_perm[i] != solved.edge_perm[i] || self.edge_orient[i] != solved.edge_orient[i] {
                edges_same = false;
            }
            i += 1;
        }
        same && edges_same
    }

    /// Phase 1: the twists of the first seven corners as a number in base 3, corner 0 the
    /// least significant digit.
    pub fn coord_corner_orient(&self) -> (r: u16)
        requires
            lsd_value(self.corner_orient@, 3, 7) <= u16::MAX,
        ensures
            r == lsd_value(self.corner_orient@, 3, 7),
    {
        let mut sum: u16 = 0;
        let mut i: usize = 7;
        proof {
            reveal(pow);
        }
        while i > 0
            invariant
                i <= 7,
                sum * pow(3, i as nat) + lsd_value(self.corner_orient@, 3, i as int) == lsd_value(
                    self.corner_orient@,
                    3,
                    7,
                ),
                lsd_value(self.corner_orient@, 3, 7) <= u16::MAX,
            decreases i,
        {
            proof {
                lemma_lsd_step(self.corner_orient@, 3, i as int, sum as int);
                lemma_lsd_nonneg(self.corner_orient@, 3, i - 1);
                lemma_pow_positive(3, (i - 1) as nat);
                let p = pow(3, (i - 1) as nat);
                let t = sum * 3 + self.corner_orient@[i - 1];
                assert(t <= t * p) by (nonlinear_arith)
                    requires
                        t >= 0,
                        p >= 1,
                ;
            }
            i -= 1;
            sum *= 3;
            sum += self.corner_orient[i] as u16;
        }
        proof {
            reveal(pow);
        }
        sum
    }

    /// Phase 1: the flips of the first eleven edges as a number in base 2, edge 0 the least
    /// significant bit.
    pub fn coord_edge_orient(&self) -> (r: u16)
        requires
            lsd_value(self.edge_orient@, 2, 11) <= u16::MAX,
        ensures
            r == lsd_value(self.edge_orient@, 2, 11),
    {
        let mut sum: u16 = 0;
        let mut i: usize = 11;
        proof {
            reveal(pow);
        }
        while i > 0
            invariant
                i <= 11,
                sum * pow(2, i as nat) + lsd_value(self.edge_orient@, 2, i as int) == lsd_value(
                    self.edge_orient@,
                    2,
                    11,
                ),
                lsd_value(self.edge_orient@, 2, 11) <= u16::MAX,
            decreases i,
        {
            proof {
                lemma_lsd_step(self.edge_orient@, 2, i as int, sum as int);
                lemma_lsd_nonneg(self.edge_orient@, 2, i - 1);
                lemma_pow_positive(2, (i - 1) as nat);
                let p = pow(2, (i - 1) as nat);
                let t = sum * 2 + self.edge_orient@[i - 1];
                assert(t <= t * p) by (nonlinear_arith)
                    requires
                        t >= 0,
                        p >= 1,
                ;
                let x = sum;
                assert(x <= 32767 ==> x << 1u16 == x * 2) by (bit_vector);
            }
            i -= 1;
            sum <<= 1;
            sum += self.edge_orient[i] as u16;
        }
        proof {
            reveal(pow);
        }
        sum
    }

    /// Phase 1: the rank of the set of slots holding E-slice edges.
    pub fn coord_edge_grouping(&self) -> (r: u16)
        ensures
            r == combo_rank(e_marks(self.edge_perm@), 12, 3),
    {
        let mut items = [false; 12];
        let mut i: usize = 0;
        while i < 12
            invariant
                i <= 12,
                forall|k: int| 0 <= k < i ==> items@[k] == (self.edge_perm@[k] >= 8),
            decreases 12 - i,
        {
            items[i] = self.edge_perm[i] >= 8;
            i += 1;
        }
        assert(items@ =~= e_marks(self.edge_perm@));
        edge_grouping(&items)
    }

    /// Phase 1: the grouping rank above the eleven flip bits.
    pub fn coord_edge_grouping_and_orient(&self) -> (r: u32)
        requires
            lsd_value(self.edge_orient@, 2, 11) <= u16::MAX,
        ensures
            r == combo_rank(e_marks(self.edge_perm@), 12, 3) * 2048 + lsd_value(self.edge_orient@, 2, 11),
    {
        let orient = self.coord_edge_orient() as u32;
        let grouping = self.coord_edge_grouping() as u32;
        proof {
            assert(grouping <= 65535 ==> grouping << 11u32 == grouping * 2048) by (bit_vector);
        }
        (grouping << 11) + orient
    }

    /// Phase 2: the Lehmer rank of the corner permutation.
    pub fn coord_corner_perm(&self) -> (r: u16)
        ensures
            r == lehmer_rank(self.corner_perm@, 8),
    {
        permutation_coord_8(&self.corner_perm)
    }

    /// Phase 2: the Lehmer rank of the U/D edges in slot order.
    pub fn coord_ud_edge_perm(&self) -> (r: u16)
        requires
            ud_values(self.edge_perm@, 12).len() <= 8,
        ensures
            r == lehmer_rank(padded(ud_values(self.edge_perm@, 12), 8), 8),
    {
        let mut ud_edges = [0u8; 8];
        let mut i: usize = 0;
        let mut j: usize = 0;
        while i < 12
            invariant
                i <= 12,
                ud_values(self.edge_perm@, 12).len() <= 8,
                j == ud_values(self.edge_perm@, i as int).len(),
                forall|k: int| 0 <= k < j ==> ud_edges@[k] == ud_values(self.edge_perm@, i as int)[k],
                forall|k: int| j <= k < 8 ==> ud_edges@[k] == 0,
            decreases 12 - i,
        {
            proof {
                lemma_ud_values_len(self.edge_perm@, i + 1, 12);
            }
            if self.edge_perm[i] < 8 {
                ud_edges[j] = self.edge_perm[i];
                j += 1;
            }
            i += 1;
        }
        assert(ud_edges@ =~= padded(ud_values(self.edge_perm@, 12), 8));
        permutation_coord_8(&ud_edges)
    }

    /// Phase 2: the Lehmer rank of the E-slice edges in slot order.
    pub fn coord_e_edge_perm(&self) -> (r: u8)
        requires
            e_values(self.edge_perm@, 12).len() <= 4,
        ensures
            r == lehmer_rank(padded(e_values(self.edge_perm@, 12), 4), 4),
    {
        let mut e_edges = [0u8; 4];
        let mut i: usize = 0;
        let mut j: usize = 0;
        while i < 12
            invariant
                i <= 12,
                e_values(self.edge_perm@, 12).len() <= 4,
                j == e_values(self.edge_perm@, i as int).len(),
                forall|k: int| 0 <= k < j ==> e_edges@[k] == e_values(self.edge_perm@, i as int)[k],
                forall|k: int| j <= k < 4 ==> e_edges@[k] == 0,
            decreases 12 - i,
        {
            proof {
                lemma_e_values_len(self.edge_perm@, i + 1, 12);
            }
            if self.edge_perm[i] >= 8 {
                e_edges[j] = self.edge_perm[i];
                j += 1;
            }
            i += 1;
        }
        assert(e_edges@ =~= padded(e_values(self.edge_perm@, 12), 4));
        permutation_coord_4(&e_edges)
    }
}

/// Where slot `k` of the merged arrangement reads from.
proof fn lemma_merged_slot(g: Seq<bool>, k: int)
    requires
        g.len() == 12,
        count_true(g) == 4,
        0 <= k < 12,
    ensures
        g[k] ==> count_true(g.take(k)) < 4,
        !g[k] ==> k - count_true(g.take(k)) < 8,
        count_true(g.take(k)) <= k,
{
    assert(g.take(12) =~= g);
    lemma_count_true_take_monotone(g, k, k);
    lemma_count_true_take_step(g, k);
    lemma_count_true_take_monotone(g, k + 1, 12);
}

/// Two slots of the merged arrangement, the first before the second, read from different
/// places.
proof fn lemma_merged_order(g: Seq<bool>, x: int, y: int)
    requires
        g.len() == 12,
        0 <= x < y < 12,
    ensures
        g[x] ==> count_true(g.take(x)) < count_true(g.take(y)),
        !g[x] ==> x - count_true(g.take(x)) < y - count_true(g.take(y)),
{
    lemma_count_true_take_step(g, x);
    lemma_count_true_take_monotone(g, x + 1, y);
}

/// Merging a permutation of the U/D edges with one of the E-slice edges gives a permutation
/// of all twelve.
proof fn lemma_merged_permutation(g: Seq<bool>, ud: Seq<u8>, e: Seq<u8>)
    requires
        g.len() == 12,
        count_true(g) == 4,
        ud.len() == 8,
        e.len() == 4,
        is_permutation(ud),
        is_permutation(e),
    ensures
        is_permutation(merged_edges(g, ud, e)),
{
    let m = merged_edges(g, ud, e);
    assert forall|k: int| 0 <= k < 12 implies (#[trigger] m[k] as int) < 12 by {
        lemma_merged_slot(g, k);
        if g[k] {
            assert(e[count_true(g.take(k)) as int] < 4);
        } else {
            assert(ud[k - count_true(g.take(k))] < 8);
        }
    }
    assert forall|x: int, y: int| 0 <= x < y < 12 implies #[trigger] m[x] != #[trigger] m[y] by {
        lemma_merged_slot(g, x);
        lemma_merged_slot(g, y);
        lemma_merged_order(g, x, y);
        let cx = count_true(g.take(x)) as int;
        let cy = count_true(g.take(y)) as int;
        if g[x] && g[y] {
            assert(e[cx] != e[cy]);
        } else if !g[x] && !g[y] {
            assert(ud[x - cx] != ud[y - cy]);
        } else if g[x] {
            assert(ud[y - cy] < 8);
        } else {
            assert(ud[x - cx] < 8);
        }
    }
    assert forall|a: int, b: int| 0 <= a < 12 && 0 <= b < 12 && a != b implies #[trigger] m[a] != #[trigger] m[b] by {
        if a < b {
            assert(m[a] != m[b]);
        } else {
            assert(m[b] != m[a]);
        }
    }
}

/// The edge arrangement that puts the E-slice edges `8 + e` into the marked slots and the
/// U/D edges `ud` into the others, each in slot order.
pub open spec fn merged_edges(g: Seq<bool>, ud: Seq<u8>, e: Seq<u8>) -> Seq<u8> {
    Seq::new(
        12,
        |k: int|
            if g[k] {
                (e[count_true(g.take(k)) as int] + 8) as u8
            } else {
                ud[k - count_true(g.take(k))]
            },
    )
}

/// `e` with every value raised by 8.
pub open spec fn raised(e: Seq<u8>) -> Seq<u8> {
    Seq::new(e.len(), |i: int| (e[i] + 8) as u8)
}

/// Reading the merged arrangement back slot by slot gives back the two parts.
#[verifier::spinoff_prover]
proof fn lemma_merged_values(g: Seq<bool>, ud: Seq<u8>, e: Seq<u8>, n: int)
    requires
        g.len() == 12,
        count_true(g) == 4,
        ud.len() == 8,
        e.len() == 4,
        forall|i: int| 0 <= i < 8 ==> ud[i] < 8,
        forall|i: int| 0 <= i < 4 ==> e[i] < 4,
        0 <= n <= 12,
    ensures
        ud_values(merged_edges(g, ud, e), n) == ud.take(n - count_true(g.take(n))),
        e_values(merged_edges(g, ud, e), n) == raised(e).take(count_true(g.take(n)) as int),
        forall|k: int| 0 <= k < n ==> (merged_edges(g, ud, e)[k] >= 8) == g[k],
    decreases n,
{
    if n == 0 {
        assert(g.take(0) =~= Seq::<bool>::empty());
        assert(ud.take(0) =~= Seq::<u8>::empty());
        assert(raised(e).take(0) =~= Seq::<u8>::empty());
    } else {
        lemma_merged_values(g, ud, e, n - 1);
        lemma_merged_step(g, ud, e, n - 1);
    }
}

/// One slot of the merged arrangement.
#[verifier::spinoff_prover]
proof fn lemma_merged_step(g: Seq<bool>, ud: Seq<u8>, e: Seq<u8>, p: int)
    requires
        g.len() == 12,
        count_true(g) == 4,
        ud.len() == 8,
        e.len() == 4,
        forall|i: int| 0 <= i < 8 ==> ud[i] < 8,
        forall|i: int| 0 <= i < 4 ==> e[i] < 4,
        0 <= p < 12,
        ud_values(merged_edges(g, ud, e), p) == ud.take(p - count_true(g.take(p))),
        e_values(merged_edges(g, ud, e), p) == raised(e).take(count_true(g.take(p)) as int),
    ensures
        ud_values(merged_edges(g, ud, e), p + 1) == ud.take(p + 1 - count_true(g.take(p + 1))),
        e_values(merged_edges(g, ud, e), p + 1) == raised(e).take(count_true(g.take(p + 1)) as int),
        (merged_edges(g, ud, e)[p] >= 8) == g[p],
{
    let m = merged_edges(g, ud, e);
    lemma_count_true_take_step(g, p);
    lemma_count_true_take_monotone(g, p + 1, 12);
    lemma_count_true_take_monotone(g, p, p);
    assert(g.take(12) =~= g);
    let c = count_true(g.take(p)) as int;
    if g[p] {
        assert(c < 4);
        assert(m[p] == e[c] + 8);
        assert(raised(e).take(c + 1) =~= raised(e).take(c).push(raised(e)[c]));
    } else {
        assert(p - c < 8);
        assert(m[p] == ud[p - c]);
        assert(ud.take(p + 1 - c) =~= ud.take(p - c).push(ud[p - c]));
    }
}

impl CubieRepr {
    /// The cube with the given coordinates: the corner twists read base 3 and the edge flips
    /// read base 2 from the lowest digit up (the last piece fixing the sum), the E-slice
    /// edges placed in the slots of `edge_group`, and the permutations of the corners, of the
    /// U/D edges and of the E-slice edges of the given Lehmer ranks.
    pub fn from_coords(
        corner_orient: u16,
        edge_orient: u16,
        edge_group: u16,
        corner_perm: u16,
        ud_edge_perm: u16,
        e_edge_perm: u8,
    ) -> (r: Self)
        requires
            edge_group < 495,
            corner_perm < 40320,
            ud_edge_perm < 40320,
            e_edge_perm < 24,
        ensures
            digits_below(r.corner_orient@, 3, 8),
            lsd_value(r.corner_orient@, 3, 7) == corner_orient % 2187,
            digit_sum(r.corner_orient@, 8) % 3 == 0,
            digits_below(r.edge_orient@, 2, 12),
            lsd_value(r.edge_orient@, 2, 11) == edge_orient % 2048,
            digit_sum(r.edge_orient@, 12) % 2 == 0,
            is_permutation(r.corner_perm@),
            lehmer_rank(r.corner_perm@, 8) == corner_perm,
            is_permutation(r.edge_perm@),
            combo_rank(e_marks(r.edge_perm@), 12, 3) == edge_group,
            ud_values(r.edge_perm@, 12).len() == 8,
            is_permutation(ud_values(r.edge_perm@, 12)),
            lehmer_rank(ud_values(r.edge_perm@, 12), 8) == ud_edge_perm,
            e_values(r.edge_perm@, 12).len() == 4,
            lehmer_rank(e_values(r.edge_perm@, 12), 4) == e_edge_perm,
            lehmer_rank(padded(ud_values(r.edge_perm@, 12), 8), 8) == ud_edge_perm,
            lehmer_rank(padded(e_values(r.edge_perm@, 12), 4), 4) == e_edge_perm,
    {
        proof {
            reveal_with_fuel(factorial, 9);
        }
        let edge_group = edge_grouping_inverse(edge_group);
        let corner_perm = permutation_coord_8_inverse(corner_perm);
        let ud_edge_perm = permutation_coord_8_inverse(ud_edge_perm);
        let e_edge_perm = permutation_coord_4_inverse(e_edge_perm);

        let mut edge_perm = [0u8; 12];
        let mut ud: usize = 0;
        let mut e: usize = 0;
        let mut n: usize = 0;
        while n < 12
            invariant
                n <= 12,
                edge_group@.len() == 12,
                count_true(edge_group@) == 4,
                e == count_true(edge_group@.take(n as int)),
                ud == n - count_true(edge_group@.take(n as int)),
                forall|i: int| 0 <= i < 8 ==> ud_edge_perm@[i] < 8,
                forall|i: int| 0 <= i < 4 ==> e_edge_perm@[i] < 4,
                forall|k: int| 0 <= k < n ==> edge_perm@[k] == merged_edges(edge_group@, ud_edge_perm@, e_edge_perm@)[k],
            decreases 12 - n,
        {
            proof {
                lemma_count_true_take_step(edge_group@, n as int);
                lemma_count_true_take_monotone(edge_group@, n + 1, 12);
                lemma_count_true_take_monotone(edge_group@, n as int, n as int);
                assert(edge_group@.take(12) =~= edge_group@);
            }
            if edge_group[n] {
                edge_perm[n] = e_edge_perm[e] + 8;
                e += 1;
            } else {
                edge_perm[n] = ud_edge_perm[ud];
                ud += 1;
            }
            n += 1;
        }

        let mut corner_orient_buf = [0u8; 8];
        let mut rest = corner_orient;
        let mut last: u8 = 0;
        let mut i: usize = 0;
        proof {
            reveal(pow);
        }
        while i < 7
            invariant
                i <= 7,
                digits_below(corner_orient_buf@, 3, i as int),
                corner_orient == lsd_value(corner_orient_buf@, 3, i as int) + pow(3, i as nat) * rest,
                last == 3 * i - digit_sum(corner_orient_buf@, i as int),
            decreases 7 - i,
        {
            let r = rest % 3;
            let ghost before = corner_orient_buf@;
            corner_orient_buf[i] = r as u8;
            proof {
                lemma_lsd_prefix(before, corner_orient_buf@, 3, i as int);
                lemma_digit_sum_prefix(before, corner_orient_buf@, i as int);
                lemma_lsd_split(corner_orient_buf@, 3, i as int, corner_orient as int, rest as int);
                lemma_digit_sum_bound(corner_orient_buf@, 3, i as int);
            }
            last += 3 - corner_orient_buf[i];
            rest /= 3;
            i += 1;
        }
        let ghost seven = corner_orient_buf@;
        corner_orient_buf[7] = last % 3;
        proof {
            lemma_lsd_prefix(seven, corner_orient_buf@, 3, 7);
            lemma_digit_sum_prefix(seven, corner_orient_buf@, 7);
            lemma_lsd_bound(corner_orient_buf@, 3, 7);
            lemma_pow_values();
            lemma_mod_of_split(corner_orient as int, lsd_value(corner_orient_buf@, 3, 7), 2187, rest as int);
        }

        let mut edge_orient_buf = [0u8; 12];
        let mut rest = edge_orient;
        let mut last: u8 = 0;
        let mut i: usize = 0;
        while i < 11
            invariant
                i <= 11,
                digits_below(edge_orient_buf@, 2, i as int),
                edge_orient == lsd_value(edge_orient_buf@, 2, i as int) + pow(2, i as nat) * rest,
                last == 2 * i - digit_sum(edge_orient_buf@, i as int),
            decreases 11 - i,
        {
            let r = rest & 1;
            proof {
                let x = rest;
                assert(x & 1 == x % 2) by (bit_vector);
                assert(x >> 1 == x / 2) by (bit_vector);
            }
            let ghost before = edge_orient_buf@;
            edge_orient_buf[i] = r as u8;
            proof {
                lemma_lsd_prefix(before, edge_orient_buf@, 2, i as int);
                lemma_digit_sum_prefix(before, edge_orient_buf@, i as int);
                lemma_lsd_split(edge_orient_buf@, 2, i as int, edge_orient as int, rest as int);
                lemma_digit_sum_bound(edge_orient_buf@, 2, i as int);
            }
            last += 2 - edge_orient_buf[i];
            rest >>= 1;
            i += 1;
        }
        let ghost eleven = edge_orient_buf@;
        edge_orient_buf[11] = last % 2;
        proof {
            lemma_lsd_prefix(eleven, edge_orient_buf@, 2, 11);
            lemma_digit_sum_prefix(eleven, edge_orient_buf@, 11);
            lemma_lsd_bound(edge_orient_buf@, 2, 11);
            lemma_mod_of_split(edge_orient as int, lsd_value(edge_orient_buf@, 2, 11), 2048, rest as int);
        }

        let r = CubieRepr {
            corner_perm: corner_perm,
            corner_orient: corner_orient_buf,
            edge_orient: edge_orient_buf,
            edge_perm: edge_perm,
        };
        proof {
            let m = merged_edges(edge_group@, ud_edge_perm@, e_edge_perm@);
            assert(edge_perm@ =~= m);
            lemma_merged_values(edge_group@, ud_edge_perm@, e_edge_perm@, 12);
            lemma_merged_permutation(edge_group@, ud_edge_perm@, e_edge_perm@);
            assert(edge_group@.take(12) =~= edge_group@);
            assert(ud_edge_perm@.take(8) =~= ud_edge_perm@);
            assert(raised(e_edge_perm@).take(4) =~= raised(e_edge_perm@));
            assert(e_marks(edge_perm@) =~= edge_group@);
            let re = raised(e_edge_perm@);
            assert forall|a: int, b: int| 0 <= a < 4 && 0 <= b < 4 implies (#[trigger] re[a] > #[trigger] re[b]) == (e_edge_perm@[a] > e_edge_perm@[b]) by {
            }
            lemma_rank_same_order(re, e_edge_perm@, 4);
            lemma_digit_sum_step(corner_orient_buf@, 8);
            lemma_digit_sum_step(edge_orient_buf@, 12);
            assert(padded(ud_values(edge_perm@, 12), 8) =~= ud_values(edge_perm@, 12));
            assert(padded(e_values(edge_perm@, 12), 4) =~= e_values(edge_perm@, 12));
        }
        r
    }
}

/// When `v` splits as `l + p * q` with `0 <= l < p`, `l` is `v % p`.
proof fn lemma_mod_of_split(v: int, l: int, p: int, q: int)
    requires
        p > 0,
        0 <= l < p,
        q >= 0,
        v == l + p * q,
    ensures
        l == v % p,
{
    assert(p * q == q * p) by (nonlinear_arith);
    vstd::arithmetic::div_mod::lemma_fundamental_div_mod_converse(v, p, q, l);
}

/// The sum of all `n` digits is the sum of the first `n - 1` and the last.
proof fn lemma_digit_sum_step(s: Seq<u8>, n: int)
    requires
        n >= 1,
    ensures
        digit_sum(s, n) == digit_sum(s, n - 1) + s[n - 1],
{
}

/// Where the corner permutation starts among the 40 bytes of a cube.
pub fn corner_perm_offset() -> (r: usize)
    ensures
        r == 0,
{
    0
}

/// Where the corner twists start among the 40 bytes of a cube.
pub fn corner_orient_offset() -> (r: usize)
    ensures
        r == 8,
{
    8
}

/// Where the edge flips start among the 40 bytes of a cube.
pub fn edge_orient_offset() -> (r: usize)
    ensures
        r == 16,
{
    16
}

/// Where the edge permutation starts among the 40 bytes of a cube.
pub fn edge_perm_offset() -> (r: usize)
    ensures
        r == 28,
{
    28
}

impl CubieRepr {
    /// The cube as 40 bytes: corner permutation, corner twists, edge flips, edge permutation.
    pub open spec fn bytes(self) -> Seq<u8> {
        self.corner_perm@ + self.corner_orient@ + self.edge_orient@ + self.edge_perm@
    }

    /// The 40 bytes of the cube.
    pub fn into_array(self) -> (r: [u8; 40])
        ensures
            r@ == self.bytes(),
    {
        let mut out = [0u8; 40];
        let mut i: usize = 0;
        while i < 8
            invariant
                i <= 8,
                forall|k: int| 0 <= k < i ==> out@[k] == self.corner_perm@[k],
                forall|k: int| 0 <= k < i ==> out@[k + 8] == self.corner_orient@[k],
            decreases 8 - i,
        {
            out[i] = self.corner_perm[i];
            out[i + 8] = self.corner_orient[i];
            i += 1;
        }
        let mut i: usize = 0;
        while i < 12
            invariant
                i <= 12,
                forall|k: int| 0 <= k < 8 ==> out@[k] == self.corner_perm@[k],
                forall|k: int| 0 <= k < 8 ==> out@[k + 8] == self.corner_orient@[k],
                forall|k: int| 0 <= k < i ==> out@[k + 16] == self.edge_orient@[k],
                forall|k: int| 0 <= k < i ==> out@[k + 28] == self.edge_perm@[k],
            decreases 12 - i,
        {
            out[i + 16] = self.edge_orient[i];
            out[i + 28] = self.edge_perm[i];
            i += 1;
        }
        proof {
            assert forall|k: int| 0 <= k < 40 implies out@[k] == self.bytes()[k] by {
                if k < 8 {
                } else if k < 16 {
                    assert(out@[(k - 8) + 8] == self.corner_orient@[k - 8]);
                } else if k < 28 {
                    assert(out@[(k - 16) + 16] == self.edge_orient@[k - 16]);
                } else {
                    assert(out@[(k - 28) + 28] == self.edge_perm@[k - 28]);
                }
            }
            assert(out@ =~= self.bytes());
        }
        out
    }

    /// The cube whose 40 bytes are `array`; the values are not checked.
    pub fn from_array_unchecked(array: [u8; 40]) -> (r: Self)
        ensures
            r.bytes() == array@,
    {
        let mut r = CubieRepr {
            corner_perm: [0u8; 8],
            corner_orient: [0u8; 8],
            edge_orient: [0u8; 12],
            edge_perm: [0u8; 12],
        };
        let mut i: usize = 0;
        while i < 8
            invariant
                i <= 8,
                forall|k: int| 0 <= k < i ==> r.corner_perm@[k] == array@[k],
                forall|k: int| 0 <= k < i ==> r.corner_orient@[k] == array@[k + 8],
            decreases 8 - i,
        {
            r.corner_perm[i] = array[i];
            r.corner_orient[i] = array[i + 8];
            i += 1;
        }
        let mut i: usize = 0;
        while i < 12
            invariant
                i <= 12,
                forall|k: int| 0 <= k < 8 ==> r.corner_perm@[k] == array@[k],
                forall|k: int| 0 <= k < 8 ==> r.corner_orient@[k] == array@[k + 8],
                forall|k: int| 0 <= k < i ==> r.edge_orient@[k] == array@[k + 16],
                forall|k: int| 0 <= k < i ==> r.edge_perm@[k] == array@[k + 28],
            decreases 12 - i,
        {
            r.edge_orient[i] = array[i + 16];
            r.edge_perm[i] = array[i + 28];
            i += 1;
        }
        proof {
            assert forall|k: int| 0 <= k < 40 implies r.bytes()[k] == array@[k] by {
                if k < 8 {
                } else if k < 16 {
                    assert(r.corner_orient@[k - 8] == array@[(k - 8) + 8]);
                } else if k < 28 {
                    assert(r.edge_orient@[k - 16] == array@[(k - 16) + 16]);
                } else {
                    assert(r.edge_perm@[k - 28] == array@[(k - 28) + 28]);
                }
            }
            assert(r.bytes() =~= array@);
        }
        r
    }

    /// Each corner and each edge occurs exactly once (twists and flips are not looked at).
    pub fn is_valid(&self) -> (r: bool)
        ensures
            r == (is_permutation(self.corner_perm@) && is_permutation(self.edge_perm@)),
    {
        Permutation::<8>::try_const_from_array(self.corner_perm).is_ok()
            && Permutation::<12>::try_const_from_array(self.edge_perm).is_ok()
    }
}

impl Default for CubieRepr {
    /// The solved cube.
    fn default() -> (r: Self)
        ensures
            forall|i: int| 0 <= i < 8 ==> r.corner_perm@[i] == i && r.corner_orient@[i] == 0,
            forall|i: int| 0 <= i < 12 ==> r.edge_perm@[i] == i && r.edge_orient@[i] == 0,
    {
        Self::new()
    }
}

} // verus!
