use vstd::prelude::*;
use crate::permutation_math::grouping::{
    count_true, lemma_representative_valid, representative, EdgeCombination,
};
use crate::permutation_math::permutation::{
    compose, count_greater, inverse_seq, is_permutation, law_compose_associative,
    law_compose_identity, law_inverse_undoes, lemma_compose_permutation, lemma_inverse_seq,
    lemma_permutation_count_greater, lemma_permutation_onto, Permutation,
};
use super::e_edge_perm::EEdgePerm;
use super::edge_group::EdgeGroup;
use super::ud_edge_perm::UDEdgePerm;

verus! {

/// Which slots hold an E-slice edge (an edge numbered 8 or above).
pub open spec fn grouping_of(s: Seq<u8>) -> Seq<bool> {
    Seq::new(12, |i: int| s[i] > 7)
}

/// The edge arrangement with `ud` in the first eight slots and `e`, shifted to `8..12`, in
/// the last four.
pub open spec fn join_raw(ud: Seq<u8>, e: Seq<u8>) -> Seq<u8> {
    Seq::new(
        12,
        |i: int|
            if i < 8 {
                ud[i]
            } else {
                (e[i - 8] + 8) as u8
            },
    )
}

proof fn lemma_count_true_grouping(s: Seq<u8>, n: int)
    requires
        0 <= n <= 12,
        s.len() == 12,
    ensures
        count_true(grouping_of(s).take(n)) == count_greater(s.take(n), 7),
    decreases n,
{
    if n > 0 {
        lemma_count_true_grouping(s, n - 1);
        assert(grouping_of(s).take(n).drop_last() =~= grouping_of(s).take(n - 1));
        assert(s.take(n).drop_last() =~= s.take(n - 1));
    }
}

/// The grouping of a permutation of twelve edges selects four slots.
proof fn lemma_grouping_valid(s: Seq<u8>)
    requires
        s.len() == 12,
        is_permutation(s),
    ensures
        count_true(grouping_of(s)) == 4,
{
    lemma_count_true_grouping(s, 12);
    assert(grouping_of(s).take(12) =~= grouping_of(s));
    assert(s.take(12) =~= s);
    lemma_permutation_count_greater(s, 7);
}

/// The slot representation for edge permutation.
/// While `Permutation<N>` represents an element of the permutation group, this represents
/// a permutation when specifically applied to the cube's edges.
#[derive(Clone, Copy, PartialEq, Eq, Hash, Debug)]
pub struct EdgePerm(pub Permutation<12>);

impl EdgePerm {
    pub fn solved() -> (r: Self)
        ensures
            r.0.valid(),
            forall|i: int| 0 <= i < 12 ==> r.0.0@[i] == i,
    {
        Self(Permutation::identity())
    }

    /// Split into the grouping of the E-slice edges and the arrangements of the U/D edges and
    /// of the E-slice edges relative to the grouping's representative permutation.
    pub fn split(self) -> (r: (EdgeGroup, UDEdgePerm, EEdgePerm))
        requires
            self.0.valid(),
        ensures
            r.0.0.0@ == grouping_of(self.0.0@),
            r.0.0.valid(),
            r.1.0.valid(),
            r.2.0.valid(),
            compose(join_raw(r.1.0.0@, r.2.0.0@), representative(r.0.0.0@)) == self.0.0@,
    {
        let g = self.get_grouping();
        let rep = g.0.into_representative_even_perm();
        let rep_inv = rep.invert();
        let divided = Permutation::then_apply(self.0, rep_inv).0;
        let ghost s = self.0.0@;
        let ghost rr = rep.0@;
        let ghost q = rep_inv.0@;
        proof {
            lemma_inverse_seq(rr);
            assert forall|i: int| 0 <= i < 12 implies (divided@[i] >= 8) == (i >= 8) by {
                let p = q[i] as int;
                assert(rr[p] == i);
                assert((rr[p] >= 8) == g.0.0@[p]);
            }
        }
        let mut ud = [0u8; 8];
        let mut e = [0u8; 4];
        let mut i: usize = 0;
        while i < 8
            invariant
                i <= 8,
                forall|k: int| 0 <= k < i ==> ud@[k] == divided@[k],
            decreases 8 - i,
        {
            ud[i] = divided[i];
            i += 1;
        }
        while i < 12
            invariant
                8 <= i <= 12,
                forall|k: int| 0 <= k < 12 ==> (divided@[k] >= 8) == (k >= 8),
                forall|k: int| 8 <= k < i ==> e@[k - 8] == divided@[k] - 8,
            decreases 12 - i,
        {
            e[i - 8] = divided[i] - 8;
            i += 1;
        }
        proof {
            assert(is_permutation(divided@));
            assert forall|a: int, b: int| 0 <= a < 8 && 0 <= b < 8 && a != b implies #[trigger] ud@[a] != #[trigger] ud@[b] by {
                assert(divided@[a] != divided@[b]);
            }
            assert forall|a: int| 0 <= a < 8 implies (#[trigger] ud@[a] as int) < 8 by {
                assert(divided@[a] < 8);
            }
            assert forall|a: int, b: int| 0 <= a < 4 && 0 <= b < 4 && a != b implies #[trigger] e@[a] != #[trigger] e@[b] by {
                assert(divided@[a + 8] != divided@[b + 8]);
            }
            assert forall|a: int| 0 <= a < 4 implies (#[trigger] e@[a] as int) < 4 by {
                assert((divided@[a + 8] as int) < 12);
            }
            assert(join_raw(ud@, e@) =~= divided@);
            law_compose_associative(s, q, rr);
            law_inverse_undoes(rr);
            law_compose_identity(s);
        }
        (g, UDEdgePerm(Permutation(ud)), EEdgePerm(Permutation(e)))
    }

    /// The edge permutation that arranges the U/D edges by `ud` and the E-slice edges by `e`
    /// within the slots that `group` selects.
    pub fn join(group: EdgeGroup, ud: UDEdgePerm, e: EEdgePerm) -> (r: Self)
        requires
            group.0.valid(),
            ud.0.valid(),
            e.0.valid(),
        ensures
            r.0.0@ == compose(join_raw(ud.0.0@, e.0.0@), representative(group.0.0@)),
            r.0.valid(),
    {
        let mut perm = [0u8; 12];
        let mut i: usize = 0;
        while i < 8
            invariant
                i <= 8,
                forall|k: int| 0 <= k < i ==> perm@[k] == ud.0.0@[k],
            decreases 8 - i,
        {
            perm[i] = ud.0.0[i];
            i += 1;
        }
        while i < 12
            invariant
                8 <= i <= 12,
                e.0.valid(),
                forall|k: int| 0 <= k < 8 ==> perm@[k] == ud.0.0@[k],
                forall|k: int| 8 <= k < i ==> perm@[k] == e.0.0@[k - 8] + 8,
            decreases 12 - i,
        {
            perm[i] = e.0.0[i - 8] + 8;
            i += 1;
        }
        proof {
            assert(perm@ =~= join_raw(ud.0.0@, e.0.0@));
            assert forall|a: int, b: int| 0 <= a < 12 && 0 <= b < 12 && a != b implies #[trigger] perm@[a] != #[trigger] perm@[b] by {
                if a >= 8 && b >= 8 {
                    assert(e.0.0@[a - 8] != e.0.0@[b - 8]);
                } else if a < 8 && b < 8 {
                    assert(ud.0.0@[a] != ud.0.0@[b]);
                }
            }
            lemma_representative_valid(group.0.0@);
        }
        Self(Permutation::then_apply(Permutation(perm), group.0.into_representative_even_perm()))
    }

    /// Which slots hold an E-slice edge.
    pub fn get_grouping(self) -> (r: EdgeGroup)
        ensures
            r.0.0@ == grouping_of(self.0.0@),
            self.0.valid() ==> r.0.valid(),
    {
        let mut g = [false; 12];
        let mut i: usize = 0;
        while i < 12
            invariant
                i <= 12,
                forall|k: int| 0 <= k < i ==> g@[k] == (self.0.0@[k] > 7),
            decreases 12 - i,
        {
            let val = self.0.0[i];
            g[i] = val > 7;
            i += 1;
        }
        assert(g@ =~= grouping_of(self.0.0@));
        proof {
            if self.0.valid() {
                lemma_grouping_valid(self.0.0@);
            }
        }
        EdgeGroup(EdgeCombination(g))
    }

    pub fn then_apply(self, other: Self) -> (r: Self)
        requires
            self.0.valid(),
            other.0.valid(),
        ensures
            r.0.0@ == compose(self.0.0@, other.0.0@),
            r.0.valid(),
    {
        Self(Permutation::then_apply(self.0, other.0))
    }

    pub fn inverse(self) -> (r: Self)
        requires
            self.0.valid(),
        ensures
            r.0.0@ == inverse_seq(self.0.0@),
            r.0.valid(),
    {
        Self(self.0.invert())
    }

    /// `self` and `other` agree on every slot after the first.
    pub fn const_eq(self, other: Self) -> (r: bool)
        ensures
            r <==> forall|i: int| 1 <= i < 12 ==> self.0.0@[i] == other.0.0@[i],
            self.0.valid() && other.0.valid() ==> (r <==> self == other),
    {
        self.0.const_eq(other.0)
    }
}

/// The parts of a join are read back by a split: joining two sets of valid parts gives the
/// same edge permutation only when the groupings, the U/D arrangements and the E-slice
/// arrangements are the same, and the grouping of a join is its grouping part.
pub proof fn law_join_parts_unique(
    g: Seq<bool>,
    ud: Seq<u8>,
    e: Seq<u8>,
    g2: Seq<bool>,
    ud2: Seq<u8>,
    e2: Seq<u8>,
)
    requires
        g.len() == 12,
        count_true(g) == 4,
        ud.len() == 8,
        is_permutation(ud),
        e.len() == 4,
        is_permutation(e),
        g2.len() == 12,
        count_true(g2) == 4,
        ud2.len() == 8,
        is_permutation(ud2),
        e2.len() == 4,
        is_permutation(e2),
        compose(join_raw(ud, e), representative(g)) == compose(join_raw(ud2, e2), representative(g2)),
    ensures
        grouping_of(compose(join_raw(ud, e), representative(g))) == g,
        g == g2,
        ud == ud2,
        e == e2,
{
    lemma_representative_valid(g);
    lemma_representative_valid(g2);
    let p = compose(join_raw(ud, e), representative(g));
    assert forall|i: int| 0 <= i < 12 implies (#[trigger] grouping_of(p)[i]) == g[i] && grouping_of(p)[i] == g2[i] by {
        let v = representative(g)[i] as int;
        let v2 = representative(g2)[i] as int;
        assert(0 <= v < 12 && 0 <= v2 < 12);
    }
    assert(grouping_of(p) =~= g);
    assert(g =~= g2);
    let r = representative(g);
    assert forall|v: int| 0 <= v < 12 implies join_raw(ud, e)[v] == join_raw(ud2, e2)[v] by {
        lemma_permutation_onto(r, v);
        let i = choose|i: int| 0 <= i < 12 && r[i] as int == v;
        assert(p[i] == join_raw(ud, e)[v]);
    }
    assert forall|k: int| 0 <= k < 8 implies ud[k] == ud2[k] by {
        assert(join_raw(ud, e)[k] == ud[k]);
    }
    assert forall|k: int| 0 <= k < 4 implies e[k] == e2[k] by {
        assert(join_raw(ud, e)[k + 8] == e[k] + 8);
        assert(join_raw(ud2, e2)[k + 8] == e2[k] + 8);
    }
    assert(ud =~= ud2);
    assert(e =~= e2);
}

} // verus!
