use vstd::prelude::*;
use vstd::arithmetic::power::pow;
use crate::cubie_repr::e_marks;
use crate::moves::{phase_2_as_move, Move, Phase2Move};
use crate::permutation_math::permutation::{compose, is_permutation, Permutation};
use crate::repr_cubie::{
    lemma_moves_wf, move_state, state_then, state_wf, CubeState, ReprCube, SOLVED_CORNER_PERM,
    SOLVED_EDGE_PERM,
};
use crate::digits::{
    digits_below, lemma_lsd_bound, lemma_lsd_nonneg, lemma_lsd_step, lemma_pow_positive, lemma_pow_values,
    lsd_value,
};
use crate::permutation_coord::{edge_grouping, permutation_coord_4, permutation_coord_8};
use crate::permutation_math::grouping::combo_rank;
use crate::permutation_math::lehmer_rank::lehmer_rank;

verus! {

/// A cube as the pieces in each slot and their twists and flips.
pub struct CubieRepr {
    corner_perm: [u8; 8],
    corner_orient: [u8; 8],
    edge_perm: [u8; 12],
    edge_orient: [u8; 12],
}

/// 2187 values (11.09 bits).
#[derive(Clone, Copy, PartialEq, Eq, Debug)]
pub struct CornerOrientCoord(pub u16);

/// 2048 values (11 bits).
#[derive(Clone, Copy, PartialEq, Eq, Debug)]
pub struct EdgeOrientCoord(pub u16);

/// 40320 values (15.29 bits).
#[derive(Clone, Copy, PartialEq, Eq, Debug)]
pub struct CornerPermutationCoord(pub u16);

/// 495 values (8.9 bits).
#[derive(Clone, Copy, PartialEq, Eq, Debug)]
pub struct EdgeGroupingCoord(pub u16);

/// 40320 values (15.29 bits).
#[derive(Clone, Copy, PartialEq, Eq, Debug)]
pub struct UDEdgePermutationCoord(pub u16);

/// 24 values (4.58 bits).
#[derive(Clone, Copy, PartialEq, Eq, Debug)]
pub struct EEdgePermutationCoord(pub u8);

impl CubieRepr {
    pub closed spec fn corners(self) -> Seq<u8> {
        self.corner_perm@
    }

    pub closed spec fn twists(self) -> Seq<u8> {
        self.corner_orient@
    }

    pub closed spec fn edges(self) -> Seq<u8> {
        self.edge_perm@
    }

    pub closed spec fn flips(self) -> Seq<u8> {
        self.edge_orient@
    }

    /// Every twist is below 3 and every flip below 2.
    #[verifier::type_invariant]
    closed spec fn orientations_in_range(self) -> bool {
        &&& forall|i: int| 0 <= i < 8 ==> #[trigger] self.corner_orient@[i] < 3
        &&& forall|i: int| 0 <= i < 12 ==> #[trigger] self.edge_orient@[i] < 2
    }
}

impl Default for CubieRepr {
    /// The solved cube.
    fn default() -> (r: Self)
        ensures
            forall|i: int| 0 <= i < 8 ==> r.corners()[i] == i && r.twists()[i] == 0,
            forall|i: int| 0 <= i < 12 ==> r.edges()[i] == i && r.flips()[i] == 0,
            r.corners().len() == 8,
            r.edges().len() == 12,
    {
        CubieRepr {
            corner_perm: [0, 1, 2, 3, 4, 5, 6, 7],
            corner_orient: [0; 8],
            edge_perm: [0, 1, 2, 3, 4, 5, 6, 7, 8, 9, 10, 11],
            edge_orient: [0; 12],
        }
    }
}

impl CubieRepr {
    /// Phase 1: the twists of the first seven corners as a number in base 3, corner 0 the
    /// least significant digit.
    pub fn coord_corner_orient(&self) -> (r: CornerOrientCoord)
        ensures
            r.0 == lsd_value(self.twists(), 3, 7),
            r.0 < 2187,
    {
        proof {
            use_type_invariant(self);
            lemma_lsd_bound(self.corner_orient@, 3, 7);
            lemma_pow_values();
        }
        let mut sum: u16 = 0;
        let mut i: usize = 7;
        proof {
            reveal(pow);
        }
        while i > 0
            invariant
                i <= 7,
                sum * pow(3, i as nat) + lsd_value(self.corner_orient@, 3, i as int) == lsd_value(
                    self.corner_orient@,
                    3,
                    7,
                ),
                lsd_value(self.corner_orient@, 3, 7) <= u16::MAX,
            decreases i,
        {
            proof {
                lemma_lsd_step(self.corner_orient@, 3, i as int, sum as int);
                lemma_lsd_nonneg(self.corner_orient@, 3, i - 1);
                lemma_pow_positive(3, (i - 1) as nat);
                let p = pow(3, (i - 1) as nat);
                let t = sum * 3 + self.corner_orient@[i - 1];
                assert(t <= t * p) by (nonlinear_arith)
                    requires
                        t >= 0,
                        p >= 1,
                ;
            }
            i -= 1;
            sum *= 3;
            sum += self.corner_orient[i] as u16;
        }
        proof {
            reveal(pow);
        }
        CornerOrientCoord(sum)
    }

    /// Phase 1: the flips of the first eleven edges as a number in base 2, edge 0 the least
    /// significant bit.
    pub fn coord_edge_orient(&self) -> (r: EdgeOrientCoord)
        ensures
            r.0 == lsd_value(self.flips(), 2, 11),
            r.0 < 2048,
    {
        proof {
            use_type_invariant(self);
            lemma_lsd_bound(self.edge_orient@, 2, 11);
            lemma_pow_values();
        }
        let mut sum: u16 = 0;
        let mut i: usize = 11;
        proof {
            reveal(pow);
        }
        while i > 0
            invariant
                i <= 11,
                sum * pow(2, i as nat) + lsd_value(self.edge_orient@, 2, i as int) == lsd_value(
                    self.edge_orient@,
                    2,
                    11,
                ),
                lsd_value(self.edge_orient@, 2, 11) <= u16::MAX,
            decreases i,
        {
            proof {
                lemma_lsd_step(self.edge_orient@, 2, i as int, sum as int);
                lemma_lsd_nonneg(self.edge_orient@, 2, i - 1);
                lemma_pow_positive(2, (i - 1) as nat);
                let p = pow(2, (i - 1) as nat);
                let t = sum * 2 + self.edge_orient@[i - 1];
                assert(t <= t * p) by (nonlinear_arith)
                    requires
                        t >= 0,
                        p >= 1,
                ;
                let x = sum;
                assert(x <= 32767 ==> x << 1u16 == x * 2) by (bit_vector);
            }
            i -= 1;
            sum <<= 1;
            sum += self.edge_orient[i] as u16;
        }
        proof {
            reveal(pow);
        }
        EdgeOrientCoord(sum)
    }

    /// Phase 1: the rank of the set of slots holding E-slice edges, each U/D edge in slot
    /// `n` contributing `C(n, k)` while `k + 1` E-slice edges remain below it.
    pub fn coord_edge_grouping(&self) -> (r: EdgeGroupingCoord)
        ensures
            r.0 == combo_rank(e_marks(self.edges()), 12, 3),
    {
        let mut items = [false; 12];
        let mut i: usize = 0;
        while i < 12
            invariant
                i <= 12,
                forall|k: int| 0 <= k < i ==> items@[k] == (self.edge_perm@[k] >= 8),
            decreases 12 - i,
        {
            items[i] = self.edge_perm[i] >= 8;
            i += 1;
        }
        assert(items@ =~= e_marks(self.edge_perm@));
        EdgeGroupingCoord(edge_grouping(&items))
    }

    /// Phase 2: the Lehmer rank of the corner permutation.
    pub fn coord_corner_perm(&self) -> (r: CornerPermutationCoord)
        ensures
            r.0 == lehmer_rank(self.corners(), 8),
    {
        CornerPermutationCoord(permutation_coord_8(&self.corner_perm))
    }

    /// Phase 2: the Lehmer rank of the first eight edge slots.
    pub fn coord_ud_edge_perm(&self) -> (r: UDEdgePermutationCoord)
        ensures
            r.0 == lehmer_rank(self.edges().take(8), 8),
    {
        let e = self.edge_perm;
        let first8 = [e[0], e[1], e[2], e[3], e[4], e[5], e[6], e[7]];
        assert(first8@ =~= self.edge_perm@.take(8));
        UDEdgePermutationCoord(permutation_coord_8(&first8))
    }

    /// Phase 2: the Lehmer rank of the last four edge slots.
    pub fn coord_e_edge_perm(&self) -> (r: EEdgePermutationCoord)
        ensures
            r.0 == lehmer_rank(self.edges().subrange(8, 12), 4),
    {
        let e = self.edge_perm;
        let last4 = [e[8], e[9], e[10], e[11]];
        assert(last4@ =~= self.edge_perm@.subrange(8, 12));
        EEdgePermutationCoord(permutation_coord_4(&last4))
    }
}

/// The face turns that twist corners.
pub open spec fn twists_corners(m: Move) -> bool {
    m is F1 || m is F3 || m is B1 || m is B3 || m is R1 || m is R3 || m is L1 || m is L3
}

/// The face turns that flip edges.
pub open spec fn flips_edges(m: Move) -> bool {
    m is F1 || m is F3 || m is B1 || m is B3
}

/// The corner twists after turn `m`: each slot takes the twist of the slot it draws from,
/// plus the turn's twist (added in a byte) modulo 3 when the turn twists corners.
pub open spec fn twists_after(old: Seq<u8>, m: Move) -> Seq<u8> {
    Seq::new(
        8,
        |i: int|
            if twists_corners(m) {
                (((old[move_state(m).corner_perm[i] as int] + move_state(m).corner_orient[i]) % 256) % 3) as u8
            } else {
                old[move_state(m).corner_perm[i] as int]
            },
    )
}

/// The edge flips after turn `m`, in the same way modulo 2.
pub open spec fn flips_after(old: Seq<u8>, m: Move) -> Seq<u8> {
    Seq::new(
        12,
        |i: int|
            if flips_edges(m) {
                (((old[move_state(m).edge_perm[i] as int] + move_state(m).edge_orient[i]) % 256) % 2) as u8
            } else {
                old[move_state(m).edge_perm[i] as int]
            },
    )
}

impl CubieRepr {
    /// The pieces and their twists and flips as a cube state.
    pub closed spec fn state(self) -> CubeState {
        CubeState {
            corner_perm: self.corner_perm@,
            edge_perm: self.edge_perm@,
            corner_orient: self.corner_orient@,
            edge_orient: self.edge_orient@,
        }
    }

    /// Apply a face turn: each slot takes the piece of the slot that the turn moves into it,
    /// with the turn's twist or flip added.
    pub fn phase_1_move(&mut self, m: Move)
        ensures
            final(self).corners() == compose(old(self).corners(), move_state(m).corner_perm),
            final(self).edges() == compose(old(self).edges(), move_state(m).edge_perm),
            final(self).twists() == twists_after(old(self).twists(), m),
            final(self).flips() == flips_after(old(self).flips(), m),
            state_wf(old(self).state()) ==> final(self).state() == state_then(old(self).state(), move_state(m)),
    {
        let mv = ReprCube::from_move(m);
        let twist = matches!(m, Move::F1 | Move::F3 | Move::B1 | Move::B3 | Move::R1 | Move::R3 | Move::L1 | Move::L3);
        let flip = matches!(m, Move::F1 | Move::F3 | Move::B1 | Move::B3);
        proof {
            lemma_moves_wf(m);
            use_type_invariant(&*self);
        }
        let old_corner_perm = self.corner_perm;
        let old_corner_orient = self.corner_orient;
        let old_edge_perm = self.edge_perm;
        let old_edge_orient = self.edge_orient;
        let mut i: usize = 0;
        while i < 8
            invariant
                i <= 8,
                mv@ == move_state(m),
                state_wf(move_state(m)),
                twist == twists_corners(m),
                forall|k: int| 0 <= k < i ==> self.corner_perm@[k] == compose(old_corner_perm@, move_state(m).corner_perm)[k],
                forall|k: int| 0 <= k < i ==> self.corner_orient@[k] == twists_after(old_corner_orient@, m)[k],
                self.edge_perm == old_edge_perm,
                self.edge_orient == old_edge_orient,
                forall|k: int| 0 <= k < 8 ==> #[trigger] old_corner_orient@[k] < 3,
                forall|k: int| 0 <= k < 8 ==> #[trigger] self.corner_orient@[k] < 3,
                forall|k: int| 0 <= k < 12 ==> #[trigger] self.edge_orient@[k] < 2,
            decreases 8 - i,
        {
            let src = mv.corner_perm.0[i] as usize;
            self.corner_perm[i] = old_corner_perm[src];
            self.corner_orient[i] = if twist {
                old_corner_orient[src].wrapping_add(mv.corner_orient.0[i]) % 3
            } else {
                old_corner_orient[src]
            };
            i += 1;
        }
        let mut i: usize = 0;
        while i < 12
            invariant
                i <= 12,
                mv@ == move_state(m),
                state_wf(move_state(m)),
                flip == flips_edges(m),
                forall|k: int| 0 <= k < 8 ==> self.corner_perm@[k] == compose(old_corner_perm@, move_state(m).corner_perm)[k],
                forall|k: int| 0 <= k < 8 ==> self.corner_orient@[k] == twists_after(old_corner_orient@, m)[k],
                forall|k: int| 0 <= k < i ==> self.edge_perm@[k] == compose(old_edge_perm@, move_state(m).edge_perm)[k],
                forall|k: int| 0 <= k < i ==> self.edge_orient@[k] == flips_after(old_edge_orient@, m)[k],
                forall|k: int| 0 <= k < 12 ==> #[trigger] old_edge_orient@[k] < 2,
                forall|k: int| 0 <= k < 8 ==> #[trigger] self.corner_orient@[k] < 3,
                forall|k: int| 0 <= k < 12 ==> #[trigger] self.edge_orient@[k] < 2,
            decreases 12 - i,
        {
            let src = mv.edge_perm.0[i] as usize;
            self.edge_perm[i] = old_edge_perm[src];
            self.edge_orient[i] = if flip {
                old_edge_orient[src].wrapping_add(mv.edge_orient.0[i]) % 2
            } else {
                old_edge_orient[src]
            };
            i += 1;
        }
        proof {
            assert(self.corner_perm@ =~= compose(old_corner_perm@, move_state(m).corner_perm));
            assert(self.edge_perm@ =~= compose(old_edge_perm@, move_state(m).edge_perm));
            assert(self.corner_orient@ =~= twists_after(old_corner_orient@, m));
            assert(self.edge_orient@ =~= flips_after(old_edge_orient@, m));
            let o = CubeState {
                corner_perm: old_corner_perm@,
                edge_perm: old_edge_perm@,
                corner_orient: old_corner_orient@,
                edge_orient: old_edge_orient@,
            };
            if state_wf(o) {
                lemma_move_in_range(o, m);
            }
        }
    }

    /// Apply a phase 2 move.
    pub fn phase_2_move(&mut self, m: Phase2Move)
        ensures
            final(self).corners() == compose(old(self).corners(), move_state(phase_2_as_move(m)).corner_perm),
            final(self).edges() == compose(old(self).edges(), move_state(phase_2_as_move(m)).edge_perm),
            final(self).twists() == twists_after(old(self).twists(), phase_2_as_move(m)),
            final(self).flips() == flips_after(old(self).flips(), phase_2_as_move(m)),
            state_wf(old(self).state()) ==> final(self).state() == state_then(old(self).state(), move_state(phase_2_as_move(m))),
    {
        self.phase_1_move(Move::from_phase_2(m))
    }

    /// Both permutations list each of their pieces once.
    pub fn is_valid(&self) -> (r: bool)
        ensures
            r == (is_permutation(self.corners()) && is_permutation(self.edges())),
    {
        Permutation::<8>::try_const_from_array(self.corner_perm).is_ok()
            && Permutation::<12>::try_const_from_array(self.edge_perm).is_ok()
    }

    /// Every piece is in its own slot (twists and flips are not looked at).
    pub fn is_solved(&self) -> (r: bool)
        ensures
            r == (self.corners() == SOLVED_CORNER_PERM@ && self.edges() == SOLVED_EDGE_PERM@),
    {
        let mut same = true;
        let mut i: usize = 0;
        while i < 8
            invariant
                i <= 8,
                same == (forall|k: int| 0 <= k < i ==> self.corner_perm@[k] == SOLVED_CORNER_PERM@[k]),
            decreases 8 - i,
        {
            if self.corner_perm[i] != SOLVED_CORNER_PERM[i] {
                same = false;
            }
            i += 1;
        }
        let mut edges_same = true;
        let mut i: usize = 0;
        while i < 12
            invariant
                i <= 12,
                same == (forall|k: int| 0 <= k < 8 ==> self.corner_perm@[k] == SOLVED_CORNER_PERM@[k]),
                edges_same == (forall|k: int| 0 <= k < i ==> self.edge_perm@[k] == SOLVED_EDGE_PERM@[k]),
            decreases 12 - i,
        {
            if self.edge_perm[i] != SOLVED_EDGE_PERM[i] {
                edges_same = false;
            }
            i += 1;
        }
        proof {
            if same {
                assert(self.corner_perm@ =~= SOLVED_CORNER_PERM@);
            }
            if edges_same {
                assert(self.edge_perm@ =~= SOLVED_EDGE_PERM@);
            }
        }
        same && edges_same
    }
}

/// For pieces with twists and flips in range, the byte additions do not wrap and the moves
/// without twist or flip add zero, so the turn is composition with the turn's cube.
proof fn lemma_move_in_range(o: CubeState, m: Move)
    requires
        state_wf(o),
    ensures
        (CubeState {
            corner_perm: compose(o.corner_perm, move_state(m).corner_perm),
            edge_perm: compose(o.edge_perm, move_state(m).edge_perm),
            corner_orient: twists_after(o.corner_orient, m),
            edge_orient: flips_after(o.edge_orient, m),
        }) == state_then(o, move_state(m)),
{
    lemma_moves_wf(m);
    let mc = move_state(m);
    let r = state_then(o, mc);
    assert forall|i: int| 0 <= i < 8 implies twists_after(o.corner_orient, m)[i] == r.corner_orient[i] by {
        let j = mc.corner_perm[i] as int;
        assert(0 <= j < 8);
        assert((o.corner_orient[j] as int) < 3);
        if !twists_corners(m) {
            assert(mc.corner_orient[i] == 0);
        }
    }
    assert forall|i: int| 0 <= i < 12 implies flips_after(o.edge_orient, m)[i] == r.edge_orient[i] by {
        let j = mc.edge_perm[i] as int;
        assert(0 <= j < 12);
        assert((o.edge_orient[j] as int) < 2);
        if !flips_edges(m) {
            assert(mc.edge_orient[i] == 0);
        }
    }
    assert(twists_after(o.corner_orient, m) =~= r.corner_orient);
    assert(flips_after(o.edge_orient, m) =~= r.edge_orient);
}

} // verus!
