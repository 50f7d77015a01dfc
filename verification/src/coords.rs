use vstd::prelude::*;
use vstd::arithmetic::power::pow;
use crate::cube_ops::coords::{CornerOrientRawCoord, EdgeOrientRawCoord};
use crate::cube_ops::partial_reprs::corner_orient::CornerOrient;
use crate::cube_ops::partial_reprs::edge_orient::EdgeOrient;
use crate::digits::{digit_sum, digits_below, horner, lemma_horner_bound, lemma_pow_values};
use crate::permutation_coord::{
    edge_grouping, edge_grouping_inverse, permutation_coord_4, permutation_coord_4_inverse,
    permutation_coord_8, permutation_coord_8_inverse,
};
use crate::permutation_math::grouping::{
    combo_greedy, combo_rank, count_true, lemma_representative_valid, representative,
    EdgeCombination,
};
use crate::permutation_math::lehmer_rank::{
    factorial, lehmer_rank, lemma_rank_same_order, lemma_sorted_inversions_zero,
    lemma_sorted_rank_zero, sorted_prefix,
};
use crate::permutation_math::permutation::{
    compose, identity_seq, is_odd_seq, is_permutation, law_compose_identity,
    lemma_compose_permutation,
    Permutation,
};
use crate::repr_cubie::{
    composable, lemma_then_wf, solved_state, state_then, state_valid, state_wf, CubeState,
    ReprCube,
    SOLVED_CORNER_ORIENT, SOLVED_CORNER_PERM, SOLVED_EDGE_ORIENT, SOLVED_EDGE_PERM,
};

verus! {

/// Which of the twelve edge slots hold an E-slice edge (an edge numbered 8 or more).
pub open spec fn e_slots(edge_perm: Seq<u8>) -> Seq<bool> {
    Seq::new(12, |i: int| edge_perm[i] > 7)
}

// Phase 1 raw coordinates
/// 2187 values (11.09 bits).
#[derive(Debug, PartialEq, Eq, Copy, Clone, Hash, Default)]
pub struct CornerOrientCoord(u16);

/// 2048 values (11 bits).
#[derive(Debug, PartialEq, Eq, Copy, Clone, Hash, Default)]
pub struct EdgeOrientCoord(u16);

/// 495 values (8.9 bits), also referred to as the "Phase 1 UDSlice Coordinate".
#[derive(Debug, PartialEq, Eq, Copy, Clone, Hash, Default)]
pub struct EdgeGroupCoord(u16);

// Phase 2 raw coordinates
/// 40320 values (15.29 bits).
#[derive(Debug, PartialEq, Eq, Copy, Clone, Hash, Default)]
pub struct CornerPermCoord(u16);

/// 40320 values (15.29 bits), also referred to as the "Phase 2 Edge Permutation Coordinate".
#[derive(Debug, PartialEq, Eq, Copy, Clone, Hash, Default)]
pub struct UDEdgePermCoord(u16);

/// 24 values (4.58 bits), also referred to as the "Phase 2 UDSlice Coordinate".
#[derive(Debug, PartialEq, Eq, Copy, Clone, Hash, Default)]
pub struct EEdgePermCoord(u8);

// Sym coordinates
/// 64430 values (15.97 bits).
#[derive(Debug, PartialEq, Eq, Copy, Clone, Hash, Default)]
pub struct Phase1EdgeSymCoord(u16);

/// 2768 values (11.43 bits).
#[derive(Debug, PartialEq, Eq, Copy, Clone, Hash, Default)]
pub struct Phase2CornerSymCoord(u16);

impl View for CornerOrientCoord {
    type V = u16;

    closed spec fn view(&self) -> u16 {
        self.0
    }
}

impl View for EdgeOrientCoord {
    type V = u16;

    closed spec fn view(&self) -> u16 {
        self.0
    }
}

impl View for EdgeGroupCoord {
    type V = u16;

    closed spec fn view(&self) -> u16 {
        self.0
    }
}

impl View for CornerPermCoord {
    type V = u16;

    closed spec fn view(&self) -> u16 {
        self.0
    }
}

impl View for UDEdgePermCoord {
    type V = u16;

    closed spec fn view(&self) -> u16 {
        self.0
    }
}

impl View for EEdgePermCoord {
    type V = u8;

    closed spec fn view(&self) -> u8 {
        self.0
    }
}

impl View for Phase1EdgeSymCoord {
    type V = u16;

    closed spec fn view(&self) -> u16 {
        self.0
    }
}

impl View for Phase2CornerSymCoord {
    type V = u16;

    closed spec fn view(&self) -> u16 {
        self.0
    }
}

impl CornerOrientCoord {
    /// The coordinate's value.
    pub fn inner(self) -> (r: u16)
        ensures
            r == self@,
    {
        self.0
    }
}

impl From<u16> for CornerOrientCoord {
    fn from(value: u16) -> (r: Self)
        ensures
            r@ == value,
    {
        Self(value)
    }
}

impl vstd::std_specs::convert::FromSpecImpl<u16> for CornerOrientCoord {
    open spec fn obeys_from_spec() -> bool {
        true
    }

    closed spec fn from_spec(v: u16) -> Self {
        CornerOrientCoord(v)
    }
}

impl From<CornerOrientCoord> for u16 {
    fn from(value: CornerOrientCoord) -> (r: Self) {
        value.0
    }
}

impl vstd::std_specs::convert::FromSpecImpl<CornerOrientCoord> for u16 {
    open spec fn obeys_from_spec() -> bool {
        true
    }

    open spec fn from_spec(v: CornerOrientCoord) -> Self {
        v@
    }
}

impl EdgeOrientCoord {
    /// The coordinate's value.
    pub fn inner(self) -> (r: u16)
        ensures
            r == self@,
    {
        self.0
    }
}

impl From<u16> for EdgeOrientCoord {
    fn from(value: u16) -> (r: Self)
        ensures
            r@ == value,
    {
        Self(value)
    }
}

impl vstd::std_specs::convert::FromSpecImpl<u16> for EdgeOrientCoord {
    open spec fn obeys_from_spec() -> bool {
        true
    }

    closed spec fn from_spec(v: u16) -> Self {
        EdgeOrientCoord(v)
    }
}

impl From<EdgeOrientCoord> for u16 {
    fn from(value: EdgeOrientCoord) -> (r: Self) {
        value.0
    }
}

impl vstd::std_specs::convert::FromSpecImpl<EdgeOrientCoord> for u16 {
    open spec fn obeys_from_spec() -> bool {
        true
    }

    open spec fn from_spec(v: EdgeOrientCoord) -> Self {
        v@
    }
}

impl EdgeGroupCoord {
    /// The coordinate's value.
    pub fn inner(self) -> (r: u16)
        ensures
            r == self@,
    {
        self.0
    }
}

impl From<u16> for EdgeGroupCoord {
    fn from(value: u16) -> (r: Self)
        ensures
            r@ == value,
    {
        Self(value)
    }
}

impl vstd::std_specs::convert::FromSpecImpl<u16> for EdgeGroupCoord {
    open spec fn obeys_from_spec() -> bool {
        true
    }

    closed spec fn from_spec(v: u16) -> Self {
        EdgeGroupCoord(v)
    }
}

impl From<EdgeGroupCoord> for u16 {
    fn from(value: EdgeGroupCoord) -> (r: Self) {
        value.0
    }
}

impl vstd::std_specs::convert::FromSpecImpl<EdgeGroupCoord> for u16 {
    open spec fn obeys_from_spec() -> bool {
        true
    }

    open spec fn from_spec(v: EdgeGroupCoord) -> Self {
        v@
    }
}

impl CornerPermCoord {
    /// The coordinate's value.
    pub fn inner(self) -> (r: u16)
        ensures
            r == self@,
    {
        self.0
    }
}

impl From<u16> for CornerPermCoord {
    fn from(value: u16) -> (r: Self)
        ensures
            r@ == value,
    {
        Self(value)
    }
}

impl vstd::std_specs::convert::FromSpecImpl<u16> for CornerPermCoord {
    open spec fn obeys_from_spec() -> bool {
        true
    }

    closed spec fn from_spec(v: u16) -> Self {
        CornerPermCoord(v)
    }
}

impl From<CornerPermCoord> for u16 {
    fn from(value: CornerPermCoord) -> (r: Self) {
        value.0
    }
}

impl vstd::std_specs::convert::FromSpecImpl<CornerPermCoord> for u16 {
    open spec fn obeys_from_spec() -> bool {
        true
    }

    open spec fn from_spec(v: CornerPermCoord) -> Self {
        v@
    }
}

impl UDEdgePermCoord {
    /// The coordinate's value.
    pub fn inner(self) -> (r: u16)
        ensures
            r == self@,
    {
        self.0
    }
}

impl From<u16> for UDEdgePermCoord {
    fn from(value: u16) -> (r: Self)
        ensures
            r@ == value,
    {
        Self(value)
    }
}

impl vstd::std_specs::convert::FromSpecImpl<u16> for UDEdgePermCoord {
    open spec fn obeys_from_spec() -> bool {
        true
    }

    closed spec fn from_spec(v: u16) -> Self {
        UDEdgePermCoord(v)
    }
}

impl From<UDEdgePermCoord> for u16 {
    fn from(value: UDEdgePermCoord) -> (r: Self) {
        value.0
    }
}

impl vstd::std_specs::convert::FromSpecImpl<UDEdgePermCoord> for u16 {
    open spec fn obeys_from_spec() -> bool {
        true
    }

    open spec fn from_spec(v: UDEdgePermCoord) -> Self {
        v@
    }
}

impl EEdgePermCoord {
    /// The coordinate's value.
    pub fn inner(self) -> (r: u8)
        ensures
            r == self@,
    {
        self.0
    }
}

impl From<u8> for EEdgePermCoord {
    fn from(value: u8) -> (r: Self)
        ensures
            r@ == value,
    {
        Self(value)
    }
}

impl vstd::std_specs::convert::FromSpecImpl<u8> for EEdgePermCoord {
    open spec fn obeys_from_spec() -> bool {
        true
    }

    closed spec fn from_spec(v: u8) -> Self {
        EEdgePermCoord(v)
    }
}

impl From<EEdgePermCoord> for u8 {
    fn from(value: EEdgePermCoord) -> (r: Self) {
        value.0
    }
}

impl vstd::std_specs::convert::FromSpecImpl<EEdgePermCoord> for u8 {
    open spec fn obeys_from_spec() -> bool {
        true
    }

    open spec fn from_spec(v: EEdgePermCoord) -> Self {
        v@
    }
}

impl Phase1EdgeSymCoord {
    /// The coordinate's value.
    pub fn inner(self) -> (r: u16)
        ensures
            r == self@,
    {
        self.0
    }
}

impl From<u16> for Phase1EdgeSymCoord {
    fn from(value: u16) -> (r: Self)
        ensures
            r@ == value,
    {
        Self(value)
    }
}

impl vstd::std_specs::convert::FromSpecImpl<u16> for Phase1EdgeSymCoord {
    open spec fn obeys_from_spec() -> bool {
        true
    }

    closed spec fn from_spec(v: u16) -> Self {
        Phase1EdgeSymCoord(v)
    }
}

impl From<Phase1EdgeSymCoord> for u16 {
    fn from(value: Phase1EdgeSymCoord) -> (r: Self) {
        value.0
    }
}

impl vstd::std_specs::convert::FromSpecImpl<Phase1EdgeSymCoord> for u16 {
    open spec fn obeys_from_spec() -> bool {
        true
    }

    open spec fn from_spec(v: Phase1EdgeSymCoord) -> Self {
        v@
    }
}

impl Phase2CornerSymCoord {
    /// The coordinate's value.
    pub fn inner(self) -> (r: u16)
        ensures
            r == self@,
    {
        self.0
    }
}

impl From<u16> for Phase2CornerSymCoord {
    fn from(value: u16) -> (r: Self)
        ensures
            r@ == value,
    {
        Self(value)
    }
}

impl vstd::std_specs::convert::FromSpecImpl<u16> for Phase2CornerSymCoord {
    open spec fn obeys_from_spec() -> bool {
        true
    }

    closed spec fn from_spec(v: u16) -> Self {
        Phase2CornerSymCoord(v)
    }
}

impl From<Phase2CornerSymCoord> for u16 {
    fn from(value: Phase2CornerSymCoord) -> (r: Self) {
        value.0
    }
}

impl vstd::std_specs::convert::FromSpecImpl<Phase2CornerSymCoord> for u16 {
    open spec fn obeys_from_spec() -> bool {
        true
    }

    open spec fn from_spec(v: Phase2CornerSymCoord) -> Self {
        v@
    }
}


impl CornerOrientCoord {
    /// The twists of the first seven corners, read as a number in base 3.
    pub fn from_cubie(cube: ReprCube) -> (r: Self)
        requires
            horner(cube@.corner_orient, 3, 7) <= u16::MAX,
        ensures
            r@ == horner(cube@.corner_orient, 3, 7),
    {
        Self(cube.corner_orient.into_coord().0)
    }

    /// The solved cube with the corner twists of this coordinate (taken modulo 2187); the
    /// last corner's twist makes the sum divisible by 3.
    pub fn into_cubie(self) -> (r: ReprCube)
        ensures
            r@ == (CubeState { corner_orient: r@.corner_orient, ..solved_state() }),
            digits_below(r@.corner_orient, 3, 8),
            horner(r@.corner_orient, 3, 7) == self@ % 2187,
            r@.corner_orient[7] == (3 - digit_sum(r@.corner_orient, 7) % 3) % 3,
            digit_sum(r@.corner_orient, 8) % 3 == 0,
    {
        proof {
            lemma_pow_values();
        }
        let mut cube = ReprCube::solved();
        cube.corner_orient = CornerOrient::from_coord(CornerOrientRawCoord(self.0));
        assert(cube@ =~= (CubeState { corner_orient: cube@.corner_orient, ..solved_state() }));
        cube
    }
}

impl EdgeOrientCoord {
    /// The flips of the first eleven edges, read as a number in base 2.
    pub fn from_cubie(cube: ReprCube) -> (r: Self)
        requires
            horner(cube@.edge_orient, 2, 11) <= u16::MAX,
        ensures
            r@ == horner(cube@.edge_orient, 2, 11),
    {
        Self(cube.edge_orient.into_coord().0)
    }

    /// The solved cube with the edge flips of this coordinate (taken modulo 2048); the last
    /// edge's flip makes the sum even.
    pub fn into_cubie(self) -> (r: ReprCube)
        ensures
            r@ == (CubeState { edge_orient: r@.edge_orient, ..solved_state() }),
            digits_below(r@.edge_orient, 2, 12),
            horner(r@.edge_orient, 2, 11) == self@ % 2048,
            r@.edge_orient[11] == (2 - digit_sum(r@.edge_orient, 11) % 2) % 2,
            digit_sum(r@.edge_orient, 12) % 2 == 0,
    {
        proof {
            lemma_pow_values();
        }
        let mut cube = ReprCube::solved();
        cube.edge_orient = EdgeOrient::from_coord(EdgeOrientRawCoord(self.0));
        assert(cube@ =~= (CubeState { edge_orient: cube@.edge_orient, ..solved_state() }));
        cube
    }
}

impl EdgeGroupCoord {
    /// The rank of the set of slots that hold E-slice edges.
    pub fn from_cubie(value: ReprCube) -> (r: Self)
        ensures
            r@ == combo_rank(e_slots(value@.edge_perm), 12, 3),
            count_true(e_slots(value@.edge_perm)) == 4 ==> r@ < 495,
    {
        let mut items = [false; 12];
        let mut i: usize = 0;
        while i < 12
            invariant
                i <= 12,
                forall|k: int| 0 <= k < i ==> items@[k] == (value.edge_perm.0@[k] > 7),
            decreases 12 - i,
        {
            items[i] = value.edge_perm.0[i] > 7;
            i += 1;
        }
        assert(items@ =~= e_slots(value@.edge_perm));
        Self(edge_grouping(&items))
    }

    /// The solved cube with the E-slice edges moved to the slots of this coordinate: the
    /// U/D edges fill the other slots in order, the E-slice edges their slots in order, with
    /// the last two exchanged when that would make the edge permutation odd.
    pub fn into_cubie(self) -> (r: ReprCube)
        requires
            self@ < 495,
        ensures
            r@ == (CubeState {
                edge_perm: representative(combo_greedy(self@ as int, 11, 3)),
                ..solved_state()
            }),
            is_permutation(r@.edge_perm),
            !is_odd_seq(r@.edge_perm),
            e_slots(r@.edge_perm) == combo_greedy(self@ as int, 11, 3),
            combo_rank(e_slots(r@.edge_perm), 12, 3) == self@,
    {
        let group = EdgeCombination(edge_grouping_inverse(self.0));
        let perm = group.into_representative_even_perm();
        let mut cube = ReprCube::solved();
        cube.edge_perm = perm;
        proof {
            lemma_representative_valid(group.0@);
            assert(e_slots(cube@.edge_perm) =~= group.0@);
        }
        assert(cube@ =~= (CubeState {
            edge_perm: representative(combo_greedy(self@ as int, 11, 3)),
            ..solved_state()
        }));
        cube
    }
}

/// The solved corner arrangement is even.
proof fn lemma_solved_corners_even()
    ensures
        !is_odd_seq(SOLVED_CORNER_PERM@),
{
    let s = SOLVED_CORNER_PERM@;
    assert(sorted_prefix(s, 8));
    lemma_sorted_inversions_zero(s, 8);
}

/// Composing an edge arrangement, a corner twist and an edge flip cube keeps each part.
proof fn lemma_phase_1_parts(g: CubeState, c: CubeState, e: CubeState)
    requires
        g == (CubeState { edge_perm: g.edge_perm, ..solved_state() }),
        c == (CubeState { corner_orient: c.corner_orient, ..solved_state() }),
        e == (CubeState { edge_orient: e.edge_orient, ..solved_state() }),
        is_permutation(g.edge_perm),
        g.edge_perm.len() == 12,
        digits_below(c.corner_orient, 3, 8),
        c.corner_orient.len() == 8,
        digits_below(e.edge_orient, 2, 12),
        e.edge_orient.len() == 12,
    ensures
        state_wf(g),
        state_wf(c),
        state_wf(e),
        composable(g, c),
        composable(state_then(g, c), e),
        state_then(state_then(g, c), e) == (CubeState {
            edge_perm: g.edge_perm,
            corner_orient: c.corner_orient,
            edge_orient: e.edge_orient,
            ..solved_state()
        }),
{
    lemma_then_wf(g, c);
    let gc = state_then(g, c);
    assert(gc.corner_orient =~= c.corner_orient);
    assert(gc.edge_orient =~= SOLVED_EDGE_ORIENT@);
    assert(gc.edge_perm =~= g.edge_perm);
    assert(gc.corner_perm =~= SOLVED_CORNER_PERM@);
    lemma_then_wf(gc, e);
    let r = state_then(gc, e);
    assert(r.corner_orient =~= c.corner_orient);
    assert(r.edge_orient =~= e.edge_orient);
    assert(r.edge_perm =~= g.edge_perm);
    assert(r.corner_perm =~= SOLVED_CORNER_PERM@);
}

/// The solved cube carrying the three phase 1 coordinates: the E-slice edges in the slots of
/// `edge_group`, then the corner twists of `corners`, then the edge flips of `edges`.
pub fn phase_1_cubies(
    corners: CornerOrientCoord,
    edges: EdgeOrientCoord,
    edge_group: EdgeGroupCoord,
) -> (r: ReprCube)
    requires
        edge_group@ < 495,
    ensures
        state_wf(r@),
        r@.corner_perm == SOLVED_CORNER_PERM@,
        r@.edge_perm == representative(combo_greedy(edge_group@ as int, 11, 3)),
        horner(r@.corner_orient, 3, 7) == corners@ % 2187,
        horner(r@.edge_orient, 2, 11) == edges@ % 2048,
        combo_rank(e_slots(r@.edge_perm), 12, 3) == edge_group@,
        digit_sum(r@.corner_orient, 8) % 3 == 0,
        digit_sum(r@.edge_orient, 12) % 2 == 0,
        state_valid(r@),
{
    proof {
        lemma_solved_corners_even();
    }
    let g = edge_group.into_cubie();
    let c = corners.into_cubie();
    let e = edges.into_cubie();
    proof {
        lemma_then_wf(g@, c@);
        lemma_phase_1_parts(g@, c@, e@);
    }
    let gc = g.then_apply(c);
    let r = gc.then_apply(e);
    r
}


impl CornerPermCoord {
    /// The Lehmer rank of the corner permutation.
    pub fn from_cubie(value: ReprCube) -> (r: Self)
        ensures
            r@ == lehmer_rank(value@.corner_perm, 8),
            r@ < 40320,
    {
        proof {
            reveal_with_fuel(factorial, 9);
        }
        Self(permutation_coord_8(&value.corner_perm.0))
    }

    /// The solved cube with the corner permutation of this rank.
    pub fn into_cubie(self) -> (r: ReprCube)
        requires
            self@ < 40320,
        ensures
            r@ == (CubeState { corner_perm: r@.corner_perm, ..solved_state() }),
            is_permutation(r@.corner_perm),
            lehmer_rank(r@.corner_perm, 8) == self@,
    {
        proof {
            reveal_with_fuel(factorial, 9);
        }
        let mut cube = ReprCube::solved();
        cube.corner_perm = Permutation(permutation_coord_8_inverse(self.0));
        assert(cube@ =~= (CubeState { corner_perm: cube@.corner_perm, ..solved_state() }));
        cube
    }
}

impl UDEdgePermCoord {
    /// The Lehmer rank of the first eight edge slots.
    pub fn from_cubie(value: ReprCube) -> (r: Self)
        ensures
            r@ == lehmer_rank(value@.edge_perm, 8),
            r@ < 40320,
    {
        let e = value.edge_perm.0;
        let first8 = [e[0], e[1], e[2], e[3], e[4], e[5], e[6], e[7]];
        proof {
            reveal_with_fuel(factorial, 9);
            lemma_rank_same_order(first8@, e@, 8);
        }
        Self(permutation_coord_8(&first8))
    }

    /// The solved cube with the U/D edges arranged by this rank in the first eight slots.
    pub fn into_cubie(self) -> (r: ReprCube)
        requires
            self@ < 40320,
        ensures
            r@ == (CubeState { edge_perm: r@.edge_perm, ..solved_state() }),
            is_permutation(r@.edge_perm),
            lehmer_rank(r@.edge_perm, 8) == self@,
            r@.edge_perm.subrange(8, 12) == seq![8u8, 9u8, 10u8, 11u8],
    {
        proof {
            reveal_with_fuel(factorial, 9);
        }
        let perm = permutation_coord_8_inverse(self.0);
        let mut cube = ReprCube::solved();
        cube.edge_perm = Permutation(
            [perm[0], perm[1], perm[2], perm[3], perm[4], perm[5], perm[6], perm[7], 8, 9, 10, 11],
        );
        proof {
            let s = cube@.edge_perm;
            lemma_rank_same_order(s, perm@, 8);
            assert forall|i: int, j: int| 0 <= i < 12 && 0 <= j < 12 && i != j implies #[trigger] s[i] != #[trigger] s[j] by {
                if i < 8 && j < 8 {
                    assert(perm@[i] != perm@[j]);
                }
            }
            assert(s.subrange(8, 12) =~= seq![8u8, 9u8, 10u8, 11u8]);
        }
        assert(cube@ =~= (CubeState { edge_perm: cube@.edge_perm, ..solved_state() }));
        cube
    }
}

impl EEdgePermCoord {
    /// The Lehmer rank of the last four edge slots.
    pub fn from_cubie(value: ReprCube) -> (r: Self)
        ensures
            r@ == lehmer_rank(value@.edge_perm.subrange(8, 12), 4),
            r@ < 24,
    {
        let e = value.edge_perm.0;
        let last4 = [e[8], e[9], e[10], e[11]];
        proof {
            reveal_with_fuel(factorial, 5);
            assert(last4@ =~= value@.edge_perm.subrange(8, 12));
        }
        Self(permutation_coord_4(&last4))
    }

    /// The solved cube with the E-slice edges arranged by this rank in the last four slots.
    pub fn into_cubie(self) -> (r: ReprCube)
        requires
            self@ < 24,
        ensures
            r@ == (CubeState { edge_perm: r@.edge_perm, ..solved_state() }),
            is_permutation(r@.edge_perm),
            r@.edge_perm.take(8) == SOLVED_EDGE_PERM@.take(8),
            forall|i: int| 8 <= i < 12 ==> 8 <= #[trigger] r@.edge_perm[i] < 12,
            lehmer_rank(r@.edge_perm.subrange(8, 12), 4) == self@,
            lehmer_rank(r@.corner_perm, 8) == 0,
            lehmer_rank(r@.edge_perm, 8) == 0,
    {
        proof {
            reveal_with_fuel(factorial, 5);
        }
        let perm = permutation_coord_4_inverse(self.0);
        let mut cube = ReprCube::solved();
        cube.edge_perm = Permutation(
            [0, 1, 2, 3, 4, 5, 6, 7, perm[0] + 8, perm[1] + 8, perm[2] + 8, perm[3] + 8],
        );
        proof {
            let s = cube@.edge_perm;
            let t = s.subrange(8, 12);
            assert forall|i: int, j: int| 0 <= i < 4 && 0 <= j < 4 implies (#[trigger] t[i] > #[trigger] t[j]) == (perm@[i] > perm@[j]) by {
                assert(t[i] == perm@[i] + 8);
                assert(t[j] == perm@[j] + 8);
            }
            lemma_rank_same_order(t, perm@, 4);
            assert forall|i: int, j: int| 0 <= i < 12 && 0 <= j < 12 && i != j implies #[trigger] s[i] != #[trigger] s[j] by {
                if i >= 8 && j >= 8 {
                    assert(perm@[i - 8] != perm@[j - 8]);
                }
            }
            assert(s.take(8) =~= SOLVED_EDGE_PERM@.take(8));
            assert(sorted_prefix(s, 8));
            lemma_sorted_rank_zero(s, 8);
            assert(sorted_prefix(cube@.corner_perm, 8));
            lemma_sorted_rank_zero(cube@.corner_perm, 8);
        }
        assert(cube@ =~= (CubeState { edge_perm: cube@.edge_perm, ..solved_state() }));
        cube
    }
}

/// Following a U/D edge arrangement by an E-slice arrangement keeps the first eight slots
/// of the one and the last four of the other.
proof fn lemma_merge_edges(a: Seq<u8>, b: Seq<u8>)
    requires
        a.len() == 12,
        a.subrange(8, 12) == seq![8u8, 9u8, 10u8, 11u8],
        is_permutation(a),
        is_permutation(b),
        b.len() == 12,
        b.take(8) == SOLVED_EDGE_PERM@.take(8),
    ensures
        forall|i: int| 0 <= i < 12 ==> (#[trigger] compose(a, b)[i] >= 8) == (i >= 8),
        compose(a, b).take(8) == a.take(8),
        compose(a, b).subrange(8, 12) == b.subrange(8, 12),
        lehmer_rank(compose(a, b), 8) == lehmer_rank(a, 8),
{
    let r = compose(a, b);
    assert forall|i: int| 0 <= i < 8 implies r[i] == a[i] by {
        assert(b[i] == b.take(8)[i]);
    }
    assert forall|i: int| 8 <= i < 12 implies r[i] == b[i] by {
        let v = b[i] as int;
        assert(v >= 8) by {
            if v < 8 {
                assert(b[v] == b.take(8)[v]);
                assert(b[i] == b[v]);
            }
        }
        assert(a[v] == a.subrange(8, 12)[v - 8]);
    }
    assert forall|i: int| 0 <= i < 12 implies (#[trigger] r[i] >= 8) == (i >= 8) by {
        if i < 8 {
            assert(r[i] == a[i]);
            if a[i] >= 8 {
                let j = a[i] as int;
                assert(a[j] == a.subrange(8, 12)[j - 8]);
                assert(a[j] == a[i]);
            }
        } else {
            let v = b[i] as int;
            assert(v >= 8) by {
                if v < 8 {
                    assert(b[v] == b.take(8)[v]);
                    assert(b[i] == b[v]);
                }
            }
            assert(r[i] == a[v]);
            assert(a[v] == a.subrange(8, 12)[v - 8]);
        }
    }
    assert(r.take(8) =~= a.take(8));
    assert(r.subrange(8, 12) =~= b.subrange(8, 12));
    lemma_rank_same_order(r, a, 8);
}

/// The parts of the solved cube: identity permutations, no twists or flips.
proof fn lemma_solved_parts()
    ensures
        SOLVED_CORNER_PERM@ == identity_seq(8),
        SOLVED_EDGE_PERM@ == identity_seq(12),
        is_permutation(SOLVED_CORNER_PERM@),
        is_permutation(SOLVED_EDGE_PERM@),
        digits_below(SOLVED_CORNER_ORIENT@, 3, 8),
        digits_below(SOLVED_EDGE_ORIENT@, 2, 12),
        SOLVED_CORNER_ORIENT@.len() == 8,
        SOLVED_EDGE_ORIENT@.len() == 12,
{
    assert(SOLVED_CORNER_PERM@ =~= identity_seq(8));
    assert(SOLVED_EDGE_PERM@ =~= identity_seq(12));
    assert(SOLVED_CORNER_ORIENT@ =~= Seq::new(8, |i: int| 0u8));
    assert(SOLVED_EDGE_ORIENT@ =~= Seq::new(12, |i: int| 0u8));
}

/// Composing a corner permutation, a U/D edge permutation and an E-slice permutation cube
/// keeps each part.
#[verifier::rlimit(60)]
#[verifier::spinoff_prover]
proof fn lemma_phase_2_parts(c: CubeState, u: CubeState, e: CubeState)
    requires
        c == (CubeState { corner_perm: c.corner_perm, ..solved_state() }),
        u == (CubeState { edge_perm: u.edge_perm, ..solved_state() }),
        e == (CubeState { edge_perm: e.edge_perm, ..solved_state() }),
        is_permutation(c.corner_perm),
        c.corner_perm.len() == 8,
        is_permutation(u.edge_perm),
        u.edge_perm.len() == 12,
        is_permutation(e.edge_perm),
        e.edge_perm.len() == 12,
    ensures
        composable(c, u),
        composable(state_then(c, u), e),
        state_wf(state_then(state_then(c, u), e)),
        state_then(state_then(c, u), e) == (CubeState {
            corner_perm: c.corner_perm,
            edge_perm: compose(u.edge_perm, e.edge_perm),
            ..solved_state()
        }),
{
    lemma_solved_parts();
    law_compose_identity(c.corner_perm);
    law_compose_identity(u.edge_perm);
    lemma_solved_then(c, u);
    let cu = CubeState { corner_perm: c.corner_perm, edge_perm: u.edge_perm, ..solved_state() };
    assert(state_then(c, u) == cu);
    lemma_solved_then(cu, e);
    lemma_compose_permutation(u.edge_perm, e.edge_perm);
    lemma_permutations_wf(c.corner_perm, compose(u.edge_perm, e.edge_perm));
}

/// A cube with permuted pieces and no twists or flips is well formed.
proof fn lemma_permutations_wf(cp: Seq<u8>, ep: Seq<u8>)
    requires
        is_permutation(cp),
        cp.len() == 8,
        is_permutation(ep),
        ep.len() == 12,
    ensures
        state_wf(CubeState { corner_perm: cp, edge_perm: ep, ..solved_state() }),
{
    lemma_solved_parts();
}

/// Composing two cubes without twists or flips composes their permutations.
proof fn lemma_solved_then(a: CubeState, b: CubeState)
    requires
        a == (CubeState { corner_perm: a.corner_perm, edge_perm: a.edge_perm, ..solved_state() }),
        b == (CubeState { corner_perm: b.corner_perm, edge_perm: b.edge_perm, ..solved_state() }),
        is_permutation(a.corner_perm),
        a.corner_perm.len() == 8,
        is_permutation(a.edge_perm),
        a.edge_perm.len() == 12,
        is_permutation(b.corner_perm),
        b.corner_perm.len() == 8,
        is_permutation(b.edge_perm),
        b.edge_perm.len() == 12,
    ensures
        composable(a, b),
        state_then(a, b) == (CubeState {
            corner_perm: compose(a.corner_perm, b.corner_perm),
            edge_perm: compose(a.edge_perm, b.edge_perm),
            ..solved_state()
        }),
{
    assert forall|i: int| 0 <= i < 8 implies a.corner_orient[#[trigger] b.corner_perm[i] as int] == 0 && b.corner_orient[i] == 0 by {
        assert((b.corner_perm[i] as int) < 8);
    }
    assert forall|i: int| 0 <= i < 12 implies a.edge_orient[#[trigger] b.edge_perm[i] as int] == 0 && b.edge_orient[i] == 0 by {
        assert((b.edge_perm[i] as int) < 12);
    }
    let r = state_then(a, b);
    assert(r.corner_orient =~= SOLVED_CORNER_ORIENT@);
    assert(r.edge_orient =~= SOLVED_EDGE_ORIENT@);
}

/// The solved cube carrying the three phase 2 coordinates: the corner permutation of
/// `corners`, then the U/D edge permutation of `ud_edges`, then the E-slice permutation of
/// `e_edges`.
pub fn phase_2_cubies(
    corners: CornerPermCoord,
    ud_edges: UDEdgePermCoord,
    e_edges: EEdgePermCoord,
) -> (r: ReprCube)
    requires
        corners@ < 40320,
        ud_edges@ < 40320,
        e_edges@ < 24,
    ensures
        state_wf(r@),
        r@.corner_orient == SOLVED_CORNER_ORIENT@,
        r@.edge_orient == SOLVED_EDGE_ORIENT@,
        lehmer_rank(r@.corner_perm, 8) == corners@,
        lehmer_rank(r@.edge_perm, 8) == ud_edges@,
        lehmer_rank(r@.edge_perm.subrange(8, 12), 4) == e_edges@,
        forall|i: int| 0 <= i < 12 ==> (#[trigger] r@.edge_perm[i] >= 8) == (i >= 8),
        horner(r@.corner_orient, 3, 7) == 0,
        horner(r@.edge_orient, 2, 11) == 0,
        combo_rank(e_slots(r@.edge_perm), 12, 3) == 0,
{
    let c = corners.into_cubie();
    let u = ud_edges.into_cubie();
    let e = e_edges.into_cubie();
    proof {
        lemma_phase_2_parts(c@, u@, e@);
        lemma_merge_edges(u@.edge_perm, e@.edge_perm);
    }
    let cu = c.then_apply(u);
    let r = cu.then_apply(e);
    proof {
        lemma_solved_orient_coords_zero();
        lemma_e_slice_home_rank_zero(r@.edge_perm);
    }
    r
}

/// The solved twists and flips have coordinate 0.
proof fn lemma_solved_orient_coords_zero()
    ensures
        horner(SOLVED_CORNER_ORIENT@, 3, 7) == 0,
        horner(SOLVED_EDGE_ORIENT@, 2, 11) == 0,
{
    assert(SOLVED_CORNER_ORIENT@ =~= Seq::new(8, |i: int| 0u8));
    assert(SOLVED_EDGE_ORIENT@ =~= Seq::new(12, |i: int| 0u8));
    lemma_zero_digits_horner(SOLVED_CORNER_ORIENT@, 3, 7);
    lemma_zero_digits_horner(SOLVED_EDGE_ORIENT@, 2, 11);
}

proof fn lemma_zero_digits_horner(s: Seq<u8>, b: int, n: int)
    requires
        0 <= n <= s.len(),
        forall|i: int| 0 <= i < s.len() ==> s[i] == 0,
    ensures
        horner(s, b, n) == 0,
    decreases n,
{
    if n > 0 {
        lemma_zero_digits_horner(s, b, n - 1);
    }
}

/// An edge arrangement with the E-slice edges in the E-slice has grouping coordinate 0.
proof fn lemma_e_slice_home_rank_zero(edge_perm: Seq<u8>)
    requires
        edge_perm.len() == 12,
        forall|i: int| 0 <= i < 12 ==> (#[trigger] edge_perm[i] >= 8) == (i >= 8),
    ensures
        combo_rank(e_slots(edge_perm), 12, 3) == 0,
{
    let a = e_slots(edge_perm);
    assert(edge_perm[8] >= 8 && edge_perm[9] >= 8 && edge_perm[10] >= 8 && edge_perm[11] >= 8);
    assert(a[8] && a[9] && a[10] && a[11]);
    reveal_with_fuel(combo_rank, 5);
}

} // verus!
