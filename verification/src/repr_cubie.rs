use vstd::prelude::*;
use vstd::arithmetic::div_mod::lemma_add_mod_noop;
use crate::coords::{e_slots, CornerOrientCoord, EdgeGroupCoord, EdgeOrientCoord};
use crate::cube_ops::partial_reprs::corner_orient::CornerOrient;
use crate::cube_ops::partial_reprs::edge_orient::EdgeOrient;
use crate::digits::{digit_sum, digits_below, horner, lemma_horner_bound, lemma_pow_values};
use crate::moves::{move_at, move_index, phase_2_as_move, phase_2_at, phase_2_index, Move, Phase2Move};
use crate::permutation_math::grouping::combo_rank;
use crate::permutation_math::permutation::{
    compose, identity_seq, inverse_seq, is_odd_seq, is_permutation, law_compose_associative,
    law_compose_identity, law_inverse_undoes, lemma_compose_permutation, lemma_inverse_seq,
    Permutation,
};
use crate::symmetries::SubGroupTransform;

verus! {

pub const U1_CORNER_PERM: [u8; 8] = [2, 0, 3, 1, 4, 5, 6, 7];
pub const U1_EDGE_PERM: [u8; 12] = [2, 3, 1, 0, 4, 5, 6, 7, 8, 9, 10, 11];
pub const U1_CORNER_ORIENT: [u8; 8] = [0, 0, 0, 0, 0, 0, 0, 0];
pub const U1_EDGE_ORIENT: [u8; 12] = [0, 0, 0, 0, 0, 0, 0, 0, 0, 0, 0, 0];
pub const U2_CORNER_PERM: [u8; 8] = [3, 2, 1, 0, 4, 5, 6, 7];
pub const U2_EDGE_PERM: [u8; 12] = [1, 0, 3, 2, 4, 5, 6, 7, 8, 9, 10, 11];
pub const U2_CORNER_ORIENT: [u8; 8] = [0, 0, 0, 0, 0, 0, 0, 0];
pub const U2_EDGE_ORIENT: [u8; 12] = [0, 0, 0, 0, 0, 0, 0, 0, 0, 0, 0, 0];
pub const U3_CORNER_PERM: [u8; 8] = [1, 3, 0, 2, 4, 5, 6, 7];
pub const U3_EDGE_PERM: [u8; 12] = [3, 2, 0, 1, 4, 5, 6, 7, 8, 9, 10, 11];
pub const U3_CORNER_ORIENT: [u8; 8] = [0, 0, 0, 0, 0, 0, 0, 0];
pub const U3_EDGE_ORIENT: [u8; 12] = [0, 0, 0, 0, 0, 0, 0, 0, 0, 0, 0, 0];
pub const D1_CORNER_PERM: [u8; 8] = [0, 1, 2, 3, 5, 7, 4, 6];
pub const D1_EDGE_PERM: [u8; 12] = [0, 1, 2, 3, 7, 6, 4, 5, 8, 9, 10, 11];
pub const D1_CORNER_ORIENT: [u8; 8] = [0, 0, 0, 0, 0, 0, 0, 0];
pub const D1_EDGE_ORIENT: [u8; 12] = [0, 0, 0, 0, 0, 0, 0, 0, 0, 0, 0, 0];
pub const D2_CORNER_PERM: [u8; 8] = [0, 1, 2, 3, 7, 6, 5, 4];
pub const D2_EDGE_PERM: [u8; 12] = [0, 1, 2, 3, 5, 4, 7, 6, 8, 9, 10, 11];
pub const D2_CORNER_ORIENT: [u8; 8] = [0, 0, 0, 0, 0, 0, 0, 0];
pub const D2_EDGE_ORIENT: [u8; 12] = [0, 0, 0, 0, 0, 0, 0, 0, 0, 0, 0, 0];
pub const D3_CORNER_PERM: [u8; 8] = [0, 1, 2, 3, 6, 4, 7, 5];
pub const D3_EDGE_PERM: [u8; 12] = [0, 1, 2, 3, 6, 7, 5, 4, 8, 9, 10, 11];
pub const D3_CORNER_ORIENT: [u8; 8] = [0, 0, 0, 0, 0, 0, 0, 0];
pub const D3_EDGE_ORIENT: [u8; 12] = [0, 0, 0, 0, 0, 0, 0, 0, 0, 0, 0, 0];
pub const F1_CORNER_PERM: [u8; 8] = [1, 5, 2, 3, 0, 4, 6, 7];
pub const F1_EDGE_PERM: [u8; 12] = [9, 1, 2, 3, 8, 5, 6, 7, 0, 4, 10, 11];
pub const F1_CORNER_ORIENT: [u8; 8] = [1, 2, 0, 0, 2, 1, 0, 0];
pub const F1_EDGE_ORIENT: [u8; 12] = [1, 0, 0, 0, 1, 0, 0, 0, 1, 1, 0, 0];
pub const F2_CORNER_PERM: [u8; 8] = [5, 4, 2, 3, 1, 0, 6, 7];
pub const F2_EDGE_PERM: [u8; 12] = [4, 1, 2, 3, 0, 5, 6, 7, 9, 8, 10, 11];
pub const F2_CORNER_ORIENT: [u8; 8] = [0, 0, 0, 0, 0, 0, 0, 0];
pub const F2_EDGE_ORIENT: [u8; 12] = [0, 0, 0, 0, 0, 0, 0, 0, 0, 0, 0, 0];
pub const F3_CORNER_PERM: [u8; 8] = [4, 0, 2, 3, 5, 1, 6, 7];
pub const F3_EDGE_PERM: [u8; 12] = [8, 1, 2, 3, 9, 5, 6, 7, 4, 0, 10, 11];
pub const F3_CORNER_ORIENT: [u8; 8] = [1, 2, 0, 0, 2, 1, 0, 0];
pub const F3_EDGE_ORIENT: [u8; 12] = [1, 0, 0, 0, 1, 0, 0, 0, 1, 1, 0, 0];
pub const B1_CORNER_PERM: [u8; 8] = [0, 1, 6, 2, 4, 5, 7, 3];
pub const B1_EDGE_PERM: [u8; 12] = [0, 10, 2, 3, 4, 11, 6, 7, 8, 9, 5, 1];
pub const B1_CORNER_ORIENT: [u8; 8] = [0, 0, 2, 1, 0, 0, 1, 2];
pub const B1_EDGE_ORIENT: [u8; 12] = [0, 1, 0, 0, 0, 1, 0, 0, 0, 0, 1, 1];
pub const B2_CORNER_PERM: [u8; 8] = [0, 1, 7, 6, 4, 5, 3, 2];
pub const B2_EDGE_PERM: [u8; 12] = [0, 5, 2, 3, 4, 1, 6, 7, 8, 9, 11, 10];
pub const B2_CORNER_ORIENT: [u8; 8] = [0, 0, 0, 0, 0, 0, 0, 0];
pub const B2_EDGE_ORIENT: [u8; 12] = [0, 0, 0, 0, 0, 0, 0, 0, 0, 0, 0, 0];
pub const B3_CORNER_PERM: [u8; 8] = [0, 1, 3, 7, 4, 5, 2, 6];
pub const B3_EDGE_PERM: [u8; 12] = [0, 11, 2, 3, 4, 10, 6, 7, 8, 9, 1, 5];
pub const B3_CORNER_ORIENT: [u8; 8] = [0, 0, 2, 1, 0, 0, 1, 2];
pub const B3_EDGE_ORIENT: [u8; 12] = [0, 1, 0, 0, 0, 1, 0, 0, 0, 0, 1, 1];
pub const R1_CORNER_PERM: [u8; 8] = [4, 1, 0, 3, 6, 5, 2, 7];
pub const R1_EDGE_PERM: [u8; 12] = [0, 1, 8, 3, 4, 5, 10, 7, 6, 9, 2, 11];
pub const R1_CORNER_ORIENT: [u8; 8] = [2, 0, 1, 0, 1, 0, 2, 0];
pub const R1_EDGE_ORIENT: [u8; 12] = [0, 0, 0, 0, 0, 0, 0, 0, 0, 0, 0, 0];
pub const R2_CORNER_PERM: [u8; 8] = [6, 1, 4, 3, 2, 5, 0, 7];
pub const R2_EDGE_PERM: [u8; 12] = [0, 1, 6, 3, 4, 5, 2, 7, 10, 9, 8, 11];
pub const R2_CORNER_ORIENT: [u8; 8] = [0, 0, 0, 0, 0, 0, 0, 0];
pub const R2_EDGE_ORIENT: [u8; 12] = [0, 0, 0, 0, 0, 0, 0, 0, 0, 0, 0, 0];
pub const R3_CORNER_PERM: [u8; 8] = [2, 1, 6, 3, 0, 5, 4, 7];
pub const R3_EDGE_PERM: [u8; 12] = [0, 1, 10, 3, 4, 5, 8, 7, 2, 9, 6, 11];
pub const R3_CORNER_ORIENT: [u8; 8] = [2, 0, 1, 0, 1, 0, 2, 0];
pub const R3_EDGE_ORIENT: [u8; 12] = [0, 0, 0, 0, 0, 0, 0, 0, 0, 0, 0, 0];
pub const L1_CORNER_PERM: [u8; 8] = [0, 3, 2, 7, 4, 1, 6, 5];
pub const L1_EDGE_PERM: [u8; 12] = [0, 1, 2, 11, 4, 5, 6, 9, 8, 3, 10, 7];
pub const L1_CORNER_ORIENT: [u8; 8] = [0, 1, 0, 2, 0, 2, 0, 1];
pub const L1_EDGE_ORIENT: [u8; 12] = [0, 0, 0, 0, 0, 0, 0, 0, 0, 0, 0, 0];
pub const L2_CORNER_PERM: [u8; 8] = [0, 7, 2, 5, 4, 3, 6, 1];
pub const L2_EDGE_PERM: [u8; 12] = [0, 1, 2, 7, 4, 5, 6, 3, 8, 11, 10, 9];
pub const L2_CORNER_ORIENT: [u8; 8] = [0, 0, 0, 0, 0, 0, 0, 0];
pub const L2_EDGE_ORIENT: [u8; 12] = [0, 0, 0, 0, 0, 0, 0, 0, 0, 0, 0, 0];
pub const L3_CORNER_PERM: [u8; 8] = [0, 5, 2, 1, 4, 7, 6, 3];
pub const L3_EDGE_PERM: [u8; 12] = [0, 1, 2, 9, 4, 5, 6, 11, 8, 7, 10, 3];
pub const L3_CORNER_ORIENT: [u8; 8] = [0, 1, 0, 2, 0, 2, 0, 1];
pub const L3_EDGE_ORIENT: [u8; 12] = [0, 0, 0, 0, 0, 0, 0, 0, 0, 0, 0, 0];
pub const S_LR2_PARTIAL_CORNER_PERM: [u8; 8] = [1, 0, 3, 2, 5, 4, 7, 6];
pub const S_LR2_PARTIAL_EDGE_PERM: [u8; 12] = [0, 1, 3, 2, 4, 5, 7, 6, 9, 8, 11, 10];
pub const S_LR2_PARTIAL_CORNER_ORIENT: [u8; 8] = [0, 0, 0, 0, 0, 0, 0, 0];
pub const S_LR2_PARTIAL_EDGE_ORIENT: [u8; 12] = [0, 0, 0, 0, 0, 0, 0, 0, 0, 0, 0, 0];
pub const S_U4_1_CORNER_PERM: [u8; 8] = [2, 0, 3, 1, 6, 4, 7, 5];
pub const S_U4_1_EDGE_PERM: [u8; 12] = [2, 3, 1, 0, 6, 7, 5, 4, 10, 8, 11, 9];
pub const S_U4_1_CORNER_ORIENT: [u8; 8] = [0, 0, 0, 0, 0, 0, 0, 0];
pub const S_U4_1_EDGE_ORIENT: [u8; 12] = [0, 0, 0, 0, 0, 0, 0, 0, 1, 1, 1, 1];
pub const S_U4_2_CORNER_PERM: [u8; 8] = [3, 2, 1, 0, 7, 6, 5, 4];
pub const S_U4_2_EDGE_PERM: [u8; 12] = [1, 0, 3, 2, 5, 4, 7, 6, 11, 10, 9, 8];
pub const S_U4_2_CORNER_ORIENT: [u8; 8] = [0, 0, 0, 0, 0, 0, 0, 0];
pub const S_U4_2_EDGE_ORIENT: [u8; 12] = [0, 0, 0, 0, 0, 0, 0, 0, 0, 0, 0, 0];
pub const S_U4_3_CORNER_PERM: [u8; 8] = [1, 3, 0, 2, 5, 7, 4, 6];
pub const S_U4_3_EDGE_PERM: [u8; 12] = [3, 2, 0, 1, 7, 6, 4, 5, 9, 11, 8, 10];
pub const S_U4_3_CORNER_ORIENT: [u8; 8] = [0, 0, 0, 0, 0, 0, 0, 0];
pub const S_U4_3_EDGE_ORIENT: [u8; 12] = [0, 0, 0, 0, 0, 0, 0, 0, 1, 1, 1, 1];
pub const S_F2_CORNER_PERM: [u8; 8] = [5, 4, 7, 6, 1, 0, 3, 2];
pub const S_F2_EDGE_PERM: [u8; 12] = [4, 5, 7, 6, 0, 1, 3, 2, 9, 8, 11, 10];
pub const S_F2_CORNER_ORIENT: [u8; 8] = [0, 0, 0, 0, 0, 0, 0, 0];
pub const S_F2_EDGE_ORIENT: [u8; 12] = [0, 0, 0, 0, 0, 0, 0, 0, 0, 0, 0, 0];

pub const SOLVED_CORNER_PERM: [u8; 8] = [0, 1, 2, 3, 4, 5, 6, 7];
pub const SOLVED_EDGE_PERM: [u8; 12] = [0, 1, 2, 3, 4, 5, 6, 7, 8, 9, 10, 11];
pub const SOLVED_CORNER_ORIENT: [u8; 8] = [0, 0, 0, 0, 0, 0, 0, 0];
pub const SOLVED_EDGE_ORIENT: [u8; 12] = [0, 0, 0, 0, 0, 0, 0, 0, 0, 0, 0, 0];

/// The mathematical content of a cube: where each corner and edge sits and how it is twisted.
#[verifier::ext_equal]
pub struct CubeState {
    pub corner_perm: Seq<u8>,
    pub edge_perm: Seq<u8>,
    pub corner_orient: Seq<u8>,
    pub edge_orient: Seq<u8>,
}

/// The twists after applying a transformation with arrangement `bp` and twists `bo` to a
/// cube with twists `ao`, modulo `m`.
pub open spec fn orient_then(ao: Seq<u8>, bp: Seq<u8>, bo: Seq<u8>, m: int) -> Seq<u8> {
    Seq::new(bp.len(), |i: int| ((ao[bp[i] as int] + bo[i]) % m) as u8)
}

/// `a` followed by `b`, as transformations from the solved cube.
pub open spec fn state_then(a: CubeState, b: CubeState) -> CubeState {
    CubeState {
        corner_perm: compose(a.corner_perm, b.corner_perm),
        edge_perm: compose(a.edge_perm, b.edge_perm),
        corner_orient: orient_then(a.corner_orient, b.corner_perm, b.corner_orient, 3),
        edge_orient: orient_then(a.edge_orient, b.edge_perm, b.edge_orient, 2),
    }
}

/// Permutations of the eight corners and twelve edges, corner twists below 3 and edge flips
/// below 2.
pub open spec fn state_wf(s: CubeState) -> bool {
    &&& s.corner_perm.len() == 8
    &&& s.edge_perm.len() == 12
    &&& s.corner_orient.len() == 8
    &&& s.edge_orient.len() == 12
    &&& is_permutation(s.corner_perm)
    &&& is_permutation(s.edge_perm)
    &&& digits_below(s.corner_orient, 3, 8)
    &&& digits_below(s.edge_orient, 2, 12)
}

/// What composing `a` with `b` needs: permutations, and twist sums that fit in a byte.
pub open spec fn composable(a: CubeState, b: CubeState) -> bool {
    &&& is_permutation(a.corner_perm)
    &&& is_permutation(a.edge_perm)
    &&& is_permutation(b.corner_perm)
    &&& is_permutation(b.edge_perm)
    &&& forall|i: int| 0 <= i < 8 ==> a.corner_orient[#[trigger] b.corner_perm[i] as int] + b.corner_orient[i] <= 255
    &&& forall|i: int| 0 <= i < 12 ==> a.edge_orient[#[trigger] b.edge_perm[i] as int] + b.edge_orient[i] <= 255
}

/// A cube that can be reached from the solved cube by face turns: flips and twists in range
/// with sums divisible by 2 and 3, and corner and edge permutations of equal parity.
pub open spec fn state_valid(s: CubeState) -> bool {
    &&& digits_below(s.edge_orient, 2, 12)
    &&& digit_sum(s.edge_orient, 12) % 2 == 0
    &&& digits_below(s.corner_orient, 3, 8)
    &&& digit_sum(s.corner_orient, 8) % 3 == 0
    &&& is_odd_seq(s.edge_perm) == is_odd_seq(s.corner_perm)
}

pub open spec fn solved_state() -> CubeState {
    CubeState {
        corner_perm: SOLVED_CORNER_PERM@,
        edge_perm: SOLVED_EDGE_PERM@,
        corner_orient: SOLVED_CORNER_ORIENT@,
        edge_orient: SOLVED_EDGE_ORIENT@,
    }
}

/// The transformation that undoes `s`.
pub open spec fn state_inverse(s: CubeState) -> CubeState {
    CubeState {
        corner_perm: inverse_seq(s.corner_perm),
        edge_perm: inverse_seq(s.edge_perm),
        corner_orient: Seq::new(
            8,
            |v: int| ((3 - s.corner_orient[inverse_seq(s.corner_perm)[v] as int] % 3) % 3) as u8,
        ),
        edge_orient: Seq::new(
            12,
            |v: int| ((2 - s.edge_orient[inverse_seq(s.edge_perm)[v] as int] % 2) % 2) as u8,
        ),
    }
}

/// The cube seen in a mirror: every corner twist `t` becomes `(3 - t) % 3`.
pub open spec fn mirror_corners(s: CubeState) -> CubeState {
    CubeState {
        corner_orient: Seq::new(8, |i: int| ((3 - s.corner_orient[i]) % 3) as u8),
        ..s
    }
}

/// The transformation of a face turn.
pub open spec fn move_state(m: Move) -> CubeState {
    match m {
        Move::U1 => CubeState {
            corner_perm: U1_CORNER_PERM@,
            edge_perm: U1_EDGE_PERM@,
            corner_orient: U1_CORNER_ORIENT@,
            edge_orient: U1_EDGE_ORIENT@,
        },
        Move::U2 => CubeState {
            corner_perm: U2_CORNER_PERM@,
            edge_perm: U2_EDGE_PERM@,
            corner_orient: U2_CORNER_ORIENT@,
            edge_orient: U2_EDGE_ORIENT@,
        },
        Move::U3 => CubeState {
            corner_perm: U3_CORNER_PERM@,
            edge_perm: U3_EDGE_PERM@,
            corner_orient: U3_CORNER_ORIENT@,
            edge_orient: U3_EDGE_ORIENT@,
        },
        Move::D1 => CubeState {
            corner_perm: D1_CORNER_PERM@,
            edge_perm: D1_EDGE_PERM@,
            corner_orient: D1_CORNER_ORIENT@,
            edge_orient: D1_EDGE_ORIENT@,
        },
        Move::D2 => CubeState {
            corner_perm: D2_CORNER_PERM@,
            edge_perm: D2_EDGE_PERM@,
            corner_orient: D2_CORNER_ORIENT@,
            edge_orient: D2_EDGE_ORIENT@,
        },
        Move::D3 => CubeState {
            corner_perm: D3_CORNER_PERM@,
            edge_perm: D3_EDGE_PERM@,
            corner_orient: D3_CORNER_ORIENT@,
            edge_orient: D3_EDGE_ORIENT@,
        },
        Move::F1 => CubeState {
            corner_perm: F1_CORNER_PERM@,
            edge_perm: F1_EDGE_PERM@,
            corner_orient: F1_CORNER_ORIENT@,
            edge_orient: F1_EDGE_ORIENT@,
        },
        Move::F2 => CubeState {
            corner_perm: F2_CORNER_PERM@,
            edge_perm: F2_EDGE_PERM@,
            corner_orient: F2_CORNER_ORIENT@,
            edge_orient: F2_EDGE_ORIENT@,
        },
        Move::F3 => CubeState {
            corner_perm: F3_CORNER_PERM@,
            edge_perm: F3_EDGE_PERM@,
            corner_orient: F3_CORNER_ORIENT@,
            edge_orient: F3_EDGE_ORIENT@,
        },
        Move::B1 => CubeState {
            corner_perm: B1_CORNER_PERM@,
            edge_perm: B1_EDGE_PERM@,
            corner_orient: B1_CORNER_ORIENT@,
            edge_orient: B1_EDGE_ORIENT@,
        },
        Move::B2 => CubeState {
            corner_perm: B2_CORNER_PERM@,
            edge_perm: B2_EDGE_PERM@,
            corner_orient: B2_CORNER_ORIENT@,
            edge_orient: B2_EDGE_ORIENT@,
        },
        Move::B3 => CubeState {
            corner_perm: B3_CORNER_PERM@,
            edge_perm: B3_EDGE_PERM@,
            corner_orient: B3_CORNER_ORIENT@,
            edge_orient: B3_EDGE_ORIENT@,
        },
        Move::R1 => CubeState {
            corner_perm: R1_CORNER_PERM@,
            edge_perm: R1_EDGE_PERM@,
            corner_orient: R1_CORNER_ORIENT@,
            edge_orient: R1_EDGE_ORIENT@,
        },
        Move::R2 => CubeState {
            corner_perm: R2_CORNER_PERM@,
            edge_perm: R2_EDGE_PERM@,
            corner_orient: R2_CORNER_ORIENT@,
            edge_orient: R2_EDGE_ORIENT@,
        },
        Move::R3 => CubeState {
            corner_perm: R3_CORNER_PERM@,
            edge_perm: R3_EDGE_PERM@,
            corner_orient: R3_CORNER_ORIENT@,
            edge_orient: R3_EDGE_ORIENT@,
        },
        Move::L1 => CubeState {
            corner_perm: L1_CORNER_PERM@,
            edge_perm: L1_EDGE_PERM@,
            corner_orient: L1_CORNER_ORIENT@,
            edge_orient: L1_EDGE_ORIENT@,
        },
        Move::L2 => CubeState {
            corner_perm: L2_CORNER_PERM@,
            edge_perm: L2_EDGE_PERM@,
            corner_orient: L2_CORNER_ORIENT@,
            edge_orient: L2_EDGE_ORIENT@,
        },
        Move::L3 => CubeState {
            corner_perm: L3_CORNER_PERM@,
            edge_perm: L3_EDGE_PERM@,
            corner_orient: L3_CORNER_ORIENT@,
            edge_orient: L3_EDGE_ORIENT@,
        },
    }
}

pub open spec fn s_lr2_state() -> CubeState {
    CubeState {
            corner_perm: S_LR2_PARTIAL_CORNER_PERM@,
            edge_perm: S_LR2_PARTIAL_EDGE_PERM@,
            corner_orient: S_LR2_PARTIAL_CORNER_ORIENT@,
            edge_orient: S_LR2_PARTIAL_EDGE_ORIENT@,
        }
}

pub open spec fn s_f2_state() -> CubeState {
    CubeState {
            corner_perm: S_F2_CORNER_PERM@,
            edge_perm: S_F2_EDGE_PERM@,
            corner_orient: S_F2_CORNER_ORIENT@,
            edge_orient: S_F2_EDGE_ORIENT@,
        }
}

/// The `k`-th power of the quarter turn of the whole cube about the U axis.
pub open spec fn s_u4_state(k: int) -> CubeState {
    if k == 1 {
        CubeState {
            corner_perm: S_U4_1_CORNER_PERM@,
            edge_perm: S_U4_1_EDGE_PERM@,
            corner_orient: S_U4_1_CORNER_ORIENT@,
            edge_orient: S_U4_1_EDGE_ORIENT@,
        }
    } else if k == 2 {
        CubeState {
            corner_perm: S_U4_2_CORNER_PERM@,
            edge_perm: S_U4_2_EDGE_PERM@,
            corner_orient: S_U4_2_CORNER_ORIENT@,
            edge_orient: S_U4_2_EDGE_ORIENT@,
        }
    } else {
        CubeState {
            corner_perm: S_U4_3_CORNER_PERM@,
            edge_perm: S_U4_3_EDGE_PERM@,
            corner_orient: S_U4_3_CORNER_ORIENT@,
            edge_orient: S_U4_3_EDGE_ORIENT@,
        }
    }
}

/// The symmetries applied before the cube in a conjugation by `t = A + 2 B + 8 C`:
/// `S_LR2^A` then `S_U4^-B` then `S_F2^C`.
pub open spec fn conj_prefix_state(t: u8) -> CubeState {
    let lr = t % 2 == 1;
    let u4 = (t / 2) % 4;
    let f2 = (t / 8) % 2 == 1;
    let w0 = solved_state();
    let w1 = if lr {
        state_then(w0, s_lr2_state())
    } else {
        w0
    };
    let w2 = if u4 == 0 {
        w1
    } else {
        state_then(w1, s_u4_state(4 - u4))
    };
    if f2 {
        state_then(w2, s_f2_state())
    } else {
        w2
    }
}

/// The symmetries applied after the cube in a conjugation by `t`, undoing the prefix, with
/// the corner twists mirrored when `A` is 1.
pub open spec fn conj_suffix_state(w: CubeState, t: u8) -> CubeState {
    let lr = t % 2 == 1;
    let u4 = (t / 2) % 4;
    let f2 = (t / 8) % 2 == 1;
    let w5 = if f2 {
        state_then(w, s_f2_state())
    } else {
        w
    };
    let w6 = if u4 == 0 {
        w5
    } else {
        state_then(w5, s_u4_state(u4 as int))
    };
    if lr {
        mirror_corners(state_then(w6, s_lr2_state()))
    } else {
        w6
    }
}

/// Conjugation by the symmetry `t`.
pub open spec fn conj_state(c: CubeState, t: u8) -> CubeState {
    conj_suffix_state(state_then(conj_prefix_state(t), c), t)
}

/// Composing the cube with every face turn stays within a byte: both permutations are
/// permutations, and each twist and flip plus the one a turn adds to it is below 256.
pub open spec fn turns_composable(c: CubeState) -> bool {
    forall|m: Move| #[trigger] composable(c, move_state(m))
}

/// Composing the cube with every phase 2 move stays within a byte.
pub open spec fn phase_2_turns_composable(c: CubeState) -> bool {
    forall|m: Phase2Move| #[trigger] composable(c, move_state(phase_2_as_move(m)))
}

/// Composing the start of every nontrivial conjugation with the cube stays within a byte.
pub open spec fn conjugations_composable(c: CubeState) -> bool {
    forall|t: u8| 1 <= t < 16 ==> #[trigger] composable(conj_prefix_state(t), c)
}

/// Two cubes that can be composed compose to a well-formed cube.
pub proof fn lemma_composable_wf(a: CubeState, b: CubeState)
    requires
        composable(a, b),
        a.corner_perm.len() == 8,
        b.corner_perm.len() == 8,
        a.edge_perm.len() == 12,
        b.edge_perm.len() == 12,
        b.corner_orient.len() == 8,
        b.edge_orient.len() == 12,
    ensures
        state_wf(state_then(a, b)),
{
    lemma_compose_permutation(a.corner_perm, b.corner_perm);
    lemma_compose_permutation(a.edge_perm, b.edge_perm);
}

/// Well-formed cubes can be composed, and compose to a well-formed cube.
pub proof fn lemma_then_wf(a: CubeState, b: CubeState)
    requires
        state_wf(a),
        state_wf(b),
    ensures
        composable(a, b),
        state_wf(state_then(a, b)),
{
    lemma_compose_permutation(a.corner_perm, b.corner_perm);
    lemma_compose_permutation(a.edge_perm, b.edge_perm);
    let c = state_then(a, b);
    assert forall|i: int| 0 <= i < 8 implies a.corner_orient[#[trigger] b.corner_perm[i] as int] + b.corner_orient[i] <= 255 by {
        assert((b.corner_perm[i] as int) < 8);
    }
    assert forall|i: int| 0 <= i < 12 implies a.edge_orient[#[trigger] b.edge_perm[i] as int] + b.edge_orient[i] <= 255 by {
        assert((b.edge_perm[i] as int) < 12);
    }
}

pub proof fn lemma_constants_wf()
    ensures
        state_wf(solved_state()),
        state_wf(s_lr2_state()),
        state_wf(s_f2_state()),
        state_wf(s_u4_state(1)),
        state_wf(s_u4_state(2)),
        state_wf(s_u4_state(3)),
{
}

pub proof fn lemma_moves_wf(m: Move)
    ensures
        state_wf(move_state(m)),
{
}

/// Composition of cubes is associative.
pub proof fn law_then_associative(a: CubeState, b: CubeState, c: CubeState)
    requires
        state_wf(a),
        state_wf(b),
        state_wf(c),
    ensures
        state_then(state_then(a, b), c) == state_then(a, state_then(b, c)),
{
    law_compose_associative(a.corner_perm, b.corner_perm, c.corner_perm);
    law_compose_associative(a.edge_perm, b.edge_perm, c.edge_perm);
    let l = state_then(state_then(a, b), c);
    let r = state_then(a, state_then(b, c));
    assert forall|i: int| 0 <= i < 8 implies l.corner_orient[i] == r.corner_orient[i] by {
        let j = c.corner_perm[i] as int;
        let k = b.corner_perm[j] as int;
        lemma_add_mod_noop(a.corner_orient[k] + b.corner_orient[j], c.corner_orient[i] as int, 3);
        lemma_add_mod_noop(a.corner_orient[k] as int, b.corner_orient[j] + c.corner_orient[i], 3);
        vstd::arithmetic::div_mod::lemma_mod_twice(a.corner_orient[k] + b.corner_orient[j], 3);
        vstd::arithmetic::div_mod::lemma_mod_twice(b.corner_orient[j] + c.corner_orient[i], 3);
        lemma_add_mod_noop(a.corner_orient[k] as int, (b.corner_orient[j] + c.corner_orient[i]) % 3, 3);
    }
    assert forall|i: int| 0 <= i < 12 implies l.edge_orient[i] == r.edge_orient[i] by {
        let j = c.edge_perm[i] as int;
        let k = b.edge_perm[j] as int;
        lemma_add_mod_noop(a.edge_orient[k] + b.edge_orient[j], c.edge_orient[i] as int, 2);
        lemma_add_mod_noop(a.edge_orient[k] as int, b.edge_orient[j] + c.edge_orient[i], 2);
        vstd::arithmetic::div_mod::lemma_mod_twice(a.edge_orient[k] + b.edge_orient[j], 2);
        vstd::arithmetic::div_mod::lemma_mod_twice(b.edge_orient[j] + c.edge_orient[i], 2);
        lemma_add_mod_noop(a.edge_orient[k] as int, (b.edge_orient[j] + c.edge_orient[i]) % 2, 2);
    }
    assert(l =~= r);
}

/// The solved cube is neutral on both sides.
pub proof fn law_then_identity(s: CubeState)
    requires
        state_wf(s),
    ensures
        state_then(s, solved_state()) == s,
        state_then(solved_state(), s) == s,
{
    assert(SOLVED_CORNER_PERM@ =~= identity_seq(8));
    assert(SOLVED_EDGE_PERM@ =~= identity_seq(12));
    law_compose_identity(s.corner_perm);
    law_compose_identity(s.edge_perm);
    assert(state_then(s, solved_state()) =~= s);
    assert(state_then(solved_state(), s) =~= s);
}

/// `state_inverse` is well formed and undoes the cube on both sides.
pub proof fn law_then_inverse(s: CubeState)
    requires
        state_wf(s),
    ensures
        state_wf(state_inverse(s)),
        state_then(s, state_inverse(s)) == solved_state(),
        state_then(state_inverse(s), s) == solved_state(),
{
    lemma_inverse_wf(s);
    lemma_then_inverse_right(s);
    lemma_then_inverse_left(s);
}

proof fn lemma_inverse_wf(s: CubeState)
    requires
        state_wf(s),
    ensures
        state_wf(state_inverse(s)),
{
    lemma_inverse_seq(s.corner_perm);
    lemma_inverse_seq(s.edge_perm);
}

#[verifier::spinoff_prover]
proof fn lemma_then_inverse_right(s: CubeState)
    requires
        state_wf(s),
    ensures
        state_then(s, state_inverse(s)) == solved_state(),
{
    lemma_inverse_seq(s.corner_perm);
    lemma_inverse_seq(s.edge_perm);
    law_inverse_undoes(s.corner_perm);
    law_inverse_undoes(s.edge_perm);
    assert(SOLVED_CORNER_PERM@ =~= identity_seq(8));
    assert(SOLVED_EDGE_PERM@ =~= identity_seq(12));
    let inv = state_inverse(s);
    let a = state_then(s, inv);
    assert(a.corner_orient =~= SOLVED_CORNER_ORIENT@);
    assert(a.edge_orient =~= SOLVED_EDGE_ORIENT@);
    assert(a =~= solved_state());
}

#[verifier::spinoff_prover]
proof fn lemma_then_inverse_left(s: CubeState)
    requires
        state_wf(s),
    ensures
        state_then(state_inverse(s), s) == solved_state(),
{
    lemma_inverse_seq(s.corner_perm);
    lemma_inverse_seq(s.edge_perm);
    law_inverse_undoes(s.corner_perm);
    law_inverse_undoes(s.edge_perm);
    assert(SOLVED_CORNER_PERM@ =~= identity_seq(8));
    assert(SOLVED_EDGE_PERM@ =~= identity_seq(12));
    let inv = state_inverse(s);
    let b = state_then(inv, s);
    assert forall|i: int| 0 <= i < 8 implies b.corner_orient[i] == 0 by {
        let v = s.corner_perm[i] as int;
        assert(inverse_seq(s.corner_perm)[v] == i);
    }
    assert forall|i: int| 0 <= i < 12 implies b.edge_orient[i] == 0 by {
        let v = s.edge_perm[i] as int;
        assert(inverse_seq(s.edge_perm)[v] == i);
    }
    assert(b.corner_orient =~= SOLVED_CORNER_ORIENT@);
    assert(b.edge_orient =~= SOLVED_EDGE_ORIENT@);
    assert(b =~= solved_state());
}

#[derive(Clone, Copy, PartialEq, Eq, Hash, Debug)]
pub struct ReprCube {
    pub corner_perm: Permutation<8>,
    pub edge_perm: Permutation<12>,
    pub corner_orient: CornerOrient,
    pub edge_orient: EdgeOrient,
}

impl View for ReprCube {
    type V = CubeState;

    open spec fn view(&self) -> CubeState {
        CubeState {
            corner_perm: self.corner_perm.0@,
            edge_perm: self.edge_perm.0@,
            corner_orient: self.corner_orient.0@,
            edge_orient: self.edge_orient.0@,
        }
    }
}

impl Default for ReprCube {
    /// The solved cube.
    fn default() -> (r: Self)
        ensures
            r@ == solved_state(),
    {
        Self::solved()
    }
}

impl ReprCube {
    /// The solved cube.
    pub fn solved() -> (r: Self)
        ensures
            r@ == solved_state(),
    {
        ReprCube {
            corner_perm: Permutation(SOLVED_CORNER_PERM),
            edge_perm: Permutation(SOLVED_EDGE_PERM),
            corner_orient: CornerOrient(SOLVED_CORNER_ORIENT),
            edge_orient: EdgeOrient(SOLVED_EDGE_ORIENT),
        }
    }

    /// The cube that a single face turn makes of the solved cube.
    pub fn from_move(value: Move) -> (r: Self)
        ensures
            r@ == move_state(value),
    {
        match value {
            Move::U1 => ReprCube {
            corner_perm: Permutation(U1_CORNER_PERM),
            edge_perm: Permutation(U1_EDGE_PERM),
            corner_orient: CornerOrient(U1_CORNER_ORIENT),
            edge_orient: EdgeOrient(U1_EDGE_ORIENT),
        },
            Move::U2 => ReprCube {
            corner_perm: Permutation(U2_CORNER_PERM),
            edge_perm: Permutation(U2_EDGE_PERM),
            corner_orient: CornerOrient(U2_CORNER_ORIENT),
            edge_orient: EdgeOrient(U2_EDGE_ORIENT),
        },
            Move::U3 => ReprCube {
            corner_perm: Permutation(U3_CORNER_PERM),
            edge_perm: Permutation(U3_EDGE_PERM),
            corner_orient: CornerOrient(U3_CORNER_ORIENT),
            edge_orient: EdgeOrient(U3_EDGE_ORIENT),
        },
            Move::D1 => ReprCube {
            corner_perm: Permutation(D1_CORNER_PERM),
            edge_perm: Permutation(D1_EDGE_PERM),
            corner_orient: CornerOrient(D1_CORNER_ORIENT),
            edge_orient: EdgeOrient(D1_EDGE_ORIENT),
        },
            Move::D2 => ReprCube {
            corner_perm: Permutation(D2_CORNER_PERM),
            edge_perm: Permutation(D2_EDGE_PERM),
            corner_orient: CornerOrient(D2_CORNER_ORIENT),
            edge_orient: EdgeOrient(D2_EDGE_ORIENT),
        },
            Move::D3 => ReprCube {
            corner_perm: Permutation(D3_CORNER_PERM),
            edge_perm: Permutation(D3_EDGE_PERM),
            corner_orient: CornerOrient(D3_CORNER_ORIENT),
            edge_orient: EdgeOrient(D3_EDGE_ORIENT),
        },
            Move::F1 => ReprCube {
            corner_perm: Permutation(F1_CORNER_PERM),
            edge_perm: Permutation(F1_EDGE_PERM),
            corner_orient: CornerOrient(F1_CORNER_ORIENT),
            edge_orient: EdgeOrient(F1_EDGE_ORIENT),
        },
            Move::F2 => ReprCube {
            corner_perm: Permutation(F2_CORNER_PERM),
            edge_perm: Permutation(F2_EDGE_PERM),
            corner_orient: CornerOrient(F2_CORNER_ORIENT),
            edge_orient: EdgeOrient(F2_EDGE_ORIENT),
        },
            Move::F3 => ReprCube {
            corner_perm: Permutation(F3_CORNER_PERM),
            edge_perm: Permutation(F3_EDGE_PERM),
            corner_orient: CornerOrient(F3_CORNER_ORIENT),
            edge_orient: EdgeOrient(F3_EDGE_ORIENT),
        },
            Move::B1 => ReprCube {
            corner_perm: Permutation(B1_CORNER_PERM),
            edge_perm: Permutation(B1_EDGE_PERM),
            corner_orient: CornerOrient(B1_CORNER_ORIENT),
            edge_orient: EdgeOrient(B1_EDGE_ORIENT),
        },
            Move::B2 => ReprCube {
            corner_perm: Permutation(B2_CORNER_PERM),
            edge_perm: Permutation(B2_EDGE_PERM),
            corner_orient: CornerOrient(B2_CORNER_ORIENT),
            edge_orient: EdgeOrient(B2_EDGE_ORIENT),
        },
            Move::B3 => ReprCube {
            corner_perm: Permutation(B3_CORNER_PERM),
            edge_perm: Permutation(B3_EDGE_PERM),
            corner_orient: CornerOrient(B3_CORNER_ORIENT),
            edge_orient: EdgeOrient(B3_EDGE_ORIENT),
        },
            Move::R1 => ReprCube {
            corner_perm: Permutation(R1_CORNER_PERM),
            edge_perm: Permutation(R1_EDGE_PERM),
            corner_orient: CornerOrient(R1_CORNER_ORIENT),
            edge_orient: EdgeOrient(R1_EDGE_ORIENT),
        },
            Move::R2 => ReprCube {
            corner_perm: Permutation(R2_CORNER_PERM),
            edge_perm: Permutation(R2_EDGE_PERM),
            corner_orient: CornerOrient(R2_CORNER_ORIENT),
            edge_orient: EdgeOrient(R2_EDGE_ORIENT),
        },
            Move::R3 => ReprCube {
            corner_perm: Permutation(R3_CORNER_PERM),
            edge_perm: Permutation(R3_EDGE_PERM),
            corner_orient: CornerOrient(R3_CORNER_ORIENT),
            edge_orient: EdgeOrient(R3_EDGE_ORIENT),
        },
            Move::L1 => ReprCube {
            corner_perm: Permutation(L1_CORNER_PERM),
            edge_perm: Permutation(L1_EDGE_PERM),
            corner_orient: CornerOrient(L1_CORNER_ORIENT),
            edge_orient: EdgeOrient(L1_EDGE_ORIENT),
        },
            Move::L2 => ReprCube {
            corner_perm: Permutation(L2_CORNER_PERM),
            edge_perm: Permutation(L2_EDGE_PERM),
            corner_orient: CornerOrient(L2_CORNER_ORIENT),
            edge_orient: EdgeOrient(L2_EDGE_ORIENT),
        },
            Move::L3 => ReprCube {
            corner_perm: Permutation(L3_CORNER_PERM),
            edge_perm: Permutation(L3_EDGE_PERM),
            corner_orient: CornerOrient(L3_CORNER_ORIENT),
            edge_orient: EdgeOrient(L3_EDGE_ORIENT),
        },
        }
    }

    /// The cube that a single phase 2 move makes of the solved cube.
    pub fn from_phase_2_move(value: Phase2Move) -> (r: Self)
        ensures
            r@ == move_state(phase_2_as_move(value)),
    {
        Self::from_move(Move::from_phase_2(value))
    }

    /// The left-right mirror as far as a cube state holds it: each piece exchanged with its
    /// mirror image, twists and flips untouched.
    pub fn s_lr2_partial() -> (r: Self)
        ensures
            r@ == s_lr2_state(),
    {
        ReprCube {
            corner_perm: Permutation(S_LR2_PARTIAL_CORNER_PERM),
            edge_perm: Permutation(S_LR2_PARTIAL_EDGE_PERM),
            corner_orient: CornerOrient(S_LR2_PARTIAL_CORNER_ORIENT),
            edge_orient: EdgeOrient(S_LR2_PARTIAL_EDGE_ORIENT),
        }
    }

    /// The half turn of the whole cube about the F axis.
    pub fn s_f2() -> (r: Self)
        ensures
            r@ == s_f2_state(),
    {
        ReprCube {
            corner_perm: Permutation(S_F2_CORNER_PERM),
            edge_perm: Permutation(S_F2_EDGE_PERM),
            corner_orient: CornerOrient(S_F2_CORNER_ORIENT),
            edge_orient: EdgeOrient(S_F2_EDGE_ORIENT),
        }
    }

    /// `k` quarter turns of the whole cube about the U axis.
    pub fn s_u4(k: u8) -> (r: Self)
        requires
            1 <= k <= 3,
        ensures
            r@ == s_u4_state(k as int),
    {
        if k == 1 {
            ReprCube {
            corner_perm: Permutation(S_U4_1_CORNER_PERM),
            edge_perm: Permutation(S_U4_1_EDGE_PERM),
            corner_orient: CornerOrient(S_U4_1_CORNER_ORIENT),
            edge_orient: EdgeOrient(S_U4_1_EDGE_ORIENT),
        }
        } else if k == 2 {
            ReprCube {
            corner_perm: Permutation(S_U4_2_CORNER_PERM),
            edge_perm: Permutation(S_U4_2_EDGE_PERM),
            corner_orient: CornerOrient(S_U4_2_CORNER_ORIENT),
            edge_orient: EdgeOrient(S_U4_2_EDGE_ORIENT),
        }
        } else {
            ReprCube {
            corner_perm: Permutation(S_U4_3_CORNER_PERM),
            edge_perm: Permutation(S_U4_3_EDGE_PERM),
            corner_orient: CornerOrient(S_U4_3_CORNER_ORIENT),
            edge_orient: EdgeOrient(S_U4_3_EDGE_ORIENT),
        }
        }
    }

    /// Two cubes are the same.
    pub fn const_eq(self, other: Self) -> (r: bool)
        ensures
            r == (self@ == other@),
    {
        let mut i: usize = 0;
        while i < 8
            invariant
                i <= 8,
                forall|k: int| 0 <= k < i ==> self.corner_perm.0@[k] == other.corner_perm.0@[k]
                    && self.corner_orient.0@[k] == other.corner_orient.0@[k],
            decreases 8 - i,
        {
            if self.corner_orient.0[i] != other.corner_orient.0[i] {
                return false;
            }
            if self.corner_perm.0[i] != other.corner_perm.0[i] {
                return false;
            }
            i += 1;
        }
        let mut i: usize = 0;
        while i < 12
            invariant
                i <= 12,
                forall|k: int| 0 <= k < 8 ==> self.corner_perm.0@[k] == other.corner_perm.0@[k]
                    && self.corner_orient.0@[k] == other.corner_orient.0@[k],
                forall|k: int| 0 <= k < i ==> self.edge_perm.0@[k] == other.edge_perm.0@[k]
                    && self.edge_orient.0@[k] == other.edge_orient.0@[k],
            decreases 12 - i,
        {
            if self.edge_orient.0[i] != other.edge_orient.0[i] {
                return false;
            }
            if self.edge_perm.0[i] != other.edge_perm.0[i] {
                return false;
            }
            i += 1;
        }
        assert(self@ =~= other@);
        true
    }

    /// Determine if the cube can be reached from the solved cube by face turns.
    pub fn is_valid(self) -> (r: bool)
        ensures
            r == state_valid(self@),
    {
        let mut sum: u8 = 0;
        let mut i: usize = 0;
        while i < 12
            invariant
                i <= 12,
                digits_below(self.edge_orient.0@, 2, i as int),
                sum as int == digit_sum(self.edge_orient.0@, i as int),
                sum <= i,
            decreases 12 - i,
        {
            if self.edge_orient.0[i] > 1 {
                return false;
            }
            sum += self.edge_orient.0[i];
            i += 1;
        }
        if sum % 2 != 0 {
            return false;
        }
        let mut sum: u8 = 0;
        let mut i: usize = 0;
        while i < 8
            invariant
                i <= 8,
                digits_below(self.corner_orient.0@, 3, i as int),
                sum as int == digit_sum(self.corner_orient.0@, i as int),
                sum <= 2 * i,
            decreases 8 - i,
        {
            if self.corner_orient.0[i] > 2 {
                return false;
            }
            sum += self.corner_orient.0[i];
            i += 1;
        }
        if sum % 3 != 0 {
            return false;
        }
        if self.edge_perm.is_odd() != self.corner_perm.is_odd() {
            return false;
        }
        true
    }

    pub fn is_solved(self) -> (r: bool)
        ensures
            r == (self@ == solved_state()),
    {
        self.const_eq(Self::solved())
    }

    /// Concatenate two cubes, as transformations from the solved cube.
    pub fn then_apply(self, other: Self) -> (r: Self)
        requires
            composable(self@, other@),
        ensures
            r@ == state_then(self@, other@),
    {
        let corner_perm = Permutation::then_apply(self.corner_perm, other.corner_perm);
        let edge_perm = Permutation::then_apply(self.edge_perm, other.edge_perm);
        let mut corner_orient = [0u8; 8];
        let mut i: usize = 0;
        while i < 8
            invariant
                i <= 8,
                composable(self@, other@),
                forall|k: int| 0 <= k < i ==> corner_orient@[k] == ((self.corner_orient.0@[other.corner_perm.0@[k] as int] + other.corner_orient.0@[k]) % 3) as u8,
            decreases 8 - i,
        {
            corner_orient[i] = (self.corner_orient.0[other.corner_perm.0[i] as usize] + other.corner_orient.0[i]) % 3;
            i += 1;
        }
        let mut edge_orient = [0u8; 12];
        let mut i: usize = 0;
        while i < 12
            invariant
                i <= 12,
                composable(self@, other@),
                forall|k: int| 0 <= k < i ==> edge_orient@[k] == ((self.edge_orient.0@[other.edge_perm.0@[k] as int] + other.edge_orient.0@[k]) % 2) as u8,
            decreases 12 - i,
        {
            edge_orient[i] = (self.edge_orient.0[other.edge_perm.0[i] as usize] + other.edge_orient.0[i]) % 2;
            i += 1;
        }
        let r = ReprCube {
            corner_perm,
            edge_perm,
            corner_orient: CornerOrient(corner_orient),
            edge_orient: EdgeOrient(edge_orient),
        };
        assert(r@ =~= state_then(self@, other@));
        r
    }

    fn conj_prefix(t: u8) -> (r: Self)
        ensures
            r@ == conj_prefix_state(t),
            state_wf(r@),
    {
        let s_lr2 = t & 0b0001;
        let s_u4 = (t & 0b0110) >> 1;
        let s_f2 = (t & 0b1000) >> 3;
        proof {
            assert(t & 1u8 == t % 2) by (bit_vector);
            assert((t & 6u8) >> 1u8 == (t / 2) % 4) by (bit_vector);
            assert((t & 8u8) >> 3u8 == (t / 8) % 2) by (bit_vector);
            lemma_constants_wf();
        }
        let mut working = Self::solved();
        if s_lr2 == 1 {
            proof {
                lemma_then_wf(working@, s_lr2_state());
            }
            working = working.then_apply(Self::s_lr2_partial());
        }
        if s_u4 != 0 {
            let k = 4 - s_u4;
            proof {
                lemma_then_wf(working@, s_u4_state(k as int));
            }
            working = working.then_apply(Self::s_u4(k));
        }
        if s_f2 == 1 {
            proof {
                lemma_then_wf(working@, s_f2_state());
            }
            working = working.then_apply(Self::s_f2());
        }
        working
    }

    fn conj_suffix(self, t: u8) -> (r: Self)
        requires
            state_wf(self@),
        ensures
            r@ == conj_suffix_state(self@, t),
            state_wf(r@),
    {
        let s_lr2 = t & 0b0001;
        let s_u4 = (t & 0b0110) >> 1;
        let s_f2 = (t & 0b1000) >> 3;
        proof {
            assert(t & 1u8 == t % 2) by (bit_vector);
            assert((t & 6u8) >> 1u8 == (t / 2) % 4) by (bit_vector);
            assert((t & 8u8) >> 3u8 == (t / 8) % 2) by (bit_vector);
            lemma_constants_wf();
        }
        let mut working = self;
        if s_f2 == 1 {
            proof {
                lemma_then_wf(working@, s_f2_state());
            }
            working = working.then_apply(Self::s_f2());
        }
        if s_u4 != 0 {
            proof {
                lemma_then_wf(working@, s_u4_state(s_u4 as int));
            }
            working = working.then_apply(Self::s_u4(s_u4));
        }
        if s_lr2 == 1 {
            proof {
                lemma_then_wf(working@, s_lr2_state());
            }
            working = working.then_apply(Self::s_lr2_partial());
            let ghost before = working@;
            let mut i: usize = 0;
            while i < 8
                invariant
                    i <= 8,
                    state_wf(before),
                    working@.corner_perm == before.corner_perm,
                    working@.edge_perm == before.edge_perm,
                    working@.edge_orient == before.edge_orient,
                    forall|k: int| 0 <= k < i ==> working.corner_orient.0@[k] == ((3 - before.corner_orient[k]) % 3) as u8,
                    forall|k: int| i <= k < 8 ==> working.corner_orient.0@[k] == before.corner_orient[k],
                decreases 8 - i,
            {
                assert((before.corner_orient[i as int] as int) < 3);
                working.corner_orient.0[i] = (3 - working.corner_orient.0[i]) % 3;
                i += 1;
            }
            assert(working@ =~= mirror_corners(before));
        }
        working
    }

    /// Conjugate by one of the subgroup transforms, generated by
    ///
    /// S_LR2^A then S_U4^B then S_F2^C for A in 0..2, B in 0..4, C in 0..2
    pub fn conjugate_by_subgroup_transform(self, transform: SubGroupTransform) -> (r: Self)
        requires
            composable(conj_prefix_state(transform.0), self@),
        ensures
            r@ == conj_state(self@, transform.0),
            state_wf(r@),
    {
        let prefix = Self::conj_prefix(transform.0);
        proof {
            lemma_composable_wf(prefix@, self@);
        }
        prefix.then_apply(self).conj_suffix(transform.0)
    }

    /// Return the inverse cube transform `T⁻¹` such that
    /// `T.then(T⁻¹) == SOLVED_CUBE` and `T⁻¹.then(T) == SOLVED_CUBE`.
    pub fn inverse(self) -> (r: Self)
        requires
            self.corner_perm.valid(),
            self.edge_perm.valid(),
        ensures
            r@ == state_inverse(self@),
    {
        proof {
            lemma_inverse_seq(self.corner_perm.0@);
            lemma_inverse_seq(self.edge_perm.0@);
        }
        let ghost cinv = inverse_seq(self.corner_perm.0@);
        let ghost einv = inverse_seq(self.edge_perm.0@);
        let mut corner_perm = [0u8; 8];
        let mut corner_orient = [0u8; 8];
        let mut j: usize = 0;
        while j < 8
            invariant
                j <= 8,
                self.corner_perm.valid(),
                forall|i: int| 0 <= i < 8 ==> cinv[#[trigger] self.corner_perm.0@[i] as int] == i,
                forall|k: int| 0 <= k < j ==> corner_perm@[#[trigger] self.corner_perm.0@[k] as int] == k,
                forall|k: int| 0 <= k < j ==> corner_orient@[#[trigger] self.corner_perm.0@[k] as int] == ((3 - self.corner_orient.0@[k] % 3) % 3) as u8,
            decreases 8 - j,
        {
            let src = self.corner_perm.0[j] as usize;
            proof {
                assert forall|k: int| 0 <= k < j implies #[trigger] self.corner_perm.0@[k] != src by {
                    assert(self.corner_perm.0@[k] != self.corner_perm.0@[j as int]);
                }
            }
            corner_perm[src] = j as u8;
            corner_orient[src] = (3 - (self.corner_orient.0[j] % 3)) % 3;
            j += 1;
        }
        let mut edge_perm = [0u8; 12];
        let mut edge_orient = [0u8; 12];
        let mut k: usize = 0;
        while k < 12
            invariant
                k <= 12,
                self.edge_perm.valid(),
                forall|i: int| 0 <= i < 12 ==> einv[#[trigger] self.edge_perm.0@[i] as int] == i,
                forall|m: int| 0 <= m < k ==> edge_perm@[#[trigger] self.edge_perm.0@[m] as int] == m,
                forall|m: int| 0 <= m < k ==> edge_orient@[#[trigger] self.edge_perm.0@[m] as int] == ((2 - self.edge_orient.0@[m] % 2) % 2) as u8,
            decreases 12 - k,
        {
            let src = self.edge_perm.0[k] as usize;
            proof {
                assert forall|m: int| 0 <= m < k implies #[trigger] self.edge_perm.0@[m] != src by {
                    assert(self.edge_perm.0@[m] != self.edge_perm.0@[k as int]);
                }
            }
            edge_perm[src] = k as u8;
            edge_orient[src] = (2 - (self.edge_orient.0[k] % 2)) % 2;
            k += 1;
        }
        proof {
            assert forall|v: int| 0 <= v < 8 implies corner_perm@[v] == cinv[v] && corner_orient@[v] == ((3 - self.corner_orient.0@[cinv[v] as int] % 3) % 3) as u8 by {
                let i = cinv[v] as int;
                assert(self.corner_perm.0@[i] == v);
            }
            assert forall|v: int| 0 <= v < 12 implies edge_perm@[v] == einv[v] && edge_orient@[v] == ((2 - self.edge_orient.0@[einv[v] as int] % 2) % 2) as u8 by {
                let i = einv[v] as int;
                assert(self.edge_perm.0@[i] == v);
            }
        }
        let r = ReprCube {
            corner_perm: Permutation(corner_perm),
            edge_perm: Permutation(edge_perm),
            corner_orient: CornerOrient(corner_orient),
            edge_orient: EdgeOrient(edge_orient),
        };
        assert(r@ =~= state_inverse(self@));
        r
    }
}


impl ReprCube {
    /// The cube conjugated by each of the fifteen nontrivial subgroup transforms, in order.
    pub fn all_nontrivial_subgroup_conjugations(self) -> (r: Vec<(SubGroupTransform, Self)>)
        requires
            conjugations_composable(self@),
        ensures
            r@.len() == 15,
            forall|i: int|
                0 <= i < 15 ==> (#[trigger] r@[i]).0.0 == i + 1 && r@[i].1@ == conj_state(self@, (i + 1) as u8),
    {
        let mut out: Vec<(SubGroupTransform, Self)> = Vec::new();
        let mut t: u8 = 1;
        while t < 16
            invariant
                1 <= t <= 16,
                conjugations_composable(self@),
                out@.len() == t - 1,
                forall|i: int|
                    0 <= i < t - 1 ==> (#[trigger] out@[i]).0.0 == i + 1 && out@[i].1@ == conj_state(self@, (i + 1) as u8),
            decreases 16 - t,
        {
            let transform = SubGroupTransform(t);
            out.push((transform, self.conjugate_by_subgroup_transform(transform)));
            t += 1;
        }
        out
    }

    /// Each face turn with the cube it leads to.
    pub fn all_phase_1_adjacent(self) -> (r: Vec<(Move, Self)>)
        requires
            turns_composable(self@),
        ensures
            r@.len() == 18,
            forall|i: int|
                0 <= i < 18 ==> (#[trigger] r@[i]).0 == move_at(i) && r@[i].1@ == state_then(self@, move_state(move_at(i))),
    {
        let moves = Move::all_iter();
        let mut out: Vec<(Move, Self)> = Vec::new();
        let mut i: usize = 0;
        while i < moves.len()
            invariant
                i <= moves@.len() == 18,
                turns_composable(self@),
                forall|k: int| 0 <= k < 18 ==> moves@[k] == move_at(k),
                out@.len() == i,
                forall|k: int|
                    0 <= k < i ==> (#[trigger] out@[k]).0 == move_at(k) && out@[k].1@ == state_then(self@, move_state(move_at(k))),
            decreases 18 - i,
        {
            let m = moves[i];
            proof {
                assert(composable(self@, move_state(m)));
            }
            out.push((m, self.then_apply(Self::from_move(m))));
            i += 1;
        }
        out
    }

    /// Each phase 2 move with the cube it leads to.
    pub fn all_phase_2_adjacent(self) -> (r: Vec<(Phase2Move, Self)>)
        requires
            phase_2_turns_composable(self@),
        ensures
            r@.len() == 10,
            forall|i: int|
                0 <= i < 10 ==> (#[trigger] r@[i]).0 == phase_2_at(i) && r@[i].1@ == state_then(
                    self@,
                    move_state(phase_2_as_move(phase_2_at(i))),
                ),
    {
        let moves = Phase2Move::all_iter();
        let mut out: Vec<(Phase2Move, Self)> = Vec::new();
        let mut i: usize = 0;
        while i < moves.len()
            invariant
                i <= moves@.len() == 10,
                phase_2_turns_composable(self@),
                forall|k: int| 0 <= k < 10 ==> moves@[k] == phase_2_at(k),
                out@.len() == i,
                forall|k: int|
                    0 <= k < i ==> (#[trigger] out@[k]).0 == phase_2_at(k) && out@[k].1@ == state_then(
                        self@,
                        move_state(phase_2_as_move(phase_2_at(k))),
                    ),
            decreases 10 - i,
        {
            let m = moves[i];
            proof {
                assert(composable(self@, move_state(phase_2_as_move(m))));
            }
            out.push((m, self.then_apply(Self::from_phase_2_move(m))));
            i += 1;
        }
        out
    }

    /// The 18 cubes one face turn away, followed by the 15 nontrivial conjugations: exactly
    /// 18 + 15 = 33 items.
    pub fn phase_1_move_table_entry_cubes(self) -> (r: Vec<Self>)
        requires
            turns_composable(self@),
            conjugations_composable(self@),
        ensures
            r@.len() == 33,
            forall|i: int| 0 <= i < 18 ==> (#[trigger] r@[i])@ == state_then(self@, move_state(move_at(i))),
            forall|i: int| 18 <= i < 33 ==> (#[trigger] r@[i])@ == conj_state(self@, (i - 17) as u8),
    {
        let adjacent = self.all_phase_1_adjacent();
        let conjugations = self.all_nontrivial_subgroup_conjugations();
        let mut out: Vec<Self> = Vec::new();
        let mut i: usize = 0;
        while i < 18
            invariant
                i <= 18,
                adjacent@.len() == 18,
                forall|k: int|
                    0 <= k < 18 ==> (#[trigger] adjacent@[k]).1@ == state_then(self@, move_state(move_at(k))),
                out@.len() == i,
                forall|k: int| 0 <= k < i ==> (#[trigger] out@[k])@ == state_then(self@, move_state(move_at(k))),
            decreases 18 - i,
        {
            out.push(adjacent[i].1);
            i += 1;
        }
        let mut j: usize = 0;
        while j < 15
            invariant
                j <= 15,
                conjugations@.len() == 15,
                forall|k: int|
                    0 <= k < 15 ==> (#[trigger] conjugations@[k]).1@ == conj_state(self@, (k + 1) as u8),
                out@.len() == 18 + j,
                forall|k: int| 0 <= k < 18 ==> (#[trigger] out@[k])@ == state_then(self@, move_state(move_at(k))),
                forall|k: int| 18 <= k < 18 + j ==> (#[trigger] out@[k])@ == conj_state(self@, (k - 17) as u8),
            decreases 15 - j,
        {
            out.push(conjugations[j].1);
            j += 1;
        }
        out
    }

    /// The 10 cubes one phase 2 move away, followed by the 15 nontrivial conjugations:
    /// exactly 10 + 15 = 25 items.
    pub fn phase_2_move_table_entry_cubes(self) -> (r: Vec<Self>)
        requires
            phase_2_turns_composable(self@),
            conjugations_composable(self@),
        ensures
            r@.len() == 25,
            forall|i: int|
                0 <= i < 10 ==> (#[trigger] r@[i])@ == state_then(self@, move_state(phase_2_as_move(phase_2_at(i)))),
            forall|i: int| 10 <= i < 25 ==> (#[trigger] r@[i])@ == conj_state(self@, (i - 9) as u8),
    {
        let adjacent = self.all_phase_2_adjacent();
        let conjugations = self.all_nontrivial_subgroup_conjugations();
        let mut out: Vec<Self> = Vec::new();
        let mut i: usize = 0;
        while i < 10
            invariant
                i <= 10,
                adjacent@.len() == 10,
                forall|k: int|
                    0 <= k < 10 ==> (#[trigger] adjacent@[k]).1@ == state_then(
                        self@,
                        move_state(phase_2_as_move(phase_2_at(k))),
                    ),
                out@.len() == i,
                forall|k: int|
                    0 <= k < i ==> (#[trigger] out@[k])@ == state_then(self@, move_state(phase_2_as_move(phase_2_at(k)))),
            decreases 10 - i,
        {
            out.push(adjacent[i].1);
            i += 1;
        }
        let mut j: usize = 0;
        while j < 15
            invariant
                j <= 15,
                conjugations@.len() == 15,
                forall|k: int|
                    0 <= k < 15 ==> (#[trigger] conjugations@[k]).1@ == conj_state(self@, (k + 1) as u8),
                out@.len() == 10 + j,
                forall|k: int|
                    0 <= k < 10 ==> (#[trigger] out@[k])@ == state_then(self@, move_state(phase_2_as_move(phase_2_at(k)))),
                forall|k: int| 10 <= k < 10 + j ==> (#[trigger] out@[k])@ == conj_state(self@, (k - 9) as u8),
            decreases 15 - j,
        {
            out.push(conjugations[j].1);
            j += 1;
        }
        out
    }

    /// The three phase 1 raw coordinates of the cube.
    pub fn into_phase_1_raw_coords(self) -> (r: (CornerOrientCoord, EdgeOrientCoord, EdgeGroupCoord))
        requires
            horner(self@.corner_orient, 3, 7) <= u16::MAX,
            horner(self@.edge_orient, 2, 11) <= u16::MAX,
        ensures
            r.0@ == horner(self@.corner_orient, 3, 7),
            r.1@ == horner(self@.edge_orient, 2, 11),
            r.2@ == combo_rank(e_slots(self@.edge_perm), 12, 3),
    {
        (
            CornerOrientCoord::from_cubie(self),
            EdgeOrientCoord::from_cubie(self),
            EdgeGroupCoord::from_cubie(self),
        )
    }
}

impl Move {
    /// The face turn whose cube this is, or the cube back when it is none of them.
    pub fn try_from_cube(value: ReprCube) -> (r: Result<Move, ReprCube>)
        ensures
            match r {
                Ok(m) => move_state(m) == value@,
                Err(v) => v == value && forall|m: Move| move_state(m) != value@,
            },
    {
        let moves = Move::all_iter();
        let mut i: usize = 0;
        while i < moves.len()
            invariant
                i <= moves@.len() == 18,
                forall|k: int| 0 <= k < 18 ==> moves@[k] == move_at(k),
                forall|k: int| 0 <= k < i ==> move_state(#[trigger] move_at(k)) != value@,
            decreases 18 - i,
        {
            let m = moves[i];
            if ReprCube::from_move(m).const_eq(value) {
                return Ok(m);
            }
            i += 1;
        }
        proof {
            assert forall|m: Move| move_state(m) != value@ by {
                assert(move_at(move_index(m) as int) == m);
            }
        }
        Err(value)
    }
}

impl Phase2Move {
    /// The phase 2 move whose cube this is, or the cube back when it is none of them.
    pub fn try_from_cube(value: ReprCube) -> (r: Result<Phase2Move, ReprCube>)
        ensures
            match r {
                Ok(m) => move_state(phase_2_as_move(m)) == value@,
                Err(v) => v == value && forall|m: Phase2Move| move_state(phase_2_as_move(m)) != value@,
            },
    {
        let moves = Phase2Move::all_iter();
        let mut i: usize = 0;
        while i < moves.len()
            invariant
                i <= moves@.len() == 10,
                forall|k: int| 0 <= k < 10 ==> moves@[k] == phase_2_at(k),
                forall|k: int| 0 <= k < i ==> move_state(phase_2_as_move(#[trigger] phase_2_at(k))) != value@,
            decreases 10 - i,
        {
            let m = moves[i];
            if ReprCube::from_phase_2_move(m).const_eq(value) {
                return Ok(m);
            }
            i += 1;
        }
        proof {
            assert forall|m: Phase2Move| move_state(phase_2_as_move(m)) != value@ by {
                assert(phase_2_at(phase_2_index(m) as int) == m);
            }
        }
        Err(value)
    }
}

} // verus!
