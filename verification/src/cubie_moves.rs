use vstd::prelude::*;
use crate::cubie_repr::{
    solved_bytes, corner_orient_offset, corner_perm_offset, edge_orient_offset, edge_perm_offset, CubieRepr,
};
use crate::moves::{phase_2_as_move, Move, Phase2Move};
use crate::move_powers::{counter_of, half_of, quarter_of};
use crate::permutation_math::permutation::is_permutation;

verus! {

// Where each slot draws its piece from under a clockwise quarter turn of each face.
pub const U1_CORNER_INDEX: [u8; 8] = [2, 0, 3, 1, 4, 5, 6, 7];
pub const D1_CORNER_INDEX: [u8; 8] = [0, 1, 2, 3, 5, 7, 4, 6];
pub const F1_CORNER_INDEX: [u8; 8] = [1, 5, 2, 3, 0, 4, 6, 7];
pub const B1_CORNER_INDEX: [u8; 8] = [0, 1, 6, 2, 4, 5, 7, 3];
pub const R1_CORNER_INDEX: [u8; 8] = [4, 1, 0, 3, 6, 5, 2, 7];
pub const L1_CORNER_INDEX: [u8; 8] = [0, 3, 2, 7, 4, 1, 6, 5];

// The twists added to the corners after a quarter turn of the side faces.
pub const F_CORNER_ROT: [u8; 8] = [1, 2, 0, 0, 2, 1, 0, 0];
pub const B_CORNER_ROT: [u8; 8] = [0, 0, 2, 1, 0, 0, 1, 2];
pub const R_CORNER_ROT: [u8; 8] = [2, 0, 1, 0, 1, 0, 2, 0];
pub const L_CORNER_ROT: [u8; 8] = [0, 1, 0, 2, 0, 2, 0, 1];

// Edges: UF, UB, DF, DB, FR, FL, BR, BL, UR, UL, DR, DL.
pub const U1_EDGE_INDEX: [u8; 12] = [8, 9, 2, 3, 4, 5, 6, 7, 1, 0, 10, 11];
pub const D1_EDGE_INDEX: [u8; 12] = [0, 1, 11, 10, 4, 5, 6, 7, 8, 9, 2, 3];
pub const F1_EDGE_INDEX: [u8; 12] = [5, 1, 4, 3, 0, 2, 6, 7, 8, 9, 10, 11];
pub const B1_EDGE_INDEX: [u8; 12] = [0, 6, 2, 7, 4, 5, 3, 1, 8, 9, 10, 11];
pub const R1_EDGE_INDEX: [u8; 12] = [0, 1, 2, 3, 10, 5, 8, 7, 4, 9, 6, 11];
pub const L1_EDGE_INDEX: [u8; 12] = [0, 1, 2, 3, 4, 9, 6, 11, 8, 7, 10, 5];

// The flips added to the edges after a quarter turn of F or B; only the first eight edges
// ever change orientation.
pub const F_EDGE_FLIP: [u8; 8] = [1, 0, 1, 0, 1, 1, 0, 0];
pub const B_EDGE_FLIP: [u8; 8] = [0, 1, 0, 1, 0, 0, 1, 1];

// The modulus of each orientation byte: three for corners, two for edges.
pub const FULL_REM: [u8; 20] = [3, 3, 3, 3, 3, 3, 3, 3, 2, 2, 2, 2, 2, 2, 2, 2, 2, 2, 2, 2];

/// The 40 byte indices of a cube that draws its corners from `ci` and its edges from `ei`:
/// each part's slot `k` reads the same part at slot `ci[k]` or `ei[k]`.
pub open spec fn combined(ci: Seq<u8>, ei: Seq<u8>) -> Seq<usize> {
    Seq::new(
        40,
        |i: int|
            if i < 8 {
                ci[i] as usize
            } else if i < 16 {
                (ci[i - 8] + 8) as usize
            } else if i < 28 {
                (ei[i - 16] + 16) as usize
            } else {
                (ei[i - 28] + 28) as usize
            },
    )
}

/// Slot `i` reads `base` at `next[i]`.
pub open spec fn index_then(base: Seq<usize>, next: Seq<usize>) -> Seq<usize> {
    Seq::new(next.len(), |i: int| base[next[i] as int])
}

/// Every byte reads the byte its index names.
pub open spec fn gather_all(buf: Seq<u8>, idx: Seq<usize>) -> Seq<u8> {
    Seq::new(40, |i: int| buf[idx[i] as int])
}

/// A masked gather over the 40 bytes padded with zeros to 64: an enabled slot whose index
/// lies within the padded bytes reads that byte, any other slot keeps its own.
pub open spec fn gathered(buf: Seq<u8>, mask: Seq<bool>, idx: Seq<usize>) -> Seq<u8> {
    Seq::new(
        40,
        |i: int|
            if mask[i] && idx[i] < 64 {
                if idx[i] < 40 {
                    buf[idx[i] as int]
                } else {
                    0u8
                }
            } else {
                buf[i]
            },
    )
}

/// The modulus of orientation byte `i`: three for the corner twists, two for the edge flips.
pub open spec fn orient_modulus(i: int) -> int {
    if i < 16 {
        3
    } else {
        2
    }
}

/// The orientation bytes from byte 8 on, as many as `corr` has, with `corr` added (in a byte)
/// and reduced by their modulus; the other bytes as they are.
pub open spec fn orient_corrected(buf: Seq<u8>, corr: Seq<u8>) -> Seq<u8> {
    Seq::new(
        40,
        |i: int|
            if 8 <= i < 8 + corr.len() {
                (((buf[i] + corr[i - 8]) % 256) % orient_modulus(i)) as u8
            } else {
                buf[i]
            },
    )
}

/// The corner and edge indices of a clockwise quarter turn of the face that `m` turns.
pub open spec fn quarter_turn_indices(m: Move) -> (Seq<u8>, Seq<u8>) {
    match m {
        Move::U1 | Move::U2 | Move::U3 => (U1_CORNER_INDEX@, U1_EDGE_INDEX@),
        Move::D1 | Move::D2 | Move::D3 => (D1_CORNER_INDEX@, D1_EDGE_INDEX@),
        Move::F1 | Move::F2 | Move::F3 => (F1_CORNER_INDEX@, F1_EDGE_INDEX@),
        Move::B1 | Move::B2 | Move::B3 => (B1_CORNER_INDEX@, B1_EDGE_INDEX@),
        Move::R1 | Move::R2 | Move::R3 => (R1_CORNER_INDEX@, R1_EDGE_INDEX@),
        Move::L1 | Move::L2 | Move::L3 => (L1_CORNER_INDEX@, L1_EDGE_INDEX@),
    }
}

/// The byte indices of a clockwise quarter turn of the face that `m` turns.
pub open spec fn quarter_turn(m: Move) -> Seq<usize> {
    combined(quarter_turn_indices(m).0, quarter_turn_indices(m).1)
}

/// How many clockwise quarter turns `m` is.
pub open spec fn quarter_turns(m: Move) -> int {
    match m {
        Move::U1 | Move::D1 | Move::F1 | Move::B1 | Move::R1 | Move::L1 => 1,
        Move::U2 | Move::D2 | Move::F2 | Move::B2 | Move::R2 | Move::L2 => 2,
        _ => 3,
    }
}

/// The byte indices of `m`: its quarter turn taken once, twice or three times.
pub open spec fn move_indices(m: Move) -> Seq<usize> {
    let q = quarter_turn(m);
    if quarter_turns(m) == 1 {
        q
    } else if quarter_turns(m) == 2 {
        index_then(q, q)
    } else {
        index_then(index_then(q, q), q)
    }
}

/// The orientation change of `m`, added to the orientation bytes from byte 8 on: twists and
/// flips for a quarter turn of F or B, twists for a quarter turn of R or L, none otherwise.
pub open spec fn move_correction(m: Move) -> Seq<u8> {
    match m {
        Move::F1 | Move::F3 => F_CORNER_ROT@ + F_EDGE_FLIP@,
        Move::B1 | Move::B3 => B_CORNER_ROT@ + B_EDGE_FLIP@,
        Move::R1 | Move::R3 => R_CORNER_ROT@,
        Move::L1 | Move::L3 => L_CORNER_ROT@,
        _ => Seq::empty(),
    }
}

/// The 40 bytes of a cube after move `m`.
pub open spec fn after_move(buf: Seq<u8>, m: Move) -> Seq<u8> {
    orient_corrected(gather_all(buf, move_indices(m)), move_correction(m))
}

/// The byte indices of a cube that draws its corners from `corner_index` and its edges from
/// `edge_index`.
pub fn combined_index(corner_index: &[u8; 8], edge_index: &[u8; 12]) -> (r: [usize; 40])
    ensures
        r@ == combined(corner_index@, edge_index@),
{
    let mut buf = [0usize; 40];
    let corner_perm_offset = corner_perm_offset();
    let corner_orient_offset = corner_orient_offset();
    let edge_perm_offset = edge_perm_offset();
    let edge_orient_offset = edge_orient_offset();
    let mut i: usize = 0;
    while i < 8
        invariant
            i <= 8,
            corner_perm_offset == 0,
            corner_orient_offset == 8,
            forall|k: int| 0 <= k < i ==> buf@[k] == corner_index@[k] as usize,
        decreases 8 - i,
    {
        buf[i + corner_perm_offset] = (corner_index[i] as usize) + corner_perm_offset;
        i += 1;
    }
    let mut i: usize = 0;
    while i < 8
        invariant
            i <= 8,
            corner_orient_offset == 8,
            forall|k: int| 0 <= k < 8 ==> buf@[k] == corner_index@[k] as usize,
            forall|k: int| 8 <= k < 8 + i ==> buf@[k] == (corner_index@[k - 8] + 8) as usize,
        decreases 8 - i,
    {
        buf[i + corner_orient_offset] = (corner_index[i] as usize) + corner_orient_offset;
        i += 1;
    }
    let mut i: usize = 0;
    while i < 12
        invariant
            i <= 12,
            edge_perm_offset == 28,
            forall|k: int| 0 <= k < 8 ==> buf@[k] == corner_index@[k] as usize,
            forall|k: int| 8 <= k < 16 ==> buf@[k] == (corner_index@[k - 8] + 8) as usize,
            forall|k: int| 28 <= k < 28 + i ==> buf@[k] == (edge_index@[k - 28] + 28) as usize,
        decreases 12 - i,
    {
        buf[i + edge_perm_offset] = (edge_index[i] as usize) + edge_perm_offset;
        i += 1;
    }
    let mut i: usize = 0;
    while i < 12
        invariant
            i <= 12,
            edge_orient_offset == 16,
            forall|k: int| 0 <= k < 8 ==> buf@[k] == corner_index@[k] as usize,
            forall|k: int| 8 <= k < 16 ==> buf@[k] == (corner_index@[k - 8] + 8) as usize,
            forall|k: int| 16 <= k < 16 + i ==> buf@[k] == (edge_index@[k - 16] + 16) as usize,
            forall|k: int| 28 <= k < 40 ==> buf@[k] == (edge_index@[k - 28] + 28) as usize,
        decreases 12 - i,
    {
        buf[i + edge_orient_offset] = (edge_index[i] as usize) + edge_orient_offset;
        i += 1;
    }
    assert(buf@ =~= combined(corner_index@, edge_index@));
    buf
}

/// Which of the 40 bytes an index moves.
pub fn combined_mask(index: &[usize; 40]) -> (r: [bool; 40])
    ensures
        forall|i: int| 0 <= i < 40 ==> r@[i] == (i != index@[i]),
{
    let mut mask = [true; 40];
    let mut i: usize = 0;
    while i < 40
        invariant
            i <= 40,
            forall|k: int| 0 <= k < i ==> mask@[k] == (k != index@[k]),
        decreases 40 - i,
    {
        mask[i] = i != index[i];
        i += 1;
    }
    mask
}

/// The corner twists followed by the flips of the first eight edges.
pub fn combined_orient(corner_rot: &[u8; 8], edge_flip: &[u8; 8]) -> (r: [u8; 16])
    ensures
        r@ == corner_rot@ + edge_flip@,
{
    let mut buf = [0u8; 16];
    let mut i: usize = 0;
    while i < 8
        invariant
            i <= 8,
            forall|k: int| 0 <= k < i ==> buf@[k] == corner_rot@[k],
        decreases 8 - i,
    {
        buf[i] = corner_rot[i];
        i += 1;
    }
    while i < 16
        invariant
            8 <= i <= 16,
            forall|k: int| 0 <= k < 8 ==> buf@[k] == corner_rot@[k],
            forall|k: int| 8 <= k < i ==> buf@[k] == edge_flip@[k - 8],
        decreases 16 - i,
    {
        buf[i] = edge_flip[i - 8];
        i += 1;
    }
    assert(buf@ =~= corner_rot@ + edge_flip@);
    buf
}

/// Slot `i` of the result reads `base` at `next[i]`.
pub fn compose<const N: usize>(base: &[usize; N], next: &[usize; N]) -> (r: [usize; N])
    requires
        forall|i: int| 0 <= i < N ==> next@[i] < N,
    ensures
        r@ == index_then(base@, next@),
{
    let mut x = *base;
    let mut i: usize = 0;
    while i < N
        invariant
            i <= N,
            x@.len() == N,
            base@.len() == N,
            next@.len() == N,
            forall|k: int| 0 <= k < N ==> next@[k] < N,
            forall|k: int| 0 <= k < i ==> x@[k] == base@[next@[k] as int],
        decreases N - i,
    {
        x[i] = base[next[i]];
        i += 1;
    }
    assert(x@ =~= index_then(base@, next@));
    x
}

/// The 40 values followed by `default` up to 64.
pub fn pad<T: Copy>(mask: &[T; 40], default: T) -> (r: [T; 64])
    ensures
        forall|i: int| 0 <= i < 40 ==> r@[i] == mask@[i],
        forall|i: int| 40 <= i < 64 ==> r@[i] == default,
{
    let mut buf = [default; 64];
    let mut i: usize = 0;
    while i < 40
        invariant
            i <= 40,
            forall|k: int| 0 <= k < i ==> buf@[k] == mask@[k],
            forall|k: int| 40 <= k < 64 ==> buf@[k] == default,
        decreases 40 - i,
    {
        buf[i] = mask[i];
        i += 1;
    }
    buf
}

/// The masked gather of `buf` by `idx`.
pub(crate) fn gather_select(buf: &[u8; 40], mask: &[bool; 40], idx: &[usize; 40]) -> (r: [u8; 40])
    ensures
        r@ == gathered(buf@, mask@, idx@),
{
    let mut out = *buf;
    let mut i: usize = 0;
    while i < 40
        invariant
            i <= 40,
            forall|k: int| 0 <= k < i ==> out@[k] == gathered(buf@, mask@, idx@)[k],
            forall|k: int| i <= k < 40 ==> out@[k] == buf@[k],
        decreases 40 - i,
    {
        if mask[i] && idx[i] < 64 {
            out[i] = if idx[i] < 40 {
                buf[idx[i]]
            } else {
                0
            };
        }
        i += 1;
    }
    assert(out@ =~= gathered(buf@, mask@, idx@));
    out
}

/// Add `corr` to the orientation bytes from byte 8 on and reduce each by its modulus.
fn correct_orient(buf: &mut [u8; 40], corr: &[u8])
    requires
        corr@.len() <= 20,
    ensures
        final(buf)@ == orient_corrected(old(buf)@, corr@),
{
    let ghost start = buf@;
    let mut i: usize = 0;
    while i < corr.len()
        invariant
            i <= corr@.len() <= 20,
            buf@.len() == 40,
            forall|k: int| 0 <= k < 8 + i ==> buf@[k] == orient_corrected(start, corr@)[k],
            forall|k: int| 8 + i <= k < 40 ==> buf@[k] == start[k],
        decreases corr@.len() - i,
    {
        let rem = FULL_REM[i];
        proof {
            assert(FULL_REM@ =~= seq![3u8, 3, 3, 3, 3, 3, 3, 3, 2, 2, 2, 2, 2, 2, 2, 2, 2, 2, 2, 2]);
            assert(rem == orient_modulus(8 + i));
        }
        buf[8 + i] = buf[8 + i].wrapping_add(corr[i]) % rem;
        i += 1;
    }
    assert(buf@ =~= orient_corrected(start, corr@));
}

/// Facts about the quarter turn tables: every corner index is below 8 and every edge index
/// below 12.
proof fn lemma_quarter_turn_in_range(m: Move)
    ensures
        quarter_turn_indices(m).0.len() == 8,
        quarter_turn_indices(m).1.len() == 12,
        forall|k: int| 0 <= k < 8 ==> #[trigger] quarter_turn_indices(m).0[k] < 8,
        forall|k: int| 0 <= k < 12 ==> #[trigger] quarter_turn_indices(m).1[k] < 12,
        forall|k: int| 0 <= k < 40 ==> #[trigger] quarter_turn(m)[k] < 40,
{
    assert(U1_CORNER_INDEX@ =~= seq![2u8, 0, 3, 1, 4, 5, 6, 7]);
    assert(D1_CORNER_INDEX@ =~= seq![0u8, 1, 2, 3, 5, 7, 4, 6]);
    assert(F1_CORNER_INDEX@ =~= seq![1u8, 5, 2, 3, 0, 4, 6, 7]);
    assert(B1_CORNER_INDEX@ =~= seq![0u8, 1, 6, 2, 4, 5, 7, 3]);
    assert(R1_CORNER_INDEX@ =~= seq![4u8, 1, 0, 3, 6, 5, 2, 7]);
    assert(L1_CORNER_INDEX@ =~= seq![0u8, 3, 2, 7, 4, 1, 6, 5]);
    assert(U1_EDGE_INDEX@ =~= seq![8u8, 9, 2, 3, 4, 5, 6, 7, 1, 0, 10, 11]);
    assert(D1_EDGE_INDEX@ =~= seq![0u8, 1, 11, 10, 4, 5, 6, 7, 8, 9, 2, 3]);
    assert(F1_EDGE_INDEX@ =~= seq![5u8, 1, 4, 3, 0, 2, 6, 7, 8, 9, 10, 11]);
    assert(B1_EDGE_INDEX@ =~= seq![0u8, 6, 2, 7, 4, 5, 3, 1, 8, 9, 10, 11]);
    assert(R1_EDGE_INDEX@ =~= seq![0u8, 1, 2, 3, 10, 5, 8, 7, 4, 9, 6, 11]);
    assert(L1_EDGE_INDEX@ =~= seq![0u8, 1, 2, 3, 4, 9, 6, 11, 8, 7, 10, 5]);
    let (ci, ei) = quarter_turn_indices(m);
    assert forall|k: int| 0 <= k < 40 implies #[trigger] quarter_turn(m)[k] < 40 by {
        if k < 8 {
            assert(ci[k] < 8);
        } else if k < 16 {
            assert(ci[k - 8] < 8);
        } else if k < 28 {
            assert(ei[k - 16] < 12);
        } else {
            assert(ei[k - 28] < 12);
        }
    }
}

/// Under the mask of a quarter turn, the disabled slots are those that the turn, and so any
/// number of it, leaves in place; and all its indices stay within the 40 bytes.
proof fn lemma_mask_irrelevant(buf: Seq<u8>, mask: Seq<bool>, m: Move)
    requires
        buf.len() == 40,
        mask.len() == 40,
        forall|i: int| 0 <= i < 40 ==> mask[i] == (i != quarter_turn(m)[i]),
    ensures
        forall|k: int| 0 <= k < 40 ==> #[trigger] move_indices(m)[k] < 40,
        gathered(buf, mask, move_indices(m)) == gather_all(buf, move_indices(m)),
{
    lemma_quarter_turn_in_range(m);
    let q = quarter_turn(m);
    let idx = move_indices(m);
    assert forall|k: int| 0 <= k < 40 implies #[trigger] idx[k] < 40 && (!mask[k] ==> idx[k] == k) by {
        assert(q[k] < 40);
        assert(q[q[k] as int] < 40);
        if !mask[k] {
            assert(q[k] == k);
        }
    }
    assert(gathered(buf, mask, idx) =~= gather_all(buf, idx));
}

/// `q` sends the block `lo..hi` into itself without two slots meeting.
pub open spec fn block_perm(q: Seq<usize>, lo: int, hi: int) -> bool {
    &&& forall|k: int| lo <= k < hi ==> lo <= #[trigger] q[k] < hi
    &&& forall|j: int, k: int| lo <= j < hi && lo <= k < hi && j != k ==> #[trigger] q[j] != #[trigger] q[k]
}

/// A block that `q` permutes, `q` taken twice or three times permutes too.
proof fn lemma_block_perm_powers(q: Seq<usize>, lo: int, hi: int)
    requires
        q.len() == 40,
        0 <= lo <= hi <= 40,
        block_perm(q, lo, hi),
    ensures
        block_perm(index_then(q, q), lo, hi),
        block_perm(index_then(index_then(q, q), q), lo, hi),
{
    let q2 = index_then(q, q);
    assert forall|k: int| lo <= k < hi implies lo <= #[trigger] q2[k] < hi by {
        assert(lo <= q[k] < hi);
    }
    assert forall|j: int, k: int| lo <= j < hi && lo <= k < hi && j != k implies #[trigger] q2[j] != #[trigger] q2[k] by {
        assert(q[j] != q[k]);
        assert(q[q[j] as int] != q[q[k] as int]);
    }
    let q3 = index_then(q2, q);
    assert forall|k: int| lo <= k < hi implies lo <= #[trigger] q3[k] < hi by {
        assert(lo <= q[k] < hi);
        assert(lo <= q2[q[k] as int] < hi);
    }
    assert forall|j: int, k: int| lo <= j < hi && lo <= k < hi && j != k implies #[trigger] q3[j] != #[trigger] q3[k] by {
        assert(q[j] != q[k]);
        assert(q2[q[j] as int] != q2[q[k] as int]);
    }
}

/// Every move permutes each of the four blocks of the 40 bytes.
proof fn lemma_move_blocks(m: Move)
    ensures
        move_indices(m).len() == 40,
        block_perm(move_indices(m), 0, 8),
        block_perm(move_indices(m), 8, 16),
        block_perm(move_indices(m), 16, 28),
        block_perm(move_indices(m), 28, 40),
{
    lemma_quarter_turn_in_range(m);
    let (ci, ei) = quarter_turn_indices(m);
    assert(is_permutation(ci)) by {
        assert(U1_CORNER_INDEX@ =~= seq![2u8, 0, 3, 1, 4, 5, 6, 7]);
        assert(D1_CORNER_INDEX@ =~= seq![0u8, 1, 2, 3, 5, 7, 4, 6]);
        assert(F1_CORNER_INDEX@ =~= seq![1u8, 5, 2, 3, 0, 4, 6, 7]);
        assert(B1_CORNER_INDEX@ =~= seq![0u8, 1, 6, 2, 4, 5, 7, 3]);
        assert(R1_CORNER_INDEX@ =~= seq![4u8, 1, 0, 3, 6, 5, 2, 7]);
        assert(L1_CORNER_INDEX@ =~= seq![0u8, 3, 2, 7, 4, 1, 6, 5]);
    }
    assert(is_permutation(ei)) by {
        assert(U1_EDGE_INDEX@ =~= seq![8u8, 9, 2, 3, 4, 5, 6, 7, 1, 0, 10, 11]);
        assert(D1_EDGE_INDEX@ =~= seq![0u8, 1, 11, 10, 4, 5, 6, 7, 8, 9, 2, 3]);
        assert(F1_EDGE_INDEX@ =~= seq![5u8, 1, 4, 3, 0, 2, 6, 7, 8, 9, 10, 11]);
        assert(B1_EDGE_INDEX@ =~= seq![0u8, 6, 2, 7, 4, 5, 3, 1, 8, 9, 10, 11]);
        assert(R1_EDGE_INDEX@ =~= seq![0u8, 1, 2, 3, 10, 5, 8, 7, 4, 9, 6, 11]);
        assert(L1_EDGE_INDEX@ =~= seq![0u8, 1, 2, 3, 4, 9, 6, 11, 8, 7, 10, 5]);
    }
    let q = quarter_turn(m);
    assert(block_perm(q, 0, 8)) by {
        assert forall|j: int, k: int| 0 <= j < 8 && 0 <= k < 8 && j != k implies #[trigger] q[j] != #[trigger] q[k] by {
            assert(ci[j] != ci[k]);
        }
    }
    assert(block_perm(q, 8, 16)) by {
        assert forall|k: int| 8 <= k < 16 implies 8 <= #[trigger] q[k] < 16 by {
            assert(ci[k - 8] < 8);
        }
        assert forall|j: int, k: int| 8 <= j < 16 && 8 <= k < 16 && j != k implies #[trigger] q[j] != #[trigger] q[k] by {
            assert(ci[j - 8] != ci[k - 8]);
        }
    }
    assert(block_perm(q, 16, 28)) by {
        assert forall|k: int| 16 <= k < 28 implies 16 <= #[trigger] q[k] < 28 by {
            assert(ei[k - 16] < 12);
        }
        assert forall|j: int, k: int| 16 <= j < 28 && 16 <= k < 28 && j != k implies #[trigger] q[j] != #[trigger] q[k] by {
            assert(ei[j - 16] != ei[k - 16]);
        }
    }
    assert(block_perm(q, 28, 40)) by {
        assert forall|k: int| 28 <= k < 40 implies 28 <= #[trigger] q[k] < 40 by {
            assert(ei[k - 28] < 12);
        }
        assert forall|j: int, k: int| 28 <= j < 40 && 28 <= k < 40 && j != k implies #[trigger] q[j] != #[trigger] q[k] by {
            assert(ei[j - 28] != ei[k - 28]);
        }
    }
    lemma_block_perm_powers(q, 0, 8);
    lemma_block_perm_powers(q, 8, 16);
    lemma_block_perm_powers(q, 16, 28);
    lemma_block_perm_powers(q, 28, 40);
}

/// Every twist is below 3 and every flip below 2.
pub open spec fn orientations_in_range(c: CubieRepr) -> bool {
    &&& forall|k: int| 0 <= k < 8 ==> #[trigger] c.corner_orient@[k] < 3
    &&& forall|k: int| 0 <= k < 12 ==> #[trigger] c.edge_orient@[k] < 2
}

/// A move keeps each permutation a permutation and each orientation in range.
proof fn lemma_move_keeps_valid(c: CubieRepr, d: CubieRepr, m: Move)
    requires
        d.bytes() == after_move(c.bytes(), m),
    ensures
        is_permutation(c.corner_perm@) ==> is_permutation(d.corner_perm@),
        is_permutation(c.edge_perm@) ==> is_permutation(d.edge_perm@),
        orientations_in_range(c) ==> orientations_in_range(d),
{
    lemma_move_blocks(m);
    let idx = move_indices(m);
    let b = c.bytes();
    let corr = move_correction(m);
    assert(corr.len() <= 16);
    let g = gather_all(b, idx);
    assert forall|k: int| 0 <= k < 8 implies #[trigger] d.corner_perm@[k] == c.corner_perm@[idx[k] as int] by {
        assert(d.bytes()[k] == d.corner_perm@[k]);
        assert(0 <= idx[k] < 8);
        assert(b[idx[k] as int] == c.corner_perm@[idx[k] as int]);
    }
    assert forall|k: int| 0 <= k < 12 implies #[trigger] d.edge_perm@[k] == c.edge_perm@[idx[k + 28] - 28] by {
        assert(d.bytes()[k + 28] == d.edge_perm@[k]);
        assert(28 <= idx[k + 28] < 40);
        assert(b[idx[k + 28] as int] == c.edge_perm@[idx[k + 28] - 28]);
    }
    if is_permutation(c.corner_perm@) {
        assert forall|j: int, k: int| 0 <= j < 8 && 0 <= k < 8 && j != k implies #[trigger] d.corner_perm@[j] != #[trigger] d.corner_perm@[k] by {
            assert(idx[j] != idx[k]);
            assert(c.corner_perm@[idx[j] as int] != c.corner_perm@[idx[k] as int]);
        }
        assert forall|k: int| 0 <= k < 8 implies (#[trigger] d.corner_perm@[k] as int) < 8 by {
            assert(c.corner_perm@[idx[k] as int] < 8);
        }
    }
    if is_permutation(c.edge_perm@) {
        assert forall|j: int, k: int| 0 <= j < 12 && 0 <= k < 12 && j != k implies #[trigger] d.edge_perm@[j] != #[trigger] d.edge_perm@[k] by {
            assert(idx[j + 28] != idx[k + 28]);
            assert(c.edge_perm@[idx[j + 28] - 28] != c.edge_perm@[idx[k + 28] - 28]);
        }
        assert forall|k: int| 0 <= k < 12 implies (#[trigger] d.edge_perm@[k] as int) < 12 by {
            assert(c.edge_perm@[idx[k + 28] - 28] < 12);
        }
    }
    if orientations_in_range(c) {
        assert forall|k: int| 0 <= k < 8 implies #[trigger] d.corner_orient@[k] < 3 by {
            assert(d.bytes()[k + 8] == d.corner_orient@[k]);
            assert(8 <= idx[k + 8] < 16);
            assert(b[idx[k + 8] as int] == c.corner_orient@[idx[k + 8] - 8]);
            assert(c.corner_orient@[idx[k + 8] - 8] < 3);
        }
        assert forall|k: int| 0 <= k < 12 implies #[trigger] d.edge_orient@[k] < 2 by {
            assert(d.bytes()[k + 16] == d.edge_orient@[k]);
            assert(16 <= idx[k + 16] < 28);
            assert(b[idx[k + 16] as int] == c.edge_orient@[idx[k + 16] - 16]);
            assert(c.edge_orient@[idx[k + 16] - 16] < 2);
        }
    }
}

/// The corner indices of move `m`, drawn from its quarter turn once, twice or three times.
pub open spec fn move_corner_indices(m: Move) -> Seq<u8> {
    let c = quarter_turn_indices(m).0;
    if quarter_turns(m) == 1 {
        c
    } else if quarter_turns(m) == 2 {
        crate::permutation_math::permutation::compose(c, c)
    } else {
        crate::permutation_math::permutation::compose(crate::permutation_math::permutation::compose(c, c), c)
    }
}

/// The edge indices of move `m`, in the same way.
pub open spec fn move_edge_indices(m: Move) -> Seq<u8> {
    let e = quarter_turn_indices(m).1;
    if quarter_turns(m) == 1 {
        e
    } else if quarter_turns(m) == 2 {
        crate::permutation_math::permutation::compose(e, e)
    } else {
        crate::permutation_math::permutation::compose(crate::permutation_math::permutation::compose(e, e), e)
    }
}

/// Composing two combined index lists combines the composed corner and edge lists.
proof fn lemma_combined_then(a: Seq<u8>, b: Seq<u8>, c: Seq<u8>, d: Seq<u8>)
    requires
        a.len() == 8,
        c.len() == 8,
        b.len() == 12,
        d.len() == 12,
        forall|k: int| 0 <= k < 8 ==> #[trigger] a[k] < 8,
        forall|k: int| 0 <= k < 8 ==> #[trigger] c[k] < 8,
        forall|k: int| 0 <= k < 12 ==> #[trigger] b[k] < 12,
        forall|k: int| 0 <= k < 12 ==> #[trigger] d[k] < 12,
    ensures
        index_then(combined(a, b), combined(c, d)) == combined(
            crate::permutation_math::permutation::compose(a, c),
            crate::permutation_math::permutation::compose(b, d),
        ),
        forall|k: int| 0 <= k < 8 ==> #[trigger] crate::permutation_math::permutation::compose(a, c)[k] < 8,
        forall|k: int| 0 <= k < 12 ==> #[trigger] crate::permutation_math::permutation::compose(b, d)[k] < 12,
{
    let l = index_then(combined(a, b), combined(c, d));
    let r = combined(crate::permutation_math::permutation::compose(a, c), crate::permutation_math::permutation::compose(b, d));
    assert forall|k: int| 0 <= k < 8 implies #[trigger] crate::permutation_math::permutation::compose(a, c)[k] < 8 by {
        assert(c[k] < 8);
        assert(a[c[k] as int] < 8);
    }
    assert forall|k: int| 0 <= k < 12 implies #[trigger] crate::permutation_math::permutation::compose(b, d)[k] < 12 by {
        assert(d[k] < 12);
        assert(b[d[k] as int] < 12);
    }
    assert forall|k: int| 0 <= k < 40 implies l[k] == r[k] by {
        if k < 8 {
            assert(c[k] < 8);
        } else if k < 16 {
            assert(c[k - 8] < 8);
        } else if k < 28 {
            assert(d[k - 16] < 12);
        } else {
            assert(d[k - 28] < 12);
        }
    }
    assert(l =~= r);
}

/// The byte indices of every move combine its corner and edge indices.
proof fn lemma_move_combined(m: Move)
    ensures
        move_indices(m) == combined(move_corner_indices(m), move_edge_indices(m)),
        move_corner_indices(m).len() == 8,
        move_edge_indices(m).len() == 12,
        forall|k: int| 0 <= k < 8 ==> #[trigger] move_corner_indices(m)[k] < 8,
        forall|k: int| 0 <= k < 12 ==> #[trigger] move_edge_indices(m)[k] < 12,
{
    lemma_quarter_turn_in_range(m);
    let (c, e) = quarter_turn_indices(m);
    lemma_combined_then(c, e, c, e);
    let c2 = crate::permutation_math::permutation::compose(c, c);
    let e2 = crate::permutation_math::permutation::compose(e, e);
    lemma_combined_then(c2, e2, c, e);
}

/// Every orientation change of a move is below the modulus of the byte it is added to.
proof fn lemma_correction_small(m: Move)
    ensures
        move_correction(m).len() <= 16,
        forall|k: int| 0 <= k < move_correction(m).len() ==> #[trigger] move_correction(m)[k] < orient_modulus(k + 8),
{
    assert(F_CORNER_ROT@ =~= seq![1u8, 2, 0, 0, 2, 1, 0, 0]);
    assert(B_CORNER_ROT@ =~= seq![0u8, 0, 2, 1, 0, 0, 1, 2]);
    assert(R_CORNER_ROT@ =~= seq![2u8, 0, 1, 0, 1, 0, 2, 0]);
    assert(L_CORNER_ROT@ =~= seq![0u8, 1, 0, 2, 0, 2, 0, 1]);
    assert(F_EDGE_FLIP@ =~= seq![1u8, 0, 1, 0, 1, 1, 0, 0]);
    assert(B_EDGE_FLIP@ =~= seq![0u8, 1, 0, 1, 0, 0, 1, 1]);
}

/// Applying the index and the orientation bytes of the solved cube after a move, to a cube
/// whose twists and flips are in range, is the same as making that move.
pub proof fn law_apply_matches_move(d: CubieRepr, c: CubieRepr, m: Move)
    requires
        c.bytes() == after_move(solved_bytes(), m),
        orientations_in_range(d),
    ensures
        orient_corrected(
            gathered(d.bytes(), Seq::new(40, |i: int| true), combined(c.corner_perm@, c.edge_perm@)),
            c.corner_orient@ + c.edge_orient@,
        ) == after_move(d.bytes(), m),
{
    lemma_move_combined(m);
    lemma_move_blocks(m);
    lemma_correction_small(m);
    let idx = move_indices(m);
    let corr = move_correction(m);
    let sb = solved_bytes();
    let mc = move_corner_indices(m);
    let me = move_edge_indices(m);
    assert(c.corner_perm@ =~= mc) by {
        assert forall|k: int| 0 <= k < 8 implies c.corner_perm@[k] == mc[k] by {
            assert(c.bytes()[k] == c.corner_perm@[k]);
            assert(idx[k] == mc[k] as usize);
        }
    }
    assert(c.edge_perm@ =~= me) by {
        assert forall|k: int| 0 <= k < 12 implies c.edge_perm@[k] == me[k] by {
            assert(c.bytes()[k + 28] == c.edge_perm@[k]);
            assert(idx[k + 28] == (me[k] + 28) as usize);
        }
    }
    let o = c.corner_orient@ + c.edge_orient@;
    assert forall|j: int| 0 <= j < 20 implies #[trigger] o[j] == (if j < corr.len() { corr[j] } else { 0u8 }) by {
        assert(o[j] == c.bytes()[j + 8]);
        assert(8 <= idx[j + 8] < 28) by {
            if j < 8 {
                assert(8 <= idx[j + 8] < 16);
            } else {
                assert(16 <= idx[j + 8] < 28);
            }
        }
        assert(sb[idx[j + 8] as int] == 0);
        if j < corr.len() {
            assert(corr[j] < orient_modulus(j + 8));
        }
    }
    let all = Seq::new(40, |i: int| true);
    let g = gather_all(d.bytes(), idx);
    let lhs = orient_corrected(gathered(d.bytes(), all, idx), o);
    assert(gathered(d.bytes(), all, idx) =~= g);
    assert forall|i: int| 0 <= i < 40 implies lhs[i] == after_move(d.bytes(), m)[i] by {
        if 8 <= i < 16 {
            assert(8 <= idx[i] < 16);
            assert(d.bytes()[idx[i] as int] == d.corner_orient@[idx[i] - 8]);
            assert(g[i] < 3);
        } else if 16 <= i < 28 {
            assert(16 <= idx[i] < 28);
            assert(d.bytes()[idx[i] as int] == d.edge_orient@[idx[i] - 16]);
            assert(g[i] < 2);
        }
        if 8 <= i < 28 {
            assert(o[i - 8] == (if i - 8 < corr.len() { corr[i - 8] } else { 0u8 }));
        }
    }
    assert(lhs =~= after_move(d.bytes(), m));
}

/// Facts about the quarter turn of a face: four of it leave every byte in place, and taken
/// twice its orientation changes cancel.
#[verifier::spinoff_prover]
proof fn lemma_quarter_turn_facts(m: Move)
    ensures
        forall|i: int| 0 <= i < 40 ==> #[trigger] index_then(index_then(index_then(quarter_turn(m), quarter_turn(m)), quarter_turn(m)), quarter_turn(m))[i] == i,
        move_correction(quarter_of(m)).len() <= 16,
        forall|i: int| 8 <= i < 8 + move_correction(quarter_of(m)).len() ==> 8 <= #[trigger] quarter_turn(m)[i] < 8 + move_correction(quarter_of(m)).len(),
        forall|i: int| 8 <= i < 8 + move_correction(quarter_of(m)).len() ==> (#[trigger] move_correction(quarter_of(m))[quarter_turn(m)[i] - 8] + move_correction(quarter_of(m))[i - 8]) % orient_modulus(i) == 0,
{
    assert(U1_CORNER_INDEX@ =~= seq![2u8, 0, 3, 1, 4, 5, 6, 7]);
    assert(D1_CORNER_INDEX@ =~= seq![0u8, 1, 2, 3, 5, 7, 4, 6]);
    assert(F1_CORNER_INDEX@ =~= seq![1u8, 5, 2, 3, 0, 4, 6, 7]);
    assert(B1_CORNER_INDEX@ =~= seq![0u8, 1, 6, 2, 4, 5, 7, 3]);
    assert(R1_CORNER_INDEX@ =~= seq![4u8, 1, 0, 3, 6, 5, 2, 7]);
    assert(L1_CORNER_INDEX@ =~= seq![0u8, 3, 2, 7, 4, 1, 6, 5]);
    assert(U1_EDGE_INDEX@ =~= seq![8u8, 9, 2, 3, 4, 5, 6, 7, 1, 0, 10, 11]);
    assert(D1_EDGE_INDEX@ =~= seq![0u8, 1, 11, 10, 4, 5, 6, 7, 8, 9, 2, 3]);
    assert(F1_EDGE_INDEX@ =~= seq![5u8, 1, 4, 3, 0, 2, 6, 7, 8, 9, 10, 11]);
    assert(B1_EDGE_INDEX@ =~= seq![0u8, 6, 2, 7, 4, 5, 3, 1, 8, 9, 10, 11]);
    assert(R1_EDGE_INDEX@ =~= seq![0u8, 1, 2, 3, 10, 5, 8, 7, 4, 9, 6, 11]);
    assert(L1_EDGE_INDEX@ =~= seq![0u8, 1, 2, 3, 4, 9, 6, 11, 8, 7, 10, 5]);
    assert(F_CORNER_ROT@ =~= seq![1u8, 2, 0, 0, 2, 1, 0, 0]);
    assert(B_CORNER_ROT@ =~= seq![0u8, 0, 2, 1, 0, 0, 1, 2]);
    assert(R_CORNER_ROT@ =~= seq![2u8, 0, 1, 0, 1, 0, 2, 0]);
    assert(L_CORNER_ROT@ =~= seq![0u8, 1, 0, 2, 0, 2, 0, 1]);
    assert(F_EDGE_FLIP@ =~= seq![1u8, 0, 1, 0, 1, 1, 0, 0]);
    assert(B_EDGE_FLIP@ =~= seq![0u8, 1, 0, 1, 0, 0, 1, 1]);
    lemma_quarter_turn_in_range(m);
    let (c, e) = quarter_turn_indices(m);
    let c2 = crate::permutation_math::permutation::compose(c, c);
    let e2 = crate::permutation_math::permutation::compose(e, e);
    let c3 = crate::permutation_math::permutation::compose(c2, c);
    let e3 = crate::permutation_math::permutation::compose(e2, e);
    let c4 = crate::permutation_math::permutation::compose(c3, c);
    let e4 = crate::permutation_math::permutation::compose(e3, e);
    lemma_combined_then(c, e, c, e);
    lemma_combined_then(c2, e2, c, e);
    lemma_combined_then(c3, e3, c, e);
    assert(c4 =~= seq![0u8, 1, 2, 3, 4, 5, 6, 7]);
    assert(e4 =~= seq![0u8, 1, 2, 3, 4, 5, 6, 7, 8, 9, 10, 11]);
    let q = quarter_turn(m);
    let corr = move_correction(quarter_of(m));
    assert forall|i: int| 8 <= i < 8 + corr.len() implies 8 <= #[trigger] q[i] < 8 + corr.len() && (corr[q[i] - 8] + corr[i - 8]) % orient_modulus(i) == 0 by {
        if i < 16 {
            assert(q[i] == c[i - 8] + 8);
        } else {
            assert(q[i] == e[i - 16] + 16);
        }
    }
}

/// The byte indices and orientation changes of the three turns of a face, in terms of its
/// quarter turn.
proof fn lemma_turn_indices(m: Move)
    ensures
        move_indices(quarter_of(m)) == quarter_turn(m),
        move_indices(half_of(m)) == index_then(quarter_turn(m), quarter_turn(m)),
        move_indices(counter_of(m)) == index_then(index_then(quarter_turn(m), quarter_turn(m)), quarter_turn(m)),
        move_correction(half_of(m)).len() == 0,
        move_correction(counter_of(m)) == move_correction(quarter_of(m)),
        forall|i: int| 0 <= i < 40 ==> #[trigger] quarter_turn(m)[i] < 40,
        forall|i: int| 0 <= i < 40 ==> #[trigger] index_then(quarter_turn(m), quarter_turn(m))[i] < 40,
        forall|i: int| 0 <= i < 40 ==> #[trigger] index_then(index_then(quarter_turn(m), quarter_turn(m)), quarter_turn(m))[i] < 40,
{
    lemma_quarter_turn_in_range(m);
    let q = quarter_turn(m);
    let h = index_then(q, q);
    assert forall|i: int| 0 <= i < 40 implies #[trigger] h[i] < 40 by {
        assert(q[q[i] as int] < 40);
    }
    assert forall|i: int| 0 <= i < 40 implies #[trigger] index_then(h, q)[i] < 40 by {
        assert(q[i] < 40);
        assert(h[q[i] as int] < 40);
    }
}

/// A byte reduced below its modulus, with two changes that cancel added and reduced in turn,
/// comes back.
proof fn lemma_changes_cancel(x: int, ca: int, cb: int, md: int)
    requires
        md == 2 || md == 3,
        0 <= x < md,
        0 <= ca < md,
        0 <= cb < md,
        (ca + cb) % md == 0,
    ensures
        (((x + ca) % 256 % md + cb) % 256) % md == x,
{
    assert((x + ca) % 256 == x + ca);
    assert(((x + ca) % md + cb) % 256 == (x + ca) % md + cb);
    if md == 2 {
        assert(((x + ca) % 2 + cb) % 2 == x) by (nonlinear_arith)
            requires
                0 <= x < 2,
                0 <= ca < 2,
                0 <= cb < 2,
                (ca + cb) % 2 == 0,
        ;
    } else {
        assert(((x + ca) % 3 + cb) % 3 == x) by (nonlinear_arith)
            requires
                0 <= x < 3,
                0 <= ca < 3,
                0 <= cb < 3,
                (ca + cb) % 3 == 0,
        ;
    }
}

/// Bytes whose twists are below 3 and flips below 2.
pub open spec fn orient_bytes_in_range(b: Seq<u8>) -> bool {
    &&& forall|i: int| 8 <= i < 16 ==> #[trigger] b[i] < 3
    &&& forall|i: int| 16 <= i < 28 ==> #[trigger] b[i] < 2
}

#[verifier::spinoff_prover]
proof fn lemma_twice_is_half(b: Seq<u8>, m: Move)
    requires
        b.len() == 40,
        orient_bytes_in_range(b),
    ensures
        after_move(after_move(b, quarter_of(m)), quarter_of(m)) == after_move(b, half_of(m)),
{
    lemma_quarter_turn_facts(m);
    lemma_turn_indices(m);
    lemma_correction_small(quarter_of(m));
    let q = quarter_turn(m);
    let qm = quarter_of(m);
    let corr = move_correction(qm);
    let b1 = after_move(b, qm);
    let b2 = after_move(b1, qm);
    let bh = after_move(b, half_of(m));
    assert forall|i: int| 0 <= i < 40 implies b2[i] == bh[i] by {
        let j = q[i] as int;
        if 8 <= i < 8 + corr.len() {
            assert(8 <= j < 8 + corr.len());
            assert(8 <= q[j] < 8 + corr.len());
            assert(orient_modulus(j) == orient_modulus(i));
            assert(orient_modulus(q[j] as int) == orient_modulus(i));
            lemma_changes_cancel(b[q[j] as int] as int, corr[j - 8] as int, corr[i - 8] as int, orient_modulus(i));
        }
    }
    assert(b2 =~= bh);
}

#[verifier::spinoff_prover]
proof fn lemma_counter_then_quarter(b: Seq<u8>, m: Move)
    requires
        b.len() == 40,
        orient_bytes_in_range(b),
    ensures
        after_move(after_move(b, counter_of(m)), quarter_of(m)) == b,
{
    lemma_quarter_turn_facts(m);
    lemma_turn_indices(m);
    lemma_correction_small(quarter_of(m));
    let q = quarter_turn(m);
    let qm = quarter_of(m);
    let corr = move_correction(qm);
    let t = index_then(index_then(q, q), q);
    let bc = after_move(b, counter_of(m));
    let b4 = after_move(bc, qm);
    assert forall|i: int| 0 <= i < 40 implies b4[i] == b[i] by {
        let j = q[i] as int;
        assert(index_then(t, q)[i] == i);
        assert(t[j] == i);
        if 8 <= i < 8 + corr.len() {
            assert(8 <= j < 8 + corr.len());
            assert(orient_modulus(j) == orient_modulus(i));
            lemma_changes_cancel(b[i] as int, corr[j - 8] as int, corr[i - 8] as int, orient_modulus(i));
        }
    }
    assert(b4 =~= b);
}

/// Turning a face twice is its half turn, three times its counterclockwise turn, and four
/// times nothing at all, for every cube whose twists and flips are in range.
pub proof fn law_byte_turn_powers(b: Seq<u8>, m: Move)
    requires
        b.len() == 40,
        orient_bytes_in_range(b),
    ensures
        after_move(after_move(b, quarter_of(m)), quarter_of(m)) == after_move(b, half_of(m)),
        after_move(after_move(b, half_of(m)), quarter_of(m)) == after_move(b, counter_of(m)),
        after_move(after_move(b, counter_of(m)), quarter_of(m)) == b,
{
    lemma_twice_is_half(b, m);
    lemma_counter_then_quarter(b, m);
    lemma_turn_indices(m);
    let q = quarter_turn(m);
    let bh = after_move(b, half_of(m));
    assert(gather_all(bh, q) =~= gather_all(b, move_indices(counter_of(m))));
    assert(after_move(bh, quarter_of(m)) =~= after_move(b, counter_of(m)));
}

/// How a move changes the orientation bytes.
enum Orient {
    Big([u8; 16]),
    Small([u8; 8]),
    Unchanged,
}

impl CubieRepr {
    /// The byte indices that apply this cube's permutation: each part's slot `k` reads the same
    /// part at the slot that this cube holds in `k`.
    pub fn get_index(&self) -> (r: [usize; 40])
        ensures
            r@ == combined(self.corner_perm@, self.edge_perm@),
    {
        combined_index(&self.corner_perm, &self.edge_perm)
    }

    /// The 20 orientation bytes: corner twists, then edge flips.
    pub fn get_orient(&self) -> (r: [u8; 20])
        ensures
            r@ == self.corner_orient@ + self.edge_orient@,
    {
        let buf = self.into_array();
        let mut out = [0u8; 20];
        let mut i: usize = 0;
        while i < 20
            invariant
                i <= 20,
                buf@ == self.bytes(),
                forall|k: int| 0 <= k < i ==> out@[k] == buf@[k + 8],
            decreases 20 - i,
        {
            out[i] = buf[corner_orient_offset() + i];
            i += 1;
        }
        assert(out@ =~= self.corner_orient@ + self.edge_orient@) by {
            assert forall|k: int| 0 <= k < 20 implies out@[k] == (self.corner_orient@ + self.edge_orient@)[k] by {
                assert(out@[k] == self.bytes()[k + 8]);
            }
        }
        out
    }

    /// Gather the 40 bytes by `index` (an index past the 40 bytes reads zero, one past 64 keeps
    /// the byte), then add `orient` to the orientation bytes, reduced by their modulus.
    pub fn apply(&mut self, index: [usize; 40], orient: &[u8])
        requires
            orient@.len() == 20,
        ensures
            final(self).bytes() == orient_corrected(
                gathered(old(self).bytes(), Seq::new(40, |i: int| true), index@),
                orient@,
            ),
    {
        let buf = self.into_array();
        let mask = [true; 40];
        assert(mask@ =~= Seq::new(40, |i: int| true));
        let mut out = gather_select(&buf, &mask, &index);
        correct_orient(&mut out, orient);
        *self = Self::from_array_unchecked(out);
    }

    /// Apply a face turn.
    pub fn phase_1_move(&mut self, m: Move)
        ensures
            final(self).bytes() == after_move(old(self).bytes(), m),
            is_permutation(old(self).corner_perm@) ==> is_permutation(final(self).corner_perm@),
            is_permutation(old(self).edge_perm@) ==> is_permutation(final(self).edge_perm@),
            orientations_in_range(*old(self)) ==> orientations_in_range(*final(self)),
    {
        let ghost start = *self;
        let buf = self.into_array();
        let (corner_index, edge_index) = match m {
            Move::U1 | Move::U2 | Move::U3 => (U1_CORNER_INDEX, U1_EDGE_INDEX),
            Move::D1 | Move::D2 | Move::D3 => (D1_CORNER_INDEX, D1_EDGE_INDEX),
            Move::F1 | Move::F2 | Move::F3 => (F1_CORNER_INDEX, F1_EDGE_INDEX),
            Move::B1 | Move::B2 | Move::B3 => (B1_CORNER_INDEX, B1_EDGE_INDEX),
            Move::R1 | Move::R2 | Move::R3 => (R1_CORNER_INDEX, R1_EDGE_INDEX),
            Move::L1 | Move::L2 | Move::L3 => (L1_CORNER_INDEX, L1_EDGE_INDEX),
        };
        let quarter = combined_index(&corner_index, &edge_index);
        let mask = combined_mask(&quarter);
        proof {
            lemma_quarter_turn_in_range(m);
            lemma_mask_irrelevant(buf@, mask@, m);
        }
        let idx = match m {
            Move::U1 | Move::D1 | Move::F1 | Move::B1 | Move::R1 | Move::L1 => quarter,
            Move::U2 | Move::D2 | Move::F2 | Move::B2 | Move::R2 | Move::L2 => compose(
                &quarter,
                &quarter,
            ),
            _ => {
                let half = compose(&quarter, &quarter);
                compose(&half, &quarter)
            },
        };
        let orient = match m {
            Move::F1 | Move::F3 => Orient::Big(combined_orient(&F_CORNER_ROT, &F_EDGE_FLIP)),
            Move::B1 | Move::B3 => Orient::Big(combined_orient(&B_CORNER_ROT, &B_EDGE_FLIP)),
            Move::R1 | Move::R3 => Orient::Small(R_CORNER_ROT),
            Move::L1 | Move::L3 => Orient::Small(L_CORNER_ROT),
            _ => Orient::Unchanged,
        };
        let mut out = gather_select(&buf, &mask, &idx);
        match orient {
            Orient::Big(correction) => correct_orient(&mut out, &correction),
            Orient::Small(correction) => correct_orient(&mut out, &correction),
            Orient::Unchanged => {
                assert(move_correction(m) =~= Seq::<u8>::empty());
                assert(out@ =~= orient_corrected(out@, Seq::<u8>::empty()));
            },
        }
        *self = Self::from_array_unchecked(out);
        proof {
            lemma_move_keeps_valid(start, *self, m);
        }
    }

    /// Apply a phase 2 move.
    pub fn phase_2_move(&mut self, m: Phase2Move)
        ensures
            final(self).bytes() == after_move(old(self).bytes(), phase_2_as_move(m)),
            is_permutation(old(self).corner_perm@) ==> is_permutation(final(self).corner_perm@),
            is_permutation(old(self).edge_perm@) ==> is_permutation(final(self).edge_perm@),
            orientations_in_range(*old(self)) ==> orientations_in_range(*final(self)),
    {
        let p1_move = match m {
            Phase2Move::U1 => Move::U1,
            Phase2Move::U2 => Move::U2,
            Phase2Move::U3 => Move::U3,
            Phase2Move::D1 => Move::D1,
            Phase2Move::D2 => Move::D2,
            Phase2Move::D3 => Move::D3,
            Phase2Move::F2 => Move::F2,
            Phase2Move::B2 => Move::B2,
            Phase2Move::R2 => Move::R2,
            Phase2Move::L2 => Move::L2,
        };
        self.phase_1_move(p1_move)
    }
}

} // verus!
