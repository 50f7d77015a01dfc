use vstd::prelude::*;
use crate::repr_cubie::ReprCube;

verus! {

/// Where each corner slot's three stickers sit on the net of 54 facelets (face `f`, spot `p`
/// at `9 f + p`; faces U, D, F, B, R, L), for the slots UFR, UFL, UBR, UBL, DFR, DFL, DBR,
/// DBL.
pub const CORNER_POS: [[u8; 3]; 8] = [
    [8, 36, 20],
    [6, 18, 47],
    [2, 27, 38],
    [0, 45, 29],
    [11, 26, 42],
    [9, 53, 24],
    [17, 44, 33],
    [15, 35, 51],
];

/// The face of each of those stickers on a solved cube, which is also its color.
pub const CORNER_FACE: [[u8; 3]; 8] = [
    [0, 4, 2],
    [0, 2, 5],
    [0, 3, 4],
    [0, 5, 3],
    [1, 2, 4],
    [1, 5, 2],
    [1, 4, 3],
    [1, 3, 5],
];

/// Where each edge slot's two stickers sit, for the slots UF, UB, UR, UL, DF, DB, DR, DL,
/// FR, FL, BR, BL.
pub const EDGE_POS: [[u8; 2]; 12] = [
    [7, 19],
    [1, 28],
    [5, 37],
    [3, 46],
    [10, 25],
    [16, 34],
    [14, 43],
    [12, 52],
    [23, 39],
    [21, 50],
    [30, 41],
    [32, 48],
];

/// The face of each of those stickers on a solved cube.
pub const EDGE_FACE: [[u8; 2]; 12] = [
    [0, 2],
    [0, 3],
    [0, 4],
    [0, 5],
    [1, 2],
    [1, 3],
    [1, 4],
    [1, 5],
    [2, 4],
    [2, 5],
    [3, 4],
    [3, 5],
];

/// The facelet of the center of face `f`.
pub open spec fn center_pos(f: int) -> int {
    9 * f + 4
}

/// The marker of a facelet that nothing has colored.
pub const BLANK: u8 = 6;

/// No two stickers share a facelet, and none sits on a center.
proof fn lemma_positions_distinct()
    ensures
        forall|a: int, b: int, c: int, d: int|
            0 <= a < 8 && 0 <= b < 3 && 0 <= c < 8 && 0 <= d < 3 && (a != c || b != d) ==> #[trigger] CORNER_POS@[a]@[b]
                != #[trigger] CORNER_POS@[c]@[d],
        forall|a: int, b: int, c: int, d: int|
            0 <= a < 12 && 0 <= b < 2 && 0 <= c < 12 && 0 <= d < 2 && (a != c || b != d) ==> #[trigger] EDGE_POS@[a]@[b]
                != #[trigger] EDGE_POS@[c]@[d],
        forall|a: int, b: int, c: int, d: int|
            0 <= a < 8 && 0 <= b < 3 && 0 <= c < 12 && 0 <= d < 2 ==> #[trigger] CORNER_POS@[a]@[b]
                != #[trigger] EDGE_POS@[c]@[d],
        forall|a: int, b: int| 0 <= a < 8 && 0 <= b < 3 ==> (#[trigger] CORNER_POS@[a]@[b]) < 54 && CORNER_POS@[a]@[b] % 9 != 4,
        forall|a: int, b: int| 0 <= a < 12 && 0 <= b < 2 ==> (#[trigger] EDGE_POS@[a]@[b]) < 54 && EDGE_POS@[a]@[b] % 9 != 4,
        forall|a: int, b: int| 0 <= a < 8 && 0 <= b < 3 ==> (#[trigger] CORNER_FACE@[a]@[b]) < 6,
        forall|a: int, b: int| 0 <= a < 12 && 0 <= b < 2 ==> (#[trigger] EDGE_FACE@[a]@[b]) < 6,
{
}

impl ReprCube {
    /// The color (0 to 5: the faces U, D, F, B, R, L) of each of the 54 facelets: each
    /// sticker of a slot shows the face of the piece's sticker that its twist or flip turns
    /// there, and each center shows its own face.
    pub fn facelet_colors(self) -> (r: [u8; 54])
        requires
            forall|s: int| 0 <= s < 8 ==> self.corner_perm.0@[s] < 8 && self.corner_orient.0@[s] <= 3,
            forall|s: int| 0 <= s < 12 ==> self.edge_perm.0@[s] < 12,
        ensures
            forall|s: int, j: int|
                0 <= s < 8 && 0 <= j < 3 ==> r@[#[trigger] CORNER_POS@[s]@[j] as int]
                    == CORNER_FACE@[self.corner_perm.0@[s] as int]@[(j + 3 - self.corner_orient.0@[s]) % 3],
            forall|s: int, j: int|
                0 <= s < 12 && 0 <= j < 2 ==> r@[#[trigger] EDGE_POS@[s]@[j] as int]
                    == EDGE_FACE@[self.edge_perm.0@[s] as int]@[(j + self.edge_orient.0@[s]) % 2],
            forall|f: int| 0 <= f < 6 ==> r@[#[trigger] center_pos(f)] == f,
    {
        proof {
            lemma_positions_distinct();
        }
        let mut faces = [BLANK; 54];
        let mut slot: usize = 0;
        while slot < 8
            invariant
                slot <= 8,
                forall|s: int| 0 <= s < 8 ==> self.corner_perm.0@[s] < 8 && self.corner_orient.0@[s] <= 3,
                forall|a: int, b: int, c: int, d: int|
                    0 <= a < 8 && 0 <= b < 3 && 0 <= c < 8 && 0 <= d < 3 && (a != c || b != d) ==> #[trigger] CORNER_POS@[a]@[b]
                        != #[trigger] CORNER_POS@[c]@[d],
                forall|a: int, b: int| 0 <= a < 8 && 0 <= b < 3 ==> (#[trigger] CORNER_POS@[a]@[b]) < 54,
                forall|s: int, j: int|
                    0 <= s < slot && 0 <= j < 3 ==> faces@[#[trigger] CORNER_POS@[s]@[j] as int]
                        == CORNER_FACE@[self.corner_perm.0@[s] as int]@[(j + 3 - self.corner_orient.0@[s]) % 3],
            decreases 8 - slot,
        {
            let piece = self.corner_perm.0[slot] as usize;
            let ori = self.corner_orient.0[slot] as usize;
            let mut j: usize = 0;
            while j < 3
                invariant
                    j <= 3,
                    slot < 8,
                    piece == self.corner_perm.0@[slot as int],
                    ori == self.corner_orient.0@[slot as int],
                    piece < 8,
                    ori <= 3,
                    forall|a: int, b: int, c: int, d: int|
                        0 <= a < 8 && 0 <= b < 3 && 0 <= c < 8 && 0 <= d < 3 && (a != c || b != d) ==> #[trigger] CORNER_POS@[a]@[b]
                            != #[trigger] CORNER_POS@[c]@[d],
                    forall|a: int, b: int| 0 <= a < 8 && 0 <= b < 3 ==> (#[trigger] CORNER_POS@[a]@[b]) < 54,
                    forall|s: int, k: int|
                        0 <= s < slot && 0 <= k < 3 ==> faces@[#[trigger] CORNER_POS@[s]@[k] as int]
                            == CORNER_FACE@[self.corner_perm.0@[s] as int]@[(k + 3 - self.corner_orient.0@[s]) % 3],
                    forall|k: int|
                        0 <= k < j ==> faces@[#[trigger] CORNER_POS@[slot as int]@[k] as int]
                            == CORNER_FACE@[piece as int]@[(k + 3 - ori) % 3],
                decreases 3 - j,
            {
                let pos = CORNER_POS[slot][j] as usize;
                faces[pos] = CORNER_FACE[piece][(j + 3 - ori) % 3];
                j += 1;
            }
            slot += 1;
        }
        let mut slot: usize = 0;
        while slot < 12
            invariant
                slot <= 12,
                forall|s: int| 0 <= s < 12 ==> self.edge_perm.0@[s] < 12,
                forall|a: int, b: int, c: int, d: int|
                    0 <= a < 12 && 0 <= b < 2 && 0 <= c < 12 && 0 <= d < 2 && (a != c || b != d) ==> #[trigger] EDGE_POS@[a]@[b]
                        != #[trigger] EDGE_POS@[c]@[d],
                forall|a: int, b: int, c: int, d: int|
                    0 <= a < 8 && 0 <= b < 3 && 0 <= c < 12 && 0 <= d < 2 ==> #[trigger] CORNER_POS@[a]@[b]
                        != #[trigger] EDGE_POS@[c]@[d],
                forall|a: int, b: int| 0 <= a < 12 && 0 <= b < 2 ==> (#[trigger] EDGE_POS@[a]@[b]) < 54,
                forall|s: int, j: int|
                    0 <= s < 8 && 0 <= j < 3 ==> faces@[#[trigger] CORNER_POS@[s]@[j] as int]
                        == CORNER_FACE@[self.corner_perm.0@[s] as int]@[(j + 3 - self.corner_orient.0@[s]) % 3],
                forall|s: int, j: int|
                    0 <= s < slot && 0 <= j < 2 ==> faces@[#[trigger] EDGE_POS@[s]@[j] as int]
                        == EDGE_FACE@[self.edge_perm.0@[s] as int]@[(j + self.edge_orient.0@[s]) % 2],
            decreases 12 - slot,
        {
            let piece = self.edge_perm.0[slot] as usize;
            let ori = self.edge_orient.0[slot] as usize;
            let mut j: usize = 0;
            while j < 2
                invariant
                    j <= 2,
                    slot < 12,
                    piece == self.edge_perm.0@[slot as int],
                    ori == self.edge_orient.0@[slot as int],
                    piece < 12,
                    forall|a: int, b: int, c: int, d: int|
                        0 <= a < 12 && 0 <= b < 2 && 0 <= c < 12 && 0 <= d < 2 && (a != c || b != d) ==> #[trigger] EDGE_POS@[a]@[b]
                            != #[trigger] EDGE_POS@[c]@[d],
                    forall|a: int, b: int, c: int, d: int|
                        0 <= a < 8 && 0 <= b < 3 && 0 <= c < 12 && 0 <= d < 2 ==> #[trigger] CORNER_POS@[a]@[b]
                            != #[trigger] EDGE_POS@[c]@[d],
                    forall|a: int, b: int| 0 <= a < 12 && 0 <= b < 2 ==> (#[trigger] EDGE_POS@[a]@[b]) < 54,
                    forall|s: int, k: int|
                        0 <= s < 8 && 0 <= k < 3 ==> faces@[#[trigger] CORNER_POS@[s]@[k] as int]
                            == CORNER_FACE@[self.corner_perm.0@[s] as int]@[(k + 3 - self.corner_orient.0@[s]) % 3],
                    forall|s: int, k: int|
                        0 <= s < slot && 0 <= k < 2 ==> faces@[#[trigger] EDGE_POS@[s]@[k] as int]
                            == EDGE_FACE@[self.edge_perm.0@[s] as int]@[(k + self.edge_orient.0@[s]) % 2],
                    forall|k: int|
                        0 <= k < j ==> faces@[#[trigger] EDGE_POS@[slot as int]@[k] as int]
                            == EDGE_FACE@[piece as int]@[(k + ori) % 2],
                decreases 2 - j,
            {
                let pos = EDGE_POS[slot][j] as usize;
                faces[pos] = EDGE_FACE[piece][(j + ori) % 2];
                j += 1;
            }
            slot += 1;
        }
        let mut f: usize = 0;
        while f < 6
            invariant
                f <= 6,
                forall|a: int, b: int| 0 <= a < 8 && 0 <= b < 3 ==> (#[trigger] CORNER_POS@[a]@[b]) % 9 != 4,
                forall|a: int, b: int| 0 <= a < 12 && 0 <= b < 2 ==> (#[trigger] EDGE_POS@[a]@[b]) % 9 != 4,
                forall|s: int, j: int|
                    0 <= s < 8 && 0 <= j < 3 ==> faces@[#[trigger] CORNER_POS@[s]@[j] as int]
                        == CORNER_FACE@[self.corner_perm.0@[s] as int]@[(j + 3 - self.corner_orient.0@[s]) % 3],
                forall|s: int, j: int|
                    0 <= s < 12 && 0 <= j < 2 ==> faces@[#[trigger] EDGE_POS@[s]@[j] as int]
                        == EDGE_FACE@[self.edge_perm.0@[s] as int]@[(j + self.edge_orient.0@[s]) % 2],
                forall|g: int| 0 <= g < f ==> faces@[#[trigger] center_pos(g)] == g,
            decreases 6 - f,
        {
            faces[9 * f + 4] = f as u8;
            f += 1;
        }
        faces
    }
}

} // verus!
