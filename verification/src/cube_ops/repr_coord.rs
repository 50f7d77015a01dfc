use vstd::prelude::*;
use crate::cube_ops::coords::{
    CornerOrientRawCoord, CornerPermSymCoord, EEdgePermRawCoord, EdgeGroupOrientSymCoord,
    UDEdgePermRawCoord,
};
use crate::cube_ops::corner_perm_combo_coord::CornerPermComboCoord;
use crate::cube_ops::cube_sym::DominoSymmetry;
use crate::cube_ops::edge_group_orient_combo_coord::EdgeGroupOrientComboCoord;

verus! {

/// A cube reduced by the domino symmetries, packed into four 16-bit words:
///
/// - `[AAAA_AAAA_AAAA_AAAA]` A: edge group and orientation sym coordinate
/// - `[BBBB_CCCC_CCCC_CCCC]` B: symmetry of the corner permutation; C: corner twist coordinate
/// - `[DDDD_EEEE_EEEE_EEEE]` D: 4 high bits of the E-slice permutation; E: corner
///   permutation sym coordinate
/// - `[FFFF_FFFF_FFFF_FFFF]` F: U/D edge permutation coordinate
///
/// The lowest bit of the E-slice permutation is the parity of D and F together. When A, B
/// and C are zero, phase 1 is solved.
#[derive(Copy, Clone, PartialEq, Eq, Hash, Debug)]
pub struct SymReducedRepr(pub [u16; 4]);

/// The words of a packed cube, by phase.
pub enum Unpacked {
    Phase1(Phase1Unpacked),
    Phase2(Phase2Unpacked),
}

/// The coordinates of a cube during phase 1.
pub struct Phase1Unpacked {
    pub edge_group_orient_combo_coord: EdgeGroupOrientComboCoord,
    pub corner_orient_raw_coord: CornerOrientRawCoord,
    pub corner_perm_combo_coord: CornerPermComboCoord,
    pub e_edge_perm_raw_coord: EEdgePermRawCoord,
    pub ud_edge_perm_raw_coord: UDEdgePermRawCoord,
}

/// The coordinates of a cube during phase 2.
pub struct Phase2Unpacked {
    pub corner_perm_combo_coord: CornerPermComboCoord,
    pub e_edge_perm_raw_coord: EEdgePermRawCoord,
    pub ud_edge_perm_raw_coord: UDEdgePermRawCoord,
}

/// The E-slice permutation coordinate kept in the third and fourth words: four bits above
/// the twelve of the third word, then the parity of the two words.
pub open spec fn packed_e_edge_perm(de: u16, f: u16) -> int {
    2 * (de / 4096) + (de + f) % 2
}

/// The fields of the second and third words, read with shifts and masks.
proof fn lemma_word_fields(bc: u16, de: u16, f: u16)
    ensures
        bc >> 12u16 == bc / 4096,
        bc / 4096 < 16,
        bc & 0x0FFFu16 == bc % 4096,
        de & 0x0FFFu16 == de % 4096,
        ((de >> 11u16) & 0b11110u16) | ((de ^ f) & 1u16) == 2 * (de / 4096) + (de + f) % 2,
        2 * (de / 4096) + (de + f) % 2 < 32,
{
    assert(bc >> 12u16 == bc / 4096 && bc / 4096 < 16 && bc & 0x0FFFu16 == bc % 4096
        && de & 0x0FFFu16 == de % 4096) by (bit_vector);
    assert(((de >> 11u16) & 0b11110u16) | ((de ^ f) & 1u16) == 2 * (de / 4096) + (de + f) % 2
        && 2 * (de / 4096) + (de + f) % 2 < 32) by (bit_vector);
}

/// The words that packing builds: the corner symmetry above the twelve bits of the corner
/// twists, and the four high bits of the E-slice permutation above the twelve bits of the
/// corner class.
proof fn lemma_packed_words(b: u16, c: u16, d: u16, e: u16, f: u16)
    requires
        b < 16,
        c < 4096,
        d < 32,
        e < 4096,
    ensures
        ((b << 12u16) | c) / 4096 == b,
        ((b << 12u16) | c) % 4096 == c,
        (((d >> 1u16) << 12u16) | e) / 4096 == d / 2,
        (((d >> 1u16) << 12u16) | e) % 4096 == e,
        (((d >> 1u16) << 12u16) | e) % 2 == e % 2,
{
    assert(((b << 12u16) | c) / 4096 == b && ((b << 12u16) | c) % 4096 == c) by (bit_vector)
        requires
            b < 16,
            c < 4096,
    ;
    assert((((d >> 1u16) << 12u16) | e) / 4096 == d / 2 && (((d >> 1u16) << 12u16) | e) % 4096 == e
        && (((d >> 1u16) << 12u16) | e) % 2 == e % 2) by (bit_vector)
        requires
            d < 32,
            e < 4096,
    ;
}

/// Unpacking gives back what packing stored: the edge class, the corner symmetry and twists,
/// the corner class, the U/D edge permutation, and the E-slice permutation whenever its
/// lowest bit is the parity of the corner class and the U/D edge permutation together (the
/// one bit packing leaves out).
pub proof fn law_unpack_undoes_pack(b: u16, c: u16, d: u16, e: u16, f: u16)
    requires
        b < 16,
        c < 4096,
        d < 32,
        e < 4096,
        d % 2 == (e + f) % 2,
    ensures
        ({
            let bc = (b << 12u16) | c;
            let de = ((d >> 1u16) << 12u16) | e;
            &&& bc / 4096 == b
            &&& bc % 4096 == c
            &&& de % 4096 == e
            &&& packed_e_edge_perm(de, f) == d
        }),
{
    lemma_packed_words(b, c, d, e, f);
}

/// The E-slice permutation read from the words is even exactly when the third and fourth
/// words are both even or both odd, and its upper four bits are the top of the third word.
pub proof fn law_e_edge_perm_parity(de: u16, f: u16)
    ensures
        packed_e_edge_perm(de, f) % 2 == (de as int + f as int) % 2,
        packed_e_edge_perm(de, f) / 2 == de / 4096,
        0 <= packed_e_edge_perm(de, f) < 32,
{
}

impl SymReducedRepr {
    fn unpack_phase_1(self) -> (r: Phase1Unpacked)
        ensures
            r.edge_group_orient_combo_coord.sym_coord.0 == self.0[0],
            r.edge_group_orient_combo_coord.domino_conjugation.0 == 0,
            r.corner_perm_combo_coord.domino_conjugation.0 == self.0[1] / 4096,
            r.corner_orient_raw_coord.0 == self.0[1] % 4096,
            r.corner_perm_combo_coord.sym_coord.0 == self.0[2] % 4096,
            r.e_edge_perm_raw_coord.0 == packed_e_edge_perm(self.0[2], self.0[3]),
            r.e_edge_perm_raw_coord.0 % 2 == (self.0[2] + self.0[3]) % 2,
            r.e_edge_perm_raw_coord.0 / 2 == self.0[2] / 4096,
            r.ud_edge_perm_raw_coord.0 == self.0[3],
    {
        let a = self.0[0];
        let bc = self.0[1];
        let de = self.0[2];
        let f = self.0[3];
        let b = (bc >> 12) as u8;
        let c = bc & 0x0FFF;
        let d = (((de >> 11) & 0b11110) | ((de ^ f) & 0b1)) as u8;
        let e = de & 0x0FFF;
        proof {
            lemma_word_fields(bc, de, f);
        }
        Phase1Unpacked {
            edge_group_orient_combo_coord: EdgeGroupOrientComboCoord {
                sym_coord: EdgeGroupOrientSymCoord(a),
                domino_conjugation: DominoSymmetry::identity(),
            },
            corner_orient_raw_coord: CornerOrientRawCoord(c),
            corner_perm_combo_coord: CornerPermComboCoord {
                sym_coord: CornerPermSymCoord(e),
                domino_conjugation: DominoSymmetry(b),
            },
            e_edge_perm_raw_coord: EEdgePermRawCoord(d),
            ud_edge_perm_raw_coord: UDEdgePermRawCoord(f),
        }
    }

    fn unpack_phase_2(self) -> (r: Phase2Unpacked)
        ensures
            r.corner_perm_combo_coord.sym_coord.0 == self.0[2] % 4096,
            r.corner_perm_combo_coord.domino_conjugation.0 == 0,
            r.e_edge_perm_raw_coord.0 == packed_e_edge_perm(self.0[2], self.0[3]),
            r.e_edge_perm_raw_coord.0 % 2 == (self.0[2] + self.0[3]) % 2,
            r.e_edge_perm_raw_coord.0 / 2 == self.0[2] / 4096,
            r.ud_edge_perm_raw_coord.0 == self.0[3],
    {
        let de = self.0[2];
        let f = self.0[3];
        let d = (((de >> 11) & 0b11110) | ((de ^ f) & 0b1)) as u8;
        let e = de & 0x0FFF;
        proof {
            lemma_word_fields(0, de, f);
        }
        Phase2Unpacked {
            corner_perm_combo_coord: CornerPermComboCoord {
                sym_coord: CornerPermSymCoord(e),
                domino_conjugation: DominoSymmetry::identity(),
            },
            e_edge_perm_raw_coord: EEdgePermRawCoord(d),
            ud_edge_perm_raw_coord: UDEdgePermRawCoord(f),
        }
    }

    /// All four words are zero.
    pub fn is_solved(self) -> (r: bool)
        ensures
            r == (self.0@ == seq![0u16, 0u16, 0u16, 0u16]),
    {
        let r = self.0[0] == 0 && self.0[1] == 0 && self.0[2] == 0 && self.0[3] == 0;
        assert(r ==> self.0@ =~= seq![0u16, 0u16, 0u16, 0u16]);
        r
    }

    /// The edge sym coordinate, the corner twists and the corner symmetry are all zero.
    pub fn is_phase_1_solved(self) -> (r: bool)
        ensures
            r == (self.0[0] == 0 && self.0[1] == 0),
    {
        self.0[0] == 0 && self.0[1] == 0
    }

    /// The coordinates: phase 2 ones once phase 1 is solved, phase 1 ones before.
    pub fn unpack(self) -> (r: Unpacked)
        ensures
            match r {
                Unpacked::Phase2(p) => self.0[0] == 0 && self.0[1] == 0
                    && p.corner_perm_combo_coord.sym_coord.0 == self.0[2] % 4096
                    && p.corner_perm_combo_coord.domino_conjugation.0 == 0
                    && p.e_edge_perm_raw_coord.0 == packed_e_edge_perm(self.0[2], self.0[3])
                    && p.e_edge_perm_raw_coord.0 % 2 == (self.0[2] + self.0[3]) % 2
                    && p.ud_edge_perm_raw_coord.0 == self.0[3],
                Unpacked::Phase1(p) => !(self.0[0] == 0 && self.0[1] == 0)
                    && p.edge_group_orient_combo_coord.sym_coord.0 == self.0[0]
                    && p.edge_group_orient_combo_coord.domino_conjugation.0 == 0
                    && p.corner_perm_combo_coord.domino_conjugation.0 == self.0[1] / 4096
                    && p.corner_orient_raw_coord.0 == self.0[1] % 4096
                    && p.corner_perm_combo_coord.sym_coord.0 == self.0[2] % 4096
                    && p.e_edge_perm_raw_coord.0 == packed_e_edge_perm(self.0[2], self.0[3])
                    && p.e_edge_perm_raw_coord.0 % 2 == (self.0[2] + self.0[3]) % 2
                    && p.ud_edge_perm_raw_coord.0 == self.0[3],
            },
    {
        if self.0[0] == 0 && self.0[1] == 0 {
            Unpacked::Phase2(self.unpack_phase_2())
        } else {
            Unpacked::Phase1(self.unpack_phase_1())
        }
    }
}

} // verus!
