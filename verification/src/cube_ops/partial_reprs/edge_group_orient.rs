use vstd::prelude::*;
use crate::cube_ops::coords::{EdgeGroupRawCoord, EdgeOrientRawCoord};
use crate::digits::{digits_below, horner, lemma_horner_bound, lemma_pow_values};
use crate::permutation_math::grouping::{combo_greedy, combo_rank};
use super::edge_group::EdgeGroup;
use super::edge_orient::EdgeOrient;
use super::edge_perm::EdgePerm;

verus! {

/// The grouping coordinate in bits 11 and up, the orientation coordinate in bits 0..11.
/// fits in 20 bits
#[derive(Clone, Copy, PartialEq, Eq, PartialOrd, Ord, Hash, Debug)]
pub struct EdgeGroupOrientRawCoord(pub u32);

impl EdgeGroupOrientRawCoord {
    /// The grouping part (bits 11..27) and the orientation part (bits 0..11).
    pub fn split(self) -> (r: (EdgeGroupRawCoord, EdgeOrientRawCoord))
        ensures
            r.0.0 == (self.0 / 2048) % 65536,
            r.1.0 == self.0 % 2048,
    {
        let x = self.0;
        proof {
            assert((x >> 11u32) as u16 == (x / 2048) % 65536) by (bit_vector);
            assert((x & 0b11111111111u32) as u16 == x % 2048) by (bit_vector);
        }
        (EdgeGroupRawCoord((self.0 >> 11) as u16), EdgeOrientRawCoord((self.0 & 0b11111111111) as u16))
    }

    /// The grouping coordinate in bits 11 and up, the orientation coordinate in bits 0..11.
    pub fn join(group: EdgeGroupRawCoord, orient: EdgeOrientRawCoord) -> (r: Self)
        ensures
            r.0 == ((group.0 as u32) << 11u32) | (orient.0 as u32),
            orient.0 < 2048 ==> r.0 == group.0 * 2048 + orient.0,
            orient.0 < 2048 ==> r.0 / 2048 == group.0 && r.0 % 2048 == orient.0,
    {
        let g = group.0 as u32;
        let o = orient.0 as u32;
        proof {
            assert(g < 65536 && o < 2048 ==> (g << 11u32) | o == g * 2048 + o) by (bit_vector);
        }
        Self((g << 11) | o)
    }
}

/// Splitting what `join` packs gives back the grouping and the orientation coordinates.
pub proof fn law_split_undoes_join(group: u16, orient: u16, joined: u32)
    requires
        orient < 2048,
        joined == ((group as u32) << 11u32) | (orient as u32),
    ensures
        (joined / 2048) % 65536 == group,
        joined % 2048 == orient,
{
    assert(orient < 2048 ==> ((group as u32) << 11u32) | (orient as u32) == group * 2048 + orient) by (bit_vector);
}

/// The grouping and the orientation of the twelve edges.
#[derive(Clone, Copy, PartialEq, Eq, Hash, Debug)]
pub struct EdgeGroupOrient(pub EdgeGroup, pub EdgeOrient);

impl EdgeGroupOrient {
    pub fn solved() -> (r: Self)
        ensures
            r.0.0.valid(),
            combo_rank(r.0.0.0@, 12, 3) == 0,
            forall|i: int| 0 <= i < 12 ==> r.1.0@[i] == 0,
    {
        Self(EdgeGroup::solved(), EdgeOrient::solved())
    }

    /// The grouping of coordinate `coord / 2048` and the orientation of coordinate
    /// `coord % 2048`.
    pub fn from_coord(coord: EdgeGroupOrientRawCoord) -> (r: Self)
        requires
            coord.0 / 2048 < 495,
        ensures
            r.0.0.0@ == combo_greedy((coord.0 / 2048) as int, 11, 3),
            r.0.0.valid(),
            combo_rank(r.0.0.0@, 12, 3) == coord.0 / 2048,
            digits_below(r.1.0@, 2, 12),
            horner(r.1.0@, 2, 11) == coord.0 % 2048,
            r.1.valid(),
    {
        let x = coord.0;
        proof {
            assert((x >> 11u32) as u16 == x / 2048) by (bit_vector)
                requires
                    x / 2048 < 495,
            ;
            assert((x & 0b11111111111u32) as u16 == x % 2048) by (bit_vector);
            lemma_pow_values();
        }
        let group_coord = (coord.0 >> 11) as u16;
        let orient_coord = (coord.0 & 0b11111111111) as u16;
        Self(
            EdgeGroup::from_coord(EdgeGroupRawCoord(group_coord)),
            EdgeOrient::from_coord(EdgeOrientRawCoord(orient_coord)),
        )
    }

    /// The grouping coordinate in bits 11 and up, or-ed with the orientation coordinate
    /// (which, for flips of 0 and 1, stays below bit 11).
    pub fn into_coord(self) -> (r: EdgeGroupOrientRawCoord)
        requires
            horner(self.1.0@, 2, 11) <= u16::MAX,
        ensures
            r.0 == ((combo_rank(self.0.0.0@, 12, 3) as u32) << 11u32) | (horner(self.1.0@, 2, 11) as u32),
            digits_below(self.1.0@, 2, 11) ==> r.0 == combo_rank(self.0.0.0@, 12, 3) * 2048 + horner(
                self.1.0@,
                2,
                11,
            ),
    {
        proof {
            lemma_pow_values();
            if digits_below(self.1.0@, 2, 11) {
                lemma_horner_bound(self.1.0@, 2, 11);
            }
        }
        let group_coord = self.0.into_coord().0 as u32;
        let orient_coord = self.1.into_coord().0 as u32;
        proof {
            assert(group_coord < 65536 && orient_coord < 2048 ==> ((group_coord << 11u32) | orient_coord)
                == group_coord * 2048 + orient_coord) by (bit_vector);
        }
        EdgeGroupOrientRawCoord((group_coord << 11) | orient_coord)
    }

    /// Move grouping and orientation along `perm`.
    pub fn then_apply(self, perm: EdgePerm) -> (r: Self)
        requires
            perm.0.valid(),
        ensures
            forall|i: int| 0 <= i < 12 ==> r.0.0.0@[i] == self.0.0.0@[perm.0.0@[i] as int],
            forall|i: int| 0 <= i < 12 ==> r.1.0@[i] == self.1.0@[perm.0.0@[i] as int],
    {
        Self(self.0.permute(perm), self.1.permute(perm))
    }
}

} // verus!
