use vstd::prelude::*;
use crate::cube_ops::coords::{CornerOrientRawCoord, EdgeGroupOrientSymCoord};

verus! {

/// Used to determine the initial distance in face turns from domino reduction.
#[derive(Clone, Copy, PartialEq, Eq, Hash, Debug)]
pub struct Phase1InitRepr {
    pub edge_group_orient: EdgeGroupOrientSymCoord,
    pub corner_orient: CornerOrientRawCoord,
}

impl Phase1InitRepr {
    /// Both coordinates zero.
    pub fn solved() -> (r: Self)
        ensures
            r.edge_group_orient.0 == 0,
            r.corner_orient.0 == 0,
    {
        Self { edge_group_orient: EdgeGroupOrientSymCoord(0), corner_orient: CornerOrientRawCoord(0) }
    }

    /// Whether both coordinates are zero.
    pub fn is_domino_reduced(self) -> (r: bool)
        ensures
            r == (self.corner_orient.0 == 0 && self.edge_group_orient.0 == 0),
    {
        self.corner_orient.0 == 0 && self.edge_group_orient.0 == 0
    }

    /// The position in a table with 2187 corner twist entries per edge class.
    pub fn into_index(self) -> (r: usize)
        ensures
            r == self.edge_group_orient.0 * 2187 + self.corner_orient.0,
    {
        self.edge_group_orient.0 as usize * 2187 + self.corner_orient.0 as usize
    }

    /// The entry at a table position; the edge class is cut to 16 bits.
    pub fn from_index(index: usize) -> (r: Self)
        ensures
            r.edge_group_orient.0 == (index / 2187) % 0x1_0000,
            r.corner_orient.0 == index % 2187,
            index < 0x1_0000 * 2187 ==> r.into_index_spec() == index,
    {
        let edges = index / 2187;
        let corners = index % 2187;
        proof {
            let x = edges;
            assert(x as u16 == x % 0x1_0000) by (bit_vector);
        }
        Self {
            edge_group_orient: EdgeGroupOrientSymCoord(edges as u16),
            corner_orient: CornerOrientRawCoord(corners as u16),
        }
    }

    /// What `into_index` returns.
    pub open spec fn into_index_spec(self) -> int {
        self.edge_group_orient.0 * 2187 + self.corner_orient.0
    }
}

} // verus!
