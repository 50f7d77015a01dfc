use vstd::prelude::*;
use crate::cube_ops::coords::EdgeGroupRawCoord;
use crate::permutation_math::grouping::{combo_greedy, combo_rank, EdgeCombination};
use super::edge_perm::EdgePerm;

verus! {

/// Which edge slots hold the four E-slice edges.
#[derive(Clone, Copy, PartialEq, Eq, Hash, Debug)]
pub struct EdgeGroup(pub EdgeCombination);

impl EdgeGroup {
    pub fn solved() -> (r: Self)
        ensures
            r.0.valid(),
            combo_rank(r.0.0@, 12, 3) == 0,
    {
        let r = Self(EdgeCombination::solved());
        proof {
            reveal_with_fuel(combo_rank, 13);
        }
        r
    }

    /// The grouping whose coordinate is `coord`.
    pub fn from_coord(coord: EdgeGroupRawCoord) -> (r: Self)
        requires
            coord.0 < 495,
        ensures
            r.0.0@ == combo_greedy(coord.0 as int, 11, 3),
            r.0.valid(),
            combo_rank(r.0.0@, 12, 3) == coord.0,
    {
        Self(EdgeCombination::from_coord(coord.0))
    }

    pub fn into_coord(self) -> (r: EdgeGroupRawCoord)
        ensures
            r.0 == combo_rank(self.0.0@, 12, 3),
            self.0.valid() ==> r.0 < 495,
    {
        EdgeGroupRawCoord(self.0.into_coord())
    }

    /// Move the grouping along `perm`: slot `i` takes the mark of slot `perm[i]`.
    pub fn permute(self, perm: EdgePerm) -> (r: Self)
        requires
            perm.0.valid(),
        ensures
            forall|i: int| 0 <= i < 12 ==> r.0.0@[i] == self.0.0@[perm.0.0@[i] as int],
    {
        Self(self.0.permute(perm.0))
    }
}

} // verus!
