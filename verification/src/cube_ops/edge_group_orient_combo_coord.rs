use vstd::prelude::*;
use crate::cube_ops::coords::EdgeGroupOrientSymCoord;
use crate::cube_ops::cube_sym::DominoSymmetry;

verus! {

/// An edge grouping and orientation as a symmetry class and the symmetry that leads to it.
#[derive(Clone, Copy, PartialEq, Eq, Hash, Debug)]
pub struct EdgeGroupOrientComboCoord {
    pub sym_coord: EdgeGroupOrientSymCoord,
    pub domino_conjugation: DominoSymmetry,
}

} // verus!
