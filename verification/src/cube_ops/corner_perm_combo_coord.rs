use vstd::prelude::*;
use crate::cube_ops::coords::CornerPermSymCoord;
use crate::cube_ops::cube_sym::DominoSymmetry;

verus! {

/// A corner permutation as a symmetry class and the symmetry that leads to it.
#[derive(Clone, Copy, PartialEq, Eq, Hash, Debug)]
pub struct CornerPermComboCoord {
    pub sym_coord: CornerPermSymCoord,
    pub domino_conjugation: DominoSymmetry,
}

} // verus!
