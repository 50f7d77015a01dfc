use vstd::prelude::*;

verus! {

/// One of the 16 symmetries of the cube that keep the U-D axis.
#[derive(Clone, Copy, PartialEq, Eq, Hash, Debug)]
pub struct DominoSymmetry(pub u8);

impl DominoSymmetry {
    /// The symmetry that changes nothing.
    pub fn identity() -> (r: Self)
        ensures
            r.0 == 0,
    {
        DominoSymmetry(0)
    }
}

} // verus!
