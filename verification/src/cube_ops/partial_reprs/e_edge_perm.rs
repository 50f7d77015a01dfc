use vstd::prelude::*;
use crate::permutation_math::permutation::Permutation;

verus! {

/// The permutation of the four E-slice edges among the E-slice slots.
#[derive(Clone, Copy, PartialEq, Eq, Hash, Debug)]
pub struct EEdgePerm(pub Permutation<4>);

} // verus!
