use vstd::prelude::*;
use crate::permutation_math::permutation::Permutation;

verus! {

/// The permutation of the eight U- and D-layer edges among the U- and D-layer slots.
#[derive(Clone, Copy, PartialEq, Eq, Hash, Debug)]
pub struct UDEdgePerm(pub Permutation<8>);

} // verus!
