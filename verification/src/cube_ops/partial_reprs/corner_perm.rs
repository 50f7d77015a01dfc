use vstd::prelude::*;
use crate::permutation_math::permutation::Permutation;

verus! {

/// The permutation of the eight corners among their slots.
#[derive(Clone, Copy, PartialEq, Eq, Hash, Debug)]
pub struct CornerPerm(pub Permutation<8>);

} // verus!
