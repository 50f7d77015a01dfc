use vstd::prelude::*;

verus! {

/// A cube during phase 1 by its three raw coordinates.
pub struct Phase1Repr {
    corner_orient: u16,
    edge_orient: u16,
    edge_group: u16,
}

} // verus!
