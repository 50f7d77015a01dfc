use vstd::prelude::*;
use crate::coords::{EEdgePermCoord, UDEdgePermCoord};
use crate::cube_ops::coords::CornerPermSymCoord;

verus! {

/// A cube during phase 2 by its corner sym coordinate and its two edge coordinates.
pub struct ReprPhase2 {
    pub sym_corner_perm: CornerPermSymCoord,
    pub ud_edge_perm: UDEdgePermCoord,
    pub e_edge_perm: EEdgePermCoord,
}

impl ReprPhase2 {
    /// All three coordinates are zero.
    pub fn is_complete(&self) -> (r: bool)
        ensures
            r == (self.sym_corner_perm.0 == 0 && self.ud_edge_perm@ == 0 && self.e_edge_perm@ == 0),
    {
        self.sym_corner_perm.0 == 0 && self.ud_edge_perm.inner() == 0 && self.e_edge_perm.inner() == 0
    }

    /// The position in a table with 2768 corner classes per U/D edge permutation.
    fn get_pruning_table_offset(&self) -> (r: usize)
        ensures
            r == self.sym_corner_perm.0 + self.ud_edge_perm@ * 2768,
    {
        let c: u16 = self.sym_corner_perm.0;
        let e: u16 = self.ud_edge_perm.inner();
        let c = c as usize;
        let e = e as usize;
        c + e * 2768
    }
}

} // verus!
