use vstd::prelude::*;
use crate::coords::{
    CornerOrientCoord, CornerPermCoord, EEdgePermCoord, EdgeGroupCoord, EdgeOrientCoord,
    UDEdgePermCoord,
};
use crate::cubie_repr::{e_marks, e_values, padded, ud_values, CubieRepr};
use crate::digits::{digit_sum, digits_below, lsd_value};
use crate::permutation_math::permutation::is_permutation;
use crate::permutation_math::grouping::combo_rank;
use crate::permutation_math::lehmer_rank::lehmer_rank;

verus! {

/// A cube given by its six raw coordinates.
#[derive(Clone, Copy, PartialEq, Eq, Debug)]
pub struct ReprCoord {
    pub corner_orient: CornerOrientCoord,
    pub edge_orient: EdgeOrientCoord,
    pub edge_group: EdgeGroupCoord,
    pub corner_perm: CornerPermCoord,
    pub ud_edge_perm: UDEdgePermCoord,
    pub e_edge_perm: EEdgePermCoord,
}

impl ReprCoord {
    /// The cube with these coordinates; each coordinate read back from it is the one given
    /// (the orientation coordinates modulo 2187 and 2048).
    pub fn into_cubie(self) -> (r: CubieRepr)
        requires
            self.edge_group@ < 495,
            self.corner_perm@ < 40320,
            self.ud_edge_perm@ < 40320,
            self.e_edge_perm@ < 24,
        ensures
            digits_below(r.corner_orient@, 3, 8),
            lsd_value(r.corner_orient@, 3, 7) == self.corner_orient@ % 2187,
            digit_sum(r.corner_orient@, 8) % 3 == 0,
            digits_below(r.edge_orient@, 2, 12),
            lsd_value(r.edge_orient@, 2, 11) == self.edge_orient@ % 2048,
            digit_sum(r.edge_orient@, 12) % 2 == 0,
            combo_rank(e_marks(r.edge_perm@), 12, 3) == self.edge_group@,
            is_permutation(r.corner_perm@),
            lehmer_rank(r.corner_perm@, 8) == self.corner_perm@,
            is_permutation(r.edge_perm@),
            is_permutation(ud_values(r.edge_perm@, 12)),
            ud_values(r.edge_perm@, 12).len() == 8,
            lehmer_rank(padded(ud_values(r.edge_perm@, 12), 8), 8) == self.ud_edge_perm@,
            e_values(r.edge_perm@, 12).len() == 4,
            lehmer_rank(padded(e_values(r.edge_perm@, 12), 4), 4) == self.e_edge_perm@,
    {
        CubieRepr::from_coords(
            self.corner_orient.inner(),
            self.edge_orient.inner(),
            self.edge_group.inner(),
            self.corner_perm.inner(),
            self.ud_edge_perm.inner(),
            self.e_edge_perm.inner(),
        )
    }

    /// The six coordinates of a cube.
    pub fn from_cubie(value: CubieRepr) -> (r: Self)
        requires
            lsd_value(value.corner_orient@, 3, 7) <= u16::MAX,
            lsd_value(value.edge_orient@, 2, 11) <= u16::MAX,
            ud_values(value.edge_perm@, 12).len() <= 8,
            e_values(value.edge_perm@, 12).len() <= 4,
        ensures
            r.corner_orient@ == lsd_value(value.corner_orient@, 3, 7),
            r.edge_orient@ == lsd_value(value.edge_orient@, 2, 11),
            r.edge_group@ == combo_rank(e_marks(value.edge_perm@), 12, 3),
            r.corner_perm@ == lehmer_rank(value.corner_perm@, 8),
            r.ud_edge_perm@ == lehmer_rank(padded(ud_values(value.edge_perm@, 12), 8), 8),
            r.e_edge_perm@ == lehmer_rank(padded(e_values(value.edge_perm@, 12), 4), 4),
    {
        ReprCoord {
            corner_orient: CornerOrientCoord::from(value.coord_corner_orient()),
            edge_orient: EdgeOrientCoord::from(value.coord_edge_orient()),
            edge_group: EdgeGroupCoord::from(value.coord_edge_grouping()),
            corner_perm: CornerPermCoord::from(value.coord_corner_perm()),
            ud_edge_perm: UDEdgePermCoord::from(value.coord_ud_edge_perm()),
            e_edge_perm: EEdgePermCoord::from(value.coord_e_edge_perm()),
        }
    }
}

} // verus!
