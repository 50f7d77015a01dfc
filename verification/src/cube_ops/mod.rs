pub mod coords;
pub mod corner_perm_combo_coord;
pub mod cube_sym;
pub mod edge_group_orient_combo_coord;
pub mod partial_reprs;
pub mod phase_1_repr;
pub mod repr_coord;
