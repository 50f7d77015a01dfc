pub mod corner_orient;
pub mod corner_perm;
pub mod e_edge_perm;
pub mod edge_group;
pub mod edge_group_orient;


pub mod edge_orient;
pub mod edge_perm;
pub mod ud_edge_perm;
