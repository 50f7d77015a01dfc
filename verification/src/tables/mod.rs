pub mod grouped_edge_moves;
pub mod prune_phase_1;
pub mod prune_phase_2;
