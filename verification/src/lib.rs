pub mod digits;
pub mod permutation_math;
pub mod cube_ops;
pub mod moves;
pub mod coords;
pub mod repr_cubie;
pub mod symmetries;
pub mod permutation_coord;
pub mod cubie_repr;
pub mod repr_coord;
pub mod three_solver;
pub mod repr_phase_1;
pub mod repr_phase_2;
pub mod random_cube;
pub mod conjugation;
pub mod puzzle;
pub mod scramble;
pub mod phase_1_repr;
pub mod facelets;
pub mod cubie_moves;
pub mod sym_coord;
pub mod validity;
pub mod move_powers;
pub mod transform_laws;
pub mod tables;
