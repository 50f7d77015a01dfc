pub mod permutation;
pub mod lehmer_rank;
pub mod grouping;
pub mod parity;
