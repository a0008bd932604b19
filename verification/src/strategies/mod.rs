//! Strategy implementations.
pub mod common;
pub mod expecti_iterative;
pub mod expectiminimax;
pub mod iterative;
pub mod pruning;
pub mod table;
