//! Expectiminimax game tree search, for games with chance nodes: a depth
//! limited search (`strategies::expectiminimax`) and an iterative deepening
//! search with a transposition table (`strategies::expecti_iterative`).
//!
//! Probabilities are fixed-point numbers: `PROBABILITY_ONE` stands for one.
pub mod interface;
mod outside;
pub mod strategies;
pub mod util;

pub use interface::{
    Evaluation, Evaluator, Game, Probability, StochasticGame, Strategy, TurnBasedGame,
    TurnBasedGameEvaluator, TurnBasedWinner, Winner, BEST_EVAL, PROBABILITY_ONE, WORST_EVAL,
};
