//! What iterative deepening searches share: their options, their counters,
//! and the signal that stops a search from outside.
use vstd::prelude::*;

use std::sync::atomic::{AtomicBool, Ordering};
use std::sync::Arc;

use crate::interface::Evaluation;
use crate::outside::arc_clone;

verus! {

/// How a transposition table chooses which entry a new result replaces.
#[derive(Clone, Copy, Debug, PartialEq, Eq, Structural)]
pub enum Replacement {
    /// A new result always replaces the entry in its slot.
    Always,
    /// A new result replaces an entry of the same generation only if it was
    /// searched at least as deep.
    DepthPreferred,
    /// Each slot has two entries: one kept by depth, one always replaced.
    TwoTier,
}

/// The options of an iterative deepening search.
#[derive(Clone, Copy, Debug)]
pub struct IterativeOptions {
    /// The approximate size in bytes of the transposition table.
    pub table_byte_size: usize,
    /// How the transposition table replaces entries.
    pub strategy: Replacement,
    /// Whether moves after the first good one are probed with a null window.
    pub null_window_search: bool,
    /// The depth by which a null move search is reduced, if null moves are tried.
    pub null_move_depth: Option<u8>,
    /// Whether a node with a single move is searched one ply deeper.
    pub singular_extension: bool,
    /// The half width of the window around the previous value, if aspiration
    /// searches are made.
    pub aspiration_window: Option<Evaluation>,
    /// How deep noisy moves are searched past the depth limit.
    pub max_quiescence_depth: u8,
    /// The depth from which moves are reordered.
    pub min_reorder_moves_depth: u8,
    /// Whether the reply that caused a cutoff is tried first after the same move.
    pub countermove_table: bool,
    /// Whether moves are ordered by how often they caused a cutoff.
    pub countermove_history_table: bool,
    /// By how much the depth grows between two iterations.
    pub step_increment: u8,
    /// Whether the search records a report of each iteration, for its
    /// caller to print.
    pub verbose: bool,
}

impl IterativeOptions {
    /// The default options.
    pub fn new() -> (r: IterativeOptions)
        ensures
            r == (IterativeOptions {
                table_byte_size: 1000000,
                strategy: Replacement::TwoTier,
                null_window_search: true,
                null_move_depth: None,
                singular_extension: false,
                aspiration_window: None,
                max_quiescence_depth: 0,
                min_reorder_moves_depth: u8::MAX,
                countermove_table: false,
                countermove_history_table: false,
                step_increment: 1,
                verbose: false,
            }),
    {
        IterativeOptions {
            table_byte_size: 1000000,
            strategy: Replacement::TwoTier,
            null_window_search: true,
            null_move_depth: None,
            singular_extension: false,
            aspiration_window: None,
            max_quiescence_depth: 0,
            min_reorder_moves_depth: u8::MAX,
            countermove_table: false,
            countermove_history_table: false,
            step_increment: 1,
            verbose: false,
        }
    }

    /// These options with a transposition table of about `size` bytes.
    pub fn with_table_byte_size(self, size: usize) -> (r: IterativeOptions)
        ensures
            r == (IterativeOptions { table_byte_size: size, ..self }),
    {
        IterativeOptions { table_byte_size: size, ..self }
    }

    /// These options with the replacement strategy `strategy`.
    pub fn with_replacement_strategy(self, strategy: Replacement) -> (r: IterativeOptions)
        ensures
            r == (IterativeOptions { strategy, ..self }),
    {
        IterativeOptions { strategy, ..self }
    }

    /// These options with null window probing switched on or off.
    pub fn with_null_window_search(self, null_window_search: bool) -> (r: IterativeOptions)
        ensures
            r == (IterativeOptions { null_window_search, ..self }),
    {
        IterativeOptions { null_window_search, ..self }
    }

    /// These options with null move searches reduced by `depth_reduction`.
    pub fn with_null_move_depth(self, depth_reduction: u8) -> (r: IterativeOptions)
        ensures
            r == (IterativeOptions { null_move_depth: Some(depth_reduction), ..self }),
    {
        IterativeOptions { null_move_depth: Some(depth_reduction), ..self }
    }

    /// These options with nodes of a single move searched one ply deeper.
    pub fn with_singular_extension(self) -> (r: IterativeOptions)
        ensures
            r == (IterativeOptions { singular_extension: true, ..self }),
    {
        IterativeOptions { singular_extension: true, ..self }
    }

    /// These options with aspiration searches of half width `window`.
    pub fn with_aspiration_window(self, window: Evaluation) -> (r: IterativeOptions)
        ensures
            r == (IterativeOptions { aspiration_window: Some(window), ..self }),
    {
        IterativeOptions { aspiration_window: Some(window), ..self }
    }

    /// These options with noisy moves searched `depth` plies past the limit.
    pub fn with_quiescence_search_depth(self, depth: u8) -> (r: IterativeOptions)
        ensures
            r == (IterativeOptions { max_quiescence_depth: depth, ..self }),
    {
        IterativeOptions { max_quiescence_depth: depth, ..self }
    }

    /// These options with moves reordered from `depth` on.
    pub fn with_min_reorder_moves_depth(self, depth: u8) -> (r: IterativeOptions)
        ensures
            r == (IterativeOptions { min_reorder_moves_depth: depth, ..self }),
    {
        IterativeOptions { min_reorder_moves_depth: depth, ..self }
    }

    /// These options with the countermove table switched on.
    pub fn with_countermoves(self) -> (r: IterativeOptions)
        ensures
            r == (IterativeOptions { countermove_table: true, ..self }),
    {
        IterativeOptions { countermove_table: true, ..self }
    }

    /// These options with the countermove history table switched on.
    pub fn with_countermove_history(self) -> (r: IterativeOptions)
        ensures
            r == (IterativeOptions { countermove_history_table: true, ..self }),
    {
        IterativeOptions { countermove_history_table: true, ..self }
    }

    /// These options with the depth growing by two between iterations.
    pub fn with_double_step_increment(self) -> (r: IterativeOptions)
        ensures
            r == (IterativeOptions { step_increment: 2, ..self }),
    {
        IterativeOptions { step_increment: 2, ..self }
    }

    /// These options with progress reports switched on: the search records
    /// a report of each iteration.
    pub fn verbose(self) -> (r: IterativeOptions)
        ensures
            r == (IterativeOptions { verbose: true, ..self }),
    {
        IterativeOptions { verbose: true, ..self }
    }
}

/// The counters of a search.
#[derive(Clone, Copy, Debug)]
pub struct Stats {
    /// The nodes explored since the last reset.
    pub nodes_explored: u64,
    /// How often moves were generated.
    pub total_generate_move_calls: u64,
    /// How many moves were generated in all.
    pub total_generated_moves: u64,
    /// How many nodes were cut short by a null move search.
    pub null_move_cutoffs: u64,
}

/// `a + b`, or `u64::MAX` where that is larger.
pub open spec fn saturated_sum(a: int, b: int) -> int {
    if a + b > u64::MAX {
        u64::MAX as int
    } else {
        a + b
    }
}

impl Stats {
    /// All counters at zero.
    pub fn new() -> (r: Stats)
        ensures
            r == (Stats {
                nodes_explored: 0,
                total_generate_move_calls: 0,
                total_generated_moves: 0,
                null_move_cutoffs: 0,
            }),
    {
        Stats {
            nodes_explored: 0,
            total_generate_move_calls: 0,
            total_generated_moves: 0,
            null_move_cutoffs: 0,
        }
    }

    /// Sets all counters to zero.
    pub fn reset(&mut self)
        ensures
            *final(self) == (Stats {
                nodes_explored: 0,
                total_generate_move_calls: 0,
                total_generated_moves: 0,
                null_move_cutoffs: 0,
            }),
    {
        self.nodes_explored = 0;
        self.total_generate_move_calls = 0;
        self.total_generated_moves = 0;
        self.null_move_cutoffs = 0;
    }

    /// Counts one explored node.
    pub fn explore_node(&mut self)
        ensures
            final(self).nodes_explored == saturated_sum(old(self).nodes_explored as int, 1),
            final(self).total_generate_move_calls == old(self).total_generate_move_calls,
            final(self).total_generated_moves == old(self).total_generated_moves,
            final(self).null_move_cutoffs == old(self).null_move_cutoffs,
    {
        self.nodes_explored = self.nodes_explored.saturating_add(1);
    }

    /// Counts one node cut short by a null move search.
    pub fn null_move_cutoff(&mut self)
        ensures
            final(self).null_move_cutoffs == saturated_sum(old(self).null_move_cutoffs as int, 1),
            final(self).nodes_explored == old(self).nodes_explored,
            final(self).total_generate_move_calls == old(self).total_generate_move_calls,
            final(self).total_generated_moves == old(self).total_generated_moves,
    {
        self.null_move_cutoffs = self.null_move_cutoffs.saturating_add(1);
    }

    /// Counts one generation of `moves` moves.
    pub fn generate_moves(&mut self, moves: usize)
        ensures
            final(self).nodes_explored == old(self).nodes_explored,
            final(self).null_move_cutoffs == old(self).null_move_cutoffs,
            final(self).total_generate_move_calls == saturated_sum(
                old(self).total_generate_move_calls as int,
                1,
            ),
            final(self).total_generated_moves == saturated_sum(
                old(self).total_generated_moves as int,
                moves as int,
            ),
    {
        self.total_generate_move_calls = self.total_generate_move_calls.saturating_add(1);
        let n: u64 = if moves as u128 > u64::MAX as u128 {
            u64::MAX
        } else {
            moves as u64
        };
        self.total_generated_moves = self.total_generated_moves.saturating_add(n);
    }
}

/// A handle that stops a running search from another thread.
pub struct SearchStopSignal(pub(crate) Arc<AtomicBool>);

impl SearchStopSignal {
    /// The stop flag that this handle raises.
    pub closed spec fn flag(&self) -> Arc<AtomicBool> {
        self.0
    }

    /// The flag of a handle is the one it was made with.
    pub(crate) proof fn lemma_flag(&self)
        ensures
            self.flag() == self.0,
    {
    }

    /// Asks the search that handed out this signal to stop.
    pub fn stop(&self) {
        raise_flag(&self.0);
    }
}

/// A new stop flag, down.
pub(crate) fn new_flag() -> Arc<AtomicBool> {
    Arc::new(AtomicBool::new(false))
}

/// Raises the stop flag.
pub(crate) fn raise_flag(flag: &Arc<AtomicBool>) {
    flag.store(true, Ordering::Relaxed);
}

/// Lowers the stop flag.
pub(crate) fn lower_flag(flag: &Arc<AtomicBool>) {
    flag.store(false, Ordering::Relaxed);
}

/// Whether the stop flag is raised; another thread may raise it at any
/// time, so nothing is known of the answer.
pub(crate) fn flag_is_raised(flag: &Arc<AtomicBool>) -> bool {
    flag.load(Ordering::Relaxed)
}

/// Another handle on the same stop flag.
pub(crate) fn share_flag(flag: &Arc<AtomicBool>) -> (r: Arc<AtomicBool>)
    ensures
        r == *flag,
{
    arc_clone(flag)
}

} // verus!
