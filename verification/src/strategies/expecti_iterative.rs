//! An implementation of iterative deepening evaluation.
//!
//! Search and evaluate at depth 1, then start over at depth 2, then depth 3,
//! etc. Can keep going until a maximum depth or maximum time or either. Uses
//! a transposition table to reuse information from previous iterations.
use vstd::prelude::*;

use std::sync::atomic::AtomicBool;
use std::sync::Arc;

use crate::interface::{
    Evaluation, Evaluator, Game, StochasticGame, Strategy, TurnBasedGame, TurnBasedGameEvaluator,
    TurnBasedWinner, BEST_EVAL, WORST_EVAL,
};
use crate::outside::{
    zero_length, at_or_after, checked_deadline, duration_from_secs, duration_is_zero, duration_zero, elapsed,
    now, shuffle, thread_rng,
};
use crate::strategies::common::{
    stable_sorted_desc, clamp_value, clamped, lemma_map_permutation, move_to_front, sort_by_key_desc, unclamp_value, unclamped,
    CounterMoves, ValueMove,
};
use crate::strategies::expectiminimax::{
    chance_total, chance_value, lemma_chance_total_sums, leaf_value, max_fold, min_fold,
    round_chance, saturate_i16, search_value, weighted_sum,
};
use crate::strategies::iterative::{
    flag_is_raised, lower_flag, new_flag, raise_flag, saturated_sum, share_flag, IterativeOptions,
    Replacement, SearchStopSignal, Stats,
};
use crate::strategies::table::{entry_of, flag_for, Entry, TranspositionTable};

verus! {

broadcast use vstd::seq_lib::group_to_multiset_ensures;

/// How many singular extensions a path of the search may make; the bound
/// keeps the search finite on games where single moves follow each other.
pub const MAX_SINGULAR_EXTENSIONS: u8 = 255;

/// How many timeout checks pass between two readings of the clock.
pub const CLOCK_CHECK_INTERVAL: u32 = 100;

/// `a + b`, saturated to the range of `Evaluation`.
fn add_eval(a: Evaluation, b: Evaluation) -> (r: Evaluation)
    ensures
        r == saturate_i16(a + b),
{
    let x: i32 = a as i32 + b as i32;
    if x > 32767 {
        32767
    } else if x < -32768 {
        -32768
    } else {
        x as i16
    }
}

/// `a - b`, saturated to the range of `Evaluation`.
fn sub_eval(a: Evaluation, b: Evaluation) -> (r: Evaluation)
    ensures
        r == saturate_i16(a - b),
{
    let x: i32 = a as i32 - b as i32;
    if x > 32767 {
        32767
    } else if x < -32768 {
        -32768
    } else {
        x as i16
    }
}

/// The clock check counter after a check that did not stop the search:
/// without a deadline it stays; with one it counts up to
/// `CLOCK_CHECK_INTERVAL - 1`, and the check after that reads the clock and
/// starts it again at zero.
pub open spec fn counter_after_check(has_deadline: bool, counter: u32) -> u32 {
    if !has_deadline {
        counter
    } else if counter < CLOCK_CHECK_INTERVAL - 1 {
        (counter + 1) as u32
    } else {
        0
    }
}

/// The value that the search gives to `s` with one move left to make,
/// where the moves of `s` are searched in the order `ms`, the table holds
/// nothing, and null moves, singular extensions and quiescence search are
/// off: a side to move without a move loses; a window whose upper bound is
/// at most `WORST_EVAL` is cut at once; otherwise a chance node takes the
/// rounded probability weighted sum of the leaves, the searching player the
/// best leaf and the opponent the worst (with the cutoffs of `max_fold` and
/// `min_fold`), clamped.
pub open spec fn shallow_value<E: Evaluator>(
    eval: E,
    s: <E::G as Game>::S,
    ms: Seq<<E::G as Game>::M>,
    player: i8,
    alpha: int,
    beta: int,
) -> int where E::G: TurnBasedGame + StochasticGame {
    if ms.len() == 0 {
        if <E::G as TurnBasedGame>::player_of(s) == player {
            WORST_EVAL as int
        } else {
            BEST_EVAL as int
        }
    } else if WORST_EVAL >= beta {
        beta
    } else if <E::G as StochasticGame>::is_random_of(s) {
        clamped(chance_value(chance_total(eval, s, ms, 0, 0, player, alpha, beta)))
    } else if <E::G as TurnBasedGame>::player_of(s) == player {
        clamped(max_fold(eval, s, ms, 0, 0, player, alpha, beta, WORST_EVAL as int))
    } else {
        clamped(min_fold(eval, s, ms, 0, 0, player, alpha, beta, BEST_EVAL as int))
    }
}

/// The value that the iterative search gives to `s` with `depth` moves
/// left, for `player`, with the window `alpha`..`beta`, where it finds
/// nothing in its table and runs without null moves, singular extensions,
/// quiescence search and move ordering tables; `nws` says whether, after a
/// good move, the others are first probed with a null window.
///
/// A side to move without a move loses; a window whose upper bound is at most
/// `WORST_EVAL` is cut at once; a chance node takes the rounded probability
/// weighted sum of its children, the searching player the best child and
/// the opponent the worst (`iterative_max`, `iterative_min`); the result
/// is clamped, so that a quicker win scores higher.
pub open spec fn iterative_value<E: Evaluator>(
    eval: E,
    nws: bool,
    s: <E::G as Game>::S,
    depth: nat,
    player: i8,
    alpha: int,
    beta: int,
) -> int where E::G: TurnBasedGame + StochasticGame
    decreases depth, 2nat, 0nat,
{
    if depth == 0 {
        leaf_value(eval, s, player)
    } else {
        let ms = <E::G as Game>::moves_of(s);
        if ms.len() == 0 {
            if <E::G as TurnBasedGame>::player_of(s) == player {
                WORST_EVAL as int
            } else {
                BEST_EVAL as int
            }
        } else if WORST_EVAL >= beta {
            beta
        } else if <E::G as StochasticGame>::is_random_of(s) {
            clamped(
                chance_value(
                    iterative_chance(eval, nws, s, ms, 0, (depth - 1) as nat, player, alpha, beta),
                ),
            )
        } else if <E::G as TurnBasedGame>::player_of(s) == player {
            clamped(
                iterative_max(
                    eval,
                    nws,
                    s,
                    ms,
                    0,
                    (depth - 1) as nat,
                    player,
                    alpha,
                    beta,
                    WORST_EVAL as int,
                    false,
                ),
            )
        } else {
            clamped(
                iterative_min(
                    eval,
                    nws,
                    s,
                    ms,
                    0,
                    (depth - 1) as nat,
                    player,
                    alpha,
                    beta,
                    BEST_EVAL as int,
                    false,
                ),
            )
        }
    }
}

/// The value of the child `t` searched to `cdepth`: with a null window above
/// `alpha` first where `null_window` holds, searched again with the window
/// from the probe to `beta` where the probe falls inside the window.
pub open spec fn iterative_child<E: Evaluator>(
    eval: E,
    nws: bool,
    t: <E::G as Game>::S,
    cdepth: nat,
    player: i8,
    alpha: int,
    beta: int,
    null_window: bool,
) -> int where E::G: TurnBasedGame + StochasticGame
    decreases cdepth + 1, 0nat, 0nat,
{
    if null_window {
        let probe = iterative_value(eval, nws, t, cdepth, player, alpha, saturate_i16(alpha + 1));
        if probe > alpha && probe < beta {
            iterative_value(eval, nws, t, cdepth, player, probe, beta)
        } else {
            probe
        }
    } else {
        iterative_value(eval, nws, t, cdepth, player, alpha, beta)
    }
}

/// The sum, over the moves of `ms` from index `i` on, of each move's
/// probability times the value of the state it leads to.
pub open spec fn iterative_chance<E: Evaluator>(
    eval: E,
    nws: bool,
    s: <E::G as Game>::S,
    ms: Seq<<E::G as Game>::M>,
    i: nat,
    cdepth: nat,
    player: i8,
    alpha: int,
    beta: int,
) -> int where E::G: TurnBasedGame + StochasticGame
    decreases cdepth + 1, 1nat, ms.len() - i,
{
    if i >= ms.len() {
        0
    } else {
        <E::G as StochasticGame>::probability_of(s, ms[i as int]) * iterative_value(
            eval,
            nws,
            <E::G as Game>::next_state(s, ms[i as int]),
            cdepth,
            player,
            alpha,
            beta,
        ) + iterative_chance(eval, nws, s, ms, i + 1, cdepth, player, alpha, beta)
    }
}

/// The searching player's node, from the move at index `i` of `ms` on, with
/// the best value so far `best`: a child at or above `alpha` raises `alpha`
/// and turns null window probes on (where `nws` allows), a best value at or
/// above `beta` cuts the rest.
pub open spec fn iterative_max<E: Evaluator>(
    eval: E,
    nws: bool,
    s: <E::G as Game>::S,
    ms: Seq<<E::G as Game>::M>,
    i: nat,
    cdepth: nat,
    player: i8,
    alpha: int,
    beta: int,
    best: int,
    null_window: bool,
) -> int where E::G: TurnBasedGame + StochasticGame
    decreases cdepth + 1, 1nat, ms.len() - i,
{
    if i >= ms.len() {
        best
    } else {
        let value = iterative_child(
            eval,
            nws,
            <E::G as Game>::next_state(s, ms[i as int]),
            cdepth,
            player,
            alpha,
            beta,
            null_window,
        );
        let next_best = if value > best {
            value
        } else {
            best
        };
        if next_best >= beta {
            next_best
        } else if value >= alpha {
            iterative_max(eval, nws, s, ms, i + 1, cdepth, player, value, beta, next_best, nws)
        } else {
            iterative_max(eval, nws, s, ms, i + 1, cdepth, player, alpha, beta, next_best, null_window)
        }
    }
}

/// The opponent's node, from the move at index `i` of `ms` on, with the
/// lowest value so far `best`: while the lowest value is below `beta`, the
/// last child's value becomes `beta` and null window probes turn on (where
/// `nws` allows); a lowest value at or below `alpha` cuts the rest.
pub open spec fn iterative_min<E: Evaluator>(
    eval: E,
    nws: bool,
    s: <E::G as Game>::S,
    ms: Seq<<E::G as Game>::M>,
    i: nat,
    cdepth: nat,
    player: i8,
    alpha: int,
    beta: int,
    best: int,
    null_window: bool,
) -> int where E::G: TurnBasedGame + StochasticGame
    decreases cdepth + 1, 1nat, ms.len() - i,
{
    if i >= ms.len() {
        best
    } else {
        let value = iterative_child(
            eval,
            nws,
            <E::G as Game>::next_state(s, ms[i as int]),
            cdepth,
            player,
            alpha,
            beta,
            null_window,
        );
        let next_best = if value < best {
            value
        } else {
            best
        };
        if next_best <= alpha {
            next_best
        } else if next_best < beta {
            iterative_min(eval, nws, s, ms, i + 1, cdepth, player, alpha, value, next_best, nws)
        } else {
            iterative_min(eval, nws, s, ms, i + 1, cdepth, player, alpha, beta, next_best, null_window)
        }
    }
}

/// The quiescence node of `s` one move above the leaves, from the noisy move
/// at index `i` of `ms` on: each move's state scores its leaf value; the
/// searching player (`maximizing`) keeps the best value and raises `alpha`,
/// the opponent keeps the worst and lowers `beta`, until `alpha` reaches
/// `beta`.
pub open spec fn noisy_leaf_fold<E: Evaluator>(
    eval: E,
    s: <E::G as Game>::S,
    ms: Seq<<E::G as Game>::M>,
    i: nat,
    player: i8,
    alpha: int,
    beta: int,
    best: int,
    maximizing: bool,
) -> int where E::G: TurnBasedGame
    decreases ms.len() - i,
{
    if i >= ms.len() {
        best
    } else {
        let value = leaf_value(eval, <E::G as Game>::next_state(s, ms[i as int]), player);
        let next_best = if maximizing {
            if value > best {
                value
            } else {
                best
            }
        } else if value < best {
            value
        } else {
            best
        };
        let next_alpha = if maximizing && value > alpha {
            value
        } else {
            alpha
        };
        let next_beta = if !maximizing && value < beta {
            value
        } else {
            beta
        };
        if next_alpha >= next_beta {
            next_best
        } else {
            noisy_leaf_fold(eval, s, ms, i + 1, player, next_alpha, next_beta, next_best, maximizing)
        }
    }
}

/// A chance node of the iterative search is valued by its outcomes: where
/// `s` is a chance node with moves, `depth` moves remain and the window is
/// not cut at once, its value is the clamped, rounded sum, over its moves,
/// of each move's probability times the value of the state it leads to with
/// one move less, whoever is to move in `s`.
pub proof fn lemma_iterative_chance_node_averages_outcomes<E: Evaluator>(
    eval: E,
    nws: bool,
    s: <E::G as Game>::S,
    depth: nat,
    player: i8,
    alpha: int,
    beta: int,
) where E::G: TurnBasedGame + StochasticGame
    requires
        depth >= 1,
        <E::G as StochasticGame>::is_random_of(s),
        <E::G as Game>::moves_of(s).len() > 0,
        beta > WORST_EVAL,
    ensures
        iterative_value(eval, nws, s, depth, player, alpha, beta) == clamped(
            chance_value(
                weighted_sum(
                    <E::G as Game>::moves_of(s),
                    |m: <E::G as Game>::M| <E::G as StochasticGame>::probability_of(s, m) as int,
                    |m: <E::G as Game>::M|
                        iterative_value(
                            eval,
                            nws,
                            <E::G as Game>::next_state(s, m),
                            (depth - 1) as nat,
                            player,
                            alpha,
                            beta,
                        ),
                ),
            ),
        ),
{
    let ms = <E::G as Game>::moves_of(s);
    lemma_iterative_chance_sums(eval, nws, s, ms, 0, (depth - 1) as nat, player, alpha, beta);
    assert(ms.take(0) =~= Seq::<<E::G as Game>::M>::empty());
}

/// The sum that `iterative_chance` makes from index `i` on, with the
/// weighted sum of the moves before `i`, is the weighted sum of all the moves.
proof fn lemma_iterative_chance_sums<E: Evaluator>(
    eval: E,
    nws: bool,
    s: <E::G as Game>::S,
    ms: Seq<<E::G as Game>::M>,
    i: nat,
    cdepth: nat,
    player: i8,
    alpha: int,
    beta: int,
) where E::G: TurnBasedGame + StochasticGame
    requires
        i <= ms.len(),
    ensures
        weighted_sum(
            ms.take(i as int),
            |m: <E::G as Game>::M| <E::G as StochasticGame>::probability_of(s, m) as int,
            |m: <E::G as Game>::M|
                iterative_value(
                    eval,
                    nws,
                    <E::G as Game>::next_state(s, m),
                    cdepth,
                    player,
                    alpha,
                    beta,
                ),
        ) + iterative_chance(eval, nws, s, ms, i, cdepth, player, alpha, beta) == weighted_sum(
            ms,
            |m: <E::G as Game>::M| <E::G as StochasticGame>::probability_of(s, m) as int,
            |m: <E::G as Game>::M|
                iterative_value(
                    eval,
                    nws,
                    <E::G as Game>::next_state(s, m),
                    cdepth,
                    player,
                    alpha,
                    beta,
                ),
        ),
    decreases ms.len() - i,
{
    let w = |m: <E::G as Game>::M| <E::G as StochasticGame>::probability_of(s, m) as int;
    let v = |m: <E::G as Game>::M|
        iterative_value(eval, nws, <E::G as Game>::next_state(s, m), cdepth, player, alpha, beta);
    if i == ms.len() {
        assert(ms.take(i as int) =~= ms);
    } else {
        lemma_iterative_chance_sums(eval, nws, s, ms, i + 1, cdepth, player, alpha, beta);
        assert(ms.take((i + 1) as int).drop_last() =~= ms.take(i as int));
        assert(ms.take((i + 1) as int).last() == ms[i as int]);
        assert(weighted_sum(ms.take((i + 1) as int), w, v) == weighted_sum(ms.take(i as int), w, v)
            + w(ms[i as int]) * v(ms[i as int]));
    }
}

/// A chance node one move above the leaves is valued by its outcomes:
/// where `s` is a chance node, `ms` is not empty and the window is not cut
/// at once, `shallow_value` is the clamped, rounded sum, over `ms`, of each
/// move's probability times the leaf value of the state it leads to,
/// whoever is to move in `s`.
pub proof fn lemma_shallow_chance_node_averages_leaves<E: Evaluator>(
    eval: E,
    s: <E::G as Game>::S,
    ms: Seq<<E::G as Game>::M>,
    player: i8,
    alpha: int,
    beta: int,
) where E::G: TurnBasedGame + StochasticGame
    requires
        <E::G as StochasticGame>::is_random_of(s),
        ms.len() > 0,
        beta > WORST_EVAL,
    ensures
        shallow_value(eval, s, ms, player, alpha, beta) == clamped(
            chance_value(
                weighted_sum(
                    ms,
                    |m: <E::G as Game>::M| <E::G as StochasticGame>::probability_of(s, m) as int,
                    |m: <E::G as Game>::M| leaf_value(eval, <E::G as Game>::next_state(s, m), player),
                ),
            ),
        ),
{
    lemma_chance_total_sums(eval, s, ms, 0, 0, player, alpha, beta);
    assert(ms.take(0) =~= Seq::<<E::G as Game>::M>::empty());
    let v1 = |m: <E::G as Game>::M|
        search_value(eval, <E::G as Game>::next_state(s, m), 0, player, alpha, beta);
    let v2 = |m: <E::G as Game>::M| leaf_value(eval, <E::G as Game>::next_state(s, m), player);
    assert(v1 =~= v2);
}

/// The window of an aspiration search around `target` of half width
/// `window`: no lower than `WORST_EVAL` below, saturated above.
pub open spec fn aspiration_bounds(target: Evaluation, window: Evaluation) -> (int, int) {
    let low = saturate_i16(target - window);
    (if low > WORST_EVAL {
        low
    } else {
        WORST_EVAL as int
    }, saturate_i16(target + window))
}

/// The first depth of the iterations: chosen so that steps of `step` from
/// it reach `max_depth` exactly.
pub open spec fn first_depth(max_depth: u8, step: u8) -> int {
    let d = max_depth as int % step as int;
    if d == 0 {
        step as int
    } else {
        d
    }
}

/// The iterations, starting at `first_depth` and growing by `step`, reach
/// the maximum depth exactly, and the first one is at most one step deep.
pub proof fn lemma_iterations_reach_max_depth(max_depth: u8, step: u8)
    requires
        step > 0,
        max_depth > 0,
    ensures
        1 <= first_depth(max_depth, step) <= step,
        first_depth(max_depth, step) <= max_depth,
        (max_depth - first_depth(max_depth, step)) % (step as int) == 0,
{
    let d = max_depth as int % step as int;
    if d == 0 {
        assert(max_depth as int >= step) by {
            if (max_depth as int) < step as int {
                vstd::arithmetic::div_mod::lemma_small_mod(max_depth as nat, step as nat);
            }
        }
        assert((max_depth - step) as int % step as int == 0) by {
            vstd::arithmetic::div_mod::lemma_mod_sub_multiples_vanish(
                max_depth as int,
                step as int,
            );
        }
    } else {
        vstd::arithmetic::div_mod::lemma_fundamental_div_mod(max_depth as int, step as int);
        let q = max_depth as int / step as int;
        assert(max_depth as int - d == step * q);
        vstd::arithmetic::div_mod::lemma_mod_multiples_basic(q, step as int);
        assert((step * q) % (step as int) == 0) by {
            vstd::arithmetic::mul::lemma_mul_is_commutative(step as int, q);
        }
    }
}

/// `completed` is the depth of the last of `iterations` completed
/// iterations that start at `first_depth` and grow by `step`.
pub open spec fn completed_iterations(completed: u8, iterations: nat, max_depth: u8, step: u8) -> bool {
    let first = first_depth(max_depth, step);
    &&& completed >= first
    &&& (completed - first) % (step as int) == 0
    &&& iterations * step == completed - first + step
}

/// The key by which values sort: the order of values, as unsigned numbers.
pub open spec fn value_key(v: Evaluation) -> u64 {
    (v as int + 32768) as u64
}

/// The moves of `vms`, in order.
pub open spec fn moves_of_values<M>(vms: Seq<ValueMove<M>>) -> Seq<M> {
    vms.map_values(|vm: ValueMove<M>| vm.m)
}

/// The search of one iterative deepening step: a depth limited search
/// with a transposition table, move ordering, and a clock.
struct ExpectiMinimaxer<E: TurnBasedGameEvaluator> where E::G: TurnBasedGame + StochasticGame {
    timeout: Arc<AtomicBool>,
    deadline: Option<std::time::Instant>,
    timeout_counter: u32,
    // Whether a timeout check has answered that the search must stop since
    // the clock was last started.
    stopped: bool,
    table: TranspositionTable<<E::G as Game>::M>,
    countermoves: CounterMoves<E::G>,
    eval: E,
    opts: IterativeOptions,
    stats: Stats,
    // How many table lookups of the searches so far found an entry.
    found: Ghost<nat>,
}

impl<E: TurnBasedGameEvaluator> ExpectiMinimaxer<E> where
    E::G: TurnBasedGame + StochasticGame,
    <E::G as Game>::M: Eq,
 {
    /// The table is well formed.
    spec fn wf(&self) -> bool {
        self.table.wf()
    }

    /// `self` searches like `other`: same evaluator, same options.
    spec fn same_search(&self, other: &Self) -> bool {
        &&& self.wf()
        &&& self.eval == other.eval
        &&& self.opts == other.opts
        &&& self.table.replacement() == other.table.replacement()
        &&& other.stopped ==> self.stopped
        &&& self.stats.nodes_explored >= other.stats.nodes_explored
        &&& self.found@ >= other.found@
        &&& self.countermoves.countermoves().len() == other.countermoves.countermoves().len()
        &&& self.countermoves.history().len() == other.countermoves.history().len()
    }

    /// The search runs without null moves, singular extensions, quiescence
    /// search and move ordering tables, so that, where the table is not
    /// used, its value is `iterative_value`.
    spec fn plain(&self) -> bool {
        &&& self.opts.max_quiescence_depth == 0
        &&& self.opts.null_move_depth is None
        &&& !self.opts.singular_extension
        &&& self.countermoves.countermoves().len() == 0
        &&& self.countermoves.history().len() == 0
    }

    fn new(table: TranspositionTable<<E::G as Game>::M>, eval: E, opts: IterativeOptions) -> (r:
        Self)
        requires
            table.wf(),
        ensures
            r.wf(),
            r.eval == eval,
            r.opts == opts,
            r.table == table,
            r.stats == (Stats {
                nodes_explored: 0,
                total_generate_move_calls: 0,
                total_generated_moves: 0,
                null_move_cutoffs: 0,
            }),
            !r.stopped,
            r.deadline is None,
            r.timeout_counter == 0,
            opts.countermove_table <==> r.countermoves.countermoves().len() > 0,
            opts.countermove_history_table <==> r.countermoves.history().len() > 0,
            forall|i: int|
                0 <= i < r.countermoves.countermoves().len() ==> r.countermoves.countermoves()[i] is None,
            forall|i: int| 0 <= i < r.countermoves.history().len() ==> r.countermoves.history()[i] == 0,
    {
        Self {
            timeout: new_flag(),
            deadline: None,
            timeout_counter: 0,
            stopped: false,
            table,
            countermoves: CounterMoves::new(opts.countermove_table, opts.countermove_history_table),
            eval,
            opts,
            stats: Stats::new(),
            found: Ghost(0),
        }
    }

    /// Returns a handle to the signal used to stop the search.
    /// This should be obtained before starting a search.
    fn next_search_stop_signal(&self) -> (r: SearchStopSignal)
        ensures
            r.flag() == self.timeout,
    {
        let r = SearchStopSignal(share_flag(&self.timeout));
        proof {
            r.lemma_flag();
        }
        r
    }

    /// Starts the clock for a search of at most `duration`; a zero duration
    /// means no limit.
    fn reset_timeout(&mut self, duration: std::time::Duration)
        ensures
            final(self).table == old(self).table,
            final(self).countermoves == old(self).countermoves,
            final(self).eval == old(self).eval,
            final(self).opts == old(self).opts,
            final(self).stats == old(self).stats,
            final(self).found == old(self).found,
            !final(self).stopped,
            zero_length(duration) ==> final(self).deadline is None,
    {
        lower_flag(&self.timeout);
        self.timeout_counter = 0;
        self.stopped = false;
        if duration_is_zero(&duration) {
            self.deadline = None;
        } else {
            let start = now();
            self.deadline = checked_deadline(&start, duration);
        }
    }

    /// Whether the search must stop: the stop signal was raised, or the
    /// clock, read every `CLOCK_CHECK_INTERVAL` checks, passed the deadline.
    fn timeout_check(&mut self) -> (r: bool)
        ensures
            final(self).table == old(self).table,
            final(self).countermoves == old(self).countermoves,
            final(self).eval == old(self).eval,
            final(self).opts == old(self).opts,
            final(self).stats == old(self).stats,
            final(self).found == old(self).found,
            final(self).stopped == (old(self).stopped || r),
            final(self).timeout == old(self).timeout,
            final(self).deadline == old(self).deadline,
            !r ==> final(self).timeout_counter == counter_after_check(
                old(self).deadline is Some,
                old(self).timeout_counter,
            ),
            r ==> final(self).timeout_counter == old(self).timeout_counter || (old(
                self,
            ).deadline is Some && final(self).timeout_counter == 0 && old(self).timeout_counter
                >= CLOCK_CHECK_INTERVAL - 1),
    {
        if flag_is_raised(&self.timeout) {
            self.stopped = true;
            return true;
        }
        match &self.deadline {
            None => false,
            Some(deadline) => {
                if self.timeout_counter < CLOCK_CHECK_INTERVAL - 1 {
                    self.timeout_counter = self.timeout_counter + 1;
                    false
                } else {
                    self.timeout_counter = 0;
                    let t = now();
                    if at_or_after(&t, deadline) {
                        raise_flag(&self.timeout);
                        self.stopped = true;
                        true
                    } else {
                        false
                    }
                }
            },
        }
    }

    /// The search of the state that `m` leads to from `s`; `s` is left as it was.
    fn child_search(
        &mut self,
        s: &mut <E::G as Game>::S,
        m: <E::G as Game>::M,
        prev_move: Option<<E::G as Game>::M>,
        cdepth: u8,
        extensions: u8,
        player_to_move: i8,
        alpha: Evaluation,
        beta: Evaluation,
    ) -> (r: Option<Evaluation>)
        requires
            old(self).wf(),
        ensures
            r is None ==> final(self).stopped,
            final(self).same_search(old(self)),
            *final(s) == *old(s),
            r is Some ==> final(self).stats.nodes_explored >= saturated_sum(
                old(self).stats.nodes_explored as int,
                1,
            ),
            cdepth == 0 && old(self).opts.max_quiescence_depth == 0 ==> (r matches Some(v) ==> v
                == leaf_value(
                old(self).eval,
                <E::G as Game>::next_state(*old(s), m),
                player_to_move,
            )),
            old(self).plain() && final(self).found@ == old(self).found@ ==> (r matches Some(v) ==> v
                == iterative_value(
                old(self).eval,
                old(self).opts.null_window_search,
                <E::G as Game>::next_state(*old(s), m),
                cdepth as nat,
                player_to_move,
                alpha as int,
                beta as int,
            )),
        decreases extensions, cdepth + 1, 0nat,
    {
        match <E::G as Game>::apply(s, m) {
            Some(mut next) => self.expectiminimax(
                &mut next,
                prev_move,
                cdepth,
                extensions,
                player_to_move,
                alpha,
                beta,
            ),
            None => {
                let r = self.expectiminimax(
                    s,
                    prev_move,
                    cdepth,
                    extensions,
                    player_to_move,
                    alpha,
                    beta,
                );
                <E::G as Game>::undo(s, m);
                r
            },
        }
    }

    /// Tries to cut the node short with the null move of the game, if it
    /// has one and null moves are switched on (see `null_move_search`).
    fn null_move_check(
        &mut self,
        s: &mut <E::G as Game>::S,
        depth: u8,
        extensions: u8,
        player_to_move: i8,
        beta: Evaluation,
    ) -> (r: Option<Evaluation>)
        requires
            old(self).wf(),
        ensures
            r is None ==> final(self).stopped,
            final(self).same_search(old(self)),
            *final(s) == *old(s),
            r matches Some(v) ==> v == WORST_EVAL || v >= beta,
            old(self).opts.null_move_depth is None ==> r == Some(WORST_EVAL),
            old(self).opts.null_move_depth matches Some(d) && (d == 0 || depth <= d) ==> r == Some(
                WORST_EVAL,
            ),
            old(self).eval.evaluation_of(*old(s)) < beta ==> r == Some(WORST_EVAL),
            r matches Some(v) && v != WORST_EVAL ==> final(self).stats.nodes_explored
                >= saturated_sum(old(self).stats.nodes_explored as int, 1),
            (old(self).opts.null_move_depth matches Some(d) ==> d == 0 || depth <= d
                || old(self).eval.evaluation_of(*old(s)) < beta) ==> *final(self) == *old(self),
        decreases extensions, depth, 2nat,
    {
        let null_move = match self.opts.null_move_depth {
            Some(_) => <E::G as Game>::null_move(s),
            None => None,
        };
        self.null_move_search(s, null_move, depth, extensions, player_to_move, beta)
    }

    /// Tries to cut the node short with `null_move`: if passing the turn
    /// still scores at least `beta` in a search reduced by the null move
    /// depth, returns that score; otherwise returns `WORST_EVAL`, which cuts
    /// nothing. The search is made only where there is a null move, the
    /// reduction is positive and leaves some depth, and the evaluation of
    /// `s` is at least `beta`.
    fn null_move_search(
        &mut self,
        s: &mut <E::G as Game>::S,
        null_move: Option<<E::G as Game>::M>,
        depth: u8,
        extensions: u8,
        player_to_move: i8,
        beta: Evaluation,
    ) -> (r: Option<Evaluation>)
        requires
            old(self).wf(),
        ensures
            r is None ==> final(self).stopped,
            final(self).same_search(old(self)),
            *final(s) == *old(s),
            r matches Some(v) ==> v == WORST_EVAL || v >= beta,
            old(self).opts.null_move_depth is None ==> r == Some(WORST_EVAL),
            old(self).opts.null_move_depth matches Some(d) && (d == 0 || depth <= d) ==> r == Some(
                WORST_EVAL,
            ),
            old(self).eval.evaluation_of(*old(s)) < beta ==> r == Some(WORST_EVAL),
            r matches Some(v) && v != WORST_EVAL ==> final(self).stats.nodes_explored
                >= saturated_sum(old(self).stats.nodes_explored as int, 1),
            (old(self).opts.null_move_depth matches Some(d) ==> d == 0 || depth <= d
                || old(self).eval.evaluation_of(*old(s)) < beta) ==> *final(self) == *old(self),
            null_move is None ==> r == Some(WORST_EVAL) && *final(self) == *old(self),
        decreases extensions, depth, 1nat,
    {
        if let Some(depth_reduction) = self.opts.null_move_depth {
            if let Some(null_move) = null_move {
                // A reduction of zero would search the same node again.
                if depth_reduction > 0 && depth > depth_reduction && self.eval.evaluate(s)
                    >= beta {
                    // If we just pass and let the opponent play this position
                    // (at reduced depth), is the result still so good that we
                    // shouldn't bother with a full search?
                    let value = self.child_search(
                        s,
                        null_move,
                        None,
                        depth - depth_reduction,
                        extensions,
                        player_to_move,
                        sub_eval(beta, 1),
                        beta,
                    );
                    match value {
                        None => {
                            return None;
                        },
                        Some(v) => {
                            if v >= beta {
                                return Some(v);
                            }
                        },
                    }
                }
            }
        }
        // If we didn't check, return a low value that won't trigger beta cutoff.
        Some(WORST_EVAL)
    }

    /// The quiescence search of the state that `m` leads to from `s`; `s`
    /// is left as it was.
    fn noisy_child(
        &mut self,
        s: &mut <E::G as Game>::S,
        m: <E::G as Game>::M,
        cdepth: u8,
        player_to_move: i8,
        alpha: Evaluation,
        beta: Evaluation,
    ) -> (r: Option<Evaluation>)
        requires
            old(self).wf(),
        ensures
            r is None ==> final(self).stopped,
            final(self).same_search(old(self)),
            final(self).table == old(self).table,
            *final(s) == *old(s),
            r matches Some(v) ==> (cdepth == 0 || <E::G as TurnBasedGame>::explicit_winner_of(
                <E::G as Game>::next_state(*old(s), m),
            ) is Some) ==> v == leaf_value(
                old(self).eval,
                <E::G as Game>::next_state(*old(s), m),
                player_to_move,
            ),
        decreases cdepth + 1, 0nat,
    {
        match <E::G as Game>::apply(s, m) {
            Some(mut next) => self.noisy_negamax(&mut next, cdepth, player_to_move, alpha, beta),
            None => {
                let r = self.noisy_negamax(s, cdepth, player_to_move, alpha, beta);
                <E::G as Game>::undo(s, m);
                r
            },
        }
    }

    /// Minimax only among noisy moves: a finished game scores its result, a
    /// state without noisy moves (or at depth zero) its evaluation; the
    /// searching player takes the best value of the noisy moves, the
    /// opponent the worst.
    fn noisy_negamax(
        &mut self,
        s: &mut <E::G as Game>::S,
        depth: u8,
        player_to_move: i8,
        alpha: Evaluation,
        beta: Evaluation,
    ) -> (r: Option<Evaluation>)
        requires
            old(self).wf(),
        ensures
            r is None ==> final(self).stopped,
            final(self).same_search(old(self)),
            final(self).table == old(self).table,
            *final(s) == *old(s),
            r matches Some(v) ==> match <E::G as TurnBasedGame>::explicit_winner_of(*old(s)) {
                Some(TurnBasedWinner::Player(p)) => v == if p == player_to_move {
                    BEST_EVAL
                } else {
                    WORST_EVAL
                },
                Some(TurnBasedWinner::Draw) => v == 0,
                None => depth == 0 ==> v == old(self).eval.evaluation_of(*old(s)),
            },
        decreases depth, 2nat,
    {
        if self.timeout_check() {
            return None;
        }
        if let Some(winner) = <E::G as TurnBasedGame>::get_explicit_winner(s) {
            return match winner {
                TurnBasedWinner::Player(p) => if p == player_to_move {
                    Some(BEST_EVAL)
                } else {
                    Some(WORST_EVAL)
                },
                TurnBasedWinner::Draw => Some(0),
            };
        }
        if depth == 0 {
            return Some(self.eval.evaluate(s));
        }
        let mut moves: Vec<<E::G as Game>::M> = Vec::new();
        self.eval.generate_noisy_moves(s, &mut moves);
        self.noisy_search(s, &moves, depth, player_to_move, alpha, beta)
    }

    /// The node of the quiescence search of `s` whose noisy moves are
    /// `moves`: with no noisy move, the evaluation of `s`; otherwise the
    /// searching player takes the best value of the states the moves lead
    /// to, the opponent the worst, until the window closes.
    fn noisy_search(
        &mut self,
        s: &mut <E::G as Game>::S,
        moves: &Vec<<E::G as Game>::M>,
        depth: u8,
        player_to_move: i8,
        alpha: Evaluation,
        beta: Evaluation,
    ) -> (r: Option<Evaluation>)
        requires
            old(self).wf(),
            depth > 0,
            explicit_winner_is_none::<E>(*old(s)),
        ensures
            r is None ==> final(self).stopped,
            final(self).same_search(old(self)),
            final(self).table == old(self).table,
            *final(s) == *old(s),
            moves@.len() == 0 ==> r == Some(old(self).eval.evaluation_of(*old(s)))
                && *final(self) == *old(self),
            depth == 1 && moves@.len() > 0 ==> (r matches Some(v) ==> v == noisy_leaf_fold(
                old(self).eval,
                *old(s),
                moves@,
                0,
                player_to_move,
                alpha as int,
                beta as int,
                if <E::G as TurnBasedGame>::player_of(*old(s)) == player_to_move {
                    WORST_EVAL as int
                } else {
                    BEST_EVAL as int
                },
                <E::G as TurnBasedGame>::player_of(*old(s)) == player_to_move,
            )),
        decreases depth, 1nat,
    {
        if moves.len() == 0 {
            return Some(self.eval.evaluate(s));
        }
        let ghost s0 = *s;
        let ghost me = *self;
        let ghost alpha0 = alpha;
        let ghost beta0 = beta;
        // The searching player takes the best value, the opponent the worst.
        let maximizing = <E::G as TurnBasedGame>::current_player(s) == player_to_move;
        let mut best: Evaluation = if maximizing {
            WORST_EVAL
        } else {
            BEST_EVAL
        };
        let ghost best0 = best;
        let mut alpha = alpha;
        let mut beta = beta;
        let mut i: usize = 0;
        while i < moves.len()
            invariant_except_break
                depth == 1 ==> noisy_leaf_fold(
                    me.eval,
                    s0,
                    moves@,
                    i as nat,
                    player_to_move,
                    alpha as int,
                    beta as int,
                    best as int,
                    maximizing,
                ) == noisy_leaf_fold(
                    me.eval,
                    s0,
                    moves@,
                    0,
                    player_to_move,
                    alpha0 as int,
                    beta0 as int,
                    best0 as int,
                    maximizing,
                ),
            invariant
                0 <= i <= moves.len(),
                *s == s0,
                s0 == *old(s),
                me == *old(self),
                self.same_search(old(self)),
                self.table == old(self).table,
                depth > 0,
                explicit_winner_is_none::<E>(s0),
                maximizing == (<E::G as TurnBasedGame>::player_of(s0) == player_to_move),
            ensures
                depth == 1 ==> best == noisy_leaf_fold(
                    me.eval,
                    s0,
                    moves@,
                    0,
                    player_to_move,
                    alpha0 as int,
                    beta0 as int,
                    best0 as int,
                    maximizing,
                ),
            decreases moves.len() - i,
        {
            let m = moves[i];
            let ghost alpha_before = alpha;
            let ghost beta_before = beta;
            let ghost best_before = best;
            let value = match self.noisy_child(s, m, depth - 1, player_to_move, alpha, beta) {
                Some(v) => v,
                None => {
                    return None;
                },
            };
            if maximizing {
                if value > best {
                    best = value;
                }
                if value > alpha {
                    alpha = value;
                }
            } else {
                if value < best {
                    best = value;
                }
                if value < beta {
                    beta = value;
                }
            }
            proof {
                if depth == 1 {
                    assert(value == leaf_value(
                        me.eval,
                        <E::G as Game>::next_state(s0, m),
                        player_to_move,
                    ));
                    assert(noisy_leaf_fold(
                        me.eval,
                        s0,
                        moves@,
                        i as nat,
                        player_to_move,
                        alpha_before as int,
                        beta_before as int,
                        best_before as int,
                        maximizing,
                    ) == if alpha >= beta {
                        best as int
                    } else {
                        noisy_leaf_fold(
                            me.eval,
                            s0,
                            moves@,
                            (i + 1) as nat,
                            player_to_move,
                            alpha as int,
                            beta as int,
                            best as int,
                            maximizing,
                        )
                    });
                }
            }
            if alpha >= beta {
                break;
            }
            i = i + 1;
        }
        Some(best)
    }

    /// The chance node: the probability weighted sum of the moves' values,
    /// rounded; `None` if the clock runs out.
    fn chance_search(
        &mut self,
        s: &mut <E::G as Game>::S,
        moves: &Vec<<E::G as Game>::M>,
        prev_move: Option<<E::G as Game>::M>,
        cdepth: u8,
        extensions: u8,
        player_to_move: i8,
        alpha: Evaluation,
        beta: Evaluation,
    ) -> (r: Option<Evaluation>)
        requires
            old(self).wf(),
        ensures
            r is None ==> final(self).stopped,
            final(self).same_search(old(self)),
            *final(s) == *old(s),
            r is Some && moves@.len() > 0 ==> final(self).stats.nodes_explored >= saturated_sum(
                old(self).stats.nodes_explored as int,
                1,
            ),
            cdepth == 0 && old(self).opts.max_quiescence_depth == 0 ==> (r matches Some(v) ==> v
                == chance_value(
                chance_total(old(self).eval, *old(s), moves@, 0, 0, player_to_move, alpha as int, beta as int),
            )),
            old(self).plain() && final(self).found@ == old(self).found@ ==> (r matches Some(v) ==> v
                == chance_value(
                iterative_chance(
                    old(self).eval,
                    old(self).opts.null_window_search,
                    *old(s),
                    moves@,
                    0,
                    cdepth as nat,
                    player_to_move,
                    alpha as int,
                    beta as int,
                ),
            )),
        decreases extensions, cdepth + 1, 1nat,
    {
        let ghost s0 = *s;
        let ghost me = *self;
        let mut value: i128 = 0;
        let mut i: usize = 0;
        while i < moves.len()
            invariant
                0 <= i <= moves.len(),
                *s == s0,
                s0 == *old(s),
                self.same_search(&me),
                me == *old(self),
                -(i as int) * 0x8000_0000_0000 <= value <= (i as int) * 0x8000_0000_0000,
                i > 0 ==> self.stats.nodes_explored >= saturated_sum(me.stats.nodes_explored as int, 1),
                cdepth == 0 && me.opts.max_quiescence_depth == 0 ==> value + chance_total(
                    me.eval,
                    s0,
                    moves@,
                    i as nat,
                    0,
                    player_to_move,
                    alpha as int,
                    beta as int,
                ) == chance_total(me.eval, s0, moves@, 0, 0, player_to_move, alpha as int, beta as int),
                me.plain() && self.found@ == me.found@ ==> value + iterative_chance(
                    me.eval,
                    me.opts.null_window_search,
                    s0,
                    moves@,
                    i as nat,
                    cdepth as nat,
                    player_to_move,
                    alpha as int,
                    beta as int,
                ) == iterative_chance(
                    me.eval,
                    me.opts.null_window_search,
                    s0,
                    moves@,
                    0,
                    cdepth as nat,
                    player_to_move,
                    alpha as int,
                    beta as int,
                ),
            decreases moves.len() - i,
        {
            let m = moves[i];
            let p = <E::G as StochasticGame>::get_probability(s, m);
            let score = match self.child_search(
                s,
                m,
                prev_move,
                cdepth,
                extensions,
                player_to_move,
                alpha,
                beta,
            ) {
                Some(v) => v,
                None => {
                    return None;
                },
            };
            assert(-0x8000_0000_0000 <= (p as int) * (score as int) <= 0x8000_0000_0000)
                by (nonlinear_arith)
                requires
                    0 <= p <= 0xffff_ffff,
                    -32768 <= score <= 32767,
            ;
            assert(i < 0x1_0000_0000_0000_0000);
            value = value + (p as i128) * (score as i128);
            proof {
                if cdepth == 0 && me.opts.max_quiescence_depth == 0 {
                    assert(crate::strategies::expectiminimax::search_value(
                        me.eval,
                        <E::G as Game>::next_state(s0, m),
                        0,
                        player_to_move,
                        alpha as int,
                        beta as int,
                    ) == score);
                    assert(chance_total(
                        me.eval,
                        s0,
                        moves@,
                        i as nat,
                        0,
                        player_to_move,
                        alpha as int,
                        beta as int,
                    ) == p * score + chance_total(
                        me.eval,
                        s0,
                        moves@,
                        (i + 1) as nat,
                        0,
                        player_to_move,
                        alpha as int,
                        beta as int,
                    ));
                }
            }
            i = i + 1;
        }
        assert(value <= 0x1_0000_0000_0000_0000 * 0x8000_0000_0000);
        Some(round_chance(value))
    }

    /// The node of the player for whom the search is made. Returns the best
    /// value and the move that has it; after a first good move, the others
    /// may be probed with a null window.
    fn max_search(
        &mut self,
        s: &mut <E::G as Game>::S,
        moves: &Vec<<E::G as Game>::M>,
        prev_move: Option<<E::G as Game>::M>,
        cdepth: u8,
        extensions: u8,
        player_to_move: i8,
        alpha: Evaluation,
        beta: Evaluation,
    ) -> (r: Option<(Evaluation, <E::G as Game>::M)>)
        requires
            old(self).wf(),
            moves@.len() > 0,
        ensures
            r is None ==> final(self).stopped,
            final(self).same_search(old(self)),
            *final(s) == *old(s),
            r matches Some((best, m)) ==> moves@.contains(m),
            cdepth == 0 && old(self).opts.max_quiescence_depth == 0 ==> (r matches Some((best, m))
                ==> best == max_fold(
                old(self).eval,
                *old(s),
                moves@,
                0,
                0,
                player_to_move,
                alpha as int,
                beta as int,
                WORST_EVAL as int,
            )),
            old(self).plain() && final(self).found@ == old(self).found@ ==> (r matches Some((best, m))
                ==> best == iterative_max(
                    old(self).eval,
                    old(self).opts.null_window_search,
                    *old(s),
                    moves@,
                    0,
                    cdepth as nat,
                    player_to_move,
                    alpha as int,
                    beta as int,
                    WORST_EVAL as int,
                    false,
                )),
        decreases extensions, cdepth + 1, 1nat,
    {
        let ghost s0 = *s;
        let ghost me = *self;
        let ghost alpha0 = alpha;
        let mut best: Evaluation = WORST_EVAL;
        let mut best_move = moves[0];
        let mut alpha = alpha;
        let mut null_window = false;
        let ghost mut spec_alpha: int = alpha as int;
        let mut i: usize = 0;
        while i < moves.len()
            invariant_except_break
                cdepth == 0 && me.opts.max_quiescence_depth == 0 ==> max_fold(
                    me.eval,
                    s0,
                    moves@,
                    i as nat,
                    0,
                    player_to_move,
                    spec_alpha,
                    beta as int,
                    best as int,
                ) == max_fold(
                    me.eval,
                    s0,
                    moves@,
                    0,
                    0,
                    player_to_move,
                    alpha0 as int,
                    beta as int,
                    WORST_EVAL as int,
                ),
                me.plain() && self.found@ == me.found@ ==> iterative_max(
                    me.eval,
                    me.opts.null_window_search,
                    s0,
                    moves@,
                    i as nat,
                    cdepth as nat,
                    player_to_move,
                    alpha as int,
                    beta as int,
                    best as int,
                    null_window,
                ) == iterative_max(
                    me.eval,
                    me.opts.null_window_search,
                    s0,
                    moves@,
                    0,
                    cdepth as nat,
                    player_to_move,
                    alpha0 as int,
                    beta as int,
                    WORST_EVAL as int,
                    false,
                ),
            invariant
                0 <= i <= moves.len(),
                *s == s0,
                s0 == *old(s),
                self.same_search(&me),
                me == *old(self),
                moves@.contains(best_move),
            ensures
                cdepth == 0 && me.opts.max_quiescence_depth == 0 ==> best == max_fold(
                    me.eval,
                    s0,
                    moves@,
                    0,
                    0,
                    player_to_move,
                    alpha0 as int,
                    beta as int,
                    WORST_EVAL as int,
                ),
                me.plain() && self.found@ == me.found@ ==> best == iterative_max(
                    me.eval,
                    me.opts.null_window_search,
                    s0,
                    moves@,
                    0,
                    cdepth as nat,
                    player_to_move,
                    alpha0 as int,
                    beta as int,
                    WORST_EVAL as int,
                    false,
                ),
            decreases moves.len() - i,
        {
            let ghost best_before = best;
            let ghost alpha_before = alpha;
            let ghost nw_before = null_window;
            let ghost found_before = self.found@;
            let m = moves[i];
            let value = if null_window {
                let probe = match self.child_search(
                    s,
                    m,
                    Some(m),
                    cdepth,
                    extensions,
                    player_to_move,
                    alpha,
                    add_eval(alpha, 1),
                ) {
                    Some(v) => v,
                    None => {
                        return None;
                    },
                };
                if probe > alpha && probe < beta {
                    // Full search fallback.
                    match self.child_search(
                        s,
                        m,
                        Some(m),
                        cdepth,
                        extensions,
                        player_to_move,
                        probe,
                        beta,
                    ) {
                        Some(v) => v,
                        None => {
                            return None;
                        },
                    }
                } else {
                    probe
                }
            } else {
                match self.child_search(
                    s,
                    m,
                    Some(m),
                    cdepth,
                    extensions,
                    player_to_move,
                    alpha,
                    beta,
                ) {
                    Some(v) => v,
                    None => {
                        return None;
                    },
                }
            };
            if value > best {
                best = value;
                best_move = m;
            }
            if value >= alpha {
                alpha = value;
                // Now that we've found a good move, assume following moves
                // are worse, and seek to cull them without full evaluation.
                null_window = self.opts.null_window_search;
            }
            proof {
                if cdepth == 0 && me.opts.max_quiescence_depth == 0 {
                    lemma_leaf_search_value::<E>(
                        me.eval,
                        <E::G as Game>::next_state(s0, m),
                        player_to_move,
                        spec_alpha,
                        beta as int,
                    );
                    assert(value == leaf_value(
                        me.eval,
                        <E::G as Game>::next_state(s0, m),
                        player_to_move,
                    ));
                    assert(max_fold(
                        me.eval,
                        s0,
                        moves@,
                        i as nat,
                        0,
                        player_to_move,
                        spec_alpha,
                        beta as int,
                        best_before as int,
                    ) == if best >= beta {
                        best as int
                    } else {
                        max_fold(
                            me.eval,
                            s0,
                            moves@,
                            (i + 1) as nat,
                            0,
                            player_to_move,
                            if spec_alpha > best { spec_alpha } else { best as int },
                            beta as int,
                            best as int,
                        )
                    });
                }
                spec_alpha = if spec_alpha > best { spec_alpha } else { best as int };
            }
            proof {
                if me.plain() && self.found@ == me.found@ {
                    assert(found_before == me.found@);
                    assert(value == iterative_child(
                        me.eval,
                        me.opts.null_window_search,
                        <E::G as Game>::next_state(s0, m),
                        cdepth as nat,
                        player_to_move,
                        alpha_before as int,
                        beta as int,
                        nw_before,
                    ));
                    assert(iterative_max(me.eval, me.opts.null_window_search, s0, moves@, i as nat, cdepth as nat, player_to_move, alpha_before as int, beta as int, best_before as int, nw_before) == if best >= beta {
                        best as int
                    } else {
                        iterative_max(me.eval, me.opts.null_window_search, s0, moves@, (i + 1) as nat, cdepth as nat, player_to_move, alpha as int, beta as int, best as int, null_window)
                    });
                }
            }
            if best >= beta {
                self.countermoves.update(prev_move, m);
                break;
            }
            i = i + 1;
        }
        Some((best, best_move))
    }

    /// The node of the opponent. Returns the lowest value, the move that
    /// has it, and the narrowed upper bound of the window.
    fn min_search(
        &mut self,
        s: &mut <E::G as Game>::S,
        moves: &Vec<<E::G as Game>::M>,
        prev_move: Option<<E::G as Game>::M>,
        cdepth: u8,
        extensions: u8,
        player_to_move: i8,
        alpha: Evaluation,
        beta: Evaluation,
    ) -> (r: Option<(Evaluation, <E::G as Game>::M, Evaluation)>)
        requires
            old(self).wf(),
            moves@.len() > 0,
        ensures
            r is None ==> final(self).stopped,
            final(self).same_search(old(self)),
            *final(s) == *old(s),
            r matches Some((best, m, b)) ==> moves@.contains(m),
            cdepth == 0 && old(self).opts.max_quiescence_depth == 0 ==> (r matches Some(
                (best, m, b),
            ) ==> best == min_fold(
                old(self).eval,
                *old(s),
                moves@,
                0,
                0,
                player_to_move,
                alpha as int,
                beta as int,
                BEST_EVAL as int,
            )),
            old(self).plain() && final(self).found@ == old(self).found@ ==> (r matches Some(
                (best, m, b),
            ) ==> best == iterative_min(old(self).eval, old(self).opts.null_window_search, *old(s), moves@, 0, cdepth as nat, player_to_move, alpha as int, beta as int, BEST_EVAL as int, false)),
        decreases extensions, cdepth + 1, 1nat,
    {
        let ghost s0 = *s;
        let ghost me = *self;
        let ghost beta0 = beta;
        let mut best: Evaluation = BEST_EVAL;
        let mut best_move = moves[0];
        let mut beta = beta;
        let mut null_window = false;
        let ghost mut spec_beta: int = beta as int;
        let mut i: usize = 0;
        while i < moves.len()
            invariant_except_break
                cdepth == 0 && me.opts.max_quiescence_depth == 0 ==> min_fold(
                    me.eval,
                    s0,
                    moves@,
                    i as nat,
                    0,
                    player_to_move,
                    alpha as int,
                    spec_beta,
                    best as int,
                ) == min_fold(
                    me.eval,
                    s0,
                    moves@,
                    0,
                    0,
                    player_to_move,
                    alpha as int,
                    beta0 as int,
                    BEST_EVAL as int,
                ),
                me.plain() && self.found@ == me.found@ ==> iterative_min(me.eval, me.opts.null_window_search, s0, moves@, i as nat, cdepth as nat, player_to_move, alpha as int, beta as int, best as int, null_window) == iterative_min(me.eval, me.opts.null_window_search, s0, moves@, 0, cdepth as nat, player_to_move, alpha as int, beta0 as int, BEST_EVAL as int, false),
            invariant
                0 <= i <= moves.len(),
                *s == s0,
                s0 == *old(s),
                self.same_search(&me),
                me == *old(self),
                moves@.contains(best_move),
            ensures
                cdepth == 0 && me.opts.max_quiescence_depth == 0 ==> best == min_fold(
                    me.eval,
                    s0,
                    moves@,
                    0,
                    0,
                    player_to_move,
                    alpha as int,
                    beta0 as int,
                    BEST_EVAL as int,
                ),
                me.plain() && self.found@ == me.found@ ==> best == iterative_min(me.eval, me.opts.null_window_search, s0, moves@, 0, cdepth as nat, player_to_move, alpha as int, beta0 as int, BEST_EVAL as int, false),
            decreases moves.len() - i,
        {
            let ghost best_before = best;
            let ghost beta_before = beta;
            let ghost nw_before = null_window;
            let ghost found_before = self.found@;
            let m = moves[i];
            let value = if null_window {
                let probe = match self.child_search(
                    s,
                    m,
                    Some(m),
                    cdepth,
                    extensions,
                    player_to_move,
                    alpha,
                    add_eval(alpha, 1),
                ) {
                    Some(v) => v,
                    None => {
                        return None;
                    },
                };
                if probe > alpha && probe < beta {
                    // Full search fallback.
                    match self.child_search(
                        s,
                        m,
                        Some(m),
                        cdepth,
                        extensions,
                        player_to_move,
                        probe,
                        beta,
                    ) {
                        Some(v) => v,
                        None => {
                            return None;
                        },
                    }
                } else {
                    probe
                }
            } else {
                match self.child_search(
                    s,
                    m,
                    Some(m),
                    cdepth,
                    extensions,
                    player_to_move,
                    alpha,
                    beta,
                ) {
                    Some(v) => v,
                    None => {
                        return None;
                    },
                }
            };
            if value < best {
                best = value;
                best_move = m;
            }
            if best < beta {
                beta = value;
                // Now that we've found a good move, assume following moves
                // are worse, and seek to cull them without full evaluation.
                null_window = self.opts.null_window_search;
            }
            proof {
                if cdepth == 0 && me.opts.max_quiescence_depth == 0 {
                    lemma_leaf_search_value::<E>(
                        me.eval,
                        <E::G as Game>::next_state(s0, m),
                        player_to_move,
                        alpha as int,
                        spec_beta,
                    );
                    assert(value == leaf_value(
                        me.eval,
                        <E::G as Game>::next_state(s0, m),
                        player_to_move,
                    ));
                    assert(min_fold(
                        me.eval,
                        s0,
                        moves@,
                        i as nat,
                        0,
                        player_to_move,
                        alpha as int,
                        spec_beta,
                        best_before as int,
                    ) == if best <= alpha {
                        best as int
                    } else {
                        min_fold(
                            me.eval,
                            s0,
                            moves@,
                            (i + 1) as nat,
                            0,
                            player_to_move,
                            alpha as int,
                            if spec_beta < best { spec_beta } else { best as int },
                            best as int,
                        )
                    });
                }
                spec_beta = if spec_beta < best { spec_beta } else { best as int };
            }
            proof {
                if me.plain() && self.found@ == me.found@ {
                    assert(found_before == me.found@);
                    assert(value == iterative_child(
                        me.eval,
                        me.opts.null_window_search,
                        <E::G as Game>::next_state(s0, m),
                        cdepth as nat,
                        player_to_move,
                        alpha as int,
                        beta_before as int,
                        nw_before,
                    ));
                    assert(iterative_min(me.eval, me.opts.null_window_search, s0, moves@, i as nat, cdepth as nat, player_to_move, alpha as int, beta_before as int, best_before as int, nw_before) == if best <= alpha {
                        best as int
                    } else {
                        iterative_min(me.eval, me.opts.null_window_search, s0, moves@, (i + 1) as nat, cdepth as nat, player_to_move, alpha as int, beta as int, best as int, null_window)
                    });
                }
            }
            if best <= alpha {
                self.countermoves.update(prev_move, m);
                break;
            }
            i = i + 1;
        }
        Some((best, best_move, beta))
    }

    /// Recursively computes the value of `s` to `depth`; `None` if the clock
    /// runs out. `s` is left as it was.
    fn expectiminimax(
        &mut self,
        s: &mut <E::G as Game>::S,
        prev_move: Option<<E::G as Game>::M>,
        depth: u8,
        extensions: u8,
        player_to_move: i8,
        alpha: Evaluation,
        beta: Evaluation,
    ) -> (r: Option<Evaluation>)
        requires
            old(self).wf(),
        ensures
            r is None ==> final(self).stopped,
            final(self).same_search(old(self)),
            *final(s) == *old(s),
            depth == 0 && old(self).opts.max_quiescence_depth == 0 ==> (r matches Some(v) ==> v
                == leaf_value(old(self).eval, *old(s), player_to_move)),
            r is Some ==> final(self).stats.nodes_explored >= saturated_sum(
                old(self).stats.nodes_explored as int,
                1,
            ),
            depth == 0 ==> final(self).table == old(self).table,
            old(self).plain() && final(self).found@ == old(self).found@ ==> (r matches Some(v) ==> v
                == iterative_value(
                old(self).eval,
                old(self).opts.null_window_search,
                *old(s),
                depth as nat,
                player_to_move,
                alpha as int,
                beta as int,
            )),
            depth >= 1 && final(self).found@ == old(self).found@ && <E::G as Game>::moves_of(
                *old(s),
            ).len() == 0 ==> (r matches Some(v) ==> v == if <E::G as TurnBasedGame>::player_of(*old(s))
                == player_to_move {
                WORST_EVAL
            } else {
                BEST_EVAL
            }),
            depth == 1 && old(self).opts.max_quiescence_depth == 0 && old(
                self,
            ).opts.null_move_depth is None && (!old(self).opts.singular_extension || extensions
                == 0) && old(self).table.is_empty() ==> (r matches Some(v) ==> exists|
                ms: Seq<<E::G as Game>::M>,
            |
                ms.to_multiset() == <E::G as Game>::moves_of(*old(s)).to_multiset() && v
                    == #[trigger] shallow_value(
                    old(self).eval,
                    *old(s),
                    ms,
                    player_to_move,
                    alpha as int,
                    beta as int,
                )),
        decreases extensions, depth, 3nat,
    {
        let ghost s0 = *s;
        let ghost me = *self;
        let ghost shallow = depth == 1 && me.opts.max_quiescence_depth == 0
            && me.opts.null_move_depth is None && (!me.opts.singular_extension || extensions == 0)
            && me.table.is_empty();
        if self.timeout_check() {
            return None;
        }
        self.stats.explore_node();
        if depth == 0 {
            // Evaluate quiescence search on leaf nodes.
            // Will just return the node's evaluation if quiescence search is disabled.
            return self.noisy_negamax(
                s,
                self.opts.max_quiescence_depth,
                player_to_move,
                alpha,
                beta,
            );
        }
        let mut alpha = alpha;
        let mut beta = beta;
        let alpha_orig = alpha;
        let ghost beta_orig = beta;
        let hash = <E::G as Game>::zobrist_hash(s);
        let mut good_move: Option<<E::G as Game>::M> = None;
        // Counts the lookups that find an entry, whether or not it is used.
        self.found = Ghost(
            if self.table.lookup_spec(hash) is Some {
                self.found@ + 1
            } else {
                self.found@
            },
        );
        let ghost unused = self.found@ == me.found@;
        if let Some(value) = self.table.check(hash, depth, &mut good_move, &mut alpha, &mut beta) {
            assert(me.table.is_empty() ==> me.table.lookup_spec(hash) is None);
            return Some(value);
        }
        assert(me.table.is_empty() || unused ==> me.table.lookup_spec(hash) is None && good_move
            is None && alpha == alpha_orig && beta == beta_orig);
        let mut moves: Vec<<E::G as Game>::M> = Vec::new();
        let _ = <E::G as Game>::generate_moves(s, &mut moves);
        let ghost generated = moves@;
        assert(generated =~= <E::G as Game>::moves_of(s0));
        self.stats.generate_moves(moves.len());
        if moves.len() == 0 {
            let v = if player_to_move == <E::G as TurnBasedGame>::current_player(s) {
                WORST_EVAL
            } else {
                BEST_EVAL
            };
            assert(shallow ==> v == shallow_value(
                me.eval,
                s0,
                generated,
                player_to_move,
                alpha_orig as int,
                beta_orig as int,
            ));
            return Some(v);
        }
        match self.null_move_check(s, depth, extensions, player_to_move, beta) {
            None => {
                return None;
            },
            Some(v) => {
                if v >= beta {
                    self.stats.null_move_cutoff();
                    assert(shallow ==> beta == shallow_value(
                        me.eval,
                        s0,
                        generated,
                        player_to_move,
                        alpha_orig as int,
                        beta_orig as int,
                    ));
                    return Some(beta);
                }
            },
        }
        assert(shallow ==> self.eval == me.eval && self.opts == me.opts && depth == 1);
        let mut depth = depth;
        let mut extensions = extensions;
        if self.opts.singular_extension && moves.len() == 1 && depth < u8::MAX && extensions > 0 {
            depth = depth + 1;
            extensions = extensions - 1;
        }
        let ghost before_reorder = moves@;
        self.countermoves.reorder(prev_move, &mut moves);
        if let Some(good) = good_move {
            move_to_front(good, &mut moves);
        }
        assert(moves@.len() == before_reorder.len()) by {
            vstd::seq_lib::to_multiset_len(moves@);
            vstd::seq_lib::to_multiset_len(before_reorder);
        }
        if <E::G as StochasticGame>::is_random_move(s) {
            let best = match self.chance_search(
                s,
                &moves,
                prev_move,
                depth - 1,
                extensions,
                player_to_move,
                alpha,
                beta,
            ) {
                Some(v) => v,
                None => {
                    return None;
                },
            };
            let r = clamp_value(best);
            assert(shallow ==> r == shallow_value(
                me.eval,
                s0,
                moves@,
                player_to_move,
                alpha_orig as int,
                beta_orig as int,
            ));
            Some(r)
        } else {
            let (best, best_move) = if <E::G as TurnBasedGame>::current_player(s)
                == player_to_move {
                match self.max_search(
                    s,
                    &moves,
                    prev_move,
                    depth - 1,
                    extensions,
                    player_to_move,
                    alpha,
                    beta,
                ) {
                    Some((b, m)) => (b, m),
                    None => {
                        return None;
                    },
                }
            } else {
                match self.min_search(
                    s,
                    &moves,
                    prev_move,
                    depth - 1,
                    extensions,
                    player_to_move,
                    alpha,
                    beta,
                ) {
                    Some((b, m, new_beta)) => {
                        beta = new_beta;
                        (b, m)
                    },
                    None => {
                        return None;
                    },
                }
            };
            self.table.update(hash, alpha_orig, beta, depth, best, best_move);
            let r = clamp_value(best);
            assert(shallow ==> r == shallow_value(
                me.eval,
                s0,
                moves@,
                player_to_move,
                alpha_orig as int,
                beta_orig as int,
            ));
            Some(r)
        }
    }

    /// Tries to find the value within a window around the estimated value
    /// `target`, and returns the value found. Results, whether exact,
    /// overshoot, or undershoot, are stored in the table. Shallow searches
    /// (below depth two) are skipped: the estimate stands.
    fn aspiration_search(
        &mut self,
        s: &mut <E::G as Game>::S,
        depth: u8,
        player_to_move: i8,
        target: Evaluation,
        window: Evaluation,
    ) -> (r: Option<Evaluation>)
        requires
            old(self).wf(),
        ensures
            r is None ==> final(self).stopped,
            final(self).same_search(old(self)),
            *final(s) == *old(s),
            depth < 2 ==> r == Some(target) && *final(self) == *old(self),
            depth >= 2 && old(self).plain() && final(self).found@ == old(self).found@ ==> (r matches Some(
                v,
            ) ==> v == iterative_value(
                old(self).eval,
                old(self).opts.null_window_search,
                *old(s),
                depth as nat,
                player_to_move,
                aspiration_bounds(target, window).0,
                aspiration_bounds(target, window).1,
            )),
            depth >= 2 && r is Some ==> final(self).stats.nodes_explored >= saturated_sum(
                old(self).stats.nodes_explored as int,
                1,
            ),
    {
        if depth < 2 {
            // Do a full search on shallow nodes to establish the target.
            return Some(target);
        }
        let (alpha, beta) = aspiration_window_of(target, window);
        match self.expectiminimax(
            s,
            None,
            depth,
            MAX_SINGULAR_EXTENSIONS,
            player_to_move,
            alpha,
            beta,
        ) {
            Some(v) => Some(v),
            None => None,
        }
    }

    /// Searches each root move, records its value, sorts the moves by
    /// decreasing value (keeping the order of equal values), and stores the
    /// best one in the table under the hash of `s`, which it returns with
    /// the best value.
    fn search_and_reorder(
        &mut self,
        s: &mut <E::G as Game>::S,
        moves: &mut Vec<ValueMove<<E::G as Game>::M>>,
        depth: u8,
        player_to_move: i8,
    ) -> (r: Option<(Evaluation, u64)>)
        requires
            old(self).wf(),
            old(moves)@.len() > 0,
            depth >= 1,
        ensures
            r is None ==> final(self).stopped,
            final(self).same_search(old(self)),
            *final(s) == *old(s),
            final(moves)@.len() == old(moves)@.len(),
            moves_of_values(final(moves)@).to_multiset() == moves_of_values(
                old(moves)@,
            ).to_multiset(),
            r is None ==> moves_of_values(final(moves)@) == moves_of_values(old(moves)@),
            r is None ==> exists|k: int|
                0 <= k <= old(moves)@.len() && #[trigger] same_from(final(moves)@, old(moves)@, k),
            r is Some ==> exists|searched: Seq<ValueMove<<E::G as Game>::M>>|
                moves_of_values(searched) == moves_of_values(old(moves)@) && final(moves)@
                    == #[trigger] stably_sorted_by_value(searched) && (old(self).plain()
                    && final(self).found@ == old(self).found@ ==> values_of(searched) == root_values(
                    old(self).eval,
                    old(self).opts.null_window_search,
                    *old(s),
                    moves_of_values(old(moves)@),
                    0,
                    (depth - 1) as nat,
                    player_to_move,
                    WORST_EVAL as int,
                )),
            depth == 1 && old(self).opts.max_quiescence_depth == 0 && r is Some ==> forall|i: int|
                0 <= i < final(moves)@.len() ==> (#[trigger] final(moves)@[i]).value == leaf_value(
                    old(self).eval,
                    <E::G as Game>::next_state(*old(s), final(moves)@[i].m),
                    player_to_move,
                ),
            r matches Some((v, h)) ==> {
                &&& v == final(moves)@[0].value
                &&& values_sorted_desc(final(moves)@)
                &&& final(self).table.replacement() != Replacement::DepthPreferred
                    ==> (final(self).table.lookup_spec(h) matches Some(e) && e.best_move == Some(
                    final(moves)@[0].m,
                ) && e.value == v && e.depth == depth)
            },
    {
        let ghost s0 = *s;
        let ghost orig = moves@;
        let mut alpha: Evaluation = WORST_EVAL;
        let beta: Evaluation = BEST_EVAL;
        let mut i: usize = 0;
        while i < moves.len()
            invariant
                0 <= i <= moves@.len(),
                moves@.len() == orig.len(),
                orig == old(moves)@,
                moves_of_values(moves@) == moves_of_values(orig),
                *s == s0,
                s0 == *old(s),
                self.same_search(old(self)),
                depth >= 1,
                beta == BEST_EVAL,
                forall|j: int| i <= j < moves@.len() ==> #[trigger] moves@[j] == orig[j],
                depth == 1 && old(self).opts.max_quiescence_depth == 0 ==> forall|k: int|
                    0 <= k < i ==> (#[trigger] moves@[k]).value == leaf_value(
                        old(self).eval,
                        <E::G as Game>::next_state(s0, moves@[k].m),
                        player_to_move,
                    ),
                old(self).plain() && self.found@ == old(self).found@ ==> values_of(moves@.take(i as int))
                    + root_values(
                    old(self).eval,
                    old(self).opts.null_window_search,
                    s0,
                    moves_of_values(old(moves)@),
                    i as nat,
                    (depth - 1) as nat,
                    player_to_move,
                    alpha as int,
                ) == root_values(
                    old(self).eval,
                    old(self).opts.null_window_search,
                    s0,
                    moves_of_values(old(moves)@),
                    0,
                    (depth - 1) as nat,
                    player_to_move,
                    WORST_EVAL as int,
                ),
            decreases moves@.len() - i,
        {
            let m = moves[i].m;
            let ghost alpha_before = alpha;
            let value = match self.child_search(
                s,
                m,
                Some(m),
                depth - 1,
                MAX_SINGULAR_EXTENSIONS,
                player_to_move,
                alpha,
                beta,
            ) {
                Some(v) => v,
                None => {
                    assert(same_from(moves@, orig, i as int));
                    return None;
                },
            };
            if value > alpha {
                alpha = value;
            }
            let ghost before = moves@;
            moves.set(i, ValueMove::new(value, m));
            assert(moves_of_values(moves@) =~= moves_of_values(before));
            proof {
                if old(self).plain() && self.found@ == old(self).found@ {
                    assert(moves_of_values(orig)[i as int] == m);
                    assert(value == iterative_value(
                        old(self).eval,
                        old(self).opts.null_window_search,
                        <E::G as Game>::next_state(s0, m),
                        (depth - 1) as nat,
                        player_to_move,
                        alpha_before as int,
                        BEST_EVAL as int,
                    ));
                    assert(values_of(moves@.take(i + 1)) =~= values_of(before.take(i as int)).push(
                        value as int,
                    ));
                    let rest = root_values(
                    old(self).eval,
                    old(self).opts.null_window_search,
                    s0,
                    moves_of_values(old(moves)@),
                    (i + 1) as nat,
                    (depth - 1) as nat,
                    player_to_move,
                    alpha as int,
                );
                    assert(root_values(
                    old(self).eval,
                    old(self).opts.null_window_search,
                    s0,
                    moves_of_values(old(moves)@),
                    i as nat,
                    (depth - 1) as nat,
                    player_to_move,
                    alpha_before as int,
                ) == seq![value as int] + rest);
                    assert(values_of(before.take(i as int)).push(value as int) + rest =~= values_of(
                        before.take(i as int),
                    ) + (seq![value as int] + rest));
                }
            }
            i = i + 1;
        }
        let ghost searched = moves@;
        let mut keyed: Vec<(u64, ValueMove<<E::G as Game>::M>)> = Vec::new();
        let mut j: usize = 0;
        while j < moves.len()
            invariant
                0 <= j <= moves@.len(),
                moves@ == searched,
                keyed@.len() == j,
                forall|k: int| 0 <= k < j ==> #[trigger] keyed@[k] == (value_key(searched[k].value), searched[k]),
            decreases moves@.len() - j,
        {
            let vm = moves[j];
            keyed.push((value_key_of(vm.value), vm));
            j = j + 1;
        }
        let ghost unsorted = keyed@;
        assert(unsorted =~= searched.map_values(
            |vm: ValueMove<<E::G as Game>::M>| (value_key(vm.value), vm),
        ));
        assert(unsorted.map_values(|p: (u64, ValueMove<<E::G as Game>::M>)| p.1) =~= searched);
        sort_by_key_desc(&mut keyed);
        let ghost sorted = keyed@;
        proof {
            lemma_map_permutation(sorted, unsorted, |p: (u64, ValueMove<<E::G as Game>::M>)| p.1);
        }
        let mut k: usize = 0;
        while k < keyed.len()
            invariant
                0 <= k <= keyed@.len(),
                keyed@ == sorted,
                moves@.len() == sorted.len(),
                forall|t: int| 0 <= t < k ==> #[trigger] moves@[t] == sorted[t].1,
            decreases keyed@.len() - k,
        {
            let vm = keyed[k].1;
            moves.set(k, vm);
            k = k + 1;
        }
        proof {
            let f = |p: (u64, ValueMove<<E::G as Game>::M>)| p.1;
            assert(moves@ =~= sorted.map_values(f));
            assert(moves@ == stably_sorted_by_value(searched));
            lemma_map_permutation(moves@, searched, |vm: ValueMove<<E::G as Game>::M>| vm.m);
            assert forall|t: int| 0 <= t < sorted.len() implies #[trigger] sorted[t].0 == value_key(
                sorted[t].1.value,
            ) by {
                assert(sorted.contains(sorted[t]));
                assert(unsorted.to_multiset().count(sorted[t]) > 0);
                assert(unsorted.contains(sorted[t]));
                let u = choose|u: int| 0 <= u < unsorted.len() && unsorted[u] == sorted[t];
                assert(unsorted[u] == (value_key(searched[u].value), searched[u]));
            }
            if depth == 1 && old(self).opts.max_quiescence_depth == 0 {
                lemma_map_permutation(sorted, unsorted, f);
                assert(unsorted.map_values(f) =~= searched);
                assert forall|t: int| 0 <= t < moves@.len() implies (#[trigger] moves@[t]).value
                    == leaf_value(
                    old(self).eval,
                    <E::G as Game>::next_state(s0, moves@[t].m),
                    player_to_move,
                ) by {
                    assert(moves@.contains(moves@[t]));
                    assert(moves@.to_multiset().count(moves@[t]) > 0);
                    assert(searched.contains(moves@[t]));
                    let u = choose|u: int| 0 <= u < searched.len() && searched[u] == moves@[t];
                    assert(searched[u].value == leaf_value(
                        old(self).eval,
                        <E::G as Game>::next_state(s0, searched[u].m),
                        player_to_move,
                    ));
                }
            }
            assert forall|a: int, b: int| 0 <= a < b < moves@.len() implies #[trigger] moves@[a].value
                >= #[trigger] moves@[b].value by {
                assert(sorted[a].0 >= sorted[b].0);
                assert(sorted[a].0 == value_key(sorted[a].1.value));
                assert(sorted[b].0 == value_key(sorted[b].1.value));
            }
        }
        let hash = <E::G as Game>::zobrist_hash(s);
        let best = moves[0];
        let ghost slots_before = self.table.slots();
        self.table.update(hash, alpha, beta, depth, best.value, best.m);
        proof {
            crate::strategies::table::lemma_lookup_after_store(
                slots_before,
                self.table.replacement(),
                entry_of(
                    hash,
                    best.value,
                    depth,
                    flag_for(alpha as int, beta as int, best.value as int),
                    self.table.current_generation(),
                    best.m,
                ),
            );
        }
        Some((best.value, hash))
    }
}

/// `vms` sorted by decreasing value, moves of equal values in their given
/// order.
pub open spec fn stably_sorted_by_value<M>(vms: Seq<ValueMove<M>>) -> Seq<ValueMove<M>> {
    stable_sorted_desc(vms.map_values(|vm: ValueMove<M>| (value_key(vm.value), vm))).map_values(
        |p: (u64, ValueMove<M>)| p.1,
    )
}

/// `a` and `b` agree from index `k` on.
pub open spec fn same_from<T>(a: Seq<T>, b: Seq<T>, k: int) -> bool {
    forall|j: int| k <= j < a.len() ==> #[trigger] a[j] == b[j]
}

/// The values of `vms`, in order.
pub open spec fn values_of<M>(vms: Seq<ValueMove<M>>) -> Seq<int> {
    vms.map_values(|vm: ValueMove<M>| vm.value as int)
}

/// The values that the root search gives to the moves of `ms` from index
/// `i` on: each move's state searched to `cdepth` with the window from
/// `alpha`, the best value so far, to `BEST_EVAL`.
pub open spec fn root_values<E: Evaluator>(
    eval: E,
    nws: bool,
    s: <E::G as Game>::S,
    ms: Seq<<E::G as Game>::M>,
    i: nat,
    cdepth: nat,
    player: i8,
    alpha: int,
) -> Seq<int> where E::G: TurnBasedGame + StochasticGame
    decreases ms.len() - i,
{
    if i >= ms.len() {
        Seq::empty()
    } else {
        let v = iterative_value(
            eval,
            nws,
            <E::G as Game>::next_state(s, ms[i as int]),
            cdepth,
            player,
            alpha,
            BEST_EVAL as int,
        );
        seq![v] + root_values(eval, nws, s, ms, i + 1, cdepth, player, if v > alpha {
            v
        } else {
            alpha
        })
    }
}

/// The values of `vms` do not increase.
pub open spec fn values_sorted_desc<M>(vms: Seq<ValueMove<M>>) -> bool {
    forall|a: int, b: int| 0 <= a < b < vms.len() ==> #[trigger] vms[a].value >= #[trigger] vms[b].value
}

/// The sort key of `v`.
fn value_key_of(v: Evaluation) -> (r: u64)
    ensures
        r == value_key(v),
{
    (v as i32 + 32768) as u64
}

/// The window of an aspiration search around `target`.
fn aspiration_window_of(target: Evaluation, window: Evaluation) -> (r: (Evaluation, Evaluation))
    ensures
        (r.0 as int, r.1 as int) == aspiration_bounds(target, window),
{
    let low = sub_eval(target, window);
    let alpha = if low > WORST_EVAL {
        low
    } else {
        WORST_EVAL
    };
    (alpha, add_eval(target, window))
}

/// The counters of the last search, for reports.
#[derive(Clone, Debug)]
pub struct SearchStats {
    /// The nodes explored at each completed depth.
    pub nodes_explored: Vec<u64>,
    /// The nodes explored in the depth that did not complete.
    pub partial_nodes_explored: u64,
    /// How often moves were generated.
    pub total_generate_move_calls: u64,
    /// How many moves were generated in all.
    pub total_generated_moves: u64,
    /// How many nodes were cut short by a null move search.
    pub null_move_cutoffs: u64,
    /// The deepest completed depth.
    pub actual_depth: u8,
}

/// Which search of an iteration a report is about.
#[derive(Clone, Copy, Debug, PartialEq, Eq, Structural)]
pub enum IterationKind {
    /// The search within the aspiration window.
    Aspiration,
    /// The search of every root move with the full window.
    Full,
}

/// What a search with verbose options reports of one of its iterations:
/// its depth, how long it took, and the table entry of the root after it.
#[derive(Debug)]
pub struct IterationReport<M> {
    /// Which search of the iteration.
    pub kind: IterationKind,
    /// The depth of the iteration.
    pub depth: u8,
    /// How long the search took.
    pub took: std::time::Duration,
    /// The table entry of the root after the search.
    pub entry: Entry<M>,
}

/// An iterative deepening expectiminimax search.
pub struct ExpectiIterativeSearch<E: TurnBasedGameEvaluator> where
    E::G: TurnBasedGame + StochasticGame,
 {
    max_depth: u8,
    max_time: std::time::Duration,
    minimaxer: ExpectiMinimaxer<E>,
    prev_value: Evaluation,
    opts: IterativeOptions,
    // Runtime stats for the last move generated.
    // Maximum depth used to produce the move.
    actual_depth: u8,
    // Nodes explored at each depth.
    nodes_explored: Vec<u64>,
    pv: Vec<<E::G as Game>::M>,
    // The root moves of the last completed iteration, by decreasing value.
    root_order: Vec<ValueMove<<E::G as Game>::M>>,
    // The reports of the last search's iterations, where the options ask for them.
    reports: Vec<IterationReport<<E::G as Game>::M>>,
    wall_time: std::time::Duration,
}

impl<E: TurnBasedGameEvaluator> ExpectiIterativeSearch<E> where
    E::G: TurnBasedGame + StochasticGame,
    <E::G as Game>::M: Eq,
    <E::G as Game>::S: Clone,
 {
    /// The search is well formed: its table is well formed and follows the
    /// replacement strategy of the options. `new` makes it so; every method
    /// keeps it.
    pub closed spec fn wf(&self) -> bool {
        &&& self.minimaxer.wf()
        &&& self.minimaxer.table.replacement() == self.opts.strategy
        &&& self.minimaxer.opts == self.opts
    }

    /// The depth to which the search goes.
    pub closed spec fn depth_limit(&self) -> u8 {
        self.max_depth
    }

    /// The options of the search.
    pub closed spec fn options_of(&self) -> IterativeOptions {
        self.opts
    }

    /// The value stored for the root by the last completed iteration.
    pub closed spec fn last_value(&self) -> Evaluation {
        self.prev_value
    }

    /// The deepest iteration that the last search completed.
    pub closed spec fn completed_depth(&self) -> u8 {
        self.actual_depth
    }

    /// The nodes explored by each completed iteration of the last search.
    pub closed spec fn nodes_per_depth(&self) -> Seq<u64> {
        self.nodes_explored@
    }

    /// The principal variation of the last search.
    pub closed spec fn variation(&self) -> Seq<<E::G as Game>::M> {
        self.pv@
    }

    /// The evaluator of the search.
    pub closed spec fn evaluator(&self) -> E {
        self.minimaxer.eval
    }

    /// Whether the last search was stopped by its clock or by its stop signal.
    pub closed spec fn was_stopped(&self) -> bool {
        self.minimaxer.stopped
    }

    /// The counters of the search.
    pub closed spec fn counters(&self) -> Stats {
        self.minimaxer.stats
    }

    /// The search runs without null moves, singular extensions, quiescence
    /// search and move ordering tables (see `iterative_value`).
    pub closed spec fn plain_search(&self) -> bool {
        self.minimaxer.plain()
    }

    /// How many table lookups of the searches so far found an entry.
    pub closed spec fn table_hits(&self) -> nat {
        self.minimaxer.found@
    }

    /// The root moves of the last completed iteration with their values,
    /// by decreasing value.
    pub closed spec fn root_moves(&self) -> Seq<ValueMove<<E::G as Game>::M>> {
        self.root_order@
    }

    /// The reports of the last search's iterations.
    pub closed spec fn iteration_reports(&self) -> Seq<IterationReport<<E::G as Game>::M>> {
        self.reports@
    }

    /// The reports of the last search's iterations, in order, where the
    /// options ask for verbose output (none otherwise); `app/` prints them.
    pub fn last_iteration_reports(&self) -> (r: &Vec<IterationReport<<E::G as Game>::M>>)
        ensures
            r@ == self.iteration_reports(),
    {
        &self.reports
    }

    /// The longest time that a search may take.
    pub closed spec fn time_limit(&self) -> std::time::Duration {
        self.max_time
    }

    /// How long the last search took.
    pub closed spec fn last_wall_time(&self) -> std::time::Duration {
        self.wall_time
    }

    /// The flag that stops a running search, shared by every stop signal
    /// that the search hands out.
    pub closed spec fn stop_flag(&self) -> Arc<AtomicBool> {
        self.minimaxer.timeout
    }

    /// A search with the options `opts`, to depth 99 or for five seconds.
    pub fn new(eval: E, opts: IterativeOptions) -> (r: ExpectiIterativeSearch<E>)
        ensures
            r.wf(),
            r.depth_limit() == 99,
            r.options_of() == opts,
            r.last_value() == 0,
            r.completed_depth() == 0,
            r.nodes_per_depth().len() == 0,
            r.variation().len() == 0,
            r.root_moves().len() == 0,
            r.iteration_reports().len() == 0,
            !zero_length(r.time_limit()),
            r.evaluator() == eval,
    {
        let table = TranspositionTable::new(opts.table_byte_size, opts.strategy);
        let negamaxer = ExpectiMinimaxer::new(table, eval, opts);
        ExpectiIterativeSearch {
            max_depth: 99,
            max_time: duration_from_secs(5),
            prev_value: 0,
            minimaxer: negamaxer,
            opts,
            actual_depth: 0,
            nodes_explored: Vec::new(),
            pv: Vec::new(),
            root_order: Vec::new(),
            reports: Vec::new(),
            wall_time: duration_zero(),
        }
    }

    /// The counters of the last search.
    pub fn last_search_stats(&self) -> (r: SearchStats)
        ensures
            r.nodes_explored@ == self.nodes_per_depth(),
            r.actual_depth == self.completed_depth(),
            r.partial_nodes_explored == self.counters().nodes_explored,
            r.total_generate_move_calls == self.counters().total_generate_move_calls,
            r.total_generated_moves == self.counters().total_generated_moves,
            r.null_move_cutoffs == self.counters().null_move_cutoffs,
    {
        SearchStats {
            nodes_explored: copy_counts(&self.nodes_explored),
            partial_nodes_explored: self.minimaxer.stats.nodes_explored,
            total_generate_move_calls: self.minimaxer.stats.total_generate_move_calls,
            total_generated_moves: self.minimaxer.stats.total_generated_moves,
            null_move_cutoffs: self.minimaxer.stats.null_move_cutoffs,
            actual_depth: self.actual_depth,
        }
    }

    /// How long the last search took.
    pub fn wall_time(&self) -> (r: &std::time::Duration)
        ensures
            *r == self.last_wall_time(),
    {
        &self.wall_time
    }

    /// Return the options used in this search.
    pub fn options(&self) -> (r: &IterativeOptions)
        ensures
            *r == self.options_of(),
    {
        &self.opts
    }

    /// Return the search options used in this search.
    pub fn get_max_depth(&self) -> (r: u8)
        ensures
            r == self.depth_limit(),
    {
        self.max_depth
    }

    /// Return the search options used in this search.
    pub fn get_max_time(&self) -> (r: &std::time::Duration)
        ensures
            *r == self.time_limit(),
    {
        &self.max_time
    }

    /// Returns a handle to the signal used to stop the search.
    /// This should be obtained before starting a search.
    pub fn next_search_stop_signal(&self) -> (r: SearchStopSignal)
        ensures
            r.flag() == self.stop_flag(),
    {
        self.minimaxer.next_search_stop_signal()
    }

    /// The value of the root found by the last search, read as a win or a
    /// loss where it is near one.
    pub fn root_value(&self) -> (r: Evaluation)
        ensures
            r == unclamped(self.last_value() as int),
    {
        unclamp_value(self.prev_value)
    }
}

/// A copy of `counts`.
fn copy_counts(counts: &Vec<u64>) -> (r: Vec<u64>)
    ensures
        r@ == counts@,
{
    let mut r: Vec<u64> = Vec::new();
    let mut i: usize = 0;
    while i < counts.len()
        invariant
            0 <= i <= counts@.len(),
            r@ == counts@.take(i as int),
        decreases counts@.len() - i,
    {
        r.push(counts[i]);
        i = i + 1;
    }
    assert(counts@.take(counts@.len() as int) =~= counts@);
    r
}

/// A copy of `moves`.
fn copy_moves<M: Copy>(moves: &Vec<M>) -> (r: Vec<M>)
    ensures
        r@ == moves@,
{
    let mut r: Vec<M> = Vec::new();
    let mut i: usize = 0;
    while i < moves.len()
        invariant
            0 <= i <= moves@.len(),
            r@ == moves@.take(i as int),
        decreases moves@.len() - i,
    {
        r.push(moves[i]);
        i = i + 1;
    }
    assert(moves@.take(moves@.len() as int) =~= moves@);
    r
}

impl<E: TurnBasedGameEvaluator> Strategy<E::G> for ExpectiIterativeSearch<E> where
    E::G: TurnBasedGame + StochasticGame,
    <E::G as Game>::S: Clone,
    <E::G as Game>::M: Eq,
 {
    /// Searches at increasing depths until the depth limit, the clock, the
    /// stop signal, or a won or lost position; returns the best move of the
    /// deepest completed iteration.
    fn choose_move(&mut self, s: &<E::G as Game>::S) -> (r: Option<<E::G as Game>::M>)
        ensures
            old(self).wf() ==> final(self).wf(),
            final(self).depth_limit() == old(self).depth_limit(),
            final(self).options_of() == old(self).options_of(),
            final(self).completed_depth() <= old(self).depth_limit(),
            r is Some <==> final(self).completed_depth() > 0,
            r is Some ==> final(self).nodes_per_depth().len() > 0,
            final(self).completed_depth() > 0 ==> completed_iterations(
                final(self).completed_depth(),
                final(self).nodes_per_depth().len(),
                old(self).depth_limit(),
                old(self).options_of().step_increment,
            ),
            old(self).wf() ==> (r matches Some(m) ==> exists|c: <E::G as Game>::S|
                cloned(*s, c) && <E::G as Game>::moves_of(c).contains(m)),
            old(self).wf() ==> (r matches Some(m) ==> {
                &&& final(self).root_moves().len() > 0
                &&& final(self).root_moves()[0].m == m
                &&& final(self).last_value() == final(self).root_moves()[0].value
                &&& values_sorted_desc(final(self).root_moves())
                &&& exists|c: <E::G as Game>::S|
                    cloned(*s, c) && moves_of_values(final(self).root_moves()).to_multiset()
                        == <E::G as Game>::moves_of(c).to_multiset()
            }),
            old(self).wf() && old(self).plain_search() && final(self).table_hits() == old(
                self,
            ).table_hits() ==> (r is Some ==> exists|
                searched: Seq<ValueMove<<E::G as Game>::M>>,
                c: <E::G as Game>::S,
            |
                #![trigger stably_sorted_by_value(searched), cloned(*s, c)]
                cloned(*s, c) && moves_of_values(searched).to_multiset() == <E::G as Game>::moves_of(
                    c,
                ).to_multiset() && final(self).root_moves() == stably_sorted_by_value(searched)
                    && values_of(searched) == root_values(
                    old(self).evaluator().for_player(<E::G as TurnBasedGame>::player_of(*s)),
                    old(self).options_of().null_window_search,
                    c,
                    moves_of_values(searched),
                    0,
                    (final(self).completed_depth() - 1) as nat,
                    <E::G as TurnBasedGame>::player_of(*s),
                    WORST_EVAL as int,
                )),
            old(self).wf() && old(self).options_of().step_increment > 0 && r is Some
                && !final(self).was_stopped()
                && unclamped(final(self).last_value() as int) != BEST_EVAL
                && unclamped(final(self).last_value() as int) != WORST_EVAL
                ==> final(self).completed_depth() == old(self).depth_limit(),
            final(self).completed_depth() == 0 ==> {
                &&& final(self).variation() == old(self).variation()
                &&& final(self).root_moves() == old(self).root_moves()
                &&& final(self).last_value() == old(self).last_value()
            },
            old(self).wf() && old(self).options_of().step_increment > 0
                && !old(self).options_of().verbose ==> final(self).iteration_reports().len() == 0,
            old(self).wf() && old(self).options_of().step_increment > 0 ==> final(self).evaluator()
                == old(self).evaluator().for_player(<E::G as TurnBasedGame>::player_of(*s)),
            old(self).wf() && (forall|c: <E::G as Game>::S|
                cloned(*s, c) ==> #[trigger] <E::G as Game>::generated_winner_of(c) is Some)
                ==> r is None,
            old(self).wf() ==> (r is None ==> {
                ||| old(self).depth_limit() == 0
                ||| old(self).options_of().step_increment == 0
                ||| final(self).was_stopped()
                ||| exists|c: <E::G as Game>::S|
                    cloned(*s, c) && (<E::G as Game>::generated_winner_of(c) is Some
                        || <E::G as Game>::moves_of(c).len() == 0)
            }),
    {
        if !self.minimaxer.table.is_well_formed() || self.opts.step_increment == 0 {
            // A table that is not well formed cannot happen: `new` makes the
            // search well formed and every method keeps it so. Iterations
            // that do not grow cannot reach the depth limit: no search.
            self.actual_depth = 0;
            return None;
        }
        self.minimaxer.table.advance_generation();
        self.minimaxer.countermoves.advance_generation(<E::G as Game>::null_move(s));
        // Reset stats.
        self.nodes_explored = Vec::new();
        self.minimaxer.stats.reset();
        self.actual_depth = 0;
        self.reports = Vec::new();
        let start_time = now();
        // Start timer if configured.
        self.minimaxer.reset_timeout(self.max_time);

        let mut s_clone = s.clone();
        let ghost c = s_clone;
        let mut best_move: Option<<E::G as Game>::M> = None;
        let player_to_move = <E::G as TurnBasedGame>::current_player(s);
        self.minimaxer.eval.set_evaluated_player(player_to_move);
        let ghost evaluator = self.minimaxer.eval;
        // Store the moves so they can be reordered every iteration.
        let mut moves: Vec<<E::G as Game>::M> = Vec::new();
        if <E::G as Game>::generate_moves(&s_clone, &mut moves).is_some() {
            assert(cloned(*s, c) && <E::G as Game>::generated_winner_of(c) is Some);
            return None;
        }
        let ghost generated = moves@;
        assert(generated =~= <E::G as Game>::moves_of(c));
        // Start in a random order.
        let mut rng = thread_rng();
        shuffle(&mut moves, &mut rng);
        let mut value_moves: Vec<ValueMove<<E::G as Game>::M>> = Vec::new();
        let mut i: usize = 0;
        while i < moves.len()
            invariant
                0 <= i <= moves@.len(),
                value_moves@.len() == i,
                forall|k: int| 0 <= k < i ==> #[trigger] value_moves@[k].m == moves@[k],
            decreases moves@.len() - i,
        {
            value_moves.push(ValueMove::new(0, moves[i]));
            i = i + 1;
        }
        assert(moves_of_values(value_moves@) =~= moves@);
        if value_moves.len() == 0 {
            // No move to choose.
            proof {
                assert(moves@.to_multiset().len() == 0);
                assert(generated.to_multiset().len() == 0);
                assert(cloned(*s, c) && <E::G as Game>::moves_of(c).len() == 0);
            }
            return None;
        }
        // Start at 1 or 2 to hit the max depth.
        let step = self.opts.step_increment;
        let mut depth: u8 = self.max_depth % step;
        if depth == 0 {
            depth = step;
        }
        let ghost strategy = self.opts.strategy;
        let root_hash = <E::G as Game>::zobrist_hash(s);
        let ghost first = first_depth(self.max_depth, step);
        let ghost found0 = self.minimaxer.found@;
        let ghost plain0 = self.minimaxer.plain();
        let ghost nws = self.minimaxer.opts.null_window_search;
        assert(found0 == old(self).minimaxer.found@);
        assert(plain0 == old(self).minimaxer.plain());
        assert(self.nodes_explored@.len() == 0);
        assert(depth == first);
        assert((depth - first) % (step as int) == 0) by {
            vstd::arithmetic::div_mod::lemma_small_mod(0, step as nat);
        }
        while depth <= self.max_depth
            invariant_except_break
                self.actual_depth < depth,
                best_move is None ==> depth == first,
            invariant
                first == first_depth(self.max_depth, step),
                depth >= first,
                (depth - first) % (step as int) == 0,
                self.actual_depth == 0 ==> depth == first && self.nodes_explored@.len() == 0,
                self.actual_depth > 0 ==> self.actual_depth == depth || self.actual_depth + step
                    == depth,
                self.actual_depth > 0 ==> completed_iterations(
                    self.actual_depth,
                    self.nodes_explored@.len(),
                    self.max_depth,
                    step,
                ),
                self.minimaxer.wf(),
                old(self).wf() ==> self.wf(),
                step > 0,
                self.opts.step_increment == step,
                self.opts.strategy == strategy,
                self.minimaxer.opts == old(self).minimaxer.opts,
                old(self).wf() ==> self.minimaxer.table.replacement() == strategy,
                self.max_depth == old(self).max_depth,
                self.opts == old(self).opts,
                1 <= depth,
                self.actual_depth <= depth,
                self.actual_depth <= self.max_depth,
                s_clone == c,
                cloned(*s, c),
                value_moves@.len() > 0,
                moves_of_values(value_moves@).to_multiset() == generated.to_multiset(),
                generated == <E::G as Game>::moves_of(c),
                best_move is Some <==> self.actual_depth > 0,
                best_move is Some ==> self.nodes_explored@.len() > 0,
                best_move matches Some(m) ==> generated.contains(m),
                best_move matches Some(m) ==> {
                    &&& self.root_order@.len() > 0
                    &&& self.root_order@[0].m == m
                    &&& self.prev_value == self.root_order@[0].value
                    &&& values_sorted_desc(self.root_order@)
                    &&& moves_of_values(self.root_order@).to_multiset() == generated.to_multiset()
                },
                best_move is None ==> {
                    &&& self.pv == old(self).pv
                    &&& self.root_order == old(self).root_order
                    &&& self.prev_value == old(self).prev_value
                },
                self.minimaxer.eval == evaluator,
                !self.opts.verbose ==> self.reports@.len() == 0,
                self.minimaxer.found@ >= found0,
                self.actual_depth > 0 && depth > self.max_depth ==> self.actual_depth
                    == self.max_depth,
                plain0 ==> self.minimaxer.plain(),
                nws == self.minimaxer.opts.null_window_search,
                plain0 && self.minimaxer.found@ == found0 && best_move is Some ==> exists|
                    searched: Seq<ValueMove<<E::G as Game>::M>>,
                |
                    moves_of_values(searched).to_multiset() == generated.to_multiset()
                        && self.root_order@ == #[trigger] stably_sorted_by_value(searched)
                        && values_of(searched) == root_values(
                        evaluator,
                        nws,
                        c,
                        moves_of_values(searched),
                        0,
                        (self.actual_depth - 1) as nat,
                        player_to_move,
                        WORST_EVAL as int,
                    ),
            ensures
                best_move is None ==> {
                    ||| self.minimaxer.stopped
                    ||| first > self.max_depth
                },
                best_move is Some && !self.minimaxer.stopped && unclamped(self.prev_value as int)
                    != BEST_EVAL && unclamped(self.prev_value as int) != WORST_EVAL
                    ==> self.actual_depth == self.max_depth,
            decreases 256 - depth,
        {
            let mut interval_start = now();
            if let Some(window) = self.opts.aspiration_window {
                // Results of the search are stored in the table.
                if self.minimaxer.aspiration_search(
                    &mut s_clone,
                    depth,
                    player_to_move,
                    self.prev_value,
                    window,
                ).is_none() {
                    // Timeout.
                    break;
                }
                if self.opts.verbose {
                    if let Some(entry) = self.minimaxer.table.lookup(root_hash) {
                        let took = elapsed(&interval_start);
                        self.reports.push(
                            IterationReport { kind: IterationKind::Aspiration, depth, took, entry },
                        );
                        interval_start = now();
                    }
                }
            }
            let searched = self.minimaxer.search_and_reorder(
                &mut s_clone,
                &mut value_moves,
                depth,
                player_to_move,
            );
            let root_value = match searched {
                Some((v, _)) => v,
                None => {
                    // Timeout. Return the best move from the previous depth.
                    break;
                },
            };
            // The best move of this iteration is the first of the sorted
            // root moves, which `search_and_reorder` also stored in the table.
            let found = value_moves[0].m;
            proof {
                let vm = value_moves@[0];
                assert(moves_of_values(value_moves@)[0] == vm.m);
                assert(moves_of_values(value_moves@).contains(vm.m));
                assert(generated.to_multiset().count(vm.m) > 0);
                assert(generated.contains(found));
            }
            best_move = Some(found);
            self.root_order = copy_moves(&value_moves);
            if self.opts.verbose {
                if let Some(entry) = self.minimaxer.table.lookup(root_hash) {
                    let took = elapsed(&interval_start);
                    self.reports.push(IterationReport { kind: IterationKind::Full, depth, took, entry });
                }
            }
            let ghost old_len = self.nodes_explored@.len();
            let ghost old_actual = self.actual_depth;
            if depth > self.actual_depth {
                self.actual_depth = depth;
            }
            self.nodes_explored.push(self.minimaxer.stats.nodes_explored);
            proof {
                assert((old_len + 1) * step == old_len * step + step) by (nonlinear_arith);
                if old_actual > 0 {
                    assert(old_actual + step == depth);
                    assert(old_len * step == old_actual - first + step);
                } else {
                    assert(old_len == 0);
                    assert(depth == first);
                }
                assert((old_len + 1) * step == depth - first + step);
                assert(depth >= first);
                assert((depth - first) % (step as int) == 0);
                assert(completed_iterations(depth, old_len + 1, self.max_depth, step));
            }
            self.minimaxer.stats.nodes_explored = 0;
            self.prev_value = root_value;
            let mut pv: Vec<<E::G as Game>::M> = Vec::new();
            self.minimaxer.table.populate_pv::<E::G>(&mut pv, &s_clone);
            self.pv = pv;
            let outcome = unclamp_value(root_value);
            if outcome == BEST_EVAL || outcome == WORST_EVAL {
                // A won or lost position: deeper searches change nothing.
                break;
            }
            proof {
                if depth as int + step as int > self.max_depth as int {
                    lemma_iterations_reach_max_depth(self.max_depth, step);
                    lemma_same_residue(depth as int, self.max_depth as int, first, step as int);
                }
            }
            if depth > u8::MAX - step {
                break;
            }
            proof {
                vstd::arithmetic::div_mod::lemma_mod_add_multiples_vanish(
                    depth - first,
                    step as int,
                );
            }
            depth = depth + step;
        }
        self.wall_time = elapsed(&start_time);
        proof {
            if old(self).wf() {
                if let Some(m) = best_move {
                    assert(cloned(*s, c) && <E::G as Game>::moves_of(c).contains(m));
                } else if !self.minimaxer.stopped && self.max_depth > 0 {
                    lemma_iterations_reach_max_depth(self.max_depth, step);
                }
            }
        }
        best_move
    }

    fn set_timeout(&mut self, max_time: std::time::Duration)
        ensures
            old(self).wf() ==> final(self).wf(),
            final(self).depth_limit() == 99,
            final(self).time_limit() == max_time,
            final(self).options_of() == old(self).options_of(),
            final(self).last_value() == old(self).last_value(),
            final(self).variation() == old(self).variation(),
            final(self).root_moves() == old(self).root_moves(),
    {
        self.max_time = max_time;
        self.max_depth = 99;
    }

    fn set_max_depth(&mut self, depth: u8)
        ensures
            old(self).wf() ==> final(self).wf(),
            final(self).depth_limit() == depth,
            zero_length(final(self).time_limit()),
            final(self).options_of() == old(self).options_of(),
            final(self).last_value() == old(self).last_value(),
            final(self).variation() == old(self).variation(),
            final(self).root_moves() == old(self).root_moves(),
    {
        self.max_depth = depth;
        self.max_time = duration_zero();
    }

    fn set_depth_or_timeout(&mut self, depth: u8, max_time: std::time::Duration)
        ensures
            old(self).wf() ==> final(self).wf(),
            final(self).depth_limit() == depth,
            final(self).time_limit() == max_time,
            final(self).options_of() == old(self).options_of(),
            final(self).last_value() == old(self).last_value(),
            final(self).variation() == old(self).variation(),
            final(self).root_moves() == old(self).root_moves(),
    {
        self.max_time = max_time;
        self.max_depth = depth;
    }

    fn principal_variation(&self) -> (r: Vec<<E::G as Game>::M>)
        ensures
            r@ == self.variation(),
    {
        copy_moves(&self.pv)
    }
}

/// A search with no move left to make scores the leaf, whatever the window.
proof fn lemma_leaf_search_value<E: TurnBasedGameEvaluator>(
    eval: E,
    s: <E::G as Game>::S,
    player: i8,
    alpha: int,
    beta: int,
) where E::G: TurnBasedGame + StochasticGame
    ensures
        crate::strategies::expectiminimax::search_value(eval, s, 0, player, alpha, beta)
            == leaf_value(eval, s, player),
{
}

/// Two depths of the iterations, the second at most one step beyond the
/// first, are the same depth.
proof fn lemma_same_residue(a: int, b: int, first: int, step: int)
    requires
        step > 0,
        a >= first,
        b >= first,
        (a - first) % step == 0,
        (b - first) % step == 0,
        a <= b < a + step,
    ensures
        a == b,
{
    vstd::arithmetic::div_mod::lemma_fundamental_div_mod(a - first, step);
    vstd::arithmetic::div_mod::lemma_fundamental_div_mod(b - first, step);
    let qa = (a - first) / step;
    let qb = (b - first) / step;
    assert(b - a == (qb - qa) * step) by (nonlinear_arith)
        requires
            a - first == step * qa,
            b - first == step * qb,
    ;
    assert(qb - qa == 0) by (nonlinear_arith)
        requires
            0 <= (qb - qa) * step < step,
            step > 0,
    ;
}

/// The explicit winner of `s` is unknown, so a search goes on from it.
spec fn explicit_winner_is_none<E: TurnBasedGameEvaluator>(s: <E::G as Game>::S) -> bool where
    E::G: TurnBasedGame,
 {
    <E::G as TurnBasedGame>::explicit_winner_of(s) is None
}

} // verus!
