//! What alpha-beta pruning keeps: where no chance node is in reach, the
//! value that `ExpectiMinimax` computes within a window brackets the
//! unpruned minimax value, and equals it inside the window. The same holds
//! of the iterative search's value (`iterative_value`), with its null
//! window probes, where every node above the leaves has a move and every
//! leaf scores inside the band that clamping leaves alone.
use vstd::prelude::*;

use crate::interface::{Evaluator, Game, StochasticGame, TurnBasedGame, BEST_EVAL, WORST_EVAL};
use crate::strategies::common::clamped;
use crate::strategies::expecti_iterative::{
    iterative_child, iterative_max, iterative_min, iterative_value, root_values,
};
use crate::strategies::expectiminimax::{
    is_best_choice, leaf_value, max_fold, min_fold, root_move_value, saturate_i16, search_value,
};

verus! {

/// No chance node is met within `depth` moves of `s`.
pub open spec fn deterministic_to<E: Evaluator>(s: <E::G as Game>::S, depth: nat) -> bool where
    E::G: TurnBasedGame + StochasticGame,
    decreases depth, 1nat, 0nat,
{
    if depth == 0 {
        true
    } else {
        let moves = <E::G as Game>::moves_of(s);
        moves.len() == 0 || (!<E::G as StochasticGame>::is_random_of(s) && children_deterministic::<
            E,
        >(s, moves, 0, (depth - 1) as nat))
    }
}

/// No chance node is met within `cdepth` moves of the states that the
/// moves from index `i` on lead to.
pub open spec fn children_deterministic<E: Evaluator>(
    s: <E::G as Game>::S,
    moves: Seq<<E::G as Game>::M>,
    i: nat,
    cdepth: nat,
) -> bool where E::G: TurnBasedGame + StochasticGame
    decreases cdepth + 1, 0nat, moves.len() - i,
{
    if i >= moves.len() {
        true
    } else {
        deterministic_to::<E>(<E::G as Game>::next_state(s, moves[i as int]), cdepth)
            && children_deterministic::<E>(s, moves, i + 1, cdepth)
    }
}

/// The minimax value of `s` to `depth` for `player`, without pruning: the
/// best of the moves (and no less than `WORST_EVAL`) for the player, the
/// worst (and no more than `BEST_EVAL`) for the opponent.
pub open spec fn minimax_value<E: Evaluator>(
    eval: E,
    s: <E::G as Game>::S,
    depth: nat,
    player: i8,
) -> int where E::G: TurnBasedGame + StochasticGame
    decreases depth, 1nat, 0nat,
{
    if depth == 0 {
        leaf_value(eval, s, player)
    } else {
        let moves = <E::G as Game>::moves_of(s);
        if moves.len() == 0 {
            WORST_EVAL as int
        } else if <E::G as TurnBasedGame>::player_of(s) == player {
            minimax_max(eval, s, moves, 0, (depth - 1) as nat, player, WORST_EVAL as int)
        } else {
            minimax_min(eval, s, moves, 0, (depth - 1) as nat, player, BEST_EVAL as int)
        }
    }
}

/// The largest of `acc` and the minimax values of the moves from index `i` on.
pub open spec fn minimax_max<E: Evaluator>(
    eval: E,
    s: <E::G as Game>::S,
    moves: Seq<<E::G as Game>::M>,
    i: nat,
    cdepth: nat,
    player: i8,
    acc: int,
) -> int where E::G: TurnBasedGame + StochasticGame
    decreases cdepth + 1, 0nat, moves.len() - i,
{
    if i >= moves.len() {
        acc
    } else {
        let v = minimax_value(eval, <E::G as Game>::next_state(s, moves[i as int]), cdepth, player);
        minimax_max(eval, s, moves, i + 1, cdepth, player, if v > acc {
            v
        } else {
            acc
        })
    }
}

/// The smallest of `acc` and the minimax values of the moves from index `i` on.
pub open spec fn minimax_min<E: Evaluator>(
    eval: E,
    s: <E::G as Game>::S,
    moves: Seq<<E::G as Game>::M>,
    i: nat,
    cdepth: nat,
    player: i8,
    acc: int,
) -> int where E::G: TurnBasedGame + StochasticGame
    decreases cdepth + 1, 0nat, moves.len() - i,
{
    if i >= moves.len() {
        acc
    } else {
        let v = minimax_value(eval, <E::G as Game>::next_state(s, moves[i as int]), cdepth, player);
        minimax_min(eval, s, moves, i + 1, cdepth, player, if v < acc {
            v
        } else {
            acc
        })
    }
}

/// `r` is what a search with the window `alpha`..`beta` may return for a
/// position of value `m`: no more than `alpha` only if `m` is no more than
/// `r`, at least `beta` only if `m` is at least `r`, and `m` itself in between.
pub open spec fn brackets(r: int, m: int, alpha: int, beta: int) -> bool {
    &&& r <= alpha ==> m <= r
    &&& r >= beta ==> m >= r
    &&& alpha < r < beta ==> r == m
}

/// The running maximum only grows, and reaches every remaining move's value.
proof fn lemma_minimax_max_bounds<E: Evaluator>(
    eval: E,
    s: <E::G as Game>::S,
    moves: Seq<<E::G as Game>::M>,
    i: nat,
    cdepth: nat,
    player: i8,
    acc: int,
) where E::G: TurnBasedGame + StochasticGame
    ensures
        minimax_max(eval, s, moves, i, cdepth, player, acc) >= acc,
        forall|j: int|
            i <= j < moves.len() ==> minimax_max(eval, s, moves, i, cdepth, player, acc)
                >= #[trigger] minimax_value(
                eval,
                <E::G as Game>::next_state(s, moves[j]),
                cdepth,
                player,
            ),
    decreases moves.len() - i,
{
    if i < moves.len() {
        let v = minimax_value(eval, <E::G as Game>::next_state(s, moves[i as int]), cdepth, player);
        let next = if v > acc {
            v
        } else {
            acc
        };
        lemma_minimax_max_bounds(eval, s, moves, i + 1, cdepth, player, next);
    }
}

/// The running minimum only shrinks, and reaches every remaining move's value.
proof fn lemma_minimax_min_bounds<E: Evaluator>(
    eval: E,
    s: <E::G as Game>::S,
    moves: Seq<<E::G as Game>::M>,
    i: nat,
    cdepth: nat,
    player: i8,
    acc: int,
) where E::G: TurnBasedGame + StochasticGame
    ensures
        minimax_min(eval, s, moves, i, cdepth, player, acc) <= acc,
        forall|j: int|
            i <= j < moves.len() ==> minimax_min(eval, s, moves, i, cdepth, player, acc)
                <= #[trigger] minimax_value(
                eval,
                <E::G as Game>::next_state(s, moves[j]),
                cdepth,
                player,
            ),
    decreases moves.len() - i,
{
    if i < moves.len() {
        let v = minimax_value(eval, <E::G as Game>::next_state(s, moves[i as int]), cdepth, player);
        let next = if v < acc {
            v
        } else {
            acc
        };
        lemma_minimax_min_bounds(eval, s, moves, i + 1, cdepth, player, next);
    }
}

/// Alpha-beta pruning keeps the minimax value: where no chance node is in
/// reach, the search of `s` with a nonempty window `alpha`..`beta` returns
/// the minimax value if it lies strictly inside the window, an upper bound
/// of it at or below `alpha`, and a lower bound of it at or above `beta`.
pub proof fn lemma_search_brackets_minimax<E: Evaluator>(
    eval: E,
    s: <E::G as Game>::S,
    depth: nat,
    player: i8,
    alpha: int,
    beta: int,
) where E::G: TurnBasedGame + StochasticGame
    requires
        alpha < beta,
        deterministic_to::<E>(s, depth),
    ensures
        brackets(
            search_value(eval, s, depth, player, alpha, beta),
            minimax_value(eval, s, depth, player),
            alpha,
            beta,
        ),
    decreases depth, 1nat, 0nat,
{
    if depth > 0 {
        let moves = <E::G as Game>::moves_of(s);
        if moves.len() > 0 {
            let cdepth = (depth - 1) as nat;
            if <E::G as TurnBasedGame>::player_of(s) == player {
                lemma_max_fold_brackets(
                    eval,
                    s,
                    moves,
                    0,
                    cdepth,
                    player,
                    alpha,
                    alpha,
                    beta,
                    WORST_EVAL as int,
                    WORST_EVAL as int,
                );
            } else {
                lemma_min_fold_brackets(
                    eval,
                    s,
                    moves,
                    0,
                    cdepth,
                    player,
                    beta,
                    alpha,
                    beta,
                    BEST_EVAL as int,
                    BEST_EVAL as int,
                );
            }
        }
    }
}

/// The step of the proof at the player's node: `a` is the running lower
/// bound of the window, `best` the best value found, `acc` the unpruned
/// maximum of the moves before index `i`.
proof fn lemma_max_fold_brackets<E: Evaluator>(
    eval: E,
    s: <E::G as Game>::S,
    moves: Seq<<E::G as Game>::M>,
    i: nat,
    cdepth: nat,
    player: i8,
    alpha0: int,
    a: int,
    beta: int,
    best: int,
    acc: int,
) where E::G: TurnBasedGame + StochasticGame
    requires
        alpha0 < beta,
        children_deterministic::<E>(s, moves, i, cdepth),
        best <= alpha0 ==> acc <= best,
        best > alpha0 ==> best == acc,
        (a == alpha0 && a >= best) || (a == best && best > alpha0) || (a == alpha0 && best
            == acc && i == 0),
        i > 0 ==> best < beta,
        a < beta,
    ensures
        brackets(
            max_fold(eval, s, moves, i, cdepth, player, a, beta, best),
            minimax_max(eval, s, moves, i, cdepth, player, acc),
            alpha0,
            beta,
        ),
    decreases cdepth + 1, 0nat, moves.len() - i,
{
    if i < moves.len() {
        let child = <E::G as Game>::next_state(s, moves[i as int]);
        let v = search_value(eval, child, cdepth, player, a, beta);
        let mc = minimax_value(eval, child, cdepth, player);
        lemma_search_brackets_minimax(eval, child, cdepth, player, a, beta);
        let nb = if v > best {
            v
        } else {
            best
        };
        let nacc = if mc > acc {
            mc
        } else {
            acc
        };
        lemma_minimax_max_bounds(eval, s, moves, i + 1, cdepth, player, nacc);
        if nb >= beta {
        } else {
            let na = if a > nb {
                a
            } else {
                nb
            };
            lemma_max_fold_brackets(eval, s, moves, i + 1, cdepth, player, alpha0, na, beta, nb, nacc);
        }
    }
}

/// The step of the proof at the opponent's node: `b` is the running upper
/// bound of the window, `best` the lowest value found, `acc` the unpruned
/// minimum of the moves before index `i`.
proof fn lemma_min_fold_brackets<E: Evaluator>(
    eval: E,
    s: <E::G as Game>::S,
    moves: Seq<<E::G as Game>::M>,
    i: nat,
    cdepth: nat,
    player: i8,
    beta0: int,
    alpha: int,
    b: int,
    best: int,
    acc: int,
) where E::G: TurnBasedGame + StochasticGame
    requires
        alpha < beta0,
        children_deterministic::<E>(s, moves, i, cdepth),
        best >= beta0 ==> acc >= best,
        best < beta0 ==> best == acc,
        (b == beta0 && b <= best) || (b == best && best < beta0) || (b == beta0 && best == acc
            && i == 0),
        i > 0 ==> best > alpha,
        alpha < b,
    ensures
        brackets(
            min_fold(eval, s, moves, i, cdepth, player, alpha, b, best),
            minimax_min(eval, s, moves, i, cdepth, player, acc),
            alpha,
            beta0,
        ),
    decreases cdepth + 1, 0nat, moves.len() - i,
{
    if i < moves.len() {
        let child = <E::G as Game>::next_state(s, moves[i as int]);
        let v = search_value(eval, child, cdepth, player, alpha, b);
        let mc = minimax_value(eval, child, cdepth, player);
        lemma_search_brackets_minimax(eval, child, cdepth, player, alpha, b);
        let nb = if v < best {
            v
        } else {
            best
        };
        let nacc = if mc < acc {
            mc
        } else {
            acc
        };
        lemma_minimax_min_bounds(eval, s, moves, i + 1, cdepth, player, nacc);
        if nb <= alpha {
        } else {
            let n_b = if b < nb {
                b
            } else {
                nb
            };
            lemma_min_fold_brackets(eval, s, moves, i + 1, cdepth, player, beta0, alpha, n_b, nb, nacc);
        }
    }
}

/// Where no chance node is in reach, a choice that `choose_move` makes with
/// a value strictly between a loss and a win is a move of the best minimax
/// value: its minimax value is that value, and no move has a larger one.
pub proof fn lemma_best_choice_is_minimax_best<E: Evaluator>(
    eval: E,
    c: <E::G as Game>::S,
    moves: Seq<<E::G as Game>::M>,
    chosen: <E::G as Game>::M,
    depth: nat,
    player: i8,
    value: int,
) where E::G: TurnBasedGame + StochasticGame
    requires
        is_best_choice(eval, c, moves, chosen, depth, player, value),
        WORST_EVAL < value < BEST_EVAL,
        deterministic_to::<E>(<E::G as Game>::next_state(c, chosen), depth),
        forall|k: int|
            0 <= k < moves.len() ==> #[trigger] deterministic_to::<E>(
                <E::G as Game>::next_state(c, moves[k]),
                depth,
            ),
    ensures
        minimax_value(eval, <E::G as Game>::next_state(c, chosen), depth, player) == value,
        forall|k: int|
            0 <= k < moves.len() ==> #[trigger] minimax_value(
                eval,
                <E::G as Game>::next_state(c, moves[k]),
                depth,
                player,
            ) <= value,
{
    lemma_search_brackets_minimax(
        eval,
        <E::G as Game>::next_state(c, chosen),
        depth,
        player,
        WORST_EVAL as int,
        BEST_EVAL as int,
    );
    assert forall|k: int| 0 <= k < moves.len() implies #[trigger] minimax_value(
        eval,
        <E::G as Game>::next_state(c, moves[k]),
        depth,
        player,
    ) <= value by {
        assert(deterministic_to::<E>(<E::G as Game>::next_state(c, moves[k]), depth));
        lemma_search_brackets_minimax(
            eval,
            <E::G as Game>::next_state(c, moves[k]),
            depth,
            player,
            WORST_EVAL as int,
            BEST_EVAL as int,
        );
        assert(root_move_value(eval, c, moves[k], depth, player) <= value);
    }
}

/// `v` lies in the band of values that clamping leaves as they are.
pub open spec fn in_band(v: int) -> bool {
    WORST_EVAL + 100 <= v <= BEST_EVAL - 100
}

/// Within `depth` moves of `s`: no chance node, a move at every node above
/// the leaves, and every leaf scoring inside the band for `player`.
pub open spec fn tame<E: Evaluator>(eval: E, s: <E::G as Game>::S, depth: nat, player: i8) -> bool where
    E::G: TurnBasedGame + StochasticGame,
    decreases depth, 2nat, 0nat,
{
    if depth == 0 {
        in_band(leaf_value(eval, s, player))
    } else {
        let moves = <E::G as Game>::moves_of(s);
        moves.len() > 0 && !<E::G as StochasticGame>::is_random_of(s) && tame_children(
            eval,
            s,
            moves,
            0,
            (depth - 1) as nat,
            player,
        )
    }
}

/// The states that the moves from index `i` on lead to are `tame` to `cdepth`.
pub open spec fn tame_children<E: Evaluator>(
    eval: E,
    s: <E::G as Game>::S,
    moves: Seq<<E::G as Game>::M>,
    i: nat,
    cdepth: nat,
    player: i8,
) -> bool where E::G: TurnBasedGame + StochasticGame
    decreases cdepth + 1, 1nat, moves.len() - i,
{
    if i >= moves.len() {
        true
    } else {
        tame(eval, <E::G as Game>::next_state(s, moves[i as int]), cdepth, player) && tame_children(
            eval,
            s,
            moves,
            i + 1,
            cdepth,
            player,
        )
    }
}

/// The iterative search keeps the minimax value: where `s` is `tame`, its
/// value with a window `alpha`..`beta` inside the range of scores brackets
/// the unpruned minimax value, and with the full window equals it.
pub proof fn lemma_iterative_brackets_minimax<E: Evaluator>(
    eval: E,
    nws: bool,
    s: <E::G as Game>::S,
    depth: nat,
    player: i8,
    alpha: int,
    beta: int,
) where E::G: TurnBasedGame + StochasticGame
    requires
        tame(eval, s, depth, player),
        WORST_EVAL <= alpha < beta <= BEST_EVAL,
    ensures
        brackets(
            iterative_value(eval, nws, s, depth, player, alpha, beta),
            minimax_value(eval, s, depth, player),
            alpha,
            beta,
        ),
        in_band(iterative_value(eval, nws, s, depth, player, alpha, beta)),
        alpha == WORST_EVAL && beta == BEST_EVAL ==> iterative_value(
            eval,
            nws,
            s,
            depth,
            player,
            alpha,
            beta,
        ) == minimax_value(eval, s, depth, player),
    decreases depth, 2nat, 0nat,
{
    if depth > 0 {
        let moves = <E::G as Game>::moves_of(s);
        let cdepth = (depth - 1) as nat;
        if <E::G as TurnBasedGame>::player_of(s) == player {
            lemma_iterative_max_brackets(
                eval,
                nws,
                s,
                moves,
                0,
                cdepth,
                player,
                alpha,
                alpha,
                beta,
                WORST_EVAL as int,
                WORST_EVAL as int,
                false,
            );
        } else {
            lemma_iterative_min_brackets(
                eval,
                nws,
                s,
                moves,
                0,
                cdepth,
                player,
                alpha,
                beta,
                beta,
                BEST_EVAL as int,
                BEST_EVAL as int,
                false,
            );
        }
    }
}

/// A child searched with or without a null window probe first brackets its
/// minimax value within the window, and scores inside the band.
proof fn lemma_iterative_child_brackets<E: Evaluator>(
    eval: E,
    nws: bool,
    t: <E::G as Game>::S,
    cdepth: nat,
    player: i8,
    alpha: int,
    beta: int,
    null_window: bool,
) where E::G: TurnBasedGame + StochasticGame
    requires
        tame(eval, t, cdepth, player),
        WORST_EVAL <= alpha < beta <= BEST_EVAL,
    ensures
        brackets(
            iterative_child(eval, nws, t, cdepth, player, alpha, beta, null_window),
            minimax_value(eval, t, cdepth, player),
            alpha,
            beta,
        ),
        in_band(iterative_child(eval, nws, t, cdepth, player, alpha, beta, null_window)),
    decreases cdepth + 1, 0nat, 0nat,
{
    if null_window {
        assert(saturate_i16(alpha + 1) == alpha + 1);
        lemma_iterative_brackets_minimax(eval, nws, t, cdepth, player, alpha, alpha + 1);
        let probe = iterative_value(eval, nws, t, cdepth, player, alpha, alpha + 1);
        if probe > alpha && probe < beta {
            lemma_iterative_brackets_minimax(eval, nws, t, cdepth, player, probe, beta);
        }
    } else {
        lemma_iterative_brackets_minimax(eval, nws, t, cdepth, player, alpha, beta);
    }
}

/// The step of the proof at the searching player's node: `a` is the running
/// lower bound of the window, `best` the best value found, `acc` the
/// unpruned maximum of the moves before index `i`.
proof fn lemma_iterative_max_brackets<E: Evaluator>(
    eval: E,
    nws: bool,
    s: <E::G as Game>::S,
    moves: Seq<<E::G as Game>::M>,
    i: nat,
    cdepth: nat,
    player: i8,
    alpha0: int,
    a: int,
    beta: int,
    best: int,
    acc: int,
    null_window: bool,
) where E::G: TurnBasedGame + StochasticGame
    requires
        tame_children(eval, s, moves, i, cdepth, player),
        WORST_EVAL <= alpha0 < beta <= BEST_EVAL,
        alpha0 <= a < beta,
        best <= a,
        best <= alpha0 ==> acc <= best,
        best > alpha0 ==> best == acc && a == best,
        best <= alpha0 ==> a == alpha0,
        i == 0 ==> best == WORST_EVAL && acc == WORST_EVAL,
        i > 0 ==> in_band(best),
    ensures
        brackets(
            iterative_max(eval, nws, s, moves, i, cdepth, player, a, beta, best, null_window),
            minimax_max(eval, s, moves, i, cdepth, player, acc),
            alpha0,
            beta,
        ),
        i < moves.len() || i > 0 ==> in_band(
            iterative_max(eval, nws, s, moves, i, cdepth, player, a, beta, best, null_window),
        ),
    decreases cdepth + 1, 1nat, moves.len() - i,
{
    if i < moves.len() {
        let child = <E::G as Game>::next_state(s, moves[i as int]);
        let v = iterative_child(eval, nws, child, cdepth, player, a, beta, null_window);
        let mc = minimax_value(eval, child, cdepth, player);
        lemma_iterative_child_brackets(eval, nws, child, cdepth, player, a, beta, null_window);
        let nb = if v > best {
            v
        } else {
            best
        };
        let nacc = if mc > acc {
            mc
        } else {
            acc
        };
        lemma_minimax_max_bounds(eval, s, moves, i + 1, cdepth, player, nacc);
        if nb >= beta {
        } else if v >= a {
            lemma_iterative_max_brackets(
                eval,
                nws,
                s,
                moves,
                i + 1,
                cdepth,
                player,
                alpha0,
                v,
                beta,
                nb,
                nacc,
                nws,
            );
        } else {
            lemma_iterative_max_brackets(
                eval,
                nws,
                s,
                moves,
                i + 1,
                cdepth,
                player,
                alpha0,
                a,
                beta,
                nb,
                nacc,
                null_window,
            );
        }
    }
}

/// The step of the proof at the opponent's node: `b` is the running upper
/// bound of the window (the last child's value once a lower value than
/// `beta0` is found), `best` the lowest value found, `acc` the unpruned
/// minimum of the moves before index `i`.
proof fn lemma_iterative_min_brackets<E: Evaluator>(
    eval: E,
    nws: bool,
    s: <E::G as Game>::S,
    moves: Seq<<E::G as Game>::M>,
    i: nat,
    cdepth: nat,
    player: i8,
    alpha: int,
    beta0: int,
    b: int,
    best: int,
    acc: int,
    null_window: bool,
) where E::G: TurnBasedGame + StochasticGame
    requires
        tame_children(eval, s, moves, i, cdepth, player),
        WORST_EVAL <= alpha < beta0 <= BEST_EVAL,
        alpha < b <= BEST_EVAL,
        acc >= best,
        best < beta0 ==> acc <= best,
        b == beta0 || b >= best,
        i == 0 ==> best == BEST_EVAL && acc == BEST_EVAL,
        i > 0 ==> best > alpha && in_band(best),
    ensures
        brackets(
            iterative_min(eval, nws, s, moves, i, cdepth, player, alpha, b, best, null_window),
            minimax_min(eval, s, moves, i, cdepth, player, acc),
            alpha,
            beta0,
        ),
        i < moves.len() || i > 0 ==> in_band(
            iterative_min(eval, nws, s, moves, i, cdepth, player, alpha, b, best, null_window),
        ),
    decreases cdepth + 1, 1nat, moves.len() - i,
{
    if i < moves.len() {
        let child = <E::G as Game>::next_state(s, moves[i as int]);
        let v = iterative_child(eval, nws, child, cdepth, player, alpha, b, null_window);
        let mc = minimax_value(eval, child, cdepth, player);
        lemma_iterative_child_brackets(eval, nws, child, cdepth, player, alpha, b, null_window);
        let nb = if v < best {
            v
        } else {
            best
        };
        let nacc = if mc < acc {
            mc
        } else {
            acc
        };
        lemma_minimax_min_bounds(eval, s, moves, i + 1, cdepth, player, nacc);
        if nb <= alpha {
        } else if nb < b {
            lemma_iterative_min_brackets(
                eval,
                nws,
                s,
                moves,
                i + 1,
                cdepth,
                player,
                alpha,
                beta0,
                v,
                nb,
                nacc,
                nws,
            );
        } else {
            lemma_iterative_min_brackets(
                eval,
                nws,
                s,
                moves,
                i + 1,
                cdepth,
                player,
                alpha,
                beta0,
                b,
                nb,
                nacc,
                null_window,
            );
        }
    }
}

/// The root search keeps the best minimax value: where every root move of
/// `c` leads to a `tame` state, the first root move of the largest value
/// that the iterative search gives has that value as its minimax value, and
/// no root move has a larger minimax value.
pub proof fn lemma_root_choice_is_minimax_best<E: Evaluator>(
    eval: E,
    nws: bool,
    c: <E::G as Game>::S,
    moves: Seq<<E::G as Game>::M>,
    cdepth: nat,
    player: i8,
    k0: int,
) where E::G: TurnBasedGame + StochasticGame
    requires
        forall|k: int|
            0 <= k < moves.len() ==> #[trigger] tame(
                eval,
                <E::G as Game>::next_state(c, moves[k]),
                cdepth,
                player,
            ),
        0 <= k0 < moves.len(),
        forall|j: int|
            0 <= j < moves.len() ==> #[trigger] root_values(
                eval,
                nws,
                c,
                moves,
                0,
                cdepth,
                player,
                WORST_EVAL as int,
            )[j] <= root_values(eval, nws, c, moves, 0, cdepth, player, WORST_EVAL as int)[k0],
        forall|j: int|
            0 <= j < k0 ==> #[trigger] root_values(
                eval,
                nws,
                c,
                moves,
                0,
                cdepth,
                player,
                WORST_EVAL as int,
            )[j] < root_values(eval, nws, c, moves, 0, cdepth, player, WORST_EVAL as int)[k0],
    ensures
        minimax_value(eval, <E::G as Game>::next_state(c, moves[k0]), cdepth, player)
            == root_values(eval, nws, c, moves, 0, cdepth, player, WORST_EVAL as int)[k0],
        forall|k: int|
            0 <= k < moves.len() ==> #[trigger] minimax_value(
                eval,
                <E::G as Game>::next_state(c, moves[k]),
                cdepth,
                player,
            ) <= root_values(eval, nws, c, moves, 0, cdepth, player, WORST_EVAL as int)[k0],
{
    let vals = root_values(eval, nws, c, moves, 0, cdepth, player, WORST_EVAL as int);
    lemma_root_values_bracket(eval, nws, c, moves, 0, cdepth, player, WORST_EVAL as int);
    assert forall|k: int| 0 <= k < moves.len() implies #[trigger] minimax_value(
        eval,
        <E::G as Game>::next_state(c, moves[k]),
        cdepth,
        player,
    ) <= vals[k0] by {
        let m = minimax_value(eval, <E::G as Game>::next_state(c, moves[k]), cdepth, player);
        lemma_iterative_brackets_minimax(
            eval,
            nws,
            <E::G as Game>::next_state(c, moves[k]),
            cdepth,
            player,
            WORST_EVAL as int,
            BEST_EVAL as int,
        );
        assert(m > WORST_EVAL);
        let l = choose|l: int| 0 <= l <= k - 0 && m <= #[trigger] vals[l];
        assert(vals[l] <= vals[k0]);
    }
    assert(vals[k0] > WORST_EVAL) by {
        assert(in_band(vals[k0]));
    }
}

/// What the root values from index `i` on, with the running lower bound
/// `a`, say of the minimax values: each is at most one of the values up to
/// its own (or at most `a`), and a value above `a` and above all the values
/// before it is exact.
#[verifier::rlimit(60)]
#[verifier::spinoff_prover]
proof fn lemma_root_values_bracket<E: Evaluator>(
    eval: E,
    nws: bool,
    c: <E::G as Game>::S,
    moves: Seq<<E::G as Game>::M>,
    i: nat,
    cdepth: nat,
    player: i8,
    a: int,
) where E::G: TurnBasedGame + StochasticGame
    requires
        forall|k: int|
            i <= k < moves.len() ==> #[trigger] tame(
                eval,
                <E::G as Game>::next_state(c, moves[k]),
                cdepth,
                player,
            ),
        WORST_EVAL <= a < BEST_EVAL,
    ensures
        root_values(eval, nws, c, moves, i, cdepth, player, a).len() == if i <= moves.len() {
            moves.len() - i
        } else {
            0
        },
        forall|j: int|
            0 <= j < root_values(eval, nws, c, moves, i, cdepth, player, a).len() ==> in_band(
                #[trigger] root_values(eval, nws, c, moves, i, cdepth, player, a)[j],
            ),
        forall|k: int|
            i <= k < moves.len() ==> {
                ||| #[trigger] minimax_value(
                    eval,
                    <E::G as Game>::next_state(c, moves[k]),
                    cdepth,
                    player,
                ) <= a
                ||| exists|l: int|
                    0 <= l <= k - i && minimax_value(
                        eval,
                        <E::G as Game>::next_state(c, moves[k]),
                        cdepth,
                        player,
                    ) <= #[trigger] root_values(eval, nws, c, moves, i, cdepth, player, a)[l]
            },
        forall|j: int|
            0 <= j < root_values(eval, nws, c, moves, i, cdepth, player, a).len() && #[trigger] root_values(
                eval,
                nws,
                c,
                moves,
                i,
                cdepth,
                player,
                a,
            )[j] > a && (forall|l: int|
                0 <= l < j ==> root_values(eval, nws, c, moves, i, cdepth, player, a)[l]
                    < root_values(eval, nws, c, moves, i, cdepth, player, a)[j]) ==> minimax_value(
                eval,
                <E::G as Game>::next_state(c, moves[i + j]),
                cdepth,
                player,
            ) == root_values(eval, nws, c, moves, i, cdepth, player, a)[j],
    decreases moves.len() - i,
{
    if i < moves.len() {
        let child = <E::G as Game>::next_state(c, moves[i as int]);
        let v = iterative_value(eval, nws, child, cdepth, player, a, BEST_EVAL as int);
        lemma_iterative_brackets_minimax(eval, nws, child, cdepth, player, a, BEST_EVAL as int);
        let na = if v > a {
            v
        } else {
            a
        };
        lemma_root_values_bracket(eval, nws, c, moves, i + 1, cdepth, player, na);
        let vals = root_values(eval, nws, c, moves, i, cdepth, player, a);
        let rest = root_values(eval, nws, c, moves, i + 1, cdepth, player, na);
        assert(vals == seq![v] + rest);
        assert forall|j: int| 0 <= j < vals.len() implies in_band(#[trigger] vals[j]) by {
            if j > 0 {
                assert(vals[j] == rest[j - 1]);
            }
        }
        assert forall|k: int| i <= k < moves.len() implies {
            ||| #[trigger] minimax_value(
                eval,
                <E::G as Game>::next_state(c, moves[k]),
                cdepth,
                player,
            ) <= a
            ||| exists|l: int|
                0 <= l <= k - i && minimax_value(
                    eval,
                    <E::G as Game>::next_state(c, moves[k]),
                    cdepth,
                    player,
                ) <= #[trigger] vals[l]
        } by {
            let m = minimax_value(eval, <E::G as Game>::next_state(c, moves[k]), cdepth, player);
            if k == i {
                assert(m <= vals[0]);
            } else {
                if m <= na {
                    if m > a {
                        assert(m <= vals[0]);
                    }
                } else {
                    let l2 = choose|l2: int| 0 <= l2 <= k - (i + 1) && m <= #[trigger] rest[l2];
                    assert(vals[l2 + 1] == rest[l2]);
                    assert(m <= vals[l2 + 1]);
                }
            }
        }
        assert forall|j: int|
            0 <= j < vals.len() && #[trigger] vals[j] > a && (forall|l: int|
                0 <= l < j ==> vals[l] < vals[j]) implies minimax_value(
            eval,
            <E::G as Game>::next_state(c, moves[i + j]),
            cdepth,
            player,
        ) == vals[j] by {
            if j > 0 {
                assert(vals[j] == rest[j - 1]);
                assert(moves[i + j] == moves[(i + 1) + (j - 1)]);
                assert(vals[0] < vals[j]);
                assert forall|l: int| 0 <= l < j - 1 implies #[trigger] rest[l] < rest[j - 1] by {
                    assert(vals[l + 1] == rest[l]);
                }
            }
        }
    }
}

} // verus!
