//! Depth limited expectiminimax search with alpha-beta pruning at the
//! players' nodes and probability weighted averages at chance nodes.
use vstd::prelude::*;

use crate::interface::{
    Evaluation, Evaluator, Game, StochasticGame, Strategy, TurnBasedGame, TurnBasedGameEvaluator,
    TurnBasedWinner, BEST_EVAL, PROBABILITY_ONE, WORST_EVAL,
};
use crate::outside::{shuffle, thread_rng};

verus! {

broadcast use vstd::seq_lib::group_to_multiset_ensures;

/// The value of a position where the search stops: a finished game is won,
/// lost or drawn for `player`; otherwise the evaluator scores it.
pub open spec fn leaf_value<E: Evaluator>(eval: E, s: <E::G as Game>::S, player: i8) -> int where
    E::G: TurnBasedGame,
 {
    match <E::G as TurnBasedGame>::explicit_winner_of(s) {
        Some(TurnBasedWinner::Player(p)) => if p == player {
            BEST_EVAL as int
        } else {
            WORST_EVAL as int
        },
        Some(TurnBasedWinner::Draw) => 0,
        None => eval.evaluation_of(s) as int,
    }
}

/// `x` limited to the range of `Evaluation`'s type.
pub open spec fn saturate_i16(x: int) -> int {
    if x > i16::MAX {
        i16::MAX as int
    } else if x < i16::MIN {
        i16::MIN as int
    } else {
        x
    }
}

/// A probability weighted sum of scores, in units of `PROBABILITY_ONE`,
/// rounded to the nearest score (halves away from zero) and saturated.
pub open spec fn chance_value(total: int) -> int {
    let one = PROBABILITY_ONE as int;
    let rounded = if total >= 0 {
        (total + one / 2) / one
    } else {
        -((-total + one / 2) / one)
    };
    saturate_i16(rounded)
}

/// The value of a probability weighted sum is the nearest score, halves
/// rounded away from zero: within the range of scores, `chance_value(total)`
/// units of `PROBABILITY_ONE` lie within half a unit of `total`, above it
/// only where `total` is negative and below it only where it is not.
pub proof fn lemma_chance_value_rounds(total: int)
    requires
        i16::MIN * PROBABILITY_ONE <= total <= i16::MAX * PROBABILITY_ONE,
    ensures
        total >= 0 ==> total - PROBABILITY_ONE / 2 < chance_value(total) * PROBABILITY_ONE
            <= total + PROBABILITY_ONE / 2,
        total < 0 ==> total - PROBABILITY_ONE / 2 <= chance_value(total) * PROBABILITY_ONE
            < total + PROBABILITY_ONE / 2,
{
    let one = PROBABILITY_ONE as int;
    if total >= 0 {
        let q = (total + one / 2) / one;
        vstd::arithmetic::div_mod::lemma_fundamental_div_mod(total + one / 2, one);
        vstd::arithmetic::div_mod::lemma_mod_bound(total + one / 2, one);
        assert(q <= 32767) by (nonlinear_arith)
            requires
                q == (total + 500000) / 1000000,
                0 <= total <= 32767 * 1000000,
        ;
        assert(chance_value(total) == q);
    } else {
        let q = (-total + one / 2) / one;
        vstd::arithmetic::div_mod::lemma_fundamental_div_mod(-total + one / 2, one);
        vstd::arithmetic::div_mod::lemma_mod_bound(-total + one / 2, one);
        assert(q <= 32768) by (nonlinear_arith)
            requires
                q == (-total + 500000) / 1000000,
                0 < -total <= 32768 * 1000000,
        ;
        assert(chance_value(total) == -q);
    }
}

/// The sum, over the moves of `ms`, of each move's weight times its value.
pub open spec fn weighted_sum<M>(
    ms: Seq<M>,
    weight: spec_fn(M) -> int,
    value: spec_fn(M) -> int,
) -> int
    decreases ms.len(),
{
    if ms.len() == 0 {
        0
    } else {
        weighted_sum(ms.drop_last(), weight, value) + weight(ms.last()) * value(ms.last())
    }
}

/// A chance node is valued by its outcomes: where `s` is a chance node with
/// moves and `depth` moves remain, the search's value of `s` is the rounded
/// sum, over its moves, of each move's probability times the search's value
/// of the state it leads to with one move less, whoever is to move in `s`.
pub proof fn lemma_chance_node_averages_outcomes<E: Evaluator>(
    eval: E,
    s: <E::G as Game>::S,
    depth: nat,
    player: i8,
    alpha: int,
    beta: int,
) where E::G: TurnBasedGame + StochasticGame
    requires
        depth >= 1,
        <E::G as StochasticGame>::is_random_of(s),
        <E::G as Game>::moves_of(s).len() > 0,
    ensures
        search_value(eval, s, depth, player, alpha, beta) == chance_value(
            weighted_sum(
                <E::G as Game>::moves_of(s),
                |m: <E::G as Game>::M| <E::G as StochasticGame>::probability_of(s, m) as int,
                |m: <E::G as Game>::M|
                    search_value(
                        eval,
                        <E::G as Game>::next_state(s, m),
                        (depth - 1) as nat,
                        player,
                        alpha,
                        beta,
                    ),
            ),
        ),
{
    let ms = <E::G as Game>::moves_of(s);
    lemma_chance_total_sums(eval, s, ms, 0, (depth - 1) as nat, player, alpha, beta);
    assert(ms.take(0) =~= Seq::<<E::G as Game>::M>::empty());
}

/// The sum that `chance_total` makes from index `i` on, with the weighted
/// sum of the moves before `i`, is the weighted sum of all the moves.
pub proof fn lemma_chance_total_sums<E: Evaluator>(
    eval: E,
    s: <E::G as Game>::S,
    ms: Seq<<E::G as Game>::M>,
    i: nat,
    cdepth: nat,
    player: i8,
    alpha: int,
    beta: int,
) where E::G: TurnBasedGame + StochasticGame
    requires
        i <= ms.len(),
    ensures
        weighted_sum(
            ms.take(i as int),
            |m: <E::G as Game>::M| <E::G as StochasticGame>::probability_of(s, m) as int,
            |m: <E::G as Game>::M|
                search_value(eval, <E::G as Game>::next_state(s, m), cdepth, player, alpha, beta),
        ) + chance_total(eval, s, ms, i, cdepth, player, alpha, beta) == weighted_sum(
            ms,
            |m: <E::G as Game>::M| <E::G as StochasticGame>::probability_of(s, m) as int,
            |m: <E::G as Game>::M|
                search_value(eval, <E::G as Game>::next_state(s, m), cdepth, player, alpha, beta),
        ),
    decreases ms.len() - i,
{
    let w = |m: <E::G as Game>::M| <E::G as StochasticGame>::probability_of(s, m) as int;
    let v = |m: <E::G as Game>::M|
        search_value(eval, <E::G as Game>::next_state(s, m), cdepth, player, alpha, beta);
    if i == ms.len() {
        assert(ms.take(i as int) =~= ms);
    } else {
        lemma_chance_total_sums(eval, s, ms, i + 1, cdepth, player, alpha, beta);
        assert(ms.take((i + 1) as int).drop_last() =~= ms.take(i as int));
        assert(ms.take((i + 1) as int).last() == ms[i as int]);
        assert(weighted_sum(ms.take((i + 1) as int), w, v) == weighted_sum(ms.take(i as int), w, v) + w(
            ms[i as int],
        ) * v(ms[i as int]));
    }
}

/// The value that the search gives to `s` when `depth` moves remain, for
/// `player`, with the window `alpha`..`beta`.
pub open spec fn search_value<E: Evaluator>(
    eval: E,
    s: <E::G as Game>::S,
    depth: nat,
    player: i8,
    alpha: int,
    beta: int,
) -> int where E::G: TurnBasedGame + StochasticGame
    decreases depth, 1nat, 0nat,
{
    if depth == 0 {
        leaf_value(eval, s, player)
    } else {
        let moves = <E::G as Game>::moves_of(s);
        if moves.len() == 0 {
            WORST_EVAL as int
        } else if <E::G as StochasticGame>::is_random_of(s) {
            chance_value(chance_total(eval, s, moves, 0, (depth - 1) as nat, player, alpha, beta))
        } else if <E::G as TurnBasedGame>::player_of(s) == player {
            max_fold(eval, s, moves, 0, (depth - 1) as nat, player, alpha, beta, WORST_EVAL as int)
        } else {
            min_fold(eval, s, moves, 0, (depth - 1) as nat, player, alpha, beta, BEST_EVAL as int)
        }
    }
}

/// The sum, over the moves from index `i` on, of each move's probability
/// times the value of the state it leads to.
pub open spec fn chance_total<E: Evaluator>(
    eval: E,
    s: <E::G as Game>::S,
    moves: Seq<<E::G as Game>::M>,
    i: nat,
    cdepth: nat,
    player: i8,
    alpha: int,
    beta: int,
) -> int where E::G: TurnBasedGame + StochasticGame
    decreases cdepth + 1, 0nat, moves.len() - i,
{
    if i >= moves.len() {
        0
    } else {
        <E::G as StochasticGame>::probability_of(s, moves[i as int]) * search_value(
            eval,
            <E::G as Game>::next_state(s, moves[i as int]),
            cdepth,
            player,
            alpha,
            beta,
        ) + chance_total(eval, s, moves, i + 1, cdepth, player, alpha, beta)
    }
}

/// The maximizing player's node, from the move at index `i` on, with the
/// best value found so far `best`: a value at or above `beta` cuts the rest.
pub open spec fn max_fold<E: Evaluator>(
    eval: E,
    s: <E::G as Game>::S,
    moves: Seq<<E::G as Game>::M>,
    i: nat,
    cdepth: nat,
    player: i8,
    alpha: int,
    beta: int,
    best: int,
) -> int where E::G: TurnBasedGame + StochasticGame
    decreases cdepth + 1, 0nat, moves.len() - i,
{
    if i >= moves.len() {
        best
    } else {
        let score = search_value(
            eval,
            <E::G as Game>::next_state(s, moves[i as int]),
            cdepth,
            player,
            alpha,
            beta,
        );
        let next_best = if score > best {
            score
        } else {
            best
        };
        if next_best >= beta {
            next_best
        } else {
            let next_alpha = if alpha > next_best {
                alpha
            } else {
                next_best
            };
            max_fold(eval, s, moves, i + 1, cdepth, player, next_alpha, beta, next_best)
        }
    }
}

/// The minimizing player's node, from the move at index `i` on, with the
/// best value found so far `best`: a value at or below `alpha` cuts the rest.
pub open spec fn min_fold<E: Evaluator>(
    eval: E,
    s: <E::G as Game>::S,
    moves: Seq<<E::G as Game>::M>,
    i: nat,
    cdepth: nat,
    player: i8,
    alpha: int,
    beta: int,
    best: int,
) -> int where E::G: TurnBasedGame + StochasticGame
    decreases cdepth + 1, 0nat, moves.len() - i,
{
    if i >= moves.len() {
        best
    } else {
        let score = search_value(
            eval,
            <E::G as Game>::next_state(s, moves[i as int]),
            cdepth,
            player,
            alpha,
            beta,
        );
        let next_best = if score < best {
            score
        } else {
            best
        };
        if next_best <= alpha {
            next_best
        } else {
            let next_beta = if beta < next_best {
                beta
            } else {
                next_best
            };
            min_fold(eval, s, moves, i + 1, cdepth, player, alpha, next_beta, next_best)
        }
    }
}

/// The value that `choose_move` gives to the move `m` of `c`: the search
/// of the state it leads to, to `depth`, with the full window.
pub open spec fn root_move_value<E: Evaluator>(
    eval: E,
    c: <E::G as Game>::S,
    m: <E::G as Game>::M,
    depth: nat,
    player: i8,
) -> int where E::G: TurnBasedGame + StochasticGame {
    search_value(
        eval,
        <E::G as Game>::next_state(c, m),
        depth,
        player,
        WORST_EVAL as int,
        BEST_EVAL as int,
    )
}

/// `value` is the best of the values of `moves` in `c` (or `WORST_EVAL` if
/// none is better), and `chosen` has it, where it is better than `WORST_EVAL`.
pub open spec fn is_best_choice<E: Evaluator>(
    eval: E,
    c: <E::G as Game>::S,
    moves: Seq<<E::G as Game>::M>,
    chosen: <E::G as Game>::M,
    depth: nat,
    player: i8,
    value: int,
) -> bool where E::G: TurnBasedGame + StochasticGame {
    &&& value >= WORST_EVAL
    &&& forall|k: int|
        0 <= k < moves.len() ==> #[trigger] root_move_value(eval, c, moves[k], depth, player)
            <= value
    &&& value > WORST_EVAL ==> root_move_value(eval, c, chosen, depth, player) == value
}

/// Rounds a probability weighted sum of scores to a score.
pub fn round_chance(total: i128) -> (r: Evaluation)
    requires
        -0x1_0000_0000_0000_0000_0000_0000_0000 < total < 0x1_0000_0000_0000_0000_0000_0000_0000,
    ensures
        r == chance_value(total as int),
{
    let one: i128 = 1000000;
    let half: i128 = 500000;
    let rounded: i128 = if total >= 0 {
        (total + half) / one
    } else {
        -((-total + half) / one)
    };
    if rounded > 32767 {
        32767
    } else if rounded < -32768 {
        -32768
    } else {
        rounded as i16
    }
}

/// A depth limited expectiminimax search.
pub struct ExpectiMinimax<E> where E: Evaluator, E::G: StochasticGame + TurnBasedGame {
    max_depth: u8,
    rng: rand::rngs::ThreadRng,
    /// The value of the move chosen last.
    pub prev_value: Evaluation,
    /// The evaluator of the positions where the search stops.
    pub eval: E,
}

impl<E> ExpectiMinimax<E> where E: TurnBasedGameEvaluator, E::G: StochasticGame + TurnBasedGame {
    /// The depth to which `choose_move` searches.
    pub closed spec fn depth_limit(&self) -> u8 {
        self.max_depth
    }

    /// The value of the move chosen last (the field `prev_value`).
    pub closed spec fn last_value(&self) -> Evaluation {
        self.prev_value
    }

    /// The evaluator (the field `eval`).
    pub closed spec fn evaluator(&self) -> E {
        self.eval
    }

    /// A search to `depth` that scores positions with `evaluator`.
    pub fn new(evaluator: E, depth: u8) -> (r: Self)
        ensures
            r.depth_limit() == depth,
            r.last_value() == 0,
            r.evaluator() == evaluator,
    {
        Self { max_depth: depth, rng: thread_rng(), prev_value: 0, eval: evaluator }
    }

    /// The value of `s` searched to `depth` for `to_choose_player` within
    /// the window `alpha`..`beta`; `s` is left as it was.
    pub fn expectiminimax(
        &mut self,
        s: &mut <E::G as Game>::S,
        depth: u8,
        to_choose_player: i8,
        alpha: Evaluation,
        beta: Evaluation,
    ) -> (r: Evaluation)
        ensures
            r == search_value(
                old(self).evaluator(),
                *old(s),
                depth as nat,
                to_choose_player,
                alpha as int,
                beta as int,
            ),
            *final(s) == *old(s),
            *final(self) == *old(self),
        decreases depth, 2nat,
    {
        if depth == 0 {
            match <E::G as TurnBasedGame>::get_explicit_winner(s) {
                Some(TurnBasedWinner::Player(p)) => {
                    if p == to_choose_player {
                        return BEST_EVAL;
                    } else {
                        return WORST_EVAL;
                    }
                },
                Some(TurnBasedWinner::Draw) => {
                    return 0;
                },
                None => {},
            }
            return self.eval.evaluate(s);
        }
        let mut moves: Vec<<E::G as Game>::M> = Vec::new();
        let _ = <E::G as Game>::generate_moves(s, &mut moves);
        assert(moves@ =~= <E::G as Game>::moves_of(*s));
        if moves.len() == 0 {
            return WORST_EVAL;
        }
        if <E::G as StochasticGame>::is_random_move(s) {
            self.chance_node(s, &moves, depth - 1, to_choose_player, alpha, beta)
        } else if <E::G as TurnBasedGame>::current_player(s) == to_choose_player {
            self.max_node(s, &moves, depth - 1, to_choose_player, alpha, beta)
        } else {
            self.min_node(s, &moves, depth - 1, to_choose_player, alpha, beta)
        }
    }

    /// The value of the state that `m` leads to from `s`; `s` is left as it was.
    fn child_value(
        &mut self,
        s: &mut <E::G as Game>::S,
        m: <E::G as Game>::M,
        cdepth: u8,
        to_choose_player: i8,
        alpha: Evaluation,
        beta: Evaluation,
    ) -> (r: Evaluation)
        ensures
            r == search_value(
                old(self).evaluator(),
                <E::G as Game>::next_state(*old(s), m),
                cdepth as nat,
                to_choose_player,
                alpha as int,
                beta as int,
            ),
            *final(s) == *old(s),
            *final(self) == *old(self),
        decreases cdepth + 1, 0nat,
    {
        match <E::G as Game>::apply(s, m) {
            Some(mut next) => self.expectiminimax(&mut next, cdepth, to_choose_player, alpha, beta),
            None => {
                let v = self.expectiminimax(s, cdepth, to_choose_player, alpha, beta);
                <E::G as Game>::undo(s, m);
                v
            },
        }
    }

    /// A chance node: the probability weighted average of the moves' values.
    fn chance_node(
        &mut self,
        s: &mut <E::G as Game>::S,
        moves: &Vec<<E::G as Game>::M>,
        cdepth: u8,
        to_choose_player: i8,
        alpha: Evaluation,
        beta: Evaluation,
    ) -> (r: Evaluation)
        ensures
            r == chance_value(
                chance_total(
                    old(self).evaluator(),
                    *old(s),
                    moves@,
                    0,
                    cdepth as nat,
                    to_choose_player,
                    alpha as int,
                    beta as int,
                ),
            ),
            *final(s) == *old(s),
            *final(self) == *old(self),
        decreases cdepth + 1, 1nat,
    {
        let ghost s0 = *s;
        let ghost me = *self;
        let mut value: i128 = 0;
        let mut i: usize = 0;
        while i < moves.len()
            invariant
                0 <= i <= moves.len(),
                *s == s0,
                *self == me,
                s0 == *old(s),
                me == *old(self),
                -(i as int) * 0x8000_0000_0000 <= value <= (i as int) * 0x8000_0000_0000,
                value + chance_total(
                    me.eval,
                    s0,
                    moves@,
                    i as nat,
                    cdepth as nat,
                    to_choose_player,
                    alpha as int,
                    beta as int,
                ) == chance_total(
                    me.eval,
                    s0,
                    moves@,
                    0,
                    cdepth as nat,
                    to_choose_player,
                    alpha as int,
                    beta as int,
                ),
            decreases moves.len() - i,
        {
            let m = moves[i];
            let p = <E::G as StochasticGame>::get_probability(s, m);
            let score = self.child_value(s, m, cdepth, to_choose_player, alpha, beta);
            assert(-0x8000_0000_0000 <= (p as int) * (score as int) <= 0x8000_0000_0000)
                by (nonlinear_arith)
                requires
                    0 <= p <= 0xffff_ffff,
                    -32768 <= score <= 32767,
            ;
            let term: i128 = (p as i128) * (score as i128);
            assert(i < 0x1_0000_0000_0000_0000);
            value = value + term;
            i = i + 1;
        }
        assert(value <= 0x1_0000_0000_0000_0000 * 0x8000_0000_0000);
        round_chance(value)
    }

    /// The node of the player for whom the search is made: the best value
    /// of the moves, skipping the rest once it reaches `beta`.
    fn max_node(
        &mut self,
        s: &mut <E::G as Game>::S,
        moves: &Vec<<E::G as Game>::M>,
        cdepth: u8,
        to_choose_player: i8,
        alpha: Evaluation,
        beta: Evaluation,
    ) -> (r: Evaluation)
        ensures
            r == max_fold(
                old(self).evaluator(),
                *old(s),
                moves@,
                0,
                cdepth as nat,
                to_choose_player,
                alpha as int,
                beta as int,
                WORST_EVAL as int,
            ),
            *final(s) == *old(s),
            *final(self) == *old(self),
        decreases cdepth + 1, 1nat,
    {
        let ghost s0 = *s;
        let ghost me = *self;
        let mut best: Evaluation = WORST_EVAL;
        let mut a: Evaluation = alpha;
        let mut i: usize = 0;
        while i < moves.len()
            invariant
                0 <= i <= moves.len(),
                *s == s0,
                *self == me,
                s0 == *old(s),
                me == *old(self),
                max_fold(
                    me.eval,
                    s0,
                    moves@,
                    i as nat,
                    cdepth as nat,
                    to_choose_player,
                    a as int,
                    beta as int,
                    best as int,
                ) == max_fold(
                    me.eval,
                    s0,
                    moves@,
                    0,
                    cdepth as nat,
                    to_choose_player,
                    alpha as int,
                    beta as int,
                    WORST_EVAL as int,
                ),
            decreases moves.len() - i,
        {
            let m = moves[i];
            let score = self.child_value(s, m, cdepth, to_choose_player, a, beta);
            if score > best {
                best = score;
            }
            if best >= beta {
                return best;
            }
            if best > a {
                a = best;
            }
            i = i + 1;
        }
        best
    }

    /// The node of the opponent: the lowest value of the moves, skipping
    /// the rest once it reaches `alpha`.
    fn min_node(
        &mut self,
        s: &mut <E::G as Game>::S,
        moves: &Vec<<E::G as Game>::M>,
        cdepth: u8,
        to_choose_player: i8,
        alpha: Evaluation,
        beta: Evaluation,
    ) -> (r: Evaluation)
        ensures
            r == min_fold(
                old(self).evaluator(),
                *old(s),
                moves@,
                0,
                cdepth as nat,
                to_choose_player,
                alpha as int,
                beta as int,
                BEST_EVAL as int,
            ),
            *final(s) == *old(s),
            *final(self) == *old(self),
        decreases cdepth + 1, 1nat,
    {
        let ghost s0 = *s;
        let ghost me = *self;
        let mut best: Evaluation = BEST_EVAL;
        let mut b: Evaluation = beta;
        let mut i: usize = 0;
        while i < moves.len()
            invariant
                0 <= i <= moves.len(),
                *s == s0,
                *self == me,
                s0 == *old(s),
                me == *old(self),
                min_fold(
                    me.eval,
                    s0,
                    moves@,
                    i as nat,
                    cdepth as nat,
                    to_choose_player,
                    alpha as int,
                    b as int,
                    best as int,
                ) == min_fold(
                    me.eval,
                    s0,
                    moves@,
                    0,
                    cdepth as nat,
                    to_choose_player,
                    alpha as int,
                    beta as int,
                    BEST_EVAL as int,
                ),
            decreases moves.len() - i,
        {
            let m = moves[i];
            let score = self.child_value(s, m, cdepth, to_choose_player, alpha, b);
            if score < best {
                best = score;
            }
            if best <= alpha {
                return best;
            }
            if best < b {
                b = best;
            }
            i = i + 1;
        }
        best
    }
}

impl<E> Strategy<E::G> for ExpectiMinimax<E> where
    E: TurnBasedGameEvaluator,
    E::G: StochasticGame + TurnBasedGame,
    <E::G as Game>::S: Clone,
 {
    /// Searches every move to the depth limit, in a random order, and
    /// returns the first one of the best value.
    fn choose_move(&mut self, s: &<E::G as Game>::S) -> (r: Option<<E::G as Game>::M>)
        ensures
            final(self).depth_limit() == old(self).depth_limit(),
            old(self).depth_limit() == 0 ==> r is None && *final(self) == *old(self),
            old(self).depth_limit() > 0 && <E::G as Game>::generated_winner_of(*s) is Some
                ==> r is None,
            old(self).depth_limit() > 0 && <E::G as Game>::generated_winner_of(*s) is None ==> (
            r is None <==> <E::G as Game>::moves_of(*s).len() == 0),
            r is None ==> final(self).last_value() == old(self).last_value(),
            old(self).depth_limit() > 0 ==> final(self).evaluator() == old(self).evaluator().for_player(
                <E::G as TurnBasedGame>::player_of(*s),
            ),
            r matches Some(m) ==> {
                &&& <E::G as Game>::moves_of(*s).contains(m)
                &&& exists|c: <E::G as Game>::S|
                    cloned(*s, c) && is_best_choice(
                        final(self).evaluator(),
                        c,
                        <E::G as Game>::moves_of(*s),
                        m,
                        (old(self).depth_limit() - 1) as nat,
                        <E::G as TurnBasedGame>::player_of(*s),
                        final(self).last_value() as int,
                    )
            },
    {
        if self.max_depth == 0 {
            return None;
        }
        let mut best: Evaluation = WORST_EVAL;
        let mut moves: Vec<<E::G as Game>::M> = Vec::new();
        let player = <E::G as TurnBasedGame>::current_player(s);
        self.eval.set_evaluated_player(player);
        if <E::G as Game>::generate_moves(s, &mut moves).is_some() {
            return None;
        }
        let ghost generated = moves@;
        assert(generated =~= <E::G as Game>::moves_of(*s));
        // Randomly permute the order in which the moves are searched; the
        // first move of the best value in this order is chosen.
        shuffle(&mut moves, &mut self.rng);
        if moves.len() == 0 {
            assert(generated.to_multiset().len() == 0);
            return None;
        }
        let mut best_move = moves[0];
        let mut s_clone = s.clone();
        let ghost c = s_clone;
        let ghost ev = self.eval;
        let depth = self.max_depth - 1;
        let mut i: usize = 0;
        while i < moves.len()
            invariant
                0 <= i <= moves.len(),
                s_clone == c,
                self.eval == ev,
                self.max_depth == depth + 1,
                best >= WORST_EVAL,
                moves@.contains(best_move),
                forall|k: int|
                    0 <= k < i ==> #[trigger] root_move_value(
                        ev,
                        c,
                        moves@[k],
                        depth as nat,
                        player,
                    ) <= best,
                best > WORST_EVAL ==> root_move_value(ev, c, best_move, depth as nat, player)
                    == best,
            decreases moves.len() - i,
        {
            let m = moves[i];
            let value = self.child_value(&mut s_clone, m, depth, player, WORST_EVAL, BEST_EVAL);
            // Strictly better than any move found so far.
            if value > best {
                best = value;
                best_move = m;
            }
            i = i + 1;
        }
        proof {
            assert forall|k: int| 0 <= k < generated.len() implies #[trigger] root_move_value(
                ev,
                c,
                generated[k],
                depth as nat,
                player,
            ) <= best by {
                assert(generated.contains(generated[k]));
                assert(moves@.to_multiset().count(generated[k]) > 0);
                assert(moves@.contains(generated[k]));
                let j = choose|j: int| 0 <= j < moves@.len() && moves@[j] == generated[k];
                assert(root_move_value(ev, c, moves@[j], depth as nat, player) <= best);
            }
            assert(generated.contains(best_move)) by {
                assert(moves@.to_multiset().count(best_move) > 0);
            }
        }
        self.prev_value = best;
        assert(is_best_choice(ev, c, generated, best_move, depth as nat, player, best as int));
        assert(cloned(*s, c));
        assert(self.evaluator() == ev);
        assert(player == <E::G as TurnBasedGame>::player_of(*s));
        Some(best_move)
    }

    fn set_max_depth(&mut self, depth: u8)
        ensures
            final(self).depth_limit() == depth,
            final(self).last_value() == old(self).last_value(),
            final(self).evaluator() == old(self).evaluator(),
    {
        self.max_depth = depth;
    }

    /// This search has no clock: it searches to the largest depth instead.
    fn set_timeout(&mut self, _timeout: std::time::Duration)
        ensures
            final(self).depth_limit() == u8::MAX,
            final(self).last_value() == old(self).last_value(),
            final(self).evaluator() == old(self).evaluator(),
    {
        self.max_depth = u8::MAX;
    }

    fn set_depth_or_timeout(&mut self, depth: u8, _timeout: std::time::Duration)
        ensures
            final(self).depth_limit() == depth,
            final(self).last_value() == old(self).last_value(),
            final(self).evaluator() == old(self).evaluator(),
    {
        self.max_depth = depth;
    }
}

} // verus!
