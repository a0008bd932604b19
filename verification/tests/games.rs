use expecti_search::strategies::expecti_iterative::{ExpectiIterativeSearch, IterationKind};
use expecti_search::strategies::expectiminimax::{round_chance, ExpectiMinimax};
use expecti_search::strategies::iterative::{IterativeOptions, Replacement};
use expecti_search::{
    Evaluation, Evaluator, Game, Probability, StochasticGame, Strategy, TurnBasedGame,
    TurnBasedGameEvaluator, TurnBasedWinner, Winner, BEST_EVAL, PROBABILITY_ONE, WORST_EVAL,
};

// A race to add: the first player adds 1 or 2 to a shared total and wants it
// high, the second adds 1 or 2 and wants it low. No chance, no end.
#[derive(Debug, Clone, Copy, PartialEq, Eq)]
struct Race {
    total: i16,
    to_move: i8,
}
impl Game for Race {
    type S = Race;
    type M = i16;
    fn generate_moves(_s: &Race, moves: &mut Vec<i16>) -> Option<Winner> {
        moves.push(1);
        moves.push(2);
        None
    }
    fn apply(s: &mut Race, m: i16) -> Option<Race> {
        Some(Race { total: s.total + m, to_move: -s.to_move })
    }
    fn undo(_s: &mut Race, _m: i16) {}
    fn get_winner(_s: &Race) -> Option<Winner> {
        None
    }
    fn zobrist_hash(s: &Race) -> u64 {
        (s.total as u64) * 4 + if s.to_move == 1 { 1 } else { 2 }
    }
    fn null_move(_s: &Race) -> Option<i16> {
        Some(0)
    }
}
impl TurnBasedGame for Race {
    fn current_player(s: &Race) -> i8 {
        s.to_move
    }
    fn get_explicit_winner(_s: &Race) -> Option<TurnBasedWinner> {
        None
    }
}
impl StochasticGame for Race {
    fn is_random_move(_s: &Race) -> bool {
        false
    }
    fn get_probability(_s: &Race, _m: i16) -> Probability {
        0
    }
}
#[derive(Default)]
struct RaceEval(i8);
impl Evaluator for RaceEval {
    type G = Race;
    fn evaluate(&self, s: &Race) -> Evaluation {
        if self.0 == -1 {
            -s.total
        } else {
            s.total
        }
    }
}
impl TurnBasedGameEvaluator for RaceEval {
    fn set_evaluated_player(&mut self, p: i8) {
        self.0 = p;
    }
}

// Nim with one pile: take one to three stones; whoever takes the last wins.
// The moves are applied in place and taken back by `undo`.
#[derive(Debug, Clone, Copy, PartialEq, Eq)]
struct Nim {
    stones: u8,
    to_move: i8,
}
impl Game for Nim {
    type S = Nim;
    type M = u8;
    fn generate_moves(s: &Nim, moves: &mut Vec<u8>) -> Option<Winner> {
        if s.stones == 0 {
            return Some(Winner::PlayerJustMoved);
        }
        for k in 1..=s.stones.min(3) {
            moves.push(k);
        }
        None
    }
    fn apply(s: &mut Nim, m: u8) -> Option<Nim> {
        s.stones -= m;
        s.to_move = -s.to_move;
        None
    }
    fn undo(s: &mut Nim, m: u8) {
        s.stones += m;
        s.to_move = -s.to_move;
    }
    fn get_winner(s: &Nim) -> Option<Winner> {
        if s.stones == 0 {
            Some(Winner::PlayerJustMoved)
        } else {
            None
        }
    }
    fn zobrist_hash(s: &Nim) -> u64 {
        (s.stones as u64) * 2 + if s.to_move == 1 { 1 } else { 0 } + 1000
    }
}
impl TurnBasedGame for Nim {
    fn current_player(s: &Nim) -> i8 {
        s.to_move
    }
    fn get_explicit_winner(s: &Nim) -> Option<TurnBasedWinner> {
        if s.stones == 0 {
            Some(TurnBasedWinner::Player(-s.to_move))
        } else {
            None
        }
    }
}
impl StochasticGame for Nim {
    fn is_random_move(_s: &Nim) -> bool {
        false
    }
    fn get_probability(_s: &Nim, _m: u8) -> Probability {
        0
    }
}
#[derive(Default)]
struct NimEval;
impl Evaluator for NimEval {
    type G = Nim;
    fn evaluate(&self, _s: &Nim) -> Evaluation {
        0
    }
}
impl TurnBasedGameEvaluator for NimEval {
    fn set_evaluated_player(&mut self, _p: i8) {}
}

// A coin: the first player bets on heads or tails, then a coin falls; a
// right bet scores 10, a wrong one -10. The coin falls heads three times
// out of four.
#[derive(Debug, Clone, Copy, PartialEq, Eq)]
enum Coin {
    Bet,
    Falling(bool),
    Done(i16),
}
impl Game for Coin {
    type S = Coin;
    type M = bool;
    fn generate_moves(s: &Coin, moves: &mut Vec<bool>) -> Option<Winner> {
        match s {
            Coin::Bet | Coin::Falling(_) => {
                moves.push(true);
                moves.push(false);
                None
            }
            Coin::Done(_) => None,
        }
    }
    fn apply(s: &mut Coin, m: bool) -> Option<Coin> {
        Some(match *s {
            Coin::Bet => Coin::Falling(m),
            Coin::Falling(bet) => Coin::Done(if bet == m { 10 } else { -10 }),
            Coin::Done(v) => Coin::Done(v),
        })
    }
    fn undo(_s: &mut Coin, _m: bool) {}
    fn get_winner(_s: &Coin) -> Option<Winner> {
        None
    }
}
impl TurnBasedGame for Coin {
    fn current_player(_s: &Coin) -> i8 {
        1
    }
    fn get_explicit_winner(_s: &Coin) -> Option<TurnBasedWinner> {
        None
    }
}
impl StochasticGame for Coin {
    fn is_random_move(s: &Coin) -> bool {
        matches!(s, Coin::Falling(_))
    }
    fn get_probability(_s: &Coin, m: bool) -> Probability {
        if m {
            PROBABILITY_ONE / 4 * 3
        } else {
            PROBABILITY_ONE / 4
        }
    }
}
#[derive(Default)]
struct CoinEval;
impl Evaluator for CoinEval {
    type G = Coin;
    fn evaluate(&self, s: &Coin) -> Evaluation {
        match s {
            Coin::Done(v) => *v,
            _ => 0,
        }
    }
}
impl TurnBasedGameEvaluator for CoinEval {
    fn set_evaluated_player(&mut self, _p: i8) {}
}

#[test]
fn race_search_value_is_minimax() {
    let mut strat = ExpectiMinimax::new(RaceEval(1), 4);
    let mut s = Race { total: 0, to_move: 1 };
    // The first player adds 2, the second 1, twice: 6.
    let v = strat.expectiminimax(&mut s, 4, 1, WORST_EVAL, BEST_EVAL);
    assert_eq!(v, 6);
    assert_eq!(s, Race { total: 0, to_move: 1 });
    // Odd depth: 2 + 1 + 2.
    assert_eq!(strat.expectiminimax(&mut s, 3, 1, WORST_EVAL, BEST_EVAL), 5);
    // Depth zero: the evaluation.
    assert_eq!(strat.expectiminimax(&mut s, 0, 1, WORST_EVAL, BEST_EVAL), 0);
}

#[test]
fn race_pruned_window_brackets_value() {
    let mut strat = ExpectiMinimax::new(RaceEval(1), 4);
    let mut s = Race { total: 0, to_move: 1 };
    // The value 6 lies above the window: the search fails high.
    let high = strat.expectiminimax(&mut s, 4, 1, 0, 3);
    assert!(high >= 3 && high <= 6);
    // Below the window: fails low.
    let low = strat.expectiminimax(&mut s, 4, 1, 8, 20);
    assert!(low <= 8 && low >= 6);
    // Inside the window: exact.
    assert_eq!(strat.expectiminimax(&mut s, 4, 1, 5, 7), 6);
}

#[test]
fn race_choose_move_picks_best() {
    let mut strat = ExpectiMinimax::new(RaceEval::default(), 3);
    let s = Race { total: 0, to_move: 1 };
    assert_eq!(strat.choose_move(&s), Some(2));
    assert_eq!(strat.prev_value, 5);
    let s = Race { total: 0, to_move: -1 };
    assert_eq!(strat.choose_move(&s), Some(1));
}

#[test]
fn zero_depth_chooses_nothing() {
    let mut strat = ExpectiMinimax::new(RaceEval::default(), 0);
    let s = Race { total: 0, to_move: 1 };
    assert_eq!(strat.choose_move(&s), None);
    strat.set_max_depth(2);
    assert_eq!(strat.choose_move(&s), Some(2));
    strat.set_depth_or_timeout(0, std::time::Duration::from_secs(1));
    assert_eq!(strat.choose_move(&s), None);
    strat.set_timeout(std::time::Duration::from_secs(1));
    // The largest depth: still a move.
    strat.set_max_depth(3);
    assert_eq!(strat.choose_move(&s), Some(2));
}

#[test]
fn finished_game_chooses_nothing() {
    let mut strat = ExpectiMinimax::new(NimEval, 3);
    let s = Nim { stones: 0, to_move: 1 };
    assert_eq!(strat.choose_move(&s), None);
}

#[test]
fn coin_chance_node_weights_probabilities() {
    let mut strat = ExpectiMinimax::new(CoinEval, 2);
    // Betting heads: 3/4 * 10 + 1/4 * -10 = 5; tails: -5.
    let mut s = Coin::Falling(true);
    assert_eq!(strat.expectiminimax(&mut s, 1, 1, WORST_EVAL, BEST_EVAL), 5);
    let mut s = Coin::Falling(false);
    assert_eq!(strat.expectiminimax(&mut s, 1, 1, WORST_EVAL, BEST_EVAL), -5);
    let s = Coin::Bet;
    assert_eq!(strat.choose_move(&s), Some(true));
    assert_eq!(strat.prev_value, 5);
}

#[test]
fn round_chance_rounds_half_away_from_zero() {
    let one = PROBABILITY_ONE as i128;
    assert_eq!(round_chance(0), 0);
    assert_eq!(round_chance(one * 7), 7);
    assert_eq!(round_chance(one * 5 / 2), 3);
    assert_eq!(round_chance(-one * 5 / 2), -3);
    assert_eq!(round_chance(one * 5 / 2 - 1), 2);
    assert_eq!(round_chance(-one * 5 / 2 + 1), -2);
    assert_eq!(round_chance(one * 100000), 32767);
    assert_eq!(round_chance(-one * 100000), -32768);
}

#[test]
fn nim_in_place_moves_are_undone() {
    let mut strat = ExpectiMinimax::new(NimEval, 1);
    let mut s = Nim { stones: 3, to_move: 1 };
    // Taking all three wins at once.
    assert_eq!(strat.expectiminimax(&mut s, 1, 1, WORST_EVAL, BEST_EVAL), BEST_EVAL);
    assert_eq!(s, Nim { stones: 3, to_move: 1 });
    assert_eq!(strat.choose_move(&s), Some(3));
}

#[test]
fn iterative_finds_nim_win() {
    let mut strat = ExpectiIterativeSearch::new(NimEval, IterativeOptions::new());
    strat.set_max_depth(6);
    assert_eq!(strat.get_max_depth(), 6);
    let s = Nim { stones: 5, to_move: 1 };
    // Leave a multiple of four.
    assert_eq!(strat.choose_move(&s), Some(1));
    assert_eq!(strat.root_value(), BEST_EVAL);
    // The table keeps values for the player it searched for: a search for
    // the other player starts afresh.
    let mut strat = ExpectiIterativeSearch::new(NimEval, IterativeOptions::new());
    strat.set_max_depth(6);
    let s = Nim { stones: 7, to_move: -1 };
    assert_eq!(strat.choose_move(&s), Some(3));
    assert_eq!(strat.root_value(), BEST_EVAL);
    // The root entry is stored with the best value as the lower end of its
    // window, hence as an upper bound, and the variation only follows exact
    // entries: it is empty here.
    let pv = strat.principal_variation();
    assert!(pv.is_empty());
}

#[test]
fn iterative_losing_position_reads_as_loss() {
    let mut strat = ExpectiIterativeSearch::new(NimEval, IterativeOptions::new());
    strat.set_max_depth(8);
    let s = Nim { stones: 4, to_move: 1 };
    let m = strat.choose_move(&s);
    assert!(matches!(m, Some(1) | Some(2) | Some(3)));
    assert_eq!(strat.root_value(), WORST_EVAL);
}

#[test]
fn iterative_other_options_agree() {
    let options = [
        IterativeOptions::new().with_replacement_strategy(Replacement::Always),
        IterativeOptions::new().with_replacement_strategy(Replacement::DepthPreferred),
        IterativeOptions::new().with_null_window_search(false),
        IterativeOptions::new().with_double_step_increment(),
        IterativeOptions::new().with_aspiration_window(5),
        IterativeOptions::new().with_countermoves().with_countermove_history(),
        IterativeOptions::new().with_singular_extension().with_table_byte_size(1000),
        IterativeOptions::new().with_quiescence_search_depth(2),
    ];
    for opts in options.iter() {
        let mut strat = ExpectiIterativeSearch::new(NimEval, *opts);
        strat.set_max_depth(6);
        let s = Nim { stones: 6, to_move: 1 };
        assert_eq!(strat.choose_move(&s), Some(2));
        assert_eq!(strat.options().step_increment, opts.step_increment);
    }
}

#[test]
fn iterative_race_plays_like_full_search() {
    let mut strat = ExpectiIterativeSearch::new(RaceEval::default(), IterativeOptions::new());
    strat.set_max_depth(4);
    let s = Race { total: 0, to_move: 1 };
    assert_eq!(strat.choose_move(&s), Some(2));
    assert_eq!(strat.root_value(), 6);
    let stats = strat.last_search_stats();
    assert_eq!(stats.actual_depth, 4);
    assert_eq!(stats.nodes_explored.len(), 4);
}

#[test]
fn iterative_zero_depth_chooses_nothing() {
    let mut strat = ExpectiIterativeSearch::new(RaceEval::default(), IterativeOptions::new());
    strat.set_max_depth(0);
    let s = Race { total: 0, to_move: 1 };
    assert_eq!(strat.choose_move(&s), None);
    assert_eq!(strat.last_search_stats().actual_depth, 0);
}

#[test]
fn iterative_stop_signal_stops_search() {
    let mut strat = ExpectiIterativeSearch::new(RaceEval::default(), IterativeOptions::new());
    strat.set_timeout(std::time::Duration::from_secs(30));
    assert_eq!(strat.get_max_depth(), 99);
    let s = Race { total: 0, to_move: 1 };
    let signal = strat.next_search_stop_signal();
    signal.stop();
    // The flag is lowered when the search starts its clock, so the search runs.
    strat.set_max_depth(2);
    assert_eq!(strat.choose_move(&s), Some(2));
}

// Four moves of the same value.
#[derive(Debug, Clone, Copy, PartialEq, Eq)]
struct Flat;
impl Game for Flat {
    type S = Flat;
    type M = u8;
    fn generate_moves(_s: &Flat, moves: &mut Vec<u8>) -> Option<Winner> {
        moves.extend([0, 1, 2, 3]);
        None
    }
    fn apply(_s: &mut Flat, _m: u8) -> Option<Flat> {
        Some(Flat)
    }
    fn undo(_s: &mut Flat, _m: u8) {}
    fn get_winner(_s: &Flat) -> Option<Winner> {
        None
    }
}
impl TurnBasedGame for Flat {
    fn current_player(_s: &Flat) -> i8 {
        1
    }
    fn get_explicit_winner(_s: &Flat) -> Option<TurnBasedWinner> {
        None
    }
}
impl StochasticGame for Flat {
    fn is_random_move(_s: &Flat) -> bool {
        false
    }
    fn get_probability(_s: &Flat, _m: u8) -> Probability {
        0
    }
}
struct FlatEval;
impl Evaluator for FlatEval {
    type G = Flat;
    fn evaluate(&self, _s: &Flat) -> Evaluation {
        0
    }
}
impl TurnBasedGameEvaluator for FlatEval {
    fn set_evaluated_player(&mut self, _p: i8) {}
}

#[test]
fn equal_moves_are_chosen_in_random_order() {
    let mut strat = ExpectiMinimax::new(FlatEval, 1);
    let mut seen = [false; 4];
    for _ in 0..64 {
        let m = strat.choose_move(&Flat).unwrap();
        seen[m as usize] = true;
        assert_eq!(strat.prev_value, 0);
    }
    assert!(seen.iter().filter(|&&b| b).count() > 1);
}

#[test]
fn iterations_step_to_max_depth() {
    let opts = IterativeOptions::new().with_double_step_increment();
    let mut strat = ExpectiIterativeSearch::new(RaceEval::default(), opts);
    // Depths 2, 4, 6.
    strat.set_max_depth(6);
    let s = Race { total: 0, to_move: 1 };
    assert_eq!(strat.choose_move(&s), Some(2));
    let stats = strat.last_search_stats();
    assert_eq!(stats.actual_depth, 6);
    assert_eq!(stats.nodes_explored.len(), 3);
    // Depths 1, 3, 5: the odd maximum is reached from one.
    let mut strat = ExpectiIterativeSearch::new(RaceEval::default(), opts);
    strat.set_max_depth(5);
    assert_eq!(strat.choose_move(&s), Some(2));
    let stats = strat.last_search_stats();
    assert_eq!(stats.actual_depth, 5);
    assert_eq!(stats.nodes_explored.len(), 3);
}

#[test]
fn iterative_null_moves_still_choose_a_move() {
    let opts = IterativeOptions::new().with_null_move_depth(1);
    let mut strat = ExpectiIterativeSearch::new(RaceEval::default(), opts);
    strat.set_max_depth(5);
    let s = Race { total: 0, to_move: 1 };
    let m = strat.choose_move(&s);
    assert!(matches!(m, Some(1) | Some(2)));
    assert_eq!(strat.last_search_stats().actual_depth, 5);
}

// Race with every path its own state: no transpositions.
#[derive(Debug, Clone, Copy, PartialEq, Eq)]
struct Wide {
    code: u64,
    total: i16,
    to_move: i8,
}
impl Game for Wide {
    type S = Wide;
    type M = i16;
    fn generate_moves(_s: &Wide, moves: &mut Vec<i16>) -> Option<Winner> {
        moves.push(1);
        moves.push(2);
        None
    }
    fn apply(s: &mut Wide, m: i16) -> Option<Wide> {
        Some(Wide {
            code: s.code.wrapping_mul(3).wrapping_add(m as u64),
            total: s.total + m,
            to_move: -s.to_move,
        })
    }
    fn undo(_s: &mut Wide, _m: i16) {}
    fn get_winner(_s: &Wide) -> Option<Winner> {
        None
    }
    fn zobrist_hash(s: &Wide) -> u64 {
        s.code
    }
}
impl TurnBasedGame for Wide {
    fn current_player(s: &Wide) -> i8 {
        s.to_move
    }
    fn get_explicit_winner(_s: &Wide) -> Option<TurnBasedWinner> {
        None
    }
}
impl StochasticGame for Wide {
    fn is_random_move(_s: &Wide) -> bool {
        false
    }
    fn get_probability(_s: &Wide, _m: i16) -> Probability {
        0
    }
}
#[derive(Default)]
struct WideEval(i8);
impl Evaluator for WideEval {
    type G = Wide;
    fn evaluate(&self, s: &Wide) -> Evaluation {
        if self.0 == -1 {
            -s.total
        } else {
            s.total
        }
    }
}
impl TurnBasedGameEvaluator for WideEval {
    fn set_evaluated_player(&mut self, p: i8) {
        self.0 = p;
    }
}

#[test]
fn iterative_clock_stops_deep_search() {
    let mut strat = ExpectiIterativeSearch::new(WideEval::default(), IterativeOptions::new());
    // Depth 99 of a tree without transpositions cannot complete in 50 ms.
    strat.set_timeout(std::time::Duration::from_millis(50));
    let s = Wide { code: 1, total: 0, to_move: 1 };
    let start = std::time::Instant::now();
    assert_eq!(strat.choose_move(&s), Some(2));
    assert!(start.elapsed() < std::time::Duration::from_secs(10));
    let stats = strat.last_search_stats();
    assert!(stats.actual_depth >= 1 && stats.actual_depth < 99);
}

#[test]
fn verbose_search_records_each_iteration() {
    let mut strat = ExpectiIterativeSearch::new(NimEval, IterativeOptions::new().verbose());
    strat.set_max_depth(3);
    let s = Nim { stones: 9, to_move: 1 };
    assert!(strat.choose_move(&s).is_some());
    let reports = strat.last_iteration_reports();
    let depths: Vec<u8> = reports.iter().map(|r| r.depth).collect();
    assert_eq!(depths, vec![1, 2, 3]);
    assert!(reports.iter().all(|r| r.kind == IterationKind::Full));
    // Without verbose options nothing is recorded.
    let mut quiet = ExpectiIterativeSearch::new(NimEval, IterativeOptions::new());
    quiet.set_max_depth(3);
    assert!(quiet.choose_move(&s).is_some());
    assert!(quiet.last_iteration_reports().is_empty());
}

#[test]
fn search_with_zero_step_chooses_nothing() {
    let mut opts = IterativeOptions::new();
    opts.step_increment = 0;
    let mut strat = ExpectiIterativeSearch::new(NimEval, opts);
    strat.set_max_depth(3);
    assert_eq!(strat.choose_move(&Nim { stones: 9, to_move: 1 }), None);
}
