use expecti_search::strategies::expectiminimax::ExpectiMinimax;
use expecti_search::{
    Evaluation, Evaluator, Game, Probability, StochasticGame, Strategy, TurnBasedGame,
    TurnBasedGameEvaluator, TurnBasedWinner, Winner, PROBABILITY_ONE,
};

#[derive(Debug, Default, Clone)]
struct DumbGame {
    choice: Option<DiceChoice>,
    score: i16,
    to_move: bool,
}
#[derive(Copy, Clone, Debug, PartialEq, Eq)]
enum DiceChoice {
    D4,
    D6,
    D8,
}
#[derive(Copy, Clone, Debug, PartialEq, Eq)]
enum Move {
    DiceChoice(DiceChoice),
    Random(i16),
}
impl Game for DumbGame {
    type S = DumbGame;
    type M = Move;

    fn generate_moves(state: &Self::S, moves: &mut Vec<Self::M>) -> Option<Winner> {
        match state.choice {
            Some(d) => {
                moves.push(Move::Random(1));
                moves.push(Move::Random(2));
                moves.push(Move::Random(3));
                moves.push(Move::Random(4));
                match d {
                    DiceChoice::D4 => {}
                    DiceChoice::D6 => {
                        moves.push(Move::Random(5));
                        moves.push(Move::Random(6));
                    }
                    DiceChoice::D8 => {
                        moves.push(Move::Random(5));
                        moves.push(Move::Random(6));
                        moves.push(Move::Random(7));
                        moves.push(Move::Random(8));
                    }
                }
            }
            None => {
                moves.push(Move::DiceChoice(DiceChoice::D4));
                moves.push(Move::DiceChoice(DiceChoice::D6));
                moves.push(Move::DiceChoice(DiceChoice::D8));
            }
        }
        None
    }

    fn apply(state: &mut Self::S, m: Self::M) -> Option<Self::S> {
        let mut clone = state.clone();
        match m {
            Move::DiceChoice(dice_choice) => clone.choice = Some(dice_choice),
            Move::Random(r) => {
                clone.score += r;
                clone.choice = None;
                clone.to_move = !clone.to_move;
            }
        }
        Some(clone)
    }

    fn undo(_state: &mut Self::S, _m: Self::M) {}

    fn get_winner(_state: &Self::S) -> Option<Winner> {
        None
    }
}
impl TurnBasedGame for DumbGame {
    fn current_player(state: &Self::S) -> i8 {
        if state.to_move {
            -1
        } else {
            1
        }
    }
    fn get_explicit_winner(_state: &Self::S) -> Option<TurnBasedWinner> {
        None
    }
}
impl StochasticGame for DumbGame {
    fn is_random_move(state: &Self::S) -> bool {
        state.choice.is_some()
    }

    fn get_probability(state: &Self::S, _mv: Self::M) -> Probability {
        match state.choice.unwrap() {
            DiceChoice::D4 => PROBABILITY_ONE / 4,
            DiceChoice::D6 => PROBABILITY_ONE / 6,
            DiceChoice::D8 => PROBABILITY_ONE / 8,
        }
    }
}
#[derive(Debug, Default)]
struct Eval(bool);
impl Evaluator for Eval {
    type G = DumbGame;

    fn evaluate(&self, s: &<Self::G as Game>::S) -> Evaluation {
        if self.0 {
            -s.score * 10
        } else {
            s.score * 10
        }
    }
}
impl TurnBasedGameEvaluator for Eval {
    fn set_evaluated_player(&mut self, p: i8) {
        self.0 = p != 1;
    }
}

#[test]
fn test() {
    let mut strat = ExpectiMinimax::new(Eval::default(), 8);
    let mut i = 0;
    let mut s = DumbGame::default();
    while i < 10 {
        let m = strat.choose_move(&s);
        if !s.to_move {
            assert_eq!(m, Some(Move::DiceChoice(DiceChoice::D8)));
        } else {
            assert_eq!(m, Some(Move::DiceChoice(DiceChoice::D4)));
        }
        s = DumbGame::apply(&mut s, m.unwrap()).unwrap();
        let m = strat.choose_move(&s);
        if !s.to_move {
            assert_eq!(m, Some(Move::Random(8)));
        } else {
            assert_eq!(m, Some(Move::Random(1)));
        }

        s = DumbGame::apply(&mut s, m.unwrap()).unwrap();
        i += 1;
    }
}
