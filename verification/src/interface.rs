//! The traits that describe a game, an evaluator and a search strategy.
//!
//! A game is described by static functions over its state type `S` and its
//! move type `M`. Each executable function is tied by its contract to a spec
//! function of the same trait, so that the searches can be stated over the
//! game tree that the implementation describes. A verified implementation
//! defines these spec functions and proves its executable functions against
//! them; the searches are verified for every choice of them. Each has a
//! default, which an implementation written in plain Rust (compiled without
//! spec functions) keeps: `unknown`, a function of its arguments of which
//! nothing is known, a different one for each implementing type and each
//! spec function. Such an implementation's executable functions are trusted
//! to compute these functions, that is, to be functions of their arguments;
//! no two of them are claimed to agree, and nothing else is known of them.
//!
//! The optional methods that have a default body (`zobrist_hash`,
//! `null_move`, `notation`, `table_index`, `max_table_index`,
//! `generate_noisy_moves`) state only what their default returns: a default
//! body cannot be proved against a spec function that an implementation may
//! define otherwise.
//!
//! Probabilities are fixed-point numbers in units of `PROBABILITY_ONE`.
use vstd::pervasive::arbitrary;
use vstd::prelude::*;

verus! {

/// The score of a position, from the point of view of the evaluated player.
pub type Evaluation = i16;

/// The score of a position won by the evaluated player.
pub const BEST_EVAL: Evaluation = 32767;

/// The score of a position lost by the evaluated player.
pub const WORST_EVAL: Evaluation = -32767;

/// A probability in fixed point: `PROBABILITY_ONE` stands for certainty.
pub type Probability = u32;

/// The fixed-point unit of `Probability`.
pub const PROBABILITY_ONE: Probability = 1000000;

/// The outcome of a finished game, relative to the player to move.
#[derive(Clone, Copy, Debug, PartialEq, Eq, Structural)]
pub enum Winner {
    /// The player who made the last move won.
    PlayerJustMoved,
    /// Nobody won.
    Draw,
    /// The player who is about to move won.
    PlayerToMove,
}

/// The outcome of a finished turn based game, by player number.
#[derive(Clone, Copy, Debug, PartialEq, Eq, Structural)]
pub enum TurnBasedWinner {
    /// The player with this number won.
    Player(i8),
    /// Nobody won.
    Draw,
}

/// The spec functions of the traits below that have a default, one tag
/// each: the tag keeps the defaults of two of them apart.
pub enum DefaultOf {
    /// `Game::moves_of`.
    Moves,
    /// `Game::generated_winner_of`.
    GeneratedWinner,
    /// `Game::next_state`.
    NextState,
    /// `Game::undone_state`.
    UndoneState,
    /// `Game::winner_of`.
    Winner,
    /// `TurnBasedGame::player_of`.
    Player,
    /// `TurnBasedGame::explicit_winner_of`.
    ExplicitWinner,
    /// `StochasticGame::is_random_of`.
    IsRandom,
    /// `StochasticGame::probability_of`.
    Probability,
    /// `Evaluator::evaluation_of`.
    Evaluation,
    /// `TurnBasedGameEvaluator::for_player`.
    ForPlayer,
}

/// The default of the spec function tagged `tag` of the implementation `T`,
/// applied to `a`: a function of `a` of which nothing is known, a different
/// one for each implementing type and each tag.
pub open spec fn unknown<T, A, R>(tag: DefaultOf, a: A) -> R {
    arbitrary::<spec_fn(Seq<T>, DefaultOf, A) -> R>()(Seq::empty(), tag, a)
}

/// A game: its states, its moves, and how moves change states.
pub trait Game: Sized {
    /// The state of the game.
    type S;
    /// A move of the game.
    type M: Copy;

    /// The moves that `generate_moves` appends for `state`, in order.
    open spec fn moves_of(state: Self::S) -> Seq<Self::M> {
        unknown::<Self, Self::S, Seq<Self::M>>(DefaultOf::Moves, state)
    }

    /// What `generate_moves` returns for `state`.
    open spec fn generated_winner_of(state: Self::S) -> Option<Winner> {
        unknown::<Self, Self::S, Option<Winner>>(DefaultOf::GeneratedWinner, state)
    }

    /// The state reached by playing `m` in `state`.
    open spec fn next_state(state: Self::S, m: Self::M) -> Self::S {
        unknown::<Self, (Self::S, Self::M), Self::S>(DefaultOf::NextState, (state, m))
    }

    /// The state that `undo` of `m` leaves behind when called on `state`.
    open spec fn undone_state(state: Self::S, m: Self::M) -> Self::S {
        unknown::<Self, (Self::S, Self::M), Self::S>(DefaultOf::UndoneState, (state, m))
    }

    /// What `get_winner` returns for `state`.
    open spec fn winner_of(state: Self::S) -> Option<Winner> {
        unknown::<Self, Self::S, Option<Winner>>(DefaultOf::Winner, state)
    }

    /// Appends the moves of `state` to `moves`, or reports that the game is over.
    fn generate_moves(state: &Self::S, moves: &mut Vec<Self::M>) -> (r: Option<Winner>)
        ensures
            final(moves)@ == old(moves)@ + Self::moves_of(*state),
            r == Self::generated_winner_of(*state),
    ;

    /// Plays `m`: either returns the new state and leaves `state` as it was,
    /// or changes `state` in place so that `undo` restores it.
    fn apply(state: &mut Self::S, m: Self::M) -> (r: Option<Self::S>)
        ensures
            r matches Some(next) ==> (next == Self::next_state(*old(state), m)
                && *final(state) == *old(state)),
            r is None ==> (*final(state) == Self::next_state(*old(state), m)
                && Self::undone_state(*final(state), m) == *old(state)),
    ;

    /// Takes back a move that `apply` made in place.
    fn undo(state: &mut Self::S, m: Self::M)
        ensures
            *final(state) == Self::undone_state(*old(state), m),
    ;

    /// The winner of `state`, if the game is over.
    fn get_winner(state: &Self::S) -> (r: Option<Winner>)
        ensures
            r == Self::winner_of(*state),
    ;

    /// A hash of the state, used as the key of transposition tables.
    fn zobrist_hash(_state: &Self::S) -> (r: u64)
        default_ensures
            r == 0,
    {
        0
    }

    /// A move that passes the turn, where the game has one.
    fn null_move(_state: &Self::S) -> (r: Option<Self::M>)
        default_ensures
            r is None,
    {
        None
    }

    /// A human readable name of a move.
    fn notation(_state: &Self::S, _move: Self::M) -> (r: Option<String>)
        default_ensures
            r is None,
    {
        None
    }

    /// A small number that identifies a move, for move ordering tables.
    fn table_index(_m: Self::M) -> (r: u16)
        default_ensures
            r == 0,
    {
        0
    }

    /// The largest number that `table_index` returns.
    fn max_table_index() -> (r: u16)
        default_ensures
            r == 0,
    {
        0
    }
}

/// A game where players take turns, identified by an `i8`.
pub trait TurnBasedGame: Game {
    /// What `current_player` returns for `state`.
    open spec fn player_of(state: Self::S) -> i8 {
        unknown::<Self, Self::S, i8>(DefaultOf::Player, state)
    }

    /// What `get_explicit_winner` returns for `state`.
    open spec fn explicit_winner_of(state: Self::S) -> Option<TurnBasedWinner> {
        unknown::<Self, Self::S, Option<TurnBasedWinner>>(DefaultOf::ExplicitWinner, state)
    }

    /// The player to move in `state`.
    fn current_player(state: &Self::S) -> (r: i8)
        ensures
            r == Self::player_of(*state),
    ;

    /// The winning player of `state`, if the game is over.
    fn get_explicit_winner(state: &Self::S) -> (r: Option<TurnBasedWinner>)
        ensures
            r == Self::explicit_winner_of(*state),
    ;
}

/// A game with chance nodes: in some states the next move is drawn at random.
pub trait StochasticGame: Game {
    /// What `is_random_move` returns for `state`.
    open spec fn is_random_of(state: Self::S) -> bool {
        unknown::<Self, Self::S, bool>(DefaultOf::IsRandom, state)
    }

    /// What `get_probability` returns for `state` and `m`.
    open spec fn probability_of(state: Self::S, m: Self::M) -> Probability {
        unknown::<Self, (Self::S, Self::M), Probability>(DefaultOf::Probability, (state, m))
    }

    /// Whether the next move of `state` is drawn at random.
    fn is_random_move(state: &Self::S) -> (r: bool)
        ensures
            r == Self::is_random_of(*state),
    ;

    /// The probability that `m` is drawn in `state`, in units of `PROBABILITY_ONE`.
    fn get_probability(state: &Self::S, m: Self::M) -> (r: Probability)
        ensures
            r == Self::probability_of(*state, m),
    ;
}

/// Scores the positions of a game.
pub trait Evaluator: Sized {
    /// The game that is scored.
    type G: Game;

    /// What `evaluate` returns for `s`.
    open spec fn evaluation_of(&self, s: <Self::G as Game>::S) -> Evaluation {
        unknown::<Self, (Self, <Self::G as Game>::S), Evaluation>(DefaultOf::Evaluation, (*self, s))
    }

    /// The score of `s` for the evaluated player.
    fn evaluate(&self, s: &<Self::G as Game>::S) -> (r: Evaluation)
        ensures
            r == self.evaluation_of(*s),
    ;

    /// Appends the moves worth searching beyond the depth limit.
    fn generate_noisy_moves(
        &self,
        _state: &<Self::G as Game>::S,
        _moves: &mut Vec<<Self::G as Game>::M>,
    ) {
    }
}

/// An evaluator of a turn based game, told whose point of view it scores.
pub trait TurnBasedGameEvaluator: Evaluator {
    /// The evaluator that `set_evaluated_player(p)` leaves behind: `self`
    /// scoring from the point of view of player `p`.
    open spec fn for_player(self, p: i8) -> Self {
        unknown::<Self, (Self, i8), Self>(DefaultOf::ForPlayer, (self, p))
    }

    /// Sets the player from whose point of view positions are scored.
    fn set_evaluated_player(&mut self, p: i8)
        ensures
            *final(self) == old(self).for_player(p),
    ;
}

/// A way to choose moves in a game.
pub trait Strategy<G: Game> {
    /// Chooses a move in `state`, or none where there is none to choose.
    fn choose_move(&mut self, state: &G::S) -> Option<G::M>;

    /// Searches for at most `timeout` from now on.
    fn set_timeout(&mut self, timeout: std::time::Duration);

    /// Searches to at most `depth`.
    fn set_max_depth(&mut self, depth: u8);

    /// Searches to `depth` or for `timeout`, whichever comes first.
    fn set_depth_or_timeout(&mut self, depth: u8, timeout: std::time::Duration);

    /// The moves that the last search expects to be played.
    fn principal_variation(&self) -> (r: Vec<G::M>)
        default_ensures
            r@ == Seq::<G::M>::empty(),
    {
        Vec::new()
    }
}

} // verus!
