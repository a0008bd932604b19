//! Names of moves and of lines of play, for reports.
use vstd::prelude::*;

use crate::interface::Game;

verus! {

/// `names` written one after the other, separated by `"; "`.
pub open spec fn joined(names: Seq<Seq<char>>) -> Seq<char>
    decreases names.len(),
{
    if names.len() == 0 {
        Seq::empty()
    } else if names.len() == 1 {
        names[0]
    } else {
        joined(names.drop_last()) + "; "@ + names.last()
    }
}

/// The name of a move, as the game writes it: `"none"` for no move, and
/// `"no notation impl"` where the game has no name for it.
pub fn move_id<G: Game>(s: &G::S, m: Option<G::M>) -> (r: String)
    ensures
        m is None ==> r@ == "none"@,
{
    match m {
        Some(mov) => match G::notation(s, mov) {
            Some(name) => name,
            None => "no notation impl".to_owned(),
        },
        None => "none".to_owned(),
    }
}

/// The names of the moves of `path`, played one after the other from
/// `state`, separated by `"; "`.
pub fn pv_string<G: Game>(path: &[G::M], state: &G::S) -> (r: String) where G::S: Clone
    ensures
        exists|names: Seq<Seq<char>>| names.len() == path@.len() && r@ == joined(names),
{
    let mut state = state.clone();
    let mut out = String::new();
    let ghost mut names: Seq<Seq<char>> = Seq::empty();
    let mut i: usize = 0;
    while i < path.len()
        invariant
            0 <= i <= path@.len(),
            names.len() == i,
            out@ == joined(names),
        decreases path@.len() - i,
    {
        let m = path[i];
        let name = move_id::<G>(&state, Some(m));
        if i > 0 {
            out.append("; ");
        }
        out.append(name.as_str());
        proof {
            let next = names.push(name@);
            assert(next.drop_last() =~= names);
            if i == 0 {
                assert(out@ =~= name@);
            }
            names = next;
        }
        match G::apply(&mut state, m) {
            Some(new_state) => {
                state = new_state;
            },
            None => {},
        }
        i = i + 1;
    }
    out
}

} // verus!
