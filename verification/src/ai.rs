//! A player that picks one of the legal moves at random.

use vstd::prelude::*;
use rand::Rng;
use rand::rngs::ThreadRng;
use crate::game::GameState;
use crate::moves::Move;

verus! {

/// `rand::rngs::ThreadRng`, the generator of random numbers that `rand`
/// keeps for each thread. Nothing is known of what it holds.
#[verifier::external_type_specification]
#[verifier::external_body]
pub struct ExThreadRng(ThreadRng);

/// `rand::thread_rng` hands out the generator of the calling thread.
/// Nothing is claimed of it.
pub assume_specification[ rand::thread_rng ]() -> (rng: ThreadRng);

/// A random index below `n`.
///
/// Trusted: the body is `Rng::gen_range` of `rand` on the range `0..n`,
/// which panics on an empty range and otherwise samples a value of the
/// range. The contract claims only what holds of every outcome: the result
/// lies below `n`.
#[verifier::external_body]
fn random_below(rng: &mut ThreadRng, n: usize) -> (i: usize)
    requires
        n > 0,
    ensures
        i < n,
{
    rng.gen_range(0..n)
}

/// The move at `index` of a list of moves, or none where the list ends
/// before it.
pub fn move_at(moves: &Vec<Move>, index: usize) -> (choice: Option<Move>)
    ensures
        choice == (if index < moves@.len() {
            Some(moves@[index as int])
        } else {
            None
        }),
{
    if index < moves.len() {
        Some(moves[index])
    } else {
        None
    }
}

/// A move for the side to move, drawn at random from its legal moves, or
/// none where it has no legal move.
pub fn next_move(game: &GameState) -> (choice: Option<Move>)
    requires
        game.wf(),
    ensures
        choice is None <==> forall|m: Move| !game@.legal(m),
        choice matches Some(m) ==> game@.legal(m),
{
    let mut rng = rand::thread_rng();
    let legal_moves = game.get_legal_moves();
    if legal_moves.is_empty() {
        None
    } else {
        let index = random_below(&mut rng, legal_moves.len());
        proof {
            assert(legal_moves@.contains(legal_moves@[index as int]));
        }
        move_at(&legal_moves, index)
    }
}

} // verus!
