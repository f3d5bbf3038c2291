//! The baseline move chooser: a legal move drawn at random.

use vstd::prelude::*;
use rand::seq::SliceRandom;
use super::super::PlayerColor;
use super::{Board, LegalMove, LegalMoveView};
use super::move_generation::move_views;

verus! {

/// The generator of random numbers that each thread keeps for itself.
#[verifier::external_type_specification]
#[verifier::external_body]
pub struct ExThreadRng(rand::rngs::ThreadRng);

/// `rand::thread_rng` hands out the calling thread's generator. Nothing
/// is claimed of it.
pub assume_specification[ rand::thread_rng ]() -> (rng: rand::rngs::ThreadRng)
;

/// Draws one of `moves` with `SliceRandom::choose`: it returns `None` for
/// an empty slice and otherwise one element of the slice. Which element
/// is left open.
#[verifier::external_body]
fn choose_move(moves: &Vec<LegalMove>, rng: &mut rand::rngs::ThreadRng) -> (choice: Option<
    LegalMove,
>)
    ensures
        choice is Some <==> moves@.len() > 0,
        choice is Some ==> moves@.contains(choice->Some_0),
{
    moves.choose(rng).copied()
}

impl Board {
    /// A legal move of `player`, drawn at random among all of them. The
    /// player must have a legal move.
    pub fn find_best_move(&self, player: PlayerColor) -> (mv: LegalMove)
        requires
            self.wf(),
            exists|some: LegalMoveView| self@.is_legal(some, player),
        ensures
            self@.is_legal(mv@, player),
    {
        let moves = self.legal_moves(player);
        let mut rng = rand::thread_rng();
        let choice = choose_move(&moves, &mut rng);
        proof {
            let some = choose|some: LegalMoveView| self@.is_legal(some, player);
            assert(move_views(moves@).contains(some));
        }
        match choice {
            Some(mv) => {
                proof {
                    let i = choose|i: int| 0 <= i < moves@.len() && moves@[i] == mv;
                    assert(move_views(moves@)[i] == mv@);
                    assert(move_views(moves@).contains(mv@));
                }
                mv
            },
            None => vstd::pervasive::unreached(),
        }
    }
}

} // verus!
