//! A strategy that plays at random: it draws one of the columns that have
//! room.

use rand::rngs::ThreadRng;
use rand::Rng;
use vstd::prelude::*;

use super::{count_open_columns, lemma_open_columns, nth_open_column, Strategy};
use crate::board::Board;
use crate::COLS;

verus! {

/// The random number generator of the `rand` crate that belongs to the
/// current thread. Nothing is known of its state.
#[verifier::external_type_specification]
#[verifier::external_body]
pub struct ExThreadRng(ThreadRng);

/// Calls `rand::thread_rng`, which hands out the generator of the current
/// thread. Nothing is claimed of the generator.
#[verifier::external_body]
fn thread_generator() -> (generator: ThreadRng) {
    rand::thread_rng()
}

/// Calls `Rng::gen_range` with the bounds 0 and `bound`. The `rand` crate
/// documents that the value drawn lies in the half-open range from the low
/// bound to the high bound, and that the call panics unless the low bound is
/// below the high bound. Which value is drawn depends on the generator.
#[verifier::external_body]
fn draw_below(rng: &mut ThreadRng, bound: u8) -> (drawn: u8)
    requires
        0 < bound,
    ensures
        drawn < bound,
{
    rng.gen_range(0, bound)
}

/// Plays a column chosen at random among the columns with room.
pub struct RandomStrategy {
    rng: ThreadRng,
}

impl RandomStrategy {
    /// A strategy that draws from the random number generator of the current
    /// thread.
    pub fn new() -> RandomStrategy {
        RandomStrategy { rng: thread_generator() }
    }
}

impl Strategy for RandomStrategy {
    fn make_move(&mut self, board: &Board) -> (chosen: (u8, u8)) {
        let open = count_open_columns(board);
        proof {
            lemma_open_columns(board@, COLS as int);
        }
        let drawn = draw_below(&mut self.rng, open);
        match nth_open_column(board, drawn) {
            Some(chosen) => chosen,
            None => unreached(),
        }
    }
}

} // verus!
