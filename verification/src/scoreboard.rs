//! The score of the game in progress.

use vstd::prelude::*;

verus! {

/// The number of gaps passed since the game last started.
#[derive(Clone, Copy, Debug, PartialEq, Eq, Structural)]
pub struct Scoreboard {
    pub score: i128,
}

} // verus!
