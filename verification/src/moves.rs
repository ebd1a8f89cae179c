//! The moves a player can submit.

use vstd::prelude::*;

use crate::board::Coordinate;

verus! {

/// One move: placing a tile from the hand, or swapping two of the mover's
/// own tiles.
#[derive(Clone, Debug, PartialEq, Eq)]
pub enum Move {
    Place { player: usize, tile: char, position: Coordinate },
    Swap { player: usize, positions: [Coordinate; 2] },
}

} // verus!
