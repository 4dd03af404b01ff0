//! The board engine of a Tsuro-style tile-laying game: tiles and their
//! paths, the geometry of the grid, and how stones slide along the paths
//! when a tile is placed.
use vstd::prelude::*;

pub mod board;
pub mod deck;
pub mod geometry;
pub mod layout;
pub mod tile;

pub use board::{make_spawns, Board, PlayerColor, Stone, SPAWN_COUNT};
pub use deck::Deck;
pub use geometry::{get_facing_position, is_affected, Position, TILES_PER_ROW};
pub use tile::{Path, PathIndex, RotationDirection, Tile};

verus! {

/// A game in progress: the deck still to draw from, and the board.
pub struct Tsurust {
    pub deck: Deck,
    pub board: Board,
}

} // verus!
