//! Positions on the grid and how a connector faces the neighbouring cell.
use vstd::prelude::*;

use crate::tile::PathIndex;

verus! {

/// Side length of the square board, in cells.
pub const TILES_PER_ROW: usize = 6;

/// A connector of one cell of the grid.
#[derive(Debug, Copy, Clone, PartialEq, Eq)]
pub struct Position {
    pub row: usize,
    pub col: usize,
    pub path_index: PathIndex,
}

impl Position {
    /// The cell lies on the board and the connector is one of the eight.
    pub open spec fn valid(self) -> bool {
        self.row < TILES_PER_ROW && self.col < TILES_PER_ROW && self.path_index < 8
    }

    /// The position lies on cell `(row, col)`.
    pub open spec fn on_cell(self, row: int, col: int) -> bool {
        self.row == row && self.col == col
    }

    pub fn with_path_index(&self, path_index: PathIndex) -> (r: Position)
        ensures
            r == (Position { row: self.row, col: self.col, path_index }),
    {
        Position { row: self.row, col: self.col, path_index }
    }
}

/// Rows moved when leaving a cell through connector `i`: the bottom edge
/// leads down a row, the top edge up one.
pub open spec fn row_step(i: int) -> int {
    if i == 0 || i == 1 {
        1
    } else if i == 4 || i == 5 {
        -1
    } else {
        0
    }
}

/// Columns moved when leaving a cell through connector `i`: the right edge
/// leads one column on, the left edge one back.
pub open spec fn col_step(i: int) -> int {
    if i == 2 || i == 3 {
        1
    } else if i == 6 || i == 7 {
        -1
    } else {
        0
    }
}

/// The connector of the neighbouring cell that faces connector `i` across
/// the shared edge.
pub open spec fn mirror(i: int) -> int {
    if i == 0 {
        5
    } else if i == 1 {
        4
    } else if i == 2 {
        7
    } else if i == 3 {
        6
    } else if i == 4 {
        1
    } else if i == 5 {
        0
    } else if i == 6 {
        3
    } else {
        2
    }
}

/// The position across the edge from `p`, or `None` where that edge is the
/// board's border.
pub open spec fn facing(p: Position) -> Option<Position> {
    let row = p.row + row_step(p.path_index as int);
    let col = p.col + col_step(p.path_index as int);
    if 0 <= row < TILES_PER_ROW && 0 <= col < TILES_PER_ROW {
        Some(Position { row: row as usize, col: col as usize, path_index: mirror(p.path_index as int) as u8 })
    } else {
        None
    }
}

/// A stone at `p` moves when a tile is placed on `(row, col)`: it stands on
/// that cell, or faces it.
pub open spec fn affected_by(p: Position, row: int, col: int) -> bool {
    ||| p.on_cell(row, col)
    ||| (facing(p) matches Some(q) && q.on_cell(row, col))
}

pub fn get_facing_position(current: Position) -> (r: Option<Position>)
    requires
        current.path_index < 8,
    ensures
        r == facing(current),
{
    let i = current.path_index;
    let row = current.row;
    let col = current.col;
    let facing_index: PathIndex = match i {
        0 => 5,
        1 => 4,
        2 => 7,
        3 => 6,
        4 => 1,
        5 => 0,
        6 => 3,
        _ => 2,
    };
    if i <= 1 {
        if row < TILES_PER_ROW - 1 && col < TILES_PER_ROW {
            Some(Position { row: row + 1, col, path_index: facing_index })
        } else {
            None
        }
    } else if i <= 3 {
        if row < TILES_PER_ROW && col < TILES_PER_ROW - 1 {
            Some(Position { row, col: col + 1, path_index: facing_index })
        } else {
            None
        }
    } else if i <= 5 {
        if 1 <= row && row <= TILES_PER_ROW && col < TILES_PER_ROW {
            Some(Position { row: row - 1, col, path_index: facing_index })
        } else {
            None
        }
    } else {
        if row < TILES_PER_ROW && 1 <= col && col <= TILES_PER_ROW {
            Some(Position { row, col: col - 1, path_index: facing_index })
        } else {
            None
        }
    }
}

/// Whether a stone at `stone_position` is moved by placing a tile on
/// `(row, col)`.
pub fn is_affected(stone_position: Position, row: usize, col: usize) -> (r: bool)
    requires
        stone_position.path_index < 8,
    ensures
        r == affected_by(stone_position, row as int, col as int),
{
    if stone_position.row == row && stone_position.col == col {
        return true;
    }
    match get_facing_position(stone_position) {
        Some(facing_pos) => facing_pos.col == col && facing_pos.row == row,
        None => false,
    }
}

/// Crossing an edge and crossing it back returns to where one started.
pub proof fn lemma_facing_is_involution(p: Position)
    requires
        p.valid(),
        facing(p) is Some,
    ensures
        facing(facing(p)->0) == Some(p),
{
}

} // verus!
