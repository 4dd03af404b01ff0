//! Where things are drawn on screen, in pixels: the board's cells and the
//! connectors on them.
use vstd::prelude::*;

use crate::geometry::{col_step, row_step, Position, TILES_PER_ROW};
use crate::tile::PathIndex;

verus! {

pub const SCALE: u32 = 2;

pub const SCREEN_WIDTH: u32 = 600 * SCALE;

pub const SCREEN_HEIGHT: u32 = 500 * SCALE;

/// Length of a tile's side.
pub const TILE_SIDE_LENGTH: u32 = SCREEN_HEIGHT / 8;

/// A third of a tile's side: the connectors split each edge in three.
pub const THIRD: u32 = TILE_SIDE_LENGTH / 3;

/// Space between the window's edge and the board.
pub const BOARD_BORDER: u32 = TILE_SIDE_LENGTH / 2;

/// A path is drawn as two short segments at the tile's edge joined by a
/// middle one; this is the length of the edge segments.
pub const PATH_EDGE_SEGMENT_LENGTH: u32 = TILE_SIDE_LENGTH / 6;

/// Where connector `i` lies on a tile, from the tile's top left corner.
pub open spec fn connector_offset(i: int) -> (u32, u32) {
    if i == 0 {
        (THIRD, TILE_SIDE_LENGTH)
    } else if i == 1 {
        ((2 * THIRD) as u32, TILE_SIDE_LENGTH)
    } else if i == 2 {
        (TILE_SIDE_LENGTH, (2 * THIRD) as u32)
    } else if i == 3 {
        (TILE_SIDE_LENGTH, THIRD)
    } else if i == 4 {
        ((2 * THIRD) as u32, 0)
    } else if i == 5 {
        (THIRD, 0)
    } else if i == 6 {
        (0, THIRD)
    } else {
        (0, (2 * THIRD) as u32)
    }
}

/// The top left corner of cell `(row, col)` on screen.
pub open spec fn cell_corner(col: int, row: int) -> (int, int) {
    (col * TILE_SIDE_LENGTH + BOARD_BORDER, row * TILE_SIDE_LENGTH + BOARD_BORDER)
}

pub fn path_index_position(i: PathIndex) -> (r: (u32, u32))
    requires
        i < 8,
    ensures
        r == connector_offset(i as int),
{
    match i {
        0 => (THIRD, TILE_SIDE_LENGTH),
        1 => (2 * THIRD, TILE_SIDE_LENGTH),
        2 => (TILE_SIDE_LENGTH, 2 * THIRD),
        3 => (TILE_SIDE_LENGTH, THIRD),
        4 => (2 * THIRD, 0),
        5 => (THIRD, 0),
        6 => (0, THIRD),
        _ => (0, 2 * THIRD),
    }
}

/// The segment drawn at the edge end of a path: from connector `index`
/// straight into the tile, `PATH_EDGE_SEGMENT_LENGTH` long.
pub fn path_edge_segment(index: PathIndex) -> (r: ((u32, u32), (u32, u32)))
    requires
        index < 8,
    ensures
        r.0 == connector_offset(index as int),
        r.1.0 == r.0.0 - col_step(index as int) * PATH_EDGE_SEGMENT_LENGTH,
        r.1.1 == r.0.1 - row_step(index as int) * PATH_EDGE_SEGMENT_LENGTH,
{
    let start = path_index_position(index);
    let end = match index {
        0 | 1 => (start.0, TILE_SIDE_LENGTH - PATH_EDGE_SEGMENT_LENGTH),
        2 | 3 => (TILE_SIDE_LENGTH - PATH_EDGE_SEGMENT_LENGTH, start.1),
        4 | 5 => (start.0, PATH_EDGE_SEGMENT_LENGTH),
        _ => (PATH_EDGE_SEGMENT_LENGTH, start.1),
    };
    (start, end)
}

/// The top left corner on screen of the cell in column `x` and row `y`.
pub fn coords_to_pixels(x: usize, y: usize) -> (r: (u32, u32))
    requires
        x < TILES_PER_ROW,
        y < TILES_PER_ROW,
    ensures
        (r.0 as int, r.1 as int) == cell_corner(x as int, y as int),
{
    (x as u32 * TILE_SIDE_LENGTH + BOARD_BORDER, y as u32 * TILE_SIDE_LENGTH + BOARD_BORDER)
}

/// Where a position is drawn on screen.
pub fn to_pixels(pos: Position) -> (r: (u32, u32))
    requires
        pos.valid(),
    ensures
        r.0 == cell_corner(pos.col as int, pos.row as int).0 + connector_offset(
            pos.path_index as int,
        ).0,
        r.1 == cell_corner(pos.col as int, pos.row as int).1 + connector_offset(
            pos.path_index as int,
        ).1,
{
    let (x, y) = coords_to_pixels(pos.col, pos.row);
    let (offset_x, offset_y) = path_index_position(pos.path_index);
    (x + offset_x, y + offset_y)
}

} // verus!
