//! The board: a grid of placed tiles, the spawn points along its border and
//! the players' stones, which slide along the paths as tiles are placed.
use vstd::prelude::*;

use arrayvec::ArrayVec;

use crate::geometry::{
    affected_by, facing, get_facing_position, is_affected, Position, TILES_PER_ROW,
};
use crate::tile::{lemma_other_end_in_range, Tile};

verus! {

/// Number of spawn points: two connectors on each border edge of each cell
/// along each of the four sides.
pub const SPAWN_COUNT: usize = TILES_PER_ROW * 2 * 4;

/// A slide stops after crossing this many tiles, as many as the board holds
/// paths (four per cell), so that a route that runs round a closed loop of
/// paths still ends.
pub const MAX_CROSSINGS: usize = TILES_PER_ROW * TILES_PER_ROW * 4;

/// The grid of cells, by row and then column.
pub type Grid = [[Option<Tile>; TILES_PER_ROW]; TILES_PER_ROW];

#[verifier::external_type_specification]
#[verifier::external_body]
#[verifier::reject_recursive_types(T)]
pub struct ExArrayVec<T, const CAP: usize>(ArrayVec<T, CAP>);

/// The positions held by a spawn list, in order.
pub uninterp spec fn spawn_list(v: ArrayVec<Position, SPAWN_COUNT>) -> Seq<Position>;

/// Relies on arrayvec's `ArrayVec::new`: a new vector is empty.
#[verifier::external_body]
fn new_spawn_list() -> (r: ArrayVec<Position, SPAWN_COUNT>)
    ensures
        spawn_list(r) == Seq::<Position>::empty(),
{
    ArrayVec::new()
}

/// Relies on arrayvec's `ArrayVec::push`: appends the element, and panics
/// only where the vector is full.
#[verifier::external_body]
fn push_spawn(v: &mut ArrayVec<Position, SPAWN_COUNT>, p: Position)
    requires
        spawn_list(*old(v)).len() < SPAWN_COUNT,
    ensures
        spawn_list(*final(v)) == spawn_list(*old(v)).push(p),
{
    v.push(p)
}

#[derive(Debug, PartialEq, Eq, Hash, Copy, Clone)]
pub enum PlayerColor {
    WHITE,
    RED,
    YELLOW,
    BLUE,
    GRAY,
    ORANGE,
    GREEN,
    BLACK,
}

/// A player's piece and where it stands.
#[derive(Debug, Copy, Clone, PartialEq, Eq)]
pub struct Stone {
    pub color: PlayerColor,
    pub position: Position,
}

impl Stone {
    pub fn with_position(&self, position: Position) -> (r: Stone)
        ensures
            r == (Stone { color: self.color, position }),
    {
        Stone { color: self.color, position }
    }

    pub fn is_at_coords(&self, row: usize, col: usize) -> (r: bool)
        ensures
            r == self.position.on_cell(row as int, col as int),
    {
        self.position.row == row && self.position.col == col
    }
}

/// The tile on cell `(row, col)`, if any.
pub open spec fn cell(grid: Grid, row: int, col: int) -> Option<Tile> {
    grid@[row]@[col]
}

/// The spawn point at index `k` of the list: first, for each column `x`,
/// the two top connectors of `(0, x)` and the two bottom ones of
/// `(N - 1, x)`; then, for each row `y`, the two left connectors of `(y, 0)`
/// and the two right ones of `(y, N - 1)`.
pub open spec fn spawn_at(k: int) -> Position {
    let max = (TILES_PER_ROW - 1) as usize;
    let j = k % 4;
    if k < 4 * TILES_PER_ROW {
        let x = (k / 4) as usize;
        if j == 0 {
            Position { row: 0, col: x, path_index: 4 }
        } else if j == 1 {
            Position { row: 0, col: x, path_index: 5 }
        } else if j == 2 {
            Position { row: max, col: x, path_index: 0 }
        } else {
            Position { row: max, col: x, path_index: 1 }
        }
    } else {
        let y = ((k - 4 * TILES_PER_ROW) / 4) as usize;
        if j == 0 {
            Position { row: y, col: 0, path_index: 6 }
        } else if j == 1 {
            Position { row: y, col: 0, path_index: 7 }
        } else if j == 2 {
            Position { row: y, col: max, path_index: 2 }
        } else {
            Position { row: y, col: max, path_index: 3 }
        }
    }
}

/// All spawn points, in the order `make_spawns` lists them.
pub open spec fn spawn_positions() -> Seq<Position> {
    Seq::new(SPAWN_COUNT as nat, |k: int| spawn_at(k))
}

/// The positions a stone passes when it slides on from `p`, crossing at
/// most `fuel` tiles: across each edge it faces, as long as the cell there
/// holds a path tile, to the end of the path that it enters by.
pub open spec fn slide(grid: Grid, p: Position, fuel: nat) -> Seq<Position>
    decreases fuel,
{
    if fuel == 0 {
        seq![]
    } else {
        match facing(p) {
            Some(q) => match cell(grid, q.row as int, q.col as int) {
                Some(t) => if t is PathTile {
                    let next = Position {
                        row: q.row,
                        col: q.col,
                        path_index: t.other_end(q.path_index as int) as u8,
                    };
                    seq![next] + slide(grid, next, (fuel - 1) as nat)
                } else {
                    seq![]
                },
                None => seq![],
            },
            None => seq![],
        }
    }
}

/// The route of a stone at `start` after a placement. A stone standing on
/// the cell that received the tile first crosses that tile; the route then
/// starts with where it stood.
pub open spec fn stone_route(grid: Grid, start: Position, on_new_tile: bool) -> Seq<Position> {
    if on_new_tile {
        let t = cell(grid, start.row as int, start.col as int)->0;
        let crossed = Position {
            row: start.row,
            col: start.col,
            path_index: t.other_end(start.path_index as int) as u8,
        };
        seq![start, crossed] + slide(grid, crossed, MAX_CROSSINGS as nat)
    } else {
        slide(grid, start, MAX_CROSSINGS as nat)
    }
}

/// Where a stone ends up: the last position of its route, or where it
/// stood for an empty route.
pub open spec fn resting_place(grid: Grid, start: Position, on_new_tile: bool) -> Position {
    let r = stone_route(grid, start, on_new_tile);
    if r.len() > 0 {
        r.last()
    } else {
        start
    }
}

/// The stone `s` once a tile has been placed on `(row, col)` of `grid`.
pub open spec fn moved_stone(grid: Grid, s: Stone, row: int, col: int) -> Stone {
    if affected_by(s.position, row, col) {
        Stone {
            color: s.color,
            position: resting_place(grid, s.position, s.position.on_cell(row, col)),
        }
    } else {
        s
    }
}

/// Every tile on the grid is well formed.
pub open spec fn grid_wf(grid: Grid) -> bool {
    forall|r: int, c: int|
        0 <= r < TILES_PER_ROW && 0 <= c < TILES_PER_ROW ==> (#[trigger] cell(grid, r, c) matches Some(
            t,
        ) ==> t.wf())
}

/// Every stone stands on a valid position, and no two share a color.
pub open spec fn stones_wf(stones: Seq<Stone>) -> bool {
    &&& forall|k: int| 0 <= k < stones.len() ==> (#[trigger] stones[k]).position.valid()
    &&& forall|k1: int, k2: int|
        0 <= k1 < stones.len() && 0 <= k2 < stones.len() && k1 != k2 ==> (#[trigger] stones[k1]).color
            != (#[trigger] stones[k2]).color
}

/// A grid with no tile on it.
pub open spec fn empty_grid(grid: Grid) -> bool {
    forall|r: int, c: int|
        0 <= r < TILES_PER_ROW && 0 <= c < TILES_PER_ROW ==> #[trigger] cell(grid, r, c) is None
}

pub struct Board {
    pub grid: Grid,
    pub spawns: ArrayVec<Position, SPAWN_COUNT>,
    pub stones: Vec<Stone>,
}

impl Board {
    pub open spec fn wf(self) -> bool {
        &&& grid_wf(self.grid)
        &&& stones_wf(self.stones@)
    }

    /// A board with no tile placed, the spawn points, and the given stones.
    pub fn with_players(players: Vec<Stone>) -> (r: Board)
        requires
            stones_wf(players@),
        ensures
            r.wf(),
            empty_grid(r.grid),
            spawn_list(r.spawns) == spawn_positions(),
            r.stones@ == players@,
    {
        Board { grid: empty_cells(), spawns: make_spawns(), stones: players }
    }

    /// Puts `tile` on `(row, col)`, replacing what lay there, and moves each
    /// stone that stands on that cell or faces it to the end of its route.
    pub fn place_tile(&mut self, row: usize, col: usize, tile: Tile)
        requires
            old(self).wf(),
            row < TILES_PER_ROW,
            col < TILES_PER_ROW,
            tile.wf(),
            tile is DragonTile ==> forall|k: int|
                0 <= k < old(self).stones@.len() ==> !(#[trigger] old(self).stones@[k]).position.on_cell(
                    row as int,
                    col as int,
                ),
        ensures
            final(self).wf(),
            forall|r: int, c: int|
                0 <= r < TILES_PER_ROW && 0 <= c < TILES_PER_ROW ==> #[trigger] cell(final(self).grid, r, c)
                    == if r == row && c == col {
                    Some(tile)
                } else {
                    cell(old(self).grid, r, c)
                },
            final(self).spawns == old(self).spawns,
            final(self).stones@.len() == old(self).stones@.len(),
            forall|k: int|
                0 <= k < old(self).stones@.len() ==> #[trigger] final(self).stones@[k] == moved_stone(
                    final(self).grid,
                    old(self).stones@[k],
                    row as int,
                    col as int,
                ),
    {
        self.grid[row][col] = Some(tile);
        assert(grid_wf(self.grid)) by {
            assert forall|r: int, c: int|
                0 <= r < TILES_PER_ROW && 0 <= c < TILES_PER_ROW implies (#[trigger] cell(
                self.grid,
                r,
                c,
            ) matches Some(t) ==> t.wf()) by {
                if r != row || c != col {
                    assert(cell(self.grid, r, c) == cell(old(self).grid, r, c));
                }
            }
        }
        let n = self.stones.len();
        for k in 0..n
            invariant
                n == old(self).stones@.len(),
                self.stones@.len() == n,
                grid_wf(self.grid),
                self.grid@[row as int]@[col as int] == Some(tile),
                forall|r: int, c: int|
                    0 <= r < TILES_PER_ROW && 0 <= c < TILES_PER_ROW && (r != row || c != col)
                        ==> #[trigger] cell(self.grid, r, c) == cell(old(self).grid, r, c),
                self.spawns == old(self).spawns,
                stones_wf(old(self).stones@),
                row < TILES_PER_ROW,
                col < TILES_PER_ROW,
                tile.wf(),
                tile is DragonTile ==> forall|j: int|
                    0 <= j < n ==> !(#[trigger] old(self).stones@[j]).position.on_cell(
                        row as int,
                        col as int,
                    ),
                forall|j: int|
                    0 <= j < k ==> #[trigger] self.stones@[j] == moved_stone(
                        self.grid,
                        old(self).stones@[j],
                        row as int,
                        col as int,
                    ),
                forall|j: int| k <= j < n ==> #[trigger] self.stones@[j] == old(self).stones@[j],
                forall|j: int| 0 <= j < n ==> (#[trigger] self.stones@[j]).position.valid(),
                forall|j: int| 0 <= j < n ==> (#[trigger] self.stones@[j]).color == old(self).stones@[j].color,
        {
            let stone = self.stones[k];
            assert(stone.position.valid());
            if is_affected(stone.position, row, col) {
                let at_coords = stone.is_at_coords(row, col);
                let route = self.calculate_path(stone, at_coords);
                let position = if route.len() > 0 {
                    route[route.len() - 1]
                } else {
                    stone.position
                };
                self.stones.set(k, stone.with_position(position));
            }
        }
        assert(stones_wf(self.stones@)) by {
            assert forall|k1: int, k2: int|
                0 <= k1 < n && 0 <= k2 < n && k1 != k2 implies (#[trigger] self.stones@[k1]).color
                != (#[trigger] self.stones@[k2]).color by {
                assert(old(self).stones@[k1].color != old(self).stones@[k2].color);
            }
        }
        assert forall|r: int, c: int|
            0 <= r < TILES_PER_ROW && 0 <= c < TILES_PER_ROW implies #[trigger] cell(self.grid, r, c)
                == if r == row && c == col {
                Some(tile)
            } else {
                cell(old(self).grid, r, c)
            } by {}
    }

    /// The route of `stone` after a placement: see `stone_route`. The stone must
    /// stand on a path tile where `is_at_initial_pos` holds.
    pub fn calculate_path(&self, stone: Stone, is_at_initial_pos: bool) -> (r: Vec<Position>)
        requires
            grid_wf(self.grid),
            stone.position.valid(),
            is_at_initial_pos ==> (cell(
                self.grid,
                stone.position.row as int,
                stone.position.col as int,
            ) matches Some(t) && t is PathTile),
        ensures
            r@ == stone_route(self.grid, stone.position, is_at_initial_pos),
            forall|k: int| 0 <= k < r@.len() ==> (#[trigger] r@[k]).valid(),
    {
        let mut route: Vec<Position> = Vec::new();
        let mut current = stone.position;
        if is_at_initial_pos {
            let initial_pos = stone.position;
            let curr_tile = self.grid[initial_pos.row][initial_pos.col];
            if let Some(t) = curr_tile {
                proof {
                    lemma_other_end_in_range(t, initial_pos.path_index as int);
                }
                let advanced_position = initial_pos.with_path_index(
                    t.get_other_end(initial_pos.path_index),
                );
                route.push(initial_pos);
                route.push(advanced_position);
                current = advanced_position;
            }
        }
        let ghost prefix = route@;
        let mut fuel: usize = MAX_CROSSINGS;
        proof {
            assert(route@ + slide(self.grid, current, fuel as nat) =~= stone_route(
                self.grid,
                stone.position,
                is_at_initial_pos,
            ));
        }
        while fuel > 0
            invariant
                grid_wf(self.grid),
                current.valid(),
                fuel <= MAX_CROSSINGS,
                route@ + slide(self.grid, current, fuel as nat) == stone_route(
                    self.grid,
                    stone.position,
                    is_at_initial_pos,
                ),
                forall|k: int| 0 <= k < route@.len() ==> (#[trigger] route@[k]).valid(),
            decreases fuel,
        {
            match get_facing_position(current) {
                Some(next) => {
                    let next_tile = self.grid[next.row][next.col];
                    match next_tile {
                        Some(t) => {
                            if let Tile::PathTile { .. } = t {
                                assert(cell(self.grid, next.row as int, next.col as int) == Some(t));
                                proof {
                                    lemma_other_end_in_range(t, next.path_index as int);
                                }
                                let next_pos = Position {
                                    row: next.row,
                                    col: next.col,
                                    path_index: t.get_other_end(next.path_index),
                                };
                                assert(route@.push(next_pos) + slide(
                                    self.grid,
                                    next_pos,
                                    (fuel - 1) as nat,
                                ) =~= route@ + slide(self.grid, current, fuel as nat));
                                route.push(next_pos);
                                current = next_pos;
                                fuel = fuel - 1;
                            } else {
                                assert(route@ =~= route@ + slide(self.grid, current, fuel as nat));
                                return route;
                            }
                        },
                        None => {
                            assert(route@ =~= route@ + slide(self.grid, current, fuel as nat));
                            return route;
                        },
                    }
                },
                None => {
                    assert(route@ =~= route@ + slide(self.grid, current, fuel as nat));
                    return route;
                },
            }
        }
        assert(route@ =~= route@ + slide(self.grid, current, fuel as nat));
        route
    }
}

impl Default for Board {
    fn default() -> (r: Board)
        ensures
            r.wf(),
            empty_grid(r.grid),
            spawn_list(r.spawns) == spawn_positions(),
            r.stones@.len() == 0,
    {
        Board {
            grid: empty_cells(),
            spawns: make_spawns(),
            stones: Vec::new(),
        }
    }
}

/// Each spawn point is a connector of a border cell that faces off the
/// board.
pub proof fn lemma_spawns_face_outward(k: int)
    requires
        0 <= k < SPAWN_COUNT,
    ensures
        spawn_positions()[k].valid(),
        facing(spawn_positions()[k]) is None,
{
}

/// A stone that faces a cell with no tile keeps its position when a tile is
/// placed on any cell other than its own and the one it faces.
pub proof fn lemma_unrelated_placement_keeps_stone(grid: Grid, s: Stone, row: int, col: int)
    requires
        s.position.valid(),
        facing(s.position) matches Some(q) ==> cell(grid, q.row as int, q.col as int) is None,
        !s.position.on_cell(row, col),
        facing(s.position) matches Some(q) ==> !q.on_cell(row, col),
    ensures
        moved_stone(grid, s, row, col).position == s.position,
{
}

/// A grid with no tile on it.
fn empty_cells() -> (g: Grid)
    ensures
        empty_grid(g),
        grid_wf(g),
{
    let row: [Option<Tile>; TILES_PER_ROW] = [None, None, None, None, None, None];
    let g: Grid = [row, row, row, row, row, row];
    assert(forall|r: int| 0 <= r < TILES_PER_ROW ==> g@[r] == row);
    g
}

/// The spawn points of the board: see `spawn_at`.
pub fn make_spawns() -> (r: ArrayVec<Position, SPAWN_COUNT>)
    ensures
        spawn_list(r) == spawn_positions(),
{
    let mut result = new_spawn_list();
    let max = TILES_PER_ROW - 1;
    for x in 0..TILES_PER_ROW
        invariant
            max == TILES_PER_ROW - 1,
            spawn_list(result) == spawn_positions().take(4 * x),
    {
        push_spawn(&mut result, Position { row: 0, col: x, path_index: 4 });
        push_spawn(&mut result, Position { row: 0, col: x, path_index: 5 });
        push_spawn(&mut result, Position { row: max, col: x, path_index: 0 });
        push_spawn(&mut result, Position { row: max, col: x, path_index: 1 });
        assert(spawn_list(result) =~= spawn_positions().take(4 * x + 4));
    }
    for y in 0..TILES_PER_ROW
        invariant
            max == TILES_PER_ROW - 1,
            spawn_list(result) == spawn_positions().take(4 * TILES_PER_ROW + 4 * y),
    {
        push_spawn(&mut result, Position { row: y, col: 0, path_index: 6 });
        push_spawn(&mut result, Position { row: y, col: 0, path_index: 7 });
        push_spawn(&mut result, Position { row: y, col: max, path_index: 2 });
        push_spawn(&mut result, Position { row: y, col: max, path_index: 3 });
        assert(spawn_list(result) =~= spawn_positions().take(4 * TILES_PER_ROW + 4 * y + 4));
    }
    assert(spawn_list(result) =~= spawn_positions());
    result
}

} // verus!
