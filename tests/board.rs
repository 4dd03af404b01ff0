use tsurust::{get_facing_position, make_spawns, Board, Path, PlayerColor, Position, Stone, Tile, SPAWN_COUNT};

fn pos(row: usize, col: usize, path_index: u8) -> Position {
    Position { row, col, path_index }
}

fn tile(pairs: [(u8, u8); 4]) -> Tile {
    Tile::PathTile {
        paths: [
            Path { a: pairs[0].0, b: pairs[0].1 },
            Path { a: pairs[1].0, b: pairs[1].1 },
            Path { a: pairs[2].0, b: pairs[2].1 },
            Path { a: pairs[3].0, b: pairs[3].1 },
        ],
    }
}

fn stone(color: PlayerColor, position: Position) -> Stone {
    Stone { color, position }
}

fn first_tile() -> Tile {
    tile([(5, 0), (1, 2), (3, 4), (6, 7)])
}

fn second_tile() -> Tile {
    tile([(5, 6), (0, 1), (2, 3), (4, 7)])
}

#[test]
fn stone_helpers() {
    let s = stone(PlayerColor::RED, pos(2, 3, 4));
    assert!(s.is_at_coords(2, 3));
    assert!(!s.is_at_coords(3, 2));
    assert_eq!(s.with_position(pos(0, 0, 1)), stone(PlayerColor::RED, pos(0, 0, 1)));
}

#[test]
fn spawns_face_off_the_board() {
    let spawns = make_spawns();
    assert_eq!(spawns.len(), SPAWN_COUNT);
    assert_eq!(SPAWN_COUNT, 48);
    for p in spawns.iter() {
        assert!(p.row < 6 && p.col < 6 && p.path_index < 8);
        assert_eq!(get_facing_position(*p), None);
    }
    for i in 0..spawns.len() {
        for j in 0..i {
            assert_ne!(spawns[i], spawns[j]);
        }
    }
    assert_eq!(spawns[0], pos(0, 0, 4));
    assert_eq!(spawns[1], pos(0, 0, 5));
    assert_eq!(spawns[2], pos(5, 0, 0));
    assert_eq!(spawns[3], pos(5, 0, 1));
    assert_eq!(spawns[24], pos(0, 0, 6));
    assert_eq!(spawns[27], pos(0, 5, 3));
    assert_eq!(spawns[47], pos(5, 5, 3));
}

#[test]
fn default_board_is_empty() {
    let board = Board::default();
    assert!(board.grid.iter().all(|row| row.iter().all(|c| c.is_none())));
    assert!(board.stones.is_empty());
    assert_eq!(board.spawns.len(), SPAWN_COUNT);
}

#[test]
fn with_players_keeps_the_stones() {
    let stones = vec![stone(PlayerColor::ORANGE, pos(0, 0, 7)), stone(PlayerColor::GREEN, pos(0, 0, 4))];
    let board = Board::with_players(stones.clone());
    assert_eq!(board.stones, stones);
    assert!(board.grid.iter().all(|row| row.iter().all(|c| c.is_none())));
}

#[test]
fn stone_crosses_the_tile_placed_under_it() {
    let mut board = Board::with_players(vec![stone(PlayerColor::RED, pos(0, 0, 5))]);
    board.place_tile(0, 0, first_tile());
    assert_eq!(board.grid[0][0], Some(first_tile()));
    assert_eq!(board.stones[0], stone(PlayerColor::RED, pos(0, 0, 0)));
}

#[test]
fn route_across_two_tiles_ends_at_the_border() {
    let start = stone(PlayerColor::BLUE, pos(0, 0, 5));
    let mut board = Board::with_players(vec![start]);
    board.place_tile(1, 0, second_tile());
    assert_eq!(board.stones[0], start);
    board.place_tile(0, 0, first_tile());
    assert_eq!(board.stones[0], stone(PlayerColor::BLUE, pos(1, 0, 6)));
    let route = board.calculate_path(start, true);
    assert_eq!(route, vec![pos(0, 0, 5), pos(0, 0, 0), pos(1, 0, 6)]);
}

#[test]
fn stone_facing_the_new_tile_slides_across_it() {
    let mut board = Board::with_players(vec![stone(PlayerColor::WHITE, pos(0, 0, 5))]);
    board.place_tile(0, 0, first_tile());
    assert_eq!(board.stones[0].position, pos(0, 0, 0));
    board.place_tile(1, 0, second_tile());
    assert_eq!(board.stones[0].position, pos(1, 0, 6));
    let route = board.calculate_path(stone(PlayerColor::WHITE, pos(0, 0, 0)), false);
    assert_eq!(route, vec![pos(1, 0, 6)]);
}

#[test]
fn placement_away_from_every_stone_moves_none() {
    let stones = vec![
        stone(PlayerColor::RED, pos(0, 0, 5)),
        stone(PlayerColor::GREEN, pos(5, 5, 1)),
        stone(PlayerColor::BLACK, pos(3, 0, 6)),
    ];
    let mut board = Board::with_players(stones.clone());
    board.place_tile(2, 2, first_tile());
    assert_eq!(board.stones, stones);
    board.place_tile(4, 4, Tile::DragonTile);
    assert_eq!(board.stones, stones);
}

#[test]
fn stone_facing_an_empty_cell_stays_when_another_cell_is_filled() {
    let mut board = Board::with_players(vec![stone(PlayerColor::GRAY, pos(0, 0, 5))]);
    board.place_tile(0, 0, first_tile());
    let rested = board.stones[0];
    assert_eq!(rested.position, pos(0, 0, 0));
    board.place_tile(0, 1, second_tile());
    board.place_tile(2, 0, first_tile());
    assert_eq!(board.stones[0], rested);
}

#[test]
fn dragon_tile_stops_the_slide() {
    let mut board = Board::with_players(vec![stone(PlayerColor::YELLOW, pos(0, 0, 5))]);
    board.place_tile(1, 0, Tile::DragonTile);
    board.place_tile(0, 0, first_tile());
    assert_eq!(board.stones[0].position, pos(0, 0, 0));
}

#[test]
fn dragon_tile_faced_by_a_stone_does_not_move_it() {
    let mut board = Board::with_players(vec![stone(PlayerColor::YELLOW, pos(0, 0, 5))]);
    board.place_tile(0, 0, first_tile());
    board.place_tile(1, 0, Tile::DragonTile);
    assert_eq!(board.stones[0].position, pos(0, 0, 0));
}

#[test]
fn each_affected_stone_moves_on_its_own() {
    let stones = vec![
        stone(PlayerColor::RED, pos(0, 0, 5)),
        stone(PlayerColor::GREEN, pos(0, 0, 4)),
        stone(PlayerColor::BLUE, pos(0, 1, 7)),
    ];
    let mut board = Board::with_players(stones);
    board.place_tile(0, 0, first_tile());
    assert_eq!(board.stones[0].position, pos(0, 0, 0));
    assert_eq!(board.stones[1].position, pos(0, 0, 3));
    assert_eq!(board.stones[2].position, pos(0, 0, 1));
}

#[test]
fn a_long_route_through_a_row_of_tiles() {
    let straight = tile([(7, 2), (6, 3), (0, 5), (1, 4)]);
    let mut board = Board::with_players(vec![stone(PlayerColor::ORANGE, pos(3, 0, 7))]);
    for col in 1..6 {
        board.place_tile(3, col, straight);
    }
    assert_eq!(board.stones[0].position, pos(3, 0, 7));
    board.place_tile(3, 0, straight);
    assert_eq!(board.stones[0].position, pos(3, 5, 2));
    let route = board.calculate_path(stone(PlayerColor::ORANGE, pos(3, 0, 7)), true);
    assert_eq!(route.len(), 7);
    assert_eq!(route[1], pos(3, 0, 2));
    assert_eq!(route[6], pos(3, 5, 2));
}
