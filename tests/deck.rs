use tsurust::deck::{NOT_A_MATCHING, NOT_FOUR_PATHS, NOT_NUMERIC};
use tsurust::{Deck, Path, Tile};

fn tile(pairs: [(u8, u8); 4]) -> Tile {
    Tile::PathTile {
        paths: [
            Path { a: pairs[0].0, b: pairs[0].1 },
            Path { a: pairs[1].0, b: pairs[1].1 },
            Path { a: pairs[2].0, b: pairs[2].1 },
            Path { a: pairs[3].0, b: pairs[3].1 },
        ],
    }
}

#[test]
fn parse_tile_reads_pairs_of_digits() {
    assert_eq!(Deck::parse_tile("05 12 34 67"), Ok(tile([(0, 5), (1, 2), (3, 4), (6, 7)])));
    assert_eq!(Deck::parse_tile("07162534"), Ok(tile([(0, 7), (1, 6), (2, 5), (3, 4)])));
    assert_eq!(Deck::parse_tile(" 3 0 2 1  47 65 "), Ok(tile([(3, 0), (2, 1), (4, 7), (6, 5)])));
}

#[test]
fn parse_tile_rejects_other_characters() {
    assert_eq!(Deck::parse_tile("05 12 34 6x"), Err(NOT_NUMERIC.to_string()));
    assert_eq!(Deck::parse_tile("05,12,34,67"), Err(NOT_NUMERIC.to_string()));
    assert_eq!(Deck::parse_tile("05 12 34 6\u{0667}"), Err(NOT_NUMERIC.to_string()));
}

#[test]
fn parse_tile_needs_four_paths() {
    assert_eq!(Deck::parse_tile(""), Err(NOT_FOUR_PATHS.to_string()));
    assert_eq!(Deck::parse_tile("05 12 34"), Err(NOT_FOUR_PATHS.to_string()));
    assert_eq!(Deck::parse_tile("05 12 34 6"), Err(NOT_FOUR_PATHS.to_string()));
    assert_eq!(Deck::parse_tile("05 12 34 67 01"), Err(NOT_FOUR_PATHS.to_string()));
}

#[test]
fn parse_tile_drops_an_odd_last_digit() {
    assert_eq!(Deck::parse_tile("05 12 34 67 1"), Ok(tile([(0, 5), (1, 2), (3, 4), (6, 7)])));
}

#[test]
fn parse_tile_needs_a_perfect_matching() {
    assert_eq!(Deck::parse_tile("05 15 34 67"), Err(NOT_A_MATCHING.to_string()));
    assert_eq!(Deck::parse_tile("00 12 34 67"), Err(NOT_A_MATCHING.to_string()));
    assert_eq!(Deck::parse_tile("05 12 34 68"), Err(NOT_A_MATCHING.to_string()));
}

#[test]
fn pop_tile_takes_from_the_top() {
    let a = tile([(0, 5), (1, 2), (3, 4), (6, 7)]);
    let b = tile([(0, 7), (1, 6), (2, 5), (3, 4)]);
    let mut deck = Deck::with_tiles(vec![a, b]);
    assert_eq!(deck.pop_tile(), Some(b));
    assert_eq!(deck.pop_tile(), Some(a));
    assert_eq!(deck.pop_tile(), Some(Tile::DragonTile));
    assert_eq!(deck.pop_tile(), None);
    assert_eq!(deck.pop_tile(), None);
}

#[test]
fn deck_from_lines_puts_the_dragon_last() {
    let lines = vec!["05 12 34 67".to_string(), "07 16 25 34".to_string(), "01 23 45 67".to_string()];
    let mut deck = Deck::from_tile_lines(&lines).unwrap();
    let mut drawn = Vec::new();
    while let Some(t) = deck.pop_tile() {
        drawn.push(t);
    }
    assert_eq!(drawn.len(), 4);
    assert_eq!(drawn[3], Tile::DragonTile);
    let expected = [
        tile([(0, 5), (1, 2), (3, 4), (6, 7)]),
        tile([(0, 7), (1, 6), (2, 5), (3, 4)]),
        tile([(0, 1), (2, 3), (4, 5), (6, 7)]),
    ];
    for t in expected.iter() {
        assert_eq!(drawn[..3].iter().filter(|d| *d == t).count(), 1);
    }
}

#[test]
fn deck_from_lines_reports_the_first_bad_line() {
    let lines = vec!["05 12 34 67".to_string(), "05 12".to_string(), "ab".to_string()];
    assert_eq!(Deck::from_tile_lines(&lines).unwrap_err(), NOT_FOUR_PATHS.to_string());
    let lines = vec!["zz".to_string(), "05 12".to_string()];
    assert_eq!(Deck::from_tile_lines(&lines).unwrap_err(), NOT_NUMERIC.to_string());
}

#[test]
fn deck_from_no_lines_holds_the_dragon() {
    let mut deck = Deck::from_tile_lines(&Vec::new()).unwrap();
    assert_eq!(deck.pop_tile(), Some(Tile::DragonTile));
    assert_eq!(deck.pop_tile(), None);
}
