//! The deck of tiles: reading tiles from their text form, shuffling them and
//! drawing them.
use vstd::prelude::*;

use itertools::Itertools;
use rand::seq::SliceRandom;

use crate::tile::{into_path_array, is_perfect_matching, paths_form_matching, Path, Tile};

verus! {

/// Message for a tile line with a character that is neither a digit nor a
/// space.
pub const NOT_NUMERIC: &'static str = "Tile data must be numeric";

/// Message for a tile line whose digits do not make four paths.
pub const NOT_FOUR_PATHS: &'static str = "Tile data must hold four paths";

/// Message for a tile line whose paths do not pair each connector with
/// exactly one other.
pub const NOT_A_MATCHING: &'static str = "Tile paths must pair every connector once";

/// The digits of a tile line, spaces left out; `None` where it holds any
/// other character.
pub open spec fn line_digits(s: Seq<char>) -> Option<Seq<u8>>
    decreases s.len(),
{
    if s.len() == 0 {
        Some(seq![])
    } else {
        match line_digits(s.drop_last()) {
            None => None,
            Some(d) => {
                let c = s.last();
                if c == ' ' {
                    Some(d)
                } else if '0' <= c && c <= '9' {
                    Some(d.push((c as u32 - '0' as u32) as u8))
                } else {
                    None
                }
            },
        }
    }
}

/// Consecutive digits taken two by two as paths; an odd last digit is left
/// out.
pub open spec fn paths_of_digits(d: Seq<u8>) -> Seq<Path> {
    Seq::new(d.len() / 2, |k: int| Path { a: d[2 * k], b: d[2 * k + 1] })
}

/// What a tile line describes: a path tile with the paths that its digits
/// make, or the message saying why it describes none.
pub open spec fn parsed_tile(s: Seq<char>) -> Result<Seq<Path>, Seq<char>> {
    match line_digits(s) {
        None => Err(NOT_NUMERIC@),
        Some(d) => {
            let paths = paths_of_digits(d);
            if paths.len() != 4 {
                Err(NOT_FOUR_PATHS@)
            } else if !is_perfect_matching(paths) {
                Err(NOT_A_MATCHING@)
            } else {
                Ok(paths)
            }
        },
    }
}

/// The path tile with the four given paths.
pub open spec fn path_tile(paths: Seq<Path>) -> Tile {
    Tile::PathTile { paths: [paths[0], paths[1], paths[2], paths[3]] }
}

/// The tiles that `lines` describe, one for each line, where each line
/// describes one.
pub open spec fn tiles_of_lines(lines: Seq<String>) -> Seq<Tile> {
    Seq::new(lines.len(), |k: int| path_tile(parsed_tile(lines[k]@)->Ok_0))
}

/// Relies on itertools' `Itertools::tuples`: it yields consecutive pairs in
/// order and drops an odd last element.
#[verifier::external_body]
fn pair_up(digits: Vec<u8>) -> (r: Vec<(u8, u8)>)
    ensures
        r@.len() == digits@.len() / 2,
        forall|k: int|
            0 <= k < r@.len() ==> #[trigger] r@[k] == (digits@[2 * k], digits@[2 * k + 1]),
{
    digits.into_iter().tuples().collect()
}

/// Relies on rand's `SliceRandom::shuffle` with `thread_rng`: it only swaps
/// elements, so the tiles come back in some order, each as often as before.
#[verifier::external_body]
fn shuffle_tiles(tiles: &mut Vec<Tile>)
    ensures
        final(tiles)@.len() == old(tiles)@.len(),
        final(tiles)@.to_multiset() == old(tiles)@.to_multiset(),
{
    tiles.shuffle(&mut rand::thread_rng())
}

#[derive(Debug)]
pub struct Deck {
    tiles: Vec<Tile>,
}

impl View for Deck {
    type V = Seq<Tile>;

    /// The tiles from the bottom of the deck to the top.
    closed spec fn view(&self) -> Seq<Tile> {
        self.tiles@
    }
}

impl Deck {
    /// Draws the top tile.
    pub fn pop_tile(&mut self) -> (r: Option<Tile>)
        ensures
            old(self)@.len() == 0 ==> r is None && final(self)@ == old(self)@,
            old(self)@.len() > 0 ==> r == Some(old(self)@.last()) && final(self)@ == old(
                self,
            )@.drop_last(),
    {
        self.tiles.pop()
    }

    /// A deck of the given tiles, top last, with the dragon tile under them
    /// all.
    pub fn with_tiles(tiles: Vec<Tile>) -> (r: Deck)
        ensures
            r@ == seq![Tile::DragonTile] + tiles@,
    {
        let mut tiles = tiles;
        tiles.insert(0, Tile::DragonTile);
        Deck { tiles }
    }

    /// Reads a tile from its line of text: four pairs of digits, each pair
    /// the two ends of a path, with spaces anywhere.
    pub fn parse_tile(tile_text: &str) -> (r: Result<Tile, String>)
        ensures
            r is Ok <==> parsed_tile(tile_text@) is Ok,
            r matches Ok(t) ==> t == path_tile(parsed_tile(tile_text@)->Ok_0),
            r matches Err(e) ==> parsed_tile(tile_text@) == Err::<Seq<Path>, Seq<char>>(e@),
    {
        let mut digits: Vec<u8> = Vec::new();
        let mut numeric = true;
        for c in it: tile_text.chars()
            invariant
                it.seq() == tile_text@,
                numeric <==> line_digits(tile_text@.take(it.index())) is Some,
                numeric ==> line_digits(tile_text@.take(it.index())) == Some(digits@),
        {
            proof {
                assert(tile_text@.take(it.index() + 1).drop_last() =~= tile_text@.take(it.index()));
            }
            if c == ' ' {
            } else if '0' <= c && c <= '9' {
                digits.push((c as u32 - '0' as u32) as u8);
            } else {
                numeric = false;
            }
        }
        proof {
            assert(tile_text@.take(tile_text@.len() as int) =~= tile_text@);
        }
        if !numeric {
            return Err(NOT_NUMERIC.to_owned());
        }
        let ghost all_digits = digits@;
        let pairs = pair_up(digits);
        if pairs.len() != 4 {
            return Err(NOT_FOUR_PATHS.to_owned());
        }
        let mut path_list: Vec<Path> = Vec::new();
        for k in 0..4
            invariant
                pairs@.len() == 4,
                all_digits.len() / 2 == 4,
                forall|j: int|
                    0 <= j < 4 ==> #[trigger] pairs@[j] == (all_digits[2 * j], all_digits[2 * j + 1]),
                path_list@ =~= paths_of_digits(all_digits).take(k as int),
        {
            let (a, b) = pairs[k];
            path_list.push(Path { a, b });
        }
        assert(path_list@ =~= paths_of_digits(all_digits));
        let paths = into_path_array(path_list);
        if !paths_form_matching(&paths) {
            return Err(NOT_A_MATCHING.to_owned());
        }
        assert(paths =~= path_tile(paths@)->paths);
        Ok(Tile::PathTile { paths })
    }

    /// A deck of the tiles that `lines` describe, shuffled, with the dragon
    /// tile at the bottom; or the message for the first line that describes
    /// no tile.
    pub fn from_tile_lines(lines: &Vec<String>) -> (r: Result<Deck, String>)
        ensures
            r is Ok <==> forall|k: int| 0 <= k < lines@.len() ==> #[trigger] parsed_tile(lines@[k]@) is Ok,
            r matches Ok(d) ==> d@.len() == lines@.len() + 1 && d@[0] == Tile::DragonTile
                && d@.drop_first().to_multiset() == tiles_of_lines(lines@).to_multiset(),
            r matches Err(e) ==> exists|k: int|
                0 <= k < lines@.len() && (forall|j: int| 0 <= j < k ==> #[trigger] parsed_tile(lines@[j]@) is Ok)
                    && parsed_tile(lines@[k]@) == Err::<Seq<Path>, Seq<char>>(e@),
    {
        let mut tiles: Vec<Tile> = Vec::new();
        for k in 0..lines.len()
            invariant
                tiles@ =~= tiles_of_lines(lines@).take(k as int),
                forall|j: int| 0 <= j < k ==> #[trigger] parsed_tile(lines@[j]@) is Ok,
        {
            match Deck::parse_tile(lines[k].as_str()) {
                Ok(tile) => tiles.push(tile),
                Err(e) => return Err(e),
            }
        }
        assert(tiles@ =~= tiles_of_lines(lines@));
        shuffle_tiles(&mut tiles);
        let deck = Deck::with_tiles(tiles);
        assert(deck@.drop_first() =~= tiles@);
        Ok(deck)
    }
}

} // verus!
