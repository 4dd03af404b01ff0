//! Tiles, the paths drawn on them, and their rotation.
//!
//! A tile has eight connectors, two on each edge; with no rotation they are
//! laid out as follows:
//!
//! ```text
//! # 5 ## 4 #
//! 6        3
//! #        #
//! 7        2
//! # 0 ## 1 #
//! ```
use vstd::prelude::*;

verus! {

/// One of the eight connectors around a tile's edges.
pub type PathIndex = u8;

/// A path drawn on a tile between connectors `a` and `b`; it can be walked
/// either way.
#[derive(Debug, Copy, Clone, PartialEq, Eq)]
pub struct Path {
    pub a: PathIndex,
    pub b: PathIndex,
}

impl Path {
    /// The path has an end at connector `i`.
    pub open spec fn touches(self, i: int) -> bool {
        self.a == i || self.b == i
    }

    /// The end of the path that is not `i` (the end `b` where both ends are `i`).
    pub open spec fn partner(self, i: int) -> int {
        if self.a != i {
            self.a as int
        } else {
            self.b as int
        }
    }

    /// The path with both ends moved `k` connectors round the tile.
    pub open spec fn shifted(self, k: int) -> Path {
        Path { a: ((self.a + k) % 8) as u8, b: ((self.b + k) % 8) as u8 }
    }

    pub fn offset_by(&self, offset: PathIndex) -> (r: Path)
        ensures
            r == self.shifted(offset as int),
    {
        let a = ((self.a as u16 + offset as u16) % 8) as u8;
        let b = ((self.b as u16 + offset as u16) % 8) as u8;
        Path { a, b }
    }
}

/// Some path of `paths` ends at connector `i`.
pub open spec fn connects(paths: Seq<Path>, i: int) -> bool {
    exists|k: int| 0 <= k < paths.len() && #[trigger] paths[k].touches(i)
}

/// The four paths pair each of the eight connectors with exactly one other.
pub open spec fn is_perfect_matching(paths: Seq<Path>) -> bool {
    &&& paths.len() == 4
    &&& forall|k: int|
        0 <= k < 4 ==> #[trigger] paths[k].a < 8 && paths[k].b < 8 && paths[k].a != paths[k].b
    &&& forall|i: int| 0 <= i < 8 ==> #[trigger] connects(paths, i)
    &&& forall|k1: int, k2: int, i: int|
        0 <= k1 < 4 && 0 <= k2 < 4 && k1 != k2 && #[trigger] paths[k1].touches(i)
            ==> !#[trigger] paths[k2].touches(i)
}

/// What the first path of `paths` from index `k` on that touches `i` leads to.
pub open spec fn other_end_from(paths: Seq<Path>, i: int, k: int) -> int
    decreases paths.len() - k,
{
    if k < 0 || k >= paths.len() {
        i
    } else if paths[k].touches(i) {
        paths[k].partner(i)
    } else {
        other_end_from(paths, i, k + 1)
    }
}

#[derive(Debug, Copy, Clone, PartialEq, Eq)]
pub enum RotationDirection {
    CLOCKWISE,
    COUNTERCLOCKWISE,
}

impl RotationDirection {
    /// How many connectors a quarter turn in this direction moves each end.
    pub open spec fn spec_offset(self) -> int {
        match self {
            RotationDirection::CLOCKWISE => 2,
            RotationDirection::COUNTERCLOCKWISE => 6,
        }
    }

    pub fn offset(&self) -> (r: PathIndex)
        ensures
            r as int == self.spec_offset(),
    {
        match *self {
            RotationDirection::CLOCKWISE => 2,
            RotationDirection::COUNTERCLOCKWISE => 6,
        }
    }
}

#[derive(Debug, Copy, Clone, PartialEq, Eq)]
pub enum Tile {
    /// Has no paths: a stone that reaches it stops.
    DragonTile,
    PathTile { paths: [Path; 4] },
}

impl Tile {
    /// A path tile's paths form a perfect matching of the connectors.
    pub open spec fn wf(self) -> bool {
        match self {
            Tile::DragonTile => true,
            Tile::PathTile { paths } => is_perfect_matching(paths@),
        }
    }

    /// Some path of the tile ends at connector `i`.
    pub open spec fn has_connector(self, i: int) -> bool {
        match self {
            Tile::DragonTile => false,
            Tile::PathTile { paths } => connects(paths@, i),
        }
    }

    /// Where a stone that enters a path tile at `i` leaves it.
    pub open spec fn other_end(self, i: int) -> int {
        match self {
            Tile::DragonTile => i,
            Tile::PathTile { paths } => other_end_from(paths@, i, 0),
        }
    }

    /// The tile with every connector moved `k` places round it.
    pub open spec fn rotated(self, k: int) -> Tile {
        match self {
            Tile::DragonTile => Tile::DragonTile,
            Tile::PathTile { paths } => Tile::PathTile {
                paths: [
                    paths[0].shifted(k),
                    paths[1].shifted(k),
                    paths[2].shifted(k),
                    paths[3].shifted(k),
                ],
            },
        }
    }

    pub fn get_other_end(&self, from_index: PathIndex) -> (r: PathIndex)
        requires
            self.has_connector(from_index as int),
        ensures
            r as int == self.other_end(from_index as int),
    {
        match self {
            Tile::PathTile { paths } => {
                let mut k: usize = 0;
                while k < 4
                    invariant
                        0 <= k <= 4,
                        self.has_connector(from_index as int),
                        *self == (Tile::PathTile { paths: *paths }),
                        forall|j: int| 0 <= j < k ==> !(#[trigger] paths@[j].touches(from_index as int)),
                        other_end_from(paths@, from_index as int, 0) == other_end_from(
                            paths@,
                            from_index as int,
                            k as int,
                        ),
                    decreases 4 - k,
                {
                    let path = paths[k];
                    if path.a == from_index || path.b == from_index {
                        return if path.a != from_index {
                            path.a
                        } else {
                            path.b
                        };
                    }
                    k += 1;
                }
                from_index
            },
            Tile::DragonTile => from_index,
        }
    }

    pub fn rotate(&self, direction: RotationDirection) -> (r: Tile)
        ensures
            r == self.rotated(direction.spec_offset()),
            self.wf() ==> r.wf(),
    {
        match *self {
            Tile::DragonTile => *self,
            Tile::PathTile { paths } => {
                let circular_offset = direction.offset();
                let mut rotated_paths: Vec<Path> = Vec::new();
                for k in 0..4
                    invariant
                        rotated_paths@.len() == k,
                        forall|j: int|
                            0 <= j < k ==> #[trigger] rotated_paths@[j] == paths[j].shifted(
                                circular_offset as int,
                            ),
                {
                    rotated_paths.push(paths[k].offset_by(circular_offset));
                }
                let rotated = into_path_array(rotated_paths);
                proof {
                    assert(rotated =~= self.rotated(circular_offset as int)->paths);
                    if self.wf() {
                        lemma_rotation_keeps_matching(*self, circular_offset as int);
                    }
                }
                Tile::PathTile { paths: rotated }
            },
        }
    }
}

/// Whether the four paths pair each connector with exactly one other.
pub fn paths_form_matching(paths: &[Path; 4]) -> (r: bool)
    ensures
        r == is_perfect_matching(paths@),
{
    for k in 0..4
        invariant
            forall|j: int|
                0 <= j < k ==> #[trigger] paths@[j].a < 8 && paths@[j].b < 8 && paths@[j].a
                    != paths@[j].b,
    {
        let p = paths[k];
        if !(p.a < 8 && p.b < 8 && p.a != p.b) {
            return false;
        }
    }
    for k1 in 0..4
        invariant
            forall|j: int|
                0 <= j < 4 ==> #[trigger] paths@[j].a < 8 && paths@[j].b < 8 && paths@[j].a
                    != paths@[j].b,
            forall|j1: int, j2: int, i: int|
                0 <= j1 < k1 && 0 <= j2 < 4 && j1 != j2 && #[trigger] paths@[j1].touches(i)
                    ==> !#[trigger] paths@[j2].touches(i),
    {
        for k2 in 0..4
            invariant
                k1 < 4,
                forall|j1: int, j2: int, i: int|
                    0 <= j1 < k1 && 0 <= j2 < 4 && j1 != j2 && #[trigger] paths@[j1].touches(i)
                        ==> !#[trigger] paths@[j2].touches(i),
                forall|j2: int, i: int|
                    0 <= j2 < k2 && k1 != j2 && #[trigger] paths@[k1 as int].touches(i)
                        ==> !#[trigger] paths@[j2].touches(i),
        {
            let p = paths[k1];
            let q = paths[k2];
            if k1 != k2 && (p.a == q.a || p.a == q.b || p.b == q.a || p.b == q.b) {
                let shared = if p.a == q.a || p.a == q.b {
                    p.a
                } else {
                    p.b
                };
                assert(paths@[k1 as int].touches(shared as int) && paths@[k2 as int].touches(
                    shared as int,
                ));
                return false;
            }
        }
    }
    for i in 0..8
        invariant
            forall|j: int|
                0 <= j < 4 ==> #[trigger] paths@[j].a < 8 && paths@[j].b < 8 && paths@[j].a
                    != paths@[j].b,
            forall|j1: int, j2: int, i: int|
                0 <= j1 < 4 && 0 <= j2 < 4 && j1 != j2 && #[trigger] paths@[j1].touches(i)
                    ==> !#[trigger] paths@[j2].touches(i),
            forall|j: int| 0 <= j < i ==> #[trigger] connects(paths@, j),
    {
        let mut found = false;
        for k in 0..4
            invariant
                found <==> exists|j: int| 0 <= j < k && #[trigger] paths@[j].touches(i as int),
        {
            if paths[k].a == i || paths[k].b == i {
                assert(paths@[k as int].touches(i as int));
                found = true;
            }
        }
        if !found {
            assert(!connects(paths@, i as int));
            return false;
        }
    }
    true
}

/// Relies on arrayvec's `ArrayVec`: collecting exactly four paths fills it,
/// so `into_inner` hands back the array of them in order.
#[verifier::external_body]
pub(crate) fn into_path_array(paths: Vec<Path>) -> (r: [Path; 4])
    requires
        paths@.len() == 4,
    ensures
        r@ == paths@,
{
    let collected: arrayvec::ArrayVec<Path, 4> = paths.into_iter().collect();
    collected.into_inner().unwrap()
}

/// In a perfect matching, the walk from `m` on finds the one path that
/// touches `i`.
proof fn lemma_other_end_from_finds(paths: Seq<Path>, i: int, k: int, m: int)
    requires
        is_perfect_matching(paths),
        0 <= m <= k < 4,
        paths[k].touches(i),
    ensures
        other_end_from(paths, i, m) == paths[k].partner(i),
    decreases k - m,
{
    if m < k {
        assert(!paths[m].touches(i));
        lemma_other_end_from_finds(paths, i, k, m + 1);
    }
}

/// On a well-formed path tile, the other end of connector `i` is the
/// partner of `i` on the one path that touches it.
pub proof fn lemma_other_end_is_partner(tile: Tile, i: int, k: int)
    requires
        tile is PathTile,
        tile.wf(),
        0 <= k < 4,
        tile->paths@[k].touches(i),
    ensures
        tile.other_end(i) == tile->paths@[k].partner(i),
        tile.has_connector(tile.other_end(i)),
        0 <= tile.other_end(i) < 8,
        tile.other_end(i) != i,
{
    lemma_other_end_from_finds(tile->paths@, i, k, 0);
    assert(tile->paths@[k].touches(tile.other_end(i)));
}

/// Every connector of a well-formed path tile leads across it to another
/// connector.
pub proof fn lemma_other_end_in_range(tile: Tile, i: int)
    requires
        tile is PathTile,
        tile.wf(),
        0 <= i < 8,
    ensures
        tile.has_connector(i),
        0 <= tile.other_end(i) < 8,
{
    let paths = tile->paths@;
    assert(connects(paths, i));
    let k = choose|k: int| 0 <= k < paths.len() && #[trigger] paths[k].touches(i);
    lemma_other_end_is_partner(tile, i, k);
}

/// Crossing a well-formed path tile from connector `i` and crossing it back
/// from where that lands returns to `i`.
pub proof fn lemma_other_end_round_trip(tile: Tile, i: int)
    requires
        tile is PathTile,
        tile.wf(),
        0 <= i < 8,
    ensures
        tile.has_connector(tile.other_end(i)),
        tile.other_end(tile.other_end(i)) == i,
{
    let paths = tile->paths@;
    assert(connects(paths, i));
    let k = choose|k: int| 0 <= k < paths.len() && #[trigger] paths[k].touches(i);
    lemma_other_end_is_partner(tile, i, k);
    let j = tile.other_end(i);
    lemma_other_end_is_partner(tile, j, k);
}

/// Moving by `k` places lands on `i` exactly from `i` moved back by `k`.
proof fn lemma_shift_lands(x: int, k: int, i: int)
    requires
        0 <= x < 8,
        0 <= i < 8,
        k >= 0,
    ensures
        ((x + k) % 8 == i) <==> (x == (i - k % 8 + 8) % 8),
{
}

/// A path of a well-formed tile, moved by `k` places, ends at `i` exactly
/// where the path ends at `i` moved back by `k`.
proof fn lemma_shifted_touches(p: Path, k: int, i: int)
    requires
        p.a < 8,
        p.b < 8,
        k >= 0,
        0 <= i < 8,
    ensures
        p.shifted(k).touches(i) <==> p.touches((i - k % 8 + 8) % 8),
{
    lemma_shift_lands(p.a as int, k, i);
    lemma_shift_lands(p.b as int, k, i);
}

/// Moving every path of a perfect matching by `k` places gives a perfect
/// matching.
proof fn lemma_shifted_matching(ps: Seq<Path>, qs: Seq<Path>, k: int)
    requires
        is_perfect_matching(ps),
        qs.len() == 4,
        k >= 0,
        forall|j: int| 0 <= j < 4 ==> #[trigger] qs[j] == ps[j].shifted(k),
    ensures
        is_perfect_matching(qs),
{
    assert forall|j: int| 0 <= j < 4 implies #[trigger] qs[j].a < 8 && qs[j].b < 8 && qs[j].a
        != qs[j].b by {
        let p = ps[j];
        assert(p.a < 8 && p.b < 8 && p.a != p.b);
        lemma_shift_lands(p.b as int, k, ((p.a + k) % 8) as int);
    }
    assert forall|j: int, i: int| 0 <= j < 4 && 0 <= i < 8 implies #[trigger] qs[j].touches(i)
        <==> ps[j].touches((i - k % 8 + 8) % 8) by {
        assert(ps[j].a < 8 && ps[j].b < 8);
        lemma_shifted_touches(ps[j], k, i);
    }
    assert forall|i: int| 0 <= i < 8 implies #[trigger] connects(qs, i) by {
        let pre = (i - k % 8 + 8) % 8;
        assert(connects(ps, pre));
        let j = choose|j: int| 0 <= j < 4 && #[trigger] ps[j].touches(pre);
        assert(qs[j].touches(i));
    }
    assert forall|k1: int, k2: int, i: int|
        0 <= k1 < 4 && 0 <= k2 < 4 && k1 != k2 && #[trigger] qs[k1].touches(i)
            implies !#[trigger] qs[k2].touches(i) by {
        assert(0 <= i < 8);
        let pre = (i - k % 8 + 8) % 8;
        assert(ps[k1].touches(pre));
    }
}

/// Rotating a tile keeps its paths a perfect matching.
pub proof fn lemma_rotation_keeps_matching(tile: Tile, k: int)
    requires
        tile.wf(),
        k >= 0,
    ensures
        tile.rotated(k).wf(),
{
    if let Tile::PathTile { paths } = tile {
        let q = tile.rotated(k)->paths;
        assert forall|j: int| 0 <= j < 4 implies #[trigger] q@[j] == paths@[j].shifted(k) by {}
        lemma_shifted_matching(paths@, q@, k);
    }
}

/// Turning a tile by `k1` places and then by `k2` places is turning it by
/// `k1 + k2` places, counted modulo a full turn.
pub proof fn lemma_rotations_compose(tile: Tile, k1: nat, k2: nat)
    ensures
        tile.rotated(k1 as int).rotated(k2 as int) == tile.rotated(((k1 + k2) % 8) as int),
{
    if let Tile::PathTile { paths } = tile {
        let lhs = tile.rotated(k1 as int).rotated(k2 as int)->paths;
        let rhs = tile.rotated(((k1 + k2) % 8) as int)->paths;
        assert forall|j: int| 0 <= j < 4 implies lhs[j] == rhs[j] by {
            let p = paths[j];
            assert(((p.a + k1) % 8 + k2) % 8 == (p.a + (k1 + k2) % 8) % 8) by (nonlinear_arith);
            assert(((p.b + k1) % 8 + k2) % 8 == (p.b + (k1 + k2) % 8) % 8) by (nonlinear_arith);
        }
        assert(lhs =~= rhs);
    }
}

} // verus!
