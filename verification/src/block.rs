//! Blocks: an anchored sparse set of tiles, used for the falling piece, its
//! preview, the static border, and the settled playfield; with geometric
//! transforms, set algebra against another block, and explosion resolution.

use vstd::prelude::*;

use crate::tile::ExplodeAction;
use crate::tile::LiquidType;
use crate::tile::TileType;
use crate::tile::spec_bonus;
use crate::tile::spec_centerpiece_wf;
use crate::tile::spec_collide;
use crate::tile::spec_collides;
use crate::tile::spec_drop;
use crate::tile::spec_explode;
use crate::tile::spec_explode_shape;
use crate::tile::spec_explodes;
use crate::tile::spec_is_level;
use crate::tile::spec_killer_wf;
use crate::tile::spec_unlocked;
use crate::tile::MAX_LEVEL_SCORE;
use crate::tile::lemma_face_len;
use crate::compositor::Direction;
use crate::compositor::Field;
use crate::compositor::Pen;
use crate::grid::Grid;
use crate::grid::spec_painted;
use crate::grid::spec_on_wall;
use crate::grid::spec_wall_x;
use crate::grid::spec_wall_y;

verus! {

/// One tile of a block: an offset from the anchor and the tile's type.
pub type BlockTile = (i16, i16, TileType);

/// An anchor position plus a collection of tiles addressed relative to it;
/// the absolute position of a tile is anchor + offset.
#[derive(Debug)]
pub struct Block {
    pub x: i16,
    pub y: i16,
    pub tiles: Vec<BlockTile>,
}

/// The first tile of `tiles` lying at absolute position `(x, y)` given the
/// anchor `(x0, y0)`, if any.
pub open spec fn spec_at_tiles(
    tiles: Seq<BlockTile>,
    x0: int,
    y0: int,
    x: int,
    y: int,
) -> Option<TileType>
    decreases tiles.len(),
{
    if tiles.len() == 0 {
        None
    } else if x0 + tiles[0].0 == x && y0 + tiles[0].1 == y {
        Some(tiles[0].2)
    } else {
        spec_at_tiles(tiles.skip(1), x0, y0, x, y)
    }
}

/// Whether some tile of `tiles` lies at absolute position `(x, y)`.
pub open spec fn spec_occupied(tiles: Seq<BlockTile>, x0: int, y0: int, x: int, y: int) -> bool {
    exists|j: int|
        0 <= j < tiles.len() && x0 + tiles[j].0 == x && y0 + tiles[j].1 == y
}

/// A position holds a tile exactly when the positional lookup returns one,
/// and the returned tile is one of the tiles at that position.
pub proof fn lemma_at_tiles_occupied(tiles: Seq<BlockTile>, x0: int, y0: int, x: int, y: int)
    ensures
        (spec_at_tiles(tiles, x0, y0, x, y) is Some) == spec_occupied(tiles, x0, y0, x, y),
        spec_at_tiles(tiles, x0, y0, x, y) matches Some(t) ==> exists|j: int|
            0 <= j < tiles.len() && x0 + tiles[j].0 == x && y0 + tiles[j].1 == y && tiles[j].2
                == t,
    decreases tiles.len(),
{
    if tiles.len() == 0 {
    } else if x0 + tiles[0].0 == x && y0 + tiles[0].1 == y {
        assert(0 <= 0 < tiles.len() && x0 + tiles[0].0 == x && y0 + tiles[0].1 == y);
    } else {
        let rest = tiles.skip(1);
        lemma_at_tiles_occupied(rest, x0, y0, x, y);
        assert(forall|j: int| 0 <= j < rest.len() ==> rest[j] == tiles[j + 1]);
        if spec_occupied(tiles, x0, y0, x, y) {
            let j = choose|j: int|
                0 <= j < tiles.len() && x0 + tiles[j].0 == x && y0 + tiles[j].1 == y;
            assert(j != 0);
            assert(rest[j - 1] == tiles[j]);
            assert(spec_occupied(rest, x0, y0, x, y));
        }
        if spec_occupied(rest, x0, y0, x, y) {
            let j = choose|j: int|
                0 <= j < rest.len() && x0 + rest[j].0 == x && y0 + rest[j].1 == y;
            assert(tiles[j + 1] == rest[j]);
            assert(spec_occupied(tiles, x0, y0, x, y));
        }
        match spec_at_tiles(tiles, x0, y0, x, y) {
            Option::Some(t) => {
                let j = choose|j: int|
                    0 <= j < rest.len() && x0 + rest[j].0 == x && y0 + rest[j].1 == y && rest[j].2
                        == t;
                assert(tiles[j + 1] == rest[j]);
            },
            Option::None => {},
        }
    }
}

/// Appending one tile makes exactly its own absolute position occupied in
/// addition to the positions already occupied.
pub proof fn lemma_occupied_push(
    tiles: Seq<BlockTile>,
    x0: int,
    y0: int,
    t: BlockTile,
    x: int,
    y: int,
)
    ensures
        spec_occupied(tiles.push(t), x0, y0, x, y) == (spec_occupied(tiles, x0, y0, x, y) || (x0
            + t.0 == x && y0 + t.1 == y)),
{
    let ext = tiles.push(t);
    if spec_occupied(ext, x0, y0, x, y) {
        let j = choose|j: int| 0 <= j < ext.len() && x0 + ext[j].0 == x && y0 + ext[j].1 == y;
        if j < tiles.len() {
            assert(ext[j] == tiles[j]);
            assert(spec_occupied(tiles, x0, y0, x, y));
        } else {
            assert(ext[j] == t);
        }
    }
    if spec_occupied(tiles, x0, y0, x, y) {
        let j = choose|j: int|
            0 <= j < tiles.len() && x0 + tiles[j].0 == x && y0 + tiles[j].1 == y;
        assert(ext[j] == tiles[j]);
        assert(spec_occupied(ext, x0, y0, x, y));
    }
    if x0 + t.0 == x && y0 + t.1 == y {
        assert(ext[tiles.len() as int] == t);
        assert(spec_occupied(ext, x0, y0, x, y));
    }
}

/// Pushing a tile at a still-free offset keeps the tile positions pairwise
/// distinct.
pub proof fn lemma_distinct_push(tiles: Seq<BlockTile>, t: BlockTile)
    requires
        spec_distinct_tiles(tiles),
        !spec_has_offset(tiles, t.0 as int, t.1 as int),
    ensures
        spec_distinct_tiles(tiles.push(t)),
{
    let ext = tiles.push(t);
    assert forall|i: int, j: int|
        0 <= i < j < ext.len() implies !((#[trigger] ext[i]).0 == (#[trigger] ext[j]).0
        && ext[i].1 == ext[j].1) by {
        if j < tiles.len() {
            assert(ext[i] == tiles[i] && ext[j] == tiles[j]);
        } else {
            assert(ext[j] == t);
            assert(ext[i] == tiles[i]);
            if ext[i].0 == t.0 && ext[i].1 == t.1 {
                assert(spec_has_offset(tiles, t.0 as int, t.1 as int));
            }
        }
    }
}

/// Some absolute tile position of `a` holds a tile of `b` too, regardless of
/// chemistry.
pub open spec fn spec_intersects(a: Block, b: Block) -> bool {
    exists|j: int|
        0 <= j < a.tiles@.len() && spec_occupied(
            b.tiles@,
            b.x as int,
            b.y as int,
            a.x + a.tiles@[j].0,
            a.y + a.tiles@[j].1,
        )
}

/// Intersection of blocks is symmetric.
pub proof fn lemma_intersects_symmetric(a: Block, b: Block)
    ensures
        spec_intersects(a, b) == spec_intersects(b, a),
{
    lemma_intersects_one_way(a, b);
    lemma_intersects_one_way(b, a);
}

proof fn lemma_intersects_one_way(a: Block, b: Block)
    ensures
        spec_intersects(a, b) ==> spec_intersects(b, a),
{
    if spec_intersects(a, b) {
        let j = choose|j: int|
            0 <= j < a.tiles@.len() && spec_occupied(
                b.tiles@,
                b.x as int,
                b.y as int,
                a.x + a.tiles@[j].0,
                a.y + a.tiles@[j].1,
            );
        let x = a.x + a.tiles@[j].0;
        let y = a.y + a.tiles@[j].1;
        let k = choose|k: int|
            0 <= k < b.tiles@.len() && b.x + b.tiles@[k].0 == x && b.y + b.tiles@[k].1 == y;
        assert(spec_occupied(
            a.tiles@,
            a.x as int,
            a.y as int,
            b.x + b.tiles@[k].0,
            b.y + b.tiles@[k].1,
        ));
        assert(spec_intersects(b, a));
    }
}

/// Some tile of the collection anchored at `(ax, ay)` overlaps a tile of
/// the collection anchored at `(bx, by)` that it also collides with.
pub open spec fn spec_collides_with_at(
    atiles: Seq<BlockTile>,
    ax: int,
    ay: int,
    btiles: Seq<BlockTile>,
    bx: int,
    by: int,
) -> bool {
    exists|j: int|
        0 <= j < atiles.len() && match spec_at_tiles(
            btiles,
            bx,
            by,
            ax + (#[trigger] atiles[j]).0,
            ay + atiles[j].1,
        ) {
            Some(t2) => spec_collides(atiles[j].2, t2),
            None => false,
        }
}

/// Some overlapping pair of tiles of `a` and `b` additionally satisfies the
/// chemistry's reachability predicate.
pub open spec fn spec_collides_with(a: Block, b: Block) -> bool {
    spec_collides_with_at(a.tiles@, a.x as int, a.y as int, b.tiles@, b.x as int, b.y as int)
}

/// One 90-degree rotation about the anchor: offset (dx, dy) maps to
/// (dy, -dx).
pub open spec fn spec_turned_tiles(s: Seq<BlockTile>) -> Seq<BlockTile> {
    Seq::new(s.len(), |i: int| (s[i].1, (-(s[i].0 as int)) as i16, s[i].2))
}

/// No tile offset is the one value whose negation does not fit.
pub open spec fn spec_turnable(s: Seq<BlockTile>) -> bool {
    forall|i: int|
        0 <= i < s.len() ==> (#[trigger] s[i]).0 != i16::MIN && s[i].1 != i16::MIN
}

/// Four successive rotations return the original tile collection exactly.
pub proof fn lemma_turned_four_times(s: Seq<BlockTile>)
    requires
        spec_turnable(s),
    ensures
        spec_turned_tiles(spec_turned_tiles(spec_turned_tiles(spec_turned_tiles(s)))) == s,
{
    let s1 = spec_turned_tiles(s);
    let s2 = spec_turned_tiles(s1);
    let s3 = spec_turned_tiles(s2);
    let s4 = spec_turned_tiles(s3);
    assert forall|i: int| 0 <= i < s.len() implies s4[i] == s[i] by {
        assert(s[i].0 != i16::MIN && s[i].1 != i16::MIN);
        assert(s1[i] == (s[i].1, (-(s[i].0 as int)) as i16, s[i].2));
        assert(s2[i] == (s1[i].1, (-(s1[i].0 as int)) as i16, s1[i].2));
        assert(s3[i] == (s2[i].1, (-(s2[i].0 as int)) as i16, s2[i].2));
        assert(s4[i] == (s3[i].1, (-(s3[i].0 as int)) as i16, s3[i].2));
    }
    assert(s4 =~= s);
}

/// Copy a tile vector element for element.
fn copy_tiles(v: &Vec<BlockTile>) -> (r: Vec<BlockTile>)
    ensures
        r@ == v@,
{
    let mut r: Vec<BlockTile> = Vec::new();
    let mut i: usize = 0;
    while i < v.len()
        invariant
            i <= v@.len(),
            r@ =~= v@.subrange(0, i as int),
        decreases v@.len() - i,
    {
        r.push(v[i]);
        i += 1;
    }
    proof {
        assert(r@ =~= v@);
    }
    r
}

impl Block {
    /// The tile of this block at absolute position `(x, y)`, if any.
    pub open spec fn spec_at(self, x: int, y: int) -> Option<TileType> {
        spec_at_tiles(self.tiles@, self.x as int, self.y as int, x, y)
    }

    /// An empty block anchored at the origin.
    pub fn new() -> (r: Block)
        ensures
            r.x == 0,
            r.y == 0,
            r.tiles@ == Seq::<BlockTile>::empty(),
    {
        Block::new_at(0, 0)
    }

    /// An empty block anchored at `(x, y)`.
    pub fn new_at(x: i16, y: i16) -> (r: Block)
        ensures
            r.x == x,
            r.y == y,
            r.tiles@ == Seq::<BlockTile>::empty(),
    {
        Block { x, y, tiles: Vec::new() }
    }

    /// Absolute-coordinate lookup of one tile.
    pub fn at(&self, x: i16, y: i16) -> (r: Option<TileType>)
        ensures
            r == self.spec_at(x as int, y as int),
    {
        self.at_wide(x as i32, y as i32)
    }

    /// Absolute-coordinate lookup with a coordinate range wide enough that
    /// neighbor offsets never overflow it.
    pub(crate) fn at_wide(&self, x: i32, y: i32) -> (r: Option<TileType>)
        ensures
            r == self.spec_at(x as int, y as int),
    {
        proof {
            assert(self.tiles@.skip(0) =~= self.tiles@);
        }
        let mut i: usize = 0;
        while i < self.tiles.len()
            invariant
                i <= self.tiles@.len(),
                spec_at_tiles(self.tiles@.skip(i as int), self.x as int, self.y as int, x as int, y as int)
                    == self.spec_at(x as int, y as int),
            decreases self.tiles@.len() - i,
        {
            let (dx, dy, tt) = self.tiles[i];
            proof {
                assert(self.tiles@.skip(i as int)[0] == self.tiles@[i as int]);
            }
            if self.x as i32 + dx as i32 == x && self.y as i32 + dy as i32 == y {
                return Some(tt);
            }
            proof {
                assert(self.tiles@.skip(i as int).skip(1) =~= self.tiles@.skip(i as int + 1));
            }
            i += 1;
        }
        proof {
            assert(self.tiles@.skip(self.tiles@.len() as int) =~= Seq::<BlockTile>::empty());
        }
        None
    }

    /// A translated copy: the anchor shifts, the offsets stay.
    pub fn moved(&self, dx: i16, dy: i16) -> (r: Block)
        requires
            i16::MIN <= self.x + dx <= i16::MAX,
            i16::MIN <= self.y + dy <= i16::MAX,
        ensures
            r.x == self.x + dx,
            r.y == self.y + dy,
            r.tiles@ == self.tiles@,
    {
        Block { x: self.x + dx, y: self.y + dy, tiles: copy_tiles(&self.tiles) }
    }

    /// A copy translated so that the anchor lands at `(x, y)`.
    pub fn moved_to(&self, x: i16, y: i16) -> (r: Block)
        ensures
            r.x == x,
            r.y == y,
            r.tiles@ == self.tiles@,
    {
        Block { x, y, tiles: copy_tiles(&self.tiles) }
    }

    /// A copy rotated 90 degrees about the anchor.
    pub fn turned(&self) -> (r: Block)
        requires
            spec_turnable(self.tiles@),
        ensures
            r.x == self.x,
            r.y == self.y,
            r.tiles@ == spec_turned_tiles(self.tiles@),
    {
        let mut rtiles: Vec<BlockTile> = Vec::new();
        let mut i: usize = 0;
        while i < self.tiles.len()
            invariant
                i <= self.tiles@.len(),
                spec_turnable(self.tiles@),
                rtiles@.len() == i,
                forall|k: int| 0 <= k < i ==> rtiles@[k] == spec_turned_tiles(self.tiles@)[k],
            decreases self.tiles@.len() - i,
        {
            let (dx, dy, tt) = self.tiles[i];
            rtiles.push((dy, -dx, tt));
            i += 1;
        }
        proof {
            assert(rtiles@ =~= spec_turned_tiles(self.tiles@));
        }
        Block { x: self.x, y: self.y, tiles: rtiles }
    }

    /// Whether any absolute tile position of this block holds any tile of
    /// `blk2`, regardless of chemistry.
    pub fn intersects(&self, blk2: &Block) -> (r: bool)
        ensures
            r == spec_intersects(*self, *blk2),
    {
        let mut i: usize = 0;
        while i < self.tiles.len()
            invariant
                i <= self.tiles@.len(),
                forall|j: int|
                    0 <= j < i ==> !spec_occupied(
                        blk2.tiles@,
                        blk2.x as int,
                        blk2.y as int,
                        self.x + (#[trigger] self.tiles@[j]).0,
                        self.y + self.tiles@[j].1,
                    ),
            decreases self.tiles@.len() - i,
        {
            let (dx, dy, _) = self.tiles[i];
            let xx = self.x as i32 + dx as i32;
            let yy = self.y as i32 + dy as i32;
            let hit = blk2.at_wide(xx, yy);
            proof {
                lemma_at_tiles_occupied(blk2.tiles@, blk2.x as int, blk2.y as int, xx as int, yy as int);
            }
            if hit.is_some() {
                return true;
            }
            i += 1;
        }
        false
    }

    /// Whether some tile of this block overlaps a tile of `with` that it
    /// also collides with.
    pub fn collides_with(&self, with: &Block) -> (r: bool)
        ensures
            r == spec_collides_with(*self, *with),
    {
        let mut i: usize = 0;
        while i < self.tiles.len()
            invariant
                i <= self.tiles@.len(),
                forall|j: int|
                    0 <= j < i ==> match spec_at_tiles(
                        with.tiles@,
                        with.x as int,
                        with.y as int,
                        self.x + (#[trigger] self.tiles@[j]).0,
                        self.y + self.tiles@[j].1,
                    ) {
                        Some(t2) => !spec_collides(self.tiles@[j].2, t2),
                        None => true,
                    },
            decreases self.tiles@.len() - i,
        {
            let (dx, dy, tt1) = self.tiles[i];
            let xx = self.x as i32 + dx as i32;
            let yy = self.y as i32 + dy as i32;
            if let Some(tt2) = with.at_wide(xx, yy) {
                if TileType::collides(tt1, tt2) {
                    return true;
                }
            }
            i += 1;
        }
        false
    }

    /// A block whose tiles sit at the given offsets, each drawn at random
    /// from the outcome table the score's level allows.
    pub fn new_from_shape(shape: &[(i16, i16)], score: u32) -> (r: Block)
        requires
            score <= MAX_LEVEL_SCORE,
        ensures
            r.x == 0,
            r.y == 0,
            r.tiles@.len() == shape@.len(),
            forall|i: int|
                0 <= i < shape@.len() ==> ((#[trigger] r.tiles@[i]).0, r.tiles@[i].1)
                    == shape@[i],
            forall|i: int, l: int|
                0 <= i < shape@.len() && spec_is_level(score as int, l)
                    ==> #[trigger] spec_unlocked(r.tiles@[i].2, l),
    {
        let mut rtiles: Vec<BlockTile> = Vec::new();
        let mut i: usize = 0;
        while i < shape.len()
            invariant
                i <= shape@.len(),
                score <= MAX_LEVEL_SCORE,
                rtiles@.len() == i,
                forall|k: int|
                    0 <= k < i ==> ((#[trigger] rtiles@[k]).0, rtiles@[k].1) == shape@[k],
                forall|k: int, l: int|
                    0 <= k < i && spec_is_level(score as int, l)
                        ==> #[trigger] spec_unlocked(rtiles@[k].2, l),
            decreases shape@.len() - i,
        {
            let (dx, dy) = shape[i];
            rtiles.push((dx, dy, TileType::new_random(score)));
            i += 1;
        }
        Block { x: 0, y: 0, tiles: rtiles }
    }

    /// The rectangular border of a `w` by `h` playground: a ring of
    /// permanent tiles.
    pub fn new_border(w: i16, h: i16) -> (r: Block)
        requires
            w >= 0,
            h >= 0,
        ensures
            r.x == 0,
            r.y == 0,
            forall|i: int| 0 <= i < r.tiles@.len() ==> (#[trigger] r.tiles@[i]).2
                == TileType::Permanent,
            forall|x: int, y: int|
                spec_occupied(r.tiles@, 0, 0, x, y) <==> spec_border_pos(w as int, h as int, x, y),
            r.tiles@.len() == 2 * (if w >= 1 { w - 1 } else { 0int }) + 2 * (if h >= 1 { h - 1 } else { 0int }),
            w >= 2 && h >= 2 ==> spec_distinct_tiles(r.tiles@),
    {
        let mut tiles: Vec<BlockTile> = Vec::new();
        let mut x: i16 = 0;
        while x < w - 1
            invariant
                w >= 0,
                h >= 0,
                0 <= x <= (if w >= 1 { w - 1 } else { 0 }),
                tiles@.len() == 2 * x,
                h >= 2 ==> spec_distinct_tiles(tiles@),
                forall|i: int| 0 <= i < tiles@.len() ==> (#[trigger] tiles@[i]).2
                    == TileType::Permanent,
                forall|px: int, py: int|
                    spec_occupied(tiles@, 0, 0, px, py) <==> ((py == 0 && 0 <= px <= x - 1) || (py
                        == h - 1 && 1 <= px <= x)),
            decreases w - x,
        {
            let ghost before = tiles@;
            tiles.push((x, 0, TileType::Permanent));
            let ghost mid = tiles@;
            tiles.push((x + 1, h - 1, TileType::Permanent));
            proof {
                assert forall|px: int, py: int|
                    spec_occupied(tiles@, 0, 0, px, py) <==> ((py == 0 && 0 <= px <= x) || (py == h
                        - 1 && 1 <= px <= x + 1)) by {
                    lemma_occupied_push(before, 0, 0, (x, 0, TileType::Permanent), px, py);
                    lemma_occupied_push(mid, 0, 0, ((x + 1) as i16, (h - 1) as i16, TileType::Permanent), px, py);
                }
                if h >= 2 {
                    if spec_has_offset(before, x as int, 0) {
                        assert(spec_occupied(before, 0, 0, x as int, 0));
                    }
                    lemma_distinct_push(before, (x, 0, TileType::Permanent));
                    if spec_has_offset(mid, x as int + 1, h - 1) {
                        assert(spec_occupied(mid, 0, 0, x as int + 1, h - 1));
                        lemma_occupied_push(before, 0, 0, (x, 0, TileType::Permanent), x as int + 1, h - 1);
                    }
                    lemma_distinct_push(mid, ((x + 1) as i16, (h - 1) as i16, TileType::Permanent));
                }
            }
            x += 1;
        }
        let mut y: i16 = 0;
        while y < h - 1
            invariant
                w >= 0,
                h >= 0,
                0 <= y <= (if h >= 1 { h - 1 } else { 0 }),
                tiles@.len() == 2 * (if w >= 1 { w - 1 } else { 0int }) + 2 * y,
                w >= 2 && h >= 2 ==> spec_distinct_tiles(tiles@),
                forall|i: int| 0 <= i < tiles@.len() ==> (#[trigger] tiles@[i]).2
                    == TileType::Permanent,
                forall|px: int, py: int|
                    spec_occupied(tiles@, 0, 0, px, py) <==> ((py == 0 && 0 <= px <= w - 2) || (py
                        == h - 1 && 1 <= px <= w - 1) || (px == 0 && 1 <= py <= y) || (px == w - 1
                        && 0 <= py <= y - 1)),
            decreases h - y,
        {
            let ghost before = tiles@;
            tiles.push((0, y + 1, TileType::Permanent));
            let ghost mid = tiles@;
            tiles.push((w - 1, y, TileType::Permanent));
            proof {
                assert forall|px: int, py: int|
                    spec_occupied(tiles@, 0, 0, px, py) <==> ((py == 0 && 0 <= px <= w - 2) || (py
                        == h - 1 && 1 <= px <= w - 1) || (px == 0 && 1 <= py <= y + 1) || (px == w
                        - 1 && 0 <= py <= y)) by {
                    lemma_occupied_push(before, 0, 0, (0, (y + 1) as i16, TileType::Permanent), px, py);
                    lemma_occupied_push(mid, 0, 0, ((w - 1) as i16, y, TileType::Permanent), px, py);
                    assert(spec_occupied(before, 0, 0, px, py) <==> ((py == 0 && 0 <= px <= w - 2)
                        || (py == h - 1 && 1 <= px <= w - 1) || (px == 0 && 1 <= py <= y) || (px
                        == w - 1 && 0 <= py <= y - 1)));
                }
                if w >= 2 && h >= 2 {
                    if spec_has_offset(before, 0, y as int + 1) {
                        assert(spec_occupied(before, 0, 0, 0, y as int + 1));
                    }
                    lemma_distinct_push(before, (0, (y + 1) as i16, TileType::Permanent));
                    if spec_has_offset(mid, w - 1, y as int) {
                        assert(spec_occupied(mid, 0, 0, w - 1, y as int));
                        lemma_occupied_push(before, 0, 0, (0, (y + 1) as i16, TileType::Permanent), w - 1, y as int);
                    }
                    lemma_distinct_push(mid, ((w - 1) as i16, y, TileType::Permanent));
                }
            }
            y += 1;
        }
        Block { x: 0, y: 0, tiles }
    }
}

/// The positions a `w` by `h` border ring occupies.
pub open spec fn spec_border_pos(w: int, h: int, x: int, y: int) -> bool {
    (y == 0 && 0 <= x <= w - 2) || (y == h - 1 && 1 <= x <= w - 1) || (x == 0 && 1 <= y <= h - 1)
        || (x == w - 1 && 0 <= y <= h - 2)
}


/// A sequence contains a value after a push exactly when it contained it
/// before or the value is the pushed one.
pub proof fn lemma_contains_push<A>(s: Seq<A>, v: A, p: A)
    ensures
        s.push(v).contains(p) == (s.contains(p) || p == v),
{
    let ext = s.push(v);
    if ext.contains(p) {
        let j = choose|j: int| 0 <= j < ext.len() && ext[j] == p;
        if j < s.len() {
            assert(s[j] == p);
        }
    }
    if s.contains(p) {
        let j = choose|j: int| 0 <= j < s.len() && s[j] == p;
        assert(ext[j] == p);
    }
    if p == v {
        assert(ext[s.len() as int] == p);
    }
}

/// Whether some tile of `tiles` carries exactly the offset `(dx, dy)`.
pub open spec fn spec_has_offset(tiles: Seq<BlockTile>, dx: int, dy: int) -> bool {
    exists|j: int| 0 <= j < tiles.len() && (#[trigger] tiles[j]).0 == dx && tiles[j].1 == dy
}

/// Remove, left to right, every one of the first `n` tiles lying at absolute
/// position `(x, y)`; the others stay in order.
pub open spec fn spec_remove_at_upto(
    tiles: Seq<BlockTile>,
    x0: int,
    y0: int,
    x: int,
    y: int,
    n: int,
) -> Seq<BlockTile>
    decreases n,
{
    if n <= 0 {
        Seq::empty()
    } else {
        let prev = spec_remove_at_upto(tiles, x0, y0, x, y, n - 1);
        let t = tiles[n - 1];
        if x0 + t.0 == x && y0 + t.1 == y {
            prev
        } else {
            prev.push(t)
        }
    }
}

/// The state of collision resolution after the first `n` tiles of the moving
/// block have been processed: what remains of the moving tiles and of the
/// stationary block's tiles.  Overlap is judged against the stationary block
/// as it stood before the collision.
pub open spec fn spec_collide_upto(
    moving: Seq<BlockTile>,
    x1: int,
    y1: int,
    b2: Block,
    n: int,
) -> (Seq<BlockTile>, Seq<BlockTile>)
    decreases n,
{
    if n <= 0 {
        (Seq::empty(), b2.tiles@)
    } else {
        let r = spec_collide_upto(moving, x1, y1, b2, n - 1);
        let t = moving[n - 1];
        let xx = x1 + t.0;
        let yy = y1 + t.1;
        match spec_at_tiles(b2.tiles@, b2.x as int, b2.y as int, xx, yy) {
            Some(t2) => if spec_collides(t.2, t2) {
                let nts = spec_collide(t.2, t2);
                let r1n = match nts.0 {
                    Some(nt) => r.0.push((t.0, t.1, nt)),
                    None => r.0,
                };
                let r2a = spec_remove_at_upto(
                    r.1,
                    b2.x as int,
                    b2.y as int,
                    xx,
                    yy,
                    r.1.len() as int,
                );
                let r2n = match nts.1 {
                    Some(nt) => r2a.push(((xx - b2.x) as i16, (yy - b2.y) as i16, nt)),
                    None => r2a,
                };
                (r1n, r2n)
            } else {
                (r.0.push(t), r.1)
            },
            None => (r.0.push(t), r.1),
        }
    }
}

/// The tiles the falling block contributes to the destination: each tile's
/// drop transformation applied, vanished tiles discarded, offsets shifted by
/// the anchor difference.
pub open spec fn spec_dropped_upto(tiles: Seq<BlockTile>, ddx: int, ddy: int, n: int) -> Seq<
    BlockTile,
>
    decreases n,
{
    if n <= 0 {
        Seq::empty()
    } else {
        let prev = spec_dropped_upto(tiles, ddx, ddy, n - 1);
        let t = tiles[n - 1];
        match spec_drop(t.2) {
            Some(nt) => prev.push(((t.0 + ddx) as i16, (t.1 + ddy) as i16, nt)),
            None => prev,
        }
    }
}

/// The signed multiplier effect of one explode action; a complex action sums
/// its parts.
pub open spec fn spec_mult_effect(a: ExplodeAction) -> int
    decreases a,
{
    match a {
        ExplodeAction::Plus => 1,
        ExplodeAction::Minus => -1,
        ExplodeAction::Complex(x, y) => spec_mult_effect(*x) + spec_mult_effect(*y),
        _ => 0,
    }
}

/// The tiles an action writes back at the exploding tile's offset.
pub open spec fn spec_action_tiles(a: ExplodeAction, xx: i16, yy: i16) -> Seq<BlockTile>
    decreases a,
{
    match a {
        ExplodeAction::Convert(t2) => seq![(xx, yy, t2)],
        ExplodeAction::Complex(x, y) => spec_action_tiles(*x, xx, yy) + spec_action_tiles(
            *y,
            xx,
            yy,
        ),
        _ => Seq::empty(),
    }
}

/// The five offsets one spill reaches: the center and its four orthogonal
/// neighbors.
pub open spec fn spec_spill_seq(x: i16, y: i16, l: LiquidType) -> Seq<(i16, i16, LiquidType)> {
    seq![
        (x, y, l),
        (x, (y + 1) as i16, l),
        ((x + 1) as i16, y, l),
        (x, (y - 1) as i16, l),
        ((x - 1) as i16, y, l),
    ]
}

/// The spill requests an action queues at the exploding tile's offset.
pub open spec fn spec_action_spills(a: ExplodeAction, xx: i16, yy: i16) -> Seq<(
    i16,
    i16,
    LiquidType,
)>
    decreases a,
{
    match a {
        ExplodeAction::Spill(l) => spec_spill_seq(xx, yy, l),
        ExplodeAction::Complex(x, y) => spec_action_spills(*x, xx, yy) + spec_action_spills(
            *y,
            xx,
            yy,
        ),
        _ => Seq::empty(),
    }
}

/// Every sub-action's multiplier effect fits a machine word.
pub open spec fn spec_effect_ok(a: ExplodeAction) -> bool
    decreases a,
{
    i32::MIN <= spec_mult_effect(a) <= i32::MAX && match a {
        ExplodeAction::Complex(x, y) => spec_effect_ok(*x) && spec_effect_ok(*y),
        _ => true,
    }
}

/// Every spill the action queues has room for its four neighbors in the
/// offset range.
pub open spec fn spec_action_spill_ok(a: ExplodeAction, xx: i16, yy: i16) -> bool
    decreases a,
{
    match a {
        ExplodeAction::Spill(_) => i16::MIN < xx < i16::MAX && i16::MIN < yy < i16::MAX,
        ExplodeAction::Complex(x, y) => spec_action_spill_ok(*x, xx, yy) && spec_action_spill_ok(
            *y,
            xx,
            yy,
        ),
        _ => true,
    }
}

/// What the explosion action of any tile can do: its effect is one of -1, 0,
/// 1; it converts at most one tile; it spills only if the tile is a flask.
pub proof fn lemma_explode_action_props(t: TileType, xx: i16, yy: i16)
    ensures
        -1 <= spec_mult_effect(spec_explode(t)) <= 1,
        spec_effect_ok(spec_explode(t)),
        !(t matches TileType::Flask(_)) ==> spec_action_spill_ok(spec_explode(t), xx, yy),
        (i16::MIN < xx < i16::MAX && i16::MIN < yy < i16::MAX) ==> spec_action_spill_ok(
            spec_explode(t),
            xx,
            yy,
        ),
{
    let a = spec_explode(t);
    match t {
        TileType::Plus => {
            assert(spec_mult_effect(a) == spec_mult_effect(ExplodeAction::Remove)
                + spec_mult_effect(ExplodeAction::Plus));
            assert(spec_effect_ok(ExplodeAction::Remove) && spec_effect_ok(ExplodeAction::Plus));
            assert(spec_action_spill_ok(ExplodeAction::Remove, xx, yy) && spec_action_spill_ok(
                ExplodeAction::Plus,
                xx,
                yy,
            ));
        },
        TileType::Minus => {
            assert(spec_mult_effect(a) == spec_mult_effect(ExplodeAction::Remove)
                + spec_mult_effect(ExplodeAction::Minus));
            assert(spec_effect_ok(ExplodeAction::Remove) && spec_effect_ok(ExplodeAction::Minus));
            assert(spec_action_spill_ok(ExplodeAction::Remove, xx, yy) && spec_action_spill_ok(
                ExplodeAction::Minus,
                xx,
                yy,
            ));
        },
        _ => {},
    }
}

/// Whether the tile at index `i` detonates: every position of its
/// neighborhood shape holds a tile it may consume.
pub open spec fn spec_detonates(b: Block, i: int) -> bool {
    forall|k: int|
        0 <= k < spec_explode_shape(b.tiles@[i].2).len() ==> match spec_at_tiles(
            b.tiles@,
            b.x as int,
            b.y as int,
            b.x + b.tiles@[i].0 + (#[trigger] spec_explode_shape(b.tiles@[i].2)[k]).0,
            b.y + b.tiles@[i].1 + spec_explode_shape(b.tiles@[i].2)[k].1,
        ) {
            Some(t2) => spec_explodes(b.tiles@[i].2, t2),
            None => false,
        }
}

/// Whether absolute position `(x, y)` lies in the full-shape match of one of
/// the first `n` tiles that detonates.
pub open spec fn spec_killed_upto(b: Block, n: int, x: int, y: int) -> bool {
    exists|i: int, k: int|
        0 <= i < n && spec_detonates(b, i) && 0 <= k < spec_explode_shape(b.tiles@[i].2).len()
            && b.x + b.tiles@[i].0 + (#[trigger] spec_explode_shape(b.tiles@[i].2)[k]).0 == x
            && b.y + b.tiles@[i].1 + spec_explode_shape(b.tiles@[i].2)[k].1 == y
}

/// Whether absolute position `(x, y)` is the target of some detonating tile.
pub open spec fn spec_killed(b: Block, x: int, y: int) -> bool {
    spec_killed_upto(b, b.tiles@.len() as int, x, y)
}

/// The resolution pass over the first `n` tiles: the retained and converted
/// tiles, the exploded tiles in order, the queued spills, the hit total, and
/// the multiplier delta before the bulk bonus.
pub open spec fn spec_resolve_upto(b: Block, n: int) -> (
    Seq<BlockTile>,
    Seq<BlockTile>,
    Seq<(i16, i16, LiquidType)>,
    int,
    int,
)
    decreases n,
{
    if n <= 0 {
        (Seq::empty(), Seq::empty(), Seq::empty(), 0int, 0int)
    } else {
        let prev = spec_resolve_upto(b, n - 1);
        let t = b.tiles@[n - 1];
        if spec_killed(b, b.x + t.0, b.y + t.1) {
            let a = spec_explode(t.2);
            (
                prev.0 + spec_action_tiles(a, t.0, t.1),
                prev.1.push(t),
                prev.2 + spec_action_spills(a, t.0, t.1),
                prev.3 + spec_bonus(t.2),
                prev.4 + spec_mult_effect(a),
            )
        } else {
            (prev.0.push(t), prev.1, prev.2, prev.3, prev.4)
        }
    }
}

/// Queued spills applied in order: each places a spillage at its offset
/// unless the position is already occupied at that moment.
pub open spec fn spec_apply_spills_upto(
    tiles: Seq<BlockTile>,
    spills: Seq<(i16, i16, LiquidType)>,
    n: int,
) -> Seq<BlockTile>
    decreases n,
{
    if n <= 0 {
        tiles
    } else {
        let prev = spec_apply_spills_upto(tiles, spills, n - 1);
        let s = spills[n - 1];
        if spec_has_offset(prev, s.0 as int, s.1 as int) {
            prev
        } else {
            prev.push((s.0, s.1, TileType::Spillage(s.2)))
        }
    }
}

/// The whole resolution pass over a block's tiles: what `spec_resolve_upto`
/// yields once every tile has been processed.
pub open spec fn spec_explode_result(b: Block) -> (
    Seq<BlockTile>,
    Seq<BlockTile>,
    Seq<(i16, i16, LiquidType)>,
    int,
    int,
) {
    spec_resolve_upto(b, b.tiles@.len() as int)
}

/// The bulk bonus for exploding many tiles in one cycle.
pub open spec fn spec_bulk_bonus(count: int) -> int {
    if count > 12 {
        (count - 9) / 9
    } else {
        0
    }
}

/// Within a resolution prefix the hit total is nonnegative, the multiplier
/// delta is bounded by the number of tiles seen, and no more tiles explode
/// than were seen.
pub proof fn lemma_resolve_bounds(b: Block, n: int)
    requires
        0 <= n,
    ensures
        0 <= spec_resolve_upto(b, n).3,
        -n <= spec_resolve_upto(b, n).4 <= n,
        spec_resolve_upto(b, n).1.len() <= n,
    decreases n,
{
    if n > 0 {
        lemma_resolve_bounds(b, n - 1);
        let t = b.tiles@[n - 1];
        lemma_explode_action_props(t.2, t.0, t.1);
    }
}

/// The hit total of a resolution prefix grows with the prefix.
pub proof fn lemma_resolve_hits_mono(b: Block, m: int, n: int)
    requires
        0 <= m <= n,
    ensures
        spec_resolve_upto(b, m).3 <= spec_resolve_upto(b, n).3,
    decreases n,
{
    if m < n {
        lemma_resolve_hits_mono(b, m, n - 1);
    }
}

/// Membership test on a list of positions.
fn list_contains(v: &Vec<(i32, i32)>, x: i32, y: i32) -> (r: bool)
    ensures
        r == v@.contains((x, y)),
{
    let mut j: usize = 0;
    while j < v.len()
        invariant
            j <= v@.len(),
            forall|j2: int| 0 <= j2 < j ==> #[trigger] v@[j2] != (x, y),
        decreases v@.len() - j,
    {
        let (px, py) = v[j];
        if px == x && py == y {
            proof {
                assert(v@[j as int] == (x, y));
            }
            return true;
        }
        j += 1;
    }
    proof {
        if v@.contains((x, y)) {
            let j2 = choose|j2: int| 0 <= j2 < v@.len() && v@[j2] == (x, y);
            assert(v@[j2] != (x, y));
        }
    }
    false
}

/// Whether some tile of the vector carries exactly the offset `(sx, sy)`.
fn has_tile_offset(v: &Vec<BlockTile>, sx: i16, sy: i16) -> (r: bool)
    ensures
        r == spec_has_offset(v@, sx as int, sy as int),
{
    let mut j: usize = 0;
    while j < v.len()
        invariant
            j <= v@.len(),
            forall|j2: int|
                0 <= j2 < j ==> !((#[trigger] v@[j2]).0 == sx && v@[j2].1 == sy),
        decreases v@.len() - j,
    {
        let (dx, dy, _) = v[j];
        if dx == sx && dy == sy {
            return true;
        }
        j += 1;
    }
    false
}

/// Remove in place every tile of `v` lying at absolute position `(x, y)`
/// when the anchor is `(x0, y0)`.
fn remove_tiles_at(v: &mut Vec<BlockTile>, x0: i16, y0: i16, x: i32, y: i32)
    ensures
        final(v)@ == spec_remove_at_upto(
            old(v)@,
            x0 as int,
            y0 as int,
            x as int,
            y as int,
            old(v)@.len() as int,
        ),
{
    let mut out: Vec<BlockTile> = Vec::new();
    let mut j: usize = 0;
    while j < v.len()
        invariant
            j <= v@.len(),
            out@ == spec_remove_at_upto(v@, x0 as int, y0 as int, x as int, y as int, j as int),
        decreases v@.len() - j,
    {
        let (dx, dy, tt) = v[j];
        if !(x0 as i32 + dx as i32 == x && y0 as i32 + dy as i32 == y) {
            out.push((dx, dy, tt));
        }
        j += 1;
    }
    *v = out;
}

/// Apply one explode action at offset `(xx, yy)`: queue its spills, write
/// back its converted tiles, and return its multiplier effect.
fn handle_xp_action(
    xa: ExplodeAction,
    xx: i16,
    yy: i16,
    spills: &mut Vec<(i16, i16, LiquidType)>,
    rtiles: &mut Vec<BlockTile>,
) -> (r: i32)
    requires
        spec_effect_ok(xa),
        spec_action_spill_ok(xa, xx, yy),
    ensures
        r as int == spec_mult_effect(xa),
        final(spills)@ == old(spills)@ + spec_action_spills(xa, xx, yy),
        final(rtiles)@ == old(rtiles)@ + spec_action_tiles(xa, xx, yy),
    decreases xa,
{
    match xa {
        ExplodeAction::Remove => {
            proof {
                assert(spills@ + spec_action_spills(ExplodeAction::Remove, xx, yy) =~= spills@);
                assert(rtiles@ + spec_action_tiles(ExplodeAction::Remove, xx, yy) =~= rtiles@);
            }
            0
        },
        ExplodeAction::Convert(tt2) => {
            proof {
                assert(spills@ + spec_action_spills(ExplodeAction::Convert(tt2), xx, yy)
                    =~= spills@);
                assert(rtiles@ + spec_action_tiles(ExplodeAction::Convert(tt2), xx, yy)
                    =~= rtiles@.push((xx, yy, tt2)));
            }
            rtiles.push((xx, yy, tt2));
            0
        },
        ExplodeAction::Spill(liquid) => {
            proof {
                assert(rtiles@ + spec_action_tiles(ExplodeAction::Spill(liquid), xx, yy)
                    =~= rtiles@);
            }
            Block::spill(xx, yy, spills, liquid);
            0
        },
        ExplodeAction::Plus => {
            proof {
                assert(spills@ + spec_action_spills(ExplodeAction::Plus, xx, yy) =~= spills@);
                assert(rtiles@ + spec_action_tiles(ExplodeAction::Plus, xx, yy) =~= rtiles@);
            }
            1
        },
        ExplodeAction::Minus => {
            proof {
                assert(spills@ + spec_action_spills(ExplodeAction::Minus, xx, yy) =~= spills@);
                assert(rtiles@ + spec_action_tiles(ExplodeAction::Minus, xx, yy) =~= rtiles@);
            }
            -1
        },
        ExplodeAction::Complex(a, b) => {
            let ghost xa0 = ExplodeAction::Complex(a, b);
            let ghost spills0 = spills@;
            let ghost rtiles0 = rtiles@;
            let ra = handle_xp_action(*a, xx, yy, spills, rtiles);
            let rb = handle_xp_action(*b, xx, yy, spills, rtiles);
            proof {
                assert(spills@ =~= spills0 + spec_action_spills(xa0, xx, yy));
                assert(rtiles@ =~= rtiles0 + spec_action_tiles(xa0, xx, yy));
            }
            ra + rb
        },
    }
}


impl Block {
    /// Queue a spill at offset `(x, y)`: the center and its four orthogonal
    /// neighbors.
    pub fn spill(x: i16, y: i16, spills: &mut Vec<(i16, i16, LiquidType)>, liquid: LiquidType)
        requires
            i16::MIN < x < i16::MAX,
            i16::MIN < y < i16::MAX,
        ensures
            final(spills)@ == old(spills)@ + spec_spill_seq(x, y, liquid),
    {
        spills.push((x, y, liquid));
        spills.push((x, y + 1, liquid));
        spills.push((x + 1, y, liquid));
        spills.push((x, y - 1, liquid));
        spills.push((x - 1, y, liquid));
        proof {
            assert(spills@ =~= old(spills)@ + spec_spill_seq(x, y, liquid));
        }
    }

    /// Resolve the landing of the moving block `blk1` onto the stationary
    /// block `blk2`: every overlapping, colliding pair of tiles is replaced
    /// on both sides by the chemistry's collision rule; other moving tiles
    /// pass through unchanged.
    pub fn collide(blk1: Block, blk2: &Block) -> (r: (Block, Block))
        requires
            forall|j: int|
                0 <= j < blk1.tiles@.len() ==> match spec_at_tiles(
                    blk2.tiles@,
                    blk2.x as int,
                    blk2.y as int,
                    blk1.x + (#[trigger] blk1.tiles@[j]).0,
                    blk1.y + blk1.tiles@[j].1,
                ) {
                    Some(t2) => spec_killer_wf(blk1.tiles@[j].2) && spec_killer_wf(t2),
                    None => true,
                },
        ensures
            r.0.x == blk1.x,
            r.0.y == blk1.y,
            r.1.x == blk2.x,
            r.1.y == blk2.y,
            r.0.tiles@ == spec_collide_upto(
                blk1.tiles@,
                blk1.x as int,
                blk1.y as int,
                *blk2,
                blk1.tiles@.len() as int,
            ).0,
            r.1.tiles@ == spec_collide_upto(
                blk1.tiles@,
                blk1.x as int,
                blk1.y as int,
                *blk2,
                blk1.tiles@.len() as int,
            ).1,
    {
        let mut rtiles1: Vec<BlockTile> = Vec::new();
        let mut rtiles2: Vec<BlockTile> = copy_tiles(&blk2.tiles);
        let mut i: usize = 0;
        while i < blk1.tiles.len()
            invariant
                i <= blk1.tiles@.len(),
                forall|j: int|
                    0 <= j < blk1.tiles@.len() ==> match spec_at_tiles(
                        blk2.tiles@,
                        blk2.x as int,
                        blk2.y as int,
                        blk1.x + (#[trigger] blk1.tiles@[j]).0,
                        blk1.y + blk1.tiles@[j].1,
                    ) {
                        Some(t2) => spec_killer_wf(blk1.tiles@[j].2) && spec_killer_wf(t2),
                        None => true,
                    },
                rtiles1@ == spec_collide_upto(
                    blk1.tiles@,
                    blk1.x as int,
                    blk1.y as int,
                    *blk2,
                    i as int,
                ).0,
                rtiles2@ == spec_collide_upto(
                    blk1.tiles@,
                    blk1.x as int,
                    blk1.y as int,
                    *blk2,
                    i as int,
                ).1,
            decreases blk1.tiles@.len() - i,
        {
            let (dx1, dy1, tt1) = blk1.tiles[i];
            let xx1 = blk1.x as i32 + dx1 as i32;
            let yy1 = blk1.y as i32 + dy1 as i32;
            if let Some(tt2) = blk2.at_wide(xx1, yy1) {
                if TileType::collides(tt1, tt2) {
                    let nts = TileType::collide(tt1, tt2);
                    if let Some(ntt1) = nts.0 {
                        rtiles1.push((dx1, dy1, ntt1));
                    }
                    remove_tiles_at(&mut rtiles2, blk2.x, blk2.y, xx1, yy1);
                    if let Some(ntt2) = nts.1 {
                        rtiles2.push((
                            (xx1 - blk2.x as i32) as i16,
                            (yy1 - blk2.y as i32) as i16,
                            ntt2,
                        ));
                    }
                } else {
                    rtiles1.push((dx1, dy1, tt1));
                }
            } else {
                rtiles1.push((dx1, dy1, tt1));
            }
            i += 1;
        }
        (
            Block { x: blk1.x, y: blk1.y, tiles: rtiles1 },
            Block { x: blk2.x, y: blk2.y, tiles: rtiles2 },
        )
    }

    /// Merge this block into `dest` unless it overlaps the border or the
    /// destination: on success every tile is added after its drop
    /// transformation, and tiles whose transformation yields nothing are
    /// discarded; on refusal nothing changes.
    pub fn drop(&self, dest: &mut Block, bd: &Block) -> (r: bool)
        ensures
            r == !(spec_intersects(*self, *bd) || spec_intersects(*self, *old(dest))),
            final(dest).x == old(dest).x,
            final(dest).y == old(dest).y,
            !r ==> final(dest).tiles@ == old(dest).tiles@,
            r ==> final(dest).tiles@ == old(dest).tiles@ + spec_dropped_upto(
                self.tiles@,
                self.x - old(dest).x,
                self.y - old(dest).y,
                self.tiles@.len() as int,
            ),
    {
        if self.intersects(bd) || self.intersects(dest) {
            return false;
        }
        let ddx = self.x as i32 - dest.x as i32;
        let ddy = self.y as i32 - dest.y as i32;
        let mut i: usize = 0;
        while i < self.tiles.len()
            invariant
                i <= self.tiles@.len(),
                ddx == self.x - dest.x,
                ddy == self.y - dest.y,
                dest.x == old(dest).x,
                dest.y == old(dest).y,
                dest.tiles@ == old(dest).tiles@ + spec_dropped_upto(
                    self.tiles@,
                    ddx as int,
                    ddy as int,
                    i as int,
                ),
            decreases self.tiles@.len() - i,
        {
            let (dx1, dy1, tt1) = self.tiles[i];
            if let Some(ntt) = tt1.drop() {
                dest.tiles.push(((dx1 as i32 + ddx) as i16, (dy1 as i32 + ddy) as i16, ntt));
                proof {
                    assert(dest.tiles@ =~= old(dest).tiles@ + spec_dropped_upto(
                        self.tiles@,
                        ddx as int,
                        ddy as int,
                        i as int + 1,
                    ));
                }
            }
            i += 1;
        }
        true
    }

    /// Whether the tile at index `i` detonates this cycle: all positions of
    /// its neighborhood shape hold tiles it may consume.
    fn tile_detonates(&self, i: usize) -> (r: bool)
        requires
            i < self.tiles@.len(),
        ensures
            r == spec_detonates(*self, i as int),
    {
        let (xx, yy, tt) = self.tiles[i];
        let shape = tt.explode_shape();
        let mut k: usize = 0;
        while k < shape.len()
            invariant
                k <= shape@.len(),
                i < self.tiles@.len(),
                (xx, yy, tt) == self.tiles@[i as int],
                shape@ == spec_explode_shape(tt),
                forall|k2: int|
                    0 <= k2 < k ==> match spec_at_tiles(
                        self.tiles@,
                        self.x as int,
                        self.y as int,
                        self.x + xx + (#[trigger] shape@[k2]).0,
                        self.y + yy + shape@[k2].1,
                    ) {
                        Some(t2) => spec_explodes(tt, t2),
                        None => false,
                    },
            decreases shape@.len() - k,
        {
            let (dx, dy) = shape[k];
            let x2 = self.x as i32 + xx as i32 + dx as i32;
            let y2 = self.y as i32 + yy as i32 + dy as i32;
            let found = self.at_wide(x2, y2);
            match found {
                Option::None => {
                    return false;
                },
                Option::Some(tt2) => {
                    if !tt.explodes(tt2) {
                        return false;
                    }
                },
            }
            k += 1;
        }
        true
    }

    /// One explosion cycle over this block: detect every tile whose full
    /// neighborhood matches, remove or convert each targeted tile, place the
    /// queued liquid spills into empty positions, and report the exploded
    /// tiles, the hit total, and the multiplier delta including the bulk
    /// bonus.
    pub fn explode(&mut self) -> (r: (Vec<BlockTile>, u32, i32))
        requires
            old(self).spec_explode_ready(),
        ensures
            final(self).x == old(self).x,
            final(self).y == old(self).y,
            final(self).tiles@ == spec_apply_spills_upto(
                spec_explode_result(*old(self)).0,
                spec_explode_result(*old(self)).2,
                spec_explode_result(*old(self)).2.len() as int,
            ),
            r.0@ == spec_explode_result(*old(self)).1,
            r.1 as int == spec_explode_result(*old(self)).3,
            r.2 as int == spec_explode_result(*old(self)).4 + spec_bulk_bonus(
                spec_explode_result(*old(self)).1.len() as int,
            ),
    {
        let ghost b0 = *self;
        let n = self.tiles.len();

        // Pass 1: detection.  Collect every position covered by the full
        // shape of a detonating tile.
        let mut killlist: Vec<(i32, i32)> = Vec::new();
        let mut i: usize = 0;
        while i < n
            invariant
                *self == b0,
                n == b0.tiles@.len(),
                i <= n,
                forall|px: int, py: int|
                    #[trigger] killlist@.contains((px as i32, py as i32)) == spec_killed_upto(
                        b0,
                        i as int,
                        px,
                        py,
                    ) || !(i32::MIN <= px <= i32::MAX && i32::MIN <= py <= i32::MAX),
                forall|p: (i32, i32)|
                    #[trigger] killlist@.contains(p) ==> spec_killed_upto(
                        b0,
                        i as int,
                        p.0 as int,
                        p.1 as int,
                    ),
            decreases n - i,
        {
            let (xx, yy, tt) = self.tiles[i];
            if self.tile_detonates(i) {
                let shape = tt.explode_shape();
                let mut k: usize = 0;
                while k < shape.len()
                    invariant
                        *self == b0,
                        n == b0.tiles@.len(),
                        i < n,
                        k <= shape@.len(),
                        (xx, yy, tt) == b0.tiles@[i as int],
                        shape@ == spec_explode_shape(tt),
                        spec_detonates(b0, i as int),
                        forall|px: int, py: int|
                            #[trigger] killlist@.contains((px as i32, py as i32))
                                == (spec_killed_upto(b0, i as int, px, py) || exists|k2: int|
                                0 <= k2 < k && b0.x + xx + (#[trigger] shape@[k2]).0 == px && b0.y
                                    + yy + shape@[k2].1 == py) || !(i32::MIN <= px <= i32::MAX
                                && i32::MIN <= py <= i32::MAX),
                        forall|p: (i32, i32)|
                            #[trigger] killlist@.contains(p) ==> (spec_killed_upto(
                                b0,
                                i as int,
                                p.0 as int,
                                p.1 as int,
                            ) || exists|k2: int|
                                0 <= k2 < k && b0.x + xx + (#[trigger] shape@[k2]).0 == p.0 && b0.y
                                    + yy + shape@[k2].1 == p.1),
                    decreases shape@.len() - k,
                {
                    let (dx, dy) = shape[k];
                    let x2 = self.x as i32 + xx as i32 + dx as i32;
                    let y2 = self.y as i32 + yy as i32 + dy as i32;
                    let ghost klbefore = killlist@;
                    killlist.push((x2, y2));
                    proof {
                        assert forall|p: (i32, i32)| #[trigger]
                            killlist@.contains(p) == (klbefore.contains(p) || p == (x2, y2)) by {
                            lemma_contains_push(klbefore, (x2, y2), p);
                        }
                        assert(b0.x + xx + shape@[k as int].0 == x2 as int);
                        assert(b0.y + yy + shape@[k as int].1 == y2 as int);
                    }
                    k += 1;
                }
                proof {
                    assert forall|px: int, py: int| #[trigger]
                        spec_killed_upto(b0, i as int + 1, px, py) == (spec_killed_upto(
                        b0,
                        i as int,
                        px,
                        py,
                    ) || exists|k2: int|
                        0 <= k2 < shape@.len() && b0.x + xx + (#[trigger] shape@[k2]).0 == px
                            && b0.y + yy + shape@[k2].1 == py) by {
                        if spec_killed_upto(b0, i as int + 1, px, py) {
                            let (i2, k2) = choose|i2: int, k2: int|
                                0 <= i2 < i as int + 1 && spec_detonates(b0, i2) && 0 <= k2
                                    < spec_explode_shape(b0.tiles@[i2].2).len() && b0.x
                                    + b0.tiles@[i2].0 + (#[trigger] spec_explode_shape(
                                    b0.tiles@[i2].2,
                                )[k2]).0 == px && b0.y + b0.tiles@[i2].1 + spec_explode_shape(
                                    b0.tiles@[i2].2,
                                )[k2].1 == py;
                            if i2 < i as int {
                                assert(spec_killed_upto(b0, i as int, px, py));
                            }
                        }
                        if spec_killed_upto(b0, i as int, px, py) {
                            assert(spec_killed_upto(b0, i as int + 1, px, py));
                        }
                    }
                }
            } else {
                proof {
                    assert forall|px: int, py: int| #[trigger]
                        spec_killed_upto(b0, i as int + 1, px, py) == spec_killed_upto(
                        b0,
                        i as int,
                        px,
                        py,
                    ) by {
                        if spec_killed_upto(b0, i as int + 1, px, py) {
                            let (i2, k2) = choose|i2: int, k2: int|
                                0 <= i2 < i as int + 1 && spec_detonates(b0, i2) && 0 <= k2
                                    < spec_explode_shape(b0.tiles@[i2].2).len() && b0.x
                                    + b0.tiles@[i2].0 + (#[trigger] spec_explode_shape(
                                    b0.tiles@[i2].2,
                                )[k2]).0 == px && b0.y + b0.tiles@[i2].1 + spec_explode_shape(
                                    b0.tiles@[i2].2,
                                )[k2].1 == py;
                            assert(i2 < i as int);
                        }
                        if spec_killed_upto(b0, i as int, px, py) {
                            assert(spec_killed_upto(b0, i as int + 1, px, py));
                        }
                    }
                }
            }
            i += 1;
        }

        // Pass 2: resolution.  Rebuild the tile collection, exploding every
        // tile whose position is on the kill list.
        let mut exploded: Vec<BlockTile> = Vec::new();
        let mut rtiles: Vec<BlockTile> = Vec::new();
        let mut spills: Vec<(i16, i16, LiquidType)> = Vec::new();
        let mut hits: u32 = 0;
        let mut dmult: i32 = 0;
        let mut i: usize = 0;
        while i < n
            invariant
                *self == b0,
                b0.spec_explode_ready(),
                n == b0.tiles@.len(),
                i <= n,
                forall|p: (i32, i32)|
                    #[trigger] killlist@.contains(p) ==> spec_killed(b0, p.0 as int, p.1 as int),
                forall|px: int, py: int|
                    #[trigger] killlist@.contains((px as i32, py as i32)) == spec_killed(
                        b0,
                        px,
                        py,
                    ) || !(i32::MIN <= px <= i32::MAX && i32::MIN <= py <= i32::MAX),
                rtiles@ == spec_resolve_upto(b0, i as int).0,
                exploded@ == spec_resolve_upto(b0, i as int).1,
                spills@ == spec_resolve_upto(b0, i as int).2,
                hits as int == spec_resolve_upto(b0, i as int).3,
                dmult as int == spec_resolve_upto(b0, i as int).4,
            decreases n - i,
        {
            let (xx, yy, tt) = self.tiles[i];
            let x2 = self.x as i32 + xx as i32;
            let y2 = self.y as i32 + yy as i32;
            proof {
                lemma_resolve_bounds(b0, i as int + 1);
                lemma_resolve_hits_mono(b0, i as int + 1, n as int);
                lemma_explode_action_props(tt, xx, yy);
            }
            if list_contains(&killlist, x2, y2) {
                exploded.push((xx, yy, tt));
                let act = tt.explode();
                let eff = handle_xp_action(act, xx, yy, &mut spills, &mut rtiles);
                dmult = dmult + eff;
                hits = hits + tt.bonus();
            } else {
                rtiles.push((xx, yy, tt));
                proof {
                    assert(!spec_killed(b0, b0.x + b0.tiles@[i as int].0, b0.y
                        + b0.tiles@[i as int].1));
                }
            }
            i += 1;
        }
        self.tiles = rtiles;

        // Apply the queued spills in order, only into positions empty at
        // that moment.
        let ghost kept = spec_resolve_upto(b0, n as int).0;
        let ghost spillsq = spec_resolve_upto(b0, n as int).2;
        let mut si: usize = 0;
        while si < spills.len()
            invariant
                si <= spills@.len(),
                spills@ == spillsq,
                self.x == b0.x,
                self.y == b0.y,
                self.tiles@ == spec_apply_spills_upto(kept, spillsq, si as int),
            decreases spills@.len() - si,
        {
            let (sx, sy, liquid) = spills[si];
            if !has_tile_offset(&self.tiles, sx, sy) {
                self.tiles.push((sx, sy, TileType::Spillage(liquid)));
            }
            si += 1;
        }

        // The bulk-explosion bonus.
        proof {
            lemma_resolve_bounds(b0, n as int);
        }
        if exploded.len() > 12 {
            dmult = dmult + (exploded.len() as i32 - 9) / 9;
        }
        (exploded, hits, dmult)
    }

    /// The conditions under which an explosion cycle fits the machine:
    /// every targeted tile's parameter can be decremented, every targeted
    /// flask has room for its spill neighborhood, and the accumulated totals
    /// fit their words.
    pub open spec fn spec_explode_ready(self) -> bool {
        &&& self.tiles@.len() <= 0x7fffffff
        &&& forall|i: int|
            0 <= i < self.tiles@.len() && spec_killed(
                self,
                self.x + (#[trigger] self.tiles@[i]).0,
                self.y + self.tiles@[i].1,
            ) ==> spec_centerpiece_wf(self.tiles@[i].2) && (self.tiles@[i].2 matches
            TileType::Flask(_) ==> i16::MIN < self.tiles@[i].0 < i16::MAX && i16::MIN
                < self.tiles@[i].1 < i16::MAX)
        &&& spec_explode_result(self).3 <= u32::MAX
        &&& i32::MIN <= spec_explode_result(self).4 + spec_bulk_bonus(
            spec_explode_result(self).1.len() as int,
        ) <= i32::MAX
    }
}

/// A block in which no tile's full neighborhood is satisfied is left exactly
/// as it stands by an explosion cycle: nothing is removed, converted,
/// spilled, or scored.
pub proof fn lemma_explode_quiescent(b: Block)
    requires
        forall|i: int| 0 <= i < b.tiles@.len() ==> !spec_detonates(b, i),
    ensures
        spec_explode_result(b).0 == b.tiles@,
        spec_explode_result(b).1 == Seq::<BlockTile>::empty(),
        spec_explode_result(b).2 == Seq::<(i16, i16, LiquidType)>::empty(),
        spec_explode_result(b).3 == 0,
        spec_explode_result(b).4 == 0,
        spec_apply_spills_upto(
            spec_explode_result(b).0,
            spec_explode_result(b).2,
            spec_explode_result(b).2.len() as int,
        ) == b.tiles@,
{
    assert forall|x: int, y: int| !spec_killed(b, x, y) by {
        if spec_killed(b, x, y) {
            let (i2, k2) = choose|i2: int, k2: int|
                0 <= i2 < b.tiles@.len() && spec_detonates(b, i2) && 0 <= k2 < spec_explode_shape(
                    b.tiles@[i2].2,
                ).len() && b.x + b.tiles@[i2].0 + (#[trigger] spec_explode_shape(
                    b.tiles@[i2].2,
                )[k2]).0 == x && b.y + b.tiles@[i2].1 + spec_explode_shape(b.tiles@[i2].2)[k2].1
                    == y;
            assert(!spec_detonates(b, i2));
        }
    }
    lemma_resolve_quiescent_upto(b, b.tiles@.len() as int);
    assert(spec_resolve_upto(b, b.tiles@.len() as int).0 =~= b.tiles@);
}

proof fn lemma_resolve_quiescent_upto(b: Block, n: int)
    requires
        0 <= n <= b.tiles@.len(),
        forall|x: int, y: int| !spec_killed(b, x, y),
    ensures
        spec_resolve_upto(b, n).0 == b.tiles@.take(n),
        spec_resolve_upto(b, n).1 == Seq::<BlockTile>::empty(),
        spec_resolve_upto(b, n).2 == Seq::<(i16, i16, LiquidType)>::empty(),
        spec_resolve_upto(b, n).3 == 0,
        spec_resolve_upto(b, n).4 == 0,
    decreases n,
{
    if n == 0 {
        assert(spec_resolve_upto(b, 0).0 =~= b.tiles@.take(0));
    } else {
        lemma_resolve_quiescent_upto(b, n - 1);
        let t = b.tiles@[n - 1];
        assert(!spec_killed(b, b.x + t.0, b.y + t.1));
        assert(b.tiles@.take(n - 1).push(t) =~= b.tiles@.take(n));
    }
}


/// The seven piece shapes, as offset lists.
pub open spec fn spec_piece_shape(k: int) -> Seq<(i16, i16)> {
    if k == 0 {
        seq![(0i16, 0i16)]
    } else if k == 1 {
        seq![(0i16, -1i16), (0i16, 0i16)]
    } else if k == 2 {
        seq![(0i16, -1i16), (0i16, 0i16), (0i16, 1i16)]
    } else if k == 3 {
        seq![(0i16, -1i16), (0i16, 1i16)]
    } else if k == 4 {
        seq![(-1i16, -1i16), (0i16, 0i16)]
    } else if k == 5 {
        seq![(-1i16, 0i16), (0i16, 0i16), (0i16, -1i16)]
    } else {
        seq![(0i16, -1i16), (-1i16, 0i16), (1i16, 0i16)]
    }
}

impl Block {
    /// A randomly chosen falling piece: one of the seven fixed shapes, its
    /// tiles drawn from the outcome table the score's level allows.
    pub fn new_random(score: u32) -> (r: Block)
        requires
            score <= MAX_LEVEL_SCORE,
        ensures
            r.x == 0,
            r.y == 0,
            exists|k: int|
                0 <= k < 7 && (#[trigger] spec_piece_shape(k)).len() == r.tiles@.len() && forall|
                    i: int,
                |
                    0 <= i < r.tiles@.len() ==> ((#[trigger] r.tiles@[i]).0, r.tiles@[i].1)
                        == spec_piece_shape(k)[i],
            forall|i: int, l: int|
                0 <= i < r.tiles@.len() && spec_is_level(score as int, l)
                    ==> #[trigger] spec_unlocked(r.tiles@[i].2, l),
    {
        let pick = crate::rng::random_below(7);
        let mut shape: Vec<(i16, i16)> = Vec::new();
        if pick == 0 {
            shape.push((0, 0));
        } else if pick == 1 {
            shape.push((0, -1));
            shape.push((0, 0));
        } else if pick == 2 {
            shape.push((0, -1));
            shape.push((0, 0));
            shape.push((0, 1));
        } else if pick == 3 {
            shape.push((0, -1));
            shape.push((0, 1));
        } else if pick == 4 {
            shape.push((-1, -1));
            shape.push((0, 0));
        } else if pick == 5 {
            shape.push((-1, 0));
            shape.push((0, 0));
            shape.push((0, -1));
        } else {
            shape.push((0, -1));
            shape.push((-1, 0));
            shape.push((1, 0));
        }
        proof {
            assert(shape@ =~= spec_piece_shape(pick as int));
        }
        Block::new_from_shape(shape.as_slice(), score)
    }
}


/// Whether `(cx, cy)` lies in the screen rectangle of the tile drawn at
/// playground cell `(x, y)`: tiles are five columns by three rows, with
/// shared walls, so a tile's drawing starts at `(4x, 2y)`.
pub open spec fn spec_tile_screen_rect(x: int, y: int, cx: int, cy: int) -> bool {
    4 * x <= cx <= 4 * x + 4 && 2 * y <= cy <= 2 * y + 2
}

/// What every cell of a painted tile box holds afterward, given its prior
/// field `f`: an interior wall cell gains both arms of its run's pen; a
/// corner gains the inward arm of each adjoining wall that is inclusive
/// (that is, has no solid neighbor on that side); every other cell keeps
/// `f`.  Meaningful for a box with positive extent.
pub open spec fn spec_box_cell(
    x0: int,
    y0: int,
    w: int,
    h: int,
    have_up: bool,
    have_right: bool,
    have_down: bool,
    have_left: bool,
    pen1: Pen,
    pen2: Pen,
    cx: int,
    cy: int,
    f: Field,
) -> Field {
    let pu = if have_up { pen1 } else { pen2 };
    let pr = if have_right { pen1 } else { pen2 };
    let pd = if have_down { pen1 } else { pen2 };
    let pl = if have_left { pen1 } else { pen2 };
    if cy == y0 && x0 < cx < x0 + w {
        spec_painted(spec_painted(f, Direction::Left, pu), Direction::Right, pu)
    } else if cy == y0 + h && x0 < cx < x0 + w {
        spec_painted(spec_painted(f, Direction::Left, pd), Direction::Right, pd)
    } else if cx == x0 + w && y0 < cy < y0 + h {
        spec_painted(spec_painted(f, Direction::Up, pr), Direction::Down, pr)
    } else if cx == x0 && y0 < cy < y0 + h {
        spec_painted(spec_painted(f, Direction::Up, pl), Direction::Down, pl)
    } else if cx == x0 && cy == y0 {
        let f1 = if !have_up {
            spec_painted(f, Direction::Right, pu)
        } else {
            f
        };
        if !have_left {
            spec_painted(f1, Direction::Down, pl)
        } else {
            f1
        }
    } else if cx == x0 + w && cy == y0 {
        let f1 = if !have_up {
            spec_painted(f, Direction::Left, pu)
        } else {
            f
        };
        if !have_right {
            spec_painted(f1, Direction::Down, pr)
        } else {
            f1
        }
    } else if cx == x0 && cy == y0 + h {
        let f1 = if !have_down {
            spec_painted(f, Direction::Right, pd)
        } else {
            f
        };
        if !have_left {
            spec_painted(f1, Direction::Up, pl)
        } else {
            f1
        }
    } else if cx == x0 + w && cy == y0 + h {
        let f1 = if !have_right {
            spec_painted(f, Direction::Up, pr)
        } else {
            f
        };
        if !have_down {
            spec_painted(f1, Direction::Left, pd)
        } else {
            f1
        }
    } else {
        f
    }
}

/// Whether the block holds a solid tile at absolute position `(x, y)`.
pub open spec fn spec_solid_at(b: Block, x: int, y: int) -> bool {
    match spec_at_tiles(b.tiles@, b.x as int, b.y as int, x, y) {
        Some(t2) => crate::tile::spec_is_solid(t2),
        None => false,
    }
}

/// Row `j` of the five-by-three sparse pattern a spillage is drawn with:
/// its glyph on alternate cells, blanks between.
pub open spec fn spec_spill_row(tt: TileType, j: int) -> Seq<char> {
    let c = crate::tile::spec_tile_face(tt)[0];
    if j == 1 {
        seq![c, ' ', c, ' ', c]
    } else {
        seq![' ', c, ' ', c, ' ']
    }
}

/// What every cell of a tile's screen rectangle holds after the tile at
/// playground cell `(x, y)` is drawn, given the cell's prior field `f`: a
/// spillage writes its sparse pattern; a solid tile writes its face into
/// the three middle cells and, on the rectangle's boundary, the walls of
/// `spec_box_cell` over the cleared field, thin toward a solid neighbor of
/// the block and thick elsewhere.
pub open spec fn spec_tile_cell(b: Block, x: int, y: int, tt: TileType, cx: int, cy: int, f: Field) -> Field {
    let tx = 4 * x;
    let ty = 2 * y;
    if !crate::tile::spec_is_solid(tt) {
        Field::Decoration(spec_spill_row(tt, cy - ty)[cx - tx])
    } else if cy == ty + 1 && tx < cx < tx + 4 {
        Field::Decoration(crate::tile::spec_tile_face(tt)[cx - (tx + 1)])
    } else {
        spec_box_cell(
            tx,
            ty,
            4,
            2,
            spec_solid_at(b, x, y - 1),
            spec_solid_at(b, x + 1, y),
            spec_solid_at(b, x, y + 1),
            spec_solid_at(b, x - 1, y),
            Pen::Thin,
            Pen::Thick,
            cx,
            cy,
            crate::grid::spec_cleared(f, cx == tx, cx == tx + 4, cy == ty, cy == ty + 2),
        )
    }
}

/// No two tiles of the collection share an offset, so no two share an
/// absolute position either.
pub open spec fn spec_distinct_tiles(s: Seq<BlockTile>) -> bool {
    forall|i: int, j: int|
        0 <= i < j < s.len() ==> !((#[trigger] s[i]).0 == (#[trigger] s[j]).0 && s[i].1
            == s[j].1)
}

/// The column of the `k`th face character of the tile at index `j`: the
/// face occupies the three middle columns of the tile's screen rectangle.
pub open spec fn spec_face_cell_x(b: Block, j: int, k: int) -> int {
    4 * (b.x + b.tiles@[j].0) + 1 + k
}

/// The row of the face characters of the tile at index `j`: the middle row
/// of the tile's screen rectangle.
pub open spec fn spec_face_cell_y(b: Block, j: int) -> int {
    2 * (b.y + b.tiles@[j].1) + 1
}

/// Whether `(cx, cy)` lies in the screen rectangle of some tile of the
/// block.
pub open spec fn spec_covered(b: Block, cx: int, cy: int) -> bool {
    exists|j: int|
        0 <= j < b.tiles@.len() && spec_tile_screen_rect(
            b.x + (#[trigger] b.tiles@[j]).0,
            b.y + b.tiles@[j].1,
            cx,
            cy,
        )
}

/// A wall painted rightward from `(x0, y0)` stays on row `y0` between
/// columns `x0` and `x0 + len`; one painted downward stays on column `x0`.
proof fn lemma_wall_within(x0: int, y0: int, d: Direction, len: int, cx: int, cy: int)
    requires
        len >= 0,
        spec_on_wall(x0, y0, d, len, cx, cy),
        d == Direction::Right || d == Direction::Down,
    ensures
        d == Direction::Right ==> x0 <= cx <= x0 + len && cy == y0,
        d == Direction::Down ==> y0 <= cy <= y0 + len && cx == x0,
{
    let i = choose|i: int|
        0 <= i <= len && cx == #[trigger] spec_wall_x(x0, d, i) && cy == spec_wall_y(y0, d, i);
    crate::grid::lemma_unit_mul_pub(i, d);
}

impl Block {
    /// Paint the four walls of one tile cell: walls shared with a solid
    /// neighbor are thin and exclusive of their endpoints, free walls are
    /// thick and inclusive, so adjoining tiles connect.  For a box of
    /// positive extent every cell of the closed rectangle is described by
    /// `spec_box_cell`; for a degenerate box only the frame is stated.
    pub fn paint_tile(
        x0: i16,
        y0: i16,
        w: i16,
        h: i16,
        grid: &mut Grid,
        have_up: bool,
        have_right: bool,
        have_down: bool,
        have_left: bool,
        pen1: Pen,
        pen2: Pen,
    )
        requires
            old(grid).wf(),
            w >= 0,
            h >= 0,
            0 <= x0,
            0 <= y0,
            x0 + w <= old(grid).w,
            y0 + h <= old(grid).h,
        ensures
            final(grid).wf(),
            final(grid).w == old(grid).w,
            final(grid).h == old(grid).h,
            forall|cx: int, cy: int|
                old(grid).spec_in_grid(cx, cy) && !(x0 <= cx <= x0 + w && y0 <= cy <= y0 + h)
                    ==> final(grid).spec_field(cx, cy) == old(grid).spec_field(cx, cy),
            w > 0 && h > 0 ==> forall|cx: int, cy: int|
                old(grid).spec_in_grid(cx, cy) && x0 <= cx <= x0 + w && y0 <= cy <= y0 + h
                    ==> final(grid).spec_field(cx, cy) == spec_box_cell(
                    x0 as int,
                    y0 as int,
                    w as int,
                    h as int,
                    have_up,
                    have_right,
                    have_down,
                    have_left,
                    pen1,
                    pen2,
                    cx,
                    cy,
                    old(grid).spec_field(cx, cy),
                ),
    {
        let ghost g0 = *old(grid);
        let x1 = x0 + w;
        let y1 = y0 + h;
        proof {
            crate::grid::lemma_unit_mul_pub(w as int, Direction::Right);
            crate::grid::lemma_unit_mul_pub(h as int, Direction::Down);
        }
        let pu = if have_up { pen1 } else { pen2 };
        let pr = if have_right { pen1 } else { pen2 };
        let pd = if have_down { pen1 } else { pen2 };
        let pl = if have_left { pen1 } else { pen2 };
        grid.paint_wall(x0, y0, w, Direction::Right, !have_up, pu);
        proof {
            assert forall|cx: int, cy: int|
                g0.spec_in_grid(cx, cy) && !(x0 <= cx <= x0 + w && y0 <= cy <= y0 + h) implies (
            grid.spec_field(cx, cy) == g0.spec_field(cx, cy)) by {
                if spec_on_wall(x0 as int, y0 as int, Direction::Right, w as int, cx, cy) {
                    lemma_wall_within(x0 as int, y0 as int, Direction::Right, w as int, cx, cy);
                }
            }
        }
        let ghost g1 = *grid;
        grid.paint_wall(x1, y0, h, Direction::Down, !have_right, pr);
        proof {
            assert forall|cx: int, cy: int|
                g0.spec_in_grid(cx, cy) && !(x0 <= cx <= x0 + w && y0 <= cy <= y0 + h) implies (
            grid.spec_field(cx, cy) == g1.spec_field(cx, cy)) by {
                if spec_on_wall(x1 as int, y0 as int, Direction::Down, h as int, cx, cy) {
                    lemma_wall_within(x1 as int, y0 as int, Direction::Down, h as int, cx, cy);
                }
            }
        }
        let ghost g2 = *grid;
        grid.paint_wall(x0, y1, w, Direction::Right, !have_down, pd);
        proof {
            assert forall|cx: int, cy: int|
                g0.spec_in_grid(cx, cy) && !(x0 <= cx <= x0 + w && y0 <= cy <= y0 + h) implies (
            grid.spec_field(cx, cy) == g2.spec_field(cx, cy)) by {
                if spec_on_wall(x0 as int, y1 as int, Direction::Right, w as int, cx, cy) {
                    lemma_wall_within(x0 as int, y1 as int, Direction::Right, w as int, cx, cy);
                }
            }
        }
        let ghost g3 = *grid;
        grid.paint_wall(x0, y0, h, Direction::Down, !have_left, pl);
        proof {
            assert forall|cx: int, cy: int|
                g0.spec_in_grid(cx, cy) && !(x0 <= cx <= x0 + w && y0 <= cy <= y0 + h) implies (
            grid.spec_field(cx, cy) == g3.spec_field(cx, cy)) by {
                if spec_on_wall(x0 as int, y0 as int, Direction::Down, h as int, cx, cy) {
                    lemma_wall_within(x0 as int, y0 as int, Direction::Down, h as int, cx, cy);
                }
            }
            if w > 0 && h > 0 {
                assert forall|cx: int, cy: int|
                    g0.spec_in_grid(cx, cy) && x0 <= cx <= x0 + w && y0 <= cy <= y0 + h implies (
                grid.spec_field(cx, cy) == spec_box_cell(
                    x0 as int,
                    y0 as int,
                    w as int,
                    h as int,
                    have_up,
                    have_right,
                    have_down,
                    have_left,
                    pen1,
                    pen2,
                    cx,
                    cy,
                    g0.spec_field(cx, cy),
                )) by {
                    crate::grid::lemma_unit_mul_pub(cx - x0, Direction::Right);
                    crate::grid::lemma_unit_mul_pub(cy - y0, Direction::Down);
                    assert(spec_wall_x(x0 as int, Direction::Right, cx - x0) == cx);
                    assert(spec_wall_y(y0 as int, Direction::Right, cx - x0) == y0 as int);
                    assert(spec_wall_y(y1 as int, Direction::Right, cx - x0) == y1 as int);
                    assert(spec_wall_x(x0 as int, Direction::Down, cy - y0) == x0 as int);
                    assert(spec_wall_x(x1 as int, Direction::Down, cy - y0) == x1 as int);
                    assert(spec_wall_y(y0 as int, Direction::Down, cy - y0) == cy);
                    if spec_on_wall(x0 as int, y0 as int, Direction::Right, w as int, cx, cy) {
                        lemma_wall_within(x0 as int, y0 as int, Direction::Right, w as int, cx, cy);
                    }
                    if spec_on_wall(x1 as int, y0 as int, Direction::Down, h as int, cx, cy) {
                        lemma_wall_within(x1 as int, y0 as int, Direction::Down, h as int, cx, cy);
                    }
                    if spec_on_wall(x0 as int, y1 as int, Direction::Right, w as int, cx, cy) {
                        lemma_wall_within(x0 as int, y1 as int, Direction::Right, w as int, cx, cy);
                    }
                    if spec_on_wall(x0 as int, y0 as int, Direction::Down, h as int, cx, cy) {
                        lemma_wall_within(x0 as int, y0 as int, Direction::Down, h as int, cx, cy);
                    }
                }
            }
        }
    }

    /// Draw one tile at playground cell `(x, y)`: clear its screen
    /// rectangle, then paint a solid tile's walls and face, or a spillage's
    /// sparse pattern.  Only cells of that rectangle change, and every one
    /// of them afterward holds exactly what `spec_tile_cell` describes.
    pub fn paint1(&self, x: i16, y: i16, tt: TileType, grid: &mut Grid)
        requires
            old(grid).wf(),
            0 <= x,
            0 <= y,
            4 * x + 4 <= old(grid).w,
            2 * y + 2 <= old(grid).h,
        ensures
            final(grid).wf(),
            final(grid).w == old(grid).w,
            final(grid).h == old(grid).h,
            forall|cx: int, cy: int|
                old(grid).spec_in_grid(cx, cy) && !spec_tile_screen_rect(x as int, y as int, cx, cy)
                    ==> final(grid).spec_field(cx, cy) == old(grid).spec_field(cx, cy),
            crate::tile::spec_is_solid(tt) ==> forall|k: int|
                0 <= k < 3 ==> final(grid).spec_field(4 * x + 1 + k, 2 * y + 1)
                    == Field::Decoration(crate::tile::spec_tile_face(tt)[k]),
            !crate::tile::spec_is_solid(tt) ==> final(grid).spec_field(4 * x + 2, 2 * y + 1)
                == Field::Decoration(crate::tile::spec_tile_face(tt)[0]),
            forall|cx: int, cy: int|
                old(grid).spec_in_grid(cx, cy) && spec_tile_screen_rect(x as int, y as int, cx, cy)
                    ==> final(grid).spec_field(cx, cy) == spec_tile_cell(
                    *self,
                    x as int,
                    y as int,
                    tt,
                    cx,
                    cy,
                    old(grid).spec_field(cx, cy),
                ),
    {
        let ghost g0 = *old(grid);
        let up = self.at(x, y - 1);
        let right = self.at(x + 1, y);
        let down = self.at(x, y + 1);
        let left = self.at(x - 1, y);

        let tx = 4 * x;
        let ty = 2 * y;
        grid.clear(tx, ty, 5, 3);

        proof {
            lemma_face_len(tt);
        }
        if tt.is_solid() {
            let nu = match up {
                Some(t2) => t2.is_solid(),
                None => false,
            };
            let nr = match right {
                Some(t2) => t2.is_solid(),
                None => false,
            };
            let nd = match down {
                Some(t2) => t2.is_solid(),
                None => false,
            };
            let nl = match left {
                Some(t2) => t2.is_solid(),
                None => false,
            };
            proof {
                assert(nu == spec_solid_at(*self, x as int, y as int - 1));
                assert(nr == spec_solid_at(*self, x as int + 1, y as int));
                assert(nd == spec_solid_at(*self, x as int, y as int + 1));
                assert(nl == spec_solid_at(*self, x as int - 1, y as int));
            }
            Block::paint_tile(tx, ty, 4, 2, grid, nu, nr, nd, nl, Pen::Thin, Pen::Thick);
            grid.paint_decoration(tx + 1, ty + 1, tt.render());
            proof {
                assert forall|cx: int, cy: int|
                    g0.spec_in_grid(cx, cy) && spec_tile_screen_rect(x as int, y as int, cx, cy)
                        implies (grid.spec_field(cx, cy) == spec_tile_cell(
                    *self,
                    x as int,
                    y as int,
                    tt,
                    cx,
                    cy,
                    g0.spec_field(cx, cy),
                )) by {
                }
            }
        } else {
            match tt {
                TileType::Spillage(LiquidType::Glue) => {
                    proof {
                        reveal_strlit(" \u{25bf} \u{25bf} ");
                        reveal_strlit("\u{25bf} \u{25bf} \u{25bf}");
                        assert(" \u{25bf} \u{25bf} "@ =~= spec_spill_row(tt, 0));
                        assert("\u{25bf} \u{25bf} \u{25bf}"@ =~= spec_spill_row(tt, 1));
                        assert(" \u{25bf} \u{25bf} "@ =~= spec_spill_row(tt, 2));
                    }
                    grid.paint_decoration(tx, ty, " \u{25bf} \u{25bf} ");
                    grid.paint_decoration(tx, ty + 1, "\u{25bf} \u{25bf} \u{25bf}");
                    grid.paint_decoration(tx, ty + 2, " \u{25bf} \u{25bf} ");
                },
                _ => {
                    proof {
                        reveal_strlit(" \u{25b4} \u{25b4} ");
                        reveal_strlit("\u{25b4} \u{25b4} \u{25b4}");
                        assert(" \u{25b4} \u{25b4} "@ =~= spec_spill_row(tt, 0));
                        assert("\u{25b4} \u{25b4} \u{25b4}"@ =~= spec_spill_row(tt, 1));
                        assert(" \u{25b4} \u{25b4} "@ =~= spec_spill_row(tt, 2));
                    }
                    grid.paint_decoration(tx, ty, " \u{25b4} \u{25b4} ");
                    grid.paint_decoration(tx, ty + 1, "\u{25b4} \u{25b4} \u{25b4}");
                    grid.paint_decoration(tx, ty + 2, " \u{25b4} \u{25b4} ");
                },
            }
            proof {
                assert forall|cx: int, cy: int|
                    g0.spec_in_grid(cx, cy) && spec_tile_screen_rect(x as int, y as int, cx, cy)
                        implies (grid.spec_field(cx, cy) == spec_tile_cell(
                    *self,
                    x as int,
                    y as int,
                    tt,
                    cx,
                    cy,
                    g0.spec_field(cx, cy),
                )) by {
                    assert(spec_spill_row(tt, cy - 2 * y)[cx - 4 * x] != '\u{0}');
                }
            }
        }
    }

    /// Draw every tile of the block into the grid, spillages first so that
    /// solid tiles overwrite where they overlap.  Only cells covered by some
    /// tile's screen rectangle change; every tile's face ends up visible,
    /// and a tile clear of its neighbors draws its whole rectangle exactly
    /// as `paint1` describes.
    pub fn paint(&self, grid: &mut Grid)
        requires
            old(grid).wf(),
            spec_distinct_tiles(self.tiles@),
            forall|j: int|
                0 <= j < self.tiles@.len() ==> 0 <= self.x + (#[trigger] self.tiles@[j]).0 && 0
                    <= self.y + self.tiles@[j].1 && 4 * (self.x + self.tiles@[j].0) + 4 <= old(grid).w && 2 * (self.y + self.tiles@[j].1) + 2 <= old(grid).h,
        ensures
            final(grid).wf(),
            final(grid).w == old(grid).w,
            final(grid).h == old(grid).h,
            forall|cx: int, cy: int|
                old(grid).spec_in_grid(cx, cy) && !spec_covered(*self, cx, cy) ==> final(grid).spec_field(cx, cy) == old(grid).spec_field(cx, cy),
            forall|j: int, k: int|
                0 <= j < self.tiles@.len() && crate::tile::spec_is_solid(self.tiles@[j].2) && 0
                    <= k < 3 ==> final(grid).spec_field(
                    #[trigger] spec_face_cell_x(*self, j, k),
                    spec_face_cell_y(*self, j),
                ) == Field::Decoration(crate::tile::spec_tile_face(self.tiles@[j].2)[k]),
            forall|j: int|
                0 <= j < self.tiles@.len() && !crate::tile::spec_is_solid(self.tiles@[j].2)
                    ==> final(grid).spec_field(
                    #[trigger] spec_face_cell_x(*self, j, 1),
                    spec_face_cell_y(*self, j),
                ) == Field::Decoration(crate::tile::spec_tile_face(self.tiles@[j].2)[0]),
            forall|j: int, cx: int, cy: int|
                0 <= j < self.tiles@.len() && spec_tile_isolated(*self, j) && old(grid).spec_in_grid(cx, cy)
                    && #[trigger] spec_in_tile_rect(*self, j, cx, cy) ==> final(grid).spec_field(
                    cx,
                    cy,
                ) == spec_tile_cell_at(*self, j, cx, cy, old(grid).spec_field(cx, cy)),
    {
        let ghost g0 = *old(grid);
        let mut i: usize = 0;
        while i < self.tiles.len()
            invariant
                grid.wf(),
                grid.w == g0.w,
                grid.h == g0.h,
                i <= self.tiles@.len(),
                spec_distinct_tiles(self.tiles@),
                forall|j: int|
                    0 <= j < self.tiles@.len() ==> 0 <= self.x + (#[trigger] self.tiles@[j]).0 && 0
                        <= self.y + self.tiles@[j].1 && 4 * (self.x + self.tiles@[j].0) + 4
                        <= g0.w && 2 * (self.y + self.tiles@[j].1) + 2 <= g0.h,
                forall|cx: int, cy: int|
                    g0.spec_in_grid(cx, cy) && !spec_covered(*self, cx, cy) ==> grid.spec_field(
                        cx,
                        cy,
                    ) == g0.spec_field(cx, cy),
                forall|j: int|
                    0 <= j < i && !crate::tile::spec_is_solid(self.tiles@[j].2)
                        ==> grid.spec_field(
                        #[trigger] spec_face_cell_x(*self, j, 1),
                        spec_face_cell_y(*self, j),
                    ) == Field::Decoration(crate::tile::spec_tile_face(self.tiles@[j].2)[0]),
                forall|j: int, cx: int, cy: int|
                    0 <= j < i && !crate::tile::spec_is_solid(self.tiles@[j].2)
                        && spec_tile_isolated(*self, j) && g0.spec_in_grid(cx, cy)
                        && #[trigger] spec_in_tile_rect(*self, j, cx, cy) ==> grid.spec_field(
                        cx,
                        cy,
                    ) == spec_tile_cell_at(*self, j, cx, cy, g0.spec_field(cx, cy)),
                forall|j: int, cx: int, cy: int|
                    0 <= j < self.tiles@.len() && (i <= j || crate::tile::spec_is_solid(
                        self.tiles@[j].2,
                    )) && spec_tile_isolated(*self, j) && g0.spec_in_grid(cx, cy)
                        && #[trigger] spec_in_tile_rect(*self, j, cx, cy) ==> grid.spec_field(
                        cx,
                        cy,
                    ) == g0.spec_field(cx, cy),
            decreases self.tiles@.len() - i,
        {
            let (dx, dy, tt) = self.tiles[i];
            if !tt.is_solid() {
                self.paint1(self.x + dx, self.y + dy, tt, grid);
            }
            proof {
                assert forall|cx: int, cy: int|
                    g0.spec_in_grid(cx, cy) && !spec_covered(*self, cx, cy) implies (
                grid.spec_field(cx, cy) == g0.spec_field(cx, cy)) by {
                    if spec_tile_screen_rect(
                        self.x + self.tiles@[i as int].0,
                        self.y + self.tiles@[i as int].1,
                        cx,
                        cy,
                    ) {
                        assert(spec_covered(*self, cx, cy));
                    }
                }
                assert forall|j: int|
                    0 <= j < i as int + 1 && !crate::tile::spec_is_solid(self.tiles@[j].2)
                        implies (grid.spec_field(
                    #[trigger] spec_face_cell_x(*self, j, 1),
                    spec_face_cell_y(*self, j),
                ) == Field::Decoration(crate::tile::spec_tile_face(self.tiles@[j].2)[0])) by {
                    if j < i as int {
                        assert(!(self.tiles@[j].0 == self.tiles@[i as int].0 && self.tiles@[j].1
                            == self.tiles@[i as int].1));
                    }
                }
                assert forall|j: int, cx: int, cy: int|
                    0 <= j < i as int + 1 && !crate::tile::spec_is_solid(self.tiles@[j].2)
                        && spec_tile_isolated(*self, j) && g0.spec_in_grid(cx, cy)
                        && #[trigger] spec_in_tile_rect(*self, j, cx, cy) implies (grid.spec_field(
                    cx,
                    cy,
                ) == spec_tile_cell_at(*self, j, cx, cy, g0.spec_field(cx, cy))) by {
                    if j != i as int {
                        assert(self.tiles@[j].0 - self.tiles@[i as int].0 >= 2
                            || self.tiles@[j].0 - self.tiles@[i as int].0 <= -2
                            || self.tiles@[j].1 - self.tiles@[i as int].1 >= 2
                            || self.tiles@[j].1 - self.tiles@[i as int].1 <= -2);
                        assert(!spec_tile_screen_rect(
                            self.x + self.tiles@[i as int].0,
                            self.y + self.tiles@[i as int].1,
                            cx,
                            cy,
                        ));
                    }
                }
                assert forall|j: int, cx: int, cy: int|
                    0 <= j < self.tiles@.len() && (i as int + 1 <= j || crate::tile::spec_is_solid(
                        self.tiles@[j].2,
                    )) && spec_tile_isolated(*self, j) && g0.spec_in_grid(cx, cy)
                        && #[trigger] spec_in_tile_rect(*self, j, cx, cy) implies (grid.spec_field(
                    cx,
                    cy,
                ) == g0.spec_field(cx, cy)) by {
                    if j != i as int {
                        assert(self.tiles@[j].0 - self.tiles@[i as int].0 >= 2
                            || self.tiles@[j].0 - self.tiles@[i as int].0 <= -2
                            || self.tiles@[j].1 - self.tiles@[i as int].1 >= 2
                            || self.tiles@[j].1 - self.tiles@[i as int].1 <= -2);
                        assert(!spec_tile_screen_rect(
                            self.x + self.tiles@[i as int].0,
                            self.y + self.tiles@[i as int].1,
                            cx,
                            cy,
                        ));
                    }
                }
            }
            i += 1;
        }
        let mut i: usize = 0;
        while i < self.tiles.len()
            invariant
                grid.wf(),
                grid.w == g0.w,
                grid.h == g0.h,
                i <= self.tiles@.len(),
                spec_distinct_tiles(self.tiles@),
                forall|j: int|
                    0 <= j < self.tiles@.len() ==> 0 <= self.x + (#[trigger] self.tiles@[j]).0 && 0
                        <= self.y + self.tiles@[j].1 && 4 * (self.x + self.tiles@[j].0) + 4
                        <= g0.w && 2 * (self.y + self.tiles@[j].1) + 2 <= g0.h,
                forall|cx: int, cy: int|
                    g0.spec_in_grid(cx, cy) && !spec_covered(*self, cx, cy) ==> grid.spec_field(
                        cx,
                        cy,
                    ) == g0.spec_field(cx, cy),
                forall|j: int|
                    0 <= j < self.tiles@.len() && !crate::tile::spec_is_solid(self.tiles@[j].2)
                        ==> grid.spec_field(
                        #[trigger] spec_face_cell_x(*self, j, 1),
                        spec_face_cell_y(*self, j),
                    ) == Field::Decoration(crate::tile::spec_tile_face(self.tiles@[j].2)[0]),
                forall|j: int, k: int|
                    0 <= j < i && crate::tile::spec_is_solid(self.tiles@[j].2) && 0 <= k < 3
                        ==> grid.spec_field(
                        #[trigger] spec_face_cell_x(*self, j, k),
                        spec_face_cell_y(*self, j),
                    ) == Field::Decoration(crate::tile::spec_tile_face(self.tiles@[j].2)[k]),
                forall|j: int, cx: int, cy: int|
                    0 <= j < self.tiles@.len() && !crate::tile::spec_is_solid(self.tiles@[j].2)
                        && spec_tile_isolated(*self, j) && g0.spec_in_grid(cx, cy)
                        && #[trigger] spec_in_tile_rect(*self, j, cx, cy) ==> grid.spec_field(
                        cx,
                        cy,
                    ) == spec_tile_cell_at(*self, j, cx, cy, g0.spec_field(cx, cy)),
                forall|j: int, cx: int, cy: int|
                    0 <= j < i && crate::tile::spec_is_solid(self.tiles@[j].2)
                        && spec_tile_isolated(*self, j) && g0.spec_in_grid(cx, cy)
                        && #[trigger] spec_in_tile_rect(*self, j, cx, cy) ==> grid.spec_field(
                        cx,
                        cy,
                    ) == spec_tile_cell_at(*self, j, cx, cy, g0.spec_field(cx, cy)),
                forall|j: int, cx: int, cy: int|
                    i <= j < self.tiles@.len() && crate::tile::spec_is_solid(self.tiles@[j].2)
                        && spec_tile_isolated(*self, j) && g0.spec_in_grid(cx, cy)
                        && #[trigger] spec_in_tile_rect(*self, j, cx, cy) ==> grid.spec_field(
                        cx,
                        cy,
                    ) == g0.spec_field(cx, cy),
            decreases self.tiles@.len() - i,
        {
            let (dx, dy, tt) = self.tiles[i];
            if tt.is_solid() {
                self.paint1(self.x + dx, self.y + dy, tt, grid);
            }
            proof {
                assert forall|cx: int, cy: int|
                    g0.spec_in_grid(cx, cy) && !spec_covered(*self, cx, cy) implies (
                grid.spec_field(cx, cy) == g0.spec_field(cx, cy)) by {
                    if spec_tile_screen_rect(
                        self.x + self.tiles@[i as int].0,
                        self.y + self.tiles@[i as int].1,
                        cx,
                        cy,
                    ) {
                        assert(spec_covered(*self, cx, cy));
                    }
                }
                assert forall|j: int|
                    0 <= j < self.tiles@.len() && !crate::tile::spec_is_solid(self.tiles@[j].2)
                        implies (grid.spec_field(
                    #[trigger] spec_face_cell_x(*self, j, 1),
                    spec_face_cell_y(*self, j),
                ) == Field::Decoration(crate::tile::spec_tile_face(self.tiles@[j].2)[0])) by {
                    if j != i as int {
                        assert(!(self.tiles@[j].0 == self.tiles@[i as int].0 && self.tiles@[j].1
                            == self.tiles@[i as int].1));
                    }
                }
                assert forall|j: int, k: int|
                    0 <= j < i as int + 1 && crate::tile::spec_is_solid(self.tiles@[j].2) && 0
                        <= k < 3 implies (grid.spec_field(
                    #[trigger] spec_face_cell_x(*self, j, k),
                    spec_face_cell_y(*self, j),
                ) == Field::Decoration(crate::tile::spec_tile_face(self.tiles@[j].2)[k])) by {
                    if j < i as int {
                        assert(!(self.tiles@[j].0 == self.tiles@[i as int].0 && self.tiles@[j].1
                            == self.tiles@[i as int].1));
                    }
                }
                assert forall|j: int, cx: int, cy: int|
                    0 <= j < self.tiles@.len() && !crate::tile::spec_is_solid(self.tiles@[j].2)
                        && spec_tile_isolated(*self, j) && g0.spec_in_grid(cx, cy)
                        && #[trigger] spec_in_tile_rect(*self, j, cx, cy) implies (grid.spec_field(
                    cx,
                    cy,
                ) == spec_tile_cell_at(*self, j, cx, cy, g0.spec_field(cx, cy))) by {
                    if j != i as int {
                        assert(self.tiles@[j].0 - self.tiles@[i as int].0 >= 2
                            || self.tiles@[j].0 - self.tiles@[i as int].0 <= -2
                            || self.tiles@[j].1 - self.tiles@[i as int].1 >= 2
                            || self.tiles@[j].1 - self.tiles@[i as int].1 <= -2);
                        assert(!spec_tile_screen_rect(
                            self.x + self.tiles@[i as int].0,
                            self.y + self.tiles@[i as int].1,
                            cx,
                            cy,
                        ));
                    }
                }
                assert forall|j: int, cx: int, cy: int|
                    0 <= j < i as int + 1 && crate::tile::spec_is_solid(self.tiles@[j].2)
                        && spec_tile_isolated(*self, j) && g0.spec_in_grid(cx, cy)
                        && #[trigger] spec_in_tile_rect(*self, j, cx, cy) implies (grid.spec_field(
                    cx,
                    cy,
                ) == spec_tile_cell_at(*self, j, cx, cy, g0.spec_field(cx, cy))) by {
                    if j < i as int {
                        assert(self.tiles@[j].0 - self.tiles@[i as int].0 >= 2
                            || self.tiles@[j].0 - self.tiles@[i as int].0 <= -2
                            || self.tiles@[j].1 - self.tiles@[i as int].1 >= 2
                            || self.tiles@[j].1 - self.tiles@[i as int].1 <= -2);
                        assert(!spec_tile_screen_rect(
                            self.x + self.tiles@[i as int].0,
                            self.y + self.tiles@[i as int].1,
                            cx,
                            cy,
                        ));
                    }
                }
                assert forall|j: int, cx: int, cy: int|
                    i as int + 1 <= j < self.tiles@.len() && crate::tile::spec_is_solid(
                        self.tiles@[j].2,
                    ) && spec_tile_isolated(*self, j) && g0.spec_in_grid(cx, cy)
                        && #[trigger] spec_in_tile_rect(*self, j, cx, cy) implies (grid.spec_field(
                    cx,
                    cy,
                ) == g0.spec_field(cx, cy)) by {
                    assert(self.tiles@[j].0 - self.tiles@[i as int].0 >= 2
                        || self.tiles@[j].0 - self.tiles@[i as int].0 <= -2
                        || self.tiles@[j].1 - self.tiles@[i as int].1 >= 2
                        || self.tiles@[j].1 - self.tiles@[i as int].1 <= -2);
                    assert(!spec_tile_screen_rect(
                        self.x + self.tiles@[i as int].0,
                        self.y + self.tiles@[i as int].1,
                        cx,
                        cy,
                    ));
                }
            }
            i += 1;
        }
    }
}


/// Whether the tile at index `j` stands clear of every other tile: at
/// Chebyshev distance two or more, so its screen rectangle overlaps no
/// other tile's.
pub open spec fn spec_tile_isolated(b: Block, j: int) -> bool {
    forall|k: int|
        0 <= k < b.tiles@.len() && k != j ==> (b.tiles@[j].0 - (#[trigger] b.tiles@[k]).0 >= 2
            || b.tiles@[j].0 - b.tiles@[k].0 <= -2 || b.tiles@[j].1 - b.tiles@[k].1 >= 2
            || b.tiles@[j].1 - b.tiles@[k].1 <= -2)
}

/// Whether `(cx, cy)` lies in the screen rectangle of the tile at index
/// `j`.
pub open spec fn spec_in_tile_rect(b: Block, j: int, cx: int, cy: int) -> bool {
    spec_tile_screen_rect(b.x + b.tiles@[j].0, b.y + b.tiles@[j].1, cx, cy)
}

/// What a cell of the tile at index `j` holds after that tile is drawn over
/// a cell whose prior field is `f`.
pub open spec fn spec_tile_cell_at(b: Block, j: int, cx: int, cy: int, f: Field) -> Field {
    spec_tile_cell(b, b.x + b.tiles@[j].0, b.y + b.tiles@[j].1, b.tiles@[j].2, cx, cy, f)
}

/// Whether a block overlaps-and-collides with the border or the playfield:
/// the test that refuses an arriving piece.
pub fn block_collides(block: &Block, bd: &Block, pg: &Block) -> (r: bool)
    ensures
        r == (spec_collides_with(*block, *bd) || spec_collides_with(*block, *pg)),
{
    block.collides_with(bd) || block.collides_with(pg)
}

/// Attempt a proposed transform of the falling block: a move that overlaps
/// the border is refused; one that collides with the playfield is resolved
/// by the collision chemistry and accepted only if nothing is left
/// colliding; otherwise the move simply happens.  A refused move returns
/// the prior block and leaves the playfield untouched.
pub fn try_move(moved: Block, blk: Block, bd: &Block, pg: &mut Block) -> (r: Block)
    requires
        !spec_intersects(moved, *bd) && spec_collides_with(moved, *old(pg)) ==> forall|j: int|
            0 <= j < moved.tiles@.len() ==> match spec_at_tiles(
                old(pg).tiles@,
                old(pg).x as int,
                old(pg).y as int,
                moved.x + (#[trigger] moved.tiles@[j]).0,
                moved.y + moved.tiles@[j].1,
            ) {
                Some(t2) => spec_killer_wf(moved.tiles@[j].2) && spec_killer_wf(t2),
                None => true,
            },
    ensures
        spec_intersects(moved, *bd) ==> r == blk && *final(pg) == *old(pg),
        !spec_intersects(moved, *bd) && !spec_collides_with(moved, *old(pg)) ==> r == moved
            && *final(pg) == *old(pg),
        !spec_intersects(moved, *bd) && spec_collides_with(moved, *old(pg)) ==> ({
            let cr = spec_collide_upto(
                moved.tiles@,
                moved.x as int,
                moved.y as int,
                *old(pg),
                moved.tiles@.len() as int,
            );
            if spec_collides_with_at(
                cr.0,
                moved.x as int,
                moved.y as int,
                cr.1,
                old(pg).x as int,
                old(pg).y as int,
            ) {
                r == blk && *final(pg) == *old(pg)
            } else {
                &&& final(pg).x == old(pg).x
                &&& final(pg).y == old(pg).y
                &&& final(pg).tiles@ == cr.1
                &&& r.x == moved.x
                &&& r.y == moved.y
                &&& r.tiles@ == cr.0
            }
        }),
{
    if moved.intersects(bd) {
        blk
    } else if moved.collides_with(pg) {
        let (moved2, pg2) = Block::collide(moved, pg);
        if moved2.collides_with(&pg2) {
            blk
        } else {
            *pg = pg2;
            moved2
        }
    } else {
        moved
    }
}

} // verus!
