//! The pyramid of tile ranges over the zoom levels, and the cursor that
//! enumerates its tiles.

use vstd::prelude::*;
use crate::range::{
    lemma_area_zero, lemma_concat_contains, lemma_concat_distinct, lemma_degenerate_is_empty,
    lemma_range_distinct, lemma_range_members, lemma_tiles_len, TileRange,
};
use crate::tile::Tile;

verus! {

/// The deepest zoom level a pyramid can hold.
pub const MAX_ZOOM: u8 = 255;

/// The tiles of the levels from index `i` on, level after level; the level
/// at index `i` is zoom level `i + 1`.
pub open spec fn tiles_from(levels: Seq<TileRange>, i: int) -> Seq<Tile>
    decreases levels.len() - i,
{
    if i < 0 || i >= levels.len() {
        Seq::empty()
    } else {
        levels[i].tiles((i + 1) as u8) + tiles_from(levels, i + 1)
    }
}

/// The sum of the areas of the levels from index `i` on.
pub open spec fn area_from(levels: Seq<TileRange>, i: int) -> nat
    decreases levels.len() - i,
{
    if i < 0 || i >= levels.len() {
        0
    } else {
        levels[i].area() + area_from(levels, i + 1)
    }
}

/// Whether `t` is a tile of the pyramid of these ranges: its zoom level is
/// one of the pyramid's, and it lies between the corners of that level.
pub open spec fn pyramid_holds(levels: Seq<TileRange>, t: Tile) -> bool {
    1 <= t.z <= levels.len() && levels[t.z - 1].holds(t.x, t.y)
}

/// One tile range for each zoom level from 1 up to a deepest one.
pub struct TilePyramid {
    levels: Vec<TileRange>,
}

impl View for TilePyramid {
    type V = Seq<TileRange>;

    /// The ranges, that of zoom level 1 first.
    closed spec fn view(&self) -> Seq<TileRange> {
        self.levels@
    }
}

impl TilePyramid {
    /// No pyramid is deeper than [`MAX_ZOOM`].
    pub open spec fn wf(&self) -> bool {
        self@.len() <= MAX_ZOOM
    }

    /// Every tile of the pyramid in the order of enumeration: by zoom level,
    /// then by column, then by row.
    pub open spec fn tile_seq(&self) -> Seq<Tile> {
        tiles_from(self@, 0)
    }

    /// The number of tiles, from the corners of the ranges alone.
    pub open spec fn area(&self) -> nat {
        area_from(self@, 0)
    }

    /// The pyramid without any level.
    pub fn new() -> (pyramid: TilePyramid)
        ensures
            pyramid.wf(),
            pyramid@ == Seq::<TileRange>::empty(),
    {
        TilePyramid { levels: Vec::new() }
    }

    /// The pyramid over the zoom levels from 1 to `upto_zoom` that covers the
    /// box between the west and east longitudes and the north and south
    /// latitudes, under the projection `project`, which takes a zoom level, a
    /// longitude and a latitude to the column and row of the tile there. At
    /// each level the first corner is the tile of `(west, north)` and the last
    /// that of `(east, south)`: columns grow eastwards, rows southwards.
    pub fn covering<A: Copy, P: Fn(u8, A, A) -> (usize, usize)>(
        north: A,
        east: A,
        south: A,
        west: A,
        upto_zoom: u8,
        project: P,
    ) -> (pyramid: TilePyramid)
        requires
            upto_zoom >= 1,
            forall|z: u8|
                1 <= z <= upto_zoom ==> call_requires(project, (z, west, north)) && call_requires(
                    project,
                    (z, east, south),
                ),
        ensures
            pyramid.wf(),
            pyramid@.len() == upto_zoom,
            forall|i: int|
                0 <= i < upto_zoom ==> {
                    let range = #[trigger] pyramid@[i];
                    &&& call_ensures(
                        project,
                        ((i + 1) as u8, west, north),
                        (range.top_x, range.top_y),
                    )
                    &&& call_ensures(
                        project,
                        ((i + 1) as u8, east, south),
                        (range.bot_x, range.bot_y),
                    )
                },
    {
        let mut levels: Vec<TileRange> = Vec::new();
        let mut zoom: u8 = 0;
        while zoom < upto_zoom
            invariant
                zoom <= upto_zoom,
                levels@.len() == zoom,
                forall|z: u8|
                    1 <= z <= upto_zoom ==> call_requires(project, (z, west, north))
                        && call_requires(project, (z, east, south)),
                forall|i: int|
                    0 <= i < zoom ==> {
                        let range = #[trigger] levels@[i];
                        &&& call_ensures(
                            project,
                            ((i + 1) as u8, west, north),
                            (range.top_x, range.top_y),
                        )
                        &&& call_ensures(
                            project,
                            ((i + 1) as u8, east, south),
                            (range.bot_x, range.bot_y),
                        )
                    },
            decreases upto_zoom - zoom,
        {
            zoom = zoom + 1;
            let (top_x, top_y) = project(zoom, west, north);
            let (bot_x, bot_y) = project(zoom, east, south);
            levels.push(TileRange { top_x, top_y, bot_x, bot_y });
        }
        TilePyramid { levels }
    }

    /// Adds `range` as the next deeper zoom level and returns that level, or
    /// returns `None` and changes nothing where the pyramid already reaches
    /// [`MAX_ZOOM`].
    pub fn push(&mut self, range: TileRange) -> (zoom: Option<u8>)
        requires
            old(self).wf(),
        ensures
            final(self).wf(),
            old(self)@.len() < MAX_ZOOM ==> zoom == Some((old(self)@.len() + 1) as u8)
                && final(self)@ == old(self)@.push(range),
            old(self)@.len() >= MAX_ZOOM ==> zoom is None && final(self)@ == old(self)@,
    {
        if self.levels.len() >= MAX_ZOOM as usize {
            return None;
        }
        self.levels.push(range);
        Some(self.levels.len() as u8)
    }

    /// The deepest zoom level.
    pub fn depth(&self) -> (zoom: u8)
        requires
            self.wf(),
        ensures
            zoom == self@.len(),
    {
        self.levels.len() as u8
    }

    /// The range of zoom level `zoom`, if the pyramid reaches it.
    pub fn level(&self, zoom: u8) -> (range: Option<TileRange>)
        ensures
            1 <= zoom <= self@.len() ==> range == Some(self@[zoom - 1]),
            !(1 <= zoom <= self@.len()) ==> range is None,
    {
        if zoom >= 1 && zoom as usize <= self.levels.len() {
            Some(self.levels[zoom as usize - 1])
        } else {
            None
        }
    }

    /// A cursor before the first tile of the enumeration. Each call starts
    /// the enumeration anew.
    pub fn tiles(&self) -> (cursor: TileCursor<'_>)
        requires
            self.wf(),
        ensures
            cursor.wf(),
            cursor.source() == self@,
            cursor@ == self.tile_seq(),
    {
        let level = seek(&self.levels, 0);
        if level < self.levels.len() {
            let r = self.levels[level];
            TileCursor { pyramid: self, level, x: r.top_x, y: r.top_y }
        } else {
            TileCursor { pyramid: self, level, x: 0, y: 0 }
        }
    }

    /// The number of tiles, or `None` where it does not fit in 64 bits. No
    /// tile is enumerated to find it.
    pub fn count(&self) -> (n: Option<u64>)
        ensures
            match n {
                Some(n) => n == self.area() && n == self.tile_seq().len(),
                None => self.area() > u64::MAX && self.tile_seq().len() > u64::MAX,
            },
    {
        proof {
            lemma_count_is_length(self@);
        }
        let mut total: u64 = 0;
        let mut i: usize = 0;
        while i < self.levels.len()
            invariant
                i <= self.levels.len(),
                total + area_from(self.levels@, i as int) == area_from(self.levels@, 0),
            decreases self.levels.len() - i,
        {
            let sum = match self.levels[i].count() {
                Some(n) => total.checked_add(n),
                None => None,
            };
            match sum {
                Some(sum) => {
                    total = sum;
                },
                None => {
                    proof {
                        lemma_count_is_length(self@);
                    }
                    return None;
                },
            }
            i += 1;
        }
        Some(total)
    }
}

/// The first level at or behind index `from` that holds a tile, or the number
/// of levels where there is none.
fn seek(levels: &Vec<TileRange>, from: usize) -> (at: usize)
    requires
        from <= levels.len(),
    ensures
        from <= at <= levels.len(),
        at < levels.len() ==> !levels@[at as int].degenerate(),
        tiles_from(levels@, from as int) == tiles_from(levels@, at as int),
{
    let mut at = from;
    while at < levels.len() && levels[at].is_empty()
        invariant
            from <= at <= levels.len(),
            tiles_from(levels@, from as int) == tiles_from(levels@, at as int),
        decreases levels.len() - at,
    {
        proof {
            lemma_degenerate_is_empty(levels@[at as int], (at + 1) as u8);
        }
        at += 1;
    }
    at
}

/// A position in the enumeration of the tiles of a pyramid.
pub struct TileCursor<'a> {
    pyramid: &'a TilePyramid,
    level: usize,
    x: usize,
    y: usize,
}

impl<'a> View for TileCursor<'a> {
    type V = Seq<Tile>;

    /// The tiles still to come, the next one first.
    closed spec fn view(&self) -> Seq<Tile> {
        if self.level < self.pyramid@.len() {
            let r = self.pyramid@[self.level as int];
            let z = (self.level + 1) as u8;
            r.column(self.x as int, self.y as int, z) + r.columns(self.x + 1, z) + tiles_from(
                self.pyramid@,
                self.level + 1,
            )
        } else {
            Seq::empty()
        }
    }
}

impl<'a> TileCursor<'a> {
    /// The cursor stands on a tile of its pyramid, or behind the last one.
    pub closed spec fn wf(&self) -> bool {
        &&& self.pyramid.wf()
        &&& self.level <= self.pyramid@.len()
        &&& self.level < self.pyramid@.len() ==> {
            let r = self.pyramid@[self.level as int];
            &&& r.top_x <= self.x <= r.bot_x
            &&& r.top_y <= self.y <= r.bot_y
        }
    }

    /// The ranges of the pyramid that is enumerated.
    pub closed spec fn source(&self) -> Seq<TileRange> {
        self.pyramid@
    }

    /// Whether every tile has been handed out.
    pub fn is_done(&self) -> (done: bool)
        requires
            self.wf(),
        ensures
            done == (self@.len() == 0),
    {
        self.level >= self.pyramid.levels.len()
    }

    /// Hands out the next tiles, `max` of them at most, and moves behind
    /// them.
    pub fn take(&mut self, max: usize) -> (tiles: Vec<Tile>)
        requires
            old(self).wf(),
        ensures
            final(self).wf(),
            final(self).source() == old(self).source(),
            tiles@.len() == if max <= old(self)@.len() {
                max as nat
            } else {
                old(self)@.len()
            },
            tiles@ == old(self)@.take(tiles@.len() as int),
            final(self)@ == old(self)@.skip(tiles@.len() as int),
    {
        let mut tiles: Vec<Tile> = Vec::new();
        while tiles.len() < max
            invariant
                self.wf(),
                self.source() == old(self).source(),
                tiles@.len() <= max,
                tiles@.len() <= old(self)@.len(),
                tiles@ == old(self)@.take(tiles@.len() as int),
                self@ == old(self)@.skip(tiles@.len() as int),
            ensures
                tiles@.len() == max || tiles@.len() == old(self)@.len(),
            decreases max - tiles.len(),
        {
            match self.next() {
                Some(tile) => {
                    tiles.push(tile);
                },
                None => {
                    break ;
                },
            }
        }
        tiles
    }

    /// Hands out the next tile and moves behind it, or returns `None` and
    /// stays where every tile has been handed out.
    pub fn next(&mut self) -> (tile: Option<Tile>)
        requires
            old(self).wf(),
        ensures
            final(self).wf(),
            final(self).source() == old(self).source(),
            old(self)@.len() == 0 ==> tile is None && final(self)@ == old(self)@,
            old(self)@.len() > 0 ==> tile == Some(old(self)@[0]) && final(self)@ == old(
                self,
            )@.drop_first(),
    {
        let levels = &self.pyramid.levels;
        if self.level >= levels.len() {
            return None;
        }
        let r = levels[self.level];
        let z = (self.level + 1) as u8;
        let tile = Tile { x: self.x, y: self.y, z };
        if self.y < r.bot_y {
            self.y = self.y + 1;
        } else if self.x < r.bot_x {
            self.x = self.x + 1;
            self.y = r.top_y;
        } else {
            let level = seek(levels, self.level + 1);
            if level < levels.len() {
                let n = levels[level];
                self.x = n.top_x;
                self.y = n.top_y;
            }
            self.level = level;
        }
        Some(tile)
    }
}

/// The number of tiles found from the corners of the ranges is the number of
/// tiles that the enumeration yields.
pub proof fn lemma_count_is_length(levels: Seq<TileRange>)
    ensures
        tiles_from(levels, 0).len() == area_from(levels, 0),
{
    lemma_count_from_is_length(levels, 0);
}

/// The enumeration depends on the ranges alone: two pyramids of the same
/// ranges, or one pyramid enumerated twice, give the same tiles in the same
/// order.
pub proof fn lemma_enumeration_repeats(a: TilePyramid, b: TilePyramid)
    requires
        a@ == b@,
    ensures
        a.tile_seq() == b.tile_seq(),
        a.area() == b.area(),
{
}

/// Where the corners are the wrong way round at every level, the pyramid
/// holds no tile, and its count is zero.
pub proof fn lemma_degenerate_pyramid_is_empty(levels: Seq<TileRange>)
    requires
        forall|j: int| 0 <= j < levels.len() ==> levels[j].degenerate(),
    ensures
        tiles_from(levels, 0) == Seq::<Tile>::empty(),
        area_from(levels, 0) == 0,
{
    lemma_degenerate_from(levels, 0);
}

/// The enumeration of a pyramid holds exactly the tiles of the pyramid: at
/// each zoom level from 1 to the deepest, those between the corners of that
/// level.
pub proof fn lemma_pyramid_members(levels: Seq<TileRange>, t: Tile)
    requires
        levels.len() <= MAX_ZOOM,
    ensures
        tiles_from(levels, 0).contains(t) <==> pyramid_holds(levels, t),
{
    lemma_from_members(levels, 0, t);
}

/// The enumeration of a pyramid yields no tile twice.
pub proof fn lemma_pyramid_distinct(levels: Seq<TileRange>)
    requires
        levels.len() <= MAX_ZOOM,
    ensures
        tiles_from(levels, 0).no_duplicates(),
{
    lemma_from_distinct(levels, 0);
}

proof fn lemma_count_from_is_length(levels: Seq<TileRange>, i: int)
    ensures
        tiles_from(levels, i).len() == area_from(levels, i),
    decreases levels.len() - i,
{
    if 0 <= i < levels.len() {
        lemma_tiles_len(levels[i], (i + 1) as u8);
        lemma_count_from_is_length(levels, i + 1);
    }
}

proof fn lemma_degenerate_from(levels: Seq<TileRange>, i: int)
    requires
        forall|j: int| 0 <= j < levels.len() ==> levels[j].degenerate(),
    ensures
        tiles_from(levels, i) == Seq::<Tile>::empty(),
        area_from(levels, i) == 0,
    decreases levels.len() - i,
{
    if 0 <= i < levels.len() {
        lemma_degenerate_is_empty(levels[i], (i + 1) as u8);
        lemma_area_zero(levels[i]);
        lemma_degenerate_from(levels, i + 1);
    }
}

proof fn lemma_from_members(levels: Seq<TileRange>, i: int, t: Tile)
    requires
        levels.len() <= MAX_ZOOM,
        0 <= i,
    ensures
        tiles_from(levels, i).contains(t) <==> i + 1 <= t.z && pyramid_holds(levels, t),
    decreases levels.len() - i,
{
    if i < levels.len() {
        lemma_range_members(levels[i], (i + 1) as u8, t);
        lemma_from_members(levels, i + 1, t);
        lemma_concat_contains(levels[i].tiles((i + 1) as u8), tiles_from(levels, i + 1), t);
    }
}

proof fn lemma_from_distinct(levels: Seq<TileRange>, i: int)
    requires
        levels.len() <= MAX_ZOOM,
        0 <= i,
    ensures
        tiles_from(levels, i).no_duplicates(),
    decreases levels.len() - i,
{
    if i < levels.len() {
        let first = levels[i].tiles((i + 1) as u8);
        let rest = tiles_from(levels, i + 1);
        lemma_range_distinct(levels[i], (i + 1) as u8);
        lemma_from_distinct(levels, i + 1);
        assert forall|t: Tile| !(first.contains(t) && rest.contains(t)) by {
            lemma_range_members(levels[i], (i + 1) as u8, t);
            lemma_from_members(levels, i + 1, t);
        }
        lemma_concat_distinct(first, rest);
    }
}

} // verus!
