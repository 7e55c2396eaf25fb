//! The tiles of one zoom level between two corners, and the order in which
//! they are enumerated.

use vstd::prelude::*;
use crate::tile::Tile;

verus! {

/// The tiles of one zoom level that lie between two corners, both included:
/// columns `top_x ..= bot_x`, rows `top_y ..= bot_y`. A range whose corners
/// are the wrong way round in either direction holds no tile.
#[derive(Clone, Copy, Debug, PartialEq, Eq, Structural)]
pub struct TileRange {
    pub top_x: usize,
    pub top_y: usize,
    pub bot_x: usize,
    pub bot_y: usize,
}

impl TileRange {
    /// Whether the corners are the wrong way round.
    pub open spec fn degenerate(self) -> bool {
        self.top_x > self.bot_x || self.top_y > self.bot_y
    }

    /// Whether the tile at column `x` and row `y` lies between the corners.
    pub open spec fn holds(self, x: usize, y: usize) -> bool {
        self.top_x <= x <= self.bot_x && self.top_y <= y <= self.bot_y
    }

    /// The number of columns.
    pub open spec fn width(self) -> nat {
        if self.top_x <= self.bot_x {
            (self.bot_x - self.top_x + 1) as nat
        } else {
            0
        }
    }

    /// The number of rows.
    pub open spec fn height(self) -> nat {
        if self.top_y <= self.bot_y {
            (self.bot_y - self.top_y + 1) as nat
        } else {
            0
        }
    }

    /// The number of tiles, from the corners alone.
    pub open spec fn area(self) -> nat {
        self.width() * self.height()
    }

    /// The tiles of column `x` from row `from_y` down to the last row.
    pub open spec fn column(self, x: int, from_y: int, z: u8) -> Seq<Tile> {
        Seq::new(
            if from_y <= self.bot_y {
                (self.bot_y - from_y + 1) as nat
            } else {
                0
            },
            |i: int| Tile { x: x as usize, y: (from_y + i) as usize, z },
        )
    }

    /// The tiles of the columns from `from_x` to the last, column after column.
    pub open spec fn columns(self, from_x: int, z: u8) -> Seq<Tile>
        decreases self.bot_x - from_x + 1,
    {
        if from_x > self.bot_x {
            Seq::empty()
        } else {
            self.column(from_x, self.top_y as int, z) + self.columns(from_x + 1, z)
        }
    }

    /// The tiles of the range at zoom level `z`, in the order of enumeration:
    /// by column, and by row within a column.
    pub open spec fn tiles(self, z: u8) -> Seq<Tile> {
        self.columns(self.top_x as int, z)
    }

    /// The range between the corners `(top_x, top_y)` and `(bot_x, bot_y)`.
    pub fn new(top_x: usize, top_y: usize, bot_x: usize, bot_y: usize) -> (range: TileRange)
        ensures
            range == (TileRange { top_x, top_y, bot_x, bot_y }),
    {
        TileRange { top_x, top_y, bot_x, bot_y }
    }

    /// Whether the range holds no tile.
    pub fn is_empty(&self) -> (empty: bool)
        ensures
            empty == self.degenerate(),
            empty == (self.area() == 0),
    {
        proof {
            lemma_area_zero(*self);
        }
        self.top_x > self.bot_x || self.top_y > self.bot_y
    }

    /// The number of tiles, or `None` where it does not fit in 64 bits.
    pub fn count(&self) -> (n: Option<u64>)
        ensures
            match n {
                Some(n) => n == self.area(),
                None => self.area() > u64::MAX,
            },
    {
        if self.top_x > self.bot_x || self.top_y > self.bot_y {
            proof {
                lemma_area_zero(*self);
            }
            return Some(0);
        }
        let w1: u64 = (self.bot_x - self.top_x) as u64;
        let h1: u64 = (self.bot_y - self.top_y) as u64;
        proof {
            lemma_area_bounds(*self);
        }
        match (w1.checked_add(1), h1.checked_add(1)) {
            (Some(w), Some(h)) => w.checked_mul(h),
            _ => None,
        }
    }
}

/// A range holds no tile exactly when its corners are the wrong way round.
pub proof fn lemma_area_zero(r: TileRange)
    ensures
        r.degenerate() <==> r.area() == 0,
{
    let w = r.width();
    let h = r.height();
    assert(w * h == 0 <==> (w == 0 || h == 0)) by (nonlinear_arith);
}

/// The enumeration of a range is as long as its area says.
pub proof fn lemma_tiles_len(r: TileRange, z: u8)
    ensures
        r.tiles(z).len() == r.area(),
{
    if r.top_x <= r.bot_x {
        lemma_columns_len(r, r.top_x as int, z);
    } else {
        let h = r.height();
    }
}

/// A range whose corners are the wrong way round yields no tile.
pub proof fn lemma_degenerate_is_empty(r: TileRange, z: u8)
    requires
        r.degenerate(),
    ensures
        r.tiles(z) == Seq::<Tile>::empty(),
{
    lemma_area_zero(r);
    lemma_tiles_len(r, z);
}

/// The enumeration of a range at zoom level `z` holds the tiles of that
/// level that lie between the corners, and no others.
pub proof fn lemma_range_members(r: TileRange, z: u8, t: Tile)
    ensures
        r.tiles(z).contains(t) <==> t.z == z && r.holds(t.x, t.y),
{
    lemma_columns_members(r, r.top_x as int, z, t);
}

/// The enumeration of a range yields no tile twice.
pub proof fn lemma_range_distinct(r: TileRange, z: u8)
    ensures
        r.tiles(z).no_duplicates(),
{
    lemma_columns_distinct(r, r.top_x as int, z);
}

/// In the enumeration of a range, the tile in column `col` and row `row`,
/// both counted from the first corner, comes at position
/// `col * height + row`: column after column, and row after row within one.
pub proof fn lemma_tile_at(r: TileRange, z: u8, col: int, row: int)
    requires
        0 <= col < r.width(),
        0 <= row < r.height(),
    ensures
        0 <= col * r.height() + row < r.tiles(z).len(),
        r.tiles(z)[col * r.height() + row] == (Tile {
            x: (r.top_x + col) as usize,
            y: (r.top_y + row) as usize,
            z,
        }),
{
    lemma_columns_at(r, r.top_x as int, z, col, row);
}

proof fn lemma_area_bounds(r: TileRange)
    requires
        !r.degenerate(),
    ensures
        r.area() >= r.width(),
        r.area() >= r.height(),
{
    let w = r.width();
    let h = r.height();
    assert(w * h >= w && w * h >= h) by (nonlinear_arith)
        requires
            w >= 1,
            h >= 1,
    ;
}

proof fn lemma_columns_len(r: TileRange, from_x: int, z: u8)
    requires
        from_x <= r.bot_x + 1,
    ensures
        r.columns(from_x, z).len() == (r.bot_x + 1 - from_x) * r.height(),
    decreases r.bot_x - from_x + 1,
{
    let h = r.height();
    if from_x > r.bot_x {
        assert(0 * h == 0) by (nonlinear_arith);
    } else {
        lemma_columns_len(r, from_x + 1, z);
        let k = r.bot_x - from_x;
        assert(h + k * h == (k + 1) * h) by (nonlinear_arith);
    }
}

pub(crate) proof fn lemma_concat_contains<A>(a: Seq<A>, b: Seq<A>, t: A)
    ensures
        (a + b).contains(t) <==> a.contains(t) || b.contains(t),
{
    if a.contains(t) {
        let i = choose|i: int| 0 <= i < a.len() && a[i] == t;
        assert((a + b)[i] == t);
    }
    if b.contains(t) {
        let i = choose|i: int| 0 <= i < b.len() && b[i] == t;
        assert((a + b)[a.len() + i] == t);
    }
    if (a + b).contains(t) {
        let i = choose|i: int| 0 <= i < (a + b).len() && (a + b)[i] == t;
        assert(i < a.len() ==> a[i] == t);
    }
}

pub(crate) proof fn lemma_concat_distinct<A>(a: Seq<A>, b: Seq<A>)
    requires
        a.no_duplicates(),
        b.no_duplicates(),
        forall|t: A| !(a.contains(t) && b.contains(t)),
    ensures
        (a + b).no_duplicates(),
{
    assert forall|i: int, j: int| 0 <= i < j < (a + b).len() implies (a + b)[i] != (a + b)[j] by {
        if i < a.len() <= j {
            assert(b.contains(b[j - a.len()]));
        }
    }
}

proof fn lemma_column_members(r: TileRange, x: int, z: u8, t: Tile)
    requires
        0 <= x <= usize::MAX,
    ensures
        r.column(x, r.top_y as int, z).contains(t) <==> t.x == x && t.z == z && r.top_y <= t.y
            <= r.bot_y,
{
    let column = r.column(x, r.top_y as int, z);
    if t.x == x && t.z == z && r.top_y <= t.y <= r.bot_y {
        assert(column[t.y - r.top_y] == t);
    }
}

proof fn lemma_column_distinct(r: TileRange, x: int, z: u8)
    ensures
        r.column(x, r.top_y as int, z).no_duplicates(),
{
}

proof fn lemma_columns_members(r: TileRange, from_x: int, z: u8, t: Tile)
    requires
        0 <= from_x,
    ensures
        r.columns(from_x, z).contains(t) <==> t.z == z && from_x <= t.x <= r.bot_x && r.top_y
            <= t.y <= r.bot_y,
    decreases r.bot_x - from_x + 1,
{
    if from_x <= r.bot_x {
        lemma_column_members(r, from_x, z, t);
        lemma_columns_members(r, from_x + 1, z, t);
        lemma_concat_contains(r.column(from_x, r.top_y as int, z), r.columns(from_x + 1, z), t);
    }
}

proof fn lemma_columns_distinct(r: TileRange, from_x: int, z: u8)
    requires
        0 <= from_x,
    ensures
        r.columns(from_x, z).no_duplicates(),
    decreases r.bot_x - from_x + 1,
{
    if from_x <= r.bot_x {
        let first = r.column(from_x, r.top_y as int, z);
        let rest = r.columns(from_x + 1, z);
        lemma_columns_distinct(r, from_x + 1, z);
        assert forall|t: Tile| !(first.contains(t) && rest.contains(t)) by {
            lemma_column_members(r, from_x, z, t);
            lemma_columns_members(r, from_x + 1, z, t);
        }
        lemma_column_distinct(r, from_x, z);
        lemma_concat_distinct(first, rest);
    }
}

proof fn lemma_columns_at(r: TileRange, from_x: int, z: u8, col: int, row: int)
    requires
        0 <= from_x,
        0 <= col <= r.bot_x - from_x,
        0 <= row < r.height(),
    ensures
        0 <= col * r.height() + row < r.columns(from_x, z).len(),
        r.columns(from_x, z)[col * r.height() + row] == (Tile {
            x: (from_x + col) as usize,
            y: (r.top_y + row) as usize,
            z,
        }),
    decreases col,
{
    let h = r.height() as int;
    lemma_columns_len(r, from_x + 1, z);
    if col == 0 {
        assert(0 * h + row == row) by (nonlinear_arith);
    } else {
        lemma_columns_at(r, from_x + 1, z, col - 1, row);
        assert(col * h + row == h + ((col - 1) * h + row)) by (nonlinear_arith);
    }
}

} // verus!
