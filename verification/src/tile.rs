//! The tile address, and the tile's place on disk.

use vstd::prelude::*;
use crate::text::{decimal, lemma_decimal_injective, numeral};

verus! {

/// A slippy-map tile: column `x` and row `y` of the grid at zoom level `z`.
#[derive(Clone, Copy, Debug, PartialEq, Eq, Structural)]
pub struct Tile {
    pub x: usize,
    pub y: usize,
    pub z: u8,
}

/// The place of a tile below the output directory: the directory of its
/// zoom level, in it the directory of its column, in it the file of its row.
#[derive(Debug)]
pub struct TilePath {
    pub zoom: String,
    pub column: String,
    pub row: String,
}

impl Tile {
    /// The tile at column `x`, row `y` of zoom level `z`.
    pub fn new(x: usize, y: usize, z: u8) -> (tile: Tile)
        ensures
            tile == (Tile { x, y, z }),
    {
        Tile { x, y, z }
    }

    /// The place of the tile below the output directory: the three names
    /// are the decimal numerals of its zoom level, its column and its row.
    /// The file has no extension.
    pub fn path(&self) -> (path: TilePath)
        ensures
            path.zoom@ == decimal(self.z as nat),
            path.column@ == decimal(self.x as nat),
            path.row@ == decimal(self.y as nat),
    {
        TilePath {
            zoom: numeral(self.z as u64),
            column: numeral(self.x as u64),
            row: numeral(self.y as u64),
        }
    }
}

/// Tiles with the same place are the same tile: no two tiles share a file.
pub proof fn lemma_places_differ(a: Tile, b: Tile)
    requires
        decimal(a.z as nat) == decimal(b.z as nat),
        decimal(a.x as nat) == decimal(b.x as nat),
        decimal(a.y as nat) == decimal(b.y as nat),
    ensures
        a == b,
{
    lemma_decimal_injective(a.z as nat, b.z as nat);
    lemma_decimal_injective(a.x as nat, b.x as nat);
    lemma_decimal_injective(a.y as nat, b.y as nat);
}

} // verus!
