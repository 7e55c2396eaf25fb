//! The verified core of a bulk downloader for slippy-map tiles.
//!
//! A box on the map and a deepest zoom level give a [`TilePyramid`]: one
//! [`TileRange`] for each zoom level, enumerated tile by tile in a fixed
//! order and counted without being enumerated. A [`Run`] over the pyramid
//! hands the tiles out, never more at once than the fetch rate allows; a
//! [`FetchJob`] takes one tile from its URL to its file.
//!
//! Nothing here touches disk, network or clock. A run and a job are told what
//! happened ([`run::RunEvent`], [`job::JobEvent`]) and say what is to be done
//! next ([`run::Directive`], [`job::JobPhase`]); a driver outside this crate
//! does it. What they decide is stated in their contracts and proved.

pub mod job;
pub mod pyramid;
pub mod range;
pub mod report;
pub mod run;
pub mod text;
pub mod tile;
pub mod url;

pub use job::FetchJob;
pub use pyramid::{TileCursor, TilePyramid};
pub use range::TileRange;
pub use run::{fetch, Config, Run};
pub use tile::Tile;
