//! What the operator is told: one line for each tile that failed.

use vstd::prelude::*;
use crate::job::{FetchError, Fetched};
use crate::run::FatalError;
use crate::text::{decimal, push_decimal};
use crate::tile::Tile;

verus! {

/// The coordinates of `tile` as text: column, row and zoom level, with an
/// `x` between them.
pub open spec fn coordinates(tile: Tile) -> Seq<char> {
    decimal(tile.x as nat) + "x"@ + decimal(tile.y as nat) + "x"@ + decimal(tile.z as nat)
}

/// Why the fetch of `tile` failed, as text.
pub open spec fn cause(error: FetchError, tile: Tile) -> Seq<char> {
    match error {
        FetchError::CreateDir => "failed creating output directory for tile "@ + coordinates(tile),
        FetchError::ForbiddenUrl => "only local HTTP tile URLs are supported"@,
        FetchError::Transport => "failed fetching tile "@ + coordinates(tile),
        FetchError::Status(status) => "received invalid status code fetching tile "@ + coordinates(
            tile,
        ) + ": "@ + decimal(status as nat),
        FetchError::Body => "failed reading the body of tile "@ + coordinates(tile),
        FetchError::Write => "failed saving tile "@ + coordinates(tile) + " to disk"@,
    }
}

/// The line that reports the failure of `tile`: it names the tile by zoom
/// level, column and row, and gives the cause.
pub open spec fn failure_line(tile: Tile, error: FetchError) -> Seq<char> {
    "Failed fetching tile "@ + decimal(tile.z as nat) + "x"@ + decimal(tile.x as nat) + "x"@
        + decimal(tile.y as nat) + ": "@ + cause(error, tile)
}

/// Why the run ended before its first fetch, as text.
pub open spec fn fatal_text(error: FatalError) -> Seq<char> {
    match error {
        FatalError::OutputNotDirectory => "output must be a directory"@,
        FatalError::CreateRoot => "failed to create root output directory"@,
        FatalError::Client => "failed creating HTTP client"@,
    }
}

fn push_coordinates(out: &mut String, tile: Tile)
    ensures
        final(out)@ == old(out)@ + coordinates(tile),
{
    push_decimal(out, tile.x as u64);
    out.append("x");
    push_decimal(out, tile.y as u64);
    out.append("x");
    push_decimal(out, tile.z as u64);
}

fn push_cause(out: &mut String, error: FetchError, tile: Tile)
    ensures
        final(out)@ == old(out)@ + cause(error, tile),
{
    match error {
        FetchError::CreateDir => {
            out.append("failed creating output directory for tile ");
            push_coordinates(out, tile);
        },
        FetchError::ForbiddenUrl => {
            out.append("only local HTTP tile URLs are supported");
        },
        FetchError::Transport => {
            out.append("failed fetching tile ");
            push_coordinates(out, tile);
        },
        FetchError::Status(status) => {
            out.append("received invalid status code fetching tile ");
            push_coordinates(out, tile);
            out.append(": ");
            push_decimal(out, status as u64);
        },
        FetchError::Body => {
            out.append("failed reading the body of tile ");
            push_coordinates(out, tile);
        },
        FetchError::Write => {
            out.append("failed saving tile ");
            push_coordinates(out, tile);
            out.append(" to disk");
        },
    }
}

impl FetchError {
    /// Computes [`cause`].
    pub fn message(&self, tile: Tile) -> (text: String)
        ensures
            text@ == cause(*self, tile),
    {
        let mut out = String::new();
        push_cause(&mut out, *self, tile);
        out
    }
}

impl FatalError {
    /// Computes [`fatal_text`].
    pub fn message(&self) -> (text: String)
        ensures
            text@ == fatal_text(*self),
    {
        match self {
            FatalError::OutputNotDirectory => "output must be a directory".to_owned(),
            FatalError::CreateRoot => "failed to create root output directory".to_owned(),
            FatalError::Client => "failed creating HTTP client".to_owned(),
        }
    }
}

/// The line to print for a tile whose fetch has ended: [`failure_line`] for
/// one that failed, nothing for one that did not.
pub fn report(tile: Tile, outcome: Result<Fetched, FetchError>) -> (line: Option<String>)
    ensures
        match outcome {
            Ok(_) => line is None,
            Err(error) => line is Some && line->0@ == failure_line(tile, error),
        },
{
    match outcome {
        Ok(_) => None,
        Err(error) => {
            let mut out = String::new();
            out.append("Failed fetching tile ");
            push_decimal(&mut out, tile.z as u64);
            out.append("x");
            push_decimal(&mut out, tile.x as u64);
            out.append("x");
            push_decimal(&mut out, tile.y as u64);
            out.append(": ");
            push_cause(&mut out, error, tile);
            Some(out)
        },
    }
}

} // verus!
