//! The run over all tiles of a pyramid, as a machine that is told what
//! happened and says what is to be done next: what has to be in place before
//! the first fetch, how many fetches may be under way at once, and when the
//! run is over.

use vstd::prelude::*;
use crate::job::{FetchError, FetchJob, Fetched, JobState};
use crate::pyramid::{lemma_pyramid_distinct, tiles_from, TileCursor, TilePyramid, MAX_ZOOM};
use crate::range::TileRange;
use crate::tile::Tile;

verus! {

/// What stands at the path of the output directory.
#[derive(Clone, Copy, Debug, PartialEq, Eq, Structural)]
pub enum PathKind {
    /// Nothing.
    Missing,
    /// A directory.
    Directory,
    /// Something that is not a directory.
    Other,
}

/// Why a run ended before its first fetch.
#[derive(Clone, Copy, Debug, PartialEq, Eq, Structural)]
pub enum FatalError {
    /// The output path exists and is not a directory.
    OutputNotDirectory,
    /// The output directory could not be created.
    CreateRoot,
    /// The HTTP client could not be built.
    Client,
}

/// What a run waits for.
#[derive(Clone, Copy, Debug, PartialEq, Eq)]
pub enum RunPhase {
    /// To learn what stands at the output path.
    ProbeRoot,
    /// The creation of the output directory.
    CreateRoot,
    /// The HTTP client.
    BuildClient,
    /// The fetches.
    Fetching,
    /// Nothing: the run is over.
    Done(Result<(), FatalError>),
}

/// What the driver reports back.
#[derive(Clone, Copy, Debug, PartialEq, Eq)]
pub enum RunEvent {
    RootProbed(PathKind),
    RootCreated,
    RootCreateFailed,
    ClientBuilt,
    ClientFailed,
    /// The fetch of this tile has ended, in this way.
    TileDone(Tile, Result<Fetched, FetchError>),
}

/// What the driver is to do next.
#[derive(Clone, Copy, Debug, PartialEq, Eq)]
pub enum Directive {
    /// Find out what stands at the output path.
    ProbeRoot,
    /// Create the output directory, with its ancestors.
    CreateRoot,
    /// Build the HTTP client that all fetches share.
    BuildClient,
    /// Start the fetch of this tile, then ask again.
    Start(Tile),
    /// Wait until a fetch has ended, and report it.
    Wait,
    /// Stop: the run is over, with this result.
    Finish(Result<(), FatalError>),
}

/// The state of a run.
#[verifier::ext_equal]
pub struct RunState {
    /// What the run waits for.
    pub phase: RunPhase,
    /// The tiles whose fetch has not been started, in the order of
    /// enumeration.
    pub pending: Seq<Tile>,
    /// The number of fetches that were started and have not ended.
    pub in_flight: nat,
    /// The most fetches that may be under way at once.
    pub limit: nat,
}

impl RunState {
    /// The state before anything has happened.
    pub open spec fn initial(tiles: Seq<Tile>, limit: nat) -> RunState {
        RunState { phase: RunPhase::ProbeRoot, pending: tiles, in_flight: 0, limit }
    }

    /// No more fetches are under way than the limit allows, and none
    /// outside the fetching phase.
    pub open spec fn sound(self) -> bool {
        &&& self.limit >= 1
        &&& self.in_flight <= self.limit
        &&& !(self.phase is Fetching) ==> self.in_flight == 0
    }

    /// The state after `event`. An event that does not answer what the run
    /// waits for changes nothing. How a fetch ended makes no difference.
    pub open spec fn handle(self, event: RunEvent) -> RunState {
        match (self.phase, event) {
            (RunPhase::ProbeRoot, RunEvent::RootProbed(PathKind::Missing)) => RunState {
                phase: RunPhase::CreateRoot,
                ..self
            },
            (RunPhase::ProbeRoot, RunEvent::RootProbed(PathKind::Directory)) => RunState {
                phase: RunPhase::BuildClient,
                ..self
            },
            (RunPhase::ProbeRoot, RunEvent::RootProbed(PathKind::Other)) => RunState {
                phase: RunPhase::Done(Err(FatalError::OutputNotDirectory)),
                ..self
            },
            (RunPhase::CreateRoot, RunEvent::RootCreated) => RunState {
                phase: RunPhase::BuildClient,
                ..self
            },
            (RunPhase::CreateRoot, RunEvent::RootCreateFailed) => RunState {
                phase: RunPhase::Done(Err(FatalError::CreateRoot)),
                ..self
            },
            (RunPhase::BuildClient, RunEvent::ClientBuilt) => RunState {
                phase: RunPhase::Fetching,
                ..self
            },
            (RunPhase::BuildClient, RunEvent::ClientFailed) => RunState {
                phase: RunPhase::Done(Err(FatalError::Client)),
                ..self
            },
            (RunPhase::Fetching, RunEvent::TileDone(_, _)) => if self.in_flight > 0 {
                RunState { in_flight: (self.in_flight - 1) as nat, ..self }
            } else {
                self
            },
            _ => self,
        }
    }

    /// What is to be done next, and the state after saying so. While
    /// fetching: the next pending tile is started if the limit allows one
    /// more; else the run waits if a fetch is under way; else it is over, and
    /// has succeeded.
    pub open spec fn poll(self) -> (RunState, Directive) {
        match self.phase {
            RunPhase::ProbeRoot => (self, Directive::ProbeRoot),
            RunPhase::CreateRoot => (self, Directive::CreateRoot),
            RunPhase::BuildClient => (self, Directive::BuildClient),
            RunPhase::Fetching => if self.pending.len() > 0 && self.in_flight < self.limit {
                (
                    RunState {
                        pending: self.pending.drop_first(),
                        in_flight: self.in_flight + 1,
                        ..self
                    },
                    Directive::Start(self.pending[0]),
                )
            } else if self.in_flight > 0 {
                (self, Directive::Wait)
            } else {
                (RunState { phase: RunPhase::Done(Ok(())), ..self }, Directive::Finish(Ok(())))
            },
            RunPhase::Done(result) => (self, Directive::Finish(result)),
        }
    }
}

/// What a run is made for.
pub struct Config {
    /// The tiles to fetch.
    pub pyramid: TilePyramid,
    /// The most fetches that may be under way at once: at least one.
    pub fetch_rate: u8,
    /// The URL of a tile, with `{x}`, `{y}` and `{z}` where the tile's
    /// coordinates go.
    pub url: String,
}

impl Config {
    /// The pyramid is well-formed and the fetch rate is at least one.
    pub open spec fn wf(&self) -> bool {
        &&& self.pyramid.wf()
        &&& self.fetch_rate >= 1
    }

    /// A cursor before the first tile to fetch.
    pub fn tiles(&self) -> (cursor: TileCursor<'_>)
        requires
            self.pyramid.wf(),
        ensures
            cursor.wf(),
            cursor.source() == self.pyramid@,
            cursor@ == self.pyramid.tile_seq(),
    {
        self.pyramid.tiles()
    }
}

/// A run over the tiles of a pyramid.
pub struct Run<'a> {
    phase: RunPhase,
    cursor: TileCursor<'a>,
    in_flight: u8,
    limit: u8,
    url: &'a str,
}

impl<'a> View for Run<'a> {
    type V = RunState;

    closed spec fn view(&self) -> RunState {
        RunState {
            phase: self.phase,
            pending: self.cursor@,
            in_flight: self.in_flight as nat,
            limit: self.limit as nat,
        }
    }
}

/// The run that `cfg` asks for, before anything has happened.
pub fn fetch(cfg: &Config) -> (run: Run<'_>)
    requires
        cfg.wf(),
    ensures
        run.wf(),
        run@ == RunState::initial(cfg.pyramid.tile_seq(), cfg.fetch_rate as nat),
        run.template() == cfg.url@,
{
    Run {
        phase: RunPhase::ProbeRoot,
        cursor: cfg.tiles(),
        in_flight: 0,
        limit: cfg.fetch_rate,
        url: cfg.url.as_str(),
    }
}

impl<'a> Run<'a> {
    /// The cursor over the pending tiles is well-formed.
    pub closed spec fn cursor_wf(&self) -> bool {
        self.cursor.wf()
    }

    /// The state is sound, and so is the cursor behind it.
    pub open spec fn wf(&self) -> bool {
        &&& self.cursor_wf()
        &&& self@.sound()
    }

    /// The URL template of the run.
    pub closed spec fn template(&self) -> Seq<char> {
        self.url@
    }

    /// The job that fetches `tile` from its URL under the template of the
    /// run.
    pub fn job(&self, tile: Tile) -> (job: FetchJob)
        ensures
            job@ == JobState::initial(self.template(), tile),
    {
        tile.fetch_from(self.url)
    }

    /// The number of fetches under way.
    pub fn in_flight(&self) -> (n: u8)
        ensures
            n == self@.in_flight,
    {
        self.in_flight
    }

    /// Whether the run is over.
    pub fn is_done(&self) -> (done: bool)
        ensures
            done == (self@.phase is Done),
    {
        match self.phase {
            RunPhase::Done(_) => true,
            _ => false,
        }
    }

    /// Takes in what the driver reports, as [`RunState::handle`] says.
    pub fn handle(&mut self, event: RunEvent)
        requires
            old(self).wf(),
        ensures
            final(self).wf(),
            final(self).template() == old(self).template(),
            final(self)@ == old(self)@.handle(event),
    {
        match (self.phase, event) {
            (RunPhase::ProbeRoot, RunEvent::RootProbed(PathKind::Missing)) => {
                self.phase = RunPhase::CreateRoot;
            },
            (RunPhase::ProbeRoot, RunEvent::RootProbed(PathKind::Directory)) => {
                self.phase = RunPhase::BuildClient;
            },
            (RunPhase::ProbeRoot, RunEvent::RootProbed(PathKind::Other)) => {
                self.phase = RunPhase::Done(Err(FatalError::OutputNotDirectory));
            },
            (RunPhase::CreateRoot, RunEvent::RootCreated) => {
                self.phase = RunPhase::BuildClient;
            },
            (RunPhase::CreateRoot, RunEvent::RootCreateFailed) => {
                self.phase = RunPhase::Done(Err(FatalError::CreateRoot));
            },
            (RunPhase::BuildClient, RunEvent::ClientBuilt) => {
                self.phase = RunPhase::Fetching;
            },
            (RunPhase::BuildClient, RunEvent::ClientFailed) => {
                self.phase = RunPhase::Done(Err(FatalError::Client));
            },
            (RunPhase::Fetching, RunEvent::TileDone(_, _)) => {
                if self.in_flight > 0 {
                    self.in_flight = self.in_flight - 1;
                }
            },
            _ => {},
        }
    }

    /// Says what is to be done next, as [`RunState::poll`] says.
    pub fn poll(&mut self) -> (directive: Directive)
        requires
            old(self).wf(),
        ensures
            final(self).wf(),
            final(self).template() == old(self).template(),
            (final(self)@, directive) == old(self)@.poll(),
    {
        match self.phase {
            RunPhase::ProbeRoot => Directive::ProbeRoot,
            RunPhase::CreateRoot => Directive::CreateRoot,
            RunPhase::BuildClient => Directive::BuildClient,
            RunPhase::Fetching => {
                if self.in_flight < self.limit {
                    match self.cursor.next() {
                        Some(tile) => {
                            self.in_flight = self.in_flight + 1;
                            return Directive::Start(tile);
                        },
                        None => {},
                    }
                }
                if self.in_flight > 0 {
                    Directive::Wait
                } else {
                    self.phase = RunPhase::Done(Ok(()));
                    Directive::Finish(Ok(()))
                }
            },
            RunPhase::Done(result) => Directive::Finish(result),
        }
    }
}

/// One thing that happens to a run: it is asked what to do next, or it is
/// told of an event.
pub enum RunInput {
    Poll,
    Event(RunEvent),
}

/// Whether two inputs are the same but for how a fetch ended.
pub open spec fn alike(a: RunInput, b: RunInput) -> bool {
    match (a, b) {
        (RunInput::Event(RunEvent::TileDone(t, _)), RunInput::Event(RunEvent::TileDone(u, _))) => t
            == u,
        _ => a == b,
    }
}

impl RunState {
    /// The state after one input.
    pub open spec fn apply(self, input: RunInput) -> RunState {
        match input {
            RunInput::Poll => self.poll().0,
            RunInput::Event(event) => self.handle(event),
        }
    }

    /// The state after `inputs`, one after the other.
    pub open spec fn after(self, inputs: Seq<RunInput>) -> RunState
        decreases inputs.len(),
    {
        if inputs.len() == 0 {
            self
        } else {
            self.after(inputs.drop_last()).apply(inputs.last())
        }
    }

    /// The tiles whose fetch the run has asked to start in the course of
    /// `inputs`, in the order in which it asked.
    pub open spec fn started(self, inputs: Seq<RunInput>) -> Seq<Tile>
        decreases inputs.len(),
    {
        if inputs.len() == 0 {
            Seq::empty()
        } else {
            let earlier = self.started(inputs.drop_last());
            match (inputs.last(), self.after(inputs.drop_last()).poll().1) {
                (RunInput::Poll, Directive::Start(tile)) => earlier.push(tile),
                _ => earlier,
            }
        }
    }
}

/// Whatever happens in whatever order, no more fetches are under way than
/// the limit allows.
pub proof fn lemma_in_flight_bounded(s: RunState, inputs: Seq<RunInput>)
    requires
        s.sound(),
    ensures
        s.after(inputs).sound(),
        s.after(inputs).in_flight <= s.limit,
        s.after(inputs).limit == s.limit,
    decreases inputs.len(),
{
    if inputs.len() > 0 {
        lemma_in_flight_bounded(s, inputs.drop_last());
    }
}

/// A run waits only where it can start nothing: the limit is reached, or no
/// tile is pending. And it never waits for nothing: where it waits, a fetch
/// is under way.
pub proof fn lemma_waits_only_when_full(s: RunState)
    requires
        s.sound(),
        s.poll().1 == Directive::Wait,
    ensures
        s.in_flight == s.limit || s.pending.len() == 0,
        s.in_flight >= 1,
        s.poll().0 == s,
{
}

/// The fetches are started in the order of enumeration, each tile once:
/// the tiles started so far, followed by those still pending, are the tiles
/// that were pending at the beginning.
pub proof fn lemma_each_tile_started_once(s: RunState, inputs: Seq<RunInput>)
    ensures
        s.started(inputs) + s.after(inputs).pending == s.pending,
    decreases inputs.len(),
{
    if inputs.len() > 0 {
        lemma_each_tile_started_once(s, inputs.drop_last());
    }
}

/// In a run over the tiles of a pyramid, no tile's fetch is started twice.
pub proof fn lemma_no_tile_started_twice(
    levels: Seq<TileRange>,
    limit: nat,
    inputs: Seq<RunInput>,
)
    requires
        levels.len() <= MAX_ZOOM,
    ensures
        RunState::initial(tiles_from(levels, 0), limit).started(inputs).no_duplicates(),
{
    let tiles = tiles_from(levels, 0);
    let s = RunState::initial(tiles, limit);
    let started = s.started(inputs);
    lemma_pyramid_distinct(levels);
    lemma_each_tile_started_once(s, inputs);
    assert forall|i: int, j: int| 0 <= i < j < started.len() implies started[i] != started[j] by {
        assert(started[i] == tiles[i]);
        assert(started[j] == tiles[j]);
    }
}

/// How the fetches end makes no difference to the run: two courses of
/// inputs that differ only in that lead to the same state and start the
/// same tiles.
pub proof fn lemma_outcomes_make_no_difference(s: RunState, a: Seq<RunInput>, b: Seq<RunInput>)
    requires
        a.len() == b.len(),
        forall|i: int| 0 <= i < a.len() ==> alike(a[i], b[i]),
    ensures
        s.after(a) == s.after(b),
        s.started(a) == s.started(b),
    decreases a.len(),
{
    if a.len() > 0 {
        lemma_outcomes_make_no_difference(s, a.drop_last(), b.drop_last());
    }
}

/// Once the fetches have begun, the run cannot fail: it is fetching, or it
/// is over and has succeeded.
pub proof fn lemma_fetching_ends_well(s: RunState, inputs: Seq<RunInput>)
    requires
        s.phase is Fetching,
    ensures
        s.after(inputs).phase is Fetching || s.after(inputs).phase == RunPhase::Done(Ok(())),
    decreases inputs.len(),
{
    if inputs.len() > 0 {
        lemma_fetching_ends_well(s, inputs.drop_last());
    }
}

/// A run that is over and has succeeded has started the fetch of every tile,
/// and none of them is still under way.
pub proof fn lemma_success_is_complete(tiles: Seq<Tile>, limit: nat, inputs: Seq<RunInput>)
    requires
        limit >= 1,
    ensures
        ({
            let s = RunState::initial(tiles, limit);
            s.after(inputs).phase == RunPhase::Done(Ok(())) ==> s.started(inputs) == tiles
                && s.after(inputs).in_flight == 0
        }),
{
    let s = RunState::initial(tiles, limit);
    lemma_in_flight_bounded(s, inputs);
    lemma_each_tile_started_once(s, inputs);
    lemma_success_leaves_nothing_pending(s, inputs);
}

proof fn lemma_success_leaves_nothing_pending(s: RunState, inputs: Seq<RunInput>)
    requires
        s.sound(),
        !(s.phase is Done),
    ensures
        s.after(inputs).phase == RunPhase::Done(Ok(())) ==> s.after(inputs).pending
            == Seq::<Tile>::empty(),
    decreases inputs.len(),
{
    if inputs.len() > 0 {
        lemma_success_leaves_nothing_pending(s, inputs.drop_last());
        lemma_in_flight_bounded(s, inputs.drop_last());
    }
}

/// A run that has failed has started no fetch: what can fail comes before
/// the first of them.
pub proof fn lemma_failure_starts_nothing(tiles: Seq<Tile>, limit: nat, inputs: Seq<RunInput>)
    ensures
        ({
            let s = RunState::initial(tiles, limit);
            s.after(inputs).phase matches RunPhase::Done(Err(_)) ==> s.started(inputs)
                == Seq::<Tile>::empty()
        }),
{
    let s = RunState::initial(tiles, limit);
    lemma_not_yet_fetching_starts_nothing(s, inputs);
}

proof fn lemma_not_yet_fetching_starts_nothing(s: RunState, inputs: Seq<RunInput>)
    requires
        s.phase is ProbeRoot,
    ensures
        s.after(inputs).phase is Fetching || s.after(inputs).phase == RunPhase::Done(Ok(()))
            || s.started(inputs) == Seq::<Tile>::empty(),
    decreases inputs.len(),
{
    if inputs.len() > 0 {
        lemma_not_yet_fetching_starts_nothing(s, inputs.drop_last());
    }
}

} // verus!
