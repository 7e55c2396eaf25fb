//! The fetch of one tile, as a machine that is told what happened and says
//! what is to be done next. It touches neither disk nor network itself.

use vstd::prelude::*;
use crate::tile::Tile;
use crate::url::{is_local, is_local_url, render, render_url};

verus! {

/// How a tile came to be on disk.
#[derive(Clone, Copy, Debug, PartialEq, Eq, Structural)]
pub enum Fetched {
    /// The file was there already: nothing was requested.
    Skipped,
    /// The tile was requested and its body written.
    Saved,
}

/// Why the fetch of one tile failed. None of these ends the run.
#[derive(Clone, Copy, Debug, PartialEq, Eq, Structural)]
pub enum FetchError {
    /// The directory of the tile's column could not be created.
    CreateDir,
    /// The tile's URL is not that of a private-network or loopback server.
    ForbiddenUrl,
    /// The request got no response.
    Transport,
    /// The response carried this status, which is not a success.
    Status(u16),
    /// The body of the response could not be read.
    Body,
    /// The file could not be written.
    Write,
}

/// What a job waits for. Each phase but the last names the one thing that
/// the driver is to do next.
#[derive(Clone, Copy, Debug, PartialEq, Eq)]
pub enum JobPhase {
    /// Create the directory of the tile's column, with its ancestors.
    CreateDir,
    /// Find out whether the tile's file exists.
    Probe,
    /// Send a GET request to the job's URL.
    Request,
    /// Read the body of the response.
    ReadBody,
    /// Write the body to the tile's file.
    Write,
    /// Nothing: the job has ended.
    Done(Result<Fetched, FetchError>),
}

/// What the driver reports back.
#[derive(Clone, Copy, Debug, PartialEq, Eq, Structural)]
pub enum JobEvent {
    DirCreated,
    DirFailed,
    FileExists,
    FileMissing,
    /// A response arrived, with this status.
    Responded(u16),
    RequestFailed,
    BodyRead,
    BodyFailed,
    Written,
    WriteFailed,
}

/// Whether `status` is an HTTP success.
pub open spec fn is_success(status: u16) -> bool {
    200 <= status <= 299
}

/// The phase that follows `phase` on `event`, for a job whose URL may be
/// fetched exactly if `local`. An event that does not answer what the phase
/// waits for changes nothing.
pub open spec fn step(phase: JobPhase, event: JobEvent, local: bool) -> JobPhase {
    match (phase, event) {
        (JobPhase::CreateDir, JobEvent::DirCreated) => JobPhase::Probe,
        (JobPhase::CreateDir, JobEvent::DirFailed) => JobPhase::Done(Err(FetchError::CreateDir)),
        (JobPhase::Probe, JobEvent::FileExists) => JobPhase::Done(Ok(Fetched::Skipped)),
        (JobPhase::Probe, JobEvent::FileMissing) => if local {
            JobPhase::Request
        } else {
            JobPhase::Done(Err(FetchError::ForbiddenUrl))
        },
        (JobPhase::Request, JobEvent::Responded(status)) => if is_success(status) {
            JobPhase::ReadBody
        } else {
            JobPhase::Done(Err(FetchError::Status(status)))
        },
        (JobPhase::Request, JobEvent::RequestFailed) => JobPhase::Done(Err(FetchError::Transport)),
        (JobPhase::ReadBody, JobEvent::BodyRead) => JobPhase::Write,
        (JobPhase::ReadBody, JobEvent::BodyFailed) => JobPhase::Done(Err(FetchError::Body)),
        (JobPhase::Write, JobEvent::Written) => JobPhase::Done(Ok(Fetched::Saved)),
        (JobPhase::Write, JobEvent::WriteFailed) => JobPhase::Done(Err(FetchError::Write)),
        _ => phase,
    }
}

/// Whether a job in `phase` has sent a request.
pub open spec fn requested(phase: JobPhase) -> bool {
    match phase {
        JobPhase::Request | JobPhase::ReadBody | JobPhase::Write => true,
        JobPhase::Done(Ok(Fetched::Saved)) => true,
        JobPhase::Done(Err(FetchError::Transport)) => true,
        JobPhase::Done(Err(FetchError::Status(_))) => true,
        JobPhase::Done(Err(FetchError::Body)) => true,
        JobPhase::Done(Err(FetchError::Write)) => true,
        _ => false,
    }
}

/// The state of a job.
pub struct JobState {
    /// The tile.
    pub tile: Tile,
    /// The tile's URL.
    pub url: Seq<char>,
    /// What the job waits for.
    pub phase: JobPhase,
}

impl JobState {
    /// The state of the job for `tile` under the URL template `template`,
    /// before anything has happened.
    pub open spec fn initial(template: Seq<char>, tile: Tile) -> JobState {
        JobState { tile, url: render(template, tile), phase: JobPhase::CreateDir }
    }

    /// The state after `event`. The URL may be fetched exactly if it is
    /// local.
    pub open spec fn advance(self, event: JobEvent) -> JobState {
        JobState { phase: step(self.phase, event, is_local(self.url)), ..self }
    }

    /// The state after `events`, one after the other.
    pub open spec fn after(self, events: Seq<JobEvent>) -> JobState
        decreases events.len(),
    {
        if events.len() == 0 {
            self
        } else {
            self.after(events.drop_last()).advance(events.last())
        }
    }
}

/// The fetch of one tile.
#[derive(Debug)]
pub struct FetchJob {
    tile: Tile,
    url: String,
    phase: JobPhase,
}

impl View for FetchJob {
    type V = JobState;

    closed spec fn view(&self) -> JobState {
        JobState { tile: self.tile, url: self.url@, phase: self.phase }
    }
}

impl Tile {
    /// The job that fetches this tile from its URL under the template
    /// `url_fmt`. It begins by asking for the tile's directory.
    pub fn fetch_from(self, url_fmt: &str) -> (job: FetchJob)
        ensures
            job@ == JobState::initial(url_fmt@, self),
    {
        FetchJob { tile: self, url: render_url(url_fmt, self), phase: JobPhase::CreateDir }
    }
}

impl FetchJob {
    /// The tile.
    pub fn tile(&self) -> (tile: Tile)
        ensures
            tile == self@.tile,
    {
        self.tile
    }

    /// The tile's URL.
    pub fn url(&self) -> (url: &str)
        ensures
            url@ == self@.url,
    {
        self.url.as_str()
    }

    /// What the job waits for: the one thing that the driver is to do next.
    pub fn phase(&self) -> (phase: JobPhase)
        ensures
            phase == self@.phase,
    {
        self.phase
    }

    /// Whether the job has ended.
    pub fn is_done(&self) -> (done: bool)
        ensures
            done == (self@.phase is Done),
    {
        match self.phase {
            JobPhase::Done(_) => true,
            _ => false,
        }
    }

    /// How the job ended, if it has.
    pub fn outcome(&self) -> (outcome: Option<Result<Fetched, FetchError>>)
        ensures
            outcome == match self@.phase {
                JobPhase::Done(r) => Some(r),
                _ => None::<Result<Fetched, FetchError>>,
            },
    {
        match self.phase {
            JobPhase::Done(r) => Some(r),
            _ => None,
        }
    }

    /// Takes in what the driver reports and moves to the phase that follows,
    /// as [`step`] says. The URL is tested when the file is reported missing,
    /// before anything is requested.
    pub fn advance(&mut self, event: JobEvent)
        ensures
            final(self)@ == old(self)@.advance(event),
    {
        let next = match (self.phase, event) {
            (JobPhase::CreateDir, JobEvent::DirCreated) => JobPhase::Probe,
            (JobPhase::CreateDir, JobEvent::DirFailed) => JobPhase::Done(
                Err(FetchError::CreateDir),
            ),
            (JobPhase::Probe, JobEvent::FileExists) => JobPhase::Done(Ok(Fetched::Skipped)),
            (JobPhase::Probe, JobEvent::FileMissing) => {
                if is_local_url(self.url.as_str()) {
                    JobPhase::Request
                } else {
                    JobPhase::Done(Err(FetchError::ForbiddenUrl))
                }
            },
            (JobPhase::Request, JobEvent::Responded(status)) => {
                if 200 <= status && status <= 299 {
                    JobPhase::ReadBody
                } else {
                    JobPhase::Done(Err(FetchError::Status(status)))
                }
            },
            (JobPhase::Request, JobEvent::RequestFailed) => JobPhase::Done(
                Err(FetchError::Transport),
            ),
            (JobPhase::ReadBody, JobEvent::BodyRead) => JobPhase::Write,
            (JobPhase::ReadBody, JobEvent::BodyFailed) => JobPhase::Done(Err(FetchError::Body)),
            (JobPhase::Write, JobEvent::Written) => JobPhase::Done(Ok(Fetched::Saved)),
            (JobPhase::Write, JobEvent::WriteFailed) => JobPhase::Done(Err(FetchError::Write)),
            (phase, _) => phase,
        };
        self.phase = next;
    }
}

/// Whatever is reported, a job keeps its tile and its URL.
pub proof fn lemma_job_keeps_its_tile(s: JobState, events: Seq<JobEvent>)
    ensures
        s.after(events).tile == s.tile,
        s.after(events).url == s.url,
    decreases events.len(),
{
    if events.len() > 0 {
        lemma_job_keeps_its_tile(s, events.drop_last());
    }
}

/// A job that has ended stays as it is, whatever is reported.
pub proof fn lemma_done_is_final(s: JobState, events: Seq<JobEvent>)
    requires
        s.phase is Done,
    ensures
        s.after(events) == s,
    decreases events.len(),
{
    if events.len() > 0 {
        lemma_done_is_final(s, events.drop_last());
    }
}

/// A tile whose URL may not be fetched is never requested, whatever is
/// reported in whatever order: its job ends as skipped, or fails on the
/// directory or on the URL.
pub proof fn lemma_forbidden_url_never_requested(
    template: Seq<char>,
    tile: Tile,
    events: Seq<JobEvent>,
)
    requires
        !is_local(render(template, tile)),
    ensures
        ({
            let end = JobState::initial(template, tile).after(events).phase;
            &&& !requested(end)
            &&& end matches JobPhase::Done(outcome) ==> outcome == Ok::<Fetched, FetchError>(
                Fetched::Skipped,
            ) || outcome == Err::<Fetched, FetchError>(FetchError::CreateDir) || outcome == Err::<
                Fetched,
                FetchError,
            >(FetchError::ForbiddenUrl)
        }),
    decreases events.len(),
{
    if events.len() > 0 {
        lemma_forbidden_url_never_requested(template, tile, events.drop_last());
        lemma_job_keeps_its_tile(JobState::initial(template, tile), events.drop_last());
    }
}

/// Where the directory is there and the file is missing, a tile whose URL
/// may not be fetched fails on the URL, without a request.
pub proof fn lemma_forbidden_url_fails(template: Seq<char>, tile: Tile, events: Seq<JobEvent>)
    requires
        !is_local(render(template, tile)),
        events.len() >= 2,
        events[0] == JobEvent::DirCreated,
        events[1] == JobEvent::FileMissing,
    ensures
        JobState::initial(template, tile).after(events).phase == JobPhase::Done(
            Err(FetchError::ForbiddenUrl),
        ),
    decreases events.len(),
{
    let start = JobState::initial(template, tile);
    if events.len() == 2 {
        let one = events.drop_last();
        assert(start.after(one.drop_last()) == start);
    } else {
        lemma_forbidden_url_fails(template, tile, events.drop_last());
    }
}

/// Where the file is never reported missing, nothing is requested: the job
/// ends as skipped, or fails on the directory.
pub proof fn lemma_present_file_never_requested(s: JobState, events: Seq<JobEvent>)
    requires
        s.phase == JobPhase::CreateDir,
        forall|i: int| 0 <= i < events.len() ==> events[i] != JobEvent::FileMissing,
    ensures
        !requested(s.after(events).phase),
        s.after(events).phase matches JobPhase::Done(outcome) ==> outcome == Ok::<
            Fetched,
            FetchError,
        >(Fetched::Skipped) || outcome == Err::<Fetched, FetchError>(FetchError::CreateDir),
    decreases events.len(),
{
    if events.len() > 0 {
        lemma_present_file_never_requested(s, events.drop_last());
    }
}

/// Where the directory is there and the file exists, the job ends as
/// skipped, without a request.
pub proof fn lemma_present_file_is_skipped(s: JobState, events: Seq<JobEvent>)
    requires
        s.phase == JobPhase::CreateDir,
        events.len() >= 2,
        events[0] == JobEvent::DirCreated,
        events[1] == JobEvent::FileExists,
    ensures
        s.after(events).phase == JobPhase::Done(Ok(Fetched::Skipped)),
    decreases events.len(),
{
    if events.len() == 2 {
        let one = events.drop_last();
        assert(s.after(one.drop_last()) == s);
    } else {
        lemma_present_file_is_skipped(s, events.drop_last());
    }
}

} // verus!
