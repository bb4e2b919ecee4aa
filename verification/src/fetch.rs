//! The protocol of one resource request.
//!
//! Serving a resource takes disk reads, a wait for a download slot, timed
//! polls and a network fetch. None of that happens here. A request is a value
//! that remembers how far it has come; at each step the coordinator names the
//! one `Action` the caller has to perform and the caller answers with the
//! `Event` that tells how it went. This module holds the values of that
//! exchange and, as spec functions, the rules by which a request moves on.

use vstd::prelude::*;
use crate::normalize::{absolute_path, normalized_key, without_prefix};
use crate::probe::{resolved, PathProbe};
use crate::resource_manager::ManagerView;

verus! {

/// How often a follower looks for the file before it fetches on its own.
pub const POLL_ATTEMPTS: u8 = 20;

/// How long a follower waits between two looks, in milliseconds.
pub const POLL_INTERVAL_MS: u64 = 50;

/// The base URL of the origin.
pub const SERVER_BASE_URL: &'static str = "https://media.komisureiya.com/";

/// Why a request failed.
#[derive(Debug, Clone, Copy, PartialEq, Eq, Structural)]
pub enum FetchError {
    /// The identifier has no key. Normalizing is total, so the coordinator
    /// never reports this.
    NormalizationImpossible,
    /// The origin answered with a status outside 200..=299.
    UpstreamStatus(u16),
    /// A read, a write, a directory creation or a rename failed.
    Io,
    /// The origin could not be reached, or its answer broke off.
    Network,
}

/// A resource as handed to the consumer.
#[derive(Debug)]
pub struct ResourceResponse {
    /// The content of the resource.
    pub data: Vec<u8>,
    /// The key of the resource.
    pub local_path: String,
    /// Where the resource lies on disk.
    pub abs_path: String,
}

/// A `ResourceResponse` as contracts speak of it.
pub struct ResponseView {
    pub data: Seq<u8>,
    pub local_path: Seq<char>,
    pub abs_path: Seq<char>,
}

impl View for ResourceResponse {
    type V = ResponseView;

    open spec fn view(&self) -> ResponseView {
        ResponseView { data: self.data@, local_path: self.local_path@, abs_path: self.abs_path@ }
    }
}

/// What a finished request came to, as contracts speak of it.
pub open spec fn outcome_view(outcome: Result<ResourceResponse, FetchError>) -> Result<
    ResponseView,
    FetchError,
> {
    match outcome {
        Ok(response) => Ok(response@),
        Err(error) => Err(error),
    }
}

/// How far a request has come. Each phase waits for the outcome of one action.
#[derive(Debug, Clone, Copy, PartialEq, Eq, Structural)]
pub enum Phase {
    /// The key is in the index; its file is being read.
    ReadingCached,
    /// The key is not in the index; the disk is being probed for it.
    Probing,
    /// The probe found the resource; the file it resolved to is being read.
    ReadingResolved,
    /// The resource is not on disk; the request waits for a download slot.
    AwaitingPermit,
    /// Another request claimed the key first; this one looks whether the file
    /// has appeared. `remaining` counts the looks left, this one included.
    Polling { remaining: u8 },
    /// The file had not appeared; the request waits before it looks again.
    Sleeping { remaining: u8 },
    /// The file has appeared while another request downloaded it; it is being
    /// read.
    ReadingAppeared,
    /// The origin is being asked for the resource.
    Fetching { claimant: bool },
    /// The origin answered with success; the body is being received.
    ReadingBody { claimant: bool },
    /// The body is being written to disk.
    Persisting { claimant: bool },
}

impl Phase {
    /// Whether a request in this phase occupies a download slot.
    pub open spec fn holds_permit(self) -> bool {
        match self {
            Phase::ReadingCached
            | Phase::Probing
            | Phase::ReadingResolved
            | Phase::AwaitingPermit => false,
            _ => true,
        }
    }

    /// Whether a request in this phase is the one that put its key into the
    /// in-flight set.
    pub open spec fn is_claimant(self) -> bool {
        match self {
            Phase::Fetching { claimant } => claimant,
            Phase::ReadingBody { claimant } => claimant,
            Phase::Persisting { claimant } => claimant,
            _ => false,
        }
    }

    /// Whether a request in this phase has a call to the origin under way.
    pub open spec fn on_network(self) -> bool {
        self is Fetching || self is ReadingBody
    }

    /// Whether the counter of looks, where the phase has one, is in range.
    pub open spec fn wf(self) -> bool {
        match self {
            Phase::Polling { remaining } => 1 <= remaining <= POLL_ATTEMPTS,
            Phase::Sleeping { remaining } => 1 <= remaining <= POLL_ATTEMPTS,
            _ => true,
        }
    }
}

/// The one thing the caller has to do next for a request.
#[derive(Debug)]
pub enum Action {
    /// Read the whole file at `path`; answer with `Event::FileRead`.
    ReadFile { path: String },
    /// Look at the disk at and around `path`; answer with `Event::Probed`.
    Probe { path: String },
    /// Wait until a download slot is free; answer with `Event::PermitAcquired`.
    AcquirePermit,
    /// Look whether `path` exists; answer with `Event::Existence`.
    CheckExists { path: String },
    /// Wait for `millis` milliseconds; answer with `Event::Slept`.
    Sleep { millis: u64 },
    /// Send an HTTP GET to `url`; answer with `Event::Responded` once the
    /// status is known, or with `Event::TransportFailed`.
    HttpGet { url: String },
    /// Receive the whole body of the response; answer with `Event::Body`.
    ReadBody,
    /// Create the missing parent directories of `path`, write `data` to
    /// `temp_path`, then rename `temp_path` to `path`; answer with
    /// `Event::Persisted`.
    Persist { path: String, temp_path: String, data: Vec<u8> },
}

/// An `Action` as contracts speak of it. The temporary path of `Persist` is
/// left out: it names a scratch file and decides nothing.
pub enum ActionView {
    ReadFile { path: Seq<char> },
    Probe { path: Seq<char> },
    AcquirePermit,
    CheckExists { path: Seq<char> },
    Sleep { millis: u64 },
    HttpGet { url: Seq<char> },
    ReadBody,
    Persist { path: Seq<char>, data: Seq<u8> },
}

impl View for Action {
    type V = ActionView;

    open spec fn view(&self) -> ActionView {
        match self {
            Action::ReadFile { path } => ActionView::ReadFile { path: path@ },
            Action::Probe { path } => ActionView::Probe { path: path@ },
            Action::AcquirePermit => ActionView::AcquirePermit,
            Action::CheckExists { path } => ActionView::CheckExists { path: path@ },
            Action::Sleep { millis } => ActionView::Sleep { millis: *millis },
            Action::HttpGet { url } => ActionView::HttpGet { url: url@ },
            Action::ReadBody => ActionView::ReadBody,
            Action::Persist { path, temp_path, data } => ActionView::Persist {
                path: path@,
                data: data@,
            },
        }
    }
}

/// How an action went.
#[derive(Debug)]
pub enum Event {
    /// What the disk holds at and around the probed path.
    Probed(PathProbe),
    /// The content of the file, or `None` where reading failed.
    FileRead(Option<Vec<u8>>),
    /// A download slot is free.
    PermitAcquired,
    /// Whether the path exists.
    Existence(bool),
    /// The wait is over.
    Slept,
    /// The origin answered with this status.
    Responded { status: u16 },
    /// The origin could not be reached.
    TransportFailed,
    /// The body of the response, or `None` where receiving it failed.
    Body(Option<Vec<u8>>),
    /// Whether the bytes are on disk under their final name.
    Persisted(bool),
}

/// A `FetchRequest` as contracts speak of it.
pub struct RequestView {
    /// The key of the resource asked for.
    pub key: Seq<char>,
    /// Where the resource belongs on disk.
    pub abs_path: Seq<char>,
    /// Where the probe found it; the same as `abs_path` until a probe says
    /// otherwise.
    pub resolved_path: Seq<char>,
    /// The bytes received from the origin; empty until there are any.
    pub body: Seq<u8>,
    /// How far the request has come.
    pub phase: Phase,
}

/// A `Step` as contracts speak of it.
pub enum StepView {
    Continue(RequestView, ActionView),
    Done(Result<ResponseView, FetchError>),
}

/// The base URL of the origin. Keys are appended to it.
pub open spec fn server_base_url() -> Seq<char> {
    SERVER_BASE_URL@
}

/// The namespace under which downloaded resources are cached and routed. The
/// origin does not know it.
pub open spec fn remote_namespace() -> Seq<char> {
    "passionfruit/"@
}

/// The URL at which the origin serves the resource `key`.
pub open spec fn remote_url(key: Seq<char>) -> Seq<char> {
    server_base_url() + without_prefix(key, remote_namespace())
}

/// Whether an HTTP status means success.
pub open spec fn is_success(status: u16) -> bool {
    200 <= status < 300
}

/// The action that a request waits for.
pub open spec fn pending_action(request: RequestView) -> ActionView {
    match request.phase {
        Phase::ReadingCached => ActionView::ReadFile { path: request.abs_path },
        Phase::Probing => ActionView::Probe { path: request.abs_path },
        Phase::ReadingResolved => ActionView::ReadFile { path: request.resolved_path },
        Phase::AwaitingPermit => ActionView::AcquirePermit,
        Phase::Polling { .. } => ActionView::CheckExists { path: request.abs_path },
        Phase::Sleeping { .. } => ActionView::Sleep { millis: POLL_INTERVAL_MS },
        Phase::ReadingAppeared => ActionView::ReadFile { path: request.abs_path },
        Phase::Fetching { .. } => ActionView::HttpGet { url: remote_url(request.key) },
        Phase::ReadingBody { .. } => ActionView::ReadBody,
        Phase::Persisting { .. } => ActionView::Persist {
            path: request.abs_path,
            data: request.body,
        },
    }
}

/// The step that keeps `request` going in `phase`.
pub open spec fn proceed(request: RequestView, phase: Phase) -> StepView {
    let next = RequestView { phase, ..request };
    StepView::Continue(next, pending_action(next))
}

/// The step that ends `request` with the bytes `data` found at `abs_path`.
pub open spec fn deliver(request: RequestView, abs_path: Seq<char>, data: Seq<u8>) -> StepView {
    StepView::Done(Ok(ResponseView { data, local_path: request.key, abs_path }))
}

/// The request that a consumer's identifier `raw` opens: it reads the file
/// where the index knows the key, and probes the disk where it does not.
pub open spec fn opened(manager: ManagerView, raw: Seq<char>) -> RequestView {
    let key = normalized_key(raw);
    let abs_path = absolute_path(manager.base_dir, key, manager.separator);
    RequestView {
        key,
        abs_path,
        resolved_path: abs_path,
        body: Seq::empty(),
        phase: if manager.present.contains(key) {
            Phase::ReadingCached
        } else {
            Phase::Probing
        },
    }
}

/// The coordinator once a request for `key` has given its download slot back,
/// and its claim on the key where it had one.
pub open spec fn released(manager: ManagerView, key: Seq<char>, claimant: bool) -> ManagerView {
    ManagerView {
        active_downloads: if manager.active_downloads > 0 {
            (manager.active_downloads - 1) as nat
        } else {
            0
        },
        inflight: if claimant {
            manager.inflight.remove(key)
        } else {
            manager.inflight
        },
        ..manager
    }
}

/// The coordinator once the resource `key` is known to be on disk.
pub open spec fn recorded(manager: ManagerView, key: Seq<char>) -> ManagerView {
    ManagerView { present: manager.present.insert(key), ..manager }
}

/// How a request that looks the resource up on disk moves on. These phases
/// touch nothing but the index.
pub open spec fn advanced_lookup(manager: ManagerView, request: RequestView, event: Event) -> (
    ManagerView,
    StepView,
) {
    match (request.phase, event) {
        (Phase::ReadingCached, Event::FileRead(Some(data))) => (
            manager,
            deliver(request, request.abs_path, data@),
        ),
        (Phase::ReadingCached, Event::FileRead(None)) => (
            manager,
            StepView::Done(Err(FetchError::Io)),
        ),
        (Phase::Probing, Event::Probed(probe)) => match resolved(request.abs_path, probe) {
            Some(found) => (
                manager,
                proceed(RequestView { resolved_path: found, ..request }, Phase::ReadingResolved),
            ),
            None => (manager, proceed(request, Phase::AwaitingPermit)),
        },
        (Phase::ReadingResolved, Event::FileRead(Some(data))) => (
            recorded(manager, request.key),
            deliver(request, request.resolved_path, data@),
        ),
        (Phase::ReadingResolved, Event::FileRead(None)) => (
            manager,
            StepView::Done(Err(FetchError::Io)),
        ),
        _ => (manager, proceed(request, request.phase)),
    }
}

/// How a request that has to download the resource moves on.
///
/// It takes a slot only while fewer than the ceiling are taken. The first
/// request for a key claims it and asks the origin; a later one polls for the
/// file and asks the origin itself only once its looks are used up. Every way
/// out gives the slot back; the claimant's ways out also drop its claim, and
/// so does any fetch that ends with the bytes on disk.
pub open spec fn advanced_fetch(manager: ManagerView, request: RequestView, event: Event) -> (
    ManagerView,
    StepView,
) {
    let key = request.key;
    match (request.phase, event) {
        (Phase::AwaitingPermit, Event::PermitAcquired) => {
            if manager.active_downloads < manager.max_workers {
                let admitted = ManagerView {
                    active_downloads: manager.active_downloads + 1,
                    ..manager
                };
                if manager.inflight.contains(key) {
                    (admitted, proceed(request, Phase::Polling { remaining: POLL_ATTEMPTS }))
                } else {
                    (
                        ManagerView { inflight: manager.inflight.insert(key), ..admitted },
                        proceed(request, Phase::Fetching { claimant: true }),
                    )
                }
            } else {
                (manager, proceed(request, request.phase))
            }
        },
        (Phase::Polling { remaining }, Event::Existence(true)) => (
            manager,
            proceed(request, Phase::ReadingAppeared),
        ),
        (Phase::Polling { remaining }, Event::Existence(false)) => (
            manager,
            proceed(request, Phase::Sleeping { remaining }),
        ),
        (Phase::Sleeping { remaining }, Event::Slept) => {
            if remaining <= 1 {
                (manager, proceed(request, Phase::Fetching { claimant: false }))
            } else {
                (manager, proceed(request, Phase::Polling { remaining: (remaining - 1) as u8 }))
            }
        },
        (Phase::ReadingAppeared, Event::FileRead(Some(data))) => (
            recorded(released(manager, key, false), key),
            deliver(request, request.abs_path, data@),
        ),
        (Phase::ReadingAppeared, Event::FileRead(None)) => (
            released(manager, key, false),
            StepView::Done(Err(FetchError::Io)),
        ),
        (Phase::Fetching { claimant }, Event::Responded { status }) => {
            if is_success(status) {
                (manager, proceed(request, Phase::ReadingBody { claimant }))
            } else {
                (
                    released(manager, key, claimant),
                    StepView::Done(Err(FetchError::UpstreamStatus(status))),
                )
            }
        },
        (Phase::Fetching { claimant }, Event::TransportFailed) => (
            released(manager, key, claimant),
            StepView::Done(Err(FetchError::Network)),
        ),
        (Phase::ReadingBody { claimant }, Event::Body(Some(data))) => (
            manager,
            proceed(RequestView { body: data@, ..request }, Phase::Persisting { claimant }),
        ),
        (Phase::ReadingBody { claimant }, Event::Body(None)) => (
            released(manager, key, claimant),
            StepView::Done(Err(FetchError::Network)),
        ),
        (Phase::Persisting { claimant }, Event::Persisted(true)) => (
            ManagerView {
                downloaded_count: manager.downloaded_count + 1,
                ..recorded(released(manager, key, true), key)
            },
            deliver(request, request.abs_path, request.body),
        ),
        (Phase::Persisting { claimant }, Event::Persisted(false)) => (
            released(manager, key, claimant),
            StepView::Done(Err(FetchError::Io)),
        ),
        _ => (manager, proceed(request, request.phase)),
    }
}

/// How a request moves on when the caller reports `event`. An event that does
/// not answer the action the request waits for changes nothing, and the same
/// action is asked for again.
pub open spec fn advanced(manager: ManagerView, request: RequestView, event: Event) -> (
    ManagerView,
    StepView,
) {
    match request.phase {
        Phase::ReadingCached | Phase::Probing | Phase::ReadingResolved => advanced_lookup(
            manager,
            request,
            event,
        ),
        _ => advanced_fetch(manager, request, event),
    }
}

} // verus!
