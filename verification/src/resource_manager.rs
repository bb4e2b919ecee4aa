//! The download coordinator: the cache index, the set of keys being
//! downloaded, the counters behind the status report, and the steps by which a
//! request is served from disk or fetched from the origin.
//!
//! The coordinator is one owned value. Callers that share it between tasks
//! keep it behind a lock and hold that lock for one call at a time, never
//! while they perform an action.

use vstd::prelude::*;
use vstd::hash_set::StringHashSet;
use crate::fetch::{
    advanced, advanced_fetch, advanced_lookup, opened, outcome_view, pending_action, proceed,
    remote_url, Action, Event, Phase, RequestView, StepView, POLL_ATTEMPTS, POLL_INTERVAL_MS,
    SERVER_BASE_URL,
};
pub use crate::fetch::{FetchError, ResourceResponse};
use crate::normalize::{
    absolute_path, absolute_path_of, has_prefix, normalize_key, normalized_key,
};
use crate::probe::{find_existing_case_insensitive, resolved, PathProbe};
use crate::text::{chars_of, push_char, with_extension};

verus! {

/// Fewest concurrent downloads the coordinator ever allows.
pub const MIN_WORKERS: usize = 4;

/// Most concurrent downloads the coordinator ever allows.
pub const MAX_WORKERS: usize = 32;

/// The worker ceiling for a machine with `cpus` logical processors:
/// twice the processor count, kept within `MIN_WORKERS..=MAX_WORKERS`.
pub open spec fn worker_ceiling_of(cpus: nat) -> nat {
    if 2 * cpus < MIN_WORKERS {
        MIN_WORKERS as nat
    } else if 2 * cpus > MAX_WORKERS {
        MAX_WORKERS as nat
    } else {
        2 * cpus
    }
}

/// Computes the worker ceiling without ever doubling a count that could overflow.
pub fn worker_ceiling(cpus: usize) -> (workers: usize)
    ensures
        workers == worker_ceiling_of(cpus as nat),
        MIN_WORKERS <= workers <= MAX_WORKERS,
{
    if cpus >= MAX_WORKERS / 2 {
        MAX_WORKERS
    } else if cpus * 2 < MIN_WORKERS {
        MIN_WORKERS
    } else {
        cpus * 2
    }
}

/// `num_cpus::get`: the number of logical processors available to this
/// process. It differs from machine to machine, so nothing is claimed of it.
#[verifier::external_body]
fn logical_cpus() -> usize {
    num_cpus::get()
}

/// A snapshot of the coordinator's activity.
#[derive(Debug, Clone, Copy, PartialEq, Eq, Structural)]
pub struct DownloadStatus {
    /// How many keys are in the in-flight set.
    pub queue_length: usize,
    /// Whether any key is in flight or any download slot is taken.
    pub is_downloading: bool,
    /// How many download slots are taken.
    pub active_downloads: usize,
    /// The worker ceiling.
    pub max_workers: usize,
    /// How many downloads have ended with the bytes on disk.
    pub downloaded_count: usize,
}

/// The coordinator as contracts speak of it.
#[verifier::ext_equal]
pub struct ManagerView {
    /// The directory below which resources are cached.
    pub base_dir: Seq<char>,
    /// The platform's path separator.
    pub separator: char,
    /// The cache index: the keys known to be on disk.
    pub present: Set<Seq<char>>,
    /// The keys that a request has claimed for download.
    pub inflight: Set<Seq<char>>,
    /// How many download slots are taken.
    pub active_downloads: nat,
    /// How many downloads have ended with the bytes on disk.
    pub downloaded_count: nat,
    /// The worker ceiling.
    pub max_workers: nat,
}

impl ManagerView {
    /// Both sets are finite, the ceiling is in its range, and no more slots are
    /// taken than the ceiling allows.
    pub open spec fn wf(self) -> bool {
        &&& self.present.finite()
        &&& self.inflight.finite()
        &&& MIN_WORKERS <= self.max_workers <= MAX_WORKERS
        &&& self.active_downloads <= self.max_workers
    }
}

/// The status report of a coordinator.
pub open spec fn status_of(manager: ManagerView) -> DownloadStatus {
    DownloadStatus {
        queue_length: manager.inflight.len() as usize,
        is_downloading: manager.inflight.len() > 0 || manager.active_downloads > 0,
        active_downloads: manager.active_downloads as usize,
        max_workers: manager.max_workers as usize,
        downloaded_count: manager.downloaded_count as usize,
    }
}

/// What a lookup without download leaves behind and answers: the path of the
/// resource where it is on disk. A key that the index knows is answered from
/// the index; any other is answered from the probe and, when found, recorded.
pub open spec fn looked_up(manager: ManagerView, raw: Seq<char>, probe: PathProbe) -> (
    ManagerView,
    Option<Seq<char>>,
) {
    let key = normalized_key(raw);
    let abs_path = absolute_path(manager.base_dir, key, manager.separator);
    if manager.present.contains(key) {
        (manager, Some(abs_path))
    } else {
        match resolved(abs_path, probe) {
            Some(found) => (
                ManagerView { present: manager.present.insert(key), ..manager },
                Some(found),
            ),
            None => (manager, None),
        }
    }
}

/// The token of one taken download slot. Taking the slot counts it; giving the
/// token back uncounts it.
#[derive(Debug)]
pub struct ActiveGuard {}

impl ActiveGuard {
    /// Counts one more active download.
    pub fn new(counter: &mut usize) -> (guard: ActiveGuard)
        requires
            *old(counter) < usize::MAX,
        ensures
            *final(counter) == *old(counter) + 1,
    {
        *counter = *counter + 1;
        ActiveGuard {  }
    }

    /// Counts one active download fewer, and never below zero.
    pub fn release(self, counter: &mut usize)
        ensures
            *final(counter) == if *old(counter) > 0 {
                *old(counter) - 1
            } else {
                0
            },
    {
        if *counter > 0 {
            *counter = *counter - 1;
        }
    }
}

/// The token of one claimed key. Giving it back takes the key out of the
/// in-flight set.
#[derive(Debug)]
pub struct InflightGuard {
    key: String,
}

impl View for InflightGuard {
    type V = Seq<char>;

    closed spec fn view(&self) -> Seq<char> {
        self.key@
    }
}

impl InflightGuard {
    /// The guard of a key that its holder has just put into the in-flight set.
    pub fn new(key: String) -> (guard: InflightGuard)
        ensures
            guard@ == key@,
    {
        InflightGuard { key }
    }

    /// Takes the key out of the in-flight set; no harm where it is gone already.
    pub fn release(self, set: &mut StringHashSet)
        ensures
            final(set)@ == old(set)@.remove(self@),
    {
        set.remove(self.key.as_str());
    }
}

/// The download coordinator.
pub struct ResourceManager {
    base_dir: String,
    separator: char,
    downloaded_resources: StringHashSet,
    inflight: StringHashSet,
    active_downloads: usize,
    downloaded_count: usize,
    max_workers: usize,
}

impl View for ResourceManager {
    type V = ManagerView;

    closed spec fn view(&self) -> ManagerView {
        ManagerView {
            base_dir: self.base_dir@,
            separator: self.separator,
            present: self.downloaded_resources@,
            inflight: self.inflight@,
            active_downloads: self.active_downloads as nat,
            downloaded_count: self.downloaded_count as nat,
            max_workers: self.max_workers as nat,
        }
    }
}

/// A request under way.
#[derive(Debug)]
pub struct FetchRequest {
    local_path: String,
    abs_path: String,
    resolved_path: String,
    body: Vec<u8>,
    phase: Phase,
    active_guard: Option<ActiveGuard>,
    inflight_guard: Option<InflightGuard>,
}

impl View for FetchRequest {
    type V = RequestView;

    closed spec fn view(&self) -> RequestView {
        RequestView {
            key: self.local_path@,
            abs_path: self.abs_path@,
            resolved_path: self.resolved_path@,
            body: self.body@,
            phase: self.phase,
        }
    }
}

impl FetchRequest {
    /// A request holds the guard of a download slot exactly while its phase
    /// occupies one, and the guard of its key exactly while it is the claimant.
    pub closed spec fn wf(&self) -> bool {
        &&& self.phase.wf()
        &&& self.active_guard is Some <==> self.phase.holds_permit()
        &&& self.inflight_guard is Some <==> self.phase.is_claimant()
        &&& self.inflight_guard matches Some(guard) ==> guard@ == self.local_path@
    }

    /// The key of the resource asked for.
    pub fn local_path(&self) -> (key: &String)
        ensures
            key@ == self@.key,
    {
        &self.local_path
    }

    /// Where the resource belongs on disk.
    pub fn abs_path(&self) -> (path: &String)
        ensures
            path@ == self@.abs_path,
    {
        &self.abs_path
    }

    /// How far the request has come.
    pub fn phase(&self) -> (phase: Phase)
        ensures
            phase == self@.phase,
    {
        self.phase
    }
}

/// What the coordinator answers: either the request goes on and the caller has
/// an action to perform, or it is over.
#[derive(Debug)]
pub enum Step {
    Continue(FetchRequest, Action),
    Done(Result<ResourceResponse, FetchError>),
}

impl View for Step {
    type V = StepView;

    open spec fn view(&self) -> StepView {
        match self {
            Step::Continue(request, action) => StepView::Continue(request@, action@),
            Step::Done(outcome) => StepView::Done(outcome_view(*outcome)),
        }
    }
}

impl Step {
    /// The request that goes on, where one does, is well formed.
    pub open spec fn wf(&self) -> bool {
        self matches Step::Continue(request, _) ==> request.wf()
    }
}

/// Builds the URL at which the origin serves the resource `key`.
pub fn remote_url_of(key: &str) -> (url: String)
    ensures
        url@ == remote_url(key@),
{
    let chars = chars_of(key);
    let namespace = chars_of("passionfruit/");
    assert(chars@.take(chars.len() as int) =~= chars@);
    let from = if has_prefix(&chars, chars.len(), &namespace) { namespace.len() } else { 0 };
    let mut url = SERVER_BASE_URL.to_owned();
    let ghost base = url@;
    let mut i: usize = from;
    while i < chars.len()
        invariant
            from <= i <= chars.len(),
            url@ == base + chars@.subrange(from as int, i as int),
        decreases chars.len() - i,
    {
        push_char(&mut url, chars[i]);
        i += 1;
        assert(url@ =~= base + chars@.subrange(from as int, i as int));
    }
    assert(url@ =~= remote_url(key@));
    url
}

impl ResourceManager {
    /// The coordinator keeps its invariant.
    pub open spec fn wf(&self) -> bool {
        self@.wf()
    }

    /// A coordinator over `base_dir` with nothing cached and nothing under way,
    /// sized for this machine.
    pub fn new(base_dir: String, separator: char) -> (manager: ResourceManager)
        ensures
            manager.wf(),
            manager@.base_dir == base_dir@,
            manager@.separator == separator,
            manager@.present == Set::<Seq<char>>::empty(),
            manager@.inflight == Set::<Seq<char>>::empty(),
            manager@.active_downloads == 0,
            manager@.downloaded_count == 0,
    {
        ResourceManager::with_cpus(base_dir, separator, logical_cpus())
    }

    /// A coordinator over `base_dir` with nothing cached and nothing under way,
    /// sized for a machine with `cpus` logical processors.
    pub fn with_cpus(base_dir: String, separator: char, cpus: usize) -> (manager: ResourceManager)
        ensures
            manager.wf(),
            manager@ == (ManagerView {
                base_dir: base_dir@,
                separator,
                present: Set::empty(),
                inflight: Set::empty(),
                active_downloads: 0,
                downloaded_count: 0,
                max_workers: worker_ceiling_of(cpus as nat),
            }),
    {
        ResourceManager {
            base_dir,
            separator,
            downloaded_resources: StringHashSet::new(),
            inflight: StringHashSet::new(),
            active_downloads: 0,
            downloaded_count: 0,
            max_workers: worker_ceiling(cpus),
        }
    }

    /// The key of `resource_path` and where that resource belongs on disk.
    pub fn normalize_path(&self, resource_path: &str) -> (normalized: (String, String))
        ensures
            normalized.0@ == normalized_key(resource_path@),
            normalized.1@ == absolute_path(self@.base_dir, normalized.0@, self@.separator),
    {
        let key = normalize_key(resource_path);
        let abs_path = absolute_path_of(self.base_dir.as_str(), key.as_str(), self.separator);
        (key, abs_path)
    }

    /// Whether the resource is on disk, and where, without any download.
    ///
    /// `probe` tells what the disk holds at the absolute path of the resource;
    /// it is consulted only where the index does not know the key. The
    /// in-flight set and the counters stay as they are.
    pub fn exists_local(&mut self, resource_path: String, probe: &PathProbe) -> (found: (
        bool,
        Option<String>,
    ))
        requires
            old(self).wf(),
        ensures
            final(self).wf(),
            final(self)@ == looked_up(old(self)@, resource_path@, *probe).0,
            found.0 == (looked_up(old(self)@, resource_path@, *probe).1 is Some),
            found.1.deep_view() == looked_up(old(self)@, resource_path@, *probe).1,
    {
        let (key, abs_path) = self.normalize_path(resource_path.as_str());
        if self.downloaded_resources.contains(key.as_str()) {
            return (true, Some(abs_path));
        }
        match find_existing_case_insensitive(abs_path.as_str(), probe) {
            Some(found) => {
                self.downloaded_resources.insert(key);
                (true, Some(found))
            },
            None => (false, None),
        }
    }

    /// Opens a request for the resource. Nothing changes yet: the step names
    /// the first action, a read where the index knows the key and a probe
    /// where it does not, and `resume` takes the request on from there.
    pub fn get_or_fetch(&self, resource_path: &str) -> (step: Step)
        ensures
            step.wf(),
            step matches Step::Continue(request, action) && request@ == opened(
                self@,
                resource_path@,
            ) && action@ == pending_action(request@),
    {
        let (key, abs_path) = self.normalize_path(resource_path);
        let cached = self.downloaded_resources.contains(key.as_str());
        let resolved_path = abs_path.clone();
        let path = abs_path.clone();
        let request = FetchRequest {
            local_path: key,
            abs_path,
            resolved_path,
            body: Vec::new(),
            phase: if cached {
                Phase::ReadingCached
            } else {
                Phase::Probing
            },
            active_guard: None,
            inflight_guard: None,
        };
        if cached {
            Step::Continue(request, Action::ReadFile { path })
        } else {
            Step::Continue(request, Action::Probe { path })
        }
    }

    /// Takes a request one step on with the outcome of the action it waited
    /// for.
    pub fn resume(&mut self, request: FetchRequest, event: Event) -> (step: Step)
        requires
            old(self).wf(),
            request.wf(),
            request@.phase is Persisting ==> old(self)@.downloaded_count < usize::MAX,
        ensures
            final(self).wf(),
            step.wf(),
            final(self)@ == advanced(old(self)@, request@, event).0,
            step@ == advanced(old(self)@, request@, event).1,
    {
        match request.phase {
            Phase::ReadingCached | Phase::Probing | Phase::ReadingResolved => self.serve_local(
                request,
                event,
            ),
            _ => self.fetch_and_cache(request, event),
        }
    }

    /// The step that asks again for the action the request waits for.
    fn repeat(request: FetchRequest) -> (step: Step)
        requires
            request.wf(),
        ensures
            step.wf(),
            step@ == proceed(request@, request@.phase),
    {
        let action = match request.phase {
            Phase::ReadingCached => Action::ReadFile { path: request.abs_path.clone() },
            Phase::Probing => Action::Probe { path: request.abs_path.clone() },
            Phase::ReadingResolved => Action::ReadFile { path: request.resolved_path.clone() },
            Phase::AwaitingPermit => Action::AcquirePermit,
            Phase::Polling { .. } => Action::CheckExists { path: request.abs_path.clone() },
            Phase::Sleeping { .. } => Action::Sleep { millis: POLL_INTERVAL_MS },
            Phase::ReadingAppeared => Action::ReadFile { path: request.abs_path.clone() },
            Phase::Fetching { .. } => Action::HttpGet {
                url: remote_url_of(request.local_path.as_str()),
            },
            Phase::ReadingBody { .. } => Action::ReadBody,
            Phase::Persisting { .. } => {
                proof {
                    reveal_strlit("download");
                }
                Action::Persist {
                    path: request.abs_path.clone(),
                    temp_path: with_extension(request.abs_path.as_str(), "download"),
                    data: copy_of(&request.body),
                }
            },
        };
        Step::Continue(request, action)
    }

    /// Serves a request from disk: reads the file of a key that the index
    /// knows, or decides from the probe whether the resource is there and
    /// records it once its file has been read.
    fn serve_local(&mut self, request: FetchRequest, event: Event) -> (step: Step)
        requires
            old(self).wf(),
            request.wf(),
            !request@.phase.holds_permit(),
            !(request@.phase is AwaitingPermit),
        ensures
            final(self).wf(),
            step.wf(),
            final(self)@ == advanced_lookup(old(self)@, request@, event).0,
            step@ == advanced_lookup(old(self)@, request@, event).1,
    {
        let mut request = request;
        match (request.phase, event) {
            (Phase::ReadingCached, Event::FileRead(Some(data))) => Step::Done(
                Ok(
                    ResourceResponse {
                        data,
                        local_path: request.local_path,
                        abs_path: request.abs_path,
                    },
                ),
            ),
            (Phase::ReadingCached, Event::FileRead(None)) => Step::Done(Err(FetchError::Io)),
            (Phase::Probing, Event::Probed(probe)) => {
                match find_existing_case_insensitive(request.abs_path.as_str(), &probe) {
                    Some(found) => {
                        request.resolved_path = found;
                        request.phase = Phase::ReadingResolved;
                    },
                    None => {
                        request.phase = Phase::AwaitingPermit;
                    },
                }
                ResourceManager::repeat(request)
            },
            (Phase::ReadingResolved, Event::FileRead(Some(data))) => {
                self.downloaded_resources.insert(request.local_path.clone());
                Step::Done(
                    Ok(
                        ResourceResponse {
                            data,
                            local_path: request.local_path,
                            abs_path: request.resolved_path,
                        },
                    ),
                )
            },
            (Phase::ReadingResolved, Event::FileRead(None)) => Step::Done(Err(FetchError::Io)),
            _ => ResourceManager::repeat(request),
        }
    }

    /// Gives back what a request holds: its download slot, and its claim on the
    /// key where it is the claimant.
    fn release(&mut self, active_guard: Option<ActiveGuard>, inflight_guard: Option<InflightGuard>)
        requires
            old(self).wf(),
            active_guard is Some,
        ensures
            final(self).wf(),
            final(self)@ == (ManagerView {
                active_downloads: if old(self)@.active_downloads > 0 {
                    (old(self)@.active_downloads - 1) as nat
                } else {
                    0
                },
                inflight: match inflight_guard {
                    Some(guard) => old(self)@.inflight.remove(guard@),
                    None => old(self)@.inflight,
                },
                ..old(self)@
            }),
    {
        if let Some(guard) = active_guard {
            guard.release(&mut self.active_downloads);
        }
        if let Some(guard) = inflight_guard {
            guard.release(&mut self.inflight);
        }
    }

    /// Downloads a resource that is not on disk: one step of the fetch-through
    /// procedure.
    ///
    /// A request is admitted only while fewer downloads are active than the
    /// worker ceiling. The first request for a key claims it and asks the
    /// origin; a later one looks for the file up to `POLL_ATTEMPTS` times and
    /// then asks the origin itself. Bytes that reached the disk are recorded in
    /// the index and counted. Every way out gives the download slot back.
    fn fetch_and_cache(&mut self, request: FetchRequest, event: Event) -> (step: Step)
        requires
            old(self).wf(),
            request.wf(),
            request@.phase.holds_permit() || request@.phase is AwaitingPermit,
            request@.phase is Persisting ==> old(self)@.downloaded_count < usize::MAX,
        ensures
            final(self).wf(),
            step.wf(),
            final(self)@ == advanced_fetch(old(self)@, request@, event).0,
            step@ == advanced_fetch(old(self)@, request@, event).1,
    {
        let mut request = request;
        match (request.phase, event) {
            (Phase::AwaitingPermit, Event::PermitAcquired) => {
                if self.active_downloads < self.max_workers {
                    request.active_guard = Some(ActiveGuard::new(&mut self.active_downloads));
                    if self.inflight.insert(request.local_path.clone()) {
                        request.inflight_guard = Some(
                            InflightGuard::new(request.local_path.clone()),
                        );
                        request.phase = Phase::Fetching { claimant: true };
                    } else {
                        assert(final(self)@.inflight =~= old(self)@.inflight);
                        request.phase = Phase::Polling { remaining: POLL_ATTEMPTS };
                    }
                }
                ResourceManager::repeat(request)
            },
            (Phase::Polling { remaining }, Event::Existence(exists)) => {
                request.phase = if exists {
                    Phase::ReadingAppeared
                } else {
                    Phase::Sleeping { remaining }
                };
                ResourceManager::repeat(request)
            },
            (Phase::Sleeping { remaining }, Event::Slept) => {
                request.phase = if remaining <= 1 {
                    Phase::Fetching { claimant: false }
                } else {
                    Phase::Polling { remaining: remaining - 1 }
                };
                ResourceManager::repeat(request)
            },
            (Phase::ReadingAppeared, Event::FileRead(read)) => {
                self.release(request.active_guard, request.inflight_guard);
                match read {
                    Some(data) => {
                        self.downloaded_resources.insert(request.local_path.clone());
                        Step::Done(
                            Ok(
                                ResourceResponse {
                                    data,
                                    local_path: request.local_path,
                                    abs_path: request.abs_path,
                                },
                            ),
                        )
                    },
                    None => Step::Done(Err(FetchError::Io)),
                }
            },
            (Phase::Fetching { claimant }, Event::Responded { status }) => {
                if 200 <= status && status < 300 {
                    request.phase = Phase::ReadingBody { claimant };
                    ResourceManager::repeat(request)
                } else {
                    self.release(request.active_guard, request.inflight_guard);
                    Step::Done(Err(FetchError::UpstreamStatus(status)))
                }
            },
            (Phase::Fetching { claimant }, Event::TransportFailed) => {
                self.release(request.active_guard, request.inflight_guard);
                Step::Done(Err(FetchError::Network))
            },
            (Phase::ReadingBody { claimant }, Event::Body(Some(data))) => {
                request.body = data;
                request.phase = Phase::Persisting { claimant };
                ResourceManager::repeat(request)
            },
            (Phase::ReadingBody { claimant }, Event::Body(None)) => {
                self.release(request.active_guard, request.inflight_guard);
                Step::Done(Err(FetchError::Network))
            },
            (Phase::Persisting { claimant }, Event::Persisted(true)) => {
                self.release(request.active_guard, request.inflight_guard);
                self.inflight.remove(request.local_path.as_str());
                self.downloaded_resources.insert(request.local_path.clone());
                self.downloaded_count = self.downloaded_count + 1;
                Step::Done(
                    Ok(
                        ResourceResponse {
                            data: request.body,
                            local_path: request.local_path,
                            abs_path: request.abs_path,
                        },
                    ),
                )
            },
            (Phase::Persisting { claimant }, Event::Persisted(false)) => {
                self.release(request.active_guard, request.inflight_guard);
                Step::Done(Err(FetchError::Io))
            },
            _ => ResourceManager::repeat(request),
        }
    }

    /// A snapshot of the coordinator's activity.
    pub fn get_status(&self) -> (status: DownloadStatus)
        ensures
            status == status_of(self@),
    {
        let queue_length = self.inflight.len();
        DownloadStatus {
            queue_length,
            is_downloading: queue_length > 0 || self.active_downloads > 0,
            active_downloads: self.active_downloads,
            max_workers: self.max_workers,
            downloaded_count: self.downloaded_count,
        }
    }
}

/// A copy of `bytes`.
fn copy_of(bytes: &Vec<u8>) -> (copy: Vec<u8>)
    ensures
        copy@ == bytes@,
{
    let mut copy: Vec<u8> = Vec::new();
    let mut i: usize = 0;
    while i < bytes.len()
        invariant
            i <= bytes.len(),
            copy@ == bytes@.take(i as int),
        decreases bytes.len() - i,
    {
        copy.push(bytes[i]);
        i += 1;
        assert(copy@ =~= bytes@.take(i as int));
    }
    assert(copy@ =~= bytes@);
    copy
}

} // verus!
