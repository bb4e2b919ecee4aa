//! What holds of the coordinator however its callers interleave.
//!
//! The coordinator is shared by many requests at once. This module models
//! that: a `SystemView` is the coordinator together with every request under
//! way, an `Occurrence` is one call made by one of the callers, and a history
//! is any sequence of such calls in any order. The laws below are proved for
//! every history.

use vstd::prelude::*;
use vstd::set_lib::lemma_len_subset;
use crate::fetch::{
    advanced, deliver, is_success, opened, pending_action, remote_url, ActionView, Event,
    FetchError, Phase, RequestView, StepView, POLL_ATTEMPTS,
};
use crate::normalize::{absolute_path, normalized_key};
use crate::probe::{resolved, PathProbe};
use crate::resource_manager::{looked_up, status_of, DownloadStatus, ManagerView};

verus! {

/// The coordinator and the requests under way, each under the number by which
/// its caller knows it.
#[verifier::ext_equal]
pub struct SystemView {
    pub manager: ManagerView,
    pub requests: Map<nat, RequestView>,
}

/// One call into the coordinator.
pub enum Occurrence {
    /// A consumer asks for `raw`; the request is filed under `id`.
    Open { id: nat, raw: Seq<char> },
    /// The caller of request `id` reports how its action went.
    Report { id: nat, event: Event },
    /// The interface asks whether `raw` is on disk.
    Lookup { raw: Seq<char>, probe: PathProbe },
}

/// A coordinator with no request under way.
pub open spec fn idle(manager: ManagerView) -> SystemView {
    SystemView { manager, requests: Map::empty() }
}

/// The system after one call. A call that names no request, or files one
/// under a number in use, is not a call of this protocol and changes nothing.
pub open spec fn after(system: SystemView, occurrence: Occurrence) -> SystemView {
    match occurrence {
        Occurrence::Open { id, raw } => {
            if system.requests.dom().contains(id) {
                system
            } else {
                SystemView {
                    requests: system.requests.insert(id, opened(system.manager, raw)),
                    ..system
                }
            }
        },
        Occurrence::Report { id, event } => {
            if system.requests.dom().contains(id) {
                let (manager, step) = advanced(system.manager, system.requests[id], event);
                match step {
                    StepView::Continue(request, _) => SystemView {
                        manager,
                        requests: system.requests.insert(id, request),
                    },
                    StepView::Done(_) => SystemView {
                        manager,
                        requests: system.requests.remove(id),
                    },
                }
            } else {
                system
            }
        },
        Occurrence::Lookup { raw, probe } => SystemView {
            manager: looked_up(system.manager, raw, probe).0,
            ..system
        },
    }
}

/// The system after a whole history of calls.
pub open spec fn after_all(system: SystemView, history: Seq<Occurrence>) -> SystemView
    decreases history.len(),
{
    if history.len() == 0 {
        system
    } else {
        after(after_all(system, history.drop_last()), history.last())
    }
}

/// The requests that occupy a download slot.
pub open spec fn slot_holders(system: SystemView) -> Set<nat> {
    Set::new(
        |id: nat| system.requests.dom().contains(id) && system.requests[id].phase.holds_permit(),
    )
}

/// The requests that have a call to the origin under way.
pub open spec fn on_network(system: SystemView) -> Set<nat> {
    Set::new(
        |id: nat| system.requests.dom().contains(id) && system.requests[id].phase.on_network(),
    )
}

/// What every reachable system keeps: the coordinator's own invariant, and a
/// count of taken slots that is exactly the number of requests holding one.
pub open spec fn consistent(system: SystemView) -> bool {
    &&& system.manager.wf()
    &&& system.requests.dom().finite()
    &&& slot_holders(system).len() == system.manager.active_downloads
}

/// The holders of a slot are finitely many.
proof fn lemma_holders_finite(system: SystemView)
    requires
        system.requests.dom().finite(),
    ensures
        slot_holders(system).finite(),
        slot_holders(system).len() <= system.requests.dom().len(),
{
    lemma_len_subset(slot_holders(system), system.requests.dom());
}

/// One call keeps a consistent system consistent.
pub proof fn lemma_consistent_after(system: SystemView, occurrence: Occurrence)
    requires
        consistent(system),
    ensures
        consistent(after(system, occurrence)),
{
    let next = after(system, occurrence);
    lemma_holders_finite(system);
    match occurrence {
        Occurrence::Open { id, raw } => {
            assert(slot_holders(next) =~= slot_holders(system));
        },
        Occurrence::Lookup { raw, probe } => {
            assert(slot_holders(next) =~= slot_holders(system));
        },
        Occurrence::Report { id, event } => {
            if system.requests.dom().contains(id) {
                let request = system.requests[id];
                let (manager, step) = advanced(system.manager, request, event);
                let held = request.phase.holds_permit();
                match step {
                    StepView::Continue(moved, _) => {
                        let holds = moved.phase.holds_permit();
                        if held == holds {
                            assert(slot_holders(next) =~= slot_holders(system));
                        } else {
                            assert(!held && holds);
                            assert(slot_holders(next) =~= slot_holders(system).insert(id));
                        }
                    },
                    StepView::Done(_) => {
                        if held {
                            assert(slot_holders(system).contains(id));
                            assert(slot_holders(next) =~= slot_holders(system).remove(id));
                        } else {
                            assert(slot_holders(next) =~= slot_holders(system));
                        }
                    },
                }
            }
        },
    }
}

/// Any history keeps a consistent system consistent.
pub proof fn lemma_consistent_after_all(system: SystemView, history: Seq<Occurrence>)
    requires
        consistent(system),
    ensures
        consistent(after_all(system, history)),
    decreases history.len(),
{
    if history.len() > 0 {
        lemma_consistent_after_all(system, history.drop_last());
        lemma_consistent_after(after_all(system, history.drop_last()), history.last());
    }
}

/// No call changes where the cache lives or how many workers there are, and
/// no call takes a key out of the index.
pub proof fn lemma_settings_stay(system: SystemView, history: Seq<Occurrence>)
    ensures
        after_all(system, history).manager.base_dir == system.manager.base_dir,
        after_all(system, history).manager.separator == system.manager.separator,
        after_all(system, history).manager.max_workers == system.manager.max_workers,
        system.manager.present.subset_of(after_all(system, history).manager.present),
    decreases history.len(),
{
    if history.len() > 0 {
        lemma_settings_stay(system, history.drop_last());
    }
}

/// The concurrency bound: however many requests are opened, and however the
/// calls of their callers interleave, the calls to the origin that are under
/// way at any one time never outnumber the worker ceiling.
pub proof fn concurrency_bound(manager: ManagerView, history: Seq<Occurrence>)
    requires
        manager.wf(),
        manager.active_downloads == 0,
    ensures
        ({
            let reached = after_all(idle(manager), history);
            &&& reached.manager.max_workers == manager.max_workers
            &&& on_network(reached).len() <= slot_holders(reached).len()
            &&& slot_holders(reached).len() == reached.manager.active_downloads
            &&& reached.manager.active_downloads <= manager.max_workers
        }),
{
    let start = idle(manager);
    assert(slot_holders(start) =~= Set::<nat>::empty());
    assert(start.requests.dom() =~= Set::<nat>::empty());
    lemma_consistent_after_all(start, history);
    lemma_settings_stay(start, history);
    let reached = after_all(start, history);
    lemma_holders_finite(reached);
    lemma_len_subset(on_network(reached), slot_holders(reached));
}

/// Whether this call ends a download with the bytes on disk.
pub open spec fn completes_download(system: SystemView, occurrence: Occurrence) -> bool {
    &&& occurrence matches Occurrence::Report { id, event }
    &&& system.requests.dom().contains(id)
    &&& system.requests[id].phase is Persisting
    &&& event matches Event::Persisted(stored)
    &&& stored
}

/// How many downloads a history ends with the bytes on disk.
pub open spec fn downloads_in(system: SystemView, history: Seq<Occurrence>) -> nat
    decreases history.len(),
{
    if history.len() == 0 {
        0
    } else {
        let earlier = history.drop_last();
        downloads_in(system, earlier) + if completes_download(
            after_all(system, earlier),
            history.last(),
        ) {
            1nat
        } else {
            0nat
        }
    }
}

/// Each download that ends with the bytes on disk is counted once, and
/// nothing else is counted.
pub proof fn lemma_downloads_counted(system: SystemView, history: Seq<Occurrence>)
    ensures
        after_all(system, history).manager.downloaded_count == system.manager.downloaded_count
            + downloads_in(system, history),
    decreases history.len(),
{
    if history.len() > 0 {
        lemma_downloads_counted(system, history.drop_last());
    }
}

/// Status accounting: once a fresh coordinator has seen any history that
/// leaves no key in flight and no slot taken, its status reports an empty
/// queue, no download under way, and as many downloads as the history ended
/// with the bytes on disk.
pub proof fn status_accounting(manager: ManagerView, history: Seq<Occurrence>)
    requires
        manager.wf(),
        manager.active_downloads == 0,
        manager.downloaded_count == 0,
        downloads_in(idle(manager), history) <= usize::MAX,
        after_all(idle(manager), history).manager.inflight.len() == 0,
        after_all(idle(manager), history).manager.active_downloads == 0,
    ensures
        status_of(after_all(idle(manager), history).manager) == (DownloadStatus {
            queue_length: 0,
            is_downloading: false,
            active_downloads: 0,
            max_workers: manager.max_workers as usize,
            downloaded_count: downloads_in(idle(manager), history) as usize,
        }),
{
    lemma_downloads_counted(idle(manager), history);
    lemma_settings_stay(idle(manager), history);
}

/// Idempotence: once a key is in the index, every later request for it,
/// whatever has happened in between, is answered from disk alone. The request
/// asks for one thing, a read of the file at the key's path, which is the same
/// path every time; it hands the consumer the bytes that the read delivered;
/// it leaves the coordinator as it was; and no report can make it ask for
/// anything else, the origin included.
pub proof fn cached_key_is_served_from_disk(
    system: SystemView,
    history: Seq<Occurrence>,
    raw: Seq<char>,
    event: Event,
)
    requires
        system.manager.present.contains(normalized_key(raw)),
    ensures
        ({
            let later = after_all(system, history).manager;
            let request = opened(later, raw);
            let read = ActionView::ReadFile { path: request.abs_path };
            &&& request.phase == Phase::ReadingCached
            &&& request.abs_path == absolute_path(
                system.manager.base_dir,
                normalized_key(raw),
                system.manager.separator,
            )
            &&& pending_action(request) == read
            &&& advanced(later, request, event).0 == later
            &&& advanced(later, request, event).1 == match event {
                Event::FileRead(Some(data)) => deliver(request, request.abs_path, data@),
                Event::FileRead(None) => StepView::Done(Err(FetchError::Io)),
                _ => StepView::Continue(request, read),
            }
        }),
{
    lemma_settings_stay(system, history);
}

/// Fetch-through, end to end: a request for a resource that is neither in the
/// index nor on disk nor in flight, made while a slot is free, asks in turn
/// for a probe of the resource's path, for a slot, for the resource at the
/// origin's address of its key, for the body, and for the body to be written
/// to the resource's path; and when all of that goes well it hands the
/// consumer the body. Afterwards the key is in the index and no longer in
/// flight, the slot is free again, and one more download is counted.
pub proof fn first_request_fetches_through(
    manager: ManagerView,
    raw: Seq<char>,
    probe: PathProbe,
    status: u16,
    body: Vec<u8>,
)
    requires
        !manager.present.contains(normalized_key(raw)),
        !manager.inflight.contains(normalized_key(raw)),
        manager.active_downloads < manager.max_workers,
        resolved(opened(manager, raw).abs_path, probe) is None,
        is_success(status),
    ensures
        ({
            let key = normalized_key(raw);
            let abs_path = absolute_path(manager.base_dir, key, manager.separator);
            let request = opened(manager, raw);
            let (probed, first) = advanced(manager, request, Event::Probed(probe));
            let (admitted, second) = advanced(probed, first->Continue_0, Event::PermitAcquired);
            let (answered, third) = advanced(
                admitted,
                second->Continue_0,
                Event::Responded { status },
            );
            let (received, fourth) = advanced(answered, third->Continue_0, Event::Body(Some(body)));
            let (stored, last) = advanced(received, fourth->Continue_0, Event::Persisted(true));
            &&& pending_action(request) == ActionView::Probe { path: abs_path }
            &&& first matches StepView::Continue(_, ActionView::AcquirePermit)
            &&& second matches StepView::Continue(_, ActionView::HttpGet { url })
            &&& url == remote_url(key)
            &&& third matches StepView::Continue(_, ActionView::ReadBody)
            &&& fourth matches StepView::Continue(_, ActionView::Persist { path, data })
            &&& path == abs_path
            &&& data == body@
            &&& last == deliver(request, abs_path, body@)
            &&& admitted.active_downloads == manager.active_downloads + 1
            &&& admitted.inflight == manager.inflight.insert(key)
            &&& stored == (ManagerView {
                present: manager.present.insert(key),
                downloaded_count: manager.downloaded_count + 1,
                ..manager
            })
        }),
{
    let key = normalized_key(raw);
    assert(manager.inflight.insert(key).remove(key) =~= manager.inflight);
}

/// When the origin is asked: a request turns to the origin in two situations
/// only. Either it has just been given a slot and its key was not in flight,
/// which makes it the claimant; or it is a follower that has waited out its
/// last look. No other report makes a request that was not fetching fetch.
pub proof fn origin_is_asked_by_claimants_and_late_followers(
    manager: ManagerView,
    request: RequestView,
    event: Event,
)
    requires
        !(request.phase is Fetching),
        advanced(manager, request, event).1 matches StepView::Continue(_, action) && action
            is HttpGet,
    ensures
        ({
            let (after, step) = advanced(manager, request, event);
            let claims = request.phase is AwaitingPermit && event is PermitAcquired
                && !manager.inflight.contains(request.key) && manager.active_downloads
                < manager.max_workers;
            let gives_up = request.phase matches Phase::Sleeping { remaining } && remaining <= 1
                && event is Slept;
            &&& claims || gives_up
            &&& claims ==> step->Continue_0.phase == (Phase::Fetching { claimant: true })
                && after.inflight == manager.inflight.insert(request.key)
            &&& gives_up ==> step->Continue_0.phase == (Phase::Fetching { claimant: false })
                && after == manager
        }),
{
}

/// Every way out gives back: a request that holds a download slot and ends,
/// with the resource or with any error, frees its slot; if it is the claimant
/// of its key, or if it put the bytes on disk, the key is in flight no longer;
/// otherwise the in-flight set stays as it is.
pub proof fn every_way_out_gives_back(manager: ManagerView, request: RequestView, event: Event)
    requires
        request.phase.holds_permit(),
        advanced(manager, request, event).1 is Done,
    ensures
        ({
            let (after, step) = advanced(manager, request, event);
            let stored = request.phase is Persisting && step matches StepView::Done(Ok(_));
            &&& after.active_downloads == if manager.active_downloads > 0 {
                (manager.active_downloads - 1) as nat
            } else {
                0
            }
            &&& after.max_workers == manager.max_workers
            &&& if request.phase.is_claimant() || stored {
                after.inflight == manager.inflight.remove(request.key)
            } else {
                after.inflight == manager.inflight
            }
            &&& after.downloaded_count == manager.downloaded_count + if stored {
                1nat
            } else {
                0nat
            }
        }),
{
}

/// Whether this call makes a request for `key` turn to the origin.
pub open spec fn asks_origin_for(system: SystemView, occurrence: Occurrence, key: Seq<char>) -> bool {
    &&& occurrence matches Occurrence::Report { id, event }
    &&& system.requests.dom().contains(id)
    &&& system.requests[id].key == key
    &&& !(system.requests[id].phase is Fetching)
    &&& advanced(system.manager, system.requests[id], event).1 matches StepView::Continue(next, _)
    &&& next.phase is Fetching
}

/// Whether this call is the end of a follower's last wait.
pub open spec fn follower_gives_up(system: SystemView, occurrence: Occurrence) -> bool {
    &&& occurrence matches Occurrence::Report { id, event }
    &&& system.requests.dom().contains(id)
    &&& system.requests[id].phase matches Phase::Sleeping { remaining }
    &&& remaining <= 1
    &&& event is Slept
}

/// Whether this call takes `key` out of the in-flight set.
pub open spec fn ends_flight_of(system: SystemView, occurrence: Occurrence, key: Seq<char>) -> bool {
    &&& system.manager.inflight.contains(key)
    &&& !after(system, occurrence).manager.inflight.contains(key)
}

/// Whether no follower runs out of looks anywhere in a history.
pub open spec fn no_follower_gives_up(system: SystemView, history: Seq<Occurrence>) -> bool
    decreases history.len(),
{
    history.len() == 0 || (no_follower_gives_up(system, history.drop_last())
        && !follower_gives_up(after_all(system, history.drop_last()), history.last()))
}

/// How often a history makes a request for `key` turn to the origin.
pub open spec fn asks_in(system: SystemView, history: Seq<Occurrence>, key: Seq<char>) -> nat
    decreases history.len(),
{
    if history.len() == 0 {
        0
    } else {
        let earlier = history.drop_last();
        asks_in(system, earlier, key) + if asks_origin_for(
            after_all(system, earlier),
            history.last(),
            key,
        ) {
            1nat
        } else {
            0nat
        }
    }
}

/// How often a history takes `key` out of the in-flight set.
pub open spec fn flights_ended_in(
    system: SystemView,
    history: Seq<Occurrence>,
    key: Seq<char>,
) -> nat
    decreases history.len(),
{
    if history.len() == 0 {
        0
    } else {
        let earlier = history.drop_last();
        flights_ended_in(system, earlier, key) + if ends_flight_of(
            after_all(system, earlier),
            history.last(),
            key,
        ) {
            1nat
        } else {
            0nat
        }
    }
}

/// One if `key` is in flight, zero if not.
pub open spec fn in_flight(manager: ManagerView, key: Seq<char>) -> nat {
    if manager.inflight.contains(key) {
        1
    } else {
        0
    }
}

/// Deduplication, over any history: as long as no follower runs out of looks,
/// the origin is asked for a key once per flight of that key and never
/// otherwise. However many requests ask for the key at once, a history that
/// starts and ends with the key out of flight and in which it was in flight
/// once has asked the origin for it exactly once.
pub proof fn one_fetch_per_flight(system: SystemView, history: Seq<Occurrence>, key: Seq<char>)
    requires
        no_follower_gives_up(system, history),
    ensures
        asks_in(system, history, key) + in_flight(system.manager, key) == flights_ended_in(
            system,
            history,
            key,
        ) + in_flight(after_all(system, history).manager, key),
    decreases history.len(),
{
    if history.len() > 0 {
        one_fetch_per_flight(system, history.drop_last(), key);
    }
}

/// Deduplication, the admission: a request that gets its slot while another
/// one has claimed the same key does not ask the origin. It starts to look for
/// the file with its whole budget of looks, and the claim stays with the
/// claimant.
pub proof fn second_request_follows(manager: ManagerView, request: RequestView)
    requires
        request.phase == Phase::AwaitingPermit,
        manager.inflight.contains(request.key),
        manager.active_downloads < manager.max_workers,
    ensures
        ({
            let (admitted, step) = advanced(manager, request, Event::PermitAcquired);
            let follower = RequestView { phase: Phase::Polling { remaining: POLL_ATTEMPTS }, ..request };
            &&& step == StepView::Continue(
                follower,
                ActionView::CheckExists { path: request.abs_path },
            )
            &&& admitted.inflight == manager.inflight
            &&& admitted.active_downloads == manager.active_downloads + 1
        }),
{
}

/// Deduplication, the happy path: a follower whose look finds the file reads
/// it and hands the consumer what the read delivered. On the way it never
/// asks the origin, counts no download, and leaves the claim where it is; it
/// records the key in the index and gives its slot back.
pub proof fn follower_is_served_from_disk(
    manager: ManagerView,
    request: RequestView,
    data: Vec<u8>,
)
    requires
        request.phase is Polling,
    ensures
        ({
            let (seen, look) = advanced(manager, request, Event::Existence(true));
            let reading = RequestView { phase: Phase::ReadingAppeared, ..request };
            let (done, read) = advanced(seen, reading, Event::FileRead(Some(data)));
            &&& seen == manager
            &&& look == StepView::Continue(
                reading,
                ActionView::ReadFile { path: request.abs_path },
            )
            &&& read == deliver(request, request.abs_path, data@)
            &&& done.present == manager.present.insert(request.key)
            &&& done.inflight == manager.inflight
            &&& done.downloaded_count == manager.downloaded_count
            &&& done.active_downloads == if manager.active_downloads > 0 {
                (manager.active_downloads - 1) as nat
            } else {
                0
            }
        }),
{
}

/// Deduplication, the budget: a follower whose look finds nothing waits and
/// looks again, and asks the origin itself only when its last look has found
/// nothing. Until then it asks for nothing but looks and waits.
pub proof fn follower_keeps_to_its_budget(
    manager: ManagerView,
    request: RequestView,
    remaining: u8,
)
    requires
        request.phase == (Phase::Polling { remaining }),
    ensures
        ({
            let (unseen, look) = advanced(manager, request, Event::Existence(false));
            let waiting = RequestView { phase: Phase::Sleeping { remaining }, ..request };
            let (woken, wait) = advanced(unseen, waiting, Event::Slept);
            &&& unseen == manager
            &&& woken == manager
            &&& look matches StepView::Continue(paused, pause)
            &&& paused == waiting
            &&& pause is Sleep
            &&& wait matches StepView::Continue(next, action)
            &&& if remaining <= 1 {
                next.phase == (Phase::Fetching { claimant: false }) && action is HttpGet
            } else {
                next.phase == (Phase::Polling { remaining: (remaining - 1) as u8 })
                    && action is CheckExists
            }
        }),
{
}

} // verus!
