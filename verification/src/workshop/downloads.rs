//! The download state machine: what each request, login and poll leads to.
//!
//! Every item is in one of four states. It is unknown to the engine, queued
//! until the session has logged in, downloading, or done. The functions here
//! say, over a mathematical model of the engine, which state follows and what
//! the host has to do.

use vstd::prelude::*;
use crate::artifact::{mounted_path, mounted_path_of, ArtifactError};
use crate::callbacks::{acquire_action, hook_after, HookAction};

verus! {

/// A reference to a continuation that the host keeps for a caller.
///
/// The engine never looks inside: it carries the handle until the result is
/// known and then hands it back, once.
#[derive(Clone, Copy, Debug, PartialEq, Eq, Structural)]
pub struct CompletionHandle(pub i32);

/// Where the host finds what was installed for an item.
#[derive(Clone, Debug, PartialEq, Eq)]
pub enum Located {
    /// In the cache: the package file is already there.
    Cache,
    /// At the place that the backend reports for the item.
    Folder(String),
}

/// A result that is ready to go to a caller.
#[derive(Clone, Debug, PartialEq, Eq)]
pub struct Delivery {
    /// The caller's continuation, if the caller gave one.
    pub callback: Option<CompletionHandle>,
    /// The item that was asked for.
    pub workshop_id: u64,
    /// Where the item lies, or nothing if the request has failed.
    pub located: Option<Located>,
}

/// What the host observed for an item before anything is asked of the backend.
#[derive(Clone, Debug, PartialEq, Eq)]
pub struct Probe {
    /// Whether the cache holds a package file for the item.
    pub cached: bool,
    /// The place where the item is installed, if it is.
    pub installed: Option<String>,
    /// Whether the session has logged in.
    pub logged_in: bool,
}

/// What a request to download an item leads to.
#[derive(Clone, Debug, PartialEq, Eq)]
pub enum DownloadStep {
    /// The item is on disk: the result can be delivered.
    Deliver(Delivery),
    /// The session has not logged in: the request waits in the queue.
    Queued {
        /// What to do with the login watcher.
        watcher: HookAction,
        /// The continuation of an earlier request for the item, which this one
        /// replaces: it is owed a failure.
        displaced: Option<CompletionHandle>,
    },
    /// The item is downloading already: nothing is asked of the backend.
    Joined {
        /// The continuation of an earlier request for the item, which this one
        /// replaces: it is owed a failure.
        displaced: Option<CompletionHandle>,
    },
    /// The host has to ask the backend for the item and report the answer.
    Request {
        /// The caller's continuation, to be handed back with the answer.
        callback: Option<CompletionHandle>,
        /// The item to ask for.
        workshop_id: u64,
    },
}

/// What the backend's answer to a download request leads to.
#[derive(Clone, Debug, PartialEq, Eq)]
pub enum RequestStep {
    /// The backend refused: the failure can be delivered.
    Rejected(Delivery),
    /// The item was installed meanwhile: the result can be delivered.
    Installed(Delivery),
    /// The item is downloading: the poll will find it.
    Downloading {
        /// What to do with the host-tick hook.
        hook: HookAction,
        /// The continuation of an earlier request for the item, which this one
        /// replaces: it is owed a failure.
        displaced: Option<CompletionHandle>,
    },
}

/// An item that a poll found installed.
#[derive(Clone, Debug, PartialEq, Eq)]
pub struct Installed {
    /// The item.
    pub workshop_id: u64,
    /// The place where it is installed.
    pub folder: String,
}

/// What a poll leads to.
#[derive(Clone, Debug, PartialEq, Eq)]
pub struct PollStep {
    /// The results that are ready, in the order in which the items were reported.
    pub deliveries: Vec<Delivery>,
    /// What to do with the host-tick hook.
    pub hook: HookAction,
}

/// A request that was queued before login and is made again after it.
#[derive(Clone, Copy, Debug, PartialEq, Eq, Structural)]
pub struct Replay {
    /// The item.
    pub workshop_id: u64,
    /// The caller's continuation, if the caller gave one.
    pub callback: Option<CompletionHandle>,
}

/// What a tick of the login watcher leads to.
#[derive(Clone, Debug, PartialEq, Eq)]
pub struct QueueStep {
    /// The requests to make again, in no particular order.
    pub replays: Vec<Replay>,
    /// What to do with the login watcher.
    pub watcher: HookAction,
}

/// The engine's state, as mathematics.
pub struct Model {
    /// The downloads that the backend has accepted and that are not yet installed.
    pub pending: Map<u64, Option<CompletionHandle>>,
    /// The requests that wait for the session to log in.
    pub queued: Map<u64, Option<CompletionHandle>>,
    /// The number of operations that need the host-tick hook.
    pub outstanding: nat,
}

impl Model {
    /// Every pending download counts as an operation that needs the hook.
    pub open spec fn wf(self) -> bool {
        &&& self.pending.dom().finite()
        &&& self.queued.dom().finite()
        &&& self.outstanding >= self.pending.len()
    }

    /// The engine before anything was asked of it.
    pub open spec fn empty() -> Model {
        Model { pending: Map::empty(), queued: Map::empty(), outstanding: 0 }
    }

    /// The number of metadata queries that are in flight.
    pub open spec fn queries(self) -> nat {
        (self.outstanding - self.pending.len()) as nat
    }

    /// Whether the host-tick hook is installed.
    pub open spec fn hooked(self) -> bool {
        self.outstanding > 0
    }

    /// Whether the login watcher is installed.
    pub open spec fn watching(self) -> bool {
        !self.queued.is_empty()
    }
}

/// The continuation that an entry of a tracking set held for `id`, if it held one.
pub open spec fn held(set: Map<u64, Option<CompletionHandle>>, id: u64) -> Option<
    CompletionHandle,
> {
    if set.contains_key(id) {
        set[id]
    } else {
        None
    }
}

/// The pending set after one more request for an item that is downloading
/// already: a request with a continuation replaces what was there.
pub open spec fn joined(
    pending: Map<u64, Option<CompletionHandle>>,
    id: u64,
    callback: Option<CompletionHandle>,
) -> Map<u64, Option<CompletionHandle>> {
    if callback is Some {
        pending.insert(id, callback)
    } else {
        pending
    }
}

/// The continuation that a request displaces when it joins a download.
pub open spec fn displaced_by_join(
    pending: Map<u64, Option<CompletionHandle>>,
    id: u64,
    callback: Option<CompletionHandle>,
) -> Option<CompletionHandle> {
    if callback is Some {
        held(pending, id)
    } else {
        None
    }
}

/// The engine after a request to download `id`.
pub open spec fn download_state(
    m: Model,
    id: u64,
    callback: Option<CompletionHandle>,
    probe: Probe,
) -> Model {
    if probe.cached || probe.installed is Some {
        m
    } else if !probe.logged_in {
        Model { queued: m.queued.insert(id, callback), ..m }
    } else if m.pending.contains_key(id) {
        Model { pending: joined(m.pending, id, callback), ..m }
    } else {
        m
    }
}

/// What a request to download `id` leads to.
///
/// What is on disk is delivered, the cache first. Without a login the request
/// is queued. An item that is downloading is not asked for again. Only then
/// is the backend asked.
pub open spec fn download_step(
    m: Model,
    id: u64,
    callback: Option<CompletionHandle>,
    probe: Probe,
) -> DownloadStep {
    if probe.cached {
        DownloadStep::Deliver(
            Delivery { callback, workshop_id: id, located: Some(Located::Cache) },
        )
    } else if probe.installed is Some {
        DownloadStep::Deliver(
            Delivery {
                callback,
                workshop_id: id,
                located: Some(Located::Folder(probe.installed->0)),
            },
        )
    } else if !probe.logged_in {
        DownloadStep::Queued {
            watcher: if m.queued.is_empty() {
                HookAction::Install
            } else {
                HookAction::Keep
            },
            displaced: held(m.queued, id),
        }
    } else if m.pending.contains_key(id) {
        DownloadStep::Joined { displaced: displaced_by_join(m.pending, id, callback) }
    } else {
        DownloadStep::Request { callback, workshop_id: id }
    }
}

/// The engine after the backend's answer to a request for `id`.
pub open spec fn requested_state(
    m: Model,
    id: u64,
    callback: Option<CompletionHandle>,
    accepted: bool,
    installed: Option<String>,
) -> Model {
    if !accepted || installed is Some {
        m
    } else if m.pending.contains_key(id) {
        Model { pending: joined(m.pending, id, callback), ..m }
    } else {
        Model {
            pending: m.pending.insert(id, callback),
            outstanding: m.outstanding + 1,
            ..m
        }
    }
}

/// What the backend's answer to a request for `id` leads to.
///
/// A refusal is a failure. An item that is installed by now is delivered.
/// Any other item is pending from now on, and counts once for the hook.
pub open spec fn requested_step(
    m: Model,
    id: u64,
    callback: Option<CompletionHandle>,
    accepted: bool,
    installed: Option<String>,
) -> RequestStep {
    if !accepted {
        RequestStep::Rejected(Delivery { callback, workshop_id: id, located: None })
    } else if installed is Some {
        RequestStep::Installed(
            Delivery { callback, workshop_id: id, located: Some(Located::Folder(installed->0)) },
        )
    } else if m.pending.contains_key(id) {
        RequestStep::Downloading {
            hook: HookAction::Keep,
            displaced: displaced_by_join(m.pending, id, callback),
        }
    } else {
        RequestStep::Downloading { hook: acquire_action(m.outstanding), displaced: None }
    }
}

/// The items that a poll reported as installed.
pub open spec fn reported_ids(reports: Seq<Installed>) -> Set<u64> {
    Set::new(
        |id: u64| exists|i: int| 0 <= i < reports.len() && #[trigger] reports[i].workshop_id == id,
    )
}

/// The last report adds its item to those that the earlier reports name.
pub proof fn lemma_reported_ids_last(reports: Seq<Installed>)
    requires
        reports.len() > 0,
    ensures
        reported_ids(reports) == reported_ids(reports.drop_last()).insert(
            reports.last().workshop_id,
        ),
{
    let earlier = reports.drop_last();
    let last = reports.last().workshop_id;
    assert forall|id: u64| reported_ids(earlier).insert(last).contains(id) implies reported_ids(
        reports,
    ).contains(id) by {
        if id == last {
            assert(reports[reports.len() - 1].workshop_id == id);
        } else {
            let k = choose|k: int| 0 <= k < earlier.len() && #[trigger] earlier[k].workshop_id == id;
            assert(reports[k].workshop_id == id);
        }
    }
    assert forall|id: u64| reported_ids(reports).contains(id) implies reported_ids(earlier).insert(
        last,
    ).contains(id) by {
        let k = choose|k: int| 0 <= k < reports.len() && #[trigger] reports[k].workshop_id == id;
        if k < reports.len() - 1 {
            assert(earlier[k].workshop_id == id);
        }
    }
    assert(reported_ids(reports) =~= reported_ids(earlier).insert(last));
}

/// The results that a poll makes ready: one for each pending item that was
/// reported, in the order of the reports and for its first report only.
pub open spec fn completed(
    pending: Map<u64, Option<CompletionHandle>>,
    reports: Seq<Installed>,
) -> Seq<Delivery>
    decreases reports.len(),
{
    if reports.len() == 0 {
        Seq::empty()
    } else {
        let earlier = reports.drop_last();
        let report = reports.last();
        if pending.contains_key(report.workshop_id) && !reported_ids(earlier).contains(
            report.workshop_id,
        ) {
            completed(pending, earlier).push(
                Delivery {
                    callback: pending[report.workshop_id],
                    workshop_id: report.workshop_id,
                    located: Some(Located::Folder(report.folder)),
                },
            )
        } else {
            completed(pending, earlier)
        }
    }
}

/// The engine after a poll: what was reported is pending no more, and each
/// completed download gives up its claim on the hook.
pub open spec fn poll_state(m: Model, reports: Seq<Installed>) -> Model {
    Model {
        pending: m.pending.remove_keys(reported_ids(reports)),
        outstanding: (m.outstanding - completed(m.pending, reports).len()) as nat,
        ..m
    }
}

/// What a poll does to the hook: the last operation to finish removes it.
pub open spec fn poll_hook(m: Model, reports: Seq<Installed>) -> HookAction {
    if m.outstanding > 0 && poll_state(m, reports).outstanding == 0 {
        HookAction::Remove
    } else {
        HookAction::Keep
    }
}

/// Whether `replays` lists the requests of `queued`: each once, and no other.
pub open spec fn lists_queue(
    queued: Map<u64, Option<CompletionHandle>>,
    replays: Seq<Replay>,
) -> bool {
    &&& forall|i: int|
        0 <= i < replays.len() ==> queued.contains_pair(
            (#[trigger] replays[i]).workshop_id,
            replays[i].callback,
        )
    &&& forall|i: int, j: int|
        0 <= i < j < replays.len() ==> (#[trigger] replays[i]).workshop_id != (
        #[trigger] replays[j]).workshop_id
    &&& forall|id: u64| #[trigger]
        queued.contains_key(id) ==> exists|i: int|
            0 <= i < replays.len() && (#[trigger] replays[i]).workshop_id == id
}

/// The engine after a tick of the login watcher: a login empties the queue.
pub open spec fn queue_state(m: Model, logged_in: bool) -> Model {
    if logged_in {
        Model { queued: Map::empty(), ..m }
    } else {
        m
    }
}

/// The requests that a tick of the login watcher makes again: all that are
/// queued once the session has logged in, none before.
pub open spec fn replayed(m: Model, logged_in: bool) -> Map<u64, Option<CompletionHandle>> {
    if logged_in {
        m.queued
    } else {
        Map::empty()
    }
}

/// What a tick of the login watcher does to the watcher: it goes with the queue.
pub open spec fn queue_watcher(m: Model, logged_in: bool) -> HookAction {
    if logged_in && !m.queued.is_empty() {
        HookAction::Remove
    } else {
        HookAction::Keep
    }
}

/// The delivery that a displaced continuation is owed: a failure for its
/// item. A request that a later one replaces is resolved too, not dropped.
pub open spec fn superseded(id: u64, displaced: Option<CompletionHandle>) -> Option<Delivery> {
    match displaced {
        Some(handle) => Some(Delivery { callback: Some(handle), workshop_id: id, located: None }),
        None => None,
    }
}

/// Gives the delivery that a displaced continuation is owed, if there is one.
pub fn displaced_delivery(workshop_id: u64, displaced: Option<CompletionHandle>) -> (delivery:
    Option<Delivery>)
    ensures
        delivery == superseded(workshop_id, displaced),
{
    match displaced {
        Some(handle) => Some(Delivery { callback: Some(handle), workshop_id, located: None }),
        None => None,
    }
}

/// Whether the host has to produce the package file before the result goes
/// to the caller: only a caller who waits makes that worth doing, and only a
/// reported folder leaves anything to do.
pub open spec fn needs_package(delivery: Delivery) -> bool {
    delivery.callback is Some && delivery.located matches Some(Located::Folder(_))
}

/// Says whether the host has to produce the package file for a delivery.
pub fn must_produce(delivery: &Delivery) -> (needed: bool)
    ensures
        needed == needs_package(*delivery),
{
    match (&delivery.callback, &delivery.located) {
        (Some(_), Some(Located::Folder(_))) => true,
        _ => false,
    }
}

/// The path that goes to the caller of a delivery, `produced` being how the
/// production of the package file ended; nothing stands for failure.
///
/// What the cache holds is delivered as it is. An item from a reported folder
/// is delivered if its package file was stored. A failed request, a package
/// file that was not found and an error all deliver nothing.
pub open spec fn delivered_path(
    delivery: Delivery,
    produced: Result<Option<()>, ArtifactError>,
) -> Option<Seq<char>> {
    match delivery.located {
        None => None,
        Some(Located::Cache) => Some(mounted_path_of(delivery.workshop_id)),
        Some(Located::Folder(_)) => if produced matches Ok(Some(_)) {
            Some(mounted_path_of(delivery.workshop_id))
        } else {
            None
        },
    }
}

/// Decides what goes to the caller of a delivery.
///
/// `produced` is how the production of the package file ended; it is looked
/// at only where `must_produce` asked for one.
pub fn callback(delivery: &Delivery, produced: Result<Option<()>, ArtifactError>) -> (path: Option<
    String,
>)
    ensures
        match path {
            Some(path) => delivered_path(*delivery, produced) == Some(path@),
            None => delivered_path(*delivery, produced) is None,
        },
{
    match &delivery.located {
        None => None,
        Some(Located::Cache) => Some(mounted_path(delivery.workshop_id)),
        Some(Located::Folder(_)) => match produced {
            Ok(Some(_)) => Some(mounted_path(delivery.workshop_id)),
            _ => None,
        },
    }
}

/// An item that the cache holds is delivered at once: the backend is not
/// asked, nothing is tracked, and the caller gets the cached package file.
pub proof fn lemma_cached_is_delivered_at_once(
    m: Model,
    id: u64,
    callback: Option<CompletionHandle>,
    probe: Probe,
    produced: Result<Option<()>, ArtifactError>,
)
    requires
        probe.cached,
    ensures
        download_state(m, id, callback, probe) == m,
        download_step(m, id, callback, probe) matches DownloadStep::Deliver(delivery)
            && delivery.callback == callback && delivery.workshop_id == id && !needs_package(
            delivery,
        ) && delivered_path(delivery, produced) == Some(mounted_path_of(id)),
{
}

/// What the host observes for an item that is not on disk, before the login.
pub open spec fn logged_out() -> Probe {
    Probe { cached: false, installed: None, logged_in: false }
}

/// The engine after a run of requests that were all made before the login,
/// for items that are not on disk.
pub open spec fn queue_all(m: Model, requests: Seq<Replay>) -> Model
    decreases requests.len(),
{
    if requests.len() == 0 {
        m
    } else {
        download_state(
            queue_all(m, requests.drop_last()),
            requests.last().workshop_id,
            requests.last().callback,
            logged_out(),
        )
    }
}

/// The last request of a run for `id`, if the run holds one.
pub open spec fn last_request(requests: Seq<Replay>, id: u64) -> Option<Replay>
    decreases requests.len(),
{
    if requests.len() == 0 {
        None
    } else if requests.last().workshop_id == id {
        Some(requests.last())
    } else {
        last_request(requests.drop_last(), id)
    }
}

/// Requests made before the login are queued, whatever their number: none is
/// delivered, none fails, only the queue changes, every item that was asked
/// for is in the queue, and for each item the queue holds the continuation of
/// the last request for it.
pub proof fn lemma_requests_before_login_are_queued(m: Model, requests: Seq<Replay>)
    ensures
        queue_all(m, requests).pending == m.pending,
        queue_all(m, requests).outstanding == m.outstanding,
        forall|n: int|
            0 <= n < requests.len() ==> (#[trigger] download_step(
                queue_all(m, requests.take(n)),
                requests[n].workshop_id,
                requests[n].callback,
                logged_out(),
            )) is Queued,
        forall|id: u64|
            #![trigger queue_all(m, requests).queued.contains_key(id)]
            #![trigger last_request(requests, id)]
            queue_all(m, requests).queued.contains_key(id) <==> m.queued.contains_key(id)
                || last_request(requests, id) is Some,
        forall|id: u64|
            #![trigger last_request(requests, id)]
            #![trigger queue_all(m, requests).queued[id]]
            last_request(requests, id) is Some ==> queue_all(m, requests).queued[id]
                == last_request(requests, id)->0.callback,
        forall|n: int|
            0 <= n < requests.len() ==> last_request(requests, (#[trigger] requests[n]).workshop_id)
                is Some,
    decreases requests.len(),
{
    if requests.len() > 0 {
        let earlier = requests.drop_last();
        let last = requests.last();
        lemma_requests_before_login_are_queued(m, earlier);
        let before = queue_all(m, earlier);
        let after = queue_all(m, requests);
        assert(after.queued == before.queued.insert(last.workshop_id, last.callback));
        assert forall|n: int| 0 <= n < requests.len() implies (#[trigger] download_step(
            queue_all(m, requests.take(n)),
            requests[n].workshop_id,
            requests[n].callback,
            logged_out(),
        )) is Queued by {
            if n < earlier.len() {
                assert(earlier.take(n) =~= requests.take(n));
                assert(download_step(
                    queue_all(m, earlier.take(n)),
                    earlier[n].workshop_id,
                    earlier[n].callback,
                    logged_out(),
                ) is Queued);
            }
        }
        assert forall|n: int| 0 <= n < requests.len() implies last_request(
            requests,
            (#[trigger] requests[n]).workshop_id,
        ) is Some by {
            if n < earlier.len() {
                assert(earlier[n] == requests[n]);
                assert(last_request(earlier, earlier[n].workshop_id) is Some);
            }
        }
        assert forall|id: u64|
            after.queued.contains_key(id) <==> m.queued.contains_key(id) || last_request(
                requests,
                id,
            ) is Some by {
            assert(before.queued.contains_key(id) <==> m.queued.contains_key(id) || last_request(
                earlier,
                id,
            ) is Some);
        }
        assert forall|id: u64| last_request(requests, id) is Some implies after.queued[id]
            == last_request(requests, id)->0.callback by {
            if last.workshop_id != id {
                assert(last_request(earlier, id) is Some);
            }
        }
    }
}

/// Once the session has logged in, one tick of the login watcher replays
/// every queued request and leaves the queue empty; before the login it
/// replays none and leaves the queue alone.
pub proof fn lemma_login_replays_the_queue(m: Model)
    ensures
        replayed(m, true) == m.queued,
        queue_state(m, true).queued == Map::<u64, Option<CompletionHandle>>::empty(),
        !queue_state(m, true).watching(),
        replayed(m, false) == Map::<u64, Option<CompletionHandle>>::empty(),
        queue_state(m, false) == m,
{
}

/// While an item is downloading, no request for it reaches the backend, and
/// no request ends the download: whatever the host observes, the step is not
/// `Request` and the item stays pending.
pub proof fn lemma_one_request_in_flight(
    m: Model,
    id: u64,
    callback: Option<CompletionHandle>,
    probe: Probe,
)
    requires
        m.pending.contains_key(id),
    ensures
        !(download_step(m, id, callback, probe) is Request),
        download_state(m, id, callback, probe).pending.contains_key(id),
        download_state(m, id, callback, probe).outstanding == m.outstanding,
{
}

/// A request that the backend accepts for an item that is not installed yet
/// makes the item pending.
pub proof fn lemma_accepted_is_pending(m: Model, id: u64, callback: Option<CompletionHandle>)
    ensures
        requested_state(m, id, callback, true, None).pending.contains_key(id),
{
}

/// A poll completes as many downloads as pending items were reported, which
/// is no more than are pending.
pub proof fn lemma_completed_len(
    pending: Map<u64, Option<CompletionHandle>>,
    reports: Seq<Installed>,
)
    requires
        pending.dom().finite(),
    ensures
        reported_ids(reports).finite(),
        completed(pending, reports).len() == pending.dom().intersect(reported_ids(reports)).len(),
        completed(pending, reports).len() <= pending.len(),
        pending.remove_keys(reported_ids(reports)).dom().finite(),
        pending.remove_keys(reported_ids(reports)).len() == pending.len() - completed(
            pending,
            reports,
        ).len(),
    decreases reports.len(),
{
    let ids = reported_ids(reports);
    if reports.len() == 0 {
        assert(ids =~= Set::<u64>::empty());
        assert(pending.dom().intersect(ids) =~= Set::<u64>::empty());
    } else {
        let earlier = reports.drop_last();
        let id = reports.last().workshop_id;
        lemma_completed_len(pending, earlier);
        lemma_reported_ids_last(reports);
        let known = pending.dom().intersect(reported_ids(earlier));
        if pending.contains_key(id) && !reported_ids(earlier).contains(id) {
            assert(pending.dom().intersect(ids) =~= known.insert(id));
        } else {
            assert(pending.dom().intersect(ids) =~= known);
        }
    }
    let reported = pending.dom().intersect(ids);
    vstd::set_lib::lemma_len_intersect::<u64>(pending.dom(), ids);
    assert(pending.remove_keys(ids).dom() =~= pending.dom().difference(reported));
    lemma_len_of_removed_part(pending.dom(), reported);
}

/// Taking a part away from a finite set leaves what the part did not count.
proof fn lemma_len_of_removed_part(whole: Set<u64>, part: Set<u64>)
    requires
        whole.finite(),
        part.subset_of(whole),
    ensures
        whole.difference(part).finite(),
        whole.difference(part).len() == whole.len() - part.len(),
    decreases whole.len(),
{
    vstd::set_lib::lemma_len_subset::<u64>(part, whole);
    if part.is_empty() {
        assert(whole.difference(part) =~= whole);
        assert(part.len() == 0);
    } else {
        let x = part.choose();
        assert(whole.contains(x));
        lemma_len_of_removed_part(whole.remove(x), part.remove(x));
        assert(whole.remove(x).difference(part.remove(x)) =~= whole.difference(part));
    }
}

/// A poll delivers each download that it completes exactly once: every
/// delivery is for a pending item that was reported and carries the
/// continuation that waited for it, no two deliveries are for the same item,
/// every pending item that was reported has its delivery, and none of them is
/// pending afterwards.
pub proof fn lemma_poll_delivers_once(
    pending: Map<u64, Option<CompletionHandle>>,
    reports: Seq<Installed>,
)
    ensures
        forall|i: int|
            0 <= i < completed(pending, reports).len() ==> {
                let delivery = #[trigger] completed(pending, reports)[i];
                &&& pending.contains_key(delivery.workshop_id)
                &&& reported_ids(reports).contains(delivery.workshop_id)
                &&& delivery.callback == pending[delivery.workshop_id]
                &&& delivery.located is Some
                &&& !pending.remove_keys(reported_ids(reports)).contains_key(delivery.workshop_id)
            },
        forall|i: int, j: int|
            0 <= i < j < completed(pending, reports).len() ==> (#[trigger] completed(
                pending,
                reports,
            )[i]).workshop_id != (#[trigger] completed(pending, reports)[j]).workshop_id,
        forall|id: u64|
            pending.contains_key(id) && #[trigger] reported_ids(reports).contains(id)
                ==> exists|i: int|
                0 <= i < completed(pending, reports).len() && (#[trigger] completed(
                    pending,
                    reports,
                )[i]).workshop_id == id,
    decreases reports.len(),
{
    if reports.len() > 0 {
        let earlier = reports.drop_last();
        let last = reports.last().workshop_id;
        lemma_poll_delivers_once(pending, earlier);
        lemma_reported_ids_last(reports);
        let before = completed(pending, earlier);
        let after = completed(pending, reports);
        assert forall|i: int| 0 <= i < before.len() implies before[i] == after[i] by {}
        assert forall|id: u64|
            pending.contains_key(id) && #[trigger] reported_ids(reports).contains(
                id,
            ) implies exists|i: int|
            0 <= i < after.len() && (#[trigger] after[i]).workshop_id == id by {
            if reported_ids(earlier).contains(id) {
                let i = choose|i: int|
                    0 <= i < before.len() && (#[trigger] before[i]).workshop_id == id;
                assert(after[i].workshop_id == id);
            } else {
                assert(after[after.len() - 1].workshop_id == id);
            }
        }
        assert forall|i: int, j: int| 0 <= i < j < after.len() implies (#[trigger] after[i]).workshop_id
            != (#[trigger] after[j]).workshop_id by {
            if j < before.len() {
                assert(before[i].workshop_id != before[j].workshop_id);
            } else {
                assert(reported_ids(earlier).contains(before[i].workshop_id));
            }
        }
    }
}

/// What the host observes for an item that is not on disk, after the login.
pub open spec fn cold() -> Probe {
    Probe { cached: false, installed: None, logged_in: true }
}

/// A request for an item that is neither on disk nor downloading goes to
/// the backend, once and with its continuation, and delivers nothing. If the
/// backend accepts and the item is not installed at once, the item is pending
/// with that continuation, the queue is as it was, nothing is delivered, and
/// the hook is installed from then on.
pub proof fn lemma_cold_download_becomes_pending(
    m: Model,
    id: u64,
    callback: Option<CompletionHandle>,
)
    requires
        m.wf(),
        !m.pending.contains_key(id),
    ensures
        download_step(m, id, callback, cold()) == (DownloadStep::Request {
            callback,
            workshop_id: id,
        }),
        download_state(m, id, callback, cold()) == m,
        requested_step(m, id, callback, true, None) == (RequestStep::Downloading {
            hook: acquire_action(m.outstanding),
            displaced: None,
        }),
        hook_after(m.hooked(), acquire_action(m.outstanding)),
        ({
            let after = requested_state(m, id, callback, true, None);
            &&& after.wf()
            &&& after.pending == m.pending.insert(id, callback)
            &&& after.queued == m.queued
            &&& after.outstanding == m.outstanding + 1
            &&& after.hooked()
        }),
{
}

/// A poll that does not report an item leaves it pending, with the
/// continuation that waits for it, delivers nothing for it, and leaves the
/// hook installed.
pub proof fn lemma_poll_keeps_what_is_not_reported(m: Model, reports: Seq<Installed>, id: u64)
    requires
        m.wf(),
        m.pending.contains_key(id),
        !reported_ids(reports).contains(id),
    ensures
        poll_state(m, reports).pending.contains_pair(id, m.pending[id]),
        forall|i: int|
            0 <= i < completed(m.pending, reports).len() ==> (#[trigger] completed(
                m.pending,
                reports,
            )[i]).workshop_id != id,
        poll_state(m, reports).hooked(),
        poll_hook(m, reports) == HookAction::Keep,
{
    lemma_poll_delivers_once(m.pending, reports);
    lemma_completed_len(m.pending, reports);
    let after = poll_state(m, reports);
    assert(after.pending.dom().contains(id));
    assert(after.pending.len() > 0) by {
        if after.pending.len() == 0 {
            assert(after.pending.dom() =~= Set::<u64>::empty());
        }
    }
}

/// A download that the backend accepts is delivered by the first poll that
/// reports the item: to the continuation that came with the request, once,
/// after which the item is pending no more.
pub proof fn lemma_accepted_download_is_delivered(
    m: Model,
    id: u64,
    callback: Option<CompletionHandle>,
    reports: Seq<Installed>,
)
    requires
        !m.pending.contains_key(id),
        reported_ids(reports).contains(id),
    ensures
        ({
            let downloading = requested_state(m, id, callback, true, None);
            let deliveries = completed(downloading.pending, reports);
            &&& exists|i: int|
                0 <= i < deliveries.len() && (#[trigger] deliveries[i]).workshop_id == id
                    && deliveries[i].callback == callback && deliveries[i].located is Some
            &&& forall|i: int, j: int|
                0 <= i < j < deliveries.len() ==> (#[trigger] deliveries[i]).workshop_id != (
                #[trigger] deliveries[j]).workshop_id
            &&& !poll_state(downloading, reports).pending.contains_key(id)
        }),
{
    let downloading = requested_state(m, id, callback, true, None);
    lemma_poll_delivers_once(downloading.pending, reports);
    let deliveries = completed(downloading.pending, reports);
    assert(downloading.pending.contains_key(id));
    let i = choose|i: int| 0 <= i < deliveries.len() && (#[trigger] deliveries[i]).workshop_id == id;
    assert(deliveries[i].callback == downloading.pending[id]);
}

/// A continuation that comes with a download request is kept: after the
/// step it is in exactly one place, the delivery, the request that goes to
/// the backend, the queue or the pending set. The continuation that it
/// displaces there is the one that was held for the item, and is owed a
/// failure that needs no package file.
pub proof fn lemma_continuation_is_kept(m: Model, id: u64, handle: CompletionHandle, probe: Probe)
    ensures
        match download_step(m, id, Some(handle), probe) {
            DownloadStep::Deliver(delivery) => delivery.callback == Some(handle)
                && download_state(m, id, Some(handle), probe) == m,
            DownloadStep::Request { callback, .. } => callback == Some(handle) && download_state(
                m,
                id,
                Some(handle),
                probe,
            ) == m,
            DownloadStep::Queued { displaced, .. } => {
                let after = download_state(m, id, Some(handle), probe);
                &&& after.queued.contains_pair(id, Some(handle))
                &&& after.pending == m.pending
                &&& displaced == held(m.queued, id)
            },
            DownloadStep::Joined { displaced } => {
                let after = download_state(m, id, Some(handle), probe);
                &&& after.pending.contains_pair(id, Some(handle))
                &&& after.queued == m.queued
                &&& displaced == held(m.pending, id)
            },
        },
        forall|earlier: CompletionHandle|
            (#[trigger] superseded(id, Some(earlier))) matches Some(delivery) && delivery.callback
                == Some(earlier) && delivery.located is None && !needs_package(delivery),
        forall|delivery: Delivery, produced: Result<Option<()>, ArtifactError>|
            delivery.located is None ==> #[trigger] delivered_path(delivery, produced) is None,
        forall|accepted: bool, installed: Option<String>|
            match #[trigger] requested_step(m, id, Some(handle), accepted, installed) {
                RequestStep::Rejected(delivery) => delivery.callback == Some(handle)
                    && delivery.located is None,
                RequestStep::Installed(delivery) => delivery.callback == Some(handle)
                    && delivery.located is Some,
                RequestStep::Downloading { .. } => requested_state(
                    m,
                    id,
                    Some(handle),
                    accepted,
                    installed,
                ).pending.contains_pair(id, Some(handle)),
            },
{
}

/// The actions that the engine hands out keep the host-tick hook installed
/// exactly while an operation is outstanding: across an accepted request,
/// and across a poll.
pub proof fn lemma_hook_follows_outstanding(
    m: Model,
    id: u64,
    callback: Option<CompletionHandle>,
    accepted: bool,
    installed: Option<String>,
    reports: Seq<Installed>,
)
    requires
        m.wf(),
    ensures
        requested_step(m, id, callback, accepted, installed) matches RequestStep::Downloading {
            hook,
            ..
        } ==> hook_after(m.hooked(), hook) == requested_state(
            m,
            id,
            callback,
            accepted,
            installed,
        ).hooked(),
        !(requested_step(m, id, callback, accepted, installed) is Downloading) ==> requested_state(
            m,
            id,
            callback,
            accepted,
            installed,
        ).hooked() == m.hooked(),
        hook_after(m.hooked(), poll_hook(m, reports)) == poll_state(m, reports).hooked(),
        poll_state(m, reports).wf(),
        requested_state(m, id, callback, accepted, installed).wf(),
{
    lemma_completed_len(m.pending, reports);
    if m.pending.contains_key(id) {
        assert(joined(m.pending, id, callback).dom() =~= m.pending.dom());
    }
}

/// The actions that the engine hands out keep the login watcher installed
/// exactly while a request is queued: across a request, and across a tick of
/// the watcher.
pub proof fn lemma_watcher_follows_queue(
    m: Model,
    id: u64,
    callback: Option<CompletionHandle>,
    probe: Probe,
    logged_in: bool,
)
    ensures
        download_step(m, id, callback, probe) matches DownloadStep::Queued { watcher, .. }
            ==> hook_after(m.watching(), watcher) == download_state(
            m,
            id,
            callback,
            probe,
        ).watching(),
        !(download_step(m, id, callback, probe) is Queued) ==> download_state(
            m,
            id,
            callback,
            probe,
        ).watching() == m.watching(),
        hook_after(m.watching(), queue_watcher(m, logged_in)) == queue_state(
            m,
            logged_in,
        ).watching(),
{
    let after = download_state(m, id, callback, probe);
    if download_step(m, id, callback, probe) is Queued {
        assert(after.queued.contains_key(id));
    }
    if !m.queued.is_empty() {
        let k = choose|k: u64| m.queued.contains_key(k);
        assert(m.queued.dom().contains(k));
    }
}

} // verus!
