//! The engine that the host drives: its state and its transitions.

use std::collections::HashMap;
use vstd::prelude::*;
use vstd::std_specs::hash::*;
use vstd::std_specs::iter::IteratorSpec;
use crate::callbacks::{pop, push, CallbackManager, HookAction};
use crate::workshop::downloads::{
    completed, displaced_by_join, download_state, download_step, joined,
    lemma_reported_ids_last, lists_queue, poll_hook, poll_state, queue_state, queue_watcher,
    replayed, reported_ids, requested_state, requested_step, CompletionHandle, Delivery,
    DownloadStep, Installed, Located, Model, PollStep, Probe, QueueStep, Replay, RequestStep,
};
use crate::workshop::query::{
    answered_hook, answered_state, outcome_of, query_state, query_step, QueryDone, QueryReply,
    QueryResponse, QueryStep, MAX_CACHE_AGE,
};

pub mod downloads;
pub mod query;

verus! {

broadcast use vstd::std_specs::hash::group_hash_axioms;

/// The download and query engine of one host.
///
/// It lives as long as the process does; nothing tears it down.
pub struct Steam {
    pending: HashMap<u64, Option<CompletionHandle>>,
    queued: HashMap<u64, Option<CompletionHandle>>,
    hook: CallbackManager,
}

impl View for Steam {
    type V = Model;

    closed spec fn view(&self) -> Model {
        Model {
            pending: self.pending@,
            queued: self.queued@,
            outstanding: self.hook.outstanding(),
        }
    }
}

impl Steam {
    /// An engine that tracks nothing yet.
    pub fn init() -> (steam: Steam)
        ensures
            steam@ == Model::empty(),
            steam@.wf(),
    {
        Steam { pending: HashMap::new(), queued: HashMap::new(), hook: CallbackManager::new() }
    }

    /// The items that are downloading, in no particular order.
    pub fn pending_ids(&self) -> (ids: Vec<u64>)
        ensures
            ids@.to_set() == self@.pending.dom(),
            ids@.no_duplicates(),
    {
        let mut ids: Vec<u64> = Vec::new();
        for id in it: self.pending.keys()
            invariant
                it.seq() == spec_keys_iter(&self.pending).remaining(),
                ids@ == it.seq().unref().take(it.index() as int),
        {
            ids.push(*id);
        }
        assert(ids@ =~= spec_keys_iter(&self.pending).remaining().unref());
        ids
    }
}

impl Steam {
    /// The number of operations that need the host-tick hook.
    pub fn outstanding(&self) -> (count: usize)
        ensures
            count == self@.outstanding,
    {
        self.hook.pending()
    }

    /// Whether an item is downloading.
    pub fn is_pending(&self, workshop_id: u64) -> (pending: bool)
        ensures
            pending == self@.pending.contains_key(workshop_id),
    {
        self.pending.contains_key(&workshop_id)
    }

    /// Whether a request for an item waits for the session to log in.
    pub fn is_queued(&self, workshop_id: u64) -> (queued: bool)
        ensures
            queued == self@.queued.contains_key(workshop_id),
    {
        self.queued.contains_key(&workshop_id)
    }

    /// Takes a request to download an item.
    ///
    /// `probe` is what the host observed for the item just before the call.
    /// Where the step is `Request`, the host asks the backend for the item and
    /// reports the answer to `download_requested`.
    pub fn download(
        &mut self,
        workshop_id: u64,
        callback: Option<CompletionHandle>,
        probe: Probe,
    ) -> (step: DownloadStep)
        requires
            old(self)@.wf(),
        ensures
            final(self)@.wf(),
            final(self)@ == download_state(old(self)@, workshop_id, callback, probe),
            step == download_step(old(self)@, workshop_id, callback, probe),
    {
        if probe.cached {
            return DownloadStep::Deliver(
                Delivery { callback, workshop_id, located: Some(Located::Cache) },
            );
        }
        if let Some(folder) = probe.installed {
            return DownloadStep::Deliver(
                Delivery { callback, workshop_id, located: Some(Located::Folder(folder)) },
            );
        }
        if !probe.logged_in {
            let watcher = if self.queued.is_empty() {
                HookAction::Install
            } else {
                HookAction::Keep
            };
            let displaced = match self.queued.insert(workshop_id, callback) {
                Some(earlier) => earlier,
                None => None,
            };
            return DownloadStep::Queued { watcher, displaced };
        }
        if self.pending.contains_key(&workshop_id) {
            let displaced = self.join(workshop_id, callback);
            return DownloadStep::Joined { displaced };
        }
        DownloadStep::Request { callback, workshop_id }
    }

    /// Registers one more request for an item that is downloading already.
    fn join(&mut self, workshop_id: u64, callback: Option<CompletionHandle>) -> (displaced: Option<
        CompletionHandle,
    >)
        requires
            old(self)@.wf(),
            old(self)@.pending.contains_key(workshop_id),
        ensures
            final(self)@.wf(),
            final(self)@ == (Model {
                pending: joined(old(self)@.pending, workshop_id, callback),
                ..old(self)@
            }),
            displaced == displaced_by_join(old(self)@.pending, workshop_id, callback),
    {
        if callback.is_some() {
            let earlier = self.pending.insert(workshop_id, callback);
            assert(self.pending@.dom() =~= old(self).pending@.dom());
            match earlier {
                Some(earlier) => earlier,
                None => None,
            }
        } else {
            None
        }
    }

    /// Takes the backend's answer to a request for an item.
    ///
    /// `accepted` is what the backend returned for the request, `installed`
    /// where the item is installed right after it, if it is. An item that
    /// becomes pending needs room in the count of outstanding operations.
    pub fn download_requested(
        &mut self,
        workshop_id: u64,
        callback: Option<CompletionHandle>,
        accepted: bool,
        installed: Option<String>,
    ) -> (step: RequestStep)
        requires
            old(self)@.wf(),
            accepted && installed is None && !old(self)@.pending.contains_key(workshop_id)
                ==> old(self)@.outstanding < usize::MAX,
        ensures
            final(self)@.wf(),
            final(self)@ == requested_state(old(self)@, workshop_id, callback, accepted, installed),
            step == requested_step(old(self)@, workshop_id, callback, accepted, installed),
    {
        if !accepted {
            return RequestStep::Rejected(Delivery { callback, workshop_id, located: None });
        }
        if let Some(folder) = installed {
            return RequestStep::Installed(
                Delivery { callback, workshop_id, located: Some(Located::Folder(folder)) },
            );
        }
        if self.pending.contains_key(&workshop_id) {
            let displaced = self.join(workshop_id, callback);
            return RequestStep::Downloading { hook: HookAction::Keep, displaced };
        }
        let hook = push(&mut self.hook);
        self.pending.insert(workshop_id, callback);
        RequestStep::Downloading { hook, displaced: None }
    }
}

impl Steam {
    /// Takes what a poll found: the pending items that are installed by now.
    ///
    /// The host asks `pending_ids` first, looks each item up, and reports
    /// those that are installed. Reports of items that are not pending, and
    /// second reports of an item, change nothing.
    pub fn poll(&mut self, reports: &Vec<Installed>) -> (step: PollStep)
        requires
            old(self)@.wf(),
        ensures
            final(self)@.wf(),
            final(self)@ == poll_state(old(self)@, reports@),
            step.deliveries@ == completed(old(self)@.pending, reports@),
            step.hook == poll_hook(old(self)@, reports@),
    {
        let mut deliveries: Vec<Delivery> = Vec::new();
        let mut hook = HookAction::Keep;
        let mut i: usize = 0;
        while i < reports.len()
            invariant
                i <= reports.len(),
                self@.wf(),
                old(self)@.wf(),
                self@.queued == old(self)@.queued,
                self@.pending == old(self)@.pending.remove_keys(
                    reported_ids(reports@.take(i as int)),
                ),
                deliveries@ == completed(old(self)@.pending, reports@.take(i as int)),
                self@.outstanding == old(self)@.outstanding - deliveries@.len(),
                hook == if old(self)@.outstanding > 0 && self@.outstanding == 0 {
                    HookAction::Remove
                } else {
                    HookAction::Keep
                },
            decreases reports.len() - i,
        {
            let report = &reports[i];
            let ghost earlier = reports@.take(i as int);
            let ghost before = self@.pending;
            proof {
                assert(reports@.take(i + 1).drop_last() =~= earlier);
                lemma_reported_ids_last(reports@.take(i + 1));
            }
            match self.pending.remove(&report.workshop_id) {
                Some(callback) => {
                    let action = pop(&mut self.hook);
                    if action == HookAction::Remove {
                        hook = HookAction::Remove;
                    }
                    deliveries.push(
                        Delivery {
                            callback,
                            workshop_id: report.workshop_id,
                            located: Some(Located::Folder(report.folder.clone())),
                        },
                    );
                },
                None => {},
            }
            proof {
                assert(self@.pending =~= old(self)@.pending.remove_keys(
                    reported_ids(reports@.take(i + 1)),
                ));
                assert(self@.pending.dom() =~= before.dom().remove(report.workshop_id));
            }
            i += 1;
        }
        assert(reports@.take(reports@.len() as int) =~= reports@);
        PollStep { deliveries, hook }
    }

    /// Takes a tick of the login watcher.
    ///
    /// Before the login nothing happens. After it the queue is emptied in one
    /// pass: the host removes the watcher and makes each request again.
    pub fn process_queued(&mut self, logged_in: bool) -> (step: QueueStep)
        requires
            old(self)@.wf(),
        ensures
            final(self)@.wf(),
            final(self)@ == queue_state(old(self)@, logged_in),
            lists_queue(replayed(old(self)@, logged_in), step.replays@),
            step.watcher == queue_watcher(old(self)@, logged_in),
    {
        let mut replays: Vec<Replay> = Vec::new();
        if !logged_in || self.queued.is_empty() {
            assert(replayed(old(self)@, logged_in) =~= Map::empty());
            assert(self@ == queue_state(old(self)@, logged_in));
            return QueueStep { replays, watcher: HookAction::Keep };
        }
        for id in it: self.queued.keys()
            invariant
                self == old(self),
                it.seq() == spec_keys_iter(&self.queued).remaining(),
                replays@.len() == it.index(),
                forall|i: int|
                    0 <= i < replays@.len() ==> (#[trigger] replays@[i]).workshop_id
                        == it.seq()[i] && self.queued@.contains_pair(
                        replays@[i].workshop_id,
                        replays@[i].callback,
                    ),
        {
            assert(it.seq().unref().to_set().contains(*id)) by {
                assert(it.seq().unref()[it.index()] == *id);
            }
            let callback: Option<CompletionHandle> = match self.queued.get(id) {
                Some(callback) => *callback,
                None => None,
            };
            replays.push(Replay { workshop_id: *id, callback });
        }
        proof {
            let keys = spec_keys_iter(&self.queued).remaining();
            assert forall|id: u64| #[trigger] self.queued@.contains_key(id) implies exists|i: int|
                0 <= i < replays@.len() && (#[trigger] replays@[i]).workshop_id == id by {
                assert(keys.unref().to_set().contains(id));
                let k = choose|k: int| 0 <= k < keys.unref().len() && keys.unref()[k] == id;
                assert(replays@[k].workshop_id == id);
            }
            assert forall|i: int, j: int| 0 <= i < j < replays@.len() implies (
            #[trigger] replays@[i]).workshop_id != (#[trigger] replays@[j]).workshop_id by {
                assert(keys[i] != keys[j]);
            }
        }
        self.queued.clear();
        QueueStep { replays, watcher: HookAction::Remove }
    }
}

impl Steam {
    /// Takes a request for an item's metadata.
    ///
    /// `created` is whether the backend could set the query up. Where the
    /// step is `Send`, the host sends the query; where it is `Failed`, the
    /// answer is `QueryResponse::NotCreated`. Either way the host reports the
    /// answer to `query_completed`, at a later tick. The request needs room
    /// in the count of outstanding operations.
    pub fn file_info(&mut self, created: bool) -> (step: QueryStep)
        requires
            old(self)@.wf(),
            old(self)@.outstanding < usize::MAX,
        ensures
            final(self)@.wf(),
            final(self)@ == query_state(old(self)@),
            step == query_step(old(self)@, created),
    {
        let hook = push(&mut self.hook);
        if created {
            QueryStep::Send { max_age: MAX_CACHE_AGE, include_children: true, hook }
        } else {
            QueryStep::Failed { hook }
        }
    }

    /// Takes the backend's answer to a query.
    pub fn query_completed(
        &mut self,
        workshop_id: u64,
        callback: CompletionHandle,
        response: QueryResponse,
    ) -> (done: QueryDone)
        requires
            old(self)@.wf(),
        ensures
            final(self)@.wf(),
            final(self)@ == answered_state(old(self)@),
            done.hook == answered_hook(old(self)@),
            done.reply == (QueryReply {
                callback,
                id: workshop_id,
                outcome: outcome_of(workshop_id, response),
            }),
    {
        let hook = if self.hook.pending() > self.pending.len() {
            pop(&mut self.hook)
        } else {
            HookAction::Keep
        };
        let outcome = query::callback(workshop_id, response);
        QueryDone { reply: QueryReply { callback, id: workshop_id, outcome }, hook }
    }
}

} // verus!
