//! The metadata query client: what the backend's answer to a query amounts to.
//!
//! A query asks for one item. Its answer counts as a success only if the
//! transport succeeded, exactly one result came back, and that result is the
//! item that was asked for. Every other answer becomes an error with a code
//! of its own, so that a caller can tell a backend that is down from one that
//! answers with nonsense.

use vstd::prelude::*;
use crate::callbacks::{acquire_action, hook_after, release_action, HookAction};
use crate::workshop::downloads::{CompletionHandle, Model};

verus! {

/// The age in seconds up to which the backend may answer a query from its cache.
pub const MAX_CACHE_AGE: u32 = 60;

/// The record that the backend keeps of one item.
#[derive(Clone, Debug, PartialEq, Eq)]
pub struct ItemDetails {
    /// The item that the record is about.
    pub published_file_id: u64,
    /// The item's title, as the backend's bytes.
    pub title: Vec<u8>,
    /// The item's description, as the backend's bytes.
    pub description: Vec<u8>,
    /// The identity of the item's owner.
    pub owner: u64,
    /// The handle of the item's preview file.
    pub preview_file: u64,
    /// The handle of the item's content file.
    pub file: u64,
    /// The item's tags, separated by commas, as the backend's bytes.
    pub tags: Vec<u8>,
    /// Whether the item is banned.
    pub banned: bool,
    /// When the item was created, in seconds since the epoch.
    pub time_created: u32,
    /// When the item was last updated, in seconds since the epoch.
    pub time_updated: u32,
    /// The size of the item's content file in bytes.
    pub file_size: i32,
    /// The address of the item's preview, as the backend's bytes.
    pub url: Vec<u8>,
    /// The size of the item's preview file in bytes.
    pub preview_file_size: i32,
    /// The number of votes for the item.
    pub votes_up: u32,
    /// The number of votes against the item.
    pub votes_down: u32,
    /// The item's score: the bits of a single-precision number between 0 and 1.
    pub score_bits: u32,
}

/// One result of a query: an item's record and the items it depends on.
#[derive(Clone, Debug, PartialEq, Eq)]
pub struct QueryItem {
    /// The item's record.
    pub details: ItemDetails,
    /// The items that the item depends on; empty where the backend names none.
    pub children: Vec<u64>,
}

/// The backend's answer to a query.
#[derive(Clone, Debug, PartialEq, Eq)]
pub enum QueryResponse {
    /// The backend could not set the query up.
    NotCreated,
    /// The transport failed, with this code of the backend.
    Failed(i32),
    /// The query came back with these results, in the backend's order.
    Results(Vec<QueryItem>),
}

/// Why a query has no metadata to show.
#[derive(Clone, Copy, Debug, PartialEq, Eq, Structural)]
pub enum QueryError {
    /// The backend could not set the query up.
    NotCreated,
    /// The transport failed, with this code of the backend.
    Transport(i32),
    /// The answer holds no result, or more than one.
    ResultCount,
    /// The result names no item at all.
    InvalidId,
    /// The result is about another item than the one asked for.
    MismatchedId,
}

/// The metadata of an item, as it goes to the caller.
#[derive(Clone, Debug, PartialEq, Eq)]
pub struct FileInfo {
    /// The item's title, as the backend's bytes.
    pub title: Vec<u8>,
    /// The item's description, as the backend's bytes.
    pub description: Vec<u8>,
    /// The identity of the item's owner.
    pub owner: u64,
    /// The handle of the item's preview file.
    pub previewid: u64,
    /// The handle of the item's content file.
    pub fileid: u64,
    /// The item's tags, separated by commas, as the backend's bytes.
    pub tags: Vec<u8>,
    /// Whether the item is banned.
    pub banned: bool,
    /// When the item was created, in seconds since the epoch.
    pub created: u32,
    /// When the item was last updated, in seconds since the epoch.
    pub updated: u32,
    /// The size of the item's content file in bytes.
    pub size: i32,
    /// The address of the item's preview, as the backend's bytes.
    pub previewurl: Vec<u8>,
    /// The size of the item's preview file in bytes.
    pub previewsize: i32,
    /// The number of votes for the item.
    pub up: u32,
    /// The number of votes against the item.
    pub down: u32,
    /// The number of votes either way.
    pub total: u64,
    /// The item's score: the bits of a single-precision number between 0 and 1.
    pub score_bits: u32,
    /// The items that the item depends on.
    pub children: Vec<u64>,
}

/// The answer to a query, ready to go to the caller.
#[derive(Debug, PartialEq, Eq)]
pub struct QueryReply {
    /// The caller's continuation.
    pub callback: CompletionHandle,
    /// The item that was asked for.
    pub id: u64,
    /// The item's metadata, or why there is none.
    pub outcome: Result<FileInfo, QueryError>,
}

/// What a request for an item's metadata leads to.
#[derive(Debug, PartialEq, Eq)]
pub enum QueryStep {
    /// The backend could not set the query up. The caller learns of it like
    /// of any answer, at the host's next tick: the host then reports
    /// `QueryResponse::NotCreated` as the answer.
    Failed {
        /// What to do with the host-tick hook.
        hook: HookAction,
    },
    /// The host sends the query, and reports the answer when it comes.
    Send {
        /// The age in seconds up to which a cached answer will do.
        max_age: u32,
        /// Whether the answer is to name the items that the item depends on.
        include_children: bool,
        /// What to do with the host-tick hook.
        hook: HookAction,
    },
}

/// What the answer to a query leads to.
#[derive(Debug, PartialEq, Eq)]
pub struct QueryDone {
    /// The answer, ready to go to the caller.
    pub reply: QueryReply,
    /// What to do with the host-tick hook.
    pub hook: HookAction,
}

/// The number by which a caller tells the errors apart.
///
/// The errors that the engine finds are negative; a failed transport keeps
/// the code of the backend.
pub open spec fn error_code_of(error: QueryError) -> int {
    match error {
        QueryError::NotCreated => -1,
        QueryError::Transport(code) => code as int,
        QueryError::ResultCount => -3,
        QueryError::InvalidId => -5,
        QueryError::MismatchedId => -6,
    }
}

/// Gives the number by which a caller tells the errors apart.
pub fn error_code(error: QueryError) -> (code: i32)
    ensures
        code == error_code_of(error),
{
    match error {
        QueryError::NotCreated => -1,
        QueryError::Transport(code) => code,
        QueryError::ResultCount => -3,
        QueryError::InvalidId => -5,
        QueryError::MismatchedId => -6,
    }
}

/// The metadata that a result holds.
pub open spec fn file_info_of(item: QueryItem) -> FileInfo {
    FileInfo {
        title: item.details.title,
        description: item.details.description,
        owner: item.details.owner,
        previewid: item.details.preview_file,
        fileid: item.details.file,
        tags: item.details.tags,
        banned: item.details.banned,
        created: item.details.time_created,
        updated: item.details.time_updated,
        size: item.details.file_size,
        previewurl: item.details.url,
        previewsize: item.details.preview_file_size,
        up: item.details.votes_up,
        down: item.details.votes_down,
        total: (item.details.votes_up + item.details.votes_down) as u64,
        score_bits: item.details.score_bits,
        children: item.children,
    }
}

/// What the backend's answer to a query for `id` amounts to.
///
/// The checks come in this order: the query was set up, the transport
/// succeeded, exactly one result came back, the result names an item, and
/// the item is the one asked for.
pub open spec fn outcome_of(id: u64, response: QueryResponse) -> Result<FileInfo, QueryError> {
    match response {
        QueryResponse::NotCreated => Err(QueryError::NotCreated),
        QueryResponse::Failed(code) => Err(QueryError::Transport(code)),
        QueryResponse::Results(items) => if items@.len() != 1 {
            Err(QueryError::ResultCount)
        } else if items@[0].details.published_file_id == 0 {
            Err(QueryError::InvalidId)
        } else if items@[0].details.published_file_id != id {
            Err(QueryError::MismatchedId)
        } else {
            Ok(file_info_of(items@[0]))
        },
    }
}

/// Says what the backend's answer to a query for `id` amounts to.
pub fn callback(id: u64, response: QueryResponse) -> (outcome: Result<FileInfo, QueryError>)
    ensures
        outcome == outcome_of(id, response),
{
    match response {
        QueryResponse::NotCreated => Err(QueryError::NotCreated),
        QueryResponse::Failed(code) => Err(QueryError::Transport(code)),
        QueryResponse::Results(items) => {
            let mut items = items;
            if items.len() != 1 {
                return Err(QueryError::ResultCount);
            }
            let item = match items.pop() {
                Some(item) => item,
                None => {
                    return Err(QueryError::ResultCount);
                },
            };
            if item.details.published_file_id == 0 {
                return Err(QueryError::InvalidId);
            }
            if item.details.published_file_id != id {
                return Err(QueryError::MismatchedId);
            }
            let total: u64 = item.details.votes_up as u64 + item.details.votes_down as u64;
            Ok(
                FileInfo {
                    title: item.details.title,
                    description: item.details.description,
                    owner: item.details.owner,
                    previewid: item.details.preview_file,
                    fileid: item.details.file,
                    tags: item.details.tags,
                    banned: item.details.banned,
                    created: item.details.time_created,
                    updated: item.details.time_updated,
                    size: item.details.file_size,
                    previewurl: item.details.url,
                    previewsize: item.details.preview_file_size,
                    up: item.details.votes_up,
                    down: item.details.votes_down,
                    total,
                    score_bits: item.details.score_bits,
                    children: item.children,
                },
            )
        },
    }
}

/// The engine after a request for an item's metadata: the request is in
/// flight until its answer is reported, and counts once for the hook.
pub open spec fn query_state(m: Model) -> Model {
    Model { outstanding: m.outstanding + 1, ..m }
}

/// What a request for an item's metadata leads to, `created` saying whether
/// the backend could set the query up.
///
/// A query that was set up is sent with cached answers allowed and the
/// item's children asked for. One that was not is answered with the failure.
/// Either way the answer comes later, never within the request.
pub open spec fn query_step(m: Model, created: bool) -> QueryStep {
    if created {
        QueryStep::Send {
            max_age: MAX_CACHE_AGE,
            include_children: true,
            hook: acquire_action(m.outstanding),
        }
    } else {
        QueryStep::Failed { hook: acquire_action(m.outstanding) }
    }
}

/// The engine after the answer to a query: the query gives up its claim on
/// the hook. An answer that no query in flight accounts for changes nothing.
pub open spec fn answered_state(m: Model) -> Model {
    if m.queries() > 0 {
        Model { outstanding: (m.outstanding - 1) as nat, ..m }
    } else {
        m
    }
}

/// What the answer to a query does to the hook: the last operation to finish removes it.
pub open spec fn answered_hook(m: Model) -> HookAction {
    if m.queries() > 0 {
        release_action(m.outstanding)
    } else {
        HookAction::Keep
    }
}

/// A request for metadata gives back what it took: once its answer is
/// reported, as many operations are outstanding as before the request, and a
/// hook that was installed for it alone is removed again. This holds of a
/// query that was sent and of one that could not be set up.
pub proof fn lemma_query_balances(m: Model, created: bool)
    requires
        m.wf(),
    ensures
        query_state(m).wf(),
        query_state(m).hooked(),
        answered_state(query_state(m)) == m,
        query_step(m, created) matches QueryStep::Send { hook, .. } ==> created && (hook
            == HookAction::Install <==> answered_hook(query_state(m)) == HookAction::Remove),
        query_step(m, created) matches QueryStep::Failed { hook } ==> !created && (hook
            == HookAction::Install <==> answered_hook(query_state(m)) == HookAction::Remove),
        hook_after(m.hooked(), acquire_action(m.outstanding)) == query_state(m).hooked(),
        hook_after(query_state(m).hooked(), answered_hook(query_state(m))) == m.hooked(),
{
}

} // verus!
