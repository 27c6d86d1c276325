//! Which store query a request path calls for, and what each reply means.
//!
//! The store has no notion of files and folders: both are key prefixes. A
//! path is therefore first tried as an object key, and only where the store
//! confirms that no such object exists is it listed as a prefix. The root
//! path is never an object. A store that cannot be reached, or that answers
//! the fetch with anything but success or "not found", is reported as
//! unavailable and is not mistaken for an empty folder.
//!
//! The caller talks to the store. It starts with [`first_query`], performs
//! the query, and hands the reply to [`after_fetch`] or [`after_listing`],
//! until one of them gives the result.

use vstd::prelude::*;
use vstd::string::*;
use crate::listing::{listing_entries, normalize, ListBatch, ListBatchView, ListEntry, ListEntryView};

verus! {

/// The status with which the store hands out an object's content.
pub const STATUS_OK: u16 = 200;

/// The status of a successful reply that carries no content.
pub const STATUS_NO_CONTENT: u16 = 204;

/// The status with which the store confirms that a key names no object.
pub const STATUS_NOT_FOUND: u16 = 404;

/// Why a path could not be resolved.
#[derive(Clone, Copy, Debug, PartialEq, Eq)]
pub enum ResolveError {
    /// The path names neither an object nor a prefix that could be listed.
    NotFound,
    /// The store could not be reached, or answered out of order.
    StoreUnavailable,
}

/// What a path resolves to: the bytes of a file, or the rows of a folder.
#[derive(Clone, Debug, PartialEq, Eq)]
pub enum ObjectResult {
    File(Vec<u8>),
    Folder(Vec<ListEntry>),
}

/// A query for the caller to make.
#[derive(Clone, Debug, PartialEq, Eq)]
pub enum StoreQuery {
    /// Fetch the object stored under `key`.
    GetObject { key: String },
    /// List what lies under `prefix`, folded at `delimiter`.
    ListObjects { prefix: String, delimiter: String },
}

/// How the store answered an object fetch.
#[derive(Clone, Debug, PartialEq, Eq)]
pub enum FetchReply {
    /// The store answered, with this status and body.
    Response { status: u16, body: Vec<u8> },
    /// No answer was had: the connection failed.
    TransportFailure,
}

/// How the store answered a listing.
#[derive(Clone, Debug, PartialEq, Eq)]
pub enum ListReply {
    /// The listing, in the batches and the order in which the store sent it.
    Batches(Vec<ListBatch>),
    /// No listing was had.
    Failure,
}

/// Where a resolution stands after a reply.
#[derive(Debug, PartialEq, Eq)]
pub enum Step {
    /// One more query is needed.
    Ask(StoreQuery),
    /// The resolution has ended.
    Done(Result<ObjectResult, ResolveError>),
}

/// A result as contracts speak of it: bytes and rows as sequences.
pub enum ObjectResultView {
    File(Seq<u8>),
    Folder(Seq<ListEntryView>),
}

/// A query as contracts speak of it.
pub enum StoreQueryView {
    GetObject { key: Seq<char> },
    ListObjects { prefix: Seq<char>, delimiter: Seq<char> },
}

/// The reply to a fetch as contracts speak of it.
pub enum FetchReplyView {
    Response { status: u16, body: Seq<u8> },
    TransportFailure,
}

/// The reply to a listing as contracts speak of it.
pub enum ListReplyView {
    Batches(Seq<ListBatchView>),
    Failure,
}

/// A step as contracts speak of it.
pub enum StepView {
    Ask(StoreQueryView),
    Done(Result<ObjectResultView, ResolveError>),
}

impl View for ObjectResult {
    type V = ObjectResultView;

    open spec fn view(&self) -> ObjectResultView {
        match self {
            ObjectResult::File(bytes) => ObjectResultView::File(bytes@),
            ObjectResult::Folder(entries) => ObjectResultView::Folder(entries.deep_view()),
        }
    }
}

impl View for StoreQuery {
    type V = StoreQueryView;

    open spec fn view(&self) -> StoreQueryView {
        match self {
            StoreQuery::GetObject { key } => StoreQueryView::GetObject { key: key@ },
            StoreQuery::ListObjects { prefix, delimiter } => StoreQueryView::ListObjects {
                prefix: prefix@,
                delimiter: delimiter@,
            },
        }
    }
}

impl View for FetchReply {
    type V = FetchReplyView;

    open spec fn view(&self) -> FetchReplyView {
        match self {
            FetchReply::Response { status, body } => FetchReplyView::Response {
                status: *status,
                body: body@,
            },
            FetchReply::TransportFailure => FetchReplyView::TransportFailure,
        }
    }
}

impl View for ListReply {
    type V = ListReplyView;

    open spec fn view(&self) -> ListReplyView {
        match self {
            ListReply::Batches(batches) => ListReplyView::Batches(batches.deep_view()),
            ListReply::Failure => ListReplyView::Failure,
        }
    }
}

/// The view of how a resolution ended.
pub open spec fn outcome_view(outcome: Result<ObjectResult, ResolveError>) -> Result<
    ObjectResultView,
    ResolveError,
> {
    match outcome {
        Ok(found) => Ok(found@),
        Err(error) => Err(error),
    }
}

impl View for Step {
    type V = StepView;

    open spec fn view(&self) -> StepView {
        match self {
            Step::Ask(query) => StepView::Ask(query@),
            Step::Done(outcome) => StepView::Done(outcome_view(*outcome)),
        }
    }
}

/// The delimiter at which every listing is folded: the path separator.
pub open spec fn delimiter() -> Seq<char> {
    seq!['/']
}

/// The key prefix under which the children of a path lie: the path and a
/// separator, or nothing at all for the root.
pub open spec fn listing_prefix(path: Seq<char>) -> Seq<char> {
    if path.len() == 0 {
        path
    } else {
        path.push('/')
    }
}

/// The heading under which a path is shown as a folder: the path with a
/// separator at its end, so that the root reads `/`.
pub open spec fn folder_heading(path: Seq<char>) -> Seq<char> {
    path.push('/')
}

/// The listing that shows a path as a folder.
pub open spec fn listing_of(path: Seq<char>) -> StoreQueryView {
    StoreQueryView::ListObjects { prefix: listing_prefix(path), delimiter: delimiter() }
}

/// The query that a resolution starts with: a fetch of the path as a key,
/// but for the root, which is listed at once.
pub open spec fn opening_query(path: Seq<char>) -> StoreQueryView {
    if path.len() == 0 {
        listing_of(path)
    } else {
        StoreQueryView::GetObject { key: path }
    }
}

/// Whether a status hands out the object.
pub open spec fn is_success(status: u16) -> bool {
    status == STATUS_OK || status == STATUS_NO_CONTENT
}

/// What follows the reply to an object fetch.
///
/// A success ends the resolution with the body as a file. A confirmed
/// absence leads on to the listing. Every other reply ends it with the store
/// reported unavailable. The root is not a file whatever the store says of
/// it: it is always listed.
pub open spec fn step_after_fetch(path: Seq<char>, reply: FetchReplyView) -> StepView {
    if path.len() == 0 {
        StepView::Ask(listing_of(path))
    } else {
        match reply {
            FetchReplyView::Response { status, body } => {
                if is_success(status) {
                    StepView::Done(Ok(ObjectResultView::File(body)))
                } else if status == STATUS_NOT_FOUND {
                    StepView::Ask(listing_of(path))
                } else {
                    StepView::Done(Err(ResolveError::StoreUnavailable))
                }
            },
            FetchReplyView::TransportFailure => StepView::Done(
                Err(ResolveError::StoreUnavailable),
            ),
        }
    }
}

/// How a resolution ends on the reply to a listing: with the rows of the
/// folder, or with nothing found where no listing was had.
pub open spec fn outcome_after_listing(reply: ListReplyView) -> Result<
    ObjectResultView,
    ResolveError,
> {
    match reply {
        ListReplyView::Batches(batches) => Ok(ObjectResultView::Folder(listing_entries(batches))),
        ListReplyView::Failure => Err(ResolveError::NotFound),
    }
}

/// What a resolution asks of the store, in order, and how it ends.
pub struct Course {
    pub queries: Seq<StoreQueryView>,
    pub outcome: Result<ObjectResultView, ResolveError>,
}

/// The course of the resolution of `path` against a store that would answer
/// the fetch, if one is made, with `fetched`, and the listing, if one is
/// made, with `listed`.
pub open spec fn course(path: Seq<char>, fetched: FetchReplyView, listed: ListReplyView) -> Course {
    match opening_query(path) {
        StoreQueryView::GetObject { key } => match step_after_fetch(path, fetched) {
            StepView::Ask(next) => Course {
                queries: seq![opening_query(path), next],
                outcome: outcome_after_listing(listed),
            },
            StepView::Done(outcome) => Course { queries: seq![opening_query(path)], outcome },
        },
        StoreQueryView::ListObjects { prefix, delimiter } => Course {
            queries: seq![opening_query(path)],
            outcome: outcome_after_listing(listed),
        },
    }
}

/// The root is never fetched as an object: its resolution consists of one
/// listing of the empty prefix, whatever the store would have answered to a
/// fetch.
pub proof fn lemma_root_is_listed_not_fetched(fetched: FetchReplyView, listed: ListReplyView)
    ensures
        course(Seq::empty(), fetched, listed).queries == seq![
            StoreQueryView::ListObjects { prefix: Seq::empty(), delimiter: delimiter() },
        ],
        course(Seq::empty(), fetched, listed).outcome == outcome_after_listing(listed),
        step_after_fetch(Seq::empty(), fetched) == StepView::Ask(listing_of(Seq::empty())),
{
}

/// A path under which the store holds an object resolves to that object's
/// bytes, unchanged, after the one fetch.
pub proof fn lemma_stored_object_is_served(
    path: Seq<char>,
    status: u16,
    body: Seq<u8>,
    listed: ListReplyView,
)
    requires
        path.len() > 0,
        status == STATUS_OK || status == STATUS_NO_CONTENT,
    ensures
        course(path, FetchReplyView::Response { status, body }, listed).queries == seq![
            StoreQueryView::GetObject { key: path },
        ],
        course(path, FetchReplyView::Response { status, body }, listed).outcome == Ok::<
            ObjectResultView,
            ResolveError,
        >(ObjectResultView::File(body)),
{
}

/// A path that the store confirms to name no object is listed next, as the
/// prefix made of the path and a separator, folded at the separator. The
/// listing decides: its rows are the folder, and where none is had, nothing
/// was found.
pub proof fn lemma_absent_object_is_listed(path: Seq<char>, body: Seq<u8>, listed: ListReplyView)
    requires
        path.len() > 0,
    ensures
        course(path, FetchReplyView::Response { status: STATUS_NOT_FOUND, body }, listed).queries
            == seq![
            StoreQueryView::GetObject { key: path },
            StoreQueryView::ListObjects { prefix: path + seq!['/'], delimiter: seq!['/'] },
        ],
        course(path, FetchReplyView::Response { status: STATUS_NOT_FOUND, body }, listed).outcome
            == match listed {
            ListReplyView::Batches(batches) => Ok::<ObjectResultView, ResolveError>(
                ObjectResultView::Folder(listing_entries(batches)),
            ),
            ListReplyView::Failure => Err(ResolveError::NotFound),
        },
{
    assert(path.push('/') =~= path + seq!['/']);
}

/// A fetch that fails in transport, or is answered with a status that is
/// neither a success nor "not found", ends the resolution at once with the
/// store reported unavailable: no listing is asked for.
pub proof fn lemma_failed_fetch_is_reported(
    path: Seq<char>,
    fetched: FetchReplyView,
    listed: ListReplyView,
)
    requires
        path.len() > 0,
        fetched matches FetchReplyView::Response { status, .. } ==> !is_success(status) && status
            != STATUS_NOT_FOUND,
    ensures
        course(path, fetched, listed).queries == seq![StoreQueryView::GetObject { key: path }],
        course(path, fetched, listed).outcome == Err::<ObjectResultView, ResolveError>(
            ResolveError::StoreUnavailable,
        ),
{
}

/// The listing query for a path taken as a folder.
pub fn listing_query(path: &str) -> (query: StoreQuery)
    ensures
        query@ == listing_of(path@),
{
    proof {
        reveal_strlit("/");
    }
    let mut prefix = String::from_str(path);
    if !path.is_empty() {
        prefix.append("/");
    }
    let delimiter = String::from_str("/");
    assert(prefix@ =~= listing_prefix(path@));
    assert(delimiter@ =~= self::delimiter());
    StoreQuery::ListObjects { prefix, delimiter }
}

/// The heading of the page that lists a path.
pub fn heading(path: &str) -> (title: String)
    ensures
        title@ == folder_heading(path@),
{
    proof {
        reveal_strlit("/");
    }
    let title = String::from_str(path).concat("/");
    assert(title@ =~= folder_heading(path@));
    title
}

/// The first query of a resolution.
pub fn first_query(path: &str) -> (query: StoreQuery)
    ensures
        query@ == opening_query(path@),
{
    if path.is_empty() {
        listing_query(path)
    } else {
        StoreQuery::GetObject { key: String::from_str(path) }
    }
}

/// Decides what follows the store's reply to the fetch of `path`.
pub fn after_fetch(path: &str, reply: FetchReply) -> (step: Step)
    ensures
        step@ == step_after_fetch(path@, reply@),
{
    if path.is_empty() {
        return Step::Ask(listing_query(path));
    }
    match reply {
        FetchReply::Response { status, body } => {
            if status == STATUS_OK || status == STATUS_NO_CONTENT {
                Step::Done(Ok(ObjectResult::File(body)))
            } else if status == STATUS_NOT_FOUND {
                Step::Ask(listing_query(path))
            } else {
                Step::Done(Err(ResolveError::StoreUnavailable))
            }
        },
        FetchReply::TransportFailure => Step::Done(Err(ResolveError::StoreUnavailable)),
    }
}

/// Ends a resolution on the store's reply to the listing.
pub fn after_listing(reply: ListReply) -> (outcome: Result<ObjectResult, ResolveError>)
    ensures
        outcome_view(outcome) == outcome_after_listing(reply@),
{
    match reply {
        ListReply::Batches(batches) => Ok(ObjectResult::Folder(normalize(&batches))),
        ListReply::Failure => Err(ResolveError::NotFound),
    }
}

} // verus!
