//! The operations that go back and forth between the key-value store, crossref
//! and their own decisions, written as state machines: each step takes the reply
//! to the last call and gives the next call, or the answer. The caller makes the
//! calls. A model of a faithful store states what a whole run does.

use vstd::prelude::*;
use crate::folder::{
    folder_decoded, index_of_stored, listing_insert, stored_folder, stored_index, Folder,
    FolderView, Listing,
};
use crate::codec::{json_of_bytes, json_of_text, parse_json_bytes, parse_json_text};
use crate::json::{clone_json, Json, JsonView};
use crate::keys::{
    crossref_url, crossref_url_text, decoded_doi, full_path_text, index_key, index_key_text,
    raw_key_text,
};
use crate::requests::{DoiFetchRequest, FolderUpdateRequest, FolderUpdateRequestView};
use crate::store::{
    doi_create_outcome, doi_plan, doi_plan_of, doi_to_folder, fault_text, folder_for_request, index_after_create,
    malformed, not_a_folder, parsed, parsed_json, DoiPlan, DoiPlanView, StoreError,
};
use crate::text::{decimal, same_text};
use crate::textmap::{lookup, pairs_insert, pairs_json, Pairs};

verus! {

// ---------------------------------------------------------------------------
// Calls, replies and steps
// ---------------------------------------------------------------------------

/// A call the caller is to make.
#[derive(Debug, PartialEq)]
pub enum Call {
    /// Read a key of the key-value store.
    Get(String),
    /// Write a JSON value under a key of the key-value store.
    Put(String, Json),
    /// Fetch a URL.
    Fetch(String),
    /// Remove a key from the key-value store.
    Delete(String),
}

/// What a fetch gave: its status and the bytes of its body.
#[derive(Debug, PartialEq)]
pub struct Response {
    pub status: u16,
    pub body: Vec<u8>,
}

/// The reply to a call: the text read, the write done, or the fetch made; a
/// failed call gives its error message.
#[derive(Debug, PartialEq)]
pub enum Reply {
    Value(Result<String, String>),
    Written(Result<(), String>),
    Fetched(Result<Response, String>),
}

/// The next call and the state that awaits its reply, or the answer.
#[derive(Debug, PartialEq)]
pub enum Step<M, T> {
    Next(M, Call),
    Finish(Result<T, StoreError>),
}

pub struct StoredView {
    pub text: Seq<char>,
    pub json: Result<JsonView, Seq<char>>,
}

pub enum CallView {
    Get(Seq<char>),
    Put(Seq<char>, JsonView),
    Fetch(Seq<char>),
    Delete(Seq<char>),
}

pub enum ReplyView {
    Value(Result<StoredView, Seq<char>>),
    Written(Result<(), Seq<char>>),
    Fetched(Result<(u16, Result<JsonView, Seq<char>>), Seq<char>>),
}

pub enum ErrorView {
    Remote(Seq<char>),
    Malformed(Seq<char>),
    InvalidInput,
    Status(u16),
    OutOfStep,
    NotPublic,
}

pub enum StepView<M, T> {
    Next(M, CallView),
    Finish(Result<T, ErrorView>),
}

pub open spec fn call_view(c: Call) -> CallView {
    match c {
        Call::Get(k) => CallView::Get(k@),
        Call::Put(k, v) => CallView::Put(k@, v@),
        Call::Fetch(u) => CallView::Fetch(u@),
        Call::Delete(k) => CallView::Delete(k@),
    }
}

pub open spec fn reply_view(r: Reply) -> ReplyView {
    match r {
        Reply::Value(Ok(s)) => ReplyView::Value(Ok(StoredView { text: s@, json: json_of_text(s@) })),
        Reply::Value(Err(e)) => ReplyView::Value(Err(e@)),
        Reply::Written(Ok(())) => ReplyView::Written(Ok(())),
        Reply::Written(Err(e)) => ReplyView::Written(Err(e@)),
        Reply::Fetched(Ok(resp)) => ReplyView::Fetched(Ok((resp.status, json_of_bytes(resp.body@)))),
        Reply::Fetched(Err(e)) => ReplyView::Fetched(Err(e@)),
    }
}

pub open spec fn error_view(e: StoreError) -> ErrorView {
    match e {
        StoreError::Remote(m) => ErrorView::Remote(m@),
        StoreError::Malformed(m) => ErrorView::Malformed(m@),
        StoreError::InvalidInput => ErrorView::InvalidInput,
        StoreError::Status(s) => ErrorView::Status(s),
        StoreError::OutOfStep => ErrorView::OutOfStep,
        StoreError::NotPublic => ErrorView::NotPublic,
    }
}

// ---------------------------------------------------------------------------
// A faithful store
// ---------------------------------------------------------------------------

/// A model of the key-value store: the JSON under each key. It stands for a
/// store that gives back, parsed, the text written from a JSON value.
pub type Kv = Map<Seq<char>, JsonView>;

/// What a fetch of a URL gives, as far as a run depends on it.
pub type Web = spec_fn(Seq<char>) -> Result<(u16, Result<JsonView, Seq<char>>), Seq<char>>;

/// The JSON under key `k`, if any.
pub open spec fn kv_get(store: Kv, k: Seq<char>) -> Option<JsonView> {
    if store.dom().contains(k) {
        Some(store[k])
    } else {
        None
    }
}

/// What the JSON parser says of the empty text that a missing key reads as.
pub open spec fn empty_value_message() -> Seq<char> {
    "EOF while parsing a value at line 1 column 0"@
}

/// A read of key `k`: the JSON under it, or, for a missing key, the parser's
/// message for the empty value read.
pub open spec fn kv_read(store: Kv, k: Seq<char>) -> StoredView {
    StoredView {
        text: Seq::empty(),
        json: match kv_get(store, k) {
            Some(v) => Ok(v),
            None => Err(empty_value_message()),
        },
    }
}

/// A call answered by a store that never fails: the store after it, and the reply.
/// A missing key reads as an empty value that is not JSON.
pub open spec fn exchange(store: Kv, web: Web, call: CallView) -> (Kv, ReplyView) {
    match call {
        CallView::Get(k) => (store, ReplyView::Value(Ok(kv_read(store, k)))),
        CallView::Put(k, v) => (store.insert(k, v), ReplyView::Written(Ok(()))),
        CallView::Fetch(u) => (store, ReplyView::Fetched(web(u))),
        CallView::Delete(k) => (store.remove(k), ReplyView::Written(Ok(()))),
    }
}

/// Runs a machine for at most `fuel` calls: the store at the end, and the answer
/// when the machine finished.
pub open spec fn drive<M, T>(
    store: Kv,
    web: Web,
    step: StepView<M, T>,
    next: spec_fn(M, ReplyView) -> StepView<M, T>,
    fuel: nat,
) -> (Kv, Option<Result<T, ErrorView>>)
    decreases fuel,
{
    match step {
        StepView::Finish(r) => (store, Some(r)),
        StepView::Next(m, c) => if fuel == 0 {
            (store, None)
        } else {
            let (s2, r) = exchange(store, web, c);
            drive(s2, web, next(m, r), next, (fuel - 1) as nat)
        },
    }
}

/// The error of a failed call, when the reply is a failure.
pub open spec fn failure_of(r: ReplyView) -> Option<Seq<char>> {
    match r {
        ReplyView::Value(Err(e)) => Some(e),
        ReplyView::Written(Err(e)) => Some(e),
        ReplyView::Fetched(Err(e)) => Some(e),
        _ => None,
    }
}

fn failure(reply: Reply) -> (r: Result<Reply, StoreError>)
    ensures
        match failure_of(reply_view(reply)) {
            Some(e) => r matches Err(StoreError::Remote(m)) && m@ == e,
            None => r == Ok::<Reply, StoreError>(reply),
        },
{
    match reply {
        Reply::Value(Err(e)) => Err(StoreError::Remote(e)),
        Reply::Written(Err(e)) => Err(StoreError::Remote(e)),
        Reply::Fetched(Err(e)) => Err(StoreError::Remote(e)),
        other => Ok(other),
    }
}

// ---------------------------------------------------------------------------
// Creating a folder
// ---------------------------------------------------------------------------

/// Creating a folder: the folder is written, then the owner's index is read and
/// written back with the folder in it.
#[derive(Debug, PartialEq)]
pub enum CreateFolder {
    Storing(Folder),
    Reading(Folder),
    Indexing(Folder),
}

pub enum CreateFolderView {
    Storing(FolderView),
    Reading(FolderView),
    Indexing(FolderView),
}

impl View for CreateFolder {
    type V = CreateFolderView;

    open spec fn view(&self) -> CreateFolderView {
        match self {
            CreateFolder::Storing(f) => CreateFolderView::Storing(f@),
            CreateFolder::Reading(f) => CreateFolderView::Reading(f@),
            CreateFolder::Indexing(f) => CreateFolderView::Indexing(f@),
        }
    }
}

pub open spec fn create_step_view(s: Step<CreateFolder, Folder>) -> StepView<CreateFolderView, FolderView> {
    match s {
        Step::Next(m, c) => StepView::Next(m@, call_view(c)),
        Step::Finish(Ok(f)) => StepView::Finish(Ok(f@)),
        Step::Finish(Err(e)) => StepView::Finish(Err(error_view(e))),
    }
}

/// The folder a create request makes for `uid`.
pub open spec fn created_folder(uid: Seq<char>, req: FolderUpdateRequestView) -> FolderView {
    FolderView {
        path: full_path_text(req.parent, req.id),
        owner: uid,
        title: req.title,
        nodes: Seq::empty(),
        public: req.public,
    }
}

/// The first step of creating a folder: write it under its path.
pub open spec fn create_begin(uid: Seq<char>, req: FolderUpdateRequestView) -> StepView<
    CreateFolderView,
    FolderView,
> {
    let f = created_folder(uid, req);
    StepView::Next(CreateFolderView::Storing(f), CallView::Put(f.path, crate::folder::folder_json(f)))
}

/// The next step of creating a folder.
pub open spec fn create_next(m: CreateFolderView, r: ReplyView) -> StepView<CreateFolderView, FolderView> {
    match failure_of(r) {
        Some(e) => StepView::Finish(Err(ErrorView::Remote(e))),
        None => match (m, r) {
            (CreateFolderView::Storing(f), ReplyView::Written(_)) => StepView::Next(
                CreateFolderView::Reading(f),
                CallView::Get(index_key_text(f.owner)),
            ),
            (CreateFolderView::Reading(f), ReplyView::Value(Ok(s))) => StepView::Next(
                CreateFolderView::Indexing(f),
                CallView::Put(
                    index_key_text(f.owner),
                    pairs_json(pairs_insert(index_of_stored(parsed(s.json)), f.path, f.path)),
                ),
            ),
            (CreateFolderView::Indexing(f), ReplyView::Written(_)) => StepView::Finish(Ok(f)),
            _ => StepView::Finish(Err(ErrorView::OutOfStep)),
        },
    }
}

/// Starts creating a folder for `uid`.
pub fn folders_create(uid: String, req: FolderUpdateRequest) -> (s: Step<CreateFolder, Folder>)
    ensures
        create_step_view(s) == create_begin(uid@, req@),
{
    let f = folder_for_request(uid, req);
    let j = f.to_json();
    let k = f.path.clone();
    Step::Next(CreateFolder::Storing(f), Call::Put(k, j))
}

impl CreateFolder {
    /// The step after `reply`.
    pub fn resume(self, reply: Reply) -> (s: Step<CreateFolder, Folder>)
        ensures
            create_step_view(s) == create_next(self@, reply_view(reply)),
    {
        let reply = match failure(reply) {
            Err(e) => return Step::Finish(Err(e)),
            Ok(r) => r,
        };
        match (self, reply) {
            (CreateFolder::Storing(f), Reply::Written(_)) => {
                let k = index_key(f.owner.as_str());
                Step::Next(CreateFolder::Reading(f), Call::Get(k))
            },
            (CreateFolder::Reading(f), Reply::Value(Ok(s))) => {
                let k = index_key(f.owner.as_str());
                let p = parse_json_text(s.as_str());
                let m = index_after_create(parsed_json(&p), &f.path);
                let j = m.to_json();
                Step::Next(CreateFolder::Indexing(f), Call::Put(k, j))
            },
            (CreateFolder::Indexing(f), Reply::Written(_)) => Step::Finish(Ok(f)),
            _ => Step::Finish(Err(StoreError::OutOfStep)),
        }
    }
}

/// Creating a folder in a store that never fails writes the folder under its
/// path and its path into the owner's index, touches no other key, and answers
/// the folder; read back, the folder is the one written, and the index lists it
/// (so deleting it finds it). The folder's path must not be the owner's index key.
pub proof fn creating_a_folder(
    store: Kv,
    web: Web,
    uid: Seq<char>,
    req: FolderUpdateRequestView,
    k: Seq<char>,
)
    requires
        full_path_text(req.parent, req.id) != index_key_text(uid),
    ensures
        ({
            let f = created_folder(uid, req);
            let ik = index_key_text(uid);
            let run = drive(store, web, create_begin(uid, req), |m, r| create_next(m, r), 3);
            let after = run.0;
            &&& run.1 == Some(Ok::<FolderView, ErrorView>(f))
            &&& kv_get(after, f.path) == Some(crate::folder::folder_json(f))
            &&& folder_decoded(after[f.path]) == Some(f)
            &&& kv_get(after, ik) == Some(
                pairs_json(pairs_insert(index_of_stored(kv_get(store, ik)), f.path, f.path)),
            )
            &&& lookup(index_of_stored(kv_get(after, ik)), f.path) == Some(f.path)
            &&& crate::textmap::has_value(index_of_stored(kv_get(after, ik)), f.path)
            &&& (k != f.path && k != ik ==> kv_get(after, k) == kv_get(store, k))
        }),
{
    let f = created_folder(uid, req);
    let ik = index_key_text(uid);
    let next = |m, r| create_next(m, r);
    let s1 = store.insert(f.path, crate::folder::folder_json(f));
    let idx = pairs_insert(index_of_stored(kv_get(s1, ik)), f.path, f.path);
    let s2 = s1.insert(ik, pairs_json(idx));
    assert(kv_get(s1, ik) == kv_get(store, ik));
    reveal_with_fuel(drive, 4);
    assert(drive(store, web, create_begin(uid, req), next, 3) == (s2, Some(Ok::<FolderView, ErrorView>(f))));
    crate::folder::folder_round_trip(f);
    crate::folder::lemma_stored_index_unique(kv_get(store, ik));
    crate::textmap::lemma_insert_unique(index_of_stored(kv_get(store, ik)), f.path, f.path);
    crate::folder::lemma_pairs_round_trip(idx);
    crate::store::created_folder_is_indexed(kv_get(store, ik), f.path);
}

/// Creating the same folder twice leaves the store as the first create left it
/// and answers the same folder: run in a store that never fails, the second create
/// writes back the same folder and an index that already names it.
pub proof fn creating_a_folder_again(store: Kv, web: Web, uid: Seq<char>, req: FolderUpdateRequestView)
    ensures
        ({
            let first = drive(store, web, create_begin(uid, req), |m, r| create_next(m, r), 3);
            let second = drive(first.0, web, create_begin(uid, req), |m, r| create_next(m, r), 3);
            second.0 == first.0 && second.1 == first.1
        }),
{
    let f = created_folder(uid, req);
    let ik = index_key_text(uid);
    let fj = crate::folder::folder_json(f);
    let next = |m, r| create_next(m, r);
    reveal_with_fuel(drive, 4);
    if f.path == ik {
        // The index read finds the folder just written, whatever the store held.
        let x = pairs_json(pairs_insert(index_of_stored(Some(fj)), f.path, f.path));
        let s1 = store.insert(f.path, fj).insert(ik, x);
        assert(kv_get(store.insert(f.path, fj), ik) == Some(fj));
        assert(drive(store, web, create_begin(uid, req), next, 3) == (s1, Some(Ok::<FolderView, ErrorView>(f))));
        let s2 = s1.insert(f.path, fj).insert(ik, x);
        assert(kv_get(s1.insert(f.path, fj), ik) == Some(fj));
        assert(drive(s1, web, create_begin(uid, req), next, 3) == (s2, Some(Ok::<FolderView, ErrorView>(f))));
        assert(s2 =~= s1);
    } else {
        let first = drive(store, web, create_begin(uid, req), next, 3);
        creating_a_folder(store, web, uid, req, ik);
        let i0 = pairs_insert(index_of_stored(kv_get(store, ik)), f.path, f.path);
        crate::folder::lemma_stored_index_unique(kv_get(store, ik));
        crate::textmap::lemma_insert_unique(index_of_stored(kv_get(store, ik)), f.path, f.path);
        crate::folder::lemma_pairs_round_trip(i0);
        let i1 = index_of_stored(kv_get(first.0, ik));
        assert(i1 == i0);
        crate::textmap::lemma_key_pos(i1, f.path);
        assert(pairs_insert(i1, f.path, f.path) =~= i1);
        let second_store = first.0.insert(f.path, fj).insert(ik, pairs_json(i1));
        assert(kv_get(first.0.insert(f.path, fj), ik) == kv_get(first.0, ik));
        assert(drive(first.0, web, create_begin(uid, req), next, 3) == (
            second_store,
            Some(Ok::<FolderView, ErrorView>(f)),
        ));
        assert(second_store =~= first.0);
    }
}

// ---------------------------------------------------------------------------
// Listing a user's folders
// ---------------------------------------------------------------------------

/// Listing a user's folders: the index is read, then each folder it names, in
/// order; those the user owns are kept, keyed by their path. A folder that cannot
/// be read as one fails the listing.
#[derive(Debug, PartialEq)]
pub enum ListFolders {
    Indexing(String),
    Reading { uid: String, paths: Vec<String>, next: usize, listing: Listing },
}

pub enum ListFoldersView {
    Indexing(Seq<char>),
    Reading(Seq<char>, Seq<Seq<char>>, int, Seq<FolderView>),
}

impl View for ListFolders {
    type V = ListFoldersView;

    open spec fn view(&self) -> ListFoldersView {
        match self {
            ListFolders::Indexing(uid) => ListFoldersView::Indexing(uid@),
            ListFolders::Reading { uid, paths, next, listing } => ListFoldersView::Reading(
                uid@,
                paths@.map_values(|p: String| p@),
                *next as int,
                listing@,
            ),
        }
    }
}

pub open spec fn list_step_view(s: Step<ListFolders, Listing>) -> StepView<ListFoldersView, Seq<FolderView>> {
    match s {
        Step::Next(m, c) => StepView::Next(m@, call_view(c)),
        Step::Finish(Ok(l)) => StepView::Finish(Ok(l@)),
        Step::Finish(Err(e)) => StepView::Finish(Err(error_view(e))),
    }
}

/// The paths an index names, in order.
pub open spec fn index_paths(p: Pairs) -> Seq<Seq<char>> {
    p.map_values(|e: (Seq<char>, Seq<char>)| e.0)
}

/// The folder a read gave, if it is one.
pub open spec fn read_folder(s: StoredView) -> Option<FolderView> {
    match parsed(s.json) {
        Some(v) => folder_decoded(v),
        None => None,
    }
}

/// Read the folder at position `i`, or answer the listing when all are read.
pub open spec fn list_read(uid: Seq<char>, paths: Seq<Seq<char>>, i: int, listing: Seq<FolderView>) -> StepView<
    ListFoldersView,
    Seq<FolderView>,
> {
    if 0 <= i < paths.len() {
        StepView::Next(ListFoldersView::Reading(uid, paths, i, listing), CallView::Get(paths[i]))
    } else {
        StepView::Finish(Ok(listing))
    }
}

/// The first step of listing: read the index.
pub open spec fn list_begin(uid: Seq<char>) -> StepView<ListFoldersView, Seq<FolderView>> {
    StepView::Next(ListFoldersView::Indexing(uid), CallView::Get(index_key_text(uid)))
}

/// The next step of listing.
pub open spec fn list_next(m: ListFoldersView, r: ReplyView) -> StepView<ListFoldersView, Seq<FolderView>> {
    match failure_of(r) {
        Some(e) => StepView::Finish(Err(ErrorView::Remote(e))),
        None => match (m, r) {
            (ListFoldersView::Indexing(uid), ReplyView::Value(Ok(s))) => list_read(
                uid,
                index_paths(index_of_stored(parsed(s.json))),
                0,
                Seq::empty(),
            ),
            (ListFoldersView::Reading(uid, paths, i, l), ReplyView::Value(Ok(s))) => match read_folder(s) {
                None => StepView::Finish(Err(ErrorView::Malformed(fault_text(s.json, not_a_folder())))),
                Some(f) => list_read(
                    uid,
                    paths,
                    i + 1,
                    if f.owner == uid {
                        listing_insert(l, f)
                    } else {
                        l
                    },
                ),
            },
            _ => StepView::Finish(Err(ErrorView::OutOfStep)),
        },
    }
}

fn read_next(uid: String, paths: Vec<String>, i: usize, listing: Listing) -> (s: Step<ListFolders, Listing>)
    ensures
        list_step_view(s) == list_read(uid@, paths@.map_values(|p: String| p@), i as int, listing@),
{
    if i < paths.len() {
        let k = paths[i].clone();
        Step::Next(ListFolders::Reading { uid, paths, next: i, listing }, Call::Get(k))
    } else {
        Step::Finish(Ok(listing))
    }
}

/// Starts listing the folders of `uid`.
pub fn folders_read_all(uid: String) -> (s: Step<ListFolders, Listing>)
    ensures
        list_step_view(s) == list_begin(uid@),
{
    let k = index_key(uid.as_str());
    Step::Next(ListFolders::Indexing(uid), Call::Get(k))
}

impl ListFolders {
    /// The step after `reply`.
    pub fn resume(self, reply: Reply) -> (s: Step<ListFolders, Listing>)
        ensures
            list_step_view(s) == list_next(self@, reply_view(reply)),
    {
        let reply = match failure(reply) {
            Err(e) => return Step::Finish(Err(e)),
            Ok(r) => r,
        };
        match (self, reply) {
            (ListFolders::Indexing(uid), Reply::Value(Ok(s))) => {
                let p = parse_json_text(s.as_str());
                let m = stored_index(parsed_json(&p));
                let mut paths: Vec<String> = Vec::new();
                let mut i: usize = 0;
                while i < m.len()
                    invariant
                        0 <= i <= m@.len(),
                        paths@.map_values(|p: String| p@) == index_paths(m@.take(i as int)),
                    decreases m@.len() - i,
                {
                    let (k, _) = m.entry(i);
                    let ghost before = paths@;
                    paths.push(k.clone());
                    assert(paths@.map_values(|p: String| p@) =~= before.map_values(|p: String| p@).push(
                        m@[i as int].0,
                    ));
                    assert(m@.take(i + 1) =~= m@.take(i as int).push(m@[i as int]));
                    i = i + 1;
                    assert(paths@.map_values(|p: String| p@) =~= index_paths(m@.take(i as int)));
                }
                assert(m@.take(i as int) =~= m@);
                read_next(uid, paths, 0, Listing::new())
            },
            (ListFolders::Reading { uid, paths, next, listing }, Reply::Value(Ok(s))) => {
                proof {
                    assert(paths@.map_values(|p: String| p@).len() == paths@.len());
                }
                let p = parse_json_text(s.as_str());
                match stored_folder(parsed_json(&p)) {
                    None => Step::Finish(Err(malformed(&p, "invalid folder record"))),
                    Some(f) => {
                        let mut listing = listing;
                        if same_text(f.owner.as_str(), uid.as_str()) {
                            listing.insert(f);
                        }
                        if next < paths.len() {
                            read_next(uid, paths, next + 1, listing)
                        } else {
                            Step::Finish(Ok(listing))
                        }
                    },
                }
            },
            _ => Step::Finish(Err(StoreError::OutOfStep)),
        }
    }
}

/// The user a listing is for.
pub open spec fn list_uid(m: ListFoldersView) -> Seq<char> {
    match m {
        ListFoldersView::Indexing(uid) => uid,
        ListFoldersView::Reading(uid, _, _, _) => uid,
    }
}

/// The folders kept so far are the user's.
pub open spec fn list_state_owned(m: ListFoldersView) -> bool {
    match m {
        ListFoldersView::Indexing(_) => true,
        ListFoldersView::Reading(uid, _, _, l) => crate::folder::all_owned_by(l, uid),
    }
}

pub open spec fn list_step_owned(s: StepView<ListFoldersView, Seq<FolderView>>, uid: Seq<char>) -> bool {
    match s {
        StepView::Next(m, _) => list_uid(m) == uid && list_state_owned(m),
        StepView::Finish(Ok(l)) => crate::folder::all_owned_by(l, uid),
        StepView::Finish(Err(_)) => true,
    }
}

proof fn lemma_list_next_owned(m: ListFoldersView, r: ReplyView, uid: Seq<char>)
    requires
        list_uid(m) == uid,
        list_state_owned(m),
    ensures
        list_step_owned(list_next(m, r), uid),
{
    if failure_of(r) is None {
        match (m, r) {
            (ListFoldersView::Reading(u, paths, i, l), ReplyView::Value(Ok(s))) => {
                if let Some(f) = read_folder(s) {
                    if f.owner == u {
                        crate::folder::listing_stays_owned(l, f, u);
                    }
                }
            },
            _ => {},
        }
    }
}

proof fn lemma_list_drive_owned(
    store: Kv,
    web: Web,
    s: StepView<ListFoldersView, Seq<FolderView>>,
    uid: Seq<char>,
    fuel: nat,
)
    requires
        list_step_owned(s, uid),
    ensures
        drive(store, web, s, |m, r| list_next(m, r), fuel).1 matches Some(Ok(l)) ==> crate::folder::all_owned_by(
            l,
            uid,
        ),
    decreases fuel,
{
    if let StepView::Next(m, c) = s {
        if fuel > 0 {
            let (s2, r) = exchange(store, web, c);
            lemma_list_next_owned(m, r, uid);
            lemma_list_drive_owned(s2, web, list_next(m, r), uid, (fuel - 1) as nat);
        }
    }
}

/// A listing of a user's folders holds only folders that user owns, whatever the
/// store holds and however long the index.
pub proof fn listings_are_private(store: Kv, web: Web, uid: Seq<char>, fuel: nat)
    ensures
        drive(store, web, list_begin(uid), |m, r| list_next(m, r), fuel).1 matches Some(Ok(l))
            ==> crate::folder::all_owned_by(l, uid),
{
    lemma_list_drive_owned(store, web, list_begin(uid), uid, fuel);
}

/// A listing holds a folder at `path`.
pub open spec fn lists_path(l: Seq<FolderView>, path: Seq<char>) -> bool {
    exists|i: int| 0 <= i < l.len() && #[trigger] l[i].path == path
}

proof fn lemma_insert_lists(l: Seq<FolderView>, f: FolderView, path: Seq<char>)
    ensures
        lists_path(l, path) ==> lists_path(listing_insert(l, f), path),
        lists_path(listing_insert(l, f), f.path),
{
    crate::folder::lemma_path_pos_pub(l, f.path);
    let t = listing_insert(l, f);
    let q = if crate::folder::path_pos(l, f.path) >= 0 {
        crate::folder::path_pos(l, f.path)
    } else {
        l.len() as int
    };
    assert(t[q].path == f.path);
    if lists_path(l, path) {
        let i = choose|i: int| 0 <= i < l.len() && #[trigger] l[i].path == path;
        if i == q {
            assert(t[q].path == path);
        } else {
            assert(t[i] == l[i]);
        }
    }
}

proof fn lemma_list_finds(
    store: Kv,
    web: Web,
    uid: Seq<char>,
    paths: Seq<Seq<char>>,
    i: int,
    l: Seq<FolderView>,
    q: int,
    f: FolderView,
    fuel: nat,
)
    requires
        0 <= i < paths.len(),
        0 <= q < paths.len(),
        paths[q] == f.path,
        f.owner == uid,
        kv_get(store, f.path) matches Some(v) && folder_decoded(v) == Some(f),
        i > q ==> lists_path(l, f.path),
    ensures
        drive(store, web, list_read(uid, paths, i, l), |m, r| list_next(m, r), fuel).1 matches Some(
            Ok(lr),
        ) ==> lists_path(lr, f.path),
    decreases fuel,
{
    let next = |m, r| list_next(m, r);
    if fuel > 0 {
        let (s2, r) = exchange(store, web, CallView::Get(paths[i]));
        assert(s2 == store);
        let st = kv_read(store, paths[i]);
        assert(r == ReplyView::Value(Ok::<StoredView, Seq<char>>(st)));
        assert(drive(store, web, list_read(uid, paths, i, l), next, fuel) == drive(
            store,
            web,
            list_next(ListFoldersView::Reading(uid, paths, i, l), r),
            next,
            (fuel - 1) as nat,
        ));
        if let Some(g) = read_folder(st) {
            let l2 = if g.owner == uid {
                listing_insert(l, g)
            } else {
                l
            };
            lemma_insert_lists(l, g, f.path);
            if i == q {
                assert(g == f);
            }
            assert(i + 1 > q ==> lists_path(l2, f.path));
            if i + 1 < paths.len() {
                lemma_list_finds(store, web, uid, paths, i + 1, l2, q, f, (fuel - 1) as nat);
            }
            assert(list_next(ListFoldersView::Reading(uid, paths, i, l), r) == list_read(
                uid,
                paths,
                i + 1,
                l2,
            ));
        }
    }
}

/// A folder just created keeps its path in its owner's next listing: run in a
/// store that never fails, a create followed by a listing of the owner's folders
/// that finishes lists a folder at the new folder's path. The folder's path must
/// not be the owner's index key.
pub proof fn a_finished_listing_holds_a_created_path(
    store: Kv,
    web: Web,
    uid: Seq<char>,
    req: FolderUpdateRequestView,
    fuel: nat,
)
    requires
        full_path_text(req.parent, req.id) != index_key_text(uid),
    ensures
        ({
            let after = drive(store, web, create_begin(uid, req), |m, r| create_next(m, r), 3).0;
            drive(after, web, list_begin(uid), |m, r| list_next(m, r), fuel).1 matches Some(Ok(l))
                ==> lists_path(l, created_folder(uid, req).path)
        }),
{
    let f = created_folder(uid, req);
    let ik = index_key_text(uid);
    let after = drive(store, web, create_begin(uid, req), |m, r| create_next(m, r), 3).0;
    creating_a_folder(store, web, uid, req, ik);
    let idx = pairs_insert(index_of_stored(kv_get(store, ik)), f.path, f.path);
    crate::folder::lemma_stored_index_unique(kv_get(store, ik));
    crate::textmap::lemma_insert_unique(index_of_stored(kv_get(store, ik)), f.path, f.path);
    crate::folder::lemma_pairs_round_trip(idx);
    assert(index_of_stored(kv_get(after, ik)) == idx);
    let paths = index_paths(idx);
    crate::textmap::lemma_key_pos(idx, f.path);
    let q = crate::textmap::key_pos(idx, f.path);
    assert(paths[q] == f.path);
    if fuel > 0 {
        let st = kv_read(after, ik);
        assert(list_next(ListFoldersView::Indexing(uid), ReplyView::Value(Ok::<StoredView, Seq<char>>(st)))
            == list_read(uid, paths, 0, Seq::empty()));
        lemma_list_finds(after, web, uid, paths, 0, Seq::empty(), q, f, (fuel - 1) as nat);
    }
}

// ---------------------------------------------------------------------------
// Deleting a folder
// ---------------------------------------------------------------------------

/// Deleting a folder: the owner's index is read, and the folder's key removed when
/// the index names that path; the index itself is left as it was.
#[derive(Debug, PartialEq)]
pub enum DeleteFolder {
    Reading(String),
    Deleting,
}

pub enum DeleteFolderView {
    Reading(Seq<char>),
    Deleting,
}

impl View for DeleteFolder {
    type V = DeleteFolderView;

    open spec fn view(&self) -> DeleteFolderView {
        match self {
            DeleteFolder::Reading(p) => DeleteFolderView::Reading(p@),
            DeleteFolder::Deleting => DeleteFolderView::Deleting,
        }
    }
}

pub open spec fn delete_step_view(s: Step<DeleteFolder, bool>) -> StepView<DeleteFolderView, bool> {
    match s {
        Step::Next(m, c) => StepView::Next(m@, call_view(c)),
        Step::Finish(Ok(b)) => StepView::Finish(Ok(b)),
        Step::Finish(Err(e)) => StepView::Finish(Err(error_view(e))),
    }
}

/// The first step of deleting the folder at `path`: read the owner's index.
pub open spec fn delete_begin(uid: Seq<char>, path: Seq<char>) -> StepView<DeleteFolderView, bool> {
    StepView::Next(DeleteFolderView::Reading(path), CallView::Get(index_key_text(uid)))
}

/// The next step of deleting a folder.
pub open spec fn delete_next(m: DeleteFolderView, r: ReplyView) -> StepView<DeleteFolderView, bool> {
    match failure_of(r) {
        Some(e) => StepView::Finish(Err(ErrorView::Remote(e))),
        None => match (m, r) {
            (DeleteFolderView::Reading(p), ReplyView::Value(Ok(s))) => if crate::textmap::has_value(
                index_of_stored(parsed(s.json)),
                p,
            ) {
                StepView::Next(DeleteFolderView::Deleting, CallView::Delete(p))
            } else {
                StepView::Finish(Ok(false))
            },
            (DeleteFolderView::Deleting, ReplyView::Written(_)) => StepView::Finish(Ok(true)),
            _ => StepView::Finish(Err(ErrorView::OutOfStep)),
        },
    }
}

/// Starts deleting the folder at `path` of user `uid`.
pub fn folders_delete(uid: &str, path: String) -> (s: Step<DeleteFolder, bool>)
    ensures
        delete_step_view(s) == delete_begin(uid@, path@),
{
    let k = index_key(uid);
    Step::Next(DeleteFolder::Reading(path), Call::Get(k))
}

impl DeleteFolder {
    /// The step after `reply`.
    pub fn resume(self, reply: Reply) -> (s: Step<DeleteFolder, bool>)
        ensures
            delete_step_view(s) == delete_next(self@, reply_view(reply)),
    {
        let reply = match failure(reply) {
            Err(e) => return Step::Finish(Err(e)),
            Ok(r) => r,
        };
        match (self, reply) {
            (DeleteFolder::Reading(p), Reply::Value(Ok(s))) => {
                let parse = parse_json_text(s.as_str());
                if crate::store::folders_delete(parsed_json(&parse), p.as_str()) {
                    Step::Next(DeleteFolder::Deleting, Call::Delete(p))
                } else {
                    Step::Finish(Ok(false))
                }
            },
            (DeleteFolder::Deleting, Reply::Written(_)) => Step::Finish(Ok(true)),
            _ => Step::Finish(Err(StoreError::OutOfStep)),
        }
    }
}

/// The record at key `k` is a folder whose path is `k`.
pub open spec fn names_its_folder(store: Kv, k: Seq<char>) -> bool {
    match kv_get(store, k) {
        Some(v) => match folder_decoded(v) {
            Some(g) => g.path == k,
            None => false,
        },
        None => false,
    }
}

/// Every key in the index of `uid` names a folder stored under its own path.
pub open spec fn index_well_kept(store: Kv, uid: Seq<char>) -> bool {
    let idx = index_of_stored(kv_get(store, index_key_text(uid)));
    forall|j: int| 0 <= j < idx.len() ==> #[trigger] names_its_folder(store, idx[j].0)
}

proof fn lemma_insert_keeps(l: Seq<FolderView>, g: FolderView, f: FolderView)
    requires
        l.contains(f),
        g.path != f.path,
    ensures
        listing_insert(l, g).contains(f),
{
    crate::folder::lemma_path_pos_pub(l, g.path);
    let i = choose|i: int| 0 <= i < l.len() && l[i] == f;
    let t = listing_insert(l, g);
    if crate::folder::path_pos(l, g.path) >= 0 {
        assert(crate::folder::path_pos(l, g.path) != i);
        assert(t[i] == f);
    } else {
        assert(t[i] == f);
    }
}

proof fn lemma_insert_adds(l: Seq<FolderView>, f: FolderView)
    ensures
        listing_insert(l, f).contains(f),
{
    crate::folder::lemma_path_pos_pub(l, f.path);
    let t = listing_insert(l, f);
    let q = if crate::folder::path_pos(l, f.path) >= 0 {
        crate::folder::path_pos(l, f.path)
    } else {
        l.len() as int
    };
    assert(t[q] == f);
}

proof fn lemma_list_completes(
    store: Kv,
    web: Web,
    uid: Seq<char>,
    paths: Seq<Seq<char>>,
    i: int,
    l: Seq<FolderView>,
    q: int,
    f: FolderView,
    fuel: nat,
)
    requires
        0 <= i <= paths.len(),
        0 <= q < paths.len(),
        paths.no_duplicates(),
        forall|j: int| i <= j < paths.len() ==> #[trigger] names_its_folder(store, paths[j]),
        paths[q] == f.path,
        f.owner == uid,
        kv_get(store, f.path) matches Some(v) && folder_decoded(v) == Some(f),
        i > q ==> l.contains(f),
        fuel >= paths.len() - i,
    ensures
        drive(store, web, list_read(uid, paths, i, l), |m, r| list_next(m, r), fuel).1 matches Some(
            Ok(lr),
        ) && lr.contains(f),
    decreases paths.len() - i,
{
    let next = |m, r| list_next(m, r);
    if i < paths.len() {
        let (s2, r) = exchange(store, web, CallView::Get(paths[i]));
        assert(s2 == store);
        let st = kv_read(store, paths[i]);
        assert(r == ReplyView::Value(Ok::<StoredView, Seq<char>>(st)));
        assert(names_its_folder(store, paths[i]));
        let g = read_folder(st)->0;
        assert(g.path == paths[i]);
        let l2 = if g.owner == uid {
            listing_insert(l, g)
        } else {
            l
        };
        if i == q {
            assert(g == f);
            lemma_insert_adds(l, f);
        } else if i > q {
            assert(paths[i] != paths[q]);
            if g.owner == uid {
                lemma_insert_keeps(l, g, f);
            }
        }
        assert(drive(store, web, list_read(uid, paths, i, l), next, fuel) == drive(
            store,
            web,
            list_read(uid, paths, i + 1, l2),
            next,
            (fuel - 1) as nat,
        ));
        lemma_list_completes(store, web, uid, paths, i + 1, l2, q, f, (fuel - 1) as nat);
    }
}

/// A folder just created is listed, unchanged, by its owner's next listing: run
/// in a store that never fails, when every key of the owner's index names a
/// folder stored under its own path, listing the owner's folders after the create
/// succeeds and holds the folder created. The folder's path must not be the
/// owner's index key.
pub proof fn created_folders_are_listed(store: Kv, web: Web, uid: Seq<char>, req: FolderUpdateRequestView)
    requires
        full_path_text(req.parent, req.id) != index_key_text(uid),
        index_well_kept(
            drive(store, web, create_begin(uid, req), |m, r| create_next(m, r), 3).0,
            uid,
        ),
    ensures
        ({
            let after = drive(store, web, create_begin(uid, req), |m, r| create_next(m, r), 3).0;
            let n = index_of_stored(kv_get(after, index_key_text(uid))).len();
            drive(after, web, list_begin(uid), |m, r| list_next(m, r), n + 1).1 matches Some(Ok(l))
                && l.contains(created_folder(uid, req))
        }),
{
    let f = created_folder(uid, req);
    let ik = index_key_text(uid);
    let after = drive(store, web, create_begin(uid, req), |m, r| create_next(m, r), 3).0;
    creating_a_folder(store, web, uid, req, ik);
    let idx = pairs_insert(index_of_stored(kv_get(store, ik)), f.path, f.path);
    crate::folder::lemma_stored_index_unique(kv_get(store, ik));
    crate::textmap::lemma_insert_unique(index_of_stored(kv_get(store, ik)), f.path, f.path);
    crate::folder::lemma_pairs_round_trip(idx);
    assert(index_of_stored(kv_get(after, ik)) == idx);
    let paths = index_paths(idx);
    crate::textmap::lemma_key_pos(idx, f.path);
    let q = crate::textmap::key_pos(idx, f.path);
    assert(paths[q] == f.path);
    assert(paths.no_duplicates()) by {
        assert forall|a: int, b: int| 0 <= a < paths.len() && 0 <= b < paths.len() && a != b implies paths[a]
            != paths[b] by {
            if a < b {
                assert(idx[a].0 != idx[b].0);
            } else {
                assert(idx[b].0 != idx[a].0);
            }
        }
    }
    assert forall|j: int| 0 <= j < paths.len() implies #[trigger] names_its_folder(after, paths[j]) by {
        assert(names_its_folder(after, idx[j].0));
    }
    let n = idx.len();
    let st = kv_read(after, ik);
    assert(list_next(ListFoldersView::Indexing(uid), ReplyView::Value(Ok::<StoredView, Seq<char>>(st)))
        == list_read(uid, paths, 0, Seq::empty()));
    lemma_list_completes(after, web, uid, paths, 0, Seq::empty(), q, f, n);
}

proof fn lemma_list_fails(
    store: Kv,
    web: Web,
    uid: Seq<char>,
    paths: Seq<Seq<char>>,
    i: int,
    l: Seq<FolderView>,
    q: int,
    fuel: nat,
)
    requires
        0 <= i <= q < paths.len(),
        kv_get(store, paths[q]) is None,
    ensures
        !(drive(store, web, list_read(uid, paths, i, l), |m, r| list_next(m, r), fuel).1 matches Some(
            Ok(_),
        )),
        fuel > q - i ==> drive(store, web, list_read(uid, paths, i, l), |m, r| list_next(m, r), fuel).1
            matches Some(Err(_)),
    decreases q - i,
{
    let next = |m, r| list_next(m, r);
    if fuel > 0 {
        let (s2, r) = exchange(store, web, CallView::Get(paths[i]));
        assert(s2 == store);
        let st = kv_read(store, paths[i]);
        assert(r == ReplyView::Value(Ok::<StoredView, Seq<char>>(st)));
        assert(drive(store, web, list_read(uid, paths, i, l), next, fuel) == drive(
            store,
            web,
            list_next(ListFoldersView::Reading(uid, paths, i, l), r),
            next,
            (fuel - 1) as nat,
        ));
        if let Some(g) = read_folder(st) {
            assert(i < q);
            let l2 = if g.owner == uid {
                listing_insert(l, g)
            } else {
                l
            };
            lemma_list_fails(store, web, uid, paths, i + 1, l2, q, (fuel - 1) as nat);
        }
    }
}

/// A folder that was created and then deleted leaves its path in the owner's
/// index, so listing the owner's folders fails: run in a store that never fails,
/// the delete after the create finds the folder and removes it, and no later
/// listing of the owner's folders succeeds; one given a call for each index entry
/// and one for the index fails. The folder's path must not be the owner's index
/// key.
pub proof fn deleted_folders_break_the_listing(
    store: Kv,
    web: Web,
    uid: Seq<char>,
    req: FolderUpdateRequestView,
    fuel: nat,
)
    requires
        full_path_text(req.parent, req.id) != index_key_text(uid),
    ensures
        ({
            let f = created_folder(uid, req);
            let created = drive(store, web, create_begin(uid, req), |m, r| create_next(m, r), 3).0;
            let deleted = drive(created, web, delete_begin(uid, f.path), |m, r| delete_next(m, r), 2);
            let listed = drive(deleted.0, web, list_begin(uid), |m, r| list_next(m, r), fuel).1;
            let n = index_of_stored(kv_get(deleted.0, index_key_text(uid))).len();
            &&& deleted.1 == Some(Ok::<bool, ErrorView>(true))
            &&& deleted.0 == created.remove(f.path)
            &&& !(listed matches Some(Ok(_)))
            &&& (fuel > n ==> listed matches Some(Err(_)))
        }),
{
    let f = created_folder(uid, req);
    let ik = index_key_text(uid);
    let created = drive(store, web, create_begin(uid, req), |m, r| create_next(m, r), 3).0;
    creating_a_folder(store, web, uid, req, ik);
    let idx = index_of_stored(kv_get(created, ik));
    let st = kv_read(created, ik);
    assert(delete_next(DeleteFolderView::Reading(f.path), ReplyView::Value(Ok::<StoredView, Seq<char>>(st)))
        == StepView::<DeleteFolderView, bool>::Next(DeleteFolderView::Deleting, CallView::Delete(f.path)));
    reveal_with_fuel(drive, 3);
    let deleted = created.remove(f.path);
    assert(drive(created, web, delete_begin(uid, f.path), |m, r| delete_next(m, r), 2) == (
        deleted,
        Some(Ok::<bool, ErrorView>(true)),
    ));
    assert(kv_get(deleted, ik) == kv_get(created, ik));
    assert(kv_get(deleted, f.path) is None);
    let paths = index_paths(idx);
    crate::textmap::lemma_key_pos(idx, f.path);
    let q = crate::textmap::key_pos(idx, f.path);
    assert(q >= 0);
    assert(paths[q] == f.path);
    if fuel > 0 {
        let st2 = kv_read(deleted, ik);
        assert(list_next(ListFoldersView::Indexing(uid), ReplyView::Value(Ok::<StoredView, Seq<char>>(st2)))
            == list_read(uid, paths, 0, Seq::empty()));
        lemma_list_fails(deleted, web, uid, paths, 0, Seq::empty(), q, (fuel - 1) as nat);
    }
}

// ---------------------------------------------------------------------------
// Fetching from crossref
// ---------------------------------------------------------------------------

/// The work a crossref fetch gave: its JSON when the status is `200..300` and the
/// body is JSON; the parser's message when it is not.
pub open spec fn work_of(r: Result<(u16, Result<JsonView, Seq<char>>), Seq<char>>) -> Result<JsonView, ErrorView> {
    match r {
        Err(e) => Err(ErrorView::Remote(e)),
        Ok((status, body)) => if 200 <= status < 300 {
            match body {
                Ok(j) => Ok(j),
                Err(m) => Err(ErrorView::Malformed(m)),
            }
        } else {
            Err(ErrorView::Status(status))
        },
    }
}

pub open spec fn result_json_view(r: Result<Json, StoreError>) -> Result<JsonView, ErrorView> {
    match r {
        Ok(j) => Ok(j@),
        Err(e) => Err(error_view(e)),
    }
}

pub open spec fn fetched_view(r: Result<Response, String>) -> Result<(u16, Result<JsonView, Seq<char>>), Seq<char>> {
    match r {
        Ok(resp) => Ok((resp.status, json_of_bytes(resp.body@))),
        Err(e) => Err(e@),
    }
}

/// The work of a crossref fetch.
pub fn work_from(r: Result<Response, String>) -> (w: Result<Json, StoreError>)
    ensures
        result_json_view(w) == work_of(fetched_view(r)),
{
    match r {
        Err(e) => Err(StoreError::Remote(e)),
        Ok(resp) => if crate::keys::fetch_succeeded(resp.status) {
            match parse_json_bytes(resp.body.as_slice()) {
                Ok(j) => Ok(j),
                Err(m) => Err(StoreError::Malformed(m)),
            }
        } else {
            Err(StoreError::Status(resp.status))
        },
    }
}

/// The fetch of a DOI's crossref work.
pub open spec fn fetch_call(p: DoiPlanView) -> CallView {
    CallView::Fetch(crossref_url_text(p.doi))
}

/// The answer of a create once both halves are done: the folder update's error
/// first, then the fetch's.
pub open spec fn outcome_of(tagged: Result<bool, ErrorView>, fetched: Result<JsonView, ErrorView>) -> Result<
    JsonView,
    ErrorView,
> {
    match (tagged, fetched) {
        (Ok(_), Ok(j)) => Ok(j),
        (Err(e), _) => Err(e),
        (Ok(_), Err(e)) => Err(e),
    }
}

pub open spec fn tagged_view(t: Result<bool, StoreError>) -> Result<bool, ErrorView> {
    match t {
        Ok(b) => Ok(b),
        Err(e) => Err(error_view(e)),
    }
}

// ---------------------------------------------------------------------------
// Adding a DOI to a folder
// ---------------------------------------------------------------------------

/// Adding a DOI to a folder: the folder is read and, when it is one, written back
/// with the DOI pending; the DOI is fetched from crossref whatever came of that;
/// when both went well the crossref work is kept under the raw key and answered.
#[derive(Debug, PartialEq)]
pub enum CreateDoi {
    Tagging(DoiPlan),
    Retagging(DoiPlan),
    Fetching(DoiPlan, Result<bool, StoreError>),
    Saving(Json),
}

pub enum CreateDoiView {
    Tagging(DoiPlanView),
    Retagging(DoiPlanView),
    Fetching(DoiPlanView, Result<bool, ErrorView>),
    Saving(JsonView),
}

impl View for CreateDoi {
    type V = CreateDoiView;

    open spec fn view(&self) -> CreateDoiView {
        match self {
            CreateDoi::Tagging(p) => CreateDoiView::Tagging(p@),
            CreateDoi::Retagging(p) => CreateDoiView::Retagging(p@),
            CreateDoi::Fetching(p, t) => CreateDoiView::Fetching(p@, tagged_view(*t)),
            CreateDoi::Saving(j) => CreateDoiView::Saving(j@),
        }
    }
}

pub open spec fn doi_step_view(s: Step<CreateDoi, Json>) -> StepView<CreateDoiView, JsonView> {
    match s {
        Step::Next(m, c) => StepView::Next(m@, call_view(c)),
        Step::Finish(Ok(j)) => StepView::Finish(Ok(j@)),
        Step::Finish(Err(e)) => StepView::Finish(Err(error_view(e))),
    }
}

/// A folder with `doi` added.
pub open spec fn tagged_folder(f: FolderView, doi: Seq<char>) -> FolderView {
    FolderView { nodes: crate::folder::nodes_with_doi(f.nodes, doi), ..f }
}

/// The first step of adding a DOI: read the folder.
pub open spec fn doi_begin(req: crate::requests::DoiFetchRequestView) -> StepView<CreateDoiView, JsonView> {
    let p = doi_plan_of(req);
    StepView::Next(CreateDoiView::Tagging(p), CallView::Get(p.folder))
}

/// The next step of adding a DOI.
pub open spec fn doi_next(m: CreateDoiView, r: ReplyView) -> StepView<CreateDoiView, JsonView> {
    match (m, r) {
        (CreateDoiView::Tagging(p), ReplyView::Value(Err(e))) => StepView::Next(
            CreateDoiView::Fetching(p, Err(ErrorView::Remote(e))),
            fetch_call(p),
        ),
        (CreateDoiView::Tagging(p), ReplyView::Value(Ok(s))) => match read_folder(s) {
            Some(f) => StepView::Next(
                CreateDoiView::Retagging(p),
                CallView::Put(p.folder, crate::folder::folder_json(tagged_folder(f, p.doi))),
            ),
            None => StepView::Next(CreateDoiView::Fetching(p, Ok(false)), fetch_call(p)),
        },
        (CreateDoiView::Retagging(p), ReplyView::Written(Ok(_))) => StepView::Next(
            CreateDoiView::Fetching(p, Ok(true)),
            fetch_call(p),
        ),
        (CreateDoiView::Retagging(p), ReplyView::Written(Err(e))) => StepView::Next(
            CreateDoiView::Fetching(p, Err(ErrorView::Remote(e))),
            fetch_call(p),
        ),
        (CreateDoiView::Fetching(p, t), ReplyView::Fetched(w)) => match outcome_of(t, work_of(w)) {
            Ok(j) => StepView::Next(CreateDoiView::Saving(j), CallView::Put(p.raw_key, j)),
            Err(e) => StepView::Finish(Err(e)),
        },
        (CreateDoiView::Saving(j), ReplyView::Written(Ok(_))) => StepView::Finish(Ok(j)),
        (CreateDoiView::Saving(_), ReplyView::Written(Err(e))) => StepView::Finish(
            Err(ErrorView::Remote(e)),
        ),
        _ => StepView::Finish(Err(ErrorView::OutOfStep)),
    }
}

fn fetch_of(p: &DoiPlan) -> (c: Call)
    ensures
        call_view(c) == fetch_call(p@),
{
    Call::Fetch(crossref_url(p.doi.as_str()))
}

/// Starts adding the DOI of a request to its folder.
pub fn doi_create(req: DoiFetchRequest) -> (s: Step<CreateDoi, Json>)
    ensures
        doi_step_view(s) == doi_begin(req@),
{
    let p = doi_plan(req);
    let k = p.folder.clone();
    Step::Next(CreateDoi::Tagging(p), Call::Get(k))
}

impl CreateDoi {
    /// The step after `reply`.
    pub fn resume(self, reply: Reply) -> (s: Step<CreateDoi, Json>)
        ensures
            doi_step_view(s) == doi_next(self@, reply_view(reply)),
    {
        match (self, reply) {
            (CreateDoi::Tagging(p), Reply::Value(Err(e))) => {
                let c = fetch_of(&p);
                Step::Next(CreateDoi::Fetching(p, Err(StoreError::Remote(e))), c)
            },
            (CreateDoi::Tagging(p), Reply::Value(Ok(s))) => {
                let parse = parse_json_text(s.as_str());
                match doi_to_folder(parsed_json(&parse), p.doi.clone()) {
                    Some(f) => {
                        let k = p.folder.clone();
                        let j = f.to_json();
                        Step::Next(CreateDoi::Retagging(p), Call::Put(k, j))
                    },
                    None => {
                        let c = fetch_of(&p);
                        Step::Next(CreateDoi::Fetching(p, Ok(false)), c)
                    },
                }
            },
            (CreateDoi::Retagging(p), Reply::Written(Ok(_))) => {
                let c = fetch_of(&p);
                Step::Next(CreateDoi::Fetching(p, Ok(true)), c)
            },
            (CreateDoi::Retagging(p), Reply::Written(Err(e))) => {
                let c = fetch_of(&p);
                Step::Next(CreateDoi::Fetching(p, Err(StoreError::Remote(e))), c)
            },
            (CreateDoi::Fetching(p, t), Reply::Fetched(w)) => {
                match doi_create_outcome(t, work_from(w)) {
                    Ok(j) => {
                        let copy = clone_json(&j);
                        Step::Next(CreateDoi::Saving(j), Call::Put(p.raw_key, copy))
                    },
                    Err(e) => Step::Finish(Err(e)),
                }
            },
            (CreateDoi::Saving(j), Reply::Written(Ok(_))) => Step::Finish(Ok(j)),
            (CreateDoi::Saving(_), Reply::Written(Err(e))) => Step::Finish(Err(StoreError::Remote(e))),
            _ => Step::Finish(Err(StoreError::OutOfStep)),
        }
    }
}

/// Adding a DOI to a folder, with a store that never fails and a crossref that
/// answers `200` with the work `j`, answers `j`, keeps `j` under the raw key,
/// lists the DOI in the folder when the folder's key holds a folder (pending
/// unless it was listed already) and leaves that key alone otherwise, and touches
/// no other key.
pub proof fn adding_a_doi_to_a_folder(
    store: Kv,
    web: Web,
    req: crate::requests::DoiFetchRequestView,
    j: JsonView,
    k: Seq<char>,
)
    requires
        web(crossref_url_text(decoded_doi(req.doi))) == Ok::<(u16, Result<JsonView, Seq<char>>), Seq<char>>(
            (200u16, Ok::<JsonView, Seq<char>>(j)),
        ),
    ensures
        ({
            let p = doi_plan_of(req);
            let run = drive(store, web, doi_begin(req), |m, r| doi_next(m, r), 4);
            let after = run.0;
            &&& run.1 == Some(Ok::<JsonView, ErrorView>(j))
            &&& kv_get(after, p.raw_key) == Some(j)
            &&& match kv_get(store, p.folder) {
                Some(v) => match folder_decoded(v) {
                    Some(f) => folder_decoded(after[p.folder]) == Some(tagged_folder(f, p.doi))
                        && lookup(tagged_folder(f, p.doi).nodes, p.doi) is Some,
                    None => kv_get(after, p.folder) == kv_get(store, p.folder),
                },
                None => kv_get(after, p.folder) == kv_get(store, p.folder),
            }
            &&& (k != p.folder && k != p.raw_key ==> kv_get(after, k) == kv_get(store, k))
        }),
{
    let p = doi_plan_of(req);
    let next = |m, r| doi_next(m, r);
    reveal_strlit("raw-");
    reveal_strlit("::");
    assert(p.raw_key.len() > p.folder.len());
    assert(p.raw_key != p.folder);
    reveal_with_fuel(drive, 5);
    let s0 = kv_read(store, p.folder);
    match read_folder(s0) {
        Some(f) => {
            let g = tagged_folder(f, p.doi);
            let s1 = store.insert(p.folder, crate::folder::folder_json(g));
            let s2 = s1.insert(p.raw_key, j);
            assert(drive(store, web, doi_begin(req), next, 4) == (s2, Some(Ok::<JsonView, ErrorView>(j))));
            crate::folder::lemma_decoded_folder_unique(kv_get(store, p.folder)->0);
            crate::folder::adding_a_doi(f.nodes, p.doi);
            crate::folder::folder_round_trip(g);
            crate::textmap::lemma_insert_unique(f.nodes, p.doi, "pending"@);
        },
        None => {
            let s2 = store.insert(p.raw_key, j);
            assert(drive(store, web, doi_begin(req), next, 4) == (s2, Some(Ok::<JsonView, ErrorView>(j))));
        },
    }
}

/// Adding a DOI to a stored folder twice gives the folder the first add gave:
/// read back from the JSON written, the tagged folder is the same, and tagging it
/// with the same DOI again changes nothing.
pub proof fn tagging_a_folder_again(v: JsonView, doi: Seq<char>)
    requires
        folder_decoded(v) is Some,
    ensures
        ({
            let g = tagged_folder(folder_decoded(v)->0, doi);
            folder_decoded(crate::folder::folder_json(g)) == Some(g) && tagged_folder(g, doi) == g
        }),
{
    let f = folder_decoded(v)->0;
    crate::folder::lemma_decoded_folder_unique(v);
    crate::folder::adding_a_doi(f.nodes, doi);
    crate::folder::folder_round_trip(tagged_folder(f, doi));
}

/// Adding the same DOI to a folder twice leaves the store as the first add left
/// it and answers the same work: with a store that never fails and a crossref
/// that answers `200` with the work `j`, the second add writes back a folder
/// that already lists the DOI, unchanged, and keeps the same work.
pub proof fn adding_a_doi_again(
    store: Kv,
    web: Web,
    req: crate::requests::DoiFetchRequestView,
    j: JsonView,
)
    requires
        web(crossref_url_text(decoded_doi(req.doi))) == Ok::<(u16, Result<JsonView, Seq<char>>), Seq<char>>(
            (200u16, Ok::<JsonView, Seq<char>>(j)),
        ),
    ensures
        ({
            let first = drive(store, web, doi_begin(req), |m, r| doi_next(m, r), 4);
            let second = drive(first.0, web, doi_begin(req), |m, r| doi_next(m, r), 4);
            second.0 == first.0 && second.1 == first.1
        }),
{
    let p = doi_plan_of(req);
    let next = |m, r| doi_next(m, r);
    reveal_strlit("raw-");
    reveal_strlit("::");
    assert(p.raw_key.len() > p.folder.len());
    assert(p.raw_key != p.folder);
    reveal_with_fuel(drive, 5);
    let s0 = kv_read(store, p.folder);
    match read_folder(s0) {
        Some(f) => {
            let g = tagged_folder(f, p.doi);
            let s1 = store.insert(p.folder, crate::folder::folder_json(g));
            let s2 = s1.insert(p.raw_key, j);
            assert(drive(store, web, doi_begin(req), next, 4) == (s2, Some(Ok::<JsonView, ErrorView>(j))));
            crate::folder::lemma_decoded_folder_unique(kv_get(store, p.folder)->0);
            crate::folder::adding_a_doi(f.nodes, p.doi);
            crate::folder::folder_round_trip(g);
            assert(tagged_folder(g, p.doi) == g);
            assert(read_folder(kv_read(s2, p.folder)) == Some(g));
            let s3 = s2.insert(p.folder, crate::folder::folder_json(g)).insert(p.raw_key, j);
            assert(drive(s2, web, doi_begin(req), next, 4) == (s3, Some(Ok::<JsonView, ErrorView>(j))));
            assert(s3 =~= s2);
        },
        None => {
            let s2 = store.insert(p.raw_key, j);
            assert(drive(store, web, doi_begin(req), next, 4) == (s2, Some(Ok::<JsonView, ErrorView>(j))));
            assert(kv_read(s2, p.folder) == s0);
            let s3 = s2.insert(p.raw_key, j);
            assert(drive(s2, web, doi_begin(req), next, 4) == (s3, Some(Ok::<JsonView, ErrorView>(j))));
            assert(s3 =~= s2);
        },
    }
}

// ---------------------------------------------------------------------------
// Refetching a DOI
// ---------------------------------------------------------------------------

/// Refetching a DOI: the work is fetched twice, the first answer unused, and the
/// second kept under the raw key and answered.
#[derive(Debug, PartialEq)]
pub enum FetchDoi {
    First(DoiPlan),
    Second(DoiPlan),
    Saving(Json),
}

pub enum FetchDoiView {
    First(DoiPlanView),
    Second(DoiPlanView),
    Saving(JsonView),
}

impl View for FetchDoi {
    type V = FetchDoiView;

    open spec fn view(&self) -> FetchDoiView {
        match self {
            FetchDoi::First(p) => FetchDoiView::First(p@),
            FetchDoi::Second(p) => FetchDoiView::Second(p@),
            FetchDoi::Saving(j) => FetchDoiView::Saving(j@),
        }
    }
}

pub open spec fn fetch_step_view(s: Step<FetchDoi, Json>) -> StepView<FetchDoiView, JsonView> {
    match s {
        Step::Next(m, c) => StepView::Next(m@, call_view(c)),
        Step::Finish(Ok(j)) => StepView::Finish(Ok(j@)),
        Step::Finish(Err(e)) => StepView::Finish(Err(error_view(e))),
    }
}

/// The first step of refetching: fetch the work.
pub open spec fn refetch_begin(req: crate::requests::DoiFetchRequestView) -> StepView<FetchDoiView, JsonView> {
    let p = doi_plan_of(req);
    StepView::Next(FetchDoiView::First(p), fetch_call(p))
}

/// The next step of refetching.
pub open spec fn refetch_next(m: FetchDoiView, r: ReplyView) -> StepView<FetchDoiView, JsonView> {
    match (m, r) {
        (FetchDoiView::First(p), ReplyView::Fetched(_)) => StepView::Next(FetchDoiView::Second(p), fetch_call(p)),
        (FetchDoiView::Second(p), ReplyView::Fetched(w)) => match work_of(w) {
            Ok(j) => StepView::Next(FetchDoiView::Saving(j), CallView::Put(p.raw_key, j)),
            Err(e) => StepView::Finish(Err(e)),
        },
        (FetchDoiView::Saving(j), ReplyView::Written(Ok(_))) => StepView::Finish(Ok(j)),
        (FetchDoiView::Saving(_), ReplyView::Written(Err(e))) => StepView::Finish(Err(ErrorView::Remote(e))),
        _ => StepView::Finish(Err(ErrorView::OutOfStep)),
    }
}

/// Starts refetching the DOI of a request.
pub fn doi_fetch(req: DoiFetchRequest) -> (s: Step<FetchDoi, Json>)
    ensures
        fetch_step_view(s) == refetch_begin(req@),
{
    let p = doi_plan(req);
    let c = fetch_of(&p);
    Step::Next(FetchDoi::First(p), c)
}

impl FetchDoi {
    /// The step after `reply`.
    pub fn resume(self, reply: Reply) -> (s: Step<FetchDoi, Json>)
        ensures
            fetch_step_view(s) == refetch_next(self@, reply_view(reply)),
    {
        match (self, reply) {
            (FetchDoi::First(p), Reply::Fetched(_)) => {
                let c = fetch_of(&p);
                Step::Next(FetchDoi::Second(p), c)
            },
            (FetchDoi::Second(p), Reply::Fetched(w)) => match work_from(w) {
                Ok(j) => {
                    let copy = clone_json(&j);
                    Step::Next(FetchDoi::Saving(j), Call::Put(p.raw_key, copy))
                },
                Err(e) => Step::Finish(Err(e)),
            },
            (FetchDoi::Saving(j), Reply::Written(Ok(_))) => Step::Finish(Ok(j)),
            (FetchDoi::Saving(_), Reply::Written(Err(e))) => Step::Finish(Err(StoreError::Remote(e))),
            _ => Step::Finish(Err(StoreError::OutOfStep)),
        }
    }
}

/// Refetching a DOI from a crossref that answers `200` with the work `j`, with a
/// store that never fails, answers `j`, keeps it under the raw key and touches no
/// other key.
pub proof fn refetching_a_doi(
    store: Kv,
    web: Web,
    req: crate::requests::DoiFetchRequestView,
    j: JsonView,
)
    requires
        web(crossref_url_text(decoded_doi(req.doi))) == Ok::<(u16, Result<JsonView, Seq<char>>), Seq<char>>(
            (200u16, Ok::<JsonView, Seq<char>>(j)),
        ),
    ensures
        drive(store, web, refetch_begin(req), |m, r| refetch_next(m, r), 3) == (
            store.insert(doi_plan_of(req).raw_key, j),
            Some(Ok::<JsonView, ErrorView>(j)),
        ),
{
    reveal_with_fuel(drive, 4);
}

} // verus!
