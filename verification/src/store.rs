//! The decisions of the actor's storage operations. Each operation reads and
//! writes the key-value store; the reads come in as arguments, and what is to be
//! written, and answered, comes out.

use vstd::prelude::*;
use crate::doi::{crossref_node, node_decoded, node_from_crossref, node_json, DoiNode, DoiNodeView};
use crate::folder::{
    folder_decoded, index_of_stored, listing_insert, new_folder, retitled, stored_folder,
    stored_index, with_doi, Folder, FolderView, Listing,
};
use crate::codec::{json_of_bytes, json_of_text, json_text, json_to_text, parse_json_bytes, parse_json_text, parse_view};
use crate::json::{get_member, get_text, member, opt_view, text_of, Json, JsonView};
use crate::keys::{
    counter_key, counter_key_text, decode_doi, decoded_doi, index_key, index_key_text, new_uid,
    node_key, node_key_text, raw_key, raw_key_text, uid_text,
};
use crate::requests::{DoiFetchRequest, FolderUpdateRequest, SetupRequest};
use crate::text::{decimal, push_decimal, push_str, string_of};
use crate::textmap::{find_key_by_value, has_value, lookup, pairs_insert, Pairs, TextMap};

verus! {

/// Why an operation failed.
#[derive(Debug, PartialEq)]
pub enum StoreError {
    /// A call to the key-value store or to crossref failed, with this message.
    Remote(String),
    /// A stored or received value is not the JSON it should be: the parser's
    /// message when it is not JSON at all, else one that names the record expected.
    Malformed(String),
    /// A crossref record without a DOI.
    InvalidInput,
    /// Crossref answered with a status outside `200..300`.
    Status(u16),
    /// A reply that does not answer the call that was made.
    OutOfStep,
    /// A folder read for anyone that is not public.
    NotPublic,
}

/// The text that tells a failure: the message that came with it, the status
/// alone, or the library's words for a failure of its own.
pub open spec fn error_text(e: StoreError) -> Seq<char> {
    match e {
        StoreError::Remote(m) => m@,
        StoreError::Malformed(m) => m@,
        StoreError::InvalidInput => "invalid input"@,
        StoreError::Status(n) => decimal(n as nat),
        StoreError::OutOfStep => "reply out of step"@,
        StoreError::NotPublic => "folder is not public"@,
    }
}

impl StoreError {
    /// The text that tells this failure.
    pub fn describe(&self) -> (r: String)
        ensures
            r@ == error_text(*self),
    {
        let mut out: Vec<char> = Vec::new();
        match self {
            StoreError::Remote(m) => push_str(&mut out, m.as_str()),
            StoreError::Malformed(m) => push_str(&mut out, m.as_str()),
            StoreError::InvalidInput => push_str(&mut out, "invalid input"),
            StoreError::Status(n) => push_decimal(&mut out, *n as u64),
            StoreError::OutOfStep => push_str(&mut out, "reply out of step"),
            StoreError::NotPublic => push_str(&mut out, "folder is not public"),
        }
        string_of(out.as_slice())
    }
}

/// The JSON of a parse, if it succeeded.
pub open spec fn parsed(p: Result<JsonView, Seq<char>>) -> Option<JsonView> {
    match p {
        Ok(j) => Some(j),
        Err(_) => None,
    }
}

/// The JSON of a parse, if it succeeded.
pub fn parsed_json(p: &Result<Json, String>) -> (r: Option<&Json>)
    ensures
        opt_view(r) == parsed(parse_view(*p)),
{
    match p {
        Ok(j) => Some(j),
        Err(_) => None,
    }
}

/// What is said of a value that is not the record expected: the parser's
/// message when it is not JSON, else `what`.
pub open spec fn fault_text(p: Result<JsonView, Seq<char>>, what: Seq<char>) -> Seq<char> {
    match p {
        Err(m) => m,
        Ok(_) => what,
    }
}

/// The failure of a value that is not the record expected.
pub fn malformed(p: &Result<Json, String>, what: &str) -> (e: StoreError)
    ensures
        e matches StoreError::Malformed(m) && m@ == fault_text(parse_view(*p), what@),
{
    match p {
        Err(m) => StoreError::Malformed(m.clone()),
        Ok(_) => StoreError::Malformed(string_of(crate::text::chars_of(what).as_slice())),
    }
}

/// What is said of a value that is not a folder but is JSON.
pub open spec fn not_a_folder() -> Seq<char> {
    "invalid folder record"@
}

/// What is said of a value that is not a DOI record but is JSON.
pub open spec fn not_a_node() -> Seq<char> {
    "invalid DOI record"@
}

/// The folder stored under a key, if the stored value decodes as one.
pub open spec fn stored_folder_view(stored: Option<&Json>) -> Option<FolderView> {
    match opt_view(stored) {
        Some(v) => folder_decoded(v),
        None => None,
    }
}

/// The folder a parse holds, if it is JSON that decodes as one.
pub open spec fn parsed_folder(p: Result<JsonView, Seq<char>>) -> Option<FolderView> {
    match parsed(p) {
        Some(v) => folder_decoded(v),
        None => None,
    }
}

/// The DOI record a parse holds, if it is JSON that decodes as one.
pub open spec fn node_of_parse(p: Result<JsonView, Seq<char>>) -> Option<DoiNodeView> {
    match parsed(p) {
        Some(v) => node_decoded(v),
        None => None,
    }
}

/// The failure of a value read for a folder that holds none.
pub open spec fn folder_fault(e: StoreError, p: Result<JsonView, Seq<char>>) -> bool {
    e matches StoreError::Malformed(m) && m@ == fault_text(p, not_a_folder())
}

/// A new user id for a setup request.
pub fn setup(req: SetupRequest) -> (uid: String)
    ensures
        uid@ == uid_text(req.name@, req.ts),
{
    new_uid(req.name.as_str(), req.ts)
}

/// The folder that a create request makes for `uid`: stored under its full path.
pub fn folder_for_request(uid: String, req: FolderUpdateRequest) -> (f: Folder)
    ensures
        f@ == (FolderView {
            path: crate::keys::full_path_text(req.parent@, req.id@),
            owner: uid@,
            title: req.title@,
            nodes: Seq::empty(),
            public: req.public,
        }),
{
    new_folder(uid, req.id.as_str(), req.parent.as_str(), req.title, req.public)
}

/// The folders index to store after creating the folder at `path`: the stored
/// index (none when it is missing or does not decode) with `path` mapped to itself.
pub fn index_after_create(stored: Option<&Json>, path: &String) -> (m: TextMap)
    ensures
        m@ == pairs_insert(index_of_stored(opt_view(stored)), path@, path@),
{
    let mut m = stored_index(stored);
    m.insert(path.clone(), path.clone());
    m
}

/// The folder to store for an update request, made from the text stored at the
/// request's path: retitled and made public or private. The request's parent is
/// not used.
pub fn folders_update(stored: &str, req: FolderUpdateRequest) -> (r: Result<
    Folder,
    StoreError,
>)
    ensures
        match (r, parsed_folder(json_of_text(stored@))) {
            (Ok(f), Some(g)) => f@ == (FolderView { title: req.title@, public: req.public, ..g }),
            (Err(e), None) => folder_fault(e, json_of_text(stored@)),
            _ => false,
        },
{
    let p = parse_json_text(stored);
    match stored_folder(parsed_json(&p)) {
        Some(f) => Ok(retitled(f, req.title, req.public)),
        None => Err(malformed(&p, "invalid folder record")),
    }
}

/// The folder whose text is stored under a key, read for anyone: given only
/// when the folder is public.
pub fn folders_read_public(stored: &str) -> (r: Result<Folder, StoreError>)
    ensures
        match (r, parsed_folder(json_of_text(stored@))) {
            (Ok(f), Some(g)) => g.public && f@ == g,
            (Err(e), Some(g)) => !g.public && e is NotPublic,
            (Err(e), None) => folder_fault(e, json_of_text(stored@)),
            _ => false,
        },
{
    let p = parse_json_text(stored);
    match stored_folder(parsed_json(&p)) {
        Some(f) => if f.public {
            Ok(f)
        } else {
            Err(StoreError::NotPublic)
        },
        None => Err(malformed(&p, "invalid folder record")),
    }
}

/// One step of listing a user's folders: the folder whose text is read from one
/// index entry joins the listing, under its own path, when `uid` owns it. A value
/// that is not a folder fails the listing.
pub fn add_if_owned(listing: &mut Listing, uid: &str, stored: &str) -> (r: Result<
    (),
    StoreError,
>)
    ensures
        match parsed_folder(json_of_text(stored@)) {
            Some(f) => r is Ok && final(listing)@ == if f.owner == uid@ {
                listing_insert(old(listing)@, f)
            } else {
                old(listing)@
            },
            None => (r matches Err(e) && folder_fault(e, json_of_text(stored@))) && final(listing)@
                == old(listing)@,
        },
{
    let p = parse_json_text(stored);
    match stored_folder(parsed_json(&p)) {
        Some(f) => {
            if crate::text::same_text(f.owner.as_str(), uid) {
                listing.insert(f);
            }
            Ok(())
        },
        None => Err(malformed(&p, "invalid folder record")),
    }
}

/// Whether a delete request removes the folder at `path`: exactly when the
/// user's folder index has an entry for it.
pub fn folders_delete(stored_index_value: Option<&Json>, path: &str) -> (del: bool)
    ensures
        del == has_value(index_of_stored(opt_view(stored_index_value)), path@),
{
    let m = stored_index(stored_index_value);
    let ghost mv = m@;
    let p = string_of(crate::text::chars_of(path).as_slice());
    match find_key_by_value(m, p) {
        Some(k) => {
            proof {
                crate::textmap::lemma_key_pos(mv, k@);
                let i = crate::textmap::key_pos(mv, k@);
                assert(mv[i].1 == path@);
            }
            true
        },
        None => false,
    }
}

/// The folder to store when `doi` is added to the folder read at its path: the
/// DOI is listed as pending unless already listed; nothing when the stored value
/// is not a folder.
pub fn doi_to_folder(stored: Option<&Json>, doi: String) -> (r: Option<Folder>)
    ensures
        match (r, stored_folder_view(stored)) {
            (Some(f), Some(g)) => f@ == (FolderView {
                nodes: if lookup(g.nodes, doi@) is Some {
                    g.nodes
                } else {
                    pairs_insert(g.nodes, doi@, "pending"@)
                },
                ..g
            }),
            (None, None) => true,
            _ => false,
        },
{
    match stored_folder(stored) {
        Some(f) => Some(with_doi(f, doi)),
        None => None,
    }
}

/// Where a DOI of a request is kept: the folder, the DOI with `%2F` decoded, and
/// the key of its raw crossref record.
#[derive(Debug, PartialEq)]
pub struct DoiPlan {
    pub folder: String,
    pub doi: String,
    pub raw_key: String,
}

pub struct DoiPlanView {
    pub folder: Seq<char>,
    pub doi: Seq<char>,
    pub raw_key: Seq<char>,
}

impl View for DoiPlan {
    type V = DoiPlanView;

    open spec fn view(&self) -> DoiPlanView {
        DoiPlanView { folder: self.folder@, doi: self.doi@, raw_key: self.raw_key@ }
    }
}

/// Where the DOI of a request is kept.
pub open spec fn doi_plan_of(req: crate::requests::DoiFetchRequestView) -> DoiPlanView {
    DoiPlanView {
        folder: req.folder,
        doi: decoded_doi(req.doi),
        raw_key: raw_key_text(req.folder, decoded_doi(req.doi)),
    }
}

/// Where the DOI of a create or fetch request is kept: the DOI with `%2F`
/// decoded, and the raw key of its crossref work in the request's folder.
pub fn doi_plan(req: DoiFetchRequest) -> (p: DoiPlan)
    ensures
        p@ == doi_plan_of(req@),
{
    let doi = decode_doi(req.doi.as_str());
    let key = raw_key(req.folder.as_str(), doi.as_str());
    DoiPlan { folder: req.folder, doi: doi, raw_key: key }
}

/// The answer of a create request once the folder update and the fetch are both
/// done: the fetched record when both succeeded, else the folder update's error,
/// else the fetch's.
pub fn doi_create_outcome(tagged: Result<bool, StoreError>, fetched: Result<Json, StoreError>) -> (r:
    Result<Json, StoreError>)
    ensures
        match (tagged, fetched) {
            (Ok(_), Ok(j)) => r == Ok::<Json, StoreError>(j),
            (Err(e), _) => r == Err::<Json, StoreError>(e),
            (Ok(_), Err(e)) => r == Err::<Json, StoreError>(e),
        },
{
    match (tagged, fetched) {
        (Ok(_), Ok(j)) => Ok(j),
        (Err(e), _) => Err(e),
        (_, Err(e)) => Err(e),
    }
}

/// A DOI record found for reading.
#[derive(Debug, PartialEq)]
pub enum Found {
    /// Made from the raw crossref record; its JSON `text` is to be stored under
    /// `key` before it is given.
    Fresh { key: String, node: DoiNode, text: String },
    /// As stored.
    Cached(DoiNode),
}

/// The record of `doi` (with `%2F` decoded) in `folder`, given the texts read
/// of its raw crossref record and of its stored record: the stored record when it
/// was read, else one made from the raw record.
pub fn doi_read_public(
    folder: String,
    doi: &str,
    raw: Result<String, String>,
    cached: Result<String, String>,
) -> (r: Result<Found, StoreError>)
    ensures
        match cached {
            Ok(v) => match (r, node_of_parse(json_of_text(v@))) {
                (Ok(Found::Cached(n)), Some(m)) => n@ == m,
                (Err(StoreError::Malformed(t)), None) => t@ == fault_text(json_of_text(v@), not_a_node()),
                _ => false,
            },
            Err(_) => match raw {
                Ok(w) => match json_of_text(w@) {
                    Ok(j) => match r {
                        Ok(Found::Fresh { key, node, text }) => key@ == node_key_text(
                            folder@,
                            decoded_doi(doi@),
                        ) && node@ == crossref_node(folder@, decoded_doi(doi@), j) && text@
                            == json_text(node_json(node@)),
                        _ => false,
                    },
                    Err(m) => r matches Err(StoreError::Malformed(t)) && t@ == m,
                },
                Err(m) => r matches Err(StoreError::Remote(e)) && e@ == m@,
            },
        },
{
    let doi = decode_doi(doi);
    match cached {
        Ok(v) => {
            let p = parse_json_text(v.as_str());
            let n = match parsed_json(&p) {
                Some(j) => DoiNode::from_json(j),
                None => None,
            };
            match n {
                Some(n) => Ok(Found::Cached(n)),
                None => Err(malformed(&p, "invalid DOI record")),
            }
        },
        Err(_) => match raw {
            Ok(w) => match parse_json_text(w.as_str()) {
                Ok(j) => {
                    let key = node_key(folder.as_str(), doi.as_str());
                    let node = node_from_crossref(folder, doi, &j);
                    let text = json_to_text(&node.to_json());
                    Ok(Found::Fresh { key, node, text })
                },
                Err(m) => Err(StoreError::Malformed(m)),
            },
            Err(m) => Err(StoreError::Remote(m)),
        },
    }
}

/// The keys that printing the record of `doi` in `folder` reads: its raw
/// crossref record, then its stored record.
pub fn print_keys(folder: &str, doi: &str) -> (k: (String, String))
    ensures
        k.0@ == raw_key_text(folder@, doi@),
        k.1@ == node_key_text(folder@, doi@),
{
    (raw_key(folder, doi), node_key(folder, doi))
}

/// The keys that reading the record of `doi` in `folder` for anyone reads: its
/// raw crossref record, then its stored record, with `%2F` in the DOI decoded.
pub fn read_keys(folder: &str, doi: &str) -> (k: (String, String))
    ensures
        k.0@ == raw_key_text(folder@, decoded_doi(doi@)),
        k.1@ == node_key_text(folder@, decoded_doi(doi@)),
{
    let d = decode_doi(doi);
    (raw_key(folder, d.as_str()), node_key(folder, d.as_str()))
}

/// A DOI record found for printing.
#[derive(Debug, PartialEq)]
pub enum Printed {
    /// Made from the raw crossref record; its JSON `text` is to be stored under
    /// `key`, then given.
    Fresh { key: String, node: DoiNode, text: String },
    /// The stored text, marked as coming from the cache.
    Cached(String),
}

/// The text of the record of `doi` in `folder`, given the texts read of its raw
/// crossref record and of its stored record: made afresh from the raw record when
/// that was read, else the stored text followed by ` - from cache data`.
pub fn doi_print_text(
    folder: String,
    doi: String,
    raw: Result<String, String>,
    cached: Result<String, String>,
) -> (r: Result<Printed, StoreError>)
    ensures
        match raw {
            Ok(w) => match json_of_text(w@) {
                Ok(j) => match r {
                    Ok(Printed::Fresh { key, node, text }) => key@ == node_key_text(folder@, doi@)
                        && node@ == crossref_node(folder@, doi@, j) && text@ == json_text(node_json(node@)),
                    _ => false,
                },
                Err(m) => r matches Err(StoreError::Malformed(t)) && t@ == m,
            },
            Err(m) => match cached {
                Ok(v) => r matches Ok(Printed::Cached(t)) && t@ == v@ + " - from cache data"@,
                Err(_) => r matches Err(StoreError::Remote(e)) && e@ == m@,
            },
        },
{
    match raw {
        Ok(w) => match parse_json_text(w.as_str()) {
            Ok(j) => {
                let key = node_key(folder.as_str(), doi.as_str());
                let node = node_from_crossref(folder, doi, &j);
                let text = json_to_text(&node.to_json());
                Ok(Printed::Fresh { key, node, text })
            },
            Err(m) => Err(StoreError::Malformed(m)),
        },
        Err(m) => match cached {
            Ok(v) => {
                let mut out = crate::text::chars_of(v.as_str());
                push_str(&mut out, " - from cache data");
                Ok(Printed::Cached(string_of(out.as_slice())))
            },
            Err(_) => Err(StoreError::Remote(m)),
        },
    }
}

/// What injecting a crossref record into a folder stores: the record's text
/// under its raw key, and the DOI record made from it, as text, under its record
/// key.
#[derive(Debug, PartialEq)]
pub struct Injection {
    pub raw_key: String,
    pub raw: Json,
    pub raw_text: String,
    pub node_key: String,
    pub node: DoiNode,
    pub node_text: String,
}

/// The DOI a crossref record names: `message.DOI`.
pub open spec fn record_doi(resp: JsonView) -> Option<Seq<char>> {
    text_of(member(member(Some(resp), "message"@), "DOI"@))
}

/// Injects the crossref record in the request body `data` into `folder`. A
/// body that is not JSON is malformed, with the parser's message; a record that
/// names no DOI is invalid.
pub fn doi_inject_2(folder: String, data: &[u8]) -> (r: Result<Injection, StoreError>)
    ensures
        match json_of_bytes(data@) {
            Err(m) => r matches Err(StoreError::Malformed(t)) && t@ == m,
            Ok(resp) => match record_doi(resp) {
                None => r matches Err(StoreError::InvalidInput),
                Some(doi) => match r {
                    Ok(inj) => inj.raw_key@ == raw_key_text(folder@, doi) && inj.raw@ == resp
                        && inj.raw_text@ == json_text(resp) && inj.node_key@ == node_key_text(
                        folder@,
                        doi,
                    ) && inj.node@ == crossref_node(folder@, doi, resp) && inj.node_text@
                        == json_text(node_json(inj.node@)),
                    Err(_) => false,
                },
            },
        },
{
    match parse_json_bytes(data) {
        Err(m) => Err(StoreError::Malformed(m)),
        Ok(resp) => {
            let doi = get_text(get_member(get_member(Some(&resp), "message"), "DOI"));
            match doi {
                None => Err(StoreError::InvalidInput),
                Some(doi) => {
                    let rk = raw_key(folder.as_str(), doi.as_str());
                    let nk = node_key(folder.as_str(), doi.as_str());
                    let node = node_from_crossref(folder, doi, &resp);
                    let raw_text = json_to_text(&resp);
                    let node_text = json_to_text(&node.to_json());
                    Ok(Injection { raw_key: rk, raw: resp, raw_text, node_key: nk, node, node_text })
                },
            }
        },
    }
}

/// A DOI record injected into a folder reads back unchanged: for a crossref
/// record that names a DOI holding no `%2F`, reading that DOI for anyone looks
/// up the key the record was written under, and the JSON written there, given
/// back, decodes to the record injected.
pub proof fn injected_records_read_back(folder: Seq<char>, resp: JsonView)
    requires
        record_doi(resp) matches Some(d) && decoded_doi(d) == d,
    ensures
        ({
            let d = record_doi(resp)->0;
            let n = crossref_node(folder, d, resp);
            &&& node_key_text(folder, decoded_doi(d)) == node_key_text(folder, d)
            &&& node_of_parse(Ok(node_json(n))) == Some(n)
        }),
{
    let d = record_doi(resp)->0;
    crate::doi::node_round_trip(crossref_node(folder, d, resp));
}

/// The key of a user's folder counter.
pub fn folder_counter(uid: &str) -> (k: String)
    ensures
        k@ == counter_key_text(uid@, "f"@),
{
    counter_key(uid, "f")
}

/// The key of a user's DOI counter.
pub fn doi_counter(uid: &str) -> (k: String)
    ensures
        k@ == counter_key_text(uid@, "d"@),
{
    counter_key(uid, "d")
}

/// The key of the counter that the counter page advances: the DOI counter.
pub fn print_counter(uid: &str) -> (k: String)
    ensures
        k@ == counter_key_text(uid@, "d"@),
{
    counter_key(uid, "d")
}

/// The key whose members the index page lists: the user's folder index.
pub fn print_index(uid: &str) -> (k: String)
    ensures
        k@ == index_key_text(uid@),
{
    index_key(uid)
}

/// Creating a folder indexes it: whatever the stored index held, the index
/// written afterwards maps the new folder's path to itself, keeps every other
/// entry, and holds no path twice; so a delete of that path finds it.
pub proof fn created_folder_is_indexed(stored: Option<JsonView>, path: Seq<char>)
    ensures
        lookup(pairs_insert(index_of_stored(stored), path, path), path) == Some(path),
        forall|other: Seq<char>|
            other != path ==> lookup(pairs_insert(index_of_stored(stored), path, path), other)
                == #[trigger] lookup(index_of_stored(stored), other),
        crate::textmap::unique_keys(pairs_insert(index_of_stored(stored), path, path)),
        has_value(pairs_insert(index_of_stored(stored), path, path), path),
{
    crate::folder::lemma_stored_index_unique(stored);
    crate::textmap::lemma_insert_unique(index_of_stored(stored), path, path);
    let t = pairs_insert(index_of_stored(stored), path, path);
    crate::textmap::lemma_key_pos(t, path);
    assert(t[crate::textmap::key_pos(t, path)].1 == path);
}

} // verus!
