//! The names under which the actor keeps its records in the key-value store,
//! and the other identifiers it builds from user input.

use vstd::prelude::*;
use crate::text::{chars_of, decimal, push_decimal, push_str, replace_all, replaced, string_of};

verus! {

/// The user id handed out at setup: `dr-{name}-{ts}`.
pub open spec fn uid_text(name: Seq<char>, ts: u64) -> Seq<char> {
    "dr-"@ + name + "-"@ + decimal(ts as nat)
}

/// The key of a user's counter with prefix `pfx`: `next-{pfx}-{uid}`.
pub open spec fn counter_key_text(uid: Seq<char>, pfx: Seq<char>) -> Seq<char> {
    "next-"@ + pfx + "-"@ + uid
}

/// The label a counter value gets: the prefix followed by the value read as a `u64`.
pub open spec fn counter_label_text(pfx: Seq<char>, id: i32) -> Seq<char> {
    pfx + decimal((id as u64) as nat)
}

/// The key of a user's folder index: `folders-{uid}`.
pub open spec fn index_key_text(uid: Seq<char>) -> Seq<char> {
    "folders-"@ + uid
}

/// The key of the raw crossref record of a DOI in a folder: `raw-{folder}::{doi}`.
pub open spec fn raw_key_text(folder: Seq<char>, doi: Seq<char>) -> Seq<char> {
    "raw-"@ + folder + "::"@ + doi
}

/// The key of the extracted record of a DOI in a folder: `doi-{folder}::{doi}`.
pub open spec fn node_key_text(folder: Seq<char>, doi: Seq<char>) -> Seq<char> {
    "doi-"@ + folder + "::"@ + doi
}

/// The full path of a folder: its own path, prefixed by `{parent}_` when it has a parent.
pub open spec fn full_path_text(parent: Seq<char>, path: Seq<char>) -> Seq<char> {
    if parent.len() == 0 {
        path
    } else {
        parent + "_"@ + path
    }
}

/// A DOI as sent in a URL, with `%2F` turned back into `/`.
pub open spec fn decoded_doi(doi: Seq<char>) -> Seq<char> {
    replaced(doi, "%2F"@, "/"@)
}

/// The crossref works URL of a DOI.
pub open spec fn crossref_url_text(doi: Seq<char>) -> Seq<char> {
    "https://api.crossref.org/works/"@ + doi
}

/// The body of a fetch request published on the message bus: `doi-{uid}-{doi}`.
pub open spec fn fetch_message_text(uid: Seq<char>, doi: Seq<char>) -> Seq<char> {
    "doi-"@ + uid + "-"@ + doi
}

/// Builds a fresh user id from the name and time stamp of a setup request.
pub fn new_uid(name: &str, ts: u64) -> (r: String)
    ensures
        r@ == uid_text(name@, ts),
{
    let mut out: Vec<char> = Vec::new();
    push_str(&mut out, "dr-");
    push_str(&mut out, name);
    push_str(&mut out, "-");
    push_decimal(&mut out, ts);
    string_of(out.as_slice())
}

/// The key of the counter `pfx` of user `uid`.
pub fn counter_key(uid: &str, pfx: &str) -> (r: String)
    ensures
        r@ == counter_key_text(uid@, pfx@),
{
    let mut out: Vec<char> = Vec::new();
    push_str(&mut out, "next-");
    push_str(&mut out, pfx);
    push_str(&mut out, "-");
    push_str(&mut out, uid);
    string_of(out.as_slice())
}

/// The label of counter value `id` under prefix `pfx`.
pub fn counter_label(pfx: &str, id: i32) -> (r: String)
    ensures
        r@ == counter_label_text(pfx@, id),
{
    let mut out: Vec<char> = Vec::new();
    push_str(&mut out, pfx);
    push_decimal(&mut out, id as u64);
    string_of(out.as_slice())
}

/// The key of the folder index of user `uid`.
pub fn index_key(uid: &str) -> (r: String)
    ensures
        r@ == index_key_text(uid@),
{
    let mut out: Vec<char> = Vec::new();
    push_str(&mut out, "folders-");
    push_str(&mut out, uid);
    string_of(out.as_slice())
}

/// The key of the raw crossref record of `doi` in `folder`.
pub fn raw_key(folder: &str, doi: &str) -> (r: String)
    ensures
        r@ == raw_key_text(folder@, doi@),
{
    let mut out: Vec<char> = Vec::new();
    push_str(&mut out, "raw-");
    push_str(&mut out, folder);
    push_str(&mut out, "::");
    push_str(&mut out, doi);
    string_of(out.as_slice())
}

/// The key of the extracted record of `doi` in `folder`.
pub fn node_key(folder: &str, doi: &str) -> (r: String)
    ensures
        r@ == node_key_text(folder@, doi@),
{
    let mut out: Vec<char> = Vec::new();
    push_str(&mut out, "doi-");
    push_str(&mut out, folder);
    push_str(&mut out, "::");
    push_str(&mut out, doi);
    string_of(out.as_slice())
}

/// The full path of folder `path` under `parent`.
pub fn full_path(parent: &str, path: &str) -> (r: String)
    ensures
        r@ == full_path_text(parent@, path@),
{
    let p = chars_of(parent);
    if p.len() < 1 {
        let q = chars_of(path);
        string_of(q.as_slice())
    } else {
        let mut out: Vec<char> = p;
        push_str(&mut out, "_");
        push_str(&mut out, path);
        string_of(out.as_slice())
    }
}

/// A DOI from a URL with `%2F` decoded.
pub fn decode_doi(doi: &str) -> (r: String)
    ensures
        r@ == decoded_doi(doi@),
{
    proof {
        reveal_strlit("%2F");
    }
    replace_all(doi, "%2F", "/")
}

/// The crossref URL for `doi`.
pub fn crossref_url(doi: &str) -> (r: String)
    ensures
        r@ == crossref_url_text(doi@),
{
    let mut out: Vec<char> = Vec::new();
    push_str(&mut out, "https://api.crossref.org/works/");
    push_str(&mut out, doi);
    string_of(out.as_slice())
}

/// Whether a crossref reply with this status is a success (`200..300`).
pub fn fetch_succeeded(status: u16) -> (r: bool)
    ensures
        r == (200 <= status < 300),
{
    200 <= status && status < 300
}

/// The body of the message that asks for a DOI to be fetched for `uid`.
pub fn fetch_message(uid: &str, doi: &str) -> (r: Vec<u8>)
    ensures
        r@ == vstd::utf8::encode_utf8(fetch_message_text(uid@, doi@)),
{
    let mut out: Vec<char> = Vec::new();
    push_str(&mut out, "doi-");
    push_str(&mut out, uid);
    push_str(&mut out, "-");
    push_str(&mut out, doi);
    let s = string_of(out.as_slice());
    s.as_str().as_bytes_vec()
}

/// Records of a DOI never share a key: the raw record and the extracted record of
/// any two DOIs in any two folders are kept under different keys.
pub proof fn raw_and_node_keys_differ(f1: Seq<char>, d1: Seq<char>, f2: Seq<char>, d2: Seq<char>)
    ensures
        raw_key_text(f1, d1) != node_key_text(f2, d2),
{
    reveal_strlit("raw-");
    reveal_strlit("doi-");
    assert(raw_key_text(f1, d1)[0] == 'r');
    assert(node_key_text(f2, d2)[0] == 'd');
}

/// The folder counter and the DOI counter of a user are different keys.
pub proof fn counter_keys_differ(uid: Seq<char>)
    ensures
        counter_key_text(uid, "f"@) != counter_key_text(uid, "d"@),
{
    reveal_strlit("next-");
    reveal_strlit("f");
    reveal_strlit("d");
    assert(counter_key_text(uid, "f"@)[5] == 'f');
    assert(counter_key_text(uid, "d"@)[5] == 'd');
}

/// A folder with a parent is kept under its parent's path, an underscore, then
/// its own id; a folder without a parent under its id alone.
pub proof fn folder_paths_put_the_parent_first(parent: Seq<char>, id: Seq<char>)
    ensures
        parent.len() == 0 ==> full_path_text(parent, id) == id,
        parent.len() > 0 ==> ({
            let p = full_path_text(parent, id);
            &&& p.len() == parent.len() + 1 + id.len()
            &&& p.subrange(0, parent.len() as int) == parent
            &&& p[parent.len() as int] == '_'
            &&& p.subrange(parent.len() + 1int, p.len() as int) == id
        }),
{
    reveal_strlit("_");
    if parent.len() > 0 {
        let p = full_path_text(parent, id);
        assert(p.subrange(0, parent.len() as int) =~= parent);
        assert(p.subrange(parent.len() + 1int, p.len() as int) =~= id);
    }
}

} // verus!
