//! Folders: the collections of DOIs a user keeps, how they are stored, and the
//! index of a user's folders.

use vstd::prelude::*;
use crate::json::{
    entries_view, entry_lookup, lemma_entries_view, lemma_entry_lookup_at, Json, JsonView,
};
use crate::keys::{full_path, full_path_text};
use crate::shape::{
    fits, fits_record, flag_field_or_false, member_of, read_flag_or_false, read_text, slot,
    slot_of, text_field,
};
use crate::text::same_text;
use crate::textmap::{
    lemma_key_pos, lookup, members_decoded, pairs_decoded, pairs_insert, pairs_json, unique_keys,
    Pairs, TextMap,
};

verus! {

/// A folder: where it is, who owns it, its title, its DOIs (each mapped to the
/// state of its record) and whether anyone may read it.
#[derive(Debug, PartialEq)]
pub struct Folder {
    pub path: String,
    pub owner: String,
    pub title: String,
    pub nodes: TextMap,
    pub public: bool,
}

pub struct FolderView {
    pub path: Seq<char>,
    pub owner: Seq<char>,
    pub title: Seq<char>,
    pub nodes: Pairs,
    pub public: bool,
}

impl View for Folder {
    type V = FolderView;

    open spec fn view(&self) -> FolderView {
        FolderView {
            path: self.path@,
            owner: self.owner@,
            title: self.title@,
            nodes: self.nodes@,
            public: self.public,
        }
    }
}

pub open spec fn opt_folder_view(r: Option<Folder>) -> Option<FolderView> {
    match r {
        Some(f) => Some(f@),
        None => None,
    }
}

/// The stored form of a folder.
pub open spec fn folder_json(f: FolderView) -> JsonView {
    JsonView::Object(
        seq![
            ("path"@, JsonView::Str(f.path)),
            ("owner"@, JsonView::Str(f.owner)),
            ("title"@, JsonView::Str(f.title)),
            ("nodes"@, pairs_json(f.nodes)),
            ("public"@, JsonView::Bool(f.public)),
        ],
    )
}

/// A map field that defaults to the empty map when absent.
pub open spec fn pairs_field_or_empty(v: JsonView, idx: int, name: Seq<char>) -> Option<Pairs> {
    match slot(v, idx, name) {
        None => Some(Seq::empty()),
        Some(x) => pairs_decoded(x),
    }
}

/// The folder a stored value decodes to: `path`, `owner` and `title` are required
/// strings; `nodes` defaults to no DOIs and `public` to `false`.
pub open spec fn folder_decoded(v: JsonView) -> Option<FolderView> {
    if fits_record(v, 5) && text_field(v, 0, "path"@) is Some && text_field(v, 1, "owner"@) is Some
        && text_field(v, 2, "title"@) is Some && pairs_field_or_empty(v, 3, "nodes"@) is Some
        && flag_field_or_false(v, 4, "public"@) is Some {
        Some(
            FolderView {
                path: text_field(v, 0, "path"@)->0,
                owner: text_field(v, 1, "owner"@)->0,
                title: text_field(v, 2, "title"@)->0,
                nodes: pairs_field_or_empty(v, 3, "nodes"@)->0,
                public: flag_field_or_false(v, 4, "public"@)->0,
            },
        )
    } else {
        None
    }
}

/// The folders index a stored value gives: the map it decodes to, or no folders
/// when it is missing or does not decode.
pub open spec fn index_of_stored(stored: Option<JsonView>) -> Pairs {
    match stored {
        Some(v) => match pairs_decoded(v) {
            Some(p) => p,
            None => Seq::empty(),
        },
        None => Seq::empty(),
    }
}

impl Folder {
    /// The stored form of this folder.
    pub fn to_json(&self) -> (j: Json)
        ensures
            j@ == folder_json(self@),
    {
        let mut out: Vec<(String, Json)> = Vec::new();
        out.push(member_of("path", Json::Str(self.path.clone())));
        out.push(member_of("owner", Json::Str(self.owner.clone())));
        out.push(member_of("title", Json::Str(self.title.clone())));
        out.push(member_of("nodes", self.nodes.to_json()));
        out.push(member_of("public", Json::Bool(self.public)));
        proof {
            lemma_entries_view(out@);
        }
        assert(entries_view(out@) =~= folder_json(self@)->Object_0);
        Json::Object(out)
    }

    /// Decodes a stored folder.
    pub fn from_json(v: &Json) -> (r: Option<Folder>)
        ensures
            opt_folder_view(r) == folder_decoded(v@),
    {
        if !fits(v, 5) {
            return None;
        }
        let path = match read_text(v, 0, "path") {
            Some(x) => x,
            None => return None,
        };
        let owner = match read_text(v, 1, "owner") {
            Some(x) => x,
            None => return None,
        };
        let title = match read_text(v, 2, "title") {
            Some(x) => x,
            None => return None,
        };
        let nodes = match slot_of(v, 3, "nodes") {
            None => TextMap::new(),
            Some(x) => match TextMap::from_json(x) {
                Some(m) => m,
                None => return None,
            },
        };
        let public = match read_flag_or_false(v, 4, "public") {
            Some(x) => x,
            None => return None,
        };
        Some(Folder { path, owner, title, nodes, public })
    }
}

/// A new folder `path` under `parent`, owned by `uid`, with no DOIs.
pub fn new_folder(uid: String, path: &str, parent: &str, title: String, public: bool) -> (f: Folder)
    ensures
        f@ == (FolderView {
            path: full_path_text(parent@, path@),
            owner: uid@,
            title: title@,
            nodes: Seq::empty(),
            public: public,
        }),
{
    Folder { path: full_path(parent, path), owner: uid, title: title, nodes: TextMap::new(), public }
}

/// The folder decoded from a stored value, if it decodes.
pub fn stored_folder(stored: Option<&Json>) -> (r: Option<Folder>)
    ensures
        opt_folder_view(r) == match crate::json::opt_view(stored) {
            Some(v) => folder_decoded(v),
            None => None,
        },
{
    match stored {
        Some(v) => Folder::from_json(v),
        None => None,
    }
}

/// The folders index held by a stored value.
pub fn stored_index(stored: Option<&Json>) -> (m: TextMap)
    ensures
        m@ == index_of_stored(crate::json::opt_view(stored)),
{
    match stored {
        Some(v) => match TextMap::from_json(v) {
            Some(m) => m,
            None => TextMap::new(),
        },
        None => TextMap::new(),
    }
}

/// A folder retitled and made public or private; its path, owner and DOIs stay.
pub fn retitled(f: Folder, title: String, public: bool) -> (g: Folder)
    ensures
        g@ == (FolderView { title: title@, public: public, ..f@ }),
{
    Folder { title: title, public: public, ..f }
}

/// A folder with `doi` added as pending, unless the folder already lists it.
pub fn with_doi(f: Folder, doi: String) -> (g: Folder)
    ensures
        g@ == (FolderView {
            nodes: if lookup(f@.nodes, doi@) is Some {
                f@.nodes
            } else {
                pairs_insert(f@.nodes, doi@, "pending"@)
            },
            ..f@
        }),
{
    let mut f = f;
    let pending = String::from_str("pending");
    f.nodes.insert_if_absent(doi, pending);
    f
}

/// Folders keyed by their path, no path twice.
#[derive(Debug, PartialEq)]
pub struct Listing {
    folders: Vec<Folder>,
}

/// No path occurs twice.
pub open spec fn unique_paths(s: Seq<FolderView>) -> bool {
    forall|i: int, j: int| 0 <= i < j < s.len() ==> #[trigger] s[i].path != #[trigger] s[j].path
}

/// The position of the folder at `path`, or -1.
pub open spec fn path_pos(s: Seq<FolderView>, path: Seq<char>) -> int
    decreases s.len(),
{
    if s.len() == 0 {
        -1
    } else if s.last().path == path {
        s.len() - 1
    } else {
        path_pos(s.drop_last(), path)
    }
}

/// `s` with folder `f` put at its path: in place of a folder at the same path, or last.
pub open spec fn listing_insert(s: Seq<FolderView>, f: FolderView) -> Seq<FolderView> {
    if path_pos(s, f.path) >= 0 {
        s.update(path_pos(s, f.path), f)
    } else {
        s.push(f)
    }
}

proof fn lemma_path_pos(s: Seq<FolderView>, p: Seq<char>)
    ensures
        -1 <= path_pos(s, p) < s.len(),
        path_pos(s, p) >= 0 ==> s[path_pos(s, p)].path == p,
        path_pos(s, p) < 0 ==> forall|i: int| 0 <= i < s.len() ==> #[trigger] s[i].path != p,
    decreases s.len(),
{
    if s.len() > 0 {
        lemma_path_pos(s.drop_last(), p);
        if s.last().path != p {
            assert forall|i: int| 0 <= i < s.len() && path_pos(s, p) < 0 implies #[trigger] s[i].path
                != p by {
                if i < s.len() - 1 {
                    assert(s.drop_last()[i] == s[i]);
                }
            }
        }
    }
}

/// The position of a path in a listing is in range and holds that path.
pub proof fn lemma_path_pos_pub(s: Seq<FolderView>, p: Seq<char>)
    ensures
        -1 <= path_pos(s, p) < s.len(),
        path_pos(s, p) >= 0 ==> s[path_pos(s, p)].path == p,
        path_pos(s, p) < 0 ==> forall|i: int| 0 <= i < s.len() ==> #[trigger] s[i].path != p,
{
    lemma_path_pos(s, p);
}

impl View for Listing {
    type V = Seq<FolderView>;

    closed spec fn view(&self) -> Seq<FolderView> {
        self.folders@.map_values(|f: Folder| f@)
    }
}

impl Listing {
    #[verifier::type_invariant]
    spec fn inv(self) -> bool {
        unique_paths(self@)
    }

    /// No folders.
    pub fn new() -> (l: Listing)
        ensures
            l@ == Seq::<FolderView>::empty(),
    {
        let l = Listing { folders: Vec::new() };
        assert(l@ =~= Seq::<FolderView>::empty());
        l
    }

    /// The number of folders.
    pub fn len(&self) -> (n: usize)
        ensures
            n == self@.len(),
    {
        self.folders.len()
    }

    /// The `i`-th folder.
    pub fn folder(&self, i: usize) -> (f: &Folder)
        requires
            i < self@.len(),
        ensures
            f@ == self@[i as int],
    {
        &self.folders[i]
    }

    /// The position of the folder at `path`, or none.
    fn position(&self, path: &str) -> (r: Option<usize>)
        ensures
            match r {
                Some(i) => path_pos(self@, path@) == i && i < self@.len() && self@.len()
                    == self.folders@.len(),
                None => path_pos(self@, path@) < 0,
            },
    {
        proof {
            use_type_invariant(self);
            lemma_path_pos(self@, path@);
        }
        let mut i: usize = 0;
        while i < self.folders.len()
            invariant
                0 <= i <= self.folders.len(),
                self@.len() == self.folders.len(),
                unique_paths(self@),
                forall|j: int| 0 <= j < i ==> #[trigger] self@[j].path != path@,
                -1 <= path_pos(self@, path@) < self@.len(),
                path_pos(self@, path@) >= 0 ==> self@[path_pos(self@, path@)].path == path@,
                path_pos(self@, path@) < 0 ==> forall|j: int|
                    0 <= j < self@.len() ==> #[trigger] self@[j].path != path@,
            decreases self.folders.len() - i,
        {
            assert(self@[i as int] == self.folders@[i as int]@);
            if same_text(self.folders[i].path.as_str(), path) {
                proof {
                    let p = path_pos(self@, path@);
                    assert(self@[i as int].path == path@);
                    if p != i {
                        assert(p >= 0);
                        assert(self@[p].path == self@[i as int].path);
                    }
                }
                return Some(i);
            }
            i = i + 1;
        }
        None
    }

    /// Puts `f` under its path (`HashMap::insert` keyed by the path).
    pub fn insert(&mut self, f: Folder)
        ensures
            final(self)@ == listing_insert(old(self)@, f@),
    {
        proof {
            use_type_invariant(&*self);
            lemma_path_pos(self@, f@.path);
        }
        let ghost old_view = self@;
        let ghost fv = f@;
        let pos = self.position(f.path.as_str());
        let mut folders: Vec<Folder> = Vec::new();
        std::mem::swap(&mut folders, &mut self.folders);
        match pos {
            Some(i) => {
                folders.set(i, f);
                assert(folders@.map_values(|f: Folder| f@) =~= old_view.update(i as int, fv));
                assert(unique_paths(old_view.update(i as int, fv))) by {
                    let t = old_view.update(i as int, fv);
                    assert forall|a: int, b: int| 0 <= a < b < t.len() implies #[trigger] t[a].path
                        != #[trigger] t[b].path by {
                        if a != i && b != i {
                            assert(t[a] == old_view[a]);
                            assert(t[b] == old_view[b]);
                        } else if a == i {
                            assert(t[b] == old_view[b]);
                        } else {
                            assert(t[a] == old_view[a]);
                        }
                    }
                }
            },
            None => {
                folders.push(f);
                assert(folders@.map_values(|f: Folder| f@) =~= old_view.push(fv));
                assert(unique_paths(old_view.push(fv))) by {
                    let t = old_view.push(fv);
                    assert forall|a: int, b: int| 0 <= a < b < t.len() implies #[trigger] t[a].path
                        != #[trigger] t[b].path by {
                        if b == old_view.len() {
                            assert(t[a] == old_view[a]);
                        } else {
                            assert(t[a] == old_view[a]);
                            assert(t[b] == old_view[b]);
                        }
                    }
                }
            },
        }
        self.folders = folders;
    }

    /// The listing as a JSON object from path to stored folder.
    pub fn to_json(&self) -> (j: Json)
        ensures
            j@ == JsonView::Object(
                self@.map_values(|f: FolderView| (f.path, folder_json(f))),
            ),
    {
        let mut out: Vec<(String, Json)> = Vec::new();
        let mut i: usize = 0;
        while i < self.len()
            invariant
                0 <= i <= self@.len(),
                entries_view(out@) == self@.take(i as int).map_values(
                    |f: FolderView| (f.path, folder_json(f)),
                ),
            decreases self@.len() - i,
        {
            let f = self.folder(i);
            let ghost before = out@;
            let e = (f.path.clone(), f.to_json());
            let ghost ge = e;
            out.push(e);
            proof {
                crate::json::lemma_entries_view_push(before, ge);
            }
            i = i + 1;
            assert(entries_view(out@) =~= self@.take(i as int).map_values(
                |f: FolderView| (f.path, folder_json(f)),
            ));
        }
        assert(self@.take(i as int) =~= self@);
        Json::Object(out)
    }
}

/// An object of strings with no name twice decodes to the map it was written from.
pub proof fn lemma_pairs_round_trip(s: Pairs)
    requires
        unique_keys(s),
    ensures
        pairs_decoded(pairs_json(s)) == Some(s),
    decreases s.len(),
{
    let es = s.map_values(|e: (Seq<char>, Seq<char>)| (e.0, JsonView::Str(e.1)));
    if s.len() > 0 {
        let init = s.drop_last();
        assert(unique_keys(init));
        lemma_pairs_round_trip(init);
        assert(es.drop_last() =~= init.map_values(
            |e: (Seq<char>, Seq<char>)| (e.0, JsonView::Str(e.1)),
        ));
        lemma_key_pos(init, s.last().0);
        if crate::textmap::key_pos(init, s.last().0) >= 0 {
            let p = crate::textmap::key_pos(init, s.last().0);
            assert(s[p].0 == s[s.len() - 1].0);
        }
        assert(init.push(s.last()) =~= s);
        assert(members_decoded(es) == Some(pairs_insert(init, s.last().0, s.last().1)));
    } else {
        assert(es =~= Seq::<(Seq<char>, JsonView)>::empty());
    }
}

/// A stored folder reads back as the same folder.
pub proof fn folder_round_trip(f: FolderView)
    requires
        unique_keys(f.nodes),
    ensures
        folder_decoded(folder_json(f)) == Some(f),
{
    reveal_strlit("path");
    assert("path"@.len() == 4);
    assert("path"@[0] == 'p');
    reveal_strlit("owner");
    assert("owner"@.len() == 5);
    assert("owner"@[0] == 'o');
    reveal_strlit("title");
    assert("title"@.len() == 5);
    assert("title"@[0] == 't');
    reveal_strlit("nodes");
    assert("nodes"@.len() == 5);
    assert("nodes"@[0] == 'n');
    reveal_strlit("public");
    assert("public"@.len() == 6);
    assert("public"@[0] == 'p');
    let es = folder_json(f)->Object_0;
    lemma_entry_lookup_at(es, "path"@, 0);
    lemma_entry_lookup_at(es, "owner"@, 1);
    lemma_entry_lookup_at(es, "title"@, 2);
    lemma_entry_lookup_at(es, "nodes"@, 3);
    lemma_entry_lookup_at(es, "public"@, 4);
    lemma_pairs_round_trip(f.nodes);
}

/// The folders index read from storage never holds a path twice.
pub proof fn lemma_stored_index_unique(stored: Option<JsonView>)
    ensures
        unique_keys(index_of_stored(stored)),
{
    if let Some(v) = stored {
        if let JsonView::Object(entries) = v {
            crate::textmap::lemma_members_decoded_unique(entries);
        }
    }
}

/// The DOIs of a folder after adding `doi`.
pub open spec fn nodes_with_doi(nodes: Pairs, doi: Seq<char>) -> Pairs {
    if lookup(nodes, doi) is Some {
        nodes
    } else {
        pairs_insert(nodes, doi, "pending"@)
    }
}

/// Adding a DOI to a folder lists it; a DOI already listed keeps its state, a new
/// one is pending; the other DOIs keep theirs; adding it again changes nothing.
pub proof fn adding_a_doi(nodes: Pairs, doi: Seq<char>)
    requires
        unique_keys(nodes),
    ensures
        lookup(nodes_with_doi(nodes, doi), doi) == if lookup(nodes, doi) is Some {
            lookup(nodes, doi)
        } else {
            Some("pending"@)
        },
        forall|other: Seq<char>|
            other != doi ==> lookup(nodes_with_doi(nodes, doi), other) == #[trigger] lookup(
                nodes,
                other,
            ),
        nodes_with_doi(nodes_with_doi(nodes, doi), doi) == nodes_with_doi(nodes, doi),
        unique_keys(nodes_with_doi(nodes, doi)),
{
    crate::textmap::lemma_insert_unique(nodes, doi, "pending"@);
}

/// Every folder of a listing belongs to `uid`.
pub open spec fn all_owned_by(s: Seq<FolderView>, uid: Seq<char>) -> bool {
    forall|i: int| 0 <= i < s.len() ==> #[trigger] s[i].owner == uid
}

/// A listing of a user's folders holds only that user's folders: adding a folder
/// the user owns keeps it so.
pub proof fn listing_stays_owned(s: Seq<FolderView>, f: FolderView, uid: Seq<char>)
    requires
        all_owned_by(s, uid),
        f.owner == uid,
    ensures
        all_owned_by(listing_insert(s, f), uid),
        listing_insert(s, f).contains(f),
{
    lemma_path_pos(s, f.path);
    let t = listing_insert(s, f);
    let q = if path_pos(s, f.path) >= 0 { path_pos(s, f.path) } else { s.len() as int };
    assert(t[q] == f);
}

/// A decoded folder never lists a DOI twice.
pub proof fn lemma_decoded_folder_unique(v: JsonView)
    ensures
        folder_decoded(v) matches Some(f) ==> unique_keys(f.nodes),
{
    if let Some(JsonView::Object(entries)) = slot(v, 3, "nodes"@) {
        crate::textmap::lemma_members_decoded_unique(entries);
    }
}

} // verus!
