//! The bodies of the requests the actor accepts, read from their JSON.

use vstd::prelude::*;
use crate::codec::{json_of_bytes, parse_json_bytes};
use crate::json::{entries_view, lemma_entries_view, member, Json, JsonView};
use crate::shape::{
    count_field, fits, fits_record, flag_field_or_false, member_of, read_count, read_flag_or_false,
    read_text, read_text_or_empty, text_field, text_field_or_empty,
};

verus! {

/// A request for a user id.
#[derive(Debug, PartialEq)]
pub struct SetupRequest {
    pub name: String,
    pub ts: u64,
}

/// A folder to create or change: `id` is its path, `parent` the path it is under.
#[derive(Debug, PartialEq)]
pub struct FolderUpdateRequest {
    pub id: String,
    pub parent: String,
    pub title: String,
    pub public: bool,
}

/// A DOI to add to a folder.
#[derive(Debug, PartialEq)]
pub struct DoiFetchRequest {
    pub folder: String,
    pub doi: String,
}

/// A test body that is echoed back.
#[derive(Debug, PartialEq)]
pub struct TestUpdateRequest {
    pub title: String,
}

pub struct SetupRequestView {
    pub name: Seq<char>,
    pub ts: u64,
}

pub struct FolderUpdateRequestView {
    pub id: Seq<char>,
    pub parent: Seq<char>,
    pub title: Seq<char>,
    pub public: bool,
}

pub struct DoiFetchRequestView {
    pub folder: Seq<char>,
    pub doi: Seq<char>,
}

impl View for SetupRequest {
    type V = SetupRequestView;

    open spec fn view(&self) -> SetupRequestView {
        SetupRequestView { name: self.name@, ts: self.ts }
    }
}

impl View for FolderUpdateRequest {
    type V = FolderUpdateRequestView;

    open spec fn view(&self) -> FolderUpdateRequestView {
        FolderUpdateRequestView {
            id: self.id@,
            parent: self.parent@,
            title: self.title@,
            public: self.public,
        }
    }
}

impl View for DoiFetchRequest {
    type V = DoiFetchRequestView;

    open spec fn view(&self) -> DoiFetchRequestView {
        DoiFetchRequestView { folder: self.folder@, doi: self.doi@ }
    }
}

impl View for TestUpdateRequest {
    type V = Seq<char>;

    open spec fn view(&self) -> Seq<char> {
        self.title@
    }
}

/// The setup request a body decodes to: `name` a string, `ts` a `u64`.
pub open spec fn setup_decoded(v: JsonView) -> Option<SetupRequestView> {
    if fits_record(v, 2) && text_field(v, 0, "name"@) is Some && count_field(v, 1, "ts"@) is Some {
        Some(SetupRequestView { name: text_field(v, 0, "name"@)->0, ts: count_field(v, 1, "ts"@)->0 })
    } else {
        None
    }
}

/// The folder request a body decodes to: `title` is required; `id` and `parent`
/// default to empty and `public` to `false`.
pub open spec fn folder_request_decoded(v: JsonView) -> Option<FolderUpdateRequestView> {
    if fits_record(v, 4) && text_field_or_empty(v, 0, "id"@) is Some && text_field_or_empty(
        v,
        1,
        "parent"@,
    ) is Some && text_field(v, 2, "title"@) is Some && flag_field_or_false(v, 3, "public"@) is Some {
        Some(
            FolderUpdateRequestView {
                id: text_field_or_empty(v, 0, "id"@)->0,
                parent: text_field_or_empty(v, 1, "parent"@)->0,
                title: text_field(v, 2, "title"@)->0,
                public: flag_field_or_false(v, 3, "public"@)->0,
            },
        )
    } else {
        None
    }
}

/// The DOI request a body decodes to: `folder` and `doi` are required strings.
pub open spec fn doi_request_decoded(v: JsonView) -> Option<DoiFetchRequestView> {
    if fits_record(v, 2) && text_field(v, 0, "folder"@) is Some && text_field(v, 1, "doi"@) is Some {
        Some(
            DoiFetchRequestView {
                folder: text_field(v, 0, "folder"@)->0,
                doi: text_field(v, 1, "doi"@)->0,
            },
        )
    } else {
        None
    }
}

/// The test body a value decodes to: its `title` string.
pub open spec fn test_request_decoded(v: JsonView) -> Option<Seq<char>> {
    if fits_record(v, 1) {
        text_field(v, 0, "title"@)
    } else {
        None
    }
}

impl SetupRequest {
    /// Decodes a setup request from a request body.
    pub fn from_bytes(b: &[u8]) -> (r: Option<SetupRequest>)
        ensures
            match (r, json_of_bytes(b@)) {
                (Some(q), Ok(v)) => setup_decoded(v) == Some(q@),
                (None, Ok(v)) => setup_decoded(v) is None,
                (None, Err(_)) => true,
                (Some(_), Err(_)) => false,
            },
    {
        match parse_json_bytes(b) {
            Ok(j) => SetupRequest::from_json(&j),
            Err(_) => None,
        }
    }

    /// Decodes a setup request.
    pub fn from_json(v: &Json) -> (r: Option<SetupRequest>)
        ensures
            match r {
                Some(q) => setup_decoded(v@) == Some(q@),
                None => setup_decoded(v@) is None,
            },
    {
        if !fits(v, 2) {
            return None;
        }
        let name = match read_text(v, 0, "name") {
            Some(x) => x,
            None => return None,
        };
        let ts = match read_count(v, 1, "ts") {
            Some(x) => x,
            None => return None,
        };
        Some(SetupRequest { name, ts })
    }
}

impl FolderUpdateRequest {
    /// Decodes a folder request from a request body.
    pub fn from_bytes(b: &[u8]) -> (r: Option<FolderUpdateRequest>)
        ensures
            match (r, json_of_bytes(b@)) {
                (Some(q), Ok(v)) => folder_request_decoded(v) == Some(q@),
                (None, Ok(v)) => folder_request_decoded(v) is None,
                (None, Err(_)) => true,
                (Some(_), Err(_)) => false,
            },
    {
        match parse_json_bytes(b) {
            Ok(j) => FolderUpdateRequest::from_json(&j),
            Err(_) => None,
        }
    }

    /// Decodes a folder request.
    pub fn from_json(v: &Json) -> (r: Option<FolderUpdateRequest>)
        ensures
            match r {
                Some(q) => folder_request_decoded(v@) == Some(q@),
                None => folder_request_decoded(v@) is None,
            },
    {
        if !fits(v, 4) {
            return None;
        }
        let id = match read_text_or_empty(v, 0, "id") {
            Some(x) => x,
            None => return None,
        };
        let parent = match read_text_or_empty(v, 1, "parent") {
            Some(x) => x,
            None => return None,
        };
        let title = match read_text(v, 2, "title") {
            Some(x) => x,
            None => return None,
        };
        let public = match read_flag_or_false(v, 3, "public") {
            Some(x) => x,
            None => return None,
        };
        Some(FolderUpdateRequest { id, parent, title, public })
    }
}

impl DoiFetchRequest {
    /// Decodes a DOI request from a request body.
    pub fn from_bytes(b: &[u8]) -> (r: Option<DoiFetchRequest>)
        ensures
            match (r, json_of_bytes(b@)) {
                (Some(q), Ok(v)) => doi_request_decoded(v) == Some(q@),
                (None, Ok(v)) => doi_request_decoded(v) is None,
                (None, Err(_)) => true,
                (Some(_), Err(_)) => false,
            },
    {
        match parse_json_bytes(b) {
            Ok(j) => DoiFetchRequest::from_json(&j),
            Err(_) => None,
        }
    }

    /// Decodes a DOI request.
    pub fn from_json(v: &Json) -> (r: Option<DoiFetchRequest>)
        ensures
            match r {
                Some(q) => doi_request_decoded(v@) == Some(q@),
                None => doi_request_decoded(v@) is None,
            },
    {
        if !fits(v, 2) {
            return None;
        }
        let folder = match read_text(v, 0, "folder") {
            Some(x) => x,
            None => return None,
        };
        let doi = match read_text(v, 1, "doi") {
            Some(x) => x,
            None => return None,
        };
        Some(DoiFetchRequest { folder, doi })
    }
}

impl TestUpdateRequest {
    /// Decodes a test body from a request body.
    pub fn from_bytes(b: &[u8]) -> (r: Option<TestUpdateRequest>)
        ensures
            match (r, json_of_bytes(b@)) {
                (Some(q), Ok(v)) => test_request_decoded(v) == Some(q@),
                (None, Ok(v)) => test_request_decoded(v) is None,
                (None, Err(_)) => true,
                (Some(_), Err(_)) => false,
            },
    {
        match parse_json_bytes(b) {
            Ok(j) => TestUpdateRequest::from_json(&j),
            Err(_) => None,
        }
    }

    /// Decodes a test body.
    pub fn from_json(v: &Json) -> (r: Option<TestUpdateRequest>)
        ensures
            match r {
                Some(q) => test_request_decoded(v@) == Some(q@),
                None => test_request_decoded(v@) is None,
            },
    {
        if !fits(v, 1) {
            return None;
        }
        match read_text(v, 0, "title") {
            Some(title) => Some(TestUpdateRequest { title }),
            None => None,
        }
    }

    /// The JSON form of a test body: `{"title": ...}`.
    pub fn to_json(&self) -> (j: Json)
        ensures
            j@ == JsonView::Object(seq![("title"@, JsonView::Str(self@))]),
    {
        let mut out: Vec<(String, Json)> = Vec::new();
        out.push(member_of("title", Json::Str(self.title.clone())));
        proof {
            lemma_entries_view(out@);
        }
        assert(entries_view(out@) =~= seq![("title"@, JsonView::Str(self@))]);
        Json::Object(out)
    }
}

/// A folder request read from an object takes each field from the member of its
/// name: `id` from `id`, `parent` from `parent`, `title` from `title` and
/// `public` from `public`; `id` and `parent` are empty and `public` false when
/// their member is missing. With a string `title` and those members of the right
/// type, the body decodes.
pub proof fn folder_request_fields_by_name(
    v: JsonView,
    id: Option<Seq<char>>,
    parent: Option<Seq<char>>,
    title: Seq<char>,
    public: Option<bool>,
)
    requires
        v is Object,
        member(Some(v), "id"@) == match id {
            Some(t) => Some(JsonView::Str(t)),
            None => None::<JsonView>,
        },
        member(Some(v), "parent"@) == match parent {
            Some(t) => Some(JsonView::Str(t)),
            None => None::<JsonView>,
        },
        member(Some(v), "title"@) == Some(JsonView::Str(title)),
        member(Some(v), "public"@) == match public {
            Some(b) => Some(JsonView::Bool(b)),
            None => None::<JsonView>,
        },
    ensures
        folder_request_decoded(v) == Some(
            FolderUpdateRequestView {
                id: match id {
                    Some(t) => t,
                    None => Seq::empty(),
                },
                parent: match parent {
                    Some(t) => t,
                    None => Seq::empty(),
                },
                title: title,
                public: match public {
                    Some(b) => b,
                    None => false,
                },
            },
        ),
{
}

/// A DOI request read from an object takes its folder from the member `folder`
/// and its DOI from the member `doi`; with both strings, the body decodes.
pub proof fn doi_request_fields_by_name(v: JsonView, folder: Seq<char>, doi: Seq<char>)
    requires
        v is Object,
        member(Some(v), "folder"@) == Some(JsonView::Str(folder)),
        member(Some(v), "doi"@) == Some(JsonView::Str(doi)),
    ensures
        doi_request_decoded(v) == Some(DoiFetchRequestView { folder: folder, doi: doi }),
{
}

/// A setup request read from an object takes its name from the member `name`
/// and its time stamp from the member `ts`; with a string name and a `u64` time
/// stamp, the body decodes.
pub proof fn setup_request_fields_by_name(v: JsonView, name: Seq<char>, ts: u64)
    requires
        v is Object,
        member(Some(v), "name"@) == Some(JsonView::Str(name)),
        member(Some(v), "ts"@) == Some(JsonView::Num(crate::json::NumberView::PosInt(ts))),
    ensures
        setup_decoded(v) == Some(SetupRequestView { name: name, ts: ts }),
{
}

} // verus!
