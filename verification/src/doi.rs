//! DOI records: the fields the actor keeps of a crossref work, and how they are
//! read out of a crossref reply.

use vstd::prelude::*;
use crate::json::{
    count_of, element, entries_view, get_count, lemma_entries_view, lemma_entry_lookup_at, get_element, get_items, get_member, get_text, items_of, items_view,
    json_view, lemma_items_view, member, opt_view, text_of, Json, JsonView, NumberView,
};
use crate::shape::{
    fits, fits_record, lemma_all_texts_of_json, member_of, opt_count_field, opt_count_json, opt_count_to_json, opt_text_field,
    opt_text_json, opt_text_to_json, read_opt_count, read_opt_text, read_text, read_texts, slot,
    slot_of, text_field, texts_field, texts_json, texts_to_json,
};
use crate::text::{opt_text, replace_all, replaced};

verus! {

/// A person named on a work.
#[derive(Debug, PartialEq)]
pub struct Name {
    pub suffix: Option<String>,
    pub given: Option<String>,
    pub family: Option<String>,
    pub prefix: Option<String>,
    pub name: Option<String>,
}

/// A link to a representation of a work.
#[derive(Debug, PartialEq)]
pub struct Link {
    pub url: String,
    pub ctype: String,
    pub cversion: String,
    pub app: String,
}

/// The record kept of a DOI in a folder.
#[derive(Debug, PartialEq)]
pub struct DoiNode {
    pub folder: String,
    pub doi: Option<String>,
    pub publisher: Option<String>,
    pub pub_year: Option<u16>,
    pub pub_month: Option<u8>,
    pub pub_day: Option<u8>,
    pub pol_year: Option<u16>,
    pub pol_month: Option<u8>,
    pub pol_day: Option<u8>,
    pub create_year: Option<u16>,
    pub create_month: Option<u8>,
    pub create_day: Option<u8>,
    pub titles: Vec<String>,
    pub summary: Option<String>,
    pub typ: Option<String>,
    pub authors: Vec<Name>,
    pub editors: Vec<Name>,
    pub links: Vec<Link>,
}

pub struct NameView {
    pub suffix: Option<Seq<char>>,
    pub given: Option<Seq<char>>,
    pub family: Option<Seq<char>>,
    pub prefix: Option<Seq<char>>,
    pub name: Option<Seq<char>>,
}

pub struct LinkView {
    pub url: Seq<char>,
    pub ctype: Seq<char>,
    pub cversion: Seq<char>,
    pub app: Seq<char>,
}

pub struct DoiNodeView {
    pub folder: Seq<char>,
    pub doi: Option<Seq<char>>,
    pub publisher: Option<Seq<char>>,
    pub pub_year: Option<u16>,
    pub pub_month: Option<u8>,
    pub pub_day: Option<u8>,
    pub pol_year: Option<u16>,
    pub pol_month: Option<u8>,
    pub pol_day: Option<u8>,
    pub create_year: Option<u16>,
    pub create_month: Option<u8>,
    pub create_day: Option<u8>,
    pub titles: Seq<Seq<char>>,
    pub summary: Option<Seq<char>>,
    pub typ: Option<Seq<char>>,
    pub authors: Seq<NameView>,
    pub editors: Seq<NameView>,
    pub links: Seq<LinkView>,
}

impl View for Name {
    type V = NameView;

    open spec fn view(&self) -> NameView {
        NameView {
            suffix: opt_text(self.suffix),
            given: opt_text(self.given),
            family: opt_text(self.family),
            prefix: opt_text(self.prefix),
            name: opt_text(self.name),
        }
    }
}

impl View for Link {
    type V = LinkView;

    open spec fn view(&self) -> LinkView {
        LinkView { url: self.url@, ctype: self.ctype@, cversion: self.cversion@, app: self.app@ }
    }
}

pub open spec fn texts_view(v: Seq<String>) -> Seq<Seq<char>> {
    v.map_values(|s: String| s@)
}

pub open spec fn names_view(v: Seq<Name>) -> Seq<NameView> {
    v.map_values(|n: Name| n@)
}

pub open spec fn links_view(v: Seq<Link>) -> Seq<LinkView> {
    v.map_values(|l: Link| l@)
}

impl View for DoiNode {
    type V = DoiNodeView;

    open spec fn view(&self) -> DoiNodeView {
        DoiNodeView {
            folder: self.folder@,
            doi: opt_text(self.doi),
            publisher: opt_text(self.publisher),
            pub_year: self.pub_year,
            pub_month: self.pub_month,
            pub_day: self.pub_day,
            pol_year: self.pol_year,
            pol_month: self.pol_month,
            pol_day: self.pol_day,
            create_year: self.create_year,
            create_month: self.create_month,
            create_day: self.create_day,
            titles: texts_view(self.titles@),
            summary: opt_text(self.summary),
            typ: opt_text(self.typ),
            authors: names_view(self.authors@),
            editors: names_view(self.editors@),
            links: links_view(self.links@),
        }
    }
}

// ---------------------------------------------------------------------------
// What is read out of a crossref reply
// ---------------------------------------------------------------------------

/// `resp["message"]`.
pub open spec fn message_of(resp: JsonView) -> Option<JsonView> {
    member(Some(resp), "message"@)
}

/// A date of a work, `m[key]["date-parts"][0]`: the year when the first part is a
/// `u64`, the month only with a year, the day only with a month; each narrowed to
/// its field's width by truncation.
pub open spec fn date_of(m: Option<JsonView>, key: Seq<char>) -> (Option<u16>, Option<u8>, Option<u8>) {
    let parts = element(member(member(m, key), "date-parts"@), 0);
    match count_of(element(parts, 0)) {
        None => (None, None, None),
        Some(y) => match count_of(element(parts, 1)) {
            None => (Some(y as u16), None, None),
            Some(mo) => (
                Some(y as u16),
                Some(mo as u8),
                match count_of(element(parts, 2)) {
                    None => None,
                    Some(d) => Some(d as u8),
                },
            ),
        },
    }
}

/// The strings among `items`, in order.
pub open spec fn strings_in(items: Seq<JsonView>) -> Seq<Seq<char>>
    decreases items.len(),
{
    if items.len() == 0 {
        Seq::empty()
    } else {
        let init = strings_in(items.drop_last());
        match items.last() {
            JsonView::Str(t) => init.push(t),
            _ => init,
        }
    }
}

/// A person as crossref describes one: each part that is present as a string.
pub open spec fn name_in(n: JsonView) -> NameView {
    NameView {
        suffix: text_of(member(Some(n), "suffix"@)),
        given: text_of(member(Some(n), "given"@)),
        family: text_of(member(Some(n), "family"@)),
        prefix: text_of(member(Some(n), "prefix"@)),
        name: text_of(member(Some(n), "name"@)),
    }
}

/// The people of a list, or none when there is no list.
pub open spec fn names_in(v: Option<JsonView>) -> Seq<NameView> {
    match items_of(v) {
        Some(items) => items.map_values(|n: JsonView| name_in(n)),
        None => Seq::empty(),
    }
}

/// An abstract without its `<jats:p>` and `</jats:p>` tags.
pub open spec fn without_jats(s: Seq<char>) -> Seq<char> {
    replaced(replaced(s, "<jats:p>"@, ""@), "</jats:p>"@, ""@)
}

/// The record of DOI `doi` in `folder` made from the crossref reply `resp`.
pub open spec fn crossref_node(folder: Seq<char>, doi: Seq<char>, resp: JsonView) -> DoiNodeView {
    let m = message_of(resp);
    let printed = date_of(m, "published-print"@);
    let online = date_of(m, "published-online"@);
    let created = date_of(m, "created"@);
    DoiNodeView {
        folder: folder,
        doi: Some(doi),
        publisher: text_of(member(m, "publisher"@)),
        pub_year: printed.0,
        pub_month: printed.1,
        pub_day: printed.2,
        pol_year: online.0,
        pol_month: online.1,
        pol_day: online.2,
        create_year: created.0,
        create_month: created.1,
        create_day: created.2,
        titles: match items_of(member(m, "title"@)) {
            Some(items) => strings_in(items),
            None => Seq::empty(),
        },
        summary: match text_of(member(m, "abstract"@)) {
            Some(s) => Some(without_jats(s)),
            None => None,
        },
        typ: text_of(member(m, "type"@)),
        authors: names_in(member(m, "author"@)),
        editors: names_in(member(m, "editor"@)),
        links: Seq::empty(),
    }
}

/// Reads the date `m[key]["date-parts"][0]`.
fn read_date(m: Option<&Json>, key: &str) -> (r: (Option<u16>, Option<u8>, Option<u8>))
    ensures
        r == date_of(opt_view(m), key@),
{
    let parts = get_element(get_member(get_member(m, key), "date-parts"), 0);
    match get_count(get_element(parts, 0)) {
        None => (None, None, None),
        Some(y) => match get_count(get_element(parts, 1)) {
            None => (Some(y as u16), None, None),
            Some(mo) => {
                let day = match get_count(get_element(parts, 2)) {
                    None => None,
                    Some(d) => Some(d as u8),
                };
                (Some(y as u16), Some(mo as u8), day)
            },
        },
    }
}

/// Reads a person out of a crossref author or editor entry.
pub fn name_from(n: &Json) -> (r: Name)
    ensures
        r@ == name_in(n@),
{
    let v = Some(n);
    Name {
        suffix: get_text(get_member(v, "suffix")),
        given: get_text(get_member(v, "given")),
        family: get_text(get_member(v, "family")),
        prefix: get_text(get_member(v, "prefix")),
        name: get_text(get_member(v, "name")),
    }
}

/// Reads the people of the list `v`.
fn names_from(v: Option<&Json>) -> (r: Vec<Name>)
    ensures
        names_view(r@) == names_in(opt_view(v)),
{
    let mut out: Vec<Name> = Vec::new();
    match get_items(v) {
        None => {
            assert(names_view(out@) =~= Seq::<NameView>::empty());
        },
        Some(items) => {
            proof {
                lemma_items_view(items@);
            }
            let ghost xs = items_view(items@);
            let mut i: usize = 0;
            while i < items.len()
                invariant
                    0 <= i <= items.len(),
                    xs == items_view(items@),
                    xs.len() == items.len(),
                    forall|k: int| 0 <= k < items.len() ==> #[trigger] xs[k] == json_view(items@[k]),
                    names_view(out@) == xs.take(i as int).map_values(|n: JsonView| name_in(n)),
                decreases items.len() - i,
            {
                let ghost before = out@;
                let nm = name_from(&items[i]);
                assert(nm@ == name_in(xs[i as int]));
                out.push(nm);
                assert(out@ == before.push(nm));
                assert(names_view(out@) =~= names_view(before).push(nm@));
                i = i + 1;
                assert(names_view(out@) =~= xs.take(i as int).map_values(|n: JsonView| name_in(n)));
            }
            assert(xs.take(i as int) =~= xs);
        },
    }
    out
}

/// Reads the strings of the list `v`.
fn strings_from(v: Option<&Json>) -> (r: Vec<String>)
    ensures
        texts_view(r@) == match items_of(opt_view(v)) {
            Some(items) => strings_in(items),
            None => Seq::empty(),
        },
{
    let mut out: Vec<String> = Vec::new();
    match get_items(v) {
        None => {
            assert(texts_view(out@) =~= Seq::<Seq<char>>::empty());
        },
        Some(items) => {
            proof {
                lemma_items_view(items@);
            }
            let ghost xs = items_view(items@);
            let mut i: usize = 0;
            assert(texts_view(out@) =~= strings_in(xs.take(0)));
            while i < items.len()
                invariant
                    0 <= i <= items.len(),
                    xs == items_view(items@),
                    xs.len() == items.len(),
                    forall|k: int| 0 <= k < items.len() ==> #[trigger] xs[k] == json_view(items@[k]),
                    texts_view(out@) == strings_in(xs.take(i as int)),
                decreases items.len() - i,
            {
                assert(xs.take(i + 1).drop_last() =~= xs.take(i as int));
                assert(xs.take(i + 1).last() == json_view(items@[i as int]));
                match &items[i] {
                    Json::Str(t) => {
                        out.push(t.clone());
                        assert(texts_view(out@) =~= strings_in(xs.take(i as int)).push(t@));
                    },
                    _ => {},
                }
                i = i + 1;
            }
            assert(xs.take(i as int) =~= xs);
        },
    }
    out
}

/// Removes the `<jats:p>` and `</jats:p>` tags from an abstract.
pub fn strip_jats(s: &str) -> (r: String)
    ensures
        r@ == without_jats(s@),
{
    proof {
        reveal_strlit("<jats:p>");
        reveal_strlit("</jats:p>");
    }
    let a = replace_all(s, "<jats:p>", "");
    replace_all(a.as_str(), "</jats:p>", "")
}

/// Makes the record of DOI `doi` in `folder` from the crossref reply `resp`.
pub fn node_from_crossref(folder: String, doi: String, resp: &Json) -> (dn: DoiNode)
    ensures
        dn@ == crossref_node(folder@, doi@, resp@),
{
    let m = get_member(Some(resp), "message");
    let printed = read_date(m, "published-print");
    let online = read_date(m, "published-online");
    let created = read_date(m, "created");
    let summary = match get_text(get_member(m, "abstract")) {
        Some(s) => Some(strip_jats(s.as_str())),
        None => None,
    };
    let dn = DoiNode {
        folder: folder,
        doi: Some(doi),
        publisher: get_text(get_member(m, "publisher")),
        pub_year: printed.0,
        pub_month: printed.1,
        pub_day: printed.2,
        pol_year: online.0,
        pol_month: online.1,
        pol_day: online.2,
        create_year: created.0,
        create_month: created.1,
        create_day: created.2,
        titles: strings_from(get_member(m, "title")),
        summary: summary,
        typ: get_text(get_member(m, "type")),
        authors: names_from(get_member(m, "author")),
        editors: names_from(get_member(m, "editor")),
        links: Vec::new(),
    };
    assert(links_view(dn.links@) =~= Seq::<LinkView>::empty());
    dn
}

// ---------------------------------------------------------------------------
// How records are stored
// ---------------------------------------------------------------------------

/// A count narrowed to `u16`.
pub open spec fn as_u16(o: Option<u64>) -> Option<u16> {
    match o {
        Some(n) => Some(n as u16),
        None => None,
    }
}

/// A count narrowed to `u8`.
pub open spec fn as_u8(o: Option<u64>) -> Option<u8> {
    match o {
        Some(n) => Some(n as u8),
        None => None,
    }
}

pub open spec fn wide16(o: Option<u16>) -> Option<u64> {
    match o {
        Some(n) => Some(n as u64),
        None => None,
    }
}

pub open spec fn wide8(o: Option<u8>) -> Option<u64> {
    match o {
        Some(n) => Some(n as u64),
        None => None,
    }
}

/// The stored form of a person.
pub open spec fn name_json(n: NameView) -> JsonView {
    JsonView::Object(
        seq![
            ("suffix"@, opt_text_json(n.suffix)),
            ("given"@, opt_text_json(n.given)),
            ("family"@, opt_text_json(n.family)),
            ("prefix"@, opt_text_json(n.prefix)),
            ("name"@, opt_text_json(n.name)),
        ],
    )
}

/// The person a stored value decodes to.
pub open spec fn name_decoded(v: JsonView) -> Option<NameView> {
    if fits_record(v, 5) && opt_text_field(v, 0, "suffix"@) is Some && opt_text_field(
        v,
        1,
        "given"@,
    ) is Some && opt_text_field(v, 2, "family"@) is Some && opt_text_field(v, 3, "prefix"@) is Some
        && opt_text_field(v, 4, "name"@) is Some {
        Some(
            NameView {
                suffix: opt_text_field(v, 0, "suffix"@)->0,
                given: opt_text_field(v, 1, "given"@)->0,
                family: opt_text_field(v, 2, "family"@)->0,
                prefix: opt_text_field(v, 3, "prefix"@)->0,
                name: opt_text_field(v, 4, "name"@)->0,
            },
        )
    } else {
        None
    }
}

/// The stored form of a link.
pub open spec fn link_json(l: LinkView) -> JsonView {
    JsonView::Object(
        seq![
            ("url"@, JsonView::Str(l.url)),
            ("ctype"@, JsonView::Str(l.ctype)),
            ("cversion"@, JsonView::Str(l.cversion)),
            ("app"@, JsonView::Str(l.app)),
        ],
    )
}

/// The link a stored value decodes to.
pub open spec fn link_decoded(v: JsonView) -> Option<LinkView> {
    if fits_record(v, 4) && text_field(v, 0, "url"@) is Some && text_field(v, 1, "ctype"@) is Some
        && text_field(v, 2, "cversion"@) is Some && text_field(v, 3, "app"@) is Some {
        Some(
            LinkView {
                url: text_field(v, 0, "url"@)->0,
                ctype: text_field(v, 1, "ctype"@)->0,
                cversion: text_field(v, 2, "cversion"@)->0,
                app: text_field(v, 3, "app"@)->0,
            },
        )
    } else {
        None
    }
}

/// The people of an array whose items all decode as people.
pub open spec fn all_names(items: Seq<JsonView>) -> Option<Seq<NameView>>
    decreases items.len(),
{
    if items.len() == 0 {
        Some(Seq::empty())
    } else {
        match all_names(items.drop_last()) {
            None => None,
            Some(init) => match name_decoded(items.last()) {
                Some(n) => Some(init.push(n)),
                None => None,
            },
        }
    }
}

/// The links of an array whose items all decode as links.
pub open spec fn all_links(items: Seq<JsonView>) -> Option<Seq<LinkView>>
    decreases items.len(),
{
    if items.len() == 0 {
        Some(Seq::empty())
    } else {
        match all_links(items.drop_last()) {
            None => None,
            Some(init) => match link_decoded(items.last()) {
                Some(l) => Some(init.push(l)),
                None => None,
            },
        }
    }
}

pub open spec fn names_field(v: JsonView, idx: int, name: Seq<char>) -> Option<Seq<NameView>> {
    match slot(v, idx, name) {
        Some(JsonView::Array(items)) => all_names(items),
        _ => None,
    }
}

pub open spec fn links_field(v: JsonView, idx: int, name: Seq<char>) -> Option<Seq<LinkView>> {
    match slot(v, idx, name) {
        Some(JsonView::Array(items)) => all_links(items),
        _ => None,
    }
}

pub open spec fn names_json(s: Seq<NameView>) -> JsonView {
    JsonView::Array(s.map_values(|n: NameView| name_json(n)))
}

pub open spec fn links_json(s: Seq<LinkView>) -> JsonView {
    JsonView::Array(s.map_values(|l: LinkView| link_json(l)))
}

/// The stored form of a DOI record.
pub open spec fn node_json(n: DoiNodeView) -> JsonView {
    JsonView::Object(
        seq![
            ("folder"@, JsonView::Str(n.folder)),
            ("doi"@, opt_text_json(n.doi)),
            ("publisher"@, opt_text_json(n.publisher)),
            ("pub_year"@, opt_count_json(wide16(n.pub_year))),
            ("pub_month"@, opt_count_json(wide8(n.pub_month))),
            ("pub_day"@, opt_count_json(wide8(n.pub_day))),
            ("pol_year"@, opt_count_json(wide16(n.pol_year))),
            ("pol_month"@, opt_count_json(wide8(n.pol_month))),
            ("pol_day"@, opt_count_json(wide8(n.pol_day))),
            ("create_year"@, opt_count_json(wide16(n.create_year))),
            ("create_month"@, opt_count_json(wide8(n.create_month))),
            ("create_day"@, opt_count_json(wide8(n.create_day))),
            ("titles"@, texts_json(n.titles)),
            ("summary"@, opt_text_json(n.summary)),
            ("typ"@, opt_text_json(n.typ)),
            ("authors"@, names_json(n.authors)),
            ("editors"@, names_json(n.editors)),
            ("links"@, links_json(n.links)),
        ],
    )
}

/// The DOI record a stored value decodes to.
pub open spec fn node_decoded(v: JsonView) -> Option<DoiNodeView> {
    if fits_record(v, 18) && text_field(v, 0, "folder"@) is Some && opt_text_field(v, 1, "doi"@) is Some
        && opt_text_field(v, 2, "publisher"@) is Some && opt_count_field(v, 3, "pub_year"@, 0xffff) is Some
        && opt_count_field(v, 4, "pub_month"@, 0xff) is Some && opt_count_field(v, 5, "pub_day"@, 0xff) is Some
        && opt_count_field(v, 6, "pol_year"@, 0xffff) is Some && opt_count_field(v, 7, "pol_month"@, 0xff) is Some
        && opt_count_field(v, 8, "pol_day"@, 0xff) is Some && opt_count_field(v, 9, "create_year"@, 0xffff) is Some
        && opt_count_field(v, 10, "create_month"@, 0xff) is Some && opt_count_field(v, 11, "create_day"@, 0xff) is Some
        && texts_field(v, 12, "titles"@) is Some && opt_text_field(v, 13, "summary"@) is Some
        && opt_text_field(v, 14, "typ"@) is Some && names_field(v, 15, "authors"@) is Some
        && names_field(v, 16, "editors"@) is Some && links_field(v, 17, "links"@) is Some {
        Some(
            DoiNodeView {
                folder: text_field(v, 0, "folder"@)->0,
                doi: opt_text_field(v, 1, "doi"@)->0,
                publisher: opt_text_field(v, 2, "publisher"@)->0,
                pub_year: as_u16(opt_count_field(v, 3, "pub_year"@, 0xffff)->0),
                pub_month: as_u8(opt_count_field(v, 4, "pub_month"@, 0xff)->0),
                pub_day: as_u8(opt_count_field(v, 5, "pub_day"@, 0xff)->0),
                pol_year: as_u16(opt_count_field(v, 6, "pol_year"@, 0xffff)->0),
                pol_month: as_u8(opt_count_field(v, 7, "pol_month"@, 0xff)->0),
                pol_day: as_u8(opt_count_field(v, 8, "pol_day"@, 0xff)->0),
                create_year: as_u16(opt_count_field(v, 9, "create_year"@, 0xffff)->0),
                create_month: as_u8(opt_count_field(v, 10, "create_month"@, 0xff)->0),
                create_day: as_u8(opt_count_field(v, 11, "create_day"@, 0xff)->0),
                titles: texts_field(v, 12, "titles"@)->0,
                summary: opt_text_field(v, 13, "summary"@)->0,
                typ: opt_text_field(v, 14, "typ"@)->0,
                authors: names_field(v, 15, "authors"@)->0,
                editors: names_field(v, 16, "editors"@)->0,
                links: links_field(v, 17, "links"@)->0,
            },
        )
    } else {
        None
    }
}

pub open spec fn opt_name_view(r: Option<Name>) -> Option<NameView> {
    match r {
        Some(n) => Some(n@),
        None => None,
    }
}

pub open spec fn opt_link_view(r: Option<Link>) -> Option<LinkView> {
    match r {
        Some(l) => Some(l@),
        None => None,
    }
}

pub open spec fn opt_node_view(r: Option<DoiNode>) -> Option<DoiNodeView> {
    match r {
        Some(n) => Some(n@),
        None => None,
    }
}

impl Name {
    /// The stored form of this person.
    pub fn to_json(&self) -> (j: Json)
        ensures
            j@ == name_json(self@),
    {
        let mut out: Vec<(String, Json)> = Vec::new();
        out.push(member_of("suffix", opt_text_to_json(&self.suffix)));
        out.push(member_of("given", opt_text_to_json(&self.given)));
        out.push(member_of("family", opt_text_to_json(&self.family)));
        out.push(member_of("prefix", opt_text_to_json(&self.prefix)));
        out.push(member_of("name", opt_text_to_json(&self.name)));
        proof {
            lemma_entries_view(out@);
        }
        assert(entries_view(out@) =~= name_json(self@)->Object_0);
        Json::Object(out)
    }

    /// Decodes a stored person.
    pub fn from_json(v: &Json) -> (r: Option<Name>)
        ensures
            opt_name_view(r) == name_decoded(v@),
    {
        if !fits(v, 5) {
            return None;
        }
        let suffix = match read_opt_text(v, 0, "suffix") {
            Some(x) => x,
            None => return None,
        };
        let given = match read_opt_text(v, 1, "given") {
            Some(x) => x,
            None => return None,
        };
        let family = match read_opt_text(v, 2, "family") {
            Some(x) => x,
            None => return None,
        };
        let prefix = match read_opt_text(v, 3, "prefix") {
            Some(x) => x,
            None => return None,
        };
        let name = match read_opt_text(v, 4, "name") {
            Some(x) => x,
            None => return None,
        };
        Some(Name { suffix, given, family, prefix, name })
    }
}

impl Link {
    /// The stored form of this link.
    pub fn to_json(&self) -> (j: Json)
        ensures
            j@ == link_json(self@),
    {
        let mut out: Vec<(String, Json)> = Vec::new();
        out.push(member_of("url", Json::Str(self.url.clone())));
        out.push(member_of("ctype", Json::Str(self.ctype.clone())));
        out.push(member_of("cversion", Json::Str(self.cversion.clone())));
        out.push(member_of("app", Json::Str(self.app.clone())));
        proof {
            lemma_entries_view(out@);
        }
        assert(entries_view(out@) =~= link_json(self@)->Object_0);
        Json::Object(out)
    }

    /// Decodes a stored link.
    pub fn from_json(v: &Json) -> (r: Option<Link>)
        ensures
            opt_link_view(r) == link_decoded(v@),
    {
        if !fits(v, 4) {
            return None;
        }
        let url = match read_text(v, 0, "url") {
            Some(x) => x,
            None => return None,
        };
        let ctype = match read_text(v, 1, "ctype") {
            Some(x) => x,
            None => return None,
        };
        let cversion = match read_text(v, 2, "cversion") {
            Some(x) => x,
            None => return None,
        };
        let app = match read_text(v, 3, "app") {
            Some(x) => x,
            None => return None,
        };
        Some(Link { url, ctype, cversion, app })
    }
}

/// Reads a `Vec<Name>` field.
fn read_names(v: &Json, idx: usize, name: &str) -> (r: Option<Vec<Name>>)
    ensures
        match r {
            Some(t) => names_field(v@, idx as int, name@) == Some(names_view(t@)),
            None => names_field(v@, idx as int, name@) is None,
        },
{
    match slot_of(v, idx, name) {
        Some(Json::Array(items)) => {
            proof {
                lemma_items_view(items@);
            }
            let ghost xs = items_view(items@);
            let mut out: Vec<Name> = Vec::new();
            let mut i: usize = 0;
            assert(names_view(out@) =~= Seq::<NameView>::empty());
            assert(xs.take(0) =~= Seq::<JsonView>::empty());
            while i < items.len()
                invariant
                    0 <= i <= items.len(),
                    xs == items_view(items@),
                    xs.len() == items.len(),
                    forall|k: int| 0 <= k < items.len() ==> #[trigger] xs[k] == json_view(items@[k]),
                    all_names(xs.take(i as int)) == Some(names_view(out@)),
                    slot(v@, idx as int, name@) == Some(JsonView::Array(xs)),
                decreases items.len() - i,
            {
                assert(xs.take(i + 1).drop_last() =~= xs.take(i as int));
                assert(xs.take(i + 1).last() == json_view(items@[i as int]));
                match Name::from_json(&items[i]) {
                    Some(n) => {
                        let ghost before = out@;
                        out.push(n);
                        assert(names_view(out@) =~= names_view(before).push(n@));
                    },
                    None => {
                        proof {
                            lemma_all_names_prefix_none(xs, i + 1);
                        }
                        return None;
                    },
                }
                i = i + 1;
            }
            assert(xs.take(i as int) =~= xs);
            Some(out)
        },
        _ => None,
    }
}

proof fn lemma_all_names_prefix_none(xs: Seq<JsonView>, n: int)
    requires
        0 <= n <= xs.len(),
        all_names(xs.take(n)) is None,
    ensures
        all_names(xs) is None,
    decreases xs.len() - n,
{
    if n < xs.len() {
        assert(xs.take(n + 1).drop_last() =~= xs.take(n));
        lemma_all_names_prefix_none(xs, n + 1);
    } else {
        assert(xs.take(n) =~= xs);
    }
}

/// Reads a `Vec<Link>` field.
fn read_links(v: &Json, idx: usize, name: &str) -> (r: Option<Vec<Link>>)
    ensures
        match r {
            Some(t) => links_field(v@, idx as int, name@) == Some(links_view(t@)),
            None => links_field(v@, idx as int, name@) is None,
        },
{
    match slot_of(v, idx, name) {
        Some(Json::Array(items)) => {
            proof {
                lemma_items_view(items@);
            }
            let ghost xs = items_view(items@);
            let mut out: Vec<Link> = Vec::new();
            let mut i: usize = 0;
            assert(links_view(out@) =~= Seq::<LinkView>::empty());
            assert(xs.take(0) =~= Seq::<JsonView>::empty());
            while i < items.len()
                invariant
                    0 <= i <= items.len(),
                    xs == items_view(items@),
                    xs.len() == items.len(),
                    forall|k: int| 0 <= k < items.len() ==> #[trigger] xs[k] == json_view(items@[k]),
                    all_links(xs.take(i as int)) == Some(links_view(out@)),
                    slot(v@, idx as int, name@) == Some(JsonView::Array(xs)),
                decreases items.len() - i,
            {
                assert(xs.take(i + 1).drop_last() =~= xs.take(i as int));
                assert(xs.take(i + 1).last() == json_view(items@[i as int]));
                match Link::from_json(&items[i]) {
                    Some(l) => {
                        let ghost before = out@;
                        out.push(l);
                        assert(links_view(out@) =~= links_view(before).push(l@));
                    },
                    None => {
                        proof {
                            lemma_all_links_prefix_none(xs, i + 1);
                        }
                        return None;
                    },
                }
                i = i + 1;
            }
            assert(xs.take(i as int) =~= xs);
            Some(out)
        },
        _ => None,
    }
}

proof fn lemma_all_links_prefix_none(xs: Seq<JsonView>, n: int)
    requires
        0 <= n <= xs.len(),
        all_links(xs.take(n)) is None,
    ensures
        all_links(xs) is None,
    decreases xs.len() - n,
{
    if n < xs.len() {
        assert(xs.take(n + 1).drop_last() =~= xs.take(n));
        lemma_all_links_prefix_none(xs, n + 1);
    } else {
        assert(xs.take(n) =~= xs);
    }
}

fn names_to_json(t: &Vec<Name>) -> (j: Json)
    ensures
        j@ == names_json(names_view(t@)),
{
    let mut out: Vec<Json> = Vec::new();
    let mut i: usize = 0;
    while i < t.len()
        invariant
            0 <= i <= t.len(),
            items_view(out@) == t@.take(i as int).map_values(|n: Name| name_json(n@)),
        decreases t.len() - i,
    {
        let ghost before = out@;
        let e = t[i].to_json();
        let ghost ge = e;
        out.push(e);
        proof {
            crate::json::lemma_items_view_push(before, ge);
        }
        i = i + 1;
        assert(items_view(out@) =~= t@.take(i as int).map_values(|n: Name| name_json(n@)));
    }
    assert(t@.take(i as int) =~= t@);
    assert(t@.map_values(|n: Name| name_json(n@)) =~= names_view(t@).map_values(
        |n: NameView| name_json(n),
    ));
    Json::Array(out)
}

fn links_to_json(t: &Vec<Link>) -> (j: Json)
    ensures
        j@ == links_json(links_view(t@)),
{
    let mut out: Vec<Json> = Vec::new();
    let mut i: usize = 0;
    while i < t.len()
        invariant
            0 <= i <= t.len(),
            items_view(out@) == t@.take(i as int).map_values(|l: Link| link_json(l@)),
        decreases t.len() - i,
    {
        let ghost before = out@;
        let e = t[i].to_json();
        let ghost ge = e;
        out.push(e);
        proof {
            crate::json::lemma_items_view_push(before, ge);
        }
        i = i + 1;
        assert(items_view(out@) =~= t@.take(i as int).map_values(|l: Link| link_json(l@)));
    }
    assert(t@.take(i as int) =~= t@);
    assert(t@.map_values(|l: Link| link_json(l@)) =~= links_view(t@).map_values(
        |l: LinkView| link_json(l),
    ));
    Json::Array(out)
}

fn wide16_exec(o: Option<u16>) -> (r: Option<u64>)
    ensures
        r == wide16(o),
{
    match o {
        Some(n) => Some(n as u64),
        None => None,
    }
}

fn wide8_exec(o: Option<u8>) -> (r: Option<u64>)
    ensures
        r == wide8(o),
{
    match o {
        Some(n) => Some(n as u64),
        None => None,
    }
}

fn narrow16(o: Option<u64>) -> (r: Option<u16>)
    ensures
        r == as_u16(o),
{
    match o {
        Some(n) => Some(n as u16),
        None => None,
    }
}

fn narrow8(o: Option<u64>) -> (r: Option<u8>)
    ensures
        r == as_u8(o),
{
    match o {
        Some(n) => Some(n as u8),
        None => None,
    }
}

impl DoiNode {
    /// The stored form of this record.
    pub fn to_json(&self) -> (j: Json)
        ensures
            j@ == node_json(self@),
    {
        let mut out: Vec<(String, Json)> = Vec::new();
        out.push(member_of("folder", Json::Str(self.folder.clone())));
        out.push(member_of("doi", opt_text_to_json(&self.doi)));
        out.push(member_of("publisher", opt_text_to_json(&self.publisher)));
        out.push(member_of("pub_year", opt_count_to_json(wide16_exec(self.pub_year))));
        out.push(member_of("pub_month", opt_count_to_json(wide8_exec(self.pub_month))));
        out.push(member_of("pub_day", opt_count_to_json(wide8_exec(self.pub_day))));
        out.push(member_of("pol_year", opt_count_to_json(wide16_exec(self.pol_year))));
        out.push(member_of("pol_month", opt_count_to_json(wide8_exec(self.pol_month))));
        out.push(member_of("pol_day", opt_count_to_json(wide8_exec(self.pol_day))));
        out.push(member_of("create_year", opt_count_to_json(wide16_exec(self.create_year))));
        out.push(member_of("create_month", opt_count_to_json(wide8_exec(self.create_month))));
        out.push(member_of("create_day", opt_count_to_json(wide8_exec(self.create_day))));
        out.push(member_of("titles", texts_to_json(&self.titles)));
        out.push(member_of("summary", opt_text_to_json(&self.summary)));
        out.push(member_of("typ", opt_text_to_json(&self.typ)));
        out.push(member_of("authors", names_to_json(&self.authors)));
        out.push(member_of("editors", names_to_json(&self.editors)));
        out.push(member_of("links", links_to_json(&self.links)));
        proof {
            lemma_entries_view(out@);
        }
        assert(entries_view(out@) =~= node_json(self@)->Object_0);
        Json::Object(out)
    }

    /// Decodes a stored DOI record.
    pub fn from_json(v: &Json) -> (r: Option<DoiNode>)
        ensures
            opt_node_view(r) == node_decoded(v@),
    {
        if !fits(v, 18) {
            return None;
        }
        let folder = match read_text(v, 0, "folder") {
            Some(x) => x,
            None => return None,
        };
        let doi = match read_opt_text(v, 1, "doi") {
            Some(x) => x,
            None => return None,
        };
        let publisher = match read_opt_text(v, 2, "publisher") {
            Some(x) => x,
            None => return None,
        };
        let pub_year = match read_opt_count(v, 3, "pub_year", 0xffff) {
            Some(x) => narrow16(x),
            None => return None,
        };
        let pub_month = match read_opt_count(v, 4, "pub_month", 0xff) {
            Some(x) => narrow8(x),
            None => return None,
        };
        let pub_day = match read_opt_count(v, 5, "pub_day", 0xff) {
            Some(x) => narrow8(x),
            None => return None,
        };
        let pol_year = match read_opt_count(v, 6, "pol_year", 0xffff) {
            Some(x) => narrow16(x),
            None => return None,
        };
        let pol_month = match read_opt_count(v, 7, "pol_month", 0xff) {
            Some(x) => narrow8(x),
            None => return None,
        };
        let pol_day = match read_opt_count(v, 8, "pol_day", 0xff) {
            Some(x) => narrow8(x),
            None => return None,
        };
        let create_year = match read_opt_count(v, 9, "create_year", 0xffff) {
            Some(x) => narrow16(x),
            None => return None,
        };
        let create_month = match read_opt_count(v, 10, "create_month", 0xff) {
            Some(x) => narrow8(x),
            None => return None,
        };
        let create_day = match read_opt_count(v, 11, "create_day", 0xff) {
            Some(x) => narrow8(x),
            None => return None,
        };
        let titles = match read_texts(v, 12, "titles") {
            Some(x) => x,
            None => return None,
        };
        let summary = match read_opt_text(v, 13, "summary") {
            Some(x) => x,
            None => return None,
        };
        let typ = match read_opt_text(v, 14, "typ") {
            Some(x) => x,
            None => return None,
        };
        let authors = match read_names(v, 15, "authors") {
            Some(x) => x,
            None => return None,
        };
        let editors = match read_names(v, 16, "editors") {
            Some(x) => x,
            None => return None,
        };
        let links = match read_links(v, 17, "links") {
            Some(x) => x,
            None => return None,
        };
        Some(
            DoiNode {
                folder,
                doi,
                publisher,
                pub_year,
                pub_month,
                pub_day,
                pol_year,
                pol_month,
                pol_day,
                create_year,
                create_month,
                create_day,
                titles,
                summary,
                typ,
                authors,
                editors,
                links,
            },
        )
    }
}

// ---------------------------------------------------------------------------
// Stored records read back as written
// ---------------------------------------------------------------------------

/// A stored person reads back as the same person.
pub proof fn name_round_trip(n: NameView)
    ensures
        name_decoded(name_json(n)) == Some(n),
{
    reveal_strlit("suffix");
    assert("suffix"@.len() == 6);
    assert("suffix"@[0] == 's');
    assert("suffix"@[1] == 'u');
    assert("suffix"@[2] == 'f');
    assert("suffix"@[3] == 'f');
    reveal_strlit("given");
    assert("given"@.len() == 5);
    assert("given"@[0] == 'g');
    assert("given"@[1] == 'i');
    assert("given"@[2] == 'v');
    assert("given"@[3] == 'e');
    reveal_strlit("family");
    assert("family"@.len() == 6);
    assert("family"@[0] == 'f');
    assert("family"@[1] == 'a');
    assert("family"@[2] == 'm');
    assert("family"@[3] == 'i');
    reveal_strlit("prefix");
    assert("prefix"@.len() == 6);
    assert("prefix"@[0] == 'p');
    assert("prefix"@[1] == 'r');
    assert("prefix"@[2] == 'e');
    assert("prefix"@[3] == 'f');
    reveal_strlit("name");
    assert("name"@.len() == 4);
    assert("name"@[0] == 'n');
    assert("name"@[1] == 'a');
    assert("name"@[2] == 'm');
    assert("name"@[3] == 'e');
    let es = name_json(n)->Object_0;
    lemma_entry_lookup_at(es, "suffix"@, 0);
    lemma_entry_lookup_at(es, "given"@, 1);
    lemma_entry_lookup_at(es, "family"@, 2);
    lemma_entry_lookup_at(es, "prefix"@, 3);
    lemma_entry_lookup_at(es, "name"@, 4);
}

/// A stored link reads back as the same link.
pub proof fn link_round_trip(l: LinkView)
    ensures
        link_decoded(link_json(l)) == Some(l),
{
    reveal_strlit("url");
    assert("url"@.len() == 3);
    assert("url"@[0] == 'u');
    assert("url"@[1] == 'r');
    assert("url"@[2] == 'l');
    reveal_strlit("ctype");
    assert("ctype"@.len() == 5);
    assert("ctype"@[0] == 'c');
    assert("ctype"@[1] == 't');
    assert("ctype"@[2] == 'y');
    assert("ctype"@[3] == 'p');
    reveal_strlit("cversion");
    assert("cversion"@.len() == 8);
    assert("cversion"@[0] == 'c');
    assert("cversion"@[1] == 'v');
    assert("cversion"@[2] == 'e');
    assert("cversion"@[3] == 'r');
    reveal_strlit("app");
    assert("app"@.len() == 3);
    assert("app"@[0] == 'a');
    assert("app"@[1] == 'p');
    assert("app"@[2] == 'p');
    let es = link_json(l)->Object_0;
    lemma_entry_lookup_at(es, "url"@, 0);
    lemma_entry_lookup_at(es, "ctype"@, 1);
    lemma_entry_lookup_at(es, "cversion"@, 2);
    lemma_entry_lookup_at(es, "app"@, 3);
}

proof fn lemma_all_names_of_json(s: Seq<NameView>)
    ensures
        all_names(s.map_values(|n: NameView| name_json(n))) == Some(s),
    decreases s.len(),
{
    if s.len() > 0 {
        lemma_all_names_of_json(s.drop_last());
        name_round_trip(s.last());
        assert(s.map_values(|n: NameView| name_json(n)).drop_last() =~= s.drop_last().map_values(
            |n: NameView| name_json(n),
        ));
        assert(s.drop_last().push(s.last()) =~= s);
    }
}

proof fn lemma_all_links_of_json(s: Seq<LinkView>)
    ensures
        all_links(s.map_values(|l: LinkView| link_json(l))) == Some(s),
    decreases s.len(),
{
    if s.len() > 0 {
        lemma_all_links_of_json(s.drop_last());
        link_round_trip(s.last());
        assert(s.map_values(|l: LinkView| link_json(l)).drop_last() =~= s.drop_last().map_values(
            |l: LinkView| link_json(l),
        ));
        assert(s.drop_last().push(s.last()) =~= s);
    }
}

/// A stored DOI record reads back as the same record.
#[verifier::rlimit(50)]
#[verifier::spinoff_prover]
pub proof fn node_round_trip(n: DoiNodeView)
    ensures
        node_decoded(node_json(n)) == Some(n),
{
    // The member names differ in their lengths or in one of the characters named here.
    reveal_strlit("folder");
    assert("folder"@.len() == 6);
    assert("folder"@[0] == 'f');
    reveal_strlit("doi");
    assert("doi"@.len() == 3);
    assert("doi"@[0] == 'd');
    reveal_strlit("publisher");
    assert("publisher"@.len() == 9);
    assert("publisher"@[0] == 'p');
    assert("publisher"@[1] == 'u');
    assert("publisher"@[3] == 'l');
    reveal_strlit("pub_year");
    assert("pub_year"@.len() == 8);
    assert("pub_year"@[0] == 'p');
    assert("pub_year"@[1] == 'u');
    reveal_strlit("pub_month");
    assert("pub_month"@.len() == 9);
    assert("pub_month"@[0] == 'p');
    assert("pub_month"@[1] == 'u');
    assert("pub_month"@[3] == '_');
    reveal_strlit("pub_day");
    assert("pub_day"@.len() == 7);
    assert("pub_day"@[0] == 'p');
    assert("pub_day"@[1] == 'u');
    reveal_strlit("pol_year");
    assert("pol_year"@.len() == 8);
    assert("pol_year"@[0] == 'p');
    assert("pol_year"@[1] == 'o');
    reveal_strlit("pol_month");
    assert("pol_month"@.len() == 9);
    assert("pol_month"@[0] == 'p');
    assert("pol_month"@[1] == 'o');
    reveal_strlit("pol_day");
    assert("pol_day"@.len() == 7);
    assert("pol_day"@[0] == 'p');
    assert("pol_day"@[1] == 'o');
    reveal_strlit("create_year");
    assert("create_year"@.len() == 11);
    assert("create_year"@[0] == 'c');
    reveal_strlit("create_month");
    assert("create_month"@.len() == 12);
    assert("create_month"@[0] == 'c');
    reveal_strlit("create_day");
    assert("create_day"@.len() == 10);
    assert("create_day"@[0] == 'c');
    reveal_strlit("titles");
    assert("titles"@.len() == 6);
    assert("titles"@[0] == 't');
    reveal_strlit("summary");
    assert("summary"@.len() == 7);
    assert("summary"@[0] == 's');
    reveal_strlit("typ");
    assert("typ"@.len() == 3);
    assert("typ"@[0] == 't');
    reveal_strlit("authors");
    assert("authors"@.len() == 7);
    assert("authors"@[0] == 'a');
    reveal_strlit("editors");
    assert("editors"@.len() == 7);
    assert("editors"@[0] == 'e');
    reveal_strlit("links");
    assert("links"@.len() == 5);
    assert("links"@[0] == 'l');
    let es = node_json(n)->Object_0;
    lemma_entry_lookup_at(es, "folder"@, 0);
    lemma_entry_lookup_at(es, "doi"@, 1);
    lemma_entry_lookup_at(es, "publisher"@, 2);
    lemma_entry_lookup_at(es, "pub_year"@, 3);
    lemma_entry_lookup_at(es, "pub_month"@, 4);
    lemma_entry_lookup_at(es, "pub_day"@, 5);
    lemma_entry_lookup_at(es, "pol_year"@, 6);
    lemma_entry_lookup_at(es, "pol_month"@, 7);
    lemma_entry_lookup_at(es, "pol_day"@, 8);
    lemma_entry_lookup_at(es, "create_year"@, 9);
    lemma_entry_lookup_at(es, "create_month"@, 10);
    lemma_entry_lookup_at(es, "create_day"@, 11);
    lemma_entry_lookup_at(es, "titles"@, 12);
    lemma_entry_lookup_at(es, "summary"@, 13);
    lemma_entry_lookup_at(es, "typ"@, 14);
    lemma_entry_lookup_at(es, "authors"@, 15);
    lemma_entry_lookup_at(es, "editors"@, 16);
    lemma_entry_lookup_at(es, "links"@, 17);
    lemma_all_texts_of_json(n.titles);
    lemma_all_names_of_json(n.authors);
    lemma_all_names_of_json(n.editors);
    lemma_all_links_of_json(n.links);
}

// ---------------------------------------------------------------------------
// What a record made from a crossref reply holds
// ---------------------------------------------------------------------------

/// The date fields of a record that a date member of a crossref message fills:
/// `published-print` the print date, `published-online` the online date,
/// `created` the creation date.
pub open spec fn date_fields(n: DoiNodeView, key: Seq<char>) -> (Option<u16>, Option<u8>, Option<u8>) {
    if key == "published-print"@ {
        (n.pub_year, n.pub_month, n.pub_day)
    } else if key == "published-online"@ {
        (n.pol_year, n.pol_month, n.pol_day)
    } else {
        (n.create_year, n.create_month, n.create_day)
    }
}

/// A date of a record is read from the first row of the reply's
/// `message[key]["date-parts"]`: with a `u64` year `y` and a `u64` month `mo`
/// there, the year is `y` and the month `mo`, whatever follows them, and the day
/// is the third part when that is a `u64`, else none; with a year but no month
/// the record has the year alone; with no year it has no date. Each part is
/// narrowed to its field's width.
pub proof fn dates_come_from_date_parts(
    folder: Seq<char>,
    doi: Seq<char>,
    resp: JsonView,
    key: Seq<char>,
    y: u64,
    mo: u64,
)
    requires
        key == "published-print"@ || key == "published-online"@ || key == "created"@,
    ensures
        ({
            let part = |i: int| element(element(member(member(member(Some(resp), "message"@), key), "date-parts"@), 0), i);
            let got = date_fields(crossref_node(folder, doi, resp), key);
            &&& (part(0) == Some(JsonView::Num(NumberView::PosInt(y))) && part(1) == Some(
                JsonView::Num(NumberView::PosInt(mo)),
            )) ==> got.0 == Some(y as u16) && got.1 == Some(mo as u8) && got.2 == match part(2) {
                Some(JsonView::Num(NumberView::PosInt(d))) => Some(d as u8),
                _ => None,
            }
            &&& (part(0) == Some(JsonView::Num(NumberView::PosInt(y))) && !(part(1) matches Some(
                JsonView::Num(NumberView::PosInt(_)),
            ))) ==> got == (Some(y as u16), None::<u8>, None::<u8>)
            &&& !(part(0) matches Some(JsonView::Num(NumberView::PosInt(_)))) ==> got == (
                None::<u16>,
                None::<u8>,
                None::<u8>,
            )
        }),
{
    reveal_strlit("published-print");
    reveal_strlit("published-online");
    reveal_strlit("created");
}

/// The people of a record are those of the reply's `message.author` and
/// `message.editor` arrays, in order: each keeps the entry's `given`, `family`,
/// `name`, `prefix` and `suffix` members that are strings. Without such an array
/// the record names nobody in that role.
pub proof fn people_come_from_author_and_editor(folder: Seq<char>, doi: Seq<char>, resp: JsonView)
    ensures
        ({
            let n = crossref_node(folder, doi, resp);
            let authors = member(member(Some(resp), "message"@), "author"@);
            let editors = member(member(Some(resp), "message"@), "editor"@);
            &&& (authors matches Some(JsonView::Array(items)) ==> n.authors.len() == items.len() && forall|
                i: int,
            |
                0 <= i < items.len() ==> #[trigger] n.authors[i] == (NameView {
                    given: text_of(member(Some(items[i]), "given"@)),
                    family: text_of(member(Some(items[i]), "family"@)),
                    name: text_of(member(Some(items[i]), "name"@)),
                    prefix: text_of(member(Some(items[i]), "prefix"@)),
                    suffix: text_of(member(Some(items[i]), "suffix"@)),
                }))
            &&& (!(authors matches Some(JsonView::Array(_))) ==> n.authors.len() == 0)
            &&& (editors matches Some(JsonView::Array(items)) ==> n.editors.len() == items.len() && forall|
                i: int,
            |
                0 <= i < items.len() ==> #[trigger] n.editors[i] == (NameView {
                    given: text_of(member(Some(items[i]), "given"@)),
                    family: text_of(member(Some(items[i]), "family"@)),
                    name: text_of(member(Some(items[i]), "name"@)),
                    prefix: text_of(member(Some(items[i]), "prefix"@)),
                    suffix: text_of(member(Some(items[i]), "suffix"@)),
                }))
            &&& (!(editors matches Some(JsonView::Array(_))) ==> n.editors.len() == 0)
        }),
{
}

/// The plain fields of a record made from a crossref reply: the folder and DOI
/// asked for, the reply's `message.publisher` and `message.type` when they are
/// strings, no abstract unless `message.abstract` is a string, and no links.
pub proof fn plain_fields_come_from_the_message(folder: Seq<char>, doi: Seq<char>, resp: JsonView)
    ensures
        ({
            let n = crossref_node(folder, doi, resp);
            let m = member(Some(resp), "message"@);
            &&& n.folder == folder
            &&& n.doi == Some(doi)
            &&& n.publisher == text_of(member(m, "publisher"@))
            &&& n.typ == text_of(member(m, "type"@))
            &&& (n.summary is Some <==> member(m, "abstract"@) matches Some(JsonView::Str(_)))
            &&& n.links.len() == 0
        }),
{
}

proof fn lemma_strings_of_strings(items: Seq<JsonView>)
    requires
        forall|i: int| 0 <= i < items.len() ==> #[trigger] items[i] is Str,
    ensures
        strings_in(items).len() == items.len(),
        forall|i: int| 0 <= i < items.len() ==> #[trigger] strings_in(items)[i] == items[i]->Str_0,
    decreases items.len(),
{
    if items.len() > 0 {
        let init = items.drop_last();
        assert forall|i: int| 0 <= i < init.len() implies #[trigger] init[i] is Str by {
            assert(init[i] == items[i]);
        }
        lemma_strings_of_strings(init);
        assert(items.last() is Str);
        assert forall|i: int| 0 <= i < items.len() implies #[trigger] strings_in(items)[i] == items[i]->Str_0 by {
            if i < items.len() - 1 {
                assert(init[i] == items[i]);
            }
        }
    }
}

/// The titles of a record are the reply's `message.title` strings, in order: when
/// every entry of that array is a string, the titles are those strings; without
/// such an array there are none.
pub proof fn titles_come_from_the_title_array(folder: Seq<char>, doi: Seq<char>, resp: JsonView)
    ensures
        ({
            let n = crossref_node(folder, doi, resp);
            let t = member(member(Some(resp), "message"@), "title"@);
            &&& (t matches Some(JsonView::Array(items)) ==> (forall|i: int|
                0 <= i < items.len() ==> #[trigger] items[i] is Str) ==> n.titles.len() == items.len()
                && forall|i: int| 0 <= i < items.len() ==> #[trigger] n.titles[i] == items[i]->Str_0)
            &&& (!(t matches Some(JsonView::Array(_))) ==> n.titles.len() == 0)
        }),
{
    let t = member(member(Some(resp), "message"@), "title"@);
    if let Some(JsonView::Array(items)) = t {
        if forall|i: int| 0 <= i < items.len() ==> #[trigger] items[i] is Str {
            lemma_strings_of_strings(items);
        }
    }
}

} // verus!
