//! JSON values as the actor reads and writes them, with the lookups that
//! `serde_json::Value`'s indexing performs.

use vstd::prelude::*;
use crate::text::{chars_of, same_chars};

verus! {

/// A JSON number, as `serde_json` keeps it: a non-negative integer, a negative
/// integer, or a floating-point number held by its decimal text.
#[derive(Debug, PartialEq)]
pub enum Number {
    PosInt(u64),
    NegInt(i64),
    Float(String),
}

/// A JSON value. Object entries keep their order; a parsed object has no
/// repeated key.
#[derive(Debug, PartialEq)]
pub enum Json {
    Null,
    Bool(bool),
    Num(Number),
    Str(String),
    Array(Vec<Json>),
    Object(Vec<(String, Json)>),
}

pub enum NumberView {
    PosInt(u64),
    NegInt(i64),
    Float(Seq<char>),
}

/// The mathematical value of a JSON document.
pub enum JsonView {
    Null,
    Bool(bool),
    Num(NumberView),
    Str(Seq<char>),
    Array(Seq<JsonView>),
    Object(Seq<(Seq<char>, JsonView)>),
}

pub open spec fn number_view(n: Number) -> NumberView {
    match n {
        Number::PosInt(u) => NumberView::PosInt(u),
        Number::NegInt(i) => NumberView::NegInt(i),
        Number::Float(s) => NumberView::Float(s@),
    }
}

pub open spec fn json_view(j: Json) -> JsonView
    decreases j, 0nat,
{
    match j {
        Json::Null => JsonView::Null,
        Json::Bool(b) => JsonView::Bool(b),
        Json::Num(n) => JsonView::Num(number_view(n)),
        Json::Str(s) => JsonView::Str(s@),
        Json::Array(items) => JsonView::Array(items_view(items@)),
        Json::Object(entries) => JsonView::Object(entries_view(entries@)),
    }
}

pub open spec fn items_view(items: Seq<Json>) -> Seq<JsonView>
    decreases items, 1nat,
{
    if items.len() == 0 {
        Seq::empty()
    } else {
        items_view(items.subrange(0, items.len() - 1)).push(json_view(items[items.len() - 1]))
    }
}

pub open spec fn entries_view(entries: Seq<(String, Json)>) -> Seq<(Seq<char>, JsonView)>
    decreases entries, 1nat,
{
    if entries.len() == 0 {
        Seq::empty()
    } else {
        entries_view(entries.subrange(0, entries.len() - 1)).push(
            (entries[entries.len() - 1].0@, json_view(entries[entries.len() - 1].1)),
        )
    }
}

impl View for Json {
    type V = JsonView;

    open spec fn view(&self) -> JsonView {
        json_view(*self)
    }
}

pub proof fn lemma_items_view(items: Seq<Json>)
    ensures
        items_view(items).len() == items.len(),
        forall|i: int| 0 <= i < items.len() ==> #[trigger] items_view(items)[i] == json_view(items[i]),
    decreases items.len(),
{
    if items.len() > 0 {
        let init = items.subrange(0, items.len() - 1);
        lemma_items_view(init);
        assert forall|i: int| 0 <= i < items.len() implies #[trigger] items_view(items)[i]
            == json_view(items[i]) by {
            if i < items.len() - 1 {
                assert(init[i] == items[i]);
            }
        }
    }
}

pub proof fn lemma_entries_view(entries: Seq<(String, Json)>)
    ensures
        entries_view(entries).len() == entries.len(),
        forall|i: int|
            0 <= i < entries.len() ==> #[trigger] entries_view(entries)[i] == (
                entries[i].0@,
                json_view(entries[i].1),
            ),
    decreases entries.len(),
{
    if entries.len() > 0 {
        let init = entries.subrange(0, entries.len() - 1);
        lemma_entries_view(init);
        assert forall|i: int| 0 <= i < entries.len() implies #[trigger] entries_view(entries)[i]
            == (entries[i].0@, json_view(entries[i].1)) by {
            if i < entries.len() - 1 {
                assert(init[i] == entries[i]);
            }
        }
    }
}

pub proof fn lemma_items_view_push(items: Seq<Json>, j: Json)
    ensures
        items_view(items.push(j)) == items_view(items).push(json_view(j)),
{
    assert(items.push(j).subrange(0, items.len() as int) =~= items);
}

pub proof fn lemma_entries_view_push(entries: Seq<(String, Json)>, e: (String, Json))
    ensures
        entries_view(entries.push(e)) == entries_view(entries).push((e.0@, json_view(e.1))),
{
    assert(entries.push(e).subrange(0, entries.len() as int) =~= entries);
}

/// The value of the first entry named `key`.
pub open spec fn entry_lookup(entries: Seq<(Seq<char>, JsonView)>, key: Seq<char>) -> Option<
    JsonView,
>
    decreases entries.len(),
{
    if entries.len() == 0 {
        None
    } else if entries[0].0 == key {
        Some(entries[0].1)
    } else {
        entry_lookup(entries.drop_first(), key)
    }
}

/// The first entry named `k` is the one at `i` when no earlier entry has that name.
pub proof fn lemma_entry_lookup_at(entries: Seq<(Seq<char>, JsonView)>, k: Seq<char>, i: int)
    requires
        0 <= i < entries.len(),
        entries[i].0 == k,
        forall|j: int| 0 <= j < i ==> #[trigger] entries[j].0 != k,
    ensures
        entry_lookup(entries, k) == Some(entries[i].1),
    decreases i,
{
    if i > 0 {
        let rest = entries.drop_first();
        assert forall|j: int| 0 <= j < i - 1 implies #[trigger] rest[j].0 != k by {
            assert(rest[j] == entries[j + 1]);
        }
        lemma_entry_lookup_at(rest, k, i - 1);
    }
}

/// `v[key]` when `v` is an object holding `key`; nothing otherwise.
pub open spec fn member(v: Option<JsonView>, key: Seq<char>) -> Option<JsonView> {
    match v {
        Some(JsonView::Object(entries)) => entry_lookup(entries, key),
        _ => None,
    }
}

/// `v[i]` when `v` is an array longer than `i`; nothing otherwise.
pub open spec fn element(v: Option<JsonView>, i: int) -> Option<JsonView> {
    match v {
        Some(JsonView::Array(items)) => if 0 <= i < items.len() {
            Some(items[i])
        } else {
            None
        },
        _ => None,
    }
}

/// `v.as_str()`.
pub open spec fn text_of(v: Option<JsonView>) -> Option<Seq<char>> {
    match v {
        Some(JsonView::Str(s)) => Some(s),
        _ => None,
    }
}

/// `v.as_u64()`.
pub open spec fn count_of(v: Option<JsonView>) -> Option<u64> {
    match v {
        Some(JsonView::Num(NumberView::PosInt(n))) => Some(n),
        _ => None,
    }
}

/// `v.as_array()`.
pub open spec fn items_of(v: Option<JsonView>) -> Option<Seq<JsonView>> {
    match v {
        Some(JsonView::Array(items)) => Some(items),
        _ => None,
    }
}

/// The view of an optional reference to a JSON value.
pub open spec fn opt_view(v: Option<&Json>) -> Option<JsonView> {
    match v {
        Some(j) => Some(j@),
        None => None,
    }
}

/// `v[key]`: the value stored under `key` when `v` is an object that holds it.
pub fn get_member<'a>(v: Option<&'a Json>, key: &str) -> (r: Option<&'a Json>)
    ensures
        opt_view(r) == member(opt_view(v), key@),
{
    match v {
        Some(Json::Object(entries)) => {
            let k = chars_of(key);
            let mut i: usize = 0;
            assert(opt_view(v) == Some(JsonView::Object(entries_view(entries@))));
            proof {
                lemma_entries_view(entries@);
                assert(entries_view(entries@).skip(0) =~= entries_view(entries@));
            }
            while i < entries.len()
                invariant
                    0 <= i <= entries.len(),
                    k@ == key@,
                    opt_view(v) == Some(JsonView::Object(entries_view(entries@))),
                    entries_view(entries@).len() == entries.len(),
                    forall|j: int|
                        0 <= j < entries.len() ==> #[trigger] entries_view(entries@)[j] == (
                            entries@[j].0@,
                            json_view(entries@[j].1),
                        ),
                    entry_lookup(entries_view(entries@), key@) == entry_lookup(
                        entries_view(entries@).skip(i as int),
                        key@,
                    ),
                decreases entries.len() - i,
            {
                let ghost rest = entries_view(entries@).skip(i as int);
                let name = chars_of(entries[i].0.as_str());
                assert(rest.len() > 0);
                assert(rest[0] == entries_view(entries@)[i as int]);
                if same_chars(&name, &k) {
                    assert(rest[0].0 == key@);
                    assert(entry_lookup(rest, key@) == Some(rest[0].1));
                    assert(rest[0].1 == json_view(entries@[i as int].1));
                    return Some(&entries[i].1);
                }
                assert(rest.drop_first() =~= entries_view(entries@).skip(i + 1));
                i = i + 1;
            }
            None
        },
        _ => None,
    }
}

/// `v[i]`: the `i`-th item when `v` is an array longer than `i`.
pub fn get_element<'a>(v: Option<&'a Json>, i: usize) -> (r: Option<&'a Json>)
    ensures
        opt_view(r) == element(opt_view(v), i as int),
{
    match v {
        Some(Json::Array(items)) => {
            proof {
                lemma_items_view(items@);
            }
            if i < items.len() {
                Some(&items[i])
            } else {
                None
            }
        },
        _ => None,
    }
}

/// `v.as_str()`, copied.
pub fn get_text(v: Option<&Json>) -> (r: Option<String>)
    ensures
        match r {
            Some(s) => text_of(opt_view(v)) == Some(s@),
            None => text_of(opt_view(v)) is None,
        },
{
    match v {
        Some(Json::Str(s)) => Some(s.clone()),
        _ => None,
    }
}

/// `v.as_u64()`.
pub fn get_count(v: Option<&Json>) -> (r: Option<u64>)
    ensures
        r == count_of(opt_view(v)),
{
    match v {
        Some(Json::Num(Number::PosInt(n))) => Some(*n),
        _ => None,
    }
}

/// `v.as_array()`.
pub fn get_items<'a>(v: Option<&'a Json>) -> (r: Option<&'a Vec<Json>>)
    ensures
        match r {
            Some(items) => items_of(opt_view(v)) == Some(items_view(items@)),
            None => items_of(opt_view(v)) is None,
        },
{
    match v {
        Some(Json::Array(items)) => Some(items),
        _ => None,
    }
}

/// A copy of a JSON value.
pub fn clone_json(j: &Json) -> (r: Json)
    ensures
        r@ == j@,
    decreases j,
{
    match j {
        Json::Null => Json::Null,
        Json::Bool(b) => Json::Bool(*b),
        Json::Num(Number::PosInt(u)) => Json::Num(Number::PosInt(*u)),
        Json::Num(Number::NegInt(i)) => Json::Num(Number::NegInt(*i)),
        Json::Num(Number::Float(s)) => Json::Num(Number::Float(s.clone())),
        Json::Str(s) => Json::Str(s.clone()),
        Json::Array(items) => {
            let mut out: Vec<Json> = Vec::new();
            let mut i: usize = 0;
            while i < items.len()
                invariant
                    0 <= i <= items.len(),
                    *j == Json::Array(*items),
                    items_view(out@) == items_view(items@.take(i as int)),
                decreases items.len() - i,
            {
                proof {
                    assert(decreases_to!(*j => j->Array_0));
                    assert(decreases_to!(j->Array_0 => j->Array_0@));
                    assert(decreases_to!(j->Array_0@ => j->Array_0@[i as int]));
                    assert(decreases_to!(*j => items@[i as int]));
                }
                let ghost before = out@;
                let c = clone_json(&items[i]);
                let ghost gc = c;
                out.push(c);
                proof {
                    lemma_items_view_push(before, gc);
                    lemma_items_view_push(items@.take(i as int), items@[i as int]);
                    assert(items@.take(i + 1) =~= items@.take(i as int).push(items@[i as int]));
                }
                i = i + 1;
            }
            assert(items@.take(i as int) =~= items@);
            Json::Array(out)
        },
        Json::Object(entries) => {
            let mut out: Vec<(String, Json)> = Vec::new();
            let mut i: usize = 0;
            while i < entries.len()
                invariant
                    0 <= i <= entries.len(),
                    *j == Json::Object(*entries),
                    entries_view(out@) == entries_view(entries@.take(i as int)),
                decreases entries.len() - i,
            {
                proof {
                    assert(decreases_to!(*j => j->Object_0));
                    assert(decreases_to!(j->Object_0 => j->Object_0@));
                    assert(decreases_to!(j->Object_0@ => j->Object_0@[i as int]));
                    assert(decreases_to!(j->Object_0@[i as int] => j->Object_0@[i as int].1));
                    assert(decreases_to!(*j => entries@[i as int].1));
                }
                let ghost before = out@;
                let c = (entries[i].0.clone(), clone_json(&entries[i].1));
                let ghost gc = c;
                out.push(c);
                proof {
                    lemma_entries_view_push(before, gc);
                    lemma_entries_view_push(entries@.take(i as int), entries@[i as int]);
                    assert(entries@.take(i + 1) =~= entries@.take(i as int).push(entries@[i as int]));
                }
                i = i + 1;
            }
            assert(entries@.take(i as int) =~= entries@);
            Json::Object(out)
        },
    }
}

} // verus!
