//! How the actor's records are written as JSON and read back: a record is an
//! object with one member per field, in declaration order. A record is also read
//! from an array holding its fields in order, as serde's derived deserializer
//! accepts; members that name no field are ignored.

use vstd::prelude::*;
use crate::json::{
    entry_lookup, get_element, get_member, items_view, json_view, lemma_items_view, opt_view, Json,
    JsonView, Number, NumberView,
};
use crate::text::opt_text;

verus! {

/// Whether `v` can hold a record of `n` fields: an object, or an array of at most `n` items.
pub open spec fn fits_record(v: JsonView, n: nat) -> bool {
    match v {
        JsonView::Object(_) => true,
        JsonView::Array(items) => items.len() <= n,
        _ => false,
    }
}

/// The value given for field number `idx`, named `name`, of a record written as `v`.
pub open spec fn slot(v: JsonView, idx: int, name: Seq<char>) -> Option<JsonView> {
    match v {
        JsonView::Object(entries) => entry_lookup(entries, name),
        JsonView::Array(items) => if 0 <= idx < items.len() {
            Some(items[idx])
        } else {
            None
        },
        _ => None,
    }
}

/// A field of type `String`; nothing when absent or not a string.
pub open spec fn text_field(v: JsonView, idx: int, name: Seq<char>) -> Option<Seq<char>> {
    match slot(v, idx, name) {
        Some(JsonView::Str(s)) => Some(s),
        _ => None,
    }
}

/// A field of type `String` that defaults to the empty string when absent.
pub open spec fn text_field_or_empty(v: JsonView, idx: int, name: Seq<char>) -> Option<Seq<char>> {
    match slot(v, idx, name) {
        None => Some(Seq::empty()),
        Some(JsonView::Str(s)) => Some(s),
        _ => None,
    }
}

/// A field of type `bool` that defaults to `false` when absent.
pub open spec fn flag_field_or_false(v: JsonView, idx: int, name: Seq<char>) -> Option<bool> {
    match slot(v, idx, name) {
        None => Some(false),
        Some(JsonView::Bool(b)) => Some(b),
        _ => None,
    }
}

/// A field of type `u64`.
pub open spec fn count_field(v: JsonView, idx: int, name: Seq<char>) -> Option<u64> {
    match slot(v, idx, name) {
        Some(JsonView::Num(NumberView::PosInt(n))) => Some(n),
        _ => None,
    }
}

/// A field of type `Option<String>`: absent from an object or `null` is `None`.
pub open spec fn opt_text_field(v: JsonView, idx: int, name: Seq<char>) -> Option<Option<Seq<char>>> {
    match slot(v, idx, name) {
        None => if v is Object {
            Some(None)
        } else {
            None
        },
        Some(JsonView::Null) => Some(None),
        Some(JsonView::Str(s)) => Some(Some(s)),
        _ => None,
    }
}

/// A field of an optional unsigned type whose largest value is `max`.
pub open spec fn opt_count_field(v: JsonView, idx: int, name: Seq<char>, max: u64) -> Option<
    Option<u64>,
> {
    match slot(v, idx, name) {
        None => if v is Object {
            Some(None)
        } else {
            None
        },
        Some(JsonView::Null) => Some(None),
        Some(JsonView::Num(NumberView::PosInt(n))) => if n <= max {
            Some(Some(n))
        } else {
            None
        },
        _ => None,
    }
}

/// The strings of an array whose items are all strings.
pub open spec fn all_texts(items: Seq<JsonView>) -> Option<Seq<Seq<char>>>
    decreases items.len(),
{
    if items.len() == 0 {
        Some(Seq::empty())
    } else {
        match all_texts(items.drop_last()) {
            None => None,
            Some(init) => match items.last() {
                JsonView::Str(s) => Some(init.push(s)),
                _ => None,
            },
        }
    }
}

/// A field of type `Vec<String>`.
pub open spec fn texts_field(v: JsonView, idx: int, name: Seq<char>) -> Option<Seq<Seq<char>>> {
    match slot(v, idx, name) {
        Some(JsonView::Array(items)) => all_texts(items),
        _ => None,
    }
}

/// The JSON form of an optional string.
pub open spec fn opt_text_json(o: Option<Seq<char>>) -> JsonView {
    match o {
        Some(s) => JsonView::Str(s),
        None => JsonView::Null,
    }
}

/// The JSON form of an optional count.
pub open spec fn opt_count_json(o: Option<u64>) -> JsonView {
    match o {
        Some(n) => JsonView::Num(NumberView::PosInt(n)),
        None => JsonView::Null,
    }
}

/// The JSON array of strings.
pub open spec fn texts_json(s: Seq<Seq<char>>) -> JsonView {
    JsonView::Array(s.map_values(|t: Seq<char>| JsonView::Str(t)))
}

pub proof fn lemma_all_texts_of_json(s: Seq<Seq<char>>)
    ensures
        all_texts(s.map_values(|t: Seq<char>| JsonView::Str(t))) == Some(s),
    decreases s.len(),
{
    if s.len() > 0 {
        lemma_all_texts_of_json(s.drop_last());
        assert(s.map_values(|t: Seq<char>| JsonView::Str(t)).drop_last() =~= s.drop_last().map_values(
            |t: Seq<char>| JsonView::Str(t),
        ));
        assert(s.drop_last().push(s.last()) =~= s);
    }
}

/// Whether `v` can hold a record of `n` fields.
pub fn fits(v: &Json, n: usize) -> (r: bool)
    ensures
        r == fits_record(v@, n as nat),
{
    match v {
        Json::Object(_) => true,
        Json::Array(items) => {
            proof {
                lemma_items_view(items@);
            }
            items.len() <= n
        },
        _ => false,
    }
}

/// The value given for field number `idx`, named `name`.
pub fn slot_of<'a>(v: &'a Json, idx: usize, name: &str) -> (r: Option<&'a Json>)
    ensures
        opt_view(r) == slot(v@, idx as int, name@),
{
    match v {
        Json::Object(_) => get_member(Some(v), name),
        Json::Array(_) => get_element(Some(v), idx),
        _ => None,
    }
}

/// Reads a `String` field.
pub fn read_text(v: &Json, idx: usize, name: &str) -> (r: Option<String>)
    ensures
        match r {
            Some(s) => text_field(v@, idx as int, name@) == Some(s@),
            None => text_field(v@, idx as int, name@) is None,
        },
{
    match slot_of(v, idx, name) {
        Some(Json::Str(s)) => Some(s.clone()),
        _ => None,
    }
}

/// Reads a `String` field that defaults to empty.
pub fn read_text_or_empty(v: &Json, idx: usize, name: &str) -> (r: Option<String>)
    ensures
        match r {
            Some(s) => text_field_or_empty(v@, idx as int, name@) == Some(s@),
            None => text_field_or_empty(v@, idx as int, name@) is None,
        },
{
    match slot_of(v, idx, name) {
        None => Some(String::new()),
        Some(Json::Str(s)) => Some(s.clone()),
        _ => None,
    }
}

/// Reads a `bool` field that defaults to `false`.
pub fn read_flag_or_false(v: &Json, idx: usize, name: &str) -> (r: Option<bool>)
    ensures
        r == flag_field_or_false(v@, idx as int, name@),
{
    match slot_of(v, idx, name) {
        None => Some(false),
        Some(Json::Bool(b)) => Some(*b),
        _ => None,
    }
}

/// Reads a `u64` field.
pub fn read_count(v: &Json, idx: usize, name: &str) -> (r: Option<u64>)
    ensures
        r == count_field(v@, idx as int, name@),
{
    match slot_of(v, idx, name) {
        Some(Json::Num(Number::PosInt(n))) => Some(*n),
        _ => None,
    }
}

/// Reads an `Option<String>` field.
pub fn read_opt_text(v: &Json, idx: usize, name: &str) -> (r: Option<Option<String>>)
    ensures
        match r {
            Some(o) => opt_text_field(v@, idx as int, name@) == Some(opt_text(o)),
            None => opt_text_field(v@, idx as int, name@) is None,
        },
{
    match slot_of(v, idx, name) {
        None => match v {
            Json::Object(_) => Some(None),
            _ => None,
        },
        Some(Json::Null) => Some(None),
        Some(Json::Str(s)) => Some(Some(s.clone())),
        _ => None,
    }
}

/// Reads an optional count no larger than `max`.
pub fn read_opt_count(v: &Json, idx: usize, name: &str, max: u64) -> (r: Option<Option<u64>>)
    ensures
        r == opt_count_field(v@, idx as int, name@, max),
{
    match slot_of(v, idx, name) {
        None => match v {
            Json::Object(_) => Some(None),
            _ => None,
        },
        Some(Json::Null) => Some(None),
        Some(Json::Num(Number::PosInt(n))) => if *n <= max {
            Some(Some(*n))
        } else {
            None
        },
        _ => None,
    }
}

/// Reads a `Vec<String>` field.
pub fn read_texts(v: &Json, idx: usize, name: &str) -> (r: Option<Vec<String>>)
    ensures
        match r {
            Some(t) => texts_field(v@, idx as int, name@) == Some(t@.map_values(|s: String| s@)),
            None => texts_field(v@, idx as int, name@) is None,
        },
{
    match slot_of(v, idx, name) {
        Some(Json::Array(items)) => {
            proof {
                lemma_items_view(items@);
            }
            let ghost xs = items_view(items@);
            let mut out: Vec<String> = Vec::new();
            let mut i: usize = 0;
            assert(out@.map_values(|s: String| s@) =~= Seq::<Seq<char>>::empty());
            assert(xs.take(0) =~= Seq::<JsonView>::empty());
            while i < items.len()
                invariant
                    0 <= i <= items.len(),
                    xs == items_view(items@),
                    xs.len() == items.len(),
                    forall|k: int| 0 <= k < items.len() ==> #[trigger] xs[k] == json_view(items@[k]),
                    all_texts(xs.take(i as int)) == Some(out@.map_values(|s: String| s@)),
                    slot(v@, idx as int, name@) == Some(JsonView::Array(xs)),
                decreases items.len() - i,
            {
                assert(xs.take(i + 1).drop_last() =~= xs.take(i as int));
                assert(xs.take(i + 1).last() == json_view(items@[i as int]));
                match &items[i] {
                    Json::Str(s) => {
                        let ghost before = out@;
                        out.push(s.clone());
                        assert(out@.map_values(|s: String| s@) =~= before.map_values(|s: String| s@).push(
                            s@,
                        ));
                    },
                    _ => {
                        proof {
                            lemma_all_texts_prefix_none(xs, i + 1);
                        }
                        return None;
                    },
                }
                i = i + 1;
            }
            assert(xs.take(i as int) =~= xs);
            Some(out)
        },
        _ => None,
    }
}

/// Once a prefix is not all strings, the whole array is not.
pub proof fn lemma_all_texts_prefix_none(xs: Seq<JsonView>, n: int)
    requires
        0 <= n <= xs.len(),
        all_texts(xs.take(n)) is None,
    ensures
        all_texts(xs) is None,
    decreases xs.len() - n,
{
    if n < xs.len() {
        assert(xs.take(n + 1).drop_last() =~= xs.take(n));
        lemma_all_texts_prefix_none(xs, n + 1);
    } else {
        assert(xs.take(n) =~= xs);
    }
}

/// The JSON form of an optional string.
pub fn opt_text_to_json(o: &Option<String>) -> (j: Json)
    ensures
        j@ == opt_text_json(opt_text(*o)),
{
    match o {
        Some(s) => Json::Str(s.clone()),
        None => Json::Null,
    }
}

/// The JSON form of an optional count.
pub fn opt_count_to_json(o: Option<u64>) -> (j: Json)
    ensures
        j@ == opt_count_json(o),
{
    match o {
        Some(n) => Json::Num(Number::PosInt(n)),
        None => Json::Null,
    }
}

/// The JSON array of strings.
pub fn texts_to_json(t: &Vec<String>) -> (j: Json)
    ensures
        j@ == texts_json(t@.map_values(|s: String| s@)),
{
    let mut out: Vec<Json> = Vec::new();
    let mut i: usize = 0;
    while i < t.len()
        invariant
            0 <= i <= t.len(),
            items_view(out@) == t@.take(i as int).map_values(|s: String| JsonView::Str(s@)),
        decreases t.len() - i,
    {
        let ghost before = out@;
        let e = Json::Str(t[i].clone());
        let ghost ge = e;
        out.push(e);
        proof {
            crate::json::lemma_items_view_push(before, ge);
        }
        i = i + 1;
        assert(items_view(out@) =~= t@.take(i as int).map_values(|s: String| JsonView::Str(s@)));
    }
    assert(t@.take(i as int) =~= t@);
    assert(t@.map_values(|s: String| JsonView::Str(s@)) =~= t@.map_values(|s: String| s@).map_values(
        |x: Seq<char>| JsonView::Str(x),
    ));
    Json::Array(out)
}

/// A member of a record: its name and value.
pub fn member_of(name: &str, value: Json) -> (e: (String, Json))
    ensures
        e.0@ == name@,
        e.1 == value,
{
    (String::from_str(name), value)
}

} // verus!
