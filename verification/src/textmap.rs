//! A map from strings to strings, kept as its entries in insertion order with no
//! key twice. It stands for the `HashMap<String, String>` values of the actor: the
//! DOIs of a folder and the folder index of a user.

use vstd::prelude::*;
use crate::json::{entries_view, json_view, lemma_entries_view, Json, JsonView};
use crate::text::same_text;

verus! {

pub type Pairs = Seq<(Seq<char>, Seq<char>)>;

/// No key occurs twice.
pub open spec fn unique_keys(s: Pairs) -> bool {
    forall|i: int, j: int| 0 <= i < j < s.len() ==> #[trigger] s[i].0 != #[trigger] s[j].0
}

/// The position of key `k`, or -1 when it is absent.
pub open spec fn key_pos(s: Pairs, k: Seq<char>) -> int
    decreases s.len(),
{
    if s.len() == 0 {
        -1
    } else if s.last().0 == k {
        s.len() - 1
    } else {
        key_pos(s.drop_last(), k)
    }
}

/// The value under key `k`.
pub open spec fn lookup(s: Pairs, k: Seq<char>) -> Option<Seq<char>> {
    if key_pos(s, k) >= 0 {
        Some(s[key_pos(s, k)].1)
    } else {
        None
    }
}

/// `s` with `k` mapped to `v`: the value replaced in place when `k` is present,
/// a new last entry otherwise.
pub open spec fn pairs_insert(s: Pairs, k: Seq<char>, v: Seq<char>) -> Pairs {
    if key_pos(s, k) >= 0 {
        s.update(key_pos(s, k), (k, v))
    } else {
        s.push((k, v))
    }
}

/// `s` without key `k`.
pub open spec fn pairs_remove(s: Pairs, k: Seq<char>) -> Pairs {
    if key_pos(s, k) >= 0 {
        s.remove(key_pos(s, k))
    } else {
        s
    }
}

/// Whether some entry holds the value `v`.
pub open spec fn has_value(s: Pairs, v: Seq<char>) -> bool {
    exists|i: int| 0 <= i < s.len() && #[trigger] s[i].1 == v
}

pub proof fn lemma_key_pos(s: Pairs, k: Seq<char>)
    ensures
        -1 <= key_pos(s, k) < s.len(),
        key_pos(s, k) >= 0 ==> s[key_pos(s, k)].0 == k,
        key_pos(s, k) < 0 ==> forall|i: int| 0 <= i < s.len() ==> #[trigger] s[i].0 != k,
    decreases s.len(),
{
    if s.len() > 0 {
        lemma_key_pos(s.drop_last(), k);
        if s.last().0 != k {
            assert forall|i: int| 0 <= i < s.len() && key_pos(s, k) < 0 implies #[trigger] s[i].0
                != k by {
                if i < s.len() - 1 {
                    assert(s.drop_last()[i] == s[i]);
                }
            }
        }
    }
}

/// With unique keys, the position of a key is the index that holds it.
pub proof fn lemma_key_pos_unique(s: Pairs, k: Seq<char>, i: int)
    requires
        unique_keys(s),
        0 <= i < s.len(),
        s[i].0 == k,
    ensures
        key_pos(s, k) == i,
{
    lemma_key_pos(s, k);
}

pub proof fn lemma_insert_unique(s: Pairs, k: Seq<char>, v: Seq<char>)
    requires
        unique_keys(s),
    ensures
        unique_keys(pairs_insert(s, k, v)),
        key_pos(pairs_insert(s, k, v), k) >= 0,
        lookup(pairs_insert(s, k, v), k) == Some(v),
        forall|k2: Seq<char>| k2 != k ==> lookup(pairs_insert(s, k, v), k2) == #[trigger] lookup(s, k2),
{
    lemma_key_pos(s, k);
    let t = pairs_insert(s, k, v);
    let p = key_pos(s, k);
    assert forall|i: int, j: int| 0 <= i < j < t.len() implies #[trigger] t[i].0 != #[trigger] t[j].0 by {
        if p >= 0 {
            assert(s[i].0 == t[i].0);
            assert(s[j].0 == t[j].0);
        } else {
            if j == s.len() {
                assert(s[i].0 != k);
            } else {
                assert(s[i].0 == t[i].0);
            }
        }
    }
    let q = if p >= 0 { p } else { s.len() as int };
    assert(t[q].0 == k);
    lemma_key_pos_unique(t, k, q);
    assert forall|k2: Seq<char>| k2 != k implies lookup(pairs_insert(s, k, v), k2) == #[trigger] lookup(
        s,
        k2,
    ) by {
        lemma_key_pos(s, k2);
        lemma_key_pos(t, k2);
        let p2 = key_pos(s, k2);
        if p2 >= 0 {
            assert(t[p2].0 == k2);
            lemma_key_pos_unique(t, k2, p2);
        } else {
            let p3 = key_pos(t, k2);
            if p3 >= 0 {
                if p3 < s.len() {
                    assert(s[p3].0 == t[p3].0);
                }
            }
        }
    }
}

pub proof fn lemma_remove_unique(s: Pairs, k: Seq<char>)
    requires
        unique_keys(s),
    ensures
        unique_keys(pairs_remove(s, k)),
        lookup(pairs_remove(s, k), k) is None,
        forall|k2: Seq<char>| k2 != k ==> lookup(pairs_remove(s, k), k2) == #[trigger] lookup(s, k2),
{
    lemma_key_pos(s, k);
    let t = pairs_remove(s, k);
    let p = key_pos(s, k);
    assert forall|i: int, j: int| 0 <= i < j < t.len() implies #[trigger] t[i].0 != #[trigger] t[j].0 by {
        if p >= 0 {
            let i2 = if i < p { i } else { i + 1 };
            let j2 = if j < p { j } else { j + 1 };
            assert(t[i] == s[i2]);
            assert(t[j] == s[j2]);
        }
    }
    lemma_key_pos(t, k);
    if p >= 0 && key_pos(t, k) >= 0 {
        let i = key_pos(t, k);
        let i2 = if i < p { i } else { i + 1 };
        assert(t[i] == s[i2]);
    }
    assert forall|k2: Seq<char>| k2 != k implies lookup(pairs_remove(s, k), k2) == #[trigger] lookup(
        s,
        k2,
    ) by {
        lemma_key_pos(s, k2);
        lemma_key_pos(t, k2);
        let p2 = key_pos(s, k2);
        if p >= 0 {
            if p2 >= 0 {
                let q = if p2 < p { p2 } else { p2 - 1 };
                assert(p2 != p);
                assert(t[q] == s[p2]);
                lemma_key_pos_unique(t, k2, q);
            } else {
                let p3 = key_pos(t, k2);
                if p3 >= 0 {
                    let i2 = if p3 < p { p3 } else { p3 + 1 };
                    assert(t[p3] == s[i2]);
                }
            }
        }
    }
}

/// A string-to-string map with no key twice, in insertion order.
#[derive(Debug, PartialEq)]
pub struct TextMap {
    entries: Vec<(String, String)>,
}

impl View for TextMap {
    type V = Pairs;

    closed spec fn view(&self) -> Pairs {
        self.entries@.map_values(|e: (String, String)| (e.0@, e.1@))
    }
}

impl TextMap {
    #[verifier::type_invariant]
    spec fn inv(self) -> bool {
        unique_keys(self@)
    }

    /// The empty map.
    pub fn new() -> (m: TextMap)
        ensures
            m@ == Seq::<(Seq<char>, Seq<char>)>::empty(),
    {
        let m = TextMap { entries: Vec::new() };
        assert(m@ =~= Seq::<(Seq<char>, Seq<char>)>::empty());
        m
    }

    /// The number of entries.
    pub fn len(&self) -> (n: usize)
        ensures
            n == self@.len(),
    {
        self.entries.len()
    }

    /// The key and value of the `i`-th entry.
    pub fn entry(&self, i: usize) -> (r: (&String, &String))
        requires
            i < self@.len(),
        ensures
            (r.0@, r.1@) == self@[i as int],
    {
        (&self.entries[i].0, &self.entries[i].1)
    }

    /// The position of key `k`, or none.
    fn position(&self, k: &str) -> (r: Option<usize>)
        ensures
            match r {
                Some(i) => key_pos(self@, k@) == i && i < self@.len() && self@.len()
                    == self.entries@.len(),
                None => key_pos(self@, k@) < 0,
            },
    {
        proof {
            use_type_invariant(self);
            lemma_key_pos(self@, k@);
        }
        let mut i: usize = 0;
        while i < self.entries.len()
            invariant
                0 <= i <= self.entries.len(),
                self@.len() == self.entries.len(),
                unique_keys(self@),
                forall|j: int| 0 <= j < i ==> #[trigger] self@[j].0 != k@,
                -1 <= key_pos(self@, k@) < self@.len(),
                key_pos(self@, k@) >= 0 ==> self@[key_pos(self@, k@)].0 == k@,
                key_pos(self@, k@) < 0 ==> forall|j: int|
                    0 <= j < self@.len() ==> #[trigger] self@[j].0 != k@,
            decreases self.entries.len() - i,
        {
            assert(self@[i as int] == (self.entries@[i as int].0@, self.entries@[i as int].1@));
            if same_text(self.entries[i].0.as_str(), k) {
                proof {
                    lemma_key_pos_unique(self@, k@, i as int);
                }
                return Some(i);
            }
            i = i + 1;
        }
        None
    }

    /// The value under key `k`.
    pub fn get(&self, k: &str) -> (r: Option<&String>)
        ensures
            match r {
                Some(v) => lookup(self@, k@) == Some(v@),
                None => lookup(self@, k@) is None,
            },
    {
        match self.position(k) {
            Some(i) => {
                assert(self@[i as int] == (self.entries@[i as int].0@, self.entries@[i as int].1@));
                Some(&self.entries[i].1)
            },
            None => None,
        }
    }

    /// Whether key `k` is present.
    pub fn contains_key(&self, k: &str) -> (r: bool)
        ensures
            r == (lookup(self@, k@) is Some),
    {
        self.position(k).is_some()
    }

    /// Maps `k` to `v` (`HashMap::insert`).
    pub fn insert(&mut self, k: String, v: String)
        ensures
            final(self)@ == pairs_insert(old(self)@, k@, v@),
    {
        proof {
            use_type_invariant(&*self);
            lemma_insert_unique(self@, k@, v@);
        }
        let ghost old_view = self@;
        match self.position(k.as_str()) {
            Some(i) => {
                let mut entries: Vec<(String, String)> = Vec::new();
                std::mem::swap(&mut entries, &mut self.entries);
                let ghost kv = (k@, v@);
                entries.set(i, (k, v));
                assert(entries@.map_values(|e: (String, String)| (e.0@, e.1@)) =~= old_view.update(
                    i as int,
                    kv,
                ));
                self.entries = entries;
            },
            None => {
                let mut entries: Vec<(String, String)> = Vec::new();
                std::mem::swap(&mut entries, &mut self.entries);
                let ghost kv = (k@, v@);
                entries.push((k, v));
                assert(entries@.map_values(|e: (String, String)| (e.0@, e.1@)) =~= old_view.push(kv));
                self.entries = entries;
            },
        }
    }

    /// Maps `k` to `v` unless `k` is present (`entry(k).or_insert(v)`).
    pub fn insert_if_absent(&mut self, k: String, v: String)
        ensures
            final(self)@ == if lookup(old(self)@, k@) is Some {
                old(self)@
            } else {
                pairs_insert(old(self)@, k@, v@)
            },
    {
        if !self.contains_key(k.as_str()) {
            self.insert(k, v);
        }
    }

    /// Removes key `k` (`HashMap::remove`), giving back its value.
    pub fn remove(&mut self, k: &str) -> (r: Option<String>)
        ensures
            final(self)@ == pairs_remove(old(self)@, k@),
            match r {
                Some(v) => lookup(old(self)@, k@) == Some(v@),
                None => lookup(old(self)@, k@) is None,
            },
    {
        proof {
            use_type_invariant(&*self);
            lemma_remove_unique(self@, k@);
        }
        let ghost old_view = self@;
        match self.position(k) {
            Some(i) => {
                let mut entries: Vec<(String, String)> = Vec::new();
                std::mem::swap(&mut entries, &mut self.entries);
                let e = entries.remove(i);
                assert(entries@.map_values(|e: (String, String)| (e.0@, e.1@)) =~= old_view.remove(
                    i as int,
                ));
                assert(old_view[i as int] == (e.0@, e.1@));
                self.entries = entries;
                Some(e.1)
            },
            None => None,
        }
    }
}

/// The key of some entry whose value is `v`, if any entry has that value. The
/// order in which the entries are searched is left open.
pub fn find_key_by_value(map: TextMap, v: String) -> (r: Option<String>)
    ensures
        match r {
            Some(k) => lookup(map@, k@) == Some(v@),
            None => !has_value(map@, v@),
        },
{
    proof {
        use_type_invariant(&map);
    }
    let mut i: usize = 0;
    while i < map.len()
        invariant
            0 <= i <= map@.len(),
            unique_keys(map@),
            forall|j: int| 0 <= j < i ==> #[trigger] map@[j].1 != v@,
        decreases map@.len() - i,
    {
        let (key, value) = map.entry(i);
        if same_text(value.as_str(), v.as_str()) {
            proof {
                lemma_key_pos_unique(map@, key@, i as int);
            }
            return Some(key.clone());
        }
        i = i + 1;
    }
    None
}

/// The JSON object of a map: one string member per entry, in order.
pub open spec fn pairs_json(s: Pairs) -> JsonView {
    JsonView::Object(s.map_values(|e: (Seq<char>, Seq<char>)| (e.0, JsonView::Str(e.1))))
}

/// The map that an object of strings decodes to: each member inserted in turn
/// (a later member with the same name replacing an earlier one); nothing when `v`
/// is not an object or a member is not a string.
pub open spec fn pairs_decoded(v: JsonView) -> Option<Pairs> {
    match v {
        JsonView::Object(entries) => members_decoded(entries),
        _ => None,
    }
}

pub open spec fn members_decoded(entries: Seq<(Seq<char>, JsonView)>) -> Option<Pairs>
    decreases entries.len(),
{
    if entries.len() == 0 {
        Some(Seq::empty())
    } else {
        match members_decoded(entries.drop_last()) {
            None => None,
            Some(init) => match entries.last().1 {
                JsonView::Str(s) => Some(pairs_insert(init, entries.last().0, s)),
                _ => None,
            },
        }
    }
}

impl TextMap {
    /// The map as a JSON object.
    pub fn to_json(&self) -> (j: Json)
        ensures
            j@ == pairs_json(self@),
    {
        let mut out: Vec<(String, Json)> = Vec::new();
        let mut i: usize = 0;
        while i < self.len()
            invariant
                0 <= i <= self@.len(),
                entries_view(out@) == self@.take(i as int).map_values(
                    |e: (Seq<char>, Seq<char>)| (e.0, JsonView::Str(e.1)),
                ),
            decreases self@.len() - i,
        {
            let (k, v) = self.entry(i);
            let ghost before = out@;
            let e = (k.clone(), Json::Str(v.clone()));
            let ghost ge = e;
            out.push(e);
            proof {
                crate::json::lemma_entries_view_push(before, ge);
                assert(out@ == before.push(ge));
            }
            i = i + 1;
            assert(entries_view(out@) =~= self@.take(i as int).map_values(
                |e: (Seq<char>, Seq<char>)| (e.0, JsonView::Str(e.1)),
            ));
        }
        assert(self@.take(i as int) =~= self@);
        Json::Object(out)
    }

    /// Decodes a map from a JSON object of strings.
    pub fn from_json(j: &Json) -> (r: Option<TextMap>)
        ensures
            match r {
                Some(m) => pairs_decoded(j@) == Some(m@),
                None => pairs_decoded(j@) is None,
            },
    {
        match j {
            Json::Object(entries) => {
                proof {
                    lemma_entries_view(entries@);
                }
                let ghost es = entries_view(entries@);
                let mut m = TextMap::new();
                let mut i: usize = 0;
                assert(j@ == JsonView::Object(es));
                assert(es.take(0) =~= Seq::<(Seq<char>, JsonView)>::empty());
                while i < entries.len()
                    invariant
                        0 <= i <= entries.len(),
                        es == entries_view(entries@),
                        es.len() == entries.len(),
                        forall|k: int|
                            0 <= k < entries.len() ==> #[trigger] es[k] == (
                                entries@[k].0@,
                                json_view(entries@[k].1),
                            ),
                        members_decoded(es.take(i as int)) == Some(m@),
                        j@ == JsonView::Object(es),
                    decreases entries.len() - i,
                {
                    assert(es.take(i + 1).drop_last() =~= es.take(i as int));
                    assert(es.take(i + 1).last() == es[i as int]);
                    match &entries[i].1 {
                        Json::Str(s) => {
                            m.insert(entries[i].0.clone(), s.clone());
                        },
                        _ => {
                            assert(members_decoded(es.take(i + 1)) is None);
                            proof {
                                lemma_members_prefix_none(es, i + 1);
                            }
                            return None;
                        },
                    }
                    i = i + 1;
                }
                assert(es.take(i as int) =~= es);
                Some(m)
            },
            _ => None,
        }
    }
}

/// Once a prefix fails to decode, every longer prefix fails.
pub proof fn lemma_members_prefix_none(es: Seq<(Seq<char>, JsonView)>, n: int)
    requires
        0 <= n <= es.len(),
        members_decoded(es.take(n)) is None,
    ensures
        members_decoded(es) is None,
    decreases es.len() - n,
{
    if n < es.len() {
        assert(es.take(n + 1).drop_last() =~= es.take(n));
        lemma_members_prefix_none(es, n + 1);
    } else {
        assert(es.take(n) =~= es);
    }
}

/// A decoded map never holds a key twice.
pub proof fn lemma_members_decoded_unique(entries: Seq<(Seq<char>, JsonView)>)
    ensures
        members_decoded(entries) matches Some(p) ==> unique_keys(p),
    decreases entries.len(),
{
    if entries.len() > 0 {
        lemma_members_decoded_unique(entries.drop_last());
        if let Some(init) = members_decoded(entries.drop_last()) {
            if let JsonView::Str(s) = entries.last().1 {
                lemma_insert_unique(init, entries.last().0, s);
            }
        }
    }
}

/// Reading a key just written gives the value written, and every other key keeps
/// its value.
pub proof fn read_after_insert(s: Pairs, k: Seq<char>, v: Seq<char>, other: Seq<char>)
    requires
        unique_keys(s),
        other != k,
    ensures
        lookup(pairs_insert(s, k, v), k) == Some(v),
        lookup(pairs_insert(s, k, v), other) == lookup(s, other),
        unique_keys(pairs_insert(s, k, v)),
{
    lemma_insert_unique(s, k, v);
}

/// A removed key is gone, and every other key keeps its value.
pub proof fn read_after_remove(s: Pairs, k: Seq<char>, other: Seq<char>)
    requires
        unique_keys(s),
        other != k,
    ensures
        lookup(pairs_remove(s, k), k) is None,
        lookup(pairs_remove(s, k), other) == lookup(s, other),
        unique_keys(pairs_remove(s, k)),
{
    lemma_remove_unique(s, k);
}

} // verus!
