use dr_write::folder::{new_folder, retitled, with_doi, Folder, Listing};
use dr_write::json::{Json, Number};
use dr_write::textmap::{find_key_by_value, TextMap};

fn s(x: &str) -> Json {
    Json::Str(x.to_string())
}

fn obj(v: Vec<(&str, Json)>) -> Json {
    Json::Object(v.into_iter().map(|(k, j)| (k.to_string(), j)).collect())
}

fn map(pairs: &[(&str, &str)]) -> TextMap {
    let mut m = TextMap::new();
    for (k, v) in pairs {
        m.insert(k.to_string(), v.to_string());
    }
    m
}

#[test]
fn map_insert_get_remove() {
    let mut m = map(&[("a", "1"), ("b", "2")]);
    assert_eq!(m.len(), 2);
    m.insert("a".to_string(), "3".to_string());
    assert_eq!(m.len(), 2);
    assert_eq!(m.get("a"), Some(&"3".to_string()));
    assert_eq!(m.entry(0), (&"a".to_string(), &"3".to_string()));
    assert_eq!(m.remove("a"), Some("3".to_string()));
    assert_eq!(m.get("a"), None);
    assert_eq!(m.remove("a"), None);
    assert!(m.contains_key("b"));
    m.insert_if_absent("b".to_string(), "9".to_string());
    assert_eq!(m.get("b"), Some(&"2".to_string()));
    m.insert_if_absent("c".to_string(), "9".to_string());
    assert_eq!(m.get("c"), Some(&"9".to_string()));
}

#[test]
fn find_key_by_value_finds_the_owner_of_a_value() {
    let m = map(&[("k1", "p1"), ("k2", "p2")]);
    assert_eq!(find_key_by_value(map(&[("k1", "p1"), ("k2", "p2")]), "p2".to_string()), Some("k2".to_string()));
    assert_eq!(find_key_by_value(m, "p3".to_string()), None);
    assert_eq!(find_key_by_value(TextMap::new(), "x".to_string()), None);
}

#[test]
fn map_as_json() {
    let m = map(&[("a", "1"), ("b", "2")]);
    let j = m.to_json();
    assert_eq!(j, obj(vec![("a", s("1")), ("b", s("2"))]));
    assert_eq!(TextMap::from_json(&j), Some(map(&[("a", "1"), ("b", "2")])));
    // a later member with the same name wins, in the first one's place
    let dup = obj(vec![("a", s("1")), ("b", s("2")), ("a", s("3"))]);
    assert_eq!(TextMap::from_json(&dup), Some(map(&[("a", "3"), ("b", "2")])));
    assert_eq!(TextMap::from_json(&obj(vec![("a", Json::Bool(true))])), None);
    assert_eq!(TextMap::from_json(&s("a")), None);
}

#[test]
fn folder_creation() {
    let f = new_folder("dr-bob-1".to_string(), "essays", "school", "My essays".to_string(), true);
    assert_eq!(f.path, "school_essays");
    assert_eq!(f.owner, "dr-bob-1");
    assert_eq!(f.title, "My essays");
    assert_eq!(f.nodes.len(), 0);
    assert!(f.public);
}

#[test]
fn folder_storage_reads_back() {
    let mut f = new_folder("u".to_string(), "p", "", "t".to_string(), false);
    f.nodes.insert("10.1/x".to_string(), "pending".to_string());
    let j = f.to_json();
    assert_eq!(
        j,
        obj(vec![
            ("path", s("p")),
            ("owner", s("u")),
            ("title", s("t")),
            ("nodes", obj(vec![("10.1/x", s("pending"))])),
            ("public", Json::Bool(false)),
        ])
    );
    assert_eq!(Folder::from_json(&j), Some(f));
}

#[test]
fn folder_decoding_defaults() {
    let j = obj(vec![("title", s("t")), ("owner", s("u")), ("path", s("p")), ("extra", Json::Num(Number::NegInt(-1)))]);
    let f = Folder::from_json(&j).unwrap();
    assert_eq!(f.nodes.len(), 0);
    assert!(!f.public);
    // array form
    let a = Json::Array(vec![s("p"), s("u"), s("t")]);
    assert_eq!(Folder::from_json(&a), Some(f));
    assert_eq!(Folder::from_json(&obj(vec![("path", s("p")), ("owner", s("u"))])), None);
    assert_eq!(
        Folder::from_json(&obj(vec![("path", s("p")), ("owner", s("u")), ("title", s("t")), ("public", Json::Null)])),
        None
    );
}

#[test]
fn folder_changes() {
    let f = new_folder("u".to_string(), "p", "", "old".to_string(), false);
    let g = retitled(f, "new".to_string(), true);
    assert_eq!((g.path.as_str(), g.title.as_str(), g.public), ("p", "new", true));
    let g = with_doi(g, "10.1/x".to_string());
    assert_eq!(g.nodes.get("10.1/x"), Some(&"pending".to_string()));
    let mut g = g;
    g.nodes.insert("10.1/x".to_string(), "done".to_string());
    let g = with_doi(g, "10.1/x".to_string());
    assert_eq!(g.nodes.get("10.1/x"), Some(&"done".to_string()));
}

#[test]
fn listing_is_keyed_by_path() {
    let mut l = Listing::new();
    l.insert(new_folder("u".to_string(), "a", "", "1".to_string(), false));
    l.insert(new_folder("u".to_string(), "b", "", "2".to_string(), false));
    l.insert(new_folder("u".to_string(), "a", "", "3".to_string(), false));
    assert_eq!(l.len(), 2);
    assert_eq!(l.folder(0).title, "3");
    assert_eq!(l.folder(1).title, "2");
    match l.to_json() {
        Json::Object(entries) => {
            assert_eq!(entries.len(), 2);
            assert_eq!(entries[0].0, "a");
        },
        _ => panic!("not an object"),
    }
}
