use dr_write::doi::DoiNode;
use dr_write::folder::{new_folder, Listing};
use dr_write::json::{Json, Number};
use dr_write::requests::{DoiFetchRequest, FolderUpdateRequest, SetupRequest, TestUpdateRequest};
use dr_write::store::{
    add_if_owned, doi_counter, doi_create_outcome, doi_inject_2, doi_plan, doi_print_text,
    doi_read_public, doi_to_folder, folder_counter, folder_for_request, folders_delete, folders_read_public,
    folders_update, index_after_create, print_counter, print_index, print_keys, read_keys, setup, Found, Printed,
    StoreError,
};
use dr_write::codec::{json_to_text, parse_json_bytes, parse_json_text};

fn s(x: &str) -> Json {
    Json::Str(x.to_string())
}

fn obj(v: Vec<(&str, Json)>) -> Json {
    Json::Object(v.into_iter().map(|(k, j)| (k.to_string(), j)).collect())
}

/// What the JSON parser says of `text`.
fn parse_message(text: &str) -> String {
    serde_json::from_str::<serde_json::Value>(text).unwrap_err().to_string()
}

/// The text stored for a value: the JSON text of `json`, else `text`.
fn stored(text: &str, json: Option<Json>) -> String {
    match json {
        Some(j) => json_to_text(&j),
        None => text.to_string(),
    }
}

fn bad(m: &str) -> StoreError {
    StoreError::Malformed(m.to_string())
}

fn folder_json(path: &str, owner: &str) -> Json {
    new_folder(owner.to_string(), path, "", "T".to_string(), false).to_json()
}

fn crossref(doi: Option<&str>) -> Json {
    let mut m = vec![("publisher", s("P"))];
    if let Some(d) = doi {
        m.push(("DOI", s(d)));
    }
    obj(vec![("message", obj(m))])
}

#[test]
fn setup_makes_uid() {
    let uid = setup(SetupRequest { name: "bob".to_string(), ts: 1700000000 });
    assert_eq!(uid, "dr-bob-1700000000");
}

#[test]
fn create_folder_and_index() {
    let req = FolderUpdateRequest {
        id: "essays".to_string(),
        parent: "school".to_string(),
        title: "Essays".to_string(),
        public: true,
    };
    let f = folder_for_request("dr-bob-1".to_string(), req);
    assert_eq!(f.path, "school_essays");
    assert_eq!(f.owner, "dr-bob-1");
    // no index yet, or one that does not parse: a fresh index
    let m = index_after_create(None, &f.path);
    assert_eq!(m.to_json(), obj(vec![("school_essays", s("school_essays"))]));
    let m = index_after_create(Some(&s("garbage")), &f.path);
    assert_eq!(m.len(), 1);
    // an existing index keeps its entries
    let old = obj(vec![("a", s("a"))]);
    let m = index_after_create(Some(&old), &f.path);
    assert_eq!(m.to_json(), obj(vec![("a", s("a")), ("school_essays", s("school_essays"))]));
}

#[test]
fn update_folder_keeps_path_and_owner() {
    let req = FolderUpdateRequest {
        id: String::new(),
        parent: "ignored".to_string(),
        title: "New".to_string(),
        public: true,
    };
    let f = folders_update(&json_to_text(&folder_json("p", "u")), req).unwrap();
    assert_eq!((f.path.as_str(), f.owner.as_str(), f.title.as_str(), f.public), ("p", "u", "New", true));
    let req = FolderUpdateRequest { id: String::new(), parent: String::new(), title: "x".to_string(), public: false };
    assert_eq!(folders_update("", req), Err(bad("EOF while parsing a value at line 1 column 0")));
}

#[test]
fn read_public_folder() {
    let open = new_folder("u".to_string(), "p", "", "T".to_string(), true);
    let f = folders_read_public(&json_to_text(&open.to_json())).unwrap();
    assert_eq!(f, open);
    // a private folder is not given out
    assert_eq!(folders_read_public(&json_to_text(&folder_json("p", "u"))), Err(StoreError::NotPublic));
    assert_eq!(folders_read_public("\"x\""), Err(bad("invalid folder record")));
    // a missing folder reads as empty text, and fails with the parser's message
    assert_eq!(folders_read_public(""), Err(bad("EOF while parsing a value at line 1 column 0")));
}

#[test]
fn listing_keeps_own_folders() {
    let mut l = Listing::new();
    assert_eq!(add_if_owned(&mut l, "me", &json_to_text(&folder_json("a", "me"))), Ok(()));
    assert_eq!(add_if_owned(&mut l, "me", &json_to_text(&folder_json("b", "other"))), Ok(()));
    assert_eq!(l.len(), 1);
    assert_eq!(add_if_owned(&mut l, "me", "m"), Err(bad(&parse_message("m"))));
    assert_eq!(l.len(), 1);
}

#[test]
fn delete_only_indexed_folders() {
    let idx = obj(vec![("k", s("school_essays"))]);
    assert!(folders_delete(Some(&idx), "school_essays"));
    assert!(!folders_delete(Some(&idx), "k"));
    assert!(!folders_delete(None, "school_essays"));
}

#[test]
fn doi_added_as_pending() {
    let f = doi_to_folder(Some(&folder_json("p", "u")), "10.1/x".to_string()).unwrap();
    assert_eq!(f.nodes.get("10.1/x"), Some(&"pending".to_string()));
    assert_eq!(doi_to_folder(Some(&s("no")), "10.1/x".to_string()), None);
}

#[test]
fn doi_plans() {
    let p = doi_plan(DoiFetchRequest { folder: "f".to_string(), doi: "10.1%2Fx".to_string() });
    assert_eq!((p.folder.as_str(), p.doi.as_str(), p.raw_key.as_str()), ("f", "10.1/x", "raw-f::10.1/x"));
    let p = doi_plan(DoiFetchRequest { folder: "f".to_string(), doi: "10.1/y".to_string() });
    assert_eq!(p.raw_key, "raw-f::10.1/y");
}

#[test]
fn create_outcome_prefers_the_folder_error() {
    assert_eq!(doi_create_outcome(Ok(true), Ok(s("r"))), Ok(s("r")));
    assert_eq!(doi_create_outcome(Ok(false), Ok(s("r"))), Ok(s("r")));
    assert_eq!(
        doi_create_outcome(Err(bad("m")), Err(StoreError::Remote("x".to_string()))),
        Err(bad("m"))
    );
    assert_eq!(
        doi_create_outcome(Ok(true), Err(StoreError::Remote("x".to_string()))),
        Err(StoreError::Remote("x".to_string()))
    );
}

#[test]
fn read_record_prefers_the_cache() {
    let node = dr_write::doi::node_from_crossref("f".to_string(), "10.1/x".to_string(), &crossref(None));
    let cached = stored("{}", Some(node.to_json()));
    match doi_read_public("f".to_string(), "10.1%2Fx", Ok(stored("", None)), Ok(cached)) {
        Ok(Found::Cached(n)) => assert_eq!(n, node),
        other => panic!("{:?}", other),
    }
    // the cache read failed: made from the raw record, under the record key
    match doi_read_public("f".to_string(), "10.1%2Fx", Ok(stored("", Some(crossref(None)))), Err("down".to_string())) {
        Ok(Found::Fresh { key, node: n, text }) => {
            assert_eq!(key, "doi-f::10.1/x");
            assert_eq!(n, node);
            assert_eq!(text, json_to_text(&node.to_json()));
        },
        other => panic!("{:?}", other),
    }
    // an unreadable cached value is an error
    assert_eq!(
        doi_read_public("f".to_string(), "d", Ok(stored("", Some(crossref(None)))), Ok(stored("", None))),
        Err(bad("EOF while parsing a value at line 1 column 0"))
    );
    // a cached value that is JSON but no record
    assert_eq!(
        doi_read_public("f".to_string(), "d", Err("a".to_string()), Ok(stored("1", Some(Json::Num(Number::PosInt(1)))))),
        Err(bad("invalid DOI record"))
    );
    assert_eq!(
        doi_read_public("f".to_string(), "d", Err("a".to_string()), Err("b".to_string())),
        Err(StoreError::Remote("a".to_string()))
    );
}

#[test]
fn print_record_prefers_the_raw_record() {
    match doi_print_text("f".to_string(), "d".to_string(), Ok(stored("", Some(crossref(None)))), Ok(stored("old", None))) {
        Ok(Printed::Fresh { key, node, text }) => {
            assert_eq!(key, "doi-f::d");
            assert_eq!(node.publisher, Some("P".to_string()));
            assert_eq!(text, json_to_text(&node.to_json()));
            assert!(text.starts_with("{\"folder\":\"f\",\"doi\":\"d\",\"publisher\":\"P\""));
        },
        other => panic!("{:?}", other),
    }
    assert_eq!(
        doi_print_text("f".to_string(), "d".to_string(), Err("x".to_string()), Ok(stored("old", None))),
        Ok(Printed::Cached("old - from cache data".to_string()))
    );
    assert_eq!(
        doi_print_text("f".to_string(), "d".to_string(), Ok(stored("not json", None)), Ok(stored("old", None))),
        Err(bad(&parse_message("not json")))
    );
    assert_eq!(
        doi_print_text("f".to_string(), "d".to_string(), Err("x".to_string()), Err("y".to_string())),
        Err(StoreError::Remote("x".to_string()))
    );
}

#[test]
fn inject_needs_a_doi() {
    let body = json_to_text(&crossref(Some("10.1/z")));
    assert_eq!(body, "{\"message\":{\"publisher\":\"P\",\"DOI\":\"10.1/z\"}}");
    let inj = doi_inject_2("f".to_string(), body.as_bytes()).unwrap();
    assert_eq!(inj.raw_text, body);
    assert_eq!(inj.node_text, json_to_text(&inj.node.to_json()));
    assert_eq!(inj.raw_key, "raw-f::10.1/z");
    assert_eq!(inj.node_key, "doi-f::10.1/z");
    assert_eq!(inj.raw, crossref(Some("10.1/z")));
    assert_eq!(inj.node.doi, Some("10.1/z".to_string()));
    assert_eq!(inj.node.folder, "f");
    assert_eq!(doi_inject_2("f".to_string(), json_to_text(&crossref(None)).as_bytes()).map(|_| ()), Err(StoreError::InvalidInput));
    assert_eq!(doi_inject_2("f".to_string(), b"bad body").map(|_| ()), Err(bad(&parse_message("bad body"))));
    assert_eq!(doi_inject_2("f".to_string(), b"1").map(|_| ()), Err(StoreError::InvalidInput));
}

#[test]
fn counter_and_index_keys() {
    assert_eq!(folder_counter("u"), "next-f-u");
    assert_eq!(doi_counter("u"), "next-d-u");
    assert_eq!(print_counter("u"), "next-d-u");
    assert_eq!(print_index("u"), "folders-u");
}

#[test]
fn request_bodies() {
    let j = obj(vec![("name", s("bob")), ("ts", Json::Num(Number::PosInt(5)))]);
    assert_eq!(SetupRequest::from_json(&j), Some(SetupRequest { name: "bob".to_string(), ts: 5 }));
    let neg = obj(vec![("name", s("bob")), ("ts", Json::Num(Number::NegInt(-5)))]);
    assert_eq!(SetupRequest::from_json(&neg), None);
    let f = FolderUpdateRequest::from_json(&obj(vec![("title", s("T"))])).unwrap();
    assert_eq!(f, FolderUpdateRequest { id: String::new(), parent: String::new(), title: "T".to_string(), public: false });
    assert_eq!(FolderUpdateRequest::from_json(&obj(vec![("id", s("x"))])), None);
    let d = DoiFetchRequest::from_json(&obj(vec![("folder", s("f")), ("doi", s("d"))])).unwrap();
    assert_eq!(d, DoiFetchRequest { folder: "f".to_string(), doi: "d".to_string() });
    assert_eq!(DoiFetchRequest::from_json(&obj(vec![("folder", s("f"))])), None);
    let t = TestUpdateRequest::from_json(&obj(vec![("title", s("hi"))])).unwrap();
    assert_eq!(t.to_json(), obj(vec![("title", s("hi"))]));
    assert_eq!(TestUpdateRequest::from_json(&s("hi")), None);
}

#[test]
fn stored_records_feed_the_cache_path() {
    // a record stored by a fresh read is found by the next read
    let fresh = match doi_read_public("f".to_string(), "d", Ok(stored("", Some(crossref(None)))), Err("none".to_string())) {
        Ok(Found::Fresh { node, .. }) => node,
        other => panic!("{:?}", other),
    };
    let again = doi_read_public("f".to_string(), "d", Err("x".to_string()), Ok(stored("", Some(fresh.to_json()))));
    assert_eq!(again, Ok(Found::Cached(DoiNode::from_json(&fresh.to_json()).unwrap())));
}

#[test]
fn print_and_read_keys() {
    assert_eq!(print_keys("f", "10.1%2Fx"), ("raw-f::10.1%2Fx".to_string(), "doi-f::10.1%2Fx".to_string()));
    assert_eq!(read_keys("f", "10.1%2Fx"), ("raw-f::10.1/x".to_string(), "doi-f::10.1/x".to_string()));
}

#[test]
fn tagging_twice_changes_nothing() {
    let once = doi_to_folder(Some(&folder_json("p", "u")), "10.1/x".to_string()).unwrap();
    let twice = doi_to_folder(Some(&once.to_json()), "10.1/x".to_string()).unwrap();
    assert_eq!(twice, once);
}

#[test]
fn request_bodies_from_bytes() {
    assert_eq!(SetupRequest::from_bytes(b"{\"name\":\"bob\",\"ts\":5}"), Some(SetupRequest { name: "bob".to_string(), ts: 5 }));
    assert_eq!(SetupRequest::from_bytes(b"{\"name\":"), None);
    assert_eq!(
        FolderUpdateRequest::from_bytes(b"{\"title\":\"T\",\"public\":true}"),
        Some(FolderUpdateRequest { id: String::new(), parent: String::new(), title: "T".to_string(), public: true })
    );
    assert_eq!(FolderUpdateRequest::from_bytes(b""), None);
    assert_eq!(
        DoiFetchRequest::from_bytes(b"{\"folder\":\"f\",\"doi\":\"d\"}"),
        Some(DoiFetchRequest { folder: "f".to_string(), doi: "d".to_string() })
    );
    assert_eq!(TestUpdateRequest::from_bytes(b"[1]"), None);
}

#[test]
fn json_read_and_written() {
    let j = obj(vec![("b", s("x")), ("a", Json::Array(vec![Json::Null, Json::Bool(false), Json::Num(Number::NegInt(-2))]))]);
    let t = json_to_text(&j);
    assert_eq!(t, "{\"b\":\"x\",\"a\":[null,false,-2]}");
    assert_eq!(parse_json_text(&t), Ok(j));
    assert_eq!(parse_json_bytes(b"1.5"), Ok(Json::Num(Number::Float("1.5".to_string()))));
    assert_eq!(json_to_text(&Json::Num(Number::Float("1.5".to_string()))), "1.5");
    assert_eq!(parse_json_text(""), Err("EOF while parsing a value at line 1 column 0".to_string()));
}
