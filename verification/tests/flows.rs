use dr_write::flow::{
    doi_create, doi_fetch, folders_create, folders_delete, folders_read_all, work_from, Call, DeleteFolder, Reply,
    Response, Step,
};
use dr_write::folder::{new_folder, Folder};
use dr_write::json::{Json, Number};
use dr_write::requests::{DoiFetchRequest, FolderUpdateRequest};
use dr_write::codec::json_to_text;
use dr_write::store::StoreError;
use std::collections::HashMap;

fn s(x: &str) -> Json {
    Json::Str(x.to_string())
}

fn obj(v: Vec<(&str, Json)>) -> Json {
    Json::Object(v.into_iter().map(|(k, j)| (k.to_string(), j)).collect())
}

/// What the JSON parser says of the empty text a missing key reads as.
fn eof() -> String {
    serde_json::from_str::<serde_json::Value>("").unwrap_err().to_string()
}

fn copy(j: &Json) -> Json {
    dr_write::json::clone_json(j)
}

/// A key-value store that never fails, and a crossref that knows one work.
struct World {
    kv: HashMap<String, Json>,
    work: Option<(String, Response)>,
    fetches: usize,
}

impl World {
    fn answer(&mut self, call: Call) -> Reply {
        match call {
            Call::Get(k) => Reply::Value(Ok(match self.kv.get(&k) {
                Some(j) => json_to_text(j),
                None => String::new(),
            })),
            Call::Put(k, v) => {
                self.kv.insert(k, v);
                Reply::Written(Ok(()))
            },
            Call::Delete(k) => {
                self.kv.remove(&k);
                Reply::Written(Ok(()))
            },
            Call::Fetch(url) => {
                self.fetches += 1;
                match &self.work {
                    Some((u, r)) if *u == url => Reply::Fetched(Ok(Response {
                        status: r.status,
                        body: r.body.clone(),
                    })),
                    _ => Reply::Fetched(Err("unreachable".to_string())),
                }
            },
        }
    }
}

fn world() -> World {
    World { kv: HashMap::new(), work: None, fetches: 0 }
}

#[test]
fn creating_a_folder_stores_and_indexes_it() {
    let mut w = world();
    w.kv.insert("folders-u".to_string(), obj(vec![("old", s("old"))]));
    let req = FolderUpdateRequest { id: "e".to_string(), parent: "s".to_string(), title: "T".to_string(), public: false };
    let mut step = folders_create("u".to_string(), req);
    let mut calls = 0;
    let answer = loop {
        match step {
            Step::Finish(r) => break r,
            Step::Next(m, c) => {
                calls += 1;
                let r = w.answer(c);
                step = m.resume(r);
            },
        }
    };
    assert_eq!(calls, 3);
    let f = answer.unwrap();
    assert_eq!(f.path, "s_e");
    assert_eq!(Folder::from_json(&w.kv["s_e"]), Some(new_folder("u".to_string(), "e", "s", "T".to_string(), false)));
    assert_eq!(w.kv["folders-u"], obj(vec![("old", s("old")), ("s_e", s("s_e"))]));
}

#[test]
fn creating_a_folder_stops_at_a_failure() {
    let req = FolderUpdateRequest { id: "e".to_string(), parent: String::new(), title: "T".to_string(), public: false };
    match folders_create("u".to_string(), req) {
        Step::Next(m, Call::Put(k, _)) => {
            assert_eq!(k, "e");
            assert_eq!(m.resume(Reply::Written(Err("down".to_string()))), Step::Finish(Err(StoreError::Remote("down".to_string()))));
        },
        other => panic!("{:?}", other),
    }
    let req = FolderUpdateRequest { id: "e".to_string(), parent: String::new(), title: "T".to_string(), public: false };
    match folders_create("u".to_string(), req) {
        Step::Next(m, _) => assert_eq!(m.resume(Reply::Fetched(Err("x".to_string()))), Step::Finish(Err(StoreError::Remote("x".to_string())))),
        other => panic!("{:?}", other),
    }
    let req = FolderUpdateRequest { id: "e".to_string(), parent: String::new(), title: "T".to_string(), public: false };
    match folders_create("u".to_string(), req) {
        Step::Next(m, _) => assert_eq!(m.resume(Reply::Value(Ok(String::new()))), Step::Finish(Err(StoreError::OutOfStep))),
        other => panic!("{:?}", other),
    }
}

fn run_list(w: &mut World, uid: &str) -> Result<Vec<(String, String)>, StoreError> {
    let mut step = folders_read_all(uid.to_string());
    loop {
        match step {
            Step::Finish(r) => {
                return r.map(|l| (0..l.len()).map(|i| (l.folder(i).path.clone(), l.folder(i).owner.clone())).collect())
            },
            Step::Next(m, c) => {
                let r = w.answer(c);
                step = m.resume(r);
            },
        }
    }
}

#[test]
fn listing_keeps_only_own_folders() {
    let mut w = world();
    w.kv.insert("folders-me".to_string(), obj(vec![("a", s("a")), ("b", s("b")), ("c", s("c"))]));
    w.kv.insert("a".to_string(), new_folder("me".to_string(), "a", "", "A".to_string(), false).to_json());
    w.kv.insert("b".to_string(), new_folder("you".to_string(), "b", "", "B".to_string(), false).to_json());
    w.kv.insert("c".to_string(), new_folder("me".to_string(), "c", "", "C".to_string(), false).to_json());
    assert_eq!(run_list(&mut w, "me"), Ok(vec![("a".to_string(), "me".to_string()), ("c".to_string(), "me".to_string())]));
    // no index: no folders
    assert_eq!(run_list(&mut w, "nobody"), Ok(vec![]));
    // an indexed key that holds no folder fails the listing
    w.kv.insert("folders-me".to_string(), obj(vec![("a", s("a")), ("missing", s("missing"))]));
    assert_eq!(run_list(&mut w, "me"), Err(StoreError::Malformed(eof())));
    assert_eq!(eof(), "EOF while parsing a value at line 1 column 0");
    // a value that is JSON but no folder fails with the library's words
    w.kv.insert("missing".to_string(), s("x"));
    assert_eq!(run_list(&mut w, "me"), Err(StoreError::Malformed("invalid folder record".to_string())));
}

fn run_doi(w: &mut World, req: DoiFetchRequest) -> Result<Json, StoreError> {
    let mut step = doi_create(req);
    loop {
        match step {
            Step::Finish(r) => return r,
            Step::Next(m, c) => {
                let r = w.answer(c);
                step = m.resume(r);
            },
        }
    }
}

#[test]
fn adding_a_doi_tags_the_folder_and_keeps_the_work() {
    let mut w = world();
    w.kv.insert("f".to_string(), new_folder("me".to_string(), "f", "", "F".to_string(), false).to_json());
    let work = obj(vec![("message", obj(vec![("DOI", s("10.1/x"))]))]);
    w.work = Some(("https://api.crossref.org/works/10.1/x".to_string(), Response { status: 200, body: json_to_text(&work).into_bytes() }));
    let r = run_doi(&mut w, DoiFetchRequest { folder: "f".to_string(), doi: "10.1%2Fx".to_string() });
    assert_eq!(r, Ok(copy(&work)));
    assert_eq!(w.kv["raw-f::10.1/x"], work);
    let f = Folder::from_json(&w.kv["f"]).unwrap();
    assert_eq!(f.nodes.get("10.1/x"), Some(&"pending".to_string()));
    // a missing folder is not created, and the work is still kept
    let r = run_doi(&mut w, DoiFetchRequest { folder: "g".to_string(), doi: "10.1/x".to_string() });
    assert!(r.is_ok());
    assert!(!w.kv.contains_key("g"));
    assert!(w.kv.contains_key("raw-g::10.1/x"));
    // crossref refusing the DOI fails the request, after the folder was tagged
    w.work = Some(("https://api.crossref.org/works/10.1/y".to_string(), Response { status: 404, body: Vec::new() }));
    let r = run_doi(&mut w, DoiFetchRequest { folder: "f".to_string(), doi: "10.1/y".to_string() });
    assert_eq!(r, Err(StoreError::Status(404)));
    let f = Folder::from_json(&w.kv["f"]).unwrap();
    assert_eq!(f.nodes.get("10.1/y"), Some(&"pending".to_string()));
    assert!(!w.kv.contains_key("raw-f::10.1/y"));
}

#[test]
fn refetching_asks_twice() {
    let mut w = world();
    let work = obj(vec![("message", obj(vec![]))]);
    w.work = Some(("https://api.crossref.org/works/d".to_string(), Response { status: 200, body: json_to_text(&work).into_bytes() }));
    let mut step = doi_fetch(DoiFetchRequest { folder: "f".to_string(), doi: "d".to_string() });
    let r = loop {
        match step {
            Step::Finish(r) => break r,
            Step::Next(m, c) => {
                let r = w.answer(c);
                step = m.resume(r);
            },
        }
    };
    assert_eq!(r, Ok(copy(&work)));
    assert_eq!(w.fetches, 2);
    assert_eq!(w.kv["raw-f::d"], work);
}

#[test]
fn crossref_replies() {
    assert_eq!(work_from(Ok(Response { status: 200, body: b"\"x\"".to_vec() })), Ok(s("x")));
    assert_eq!(
        work_from(Ok(Response { status: 299, body: b"x".to_vec() })),
        Err(StoreError::Malformed("expected value at line 1 column 1".to_string()))
    );
    assert_eq!(work_from(Ok(Response { status: 500, body: b"\"x\"".to_vec() })), Err(StoreError::Status(500)));
    assert_eq!(work_from(Err("net".to_string())), Err(StoreError::Remote("net".to_string())));
    let n = Json::Num(Number::Float("1.5".to_string()));
    assert_eq!(copy(&obj(vec![("a", Json::Array(vec![copy(&n), Json::Bool(true)]))])), obj(vec![("a", Json::Array(vec![n, Json::Bool(true)]))]));
}

#[test]
fn a_created_folder_is_listed() {
    let mut w = world();
    w.kv.insert("folders-u".to_string(), obj(vec![("x", s("x"))]));
    w.kv.insert("x".to_string(), new_folder("u".to_string(), "x", "", "X".to_string(), false).to_json());
    let req = FolderUpdateRequest { id: "new".to_string(), parent: String::new(), title: "N".to_string(), public: false };
    let mut step = folders_create("u".to_string(), req);
    while let Step::Next(m, c) = step {
        let r = w.answer(c);
        step = m.resume(r);
    }
    let listed = run_list(&mut w, "u").unwrap();
    assert_eq!(listed, vec![("x".to_string(), "u".to_string()), ("new".to_string(), "u".to_string())]);
}

fn run_delete(w: &mut World, uid: &str, path: &str) -> (usize, Result<bool, StoreError>) {
    let mut step = folders_delete(uid, path.to_string());
    let mut calls = 0;
    loop {
        match step {
            Step::Finish(r) => return (calls, r),
            Step::Next(m, c) => {
                calls += 1;
                let r = w.answer(c);
                step = m.resume(r);
            },
        }
    }
}

#[test]
fn deleting_removes_only_indexed_folders() {
    let mut w = world();
    w.kv.insert("folders-u".to_string(), obj(vec![("k", s("p"))]));
    w.kv.insert("p".to_string(), new_folder("u".to_string(), "p", "", "P".to_string(), false).to_json());
    w.kv.insert("q".to_string(), new_folder("u".to_string(), "q", "", "Q".to_string(), false).to_json());
    // "q" is not named by the index: nothing is removed
    assert_eq!(run_delete(&mut w, "u", "q"), (1, Ok(false)));
    assert!(w.kv.contains_key("q"));
    // "p" is named by the index: its record goes, the index stays
    assert_eq!(run_delete(&mut w, "u", "p"), (2, Ok(true)));
    assert!(!w.kv.contains_key("p"));
    assert_eq!(w.kv["folders-u"], obj(vec![("k", s("p"))]));
}

#[test]
fn deleting_stops_at_a_failure() {
    match folders_delete("u", "p".to_string()) {
        Step::Next(m, Call::Get(k)) => {
            assert_eq!(k, "folders-u");
            assert_eq!(m, DeleteFolder::Reading("p".to_string()));
            assert_eq!(m.resume(Reply::Value(Err("down".to_string()))), Step::Finish(Err(StoreError::Remote("down".to_string()))));
        },
        other => panic!("{:?}", other),
    }
    assert_eq!(
        DeleteFolder::Deleting.resume(Reply::Written(Err("gone".to_string()))),
        Step::Finish(Err(StoreError::Remote("gone".to_string())))
    );
    assert_eq!(DeleteFolder::Deleting.resume(Reply::Written(Ok(()))), Step::Finish(Ok(true)));
    assert_eq!(
        DeleteFolder::Deleting.resume(Reply::Value(Ok(String::new()))),
        Step::Finish(Err(StoreError::OutOfStep))
    );
}

#[test]
fn a_deleted_folder_breaks_the_listing() {
    let mut w = world();
    let req = FolderUpdateRequest { id: "gone".to_string(), parent: String::new(), title: "G".to_string(), public: false };
    let mut step = folders_create("u".to_string(), req);
    while let Step::Next(m, c) = step {
        let r = w.answer(c);
        step = m.resume(r);
    }
    assert_eq!(run_list(&mut w, "u"), Ok(vec![("gone".to_string(), "u".to_string())]));
    assert_eq!(run_delete(&mut w, "u", "gone"), (2, Ok(true)));
    assert_eq!(run_list(&mut w, "u"), Err(StoreError::Malformed(eof())));
}

#[test]
fn creating_twice_changes_nothing() {
    let mut w = world();
    w.kv.insert("folders-u".to_string(), obj(vec![("x", s("x"))]));
    let make = || FolderUpdateRequest { id: "e".to_string(), parent: "s".to_string(), title: "T".to_string(), public: true };
    let mut answers = Vec::new();
    let mut stores = Vec::new();
    for _ in 0..2 {
        let mut step = folders_create("u".to_string(), make());
        let answer = loop {
            match step {
                Step::Finish(r) => break r,
                Step::Next(m, c) => {
                    let r = w.answer(c);
                    step = m.resume(r);
                },
            }
        };
        answers.push(answer);
        let mut keys: Vec<(String, Json)> = w.kv.iter().map(|(k, v)| (k.clone(), copy(v))).collect();
        keys.sort_by(|a, b| a.0.cmp(&b.0));
        stores.push(keys);
    }
    assert_eq!(answers[0], answers[1]);
    assert_eq!(stores[0], stores[1]);
}

#[test]
fn adding_a_doi_twice_changes_nothing() {
    let mut w = world();
    w.kv.insert("f".to_string(), new_folder("me".to_string(), "f", "", "F".to_string(), false).to_json());
    let work = obj(vec![("message", obj(vec![("DOI", s("10.1/x"))]))]);
    w.work = Some(("https://api.crossref.org/works/10.1/x".to_string(), Response { status: 200, body: json_to_text(&work).into_bytes() }));
    let first = run_doi(&mut w, DoiFetchRequest { folder: "f".to_string(), doi: "10.1/x".to_string() });
    let folder = copy(&w.kv["f"]);
    let second = run_doi(&mut w, DoiFetchRequest { folder: "f".to_string(), doi: "10.1/x".to_string() });
    assert_eq!(first, second);
    assert_eq!(w.kv["f"], folder);
    assert_eq!(w.kv.len(), 2);
}
