use dr_write::web::{
    asset_name, content_type, cors_headers, get_from_cookie, get_name, get_uid, outcome_answer, query_value,
    route, segments, session_headers, Route,
};
use dr_write::store::StoreError;

#[test]
fn preflight_on_any_path() {
    assert_eq!(route("OPTIONS", "/anything/at/all", false), Route::Preflight);
    assert_eq!(route("OPTIONS", "/", true), Route::Preflight);
    assert_eq!(route("OPTIONS", "", false), Route::Preflight);
}

#[test]
fn routes_with_a_session() {
    assert_eq!(route("GET", "/api/app", true), Route::AppStatus);
    assert_eq!(route("GET", "/api/app/", true), Route::AppStatus);
    assert_eq!(route("GET", "/api/app/counter", true), Route::CounterPage);
    assert_eq!(route("POST", "/api/app", true), Route::EchoTest);
    assert_eq!(route("GET", "/api/app/folders", true), Route::IndexPage);
    assert_eq!(route("GET", "/api/folders/next", true), Route::NextFolderId);
    assert_eq!(route("GET", "/api/folder/next", true), Route::NextFolderId);
    assert_eq!(route("POST", "/v2/folders", true), Route::CreateFolder);
    assert_eq!(route("POST", "/api/folders/school_essays", true), Route::UpdateFolder("school_essays".to_string()));
    assert_eq!(route("GET", "/v1/folders", true), Route::ListFolders);
    assert_eq!(route("DELETE", "/v3/folders/x", true), Route::DeleteFolder("x".to_string()));
    assert_eq!(route("POST", "/api/doi", true), Route::CreateDoi);
    assert_eq!(route("GET", "/api/doi/thesis", true), Route::ReadDoi("thesis".to_string()));
    assert_eq!(route("GET", "/pub/folders/p", true), Route::PublicFolder("p".to_string()));
    assert_eq!(route("GET", "/index.html", true), Route::Asset);
    assert_eq!(route("GET", "/api/echo", true), Route::Asset);
    assert_eq!(route("POST", "/api/setup", true), Route::NotFound);
    assert_eq!(route("PUT", "/api/folders", true), Route::NotFound);
    assert_eq!(route("POST", "/v4/folders", true), Route::NotFound);
}

#[test]
fn routes_without_a_session() {
    assert_eq!(route("GET", "/pub/folders/p", false), Route::PublicFolder("p".to_string()));
    assert_eq!(route("GET", "/echo", false), Route::Echo);
    assert_eq!(route("GET", "/api/echo", false), Route::Echo);
    assert_eq!(route("POST", "/api/setup", false), Route::Setup);
    assert_eq!(route("GET", "/api/folders", false), Route::Asset);
    assert_eq!(route("POST", "/api/folders", false), Route::NotFound);
    assert_eq!(route("DELETE", "/", false), Route::NotFound);
}

#[test]
fn path_segments() {
    assert_eq!(segments("/api/app//"), vec!["api".to_string(), "app".to_string()]);
    assert_eq!(segments("/"), vec!["".to_string()]);
    assert_eq!(segments("/a//b"), vec!["a".to_string(), "".to_string(), "b".to_string()]);
}

#[test]
fn cookies() {
    let h = vec!["name=Bob; uid=dr-bob-1".to_string(), "uid=ignored".to_string()];
    assert_eq!(get_uid(Some(&h)), Some("dr-bob-1".to_string()));
    assert_eq!(get_name(Some(&h)), Some("Bob".to_string()));
    assert_eq!(get_from_cookie(Some(&h), "other"), None);
    assert_eq!(get_uid(None), None);
    assert_eq!(get_uid(Some(&vec![])), None);
    let dup = vec!["uid=a; uid=b".to_string()];
    assert_eq!(get_uid(Some(&dup)), Some("a".to_string()));
    let spaced = vec!["  uid = x ;; name=y".to_string()];
    assert_eq!(get_name(Some(&spaced)), Some("y".to_string()));
    // parts without `=` or with an empty name are passed over
    let junk = vec!["plain; =v; uid=z".to_string()];
    assert_eq!(get_uid(Some(&junk)), Some("z".to_string()));
    assert_eq!(get_from_cookie(Some(&junk), "plain"), None);
    assert_eq!(get_from_cookie(Some(&junk), ""), None);
    // the value keeps what follows its first `=`
    let eq = vec!["uid=a=b".to_string()];
    assert_eq!(get_uid(Some(&eq)), Some("a=b".to_string()));
    // an empty first header gives no cookie
    assert_eq!(get_uid(Some(&vec![String::new(), "uid=late".to_string()])), None);
}

#[test]
fn query_parameters() {
    assert_eq!(query_value("doi=10.1%2Fx&b=2", "doi"), Some("10.1/x".to_string()));
    assert_eq!(query_value("a=1&doi=x+y&doi=z", "doi"), Some("x y".to_string()));
    assert_eq!(query_value("a=1", "doi"), None);
    assert_eq!(query_value("", "doi"), None);
}

#[test]
fn asset_names() {
    assert_eq!(asset_name("/"), "index.html");
    assert_eq!(asset_name(" / "), "index.html");
    assert_eq!(asset_name("/css/app.css"), "css/app.css");
    assert_eq!(asset_name("//x.js"), "x.js");
    assert_eq!(asset_name(""), "");
}

#[test]
fn asset_types() {
    assert_eq!(content_type("index.html"), Some("text/html".to_string()));
    assert_eq!(content_type("css/app.css"), Some("text/css".to_string()));
    assert_eq!(content_type("noext"), None);
}

#[test]
fn answer_headers() {
    let h = cors_headers();
    assert_eq!(h.len(), 3);
    assert_eq!(h[0], ("Access-Control-Allow-Origin".to_string(), vec!["*".to_string()]));
    assert_eq!(h[2].1, vec!["GET, OPTIONS, PUT, POST, DELETE".to_string()]);
    let h = session_headers("dr-bob-1");
    assert_eq!(h.len(), 4);
    assert_eq!(h[3], ("Set-cookie".to_string(), vec!["uid=dr-bob-1; Path=/; Max-Age=34473600".to_string()]));
}

#[test]
fn outcome_answers() {
    let a = outcome_answer("dr-bob-1", None);
    assert_eq!(a.status, 200);
    assert_eq!(a.headers, session_headers("dr-bob-1"));
    assert_eq!(a.message, None);
    let a = outcome_answer("dr-bob-1", Some(&StoreError::Status(404)));
    assert_eq!(a.status, 400);
    assert!(a.headers.is_empty());
    assert_eq!(a.message, Some("wfr error: 404".to_string()));
    let a = outcome_answer("u", Some(&StoreError::Remote("down".to_string())));
    assert_eq!(a.message, Some("wfr error: down".to_string()));
    // a missing stored value answers with the JSON parser's message
    let eof = serde_json::from_str::<serde_json::Value>("").unwrap_err().to_string();
    let a = outcome_answer("u", Some(&StoreError::Malformed(eof)));
    assert_eq!(a.message, Some("wfr error: EOF while parsing a value at line 1 column 0".to_string()));
}

#[test]
fn failures_described() {
    assert_eq!(StoreError::Malformed("m".to_string()).describe(), "m");
    assert_eq!(StoreError::InvalidInput.describe(), "invalid input");
    assert_eq!(StoreError::OutOfStep.describe(), "reply out of step");
    assert_eq!(StoreError::NotPublic.describe(), "folder is not public");
    assert_eq!(StoreError::Status(0).describe(), "0");
    assert_eq!(StoreError::Status(65535).describe(), "65535");
    assert_eq!(StoreError::Remote(String::new()).describe(), "");
}
