//! The HTTP side of the actor: which operation a request asks for, who sent it,
//! which embedded file a path names, and the headers of its answers.

use vstd::prelude::*;
use crate::text::{
    chars_of, drop_back, drop_front, is_space, opt_text, push_str, same_chars, same_text, split, split_on,
    string_of, strip_back, strip_front, trim, trimmed, CharClass,
};

use crate::store::{error_text, StoreError};

verus! {

// ---------------------------------------------------------------------------
// Routing
// ---------------------------------------------------------------------------

/// What a request asks for.
#[derive(Debug, PartialEq)]
pub enum Route {
    /// `OPTIONS` on any path: the CORS preflight.
    Preflight,
    /// `GET api/app`: the caller's session.
    AppStatus,
    /// `GET api/app/counter`: advance the DOI counter.
    CounterPage,
    /// `POST api/app`: echo a test body.
    EchoTest,
    /// `GET api/app/folders`: the members of the folder index.
    IndexPage,
    /// `GET api/folders/next` or `GET api/folder/next`: advance the folder counter.
    NextFolderId,
    /// `POST {api,v1,v2,v3}/folders`.
    CreateFolder,
    /// `POST {api,v1,v2,v3}/folders/{path}`.
    UpdateFolder(String),
    /// `GET {api,v1,v2,v3}/folders`.
    ListFolders,
    /// `DELETE {api,v1,v2,v3}/folders/{path}`.
    DeleteFolder(String),
    /// `POST {api,v1,v2,v3}/doi`.
    CreateDoi,
    /// `GET {api,v1,v2,v3}/doi/{folder}`.
    ReadDoi(String),
    /// `GET pub/folders/{path}`.
    PublicFolder(String),
    /// `GET echo` or `GET api/echo` without a session.
    Echo,
    /// `POST api/setup` without a session.
    Setup,
    /// Any other `GET`: an embedded file.
    Asset,
    /// Anything else.
    NotFound,
}

pub enum RouteView {
    Preflight,
    AppStatus,
    CounterPage,
    EchoTest,
    IndexPage,
    NextFolderId,
    CreateFolder,
    UpdateFolder(Seq<char>),
    ListFolders,
    DeleteFolder(Seq<char>),
    CreateDoi,
    ReadDoi(Seq<char>),
    PublicFolder(Seq<char>),
    Echo,
    Setup,
    Asset,
    NotFound,
}

impl View for Route {
    type V = RouteView;

    open spec fn view(&self) -> RouteView {
        match self {
            Route::Preflight => RouteView::Preflight,
            Route::AppStatus => RouteView::AppStatus,
            Route::CounterPage => RouteView::CounterPage,
            Route::EchoTest => RouteView::EchoTest,
            Route::IndexPage => RouteView::IndexPage,
            Route::NextFolderId => RouteView::NextFolderId,
            Route::CreateFolder => RouteView::CreateFolder,
            Route::UpdateFolder(p) => RouteView::UpdateFolder(p@),
            Route::ListFolders => RouteView::ListFolders,
            Route::DeleteFolder(p) => RouteView::DeleteFolder(p@),
            Route::CreateDoi => RouteView::CreateDoi,
            Route::ReadDoi(p) => RouteView::ReadDoi(p@),
            Route::PublicFolder(p) => RouteView::PublicFolder(p@),
            Route::Echo => RouteView::Echo,
            Route::Setup => RouteView::Setup,
            Route::Asset => RouteView::Asset,
            Route::NotFound => RouteView::NotFound,
        }
    }
}

/// The segments of a request path: the path without its leading character and its
/// trailing `/`s, split at each `/`.
pub open spec fn request_segments(path: Seq<char>) -> Seq<Seq<char>> {
    split_on(drop_back(path.drop_first(), CharClass::Exactly('/')), '/')
}

/// An API version segment: `api`, `v1`, `v2` or `v3`.
pub open spec fn is_version(s: Seq<char>) -> bool {
    s == "api"@ || s == "v1"@ || s == "v2"@ || s == "v3"@
}

/// `segs` is `[a, b]`.
pub open spec fn is2(segs: Seq<Seq<char>>, a: Seq<char>, b: Seq<char>) -> bool {
    segs.len() == 2 && segs[0] == a && segs[1] == b
}

/// `segs` is `[a, b, c]`.
pub open spec fn is3(segs: Seq<Seq<char>>, a: Seq<char>, b: Seq<char>, c: Seq<char>) -> bool {
    segs.len() == 3 && segs[0] == a && segs[1] == b && segs[2] == c
}

/// `segs` is `[version, b]`.
pub open spec fn versioned2(segs: Seq<Seq<char>>, b: Seq<char>) -> bool {
    segs.len() == 2 && is_version(segs[0]) && segs[1] == b
}

/// `segs` is `[version, b, _]`.
pub open spec fn versioned3(segs: Seq<Seq<char>>, b: Seq<char>) -> bool {
    segs.len() == 3 && is_version(segs[0]) && segs[1] == b
}

/// The route of a request with a session.
pub open spec fn signed_in_route(method: Seq<char>, segs: Seq<Seq<char>>) -> RouteView {
    let get = method == "GET"@;
    let post = method == "POST"@;
    if get && is2(segs, "api"@, "app"@) {
        RouteView::AppStatus
    } else if get && is3(segs, "api"@, "app"@, "counter"@) {
        RouteView::CounterPage
    } else if post && is2(segs, "api"@, "app"@) {
        RouteView::EchoTest
    } else if get && is3(segs, "api"@, "app"@, "folders"@) {
        RouteView::IndexPage
    } else if get && (is3(segs, "api"@, "folders"@, "next"@) || is3(
        segs,
        "api"@,
        "folder"@,
        "next"@,
    )) {
        RouteView::NextFolderId
    } else if post && versioned2(segs, "folders"@) {
        RouteView::CreateFolder
    } else if post && versioned3(segs, "folders"@) {
        RouteView::UpdateFolder(segs[2])
    } else if get && versioned2(segs, "folders"@) {
        RouteView::ListFolders
    } else if method == "DELETE"@ && versioned3(segs, "folders"@) {
        RouteView::DeleteFolder(segs[2])
    } else if post && versioned2(segs, "doi"@) {
        RouteView::CreateDoi
    } else if get && versioned3(segs, "doi"@) {
        RouteView::ReadDoi(segs[2])
    } else if get && segs.len() == 3 && segs[0] == "pub"@ && segs[1] == "folders"@ {
        RouteView::PublicFolder(segs[2])
    } else if get {
        RouteView::Asset
    } else {
        RouteView::NotFound
    }
}

/// The route of a request without a session.
pub open spec fn anonymous_route(method: Seq<char>, segs: Seq<Seq<char>>) -> RouteView {
    let get = method == "GET"@;
    if get && segs.len() == 3 && segs[0] == "pub"@ && segs[1] == "folders"@ {
        RouteView::PublicFolder(segs[2])
    } else if get && (segs == seq!["echo"@] || is2(segs, "api"@, "echo"@)) {
        RouteView::Echo
    } else if method == "POST"@ && is2(segs, "api"@, "setup"@) {
        RouteView::Setup
    } else if get {
        RouteView::Asset
    } else {
        RouteView::NotFound
    }
}

/// The route of a request with method `method` on `path`.
pub open spec fn routed(method: Seq<char>, path: Seq<char>, signed_in: bool) -> RouteView {
    if method == "OPTIONS"@ {
        RouteView::Preflight
    } else if signed_in {
        signed_in_route(method, request_segments(path))
    } else {
        anonymous_route(method, request_segments(path))
    }
}

/// Whether a request path can be cut after its first byte: it is not empty and
/// starts with a one-byte character.
pub open spec fn path_cuttable(path: Seq<char>) -> bool {
    path.len() > 0 && (path[0] as u32) < 0x80
}

/// The segments of a request path.
pub fn segments(path: &str) -> (r: Vec<String>)
    requires
        path_cuttable(path@),
    ensures
        r@.map_values(|p: String| p@) == request_segments(path@),
{
    let cs = chars_of(path);
    let mut rest: Vec<char> = Vec::new();
    let mut i: usize = 1;
    while i < cs.len()
        invariant
            1 <= i <= cs.len(),
            cs@ == path@,
            rest@ == cs@.subrange(1, i as int),
        decreases cs.len() - i,
    {
        rest.push(cs[i]);
        i = i + 1;
        assert(rest@ =~= cs@.subrange(1, i as int));
    }
    assert(rest@ =~= path@.drop_first());
    let trimmed_rest = strip_back(&rest, &CharClass::Exactly('/'));
    split(&trimmed_rest, '/')
}

/// Whether segment `i` is `lit`.
fn seg_is(segs: &Vec<String>, i: usize, lit: &str) -> (r: bool)
    ensures
        r == (i < segs@.len() && segs@[i as int]@ == lit@),
{
    if i < segs.len() {
        same_text(segs[i].as_str(), lit)
    } else {
        false
    }
}

fn seg_is_version(segs: &Vec<String>, i: usize) -> (r: bool)
    ensures
        r == (i < segs@.len() && is_version(segs@[i as int]@)),
{
    seg_is(segs, i, "api") || seg_is(segs, i, "v1") || seg_is(segs, i, "v2") || seg_is(segs, i, "v3")
}

fn route_signed_in(method: &str, segs: &Vec<String>) -> (r: Route)
    ensures
        r@ == signed_in_route(method@, segs@.map_values(|p: String| p@)),
{
    let ghost sv = segs@.map_values(|p: String| p@);
    let get = same_text(method, "GET");
    let post = same_text(method, "POST");
    let n = segs.len();
    assert(sv.len() == n);
    assert forall|k: int| 0 <= k < n implies #[trigger] sv[k] == segs@[k]@ by {}
    if get && n == 2 && seg_is(segs, 0, "api") && seg_is(segs, 1, "app") {
        return Route::AppStatus;
    }
    assert(!(get && is2(sv, "api"@, "app"@)));
    if get && n == 3 && seg_is(segs, 0, "api") && seg_is(segs, 1, "app") && seg_is(segs, 2, "counter") {
        return Route::CounterPage;
    }
    assert(!(get && is3(sv, "api"@, "app"@, "counter"@)));
    if post && n == 2 && seg_is(segs, 0, "api") && seg_is(segs, 1, "app") {
        return Route::EchoTest;
    }
    assert(!(post && is2(sv, "api"@, "app"@)));
    if get && n == 3 && seg_is(segs, 0, "api") && seg_is(segs, 1, "app") && seg_is(segs, 2, "folders") {
        return Route::IndexPage;
    }
    assert(!(get && is3(sv, "api"@, "app"@, "folders"@)));
    if get && n == 3 && seg_is(segs, 0, "api") && (seg_is(segs, 1, "folders") || seg_is(
        segs,
        1,
        "folder",
    )) && seg_is(segs, 2, "next") {
        return Route::NextFolderId;
    }
    assert(!(get && (is3(sv, "api"@, "folders"@, "next"@) || is3(sv, "api"@, "folder"@, "next"@))));
    if post && n == 2 && seg_is_version(segs, 0) && seg_is(segs, 1, "folders") {
        return Route::CreateFolder;
    }
    assert(!(post && versioned2(sv, "folders"@)));
    if post && n == 3 && seg_is_version(segs, 0) && seg_is(segs, 1, "folders") {
        return Route::UpdateFolder(segs[2].clone());
    }
    assert(!(post && versioned3(sv, "folders"@)));
    if get && n == 2 && seg_is_version(segs, 0) && seg_is(segs, 1, "folders") {
        return Route::ListFolders;
    }
    assert(!(get && versioned2(sv, "folders"@)));
    if same_text(method, "DELETE") && n == 3 && seg_is_version(segs, 0) && seg_is(segs, 1, "folders") {
        return Route::DeleteFolder(segs[2].clone());
    }
    assert(!(method@ == "DELETE"@ && versioned3(sv, "folders"@)));
    if post && n == 2 && seg_is_version(segs, 0) && seg_is(segs, 1, "doi") {
        return Route::CreateDoi;
    }
    assert(!(post && versioned2(sv, "doi"@)));
    if get && n == 3 && seg_is_version(segs, 0) && seg_is(segs, 1, "doi") {
        return Route::ReadDoi(segs[2].clone());
    }
    assert(!(get && versioned3(sv, "doi"@)));
    if get && n == 3 && seg_is(segs, 0, "pub") && seg_is(segs, 1, "folders") {
        return Route::PublicFolder(segs[2].clone());
    }
    if get {
        Route::Asset
    } else {
        Route::NotFound
    }
}

fn route_anonymous(method: &str, segs: &Vec<String>) -> (r: Route)
    ensures
        r@ == anonymous_route(method@, segs@.map_values(|p: String| p@)),
{
    let ghost sv = segs@.map_values(|p: String| p@);
    let get = same_text(method, "GET");
    let n = segs.len();
    assert(sv.len() == n);
    assert forall|k: int| 0 <= k < n implies #[trigger] sv[k] == segs@[k]@ by {}
    if get && n == 3 && seg_is(segs, 0, "pub") && seg_is(segs, 1, "folders") {
        return Route::PublicFolder(segs[2].clone());
    }
    if get && ((n == 1 && seg_is(segs, 0, "echo")) || (n == 2 && seg_is(segs, 0, "api") && seg_is(
        segs,
        1,
        "echo",
    ))) {
        proof {
            if n == 1 {
                assert(sv =~= seq!["echo"@]);
            }
        }
        return Route::Echo;
    }
    assert(sv == seq!["echo"@] ==> n == 1 && sv[0] == "echo"@);
    if same_text(method, "POST") && n == 2 && seg_is(segs, 0, "api") && seg_is(segs, 1, "setup") {
        return Route::Setup;
    }
    if get {
        Route::Asset
    } else {
        Route::NotFound
    }
}

fn route_segments(method: &str, segs: &Vec<String>, signed_in: bool) -> (r: Route)
    ensures
        r@ == if signed_in {
            signed_in_route(method@, segs@.map_values(|p: String| p@))
        } else {
            anonymous_route(method@, segs@.map_values(|p: String| p@))
        },
{
    if signed_in {
        route_signed_in(method, segs)
    } else {
        route_anonymous(method, segs)
    }
}

/// The route of a request: its method, its path, and whether it carries a session.
pub fn route(method: &str, path: &str, signed_in: bool) -> (r: Route)
    requires
        method@ != "OPTIONS"@ ==> path_cuttable(path@),
    ensures
        r@ == routed(method@, path@, signed_in),
{
    if same_text(method, "OPTIONS") {
        return Route::Preflight;
    }
    let segs = segments(path);
    route_segments(method, &segs, signed_in)
}

// ---------------------------------------------------------------------------
// Cookies and query strings
// ---------------------------------------------------------------------------

/// Whether every character of `s` is white space (an empty `s` is blank).
pub open spec fn blank(s: Seq<char>) -> bool {
    forall|i: int| 0 <= i < s.len() ==> is_space(#[trigger] s[i])
}

/// The position of the first `c` in `s`, or -1.
pub open spec fn first_pos(s: Seq<char>, c: char) -> int
    decreases s.len(),
{
    if s.len() == 0 {
        -1
    } else if s[0] == c {
        0
    } else if first_pos(s.drop_first(), c) < 0 {
        -1
    } else {
        first_pos(s.drop_first(), c) + 1
    }
}

/// The cookie a part of a `Cookie` header holds: the text before its first `=`
/// and the text after it, each without surrounding white space; nothing when the
/// part has no `=` or the name is empty.
pub open spec fn cookie_of(part: Seq<char>) -> Option<(Seq<char>, Seq<char>)> {
    let i = first_pos(part, '=');
    if i < 0 {
        None
    } else if trimmed(part.take(i)).len() == 0 {
        None
    } else {
        Some((trimmed(part.take(i)), trimmed(part.skip(i + 1))))
    }
}

/// The cookies that `cookie::Cookie::split_parse` reads from a `Cookie` header:
/// one for each `;`-separated part that is not blank, in order; nothing for a
/// part that does not parse.
pub open spec fn cookie_pairs(header: Seq<char>) -> Seq<Option<(Seq<char>, Seq<char>)>> {
    split_on(header, ';').filter(|p: Seq<char>| !blank(p)).map_values(|p: Seq<char>| cookie_of(p))
}

pub open spec fn opt_pair_view(o: Option<(String, String)>) -> Option<(Seq<char>, Seq<char>)> {
    match o {
        Some(p) => Some((p.0@, p.1@)),
        None => None,
    }
}

/// Trusted: calls `cookie::Cookie::split_parse` on `header` and gives, for each item
/// of its iterator, the cookie's `name()` and `value()`, or nothing for a parse
/// error. Claims that the result is `cookie_pairs(header)`: `split_parse` splits the
/// header at `;`, skips the parts that are all white space, and parses each trimmed
/// part without percent-decoding, cutting it at its first `=` into a trimmed name
/// and value and failing when there is no `=` or the name is empty.
#[verifier::external_body]
fn split_cookies(header: &str) -> (r: Vec<Option<(String, String)>>)
    ensures
        r@.map_values(|o: Option<(String, String)>| opt_pair_view(o)) == cookie_pairs(header@),
{
    cookie::Cookie::split_parse(header).map(|c| match c {
        Ok(c) => Some((c.name().to_string(), c.value().to_string())),
        Err(_) => None,
    }).collect()
}

/// The value of the first cookie called `field` among `pairs`.
pub open spec fn first_cookie(pairs: Seq<Option<(Seq<char>, Seq<char>)>>, field: Seq<char>) -> Option<
    Seq<char>,
>
    decreases pairs.len(),
{
    if pairs.len() == 0 {
        None
    } else {
        match pairs[0] {
            Some(p) => if p.0 == field {
                Some(p.1)
            } else {
                first_cookie(pairs.drop_first(), field)
            },
            None => first_cookie(pairs.drop_first(), field),
        }
    }
}

/// The value of cookie `field` in a request whose `cookie` header has the values
/// `cookie_header` (none when there is no such header): the first parsed cookie of
/// that name in the header's first value (an empty header when it has no value).
pub open spec fn cookie_value(cookie_header: Option<Seq<Seq<char>>>, field: Seq<char>) -> Option<
    Seq<char>,
> {
    match cookie_header {
        None => None,
        Some(values) => first_cookie(
            cookie_pairs(
                if values.len() > 0 {
                    values[0]
                } else {
                    Seq::empty()
                },
            ),
            field,
        ),
    }
}

pub open spec fn opt_texts(o: Option<&Vec<String>>) -> Option<Seq<Seq<char>>> {
    match o {
        Some(v) => Some(v@.map_values(|s: String| s@)),
        None => None,
    }
}

/// The value of cookie `field`.
pub fn get_from_cookie(cookie_header: Option<&Vec<String>>, field: &str) -> (r: Option<String>)
    ensures
        opt_text(r) == cookie_value(opt_texts(cookie_header), field@),
{
    match cookie_header {
        None => None,
        Some(values) => {
            let empty = String::new();
            let first = if values.len() > 0 {
                &values[0]
            } else {
                &empty
            };
            let pairs = split_cookies(first.as_str());
            let ghost pv = pairs@.map_values(|o: Option<(String, String)>| opt_pair_view(o));
            let mut i: usize = 0;
            assert(pv.skip(0) =~= pv);
            assert(values.len() > 0 ==> first@ == values@.map_values(|s: String| s@)[0]);
            assert(cookie_value(opt_texts(cookie_header), field@) == first_cookie(pv, field@));
            while i < pairs.len()
                invariant
                    0 <= i <= pairs.len(),
                    cookie_value(opt_texts(cookie_header), field@) == first_cookie(pv, field@),
                    pv == pairs@.map_values(|o: Option<(String, String)>| opt_pair_view(o)),
                    first_cookie(pv, field@) == first_cookie(pv.skip(i as int), field@),
                decreases pairs.len() - i,
            {
                let ghost rest = pv.skip(i as int);
                assert(rest[0] == opt_pair_view(pairs@[i as int]));
                assert(rest.drop_first() =~= pv.skip(i + 1));
                match &pairs[i] {
                    Some((name, value)) => {
                        if same_text(name.as_str(), field) {
                            return Some(value.clone());
                        }
                    },
                    None => {},
                }
                i = i + 1;
            }
            None
        },
    }
}

/// The session id of a request: its `uid` cookie.
pub fn get_uid(cookie_header: Option<&Vec<String>>) -> (r: Option<String>)
    ensures
        opt_text(r) == cookie_value(opt_texts(cookie_header), "uid"@),
{
    get_from_cookie(cookie_header, "uid")
}

/// The user name of a request: its `name` cookie.
pub fn get_name(cookie_header: Option<&Vec<String>>) -> (r: Option<String>)
    ensures
        opt_text(r) == cookie_value(opt_texts(cookie_header), "name"@),
{
    get_from_cookie(cookie_header, "name")
}

/// The name/value pairs that `form_urlencoded::parse` reads from a query string
/// (percent-decoded, `+` read as a space), in order.
pub uninterp spec fn query_pairs(query: Seq<char>) -> Seq<(Seq<char>, Seq<char>)>;

/// Trusted: calls `form_urlencoded::parse` on the bytes of `query` and collects the
/// pairs it gives. Claims only that the result is `query_pairs(query)`, a function
/// of the query alone.
#[verifier::external_body]
fn parse_query(query: &str) -> (r: Vec<(String, String)>)
    ensures
        r@.map_values(|p: (String, String)| (p.0@, p.1@)) == query_pairs(query@),
{
    form_urlencoded::parse(query.as_bytes()).map(|(n, v)| (n.into_owned(), v.into_owned())).collect()
}

/// The value of the first pair called `name`.
pub open spec fn first_value(pairs: Seq<(Seq<char>, Seq<char>)>, name: Seq<char>) -> Option<Seq<char>>
    decreases pairs.len(),
{
    if pairs.len() == 0 {
        None
    } else if pairs[0].0 == name {
        Some(pairs[0].1)
    } else {
        first_value(pairs.drop_first(), name)
    }
}

/// The value of query parameter `name`: its first occurrence.
pub fn query_value(query: &str, name: &str) -> (r: Option<String>)
    ensures
        opt_text(r) == first_value(query_pairs(query@), name@),
{
    let pairs = parse_query(query);
    let ghost pv = pairs@.map_values(|p: (String, String)| (p.0@, p.1@));
    let mut i: usize = 0;
    assert(pv.skip(0) =~= pv);
    while i < pairs.len()
        invariant
            0 <= i <= pairs.len(),
            pv == pairs@.map_values(|p: (String, String)| (p.0@, p.1@)),
            pv == query_pairs(query@),
            first_value(pv, name@) == first_value(pv.skip(i as int), name@),
        decreases pairs.len() - i,
    {
        let ghost rest = pv.skip(i as int);
        assert(rest[0] == (pairs@[i as int].0@, pairs@[i as int].1@));
        assert(rest.drop_first() =~= pv.skip(i + 1));
        if same_text(pairs[i].0.as_str(), name) {
            return Some(pairs[i].1.clone());
        }
        i = i + 1;
    }
    None
}

// ---------------------------------------------------------------------------
// Embedded files
// ---------------------------------------------------------------------------

/// The embedded file a `GET` path names: `index.html` for `/`, else the path
/// without surrounding white space and leading `/`s.
pub open spec fn asset_name_of(path: Seq<char>) -> Seq<char> {
    if trimmed(path) == "/"@ {
        "index.html"@
    } else {
        drop_front(trimmed(path), CharClass::Exactly('/'))
    }
}

/// The embedded file a path names.
pub fn asset_name(path: &str) -> (r: String)
    ensures
        r@ == asset_name_of(path@),
{
    let cs = chars_of(path);
    let t = trim(&cs);
    let slash = chars_of("/");
    if same_chars(&t, &slash) {
        String::from_str("index.html")
    } else {
        let s = strip_front(&t, &CharClass::Exactly('/'));
        string_of(s.as_slice())
    }
}

/// The media type that `mime_guess::from_path(path).first()` gives for a file
/// name, as text.
pub uninterp spec fn guessed_mime(path: Seq<char>) -> Option<Seq<char>>;

/// Trusted: calls `mime_guess::from_path(path).first()` and renders the media type
/// with `to_string`. Claims only that the result is `guessed_mime(path)`, a function
/// of the name alone.
#[verifier::external_body]
fn guess_mime(path: &str) -> (r: Option<String>)
    ensures
        opt_text(r) == guessed_mime(path@),
{
    mime_guess::from_path(path).first().map(|m| m.to_string())
}

/// The content type of the embedded file `name`.
pub fn content_type(name: &str) -> (r: Option<String>)
    ensures
        opt_text(r) == guessed_mime(name@),
{
    guess_mime(name)
}

// ---------------------------------------------------------------------------
// Answer headers
// ---------------------------------------------------------------------------

pub type Headers = Seq<(Seq<char>, Seq<Seq<char>>)>;

pub open spec fn headers_view(h: Seq<(String, Vec<String>)>) -> Headers {
    h.map_values(|e: (String, Vec<String>)| (e.0@, e.1@.map_values(|s: String| s@)))
}

/// The CORS headers of every answer.
pub open spec fn cors_headers_view() -> Headers {
    seq![
        ("Access-Control-Allow-Origin"@, seq!["*"@]),
        ("Access-Control-Allow-Headers"@, seq!["*"@]),
        ("Access-Control-Allow-Methods"@, seq!["GET, OPTIONS, PUT, POST, DELETE"@]),
    ]
}

/// The headers of an answer to a signed-in request: the CORS headers and the
/// cookie that keeps the session for 34473600 seconds.
pub open spec fn session_headers_view(uid: Seq<char>) -> Headers {
    cors_headers_view().push(
        ("Set-cookie"@, seq!["uid="@ + uid + "; Path=/; Max-Age=34473600"@]),
    )
}

fn header(name: &str, value: String) -> (h: (String, Vec<String>))
    ensures
        h.0@ == name@,
        h.1@.map_values(|s: String| s@) == seq![value@],
{
    let mut v: Vec<String> = Vec::new();
    v.push(value);
    assert(v@.map_values(|s: String| s@) =~= seq![value@]);
    (String::from_str(name), v)
}

/// The CORS headers.
pub fn cors_headers() -> (h: Vec<(String, Vec<String>)>)
    ensures
        headers_view(h@) == cors_headers_view(),
{
    let mut h: Vec<(String, Vec<String>)> = Vec::new();
    h.push(header("Access-Control-Allow-Origin", String::from_str("*")));
    h.push(header("Access-Control-Allow-Headers", String::from_str("*")));
    h.push(header("Access-Control-Allow-Methods", String::from_str("GET, OPTIONS, PUT, POST, DELETE")));
    assert(headers_view(h@) =~= cors_headers_view());
    h
}

/// The headers of an answer that keeps the session `uid`.
pub fn session_headers(uid: &str) -> (h: Vec<(String, Vec<String>)>)
    ensures
        headers_view(h@) == session_headers_view(uid@),
{
    let mut h = cors_headers();
    let mut cookie: Vec<char> = Vec::new();
    push_str(&mut cookie, "uid=");
    push_str(&mut cookie, uid);
    push_str(&mut cookie, "; Path=/; Max-Age=34473600");
    let ghost before = h@;
    h.push(header("Set-cookie", string_of(cookie.as_slice())));
    assert(headers_view(h@) =~= headers_view(before).push(
        ("Set-cookie"@, seq!["uid="@ + uid@ + "; Path=/; Max-Age=34473600"@]),
    ));
    h
}

/// With a session, the folder operations answer on every API version: for a
/// version segment `v` of `api`, `v1`, `v2` or `v3`, a path whose segments are
/// `[v, "folders"]` routes `GET` to the listing of the user's folders and `POST`
/// to creating one, and a path whose segments are `[v, "folders", p]` routes
/// `DELETE` to deleting folder `p` and `POST` to updating it.
pub proof fn folder_routes_on_every_version(v: Seq<char>, p: Seq<char>, path: Seq<char>)
    requires
        v == "api"@ || v == "v1"@ || v == "v2"@ || v == "v3"@,
    ensures
        request_segments(path) == seq![v, "folders"@] ==> routed("GET"@, path, true) == RouteView::ListFolders
            && routed("POST"@, path, true) == RouteView::CreateFolder,
        request_segments(path) == seq![v, "folders"@, p] ==> routed("DELETE"@, path, true)
            == RouteView::DeleteFolder(p) && routed("POST"@, path, true) == RouteView::UpdateFolder(p),
{
    reveal_strlit("api");
    reveal_strlit("v1");
    reveal_strlit("v2");
    reveal_strlit("v3");
    reveal_strlit("app");
    reveal_strlit("folders");
    reveal_strlit("GET");
    reveal_strlit("POST");
    reveal_strlit("DELETE");
    reveal_strlit("OPTIONS");
    reveal_strlit("counter");
    reveal_strlit("next");
    reveal_strlit("folder");
    assert("folders"@.len() == 7 && "app"@.len() == 3 && "folder"@.len() == 6);
    assert("GET"@.len() == 3 && "POST"@.len() == 4 && "DELETE"@.len() == 6 && "OPTIONS"@.len() == 7);
}

/// With a session, the DOI operations answer on every API version: for a
/// version segment `v` of `api`, `v1`, `v2` or `v3`, `POST` on a path whose
/// segments are `[v, "doi"]` adds a DOI, and `GET` on one whose segments are
/// `[v, "doi", f]` reads a DOI of folder `f`.
pub proof fn doi_routes_on_every_version(v: Seq<char>, f: Seq<char>, path: Seq<char>)
    requires
        v == "api"@ || v == "v1"@ || v == "v2"@ || v == "v3"@,
    ensures
        request_segments(path) == seq![v, "doi"@] ==> routed("POST"@, path, true) == RouteView::CreateDoi,
        request_segments(path) == seq![v, "doi"@, f] ==> routed("GET"@, path, true) == RouteView::ReadDoi(f),
{
    reveal_strlit("api");
    reveal_strlit("v1");
    reveal_strlit("v2");
    reveal_strlit("v3");
    reveal_strlit("app");
    reveal_strlit("doi");
    reveal_strlit("folders");
    reveal_strlit("folder");
    reveal_strlit("GET");
    reveal_strlit("POST");
    reveal_strlit("OPTIONS");
    assert("doi"@.len() == 3 && "app"@.len() == 3 && "folders"@.len() == 7 && "folder"@.len() == 6);
    assert("doi"@[0] == 'd' && "app"@[0] == 'a');
    assert("GET"@.len() == 3 && "POST"@.len() == 4 && "OPTIONS"@.len() == 7);
}

/// A public folder can be read with or without a session: the path
/// `pub/folders/{p}` routes to it either way.
pub proof fn public_folders_need_no_session(method: Seq<char>, p: Seq<char>)
    requires
        method == "GET"@,
    ensures
        signed_in_route(method, seq!["pub"@, "folders"@, p]) == RouteView::PublicFolder(p),
        anonymous_route(method, seq!["pub"@, "folders"@, p]) == RouteView::PublicFolder(p),
{
    reveal_strlit("pub");
    reveal_strlit("api");
    reveal_strlit("v1");
    reveal_strlit("v2");
    reveal_strlit("v3");
    assert("pub"@.len() == 3 && "pub"@[0] == 'p');
    assert("api"@[0] == 'a');
    assert("v1"@.len() == 2);
    assert("v2"@.len() == 2);
    assert("v3"@.len() == 2);
    assert(!is_version("pub"@));
}

proof fn lemma_drop_front_head(s: Seq<char>, c: char)
    ensures
        drop_front(s, CharClass::Exactly(c)).len() == 0 || drop_front(s, CharClass::Exactly(c))[0]
            != c,
    decreases s.len(),
{
    if s.len() > 0 && s[0] == c {
        lemma_drop_front_head(s.drop_first(), c);
    }
}

/// The file an asset path names never starts with `/`: it is `index.html` or the
/// path with its leading `/`s removed.
pub proof fn asset_names_are_relative(path: Seq<char>)
    ensures
        asset_name_of(path) == "index.html"@ || asset_name_of(path).len() == 0 || asset_name_of(
            path,
        )[0] != '/',
{
    lemma_drop_front_head(trimmed(path), '/');
}


/// How the outcome of an operation is answered: its status, its headers, and the
/// message of a failure.
#[derive(Debug, PartialEq)]
pub struct Answer {
    pub status: u16,
    pub headers: Vec<(String, Vec<String>)>,
    pub message: Option<String>,
}

/// The answer to an operation signed in as `uid`: a success is answered `200`
/// with the session headers; a failure `400`, with no headers and a message that
/// describes it.
pub fn outcome_answer(uid: &str, failure: Option<&StoreError>) -> (a: Answer)
    ensures
        match failure {
            None => a.status == 200 && headers_view(a.headers@) == session_headers_view(uid@)
                && a.message is None,
            Some(e) => a.status == 400 && a.headers@.len() == 0 && opt_text(a.message) == Some(
                "wfr error: "@ + error_text(*e),
            ),
        },
{
    match failure {
        None => Answer { status: 200, headers: session_headers(uid), message: None },
        Some(e) => {
            let mut out: Vec<char> = Vec::new();
            push_str(&mut out, "wfr error: ");
            let d = e.describe();
            push_str(&mut out, d.as_str());
            Answer { status: 400, headers: Vec::new(), message: Some(string_of(out.as_slice())) }
        },
    }
}

} // verus!
