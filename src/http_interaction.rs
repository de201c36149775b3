//! Emulation of a small, vulnerable-looking corporate web application.
//! Login attempts are captured and always refused; nothing is ever served
//! from real storage.
use vstd::prelude::*;

use crate::text::{chars_of, contains_seq, contains_str, ends_with_seq, ends_with_str, find_char, index_of, split_on, split_seq, strings_view, text_eq};

verus! {

#[allow(non_camel_case_types)]
#[derive(Debug, Clone, Copy, PartialEq, Eq, Structural)]
pub enum HttpMethod {
    GET,
    POST,
    PUT,
    DELETE,
    HEAD,
    OPTIONS,
}

/// One request; headers keep the order in which they arrived.
#[derive(Debug, Clone)]
pub struct HttpRequest {
    pub method: HttpMethod,
    pub path: String,
    pub headers: Vec<(String, String)>,
    pub body: Option<String>,
}

/// One response, built afresh for each request.
#[derive(Debug, Clone)]
pub struct HttpResponse {
    pub status: u16,
    pub status_text: String,
    pub headers: Vec<(String, String)>,
    pub body: String,
}

#[derive(Debug, Clone)]
pub struct HttpStats {
    pub request_count: usize,
    pub login_attempts: usize,
    pub captured_credentials: Vec<(String, String)>,
}

/// The page or reaction a request is routed to.
#[derive(Debug, Clone, Copy, PartialEq, Eq, Structural)]
pub enum Route {
    Homepage,
    LoginPage,
    LoginSubmit,
    AdminPage,
    FakeConfig,
    PhpProbe,
    DirectoryTraversal,
    NotFound,
}

/// Attack signatures recognised in a request path.
#[derive(Debug, Clone, Copy, PartialEq, Eq, Structural)]
pub enum HttpAttack {
    /// `UNION`, `SELECT` or a single quote.
    SqlInjection,
    /// `<script>` or `javascript:`.
    CrossSiteScripting,
    /// `;`, `|` or a backquote.
    CommandInjection,
    /// `../` or `..\`.
    DirectoryTraversal,
}

/// One emulated web session.
pub struct HttpInteractionHandler {
    session_id: String,
    request_count: usize,
    login_attempts: Vec<(String, String)>,
}

pub const HOMEPAGE_HTML: &'static str = "<!DOCTYPE html>
<html>
<head>
    <title>Corporate Portal</title>
</head>
<body>
    <h1>Welcome to Corporate Portal</h1>
    <p><a href=\"/login\">Login</a></p>
    <p><a href=\"/admin\">Admin Panel</a></p>
</body>
</html>";

pub const LOGIN_PAGE_HTML: &'static str = "<!DOCTYPE html>
<html>
<head>
    <title>Login - Corporate Portal</title>
</head>
<body>
    <h2>Login</h2>
    <form method=\"POST\" action=\"/login\">
        <input type=\"text\" name=\"username\" placeholder=\"Username\"><br>
        <input type=\"password\" name=\"password\" placeholder=\"Password\"><br>
        <button type=\"submit\">Login</button>
    </form>
</body>
</html>";

pub const LOGIN_FAILED_HTML: &'static str = "<!DOCTYPE html>
<html>
<head>
    <title>Login Failed</title>
</head>
<body>
    <h2>Login Failed</h2>
    <p>Invalid credentials. <a href=\"/login\">Try again</a></p>
</body>
</html>";

pub const ADMIN_DENIED_HTML: &'static str = "<!DOCTYPE html>
<html>
<head>
    <title>Admin Panel</title>
</head>
<body>
    <h2>Access Denied</h2>
    <p>You must be logged in to access this page.</p>
    <p><a href=\"/login\">Login</a></p>
</body>
</html>";

/// Synthetic secrets, leaked on purpose; none of them is real.
pub const FAKE_CONFIG_JSON: &'static str = "{
    \"version\": \"1.0.0\",
    \"database\": {
        \"host\": \"localhost\",
        \"port\": 3306,
        \"name\": \"corporate_db\"
    },
    \"api_key\": \"sk-fake-key-12345\",
    \"admin_email\": \"admin@corporate.com\"
}";

pub const NOT_FOUND_HTML: &'static str = "<html><body><h1>404 Not Found</h1></body></html>";

pub const FORBIDDEN_HTML: &'static str = "<html><body><h1>403 Forbidden</h1></body></html>";

/// Milliseconds every request is held before its reply.
pub const PROCESSING_DELAY_MS: u64 = 50;
/// Extra milliseconds a submitted login is held, as if checked.
pub const LOGIN_CHECK_DELAY_MS: u64 = 1000;

/// What `urlencoding::decode` yields for `s`, an undecodable input giving
/// the empty string.
pub uninterp spec fn url_decoded(s: Seq<char>) -> Seq<char>;

/// Relies on `urlencoding::decode`: `%XX` escapes are decoded and the
/// result depends on `s` alone; a string without `%` comes back unchanged.
/// A result that is not UTF-8 is replaced by the empty string.
#[verifier::external_body]
fn url_decode(s: &str) -> (r: String)
    ensures
        r@ == url_decoded(s@),
        !s@.contains('%') ==> r@ == s@,
{
    match urlencoding::decode(s) {
        Ok(v) => v.into_owned(),
        Err(_) => String::new(),
    }
}

pub open spec fn pairs_view(v: Seq<(String, String)>) -> Seq<(Seq<char>, Seq<char>)> {
    v.map_values(|p: (String, String)| (p.0@, p.1@))
}

/// The headers every response carries.
pub open spec fn standard_headers(content_type: Seq<char>) -> Seq<(Seq<char>, Seq<char>)> {
    seq![
        ("Content-Type"@, content_type),
        ("Server"@, "Apache/2.4.41 (Ubuntu)"@),
        ("X-Powered-By"@, "PHP/7.4.3"@),
    ]
}

/// Where a request goes: fixed pages first, then `.php` probes, then paths
/// holding `..`; anything else is not found.
pub open spec fn route_of(method: HttpMethod, path: Seq<char>) -> Route {
    if method == HttpMethod::GET && path == "/"@ {
        Route::Homepage
    } else if method == HttpMethod::GET && path == "/login"@ {
        Route::LoginPage
    } else if method == HttpMethod::POST && path == "/login"@ {
        Route::LoginSubmit
    } else if method == HttpMethod::GET && path == "/admin"@ {
        Route::AdminPage
    } else if method == HttpMethod::GET && path == "/api/config"@ {
        Route::FakeConfig
    } else if method == HttpMethod::GET && ends_with_seq(path, ".php"@) {
        Route::PhpProbe
    } else if method == HttpMethod::GET && contains_seq(path, ".."@) {
        Route::DirectoryTraversal
    } else {
        Route::NotFound
    }
}

pub open spec fn status_of(route: Route) -> u16 {
    match route {
        Route::Homepage => 200,
        Route::LoginPage => 200,
        Route::LoginSubmit => 401,
        Route::AdminPage => 403,
        Route::FakeConfig => 200,
        Route::PhpProbe => 404,
        Route::DirectoryTraversal => 403,
        Route::NotFound => 404,
    }
}

pub open spec fn status_text_of(route: Route) -> Seq<char> {
    match route {
        Route::Homepage => "OK"@,
        Route::LoginPage => "OK"@,
        Route::LoginSubmit => "Unauthorized"@,
        Route::AdminPage => "Forbidden"@,
        Route::FakeConfig => "OK"@,
        Route::PhpProbe => "Not Found"@,
        Route::DirectoryTraversal => "Forbidden"@,
        Route::NotFound => "Not Found"@,
    }
}

pub open spec fn content_type_of(route: Route) -> Seq<char> {
    match route {
        Route::FakeConfig => "application/json"@,
        _ => "text/html"@,
    }
}

pub open spec fn body_of(route: Route) -> Seq<char> {
    match route {
        Route::Homepage => HOMEPAGE_HTML@,
        Route::LoginPage => LOGIN_PAGE_HTML@,
        Route::LoginSubmit => LOGIN_FAILED_HTML@,
        Route::AdminPage => ADMIN_DENIED_HTML@,
        Route::FakeConfig => FAKE_CONFIG_JSON@,
        Route::PhpProbe => NOT_FOUND_HTML@,
        Route::DirectoryTraversal => FORBIDDEN_HTML@,
        Route::NotFound => NOT_FOUND_HTML@,
    }
}

/// `r` is the page that `route` serves.
pub open spec fn serves(r: HttpResponse, route: Route) -> bool {
    &&& r.status == status_of(route)
    &&& r.status_text@ == status_text_of(route)
    &&& pairs_view(r.headers@) == standard_headers(content_type_of(route))
    &&& r.body@ == body_of(route)
}

/// The value of `key` in one `key=value` piece of a form body.
pub open spec fn field_of(part: Seq<char>, key: Seq<char>) -> Option<Seq<char>> {
    match index_of(part, '=') {
        Some(e) => if part.subrange(0, e) == key {
            Some(part.subrange(e + 1, part.len() as int))
        } else {
            None
        },
        None => None,
    }
}

/// The value of the last piece of `parts` that sets `key`.
pub open spec fn last_field(parts: Seq<Seq<char>>, key: Seq<char>) -> Option<Seq<char>>
    decreases parts.len(),
{
    if parts.len() == 0 {
        None
    } else {
        match field_of(parts.last(), key) {
            Some(v) => Some(v),
            None => last_field(parts.drop_last(), key),
        }
    }
}

/// The raw (still percent-encoded) value of `key` in a URL-encoded form
/// body; the last setting wins.
pub open spec fn form_field(body: Seq<char>, key: Seq<char>) -> Option<Seq<char>> {
    last_field(split_seq(body, '&'), key)
}

/// The captured value of a form field: decoded, or empty when absent.
pub open spec fn captured(body: Seq<char>, key: Seq<char>) -> Seq<char> {
    match form_field(body, key) {
        Some(v) => url_decoded(v),
        None => Seq::empty(),
    }
}

/// The signatures found in a request path, in a fixed order.
pub open spec fn http_attacks(path: Seq<char>) -> Seq<HttpAttack> {
    (if contains_seq(path, "UNION"@) || contains_seq(path, "SELECT"@) || contains_seq(path, "'"@) {
        seq![HttpAttack::SqlInjection]
    } else {
        Seq::empty()
    }) + (if contains_seq(path, "<script>"@) || contains_seq(path, "javascript:"@) {
        seq![HttpAttack::CrossSiteScripting]
    } else {
        Seq::empty()
    }) + (if contains_seq(path, ";"@) || contains_seq(path, "|"@) || contains_seq(path, "`"@) {
        seq![HttpAttack::CommandInjection]
    } else {
        Seq::empty()
    }) + (if contains_seq(path, "../"@) || contains_seq(path, "..\\"@) {
        seq![HttpAttack::DirectoryTraversal]
    } else {
        Seq::empty()
    })
}

/// The page or reaction `request` is routed to.
pub fn route(request: &HttpRequest) -> (r: Route)
    ensures
        r == route_of(request.method, request.path@),
{
    let path = request.path.as_str();
    let get = request.method == HttpMethod::GET;
    if get && text_eq(path, "/") {
        Route::Homepage
    } else if get && text_eq(path, "/login") {
        Route::LoginPage
    } else if request.method == HttpMethod::POST && text_eq(path, "/login") {
        Route::LoginSubmit
    } else if get && text_eq(path, "/admin") {
        Route::AdminPage
    } else if get && text_eq(path, "/api/config") {
        Route::FakeConfig
    } else if get && ends_with_str(&chars_of(path), ".php") {
        Route::PhpProbe
    } else if get && contains_str(&chars_of(path), "..") {
        Route::DirectoryTraversal
    } else {
        Route::NotFound
    }
}

/// The headers every response carries, with the given content type.
pub fn default_headers(content_type: &str) -> (r: Vec<(String, String)>)
    ensures
        pairs_view(r@) == standard_headers(content_type@),
{
    let r = vec![
        ("Content-Type".to_owned(), content_type.to_owned()),
        ("Server".to_owned(), "Apache/2.4.41 (Ubuntu)".to_owned()),
        ("X-Powered-By".to_owned(), "PHP/7.4.3".to_owned()),
    ];
    assert(pairs_view(r@) =~= standard_headers(content_type@));
    r
}

/// The response that `route` serves.
pub fn page(route: Route) -> (r: HttpResponse)
    ensures
        serves(r, route),
{
    let (status, text, content_type, body): (u16, &str, &str, &str) = match route {
        Route::Homepage => (200, "OK", "text/html", HOMEPAGE_HTML),
        Route::LoginPage => (200, "OK", "text/html", LOGIN_PAGE_HTML),
        Route::LoginSubmit => (401, "Unauthorized", "text/html", LOGIN_FAILED_HTML),
        Route::AdminPage => (403, "Forbidden", "text/html", ADMIN_DENIED_HTML),
        Route::FakeConfig => (200, "OK", "application/json", FAKE_CONFIG_JSON),
        Route::PhpProbe => (404, "Not Found", "text/html", NOT_FOUND_HTML),
        Route::DirectoryTraversal => (403, "Forbidden", "text/html", FORBIDDEN_HTML),
        Route::NotFound => (404, "Not Found", "text/html", NOT_FOUND_HTML),
    };
    HttpResponse {
        status,
        status_text: text.to_owned(),
        headers: default_headers(content_type),
        body: body.to_owned(),
    }
}

/// The value of `key` in one `key=value` piece of a form body.
fn field_value(part: &str, key: &str) -> (r: Option<String>)
    ensures
        match r {
            Some(v) => field_of(part@, key@) == Some(v@),
            None => field_of(part@, key@) is None,
        },
{
    let cs = chars_of(part);
    match find_char(&cs, '=') {
        Some(e) => {
            assert(e < cs.len());
            let k = part.substring_char(0, e);
            if text_eq(k, key) {
                Some(part.substring_char(e + 1, cs.len()).to_owned())
            } else {
                None
            }
        },
        None => None,
    }
}

/// The raw value of `key` in a URL-encoded form body such as
/// `username=admin&password=secret`; the last setting of `key` wins.
pub fn form_value(body: &str, key: &str) -> (r: Option<String>)
    ensures
        match r {
            Some(v) => form_field(body@, key@) == Some(v@),
            None => form_field(body@, key@) is None,
        },
{
    let parts = split_on(body, '&');
    let ghost ps = strings_view(parts@);
    let mut found: Option<String> = None;
    let mut i: usize = 0;
    assert(ps.subrange(0, 0) =~= Seq::<Seq<char>>::empty());
    while i < parts.len()
        invariant
            i <= parts.len(),
            ps == strings_view(parts@),
            match found {
                Some(v) => last_field(ps.subrange(0, i as int), key@) == Some(v@),
                None => last_field(ps.subrange(0, i as int), key@) is None,
            },
        decreases parts.len() - i,
    {
        assert(ps.subrange(0, i + 1).drop_last() =~= ps.subrange(0, i as int));
        assert(ps.subrange(0, i + 1).last() == parts@[i as int]@);
        match field_value(parts[i].as_str(), key) {
            Some(v) => {
                found = Some(v);
            },
            None => {},
        }
        i = i + 1;
    }
    assert(ps.subrange(0, i as int) =~= ps);
    found
}

/// The captured value of a form field: decoded, or empty when absent.
fn captured_value(body: &str, key: &str) -> (r: String)
    ensures
        r@ == captured(body@, key@),
{
    match form_value(body, key) {
        Some(v) => url_decode(v.as_str()),
        None => String::new(),
    }
}

/// The signatures found in a request path.
pub fn attacks_in_path(path: &str) -> (r: Vec<HttpAttack>)
    ensures
        r@ == http_attacks(path@),
{
    let p = chars_of(path);
    let mut r: Vec<HttpAttack> = Vec::new();
    if contains_str(&p, "UNION") || contains_str(&p, "SELECT") || contains_str(&p, "'") {
        r.push(HttpAttack::SqlInjection);
    }
    if contains_str(&p, "<script>") || contains_str(&p, "javascript:") {
        r.push(HttpAttack::CrossSiteScripting);
    }
    if contains_str(&p, ";") || contains_str(&p, "|") || contains_str(&p, "`") {
        r.push(HttpAttack::CommandInjection);
    }
    if contains_str(&p, "../") || contains_str(&p, "..\\") {
        r.push(HttpAttack::DirectoryTraversal);
    }
    assert(r@ =~= http_attacks(path@));
    r
}

/// How long `request` is held before its reply.
pub fn processing_delay_ms(request: &HttpRequest) -> (r: u64)
    ensures
        r == PROCESSING_DELAY_MS + if route_of(request.method, request.path@)
            == Route::LoginSubmit && request.body is Some {
            LOGIN_CHECK_DELAY_MS
        } else {
            0
        },
{
    if route(request) == Route::LoginSubmit && request.body.is_some() {
        PROCESSING_DELAY_MS + LOGIN_CHECK_DELAY_MS
    } else {
        PROCESSING_DELAY_MS
    }
}

fn copy_pairs(v: &Vec<(String, String)>) -> (r: Vec<(String, String)>)
    ensures
        pairs_view(r@) == pairs_view(v@),
{
    let mut r: Vec<(String, String)> = Vec::new();
    let mut i: usize = 0;
    while i < v.len()
        invariant
            i <= v.len(),
            pairs_view(r@) == pairs_view(v@).subrange(0, i as int),
        decreases v.len() - i,
    {
        let ghost prev = r@;
        let (a, b) = (v[i].0.clone(), v[i].1.clone());
        r.push((a, b));
        assert(pairs_view(r@) =~= pairs_view(prev).push((v@[i as int].0@, v@[i as int].1@)));
        i = i + 1;
        assert(pairs_view(r@) =~= pairs_view(v@).subrange(0, i as int));
    }
    assert(pairs_view(v@).subrange(0, i as int) =~= pairs_view(v@));
    r
}

impl HttpInteractionHandler {
    pub closed spec fn session(&self) -> Seq<char> {
        self.session_id@
    }

    pub closed spec fn requests(&self) -> nat {
        self.request_count as nat
    }

    /// Captured (username, password) pairs, oldest first.
    pub closed spec fn credentials(&self) -> Seq<(Seq<char>, Seq<char>)> {
        pairs_view(self.login_attempts@)
    }

    pub fn new(session_id: String) -> (r: Self)
        ensures
            r.session() == session_id@,
            r.requests() == 0,
            r.credentials().len() == 0,
    {
        HttpInteractionHandler { session_id, request_count: 0, login_attempts: Vec::new() }
    }

    /// Answers one request. A submitted login form is captured, decoded,
    /// and refused whatever it holds.
    pub fn handle_request(&mut self, request: HttpRequest) -> (r: HttpResponse)
        requires
            old(self).requests() < usize::MAX,
        ensures
            serves(r, route_of(request.method, request.path@)),
            final(self).requests() == old(self).requests() + 1,
            final(self).session() == old(self).session(),
            final(self).credentials() == if route_of(request.method, request.path@)
                == Route::LoginSubmit && request.body is Some {
                old(self).credentials().push(
                    (
                        captured(request.body.unwrap()@, "username"@),
                        captured(request.body.unwrap()@, "password"@),
                    ),
                )
            } else {
                old(self).credentials()
            },
    {
        self.request_count = self.request_count + 1;
        let target = route(&request);
        if target == Route::LoginSubmit {
            match &request.body {
                Some(body) => {
                    let username = captured_value(body.as_str(), "username");
                    let password = captured_value(body.as_str(), "password");
                    let ghost prev = self.login_attempts@;
                    self.login_attempts.push((username, password));
                    assert(pairs_view(self.login_attempts@) =~= pairs_view(prev).push(
                        (username@, password@),
                    ));
                },
                None => {},
            }
        }
        page(target)
    }

    /// The signatures found in the request path; detection never changes
    /// the reply.
    pub fn detect_attacks(&self, request: &HttpRequest) -> (r: Vec<HttpAttack>)
        ensures
            r@ == http_attacks(request.path@),
    {
        attacks_in_path(request.path.as_str())
    }

    pub fn get_stats(&self) -> (r: HttpStats)
        ensures
            r.request_count == self.requests(),
            r.login_attempts == self.credentials().len(),
            pairs_view(r.captured_credentials@) == self.credentials(),
    {
        HttpStats {
            request_count: self.request_count,
            login_attempts: self.login_attempts.len(),
            captured_credentials: copy_pairs(&self.login_attempts),
        }
    }

    /// The identifier of the session this handler serves.
    pub fn session_id(&self) -> (r: &str)
        ensures
            r@ == self.session(),
    {
        self.session_id.as_str()
    }
}

} // verus!
