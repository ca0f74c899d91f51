//! The server's own HTTP handling: reading a request's head and headers,
//! writing a response, and answering SSDP discovery requests.
use vstd::prelude::*;
use vstd::utf8::encode_utf8;

use crate::clock::{rfc2616_date_now, rfc2616_text, UtcInstant};
use crate::server::ServerDiscoveryInfo;
use crate::text::{
    chars_of, contains, decimal, is_white_space, join, join_strings, parse_usize, parsed_usize,
    push_decimal, push_str, split_by, split_str, str_contains, str_eq, string_from_chars, trim,
    trimmed, views, white_space,
};

verus! {

broadcast use vstd::string::group_string_axioms;

/// Whether `regex::Regex::new` accepts `pattern`.
pub uninterp spec fn regex_compiles(pattern: Seq<char>) -> bool;

/// What `regex::Regex::captures` finds in `haystack` with the regex compiled
/// from `pattern`: `None` when nothing matches, else the text of each group
/// of the leftmost-first match (group 0 being the whole match), `None` for a
/// group that took no part in it.
pub uninterp spec fn regex_captures(pattern: Seq<char>, haystack: Seq<char>) -> Option<
    Seq<Option<Seq<char>>>,
>;

/// The view of an optional string.
pub open spec fn opt_view(o: Option<String>) -> Option<Seq<char>> {
    match o {
        Some(s) => Some(s@),
        None => None,
    }
}

/// The view of what a capture call returns.
pub open spec fn caps_view(c: Option<Vec<Option<String>>>) -> Option<Seq<Option<Seq<char>>>> {
    match c {
        Some(v) => Some(v@.map_values(|o: Option<String>| opt_view(o))),
        None => None,
    }
}

/// Whether `regex::Regex::new` accepts `pattern`.
#[verifier::external_body]
fn regex_is_valid(pattern: &str) -> (r: bool)
    ensures
        r == regex_compiles(pattern@),
{
    regex::Regex::new(pattern).is_ok()
}

/// `regex::Regex::captures` in `line` with the regex compiled from
/// `pattern` by `regex::Regex::new`, which accepts it; each group's text is
/// copied out.
#[verifier::external_body]
fn regex_captures_in(pattern: &str, line: &str) -> (r: Option<Vec<Option<String>>>)
    requires
        regex_compiles(pattern@),
    ensures
        caps_view(r) == regex_captures(pattern@, line@),
{
    let re = regex::Regex::new(pattern).unwrap();
    re.captures(line).map(|c| c.iter().map(|m| m.map(|m| m.as_str().to_string())).collect())
}

/// The text of group `i` of what a capture call found, `None` when nothing
/// matched or the group took no part.
pub open spec fn group_of(c: Option<Seq<Option<Seq<char>>>>, i: int) -> Option<Seq<char>> {
    match c {
        Some(g) => if 0 <= i < g.len() {
            g[i]
        } else {
            None
        },
        None => None,
    }
}

/// The text of group `i` of `c`.
fn group(c: &Option<Vec<Option<String>>>, i: usize) -> (r: Option<String>)
    ensures
        opt_view(r) == group_of(caps_view(*c), i as int),
{
    match c {
        Some(v) => {
            if i < v.len() {
                match &v[i] {
                    Some(s) => Some(s.clone()),
                    None => None,
                }
            } else {
                None
            }
        },
        None => None,
    }
}

/// The request line: a method in capitals, white space, the URL, white
/// space and the HTTP version.
pub open spec fn url_pattern() -> Seq<char> {
    "^([A-Z]*)\\s(.*)\\sHTTP/(\\d\\.\\d)"@
}

/// The `Accept` header.
pub open spec fn accept_pattern() -> Seq<char> {
    "Accept: (.*)"@
}

/// The `Authorization` header with basic credentials.
pub open spec fn auth_pattern() -> Seq<char> {
    "Authorization: Basic (.*)"@
}

/// The header that carries the client's login code.
pub open spec fn code_pattern() -> Seq<char> {
    "X-Client-Code: (.*)"@
}

/// The `Content-Length` header.
pub open spec fn length_pattern() -> Seq<char> {
    "Content-Length: (.*)"@
}

/// Whether all five patterns of a request compile.
pub open spec fn request_patterns_compile() -> bool {
    &&& regex_compiles(url_pattern())
    &&& regex_compiles(accept_pattern())
    &&& regex_compiles(auth_pattern())
    &&& regex_compiles(code_pattern())
    &&& regex_compiles(length_pattern())
}

/// The assurance that the five patterns of a request compile; only
/// `RequestPatterns::compile` makes one.
pub struct RequestPatterns {
    checked: (),
}

impl RequestPatterns {
    /// The five patterns compile.
    pub closed spec fn wf(&self) -> bool {
        request_patterns_compile()
    }

    /// Checks that the five patterns compile; `None` when one does not.
    pub fn compile() -> (r: Option<RequestPatterns>)
        ensures
            r is Some <==> request_patterns_compile(),
            r matches Some(p) ==> p.wf(),
    {
        if regex_is_valid("^([A-Z]*)\\s(.*)\\sHTTP/(\\d\\.\\d)") && regex_is_valid("Accept: (.*)")
            && regex_is_valid("Authorization: Basic (.*)") && regex_is_valid("X-Client-Code: (.*)")
            && regex_is_valid("Content-Length: (.*)") {
            Some(RequestPatterns { checked: () })
        } else {
            None
        }
    }
}

/// The groups that the patterns of a request find in one line.
pub struct LineGroups {
    /// The method of a request line.
    pub method: Option<String>,
    /// The URL of a request line.
    pub path: Option<String>,
    /// The HTTP version of a request line.
    pub version: Option<String>,
    /// The value of an `Accept` header.
    pub accept: Option<String>,
    /// The credentials of an `Authorization: Basic` header.
    pub auth: Option<String>,
    /// The value of an `X-Client-Code` header.
    pub code: Option<String>,
    /// The value of a `Content-Length` header.
    pub length: Option<String>,
}

/// The view of `LineGroups`.
pub struct GroupsView {
    pub method: Option<Seq<char>>,
    pub path: Option<Seq<char>>,
    pub version: Option<Seq<char>>,
    pub accept: Option<Seq<char>>,
    pub auth: Option<Seq<char>>,
    pub code: Option<Seq<char>>,
    pub length: Option<Seq<char>>,
}

impl View for LineGroups {
    type V = GroupsView;

    open spec fn view(&self) -> GroupsView {
        GroupsView {
            method: opt_view(self.method),
            path: opt_view(self.path),
            version: opt_view(self.version),
            accept: opt_view(self.accept),
            auth: opt_view(self.auth),
            code: opt_view(self.code),
            length: opt_view(self.length),
        }
    }
}

/// What the patterns of a request find in `line`.
pub open spec fn line_groups(line: Seq<char>) -> GroupsView {
    let url = regex_captures(url_pattern(), line);
    GroupsView {
        method: group_of(url, 1),
        path: group_of(url, 2),
        version: group_of(url, 3),
        accept: group_of(regex_captures(accept_pattern(), line), 1),
        auth: group_of(regex_captures(auth_pattern(), line), 1),
        code: group_of(regex_captures(code_pattern(), line), 1),
        length: group_of(regex_captures(length_pattern(), line), 1),
    }
}

impl LineGroups {
    /// Runs the patterns of a request on `line`.
    pub fn of(line: &str, patterns: &RequestPatterns) -> (r: LineGroups)
        requires
            patterns.wf(),
        ensures
            r@ == line_groups(line@),
    {
        let url = regex_captures_in("^([A-Z]*)\\s(.*)\\sHTTP/(\\d\\.\\d)", line);
        let accept = regex_captures_in("Accept: (.*)", line);
        let auth = regex_captures_in("Authorization: Basic (.*)", line);
        let code = regex_captures_in("X-Client-Code: (.*)", line);
        let length = regex_captures_in("Content-Length: (.*)", line);
        LineGroups {
            method: group(&url, 1),
            path: group(&url, 2),
            version: group(&url, 3),
            accept: group(&accept, 1),
            auth: group(&auth, 1),
            code: group(&code, 1),
            length: group(&length, 1),
        }
    }
}

/// The first of the comma-separated `pieces` of an `Accept` value that
/// names JSON or HTML, trimmed.
pub open spec fn accepted_format(pieces: Seq<Seq<char>>) -> Option<Seq<char>>
    decreases pieces.len(),
{
    if pieces.len() == 0 {
        None
    } else if contains(pieces[0], "application/json"@) || contains(pieces[0], "text/html"@) {
        Some(trim(pieces[0]))
    } else {
        accepted_format(pieces.drop_first())
    }
}

/// The format a client accepts, read from an `Accept` value: the first of
/// its comma-separated entries that names JSON or HTML, trimmed.
pub fn accepted_format_of(accept: &str) -> (r: Option<String>)
    ensures
        opt_view(r) == accepted_format(split_by(accept@, ","@)),
{
    proof {
        reveal_strlit(",");
    }
    let pieces = split_str(accept, ",");
    let mut i: usize = 0;
    assert(views(pieces@).skip(0) =~= views(pieces@));
    while i < pieces.len()
        invariant
            i <= pieces@.len(),
            views(pieces@) == split_by(accept@, ","@),
            accepted_format(views(pieces@)) == accepted_format(views(pieces@).skip(i as int)),
        decreases pieces@.len() - i,
    {
        let p = pieces[i].as_str();
        let ghost rest = views(pieces@).skip(i as int);
        assert(rest[0] == p@);
        assert(rest.drop_first() =~= views(pieces@).skip(i + 1));
        if str_contains(p, "application/json") || str_contains(p, "text/html") {
            return Some(trimmed(p));
        }
        i = i + 1;
    }
    None
}

/// What has been read of a request so far.
pub struct ScanView {
    /// The method and URL of the request line.
    pub url: Option<(Seq<char>, Seq<char>)>,
    pub format: Option<Seq<char>>,
    pub auth: Option<Seq<char>>,
    pub code: Option<Seq<char>>,
    pub length: Option<usize>,
    /// The body, once the blank line that opens it has been read.
    pub body: Option<Seq<char>>,
    /// The request line named an HTTP version other than 1.0 and 1.1.
    pub rejected: bool,
}

/// Nothing read yet.
pub open spec fn scan_start() -> ScanView {
    ScanView {
        url: None,
        format: None,
        auth: None,
        code: None,
        length: None,
        body: None,
        rejected: false,
    }
}

/// Reads a header line of the head, with the groups `g` the patterns found
/// in it: the first request line sets the method and URL, unless its version
/// is neither 1.0 nor 1.1, which rejects the request; each header not yet
/// seen is taken from its line.
pub open spec fn header_step(st: ScanView, g: GroupsView) -> ScanView {
    let url_matched = st.url is None && g.method is Some && g.path is Some && g.version is Some;
    if url_matched && g.version->0 != "1.0"@ && g.version->0 != "1.1"@ {
        ScanView { rejected: true, ..st }
    } else {
        ScanView {
            url: if url_matched {
                Some((g.method->0, g.path->0))
            } else {
                st.url
            },
            format: if st.format is None && g.accept is Some {
                accepted_format(split_by(g.accept->0, ","@))
            } else {
                st.format
            },
            auth: if st.auth is None && g.auth is Some {
                Some(trim(g.auth->0))
            } else {
                st.auth
            },
            code: if st.code is None && g.code is Some {
                Some(trim(g.code->0))
            } else {
                st.code
            },
            length: if st.length is None && g.length is Some {
                parsed_usize(g.length->0)
            } else {
                st.length
            },
            ..st
        }
    }
}

/// Reads one line of a request, with the groups `g` the patterns found in
/// it: a blank line (empty, or a lone carriage return) opens an empty body;
/// once the body is open each line joins it with a line feed; before, the
/// line is a header line. Nothing changes once the request is rejected.
pub open spec fn scan_step(st: ScanView, line: Seq<char>, g: GroupsView) -> ScanView {
    if st.rejected {
        st
    } else if line == "\r"@ || line.len() == 0 {
        ScanView { body: Some(Seq::<char>::empty()), ..st }
    } else {
        match st.body {
            Some(b) => ScanView { body: Some(b + line + "\n"@), ..st },
            None => header_step(st, g),
        }
    }
}

/// What is read of a request made of `lines`.
pub open spec fn scan_lines(lines: Seq<Seq<char>>) -> ScanView
    decreases lines.len(),
{
    if lines.len() == 0 {
        scan_start()
    } else {
        scan_step(scan_lines(lines.drop_last()), lines.last(), line_groups(lines.last()))
    }
}

/// The view of `HTTPRequestInfo`.
pub struct RequestView {
    pub url: Seq<char>,
    pub method: Seq<char>,
    pub format: Option<Seq<char>>,
    pub auth: Option<Seq<char>>,
    pub length: Option<usize>,
    pub body: Option<Seq<char>>,
    pub player_code: Option<Seq<char>>,
}

/// The request that a scan read: none when it was rejected or found no
/// request line.
pub open spec fn request_of(st: ScanView) -> Option<RequestView> {
    if st.rejected {
        None
    } else {
        match st.url {
            None => None,
            Some((method, url)) => Some(
                RequestView {
                    url,
                    method,
                    format: st.format,
                    auth: st.auth,
                    length: st.length,
                    body: st.body,
                    player_code: st.code,
                },
            ),
        }
    }
}

/// The request that the text `s` holds, its lines split at line feeds.
pub open spec fn parsed_request(s: Seq<char>) -> Option<RequestView> {
    request_of(scan_lines(split_by(s, "\n"@)))
}

/// Represents what was found in the http request
pub struct HTTPRequestInfo {
    // General headers
    pub url: String,
    pub method: String,
    pub format: Option<String>,
    pub auth: Option<String>,
    pub length: Option<usize>,
    // Body
    pub body: Option<String>,
    // Specific headers for the game server
    pub player_code: Option<String>,
}

impl View for HTTPRequestInfo {
    type V = RequestView;

    open spec fn view(&self) -> RequestView {
        RequestView {
            url: self.url@,
            method: self.method@,
            format: opt_view(self.format),
            auth: opt_view(self.auth),
            length: self.length,
            body: opt_view(self.body),
            player_code: opt_view(self.player_code),
        }
    }
}

/// The view of an optional request.
pub open spec fn opt_request_view(r: Option<HTTPRequestInfo>) -> Option<RequestView> {
    match r {
        Some(i) => Some(i@),
        None => None,
    }
}

/// The reading of a request, line by line.
pub struct RequestScan {
    url: Option<(String, String)>,
    format: Option<String>,
    auth: Option<String>,
    code: Option<String>,
    length: Option<usize>,
    body: Option<String>,
    rejected: bool,
}

impl View for RequestScan {
    type V = ScanView;

    closed spec fn view(&self) -> ScanView {
        ScanView {
            url: match self.url {
                Some((m, u)) => Some((m@, u@)),
                None => None,
            },
            format: opt_view(self.format),
            auth: opt_view(self.auth),
            code: opt_view(self.code),
            length: self.length,
            body: opt_view(self.body),
            rejected: self.rejected,
        }
    }
}

impl RequestScan {
    /// A reading that has seen nothing yet.
    pub fn new() -> (r: RequestScan)
        ensures
            r@ == scan_start(),
    {
        RequestScan {
            url: None,
            format: None,
            auth: None,
            code: None,
            length: None,
            body: None,
            rejected: false,
        }
    }

    /// Whether the request was rejected for its HTTP version.
    pub fn is_rejected(&self) -> (r: bool)
        ensures
            r == self@.rejected,
    {
        self.rejected
    }

    /// Reads a header line, with the groups `g` the patterns found in it.
    fn read_header(&mut self, g: &LineGroups)
        requires
            !old(self)@.rejected,
            old(self)@.body is None,
        ensures
            final(self)@ == header_step(old(self)@, g@),
    {
        let url_matched = self.url.is_none() && g.method.is_some() && g.path.is_some()
            && g.version.is_some();
        if url_matched {
            let version = match &g.version {
                Some(v) => v.as_str(),
                None => "",
            };
            if !str_eq(version, "1.0") && !str_eq(version, "1.1") {
                self.rejected = true;
                return ;
            }
            let method = match &g.method {
                Some(m) => m.clone(),
                None => String::new(),
            };
            let path = match &g.path {
                Some(p) => p.clone(),
                None => String::new(),
            };
            self.url = Some((method, path));
        }
        if self.format.is_none() {
            if let Some(a) = &g.accept {
                self.format = accepted_format_of(a.as_str());
            }
        }
        if self.auth.is_none() {
            if let Some(a) = &g.auth {
                self.auth = Some(trimmed(a.as_str()));
            }
        }
        if self.code.is_none() {
            if let Some(c) = &g.code {
                self.code = Some(trimmed(c.as_str()));
            }
        }
        if self.length.is_none() {
            if let Some(l) = &g.length {
                self.length = parse_usize(l.as_str());
            }
        }
    }

    /// Reads one line of the request, with the groups `g` the patterns
    /// found in it.
    pub fn apply_line(&mut self, line: &str, g: &LineGroups)
        ensures
            final(self)@ == scan_step(old(self)@, line@, g@),
    {
        if self.rejected {
            return ;
        }
        if str_eq(line, "\r") || line.is_empty() {
            self.body = Some(String::new());
            return ;
        }
        match &self.body {
            Some(b) => {
                let mut v = chars_of(b.as_str());
                push_str(&mut v, line);
                v.push('\n');
                let nb = string_from_chars(&v);
                proof {
                    let nl: Seq<char> = "\n"@;
                    reveal_strlit("\n");
                    assert(nb@ =~= b@ + line@ + nl);
                }
                self.body = Some(nb);
            },
            None => self.read_header(g),
        }
    }

    /// The request read: none when it was rejected or had no request line.
    pub fn finish(self) -> (r: Option<HTTPRequestInfo>)
        ensures
            opt_request_view(r) == request_of(self@),
    {
        if self.rejected {
            return None;
        }
        match self.url {
            None => None,
            Some((method, url)) => Some(
                HTTPRequestInfo {
                    url,
                    method,
                    format: self.format,
                    auth: self.auth,
                    length: self.length,
                    body: self.body,
                    player_code: self.code,
                },
            ),
        }
    }
}

impl HTTPRequestInfo {
    /// Reads an HTTP request from its text, split into lines at line feeds.
    /// The first line that the request-line pattern matches gives the
    /// method and URL (`None` for an HTTP version other than 1.0 and 1.1);
    /// the first line that matches a header's pattern gives that header; the
    /// first blank line opens the body, which every later line joins with a
    /// line feed. `None` without a request line, or when a pattern does not
    /// compile.
    pub fn parse_http_request(s: String) -> (r: Option<HTTPRequestInfo>)
        ensures
            !request_patterns_compile() ==> r is None,
            request_patterns_compile() ==> opt_request_view(r) == parsed_request(s@),
    {
        let patterns = match RequestPatterns::compile() {
            Some(p) => p,
            None => return None,
        };
        proof {
            reveal_strlit("\n");
        }
        let lines = split_str(s.as_str(), "\n");
        let mut scan = RequestScan::new();
        let mut i: usize = 0;
        while i < lines.len()
            invariant
                patterns.wf(),
                i <= lines@.len(),
                views(lines@) == split_by(s@, "\n"@),
                scan@ == scan_lines(views(lines@).take(i as int)),
            decreases lines@.len() - i,
        {
            let line = lines[i].as_str();
            proof {
                let t = views(lines@).take(i + 1);
                assert(t.drop_last() =~= views(lines@).take(i as int));
                assert(t.last() == line@);
            }
            if !scan.is_rejected() {
                let g = LineGroups::of(line, &patterns);
                scan.apply_line(line, &g);
            }
            i = i + 1;
        }
        assert(views(lines@).take(i as int) =~= views(lines@));
        scan.finish()
    }
}

/// The HTTP status codes a response can carry.
pub open spec fn known_status(code: u32) -> bool {
    code == 101 || code == 200 || code == 201 || code == 400 || code == 401 || code == 403 || code
        == 404 || code == 415 || code == 500 || code == 503 || code == 505
}

/// The status of a known code, as the status line writes it.
pub open spec fn status_text(code: u32) -> Seq<char> {
    if code == 101 {
        "101 Switching Protocols"@
    } else if code == 200 {
        "200 OK"@
    } else if code == 201 {
        "201 Created"@
    } else if code == 400 {
        "400 Bad Request"@
    } else if code == 401 {
        "401 Unauthorized"@
    } else if code == 403 {
        "403 Forbidden"@
    } else if code == 404 {
        "404 Not Found"@
    } else if code == 415 {
        "415 Unsupported Media Type"@
    } else if code == 500 {
        "500 Internal Server Error"@
    } else if code == 503 {
        "503 Service Unavailable"@
    } else {
        "505 HTTP Version Not Supported"@
    }
}

/// The status of a known code.
fn status_str(code: u32) -> (r: &'static str)
    requires
        known_status(code),
    ensures
        r@ == status_text(code),
{
    match code {
        101 => "101 Switching Protocols",
        200 => "200 OK",
        201 => "201 Created",
        400 => "400 Bad Request",
        401 => "401 Unauthorized",
        403 => "403 Forbidden",
        404 => "404 Not Found",
        415 => "415 Unsupported Media Type",
        500 => "500 Internal Server Error",
        503 => "503 Service Unavailable",
        _ => "505 HTTP Version Not Supported",
    }
}

/// The lines of a response with status `code`, sent at `date`, whose body
/// is `content`: the status line, the date, the cache and server headers,
/// the body's length in bytes when it has any, a JSON content type for a
/// success code (2xx), the extra `headers`, a blank line and the body.
pub open spec fn response_lines(
    code: u32,
    date: Seq<char>,
    content: Seq<char>,
    headers: Seq<Seq<char>>,
) -> Seq<Seq<char>> {
    let size = encode_utf8(content).len();
    let head = seq![
        "HTTP/1.1 "@ + status_text(code),
        "Date: "@ + date,
        "Cache-Control: private, max-age=0"@,
        "Server: familyline-server 0.0.1-test"@,
    ];
    let length_line = if size > 0 {
        seq!["Content-Length: "@ + decimal(size)]
    } else {
        Seq::<Seq<char>>::empty()
    };
    let type_line = if 200 <= code <= 299 {
        seq!["Content-Type: application/json"@]
    } else {
        Seq::<Seq<char>>::empty()
    };
    head + length_line + type_line + headers + seq![Seq::<char>::empty(), content]
}

/// The reason phrase that HTTP gives each status code a response can
/// carry.
pub open spec fn reason_phrase(code: u32) -> Seq<char> {
    if code == 101 {
        "Switching Protocols"@
    } else if code == 200 {
        "OK"@
    } else if code == 201 {
        "Created"@
    } else if code == 400 {
        "Bad Request"@
    } else if code == 401 {
        "Unauthorized"@
    } else if code == 403 {
        "Forbidden"@
    } else if code == 404 {
        "Not Found"@
    } else if code == 415 {
        "Unsupported Media Type"@
    } else if code == 500 {
        "Internal Server Error"@
    } else if code == 503 {
        "Service Unavailable"@
    } else if code == 505 {
        "HTTP Version Not Supported"@
    } else {
        Seq::<char>::empty()
    }
}

/// The status line of a response names the code asked for: its decimal
/// notation, a space and the code's reason phrase.
pub proof fn lemma_status_names_code(code: u32)
    requires
        known_status(code),
    ensures
        status_text(code) == decimal(code as nat) + " "@ + reason_phrase(code),
{
    reveal_with_fuel(decimal, 4);
    reveal_strlit(" ");
    if code == 101 {
        reveal_strlit("101 Switching Protocols");
        reveal_strlit("Switching Protocols");
        assert(status_text(code) =~= decimal(code as nat) + " "@ + reason_phrase(code));
    } else if code == 200 {
        reveal_strlit("200 OK");
        reveal_strlit("OK");
        assert(status_text(code) =~= decimal(code as nat) + " "@ + reason_phrase(code));
    } else if code == 201 {
        reveal_strlit("201 Created");
        reveal_strlit("Created");
        assert(status_text(code) =~= decimal(code as nat) + " "@ + reason_phrase(code));
    } else if code == 400 {
        reveal_strlit("400 Bad Request");
        reveal_strlit("Bad Request");
        assert(status_text(code) =~= decimal(code as nat) + " "@ + reason_phrase(code));
    } else if code == 401 {
        reveal_strlit("401 Unauthorized");
        reveal_strlit("Unauthorized");
        assert(status_text(code) =~= decimal(code as nat) + " "@ + reason_phrase(code));
    } else if code == 403 {
        reveal_strlit("403 Forbidden");
        reveal_strlit("Forbidden");
        assert(status_text(code) =~= decimal(code as nat) + " "@ + reason_phrase(code));
    } else if code == 404 {
        reveal_strlit("404 Not Found");
        reveal_strlit("Not Found");
        assert(status_text(code) =~= decimal(code as nat) + " "@ + reason_phrase(code));
    } else if code == 415 {
        reveal_strlit("415 Unsupported Media Type");
        reveal_strlit("Unsupported Media Type");
        assert(status_text(code) =~= decimal(code as nat) + " "@ + reason_phrase(code));
    } else if code == 500 {
        reveal_strlit("500 Internal Server Error");
        reveal_strlit("Internal Server Error");
        assert(status_text(code) =~= decimal(code as nat) + " "@ + reason_phrase(code));
    } else if code == 503 {
        reveal_strlit("503 Service Unavailable");
        reveal_strlit("Service Unavailable");
        assert(status_text(code) =~= decimal(code as nat) + " "@ + reason_phrase(code));
    } else if code == 505 {
        reveal_strlit("505 HTTP Version Not Supported");
        reveal_strlit("HTTP Version Not Supported");
        assert(status_text(code) =~= decimal(code as nat) + " "@ + reason_phrase(code));
    }
}

/// The first line of a response is "HTTP/1.1 ", the code asked for and its
/// reason phrase; and when the response has a body, its Content-Length
/// header gives the number of bytes of the body, the last line.
pub proof fn lemma_response_head(
    code: u32,
    date: Seq<char>,
    content: Seq<char>,
    headers: Seq<Seq<char>>,
)
    requires
        known_status(code),
    ensures
        response_lines(code, date, content, headers)[0] == "HTTP/1.1 "@ + decimal(code as nat) + " "@
            + reason_phrase(code),
        response_lines(code, date, content, headers).last() == content,
        encode_utf8(content).len() > 0 ==> response_lines(code, date, content, headers)[4]
            == "Content-Length: "@ + decimal(
            encode_utf8(response_lines(code, date, content, headers).last()).len(),
        ),
{
    lemma_status_names_code(code);
    let ls = response_lines(code, date, content, headers);
    assert(("HTTP/1.1 "@ + status_text(code)) =~= "HTTP/1.1 "@ + decimal(code as nat) + " "@
        + reason_phrase(code));
}

/// The Content-Length header of a discovery answer gives the number of
/// bytes of its body, the description after the blank line.
pub proof fn lemma_discover_length_is_body_bytes(
    info_json: Seq<char>,
    date: Seq<char>,
    address: Seq<char>,
    port: nat,
)
    ensures
        discover_response_lines(info_json, date, address, port)[7] == Seq::<char>::empty(),
        discover_response_lines(info_json, date, address, port)[5] == "Content-Length: "@ + decimal(
            encode_utf8(discover_response_lines(info_json, date, address, port).last()).len(),
        ),
{
}

/// A `String` made of `a` followed by `b`.
fn concat2(a: &str, b: &str) -> (r: String)
    ensures
        r@ == a@ + b@,
{
    let mut v = chars_of(a);
    push_str(&mut v, b);
    string_from_chars(&v)
}

/// `a` followed by the decimal notation of `n`.
fn with_decimal(a: &str, n: u64) -> (r: String)
    ensures
        r@ == a@ + decimal(n as nat),
{
    let mut v = chars_of(a);
    push_decimal(n, &mut v);
    string_from_chars(&v)
}

pub struct HTTPResponse {
    pub result: String,
    pub keep_alive: bool,
}

impl HTTPResponse {
    /// The response with status `http_code` and body `content`, dated
    /// `date`: its lines joined with CRLF; the connection is not kept alive.
    pub fn with_date(http_code: u32, content: &str, additional_headers: Vec<String>, date: &str) -> (r:
        HTTPResponse)
        requires
            known_status(http_code),
        ensures
            r.result@ == join(
                response_lines(http_code, date@, content@, views(additional_headers@)),
                "\r\n"@,
            ),
            !r.keep_alive,
    {
        let mut lines: Vec<String> = Vec::new();
        lines.push(concat2("HTTP/1.1 ", status_str(http_code)));
        lines.push(concat2("Date: ", date));
        lines.push("Cache-Control: private, max-age=0".to_string());
        lines.push("Server: familyline-server 0.0.1-test".to_string());
        let size = content.as_bytes().len();
        let ghost head = views(lines@);
        assert(head =~= seq![
            "HTTP/1.1 "@ + status_text(http_code),
            "Date: "@ + date@,
            "Cache-Control: private, max-age=0"@,
            "Server: familyline-server 0.0.1-test"@,
        ]);
        assert(size == encode_utf8(content@).len());
        if size > 0 {
            let l = with_decimal("Content-Length: ", size as u64);
            lines.push(l);
            assert(views(lines@) =~= head.push(l@));
        }
        let ghost with_length = views(lines@);
        if http_code >= 200 && http_code <= 299 {
            let l = "Content-Type: application/json".to_string();
            lines.push(l);
            assert(views(lines@) =~= with_length.push(l@));
        }
        let ghost with_type = views(lines@);
        let mut i: usize = 0;
        while i < additional_headers.len()
            invariant
                i <= additional_headers@.len(),
                views(lines@) == with_type + views(additional_headers@).take(i as int),
            decreases additional_headers@.len() - i,
        {
            let ghost before = lines@;
            let h = additional_headers[i].clone();
            lines.push(h);
            i = i + 1;
            proof {
                assert(lines@ == before.push(h));
                assert(views(lines@) =~= views(before).push(h@));
                assert(views(additional_headers@).take(i as int) =~= views(additional_headers@).take(
                    i - 1,
                ).push(h@));
                assert(views(lines@) =~= with_type + views(additional_headers@).take(i as int));
            }
        }
        let ghost before = lines@;
        let empty = String::new();
        let body = content.to_string();
        lines.push(empty);
        lines.push(body);
        proof {
            assert(views(lines@) =~= views(before) + seq![empty@, body@]);
            assert(views(additional_headers@).take(i as int) =~= views(additional_headers@));
            assert(views(lines@) =~= response_lines(
                http_code,
                date@,
                content@,
                views(additional_headers@),
            ));
        }
        HTTPResponse { result: join_strings(&lines, "\r\n"), keep_alive: false }
    }

    /// Creates the http response
    pub fn new(http_code: u32, content: &str, additional_headers: Vec<String>) -> (r: HTTPResponse)
        requires
            known_status(http_code),
        ensures
            exists|t: UtcInstant|
                r.result@ == join(
                    #[trigger] response_lines(
                        http_code,
                        rfc2616_text(t),
                        content@,
                        views(additional_headers@),
                    ),
                    "\r\n"@,
                ),
            !r.keep_alive,
    {
        let date = rfc2616_date_now();
        let ghost headers = views(additional_headers@);
        let r = HTTPResponse::with_date(http_code, content, additional_headers, date.as_str());
        proof {
            let t = choose|t: UtcInstant|
                t.secs >= 0 && t.nanos < 1_000_000_000 && date@ == #[trigger] rfc2616_text(t);
            assert(r.result@ == join(
                response_lines(http_code, rfc2616_text(t), content@, headers),
                "\r\n"@,
            ));
        }
        r
    }
}

/// The lines of an SSDP message that are read: those up to and including
/// the first that is blank once trimmed.
pub open spec fn discover_head(lines: Seq<Seq<char>>) -> Seq<Seq<char>>
    decreases lines.len(),
{
    if lines.len() == 0 {
        Seq::<Seq<char>>::empty()
    } else if trim(lines[0]).len() == 0 {
        seq![lines[0]]
    } else {
        seq![lines[0]] + discover_head(lines.drop_first())
    }
}

/// Whether `s`, split into lines at CRLF, is a discovery request for this
/// kind of server: before its first blank line it has the line
/// `MAN: "ssdp:discover"` and the line `ST: game_server:familyline1`.
pub open spec fn is_discover_request(s: Seq<char>) -> bool {
    let head = discover_head(split_by(s, "\r\n"@));
    head.contains("MAN: \"ssdp:discover\""@) && head.contains("ST: game_server:familyline1"@)
}

/// Whether `s` is a discovery request for this kind of server.
pub fn discover_request_valid(s: &str) -> (r: bool)
    ensures
        r == is_discover_request(s@),
{
    proof {
        reveal_strlit("\r\n");
    }
    let lines = split_str(s, "\r\n");
    let ghost all = views(lines@);
    let mut valid_method = false;
    let mut valid_servicetype = false;
    let mut i: usize = 0;
    assert(all.skip(0) =~= all);
    while i < lines.len()
        invariant
            i <= lines@.len(),
            all == views(lines@),
            all == split_by(s@, "\r\n"@),
            discover_head(all) == all.take(i as int) + discover_head(all.skip(i as int)),
            forall|k: int| 0 <= k < i ==> trim(#[trigger] all[k]).len() != 0,
            valid_method == exists|k: int|
                0 <= k < i && #[trigger] all[k] == "MAN: \"ssdp:discover\""@,
            valid_servicetype == exists|k: int|
                0 <= k < i && #[trigger] all[k] == "ST: game_server:familyline1"@,
        decreases lines@.len() - i,
    {
        let line = lines[i].as_str();
        proof {
            assert(all[i as int] == line@);
            assert(all.take(i + 1) =~= all.take(i as int).push(line@));
            assert(all.skip(i as int).drop_first() =~= all.skip(i + 1));
            assert(all.skip(i as int)[0] == line@);
        }
        if str_eq(line, "MAN: \"ssdp:discover\"") {
            valid_method = true;
        }
        if str_eq(line, "ST: game_server:familyline1") {
            valid_servicetype = true;
        }
        let t = trimmed(line);
        if t.as_str().is_empty() {
            proof {
                let h = all.take(i + 1);
                assert(discover_head(all) =~= h);
                assert(valid_method == h.contains("MAN: \"ssdp:discover\""@)) by {
                    if valid_method {
                        let k = choose|k: int|
                            0 <= k < i + 1 && #[trigger] all[k] == "MAN: \"ssdp:discover\""@;
                        assert(h[k] == all[k]);
                    }
                    if h.contains("MAN: \"ssdp:discover\""@) {
                        let k = choose|k: int|
                            0 <= k < h.len() && #[trigger] h[k] == "MAN: \"ssdp:discover\""@;
                        assert(all[k] == h[k]);
                    }
                }
                assert(valid_servicetype == h.contains("ST: game_server:familyline1"@)) by {
                    if valid_servicetype {
                        let k = choose|k: int|
                            0 <= k < i + 1 && #[trigger] all[k] == "ST: game_server:familyline1"@;
                        assert(h[k] == all[k]);
                    }
                    if h.contains("ST: game_server:familyline1"@) {
                        let k = choose|k: int|
                            0 <= k < h.len() && #[trigger] h[k] == "ST: game_server:familyline1"@;
                        assert(all[k] == h[k]);
                    }
                }
            }
            return valid_method && valid_servicetype;
        }
        i = i + 1;
        proof {
            assert(discover_head(all) =~= all.take(i as int) + discover_head(all.skip(i as int)));
        }
    }
    proof {
        assert(all.skip(i as int) =~= Seq::<Seq<char>>::empty());
        assert(all.take(i as int) =~= all);
        assert(discover_head(all) =~= all);
        let h = all;
        assert(valid_method == h.contains("MAN: \"ssdp:discover\""@)) by {
            if h.contains("MAN: \"ssdp:discover\""@) {
                let k = choose|k: int| 0 <= k < h.len() && #[trigger] h[k] == "MAN: \"ssdp:discover\""@;
                assert(all[k] == h[k]);
            }
        }
        assert(valid_servicetype == h.contains("ST: game_server:familyline1"@)) by {
            if h.contains("ST: game_server:familyline1"@) {
                let k = choose|k: int|
                    0 <= k < h.len() && #[trigger] h[k] == "ST: game_server:familyline1"@;
                assert(all[k] == h[k]);
            }
        }
    }
    valid_method && valid_servicetype
}

/// The lines of the answer to a discovery request: success, a cache time,
/// the `date`, the server's location at `address` and `port`, the length in
/// bytes of the JSON description `info_json`, the server's name, a blank
/// line and the description itself.
pub open spec fn discover_response_lines(
    info_json: Seq<char>,
    date: Seq<char>,
    address: Seq<char>,
    port: nat,
) -> Seq<Seq<char>> {
    seq![
        "HTTP/1.1 200 OK"@,
        "Cache-Control: max-age=60"@,
        "Date: "@ + date,
        "Ext: "@,
        "Location: http://"@ + address + ":"@ + decimal(port),
        "Content-Length: "@ + decimal(encode_utf8(info_json).len()),
        "Server: familyline-server 0.0.1-test"@,
        Seq::<char>::empty(),
        info_json,
    ]
}

/// The answer to a discovery request, its lines joined with CRLF.
pub fn discover_reply(info_json: &str, date: &str, address: &str, port: u16) -> (r: String)
    ensures
        r@ == join(discover_response_lines(info_json@, date@, address@, port as nat), "\r\n"@),
{
    let mut lines: Vec<String> = Vec::new();
    lines.push("HTTP/1.1 200 OK".to_string());
    lines.push("Cache-Control: max-age=60".to_string());
    lines.push(concat2("Date: ", date));
    lines.push("Ext: ".to_string());
    let mut loc = chars_of("Location: http://");
    push_str(&mut loc, address);
    push_str(&mut loc, ":");
    push_decimal(port as u64, &mut loc);
    lines.push(string_from_chars(&loc));
    let size = info_json.as_bytes().len();
    lines.push(with_decimal("Content-Length: ", size as u64));
    lines.push("Server: familyline-server 0.0.1-test".to_string());
    lines.push(String::new());
    lines.push(info_json.to_string());
    assert(views(lines@) =~= discover_response_lines(info_json@, date@, address@, port as nat));
    join_strings(&lines, "\r\n")
}

/// What `to_json` may give for `sinfo`.
pub open spec fn json_of<F: Fn(&ServerDiscoveryInfo) -> String>(
    to_json: F,
    sinfo: &ServerDiscoveryInfo,
    json: String,
) -> bool {
    to_json.ensures((sinfo,), json)
}

// Parse a discover message, return a response to it
/// Answers a discovery request `s`: `None` unless it is one for this kind
/// of server; else the answer, dated now, that locates the server at the
/// local address on port 6142 and carries what `to_json` writes of `sinfo`.
pub fn parse_discover_message<F: Fn(&ServerDiscoveryInfo) -> String>(
    s: String,
    sinfo: &ServerDiscoveryInfo,
    to_json: F,
) -> (r: Option<String>)
    requires
        to_json.requires((sinfo,)),
    ensures
        r is Some <==> is_discover_request(s@),
        r matches Some(x) ==> exists|json: String, t: UtcInstant, ifaces: Seq<NetInterface>|
            json_of(to_json, sinfo, json) && x@ == join(
                #[trigger] discover_response_lines(
                    json@,
                    rfc2616_text(t),
                    local_address_of(ifaces),
                    6142,
                ),
                "\r\n"@,
            ),
{
    if !discover_request_valid(s.as_str()) {
        return None;
    }
    let sinfo_str = to_json(sinfo);
    let date = rfc2616_date_now();
    let address = find_local_address();
    let r = discover_reply(sinfo_str.as_str(), date.as_str(), address.as_str(), 6142);
    proof {
        let t = choose|t: UtcInstant|
            t.secs >= 0 && t.nanos < 1_000_000_000 && date@ == #[trigger] rfc2616_text(t);
        let ifaces = choose|ifaces: Seq<NetInterface>| address@ == #[trigger] local_address_of(ifaces);
        assert(json_of(to_json, sinfo, sinfo_str));
        assert(r@ == join(
            discover_response_lines(sinfo_str@, rfc2616_text(t), local_address_of(ifaces), 6142),
            "\r\n"@,
        ));
    }
    Some(r)
}

/// What the server knows of a network interface: its MAC address, if it has
/// one, and for each of its IP addresses the four bytes of an IPv4 one
/// (`None` for an IPv6 one).
pub struct NetInterface {
    pub mac: Option<[u8; 6]>,
    pub ips: Vec<Option<[u8; 4]>>,
}

/// Lists the machine's network interfaces through
/// `pnet::datalink::interfaces`. Nothing is promised of the list, which
/// depends on the machine.
#[verifier::external_body]
fn network_interfaces() -> (r: Vec<NetInterface>) {
    pnet::datalink::interfaces().iter().map(|i| NetInterface {
        mac: i.mac.map(|m| m.octets()),
        ips: i.ips.iter().map(|n| match n {
            pnet::ipnetwork::IpNetwork::V4(v4) => Some(v4.ip().octets()),
            pnet::ipnetwork::IpNetwork::V6(_) => None,
        }).collect(),
    }).collect()
}

/// Whether every byte of a MAC address is zero.
pub open spec fn mac_is_zero(m: [u8; 6]) -> bool {
    forall|i: int| 0 <= i < 6 ==> m@[i] == 0
}

/// An interface the server can be reached at: it has an address, and a
/// MAC address that is not all zeros.
pub open spec fn is_reachable(i: NetInterface) -> bool {
    i.ips@.len() > 0 && match i.mac {
        Some(m) => !mac_is_zero(m),
        None => false,
    }
}

/// The first IPv4 address among `ips`.
pub open spec fn first_ipv4(ips: Seq<Option<[u8; 4]>>) -> Option<[u8; 4]>
    decreases ips.len(),
{
    if ips.len() == 0 {
        None
    } else {
        match ips[0] {
            Some(a) => Some(a),
            None => first_ipv4(ips.drop_first()),
        }
    }
}

/// An IPv4 address in dotted decimal notation.
pub open spec fn dotted(a: [u8; 4]) -> Seq<char> {
    decimal(a@[0] as nat) + "."@ + decimal(a@[1] as nat) + "."@ + decimal(a@[2] as nat) + "."@
        + decimal(a@[3] as nat)
}

/// The local address among `ifaces`: the first IPv4 address of the first
/// reachable interface that has one; the loopback address when no reachable
/// interface has an IPv4 address.
pub open spec fn local_address_of(ifaces: Seq<NetInterface>) -> Seq<char>
    decreases ifaces.len(),
{
    if ifaces.len() == 0 {
        "127.0.0.1"@
    } else if is_reachable(ifaces[0]) && first_ipv4(ifaces[0].ips@) is Some {
        dotted(first_ipv4(ifaces[0].ips@)->0)
    } else {
        local_address_of(ifaces.drop_first())
    }
}

/// Whether a MAC address is all zeros.
fn mac_zero(m: &[u8; 6]) -> (r: bool)
    ensures
        r == mac_is_zero(*m),
{
    let mut i: usize = 0;
    while i < 6
        invariant
            i <= 6,
            forall|k: int| 0 <= k < i ==> m@[k] == 0,
        decreases 6 - i,
    {
        if m[i] != 0 {
            return false;
        }
        i = i + 1;
    }
    true
}

/// An IPv4 address in dotted decimal notation.
fn dotted_string(a: &[u8; 4]) -> (r: String)
    ensures
        r@ == dotted(*a),
{
    let mut v: Vec<char> = Vec::new();
    push_decimal(a[0] as u64, &mut v);
    push_str(&mut v, ".");
    push_decimal(a[1] as u64, &mut v);
    push_str(&mut v, ".");
    push_decimal(a[2] as u64, &mut v);
    push_str(&mut v, ".");
    push_decimal(a[3] as u64, &mut v);
    string_from_chars(&v)
}

/// The first IPv4 address among `ips`.
fn first_ipv4_of(ips: &Vec<Option<[u8; 4]>>) -> (r: Option<[u8; 4]>)
    ensures
        r == first_ipv4(ips@),
{
    let mut j: usize = 0;
    assert(ips@.skip(0) =~= ips@);
    while j < ips.len()
        invariant
            j <= ips@.len(),
            first_ipv4(ips@) == first_ipv4(ips@.skip(j as int)),
        decreases ips@.len() - j,
    {
        proof {
            assert(ips@.skip(j as int)[0] == ips@[j as int]);
            assert(ips@.skip(j as int).drop_first() =~= ips@.skip(j + 1));
        }
        if let Some(a) = ips[j] {
            return Some(a);
        }
        j = j + 1;
    }
    None
}

/// The local address among `ifaces`.
pub fn local_address(ifaces: &Vec<NetInterface>) -> (r: String)
    ensures
        r@ == local_address_of(ifaces@),
{
    let mut i: usize = 0;
    assert(ifaces@.skip(0) =~= ifaces@);
    while i < ifaces.len()
        invariant
            i <= ifaces@.len(),
            local_address_of(ifaces@) == local_address_of(ifaces@.skip(i as int)),
        decreases ifaces@.len() - i,
    {
        let iface = &ifaces[i];
        proof {
            assert(ifaces@.skip(i as int)[0] == *iface);
            assert(ifaces@.skip(i as int).drop_first() =~= ifaces@.skip(i + 1));
        }
        let reachable = iface.ips.len() > 0 && match &iface.mac {
            Some(m) => !mac_zero(m),
            None => false,
        };
        if reachable {
            if let Some(a) = first_ipv4_of(&iface.ips) {
                return dotted_string(&a);
            }
        }
        i = i + 1;
    }
    "127.0.0.1".to_string()
}

/// Find local IPv4 address
/// No IPv6 support yet because I am pretty sure my router is shit
/// and will not work well with it.
/// (this is also the reason why I set up only an ipv4 multicast)
///
/// Used primarily for the discover message response we receive in
/// multicast to tell the client where to connect to
///
/// If no address is found, it falls back to the loopback address.
pub fn find_local_address() -> (r: String)
    ensures
        exists|ifaces: Seq<NetInterface>| r@ == #[trigger] local_address_of(ifaces),
{
    let ifaces = network_interfaces();
    local_address(&ifaces)
}

} // verus!
