//! The decisions of the HTTP server: which requests for static files are
//! served and how they are answered, and what the request log says.
use vstd::prelude::*;
use vstd::string::*;

use crate::paths::{
    components, is_absolute, is_named_piece, join, lemma_join_components, lemma_named_concat,
    lemma_single_piece, lemma_split_pieces_nonempty, named_pieces, path_components, path_join,
    split_pieces,
};
use crate::text::{decimal, decimal_string};

verus! {

/// `..`, the parent directory component.
pub open spec fn parent_dir() -> Seq<char> {
    seq!['.', '.']
}

/// `index.html`, served for a directory.
pub open spec fn index_name() -> Seq<char> {
    seq!['i', 'n', 'd', 'e', 'x', '.', 'h', 't', 'm', 'l']
}

/// `p` without its leading slashes.
pub open spec fn trim_leading_slashes(p: Seq<char>) -> Seq<char>
    decreases p.len(),
{
    if p.len() > 0 && p[0] == '/' {
        trim_leading_slashes(p.drop_first())
    } else {
        p
    }
}

/// The file path, relative to the served directory, that a request path
/// names: its leading slashes removed, `index.html` for an empty path, and
/// none where a component of it climbs to a parent directory.
pub open spec fn request_file_path(path: Seq<char>) -> Option<Seq<char>> {
    let t = trim_leading_slashes(path);
    if t.len() == 0 {
        Some(index_name())
    } else if path_components(t).contains(parent_dir()) {
        None
    } else {
        Some(t)
    }
}

fn index_name_str() -> (s: &'static str)
    ensures
        s@ == index_name(),
{
    proof {
        reveal_strlit("index.html");
    }
    "index.html"
}

/// Removes the leading slashes of `p`.
fn trim_slashes(p: &str) -> (t: &str)
    ensures
        t@ == trim_leading_slashes(p@),
{
    let n = p.unicode_len();
    let mut i: usize = 0;
    assert(p@.skip(0) =~= p@);
    while i < n && p.get_char(i) == '/'
        invariant
            n == p@.len(),
            i <= n,
            trim_leading_slashes(p@) == trim_leading_slashes(p@.skip(i as int)),
        decreases n - i,
    {
        assert(p@.skip(i as int).drop_first() =~= p@.skip(i + 1));
        i = i + 1;
    }
    assert(i < n ==> p@.skip(i as int)[0] == p@[i as int]);
    p.substring_char(i, n)
}

/// The request path as a file path relative to the served directory, or
/// `None` where it would leave that directory.
pub fn safe_request_path(path: &str) -> (r: Option<String>)
    ensures
        r.deep_view() == request_file_path(path@),
{
    let t = trim_slashes(path);
    if t.unicode_len() == 0 {
        return Some(index_name_str().to_owned());
    }
    let comps = components(t);
    let mut i: usize = 0;
    while i < comps.len()
        invariant
            i <= comps.len(),
            comps.deep_view() == path_components(t@),
            t@ == trim_leading_slashes(path@),
            t@.len() > 0,
            forall|k: int| 0 <= k < i ==> comps.deep_view()[k] != parent_dir(),
        decreases comps.len() - i,
    {
        let c = comps[i].as_str();
        if c.unicode_len() == 2 && c.get_char(0) == '.' && c.get_char(1) == '.' {
            assert(comps.deep_view()[i as int] =~= parent_dir());
            assert(path_components(t@)[i as int] == parent_dir());
            assert(path_components(t@).contains(parent_dir()));
            return None;
        }
        assert(comps.deep_view()[i as int] != parent_dir()) by {
            if comps.deep_view()[i as int] == parent_dir() {
                assert(c@.len() == 2 && c@[0] == '.' && c@[1] == '.');
            }
        }
        i = i + 1;
    }
    assert(!path_components(t@).contains(parent_dir()));
    Some(t.to_owned())
}

/// Trimming leading slashes leaves a path that is not absolute.
pub proof fn lemma_trimmed_relative(p: Seq<char>)
    ensures
        !is_absolute(trim_leading_slashes(p)),
    decreases p.len(),
{
    if p.len() > 0 && p[0] == '/' {
        lemma_trimmed_relative(p.drop_first());
    }
}

/// A served file path never leaves the served directory: it is relative and
/// none of its components is `..`.
pub proof fn lemma_request_path_confined(path: Seq<char>)
    ensures
        match request_file_path(path) {
            Some(r) => !is_absolute(r) && !path_components(r).contains(parent_dir()),
            None => true,
        },
{
    lemma_trimmed_relative(path);
    let t = trim_leading_slashes(path);
    if t.len() == 0 {
        let r = index_name();
        lemma_single_piece(r);
        assert(named_pieces(seq![r]) =~= seq![r]) by {
            let e = Seq::<Seq<char>>::empty();
            assert(seq![r].drop_last() =~= e);
            assert(named_pieces(e) == e);
            assert(seq![r].last() == r);
            assert(r != seq!['.']) by {
                assert(r.len() != seq!['.'].len());
            }
            assert(is_named_piece(r));
        }
        assert(path_components(r) =~= seq![r]);
        assert(r != parent_dir()) by {
            assert(r.len() != 2);
        }
    }
}

/// The file that a request is served from lies below the served directory
/// `base`: its components are those of `base`, followed by components none
/// of which is `..`; so is the `index.html` served for a directory there.
pub proof fn lemma_served_path_below_base(base: Seq<char>, uri_path: Seq<char>)
    requires
        base.len() > 0,
        request_file_path(uri_path) is Some,
    ensures
        ({
            let r = request_file_path(uri_path)->0;
            let tail = named_pieces(split_pieces(r));
            &&& path_components(path_join(base, r)) == path_components(base) + tail
            &&& !tail.contains(parent_dir())
            &&& path_components(path_join(path_join(base, r), index_name())) == path_components(base)
                + tail + seq![index_name()]
        }),
{
    let r = request_file_path(uri_path)->0;
    lemma_request_path_confined(uri_path);
    lemma_join_components(base, r);
    let sr = split_pieces(r);
    lemma_split_pieces_nonempty(r);
    let tail = named_pieces(sr);
    assert(!tail.contains(parent_dir())) by {
        if sr[0] == seq!['.'] {
            assert(sr =~= seq![sr[0]] + sr.skip(1));
            lemma_named_concat(seq![sr[0]], sr.skip(1));
            let e = Seq::<Seq<char>>::empty();
            assert(seq![sr[0]].drop_last() =~= e);
            assert(named_pieces(e) == e);
            assert(seq![sr[0]].last() == sr[0]);
            assert(!is_named_piece(sr[0]));
            assert(named_pieces(seq![sr[0]]) =~= e);
            assert(path_components(r) =~= seq![seq!['.']] + tail);
            if tail.contains(parent_dir()) {
                let k = choose|k: int| 0 <= k < tail.len() && tail[k] == parent_dir();
                assert(path_components(r)[k + 1] == parent_dir());
            }
        } else {
            assert(path_components(r) == tail);
        }
    }
    let j = path_join(base, r);
    assert(j.len() > 0) by {
        if !is_absolute(r) {
            if base.last() == '/' {
                assert(j == base + r);
            } else {
                assert(j == base + seq!['/'] + r);
            }
        }
    }
    let idx = index_name();
    assert(!is_absolute(idx));
    lemma_join_components(j, idx);
    lemma_single_piece(idx);
    assert(named_pieces(seq![idx]) =~= seq![idx]) by {
        let e = Seq::<Seq<char>>::empty();
        assert(seq![idx].drop_last() =~= e);
        assert(named_pieces(e) == e);
        assert(seq![idx].last() == idx);
        assert(idx.len() != seq!['.'].len());
        assert(is_named_piece(idx));
    }
}

/// The request methods that the static file handler tells apart.
#[derive(Debug, Clone, Copy, PartialEq, Eq, Structural)]
pub enum RequestMethod {
    Get,
    Head,
    Other,
}

/// What a request for a static file asks for.
#[derive(Debug, Clone)]
pub enum StaticRequest {
    /// A method other than GET and HEAD.
    MethodNotAllowed,
    /// A path that would leave the served directory.
    BadRequest,
    /// The path `target` below the served directory (its `index.html` where
    /// it is a directory); only the headers where `is_head`.
    Serve { target: String, is_head: bool },
}

/// The path below the served directory `base` that a request path names.
pub open spec fn request_target(base: Seq<char>, uri_path: Seq<char>) -> Option<Seq<char>> {
    match request_file_path(uri_path) {
        Some(r) => Some(path_join(base, r)),
        None => None,
    }
}

/// The file served for a target: its `index.html` where it is a directory.
pub open spec fn served_file_of(target: Seq<char>, is_dir: bool) -> Seq<char> {
    if is_dir {
        path_join(target, index_name())
    } else {
        target
    }
}

/// Classifies a request for a static file below `base_dir` by its method
/// and URI path: GET and HEAD requests for a path that stays below
/// `base_dir` are served from that path joined onto `base_dir`.
pub fn plan_static_request(method: RequestMethod, uri_path: &str, base_dir: &str) -> (r: StaticRequest)
    ensures
        method == RequestMethod::Other ==> r is MethodNotAllowed,
        method != RequestMethod::Other ==> match request_target(base_dir@, uri_path@) {
            None => r is BadRequest,
            Some(t) => r matches StaticRequest::Serve { target, is_head } && target@ == t
                && is_head == (method == RequestMethod::Head),
        },
{
    let is_head = match method {
        RequestMethod::Get => false,
        RequestMethod::Head => true,
        RequestMethod::Other => {
            return StaticRequest::MethodNotAllowed;
        },
    };
    match safe_request_path(uri_path) {
        Some(relative) => StaticRequest::Serve { target: join(base_dir, relative.as_str()), is_head },
        None => StaticRequest::BadRequest,
    }
}

/// The file served for a directory: its `index.html`.
pub fn directory_index(dir: &str) -> (r: String)
    ensures
        r@ == path_join(dir@, index_name()),
{
    join(dir, index_name_str())
}

/// The file served for `target`, given whether it is a directory.
pub fn served_file(target: &str, is_dir: bool) -> (r: String)
    ensures
        r@ == served_file_of(target@, is_dir),
{
    if is_dir {
        directory_index(target)
    } else {
        target.to_owned()
    }
}

/// A request path is served from the served directory joined with the path
/// it names, at any depth: a path whose components include no `..` is
/// served from `base` joined with the path without its leading slashes;
/// a path with a `..` component is refused.
pub proof fn lemma_request_target(base: Seq<char>, uri_path: Seq<char>)
    ensures
        request_file_path(uri_path) matches Some(r) ==> request_target(base, uri_path) == Some(
            path_join(base, r),
        ),
        ({
            let t = trim_leading_slashes(uri_path);
            t.len() > 0 && !path_components(t).contains(seq!['.', '.']) ==> request_target(base, uri_path)
                == Some(path_join(base, t))
        }),
        ({
            let t = trim_leading_slashes(uri_path);
            t.len() > 0 && path_components(t).contains(seq!['.', '.']) ==> request_target(base, uri_path) is None
        }),
{
}

/// A GET or HEAD request for `/` (or for nothing but slashes) targets
/// `base/index.html`; a target that is a directory is served its
/// `index.html`, any other target itself.
pub proof fn lemma_root_request_serves_index(base: Seq<char>, uri_path: Seq<char>, target: Seq<char>)
    ensures
        trim_leading_slashes(uri_path).len() == 0 ==> request_target(base, uri_path) == Some(
            path_join(base, seq!['i', 'n', 'd', 'e', 'x', '.', 'h', 't', 'm', 'l']),
        ),
        served_file_of(target, true) == path_join(target, seq!['i', 'n', 'd', 'e', 'x', '.', 'h', 't', 'm', 'l']),
        served_file_of(target, false) == target,
{
}

/// The body of a response.
#[derive(Debug, Clone)]
pub enum Body {
    Empty,
    Text(String),
    /// The contents of the served file.
    File,
}

/// A response: status code, headers (name and value) and body.
#[derive(Debug, Clone)]
pub struct StaticResponse {
    pub status: u16,
    pub headers: Vec<(String, String)>,
    pub body: Body,
}

/// The model of a `Body`.
pub enum BodyView {
    Empty,
    Text(Seq<char>),
    File,
}

/// The model of a `StaticResponse`.
pub struct ResponseView {
    pub status: u16,
    pub headers: Seq<(Seq<char>, Seq<char>)>,
    pub body: BodyView,
}

impl View for StaticResponse {
    type V = ResponseView;

    open spec fn view(&self) -> ResponseView {
        ResponseView {
            status: self.status,
            headers: self.headers.deep_view(),
            body: match self.body {
                Body::Empty => BodyView::Empty,
                Body::Text(t) => BodyView::Text(t@),
                Body::File => BodyView::File,
            },
        }
    }
}

/// `allow: GET, HEAD`.
pub open spec fn allow_header() -> (Seq<char>, Seq<char>) {
    ("allow"@, "GET, HEAD"@)
}

/// 405, allowing GET and HEAD.
pub open spec fn method_not_allowed_response() -> ResponseView {
    ResponseView { status: 405, headers: seq![allow_header()], body: BodyView::Empty }
}

/// 400, `Invalid path`.
pub open spec fn bad_request_response() -> ResponseView {
    ResponseView { status: 400, headers: Seq::empty(), body: BodyView::Text("Invalid path"@) }
}

/// 404, `404 Not Found`.
pub open spec fn not_found_response() -> ResponseView {
    ResponseView { status: 404, headers: Seq::empty(), body: BodyView::Text("404 Not Found"@) }
}

/// The answers that serve no file: 405 with `allow: GET, HEAD` and no body
/// for another method, 400 `Invalid path` for a path that leaves the served
/// directory, 404 `404 Not Found` for a missing file.
pub proof fn lemma_fixed_responses()
    ensures
        method_not_allowed_response().status == 405,
        method_not_allowed_response().headers == seq![("allow"@, "GET, HEAD"@)],
        method_not_allowed_response().body == BodyView::Empty,
        bad_request_response().status == 400,
        bad_request_response().headers.len() == 0,
        bad_request_response().body == BodyView::Text("Invalid path"@),
        not_found_response().status == 404,
        not_found_response().headers.len() == 0,
        not_found_response().body == BodyView::Text("404 Not Found"@),
{
}

/// The response that ends a request without serving a file.
pub fn method_not_allowed() -> (r: StaticResponse)
    ensures
        r@ == method_not_allowed_response(),
{
    let mut headers: Vec<(String, String)> = Vec::new();
    headers.push(("allow".to_owned(), "GET, HEAD".to_owned()));
    let r = StaticResponse { status: 405, headers, body: Body::Empty };
    assert(r@.headers =~= seq![allow_header()]);
    r
}

/// The response to a path that would leave the served directory.
pub fn bad_request() -> (r: StaticResponse)
    ensures
        r@ == bad_request_response(),
{
    let r = StaticResponse { status: 400, headers: Vec::new(), body: Body::Text("Invalid path".to_owned()) };
    assert(r@.headers =~= Seq::<(Seq<char>, Seq<char>)>::empty());
    r
}

/// The response to a request for a file that does not exist.
pub fn not_found() -> (r: StaticResponse)
    ensures
        r@ == not_found_response(),
{
    let r = StaticResponse { status: 404, headers: Vec::new(), body: Body::Text("404 Not Found".to_owned()) };
    assert(r@.headers =~= Seq::<(Seq<char>, Seq<char>)>::empty());
    r
}

/// The seconds since the Unix epoch before which `httpdate` can format a date
/// (the start of the year 10000).
pub open spec fn http_date_limit() -> u64 {
    253402300800
}

/// The IMF-fixdate (`Fri, 15 May 2015 15:34:21 GMT`) that
/// `httpdate::fmt_http_date` writes for a time `secs` seconds after the epoch.
pub uninterp spec fn http_date(secs: u64) -> Seq<char>;

/// Calls `httpdate::fmt_http_date` on the time `secs` seconds after the Unix
/// epoch. Its result is only named here; the function panics from the year
/// 10000 on, which the precondition leaves out.
#[verifier::external_body]
fn fmt_http_date(secs: u64) -> (s: String)
    requires
        secs < http_date_limit(),
    ensures
        s@ == http_date(secs),
{
    httpdate::fmt_http_date(std::time::UNIX_EPOCH + std::time::Duration::from_secs(secs))
}

/// What the file system says of the path to serve.
#[derive(Debug, Clone, Copy)]
pub enum FileMetadata {
    /// Nothing is at the path.
    Missing,
    /// Something other than a file is at the path.
    NotAFile,
    /// A file of `len` bytes, last modified `modified` seconds after the
    /// epoch where the platform reports it.
    File { len: u64, modified: Option<u64> },
}

/// The next step of serving a file once its metadata is known.
#[derive(Debug, Clone)]
pub enum ServeStep {
    /// Answer with this response.
    Respond(StaticResponse),
    /// Read the file and answer with this response, its contents as body.
    ReadFile(StaticResponse),
}

/// The model of a `ServeStep`.
pub enum StepView {
    Respond(ResponseView),
    ReadFile(ResponseView),
}

impl View for ServeStep {
    type V = StepView;

    open spec fn view(&self) -> StepView {
        match self {
            ServeStep::Respond(r) => StepView::Respond(r@),
            ServeStep::ReadFile(r) => StepView::ReadFile(r@),
        }
    }
}

/// The headers of a served file: its content type and length, and the time
/// it was last modified where known.
pub open spec fn file_headers(len: u64, modified: Option<u64>, content_type: Seq<char>) -> Seq<(Seq<char>, Seq<char>)> {
    let base = seq![("content-type"@, content_type), ("content-length"@, decimal(len as nat))];
    match modified {
        Some(t) => base.push(("last-modified"@, http_date(t))),
        None => base,
    }
}

/// How a file is served, given its metadata: 404 where there is no file,
/// else 200 with its headers,
/// the contents following unless only the headers were asked for.
pub open spec fn metadata_step(meta: FileMetadata, is_head: bool, content_type: Seq<char>) -> StepView {
    match meta {
        FileMetadata::Missing => StepView::Respond(not_found_response()),
        FileMetadata::NotAFile => StepView::Respond(not_found_response()),
        FileMetadata::File { len, modified } => {
            let headers = file_headers(len, modified, content_type);
            if is_head {
                StepView::Respond(ResponseView { status: 200, headers, body: BodyView::Empty })
            } else {
                StepView::ReadFile(ResponseView { status: 200, headers, body: BodyView::File })
            }
        },
    }
}

/// A file that exists is answered with 200 and its headers, whatever its
/// size: a GET reads the file and sends its contents, a HEAD sends no body.
/// The headers are its content type, its length in decimal, and its
/// modification date where known. Where there is no file, the answer is 404.
pub proof fn lemma_file_is_served(len: u64, modified: Option<u64>, content_type: Seq<char>, is_head: bool)
    ensures
        metadata_step(FileMetadata::File { len, modified }, false, content_type) == StepView::ReadFile(
            ResponseView { status: 200, headers: file_headers(len, modified, content_type), body: BodyView::File },
        ),
        metadata_step(FileMetadata::File { len, modified }, true, content_type) == StepView::Respond(
            ResponseView { status: 200, headers: file_headers(len, modified, content_type), body: BodyView::Empty },
        ),
        file_headers(len, modified, content_type)[0] == ("content-type"@, content_type),
        file_headers(len, modified, content_type)[1] == ("content-length"@, decimal(len as nat)),
        modified matches Some(t) ==> file_headers(len, modified, content_type).len() == 3
            && file_headers(len, modified, content_type)[2] == ("last-modified"@, http_date(t)),
        modified is None ==> file_headers(len, modified, content_type).len() == 2,
        metadata_step(FileMetadata::Missing, is_head, content_type) == StepView::Respond(not_found_response()),
        metadata_step(FileMetadata::NotAFile, is_head, content_type) == StepView::Respond(not_found_response()),
        not_found_response().status == 404,
        not_found_response().body == BodyView::Text("404 Not Found"@),
{
}

/// Whether metadata can be turned into headers: a modification time must
/// fall before the year 10000.
pub open spec fn metadata_in_range(meta: FileMetadata) -> bool {
    match meta {
        FileMetadata::File { modified: Some(t), .. } => t < http_date_limit(),
        _ => true,
    }
}

/// Decides how a file is served once its metadata is known.
pub fn serve_after_metadata(meta: FileMetadata, is_head: bool, content_type: &str) -> (r: ServeStep)
    requires
        metadata_in_range(meta),
    ensures
        r@ == metadata_step(meta, is_head, content_type@),
{
    match meta {
        FileMetadata::Missing => ServeStep::Respond(not_found()),
        FileMetadata::NotAFile => ServeStep::Respond(not_found()),
        FileMetadata::File { len, modified } => {
            let mut headers: Vec<(String, String)> = Vec::new();
            headers.push(("content-type".to_owned(), content_type.to_owned()));
            headers.push(("content-length".to_owned(), decimal_string(len as u128)));
            if let Some(t) = modified {
                headers.push(("last-modified".to_owned(), fmt_http_date(t)));
            }
            assert(headers.deep_view() =~= file_headers(len, modified, content_type@));
            if is_head {
                ServeStep::Respond(StaticResponse { status: 200, headers, body: Body::Empty })
            } else {
                ServeStep::ReadFile(StaticResponse { status: 200, headers, body: Body::File })
            }
        },
    }
}

/// How reading the file to serve ended, where it did not fail otherwise.
#[derive(Debug, Clone, Copy, PartialEq, Eq, Structural)]
pub enum FileRead {
    /// The contents were read.
    Done,
    /// The file was gone by then.
    Missing,
}

/// The response once the file has been read: the prepared response, or
/// 404 where the file has gone meanwhile.
pub fn serve_after_read(prepared: StaticResponse, outcome: FileRead) -> (r: StaticResponse)
    ensures
        match outcome {
            FileRead::Done => r == prepared,
            FileRead::Missing => r@ == not_found_response(),
        },
{
    match outcome {
        FileRead::Done => prepared,
        FileRead::Missing => not_found(),
    }
}

/// A HEAD request is answered with the status and headers of the GET
/// request for the same file, and an empty body.
pub proof fn lemma_head_matches_get(meta: FileMetadata, content_type: Seq<char>)
    ensures
        match (metadata_step(meta, true, content_type), metadata_step(meta, false, content_type)) {
            (StepView::Respond(head), StepView::ReadFile(get)) => head.status == get.status
                && head.headers == get.headers && head.body == BodyView::Empty,
            (StepView::Respond(head), StepView::Respond(get)) => head == get,
            _ => false,
        },
{
}

/// The text of a log timestamp: milliseconds since the Unix epoch, `0`
/// where the clock reads before the epoch.
pub fn timestamp(millis_since_epoch: Option<u128>) -> (r: String)
    ensures
        r@ == decimal(
            match millis_since_epoch {
                Some(m) => m as nat,
                None => 0,
            },
        ),
{
    match millis_since_epoch {
        Some(m) => decimal_string(m),
        None => decimal_string(0),
    }
}

/// The clock reading of a log line, in milliseconds, `0` before the epoch.
pub open spec fn clock_millis(millis_since_epoch: Option<u128>) -> nat {
    match millis_since_epoch {
        Some(m) => m as nat,
        None => 0,
    }
}

/// A log line: `<timestamp>: <message>`.
pub fn log_line(millis_since_epoch: Option<u128>, msg: &str) -> (r: String)
    ensures
        r@ == decimal(clock_millis(millis_since_epoch)) + ": "@ + msg@,
{
    let mut r = timestamp(millis_since_epoch);
    r.append(": ");
    r.append(msg);
    r
}

/// An error log line: `ERROR <timestamp>: <message>`.
pub fn error_line(millis_since_epoch: Option<u128>, msg: &str) -> (r: String)
    ensures
        r@ == "ERROR "@ + decimal(clock_millis(millis_since_epoch)) + ": "@ + msg@,
{
    let mut r = "ERROR ".to_owned();
    let t = timestamp(millis_since_epoch);
    r.append(t.as_str());
    r.append(": ");
    r.append(msg);
    r
}

/// The log message of a handled request: method, URI, status and the
/// time it took, as `GET /index.html 200 OK 3ms`.
pub fn request_log_message(method: &str, uri: &str, status: &str, millis: u128) -> (r: String)
    ensures
        r@ == method@ + " "@ + uri@ + " "@ + status@ + " "@ + decimal(millis as nat) + "ms"@,
{
    let mut r = method.to_owned();
    r.append(" ");
    r.append(uri);
    r.append(" ");
    r.append(status);
    r.append(" ");
    let m = decimal_string(millis);
    r.append(m.as_str());
    r.append("ms");
    r
}

/// The complaint logged for a response status: `Internal error` for a
/// server error (5xx), `Client error` for a client error (4xx), none else.
pub open spec fn status_complaint_of(status: u16) -> Option<Seq<char>> {
    if 500 <= status <= 599 {
        Some("Internal error"@)
    } else if 400 <= status <= 499 {
        Some("Client error"@)
    } else {
        None
    }
}

/// Server errors (500-599) are logged as `Internal error`, client errors
/// (400-499) as `Client error`; other statuses draw no complaint.
pub proof fn lemma_status_complaints(status: u16)
    ensures
        500 <= status < 600 ==> status_complaint_of(status) == Some("Internal error"@),
        400 <= status < 500 ==> status_complaint_of(status) == Some("Client error"@),
        (status < 400 || status >= 600) ==> status_complaint_of(status) is None,
{
}

/// The complaint logged for a response status, if any.
pub fn status_complaint(status: u16) -> (r: Option<String>)
    ensures
        r.deep_view() == status_complaint_of(status),
{
    if 500 <= status && status <= 599 {
        Some("Internal error".to_owned())
    } else if 400 <= status && status <= 499 {
        Some("Client error".to_owned())
    } else {
        None
    }
}

} // verus!
