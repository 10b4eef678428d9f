//! The decisions of one connection.
//!
//! A connection reads a request, dispatches it, writes the reply and then
//! either waits for the next request or closes. The reading, the checks on
//! disk and the writing are done by the caller; the functions here take what
//! came of them and decide the next step.
use vstd::prelude::*;
use crate::request::{parse_request, request_fields, RequestError, get_request, is_ws, lemma_get_request_parses};
use crate::resolve::{resolution, ResolveError};
use crate::response::{generate_response, not_found_response, ok_response, not_found, ok_status, header_block, not_found_status, not_found_body};
use crate::mime::mime_type_of;
use crate::text::{contains, occurs_in, str_eq};
use crate::response::decimal;

verus! {

/// The request asks for the connection to stay open: it declares
/// `Connection: keep-alive`, or it is `HTTP/1.1` and does not declare
/// `Connection: close`.
pub open spec fn wants_keep_alive(request: Seq<char>, version: Seq<char>) -> bool {
    occurs_in(request, "Connection: keep-alive"@) || (version == "HTTP/1.1"@ && !occurs_in(
        request,
        "Connection: close"@,
    ))
}

/// The `Connection` header line that announces the decision `keep_open`.
pub open spec fn connection_line(keep_open: bool) -> Seq<char> {
    if keep_open {
        "Connection: keep-alive\r\n"@
    } else {
        "Connection: close\r\n"@
    }
}

/// Whether the request text `request`, whose version is `version`, keeps the
/// connection open.
pub fn keep_alive(request: &str, version: &str) -> (r: bool)
    ensures
        r == wants_keep_alive(request@, version@),
{
    contains(request, "Connection: keep-alive") || (str_eq(version, "HTTP/1.1") && !contains(
        request,
        "Connection: close",
    ))
}

/// What to do with a request that has been read.
#[derive(Debug)]
pub enum Dispatch {
    /// Drop the connection without a reply.
    Close(RequestError),
    /// Resolve `url_path` and reply; `keep_alive` is what the request asked.
    Serve { url_path: String, keep_alive: bool },
}

/// Dispatches the request text read from the connection. A refused request
/// (an empty read included) closes the connection.
pub fn on_request(request: &str) -> (r: Dispatch)
    ensures
        match r {
            Dispatch::Close(e) => request_fields(request@) == Err::<
                (Seq<char>, Seq<char>, Seq<char>),
                RequestError,
            >(e),
            Dispatch::Serve { url_path, keep_alive } => request_fields(request@) matches Ok(
                (m, p, v),
            ) && url_path@ == p && keep_alive == wants_keep_alive(request@, v),
        },
{
    match parse_request(request) {
        Ok(q) => {
            let k = keep_alive(request, q.version.as_str());
            Dispatch::Serve { url_path: q.url_path, keep_alive: k }
        },
        Err(e) => Dispatch::Close(e),
    }
}

/// A reply ready to be written, with the decision on the connection.
#[derive(Debug)]
pub struct Reply {
    pub status_line: String,
    /// The header block, led by the `Connection` header.
    pub headers: String,
    pub body: Vec<u8>,
    /// Whether the connection stays open once the reply is written.
    pub keep_open: bool,
}

/// Whether the connection stays open after replying to a request that
/// asked for `keep_alive` and resolved to `resolved`: a path that tries to
/// leave the static directory ends the connection.
pub open spec fn stays_open(resolved: Result<Seq<char>, ResolveError>, keep_alive: bool) -> bool {
    keep_alive && resolved != Err::<Seq<char>, ResolveError>(ResolveError::PathTraversal)
}

/// The view of a resolution outcome.
pub open spec fn resolved_view(r: Result<String, ResolveError>) -> Result<Seq<char>, ResolveError> {
    match r {
        Ok(p) => Ok(p@),
        Err(e) => Err(e),
    }
}

/// The response (before the `Connection` header) for a request that
/// resolved to `resolved`, where `contents` is what reading that file gave.
pub open spec fn reply_for(resolved: Result<Seq<char>, ResolveError>, contents: Option<Seq<u8>>) -> (Seq<char>, Seq<char>, Seq<u8>) {
    match (resolved, contents) {
        (Ok(p), Some(c)) => ok_response(p, c),
        _ => not_found(),
    }
}

/// Builds the reply to a dispatched request. `resolved` is what the path
/// resolved to; `contents` is what reading the resolved file gave (`None`
/// when it could not be read, or was not read). Any failure to resolve or
/// to read is answered with `404 Not Found`.
pub fn respond(resolved: &Result<String, ResolveError>, contents: Option<Vec<u8>>, keep_alive: bool) -> (r: Reply)
    ensures
        r.keep_open == stays_open(resolved_view(*resolved), keep_alive),
        ({
            let (s, h, b) = reply_for(
                resolved_view(*resolved),
                match contents {
                    Some(c) => Some(c@),
                    None => None,
                },
            );
            r.status_line@ == s && r.headers@ == connection_line(r.keep_open) + h && r.body@ == b
        }),
{
    let keep_open = match resolved {
        Err(ResolveError::PathTraversal) => false,
        _ => keep_alive,
    };
    let (status_line, h, body) = match resolved {
        Ok(p) => generate_response(p.as_str(), contents),
        Err(_) => not_found_response(),
    };
    let mut headers = if keep_open {
        String::from_str("Connection: keep-alive\r\n")
    } else {
        String::from_str("Connection: close\r\n")
    };
    headers.append(h.as_str());
    Reply { status_line, headers, body, keep_open }
}

/// How writing a reply went. The status line, the header block and the body
/// are written in that order, and a failed write stops the rest.
#[derive(Clone, Copy, Debug, PartialEq, Eq, Structural)]
pub enum WriteOutcome {
    StatusFailed,
    HeadersFailed,
    BodyFailed,
    Written,
}

/// Whether to read another request after writing a reply whose decision was
/// `keep_open`. A failure before the body ends the connection; once the
/// headers are out, the reply counts as sent even if the body failed.
pub fn after_write(outcome: WriteOutcome, keep_open: bool) -> (r: bool)
    ensures
        r == (keep_open && (outcome == WriteOutcome::BodyFailed || outcome == WriteOutcome::Written)),
{
    match outcome {
        WriteOutcome::StatusFailed => false,
        WriteOutcome::HeadersFailed => false,
        WriteOutcome::BodyFailed => keep_open,
        WriteOutcome::Written => keep_open,
    }
}

/// A file that resolved and was read is served whole: status `200 OK`, a
/// `Content-Length` equal to its byte length, and a body identical to its
/// bytes.
pub proof fn lemma_served_file_round_trip(path: Seq<char>, contents: Seq<u8>)
    ensures
        ({
            let (s, h, b) = reply_for(Ok(path), Some(contents));
            &&& s == ok_status()
            &&& h == header_block(contents.len(), mime_type_of(path))
            &&& h.subrange(0, 16 + decimal(contents.len()).len() as int) == "Content-Length: "@ + decimal(contents.len())
            &&& b == contents
        }),
{
    reveal_strlit("Content-Length: ");
    let h = header_block(contents.len(), mime_type_of(path));
    assert(h.subrange(0, 16 + decimal(contents.len()).len() as int) =~= "Content-Length: "@ + decimal(contents.len()));
}

/// A `GET` request for the URL path `/u` of a file that resolves and is
/// read is answered with that file whole: `200 OK`, a `Content-Length`
/// equal to its byte length, and its exact bytes.
pub proof fn lemma_get_round_trip(
    root: Seq<char>,
    u: Seq<char>,
    exists: Seq<bool>,
    file: Seq<char>,
    contents: Seq<u8>,
)
    requires
        forall|k: int| 0 <= k < u.len() ==> !is_ws(#[trigger] u[k]),
        u.len() == 0 || u[0] != '/',
        resolution(root, u, exists) == Ok::<Seq<char>, ResolveError>(file),
    ensures
        request_fields(get_request(u)) == Ok::<_, RequestError>(("GET"@, u, "HTTP/1.1"@)),
        ({
            let (s, h, b) = reply_for(resolution(root, u, exists), Some(contents));
            &&& s == ok_status()
            &&& h.subrange(0, 16 + decimal(contents.len()).len() as int) == "Content-Length: "@
                + decimal(contents.len())
            &&& b == contents
        }),
{
    lemma_get_request_parses(u);
    lemma_served_file_round_trip(file, contents);
}

/// A path that resolves to no file, for whatever reason, or a file that could
/// not be read, gets exactly the `404 Not Found` reply, whose
/// `Content-Length` matches its body.
pub proof fn lemma_missing_file_not_found(resolved: Result<Seq<char>, ResolveError>, contents: Option<Seq<u8>>)
    requires
        resolved is Err || contents is None,
    ensures
        reply_for(resolved, contents) == (
            not_found_status(),
            header_block(not_found_body().len(), "text/html"@),
            not_found_body(),
        ),
{
}

} // verus!
