//! Response framing: status line, header block and body.
use vstd::prelude::*;
use vstd::string::StringSliceAdditionalSpecFns;
use crate::mime::{guess_mime_type, mime_type_of};

verus! {

/// The decimal digit for `d` (`0 <= d < 10`).
pub open spec fn digit_char(d: int) -> char {
    "0123456789"@[d]
}

/// `n` written in decimal, without leading zeros.
pub open spec fn decimal(n: nat) -> Seq<char>
    decreases n,
{
    if n < 10 {
        seq![digit_char(n as int)]
    } else {
        decimal(n / 10) + seq![digit_char((n % 10) as int)]
    }
}

/// Status line of a served file.
pub open spec fn ok_status() -> Seq<char> {
    "HTTP/1.1 200 OK\r\n"@
}

/// Status line of a missing file.
pub open spec fn not_found_status() -> Seq<char> {
    "HTTP/1.1 404 Not Found\r\n"@
}

/// Body of a missing file.
pub open spec fn not_found_body() -> Seq<u8> {
    "<h1>404 Not Found</h1>".spec_bytes()
}

/// The header block for a body of `len` bytes of MIME type `mime`, ended by
/// the blank line.
pub open spec fn header_block(len: nat, mime: Seq<char>) -> Seq<char> {
    "Content-Length: "@ + decimal(len) + "\r\nContent-Type: "@ + mime + "\r\n\r\n"@
}

/// The response that serves `contents` as the file at `path`.
pub open spec fn ok_response(path: Seq<char>, contents: Seq<u8>) -> (Seq<char>, Seq<char>, Seq<u8>) {
    (ok_status(), header_block(contents.len(), mime_type_of(path)), contents)
}

/// The response for a file that cannot be served.
pub open spec fn not_found() -> (Seq<char>, Seq<char>, Seq<u8>) {
    (not_found_status(), header_block(not_found_body().len(), "text/html"@), not_found_body())
}

/// The view of a built response.
pub open spec fn response_view(r: (String, String, Vec<u8>)) -> (Seq<char>, Seq<char>, Seq<u8>) {
    (r.0@, r.1@, r.2@)
}

/// `n` in decimal.
pub fn decimal_string(n: usize) -> (r: String)
    ensures
        r@ == decimal(n as nat),
    decreases n,
{
    let digits = "0123456789";
    proof {
        reveal_strlit("0123456789");
    }
    if n < 10 {
        String::from_str(digits.substring_char(n, n + 1))
    } else {
        let mut s = decimal_string(n / 10);
        let d = n % 10;
        s.append(digits.substring_char(d, d + 1));
        proof {
            assert(digits@.subrange(d as int, d + 1) == seq![digit_char(d as int)]);
        }
        s
    }
}

fn header_string(len: usize, mime: &str) -> (r: String)
    ensures
        r@ == header_block(len as nat, mime@),
{
    let mut h = String::from_str("Content-Length: ");
    h.append(decimal_string(len).as_str());
    h.append("\r\nContent-Type: ");
    h.append(mime);
    h.append("\r\n\r\n");
    h
}

/// The `404 Not Found` response: a small HTML body with its headers.
pub fn not_found_response() -> (r: (String, String, Vec<u8>))
    ensures
        response_view(r) == not_found(),
{
    let body = "<h1>404 Not Found</h1>".as_bytes_vec();
    let status = String::from_str("HTTP/1.1 404 Not Found\r\n");
    let headers = header_string(body.len(), "text/html");
    (status, headers, body)
}

/// Builds the response for the file at `full_path`: `200 OK` with the
/// file's bytes when `contents` holds them, `404 Not Found` when the file
/// could not be read.
pub fn generate_response(full_path: &str, contents: Option<Vec<u8>>) -> (r: (String, String, Vec<u8>))
    ensures
        contents matches Some(c) ==> response_view(r) == ok_response(full_path@, c@),
        contents is None ==> response_view(r) == not_found(),
{
    match contents {
        Some(c) => {
            let mime = guess_mime_type(full_path);
            let status = String::from_str("HTTP/1.1 200 OK\r\n");
            let headers = header_string(c.len(), mime);
            (status, headers, c)
        },
        None => not_found_response(),
    }
}

} // verus!
