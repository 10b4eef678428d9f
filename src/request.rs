//! Request-line parsing.
//!
//! The request line is the text before the first `\n`. It is split on
//! Unicode whitespace (which takes in a trailing `\r`) into method, path and
//! version; a missing method or version reads as empty, a missing path as `/`.
use vstd::prelude::*;
use crate::text::str_eq;

verus! {

/// Why a request is refused.
#[derive(Clone, Copy, Debug, PartialEq, Eq, Structural)]
pub enum RequestError {
    /// The request holds no line at all.
    MalformedRequest,
    /// The version is neither `HTTP/1.0` nor `HTTP/1.1`.
    UnsupportedVersion,
    /// The method is not `GET`.
    UnsupportedMethod,
}

/// An accepted request line.
#[derive(Debug)]
pub struct ParsedRequest {
    /// Always `GET`.
    pub method: String,
    /// The request path with its leading slashes removed.
    pub url_path: String,
    /// `HTTP/1.0` or `HTTP/1.1`.
    pub version: String,
}

/// The characters that Unicode classes as white space.
pub open spec fn is_ws(c: char) -> bool {
    ('\u{9}' <= c <= '\u{d}') || c == ' ' || c == '\u{85}' || c == '\u{a0}' || c == '\u{1680}'
        || ('\u{2000}' <= c <= '\u{200a}') || c == '\u{2028}' || c == '\u{2029}' || c == '\u{202f}'
        || c == '\u{205f}' || c == '\u{3000}'
}

/// Position of the first `\n` of `s` at or after `i`, or the length of `s`.
pub open spec fn line_end(s: Seq<char>, i: int) -> int
    decreases s.len() - i,
{
    if i < 0 || i >= s.len() || s[i] == '\n' {
        i
    } else {
        line_end(s, i + 1)
    }
}

/// The request line: the text of `s` before its first `\n`.
pub open spec fn first_line(s: Seq<char>) -> Seq<char> {
    s.subrange(0, line_end(s, 0))
}

/// The first position at or after `i` that holds no white space.
pub open spec fn skip_ws(l: Seq<char>, i: int) -> int
    decreases l.len() - i,
{
    if 0 <= i < l.len() && is_ws(l[i]) {
        skip_ws(l, i + 1)
    } else {
        i
    }
}

/// The first position at or after `i` that holds white space.
pub open spec fn word_end(l: Seq<char>, i: int) -> int
    decreases l.len() - i,
{
    if 0 <= i < l.len() && !is_ws(l[i]) {
        word_end(l, i + 1)
    } else {
        i
    }
}

/// The first word of `l` at or after position `i`, with the position where
/// it ends.
pub open spec fn word_from(l: Seq<char>, i: int) -> Option<(Seq<char>, int)> {
    let a = skip_ws(l, i);
    if a >= l.len() {
        None
    } else {
        Some((l.subrange(a, word_end(l, a)), word_end(l, a)))
    }
}

/// `p` without its leading slashes.
pub open spec fn trim_slashes(p: Seq<char>) -> Seq<char>
    decreases p.len(),
{
    if p.len() > 0 && p[0] == '/' {
        trim_slashes(p.drop_first())
    } else {
        p
    }
}

/// The method, path and version words of the request line `l`.
pub open spec fn request_words(l: Seq<char>) -> (Seq<char>, Seq<char>, Seq<char>) {
    match word_from(l, 0) {
        None => (seq![], seq!['/'], seq![]),
        Some((m, e1)) => match word_from(l, e1) {
            None => (m, seq!['/'], seq![]),
            Some((p, e2)) => match word_from(l, e2) {
                None => (m, p, seq![]),
                Some((v, _)) => (m, p, v),
            },
        },
    }
}

/// What parsing the request text `s` yields: method, path without leading
/// slashes, and version; or why the request is refused.
pub open spec fn request_fields(s: Seq<char>) -> Result<(Seq<char>, Seq<char>, Seq<char>), RequestError> {
    if s.len() == 0 {
        Err(RequestError::MalformedRequest)
    } else {
        let (m, p, v) = request_words(first_line(s));
        if v != "HTTP/1.0"@ && v != "HTTP/1.1"@ {
            Err(RequestError::UnsupportedVersion)
        } else if m != "GET"@ {
            Err(RequestError::UnsupportedMethod)
        } else {
            Ok((m, trim_slashes(p), v))
        }
    }
}

/// A run of non-white-space characters from `i` that stops at `j` ends the
/// word there.
pub proof fn lemma_word_end(l: Seq<char>, i: int, j: int)
    requires
        0 <= i <= j <= l.len(),
        forall|k: int| i <= k < j ==> !is_ws(#[trigger] l[k]),
        j == l.len() || is_ws(l[j]),
    ensures
        word_end(l, i) == j,
    decreases j - i,
{
    if i < j {
        lemma_word_end(l, i + 1, j);
    }
}

/// The first `\n` at or after `i` ends the line.
pub proof fn lemma_line_end(s: Seq<char>, i: int, j: int)
    requires
        0 <= i <= j < s.len(),
        s[j] == '\n',
        forall|k: int| i <= k < j ==> #[trigger] s[k] != '\n',
    ensures
        line_end(s, i) == j,
    decreases j - i,
{
    if i < j {
        lemma_line_end(s, i + 1, j);
    }
}

/// The request text of a `GET` over `HTTP/1.1` for the URL path `/u`.
pub open spec fn get_request(u: Seq<char>) -> Seq<char> {
    "GET /"@ + u + " HTTP/1.1\r\n"@
}

/// A `GET` request for `/u`, where `u` holds no white space and does not
/// itself start with `/`, parses back to the path `u`.
pub proof fn lemma_get_request_parses(u: Seq<char>)
    requires
        forall|k: int| 0 <= k < u.len() ==> !is_ws(#[trigger] u[k]),
        u.len() == 0 || u[0] != '/',
    ensures
        request_fields(get_request(u)) == Ok::<_, RequestError>(("GET"@, u, "HTTP/1.1"@)),
{
    reveal_strlit("GET /");
    reveal_strlit(" HTTP/1.1\r\n");
    reveal_strlit("GET");
    reveal_strlit("HTTP/1.1");
    let s = get_request(u);
    let n = u.len() as int;
    assert(s.len() == 16 + n);
    assert forall|k: int| 0 <= k < 15 + n implies #[trigger] s[k] != '\n' by {
        if 5 <= k < 5 + n {
            assert(s[k] == u[k - 5]);
        }
    }
    lemma_line_end(s, 0, 15 + n);
    let l = first_line(s);
    assert(l == s.subrange(0, 15 + n));
    lemma_word_end(l, 0, 3);
    assert(skip_ws(l, 0) == 0);
    assert(skip_ws(l, 4) == 4);
    assert(skip_ws(l, 3) == 4);
    assert forall|k: int| 4 <= k < 5 + n implies !is_ws(#[trigger] l[k]) by {
        if 5 <= k {
            assert(l[k] == u[k - 5]);
        }
    }
    lemma_word_end(l, 4, 5 + n);
    assert(skip_ws(l, 6 + n) == 6 + n);
    assert(skip_ws(l, 5 + n) == 6 + n);
    lemma_word_end(l, 6 + n, 14 + n);
    assert(l.subrange(0, 3) =~= "GET"@);
    assert(l.subrange(6 + n, 14 + n) =~= "HTTP/1.1"@);
    let p = l.subrange(4, 5 + n);
    assert(p =~= seq!['/'] + u);
    assert(p.drop_first() =~= u);
    assert(trim_slashes(p) == trim_slashes(u));
}

fn is_space(c: char) -> (r: bool)
    ensures
        r == is_ws(c),
{
    ('\u{9}' <= c && c <= '\u{d}') || c == ' ' || c == '\u{85}' || c == '\u{a0}' || c == '\u{1680}'
        || ('\u{2000}' <= c && c <= '\u{200a}') || c == '\u{2028}' || c == '\u{2029}' || c
        == '\u{202f}' || c == '\u{205f}' || c == '\u{3000}'
}

fn find_line_end(s: &str) -> (r: usize)
    ensures
        r == line_end(s@, 0),
        r <= s@.len(),
{
    let n = s.unicode_len();
    let mut i: usize = 0;
    while i < n && s.get_char(i) != '\n'
        invariant
            n == s@.len(),
            i <= n,
            line_end(s@, 0) == line_end(s@, i as int),
        decreases n - i,
    {
        i = i + 1;
    }
    i
}

/// Finds the next word of `s@.subrange(0, e)` at or after `from`.
fn next_word(s: &str, e: usize, from: usize) -> (r: Option<(usize, usize)>)
    requires
        e <= s@.len(),
        from <= e,
    ensures
        match r {
            None => word_from(s@.subrange(0, e as int), from as int) is None,
            Some((a, b)) => a <= b <= e && word_from(s@.subrange(0, e as int), from as int) == Some(
                (s@.subrange(a as int, b as int), b as int),
            ),
        },
{
    let ghost l = s@.subrange(0, e as int);
    let mut a: usize = from;
    while a < e && is_space(s.get_char(a))
        invariant
            e <= s@.len(),
            from <= a <= e,
            l == s@.subrange(0, e as int),
            skip_ws(l, from as int) == skip_ws(l, a as int),
        decreases e - a,
    {
        a = a + 1;
    }
    if a >= e {
        return None;
    }
    let mut b: usize = a;
    while b < e && !is_space(s.get_char(b))
        invariant
            e <= s@.len(),
            a <= b <= e,
            l == s@.subrange(0, e as int),
            word_end(l, a as int) == word_end(l, b as int),
        decreases e - b,
    {
        b = b + 1;
    }
    assert(l.subrange(a as int, b as int) == s@.subrange(a as int, b as int));
    Some((a, b))
}

fn word_or(s: &str, w: Option<(usize, usize)>, default: &str) -> (r: String)
    requires
        w matches Some((a, b)) ==> a <= b <= s@.len(),
    ensures
        w matches Some((a, b)) ==> r@ == s@.subrange(a as int, b as int),
        w is None ==> r@ == default@,
{
    match w {
        Some((a, b)) => String::from_str(s.substring_char(a, b)),
        None => String::from_str(default),
    }
}

fn strip_leading_slashes(p: &str) -> (r: String)
    ensures
        r@ == trim_slashes(p@),
{
    let n = p.unicode_len();
    let mut i: usize = 0;
    assert(p@.subrange(0, n as int) == p@);
    while i < n && p.get_char(i) == '/'
        invariant
            n == p@.len(),
            i <= n,
            trim_slashes(p@) == trim_slashes(p@.subrange(i as int, n as int)),
        decreases n - i,
    {
        assert(p@.subrange(i as int, n as int).drop_first() == p@.subrange(i + 1, n as int));
        i = i + 1;
    }
    String::from_str(p.substring_char(i, n))
}

/// Parses the request line at the head of `request`. Only `GET` over
/// `HTTP/1.0` or `HTTP/1.1` is accepted; the path comes back without its
/// leading slashes.
pub fn parse_request(request: &str) -> (r: Result<ParsedRequest, RequestError>)
    ensures
        match r {
            Ok(q) => request_fields(request@) == Ok::<_, RequestError>(
                (q.method@, q.url_path@, q.version@),
            ),
            Err(e) => request_fields(request@) == Err::<(Seq<char>, Seq<char>, Seq<char>), _>(e),
        },
{
    if request.unicode_len() == 0 {
        return Err(RequestError::MalformedRequest);
    }
    let e = find_line_end(request);
    let ghost l = first_line(request@);
    let w1 = next_word(request, e, 0);
    let (w2, w3) = match w1 {
        None => (None, None),
        Some((_, e1)) => {
            let w2 = next_word(request, e, e1);
            match w2 {
                None => (None, None),
                Some((_, e2)) => (w2, next_word(request, e, e2)),
            }
        },
    };
    let method = word_or(request, w1, "");
    let path = word_or(request, w2, "/");
    let version = word_or(request, w3, "");
    proof {
        reveal_strlit("");
        reveal_strlit("/");
        let (m, p, v) = request_words(l);
        assert(m == method@);
        assert(p == path@);
        assert(v == version@);
    }
    if !str_eq(version.as_str(), "HTTP/1.0") && !str_eq(version.as_str(), "HTTP/1.1") {
        return Err(RequestError::UnsupportedVersion);
    }
    if !str_eq(method.as_str(), "GET") {
        return Err(RequestError::UnsupportedMethod);
    }
    let url_path = strip_leading_slashes(path.as_str());
    Ok(ParsedRequest { method, url_path, version })
}

} // verus!
