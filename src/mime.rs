//! MIME classification by file extension.
//!
//! Extensions are matched without regard to ASCII case: `PHOTO.JPG` is
//! served as `image/jpeg` like `photo.jpg`.
use vstd::prelude::*;
use crate::urlpath::{extension, extension_of};

verus! {

/// `a` is the character `b` or, where `b` is a lower-case ASCII letter, its
/// upper-case form.
pub open spec fn char_matches(a: char, b: char) -> bool {
    a == b || ('A' <= a <= 'Z' && a as u32 + 32 == b as u32)
}

/// The extension `e` spells `name` (given in lower case), ignoring ASCII case.
pub open spec fn ext_is(e: Seq<char>, name: Seq<char>) -> bool {
    e.len() == name.len() && forall|i: int| 0 <= i < e.len() ==> #[trigger] char_matches(e[i], name[i])
}

/// The MIME type served for the extension `e`.
pub open spec fn mime_for(e: Seq<char>) -> Seq<char> {
    if ext_is(e, "html"@) || ext_is(e, "htm"@) {
        "text/html"@
    } else if ext_is(e, "css"@) {
        "text/css"@
    } else if ext_is(e, "js"@) {
        "application/javascript"@
    } else if ext_is(e, "json"@) {
        "application/json"@
    } else if ext_is(e, "png"@) {
        "image/png"@
    } else if ext_is(e, "jpg"@) || ext_is(e, "jpeg"@) {
        "image/jpeg"@
    } else if ext_is(e, "gif"@) {
        "image/gif"@
    } else if ext_is(e, "svg"@) {
        "image/svg+xml"@
    } else if ext_is(e, "ico"@) {
        "image/x-icon"@
    } else if ext_is(e, "txt"@) {
        "text/plain"@
    } else if ext_is(e, "wasm"@) {
        "application/wasm"@
    } else if ext_is(e, "woff"@) {
        "font/woff"@
    } else if ext_is(e, "woff2"@) {
        "font/woff2"@
    } else if ext_is(e, "ttf"@) {
        "font/ttf"@
    } else if ext_is(e, "otf"@) {
        "font/otf"@
    } else if ext_is(e, "mp4"@) {
        "video/mp4"@
    } else if ext_is(e, "webm"@) {
        "video/webm"@
    } else if ext_is(e, "ogg"@) {
        "audio/ogg"@
    } else if ext_is(e, "mp3"@) {
        "audio/mpeg"@
    } else {
        "application/octet-stream"@
    }
}

/// The MIME type served for the file path `p`.
pub open spec fn mime_type_of(p: Seq<char>) -> Seq<char> {
    match extension_of(p) {
        Some(e) => mime_for(e),
        None => "application/octet-stream"@,
    }
}

fn is_ext(e: &str, name: &str) -> (r: bool)
    ensures
        r == ext_is(e@, name@),
{
    let n = e.unicode_len();
    if n != name.unicode_len() {
        return false;
    }
    let mut i: usize = 0;
    while i < n
        invariant
            n == e@.len(),
            n == name@.len(),
            i <= n,
            forall|k: int| 0 <= k < i ==> #[trigger] char_matches(e@[k], name@[k]),
        decreases n - i,
    {
        let a = e.get_char(i);
        let b = name.get_char(i);
        if !(a == b || ('A' <= a && a <= 'Z' && a as u32 + 32 == b as u32)) {
            assert(!char_matches(e@[i as int], name@[i as int]));
            return false;
        }
        i = i + 1;
    }
    true
}

fn mime_for_extension(e: &str) -> (r: &'static str)
    ensures
        r@ == mime_for(e@),
{
    if is_ext(e, "html") || is_ext(e, "htm") {
        "text/html"
    } else if is_ext(e, "css") {
        "text/css"
    } else if is_ext(e, "js") {
        "application/javascript"
    } else if is_ext(e, "json") {
        "application/json"
    } else if is_ext(e, "png") {
        "image/png"
    } else if is_ext(e, "jpg") || is_ext(e, "jpeg") {
        "image/jpeg"
    } else if is_ext(e, "gif") {
        "image/gif"
    } else if is_ext(e, "svg") {
        "image/svg+xml"
    } else if is_ext(e, "ico") {
        "image/x-icon"
    } else if is_ext(e, "txt") {
        "text/plain"
    } else if is_ext(e, "wasm") {
        "application/wasm"
    } else if is_ext(e, "woff") {
        "font/woff"
    } else if is_ext(e, "woff2") {
        "font/woff2"
    } else if is_ext(e, "ttf") {
        "font/ttf"
    } else if is_ext(e, "otf") {
        "font/otf"
    } else if is_ext(e, "mp4") {
        "video/mp4"
    } else if is_ext(e, "webm") {
        "video/webm"
    } else if is_ext(e, "ogg") {
        "audio/ogg"
    } else if is_ext(e, "mp3") {
        "audio/mpeg"
    } else {
        "application/octet-stream"
    }
}

/// The MIME type of the file at `path`, from its extension;
/// `application/octet-stream` when the extension is missing or unknown.
pub fn guess_mime_type(path: &str) -> (r: &'static str)
    ensures
        r@ == mime_type_of(path@),
{
    match extension(path) {
        Some(e) => mime_for_extension(e),
        None => "application/octet-stream",
    }
}

} // verus!
