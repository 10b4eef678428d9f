//! Structure of URL paths: `..` segments and file extensions.
use vstd::prelude::*;

verus! {

/// A `..` segment starts at position `i` of `p`: two dots bounded on each
/// side by a `/` or an end of the path.
pub open spec fn dotdot_at(p: Seq<char>, i: int) -> bool {
    &&& 0 <= i
    &&& i + 2 <= p.len()
    &&& p[i] == '.'
    &&& p[i + 1] == '.'
    &&& (i == 0 || p[i - 1] == '/')
    &&& (i + 2 == p.len() || p[i + 2] == '/')
}

/// Some `/`-separated segment of `p` is exactly `..`.
pub open spec fn has_dotdot_segment(p: Seq<char>) -> bool {
    exists|i: int| #[trigger] dotdot_at(p, i)
}

/// Position `i` holds the dot that starts the extension of `p`: it is the
/// last dot of the last segment, and not that segment's first character.
pub open spec fn extension_dot(p: Seq<char>, i: int) -> bool {
    &&& 0 < i < p.len()
    &&& p[i] == '.'
    &&& p[i - 1] != '/'
    &&& forall|k: int| i < k < p.len() ==> p[k] != '/' && p[k] != '.'
}

/// The last segment of `p` has a file extension.
pub open spec fn has_extension(p: Seq<char>) -> bool {
    exists|i: int| #[trigger] extension_dot(p, i)
}

/// The file extension of `p`, without its dot, if it has one.
pub open spec fn extension_of(p: Seq<char>) -> Option<Seq<char>> {
    if has_extension(p) {
        let i = choose|i: int| #[trigger] extension_dot(p, i);
        Some(p.subrange(i + 1, p.len() as int))
    } else {
        None
    }
}

proof fn lemma_extension_dot_unique(p: Seq<char>, i: int, j: int)
    requires
        extension_dot(p, i),
        extension_dot(p, j),
    ensures
        i == j,
{
}

/// Whether some `/`-separated segment of `path` is `..`.
pub fn has_parent_segment(path: &str) -> (r: bool)
    ensures
        r == has_dotdot_segment(path@),
{
    let n = path.unicode_len();
    let mut i: usize = 0;
    while i < n && n - i >= 2
        invariant
            n == path@.len(),
            i <= n,
            forall|j: int| 0 <= j < i ==> !dotdot_at(path@, j),
        decreases n - i,
    {
        if path.get_char(i) == '.' && path.get_char(i + 1) == '.' && (i == 0 || path.get_char(i
            - 1) == '/') && (i + 2 == n || path.get_char(i + 2) == '/') {
            assert(dotdot_at(path@, i as int));
            return true;
        }
        i = i + 1;
    }
    assert forall|j: int| !dotdot_at(path@, j) by {
        if 0 <= j < i {
        }
    }
    false
}

/// Finds the dot that starts the file extension of `path`.
pub fn extension_dot_index(path: &str) -> (r: Option<usize>)
    ensures
        r is Some <==> has_extension(path@),
        r matches Some(i) ==> extension_dot(path@, i as int),
{
    let n = path.unicode_len();
    let mut i: usize = n;
    while i > 1
        invariant
            n == path@.len(),
            i <= n,
            forall|k: int| i <= k < n ==> path@[k] != '/' && path@[k] != '.',
        decreases i,
    {
        let c = path.get_char(i - 1);
        if c == '/' {
            assert forall|j: int| !extension_dot(path@, j) by {
                if extension_dot(path@, j) {
                    assert(j < i - 1);
                }
            }
            return None;
        }
        if c == '.' {
            if path.get_char(i - 2) != '/' {
                assert(extension_dot(path@, i - 1));
                return Some(i - 1);
            }
            assert forall|j: int| !extension_dot(path@, j) by {
                if extension_dot(path@, j) {
                    assert(j < i - 1);
                    assert(path@[i - 1] == '.');
                }
            }
            return None;
        }
        i = i - 1;
    }
    assert forall|j: int| !extension_dot(path@, j) by {
        if extension_dot(path@, j) {
            assert(j >= i);
        }
    }
    None
}

/// The file extension of `path` (the text after the dot), if it has one.
pub fn extension(path: &str) -> (r: Option<&str>)
    ensures
        r matches Some(e) ==> extension_of(path@) == Some(e@),
        r is None ==> extension_of(path@) is None,
{
    match extension_dot_index(path) {
        Some(i) => {
            let n = path.unicode_len();
            let e = path.substring_char(i + 1, n);
            proof {
                let j = choose|j: int| #[trigger] extension_dot(path@, j);
                lemma_extension_dot_unique(path@, i as int, j);
            }
            Some(e)
        },
        None => None,
    }
}

} // verus!
