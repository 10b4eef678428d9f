//! Static path resolution: from a URL path to the file that serves it.
//!
//! Resolution has no access to the filesystem of its own. It first names the
//! candidate files of a URL path, in order of preference; the caller checks
//! which of them exist as regular files and hands back one flag per
//! candidate; resolution then picks the first candidate flagged as existing.
use vstd::prelude::*;
use crate::urlpath::{has_dotdot_segment, has_extension, has_parent_segment, extension_dot_index};

verus! {

/// Why a URL path resolves to no file.
#[derive(Clone, Copy, Debug, PartialEq, Eq, Structural)]
pub enum ResolveError {
    /// Some segment of the path is `..`.
    PathTraversal,
    /// No candidate file exists.
    NotFound,
}

/// `rel` placed under the directory `root`.
pub open spec fn under(root: Seq<char>, rel: Seq<char>) -> Seq<char> {
    root + seq!['/'] + rel
}

/// The files that may serve the URL path `p` (leading `/` removed), most
/// preferred first.
pub open spec fn candidates(root: Seq<char>, p: Seq<char>) -> Seq<Seq<char>> {
    if p.len() == 0 {
        seq![under(root, "index.html"@)]
    } else if p.last() == '/' {
        seq![under(root, p + "index.html"@)]
    } else if !has_extension(p) {
        seq![under(root, p + ".html"@), under(root, p + "/index.html"@)]
    } else {
        seq![under(root, p)]
    }
}

/// Whether the flags say that candidate `i` exists; a missing flag counts
/// as not existing.
pub open spec fn flagged(exists: Seq<bool>, i: int) -> bool {
    0 <= i < exists.len() && exists[i]
}

/// The first candidate of `cs` that `exists` flags, if any.
pub open spec fn first_flagged(cs: Seq<Seq<char>>, exists: Seq<bool>, from: int) -> Option<Seq<char>>
    decreases cs.len() - from,
{
    if from < 0 || from >= cs.len() {
        None
    } else if flagged(exists, from) {
        Some(cs[from])
    } else {
        first_flagged(cs, exists, from + 1)
    }
}

/// What the URL path `p` resolves to under `root`, given which of its
/// candidates exist.
pub open spec fn resolution(root: Seq<char>, p: Seq<char>, exists: Seq<bool>) -> Result<Seq<char>, ResolveError> {
    if has_dotdot_segment(p) {
        Err(ResolveError::PathTraversal)
    } else {
        match first_flagged(candidates(root, p), exists, 0) {
            Some(f) => Ok(f),
            None => Err(ResolveError::NotFound),
        }
    }
}

fn under_root(root: &str, rel_a: &str, rel_b: &str) -> (r: String)
    ensures
        r@ == under(root@, rel_a@ + rel_b@),
{
    let mut s = String::from_str(root);
    s.append("/");
    s.append(rel_a);
    s.append(rel_b);
    proof {
        reveal_strlit("/");
        assert(s@ == under(root@, rel_a@ + rel_b@));
    }
    s
}

/// The candidate files of the URL path `path` under `root`, most preferred
/// first; fails when some segment of the path is `..`.
pub fn static_candidates(root: &str, path: &str) -> (r: Result<Vec<String>, ResolveError>)
    ensures
        r is Err <==> has_dotdot_segment(path@),
        r matches Err(e) ==> e == ResolveError::PathTraversal,
        r matches Ok(v) ==> v@.len() == candidates(root@, path@).len() && forall|i: int|
            0 <= i < v@.len() ==> #[trigger] v@[i]@ == candidates(root@, path@)[i],
{
    if has_parent_segment(path) {
        return Err(ResolveError::PathTraversal);
    }
    let n = path.unicode_len();
    let mut v: Vec<String> = Vec::new();
    if n == 0 {
        v.push(under_root(root, path, "index.html"));
        proof {
            assert(path@ + "index.html"@ == "index.html"@);
        }
    } else if path.get_char(n - 1) == '/' {
        v.push(under_root(root, path, "index.html"));
    } else if extension_dot_index(path).is_none() {
        v.push(under_root(root, path, ".html"));
        v.push(under_root(root, path, "/index.html"));
    } else {
        v.push(under_root(root, path, ""));
        proof {
            reveal_strlit("");
            assert(path@ + ""@ == path@);
        }
    }
    Ok(v)
}

/// Resolves the URL path `path` (leading `/` removed) to a file under
/// `root`. `exists[i]` tells whether the `i`-th of `static_candidates(root,
/// path)` exists as a regular file; the first one that does is chosen.
pub fn resolve_static_path(root: &str, path: &str, exists: &Vec<bool>) -> (r: Result<String, ResolveError>)
    ensures
        r matches Ok(f) ==> resolution(root@, path@, exists@) == Ok::<Seq<char>, ResolveError>(f@),
        r matches Err(e) ==> resolution(root@, path@, exists@) == Err::<Seq<char>, ResolveError>(e),
{
    let cands = match static_candidates(root, path) {
        Ok(v) => v,
        Err(e) => return Err(e),
    };
    let ghost cs = candidates(root@, path@);
    let mut i: usize = 0;
    while i < cands.len()
        invariant
            cands@.len() == cs.len(),
            forall|k: int| 0 <= k < cands@.len() ==> #[trigger] cands@[k]@ == cs[k],
            i <= cands.len(),
            first_flagged(cs, exists@, 0) == first_flagged(cs, exists@, i as int),
            !has_dotdot_segment(path@),
            cs == candidates(root@, path@),
        decreases cands.len() - i,
    {
        if i < exists.len() && exists[i] {
            return Ok(cands[i].clone());
        }
        i = i + 1;
    }
    Err(ResolveError::NotFound)
}

/// A path with a `..` segment is refused as a traversal, whatever else it
/// holds and whichever files exist.
pub proof fn lemma_traversal_rejected(root: Seq<char>, p: Seq<char>, exists: Seq<bool>)
    requires
        has_dotdot_segment(p),
    ensures
        resolution(root, p, exists) == Err::<Seq<char>, ResolveError>(ResolveError::PathTraversal),
{
}

/// The empty path resolves to `index.html` under the root when that file
/// exists, and to nothing otherwise.
pub proof fn lemma_empty_path(root: Seq<char>, exists: Seq<bool>)
    ensures
        candidates(root, seq![]) == seq![under(root, "index.html"@)],
        flagged(exists, 0) ==> resolution(root, seq![], exists) == Ok::<Seq<char>, ResolveError>(
            under(root, "index.html"@),
        ),
        !flagged(exists, 0) ==> resolution(root, seq![], exists) == Err::<Seq<char>, ResolveError>(
            ResolveError::NotFound,
        ),
{
    assert(!has_dotdot_segment(seq![]));
    assert(first_flagged(candidates(root, seq![]), exists, 1) is None);
}

/// A path that ends in `/` (and has no `..` segment) resolves to the
/// `index.html` inside it, when that file exists.
pub proof fn lemma_trailing_slash(root: Seq<char>, p: Seq<char>, exists: Seq<bool>)
    requires
        p.len() > 0,
        p.last() == '/',
        !has_dotdot_segment(p),
    ensures
        candidates(root, p) == seq![under(root, p + "index.html"@)],
        flagged(exists, 0) ==> resolution(root, p, exists) == Ok::<Seq<char>, ResolveError>(
            under(root, p + "index.html"@),
        ),
        !flagged(exists, 0) ==> resolution(root, p, exists) == Err::<Seq<char>, ResolveError>(
            ResolveError::NotFound,
        ),
{
    assert(first_flagged(candidates(root, p), exists, 1) is None);
}

/// A path without an extension (and without a trailing `/` or a `..`
/// segment) prefers `<path>.html`, falls back to `<path>/index.html`, and
/// resolves to nothing when neither exists.
pub proof fn lemma_extensionless_fallback(root: Seq<char>, p: Seq<char>, exists: Seq<bool>)
    requires
        p.len() > 0,
        p.last() != '/',
        !has_extension(p),
        !has_dotdot_segment(p),
    ensures
        candidates(root, p) == seq![under(root, p + ".html"@), under(root, p + "/index.html"@)],
        flagged(exists, 0) ==> resolution(root, p, exists) == Ok::<Seq<char>, ResolveError>(
            under(root, p + ".html"@),
        ),
        !flagged(exists, 0) && flagged(exists, 1) ==> resolution(root, p, exists) == Ok::<
            Seq<char>,
            ResolveError,
        >(under(root, p + "/index.html"@)),
        !flagged(exists, 0) && !flagged(exists, 1) ==> resolution(root, p, exists) == Err::<
            Seq<char>,
            ResolveError,
        >(ResolveError::NotFound),
{
    let cs = candidates(root, p);
    assert(first_flagged(cs, exists, 2) is None);
    assert(!flagged(exists, 1) ==> first_flagged(cs, exists, 1) is None);
    assert(flagged(exists, 1) ==> first_flagged(cs, exists, 1) == Some(cs[1]));
}

} // verus!
