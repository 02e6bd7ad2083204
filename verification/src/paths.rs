//! Paths held as text: the few `std::path` and `dirs` operations the library
//! leans on, and how a path is shown relative to the home directory.
use vstd::prelude::*;

use crate::text::{
    chars_of, chars_start_with, forward_slashes, forward_slashes_chars, starts_with,
    string_from_chars, sub_chars,
};

verus! {

/// What `Path::file_name` gives for a path: its final component, if any.
pub uninterp spec fn spec_file_name(p: Seq<char>) -> Option<Seq<char>>;

/// What `Path == Path` answers for two paths (equality of their components).
pub uninterp spec fn spec_paths_equal(a: Seq<char>, b: Seq<char>) -> bool;

/// What `Path::starts_with` answers: whether the components of `base` are the
/// first components of `p`.
pub uninterp spec fn spec_path_starts_with(p: Seq<char>, base: Seq<char>) -> bool;

/// What `Path::parent` gives: the path without its final component, if it has
/// one.
pub uninterp spec fn spec_path_parent(p: Seq<char>) -> Option<Seq<char>>;

/// What `Path::join` gives: `base` with `rel` appended as further components.
pub uninterp spec fn spec_path_join(base: Seq<char>, rel: Seq<char>) -> Seq<char>;

/// What `Path::strip_prefix` gives: `p` without the components of `base`,
/// when they begin it.
pub uninterp spec fn spec_path_strip_prefix(p: Seq<char>, base: Seq<char>) -> Option<Seq<char>>;

/// `Path::file_name`. Trusted: the result is the final component of `p`,
/// converted to text (lossless, since `p` is UTF-8).
#[verifier::external_body]
pub(crate) fn path_file_name(p: &str) -> (r: Option<String>)
    ensures
        match r {
            Some(s) => spec_file_name(p@) == Some(s@),
            None => spec_file_name(p@) is None,
        },
{
    std::path::Path::new(p).file_name().map(|n| n.to_string_lossy().into_owned())
}

/// `Path == Path`. Trusted: the answer is the component-wise equality of the
/// two paths; it does not depend on their order, and a path equals itself
/// (`Path` is `Eq`).
#[verifier::external_body]
pub(crate) fn paths_equal(a: &str, b: &str) -> (r: bool)
    ensures
        r == spec_paths_equal(a@, b@),
        r == spec_paths_equal(b@, a@),
        a@ == b@ ==> r,
{
    std::path::Path::new(a) == std::path::Path::new(b)
}

/// `Path::starts_with`. Trusted: the answer is whether the components of
/// `base` begin those of `p`.
#[verifier::external_body]
pub(crate) fn path_starts_with(p: &str, base: &str) -> (r: bool)
    ensures
        r == spec_path_starts_with(p@, base@),
{
    std::path::Path::new(p).starts_with(base)
}

/// `Path::parent`. Trusted: the result is `p` without its final component,
/// converted to text; `None` for a root or an empty path.
#[verifier::external_body]
pub(crate) fn path_parent(p: &str) -> (r: Option<String>)
    ensures
        match r {
            Some(s) => spec_path_parent(p@) == Some(s@),
            None => spec_path_parent(p@) is None,
        },
{
    std::path::Path::new(p).parent().map(|q| q.to_string_lossy().into_owned())
}

/// `Path::strip_prefix`. Trusted: the result is `p` without the components
/// of `base`, converted to text; it is an error (here `None`) exactly when
/// `p` does not start with `base`, as `Path::starts_with` answers.
#[verifier::external_body]
pub(crate) fn path_strip_prefix(p: &str, base: &str) -> (r: Option<String>)
    ensures
        match r {
            Some(s) => spec_path_strip_prefix(p@, base@) == Some(s@),
            None => spec_path_strip_prefix(p@, base@) is None,
        },
        r is Some <==> spec_path_starts_with(p@, base@),
{
    std::path::Path::new(p).strip_prefix(base).ok().map(|q| q.to_string_lossy().into_owned())
}

/// `Path::join`. Trusted: the result is `base` with the components of `rel`
/// appended, converted to text.
#[verifier::external_body]
pub(crate) fn path_join(base: &str, rel: &str) -> (r: String)
    ensures
        r@ == spec_path_join(base@, rel@),
{
    std::path::Path::new(base).join(rel).to_string_lossy().into_owned()
}

/// `dirs::home_dir`. Trusted for nothing: the home directory comes from the
/// environment (or the user database), so nothing is stated of the result.
#[verifier::external_body]
pub(crate) fn home_dir() -> (r: Option<String>) {
    dirs::home_dir().map(|h| h.to_string_lossy().into_owned())
}

/// How a path is shown: with forward slashes, and with the home directory
/// written as `~` when the path begins with it.
pub open spec fn display_with_home(path: Seq<char>, home: Option<Seq<char>>) -> Seq<char> {
    let s = forward_slashes(path);
    match home {
        Some(h) => {
            let hs = forward_slashes(h);
            if starts_with(s, hs) {
                seq!['~'] + s.skip(hs.len() as int)
            } else {
                s
            }
        },
        None => s,
    }
}

pub open spec fn opt_str_view(o: Option<&str>) -> Option<Seq<char>> {
    match o {
        Some(s) => Some(s@),
        None => None,
    }
}

/// The text shown for `path` given the home directory `home`.
pub fn display_path_with_home(path: &str, home: Option<&str>) -> (r: String)
    ensures
        r@ == display_with_home(path@, opt_str_view(home)),
{
    let pc = chars_of(path);
    let s = forward_slashes_chars(pc.as_slice());
    match home {
        Some(h) => {
            let hc = chars_of(h);
            let hs = forward_slashes_chars(hc.as_slice());
            if chars_start_with(s.as_slice(), hs.as_slice()) {
                let n = s.len();
                let rest = sub_chars(s.as_slice(), hs.len(), n);
                let mut out: Vec<char> = Vec::new();
                out.push('~');
                let mut i: usize = 0;
                while i < rest.len()
                    invariant
                        i <= rest@.len(),
                        out@ == seq!['~'] + rest@.take(i as int),
                    decreases rest.len() - i,
                {
                    out.push(rest[i]);
                    i = i + 1;
                    assert(rest@.take(i as int) =~= rest@.take(i - 1).push(rest@[i - 1]));
                }
                assert(rest@.take(rest@.len() as int) =~= rest@);
                assert(rest@ =~= s@.skip(hs@.len() as int));
                string_from_chars(out.as_slice())
            } else {
                string_from_chars(s.as_slice())
            }
        },
        None => string_from_chars(s.as_slice()),
    }
}

/// The text shown for `path`, with the home directory of this process as `~`.
pub fn display_path(path: &str) -> (r: String)
    ensures
        exists|home: Option<Seq<char>>| r@ == display_with_home(path@, home),
{
    let home = home_dir();
    let r = match &home {
        Some(h) => display_path_with_home(path, Some(h.as_str())),
        None => display_path_with_home(path, None),
    };
    proof {
        let hv = match home {
            Some(h) => Some(h@),
            None => None,
        };
        assert(r@ == display_with_home(path@, hv));
    }
    r
}

} // verus!
