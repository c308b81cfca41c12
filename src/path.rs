//! Path resolution shared by the session and the snapshots.

use vstd::prelude::*;

verus! {

/// The parent of a path as `std::path::Path::parent` computes it.
pub uninterp spec fn parent_of(s: Seq<char>) -> Option<Seq<char>>;

/// The final component of a path as `std::path::Path::file_name` computes it.
pub uninterp spec fn file_name_of(s: Seq<char>) -> Option<Seq<char>>;

/// The view of an optional string.
pub open spec fn opt_view(o: Option<String>) -> Option<Seq<char>> {
    match o {
        Some(s) => Some(s@),
        None => None,
    }
}

/// A path that starts at the root.
pub open spec fn is_absolute(p: Seq<char>) -> bool {
    p.len() > 0 && p[0] == '/'
}

/// `p` joined onto `base`: an absolute `p` replaces `base`; otherwise a
/// separator is put between them unless `base` is empty or already ends in
/// one.
pub open spec fn joined(base: Seq<char>, p: Seq<char>) -> Seq<char> {
    if is_absolute(p) {
        p
    } else if base.len() == 0 || base.last() == '/' {
        base + p
    } else {
        base + seq!['/'] + p
    }
}

/// The name a directory tree is labelled with: the final component of its
/// root path, or nothing where the root path has none.
pub open spec fn label_of(root: Seq<char>) -> Seq<char> {
    match file_name_of(root) {
        Some(n) => n,
        None => Seq::empty(),
    }
}

/// Joins `p` onto `base` by the rules of `PathBuf::push` on Unix.
pub fn join_path(base: &str, p: &str) -> (r: String)
    ensures
        r@ == joined(base@, p@),
{
    if p.unicode_len() > 0 && p.get_char(0) == '/' {
        return String::from_str(p);
    }
    let mut r = String::from_str(base);
    let n = base.unicode_len();
    if n > 0 && base.get_char(n - 1) != '/' {
        proof {
            reveal_strlit("/");
        }
        r.append("/");
    }
    r.append(p);
    r
}

/// Relies on `std::path::Path::parent`: the path without its final
/// component, where it has one; the result depends on the path alone.
#[verifier::external_body]
fn parent_dir(s: &str) -> (r: Option<String>)
    ensures
        opt_view(r) == parent_of(s@),
{
    match std::path::Path::new(s).parent() {
        Some(p) => Some(p.to_string_lossy().into_owned()),
        None => None,
    }
}

/// Relies on `std::path::Path::file_name`: the final component of the path,
/// where it has one; the result depends on the path alone.
#[verifier::external_body]
fn file_name(s: &str) -> (r: Option<String>)
    ensures
        opt_view(r) == file_name_of(s@),
{
    match std::path::Path::new(s).file_name() {
        Some(n) => Some(n.to_string_lossy().into_owned()),
        None => None,
    }
}

/// The parent of `dir`, or `dir` itself where it has none.
pub fn parent_or_self(dir: &str) -> (r: String)
    ensures
        r@ == match parent_of(dir@) {
            Some(p) => p,
            None => dir@,
        },
{
    match parent_dir(dir) {
        Some(p) => p,
        None => String::from_str(dir),
    }
}

/// The label of the tree rooted at `root`.
pub fn root_label(root: &str) -> (r: String)
    ensures
        r@ == label_of(root@),
{
    match file_name(root) {
        Some(n) => n,
        None => String::new(),
    }
}

} // verus!
