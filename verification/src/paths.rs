use vstd::prelude::*;

verus! {

/// Whether `std::path::Path` takes `p` for an absolute path on this platform.
pub uninterp spec fn is_absolute_path(p: Seq<char>) -> bool;

/// `base` joined with `p` by `std::path::Path::join`.
pub uninterp spec fn joined_path(base: Seq<char>, p: Seq<char>) -> Seq<char>;

/// `std::path::Path::parent` of `p`.
pub uninterp spec fn parent_path(p: Seq<char>) -> Option<Seq<char>>;

/// `Path::new(p).is_absolute()`. Claimed: the result is `is_absolute_path(p)`.
#[verifier::external_body]
pub(crate) fn path_is_absolute(p: &str) -> (r: bool)
    ensures
        r == is_absolute_path(p@),
{
    std::path::Path::new(p).is_absolute()
}

/// `Path::new(base).join(p)`, as text (lossless: both parts are UTF-8).
/// Claimed: the result is `joined_path(base, p)`.
#[verifier::external_body]
pub(crate) fn path_join(base: &str, p: &str) -> (r: String)
    ensures
        r@ == joined_path(base@, p@),
{
    std::path::Path::new(base).join(p).to_string_lossy().into_owned()
}

/// `Path::new(p).parent()`, as text. Claimed: the result is
/// `parent_path(p)`; as the documentation and the source show, a parent is
/// a shorter leading part of the path, and the empty path has none.
#[verifier::external_body]
pub(crate) fn path_parent(p: &str) -> (r: Option<String>)
    ensures
        match r {
            Some(q) => parent_path(p@) == Some(q@) && q@.len() < p@.len() && q@ == p@.take(q@.len() as int),
            None => parent_path(p@) is None,
        },
        p@.len() == 0 ==> r is None,
{
    std::path::Path::new(p).parent().map(|q| q.to_string_lossy().into_owned())
}

} // verus!
