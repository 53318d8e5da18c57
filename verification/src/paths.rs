//! Paths are carried as text. The questions asked of a path (its final
//! component, its parent, its extension, its components, its place under a
//! root) are answered by `std::path`, each through one wrapper whose result
//! is named here.
use std::path::Path;
use vstd::prelude::*;

verus! {

/// Name for `Path::file_name`, read back as text.
pub uninterp spec fn path_file_name(p: Seq<char>) -> Option<Seq<char>>;

/// Name for `Path::parent`, read back as text.
pub uninterp spec fn path_parent(p: Seq<char>) -> Option<Seq<char>>;

/// Name for `Path::extension`, read back as text.
pub uninterp spec fn path_extension(p: Seq<char>) -> Option<Seq<char>>;

/// Name for the text of each item of `Path::components`, in order.
pub uninterp spec fn path_components(p: Seq<char>) -> Seq<Seq<char>>;

/// Name for `Path::strip_prefix(base)`, the remainder shown with `display`.
pub uninterp spec fn path_strip_prefix(p: Seq<char>, base: Seq<char>) -> Option<Seq<char>>;

/// The text of an optional string.
pub open spec fn opt_view(o: Option<String>) -> Option<Seq<char>> {
    match o {
        Some(s) => Some(s@),
        None => None,
    }
}

/// The name shown for a path: its final component, or the whole path when
/// it has none.
pub open spec fn display_name_spec(p: Seq<char>) -> Seq<char> {
    match path_file_name(p) {
        Some(n) => n,
        None => p,
    }
}

/// The final component of `path` (`Path::file_name`, lossily as text).
#[verifier::external_body]
pub(crate) fn file_name(path: &str) -> (r: Option<String>)
    ensures
        opt_view(r) == path_file_name(path@),
{
    match Path::new(path).file_name() {
        Some(name) => Some(name.to_string_lossy().into_owned()),
        None => None,
    }
}

/// The parent of `path` (`Path::parent`, as text).
#[verifier::external_body]
pub(crate) fn parent(path: &str) -> (r: Option<String>)
    ensures
        opt_view(r) == path_parent(path@),
{
    match Path::new(path).parent() {
        Some(p) => Some(p.to_string_lossy().into_owned()),
        None => None,
    }
}

/// The extension of `path` (`Path::extension`, lossily as text).
#[verifier::external_body]
pub(crate) fn extension(path: &str) -> (r: Option<String>)
    ensures
        opt_view(r) == path_extension(path@),
{
    match Path::new(path).extension() {
        Some(e) => Some(e.to_string_lossy().into_owned()),
        None => None,
    }
}

/// The components of `path` (`Path::components`, each lossily as text).
#[verifier::external_body]
pub(crate) fn components(path: &str) -> (r: Vec<String>)
    ensures
        r@.map_values(|c: String| c@) == path_components(path@),
{
    Path::new(path).components().map(|c| c.as_os_str().to_string_lossy().into_owned()).collect()
}

/// `path` relative to `base` (`Path::strip_prefix`, shown with `display`).
#[verifier::external_body]
pub(crate) fn strip_prefix(path: &str, base: &str) -> (r: Option<String>)
    ensures
        opt_view(r) == path_strip_prefix(path@, base@),
{
    match Path::new(path).strip_prefix(base) {
        Ok(rest) => Some(rest.display().to_string()),
        Err(_) => None,
    }
}

/// The name shown for a path: its final component, else the path itself.
pub fn display_name(path: &str) -> (r: String)
    ensures
        r@ == display_name_spec(path@),
{
    match file_name(path) {
        Some(name) => name,
        None => crate::text::owned(path),
    }
}

} // verus!
