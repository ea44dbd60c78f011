//! Path operations of `std::path`, on paths held as strings.
use vstd::prelude::*;

verus! {

/// The extension of the last component of `path`, as `Path::extension` gives it.
pub uninterp spec fn path_extension(path: Seq<char>) -> Option<Seq<char>>;

/// The last component of `path`, as `Path::file_name` gives it.
pub uninterp spec fn path_file_name(path: Seq<char>) -> Option<Seq<char>>;

/// `path` relative to `base`, as `Path::strip_prefix` gives it.
pub uninterp spec fn path_strip_prefix(path: Seq<char>, base: Seq<char>) -> Option<Seq<char>>;

/// `path` with its extension set to `ext`, as `Path::with_extension` gives it.
pub uninterp spec fn path_with_extension(path: Seq<char>, ext: Seq<char>) -> Seq<char>;

/// `base` joined with `rest`, as `Path::join` gives it.
pub uninterp spec fn path_join(base: Seq<char>, rest: Seq<char>) -> Seq<char>;

/// Relies on `std::path::Path::extension`: the extension of the file name.
#[verifier::external_body]
pub fn extension_of(path: &str) -> (r: Option<String>)
    ensures
        r matches Some(e) ==> path_extension(path@) == Some(e@),
        r.is_none() ==> path_extension(path@).is_none(),
{
    std::path::Path::new(path).extension().map(|e| e.to_string_lossy().to_string())
}

/// Relies on `std::path::Path::file_name`: the last component of the path.
#[verifier::external_body]
pub fn file_name_of(path: &str) -> (r: Option<String>)
    ensures
        r matches Some(e) ==> path_file_name(path@) == Some(e@),
        r.is_none() ==> path_file_name(path@).is_none(),
{
    std::path::Path::new(path).file_name().map(|e| e.to_string_lossy().to_string())
}

/// Relies on `std::path::Path::strip_prefix`: the path relative to `base`,
/// when `base` is a leading run of its components.
#[verifier::external_body]
pub fn strip_prefix_of(path: &str, base: &str) -> (r: Option<String>)
    ensures
        r matches Some(e) ==> path_strip_prefix(path@, base@) == Some(e@),
        r.is_none() ==> path_strip_prefix(path@, base@).is_none(),
{
    std::path::Path::new(path).strip_prefix(base).ok().map(|p| p.to_string_lossy().to_string())
}

/// Relies on `std::path::Path::with_extension`: the path with its extension
/// replaced by `ext` (removed when `ext` is empty). It panics when `ext`
/// holds a path separator, so such an extension is not admitted.
#[verifier::external_body]
pub fn with_extension_of(path: &str, ext: &str) -> (r: String)
    requires
        forall|i: int| 0 <= i < ext@.len() ==> ext@[i] != '/',
    ensures
        r@ == path_with_extension(path@, ext@),
{
    std::path::Path::new(path).with_extension(ext).to_string_lossy().to_string()
}

/// Relies on `std::path::Path::join`: `rest` appended to `base` as a path.
#[verifier::external_body]
pub fn join_of(base: &str, rest: &str) -> (r: String)
    ensures
        r@ == path_join(base@, rest@),
{
    std::path::Path::new(base).join(rest).to_string_lossy().to_string()
}

} // verus!
