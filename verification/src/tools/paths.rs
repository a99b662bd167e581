//! Filesystem paths as the tools carry them (`std::path`).
use std::path::{Path, PathBuf};
use vstd::prelude::*;

verus! {

/// An owned filesystem path (`std::path::PathBuf`), carried as an opaque
/// value.
#[verifier::external_type_specification]
#[verifier::external_body]
pub struct ExPathBuf(PathBuf);

/// A borrowed filesystem path (`std::path::Path`), carried as an opaque
/// value.
#[verifier::external_type_specification]
#[verifier::external_body]
pub struct ExPath(Path);

/// The borrowed form of an owned path (`PathBuf::as_path`); nothing is
/// claimed of it, a path having no view here.
pub assume_specification[ PathBuf::as_path ](p: &PathBuf) -> &Path;

/// `base` with `part` appended (`Path::join`). Nothing is claimed of the
/// result: a path has no view here.
#[verifier::external_body]
pub(crate) fn path_join(base: &Path, part: &str) -> PathBuf {
    base.join(part)
}

/// A text that no platform reads as an absolute path: it does not start
/// with a slash or a backslash and holds no `:` (so it has no drive or
/// scheme prefix).
pub open spec fn plainly_relative(text: Seq<char>) -> bool {
    &&& (text.len() == 0 || (text[0] != '/' && text[0] != '\\'))
    &&& !text.contains(':')
}

/// Whether `path` is absolute (`Path::is_absolute`). std documents that on
/// Unix a path is absolute when it starts with the root `/`, and on Windows
/// when it has a prefix (a drive such as `C:`, or a share named after two
/// backslashes) and a root; so a plainly relative text is never absolute. What else counts as
/// absolute is the platform's, and not claimed.
#[verifier::external_body]
pub(crate) fn path_is_absolute(path: &str) -> (r: bool)
    ensures
        plainly_relative(path@) ==> !r,
{
    Path::new(path).is_absolute()
}

/// Whether `path` lies under `base`, comparing whole components
/// (`Path::starts_with`). How a platform splits a path into components is
/// its own, so nothing is claimed of the answer.
#[verifier::external_body]
pub(crate) fn path_starts_with(path: &Path, base: &Path) -> bool {
    path.starts_with(base)
}

/// An owned copy of a path (`Path::to_path_buf`). Nothing is claimed of the
/// result: a path has no view here.
#[verifier::external_body]
pub(crate) fn path_owned(path: &Path) -> PathBuf {
    path.to_path_buf()
}

/// The path named by a text (`PathBuf::from`). Nothing is claimed of the
/// result: a path has no view here.
#[verifier::external_body]
pub(crate) fn path_from(text: &str) -> PathBuf {
    PathBuf::from(text)
}

} // verus!
