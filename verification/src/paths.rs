//! File-system paths as the library sees them: opaque values with a text.

use vstd::prelude::*;
use std::path::PathBuf;

verus! {

/// `std::path::PathBuf`, as an opaque value.
#[verifier::external_type_specification]
#[verifier::external_body]
pub struct ExPathBuf(PathBuf);

/// The text of a path, with whatever is not Unicode in it replaced by the
/// replacement character. Paths are those of the platform that the
/// program is built for, and so is what is said of them here.
pub uninterp spec fn path_text(p: PathBuf) -> Seq<char>;

/// The text of a path's last component, where it has one.
pub uninterp spec fn path_file_name(p: PathBuf) -> Option<Seq<char>>;

/// The path that `PathBuf::from` makes of a text.
pub uninterp spec fn path_of(text: Seq<char>) -> PathBuf;

/// `PathBuf::from` on a string. The path keeps the string as it is, so
/// that the text of the path is the string.
#[verifier::external_body]
pub(crate) fn path_from_text(text: &str) -> (p: PathBuf)
    ensures
        p == path_of(text@),
        path_text(p) == text@,
{
    PathBuf::from(text)
}

/// The path that `Path::join` makes of a path and a further part.
pub uninterp spec fn joined_path(base: PathBuf, part: Seq<char>) -> PathBuf;

/// `Path::join` with a string.
#[verifier::external_body]
pub(crate) fn path_join(base: &PathBuf, part: &str) -> (p: PathBuf)
    ensures
        p == joined_path(*base, part@),
{
    base.join(part)
}

/// A clone of a path is the same path.
pub assume_specification[ <PathBuf as Clone>::clone ](p: &PathBuf) -> (q: PathBuf)
    ensures
        q == *p,
;

/// `Path::to_string_lossy`: the text of the path.
#[verifier::external_body]
pub(crate) fn path_to_text(p: &PathBuf) -> (s: String)
    ensures
        s@ == path_text(*p),
{
    p.to_string_lossy().into_owned()
}

/// `Path::file_name`, made a text: the path's last component, where it has
/// one.
#[verifier::external_body]
pub(crate) fn path_file_name_text(p: &PathBuf) -> (s: Option<String>)
    ensures
        match path_file_name(*p) {
            Some(t) => s is Some && s->0@ == t,
            None => s is None,
        },
{
    p.file_name().map(|name| name.to_string_lossy().into_owned())
}

/// The operating systems that the library knows device paths of.
#[derive(Clone, Copy, Debug, PartialEq, Eq, Structural)]
pub enum Platform {
    Linux,
    Windows,
    MacOs,
    Other,
}

} // verus!
