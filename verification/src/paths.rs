//! Filesystem paths as the library sees them: a `PathBuf` is carried through
//! unchanged, and contracts speak of the text that `Path::to_string_lossy`
//! renders for it.

use std::path::PathBuf;
use vstd::prelude::*;

verus! {

#[verifier::external_type_specification]
#[verifier::external_body]
pub struct ExPathBuf(PathBuf);

/// What a `PathBuf` holds, as the text `Path::to_string_lossy` renders for it.
pub uninterp spec fn path_text(p: PathBuf) -> Seq<char>;

/// The text of `Path::join(base, name)`, given the texts of `base` and `name`.
pub uninterp spec fn joined_path_text(base: Seq<char>, name: Seq<char>) -> Seq<char>;

/// `PathBuf::from(&str)`: the path holds exactly the given text.
#[verifier::external_body]
pub(crate) fn path_from_str(s: &str) -> (p: PathBuf)
    ensures
        path_text(p) == s@,
{
    PathBuf::from(s)
}

/// `Path::join`: the result's text is the joined text of the base's text and `name`.
#[verifier::external_body]
pub(crate) fn path_join(base: &PathBuf, name: &str) -> (p: PathBuf)
    ensures
        path_text(p) == joined_path_text(path_text(*base), name@),
{
    base.join(name)
}

/// `Path::to_string_lossy`, made owned: the text of the path.
#[verifier::external_body]
pub(crate) fn path_to_string(p: &PathBuf) -> (s: String)
    ensures
        s@ == path_text(*p),
{
    p.to_string_lossy().into_owned()
}

/// `PathBuf::clone`: the copy holds the same path.
#[verifier::external_body]
pub(crate) fn path_clone(p: &PathBuf) -> (r: PathBuf)
    ensures
        path_text(r) == path_text(*p),
{
    p.clone()
}

} // verus!
