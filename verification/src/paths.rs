//! Filesystem paths as the tools build them. Only path construction lives
//! here; nothing touches the filesystem.

use vstd::prelude::*;

verus! {

#[verifier::external_type_specification]
#[verifier::external_body]
pub struct ExPathBuf(std::path::PathBuf);

/// The path `std::path::PathBuf::from` builds from `text`.
pub uninterp spec fn path_from_text(text: Seq<char>) -> std::path::PathBuf;

/// The path `std::path::Path::join` builds from `base` and `rel`.
pub uninterp spec fn path_joined(base: Seq<char>, rel: Seq<char>) -> std::path::PathBuf;

/// `std::path::PathBuf::from(text)`.
#[verifier::external_body]
pub(crate) fn path_from(text: &str) -> (p: std::path::PathBuf)
    ensures
        p == path_from_text(text@),
{
    std::path::PathBuf::from(text)
}

/// `std::path::Path::new(base).join(rel)`.
#[verifier::external_body]
pub(crate) fn path_join(base: &str, rel: &str) -> (p: std::path::PathBuf)
    ensures
        p == path_joined(base@, rel@),
{
    std::path::Path::new(base).join(rel)
}

} // verus!
