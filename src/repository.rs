//! Facts about a repository taken from its path.

use vstd::prelude::*;

verus! {

/// The last component of `path` as `std::path::Path` reads it: none when
/// the path is empty, a root, or ends in `..`.
pub uninterp spec fn final_component(path: Seq<char>) -> Option<Seq<char>>;

/// Relies on std::path::Path::file_name: the final component of the path,
/// if it has one. A component of a `str` path is always valid UTF-8.
#[verifier::external_body]
fn path_file_name(path: &str) -> (r: Option<String>)
    ensures
        r is None <==> final_component(path@) is None,
        r is Some ==> final_component(path@) == Some(r->Some_0@),
{
    match std::path::Path::new(path).file_name() {
        Some(name) => name.to_str().map(String::from),
        None => None,
    }
}

/// Why no repository name could be taken from a path.
#[derive(Debug, Clone, Copy, PartialEq, Eq, Structural)]
pub enum RepositoryNameError {
    /// The path has no final component.
    NoFileName,
}

/// The name of the repository at `path`: the name of its folder.
pub fn get_repository_name(path: &str) -> (r: Result<String, RepositoryNameError>)
    ensures
        final_component(path@) is None ==> r == Err::<String, RepositoryNameError>(
            RepositoryNameError::NoFileName,
        ),
        final_component(path@) is Some ==> r is Ok && r->Ok_0@ == final_component(path@)->Some_0,
{
    match path_file_name(path) {
        Some(name) => Ok(name),
        None => Err(RepositoryNameError::NoFileName),
    }
}

} // verus!
