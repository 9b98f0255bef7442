//! What is known of a repository found under the parent directory.

use vstd::prelude::*;
use crate::text::{chars_of, push_str, string_of};

verus! {

/// A repository under the parent directory.
#[derive(Debug, Clone)]
pub struct RepoInfo {
    pub name: String,
    pub path: String,
    pub current_branch: String,
    pub is_dirty: bool,
}

/// What a directory holds under the name `.git`.
#[derive(Debug, Clone, Copy, PartialEq, Eq, Structural)]
pub enum GitMarker {
    /// A directory: the directory is a repository of its own.
    Directory,
    /// A file: the directory is a worktree of another repository.
    File,
    /// Nothing.
    Absent,
}

/// Whether a directory counts as a repository: its name does not start
/// with a dot and its `.git` is a directory.
pub fn is_repository(name: &str, marker: GitMarker) -> (yes: bool)
    ensures
        yes == (!(name@.len() > 0 && name@[0] == '.') && marker == GitMarker::Directory),
{
    let v = chars_of(name);
    if v.len() > 0 && v[0] == '.' {
        return false;
    }
    match marker {
        GitMarker::Directory => true,
        _ => false,
    }
}

/// The line shown for a repository when the operator selects
/// repositories: `<name> (<branch>)`, with `detached` for a repository on
/// no branch and ` *` after the branch of one with uncommitted changes.
pub open spec fn choice_label(repo: RepoInfo) -> Seq<char> {
    repo.name@ + " ("@ + (if repo.current_branch@.len() == 0 {
        "detached"@
    } else {
        repo.current_branch@
    }) + (if repo.is_dirty {
        " *"@
    } else {
        Seq::<char>::empty()
    }) + ")"@
}

/// The line shown for a repository in the selection.
pub fn repo_choice_label(repo: &RepoInfo) -> (label: String)
    ensures
        label@ == choice_label(*repo),
{
    let mut out: Vec<char> = Vec::new();
    push_str(&mut out, repo.name.as_str());
    push_str(&mut out, " (");
    if repo.current_branch.as_str().is_empty() {
        push_str(&mut out, "detached");
    } else {
        push_str(&mut out, repo.current_branch.as_str());
    }
    if repo.is_dirty {
        push_str(&mut out, " *");
    } else {
        assert(out@ + Seq::<char>::empty() == out@);
    }
    push_str(&mut out, ")");
    string_of(&out)
}

} // verus!
