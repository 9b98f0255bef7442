//! The errors that the tool reports to its operator.

use vstd::prelude::*;
use crate::text::{push_str, string_of};

verus! {

/// What went wrong, with the resource it concerns.
#[derive(Debug, Clone)]
pub enum SeshError {
    ConfigNotFound(String),
    InvalidConfig(String),
    NoReposFound(String),
    SessionExists(String),
    SessionNotFound(String),
    BranchExists { repo: String, branch: String },
    BaseBranchNotFound { repo: String, branch: String },
    GitError { repo: String, message: String },
    WorktreeError { repo: String, message: String },
    PrerequisiteNotFound(String),
    InvalidBranchName(String),
    ScriptError(String),
    NoReposSelected,
}

/// The text shown for an error.
pub open spec fn error_text(e: SeshError) -> Seq<char> {
    match e {
        SeshError::ConfigNotFound(path) => "sesh.toml not found at "@ + path@,
        SeshError::InvalidConfig(why) => "invalid config: "@ + why@,
        SeshError::NoReposFound(path) => "no git repos found in "@ + path@,
        SeshError::SessionExists(name) => "session '"@ + name@ + "' already exists"@,
        SeshError::SessionNotFound(name) => "session '"@ + name@ + "' not found"@,
        SeshError::BranchExists { repo, branch } => "branch '"@ + branch@
            + "' already exists in repo '"@ + repo@ + "'"@,
        SeshError::BaseBranchNotFound { repo, branch } => "base branch '"@ + branch@
            + "' not found in repo '"@ + repo@ + "'"@,
        SeshError::GitError { repo, message } => "git command failed in "@ + repo@ + ": "@
            + message@,
        SeshError::WorktreeError { repo, message } => "worktree creation failed for "@ + repo@
            + ": "@ + message@,
        SeshError::PrerequisiteNotFound(what) => "prerequisite not found: "@ + what@,
        SeshError::InvalidBranchName(name) => "invalid branch name: "@ + name@,
        SeshError::ScriptError(why) => "script failed: "@ + why@,
        SeshError::NoReposSelected => "no repos selected"@,
    }
}

fn two(a: &str, b: &str) -> (out: String)
    ensures
        out@ == a@ + b@,
{
    let mut v: Vec<char> = Vec::new();
    push_str(&mut v, a);
    push_str(&mut v, b);
    string_of(&v)
}

fn three(a: &str, b: &str, c: &str) -> (out: String)
    ensures
        out@ == a@ + b@ + c@,
{
    let mut v: Vec<char> = Vec::new();
    push_str(&mut v, a);
    push_str(&mut v, b);
    push_str(&mut v, c);
    string_of(&v)
}

fn four(a: &str, b: &str, c: &str, d: &str) -> (out: String)
    ensures
        out@ == a@ + b@ + c@ + d@,
{
    let mut v: Vec<char> = Vec::new();
    push_str(&mut v, a);
    push_str(&mut v, b);
    push_str(&mut v, c);
    push_str(&mut v, d);
    string_of(&v)
}

fn five(a: &str, b: &str, c: &str, d: &str, e: &str) -> (out: String)
    ensures
        out@ == a@ + b@ + c@ + d@ + e@,
{
    let mut v: Vec<char> = Vec::new();
    push_str(&mut v, a);
    push_str(&mut v, b);
    push_str(&mut v, c);
    push_str(&mut v, d);
    push_str(&mut v, e);
    string_of(&v)
}

impl SeshError {
    /// The text shown for this error.
    pub fn message(&self) -> (text: String)
        ensures
            text@ == error_text(*self),
    {
        match self {
            SeshError::ConfigNotFound(path) => two("sesh.toml not found at ", path.as_str()),
            SeshError::InvalidConfig(why) => two("invalid config: ", why.as_str()),
            SeshError::NoReposFound(path) => two("no git repos found in ", path.as_str()),
            SeshError::SessionExists(name) => three("session '", name.as_str(), "' already exists"),
            SeshError::SessionNotFound(name) => three("session '", name.as_str(), "' not found"),
            SeshError::BranchExists { repo, branch } => five(
                "branch '",
                branch.as_str(),
                "' already exists in repo '",
                repo.as_str(),
                "'",
            ),
            SeshError::BaseBranchNotFound { repo, branch } => five(
                "base branch '",
                branch.as_str(),
                "' not found in repo '",
                repo.as_str(),
                "'",
            ),
            SeshError::GitError { repo, message } => four(
                "git command failed in ",
                repo.as_str(),
                ": ",
                message.as_str(),
            ),
            SeshError::WorktreeError { repo, message } => four(
                "worktree creation failed for ",
                repo.as_str(),
                ": ",
                message.as_str(),
            ),
            SeshError::PrerequisiteNotFound(what) => two("prerequisite not found: ", what.as_str()),
            SeshError::InvalidBranchName(name) => two("invalid branch name: ", name.as_str()),
            SeshError::ScriptError(why) => two("script failed: ", why.as_str()),
            SeshError::NoReposSelected => "no repos selected".to_owned(),
        }
    }
}

} // verus!
