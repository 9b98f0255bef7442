//! Git worktrees: which git commands to run, and how to read what they
//! print.
//!
//! The library does not start processes. Each operation here returns the
//! invocation to make; the functions whose name ends in `_result` or starts
//! with `parse_` read the outcome.

use vstd::prelude::*;
use crate::error::SeshError;
use crate::paths::{base_name, last_component};
use crate::text::{
    chars_of, joined, push_all, push_str, rows, same_chars, signed_decimal,
    signed_decimal_digits, slice_of, split, split_on, starts_with, string_of, texts, trimmed,
};

verus! {

/// One invocation of git: `git -C <repo_path> <args>`, or `git <args>`
/// where no repository is concerned.
#[derive(Debug, Clone)]
pub struct GitCall {
    pub repo_path: Option<String>,
    pub args: Vec<String>,
}

/// Whether `call` runs git in `repo_path` with the arguments `args`.
pub open spec fn runs_in(call: GitCall, repo_path: Seq<char>, args: Seq<Seq<char>>) -> bool {
    call.repo_path is Some && call.repo_path->0@ == repo_path && texts(call.args@) == args
}

fn call_in(repo_path: &str, args: Vec<String>) -> (call: GitCall)
    ensures
        runs_in(call, repo_path@, texts(args@)),
        call.args == args,
{
    GitCall { repo_path: Some(repo_path.to_owned()), args }
}

/// Creates a worktree at `worktree_path` on the new branch `branch_name`,
/// cut from `base_ref`:
/// `git worktree add <worktree_path> -b <branch_name> <base_ref>`.
pub fn create_worktree(repo_path: &str, worktree_path: &str, branch_name: &str, base_ref: &str) -> (call:
    GitCall)
    ensures
        runs_in(
            call,
            repo_path@,
            seq![
                "worktree"@,
                "add"@,
                worktree_path@,
                "-b"@,
                branch_name@,
                base_ref@,
            ],
        ),
{
    let mut args: Vec<String> = Vec::new();
    args.push("worktree".to_owned());
    args.push("add".to_owned());
    args.push(worktree_path.to_owned());
    args.push("-b".to_owned());
    args.push(branch_name.to_owned());
    args.push(base_ref.to_owned());
    assert(texts(args@) =~= seq![
        "worktree"@,
        "add"@,
        worktree_path@,
        "-b"@,
        branch_name@,
        base_ref@,
    ]);
    call_in(repo_path, args)
}

/// Creates a worktree at `worktree_path` on the branch `branch_name` that
/// exists already, locally or on the remote:
/// `git worktree add <worktree_path> <branch_name>`.
pub fn checkout_existing_branch(repo_path: &str, worktree_path: &str, branch_name: &str) -> (call:
    GitCall)
    ensures
        runs_in(call, repo_path@, seq!["worktree"@, "add"@, worktree_path@, branch_name@]),
{
    let mut args: Vec<String> = Vec::new();
    args.push("worktree".to_owned());
    args.push("add".to_owned());
    args.push(worktree_path.to_owned());
    args.push(branch_name.to_owned());
    assert(texts(args@) =~= seq!["worktree"@, "add"@, worktree_path@, branch_name@]);
    call_in(repo_path, args)
}

/// Removes the worktree at `worktree_path`, whatever state it is in:
/// `git worktree remove <worktree_path> --force`.
pub fn remove_worktree(repo_path: &str, worktree_path: &str) -> (call: GitCall)
    ensures
        runs_in(call, repo_path@, seq!["worktree"@, "remove"@, worktree_path@, "--force"@]),
{
    let mut args: Vec<String> = Vec::new();
    args.push("worktree".to_owned());
    args.push("remove".to_owned());
    args.push(worktree_path.to_owned());
    args.push("--force".to_owned());
    assert(texts(args@) =~= seq!["worktree"@, "remove"@, worktree_path@, "--force"@]);
    call_in(repo_path, args)
}

/// Lets git forget worktrees whose directory is gone: `git worktree prune`.
pub fn prune_worktrees(repo_path: &str) -> (call: GitCall)
    ensures
        runs_in(call, repo_path@, seq!["worktree"@, "prune"@]),
{
    let mut args: Vec<String> = Vec::new();
    args.push("worktree".to_owned());
    args.push("prune".to_owned());
    assert(texts(args@) =~= seq!["worktree"@, "prune"@]);
    call_in(repo_path, args)
}

/// Fetches `branch` from `remote`: `git fetch <remote> <branch>`.
pub fn fetch_branch(repo_path: &str, remote: &str, branch: &str) -> (call: GitCall)
    ensures
        runs_in(call, repo_path@, seq!["fetch"@, remote@, branch@]),
{
    let mut args: Vec<String> = Vec::new();
    args.push("fetch".to_owned());
    args.push(remote.to_owned());
    args.push(branch.to_owned());
    assert(texts(args@) =~= seq!["fetch"@, remote@, branch@]);
    call_in(repo_path, args)
}

/// Deletes the local branch `branch_name`, merged or not:
/// `git branch -D <branch_name>`.
pub fn delete_branch(repo_path: &str, branch_name: &str) -> (call: GitCall)
    ensures
        runs_in(call, repo_path@, seq!["branch"@, "-D"@, branch_name@]),
{
    let mut args: Vec<String> = Vec::new();
    args.push("branch".to_owned());
    args.push("-D".to_owned());
    args.push(branch_name.to_owned());
    assert(texts(args@) =~= seq!["branch"@, "-D"@, branch_name@]);
    call_in(repo_path, args)
}

/// Lists the worktrees of a repository in the machine-readable form that
/// `parse_worktree_list` reads: `git worktree list --porcelain`.
pub fn get_worktree_list(repo_path: &str) -> (call: GitCall)
    ensures
        runs_in(call, repo_path@, seq!["worktree"@, "list"@, "--porcelain"@]),
{
    let mut args: Vec<String> = Vec::new();
    args.push("worktree".to_owned());
    args.push("list".to_owned());
    args.push("--porcelain".to_owned());
    assert(texts(args@) =~= seq!["worktree"@, "list"@, "--porcelain"@]);
    call_in(repo_path, args)
}

/// Asks whether the local branch `branch_name` exists; it does when the
/// command succeeds: `git rev-parse --verify refs/heads/<branch_name>`.
pub fn branch_exists(repo_path: &str, branch_name: &str) -> (call: GitCall)
    ensures
        runs_in(
            call,
            repo_path@,
            seq!["rev-parse"@, "--verify"@, "refs/heads/"@ + branch_name@],
        ),
{
    let mut reference: Vec<char> = Vec::new();
    push_str(&mut reference, "refs/heads/");
    push_str(&mut reference, branch_name);
    let mut args: Vec<String> = Vec::new();
    args.push("rev-parse".to_owned());
    args.push("--verify".to_owned());
    args.push(string_of(&reference));
    assert(texts(args@) =~= seq!["rev-parse"@, "--verify"@, "refs/heads/"@ + branch_name@]);
    call_in(repo_path, args)
}

/// Asks whether `origin` has the branch `branch_name`, as far as the last
/// fetch knows; it does when the command succeeds:
/// `git rev-parse --verify refs/remotes/origin/<branch_name>`.
pub fn remote_branch_exists(repo_path: &str, branch_name: &str) -> (call: GitCall)
    ensures
        runs_in(
            call,
            repo_path@,
            seq!["rev-parse"@, "--verify"@, "refs/remotes/origin/"@ + branch_name@],
        ),
{
    let mut reference: Vec<char> = Vec::new();
    push_str(&mut reference, "refs/remotes/origin/");
    push_str(&mut reference, branch_name);
    let mut args: Vec<String> = Vec::new();
    args.push("rev-parse".to_owned());
    args.push("--verify".to_owned());
    args.push(string_of(&reference));
    assert(texts(args@) =~= seq![
        "rev-parse"@,
        "--verify"@,
        "refs/remotes/origin/"@ + branch_name@,
    ]);
    call_in(repo_path, args)
}

/// Asks git whether `name` can be a branch name; it can when the command
/// succeeds: `git check-ref-format --branch <name>`, run outside any
/// repository.
pub fn validate_branch_name(name: &str) -> (call: GitCall)
    ensures
        call.repo_path is None,
        texts(call.args@) == seq!["check-ref-format"@, "--branch"@, name@],
{
    let mut args: Vec<String> = Vec::new();
    args.push("check-ref-format".to_owned());
    args.push("--branch".to_owned());
    args.push(name.to_owned());
    assert(texts(args@) =~= seq!["check-ref-format"@, "--branch"@, name@]);
    GitCall { repo_path: None, args }
}

/// Reads the answer to `validate_branch_name`: a name that git refuses is
/// reported as invalid, with the name.
pub fn validate_branch_name_result(name: &str, accepted: bool) -> (checked: Result<(), SeshError>)
    ensures
        checked is Ok <==> accepted,
        !accepted ==> checked->Err_0 is InvalidBranchName && checked->Err_0->InvalidBranchName_0@
            == name@,
{
    if accepted {
        Ok(())
    } else {
        Err(SeshError::InvalidBranchName(name.to_owned()))
    }
}

/// The message for a git command that failed: the arguments, the exit
/// code (-1 when the process was ended by a signal) and what git wrote to
/// its error stream, without white space at the ends.
pub open spec fn git_failure(args: Seq<Seq<char>>, code: Option<int>, stderr: Seq<char>) -> Seq<char> {
    git_failure_text(args, code, trimmed(stderr))
}

/// The message for a git command that failed, from the command, its exit
/// code and git's complaint as it is to be shown.
pub open spec fn git_failure_text(args: Seq<Seq<char>>, code: Option<int>, complaint: Seq<char>) -> Seq<
    char,
> {
    "git "@ + joined(args, " "@) + " failed (exit code "@ + signed_decimal(
        match code {
            Some(c) => c,
            None => -1,
        },
    ) + "): "@ + complaint
}

/// Writes the message for a git command that failed: the arguments, the
/// exit code (-1 when a signal ended the process) and the complaint.
pub fn git_failure_message(call: &GitCall, code: Option<i32>, complaint: &str) -> (message: String)
    ensures
        message@ == git_failure_text(
            texts(call.args@),
            match code {
                Some(c) => Some(c as int),
                None => None,
            },
            complaint@,
        ),
{
    let line = crate::text::join(&call.args, " ");
    let number: i64 = match code {
        Some(c) => c as i64,
        None => -1,
    };
    let digits = signed_decimal_digits(number);
    let mut message: Vec<char> = Vec::new();
    push_str(&mut message, "git ");
    push_str(&mut message, line.as_str());
    push_str(&mut message, " failed (exit code ");
    push_all(&mut message, &digits);
    push_str(&mut message, "): ");
    push_str(&mut message, complaint);
    string_of(&message)
}

/// Reads the outcome of a git command: what it printed when it succeeded,
/// and a message naming the command, the exit code and git's complaint
/// when it did not.
pub fn git_result(call: &GitCall, success: bool, code: Option<i32>, stdout: String, stderr: &str) -> (out:
    Result<String, String>)
    ensures
        out is Ok <==> success,
        success ==> out->Ok_0 == stdout,
        !success ==> out->Err_0@ == git_failure(
            texts(call.args@),
            match code {
                Some(c) => Some(c as int),
                None => None,
            },
            stderr@,
        ),
{
    if success {
        Ok(stdout)
    } else {
        let complaint = crate::text::trim_text(stderr);
        Err(git_failure_message(call, code, complaint.as_str()))
    }
}

/// The name by which a repository is called in messages: the last
/// component of its path, or the whole path where that is empty or `..`.
pub open spec fn repo_label(repo_path: Seq<char>) -> Seq<char> {
    let name = last_component(repo_path);
    if name.len() == 0 || name == ".."@ {
        repo_path
    } else {
        name
    }
}

/// The error for a worktree that could not be created: it names the
/// repository and carries git's message.
pub fn create_worktree_failure(repo_path: &str, cause: &str) -> (error: SeshError)
    ensures
        error is WorktreeError,
        error->WorktreeError_repo@ == repo_label(repo_path@),
        error->WorktreeError_message@ == cause@,
{
    let name = base_name(repo_path);
    let repo = if name.as_str().is_empty() || crate::text::same_text(name.as_str(), "..") {
        repo_path.to_owned()
    } else {
        name
    };
    SeshError::WorktreeError { repo, message: cause.to_owned() }
}

/// `line` without one carriage return at its end.
pub open spec fn without_cr(line: Seq<char>) -> Seq<char> {
    if line.len() > 0 && line.last() == '\r' {
        line.drop_last()
    } else {
        line
    }
}

/// The lines among the first `upto` pieces of a text split at line feeds:
/// each piece that a line feed ended, without a carriage return before
/// that line feed, and the last piece if it is not empty.
pub open spec fn lines_upto(pieces: Seq<Seq<char>>, upto: int) -> Seq<Seq<char>>
    decreases upto,
{
    if upto <= 0 {
        Seq::empty()
    } else {
        let rest = lines_upto(pieces, upto - 1);
        let piece = pieces[upto - 1];
        if upto == pieces.len() {
            if piece.len() == 0 {
                rest
            } else {
                rest.push(piece)
            }
        } else {
            rest.push(without_cr(piece))
        }
    }
}

/// The lines of a text: what stands between line endings, a line ending
/// being a line feed or a carriage return and a line feed. The last line
/// needs no ending.
pub open spec fn lines_of(s: Seq<char>) -> Seq<Seq<char>> {
    lines_upto(split_on(s, '\n'), split_on(s, '\n').len() as int)
}

/// Splits a text into its lines.
pub fn lines(s: &str) -> (out: Vec<Vec<char>>)
    ensures
        rows(out@) == lines_of(s@),
{
    let v = chars_of(s);
    let pieces = split(&v, '\n');
    let mut out: Vec<Vec<char>> = Vec::new();
    let mut i: usize = 0;
    assert(rows(out@) =~= Seq::<Seq<char>>::empty());
    while i < pieces.len()
        invariant
            i <= pieces.len(),
            rows(out@) == lines_upto(rows(pieces@), i as int),
        decreases pieces.len() - i,
    {
        let piece = &pieces[i];
        let ghost before = rows(out@);
        assert(rows(pieces@)[i as int] == piece@);
        if i + 1 == pieces.len() {
            if piece.len() > 0 {
                out.push(slice_of(piece, 0, piece.len()));
                assert(piece@.subrange(0, piece.len() as int) == piece@);
                assert(rows(out@) =~= before.push(piece@));
            }
        } else {
            if piece.len() > 0 && piece[piece.len() - 1] == '\r' {
                out.push(slice_of(piece, 0, piece.len() - 1));
                assert(piece@.subrange(0, piece.len() - 1) == piece@.drop_last());
            } else {
                out.push(slice_of(piece, 0, piece.len()));
                assert(piece@.subrange(0, piece.len() as int) == piece@);
            }
            assert(rows(out@) =~= before.push(without_cr(piece@)));
        }
        i = i + 1;
    }
    out
}

/// The rest of every line among the first `upto` that starts with
/// `prefix`.
pub open spec fn tagged_upto(lines: Seq<Seq<char>>, prefix: Seq<char>, upto: int) -> Seq<Seq<char>>
    decreases upto,
{
    if upto <= 0 {
        Seq::empty()
    } else {
        let rest = tagged_upto(lines, prefix, upto - 1);
        let line = lines[upto - 1];
        if prefix.is_prefix_of(line) {
            rest.push(line.skip(prefix.len() as int))
        } else {
            rest
        }
    }
}

/// The worktree paths in the output of `git worktree list --porcelain`:
/// what follows `worktree ` on each line that starts with it.
pub open spec fn worktree_paths(output: Seq<char>) -> Seq<Seq<char>> {
    tagged_upto(lines_of(output), "worktree "@, lines_of(output).len() as int)
}

/// Reads the worktree paths out of the output of
/// `git worktree list --porcelain`.
pub fn parse_worktree_list(output: &str) -> (paths: Vec<String>)
    ensures
        texts(paths@) == worktree_paths(output@),
{
    let all = lines(output);
    let prefix = chars_of("worktree ");
    let mut paths: Vec<String> = Vec::new();
    let mut i: usize = 0;
    assert(texts(paths@) =~= Seq::<Seq<char>>::empty());
    while i < all.len()
        invariant
            i <= all.len(),
            prefix@ == "worktree "@,
            texts(paths@) == tagged_upto(rows(all@), prefix@, i as int),
        decreases all.len() - i,
    {
        let line = &all[i];
        let ghost before = texts(paths@);
        assert(rows(all@)[i as int] == line@);
        if starts_with(line, &prefix) {
            let rest = slice_of(line, prefix.len(), line.len());
            assert(rest@ == line@.skip(prefix.len() as int));
            paths.push(string_of(&rest));
            assert(texts(paths@) =~= before.push(rest@));
        }
        i = i + 1;
    }
    paths
}

/// Whether the output of `git worktree list --porcelain` shows a worktree
/// on the branch `branch`: a line `branch refs/heads/<branch>`.
pub open spec fn shows_branch(output: Seq<char>, branch: Seq<char>) -> bool {
    exists|i: int|
        0 <= i < lines_of(output).len() && #[trigger] lines_of(output)[i] == "branch refs/heads/"@
            + branch
}

/// Whether some worktree of the repository has `branch_name` checked out,
/// going by the output of `git worktree list --porcelain`.
pub fn is_branch_on_worktree(output: &str, branch_name: &str) -> (yes: bool)
    ensures
        yes == shows_branch(output@, branch_name@),
{
    let all = lines(output);
    let mut wanted: Vec<char> = Vec::new();
    push_str(&mut wanted, "branch refs/heads/");
    push_str(&mut wanted, branch_name);
    let mut i: usize = 0;
    while i < all.len()
        invariant
            i <= all.len(),
            wanted@ == "branch refs/heads/"@ + branch_name@,
            rows(all@) == lines_of(output@),
            forall|j: int| 0 <= j < i ==> #[trigger] lines_of(output@)[j] != wanted@,
        decreases all.len() - i,
    {
        assert(rows(all@)[i as int] == all@[i as int]@);
        if same_chars(&all[i], &wanted) {
            return true;
        }
        i = i + 1;
    }
    false
}

/// Lists the branches of a repository, local and remote, one short name
/// per line, for `parse_branch_list` to read:
/// `git branch -a --format=%(refname:short)`.
pub fn list_all_branches(repo_path: &str) -> (call: GitCall)
    ensures
        runs_in(call, repo_path@, seq!["branch"@, "-a"@, "--format=%(refname:short)"@]),
{
    let mut args: Vec<String> = Vec::new();
    args.push("branch".to_owned());
    args.push("-a".to_owned());
    args.push("--format=%(refname:short)".to_owned());
    assert(texts(args@) =~= seq!["branch"@, "-a"@, "--format=%(refname:short)"@]);
    call_in(repo_path, args)
}

/// The branch that a line of the branch list names: nothing for an empty
/// line, for the remote itself and for the remote's `HEAD`; otherwise the
/// line, without `origin/` in front where it has that.
pub open spec fn branch_named(line: Seq<char>) -> Option<Seq<char>> {
    if line.len() == 0 || line == "origin"@ || "/HEAD"@.is_suffix_of(line) {
        None
    } else if "origin/"@.is_prefix_of(line) {
        Some(line.skip("origin/"@.len() as int))
    } else {
        Some(line)
    }
}

/// The branches named by the first `upto` lines.
pub open spec fn branches_upto(lines: Seq<Seq<char>>, upto: int) -> Seq<Seq<char>>
    decreases upto,
{
    if upto <= 0 {
        Seq::empty()
    } else {
        let rest = branches_upto(lines, upto - 1);
        match branch_named(lines[upto - 1]) {
            Some(name) => rest.push(name),
            None => rest,
        }
    }
}

/// Reads the branch names out of the output of
/// `git branch -a --format=%(refname:short)`. A branch that exists both
/// locally and on the remote is named twice.
pub fn parse_branch_list(output: &str) -> (branches: Vec<String>)
    ensures
        texts(branches@) == branches_upto(lines_of(output@), lines_of(output@).len() as int),
{
    let all = lines(output);
    let remote = chars_of("origin");
    let head = chars_of("/HEAD");
    let prefix = chars_of("origin/");
    let mut branches: Vec<String> = Vec::new();
    let mut i: usize = 0;
    assert(texts(branches@) =~= Seq::<Seq<char>>::empty());
    while i < all.len()
        invariant
            i <= all.len(),
            remote@ == "origin"@,
            head@ == "/HEAD"@,
            prefix@ == "origin/"@,
            texts(branches@) == branches_upto(rows(all@), i as int),
        decreases all.len() - i,
    {
        let line = &all[i];
        let ghost before = texts(branches@);
        assert(rows(all@)[i as int] == line@);
        if line.len() == 0 || same_chars(line, &remote) || crate::text::ends_with(line, &head) {
        } else if starts_with(line, &prefix) {
            let rest = slice_of(line, prefix.len(), line.len());
            assert(rest@ == line@.skip(prefix.len() as int));
            branches.push(string_of(&rest));
            assert(texts(branches@) =~= before.push(rest@));
        } else {
            branches.push(string_of(line));
            assert(texts(branches@) =~= before.push(line@));
        }
        i = i + 1;
    }
    branches
}

} // verus!
