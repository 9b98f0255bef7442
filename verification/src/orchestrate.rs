//! The decisions of a session's life that are neither provisioning nor
//! lock arbitration: which repositories take part, whether a branch name
//! can be used, what the session record says, and in which order a
//! session is taken apart.

use vstd::prelude::*;
use crate::config::{marked_skip, SeshConfig};
use crate::discovery::RepoInfo;
use crate::error::SeshError;
use crate::paths::{join_path, joined_path};
use crate::session::{clock_now, name_taken, IssueContext, SessionInfo, SessionRepo};
use crate::text::{chars_of, join, joined, push_str, same_text, starts_with, string_of, texts};

verus! {

/// Which repositories take part in a session.
#[derive(Debug, Clone)]
pub enum Selection {
    /// The repositories at these positions, in ascending order.
    Chosen(Vec<usize>),
    /// The operator selects them.
    Ask,
}

/// The positions below `upto` of the repositories named in `wanted`.
pub open spec fn positions_named(repos: Seq<RepoInfo>, wanted: Seq<String>, upto: int) -> Seq<usize>
    decreases upto,
{
    if upto <= 0 {
        Seq::empty()
    } else {
        let rest = positions_named(repos, wanted, upto - 1);
        if name_taken(wanted, repos[upto - 1].name@) {
            rest.push((upto - 1) as usize)
        } else {
            rest
        }
    }
}

/// All positions below `n`.
pub open spec fn all_positions(n: int) -> Seq<usize> {
    Seq::new(n as nat, |i: int| i as usize)
}

/// The message for a preset that the settings do not define.
pub open spec fn preset_missing(preset: Seq<char>) -> Seq<char> {
    "preset '"@ + preset + "' not found in sesh.toml"@
}

fn names_hold(wanted: &Vec<String>, name: &str) -> (yes: bool)
    ensures
        yes == name_taken(wanted@, name@),
{
    let mut i: usize = 0;
    while i < wanted.len()
        invariant
            i <= wanted.len(),
            forall|j: int| 0 <= j < i ==> (#[trigger] wanted@[j])@ != name@,
        decreases wanted.len() - i,
    {
        if same_text(wanted[i].as_str(), name) {
            return true;
        }
        i = i + 1;
    }
    false
}

/// Decides which of the discovered repositories take part: all of them,
/// those of a preset, or those that the operator selects. No repository
/// at all, an unknown preset and a preset that matches nothing are
/// errors.
pub fn select_repos(
    repos: &Vec<RepoInfo>,
    all: bool,
    preset: Option<&str>,
    config: &SeshConfig,
    parent_dir: &str,
) -> (selection: Result<Selection, SeshError>)
    ensures
        repos.len() == 0 ==> selection is Err && selection->Err_0 is NoReposFound
            && selection->Err_0->NoReposFound_0@ == parent_dir@,
        repos.len() > 0 && all ==> selection is Ok && selection->Ok_0 is Chosen
            && selection->Ok_0->Chosen_0@ == all_positions(repos.len() as int),
        repos.len() > 0 && !all && preset is None ==> selection is Ok && selection->Ok_0 is Ask,
        repos.len() > 0 && !all && preset is Some && !config.presets@.dom().contains(preset->0@)
            ==> selection is Err && selection->Err_0 is InvalidConfig
            && selection->Err_0->InvalidConfig_0@ == preset_missing(preset->0@),
        repos.len() > 0 && !all && preset is Some && config.presets@.dom().contains(preset->0@)
            ==> ({
            let found = positions_named(
                repos@,
                config.presets@[preset->0@]@,
                repos.len() as int,
            );
            if found.len() == 0 {
                selection is Err && selection->Err_0 is NoReposSelected
            } else {
                selection is Ok && selection->Ok_0 is Chosen && selection->Ok_0->Chosen_0@ == found
            }
        }),
{
    if repos.len() == 0 {
        return Err(SeshError::NoReposFound(parent_dir.to_owned()));
    }
    if all {
        let mut chosen: Vec<usize> = Vec::new();
        let mut i: usize = 0;
        while i < repos.len()
            invariant
                i <= repos.len(),
                chosen@ == all_positions(i as int),
            decreases repos.len() - i,
        {
            chosen.push(i);
            assert(chosen@ =~= all_positions(i + 1));
            i = i + 1;
        }
        return Ok(Selection::Chosen(chosen));
    }
    match preset {
        None => Ok(Selection::Ask),
        Some(name) => match config.presets.get(name) {
            None => {
                let mut message: Vec<char> = Vec::new();
                push_str(&mut message, "preset '");
                push_str(&mut message, name);
                push_str(&mut message, "' not found in sesh.toml");
                Err(SeshError::InvalidConfig(string_of(&message)))
            },
            Some(wanted) => {
                let mut chosen: Vec<usize> = Vec::new();
                let mut i: usize = 0;
                while i < repos.len()
                    invariant
                        i <= repos.len(),
                        chosen@ == positions_named(repos@, wanted@, i as int),
                    decreases repos.len() - i,
                {
                    if names_hold(wanted, repos[i].name.as_str()) {
                        chosen.push(i);
                    }
                    i = i + 1;
                }
                if chosen.len() == 0 {
                    Err(SeshError::NoReposSelected)
                } else {
                    Ok(Selection::Chosen(chosen))
                }
            },
        },
    }
}

/// Which repositories are ticked when the operator is asked: all but
/// those that the settings mark to be skipped.
pub fn default_selection(repos: &Vec<RepoInfo>, config: &SeshConfig) -> (ticked: Vec<bool>)
    ensures
        ticked.len() == repos.len(),
        forall|i: int|
            0 <= i < repos.len() ==> #[trigger] ticked@[i] == !marked_skip(
                config.repos@,
                repos@[i].name@,
            ),
{
    let mut ticked: Vec<bool> = Vec::new();
    let mut i: usize = 0;
    while i < repos.len()
        invariant
            i <= repos.len(),
            ticked.len() == i,
            forall|j: int|
                0 <= j < i ==> #[trigger] ticked@[j] == !marked_skip(
                    config.repos@,
                    repos@[j].name@,
                ),
        decreases repos.len() - i,
    {
        ticked.push(!config.is_skipped(repos[i].name.as_str()));
        i = i + 1;
    }
    ticked
}

/// The remote-tracking ref that worktrees are cut from: `origin/<base>`.
pub fn base_ref(base_branch: &str) -> (reference: String)
    ensures
        reference@ == "origin/"@ + base_branch@,
{
    let mut out: Vec<char> = Vec::new();
    push_str(&mut out, "origin/");
    push_str(&mut out, base_branch);
    string_of(&out)
}

/// The session's entry for a repository: its worktree lies in the session
/// directory under the repository's name.
pub open spec fn repo_entry_for(repo: RepoInfo, session_dir: Seq<char>, entry: SessionRepo) -> bool {
    &&& entry.name@ == repo.name@
    &&& entry.worktree_path@ == joined_path(session_dir, repo.name@)
    &&& entry.original_repo_path@ == repo.path@
}

/// The entries of a session for the selected repositories, in the order
/// of the selection.
pub fn session_repos(selected: &Vec<RepoInfo>, session_dir: &str) -> (entries: Vec<SessionRepo>)
    ensures
        entries.len() == selected.len(),
        forall|i: int|
            0 <= i < selected.len() ==> repo_entry_for(
                selected@[i],
                session_dir@,
                #[trigger] entries@[i],
            ),
{
    let mut entries: Vec<SessionRepo> = Vec::new();
    let mut i: usize = 0;
    while i < selected.len()
        invariant
            i <= selected.len(),
            entries.len() == i,
            forall|j: int|
                0 <= j < i ==> repo_entry_for(selected@[j], session_dir@, #[trigger] entries@[j]),
        decreases selected.len() - i,
    {
        let repo = &selected[i];
        entries.push(
            SessionRepo {
                name: repo.name.clone(),
                worktree_path: join_path(session_dir, repo.name.as_str()),
                original_repo_path: repo.path.clone(),
            },
        );
        i = i + 1;
    }
    entries
}

/// The record of a session that has just been provisioned, stamped with
/// the current time. It is written before locks are arbitrated and
/// before any script runs, so that the session can always be found and
/// stopped.
pub fn new_session(
    session_name: &str,
    branch_name: &str,
    repos: Vec<SessionRepo>,
    parent_dir: &str,
    issue: Option<IssueContext>,
    effective_base: &str,
) -> (info: SessionInfo)
    ensures
        info.name@ == session_name@,
        info.branch@ == branch_name@,
        info.repos == repos,
        info.parent_dir@ == parent_dir@,
        info.issue == issue,
        info.base_branch is Some && info.base_branch->0@ == effective_base@,
{
    SessionInfo {
        name: session_name.to_owned(),
        branch: branch_name.to_owned(),
        repos,
        created_at: clock_now(),
        parent_dir: parent_dir.to_owned(),
        issue,
        base_branch: Some(effective_base.to_owned()),
    }
}

/// The branch name with the configured prefix in front, unless it starts
/// with the prefix already or no prefix is configured.
pub open spec fn prefixed(prefix: Option<Seq<char>>, branch: Seq<char>) -> Seq<char> {
    match prefix {
        Some(p) => if p.is_prefix_of(branch) {
            branch
        } else {
            p + branch
        },
        None => branch,
    }
}

/// Puts the configured branch prefix in front of a branch name that lacks
/// it.
pub fn apply_prefix(config: &SeshConfig, branch: &str) -> (name: String)
    ensures
        name@ == prefixed(
            match config.session.branch_prefix {
                Some(p) => Some(p@),
                None => None,
            },
            branch@,
        ),
{
    match &config.session.branch_prefix {
        None => branch.to_owned(),
        Some(prefix) => {
            let b = chars_of(branch);
            let p = chars_of(prefix.as_str());
            if starts_with(&b, &p) {
                branch.to_owned()
            } else {
                let mut out: Vec<char> = Vec::new();
                push_str(&mut out, prefix.as_str());
                push_str(&mut out, branch);
                string_of(&out)
            }
        },
    }
}

/// What stands in the way of a branch name.
#[derive(Debug, Clone)]
pub enum BranchProblem {
    /// Git does not accept the name.
    Invalid,
    /// Another session already uses the branch.
    UsedBySession { session: String },
    /// The branch already exists in these repositories.
    ExistsIn { repos: Vec<String> },
}

/// What to do with a branch name.
#[derive(Debug, Clone)]
pub enum BranchVerdict {
    /// Use it.
    Accept,
    /// Tell the operator what is wrong and ask again.
    Retry(BranchProblem),
    /// Give up with an error.
    Fail(BranchProblem),
}

/// The problem with a branch name, if any: an invalid name counts before
/// a session that uses the branch, and that before repositories in which
/// the branch exists.
pub open spec fn branch_problem(valid: bool, used_by: Option<Seq<char>>, conflicts: Seq<Seq<char>>) -> Option<
    (int, Seq<char>, Seq<Seq<char>>),
> {
    if !valid {
        Some((0, Seq::empty(), Seq::empty()))
    } else if used_by is Some {
        Some((1, used_by->0, Seq::empty()))
    } else if conflicts.len() > 0 {
        Some((2, Seq::empty(), conflicts))
    } else {
        None
    }
}

/// A problem as plain values: its kind, the session and the repositories
/// it names.
pub open spec fn problem_values(p: BranchProblem) -> (int, Seq<char>, Seq<Seq<char>>) {
    match p {
        BranchProblem::Invalid => (0, Seq::empty(), Seq::empty()),
        BranchProblem::UsedBySession { session } => (1, session@, Seq::empty()),
        BranchProblem::ExistsIn { repos } => (2, Seq::empty(), texts(repos@)),
    }
}

/// Judges a candidate branch name for a new session. The name must be
/// valid, no session may use the branch already (`used_by`), and the
/// branch must not exist in any selected repository (`conflicts`). An
/// operator who is at the prompt is asked again; otherwise the run fails.
pub fn judge_branch(
    interactive: bool,
    valid: bool,
    used_by: Option<&str>,
    conflicts: &Vec<String>,
) -> (verdict: BranchVerdict)
    ensures
        ({
            let problem = branch_problem(
                valid,
                match used_by {
                    Some(s) => Some(s@),
                    None => None,
                },
                texts(conflicts@),
            );
            match verdict {
                BranchVerdict::Accept => problem is None,
                BranchVerdict::Retry(p) => interactive && problem == Some(problem_values(p)),
                BranchVerdict::Fail(p) => !interactive && problem == Some(problem_values(p)),
            }
        }),
{
    let problem = if !valid {
        BranchProblem::Invalid
    } else {
        match used_by {
            Some(session) => BranchProblem::UsedBySession { session: session.to_owned() },
            None => {
                if conflicts.len() == 0 {
                    return BranchVerdict::Accept;
                }
                let mut repos: Vec<String> = Vec::new();
                let mut i: usize = 0;
                while i < conflicts.len()
                    invariant
                        i <= conflicts.len(),
                        texts(repos@) == texts(conflicts@).take(i as int),
                    decreases conflicts.len() - i,
                {
                    let ghost before = texts(repos@);
                    repos.push(conflicts[i].clone());
                    assert(texts(repos@) =~= before.push(conflicts@[i as int]@));
                    assert(texts(repos@) =~= texts(conflicts@).take(i + 1));
                    i = i + 1;
                }
                assert(texts(conflicts@).take(conflicts.len() as int) == texts(conflicts@));
                BranchProblem::ExistsIn { repos }
            },
        }
    };
    if interactive {
        BranchVerdict::Retry(problem)
    } else {
        BranchVerdict::Fail(problem)
    }
}

/// What the operator is told about a branch name that cannot be used.
/// `complaint` is git's word on an invalid name.
pub open spec fn problem_text(problem: BranchProblem, branch: Seq<char>, complaint: Seq<char>) -> Seq<
    char,
> {
    match problem {
        BranchProblem::Invalid => "'"@ + branch + "' is not a valid git branch name: "@
            + complaint,
        BranchProblem::UsedBySession { session } => "Session '"@ + session@
            + "' already uses branch '"@ + branch + "'."@,
        BranchProblem::ExistsIn { repos } => "Branch '"@ + branch + "' already exists in: "@
            + joined(texts(repos@), ", "@) + "."@,
    }
}

/// Writes what the operator is told about a branch name that cannot be
/// used.
pub fn describe_problem(problem: &BranchProblem, branch: &str, complaint: &str) -> (line: String)
    ensures
        line@ == problem_text(*problem, branch@, complaint@),
{
    let mut out: Vec<char> = Vec::new();
    match problem {
        BranchProblem::Invalid => {
            push_str(&mut out, "'");
            push_str(&mut out, branch);
            push_str(&mut out, "' is not a valid git branch name: ");
            push_str(&mut out, complaint);
        },
        BranchProblem::UsedBySession { session } => {
            push_str(&mut out, "Session '");
            push_str(&mut out, session.as_str());
            push_str(&mut out, "' already uses branch '");
            push_str(&mut out, branch);
            push_str(&mut out, "'.");
        },
        BranchProblem::ExistsIn { repos } => {
            let list = join(repos, ", ");
            push_str(&mut out, "Branch '");
            push_str(&mut out, branch);
            push_str(&mut out, "' already exists in: ");
            push_str(&mut out, list.as_str());
            push_str(&mut out, ".");
        },
    }
    string_of(&out)
}

/// What to make of a branch that is to be checked out and is already on a
/// worktree somewhere.
#[derive(Debug, Clone)]
pub enum Conflict {
    /// No repository has the branch on a worktree.
    Clear,
    /// A session owns the branch: offer to open that session.
    OwnedBy { session: String },
    /// The branch is on worktrees that no session manages, in these
    /// repositories.
    Unmanaged { repos: Vec<String> },
}

/// Judges the worktrees that already hold a branch: `conflicting` are the
/// repositories that have the branch on a worktree, `owner` the session
/// that uses the branch, if any.
pub fn judge_conflicts(conflicting: Vec<String>, owner: Option<&str>) -> (conflict: Conflict)
    ensures
        match conflict {
            Conflict::Clear => conflicting.len() == 0,
            Conflict::OwnedBy { session } => conflicting.len() > 0 && owner is Some && session@
                == owner->0@,
            Conflict::Unmanaged { repos } => conflicting.len() > 0 && owner is None && repos
                == conflicting,
        },
{
    if conflicting.len() == 0 {
        return Conflict::Clear;
    }
    match owner {
        Some(session) => Conflict::OwnedBy { session: session.to_owned() },
        None => Conflict::Unmanaged { repos: conflicting },
    }
}

/// What to open in the editor: nothing for a session without worktrees,
/// the worktree itself for a session with one, and the session directory,
/// which shows all worktrees as folders, for a session with several.
pub fn editor_target(session_dir: &str, worktree_paths: &Vec<String>) -> (target: Option<String>)
    ensures
        worktree_paths.len() == 0 ==> target is None,
        worktree_paths.len() == 1 ==> target is Some && target->0@ == worktree_paths@[0]@,
        worktree_paths.len() > 1 ==> target is Some && target->0@ == session_dir@,
{
    if worktree_paths.len() == 0 {
        None
    } else if worktree_paths.len() == 1 {
        Some(worktree_paths[0].clone())
    } else {
        Some(session_dir.to_owned())
    }
}

/// Whether a command run in every repository failed in at least one:
/// `succeeded` holds one flag per repository.
pub fn any_failed(succeeded: &Vec<bool>) -> (failed: bool)
    ensures
        failed == exists|i: int| 0 <= i < succeeded.len() && !(#[trigger] succeeded@[i]),
{
    let mut i: usize = 0;
    while i < succeeded.len()
        invariant
            i <= succeeded.len(),
            forall|j: int| 0 <= j < i ==> #[trigger] succeeded@[j],
        decreases succeeded.len() - i,
    {
        if !succeeded[i] {
            return true;
        }
        i = i + 1;
    }
    false
}

/// A step of taking a session apart.
#[derive(Debug, Clone, Copy, PartialEq, Eq, Structural)]
pub enum StopStep {
    /// Stop the background processes recorded for the session.
    KillBackground,
    /// Run the teardown scripts; a failing script is only a warning.
    RunTeardown,
    /// Remove the worktree of the repository at this position.
    RemoveWorktree { repo: usize },
    /// Let git forget stale worktrees of the repository at this position.
    PruneWorktrees { repo: usize },
    /// Delete the session's branch in the repository at this position.
    DeleteBranch { repo: usize },
    /// Give back the locks the session holds.
    ReleaseLocks,
    /// Remove the session directory with the record, the list of
    /// background processes and the logs.
    DeleteSessionDir,
}

/// The steps of stopping a session with `n` repositories, in order:
/// processes first, then teardown scripts, then each worktree removed and
/// pruned, then the branches unless they are kept, then the locks, and at
/// the very end the session directory.
pub open spec fn stop_sequence(n: int, keep_branches: bool) -> Seq<StopStep> {
    seq![StopStep::KillBackground, StopStep::RunTeardown] + Seq::new(
        (2 * n) as nat,
        |k: int|
            if k % 2 == 0 {
                StopStep::RemoveWorktree { repo: (k / 2) as usize }
            } else {
                StopStep::PruneWorktrees { repo: (k / 2) as usize }
            },
    ) + (if keep_branches {
        Seq::empty()
    } else {
        Seq::new(n as nat, |k: int| StopStep::DeleteBranch { repo: k as usize })
    }) + seq![StopStep::ReleaseLocks, StopStep::DeleteSessionDir]
}

/// The steps of stopping a session with `n` repositories.
pub fn stop_steps(n: usize, keep_branches: bool) -> (steps: Vec<StopStep>)
    ensures
        steps@ == stop_sequence(n as int, keep_branches),
        steps@.last() == StopStep::DeleteSessionDir,
{
    let mut steps: Vec<StopStep> = Vec::new();
    steps.push(StopStep::KillBackground);
    steps.push(StopStep::RunTeardown);
    let ghost head = steps@;
    let ghost removals = Seq::new(
        (2 * n) as nat,
        |k: int|
            if k % 2 == 0 {
                StopStep::RemoveWorktree { repo: (k / 2) as usize }
            } else {
                StopStep::PruneWorktrees { repo: (k / 2) as usize }
            },
    );
    let mut i: usize = 0;
    assert(head + removals.take(0) =~= head);
    while i < n
        invariant
            i <= n,
            head == seq![StopStep::KillBackground, StopStep::RunTeardown],
            removals == Seq::new(
                (2 * n) as nat,
                |k: int|
                    if k % 2 == 0 {
                        StopStep::RemoveWorktree { repo: (k / 2) as usize }
                    } else {
                        StopStep::PruneWorktrees { repo: (k / 2) as usize }
                    },
            ),
            steps@ == head + removals.take(2 * i),
        decreases n - i,
    {
        steps.push(StopStep::RemoveWorktree { repo: i });
        steps.push(StopStep::PruneWorktrees { repo: i });
        assert(steps@ =~= head + removals.take(2 * (i + 1)));
        i = i + 1;
    }
    assert(removals.take(2 * n) == removals);
    let ghost middle = steps@;
    let ghost deletions = Seq::new(n as nat, |k: int| StopStep::DeleteBranch { repo: k as usize });
    if !keep_branches {
        let mut j: usize = 0;
        assert(middle + deletions.take(0) =~= middle);
        while j < n
            invariant
                j <= n,
                deletions == Seq::new(n as nat, |k: int| StopStep::DeleteBranch { repo: k as usize }),
                steps@ == middle + deletions.take(j as int),
            decreases n - j,
        {
            steps.push(StopStep::DeleteBranch { repo: j });
            assert(steps@ =~= middle + deletions.take(j + 1));
            j = j + 1;
        }
        assert(deletions.take(n as int) == deletions);
    } else {
        assert(middle + Seq::<StopStep>::empty() =~= middle);
    }
    let ghost body = steps@;
    steps.push(StopStep::ReleaseLocks);
    steps.push(StopStep::DeleteSessionDir);
    assert(steps@ =~= body + seq![StopStep::ReleaseLocks, StopStep::DeleteSessionDir]);
    steps
}

/// The positions below `upto` of the repositories of a session whose
/// worktree is among the paths `present` on disk.
pub open spec fn on_disk(repos: Seq<SessionRepo>, present: Seq<String>, upto: int) -> Seq<usize>
    decreases upto,
{
    if upto <= 0 {
        Seq::empty()
    } else {
        let rest = on_disk(repos, present, upto - 1);
        if name_taken(present, repos[upto - 1].worktree_path@) {
            rest.push((upto - 1) as usize)
        } else {
            rest
        }
    }
}

/// The repositories of a session whose worktree exists, by position. A
/// session counts as active when there is at least one, and a command is
/// run across a session in exactly these.
pub fn worktrees_on_disk(session: &SessionInfo, present: &Vec<String>) -> (found: Vec<usize>)
    ensures
        found@ == on_disk(session.repos@, present@, session.repos@.len() as int),
{
    let mut found: Vec<usize> = Vec::new();
    let mut i: usize = 0;
    while i < session.repos.len()
        invariant
            i <= session.repos.len(),
            found@ == on_disk(session.repos@, present@, i as int),
        decreases session.repos.len() - i,
    {
        if names_hold(present, session.repos[i].worktree_path.as_str()) {
            found.push(i);
        }
        i = i + 1;
    }
    found
}

} // verus!
