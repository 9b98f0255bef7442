//! Starting a session as a whole: from the selected repositories and the
//! outcome of each worktree step to the registry, the locks and the
//! scripts to run.
//!
//! Worktrees are made by git, outside the library. This module takes what
//! came of each attempt and works out everything else: which worktrees
//! are to be removed again after a failure, and, when all were made, the
//! session record, the arbitration of the locks and the setup scripts.

use vstd::prelude::*;
use crate::arbitration::{
    arbitrate_locks_at, arbitrated, rulings_of, skipped_in, skipped_repos, Arbitration,
};
use crate::config::SeshConfig;
use crate::discovery::RepoInfo;
use crate::lock::{LockTable, Locks};
use crate::orchestrate::{repo_entry_for, session_repos};
use crate::provision::{consistent, lemma_next_consistent, Event, Phase, Provisioner, Step};
use crate::scripts::{
    invocations_of, plan_scripts, planned, repo_names, repo_names_of, PlanContext, Purpose,
    ScriptRun,
};
use crate::session::{
    clock_now, is_session_name_for, name_taken, sanitize_session_name, save_session,
    session_dir, session_dir_path, IssueContext, Registry, SessionInfo, SessionRepo, Timestamp,
};
use crate::text::texts;

verus! {

/// Whether the worktree of repository `i` cannot be made, by the reported
/// outcomes. A repository without a reported outcome counts as made.
pub open spec fn fails_at(made: Seq<bool>, i: int) -> bool {
    0 <= i < made.len() && !made[i]
}

/// Whether the worktrees of all repositories before `k` can be made.
pub open spec fn all_made_before(made: Seq<bool>, k: int) -> bool {
    forall|j: int| 0 <= j < k ==> !fails_at(made, j)
}

/// A session that was started.
pub struct Started {
    /// The name of the session and of its directory.
    pub session_name: String,
    /// The worktrees that were made, in the order of the selection.
    pub worktrees: Vec<String>,
    /// The names of the session's repositories.
    pub repo_names: Vec<String>,
    /// The verdicts on the exclusive repositories.
    pub verdicts: Vec<Arbitration>,
    /// The repository whose lock file cannot be read, if the arbitration
    /// ended on one. The session exists all the same.
    pub lock_trouble: Option<String>,
    /// The repositories skipped because another session holds their lock.
    pub skipped: Vec<String>,
    /// The setup scripts to run; none when setup is not wanted or the
    /// arbitration ended in trouble.
    pub setup: Vec<ScriptRun>,
}

/// Why no session was started. Registry and locks are as they were.
#[derive(Debug, Clone)]
pub enum StartError {
    /// No repository was selected.
    NoSelection,
    /// The worktree of the repository at position `failed` could not be
    /// made. The worktrees made before it are to be removed again, newest
    /// first: `removed` lists them in that order.
    WorktreeFailed { failed: usize, repo: String, removed: Vec<String> },
}

/// Whether `done`, with registry and locks afterwards, is what starting a
/// session gives.
pub open spec fn is_start(
    reg_before: Registry,
    reg_after: Registry,
    locks_before: Locks,
    locks_after: Locks,
    config: SeshConfig,
    parent_dir: Seq<char>,
    selected: Seq<RepoInfo>,
    branch: Seq<char>,
    issue: Option<IssueContext>,
    base: Seq<char>,
    made: Seq<bool>,
    run_setup: bool,
    now: Timestamp,
    done: Result<Started, StartError>,
) -> bool {
    let n = selected.len() as int;
    match done {
        Err(StartError::NoSelection) => n == 0 && reg_after@ == reg_before@ && locks_after
            == locks_before,
        Err(StartError::WorktreeFailed { failed, repo, removed }) => {
            &&& failed < n
            &&& fails_at(made, failed as int)
            &&& all_made_before(made, failed as int)
            &&& repo@ == selected[failed as int].name@
            &&& removed@.len() == failed
            &&& exists|name: Seq<char>|
                #![trigger session_dir_path(parent_dir, name)]
                forall|j: int|
                    0 <= j < failed ==> (#[trigger] removed@[j])@ == crate::paths::joined_path(
                        session_dir_path(parent_dir, name),
                        selected[failed - 1 - j].name@,
                    )
            &&& reg_after@ == reg_before@
            &&& locks_after == locks_before
        },
        Ok(started) => {
            let name = started.session_name@;
            let dir = session_dir_path(parent_dir, name);
            &&& n > 0
            &&& all_made_before(made, n)
            &&& exists|existing: Seq<String>|
                #![trigger is_session_name_for(branch, existing, name)]
                is_session_name_for(branch, existing, name) && forall|k: Seq<char>|
                    name_taken(existing, k) <==> reg_before@.dom().contains(k)
            &&& !reg_before@.dom().contains(name)
            &&& reg_after@.dom().contains(name)
            &&& reg_after@ == reg_before@.insert(name, reg_after@[name])
            &&& reg_after@[name].background is None
            &&& reg_after@[name].record is Valid
            &&& ({
                let info = reg_after@[name].record->Valid_0;
                &&& info.name@ == name
                &&& info.branch@ == branch
                &&& info.created_at == now
                &&& info.parent_dir@ == parent_dir
                &&& info.issue == issue
                &&& info.base_branch is Some && info.base_branch->0@ == base
                &&& info.repos@.len() == n
                &&& forall|i: int|
                    0 <= i < n ==> repo_entry_for(selected[i], dir, #[trigger] info.repos@[i])
                &&& started.worktrees@.len() == n
                &&& forall|i: int|
                    0 <= i < n ==> (#[trigger] started.worktrees@[i])@
                        == info.repos@[i].worktree_path@
                &&& texts(started.repo_names@) == repo_names_of(info.repos@)
                &&& ({
                    let end = arbitrated(
                        locks_before,
                        reg_after,
                        config,
                        started.repo_names@,
                        name,
                        now,
                        started.repo_names@.len() as int,
                    );
                    &&& locks_after == end.locks
                    &&& rulings_of(started.verdicts@) == end.rulings
                    &&& started.lock_trouble is Some <==> end.stopped
                    &&& end.stopped ==> started.lock_trouble->0@ == end.culprit
                    &&& texts(started.skipped@) == skipped_in(end.rulings)
                    &&& invocations_of(started.setup@) == if run_setup && !end.stopped {
                        planned(
                            PlanContext {
                                parent_dir,
                                session_dir: dir,
                                session: name,
                                branch,
                                repos: repo_names_of(info.repos@),
                                allow_background: true,
                            },
                            config,
                            Purpose::Setup,
                            info.repos@,
                            started.skipped@,
                        )
                    } else {
                        Seq::empty()
                    }
                })
            })
        },
    }
}

/// The result of the provisioning run of a start.
struct Provisioned {
    failed: Option<usize>,
    removed: Vec<String>,
}

/// Goes through the provisioning of the worktrees with the reported
/// outcomes: each repository's base ref is fetched and its worktree made,
/// until one cannot be made; then the worktrees made so far are removed,
/// newest first.
fn provision(entries: &Vec<SessionRepo>, made: &Vec<bool>) -> (out: Provisioned)
    requires
        entries.len() > 0,
    ensures
        out.failed is None ==> all_made_before(made@, entries.len() as int) && out.removed@.len()
            == 0,
        out.failed is Some ==> {
            let k = out.failed->0;
            &&& k < entries.len()
            &&& fails_at(made@, k as int)
            &&& all_made_before(made@, k as int)
            &&& out.removed@.len() == k
            &&& forall|j: int|
                0 <= j < k ==> (#[trigger] out.removed@[j])@ == entries@[k - 1
                    - j].worktree_path@
        },
{
    let n = entries.len();
    let mut run = Provisioner::new(n, true, false);
    let mut removed: Vec<String> = Vec::new();
    while !run.is_finished()
        invariant
            n == entries.len(),
            n > 0,
            run@.n == n,
            run@.fetch_first,
            !run@.probe,
            !run@.existing,
            consistent(run@),
            all_made_before(made@, run@.current as int),
            !(run@.phase is Probing),
            run@.phase is Fetching || run@.phase is Adding || run@.phase is Provisioned
                ==> removed@.len() == 0,
            run@.phase is RollingBack || run@.phase is RolledBack ==> {
                &&& fails_at(made@, run@.current as int)
                &&& removed@.len() + run@.standing == run@.current
                &&& forall|j: int|
                    0 <= j < removed@.len() ==> (#[trigger] removed@[j])@ == entries@[run@.current
                        - 1 - j].worktree_path@
            },
        decreases
            (match run@.phase {
                Phase::Fetching => 3 * (n - run@.current) + 2 + n,
                Phase::Adding => 3 * (n - run@.current) + 1 + n,
                Phase::RollingBack => run@.standing as int,
                _ => 0,
            }),
    {
        let ghost before = run@;
        let step = run.pending();
        match step {
            Step::Fetch { repo } => {
                proof {
                    lemma_next_consistent(before, Event::Fetched { ok: true });
                }
                run.advance(Event::Fetched { ok: true });
            },
            Step::Create { repo } => {
                let ok = if repo < made.len() {
                    made[repo]
                } else {
                    true
                };
                proof {
                    lemma_next_consistent(before, Event::Added { ok });
                    assert(ok == !fails_at(made@, repo as int));
                }
                run.advance(Event::Added { ok });
            },
            Step::Remove { repo } => {
                proof {
                    lemma_next_consistent(before, Event::Removed { ok: true });
                }
                let ghost sofar = removed@;
                removed.push(entries[repo].worktree_path.clone());
                run.advance(Event::Removed { ok: true });
                proof {
                    assert forall|j: int| 0 <= j < removed@.len() implies (#[trigger] removed@[j])@
                        == entries@[run@.current - 1 - j].worktree_path@ by {
                        if j < sofar.len() {
                            assert(removed@[j] == sofar[j]);
                        }
                    }
                }
            },
            _ => {
                assert(false);
            },
        }
    }
    match run.pending() {
        Step::Abort { failed } => Provisioned { failed: Some(failed), removed },
        _ => Provisioned { failed: None, removed },
    }
}

/// Starts a session on `branch_name` over the selected repositories, as of
/// `now`. `made[i]` tells whether the worktree of the `i`-th repository
/// could be made.
///
/// Repositories are taken in the order of the selection. When a worktree
/// cannot be made, the result names the repository and lists the
/// worktrees made before it, newest first, for removal; no record is
/// written, no lock is taken and no script is planned. When all worktrees
/// are made, the session's record is written first; then the locks of its
/// exclusive repositories are arbitrated; then its setup scripts are
/// planned, without those of repositories skipped for a lock.
pub fn run_at(
    reg: &mut Registry,
    table: &mut LockTable,
    config: &SeshConfig,
    parent_dir: &str,
    selected: &Vec<RepoInfo>,
    branch_name: &str,
    issue: Option<IssueContext>,
    effective_base: &str,
    made: &Vec<bool>,
    run_setup: bool,
    now: Timestamp,
) -> (done: Result<Started, StartError>)
    ensures
        is_start(
            *old(reg),
            *final(reg),
            old(table)@,
            final(table)@,
            *config,
            parent_dir@,
            selected@,
            branch_name@,
            issue,
            effective_base@,
            made@,
            run_setup,
            now,
            done,
        ),
{
    if selected.len() == 0 {
        return Err(StartError::NoSelection);
    }
    let existing = reg.dir_names();
    let name = sanitize_session_name(branch_name, &existing);
    let dir = session_dir(parent_dir, name.as_str());
    let entries = session_repos(selected, dir.as_str());
    let outcome = provision(&entries, made);
    match outcome.failed {
        Some(failed) => {
            let removed = outcome.removed;
            proof {
                assert forall|j: int| 0 <= j < failed implies (#[trigger] removed@[j])@
                    == crate::paths::joined_path(
                    session_dir_path(parent_dir@, name@),
                    selected@[failed - 1 - j].name@,
                ) by {
                    assert(repo_entry_for(
                        selected@[failed - 1 - j],
                        dir@,
                        entries@[failed - 1 - j],
                    ));
                }
            }
            return Err(
                StartError::WorktreeFailed {
                    failed,
                    repo: selected[failed].name.clone(),
                    removed,
                },
            );
        },
        None => {},
    }
    let mut worktrees: Vec<String> = Vec::new();
    let mut i: usize = 0;
    while i < entries.len()
        invariant
            i <= entries.len(),
            worktrees.len() == i,
            forall|j: int| 0 <= j < i ==> (#[trigger] worktrees@[j])@ == entries@[j].worktree_path@,
        decreases entries.len() - i,
    {
        worktrees.push(entries[i].worktree_path.clone());
        i = i + 1;
    }
    let names = repo_names(&entries);
    let ghost repos_view = entries@;
    let info = SessionInfo {
        name: name.clone(),
        branch: branch_name.to_owned(),
        repos: entries,
        created_at: now,
        parent_dir: parent_dir.to_owned(),
        issue,
        base_branch: Some(effective_base.to_owned()),
    };
    assert(info.repos@ == repos_view);
    save_session(reg, name.as_str(), info);
    let (verdicts, lock_trouble) = match arbitrate_locks_at(
        table,
        reg,
        config,
        &names,
        name.as_str(),
        now,
    ) {
        Ok(list) => (list, None),
        Err(stop) => (stop.decided, Some(stop.unreadable)),
    };
    let skipped = skipped_repos(&verdicts);
    let setup = if run_setup && lock_trouble.is_none() {
        match crate::session::load_session(reg, name.as_str()) {
            Ok(stored) => plan_scripts(
                config,
                Purpose::Setup,
                parent_dir,
                dir.as_str(),
                name.as_str(),
                branch_name,
                &stored.repos,
                &skipped,
                true,
            ),
            Err(_) => Vec::new(),
        }
    } else {
        Vec::new()
    };
    proof {
        assert(invocations_of(Seq::<ScriptRun>::empty()) =~= Seq::<crate::scripts::Invocation>::empty(
        ));
        assert(reg@ =~= old(reg)@.insert(name@, reg@[name@]));
    }
    Ok(Started { session_name: name, worktrees, repo_names: names, verdicts, lock_trouble, skipped, setup })
}

/// Starts a session as of the current time.
pub fn run(
    reg: &mut Registry,
    table: &mut LockTable,
    config: &SeshConfig,
    parent_dir: &str,
    selected: &Vec<RepoInfo>,
    branch_name: &str,
    issue: Option<IssueContext>,
    effective_base: &str,
    made: &Vec<bool>,
    run_setup: bool,
) -> (done: Result<Started, StartError>)
    ensures
        exists|now: Timestamp|
            #[trigger] is_start(
                *old(reg),
                *final(reg),
                old(table)@,
                final(table)@,
                *config,
                parent_dir@,
                selected@,
                branch_name@,
                issue,
                effective_base@,
                made@,
                run_setup,
                now,
                done,
            ),
{
    let now = clock_now();
    run_at(reg, table, config, parent_dir, selected, branch_name, issue, effective_base, made, run_setup, now)
}

} // verus!
