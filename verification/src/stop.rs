//! Stopping a session: what is taken apart, in which order, and what the
//! registry and the locks look like afterwards.

use vstd::prelude::*;
use crate::arbitration::{locks_after_stops, release_session_locks};
use crate::config::SeshConfig;
use crate::lock::LockTable;
use crate::orchestrate::{stop_sequence, stop_steps, StopStep};
use crate::scripts::{
    invocations_of, plan_scripts, planned, repo_names, repo_names_of, PlanContext, Purpose,
    ScriptRun,
};
use crate::session::{
    delete_session_dir, load_background_pids, load_session, recorded_pids, session_dir,
    session_dir_path, BackgroundPid, Registry, RegistryError, SessionRepo,
};
use crate::text::texts;

verus! {

/// What stopping a session takes.
pub struct Stopping {
    /// The steps to carry out on disk, in order.
    pub steps: Vec<StopStep>,
    /// The background processes to stop.
    pub pids: Vec<BackgroundPid>,
    /// The teardown scripts to run; a failing one is only a warning.
    pub teardown: Vec<ScriptRun>,
    /// The repositories of the session, whose worktrees are removed.
    pub repos: Vec<SessionRepo>,
    /// The session's branch, deleted in each repository unless kept.
    pub branch: String,
    /// The names of the repositories.
    pub repo_names: Vec<String>,
    /// For each repository, whether its lock is released.
    pub released: Vec<bool>,
}

/// Stops the session recorded in the directory `session_name`.
///
/// A session without a readable record cannot be stopped; nothing changes
/// then. Otherwise the result lists what to do on disk: stop the recorded
/// background processes, run the teardown scripts of the repositories and
/// then of the session, remove and prune each worktree, delete the branch
/// unless it is kept, release the locks and remove the session directory.
/// Afterwards the registry holds no such directory, and with it neither
/// record nor list of background processes; the locks that the session
/// held on its exclusive repositories are free, and every other lock is
/// as it was.
pub fn run(
    reg: &mut Registry,
    table: &mut LockTable,
    config: &SeshConfig,
    parent_dir: &str,
    session_name: &str,
    keep_branches: bool,
) -> (done: Result<Stopping, RegistryError>)
    ensures
        done is Ok <==> old(reg)@.dom().contains(session_name@)
            && old(reg)@[session_name@].record is Valid,
        done is Err ==> final(reg)@ == old(reg)@ && final(table)@ == old(table)@ && (done->Err_0
            == RegistryError::Corrupt <==> old(reg)@.dom().contains(session_name@)
            && old(reg)@[session_name@].record is Corrupt),
        done is Ok ==> ({
            let info = old(reg)@[session_name@].record->Valid_0;
            let plan = done->Ok_0;
            &&& plan.steps@ == stop_sequence(info.repos@.len() as int, keep_branches)
            &&& plan.pids@ == recorded_pids(old(reg)@, session_name@)
            &&& plan.repos@.len() == info.repos@.len()
            &&& forall|i: int|
                0 <= i < plan.repos@.len() ==> (#[trigger] plan.repos@[i]).name@
                    == info.repos@[i].name@ && plan.repos@[i].worktree_path@
                    == info.repos@[i].worktree_path@ && plan.repos@[i].original_repo_path@
                    == info.repos@[i].original_repo_path@
            &&& plan.branch@ == info.branch@
            &&& texts(plan.repo_names@) == repo_names_of(info.repos@)
            &&& invocations_of(plan.teardown@) == planned(
                PlanContext {
                    parent_dir: parent_dir@,
                    session_dir: session_dir_path(parent_dir@, session_name@),
                    session: info.name@,
                    branch: info.branch@,
                    repos: repo_names_of(info.repos@),
                    allow_background: false,
                },
                *config,
                Purpose::Teardown,
                info.repos@,
                Seq::<String>::empty(),
            )
            &&& final(reg)@ == old(reg)@.remove(session_name@)
            &&& !final(reg).has_record(session_name@)
            &&& recorded_pids(final(reg)@, session_name@).len() == 0
            &&& final(table)@ == locks_after_stops(
                old(table)@,
                *config,
                plan.repo_names@,
                info.name@,
                plan.repo_names@.len() as int,
            )
            &&& plan.released@.len() == plan.repo_names@.len()
        }),
{
    let pids = load_background_pids(reg, session_name);
    let info = match load_session(reg, session_name) {
        Ok(info) => info,
        Err(e) => {
            return Err(e);
        },
    };
    let dir = session_dir(parent_dir, session_name);
    let none: Vec<String> = Vec::new();
    let teardown = plan_scripts(
        config,
        Purpose::Teardown,
        parent_dir,
        dir.as_str(),
        info.name.as_str(),
        info.branch.as_str(),
        &info.repos,
        &none,
        false,
    );
    let steps = stop_steps(info.repos.len(), keep_branches);
    let names = repo_names(&info.repos);
    let branch = info.branch.clone();
    let owner = info.name.clone();
    let mut repos: Vec<SessionRepo> = Vec::new();
    let mut i: usize = 0;
    while i < info.repos.len()
        invariant
            i <= info.repos.len(),
            repos.len() == i,
            forall|j: int|
                0 <= j < i ==> (#[trigger] repos@[j]).name@ == info.repos@[j].name@
                    && repos@[j].worktree_path@ == info.repos@[j].worktree_path@
                    && repos@[j].original_repo_path@ == info.repos@[j].original_repo_path@,
        decreases info.repos.len() - i,
    {
        let r = &info.repos[i];
        repos.push(
            SessionRepo {
                name: r.name.clone(),
                worktree_path: r.worktree_path.clone(),
                original_repo_path: r.original_repo_path.clone(),
            },
        );
        i = i + 1;
    }
    let released = release_session_locks(table, config, &names, owner.as_str());
    let _ = delete_session_dir(reg, session_name);
    Ok(Stopping { steps, pids, teardown, repos, branch, repo_names: names, released })
}

} // verus!
