use sesh::flow::{BranchOutcome, Ending, Report, SessionFlow, Stage, Task};
use sesh::provision::{Event, Step};

fn until_provisioning(flow: &mut SessionFlow, repos: usize) {
    assert_eq!(flow.pending(), Task::Discover);
    flow.advance(Report::Discovered { repos: repos + 1 });
    assert_eq!(flow.pending(), Task::Select);
    flow.advance(Report::Selected { repos });
    assert_eq!(flow.pending(), Task::ResolveBranch);
    flow.advance(Report::Branch { outcome: BranchOutcome::Rejected });
    assert_eq!(flow.pending(), Task::ResolveBranch);
    assert_eq!(flow.stage(), Stage::BranchResolving);
    flow.advance(Report::Branch { outcome: BranchOutcome::Accepted });
    assert_eq!(flow.stage(), Stage::Provisioning);
}

#[test]
fn a_session_is_created_stage_by_stage() {
    let mut flow = SessionFlow::new(true, false, true);
    assert_eq!(flow.stage(), Stage::Discovering);
    until_provisioning(&mut flow, 2);
    let mut tasks = Vec::new();
    loop {
        let task = flow.pending();
        tasks.push(task);
        let report = match task {
            Task::Worktree(Step::Fetch { .. }) => Report::Worktree(Event::Fetched { ok: false }),
            Task::Worktree(Step::Create { .. }) => Report::Worktree(Event::Added { ok: true }),
            Task::Persist => {
                assert!(!flow.is_recorded());
                Report::Persisted { ok: true }
            }
            Task::ArbitrateLocks => {
                assert!(flow.is_recorded());
                Report::Arbitrated { ok: true }
            }
            Task::RunScripts => {
                assert!(flow.is_recorded());
                Report::ScriptsRun { ok: true }
            }
            Task::Finish(_) => break,
            other => panic!("unexpected task {:?}", other),
        };
        flow.advance(report);
    }
    assert_eq!(
        tasks,
        vec![
            Task::Worktree(Step::Fetch { repo: 0 }),
            Task::Worktree(Step::Create { repo: 0 }),
            Task::Worktree(Step::Fetch { repo: 1 }),
            Task::Worktree(Step::Create { repo: 1 }),
            Task::Persist,
            Task::ArbitrateLocks,
            Task::RunScripts,
            Task::Finish(Ending::Created),
        ]
    );
    assert_eq!(flow.stage(), Stage::Finalized);
}

#[test]
fn nothing_is_touched_when_the_run_ends_early() {
    let mut flow = SessionFlow::new(true, false, true);
    flow.advance(Report::Discovered { repos: 0 });
    assert_eq!(flow.pending(), Task::Finish(Ending::NoRepos));

    let mut flow = SessionFlow::new(true, false, true);
    flow.advance(Report::Discovered { repos: 3 });
    flow.advance(Report::Selected { repos: 0 });
    assert_eq!(flow.pending(), Task::Finish(Ending::NoSelection));

    let mut flow = SessionFlow::new(true, false, true);
    flow.advance(Report::Discovered { repos: 3 });
    flow.advance(Report::Selected { repos: 2 });
    flow.advance(Report::Branch { outcome: BranchOutcome::Refused });
    assert_eq!(flow.pending(), Task::Finish(Ending::BranchRefused));
    assert!(!flow.is_recorded());
    flow.advance(Report::Persisted { ok: true });
    assert_eq!(flow.pending(), Task::Finish(Ending::BranchRefused));
}

#[test]
fn a_failed_worktree_rolls_back_and_never_persists() {
    let mut flow = SessionFlow::new(false, false, true);
    until_provisioning(&mut flow, 3);
    flow.advance(Report::Worktree(Event::Added { ok: true }));
    flow.advance(Report::Worktree(Event::Added { ok: true }));
    flow.advance(Report::Worktree(Event::Added { ok: false }));
    assert_eq!(flow.stage(), Stage::RollingBack);
    assert_eq!(flow.pending(), Task::Worktree(Step::Remove { repo: 1 }));
    flow.advance(Report::Persisted { ok: true });
    assert_eq!(flow.pending(), Task::Worktree(Step::Remove { repo: 1 }));
    flow.advance(Report::Worktree(Event::Removed { ok: true }));
    flow.advance(Report::Worktree(Event::Removed { ok: false }));
    assert_eq!(flow.pending(), Task::Finish(Ending::WorktreeFailed { failed: 2 }));
    assert!(!flow.is_recorded());
    assert_eq!(flow.stranded(), vec![0]);
}

#[test]
fn trouble_after_the_record_degrades_without_rollback() {
    let mut flow = SessionFlow::new(false, false, true);
    until_provisioning(&mut flow, 1);
    flow.advance(Report::Worktree(Event::Added { ok: true }));
    flow.advance(Report::Persisted { ok: true });
    flow.advance(Report::Arbitrated { ok: false });
    assert_eq!(flow.pending(), Task::Finish(Ending::DegradedByLocks));
    assert!(flow.is_recorded());

    let mut flow = SessionFlow::new(false, false, true);
    until_provisioning(&mut flow, 1);
    flow.advance(Report::Worktree(Event::Added { ok: true }));
    flow.advance(Report::Persisted { ok: true });
    flow.advance(Report::Arbitrated { ok: true });
    assert_eq!(flow.stage(), Stage::ScriptExecution);
    flow.advance(Report::ScriptsRun { ok: false });
    assert_eq!(flow.pending(), Task::Finish(Ending::DegradedByScripts));
    assert!(flow.is_recorded());

    let mut flow = SessionFlow::new(false, false, true);
    until_provisioning(&mut flow, 1);
    flow.advance(Report::Worktree(Event::Added { ok: true }));
    flow.advance(Report::Persisted { ok: false });
    assert_eq!(flow.pending(), Task::Finish(Ending::RecordNotWritten));
    assert!(!flow.is_recorded());
}

#[test]
fn setup_is_left_out_when_not_wanted() {
    let mut flow = SessionFlow::new(false, true, false);
    until_provisioning(&mut flow, 1);
    assert_eq!(flow.pending(), Task::Worktree(Step::Probe { repo: 0 }));
    flow.advance(Report::Worktree(Event::Probed { found: Some(true) }));
    assert_eq!(flow.pending(), Task::Worktree(Step::CheckoutExisting { repo: 0 }));
    flow.advance(Report::Worktree(Event::Added { ok: true }));
    flow.advance(Report::Persisted { ok: true });
    flow.advance(Report::Arbitrated { ok: true });
    assert_eq!(flow.pending(), Task::Finish(Ending::Created));
}
