use sesh::activate::{self, ActivateError};
use sesh::arbitration::{
    arbitrate_locks_at, release_session_locks, skipped_repos, Handover, LockVerdict,
};
use sesh::config::{RepoConfig, ScriptEntry, SeshConfig};
use sesh::discovery::RepoInfo;
use sesh::lock::{check_lock, list_locks, LockTable};
use sesh::orchestrate::{new_session, session_repos, stop_steps, StopStep};
use sesh::provision::{Event, Provisioner, Step};
use sesh::scripts::{plan_scripts, repo_names, Purpose};
use sesh::session::{
    delete_session_dir, load_background_pids, load_session, sanitize_session_name,
    save_background_pids, save_session, session_dir, session_exists, BackgroundPid, Registry,
    Timestamp,
};
use sesh::supervise::{KillEvent, KillStep, KillSupervisor};
use sesh::worktree::{create_worktree, remove_worktree};

fn repo(name: &str) -> RepoInfo {
    RepoInfo {
        name: name.to_string(),
        path: format!("/w/{}", name),
        current_branch: "main".to_string(),
        is_dirty: false,
    }
}

fn at(secs: i64) -> Timestamp {
    Timestamp { secs, nanos: 0 }
}

/// Creates a session for `branch` over `selected` in the given registry
/// and lock table; returns the session name, the worktree paths created
/// and the repositories skipped for a lock.
fn start(
    reg: &mut Registry,
    table: &mut LockTable,
    config: &SeshConfig,
    selected: &Vec<RepoInfo>,
    branch: &str,
    now: Timestamp,
) -> (String, Vec<String>, Vec<String>) {
    let name = sanitize_session_name(branch, &reg.dir_names());
    let dir = session_dir("/w", &name);
    let entries = session_repos(selected, &dir);
    let mut run = Provisioner::new(selected.len(), true, false);
    let mut worktrees = Vec::new();
    while !run.is_finished() {
        match run.pending() {
            Step::Fetch { .. } => run.advance(Event::Fetched { ok: true }),
            Step::Create { repo } => {
                let call = create_worktree(&selected[repo].path, &entries[repo].worktree_path, branch, "origin/main");
                worktrees.push(call.args[2].clone());
                run.advance(Event::Added { ok: true });
            }
            _ => unreachable!(),
        }
    }
    assert_eq!(run.pending(), Step::Persist);
    let names = repo_names(&entries);
    save_session(reg, &name, new_session(&name, branch, entries, "/w", None, "main"));
    let report = arbitrate_locks_at(table, reg, config, &names, &name, now).unwrap();
    (name, worktrees, skipped_repos(&report))
}

fn infra_config() -> SeshConfig {
    let mut config = SeshConfig::default();
    let mut infra = RepoConfig::default();
    infra.exclusive = true;
    infra.setup = vec![ScriptEntry { path: "./infra/up.sh".to_string(), background: true }];
    infra.teardown = vec![ScriptEntry { path: "./infra/down.sh".to_string(), background: false }];
    config.repos.insert("infra", infra);
    let mut api = RepoConfig::default();
    api.setup = vec![ScriptEntry { path: "./api/up.sh".to_string(), background: false }];
    config.repos.insert("api", api);
    config
}

#[test]
fn two_plain_repositories_make_a_session_without_locks() {
    let mut reg = Registry::new();
    let mut table = LockTable::new();
    let config = SeshConfig::default();
    let selected = vec![repo("api"), repo("web")];
    let (name, worktrees, skipped) = start(&mut reg, &mut table, &config, &selected, "fix-login", at(1));
    assert_eq!(name, "fix-login");
    assert_eq!(
        worktrees,
        vec!["/w/.sesh/sessions/fix-login/api", "/w/.sesh/sessions/fix-login/web"]
    );
    let record = load_session(&reg, "fix-login").unwrap();
    let listed: Vec<&str> = record.repos.iter().map(|r| r.name.as_str()).collect();
    assert_eq!(listed, vec!["api", "web"]);
    assert_eq!(record.branch, "fix-login");
    assert!(list_locks(&table).is_empty());
    assert_eq!(table.slot_count(), 0);
    assert!(skipped.is_empty());
}

#[test]
fn a_second_session_is_skipped_for_a_held_exclusive_repository() {
    let mut reg = Registry::new();
    let mut table = LockTable::new();
    let config = infra_config();
    let (a, _, skipped_a) = start(&mut reg, &mut table, &config, &vec![repo("infra")], "a", at(1));
    assert!(skipped_a.is_empty());
    assert_eq!(check_lock(&table, "infra").unwrap().unwrap().session, a);

    let selected = vec![repo("api"), repo("infra")];
    let (b, _, skipped_b) = start(&mut reg, &mut table, &config, &selected, "b", at(2));
    assert_eq!(skipped_b, vec!["infra".to_string()]);
    // The lock stays with A, at the time A took it.
    let held = check_lock(&table, "infra").unwrap().unwrap();
    assert_eq!(held.session, "a");
    assert_eq!(held.locked_at, at(1));
    // B's setup leaves infra's scripts out.
    let record = load_session(&reg, &b).unwrap();
    let plan = plan_scripts(&config, Purpose::Setup, "/w", &session_dir("/w", &b), &b, "b", &record.repos, &skipped_b, true);
    let paths: Vec<&str> = plan.iter().map(|r| r.entry.path.as_str()).collect();
    assert_eq!(paths, vec!["./api/up.sh"]);
}

#[test]
fn activation_hands_the_lock_over_and_owes_a_teardown() {
    let mut reg = Registry::new();
    let mut table = LockTable::new();
    let config = infra_config();
    start(&mut reg, &mut table, &config, &vec![repo("infra")], "a", at(1));
    start(&mut reg, &mut table, &config, &vec![repo("infra")], "b", at(2));
    save_background_pids(&mut reg, "a", vec![BackgroundPid { pid: 77, label: "infra-setup-infra-up".to_string(), script: "./infra/up.sh".to_string() }]).unwrap();

    let plan = activate::run_at(&reg, &mut table, &config, "/w", "b", at(3)).unwrap();
    assert_eq!(plan.exclusive, vec!["infra".to_string()]);
    assert!(matches!(&plan.handovers[0].handover, Handover::Transferred { from } if from == "a"));
    let owed: Vec<&str> = plan.teardowns.iter().map(|t| t.session.as_str()).collect();
    assert_eq!(owed, vec!["a"]);
    assert_eq!(plan.teardowns[0].pids.len(), 1);
    assert_eq!(plan.teardowns[0].pids[0].pid, 77);
    let scripts = plan.teardowns[0].scripts.as_ref().unwrap();
    assert_eq!(scripts.len(), 1);
    assert_eq!(scripts[0].entry.path, "./infra/down.sh");
    assert_eq!(plan.setup.len(), 1);
    assert_eq!(plan.setup[0].entry.path, "./infra/up.sh");
    assert!(!plan.setup[0].background);
    assert_eq!(check_lock(&table, "infra").unwrap().unwrap().session, "b");
    assert_eq!(check_lock(&table, "infra").unwrap().unwrap().locked_at, at(3));

    // Activating again changes nothing and owes nothing.
    let again = activate::run_at(&reg, &mut table, &config, "/w", "b", at(9)).unwrap();
    assert!(matches!(&again.handovers[0].handover, Handover::AlreadyHeld));
    assert!(again.teardowns.is_empty());
    assert_eq!(check_lock(&table, "infra").unwrap().unwrap().locked_at, at(3));
    assert!(matches!(
        activate::run_at(&reg, &mut table, &config, "/w", "nobody", at(9)),
        Err(ActivateError::NotFound)
    ));
    assert!(activate::run(&reg, &mut table, &config, "/w", "b").is_ok());

    // A's background processes are stopped and its teardown runs.
    let pids: Vec<u32> = load_background_pids(&reg, "a").iter().map(|p| p.pid).collect();
    let mut run = KillSupervisor::new(pids);
    assert_eq!(run.pending(), KillStep::Terminate { pid: 77 });
    run.advance(KillEvent::Signalled);
    run.advance(KillEvent::Probed { alive: false });
    run.advance(KillEvent::Probed { alive: false });
    assert!(run.is_done());
    let old = load_session(&reg, "a").unwrap();
    let teardown = plan_scripts(&config, Purpose::Teardown, "/w", &session_dir("/w", "a"), "a", &old.branch, &old.repos, &vec![], false);
    assert_eq!(teardown.len(), 1);
    assert_eq!(teardown[0].entry.path, "./infra/down.sh");
    // Then B is set up, infra included, in the foreground.
    let new = load_session(&reg, "b").unwrap();
    let setup = plan_scripts(&config, Purpose::Setup, "/w", &session_dir("/w", "b"), "b", &new.branch, &new.repos, &vec![], false);
    assert_eq!(setup.len(), 1);
    assert_eq!(setup[0].entry.path, "./infra/up.sh");
    assert!(!setup[0].background);
    // A's worktrees and record stay.
    assert!(session_exists(&reg, "a"));
}

#[test]
fn stop_takes_the_session_apart() {
    let mut reg = Registry::new();
    let mut table = LockTable::new();
    let config = infra_config();
    let selected = vec![repo("api"), repo("infra")];
    let (name, worktrees, _) = start(&mut reg, &mut table, &config, &selected, "fix", at(1));
    save_background_pids(
        &mut reg,
        &name,
        vec![
            BackgroundPid { pid: 41, label: "a".to_string(), script: "./a.sh".to_string() },
            BackgroundPid { pid: 42, label: "b".to_string(), script: "./b.sh".to_string() },
        ],
    )
    .unwrap();
    let record = load_session(&reg, &name).unwrap();
    let repos = record.repos.clone();
    let names = repo_names(&repos);
    let mut removed = Vec::new();
    let mut killed = Vec::new();
    for step in stop_steps(repos.len(), true) {
        match step {
            StopStep::KillBackground => {
                let pids: Vec<u32> = load_background_pids(&reg, &name).iter().map(|p| p.pid).collect();
                let mut run = KillSupervisor::new(pids);
                while !run.is_done() {
                    match run.pending() {
                        KillStep::Terminate { pid } => {
                            killed.push(pid);
                            run.advance(KillEvent::Signalled)
                        }
                        KillStep::Probe { .. } => run.advance(KillEvent::Probed { alive: false }),
                        _ => unreachable!(),
                    }
                }
            }
            StopStep::RemoveWorktree { repo } => {
                let call = remove_worktree(&repos[repo].original_repo_path, &repos[repo].worktree_path);
                removed.push(call.args[2].clone());
            }
            StopStep::ReleaseLocks => {
                assert_eq!(release_session_locks(&mut table, &config, &names, &name), vec![false, true]);
            }
            StopStep::DeleteSessionDir => {
                delete_session_dir(&mut reg, &name).unwrap();
            }
            _ => {}
        }
    }
    assert_eq!(killed, vec![41, 42]);
    assert_eq!(removed, worktrees);
    assert!(!session_exists(&reg, &name));
    assert!(load_background_pids(&reg, &name).is_empty());
    assert_eq!(reg.dir_count(), 0);
    assert!(check_lock(&table, "infra").unwrap().is_none());
}

#[test]
fn a_stale_lock_is_reclaimed_by_the_next_session() {
    let mut reg = Registry::new();
    let mut table = LockTable::new();
    let config = infra_config();
    start(&mut reg, &mut table, &config, &vec![repo("infra")], "a", at(1));
    // Session a disappears without giving its lock back.
    delete_session_dir(&mut reg, "a").unwrap();
    let name = sanitize_session_name("b", &reg.dir_names());
    let entries = session_repos(&vec![repo("infra")], &session_dir("/w", &name));
    let names = repo_names(&entries);
    save_session(&mut reg, &name, new_session(&name, "b", entries, "/w", None, "main"));
    let report = arbitrate_locks_at(&mut table, &reg, &config, &names, &name, at(5)).unwrap();
    assert!(matches!(&report[0].verdict, LockVerdict::Reclaimed { stale } if stale == "a"));
    assert_eq!(check_lock(&table, "infra").unwrap().unwrap().session, "b");
}

#[test]
fn stop_as_a_whole() {
    let mut reg = Registry::new();
    let mut table = LockTable::new();
    let config = infra_config();
    let selected = vec![repo("api"), repo("infra")];
    let (name, worktrees, _) = start(&mut reg, &mut table, &config, &selected, "fix", at(1));
    start(&mut reg, &mut table, &config, &vec![repo("api")], "other", at(2));
    save_background_pids(
        &mut reg,
        &name,
        vec![
            BackgroundPid { pid: 41, label: "a".to_string(), script: "./a.sh".to_string() },
            BackgroundPid { pid: 42, label: "b".to_string(), script: "./b.sh".to_string() },
        ],
    )
    .unwrap();

    assert!(sesh::stop::run(&mut reg, &mut table, &config, "/w", "nope", false).is_err());
    assert_eq!(reg.dir_count(), 2);

    let plan = sesh::stop::run(&mut reg, &mut table, &config, "/w", &name, false).unwrap();
    let pids: Vec<u32> = plan.pids.iter().map(|p| p.pid).collect();
    assert_eq!(pids, vec![41, 42]);
    let paths: Vec<&str> = plan.repos.iter().map(|r| r.worktree_path.as_str()).collect();
    assert_eq!(paths, worktrees.iter().map(|w| w.as_str()).collect::<Vec<_>>());
    assert_eq!(plan.branch, "fix");
    assert_eq!(plan.steps, stop_steps(2, false));
    assert_eq!(plan.steps.first(), Some(&StopStep::KillBackground));
    assert_eq!(plan.steps.last(), Some(&StopStep::DeleteSessionDir));
    let teardown: Vec<&str> = plan.teardown.iter().map(|r| r.entry.path.as_str()).collect();
    assert_eq!(teardown, vec!["./infra/down.sh"]);
    assert_eq!(plan.repo_names, vec!["api".to_string(), "infra".to_string()]);
    assert_eq!(plan.released, vec![false, true]);
    // Afterwards: no directory, no record, no pid list, no lock of this
    // session; the other session is untouched.
    assert!(!session_exists(&reg, &name));
    assert!(load_background_pids(&reg, &name).is_empty());
    assert!(check_lock(&table, "infra").unwrap().is_none());
    assert!(session_exists(&reg, "other"));
    assert_eq!(reg.dir_names(), vec!["other".to_string()]);
}
