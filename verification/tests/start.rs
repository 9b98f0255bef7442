use sesh::arbitration::LockVerdict;
use sesh::config::{RepoConfig, ScriptEntry, SeshConfig};
use sesh::discovery::RepoInfo;
use sesh::lock::{acquire_lock_at, check_lock, list_locks, LockSlot, LockTable};
use sesh::session::{load_session, save_session, Registry, SessionInfo, Timestamp};
use sesh::start::{run, run_at, StartError};

fn repo(name: &str) -> RepoInfo {
    RepoInfo {
        name: name.to_string(),
        path: format!("/w/{}", name),
        current_branch: "main".to_string(),
        is_dirty: false,
    }
}

fn at(secs: i64) -> Timestamp {
    Timestamp { secs, nanos: 0 }
}

fn config() -> SeshConfig {
    let mut config = SeshConfig::default();
    config.scripts.setup = vec![ScriptEntry { path: "./up.sh".to_string(), background: false }];
    let mut infra = RepoConfig::default();
    infra.exclusive = true;
    infra.setup = vec![ScriptEntry { path: "./infra/up.sh".to_string(), background: true }];
    config.repos.insert("infra", infra);
    config
}

fn existing(name: &str) -> SessionInfo {
    SessionInfo {
        name: name.to_string(),
        branch: name.to_string(),
        repos: vec![],
        created_at: at(1),
        parent_dir: "/w".to_string(),
        issue: None,
        base_branch: None,
    }
}

#[test]
fn a_failed_worktree_leaves_nothing_behind() {
    let selected = vec![repo("api"), repo("web"), repo("infra"), repo("docs")];
    for k in 0..4 {
        let mut reg = Registry::new();
        save_session(&mut reg, "other", existing("other"));
        let mut table = LockTable::new();
        let mut made = vec![true; 4];
        made[k] = false;
        if k < 3 {
            // A later failure does not matter: the first one ends the run.
            made[3] = false;
        }
        let done = run_at(&mut reg, &mut table, &config(), "/w", &selected, "fix", None, "main", &made, true, at(5));
        match done {
            Err(StartError::WorktreeFailed { failed, repo, removed }) => {
                assert_eq!(failed, k);
                assert_eq!(repo, selected[k].name);
                let expected: Vec<String> = (0..k)
                    .rev()
                    .map(|i| format!("/w/.sesh/sessions/fix/{}", selected[i].name))
                    .collect();
                assert_eq!(removed, expected);
            }
            _ => panic!("expected a failed worktree"),
        }
        // No record, no lock.
        assert_eq!(reg.dir_names(), vec!["other".to_string()]);
        assert_eq!(table.slot_count(), 0);
    }
}

#[test]
fn nothing_selected_is_nothing_started() {
    let mut reg = Registry::new();
    let mut table = LockTable::new();
    let done = run_at(&mut reg, &mut table, &config(), "/w", &vec![], "fix", None, "main", &vec![], true, at(5));
    assert!(matches!(done, Err(StartError::NoSelection)));
    assert_eq!(reg.dir_count(), 0);
}

#[test]
fn a_started_session_is_recorded_locked_and_set_up() {
    let mut reg = Registry::new();
    save_session(&mut reg, "fix-login", existing("fix-login"));
    let mut table = LockTable::new();
    let selected = vec![repo("api"), repo("infra")];
    let started = run_at(
        &mut reg, &mut table, &config(), "/w", &selected, "fix/login", None, "develop", &vec![true, true], true, at(7),
    )
    .unwrap();
    assert_eq!(started.session_name, "fix-login-2");
    assert_eq!(
        started.worktrees,
        vec!["/w/.sesh/sessions/fix-login-2/api", "/w/.sesh/sessions/fix-login-2/infra"]
    );
    assert_eq!(started.repo_names, vec!["api", "infra"]);
    let record = load_session(&reg, "fix-login-2").unwrap();
    assert_eq!(record.name, "fix-login-2");
    assert_eq!(record.branch, "fix/login");
    assert_eq!(record.created_at, at(7));
    assert_eq!(record.parent_dir, "/w");
    assert_eq!(record.base_branch, Some("develop".to_string()));
    assert_eq!(record.repos.len(), 2);
    assert_eq!(record.repos[1].original_repo_path, "/w/infra");
    assert_eq!(started.verdicts.len(), 1);
    assert!(matches!(started.verdicts[0].verdict, LockVerdict::Acquired));
    assert!(started.lock_trouble.is_none());
    assert!(started.skipped.is_empty());
    let held = check_lock(&table, "infra").unwrap().unwrap();
    assert_eq!(held.session, "fix-login-2");
    assert_eq!(held.locked_at, at(7));
    let scripts: Vec<(&str, bool)> =
        started.setup.iter().map(|r| (r.entry.path.as_str(), r.background)).collect();
    assert_eq!(scripts, vec![("./up.sh", false), ("./infra/up.sh", true)]);
    assert_eq!(reg.dir_count(), 2);
}

#[test]
fn a_held_lock_is_skipped_and_setup_can_be_left_out() {
    let mut reg = Registry::new();
    save_session(&mut reg, "a", existing("a"));
    let mut table = LockTable::new();
    acquire_lock_at(&mut table, "infra", "a", at(1));
    let selected = vec![repo("infra")];
    let started =
        run_at(&mut reg, &mut table, &config(), "/w", &selected, "b", None, "main", &vec![true], true, at(2)).unwrap();
    assert_eq!(started.skipped, vec!["infra".to_string()]);
    assert_eq!(check_lock(&table, "infra").unwrap().unwrap().session, "a");
    let scripts: Vec<&str> = started.setup.iter().map(|r| r.entry.path.as_str()).collect();
    assert_eq!(scripts, vec!["./up.sh"]);
    assert_eq!(
        started.setup[0].env.last().map(|v| (v.name.as_str(), v.value.as_str())),
        Some(("SESH_EXCLUSIVE_SKIP", "infra"))
    );

    let started =
        run_at(&mut reg, &mut table, &config(), "/w", &selected, "c", None, "main", &vec![], false, at(3)).unwrap();
    assert!(started.setup.is_empty());
    assert_eq!(started.session_name, "c");
}

#[test]
fn an_unreadable_lock_degrades_the_session_without_undoing_it() {
    let mut reg = Registry::new();
    let mut table = LockTable::new();
    table.put_slot("infra", LockSlot::Unreadable);
    let selected = vec![repo("api"), repo("infra")];
    let started =
        run_at(&mut reg, &mut table, &config(), "/w", &selected, "x", None, "main", &vec![true, true], true, at(2)).unwrap();
    assert_eq!(started.lock_trouble, Some("infra".to_string()));
    assert!(started.setup.is_empty());
    assert!(load_session(&reg, "x").is_ok());
    assert!(list_locks(&table).is_empty());
}

#[test]
fn starting_with_the_clock() {
    let mut reg = Registry::new();
    let mut table = LockTable::new();
    let started = run(&mut reg, &mut table, &config(), "/w", &vec![repo("api")], "now", None, "main", &vec![true], false).unwrap();
    assert!(load_session(&reg, &started.session_name).unwrap().created_at.secs > 1_600_000_000);
}

#[test]
fn two_plain_repositories_on_one_branch() {
    let mut reg = Registry::new();
    let mut table = LockTable::new();
    let selected = vec![repo("api"), repo("web")];
    let started = run_at(
        &mut reg, &mut table, &SeshConfig::default(), "/w", &selected, "fix-login", None, "main", &vec![true, true], true, at(1),
    )
    .unwrap();
    assert_eq!(started.session_name, "fix-login");
    assert_eq!(
        started.worktrees,
        vec!["/w/.sesh/sessions/fix-login/api", "/w/.sesh/sessions/fix-login/web"]
    );
    let record = load_session(&reg, "fix-login").unwrap();
    let listed: Vec<(&str, &str)> =
        record.repos.iter().map(|r| (r.name.as_str(), r.original_repo_path.as_str())).collect();
    assert_eq!(listed, vec![("api", "/w/api"), ("web", "/w/web")]);
    assert_eq!(record.branch, "fix-login");
    assert_eq!(table.slot_count(), 0);
    assert!(started.verdicts.is_empty());
    assert!(started.setup.is_empty());
}
