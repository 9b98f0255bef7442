use sesh::arbitration::{
    arbitrate_lock_at, arbitrate_locks_at, exclusive_repos, locks_won, release_session_locks,
    sessions_to_tear_down, skipped_repos, transfer_lock_at, transfer_locks_at, Handover,
    LockHandover, LockVerdict,
};
use sesh::config::{RepoConfig, SeshConfig};
use sesh::lock::{
    acquire_lock, acquire_lock_at, check_lock, list_locks, lock_path, locks_dir, release_lock,
    LockSlot, LockTable, UnreadableLock,
};
use sesh::session::{save_session, Registry, SessionInfo, Timestamp};

fn at(secs: i64) -> Timestamp {
    Timestamp { secs, nanos: 0 }
}

fn session(name: &str) -> SessionInfo {
    SessionInfo {
        name: name.to_string(),
        branch: format!("branch-{}", name),
        repos: vec![],
        created_at: at(1),
        parent_dir: "/work".to_string(),
        issue: None,
        base_branch: None,
    }
}

fn config_with_exclusive(names: &[&str]) -> SeshConfig {
    let mut config = SeshConfig::default();
    for n in names {
        let mut rc = RepoConfig::default();
        rc.exclusive = true;
        config.repos.insert(n, rc);
    }
    config
}

fn holder(table: &LockTable, repo: &str) -> Option<String> {
    check_lock(table, repo).unwrap().map(|i| i.session.clone())
}

#[test]
fn lock_files_live_under_the_locks_directory() {
    assert_eq!(locks_dir("/work"), "/work/.sesh/locks");
    assert_eq!(lock_path("/work", "infra"), "/work/.sesh/locks/infra.lock");
}

#[test]
fn acquired_lock_is_held_until_released_or_overwritten() {
    let mut table = LockTable::new();
    assert_eq!(holder(&table, "infra"), None);
    acquire_lock_at(&mut table, "infra", "A", at(5));
    let info = check_lock(&table, "infra").unwrap().unwrap();
    assert_eq!(info.session, "A");
    assert_eq!(info.locked_at, at(5));
    // Other repositories' locks come and go; infra stays with A.
    acquire_lock_at(&mut table, "db", "B", at(6));
    release_lock(&mut table, "db");
    acquire_lock_at(&mut table, "cache", "C", at(7));
    assert_eq!(holder(&table, "infra"), Some("A".to_string()));
    // Another acquire overwrites.
    acquire_lock_at(&mut table, "infra", "B", at(8));
    assert_eq!(holder(&table, "infra"), Some("B".to_string()));
    // Release, then check: none. Releasing again changes nothing.
    release_lock(&mut table, "infra");
    assert_eq!(holder(&table, "infra"), None);
    release_lock(&mut table, "infra");
    assert_eq!(holder(&table, "infra"), None);
    assert_eq!(holder(&table, "cache"), Some("C".to_string()));
}

#[test]
fn acquire_with_the_clock_records_the_session() {
    let mut table = LockTable::new();
    acquire_lock(&mut table, "infra", "A");
    let info = check_lock(&table, "infra").unwrap().unwrap();
    assert_eq!(info.session, "A");
    assert!(info.locked_at.secs > 1_600_000_000);
}

#[test]
fn unreadable_lock_is_an_error_to_check_and_absent_from_lists() {
    let mut table = LockTable::new();
    table.put_slot("bad", LockSlot::Unreadable);
    acquire_lock_at(&mut table, "good", "A", at(1));
    assert_eq!(check_lock(&table, "bad").err(), Some(UnreadableLock));
    let listed: Vec<(String, String)> =
        list_locks(&table).iter().map(|(r, i)| ((*r).clone(), i.session.clone())).collect();
    assert_eq!(listed, vec![("good".to_string(), "A".to_string())]);
    // An acquire writes over an unreadable file.
    acquire_lock_at(&mut table, "bad", "B", at(2));
    assert_eq!(holder(&table, "bad"), Some("B".to_string()));
    assert_eq!(list_locks(&table).len(), 2);
}

#[test]
fn new_session_takes_free_reclaims_stale_and_skips_live() {
    let mut reg = Registry::new();
    save_session(&mut reg, "A", session("A"));
    let mut table = LockTable::new();
    acquire_lock_at(&mut table, "infra", "A", at(1));
    acquire_lock_at(&mut table, "db", "gone", at(1));

    match arbitrate_lock_at(&mut table, &reg, "infra", "B", at(9)).unwrap() {
        LockVerdict::Skipped { holder } => assert_eq!(holder, "A"),
        _ => panic!("expected a skip"),
    }
    assert_eq!(holder(&table, "infra"), Some("A".to_string()));

    match arbitrate_lock_at(&mut table, &reg, "db", "B", at(9)).unwrap() {
        LockVerdict::Reclaimed { stale } => assert_eq!(stale, "gone"),
        _ => panic!("expected a reclaim"),
    }
    assert_eq!(holder(&table, "db"), Some("B".to_string()));

    match arbitrate_lock_at(&mut table, &reg, "cache", "B", at(9)).unwrap() {
        LockVerdict::Acquired => {}
        _ => panic!("expected an acquisition"),
    }
    assert_eq!(check_lock(&table, "cache").unwrap().unwrap().locked_at, at(9));
}

#[test]
fn only_exclusive_repositories_touch_locks() {
    let reg = Registry::new();
    let config = config_with_exclusive(&["infra"]);
    let mut table = LockTable::new();
    let repos = vec!["api".to_string(), "infra".to_string(), "web".to_string()];
    assert_eq!(exclusive_repos(&config, &repos), vec!["infra".to_string()]);
    let report = arbitrate_locks_at(&mut table, &reg, &config, &repos, "S", at(3)).unwrap();
    assert_eq!(report.len(), 1);
    assert_eq!(report[0].repo, "infra");
    assert!(matches!(report[0].verdict, LockVerdict::Acquired));
    assert!(skipped_repos(&report).is_empty());
    assert_eq!(locks_won(&report), vec!["infra".to_string()]);
    assert_eq!(list_locks(&table).len(), 1);
    assert_eq!(holder(&table, "api"), None);
}

#[test]
fn unreadable_lock_stops_arbitration_keeping_earlier_decisions() {
    let reg = Registry::new();
    let config = config_with_exclusive(&["a", "b", "c"]);
    let mut table = LockTable::new();
    table.put_slot("b", LockSlot::Unreadable);
    let repos = vec!["a".to_string(), "b".to_string(), "c".to_string()];
    let stop = arbitrate_locks_at(&mut table, &reg, &config, &repos, "S", at(3)).unwrap_err();
    assert_eq!(stop.unreadable, "b");
    assert_eq!(stop.decided.len(), 1);
    assert_eq!(locks_won(&stop.decided), vec!["a".to_string()]);
    assert_eq!(holder(&table, "a"), Some("S".to_string()));
    assert_eq!(holder(&table, "c"), None);
}

#[test]
fn activation_takes_locks_over() {
    let mut reg = Registry::new();
    save_session(&mut reg, "A", session("A"));
    save_session(&mut reg, "B", session("B"));
    let mut table = LockTable::new();
    acquire_lock_at(&mut table, "infra", "A", at(1));
    acquire_lock_at(&mut table, "db", "B", at(2));
    acquire_lock_at(&mut table, "cache", "gone", at(2));

    let repos: Vec<String> = ["infra", "db", "cache", "queue"].iter().map(|r| r.to_string()).collect();
    let handovers = transfer_locks_at(&mut table, &reg, &repos, "B", at(10)).unwrap();
    assert_eq!(handovers.iter().map(|h| h.repo.as_str()).collect::<Vec<_>>(), vec!["infra", "db", "cache", "queue"]);
    assert!(matches!(&handovers[0].handover, Handover::Transferred { from } if from == "A"));
    assert!(matches!(&handovers[1].handover, Handover::AlreadyHeld));
    assert!(matches!(&handovers[2].handover, Handover::Reclaimed { stale } if stale == "gone"));
    assert!(matches!(&handovers[3].handover, Handover::Acquired));
    for repo in ["infra", "db", "cache", "queue"] {
        assert_eq!(holder(&table, repo), Some("B".to_string()));
    }
    // A lock that was already held keeps its time.
    assert_eq!(check_lock(&table, "db").unwrap().unwrap().locked_at, at(2));
    assert_eq!(check_lock(&table, "infra").unwrap().unwrap().locked_at, at(10));
    assert_eq!(sessions_to_tear_down(&handovers), vec!["A".to_string()]);
}

#[test]
fn teardown_sessions_are_sorted_and_unique() {
    let handovers: Vec<LockHandover> = vec![
        Handover::Transferred { from: "zeta".to_string() },
        Handover::Acquired,
        Handover::Transferred { from: "alpha".to_string() },
        Handover::Transferred { from: "zeta".to_string() },
        Handover::Reclaimed { stale: "beta".to_string() },
        Handover::Transferred { from: "alpha-2".to_string() },
    ]
    .into_iter()
    .map(|handover| LockHandover { repo: "r".to_string(), handover })
    .collect();
    assert_eq!(
        sessions_to_tear_down(&handovers),
        vec!["alpha".to_string(), "alpha-2".to_string(), "zeta".to_string()]
    );
}

#[test]
fn stop_releases_only_what_the_session_holds() {
    let config = config_with_exclusive(&["infra", "db", "bad"]);
    let mut table = LockTable::new();
    acquire_lock_at(&mut table, "infra", "A", at(1));
    acquire_lock_at(&mut table, "db", "B", at(1));
    acquire_lock_at(&mut table, "api", "A", at(1));
    table.put_slot("bad", LockSlot::Unreadable);
    let repos: Vec<String> =
        ["infra", "db", "api", "bad", "free"].iter().map(|s| s.to_string()).collect();
    let flags = release_session_locks(&mut table, &config, &repos, "A");
    assert_eq!(flags, vec![true, false, false, false, false]);
    assert_eq!(holder(&table, "infra"), None);
    assert_eq!(holder(&table, "db"), Some("B".to_string()));
    // api is not exclusive: its lock file is not this tool's business.
    assert_eq!(holder(&table, "api"), Some("A".to_string()));
    assert!(check_lock(&table, "bad").is_err());
}

#[test]
fn an_unreadable_lock_stops_the_handover_keeping_earlier_ones() {
    let reg = Registry::new();
    let mut table = LockTable::new();
    table.put_slot("b", LockSlot::Unreadable);
    let repos: Vec<String> = ["a", "b", "c"].iter().map(|r| r.to_string()).collect();
    let stop = transfer_locks_at(&mut table, &reg, &repos, "S", at(3)).unwrap_err();
    assert_eq!(stop.unreadable, "b");
    assert_eq!(stop.made.len(), 1);
    assert_eq!(holder(&table, "a"), Some("S".to_string()));
    assert_eq!(holder(&table, "c"), None);
    // A single handover still works on its own.
    assert!(matches!(transfer_lock_at(&mut table, &reg, "c", "S", at(4)), Ok(Handover::Acquired)));
}
