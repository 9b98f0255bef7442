use sesh::session::{
    delete_session_dir, find_session_by_branch, list_row, list_sessions, load_background_pids,
    load_session, pick_session, save_background_pids, save_session, session_exists,
    session_row, BackgroundPid, Pick, PickError, Record, Registry, RegistryError, SessionDir,
    SessionInfo, SessionRepo, Timestamp,
};

fn session(name: &str, branch: &str, secs: i64, nanos: u32) -> SessionInfo {
    SessionInfo {
        name: name.to_string(),
        branch: branch.to_string(),
        repos: vec![SessionRepo {
            name: "api".to_string(),
            worktree_path: format!("/work/.sesh/sessions/{}/api", name),
            original_repo_path: "/work/api".to_string(),
        }],
        created_at: Timestamp { secs, nanos },
        parent_dir: "/work".to_string(),
        issue: None,
        base_branch: Some("main".to_string()),
    }
}

fn pid(pid: u32, label: &str) -> BackgroundPid {
    BackgroundPid { pid, label: label.to_string(), script: format!("./{}.sh", label) }
}

#[test]
fn saved_session_is_loaded_back() {
    let mut reg = Registry::new();
    assert!(!session_exists(&reg, "a"));
    assert_eq!(load_session(&reg, "a").err(), Some(RegistryError::NotFound));
    save_session(&mut reg, "a", session("a", "fix-a", 10, 0));
    assert!(session_exists(&reg, "a"));
    let loaded = load_session(&reg, "a").unwrap();
    assert_eq!(loaded.name, "a");
    assert_eq!(loaded.branch, "fix-a");
    assert_eq!(loaded.repos.len(), 1);
}

#[test]
fn saving_again_overwrites_the_record() {
    let mut reg = Registry::new();
    save_session(&mut reg, "a", session("a", "old", 10, 0));
    save_session(&mut reg, "a", session("a", "new", 11, 0));
    assert_eq!(reg.dir_count(), 1);
    assert_eq!(load_session(&reg, "a").unwrap().branch, "new");
}

#[test]
fn corrupt_and_missing_records_are_told_apart() {
    let mut reg = Registry::new();
    reg.put_dir("broken", SessionDir { record: Record::Corrupt, background: None });
    reg.put_dir("empty", SessionDir { record: Record::Missing, background: None });
    assert_eq!(load_session(&reg, "broken").err(), Some(RegistryError::Corrupt));
    assert_eq!(load_session(&reg, "empty").err(), Some(RegistryError::NotFound));
    assert!(session_exists(&reg, "broken"));
    assert!(!session_exists(&reg, "empty"));
    assert_eq!(reg.dir_names(), vec!["broken".to_string(), "empty".to_string()]);
}

#[test]
fn listing_is_newest_first_and_skips_unreadable() {
    let mut reg = Registry::new();
    save_session(&mut reg, "old", session("old", "b1", 100, 0));
    reg.put_dir("broken", SessionDir { record: Record::Corrupt, background: None });
    save_session(&mut reg, "new", session("new", "b2", 300, 5));
    save_session(&mut reg, "mid", session("mid", "b3", 300, 4));
    reg.put_dir("empty", SessionDir { record: Record::Missing, background: None });
    save_session(&mut reg, "neg", session("neg", "b4", -5, 0));
    let listing = list_sessions(&reg);
    let order: Vec<&str> = listing.iter().map(|s| s.name.as_str()).collect();
    assert_eq!(order, vec!["new", "mid", "old", "neg"]);
}

#[test]
fn sessions_of_one_instant_keep_directory_order() {
    let mut reg = Registry::new();
    save_session(&mut reg, "x", session("x", "b1", 7, 7));
    save_session(&mut reg, "y", session("y", "b2", 7, 7));
    save_session(&mut reg, "z", session("z", "b3", 7, 7));
    let listing = list_sessions(&reg);
    let order: Vec<&str> = listing.iter().map(|s| s.name.as_str()).collect();
    assert_eq!(order, vec!["x", "y", "z"]);
}

#[test]
fn branch_in_use_is_found() {
    let mut reg = Registry::new();
    save_session(&mut reg, "a", session("a", "fix-login", 1, 0));
    save_session(&mut reg, "b", session("b", "other", 2, 0));
    assert_eq!(find_session_by_branch(&reg, "fix-login").map(|s| s.name.clone()), Some("a".to_string()));
    assert!(find_session_by_branch(&reg, "nope").is_none());
    save_session(&mut reg, "c", session("c", "fix-login", 3, 0));
    assert_eq!(find_session_by_branch(&reg, "fix-login").map(|s| s.name.clone()), Some("c".to_string()));
}

#[test]
fn deleting_removes_the_directory() {
    let mut reg = Registry::new();
    save_session(&mut reg, "a", session("a", "x", 1, 0));
    assert_eq!(delete_session_dir(&mut reg, "a"), Ok(()));
    assert!(!session_exists(&reg, "a"));
    assert_eq!(reg.dir_count(), 0);
    assert_eq!(delete_session_dir(&mut reg, "a"), Err(RegistryError::NotFound));
}

#[test]
fn background_pids_are_kept_per_session() {
    let mut reg = Registry::new();
    assert!(load_background_pids(&reg, "a").is_empty());
    assert_eq!(
        save_background_pids(&mut reg, "a", vec![pid(1, "x")]),
        Err(RegistryError::NotFound)
    );
    save_session(&mut reg, "a", session("a", "x", 1, 0));
    assert!(load_background_pids(&reg, "a").is_empty());
    assert_eq!(save_background_pids(&mut reg, "a", vec![pid(41, "api"), pid(42, "web")]), Ok(()));
    let pids = load_background_pids(&reg, "a");
    assert_eq!(pids.len(), 2);
    assert_eq!(pids[0].pid, 41);
    assert_eq!(pids[1].label, "web");
    assert_eq!(pids[1].script, "./web.sh");
    // Saving the record again leaves the list alone.
    save_session(&mut reg, "a", session("a", "y", 2, 0));
    assert_eq!(load_background_pids(&reg, "a").len(), 2);
    assert_eq!(load_session(&reg, "a").unwrap().branch, "y");
}

#[test]
fn picking_a_session() {
    let a = session("a", "x", 1, 0);
    let b = session("b", "y", 2, 0);
    let none: Vec<&SessionInfo> = vec![];
    assert_eq!(pick_session(&none, Some("a")), Err(PickError::NoSessions));
    assert_eq!(pick_session(&none, None), Err(PickError::NoSessions));
    let listing = vec![&a, &b];
    assert_eq!(pick_session(&listing, None), Ok(Pick::Ask));
    assert_eq!(pick_session(&listing, Some("b")), Ok(Pick::At(1)));
    assert_eq!(pick_session(&listing, Some("c")), Err(PickError::NotFound));
}

#[test]
fn rows_of_the_session_list() {
    assert_eq!(
        session_row("fix-login", "fix/login", 2, "2015-05-15 00:00"),
        format!("{:<20} {:<25} {:<6} {}", "fix-login", "fix/login", 2, "2015-05-15 00:00")
    );
    assert_eq!(
        session_row("a-very-long-session-name-indeed", "b", 123456789, ""),
        "a-very-long-session-name-indeed b                         123456789 "
    );
    assert_eq!(session_row("é", "", 0, "x"), format!("{:<20} {:<25} {:<6} {}", "é", "", 0, "x"));
    let s = session("one", "fix", 1431648000, 0);
    assert_eq!(list_row(&s), format!("{:<20} {:<25} {:<6} {}", "one", "fix", 1, "2015-05-15 00:00"));
    let epoch = session("one", "fix", 59, 999_999_999);
    assert!(list_row(&epoch).ends_with(" 1970-01-01 00:00"));
    let later = session("one", "fix", 86_400 + 3_661, 0);
    assert!(list_row(&later).ends_with(" 1970-01-02 01:01"));
    let never = session("one", "fix", i64::MAX, 0);
    assert!(list_row(&never).ends_with("1      "));
}
