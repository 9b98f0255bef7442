use sesh::config::{RepoConfig, SeshConfig};
use sesh::discovery::{is_repository, repo_choice_label, GitMarker, RepoInfo};
use sesh::error::SeshError;
use sesh::orchestrate::{
    any_failed, apply_prefix, base_ref, default_selection, describe_problem, editor_target,
    judge_branch,
    judge_conflicts, new_session, select_repos, session_repos, stop_steps, worktrees_on_disk,
    BranchProblem, BranchVerdict, Conflict, Selection, StopStep,
};

fn repo(name: &str) -> RepoInfo {
    RepoInfo {
        name: name.to_string(),
        path: format!("/w/{}", name),
        current_branch: "main".to_string(),
        is_dirty: false,
    }
}

fn config() -> SeshConfig {
    let mut config = SeshConfig::default();
    config.presets.insert("backend", vec!["db".to_string(), "api".to_string(), "ghost".to_string()]);
    config.presets.insert("nothing", vec!["ghost".to_string()]);
    let mut docs = RepoConfig::default();
    docs.skip = true;
    config.repos.insert("docs", docs);
    let mut api = RepoConfig::default();
    api.base_branch = Some("develop".to_string());
    config.repos.insert("api", api);
    config
}

#[test]
fn selection_by_flag_preset_or_prompt() {
    let repos = vec![repo("api"), repo("db"), repo("docs"), repo("web")];
    let config = config();
    match select_repos(&repos, true, Some("backend"), &config, "/w") {
        Ok(Selection::Chosen(c)) => assert_eq!(c, vec![0, 1, 2, 3]),
        _ => panic!("expected all"),
    }
    match select_repos(&repos, false, Some("backend"), &config, "/w") {
        Ok(Selection::Chosen(c)) => assert_eq!(c, vec![0, 1]),
        _ => panic!("expected the preset"),
    }
    assert!(matches!(select_repos(&repos, false, None, &config, "/w"), Ok(Selection::Ask)));
    match select_repos(&repos, false, Some("frontend"), &config, "/w") {
        Err(SeshError::InvalidConfig(m)) => assert_eq!(m, "preset 'frontend' not found in sesh.toml"),
        _ => panic!("expected an unknown preset"),
    }
    assert!(matches!(
        select_repos(&repos, false, Some("nothing"), &config, "/w"),
        Err(SeshError::NoReposSelected)
    ));
    match select_repos(&vec![], true, None, &config, "/w") {
        Err(SeshError::NoReposFound(p)) => assert_eq!(p, "/w"),
        _ => panic!("expected no repositories"),
    }
    assert_eq!(default_selection(&repos, &config), vec![true, true, false, true]);
}

#[test]
fn base_branch_comes_from_flag_then_repository_then_session() {
    let config = config();
    assert_eq!(config.base_branch_for("api", Some("release")), "release");
    assert_eq!(config.base_branch_for("api", None), "develop");
    assert_eq!(config.base_branch_for("docs", None), "main");
    assert_eq!(config.base_branch_for("web", None), "main");
    assert_eq!(base_ref("develop"), "origin/develop");
    assert!(!config.is_exclusive("api"));
    assert!(config.is_skipped("docs"));
    assert!(!config.is_skipped("web"));
}

#[test]
fn repositories_are_recognised_and_labelled() {
    assert!(is_repository("api", GitMarker::Directory));
    assert!(!is_repository(".hidden", GitMarker::Directory));
    assert!(!is_repository("wt", GitMarker::File));
    assert!(!is_repository("plain", GitMarker::Absent));
    assert_eq!(repo_choice_label(&repo("api")), "api (main)");
    let mut r = repo("web");
    r.current_branch = String::new();
    r.is_dirty = true;
    assert_eq!(repo_choice_label(&r), "web (detached *)");
}

#[test]
fn session_record_lists_worktrees_under_the_session_directory() {
    let selected = vec![repo("api"), repo("web")];
    let entries = session_repos(&selected, "/w/.sesh/sessions/fix-login");
    assert_eq!(entries.len(), 2);
    assert_eq!(entries[0].name, "api");
    assert_eq!(entries[0].worktree_path, "/w/.sesh/sessions/fix-login/api");
    assert_eq!(entries[0].original_repo_path, "/w/api");
    assert_eq!(entries[1].worktree_path, "/w/.sesh/sessions/fix-login/web");
    let info = new_session("fix-login", "fix/login", entries, "/w", None, "main");
    assert_eq!(info.name, "fix-login");
    assert_eq!(info.branch, "fix/login");
    assert_eq!(info.repos.len(), 2);
    assert_eq!(info.parent_dir, "/w");
    assert_eq!(info.base_branch, Some("main".to_string()));
    assert!(info.issue.is_none());
    assert!(info.created_at.secs > 1_600_000_000);
    assert_eq!(worktrees_on_disk(&info, &vec!["/w/.sesh/sessions/fix-login/web".to_string()]), vec![1]);
    assert!(worktrees_on_disk(&info, &vec![]).is_empty());
}

#[test]
fn prefix_is_added_once() {
    let mut config = SeshConfig::default();
    assert_eq!(apply_prefix(&config, "fix"), "fix");
    config.session.branch_prefix = Some("me/".to_string());
    assert_eq!(apply_prefix(&config, "fix"), "me/fix");
    assert_eq!(apply_prefix(&config, "me/fix"), "me/fix");
    assert_eq!(apply_prefix(&config, "me"), "me/me");
}

#[test]
fn branch_names_are_judged() {
    let none: Vec<String> = vec![];
    let some = vec!["api".to_string(), "web".to_string()];
    assert!(matches!(judge_branch(false, true, None, &none), BranchVerdict::Accept));
    assert!(matches!(judge_branch(true, true, None, &none), BranchVerdict::Accept));
    assert!(matches!(
        judge_branch(true, false, Some("s"), &some),
        BranchVerdict::Retry(BranchProblem::Invalid)
    ));
    assert!(matches!(
        judge_branch(false, false, None, &none),
        BranchVerdict::Fail(BranchProblem::Invalid)
    ));
    match judge_branch(false, true, Some("s"), &some) {
        BranchVerdict::Fail(BranchProblem::UsedBySession { session }) => assert_eq!(session, "s"),
        _ => panic!("expected a session conflict"),
    }
    match judge_branch(true, true, None, &some) {
        BranchVerdict::Retry(BranchProblem::ExistsIn { repos }) => assert_eq!(repos, some),
        _ => panic!("expected existing branches"),
    }
}

#[test]
fn worktree_conflicts_are_judged() {
    assert!(matches!(judge_conflicts(vec![], Some("s")), Conflict::Clear));
    match judge_conflicts(vec!["api".to_string()], Some("s")) {
        Conflict::OwnedBy { session } => assert_eq!(session, "s"),
        _ => panic!("expected an owner"),
    }
    match judge_conflicts(vec!["api".to_string()], None) {
        Conflict::Unmanaged { repos } => assert_eq!(repos, vec!["api".to_string()]),
        _ => panic!("expected unmanaged worktrees"),
    }
}

#[test]
fn editor_opens_worktree_or_session() {
    assert_eq!(editor_target("/s", &vec![]), None);
    assert_eq!(editor_target("/s", &vec!["/s/api".to_string()]), Some("/s/api".to_string()));
    assert_eq!(
        editor_target("/s", &vec!["/s/api".to_string(), "/s/web".to_string()]),
        Some("/s".to_string())
    );
}

#[test]
fn one_failure_fails_the_fan_out() {
    assert!(!any_failed(&vec![]));
    assert!(!any_failed(&vec![true, true]));
    assert!(any_failed(&vec![true, false, true]));
}

#[test]
fn stopping_ends_with_the_session_directory() {
    assert_eq!(
        stop_steps(2, false),
        vec![
            StopStep::KillBackground,
            StopStep::RunTeardown,
            StopStep::RemoveWorktree { repo: 0 },
            StopStep::PruneWorktrees { repo: 0 },
            StopStep::RemoveWorktree { repo: 1 },
            StopStep::PruneWorktrees { repo: 1 },
            StopStep::DeleteBranch { repo: 0 },
            StopStep::DeleteBranch { repo: 1 },
            StopStep::ReleaseLocks,
            StopStep::DeleteSessionDir,
        ]
    );
    assert_eq!(
        stop_steps(1, true),
        vec![
            StopStep::KillBackground,
            StopStep::RunTeardown,
            StopStep::RemoveWorktree { repo: 0 },
            StopStep::PruneWorktrees { repo: 0 },
            StopStep::ReleaseLocks,
            StopStep::DeleteSessionDir,
        ]
    );
    assert_eq!(stop_steps(0, false).len(), 4);
}

#[test]
fn branch_problems_are_worded_for_the_operator() {
    assert_eq!(
        describe_problem(&BranchProblem::Invalid, "a b", "invalid branch name: a b"),
        "'a b' is not a valid git branch name: invalid branch name: a b"
    );
    assert_eq!(
        describe_problem(&BranchProblem::UsedBySession { session: "s".to_string() }, "fix", ""),
        "Session 's' already uses branch 'fix'."
    );
    assert_eq!(
        describe_problem(
            &BranchProblem::ExistsIn { repos: vec!["api".to_string(), "web".to_string()] },
            "fix",
            ""
        ),
        "Branch 'fix' already exists in: api, web."
    );
}
