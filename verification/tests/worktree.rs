use sesh::error::SeshError;
use sesh::worktree::{
    branch_exists, checkout_existing_branch, create_worktree, create_worktree_failure,
    delete_branch, fetch_branch, get_worktree_list, git_result, is_branch_on_worktree, lines,
    list_all_branches, parse_branch_list, parse_worktree_list, prune_worktrees, remote_branch_exists, remove_worktree,
    validate_branch_name, validate_branch_name_result, GitCall,
};

fn shown(call: &GitCall) -> String {
    let mut words = vec!["git".to_string()];
    if let Some(repo) = &call.repo_path {
        words.push("-C".to_string());
        words.push(repo.clone());
    }
    words.extend(call.args.iter().cloned());
    words.join(" ")
}

#[test]
fn git_invocations() {
    assert_eq!(
        shown(&create_worktree("/w/api", "/w/.sesh/sessions/s/api", "fix", "origin/main")),
        "git -C /w/api worktree add /w/.sesh/sessions/s/api -b fix origin/main"
    );
    assert_eq!(
        shown(&checkout_existing_branch("/w/api", "/wt", "fix")),
        "git -C /w/api worktree add /wt fix"
    );
    assert_eq!(shown(&remove_worktree("/w/api", "/wt")), "git -C /w/api worktree remove /wt --force");
    assert_eq!(shown(&prune_worktrees("/w/api")), "git -C /w/api worktree prune");
    assert_eq!(shown(&fetch_branch("/w/api", "origin", "main")), "git -C /w/api fetch origin main");
    assert_eq!(shown(&delete_branch("/w/api", "fix")), "git -C /w/api branch -D fix");
    assert_eq!(shown(&get_worktree_list("/w/api")), "git -C /w/api worktree list --porcelain");
    assert_eq!(
        shown(&branch_exists("/w/api", "fix/x")),
        "git -C /w/api rev-parse --verify refs/heads/fix/x"
    );
    assert_eq!(
        shown(&remote_branch_exists("/w/api", "fix")),
        "git -C /w/api rev-parse --verify refs/remotes/origin/fix"
    );
    assert_eq!(shown(&validate_branch_name("a b")), "git check-ref-format --branch a b");
}

#[test]
fn branch_name_validation_result() {
    assert!(validate_branch_name_result("ok", true).is_ok());
    match validate_branch_name_result("a b", false) {
        Err(SeshError::InvalidBranchName(n)) => assert_eq!(n, "a b"),
        _ => panic!("expected an invalid branch name"),
    }
}

#[test]
fn git_outcome_is_output_or_message() {
    let call = fetch_branch("/w/api", "origin", "main");
    assert_eq!(git_result(&call, true, Some(0), "out\n".to_string(), "ignored"), Ok("out\n".to_string()));
    assert_eq!(
        git_result(&call, false, Some(128), String::new(), "  fatal: no remote\n"),
        Err("git fetch origin main failed (exit code 128): fatal: no remote".to_string())
    );
    assert_eq!(
        git_result(&call, false, None, String::new(), ""),
        Err("git fetch origin main failed (exit code -1): ".to_string())
    );
}

#[test]
fn worktree_failure_names_the_repository() {
    match create_worktree_failure("/work/api", "boom") {
        SeshError::WorktreeError { repo, message } => {
            assert_eq!(repo, "api");
            assert_eq!(message, "boom");
        }
        _ => panic!("expected a worktree error"),
    }
    match create_worktree_failure("/", "boom") {
        SeshError::WorktreeError { repo, .. } => assert_eq!(repo, "/"),
        _ => panic!("expected a worktree error"),
    }
    match create_worktree_failure("/work/..", "boom") {
        SeshError::WorktreeError { repo, .. } => assert_eq!(repo, "/work/.."),
        _ => panic!("expected a worktree error"),
    }
}

fn as_strings(rows: Vec<Vec<char>>) -> Vec<String> {
    rows.into_iter().map(|r| r.into_iter().collect()).collect()
}

#[test]
fn lines_split_like_std() {
    for text in ["", "a", "a\n", "a\nb", "a\r\nb\r\n", "a\r", "\n", "\n\n", "a\n\nb", "\r\n", "a\rb\n", "x\r\r\n"] {
        let expected: Vec<String> = text.lines().map(|s| s.to_string()).collect();
        assert_eq!(as_strings(lines(text)), expected, "text {:?}", text);
    }
}

const PORCELAIN: &str = "worktree /work/api\nHEAD 1111\nbranch refs/heads/main\n\nworktree /work/.sesh/sessions/fix/api\nHEAD 2222\nbranch refs/heads/fix-login\n\nworktree /tmp/detached\nHEAD 3333\ndetached\n";

#[test]
fn worktree_list_is_parsed() {
    assert_eq!(
        parse_worktree_list(PORCELAIN),
        vec!["/work/api", "/work/.sesh/sessions/fix/api", "/tmp/detached"]
    );
    assert!(parse_worktree_list("").is_empty());
    assert_eq!(parse_worktree_list("worktree \nworktree"), vec![""]);
}

#[test]
fn branch_on_a_worktree_is_seen() {
    assert!(is_branch_on_worktree(PORCELAIN, "fix-login"));
    assert!(is_branch_on_worktree(PORCELAIN, "main"));
    assert!(!is_branch_on_worktree(PORCELAIN, "fix"));
    assert!(!is_branch_on_worktree(PORCELAIN, "fix-login-2"));
}

#[test]
fn branch_list_is_read() {
    assert_eq!(
        shown(&list_all_branches("/w/api")),
        "git -C /w/api branch -a --format=%(refname:short)"
    );
    assert_eq!(
        parse_branch_list("main\nfix/login\norigin/HEAD\norigin\norigin/main\norigin/feature/x\n\nupstream/y\n"),
        vec!["main", "fix/login", "main", "feature/x", "upstream/y"]
    );
    assert!(parse_branch_list("").is_empty());
    assert_eq!(parse_branch_list("origin/"), vec![""]);
}
