use sesh::paths::{base_name, join_path, with_suffix};
use sesh::session::{sanitize_session_name, session_dir};

fn names(list: &[&str]) -> Vec<String> {
    list.iter().map(|s| s.to_string()).collect()
}

#[test]
fn free_name_is_the_flattened_branch() {
    assert_eq!(sanitize_session_name("fix-login", &names(&[])), "fix-login");
    assert_eq!(sanitize_session_name("feature/login/form", &names(&["other"])), "feature-login-form");
}

#[test]
fn leading_dots_are_stripped() {
    assert_eq!(sanitize_session_name("..", &names(&[])), "session");
    assert_eq!(sanitize_session_name("", &names(&[])), "session");
    assert_eq!(sanitize_session_name(".hidden", &names(&[])), "hidden");
    assert_eq!(sanitize_session_name("../../etc/passwd", &names(&[])), "-..-etc-passwd");
    assert_eq!(sanitize_session_name("...a.b", &names(&[])), "a.b");
}

#[test]
fn collisions_get_a_counter_from_two() {
    assert_eq!(sanitize_session_name("fix", &names(&["fix"])), "fix-2");
    assert_eq!(sanitize_session_name("fix", &names(&["fix", "fix-2"])), "fix-3");
    assert_eq!(sanitize_session_name("fix", &names(&["fix-2", "fix"])), "fix-3");
    assert_eq!(sanitize_session_name("fix", &names(&["fix", "fix-3"])), "fix-2");
    assert_eq!(sanitize_session_name("fix", &names(&["fix-2"])), "fix");
    assert_eq!(sanitize_session_name("", &names(&["session"])), "session-2");
}

#[test]
fn counter_goes_past_nine() {
    let mut existing = vec!["x".to_string()];
    for k in 2..=11 {
        existing.push(format!("x-{}", k));
    }
    assert_eq!(sanitize_session_name("x", &existing), "x-12");
}

#[test]
fn derived_name_is_never_taken_and_is_repeatable() {
    let branches = ["a", "a/b", ".a", "", "fix", "fix-2"];
    let existing = names(&["a", "a-2", "a-b", "session", "fix", "fix-2", "fix-2-2"]);
    for b in branches {
        let first = sanitize_session_name(b, &existing);
        let second = sanitize_session_name(b, &existing);
        assert_eq!(first, second);
        assert!(!existing.contains(&first));
    }
    assert_eq!(sanitize_session_name("fix-2", &existing), "fix-2-3");
}

#[test]
fn session_directory_lies_under_the_sessions_area() {
    assert_eq!(session_dir("/work", "fix-login"), "/work/.sesh/sessions/fix-login");
    assert_eq!(session_dir("/work/", "fix-login"), "/work/.sesh/sessions/fix-login");
    assert_eq!(session_dir("", "s"), ".sesh/sessions/s");
}

#[test]
fn paths_join_as_on_unix() {
    assert_eq!(join_path("/a", "b"), "/a/b");
    assert_eq!(join_path("/a/", "b"), "/a/b");
    assert_eq!(join_path("/a", "/b"), "/b");
    assert_eq!(join_path("", "b"), "b");
    assert_eq!(join_path("/a", ""), "/a/");
    assert_eq!(with_suffix("infra", ".lock"), "infra.lock");
}

#[test]
fn base_name_is_the_last_component() {
    assert_eq!(base_name("/work/api"), "api");
    assert_eq!(base_name("/work/api/"), "api");
    assert_eq!(base_name("api"), "api");
    assert_eq!(base_name("/"), "");
    assert_eq!(base_name(""), "");
    assert_eq!(base_name("/work/.."), "..");
}
