use sesh::integrations::{
    branch_name_from_linear_issue, classify_branch_input, color_text, is_linear_id,
    issue_context_from_linear_summary, issue_order, parse_hex_color, parse_linear_url,
    parse_sentry_url, slugify, state_sort_key, truncate, BranchInput, LinearIssueSummary,
    LinearLabelSummary,
};

#[test]
fn test_parse_linear_url() {
    assert_eq!(
        parse_linear_url("https://linear.app/myteam/issue/ENG-123/fix-login"),
        Some("ENG-123".to_string())
    );
    assert_eq!(
        parse_linear_url("https://linear.app/myteam/issue/CORE-1/"),
        Some("CORE-1".to_string())
    );
    assert_eq!(parse_linear_url("https://example.com"), None);
    assert_eq!(parse_linear_url("not a url"), None);
}

#[test]
fn test_parse_sentry_url() {
    assert_eq!(
        parse_sentry_url("https://myorg.sentry.io/issues/12345/"),
        Some(("myorg".to_string(), "12345".to_string()))
    );
    assert_eq!(
        parse_sentry_url("https://myorg.sentry.io/issues/99/events"),
        Some(("myorg".to_string(), "99".to_string()))
    );
    assert_eq!(parse_sentry_url("https://sentry.io/issues/12345/"), None);
    assert_eq!(parse_sentry_url("https://myorg.sentry.io/settings/"), None);
}

#[test]
fn test_is_linear_id() {
    assert!(is_linear_id("ENG-123"));
    assert!(is_linear_id("A-1"));
    assert!(!is_linear_id("eng-123")); // lowercase
    assert!(!is_linear_id("123"));
    assert!(!is_linear_id("ENG"));
    assert!(!is_linear_id("feature/test"));
}

#[test]
fn test_slugify() {
    assert_eq!(slugify("Fix Login Bug"), "fix-login-bug");
    assert_eq!(slugify("  hello  world  "), "hello-world");
    assert_eq!(slugify("foo---bar"), "foo-bar");
    assert_eq!(slugify("NullPointer in Handler!"), "nullpointer-in-handler");
}

#[test]
fn test_truncate() {
    let short = "abc-def";
    assert_eq!(truncate(short, 60), "abc-def");

    let long = "eng-123-this-is-a-very-long-branch-name-that-exceeds-the-max-limit-significantly";
    let result = truncate(&long, 60);
    assert!(result.len() <= 60);
    // Should cut at a hyphen boundary
    assert!(!result.ends_with('-'));
}

#[test]
fn truncate_cuts_at_the_last_dash_within_the_limit() {
    assert_eq!(truncate("abcd-efgh-ijkl", 11), "abcd-efgh");
    assert_eq!(truncate("abcd-efgh-ijkl", 10), "abcd-efgh");
    assert_eq!(truncate("abcd-efgh-ijkl", 9), "abcd");
    assert_eq!(truncate("abcdefghij", 4), "abcd");
    assert_eq!(truncate("abcd", 4), "abcd");
    assert_eq!(truncate("-abcdef", 3), "");
}

#[test]
fn linear_id_needs_letters_dash_digits() {
    assert!(!is_linear_id("-1"));
    assert!(!is_linear_id("A-"));
    assert!(!is_linear_id("A-1-2"));
    assert!(!is_linear_id("A1-2"));
    assert!(!is_linear_id(""));
}

#[test]
fn linear_url_needs_issue_segment_and_id() {
    assert_eq!(parse_linear_url("https://linear.app/team/issues/ENG-1"), None);
    assert_eq!(parse_linear_url("https://linear.app/team/issue/eng-1"), None);
    assert_eq!(parse_linear_url("https://linear.app/team/issue"), None);
    assert_eq!(
        parse_linear_url("https://linear.app/team/issue/ENG-1"),
        Some("ENG-1".to_string())
    );
}

#[test]
fn sentry_url_needs_numeric_issue() {
    assert_eq!(parse_sentry_url("https://acme.sentry.io/issues/abc/"), None);
    assert_eq!(parse_sentry_url("https://acme.sentry.io/issues//"), None);
    assert_eq!(parse_sentry_url("http://acme.sentry.io/issues/1/"), None);
    assert_eq!(parse_sentry_url("https://acme.sentry.io"), None);
    assert_eq!(
        parse_sentry_url("https://acme.sentry.io/issues/7"),
        Some(("acme".to_string(), "7".to_string()))
    );
}

#[test]
fn slugify_lowercases_beyond_ascii() {
    // The Kelvin sign lowercases to an ASCII k.
    assert_eq!(slugify("\u{212A}elvin Scale"), "kelvin-scale");
    assert_eq!(slugify(""), "");
    assert_eq!(slugify("---"), "");
}

#[test]
fn input_is_trimmed_and_classified() {
    match classify_branch_input("  ENG-42 \n") {
        BranchInput::Linear { id } => assert_eq!(id, "ENG-42"),
        _ => panic!("expected a Linear id"),
    }
    match classify_branch_input("https://linear.app/t/issue/OPS-9/x") {
        BranchInput::Linear { id } => assert_eq!(id, "OPS-9"),
        _ => panic!("expected a Linear address"),
    }
    match classify_branch_input("https://acme.sentry.io/issues/31/") {
        BranchInput::Sentry { org, issue_id } => {
            assert_eq!(org, "acme");
            assert_eq!(issue_id, "31");
        }
        _ => panic!("expected a Sentry address"),
    }
    match classify_branch_input(" fix/login ") {
        BranchInput::Plain { branch } => assert_eq!(branch, "fix/login"),
        _ => panic!("expected a plain branch"),
    }
}

fn issue(identifier: &str, title: &str, state_type: &str) -> LinearIssueSummary {
    LinearIssueSummary {
        identifier: identifier.to_string(),
        title: title.to_string(),
        state_name: "In Progress".to_string(),
        state_type: state_type.to_string(),
        state_color: None,
        labels: vec![
            LinearLabelSummary { name: "bug".to_string(), color: Some("#ff0000".to_string()) },
            LinearLabelSummary { name: "api".to_string(), color: None },
        ],
    }
}

#[test]
fn branch_name_joins_lowercased_id_and_slug() {
    let i = issue("ENG-123", "Fix Login Bug", "started");
    assert_eq!(branch_name_from_linear_issue(&i), "eng-123-fix-login-bug");
    let long = issue(
        "ENG-123",
        "This is a very long branch name that exceeds the max limit significantly",
        "started",
    );
    assert_eq!(
        branch_name_from_linear_issue(&long),
        "eng-123-this-is-a-very-long-branch-name-that-exceeds-the"
    );
}

#[test]
fn issue_context_keeps_state_and_label_names() {
    let ctx = issue_context_from_linear_summary(&issue("ENG-1", "Title", "started"));
    assert_eq!(ctx.provider, "linear");
    assert_eq!(ctx.identifier, "ENG-1");
    assert_eq!(ctx.title, "Title");
    assert_eq!(ctx.state, Some("In Progress".to_string()));
    assert_eq!(ctx.labels, vec!["bug".to_string(), "api".to_string()]);
}

#[test]
fn issues_are_listed_by_state_then_arrival() {
    assert_eq!(state_sort_key("started"), 0);
    assert_eq!(state_sort_key("unstarted"), 1);
    assert_eq!(state_sort_key("backlog"), 2);
    assert_eq!(state_sort_key("done"), 3);
    let issues = vec![
        issue("A-1", "a", "backlog"),
        issue("A-2", "b", "started"),
        issue("A-3", "c", "unknown"),
        issue("A-4", "d", "started"),
        issue("A-5", "e", "unstarted"),
    ];
    assert_eq!(issue_order(&issues), vec![1, 3, 4, 0, 2]);
}

#[test]
fn hex_colors_are_read_and_rendered() {
    assert_eq!(parse_hex_color("#ff8800"), Some((255, 136, 0)));
    assert_eq!(parse_hex_color("FF8800"), Some((255, 136, 0)));
    assert_eq!(parse_hex_color("+f+f+0"), Some((15, 15, 0)));
    assert_eq!(parse_hex_color("#ff880"), None);
    assert_eq!(parse_hex_color("#gg8800"), None);
    assert_eq!(parse_hex_color("f+8800"), None);
    assert_eq!(color_text("hi", Some("#0a141e")), "\x1b[38;2;10;20;30mhi\x1b[0m");
    assert_eq!(color_text("hi", Some("nope")), "hi");
    assert_eq!(color_text("hi", None), "hi");
}
