use sesh::auth::{mask_token, provider_named, secret_path, AuthProvider};
use sesh::config::{
    starter_config, McpConfig, McpPreset, RepoConfig, ScriptsConfig, SeshConfig, SessionConfig,
};
use sesh::context::{
    bring_items, context_dir, context_document, repo_file_ops, session_file_ops,
    shared_context_links, Bring,
};
use sesh::error::SeshError;
use sesh::integrations::{
    linear_resolution, resolve_sentry_org, sentry_resolution, token_from_file,
};
use sesh::log::{log_entry, log_label, log_status, resolve_log, run, LogError, LogRequest, LogStatus};
use sesh::names::NameMap;
use sesh::order::{comes_before, sorted_unique, stable_order};
use sesh::session::{BackgroundPid, IssueContext, SessionRepo, Timestamp};
use sesh::text::{
    chars_of, contains, decimal_digits, ends_with, join, replace_char, same_text,
    signed_decimal_digits, split, starts_with, string_of, trim_text, white_space,
};

fn s(v: Vec<char>) -> String {
    v.into_iter().collect()
}

fn c(t: &str) -> Vec<char> {
    t.chars().collect()
}

#[test]
fn text_helpers() {
    assert_eq!(s(chars_of("héllo")), "héllo");
    assert_eq!(string_of(&c("héllo")), "héllo");
    assert_eq!(s(replace_char(&c("a/b/c"), '/', '-')), "a-b-c");
    assert!(same_text("abc", "abc"));
    assert!(!same_text("abc", "abd"));
    assert!(!same_text("abc", "ab"));
    assert!(starts_with(&c("abc"), &c("ab")));
    assert!(starts_with(&c("abc"), &c("")));
    assert!(!starts_with(&c("ab"), &c("abc")));
    assert!(ends_with(&c("abc"), &c("bc")));
    assert!(!ends_with(&c("abc"), &c("ab")));
    assert!(contains(&c("hello"), &c("ell")));
    assert!(contains(&c("hello"), &c("")));
    assert!(contains(&c("hello"), &c("hello")));
    assert!(!contains(&c("hello"), &c("elo")));
    assert!(!contains(&c("hi"), &c("hello")));
    let parts: Vec<String> = split(&c("a//b/"), '/').into_iter().map(s).collect();
    assert_eq!(parts, vec!["a", "", "b", ""]);
    let parts: Vec<String> = split(&c(""), '/').into_iter().map(s).collect();
    assert_eq!(parts, vec![""]);
    assert_eq!(join(&vec!["a".to_string(), "b".to_string(), "c".to_string()], ", "), "a, b, c");
    assert_eq!(join(&vec!["a".to_string()], ", "), "a");
    assert_eq!(join(&vec![], ", "), "");
    assert_eq!(join(&vec!["".to_string(), "".to_string()], ","), ",");
}

#[test]
fn numbers_are_written_in_decimal() {
    assert_eq!(s(decimal_digits(0)), "0");
    assert_eq!(s(decimal_digits(9)), "9");
    assert_eq!(s(decimal_digits(10)), "10");
    assert_eq!(s(decimal_digits(1234567890)), "1234567890");
    assert_eq!(s(decimal_digits(u128::MAX)), u128::MAX.to_string());
    assert_eq!(s(signed_decimal_digits(-1)), "-1");
    assert_eq!(s(signed_decimal_digits(0)), "0");
    assert_eq!(s(signed_decimal_digits(i64::MIN)), i64::MIN.to_string());
    assert_eq!(s(signed_decimal_digits(i64::MAX)), i64::MAX.to_string());
}

#[test]
fn name_map_behaves_like_a_map() {
    let mut m: NameMap<u32> = NameMap::new();
    assert_eq!(m.len(), 0);
    assert!(m.get("a").is_none());
    m.insert("a", 1);
    m.insert("b", 2);
    m.insert("a", 3);
    assert_eq!(m.len(), 2);
    assert_eq!(m.get("a"), Some(&3));
    assert_eq!(m.get("b"), Some(&2));
    assert!(m.contains_key("b"));
    assert_eq!(m.key_at(0), "a");
    assert_eq!(*m.value_at(1), 2);
    assert_eq!(m.remove("a"), Some(3));
    assert_eq!(m.remove("a"), None);
    assert_eq!(m.len(), 1);
    assert_eq!(m.key_at(0), "b");
}

#[test]
fn orders() {
    assert_eq!(stable_order(&vec![3, 1, 2, 1, 3, -5]), vec![5, 1, 3, 2, 0, 4]);
    assert!(stable_order(&vec![]).is_empty());
    assert!(comes_before(&c("a"), &c("b")));
    assert!(comes_before(&c(""), &c("a")));
    assert!(comes_before(&c("ab"), &c("abc")));
    assert!(!comes_before(&c("abc"), &c("ab")));
    assert!(!comes_before(&c("a"), &c("a")));
    assert!(comes_before(&c("Z"), &c("a")));
    let mut expected = vec!["b", "a", "é", "ab", "", "B", "a", "b"];
    let names: Vec<String> = expected.iter().map(|x| x.to_string()).collect();
    expected.sort();
    expected.dedup();
    assert_eq!(sorted_unique(&names), expected);
    let a = Timestamp { secs: 5, nanos: 1 };
    let b = Timestamp { secs: 5, nanos: 2 };
    assert!(b.is_later_than(&a));
    assert!(!a.is_later_than(&b));
    assert!(!a.is_later_than(&a));
    assert!(Timestamp { secs: 6, nanos: 0 }.is_later_than(&b));
}

#[test]
fn defaults() {
    let config = SeshConfig::default();
    assert_eq!(config.session.base_branch, "main");
    assert!(config.session.branch_prefix.is_none());
    assert!(config.scripts.setup.is_empty());
    assert!(config.mcp.servers.is_empty());
    assert_eq!(config.repos.len(), 0);
    assert_eq!(config.presets.len(), 0);
    assert!(config.sentry.is_none());
    assert_eq!(SessionConfig::default().base_branch, "main");
    assert!(ScriptsConfig::default().teardown.is_empty());
    assert!(McpConfig::default().servers.is_empty());
    let rc = RepoConfig::default();
    assert!(!rc.exclusive && !rc.skip && rc.base_branch.is_none());
}

#[test]
fn error_messages() {
    let cases: Vec<(SeshError, &str)> = vec![
        (SeshError::ConfigNotFound("/w/sesh.toml".into()), "sesh.toml not found at /w/sesh.toml"),
        (SeshError::InvalidConfig("bad".into()), "invalid config: bad"),
        (SeshError::NoReposFound("/w".into()), "no git repos found in /w"),
        (SeshError::SessionExists("s".into()), "session 's' already exists"),
        (SeshError::SessionNotFound("s".into()), "session 's' not found"),
        (
            SeshError::BranchExists { repo: "api".into(), branch: "fix".into() },
            "branch 'fix' already exists in repo 'api'",
        ),
        (
            SeshError::BaseBranchNotFound { repo: "api".into(), branch: "main".into() },
            "base branch 'main' not found in repo 'api'",
        ),
        (
            SeshError::GitError { repo: "api".into(), message: "boom".into() },
            "git command failed in api: boom",
        ),
        (
            SeshError::WorktreeError { repo: "api".into(), message: "boom".into() },
            "worktree creation failed for api: boom",
        ),
        (SeshError::PrerequisiteNotFound("gh".into()), "prerequisite not found: gh"),
        (SeshError::InvalidBranchName("a b".into()), "invalid branch name: a b"),
        (SeshError::ScriptError("x".into()), "script failed: x"),
        (SeshError::NoReposSelected, "no repos selected"),
    ];
    for (error, text) in cases {
        assert_eq!(error.message(), text);
    }
}

#[test]
fn tokens() {
    assert_eq!(AuthProvider::Linear.name(), "linear");
    assert_eq!(AuthProvider::Sentry.token_file(), "sentry_token");
    assert_eq!(provider_named("linear"), Some(AuthProvider::Linear));
    assert_eq!(provider_named("sentry"), Some(AuthProvider::Sentry));
    assert_eq!(provider_named("github"), None);
    assert_eq!(secret_path("/w", "linear_token"), "/w/.sesh/secrets/linear_token");
    assert_eq!(mask_token("lin_api_1234567890"), "lin_\u{2026}7890");
    assert_eq!(mask_token("12345678"), "****");
    assert_eq!(mask_token("123456789"), "1234\u{2026}6789");
    assert_eq!(token_from_file("  abc \n"), Some("abc".to_string()));
    assert_eq!(token_from_file(" \n\t"), None);
    assert_eq!(token_from_file(""), None);
}

#[test]
fn tickets_resolve_to_branches() {
    let r = linear_resolution(
        "ENG-7".to_string(),
        "Fix: Login!".to_string(),
        Some("Planned".to_string()),
        vec!["bug".to_string()],
    );
    assert_eq!(r.branch, "eng-7-fix-login");
    let issue = r.issue.unwrap();
    assert_eq!(issue.provider, "linear");
    assert_eq!(issue.identifier, "ENG-7");
    assert_eq!(issue.title, "Fix: Login!");
    assert_eq!(issue.state, Some("Planned".to_string()));
    assert_eq!(issue.labels, vec!["bug".to_string()]);
    let r = sentry_resolution("12345", "NullPointer in Handler".to_string());
    assert_eq!(r.branch, "sentry-12345-nullpointer-in-handler");
    let issue = r.issue.unwrap();
    assert_eq!(issue.provider, "sentry");
    assert_eq!(issue.identifier, "sentry-12345");
    assert!(issue.state.is_none() && issue.labels.is_empty());
    let mut config = SeshConfig::default();
    assert_eq!(resolve_sentry_org(&config, Some("acme")), "acme");
    assert_eq!(resolve_sentry_org(&config, None), "");
    config.sentry = Some(sesh::config::SentryConfig { org: "corp".to_string() });
    assert_eq!(resolve_sentry_org(&config, Some("acme")), "corp");
}

fn pid(n: u32, label: &str) -> BackgroundPid {
    BackgroundPid { pid: n, label: label.to_string(), script: "x".to_string() }
}

#[test]
fn log_requests_and_statuses() {
    assert!(matches!(run(false, Some("x"), false), Err(LogError::NoLogs)));
    assert!(matches!(run(true, None, true), Ok(LogRequest::List)));
    match run(true, Some("api"), true) {
        Ok(LogRequest::View { label, follow }) => {
            assert_eq!(label, "api");
            assert!(follow);
        }
        _ => panic!("expected a view"),
    }
    let pids = vec![pid(1, "a"), pid(2, "b"), pid(3, "a")];
    assert_eq!(log_entry(&pids, "a"), Some(0));
    assert_eq!(log_entry(&pids, "b"), Some(1));
    assert_eq!(log_entry(&pids, "c"), None);
    assert_eq!(log_status(true, true), LogStatus::Running);
    assert_eq!(log_status(true, false), LogStatus::Stopped);
    assert_eq!(log_status(false, true), LogStatus::Unknown);
    assert_eq!(log_label("api-setup-up.log"), Some("api-setup-up".to_string()));
    assert_eq!(log_label("notes.txt"), None);
    assert_eq!(log_label(".log"), None);
    assert_eq!(log_label("a.log.log"), Some("a.log".to_string()));
}

#[test]
fn log_labels_resolve_exactly_or_by_substring() {
    let names: Vec<String> =
        ["api-setup-up.log", "web-setup-up.log", "api.log", "readme.txt"].iter().map(|x| x.to_string()).collect();
    assert_eq!(resolve_log(&names, "api").ok(), Some("api.log".to_string()));
    assert_eq!(resolve_log(&names, "web").ok(), Some("web-setup-up.log".to_string()));
    assert!(matches!(resolve_log(&names, "readme"), Err(LogError::NoMatch)));
    assert!(matches!(resolve_log(&names, "zzz"), Err(LogError::NoMatch)));
    match resolve_log(&names, "setup") {
        Err(LogError::Ambiguous { matches }) => {
            assert_eq!(matches, vec!["api-setup-up.log".to_string(), "web-setup-up.log".to_string()])
        }
        _ => panic!("expected an ambiguity"),
    }
}

fn repo(name: &str) -> SessionRepo {
    SessionRepo {
        name: name.to_string(),
        worktree_path: format!("/s/{}", name),
        original_repo_path: format!("/w/{}", name),
    }
}

#[test]
fn context_document_text() {
    let repos = vec![repo("api"), repo("web")];
    assert_eq!(
        context_document("fix", None, None, &repos),
        "# Session: fix\n\n## Repositories\n\n- **api**: `/s/api`\n- **web**: `/s/web`\n"
    );
    let issue = IssueContext {
        provider: "linear".to_string(),
        identifier: "ENG-1".to_string(),
        title: "Fix it".to_string(),
        state: Some("Planned".to_string()),
        labels: vec!["bug".to_string(), "api".to_string()],
    };
    assert_eq!(
        context_document("fix", Some(&issue), Some("main"), &vec![]),
        "# Session: fix\n\n## Issue\n\n- **Provider**: linear\n- **Identifier**: ENG-1\n- **Title**: Fix it\n- **State**: Planned\n- **Labels**: bug, api\n\n## Branch Info\n\n- **Base branch**: main\n\n## Repositories\n\n"
    );
    let bare = IssueContext { provider: "sentry".to_string(), ..IssueContext::default() };
    assert_eq!(
        context_document("x", Some(&bare), None, &vec![]),
        "# Session: x\n\n## Issue\n\n- **Provider**: sentry\n- **Identifier**: \n- **Title**: \n\n## Repositories\n\n"
    );
    assert_eq!(context_dir("/s"), "/s/context");
}

#[test]
fn files_are_brought_from_repository_to_worktree() {
    let mut config = SeshConfig::default();
    let mut api = RepoConfig::default();
    api.copy = vec![".env".to_string()];
    api.symlink = vec!["node_modules".to_string(), "target".to_string()];
    config.repos.insert("api", api);
    config.session.copy = vec!["notes".to_string()];
    config.session.shared_context = vec!["GUIDE.md".to_string()];
    let ops = repo_file_ops(&config, &repo("api"));
    let shown: Vec<String> =
        ops.iter().map(|o| format!("{:?} {} {} {}", o.how, o.item, o.source, o.target)).collect();
    assert_eq!(
        shown,
        vec![
            "Copy .env /w/api/.env /s/api/.env",
            "Symlink node_modules /w/api/node_modules /s/api/node_modules",
            "Symlink target /w/api/target /s/api/target",
        ]
    );
    assert!(repo_file_ops(&config, &repo("web")).is_empty());
    let ops = session_file_ops(&config, "/w", "/s");
    assert_eq!(ops.len(), 1);
    assert_eq!(ops[0].source, "/w/notes");
    assert_eq!(ops[0].target, "/s/notes");
    assert_eq!(ops[0].how, Bring::Copy);
    let links = shared_context_links(&config, "/w", "/s");
    assert_eq!(links[0].source, "/w/GUIDE.md");
    assert_eq!(links[0].target, "/s/context/GUIDE.md");
    assert_eq!(links[0].how, Bring::Symlink);
    assert!(bring_items(Bring::Copy, &vec![], "/a", "/b").is_empty());
}

#[test]
fn starter_settings_file() {
    assert_eq!(
        starter_config("main", &vec![], &vec![]),
        "[session]\nbase_branch = \"main\"\nshared_context = []\n\n[scripts]\n# setup = \"./scripts/setup.sh\"\n# teardown = \"./scripts/teardown.sh\"\n\n"
    );
    let text = starter_config(
        "develop",
        &vec![McpPreset::Linear, McpPreset::Sentry],
        &vec!["api".to_string(), "web".to_string()],
    );
    assert_eq!(
        text,
        concat_all(&[
            "[session]\nbase_branch = \"develop\"\nshared_context = []\n\n",
            "[scripts]\n# setup = \"./scripts/setup.sh\"\n# teardown = \"./scripts/teardown.sh\"\n\n",
            "[[mcp.servers]]\nname = \"linear\"\ntype = \"http\"\nurl = \"https://mcp.linear.app/mcp\"\n\n",
            "[[mcp.servers]]\nname = \"sentry\"\ntype = \"http\"\nurl = \"https://mcp.sentry.dev/mcp\"\n\n",
            "[repos.api]\ncopy = []\nsymlink = []\n\n",
            "[repos.web]\ncopy = []\nsymlink = []\n\n",
        ])
    );
}

fn concat_all(parts: &[&str]) -> String {
    parts.iter().map(|p| p.to_string()).collect::<Vec<_>>().join("")
}

#[test]
fn white_space_is_what_std_calls_white_space() {
    for n in 0..=0x10FFFFu32 {
        if let Some(c) = char::from_u32(n) {
            assert_eq!(white_space(c), c.is_whitespace(), "U+{:04X}", n);
        }
    }
}

#[test]
fn trimming_agrees_with_std() {
    let samples = [
        "",
        " ",
        "abc",
        "  abc  ",
        "\t\n a b \r\n",
        "\u{00A0}x\u{3000}",
        "\u{2003}\u{2003}",
        "a\u{0085}",
        "\u{200B}a\u{200B}",
        " \u{FEFF} ",
        "x \u{1680} y",
    ];
    for s in samples {
        assert_eq!(trim_text(s), s.trim(), "{:?}", s);
    }
}
