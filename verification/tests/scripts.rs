use sesh::config::{RepoConfig, ScriptEntry, SeshConfig};
use sesh::error::SeshError;
use sesh::scripts::{
    log_dir, log_file, next_setup_step, plan_scripts, repo_names, sanitize_label, script_env,
    script_label, script_missing, script_result, started_background, EnvVar, Purpose, ScriptExit,
    ScriptOutcome, ScriptRun, SetupStep,
};
use sesh::session::SessionRepo;

fn entry(path: &str, background: bool) -> ScriptEntry {
    ScriptEntry { path: path.to_string(), background }
}

fn repo(name: &str) -> SessionRepo {
    SessionRepo {
        name: name.to_string(),
        worktree_path: format!("/w/.sesh/sessions/s/{}", name),
        original_repo_path: format!("/w/{}", name),
    }
}

fn env(vars: &[EnvVar]) -> Vec<(String, String)> {
    vars.iter().map(|v| (v.name.clone(), v.value.clone())).collect()
}

fn pair(a: &str, b: &str) -> (String, String) {
    (a.to_string(), b.to_string())
}

#[test]
fn labels_are_safe_file_names() {
    assert_eq!(sanitize_label("./scripts/start-services.sh"), "scripts-start-services");
    assert_eq!(sanitize_label("scripts\\run.sh"), "scripts-run");
    assert_eq!(sanitize_label("../../x.sh.sh"), "x");
    assert_eq!(sanitize_label("--.-a.sh.b"), "a.sh.b");
    assert_eq!(sanitize_label(".sh"), "sh");
    assert_eq!(sanitize_label("a.sh"), "a");
    assert_eq!(sanitize_label(""), "");
    assert_eq!(script_label(None, "./dev/up.sh"), "global-setup-dev-up");
    assert_eq!(script_label(Some("api"), "./dev/up.sh"), "api-setup-dev-up");
}

#[test]
fn logs_live_in_the_session_directory() {
    assert_eq!(log_dir("/w/.sesh/sessions/s"), "/w/.sesh/sessions/s/logs");
    assert_eq!(log_file("/w/.sesh/sessions/s/logs", "api-setup-up"), "/w/.sesh/sessions/s/logs/api-setup-up.log");
}

#[test]
fn environment_names_session_branch_and_repositories() {
    let names = vec!["api".to_string(), "web".to_string()];
    assert_eq!(
        env(&script_env("s", "fix", &names, None)),
        vec![pair("SESH_SESSION", "s"), pair("SESH_BRANCH", "fix"), pair("SESH_REPOS", "api,web")]
    );
    assert_eq!(
        env(&script_env("s", "fix", &vec![], Some(("SESH_REPO", "api")))),
        vec![
            pair("SESH_SESSION", "s"),
            pair("SESH_BRANCH", "fix"),
            pair("SESH_REPOS", ""),
            pair("SESH_REPO", "api"),
        ]
    );
    assert_eq!(repo_names(&vec![repo("api"), repo("web")]), names);
}

#[test]
fn exit_code_zero_is_the_only_success() {
    let e = entry("./up.sh", false);
    assert!(script_result("setup", &e, ScriptExit::Code(0)).is_ok());
    match script_result("setup", &e, ScriptExit::Code(3)) {
        Err(SeshError::ScriptError(m)) => assert_eq!(m, "setup script './up.sh' exited with status: 3"),
        _ => panic!("expected a script error"),
    }
    match script_result("teardown", &e, ScriptExit::Code(-1)) {
        Err(SeshError::ScriptError(m)) => assert_eq!(m, "teardown script './up.sh' exited with status: -1"),
        _ => panic!("expected a script error"),
    }
    match script_result("setup", &e, ScriptExit::Signal) {
        Err(SeshError::ScriptError(m)) => assert_eq!(m, "setup script './up.sh' exited with status: signal"),
        _ => panic!("expected a script error"),
    }
    match script_missing("background", "/w/up.sh") {
        SeshError::ScriptError(m) => assert_eq!(m, "background script not found: /w/up.sh"),
        _ => panic!("expected a script error"),
    }
}

fn config() -> SeshConfig {
    let mut config = SeshConfig::default();
    config.scripts.setup = vec![entry("./global.sh", false), entry("./services.sh", true)];
    config.scripts.teardown = vec![entry("./down.sh", true)];
    let mut api = RepoConfig::default();
    api.setup = vec![entry("./api/up.sh", true)];
    api.teardown = vec![entry("./api/down.sh", false)];
    config.repos.insert("api", api);
    let mut infra = RepoConfig::default();
    infra.exclusive = true;
    infra.setup = vec![entry("./infra/up.sh", false)];
    infra.teardown = vec![entry("./infra/down.sh", false)];
    config.repos.insert("infra", infra);
    config
}

fn summary(run: &ScriptRun) -> String {
    format!(
        "{} in {} repo={:?} bg={} label={} env={}",
        run.script_path,
        run.cwd,
        run.repo,
        run.background,
        run.label,
        run.env.iter().map(|v| format!("{}={}", v.name, v.value)).collect::<Vec<_>>().join(";")
    )
}

#[test]
fn setup_runs_session_scripts_then_repository_scripts() {
    let repos = vec![repo("api"), repo("web"), repo("infra")];
    let plan = plan_scripts(&config(), Purpose::Setup, "/w", "/w/.sesh/sessions/s", "s", "fix", &repos, &vec![], true);
    let shown: Vec<String> = plan.iter().map(summary).collect();
    let base = "SESH_SESSION=s;SESH_BRANCH=fix;SESH_REPOS=api,web,infra";
    assert_eq!(
        shown,
        vec![
            format!("/w/./global.sh in /w/.sesh/sessions/s repo=None bg=false label=global-setup-global env={}", base),
            format!("/w/./services.sh in /w/.sesh/sessions/s repo=None bg=true label=global-setup-services env={}", base),
            format!("/w/./api/up.sh in /w/.sesh/sessions/s/api repo=Some(\"api\") bg=true label=api-setup-api-up env={};SESH_REPO=api", base),
            format!("/w/./infra/up.sh in /w/.sesh/sessions/s/infra repo=Some(\"infra\") bg=false label=infra-setup-infra-up env={};SESH_REPO=infra", base),
        ]
    );
    assert_eq!(plan[0].entry.path, "./global.sh");
}

#[test]
fn skipped_repositories_get_no_scripts_and_are_announced() {
    let repos = vec![repo("api"), repo("infra")];
    let skipped = vec!["infra".to_string()];
    let plan = plan_scripts(&config(), Purpose::Setup, "/w", "/s", "s", "fix", &repos, &skipped, true);
    assert_eq!(plan.len(), 3);
    assert!(plan.iter().all(|r| r.repo.as_deref() != Some("infra")));
    assert_eq!(
        env(&plan[0].env).last(),
        Some(&pair("SESH_EXCLUSIVE_SKIP", "infra"))
    );
    assert_eq!(env(&plan[2].env).last(), Some(&pair("SESH_REPO", "api")));
    assert_eq!(plan[2].env.len(), 4);
}

#[test]
fn teardown_runs_repository_scripts_first_and_in_the_foreground() {
    let repos = vec![repo("api"), repo("infra")];
    let plan = plan_scripts(&config(), Purpose::Teardown, "/w", "/s", "s", "fix", &repos, &vec![], false);
    let paths: Vec<&str> = plan.iter().map(|r| r.entry.path.as_str()).collect();
    assert_eq!(paths, vec!["./api/down.sh", "./infra/down.sh", "./down.sh"]);
    assert!(plan.iter().all(|r| !r.background));
    assert_eq!(plan[2].cwd, "/s");
    assert_eq!(plan[2].env.len(), 3);
    assert_eq!(plan[0].cwd, "/w/.sesh/sessions/s/api");
}

#[test]
fn setup_stops_at_the_first_failure() {
    assert_eq!(next_setup_step(0, &vec![]), SetupStep::Done { ok: true });
    assert_eq!(next_setup_step(3, &vec![]), SetupStep::Run { at: 0 });
    assert_eq!(next_setup_step(3, &vec![ScriptOutcome::Finished, ScriptOutcome::Started { pid: 9 }]), SetupStep::Run { at: 2 });
    assert_eq!(
        next_setup_step(3, &vec![ScriptOutcome::Finished, ScriptOutcome::Started { pid: 9 }, ScriptOutcome::Finished]),
        SetupStep::Done { ok: true }
    );
    assert_eq!(next_setup_step(3, &vec![ScriptOutcome::Finished, ScriptOutcome::Failed]), SetupStep::Done { ok: false });
    assert_eq!(next_setup_step(1, &vec![ScriptOutcome::Failed]), SetupStep::Done { ok: false });
    assert_eq!(next_setup_step(1, &vec![ScriptOutcome::Finished, ScriptOutcome::Finished]), SetupStep::Done { ok: true });
}

#[test]
fn started_processes_are_recorded_even_after_a_failure() {
    let repos = vec![repo("api"), repo("web"), repo("infra")];
    let plan = plan_scripts(&config(), Purpose::Setup, "/w", "/s", "s", "fix", &repos, &vec![], true);
    assert_eq!(plan.len(), 4);
    let pids = started_background(&plan, &vec![ScriptOutcome::Finished, ScriptOutcome::Started { pid: 41 }, ScriptOutcome::Started { pid: 42 }, ScriptOutcome::Failed]);
    let shown: Vec<String> =
        pids.iter().map(|p| format!("{} {} {}", p.pid, p.label, p.script)).collect();
    assert_eq!(
        shown,
        vec!["41 global-setup-services ./services.sh", "42 api-setup-api-up ./api/up.sh"]
    );
    assert!(started_background(&plan, &vec![]).is_empty());
    assert!(started_background(&plan, &vec![ScriptOutcome::Finished, ScriptOutcome::Failed]).is_empty());
    assert_eq!(started_background(&vec![], &vec![ScriptOutcome::Started { pid: 1 }]).len(), 0);
}
