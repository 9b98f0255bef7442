//! Setup and teardown scripts: which scripts run for a session, where,
//! with what environment, and how their outcome is read.
//!
//! Scripts are the operator's own programs. The library decides the
//! calling convention; starting them is left to the caller.

use vstd::prelude::*;
use crate::config::{ScriptEntry, SeshConfig};
use crate::error::SeshError;
use crate::paths::{join_path, joined_path, with_suffix};
use crate::session::{name_taken, BackgroundPid, SessionRepo};
use crate::text::{
    chars_of, join, joined, push_all, push_str, replace_char, replaced, same_text,
    signed_decimal, signed_decimal_digits, slice_of, string_of, texts,
};

verus! {

/// `s` without its leading dots and dashes.
pub open spec fn without_leading_marks(s: Seq<char>) -> Seq<char>
    decreases s.len(),
{
    if s.len() > 0 && (s[0] == '.' || s[0] == '-') {
        without_leading_marks(s.drop_first())
    } else {
        s
    }
}

/// `s` without any `.sh` at its end.
pub open spec fn without_sh(s: Seq<char>) -> Seq<char>
    decreases s.len(),
{
    if s.len() >= 3 && s[s.len() - 3] == '.' && s[s.len() - 2] == 's' && s[s.len() - 1] == 'h' {
        without_sh(s.take(s.len() - 3))
    } else {
        s
    }
}

/// The label fragment for a script path: slashes and backslashes become
/// dashes, leading dots and dashes go, and so does a trailing `.sh`.
pub open spec fn label_of(path: Seq<char>) -> Seq<char> {
    without_sh(without_leading_marks(replaced(replaced(path, '/', '-'), '\\', '-')))
}

/// Turns a script path such as `./scripts/start-services.sh` into a label
/// fragment that is safe in a file name: `scripts-start-services`.
pub fn sanitize_label(path: &str) -> (label: String)
    ensures
        label@ == label_of(path@),
{
    let raw = chars_of(path);
    let a = replace_char(&raw, '/', '-');
    let b = replace_char(&a, '\\', '-');
    let mut start: usize = 0;
    assert(b@.skip(0) == b@);
    while start < b.len() && (b[start] == '.' || b[start] == '-')
        invariant
            start <= b.len(),
            without_leading_marks(b@) == without_leading_marks(b@.skip(start as int)),
        decreases b.len() - start,
    {
        proof {
            assert(b@.skip(start as int).drop_first() == b@.skip(start + 1));
        }
        start = start + 1;
    }
    let c = slice_of(&b, start, b.len());
    assert(c@ == b@.skip(start as int));
    let mut end: usize = c.len();
    assert(c@.take(end as int) == c@);
    while end >= 3 && c[end - 3] == '.' && c[end - 2] == 's' && c[end - 1] == 'h'
        invariant
            end <= c.len(),
            without_sh(c@) == without_sh(c@.take(end as int)),
        decreases end,
    {
        proof {
            assert(c@.take(end as int).take(end - 3) == c@.take(end - 3));
        }
        end = end - 3;
    }
    let d = slice_of(&c, 0, end);
    assert(d@ == c@.take(end as int));
    string_of(&d)
}

/// The log label of a script started in the background: `global-setup-`
/// or `<repo>-setup-`, followed by the label fragment of its path.
pub open spec fn background_label(repo: Option<Seq<char>>, path: Seq<char>) -> Seq<char> {
    match repo {
        Some(name) => name + "-setup-"@ + label_of(path),
        None => "global-setup-"@ + label_of(path),
    }
}

/// The label under which a background script's output is logged.
pub fn script_label(repo: Option<&str>, path: &str) -> (label: String)
    ensures
        label@ == background_label(
            match repo {
                Some(r) => Some(r@),
                None => None,
            },
            path@,
        ),
{
    let fragment = sanitize_label(path);
    let mut out: Vec<char> = Vec::new();
    match repo {
        Some(name) => {
            push_str(&mut out, name);
            push_str(&mut out, "-setup-");
        },
        None => {
            push_str(&mut out, "global-setup-");
        },
    }
    push_str(&mut out, fragment.as_str());
    string_of(&out)
}

/// The log file of a background script: `<log_dir>/<label>.log`.
pub fn log_file(log_dir: &str, label: &str) -> (path: String)
    ensures
        path@ == joined_path(log_dir@, label@ + ".log"@),
{
    let file = with_suffix(label, ".log");
    join_path(log_dir, file.as_str())
}

/// The directory of a session's logs: `<session_dir>/logs`.
pub fn log_dir(session_dir: &str) -> (path: String)
    ensures
        path@ == joined_path(session_dir@, "logs"@),
{
    join_path(session_dir, "logs")
}

/// A variable of a script's environment.
#[derive(Debug, Clone)]
pub struct EnvVar {
    pub name: String,
    pub value: String,
}

/// An environment as pairs of texts.
pub open spec fn env_pairs(env: Seq<EnvVar>) -> Seq<(Seq<char>, Seq<char>)> {
    Seq::new(env.len(), |i: int| (env[i].name@, env[i].value@))
}

/// The variables that every script gets: the session, the branch, and the
/// names of all repositories of the session joined by commas.
pub open spec fn base_env(session: Seq<char>, branch: Seq<char>, repos: Seq<Seq<char>>) -> Seq<
    (Seq<char>, Seq<char>),
> {
    seq![
        ("SESH_SESSION"@, session),
        ("SESH_BRANCH"@, branch),
        ("SESH_REPOS"@, joined(repos, ","@)),
    ]
}

/// The environment of a script: the three variables that every script
/// gets, followed by `extra` if there is one.
pub open spec fn script_env_of(
    session: Seq<char>,
    branch: Seq<char>,
    repos: Seq<Seq<char>>,
    extra: Option<(Seq<char>, Seq<char>)>,
) -> Seq<(Seq<char>, Seq<char>)> {
    match extra {
        Some(pair) => base_env(session, branch, repos).push(pair),
        None => base_env(session, branch, repos),
    }
}

/// Builds the environment of a script.
pub fn script_env(
    session_name: &str,
    branch: &str,
    repo_names: &Vec<String>,
    extra: Option<(&str, &str)>,
) -> (env: Vec<EnvVar>)
    ensures
        env_pairs(env@) == script_env_of(
            session_name@,
            branch@,
            texts(repo_names@),
            match extra {
                Some((name, value)) => Some((name@, value@)),
                None => None,
            },
        ),
{
    let mut env: Vec<EnvVar> = Vec::new();
    env.push(EnvVar { name: "SESH_SESSION".to_owned(), value: session_name.to_owned() });
    env.push(EnvVar { name: "SESH_BRANCH".to_owned(), value: branch.to_owned() });
    env.push(EnvVar { name: "SESH_REPOS".to_owned(), value: join(repo_names, ",") });
    assert(env_pairs(env@) =~= base_env(session_name@, branch@, texts(repo_names@)));
    match extra {
        Some((name, value)) => {
            let ghost before = env_pairs(env@);
            env.push(EnvVar { name: name.to_owned(), value: value.to_owned() });
            assert(env_pairs(env@) =~= before.push((name@, value@)));
        },
        None => {},
    }
    env
}

/// The names of the repositories of a session.
pub open spec fn repo_names_of(repos: Seq<SessionRepo>) -> Seq<Seq<char>> {
    Seq::new(repos.len(), |i: int| repos[i].name@)
}

/// Lists the names of the repositories of a session.
pub fn repo_names(repos: &Vec<SessionRepo>) -> (names: Vec<String>)
    ensures
        texts(names@) == repo_names_of(repos@),
{
    let mut names: Vec<String> = Vec::new();
    let mut i: usize = 0;
    while i < repos.len()
        invariant
            i <= repos.len(),
            texts(names@) == repo_names_of(repos@).take(i as int),
        decreases repos.len() - i,
    {
        let ghost before = texts(names@);
        names.push(repos[i].name.clone());
        assert(texts(names@) =~= before.push(repos@[i as int].name@));
        assert(texts(names@) =~= repo_names_of(repos@).take(i + 1));
        i = i + 1;
    }
    assert(repo_names_of(repos@).take(repos.len() as int) == repo_names_of(repos@));
    names
}

/// How a script ended.
#[derive(Debug, Clone, Copy, PartialEq, Eq, Structural)]
pub enum ScriptExit {
    /// It exited with this code.
    Code(i32),
    /// A signal ended it.
    Signal,
}

/// The message for a script that failed:
/// `<kind> script '<path>' exited with status: <code>`, with `signal` in
/// place of the code for a script that a signal ended.
pub open spec fn script_failure(kind: Seq<char>, path: Seq<char>, exit: ScriptExit) -> Seq<char> {
    kind + " script '"@ + path + "' exited with status: "@ + match exit {
        ScriptExit::Code(c) => signed_decimal(c as int),
        ScriptExit::Signal => "signal"@,
    }
}

/// Reads how a foreground script ended: exit code 0 is success, anything
/// else is a failure that names the script and the way it ended.
pub fn script_result(kind: &str, entry: &ScriptEntry, exit: ScriptExit) -> (outcome: Result<
    (),
    SeshError,
>)
    ensures
        outcome is Ok <==> exit == ScriptExit::Code(0),
        outcome is Err ==> outcome->Err_0 is ScriptError && outcome->Err_0->ScriptError_0@
            == script_failure(kind@, entry.path@, exit),
{
    match exit {
        ScriptExit::Code(0) => Ok(()),
        _ => {
            let mut message: Vec<char> = Vec::new();
            push_str(&mut message, kind);
            push_str(&mut message, " script '");
            push_str(&mut message, entry.path.as_str());
            push_str(&mut message, "' exited with status: ");
            match exit {
                ScriptExit::Code(c) => {
                    let digits = signed_decimal_digits(c as i64);
                    push_all(&mut message, &digits);
                },
                ScriptExit::Signal => {
                    push_str(&mut message, "signal");
                },
            }
            Err(SeshError::ScriptError(string_of(&message)))
        },
    }
}

/// The message for a script that is not where the settings say.
pub fn script_missing(kind: &str, script_path: &str) -> (error: SeshError)
    ensures
        error is ScriptError,
        error->ScriptError_0@ == kind@ + " script not found: "@ + script_path@,
{
    let mut message: Vec<char> = Vec::new();
    push_str(&mut message, kind);
    push_str(&mut message, " script not found: ");
    push_str(&mut message, script_path);
    SeshError::ScriptError(string_of(&message))
}

/// One script to run.
#[derive(Debug, Clone)]
pub struct ScriptRun {
    /// The script as the settings name it.
    pub entry: ScriptEntry,
    /// The script's file: the entry's path under the parent directory.
    pub script_path: String,
    /// The directory to run it in.
    pub cwd: String,
    /// The repository it runs for; `None` for a script of the session.
    pub repo: Option<String>,
    /// Whether to start it detached and go on without waiting.
    pub background: bool,
    /// The label of its log when it runs in the background.
    pub label: String,
    pub env: Vec<EnvVar>,
}

/// A script to run, as plain values.
pub ghost struct Invocation {
    pub entry_path: Seq<char>,
    /// Whether the settings mark the script as a background script.
    pub marked_background: bool,
    pub script_path: Seq<char>,
    pub cwd: Seq<char>,
    pub repo: Option<Seq<char>>,
    pub background: bool,
    pub label: Seq<char>,
    pub env: Seq<(Seq<char>, Seq<char>)>,
}

/// The plain values of a script to run.
pub open spec fn invocation_of(run: ScriptRun) -> Invocation {
    Invocation {
        entry_path: run.entry.path@,
        marked_background: run.entry.background,
        script_path: run.script_path@,
        cwd: run.cwd@,
        repo: match run.repo {
            Some(r) => Some(r@),
            None => None,
        },
        background: run.background,
        label: run.label@,
        env: env_pairs(run.env@),
    }
}

/// The plain values of a list of scripts to run.
pub open spec fn invocations_of(runs: Seq<ScriptRun>) -> Seq<Invocation> {
    Seq::new(runs.len(), |i: int| invocation_of(runs[i]))
}

/// What is common to the scripts of one plan.
pub ghost struct PlanContext {
    pub parent_dir: Seq<char>,
    pub session_dir: Seq<char>,
    pub session: Seq<char>,
    pub branch: Seq<char>,
    pub repos: Seq<Seq<char>>,
    /// Whether scripts marked so may run in the background.
    pub allow_background: bool,
}

/// The invocation of one script: its file lies under the parent
/// directory; it runs in `cwd` with the common variables and `extra`.
pub open spec fn planned_run(
    ctx: PlanContext,
    entry: ScriptEntry,
    cwd: Seq<char>,
    repo: Option<Seq<char>>,
    extra: Option<(Seq<char>, Seq<char>)>,
) -> Invocation {
    Invocation {
        entry_path: entry.path@,
        marked_background: entry.background,
        script_path: joined_path(ctx.parent_dir, entry.path@),
        cwd,
        repo,
        background: entry.background && ctx.allow_background,
        label: background_label(repo, entry.path@),
        env: script_env_of(ctx.session, ctx.branch, ctx.repos, extra),
    }
}

/// The invocations of a list of scripts that share directory and
/// environment, in the order of the list.
pub open spec fn planned_runs(
    ctx: PlanContext,
    entries: Seq<ScriptEntry>,
    cwd: Seq<char>,
    repo: Option<Seq<char>>,
    extra: Option<(Seq<char>, Seq<char>)>,
) -> Seq<Invocation> {
    Seq::new(entries.len(), |i: int| planned_run(ctx, entries[i], cwd, repo, extra))
}

/// The variable that tells the session's setup scripts which repositories
/// were skipped because another session holds their lock; none when no
/// repository was skipped.
pub open spec fn skip_variable(skipped: Seq<String>) -> Option<(Seq<char>, Seq<char>)> {
    if skipped.len() == 0 {
        None
    } else {
        Some(("SESH_EXCLUSIVE_SKIP"@, joined(texts(skipped), ","@)))
    }
}

/// Whether scripts are being planned for setting a session up or for
/// tearing it down.
#[derive(Debug, Clone, Copy, PartialEq, Eq, Structural)]
pub enum Purpose {
    Setup,
    Teardown,
}

/// The scripts that the settings give a repository for `purpose`; none
/// for a repository without settings.
pub open spec fn repo_entries(config: SeshConfig, purpose: Purpose, repo: Seq<char>) -> Seq<
    ScriptEntry,
> {
    if config.repos@.dom().contains(repo) {
        match purpose {
            Purpose::Setup => config.repos@[repo].setup@,
            Purpose::Teardown => config.repos@[repo].teardown@,
        }
    } else {
        Seq::empty()
    }
}

/// The scripts that the settings give the session as a whole.
pub open spec fn global_entries(config: SeshConfig, purpose: Purpose) -> Seq<ScriptEntry> {
    match purpose {
        Purpose::Setup => config.scripts.setup@,
        Purpose::Teardown => config.scripts.teardown@,
    }
}

/// The invocations for the first `upto` repositories: each repository's
/// own scripts, run in its worktree with its name in `SESH_REPO`. A
/// repository among `skipped` gets none.
pub open spec fn repo_runs(
    ctx: PlanContext,
    config: SeshConfig,
    purpose: Purpose,
    repos: Seq<SessionRepo>,
    skipped: Seq<String>,
    upto: int,
) -> Seq<Invocation>
    decreases upto,
{
    if upto <= 0 {
        Seq::empty()
    } else {
        let rest = repo_runs(ctx, config, purpose, repos, skipped, upto - 1);
        let repo = repos[upto - 1];
        if name_taken(skipped, repo.name@) {
            rest
        } else {
            rest + planned_runs(
                ctx,
                repo_entries(config, purpose, repo.name@),
                repo.worktree_path@,
                Some(repo.name@),
                Some(("SESH_REPO"@, repo.name@)),
            )
        }
    }
}

/// The invocations of the session's own scripts: run in the session
/// directory; setup scripts are told which repositories were skipped.
pub open spec fn global_runs(
    ctx: PlanContext,
    config: SeshConfig,
    purpose: Purpose,
    skipped: Seq<String>,
) -> Seq<Invocation> {
    planned_runs(
        ctx,
        global_entries(config, purpose),
        ctx.session_dir,
        None,
        match purpose {
            Purpose::Setup => skip_variable(skipped),
            Purpose::Teardown => None,
        },
    )
}

/// The whole plan. Setting up, the session's scripts run before those of
/// the repositories; tearing down, after them.
pub open spec fn planned(
    ctx: PlanContext,
    config: SeshConfig,
    purpose: Purpose,
    repos: Seq<SessionRepo>,
    skipped: Seq<String>,
) -> Seq<Invocation> {
    let per_repo = repo_runs(ctx, config, purpose, repos, skipped, repos.len() as int);
    match purpose {
        Purpose::Setup => global_runs(ctx, config, purpose, skipped) + per_repo,
        Purpose::Teardown => per_repo + global_runs(ctx, config, purpose, skipped),
    }
}

fn is_skipped(skipped: &Vec<String>, name: &str) -> (yes: bool)
    ensures
        yes == name_taken(skipped@, name@),
{
    let mut i: usize = 0;
    while i < skipped.len()
        invariant
            i <= skipped.len(),
            forall|j: int| 0 <= j < i ==> (#[trigger] skipped@[j])@ != name@,
        decreases skipped.len() - i,
    {
        if same_text(skipped[i].as_str(), name) {
            return true;
        }
        i = i + 1;
    }
    false
}

fn plan_entries(
    plan: &mut Vec<ScriptRun>,
    Ghost(ctx): Ghost<PlanContext>,
    entries: &Vec<ScriptEntry>,
    parent_dir: &str,
    session_name: &str,
    branch: &str,
    names: &Vec<String>,
    allow_background: bool,
    cwd: &str,
    repo: Option<&str>,
    extra: Option<(&str, &str)>,
)
    requires
        ctx.parent_dir == parent_dir@,
        ctx.session == session_name@,
        ctx.branch == branch@,
        ctx.repos == texts(names@),
        ctx.allow_background == allow_background,
    ensures
        invocations_of(final(plan)@) == invocations_of(old(plan)@) + planned_runs(
            ctx,
            entries@,
            cwd@,
            match repo {
                Some(r) => Some(r@),
                None => None,
            },
            match extra {
                Some((name, value)) => Some((name@, value@)),
                None => None,
            },
        ),
{
    let ghost repo_view: Option<Seq<char>> = match repo {
        Some(r) => Some(r@),
        None => None,
    };
    let ghost extra_view: Option<(Seq<char>, Seq<char>)> = match extra {
        Some((name, value)) => Some((name@, value@)),
        None => None,
    };
    let ghost start = invocations_of(plan@);
    let ghost all = planned_runs(ctx, entries@, cwd@, repo_view, extra_view);
    let mut i: usize = 0;
    assert(start + all.take(0) =~= start);
    while i < entries.len()
        invariant
            i <= entries.len(),
            ctx.parent_dir == parent_dir@,
            ctx.session == session_name@,
            ctx.branch == branch@,
            ctx.repos == texts(names@),
            ctx.allow_background == allow_background,
            repo_view == match repo {
                Some(r) => Some(r@),
                None => None,
            },
            extra_view == match extra {
                Some((name, value)) => Some((name@, value@)),
                None => None,
            },
            all == planned_runs(ctx, entries@, cwd@, repo_view, extra_view),
            invocations_of(plan@) == start + all.take(i as int),
        decreases entries.len() - i,
    {
        let entry = &entries[i];
        let ghost before = invocations_of(plan@);
        let run = ScriptRun {
            entry: ScriptEntry { path: entry.path.clone(), background: entry.background },
            script_path: join_path(parent_dir, entry.path.as_str()),
            cwd: cwd.to_owned(),
            repo: match repo {
                Some(r) => Some(r.to_owned()),
                None => None,
            },
            background: entry.background && allow_background,
            label: script_label(repo, entry.path.as_str()),
            env: script_env(session_name, branch, names, extra),
        };
        assert(invocation_of(run) == planned_run(ctx, *entry, cwd@, repo_view, extra_view));
        plan.push(run);
        assert(invocations_of(plan@) =~= before.push(all[i as int]));
        assert(start + all.take(i + 1) =~= (start + all.take(i as int)).push(all[i as int]));
        i = i + 1;
    }
    assert(all.take(entries.len() as int) == all);
}

/// Draws up the scripts to run for a session, in the order in which they
/// run. `repos` are the session's repositories; those named in `skipped`
/// get none of their own scripts. With `allow_background` false every
/// script runs in the foreground, whatever the settings say.
pub fn plan_scripts(
    config: &SeshConfig,
    purpose: Purpose,
    parent_dir: &str,
    session_dir: &str,
    session_name: &str,
    branch: &str,
    repos: &Vec<SessionRepo>,
    skipped: &Vec<String>,
    allow_background: bool,
) -> (plan: Vec<ScriptRun>)
    ensures
        invocations_of(plan@) == planned(
            PlanContext {
                parent_dir: parent_dir@,
                session_dir: session_dir@,
                session: session_name@,
                branch: branch@,
                repos: repo_names_of(repos@),
                allow_background,
            },
            *config,
            purpose,
            repos@,
            skipped@,
        ),
{
    let ghost ctx = PlanContext {
        parent_dir: parent_dir@,
        session_dir: session_dir@,
        session: session_name@,
        branch: branch@,
        repos: repo_names_of(repos@),
        allow_background,
    };
    let names = repo_names(repos);
    let mut plan: Vec<ScriptRun> = Vec::new();
    assert(invocations_of(plan@) =~= Seq::<Invocation>::empty());
    let skip_csv = join(skipped, ",");
    let skip_extra: Option<(&str, &str)> = if skipped.len() == 0 {
        None
    } else {
        Some(("SESH_EXCLUSIVE_SKIP", skip_csv.as_str()))
    };
    match purpose {
        Purpose::Setup => {
            plan_entries(
                &mut plan,
                Ghost(ctx),
                &config.scripts.setup,
                parent_dir,
                session_name,
                branch,
                &names,
                allow_background,
                session_dir,
                None,
                skip_extra,
            );
            assert(invocations_of(plan@) =~= global_runs(ctx, *config, purpose, skipped@));
        },
        Purpose::Teardown => {},
    }
    let ghost head = invocations_of(plan@);
    let mut i: usize = 0;
    assert(head + repo_runs(ctx, *config, purpose, repos@, skipped@, 0) =~= head);
    while i < repos.len()
        invariant
            i <= repos.len(),
            ctx == (PlanContext {
                parent_dir: parent_dir@,
                session_dir: session_dir@,
                session: session_name@,
                branch: branch@,
                repos: repo_names_of(repos@),
                allow_background,
            }),
            texts(names@) == repo_names_of(repos@),
            invocations_of(plan@) == head + repo_runs(
                ctx,
                *config,
                purpose,
                repos@,
                skipped@,
                i as int,
            ),
        decreases repos.len() - i,
    {
        let repo = &repos[i];
        let ghost before = repo_runs(ctx, *config, purpose, repos@, skipped@, i as int);
        if !is_skipped(skipped, repo.name.as_str()) {
            match config.repos.get(repo.name.as_str()) {
                Some(rc) => {
                    let entries = match purpose {
                        Purpose::Setup => &rc.setup,
                        Purpose::Teardown => &rc.teardown,
                    };
                    assert(entries@ == repo_entries(*config, purpose, repo.name@));
                    plan_entries(
                        &mut plan,
                        Ghost(ctx),
                        entries,
                        parent_dir,
                        session_name,
                        branch,
                        &names,
                        allow_background,
                        repo.worktree_path.as_str(),
                        Some(repo.name.as_str()),
                        Some(("SESH_REPO", repo.name.as_str())),
                    );
                },
                None => {
                    assert(planned_runs(
                        ctx,
                        repo_entries(*config, purpose, repo.name@),
                        repo.worktree_path@,
                        Some(repo.name@),
                        Some(("SESH_REPO"@, repo.name@)),
                    ) =~= Seq::<Invocation>::empty());
                },
            }
            assert(invocations_of(plan@) =~= head + (before + planned_runs(
                ctx,
                repo_entries(*config, purpose, repo.name@),
                repo.worktree_path@,
                Some(repo.name@),
                Some(("SESH_REPO"@, repo.name@)),
            )));
        }
        i = i + 1;
    }
    match purpose {
        Purpose::Setup => {},
        Purpose::Teardown => {
            plan_entries(
                &mut plan,
                Ghost(ctx),
                &config.scripts.teardown,
                parent_dir,
                session_name,
                branch,
                &names,
                allow_background,
                session_dir,
                None,
                None,
            );
        },
    }
    plan
}

/// What came of running one script of a plan.
#[derive(Debug, Clone, Copy, PartialEq, Eq, Structural)]
pub enum ScriptOutcome {
    /// It ran in the foreground and succeeded.
    Finished,
    /// It was started in the background as this process.
    Started { pid: u32 },
    /// It failed, or could not be started.
    Failed,
}

/// What to do next with a plan of setup scripts.
#[derive(Debug, Clone, Copy, PartialEq, Eq, Structural)]
pub enum SetupStep {
    /// Run the script at this position of the plan.
    Run { at: usize },
    /// Stop: every script ran (`ok`), or one failed.
    Done { ok: bool },
}

/// Whether one of the outcomes is a failure.
pub open spec fn has_failure(outcomes: Seq<ScriptOutcome>) -> bool {
    exists|i: int| 0 <= i < outcomes.len() && #[trigger] outcomes[i] == ScriptOutcome::Failed
}

/// The next step for a plan of `planned` scripts of which the first
/// `outcomes.len()` were run with these outcomes: scripts run one after
/// the other, in the order of the plan, and the first failure ends the
/// run. No script is run after a failure.
pub open spec fn setup_step(planned: int, outcomes: Seq<ScriptOutcome>) -> SetupStep {
    if has_failure(outcomes) {
        SetupStep::Done { ok: false }
    } else if outcomes.len() < planned {
        SetupStep::Run { at: outcomes.len() as usize }
    } else {
        SetupStep::Done { ok: true }
    }
}

/// Decides what to do next with a plan of setup scripts, given what came
/// of the scripts run so far.
pub fn next_setup_step(planned: usize, outcomes: &Vec<ScriptOutcome>) -> (step: SetupStep)
    ensures
        step == setup_step(planned as int, outcomes@),
{
    let mut i: usize = 0;
    while i < outcomes.len()
        invariant
            i <= outcomes.len(),
            forall|j: int| 0 <= j < i ==> #[trigger] outcomes@[j] != ScriptOutcome::Failed,
        decreases outcomes.len() - i,
    {
        match outcomes[i] {
            ScriptOutcome::Failed => {
                assert(outcomes@[i as int] == ScriptOutcome::Failed);
                return SetupStep::Done { ok: false };
            },
            _ => {},
        }
        i = i + 1;
    }
    if outcomes.len() < planned {
        SetupStep::Run { at: outcomes.len() }
    } else {
        SetupStep::Done { ok: true }
    }
}

/// A recorded background process as plain values: pid, label and script.
pub open spec fn pid_records(pids: Seq<BackgroundPid>) -> Seq<(u32, Seq<char>, Seq<char>)> {
    Seq::new(pids.len(), |i: int| (pids[i].pid, pids[i].label@, pids[i].script@))
}

/// The processes to record for the first `upto` scripts of a plan: one
/// for each script that was started in the background, with the label of
/// its log and the script as the settings name it, in the order of the
/// plan.
pub open spec fn started_upto(plan: Seq<ScriptRun>, outcomes: Seq<ScriptOutcome>, upto: int) -> Seq<
    (u32, Seq<char>, Seq<char>),
>
    decreases upto,
{
    if upto <= 0 {
        Seq::empty()
    } else {
        let rest = started_upto(plan, outcomes, upto - 1);
        match outcomes[upto - 1] {
            ScriptOutcome::Started { pid } => rest.push(
                (pid, plan[upto - 1].label@, plan[upto - 1].entry.path@),
            ),
            _ => rest,
        }
    }
}

/// The number of scripts of a plan that have an outcome.
pub open spec fn run_count(plan: Seq<ScriptRun>, outcomes: Seq<ScriptOutcome>) -> int {
    if outcomes.len() < plan.len() {
        outcomes.len() as int
    } else {
        plan.len() as int
    }
}

/// Lists the background processes to record for a session after its setup
/// scripts ran with these outcomes. Processes started before a script
/// failed are listed all the same, so that they can be found and stopped.
pub fn started_background(plan: &Vec<ScriptRun>, outcomes: &Vec<ScriptOutcome>) -> (pids: Vec<
    BackgroundPid,
>)
    ensures
        pid_records(pids@) == started_upto(plan@, outcomes@, run_count(plan@, outcomes@)),
{
    let n = if outcomes.len() < plan.len() {
        outcomes.len()
    } else {
        plan.len()
    };
    let mut pids: Vec<BackgroundPid> = Vec::new();
    let mut i: usize = 0;
    assert(pid_records(pids@) =~= Seq::<(u32, Seq<char>, Seq<char>)>::empty());
    while i < n
        invariant
            i <= n,
            n <= plan.len(),
            n <= outcomes.len(),
            pid_records(pids@) == started_upto(plan@, outcomes@, i as int),
        decreases n - i,
    {
        let ghost before = pid_records(pids@);
        match outcomes[i] {
            ScriptOutcome::Started { pid } => {
                pids.push(
                    BackgroundPid {
                        pid,
                        label: plan[i].label.clone(),
                        script: plan[i].entry.path.clone(),
                    },
                );
                assert(pid_records(pids@) =~= before.push(
                    (pid, plan@[i as int].label@, plan@[i as int].entry.path@),
                ));
            },
            _ => {},
        }
        i = i + 1;
    }
    pids
}

} // verus!
