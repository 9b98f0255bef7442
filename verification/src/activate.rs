//! Activating a session: taking over the locks of its exclusive
//! repositories, and what is owed to the sessions that lose them.

use vstd::prelude::*;
use crate::arbitration::{
    exclusive_among, exclusive_repos, losing_sessions, sessions_to_tear_down, transfer_locks_at,
    transferred, transfers_of, LockHandover,
};
use crate::config::SeshConfig;
use crate::lock::LockTable;
use crate::order::is_sorted_set_of;
use crate::scripts::{
    invocations_of, plan_scripts, planned, repo_names, repo_names_of, PlanContext, Purpose,
    ScriptRun,
};
use crate::session::{
    clock_now, load_background_pids, load_session, recorded_pids, session_dir, session_dir_path,
    BackgroundPid, Registry, Timestamp,
};
use crate::text::texts;

verus! {

/// What is owed to a session that lost a lock: its background processes
/// are stopped and its teardown scripts run. Its worktrees and its record
/// stay.
pub struct Teardown {
    pub session: String,
    /// The background processes to stop.
    pub pids: Vec<BackgroundPid>,
    /// The teardown scripts to run; `None` when the session's record
    /// cannot be read, in which case nothing is run for it.
    pub scripts: Option<Vec<ScriptRun>>,
}

/// What activating a session takes.
pub struct Activation {
    /// The exclusive repositories of the session.
    pub exclusive: Vec<String>,
    /// What was done about the lock of each of them.
    pub handovers: Vec<LockHandover>,
    /// The sessions that lost a lock, with what is owed to each.
    pub teardowns: Vec<Teardown>,
    /// The setup scripts of the session, all run in the foreground.
    pub setup: Vec<ScriptRun>,
}

/// Why a session could not be activated.
#[derive(Debug, Clone)]
pub enum ActivateError {
    /// The session has no readable record.
    NotFound,
    /// The session has no exclusive repository.
    NoExclusiveRepos,
    /// A lock file cannot be read; the locks handed over before it stay
    /// with the session.
    UnreadableLock { repo: String, made: Vec<LockHandover> },
}

/// The teardown scripts of a session as they are planned: repository
/// scripts first, then the session's, all in the foreground.
pub open spec fn teardown_of(
    config: SeshConfig,
    parent_dir: Seq<char>,
    dir_name: Seq<char>,
    info: crate::session::SessionInfo,
) -> Seq<crate::scripts::Invocation> {
    planned(
        PlanContext {
            parent_dir,
            session_dir: session_dir_path(parent_dir, dir_name),
            session: info.name@,
            branch: info.branch@,
            repos: repo_names_of(info.repos@),
            allow_background: false,
        },
        config,
        Purpose::Teardown,
        info.repos@,
        Seq::<String>::empty(),
    )
}

/// Whether `done` and the locks `after` are what activating the session
/// in the directory `target_name` as of `now` gives, from the locks
/// `before`.
pub open spec fn is_activation(
    reg: Registry,
    before: crate::lock::Locks,
    after: crate::lock::Locks,
    config: SeshConfig,
    parent_dir: Seq<char>,
    target_name: Seq<char>,
    now: Timestamp,
    done: Result<Activation, ActivateError>,
) -> bool {
    &&& (!(reg@.dom().contains(target_name) && reg@[target_name].record is Valid) ==> done is Err
            && done->Err_0 is NotFound && after == before)
    &&& (reg@.dom().contains(target_name) && reg@[target_name].record is Valid ==> ({
            let info = reg@[target_name].record->Valid_0;
            let exclusive = exclusive_among(
                config,
                names_of(info.repos@),
                info.repos@.len() as int,
            );
            if exclusive.len() == 0 {
                done is Err && done->Err_0 is NoExclusiveRepos && after == before
            } else {
                exists|repos: Seq<String>|
                    {
                        let end = #[trigger] transferred(
                            before,
                            reg,
                            repos,
                            info.name@,
                            now,
                            repos.len() as int,
                        );
                        &&& texts(repos) == exclusive
                        &&& after == end.locks
                        &&& done is Err <==> end.stopped
                        &&& done is Err ==> done->Err_0 is UnreadableLock
                            && done->Err_0->UnreadableLock_repo@ == end.culprit && transfers_of(
                            done->Err_0->UnreadableLock_made@,
                        ) == end.made
                        &&& done is Ok ==> {
                            let act = done->Ok_0;
                            &&& act.exclusive@ == repos
                            &&& transfers_of(act.handovers@) == end.made
                            &&& is_sorted_set_of(
                                losing_sessions(end.made, end.made.len() as int),
                                teardown_names(act.teardowns@),
                            )
                            &&& forall|i: int|
                                0 <= i < act.teardowns@.len() ==> owed(
                                    reg,
                                    config,
                                    parent_dir,
                                    #[trigger] act.teardowns@[i],
                                )
                            &&& invocations_of(act.setup@) == planned(
                                PlanContext {
                                    parent_dir: parent_dir,
                                    session_dir: session_dir_path(parent_dir, target_name),
                                    session: info.name@,
                                    branch: info.branch@,
                                    repos: repo_names_of(info.repos@),
                                    allow_background: false,
                                },
                                config,
                                Purpose::Setup,
                                info.repos@,
                                Seq::<String>::empty(),
                            )
                        }
                    }
            }
        }))
}

/// Activates the session recorded in the directory `target_name`, as of
/// `now`: every lock of its exclusive repositories goes to it, whoever
/// holds it; each session that still exists and lost a lock is owed a
/// teardown, once; then the target's setup scripts run.
///
/// A session without a readable record, or without exclusive
/// repositories, is an error and no lock changes. An unreadable lock file
/// ends the run; the locks handed over before it stay handed over.
pub fn run_at(
    reg: &Registry,
    table: &mut LockTable,
    config: &SeshConfig,
    parent_dir: &str,
    target_name: &str,
    now: Timestamp,
) -> (done: Result<Activation, ActivateError>)
    ensures
        is_activation(
            *reg,
            old(table)@,
            final(table)@,
            *config,
            parent_dir@,
            target_name@,
            now,
            done,
        ),
{
    let info = match load_session(reg, target_name) {
        Ok(info) => info,
        Err(_) => {
            return Err(ActivateError::NotFound);
        },
    };
    let names = repo_names(&info.repos);
    let exclusive = exclusive_repos(config, &names);
    proof {
        let wanted = names_of(info.repos@);
        assert(texts(names@).len() == repo_names_of(info.repos@).len());
        assert forall|i: int| 0 <= i < names@.len() implies (#[trigger] names@[i])@ == wanted[i]@ by {
            assert(texts(names@)[i] == repo_names_of(info.repos@)[i]);
        }
        lemma_exclusive_by_names(*config, names@, wanted, names.len() as int);
    }
    if exclusive.len() == 0 {
        return Err(ActivateError::NoExclusiveRepos);
    }
    let handovers = match transfer_locks_at(table, reg, &exclusive, info.name.as_str(), now) {
        Ok(made) => made,
        Err(stop) => {
            return Err(ActivateError::UnreadableLock { repo: stop.unreadable, made: stop.made });
        },
    };
    let losers = sessions_to_tear_down(&handovers);
    let none: Vec<String> = Vec::new();
    let mut teardowns: Vec<Teardown> = Vec::new();
    let mut i: usize = 0;
    assert(teardown_names(teardowns@) =~= texts(losers@).take(0));
    while i < losers.len()
        invariant
            i <= losers.len(),
            none@.len() == 0,
            teardown_names(teardowns@) == texts(losers@).take(i as int),
            forall|j: int|
                0 <= j < teardowns@.len() ==> owed(
                    *reg,
                    *config,
                    parent_dir@,
                    #[trigger] teardowns@[j],
                ),
        decreases losers.len() - i,
    {
        let name = &losers[i];
        let ghost before = teardown_names(teardowns@);
        let pids = load_background_pids(reg, name.as_str());
        let scripts = match load_session(reg, name.as_str()) {
            Ok(old_session) => {
                let dir = session_dir(parent_dir, name.as_str());
                Some(
                    plan_scripts(
                        config,
                        Purpose::Teardown,
                        parent_dir,
                        dir.as_str(),
                        old_session.name.as_str(),
                        old_session.branch.as_str(),
                        &old_session.repos,
                        &none,
                        false,
                    ),
                )
            },
            Err(_) => None,
        };
        let entry = Teardown { session: name.clone(), pids, scripts };
        assert(none@ =~= Seq::<String>::empty());
        assert(owed(*reg, *config, parent_dir@, entry));
        teardowns.push(entry);
        assert(teardown_names(teardowns@) =~= before.push(name@));
        assert(texts(losers@).take(i + 1) =~= texts(losers@).take(i as int).push(name@));
        i = i + 1;
    }
    assert(texts(losers@).take(losers.len() as int) == texts(losers@));
    let dir = session_dir(parent_dir, target_name);
    let setup = plan_scripts(
        config,
        Purpose::Setup,
        parent_dir,
        dir.as_str(),
        info.name.as_str(),
        info.branch.as_str(),
        &info.repos,
        &none,
        false,
    );
    assert(none@ =~= Seq::<String>::empty());
    Ok(Activation { exclusive, handovers, teardowns, setup })
}

/// Activates the session recorded in the directory `target_name` as of
/// the current time.
pub fn run(
    reg: &Registry,
    table: &mut LockTable,
    config: &SeshConfig,
    parent_dir: &str,
    target_name: &str,
) -> (done: Result<Activation, ActivateError>)
    ensures
        exists|now: Timestamp|
            #[trigger] is_activation(
                *reg,
                old(table)@,
                final(table)@,
                *config,
                parent_dir@,
                target_name@,
                now,
                done,
            ),
{
    let now = clock_now();
    run_at(reg, table, config, parent_dir, target_name, now)
}

/// The names of the repositories of a session, as strings.
pub open spec fn names_of(repos: Seq<crate::session::SessionRepo>) -> Seq<String> {
    Seq::new(repos.len(), |i: int| repos[i].name)
}

/// The sessions of a list of teardowns.
pub open spec fn teardown_names(teardowns: Seq<Teardown>) -> Seq<Seq<char>> {
    Seq::new(teardowns.len(), |i: int| teardowns[i].session@)
}

/// Whether `t` is what is owed to its session: the recorded background
/// processes to stop, and the planned teardown scripts if the session's
/// record can be read.
pub open spec fn owed(reg: Registry, config: SeshConfig, parent_dir: Seq<char>, t: Teardown) -> bool {
    let name = t.session@;
    let readable = reg@.dom().contains(name) && reg@[name].record is Valid;
    &&& t.pids@ == recorded_pids(reg@, name)
    &&& t.scripts is Some <==> readable
    &&& readable ==> invocations_of(t.scripts->0@) == teardown_of(
        config,
        parent_dir,
        name,
        reg@[name].record->Valid_0,
    )
}

/// Which repositories are exclusive depends on their names alone.
proof fn lemma_exclusive_by_names(config: SeshConfig, a: Seq<String>, b: Seq<String>, upto: int)
    requires
        0 <= upto <= a.len(),
        a.len() == b.len(),
        forall|i: int| 0 <= i < a.len() ==> (#[trigger] a[i])@ == b[i]@,
    ensures
        exclusive_among(config, a, upto) == exclusive_among(config, b, upto),
    decreases upto,
{
    if upto > 0 {
        lemma_exclusive_by_names(config, a, b, upto - 1);
        assert(a[upto - 1]@ == b[upto - 1]@);
    }
}

} // verus!
