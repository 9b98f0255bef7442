//! Who gets an exclusive repository.
//!
//! The lock table only records holders. The policy lives here: a new
//! session takes a free lock, reclaims a lock whose holder is gone from
//! the registry, and steps back from a lock whose holder is still there;
//! an activation takes the locks over from their holders; a stop gives
//! back what the session holds. Only repositories that the settings mark
//! as exclusive ever touch a lock.

use vstd::prelude::*;
use crate::config::{marked_exclusive, SeshConfig};
use crate::lock::{
    acquire_lock_at, acquired, check_lock, holder_of, release_lock, released, unreadable, Holder,
    LockTable, Locks, UnreadableLock,
};
use crate::session::{clock_now, session_exists, Registry, Timestamp};
use crate::order::{is_sorted_set_of, sorted_unique};
use crate::text::{same_text, texts};

verus! {

/// What became of one exclusive repository when a session asked for it.
#[derive(Debug, Clone)]
pub enum LockVerdict {
    /// The lock was free and is now the session's.
    Acquired,
    /// The lock named a session that no longer exists and is now the
    /// session's.
    Reclaimed { stale: String },
    /// The lock belongs to a session that still exists; the asking
    /// session goes without the repository's services.
    Skipped { holder: String },
}

/// A verdict as plain values.
pub ghost enum Ruling {
    Acquired,
    Reclaimed { stale: Seq<char> },
    Skipped { holder: Seq<char> },
}

/// The plain values of a verdict.
pub open spec fn ruling_of(v: LockVerdict) -> Ruling {
    match v {
        LockVerdict::Acquired => Ruling::Acquired,
        LockVerdict::Reclaimed { stale } => Ruling::Reclaimed { stale: stale@ },
        LockVerdict::Skipped { holder } => Ruling::Skipped { holder: holder@ },
    }
}

/// The verdict on a repository whose lock file is readable or absent.
pub open spec fn ruling_for(locks: Locks, reg: Registry, repo: Seq<char>) -> Ruling {
    match holder_of(locks, repo) {
        None => Ruling::Acquired,
        Some(h) => if reg.has_record(h.session) {
            Ruling::Skipped { holder: h.session }
        } else {
            Ruling::Reclaimed { stale: h.session }
        },
    }
}

/// The locks after the verdict on `repo` was carried out for `session`.
pub open spec fn locks_after_ruling(
    locks: Locks,
    reg: Registry,
    repo: Seq<char>,
    session: Seq<char>,
    now: Timestamp,
) -> Locks {
    if ruling_for(locks, reg, repo) is Skipped {
        locks
    } else {
        acquired(locks, repo, session, now)
    }
}

/// Decides on one exclusive repository for a session that is being
/// created, and carries the decision out: a free lock is taken, a stale
/// one is taken over, a live one is left alone. An unreadable lock file is
/// an error and nothing changes.
pub fn arbitrate_lock_at(
    table: &mut LockTable,
    reg: &Registry,
    repo_name: &str,
    session_name: &str,
    now: Timestamp,
) -> (verdict: Result<LockVerdict, UnreadableLock>)
    ensures
        verdict is Err <==> unreadable(old(table)@, repo_name@),
        verdict is Err ==> final(table)@ == old(table)@,
        verdict is Ok ==> ruling_of(verdict->Ok_0) == ruling_for(old(table)@, *reg, repo_name@)
            && final(table)@ == locks_after_ruling(
            old(table)@,
            *reg,
            repo_name@,
            session_name@,
            now,
        ),
{
    let verdict = match check_lock(table, repo_name) {
        Err(e) => {
            return Err(e);
        },
        Ok(None) => LockVerdict::Acquired,
        Ok(Some(info)) => {
            if session_exists(reg, info.session.as_str()) {
                return Ok(LockVerdict::Skipped { holder: info.session.clone() });
            } else {
                LockVerdict::Reclaimed { stale: info.session.clone() }
            }
        },
    };
    acquire_lock_at(table, repo_name, session_name, now);
    Ok(verdict)
}

/// The verdict on one repository of a session, with the repository's
/// name.
#[derive(Debug, Clone)]
pub struct Arbitration {
    pub repo: String,
    pub verdict: LockVerdict,
}

/// The outcome of arbitrating the first `upto` repositories, one after
/// the other: the locks, the verdicts on the exclusive repositories among
/// them, and whether an unreadable lock file stopped the run, and whose
/// it was. After a stop nothing further changes.
pub ghost struct Outcome {
    pub locks: Locks,
    pub rulings: Seq<(Seq<char>, Ruling)>,
    pub stopped: bool,
    /// The repository whose lock file could not be read, after a stop.
    pub culprit: Seq<char>,
}

/// See `Outcome`.
pub open spec fn arbitrated(
    locks: Locks,
    reg: Registry,
    config: SeshConfig,
    repos: Seq<String>,
    session: Seq<char>,
    now: Timestamp,
    upto: int,
) -> Outcome
    decreases upto,
{
    if upto <= 0 {
        Outcome { locks, rulings: Seq::empty(), stopped: false, culprit: Seq::empty() }
    } else {
        let before = arbitrated(locks, reg, config, repos, session, now, upto - 1);
        let repo = repos[upto - 1]@;
        if before.stopped || !marked_exclusive(config.repos@, repo) {
            before
        } else if unreadable(before.locks, repo) {
            Outcome { stopped: true, culprit: repo, ..before }
        } else {
            Outcome {
                locks: locks_after_ruling(before.locks, reg, repo, session, now),
                rulings: before.rulings.push((repo, ruling_for(before.locks, reg, repo))),
                stopped: false,
                culprit: before.culprit,
            }
        }
    }
}

/// The verdicts as plain values.
pub open spec fn rulings_of(report: Seq<Arbitration>) -> Seq<(Seq<char>, Ruling)> {
    Seq::new(report.len(), |i: int| (report[i].repo@, ruling_of(report[i].verdict)))
}

/// An arbitration that an unreadable lock file ended.
#[derive(Debug, Clone)]
pub struct ArbitrationStopped {
    /// The verdicts reached before the stop; they stand.
    pub decided: Vec<Arbitration>,
    /// The repository whose lock file cannot be read.
    pub unreadable: String,
}

/// Arbitrates the locks of a session's repositories as of `now`, in the
/// order of `repos`. Repositories that are not exclusive are passed over.
/// An unreadable lock file ends the run with an error; what was decided
/// before it stands.
pub fn arbitrate_locks_at(
    table: &mut LockTable,
    reg: &Registry,
    config: &SeshConfig,
    repos: &Vec<String>,
    session_name: &str,
    now: Timestamp,
) -> (report: Result<Vec<Arbitration>, ArbitrationStopped>)
    ensures
        ({
            let end = arbitrated(
                old(table)@,
                *reg,
                *config,
                repos@,
                session_name@,
                now,
                repos.len() as int,
            );
            &&& final(table)@ == end.locks
            &&& report is Err <==> end.stopped
            &&& report is Ok ==> rulings_of(report->Ok_0@) == end.rulings
            &&& report is Err ==> rulings_of(report->Err_0.decided@) == end.rulings
                && report->Err_0.unreadable@ == end.culprit
        }),
{
    let mut report: Vec<Arbitration> = Vec::new();
    let mut i: usize = 0;
    assert(rulings_of(report@) =~= Seq::<(Seq<char>, Ruling)>::empty());
    while i < repos.len()
        invariant
            i <= repos.len(),
            ({
                let mid = arbitrated(old(table)@, *reg, *config, repos@, session_name@, now, i as int);
                &&& table@ == mid.locks
                &&& !mid.stopped
                &&& rulings_of(report@) == mid.rulings
            }),
        decreases repos.len() - i,
    {
        let repo = &repos[i];
        let ghost before = rulings_of(report@);
        if config.is_exclusive(repo.as_str()) {
            match arbitrate_lock_at(table, reg, repo.as_str(), session_name, now) {
                Err(_) => {
                    proof {
                        lemma_stopped_stays(
                            old(table)@,
                            *reg,
                            *config,
                            repos@,
                            session_name@,
                            now,
                            i + 1,
                            repos.len() as int,
                        );
                    }
                    return Err(ArbitrationStopped { decided: report, unreadable: repo.clone() });
                },
                Ok(verdict) => {
                    report.push(Arbitration { repo: repo.clone(), verdict });
                    assert(rulings_of(report@) =~= before.push((repo@, ruling_of(verdict))));
                },
            }
        }
        i = i + 1;
    }
    Ok(report)
}

/// Once an unreadable lock file has stopped an arbitration, the outcome
/// is the same however many repositories follow.
pub proof fn lemma_stopped_stays(
    locks: Locks,
    reg: Registry,
    config: SeshConfig,
    repos: Seq<String>,
    session: Seq<char>,
    now: Timestamp,
    at: int,
    upto: int,
)
    requires
        0 <= at <= upto,
        arbitrated(locks, reg, config, repos, session, now, at).stopped,
    ensures
        arbitrated(locks, reg, config, repos, session, now, upto) == arbitrated(
            locks,
            reg,
            config,
            repos,
            session,
            now,
            at,
        ),
    decreases upto - at,
{
    if at < upto {
        lemma_stopped_stays(locks, reg, config, repos, session, now, at, upto - 1);
    }
}

/// Arbitrates the locks of a session's repositories as of the current
/// time.
pub fn arbitrate_locks(
    table: &mut LockTable,
    reg: &Registry,
    config: &SeshConfig,
    repos: &Vec<String>,
    session_name: &str,
) -> (report: Result<Vec<Arbitration>, ArbitrationStopped>)
    ensures
        exists|now: Timestamp|
            {
                let end = #[trigger] arbitrated(
                    old(table)@,
                    *reg,
                    *config,
                    repos@,
                    session_name@,
                    now,
                    repos.len() as int,
                );
                &&& final(table)@ == end.locks
                &&& report is Err <==> end.stopped
                &&& report is Ok ==> rulings_of(report->Ok_0@) == end.rulings
                &&& report is Err ==> rulings_of(report->Err_0.decided@) == end.rulings
                    && report->Err_0.unreadable@ == end.culprit
            },
{
    let now = clock_now();
    arbitrate_locks_at(table, reg, config, repos, session_name, now)
}

/// The repositories that a report says were skipped, in the order of the
/// report.
pub open spec fn skipped_in(rulings: Seq<(Seq<char>, Ruling)>) -> Seq<Seq<char>>
    decreases rulings.len(),
{
    if rulings.len() == 0 {
        Seq::empty()
    } else if rulings.last().1 is Skipped {
        skipped_in(rulings.drop_last()).push(rulings.last().0)
    } else {
        skipped_in(rulings.drop_last())
    }
}

/// The repositories whose services the session goes without: those
/// skipped because another session holds their lock.
pub fn skipped_repos(report: &Vec<Arbitration>) -> (skipped: Vec<String>)
    ensures
        crate::text::texts(skipped@) == skipped_in(rulings_of(report@)),
{
    let mut skipped: Vec<String> = Vec::new();
    let mut i: usize = 0;
    assert(rulings_of(report@).take(0).len() == 0);
    assert(crate::text::texts(skipped@) =~= Seq::<Seq<char>>::empty());
    while i < report.len()
        invariant
            i <= report.len(),
            crate::text::texts(skipped@) == skipped_in(rulings_of(report@).take(i as int)),
        decreases report.len() - i,
    {
        let ghost upto = rulings_of(report@).take(i + 1);
        let ghost before = crate::text::texts(skipped@);
        proof {
            assert(upto.drop_last() == rulings_of(report@).take(i as int));
            assert(upto.last() == (report@[i as int].repo@, ruling_of(report@[i as int].verdict)));
        }
        match &report[i].verdict {
            LockVerdict::Skipped { holder } => {
                skipped.push(report[i].repo.clone());
                assert(crate::text::texts(skipped@) =~= before.push(report@[i as int].repo@));
            },
            _ => {},
        }
        i = i + 1;
    }
    assert(rulings_of(report@).take(report.len() as int) == rulings_of(report@));
    skipped
}

/// The repositories whose lock a report says the session got, by taking
/// a free lock or a stale one, in the order of the report.
pub open spec fn won_in(rulings: Seq<(Seq<char>, Ruling)>) -> Seq<Seq<char>>
    decreases rulings.len(),
{
    if rulings.len() == 0 {
        Seq::empty()
    } else if rulings.last().1 is Skipped {
        won_in(rulings.drop_last())
    } else {
        won_in(rulings.drop_last()).push(rulings.last().0)
    }
}

/// The repositories whose lock the session now holds by the verdicts:
/// these are the lock files to write.
pub fn locks_won(report: &Vec<Arbitration>) -> (won: Vec<String>)
    ensures
        texts(won@) == won_in(rulings_of(report@)),
{
    let mut won: Vec<String> = Vec::new();
    let mut i: usize = 0;
    assert(rulings_of(report@).take(0).len() == 0);
    assert(texts(won@) =~= Seq::<Seq<char>>::empty());
    while i < report.len()
        invariant
            i <= report.len(),
            texts(won@) == won_in(rulings_of(report@).take(i as int)),
        decreases report.len() - i,
    {
        let ghost upto = rulings_of(report@).take(i + 1);
        let ghost before = texts(won@);
        proof {
            assert(upto.drop_last() == rulings_of(report@).take(i as int));
            assert(upto.last() == (report@[i as int].repo@, ruling_of(report@[i as int].verdict)));
        }
        match &report[i].verdict {
            LockVerdict::Skipped { holder } => {},
            _ => {
                won.push(report[i].repo.clone());
                assert(texts(won@) =~= before.push(report@[i as int].repo@));
            },
        }
        i = i + 1;
    }
    assert(rulings_of(report@).take(report.len() as int) == rulings_of(report@));
    won
}

/// A session that is skipped for a repository leaves the lock with its
/// holder, and a session that is not skipped holds the lock afterwards.
pub proof fn lemma_ruling_decides_the_holder(
    locks: Locks,
    reg: Registry,
    repo: Seq<char>,
    session: Seq<char>,
    now: Timestamp,
)
    ensures
        ruling_for(locks, reg, repo) is Skipped ==> holder_of(
            locks_after_ruling(locks, reg, repo, session, now),
            repo,
        ) == holder_of(locks, repo) && reg.has_record(holder_of(locks, repo)->0.session),
        !(ruling_for(locks, reg, repo) is Skipped) ==> holder_of(
            locks_after_ruling(locks, reg, repo, session, now),
            repo,
        ) == Some(Holder { session, locked_at: now }),
        ruling_for(locks, reg, repo) is Reclaimed ==> !reg.has_record(
            holder_of(locks, repo)->0.session,
        ),
{
}

/// What an activation did about one exclusive repository.
#[derive(Debug, Clone)]
pub enum Handover {
    /// The session already held the lock; nothing was written.
    AlreadyHeld,
    /// The lock was free and is now the session's.
    Acquired,
    /// The lock named a session that no longer exists and is now the
    /// session's.
    Reclaimed { stale: String },
    /// The lock was taken over from a session that still exists, which is
    /// owed a teardown.
    Transferred { from: String },
}

/// A handover as plain values.
pub ghost enum Transfer {
    AlreadyHeld,
    Acquired,
    Reclaimed { stale: Seq<char> },
    Transferred { from: Seq<char> },
}

/// The plain values of a handover.
pub open spec fn transfer_of(h: Handover) -> Transfer {
    match h {
        Handover::AlreadyHeld => Transfer::AlreadyHeld,
        Handover::Acquired => Transfer::Acquired,
        Handover::Reclaimed { stale } => Transfer::Reclaimed { stale: stale@ },
        Handover::Transferred { from } => Transfer::Transferred { from: from@ },
    }
}

/// What an activation of `session` does about `repo`.
pub open spec fn transfer_for(locks: Locks, reg: Registry, repo: Seq<char>, session: Seq<char>) -> Transfer {
    match holder_of(locks, repo) {
        None => Transfer::Acquired,
        Some(h) => if h.session == session {
            Transfer::AlreadyHeld
        } else if reg.has_record(h.session) {
            Transfer::Transferred { from: h.session }
        } else {
            Transfer::Reclaimed { stale: h.session }
        },
    }
}

/// The locks after an activation of `session` dealt with `repo`.
pub open spec fn locks_after_transfer(
    locks: Locks,
    reg: Registry,
    repo: Seq<char>,
    session: Seq<char>,
    now: Timestamp,
) -> Locks {
    if transfer_for(locks, reg, repo, session) is AlreadyHeld {
        locks
    } else {
        acquired(locks, repo, session, now)
    }
}

/// Hands the lock of one exclusive repository to the session that is
/// being activated, whoever holds it. An unreadable lock file is an error
/// and nothing changes.
pub fn transfer_lock_at(
    table: &mut LockTable,
    reg: &Registry,
    repo_name: &str,
    session_name: &str,
    now: Timestamp,
) -> (handover: Result<Handover, UnreadableLock>)
    ensures
        handover is Err <==> unreadable(old(table)@, repo_name@),
        handover is Err ==> final(table)@ == old(table)@,
        handover is Ok ==> transfer_of(handover->Ok_0) == transfer_for(
            old(table)@,
            *reg,
            repo_name@,
            session_name@,
        ) && final(table)@ == locks_after_transfer(
            old(table)@,
            *reg,
            repo_name@,
            session_name@,
            now,
        ),
        handover is Ok ==> holder_of(final(table)@, repo_name@) is Some && holder_of(
            final(table)@,
            repo_name@,
        )->0.session == session_name@,
{
    let handover = match check_lock(table, repo_name) {
        Err(e) => {
            return Err(e);
        },
        Ok(None) => Handover::Acquired,
        Ok(Some(info)) => {
            if same_text(info.session.as_str(), session_name) {
                return Ok(Handover::AlreadyHeld);
            } else if session_exists(reg, info.session.as_str()) {
                Handover::Transferred { from: info.session.clone() }
            } else {
                Handover::Reclaimed { stale: info.session.clone() }
            }
        },
    };
    acquire_lock_at(table, repo_name, session_name, now);
    Ok(handover)
}

/// The outcome of handing over the locks of the first `upto`
/// repositories, one after the other: the locks, what was done about each
/// repository, and whether an unreadable lock file stopped the run, and
/// whose it was. After a stop nothing further changes.
pub ghost struct Handovers {
    pub locks: Locks,
    pub made: Seq<(Seq<char>, Transfer)>,
    pub stopped: bool,
    pub culprit: Seq<char>,
}

/// See `Handovers`.
pub open spec fn transferred(
    locks: Locks,
    reg: Registry,
    repos: Seq<String>,
    session: Seq<char>,
    now: Timestamp,
    upto: int,
) -> Handovers
    decreases upto,
{
    if upto <= 0 {
        Handovers { locks, made: Seq::empty(), stopped: false, culprit: Seq::empty() }
    } else {
        let before = transferred(locks, reg, repos, session, now, upto - 1);
        let repo = repos[upto - 1]@;
        if before.stopped {
            before
        } else if unreadable(before.locks, repo) {
            Handovers { stopped: true, culprit: repo, ..before }
        } else {
            Handovers {
                locks: locks_after_transfer(before.locks, reg, repo, session, now),
                made: before.made.push((repo, transfer_for(before.locks, reg, repo, session))),
                stopped: false,
                culprit: before.culprit,
            }
        }
    }
}

/// Once an unreadable lock file has stopped a handover, the outcome is
/// the same however many repositories follow.
pub proof fn lemma_handover_stopped_stays(
    locks: Locks,
    reg: Registry,
    repos: Seq<String>,
    session: Seq<char>,
    now: Timestamp,
    at: int,
    upto: int,
)
    requires
        0 <= at <= upto,
        transferred(locks, reg, repos, session, now, at).stopped,
    ensures
        transferred(locks, reg, repos, session, now, upto) == transferred(
            locks,
            reg,
            repos,
            session,
            now,
            at,
        ),
    decreases upto - at,
{
    if at < upto {
        lemma_handover_stopped_stays(locks, reg, repos, session, now, at, upto - 1);
    }
}

/// After a handover that ran through, the session holds the lock of
/// every repository handed over.
pub proof fn lemma_handover_gives_the_lock(
    locks: Locks,
    reg: Registry,
    repos: Seq<String>,
    session: Seq<char>,
    now: Timestamp,
    upto: int,
    i: int,
)
    requires
        0 <= i < upto <= repos.len(),
        !transferred(locks, reg, repos, session, now, upto).stopped,
    ensures
        holder_of(transferred(locks, reg, repos, session, now, upto).locks, repos[i]@) is Some,
        holder_of(transferred(locks, reg, repos, session, now, upto).locks, repos[i]@)->0.session
            == session,
    decreases upto,
{
    let before = transferred(locks, reg, repos, session, now, upto - 1);
    assert(!before.stopped);
    if i < upto - 1 {
        lemma_handover_gives_the_lock(locks, reg, repos, session, now, upto - 1, i);
    }
}

/// A handover changes no lock but those of the repositories handed over:
/// the lock of any other repository is as it was, whether the handover
/// ran through or stopped.
pub proof fn lemma_handover_leaves_other_locks(
    locks: Locks,
    reg: Registry,
    repos: Seq<String>,
    session: Seq<char>,
    now: Timestamp,
    upto: int,
    other: Seq<char>,
)
    requires
        0 <= upto <= repos.len(),
        forall|i: int| 0 <= i < upto ==> (#[trigger] repos[i])@ != other,
    ensures
        transferred(locks, reg, repos, session, now, upto).locks.dom().contains(other)
            == locks.dom().contains(other),
        locks.dom().contains(other) ==> transferred(locks, reg, repos, session, now, upto).locks[other]
            == locks[other],
    decreases upto,
{
    if upto > 0 {
        lemma_handover_leaves_other_locks(locks, reg, repos, session, now, upto - 1, other);
        assert(repos[upto - 1]@ != other);
    }
}

/// What was done about the lock of one repository.
#[derive(Debug, Clone)]
pub struct LockHandover {
    pub repo: String,
    pub handover: Handover,
}

/// A handover of locks that an unreadable lock file ended.
#[derive(Debug, Clone)]
pub struct HandoverStopped {
    /// What was done before the stop; it stands.
    pub made: Vec<LockHandover>,
    /// The repository whose lock file cannot be read.
    pub unreadable: String,
}

/// The handovers as plain values.
pub open spec fn transfers_of(made: Seq<LockHandover>) -> Seq<(Seq<char>, Transfer)> {
    Seq::new(made.len(), |i: int| (made[i].repo@, transfer_of(made[i].handover)))
}

/// Hands the locks of `repos` to the session that is being activated, as
/// of `now`, in the order of `repos`. An unreadable lock file ends the run
/// with an error; the locks handed over before it stay handed over.
pub fn transfer_locks_at(
    table: &mut LockTable,
    reg: &Registry,
    repos: &Vec<String>,
    session_name: &str,
    now: Timestamp,
) -> (report: Result<Vec<LockHandover>, HandoverStopped>)
    ensures
        ({
            let end = transferred(old(table)@, *reg, repos@, session_name@, now, repos.len() as int);
            &&& final(table)@ == end.locks
            &&& report is Err <==> end.stopped
            &&& report is Ok ==> transfers_of(report->Ok_0@) == end.made
            &&& report is Err ==> transfers_of(report->Err_0.made@) == end.made
                && report->Err_0.unreadable@ == end.culprit
        }),
{
    let mut made: Vec<LockHandover> = Vec::new();
    let mut i: usize = 0;
    assert(transfers_of(made@) =~= Seq::<(Seq<char>, Transfer)>::empty());
    while i < repos.len()
        invariant
            i <= repos.len(),
            ({
                let mid = transferred(old(table)@, *reg, repos@, session_name@, now, i as int);
                &&& table@ == mid.locks
                &&& !mid.stopped
                &&& transfers_of(made@) == mid.made
            }),
        decreases repos.len() - i,
    {
        let repo = &repos[i];
        let ghost before = transfers_of(made@);
        match transfer_lock_at(table, reg, repo.as_str(), session_name, now) {
            Err(_) => {
                proof {
                    lemma_handover_stopped_stays(
                        old(table)@,
                        *reg,
                        repos@,
                        session_name@,
                        now,
                        i + 1,
                        repos.len() as int,
                    );
                }
                return Err(HandoverStopped { made, unreadable: repo.clone() });
            },
            Ok(handover) => {
                made.push(LockHandover { repo: repo.clone(), handover });
                assert(transfers_of(made@) =~= before.push((repo@, transfer_of(handover))));
            },
        }
        i = i + 1;
    }
    Ok(made)
}

/// The sessions that the first `upto` handovers took a lock from.
pub open spec fn losing_sessions(made: Seq<(Seq<char>, Transfer)>, upto: int) -> Seq<Seq<char>>
    decreases upto,
{
    if upto <= 0 {
        Seq::empty()
    } else {
        let rest = losing_sessions(made, upto - 1);
        match made[upto - 1].1 {
            Transfer::Transferred { from } => rest.push(from),
            _ => rest,
        }
    }
}

/// The sessions that are owed a teardown after these handovers: every
/// session that a lock was taken over from, once, in dictionary order.
pub fn sessions_to_tear_down(made: &Vec<LockHandover>) -> (sessions: Vec<String>)
    ensures
        is_sorted_set_of(
            losing_sessions(transfers_of(made@), made.len() as int),
            texts(sessions@),
        ),
{
    let mut from: Vec<String> = Vec::new();
    let mut i: usize = 0;
    assert(texts(from@) =~= Seq::<Seq<char>>::empty());
    while i < made.len()
        invariant
            i <= made.len(),
            texts(from@) == losing_sessions(transfers_of(made@), i as int),
        decreases made.len() - i,
    {
        let ghost before = texts(from@);
        match &made[i].handover {
            Handover::Transferred { from: session } => {
                from.push(session.clone());
                assert(texts(from@) =~= before.push(session@));
            },
            _ => {},
        }
        i = i + 1;
    }
    sorted_unique(&from)
}

/// The locks after a stopping session gave back the lock of `repo`: the
/// lock goes if the repository is exclusive and the session holds it, and
/// stays otherwise.
pub open spec fn locks_after_stop(
    locks: Locks,
    config: SeshConfig,
    repo: Seq<char>,
    session: Seq<char>,
) -> Locks {
    if marked_exclusive(config.repos@, repo) && holder_of(locks, repo) is Some && holder_of(
        locks,
        repo,
    )->0.session == session {
        released(locks, repo)
    } else {
        locks
    }
}

/// The locks after a stopping session gave back the locks of its first
/// `upto` repositories.
pub open spec fn locks_after_stops(
    locks: Locks,
    config: SeshConfig,
    repos: Seq<String>,
    session: Seq<char>,
    upto: int,
) -> Locks
    decreases upto,
{
    if upto <= 0 {
        locks
    } else {
        locks_after_stop(
            locks_after_stops(locks, config, repos, session, upto - 1),
            config,
            repos[upto - 1]@,
            session,
        )
    }
}

/// Gives back the locks that a stopping session holds on its exclusive
/// repositories. Locks held by other sessions, unreadable lock files and
/// the locks of repositories that are not exclusive are left alone. The
/// result tells, for each repository, whether its lock was released.
pub fn release_session_locks(
    table: &mut LockTable,
    config: &SeshConfig,
    repos: &Vec<String>,
    session_name: &str,
) -> (released_flags: Vec<bool>)
    ensures
        final(table)@ == locks_after_stops(
            old(table)@,
            *config,
            repos@,
            session_name@,
            repos.len() as int,
        ),
        released_flags.len() == repos.len(),
        forall|i: int|
            0 <= i < repos.len() ==> #[trigger] released_flags@[i] == (locks_after_stops(
                old(table)@,
                *config,
                repos@,
                session_name@,
                i + 1,
            ) != locks_after_stops(old(table)@, *config, repos@, session_name@, i)),
{
    let mut flags: Vec<bool> = Vec::new();
    let mut i: usize = 0;
    while i < repos.len()
        invariant
            i <= repos.len(),
            flags.len() == i,
            table@ == locks_after_stops(old(table)@, *config, repos@, session_name@, i as int),
            forall|j: int|
                0 <= j < i ==> #[trigger] flags@[j] == (locks_after_stops(
                    old(table)@,
                    *config,
                    repos@,
                    session_name@,
                    j + 1,
                ) != locks_after_stops(old(table)@, *config, repos@, session_name@, j)),
        decreases repos.len() - i,
    {
        let repo = &repos[i];
        let ghost before = table@;
        let mut mine = false;
        if config.is_exclusive(repo.as_str()) {
            match check_lock(table, repo.as_str()) {
                Ok(Some(info)) => {
                    if same_text(info.session.as_str(), session_name) {
                        mine = true;
                    }
                },
                _ => {},
            }
        }
        if mine {
            release_lock(table, repo.as_str());
            assert(before.dom().contains(repo@));
            assert(!table@.dom().contains(repo@));
        }
        flags.push(mine);
        i = i + 1;
    }
    flags
}

/// The exclusive ones among the first `upto` repositories.
pub open spec fn exclusive_among(config: SeshConfig, repos: Seq<String>, upto: int) -> Seq<Seq<char>>
    decreases upto,
{
    if upto <= 0 {
        Seq::empty()
    } else {
        let rest = exclusive_among(config, repos, upto - 1);
        if marked_exclusive(config.repos@, repos[upto - 1]@) {
            rest.push(repos[upto - 1]@)
        } else {
            rest
        }
    }
}

/// The repositories among `repos` that the settings mark as exclusive, in
/// the order of `repos`.
pub fn exclusive_repos(config: &SeshConfig, repos: &Vec<String>) -> (exclusive: Vec<String>)
    ensures
        texts(exclusive@) == exclusive_among(*config, repos@, repos.len() as int),
{
    let mut exclusive: Vec<String> = Vec::new();
    let mut i: usize = 0;
    assert(texts(exclusive@) =~= Seq::<Seq<char>>::empty());
    while i < repos.len()
        invariant
            i <= repos.len(),
            texts(exclusive@) == exclusive_among(*config, repos@, i as int),
        decreases repos.len() - i,
    {
        let ghost before = texts(exclusive@);
        if config.is_exclusive(repos[i].as_str()) {
            exclusive.push(repos[i].clone());
            assert(texts(exclusive@) =~= before.push(repos@[i as int]@));
        }
        i = i + 1;
    }
    exclusive
}

} // verus!
