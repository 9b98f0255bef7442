//! Diagnostics: finding drift between the registry, the disk and the locks.
//!
//! A crash, or a worktree deleted by hand, leaves the records and the disk
//! in disagreement. The read pass compares them and lists what it finds;
//! it only looks. The write pass is a list of repairs drawn up from the
//! findings, carried out only when the operator agrees.

use vstd::prelude::*;
use crate::lock::{
    check_lock, held_pairs, holder_of, list_locks, lock_pairs, release_lock, LockInfo, LockTable,
    Locks,
};
use crate::session::{
    delete_session_dir, infos, is_newest_first, list_sessions, name_taken, session_dir,
    session_dir_path, session_exists, Record, Registry, SessionDir, SessionInfo,
};
use crate::text::{chars_of, push_str, same_text, starts_with, string_of};

verus! {

/// Something that is not as the registry says.
#[derive(Debug, Clone)]
pub enum Finding {
    /// A session lists a worktree that is not on disk.
    MissingWorktree { session: String, repo: String, path: String },
    /// A repository has a worktree in the managed area that no session
    /// claims.
    OrphanedWorktree { repo: String, path: String },
    /// A session directory lacks a valid record: its record file is
    /// missing or cannot be read as a session.
    StaleSessionDir { dir_name: String },
    /// A lock names a session that is not in the registry.
    StaleLock { repo: String, session: String },
}

/// A finding as plain values.
pub ghost enum Defect {
    MissingWorktree { session: Seq<char>, repo: Seq<char>, path: Seq<char> },
    OrphanedWorktree { repo: Seq<char>, path: Seq<char> },
    StaleSessionDir { dir_name: Seq<char> },
    StaleLock { repo: Seq<char>, session: Seq<char> },
}

/// The plain values of a finding.
pub open spec fn defect_of(f: Finding) -> Defect {
    match f {
        Finding::MissingWorktree { session, repo, path } => Defect::MissingWorktree {
            session: session@,
            repo: repo@,
            path: path@,
        },
        Finding::OrphanedWorktree { repo, path } => Defect::OrphanedWorktree {
            repo: repo@,
            path: path@,
        },
        Finding::StaleSessionDir { dir_name } => Defect::StaleSessionDir { dir_name: dir_name@ },
        Finding::StaleLock { repo, session } => Defect::StaleLock {
            repo: repo@,
            session: session@,
        },
    }
}

/// The plain values of a list of findings.
pub open spec fn defects_of(findings: Seq<Finding>) -> Seq<Defect> {
    Seq::new(findings.len(), |i: int| defect_of(findings[i]))
}

/// The worktrees that git reports for one repository.
#[derive(Debug, Clone)]
pub struct RepoWorktrees {
    pub repo: String,
    pub worktrees: Vec<String>,
}

/// The missing worktrees among the first `upto` repositories of a session:
/// those whose path is not among `present`.
pub open spec fn missing_in(session: SessionInfo, present: Seq<String>, upto: int) -> Seq<Defect>
    decreases upto,
{
    if upto <= 0 {
        Seq::empty()
    } else {
        let rest = missing_in(session, present, upto - 1);
        let repo = session.repos@[upto - 1];
        if name_taken(present, repo.worktree_path@) {
            rest
        } else {
            rest.push(
                Defect::MissingWorktree {
                    session: session.name@,
                    repo: repo.name@,
                    path: repo.worktree_path@,
                },
            )
        }
    }
}

/// The missing worktrees of all sessions, session by session.
pub open spec fn missing_worktrees(listing: Seq<SessionInfo>, present: Seq<String>) -> Seq<Defect>
    decreases listing.len(),
{
    if listing.len() == 0 {
        Seq::empty()
    } else {
        missing_worktrees(listing.drop_last(), present) + missing_in(
            listing.last(),
            present,
            listing.last().repos@.len() as int,
        )
    }
}

/// Whether some session of `listing` has a worktree at `path`.
pub open spec fn claimed(listing: Seq<SessionInfo>, path: Seq<char>) -> bool {
    exists|i: int, j: int|
        0 <= i < listing.len() && 0 <= j < listing[i].repos@.len()
            && (#[trigger] listing[i].repos@[j]).worktree_path@ == path
}

/// Whether a worktree at `path` is an orphan: it lies in the managed area
/// `area` and no session claims it.
pub open spec fn is_orphan(listing: Seq<SessionInfo>, area: Seq<char>, path: Seq<char>) -> bool {
    area.is_prefix_of(path) && !claimed(listing, path)
}

/// The orphans among the first `upto` worktrees of one repository.
pub open spec fn orphans_in(
    listing: Seq<SessionInfo>,
    area: Seq<char>,
    repo: RepoWorktrees,
    upto: int,
) -> Seq<Defect>
    decreases upto,
{
    if upto <= 0 {
        Seq::empty()
    } else {
        let rest = orphans_in(listing, area, repo, upto - 1);
        let path = repo.worktrees@[upto - 1]@;
        if is_orphan(listing, area, path) {
            rest.push(Defect::OrphanedWorktree { repo: repo.repo@, path })
        } else {
            rest
        }
    }
}

/// The orphaned worktrees of all repositories, repository by repository.
pub open spec fn orphaned_worktrees(
    listing: Seq<SessionInfo>,
    area: Seq<char>,
    repos: Seq<RepoWorktrees>,
) -> Seq<Defect>
    decreases repos.len(),
{
    if repos.len() == 0 {
        Seq::empty()
    } else {
        orphaned_worktrees(listing, area, repos.drop_last()) + orphans_in(
            listing,
            area,
            repos.last(),
            repos.last().worktrees@.len() as int,
        )
    }
}

/// The session directories among `dirs` that lack a valid record: the
/// record file is missing, or it cannot be read as a session.
pub open spec fn stale_dirs(dirs: Seq<Seq<char>>, registry: Map<Seq<char>, crate::session::SessionDir>) -> Seq<
    Defect,
>
    decreases dirs.len(),
{
    if dirs.len() == 0 {
        Seq::empty()
    } else {
        let rest = stale_dirs(dirs.drop_last(), registry);
        if !(registry[dirs.last()].record is Valid) {
            rest.push(Defect::StaleSessionDir { dir_name: dirs.last() })
        } else {
            rest
        }
    }
}

/// The locks among `held` whose session has no record in the registry.
pub open spec fn stale_locks(held: Seq<(Seq<char>, Seq<char>)>, reg: Registry) -> Seq<Defect>
    decreases held.len(),
{
    if held.len() == 0 {
        Seq::empty()
    } else {
        let rest = stale_locks(held.drop_last(), reg);
        if reg.has_record(held.last().1) {
            rest
        } else {
            rest.push(Defect::StaleLock { repo: held.last().0, session: held.last().1 })
        }
    }
}

/// A worktree that a session lists and that is not on disk is found
/// missing.
pub proof fn lemma_missing_worktree_is_flagged(
    listing: Seq<SessionInfo>,
    present: Seq<String>,
    i: int,
    j: int,
)
    requires
        0 <= i < listing.len(),
        0 <= j < listing[i].repos@.len(),
        !name_taken(present, listing[i].repos@[j].worktree_path@),
    ensures
        missing_worktrees(listing, present).contains(
            Defect::MissingWorktree {
                session: listing[i].name@,
                repo: listing[i].repos@[j].name@,
                path: listing[i].repos@[j].worktree_path@,
            },
        ),
    decreases listing.len(),
{
    let wanted = Defect::MissingWorktree {
        session: listing[i].name@,
        repo: listing[i].repos@[j].name@,
        path: listing[i].repos@[j].worktree_path@,
    };
    let front = missing_worktrees(listing.drop_last(), present);
    let tail = missing_in(listing.last(), present, listing.last().repos@.len() as int);
    if i == listing.len() - 1 {
        lemma_missing_in_session(listing[i], present, listing[i].repos@.len() as int, j);
        let k = choose|k: int| 0 <= k < tail.len() && tail[k] == wanted;
        assert((front + tail)[front.len() + k] == wanted);
    } else {
        assert(listing.drop_last()[i] == listing[i]);
        lemma_missing_worktree_is_flagged(listing.drop_last(), present, i, j);
        let k = choose|k: int| 0 <= k < front.len() && front[k] == wanted;
        assert((front + tail)[k] == wanted);
    }
}

proof fn lemma_missing_in_session(session: SessionInfo, present: Seq<String>, upto: int, j: int)
    requires
        0 <= j < upto <= session.repos@.len(),
        !name_taken(present, session.repos@[j].worktree_path@),
    ensures
        missing_in(session, present, upto).contains(
            Defect::MissingWorktree {
                session: session.name@,
                repo: session.repos@[j].name@,
                path: session.repos@[j].worktree_path@,
            },
        ),
    decreases upto,
{
    let wanted = Defect::MissingWorktree {
        session: session.name@,
        repo: session.repos@[j].name@,
        path: session.repos@[j].worktree_path@,
    };
    let all = missing_in(session, present, upto);
    if j == upto - 1 {
        assert(all[all.len() - 1] == wanted);
    } else {
        lemma_missing_in_session(session, present, upto - 1, j);
        let rest = missing_in(session, present, upto - 1);
        let k = choose|k: int| 0 <= k < rest.len() && rest[k] == wanted;
        assert(all[k] == wanted);
    }
}

/// Only worktrees that are not on disk are found missing: a worktree
/// that is accounted for is never flagged.
pub proof fn lemma_present_worktree_is_not_flagged(
    listing: Seq<SessionInfo>,
    present: Seq<String>,
    k: int,
)
    requires
        0 <= k < missing_worktrees(listing, present).len(),
    ensures
        missing_worktrees(listing, present)[k] is MissingWorktree,
        !name_taken(present, missing_worktrees(listing, present)[k]->MissingWorktree_path),
    decreases listing.len(),
{
    if listing.len() > 0 {
        let front = missing_worktrees(listing.drop_last(), present);
        let tail = missing_in(listing.last(), present, listing.last().repos@.len() as int);
        if k < front.len() {
            lemma_present_worktree_is_not_flagged(listing.drop_last(), present, k);
        } else {
            lemma_missing_in_only_absent(
                listing.last(),
                present,
                listing.last().repos@.len() as int,
                k - front.len(),
            );
        }
    }
}

proof fn lemma_missing_in_only_absent(session: SessionInfo, present: Seq<String>, upto: int, k: int)
    requires
        0 <= k < missing_in(session, present, upto).len(),
    ensures
        missing_in(session, present, upto)[k] is MissingWorktree,
        !name_taken(present, missing_in(session, present, upto)[k]->MissingWorktree_path),
    decreases upto,
{
    if upto > 0 {
        let rest = missing_in(session, present, upto - 1);
        if k < rest.len() {
            lemma_missing_in_only_absent(session, present, upto - 1, k);
        }
    }
}

/// A session directory is found stale exactly when it lacks a valid
/// record: a directory whose record is missing or unreadable is flagged,
/// and a directory with a valid record never is.
pub proof fn lemma_stale_dir_is_flagged(
    dirs: Seq<Seq<char>>,
    registry: Map<Seq<char>, crate::session::SessionDir>,
)
    ensures
        forall|i: int|
            0 <= i < dirs.len() && !(registry[#[trigger] dirs[i]].record is Valid) ==> stale_dirs(
                dirs,
                registry,
            ).contains(Defect::StaleSessionDir { dir_name: dirs[i] }),
        forall|k: int|
            0 <= k < stale_dirs(dirs, registry).len() ==> (#[trigger] stale_dirs(dirs, registry)[k])
                is StaleSessionDir && dirs.contains(
                stale_dirs(dirs, registry)[k]->StaleSessionDir_dir_name,
            ) && !(registry[stale_dirs(dirs, registry)[k]->StaleSessionDir_dir_name].record
                is Valid),
    decreases dirs.len(),
{
    if dirs.len() > 0 {
        let front = dirs.drop_last();
        let rest = stale_dirs(front, registry);
        let all = stale_dirs(dirs, registry);
        lemma_stale_dir_is_flagged(front, registry);
        assert forall|i: int|
            0 <= i < dirs.len() && !(registry[#[trigger] dirs[i]].record is Valid) implies all.contains(
            Defect::StaleSessionDir { dir_name: dirs[i] },
        ) by {
            if i < front.len() {
                assert(front[i] == dirs[i]);
                let wanted = Defect::StaleSessionDir { dir_name: front[i] };
                assert(rest.contains(wanted));
                let k = choose|k: int| 0 <= k < rest.len() && rest[k] == wanted;
                assert(all[k] == wanted);
            } else {
                assert(all[all.len() - 1] == Defect::StaleSessionDir { dir_name: dirs[i] });
            }
        }
        assert forall|k: int| 0 <= k < all.len() implies (#[trigger] all[k]) is StaleSessionDir
            && dirs.contains(all[k]->StaleSessionDir_dir_name) && !(
        registry[all[k]->StaleSessionDir_dir_name].record is Valid) by {
            if k < rest.len() {
                assert(all[k] == rest[k]);
                let name = rest[k]->StaleSessionDir_dir_name;
                assert(front.contains(name));
                let j = choose|j: int| 0 <= j < front.len() && front[j] == name;
                assert(dirs[j] == name);
            } else {
                assert(dirs[dirs.len() - 1] == dirs.last());
            }
        }
    }
}

/// A lock whose session is gone from the registry is found stale, and a
/// lock whose session is there is not.
pub proof fn lemma_stale_lock_is_flagged(held: Seq<(Seq<char>, Seq<char>)>, reg: Registry, i: int)
    requires
        0 <= i < held.len(),
    ensures
        !reg.has_record(held[i].1) ==> stale_locks(held, reg).contains(
            Defect::StaleLock { repo: held[i].0, session: held[i].1 },
        ),
        forall|k: int|
            0 <= k < stale_locks(held, reg).len() ==> (#[trigger] stale_locks(held, reg)[k])
                is StaleLock && !reg.has_record(stale_locks(held, reg)[k]->StaleLock_session),
    decreases held.len(),
{
    let all = stale_locks(held, reg);
    let rest = stale_locks(held.drop_last(), reg);
    if held.len() > 1 || i < held.len() - 1 {
        if held.drop_last().len() > 0 {
            let i2 = if i < held.len() - 1 { i } else { 0 };
            lemma_stale_lock_is_flagged(held.drop_last(), reg, i2);
        }
    }
    let wanted = Defect::StaleLock { repo: held[i].0, session: held[i].1 };
    if !reg.has_record(held[i].1) {
        if i == held.len() - 1 {
            assert(all[all.len() - 1] == wanted);
        } else {
            assert(held.drop_last()[i] == held[i]);
            let k = choose|k: int| 0 <= k < rest.len() && rest[k] == wanted;
            assert(all[k] == wanted);
        }
    }
    assert forall|k: int| 0 <= k < all.len() implies (#[trigger] all[k]) is StaleLock
        && !reg.has_record(all[k]->StaleLock_session) by {
        if k < rest.len() {
            assert(all[k] == rest[k]);
        }
    }
}

fn is_present(present: &Vec<String>, path: &str) -> (yes: bool)
    ensures
        yes == name_taken(present@, path@),
{
    let mut i: usize = 0;
    while i < present.len()
        invariant
            i <= present.len(),
            forall|j: int| 0 <= j < i ==> (#[trigger] present@[j])@ != path@,
        decreases present.len() - i,
    {
        if same_text(present[i].as_str(), path) {
            return true;
        }
        i = i + 1;
    }
    false
}

/// The worktrees that sessions list and that are not among the paths
/// `present` on disk.
pub fn find_missing_worktrees(listing: &Vec<&SessionInfo>, present: &Vec<String>) -> (found: Vec<
    Finding,
>)
    ensures
        defects_of(found@) == missing_worktrees(infos(listing@), present@),
{
    let mut found: Vec<Finding> = Vec::new();
    let mut i: usize = 0;
    assert(infos(listing@).take(0).len() == 0);
    assert(defects_of(found@) =~= Seq::<Defect>::empty());
    while i < listing.len()
        invariant
            i <= listing.len(),
            defects_of(found@) == missing_worktrees(infos(listing@).take(i as int), present@),
        decreases listing.len() - i,
    {
        let session: &SessionInfo = listing[i];
        let ghost upto_sessions = infos(listing@).take(i + 1);
        let ghost before = defects_of(found@);
        proof {
            assert(upto_sessions.drop_last() == infos(listing@).take(i as int));
            assert(upto_sessions.last() == *session);
        }
        let mut j: usize = 0;
        while j < session.repos.len()
            invariant
                j <= session.repos.len(),
                defects_of(found@) == before + missing_in(*session, present@, j as int),
            decreases session.repos.len() - j,
        {
            let repo = &session.repos[j];
            let ghost sofar = defects_of(found@);
            if !is_present(present, repo.worktree_path.as_str()) {
                found.push(
                    Finding::MissingWorktree {
                        session: session.name.clone(),
                        repo: repo.name.clone(),
                        path: repo.worktree_path.clone(),
                    },
                );
                assert(defects_of(found@) =~= sofar.push(
                    Defect::MissingWorktree {
                        session: session.name@,
                        repo: repo.name@,
                        path: repo.worktree_path@,
                    },
                ));
            }
            assert(defects_of(found@) =~= before + missing_in(*session, present@, j + 1));
            j = j + 1;
        }
        i = i + 1;
    }
    assert(infos(listing@).take(listing.len() as int) == infos(listing@));
    found
}

fn is_claimed(listing: &Vec<&SessionInfo>, path: &str) -> (yes: bool)
    ensures
        yes == claimed(infos(listing@), path@),
{
    let mut i: usize = 0;
    while i < listing.len()
        invariant
            i <= listing.len(),
            forall|a: int, b: int|
                0 <= a < i && 0 <= b < infos(listing@)[a].repos@.len() ==> (
                #[trigger] infos(listing@)[a].repos@[b]).worktree_path@ != path@,
        decreases listing.len() - i,
    {
        let session: &SessionInfo = listing[i];
        assert(infos(listing@)[i as int] == *session);
        let mut j: usize = 0;
        while j < session.repos.len()
            invariant
                j <= session.repos.len(),
                i < listing.len(),
                infos(listing@)[i as int] == *session,
                forall|b: int| 0 <= b < j ==> (#[trigger] session.repos@[b]).worktree_path@ != path@,
            decreases session.repos.len() - j,
        {
            if same_text(session.repos[j].worktree_path.as_str(), path) {
                assert(infos(listing@)[i as int].repos@[j as int].worktree_path@ == path@);
                return true;
            }
            j = j + 1;
        }
        i = i + 1;
    }
    false
}

/// The worktrees that git reports inside the managed area `area` and that
/// no session claims.
pub fn find_orphaned_worktrees(
    listing: &Vec<&SessionInfo>,
    area: &str,
    repos: &Vec<RepoWorktrees>,
) -> (found: Vec<Finding>)
    ensures
        defects_of(found@) == orphaned_worktrees(infos(listing@), area@, repos@),
{
    let area_chars = chars_of(area);
    let mut found: Vec<Finding> = Vec::new();
    let mut i: usize = 0;
    assert(repos@.take(0).len() == 0);
    assert(defects_of(found@) =~= Seq::<Defect>::empty());
    while i < repos.len()
        invariant
            i <= repos.len(),
            area_chars@ == area@,
            defects_of(found@) == orphaned_worktrees(infos(listing@), area@, repos@.take(i as int)),
        decreases repos.len() - i,
    {
        let repo = &repos[i];
        let ghost upto = repos@.take(i + 1);
        let ghost before = defects_of(found@);
        proof {
            assert(upto.drop_last() == repos@.take(i as int));
            assert(upto.last() == *repo);
        }
        let mut j: usize = 0;
        while j < repo.worktrees.len()
            invariant
                j <= repo.worktrees.len(),
                area_chars@ == area@,
                defects_of(found@) == before + orphans_in(infos(listing@), area@, *repo, j as int),
            decreases repo.worktrees.len() - j,
        {
            let path = &repo.worktrees[j];
            let ghost sofar = defects_of(found@);
            let path_chars = chars_of(path.as_str());
            if starts_with(&path_chars, &area_chars) && !is_claimed(listing, path.as_str()) {
                found.push(Finding::OrphanedWorktree { repo: repo.repo.clone(), path: path.clone() });
                assert(defects_of(found@) =~= sofar.push(
                    Defect::OrphanedWorktree { repo: repo.repo@, path: path@ },
                ));
            }
            assert(defects_of(found@) =~= before + orphans_in(
                infos(listing@),
                area@,
                *repo,
                j + 1,
            ));
            j = j + 1;
        }
        i = i + 1;
    }
    assert(repos@.take(repos.len() as int) == repos@);
    found
}

/// The session directories that lack a valid record, whether the record
/// file is missing or unreadable.
pub fn find_stale_dirs(reg: &Registry) -> (found: Vec<Finding>)
    ensures
        defects_of(found@) == stale_dirs(reg.dir_order(), reg@),
{
    let n = reg.dir_count();
    let mut found: Vec<Finding> = Vec::new();
    let mut i: usize = 0;
    assert(reg.dir_order().take(0).len() == 0);
    assert(defects_of(found@) =~= Seq::<Defect>::empty());
    while i < n
        invariant
            i <= n,
            n == reg.dir_order().len(),
            defects_of(found@) == stale_dirs(reg.dir_order().take(i as int), reg@),
        decreases n - i,
    {
        let ghost upto = reg.dir_order().take(i + 1);
        let ghost sofar = defects_of(found@);
        proof {
            assert(upto.drop_last() == reg.dir_order().take(i as int));
            assert(upto.last() == reg.dir_order()[i as int]);
        }
        match &reg.dir_at(i).record {
            Record::Valid(_) => {},
            _ => {
                let name = reg.dir_name(i);
                found.push(Finding::StaleSessionDir { dir_name: name.clone() });
                assert(defects_of(found@) =~= sofar.push(
                    Defect::StaleSessionDir { dir_name: name@ },
                ));
            },
        }
        i = i + 1;
    }
    assert(reg.dir_order().take(n as int) == reg.dir_order());
    found
}

/// The locks among `held` whose session is not in the registry.
pub fn find_stale_locks(held: &Vec<(&String, &LockInfo)>, reg: &Registry) -> (found: Vec<Finding>)
    ensures
        defects_of(found@) == stale_locks(lock_pairs(held@), *reg),
{
    let mut found: Vec<Finding> = Vec::new();
    let mut i: usize = 0;
    assert(lock_pairs(held@).take(0).len() == 0);
    assert(defects_of(found@) =~= Seq::<Defect>::empty());
    while i < held.len()
        invariant
            i <= held.len(),
            defects_of(found@) == stale_locks(lock_pairs(held@).take(i as int), *reg),
        decreases held.len() - i,
    {
        let ghost upto = lock_pairs(held@).take(i + 1);
        let ghost sofar = defects_of(found@);
        proof {
            assert(upto.drop_last() == lock_pairs(held@).take(i as int));
            assert(upto.last() == (held@[i as int].0@, held@[i as int].1.session@));
        }
        let repo: &String = held[i].0;
        let info: &LockInfo = held[i].1;
        if !session_exists(reg, info.session.as_str()) {
            found.push(Finding::StaleLock { repo: repo.clone(), session: info.session.clone() });
            assert(defects_of(found@) =~= sofar.push(
                Defect::StaleLock { repo: repo@, session: info.session@ },
            ));
        }
        i = i + 1;
    }
    assert(lock_pairs(held@).take(held.len() as int) == lock_pairs(held@));
    found
}

/// Everything the read pass finds, in the order in which it is reported:
/// missing worktrees, orphaned worktrees, stale session directories and
/// stale locks.
pub open spec fn diagnosis(
    listing: Seq<SessionInfo>,
    present: Seq<String>,
    area: Seq<char>,
    repos: Seq<RepoWorktrees>,
    reg: Registry,
    held: Seq<(Seq<char>, Seq<char>)>,
) -> Seq<Defect> {
    missing_worktrees(listing, present) + orphaned_worktrees(listing, area, repos) + stale_dirs(
        reg.dir_order(),
        reg@,
    ) + stale_locks(held, reg)
}

/// The read pass. It compares the sessions of the registry with the paths
/// `present` on disk, the worktrees that git reports for each repository
/// with what the sessions claim, the session directories with their
/// records, and the locks with the sessions they name. It changes
/// nothing: the registry and the locks are only read.
pub fn diagnose(
    reg: &Registry,
    table: &LockTable,
    present: &Vec<String>,
    area: &str,
    repos: &Vec<RepoWorktrees>,
) -> (found: Vec<Finding>)
    ensures
        exists|listing: Seq<SessionInfo>|
            #![trigger is_newest_first(reg.records(), listing)]
            {
                &&& is_newest_first(reg.records(), listing)
                &&& defects_of(found@) == diagnosis(
                    listing,
                    present@,
                    area@,
                    repos@,
                    *reg,
                    held_pairs(table.repo_order(), table@),
                )
            },
{
    let listing = list_sessions(reg);
    let held = list_locks(table);
    let mut found = find_missing_worktrees(&listing, present);
    let ghost first = defects_of(found@);
    let mut orphans = find_orphaned_worktrees(&listing, area, repos);
    let ghost second = defects_of(orphans@);
    found.append(&mut orphans);
    assert(defects_of(found@) =~= first + second);
    let mut dirs = find_stale_dirs(reg);
    let ghost third = defects_of(dirs@);
    found.append(&mut dirs);
    assert(defects_of(found@) =~= first + second + third);
    let mut locks = find_stale_locks(&held, reg);
    let ghost fourth = defects_of(locks@);
    found.append(&mut locks);
    assert(defects_of(found@) =~= first + second + third + fourth);
    assert(defects_of(found@) == diagnosis(
        infos(listing@),
        present@,
        area@,
        repos@,
        *reg,
        held_pairs(table.repo_order(), table@),
    ));
    found
}

/// A repair of the write pass.
#[derive(Debug, Clone)]
pub enum Repair {
    /// Let git forget the worktrees whose directory is gone.
    PruneWorktrees { repo_path: String },
    /// Remove a session directory that lacks a valid record.
    RemoveSessionDir { dir_name: String },
    /// Remove the lock of a session that is gone.
    ReleaseLock { repo: String },
}

/// A repair as plain values.
pub ghost enum Remedy {
    PruneWorktrees { repo_path: Seq<char> },
    RemoveSessionDir { dir_name: Seq<char> },
    ReleaseLock { repo: Seq<char> },
}

/// The plain values of a repair.
pub open spec fn remedy_of(r: Repair) -> Remedy {
    match r {
        Repair::PruneWorktrees { repo_path } => Remedy::PruneWorktrees { repo_path: repo_path@ },
        Repair::RemoveSessionDir { dir_name } => Remedy::RemoveSessionDir { dir_name: dir_name@ },
        Repair::ReleaseLock { repo } => Remedy::ReleaseLock { repo: repo@ },
    }
}

/// The plain values of a list of repairs.
pub open spec fn remedies_of(repairs: Seq<Repair>) -> Seq<Remedy> {
    Seq::new(repairs.len(), |i: int| remedy_of(repairs[i]))
}

/// A prune for each of the repositories.
pub open spec fn prunes(repo_paths: Seq<String>) -> Seq<Remedy> {
    Seq::new(repo_paths.len(), |i: int| Remedy::PruneWorktrees { repo_path: repo_paths[i]@ })
}

/// The repairs that the findings call for: a stale session directory is
/// removed, a stale lock is released, and nothing is done about a finding
/// of another kind.
pub open spec fn remedies_for(defects: Seq<Defect>) -> Seq<Remedy>
    decreases defects.len(),
{
    if defects.len() == 0 {
        Seq::empty()
    } else {
        let rest = remedies_for(defects.drop_last());
        match defects.last() {
            Defect::StaleSessionDir { dir_name } => rest.push(
                Remedy::RemoveSessionDir { dir_name },
            ),
            Defect::StaleLock { repo, session } => rest.push(Remedy::ReleaseLock { repo }),
            _ => rest,
        }
    }
}

/// The write pass as a plan: prune the worktree registrations of every
/// discovered repository, then remove each stale session directory and
/// release each stale lock that the read pass found. Nothing else is
/// touched.
pub fn repair_plan(findings: &Vec<Finding>, repo_paths: &Vec<String>) -> (plan: Vec<Repair>)
    ensures
        remedies_of(plan@) == prunes(repo_paths@) + remedies_for(defects_of(findings@)),
{
    let mut plan: Vec<Repair> = Vec::new();
    let mut i: usize = 0;
    while i < repo_paths.len()
        invariant
            i <= repo_paths.len(),
            remedies_of(plan@) == prunes(repo_paths@).take(i as int),
        decreases repo_paths.len() - i,
    {
        let ghost sofar = remedies_of(plan@);
        plan.push(Repair::PruneWorktrees { repo_path: repo_paths[i].clone() });
        assert(remedies_of(plan@) =~= sofar.push(
            Remedy::PruneWorktrees { repo_path: repo_paths@[i as int]@ },
        ));
        assert(remedies_of(plan@) =~= prunes(repo_paths@).take(i + 1));
        i = i + 1;
    }
    assert(prunes(repo_paths@).take(repo_paths.len() as int) == prunes(repo_paths@));
    let ghost head = remedies_of(plan@);
    let mut j: usize = 0;
    assert(defects_of(findings@).take(0).len() == 0);
    assert(head + remedies_for(defects_of(findings@).take(0)) == head);
    while j < findings.len()
        invariant
            j <= findings.len(),
            remedies_of(plan@) == head + remedies_for(defects_of(findings@).take(j as int)),
        decreases findings.len() - j,
    {
        let ghost upto = defects_of(findings@).take(j + 1);
        let ghost sofar = remedies_of(plan@);
        proof {
            assert(upto.drop_last() == defects_of(findings@).take(j as int));
            assert(upto.last() == defect_of(findings@[j as int]));
        }
        match &findings[j] {
            Finding::StaleSessionDir { dir_name } => {
                plan.push(Repair::RemoveSessionDir { dir_name: dir_name.clone() });
                assert(remedies_of(plan@) =~= sofar.push(
                    Remedy::RemoveSessionDir { dir_name: dir_name@ },
                ));
            },
            Finding::StaleLock { repo, session } => {
                plan.push(Repair::ReleaseLock { repo: repo.clone() });
                assert(remedies_of(plan@) =~= sofar.push(Remedy::ReleaseLock { repo: repo@ }));
            },
            _ => {},
        }
        j = j + 1;
    }
    assert(defects_of(findings@).take(findings.len() as int) == defects_of(findings@));
    plan
}

/// Whether the lock of `repo` is among the stale locks found.
pub open spec fn found_stale_lock(defects: Seq<Defect>, repo: Seq<char>) -> bool {
    exists|i: int|
        0 <= i < defects.len() && (#[trigger] defects[i]) is StaleLock
            && defects[i]->StaleLock_repo == repo
}

/// The write pass never removes what is accounted for: every directory
/// it removes was found without a record, and every lock it releases was
/// found stale.
pub proof fn lemma_repairs_only_what_was_found(defects: Seq<Defect>, k: int)
    requires
        0 <= k < remedies_for(defects).len(),
    ensures
        !(remedies_for(defects)[k] is PruneWorktrees),
        remedies_for(defects)[k] is RemoveSessionDir ==> defects.contains(
            Defect::StaleSessionDir {
                dir_name: remedies_for(defects)[k]->RemoveSessionDir_dir_name,
            },
        ),
        remedies_for(defects)[k] is ReleaseLock ==> found_stale_lock(
            defects,
            remedies_for(defects)[k]->ReleaseLock_repo,
        ),
    decreases defects.len(),
{
    if defects.len() > 0 {
        let front = defects.drop_last();
        let rest = remedies_for(front);
        if k < rest.len() {
            lemma_repairs_only_what_was_found(front, k);
            assert(remedies_for(defects)[k] == rest[k]);
            match rest[k] {
                Remedy::RemoveSessionDir { dir_name } => {
                    let i = choose|i: int|
                        0 <= i < front.len() && front[i] == (Defect::StaleSessionDir { dir_name });
                    assert(defects[i] == front[i]);
                    assert(defects.contains(Defect::StaleSessionDir { dir_name }));
                },
                Remedy::ReleaseLock { repo } => {
                    let i = choose|i: int|
                        0 <= i < front.len() && (#[trigger] front[i]) is StaleLock
                            && front[i]->StaleLock_repo == repo;
                    assert(defects[i] == front[i]);
                },
                _ => {},
            }
        } else {
            let last = defects[defects.len() - 1];
            assert(last == defects.last());
            match last {
                Defect::StaleSessionDir { dir_name } => {
                    assert(remedies_for(defects) == rest.push(
                        Remedy::RemoveSessionDir { dir_name },
                    ));
                    assert(defects.contains(last));
                },
                Defect::StaleLock { repo, session } => {
                    assert(remedies_for(defects) == rest.push(Remedy::ReleaseLock { repo }));
                    assert(found_stale_lock(defects, repo));
                },
                _ => {
                    assert(remedies_for(defects) == rest);
                },
            }
        }
    }
}

/// The line that reports a finding to the operator. A stale session
/// directory is named by its path under the parent directory `parent`.
pub open spec fn defect_text(parent: Seq<char>, d: Defect) -> Seq<char> {
    match d {
        Defect::MissingWorktree { session, repo, path } => "Session '"@ + session
            + "': worktree for '"@ + repo + "' missing at "@ + path,
        Defect::OrphanedWorktree { repo, path } => "Orphaned worktree for '"@ + repo + "': "@
            + path,
        Defect::StaleSessionDir { dir_name } => "Stale session directory (no valid session.json): "@
            + session_dir_path(parent, dir_name),
        Defect::StaleLock { repo, session } => "Stale lock for repo '"@ + repo + "' (session '"@
            + session + "' no longer exists)"@,
    }
}

/// Writes the line that reports a finding.
pub fn describe_finding(parent_dir: &str, finding: &Finding) -> (line: String)
    ensures
        line@ == defect_text(parent_dir@, defect_of(*finding)),
{
    let mut out: Vec<char> = Vec::new();
    match finding {
        Finding::MissingWorktree { session, repo, path } => {
            push_str(&mut out, "Session '");
            push_str(&mut out, session.as_str());
            push_str(&mut out, "': worktree for '");
            push_str(&mut out, repo.as_str());
            push_str(&mut out, "' missing at ");
            push_str(&mut out, path.as_str());
        },
        Finding::OrphanedWorktree { repo, path } => {
            push_str(&mut out, "Orphaned worktree for '");
            push_str(&mut out, repo.as_str());
            push_str(&mut out, "': ");
            push_str(&mut out, path.as_str());
        },
        Finding::StaleSessionDir { dir_name } => {
            let dir = session_dir(parent_dir, dir_name.as_str());
            push_str(&mut out, "Stale session directory (no valid session.json): ");
            push_str(&mut out, dir.as_str());
        },
        Finding::StaleLock { repo, session } => {
            push_str(&mut out, "Stale lock for repo '");
            push_str(&mut out, repo.as_str());
            push_str(&mut out, "' (session '");
            push_str(&mut out, session.as_str());
            push_str(&mut out, "' no longer exists)");
        },
    }
    string_of(&out)
}

/// The session directories that lack a valid record.
pub open spec fn stale_dir_set(dirs: Map<Seq<char>, SessionDir>) -> Set<Seq<char>> {
    Set::new(|k: Seq<char>| dirs.dom().contains(k) && !(dirs[k].record is Valid))
}

/// The repositories whose lock names a session that has no record in the
/// registry.
pub open spec fn stale_lock_set(locks: Locks, reg: Registry) -> Set<Seq<char>> {
    Set::new(
        |r: Seq<char>|
            holder_of(locks, r) is Some && !reg.has_record(holder_of(locks, r)->0.session),
    )
}

/// What a run of the diagnostics found and what is to be done on disk.
pub struct DoctorRun {
    pub findings: Vec<Finding>,
    /// The repairs to carry out; none unless the operator agreed.
    pub repairs: Vec<Repair>,
}

/// The diagnostics as a whole: the read pass, and the write pass if the
/// operator agreed to it and something was found.
///
/// The read pass reports the findings and changes nothing. Without the
/// operator's agreement, or with nothing found, registry and locks are as
/// before and no repair is planned. With it, the worktree registrations of
/// every discovered repository are pruned, every session directory that
/// lacks a valid record is removed, and every lock whose session has no
/// record is released. Sessions with a valid record and the locks of
/// sessions that exist are left exactly as they were.
pub fn run(
    reg: &mut Registry,
    table: &mut LockTable,
    present: &Vec<String>,
    area: &str,
    repos: &Vec<RepoWorktrees>,
    repo_paths: &Vec<String>,
    confirmed: bool,
) -> (done: DoctorRun)
    ensures
        exists|listing: Seq<SessionInfo>|
            #![trigger is_newest_first(old(reg).records(), listing)]
            {
                &&& is_newest_first(old(reg).records(), listing)
                &&& defects_of(done.findings@) == diagnosis(
                    listing,
                    present@,
                    area@,
                    repos@,
                    *old(reg),
                    held_pairs(old(table).repo_order(), old(table)@),
                )
            },
        !confirmed || done.findings@.len() == 0 ==> {
            &&& done.repairs@.len() == 0
            &&& final(reg)@ == old(reg)@
            &&& final(reg).dir_order() == old(reg).dir_order()
            &&& final(table)@ == old(table)@
            &&& final(table).repo_order() == old(table).repo_order()
        },
        confirmed && done.findings@.len() > 0 ==> {
            &&& remedies_of(done.repairs@) == prunes(repo_paths@) + remedies_for(
                defects_of(done.findings@),
            )
            &&& final(reg)@ == old(reg)@.remove_keys(stale_dir_set(old(reg)@))
            &&& final(table)@ == old(table)@.remove_keys(stale_lock_set(old(table)@, *old(reg)))
        },
{
    let findings = diagnose(reg, table, present, area, repos);
    if !confirmed || findings.len() == 0 {
        return DoctorRun { findings, repairs: Vec::new() };
    }
    let repairs = repair_plan(&findings, repo_paths);
    release_stale_locks(table, reg);
    remove_stale_dirs(reg);
    DoctorRun { findings, repairs }
}

/// Releases every lock whose session has no record in the registry.
/// Locks of sessions that exist and unreadable lock files stay.
pub fn release_stale_locks(table: &mut LockTable, reg: &Registry)
    ensures
        final(table)@ == old(table)@.remove_keys(stale_lock_set(old(table)@, *reg)),
{
    let n = table.slot_count();
    let mut names: Vec<String> = Vec::new();
    let mut k: usize = 0;
    while k < n
        invariant
            k <= n,
            n == table.repo_order().len(),
            names.len() == k,
            forall|j: int| 0 <= j < k ==> (#[trigger] names@[j])@ == table.repo_order()[j],
        decreases n - k,
    {
        names.push(table.repo_at(k).clone());
        k = k + 1;
    }
    let ghost order = table.repo_order();
    let ghost before = table@;
    let ghost stale = stale_lock_set(before, *reg);
    let mut i: usize = 0;
    assert(before.remove_keys(Set::new(|r: Seq<char>| false)) =~= before);
    while i < names.len()
        invariant
            i <= names.len(),
            names.len() == order.len(),
            order.no_duplicates(),
            forall|j: int| 0 <= j < names.len() ==> (#[trigger] names@[j])@ == order[j],
            forall|r: Seq<char>| before.dom().contains(r) <==> order.contains(r),
            before == old(table)@,
            stale == stale_lock_set(before, *reg),
            table@ == before.remove_keys(
                Set::new(
                    |r: Seq<char>|
                        stale.contains(r) && exists|j: int| 0 <= j < i && #[trigger] order[j] == r,
                ),
            ),
        decreases names.len() - i,
    {
        let name = &names[i];
        let ghost done_set = Set::new(
            |r: Seq<char>| stale.contains(r) && exists|j: int| 0 <= j < i && #[trigger] order[j] == r,
        );
        let ghost next_set = Set::new(
            |r: Seq<char>|
                stale.contains(r) && exists|j: int| 0 <= j < i + 1 && #[trigger] order[j] == r,
        );
        proof {
            assert(!done_set.contains(name@)) by {
                if done_set.contains(name@) {
                    let j = choose|j: int| 0 <= j < i && #[trigger] order[j] == name@;
                    assert(order[j] == order[i as int]);
                }
            }
            assert(order.contains(name@));
            assert(holder_of(table@, name@) == holder_of(before, name@));
            assert(table@.dom().contains(name@));
        }
        let mut is_stale = false;
        match check_lock(table, name.as_str()) {
            Ok(Some(info)) => {
                if !session_exists(reg, info.session.as_str()) {
                    is_stale = true;
                }
            },
            _ => {},
        }
        assert(is_stale == stale.contains(name@));
        if is_stale {
            release_lock(table, name.as_str());
            assert(next_set =~= done_set.insert(name@)) by {
                assert forall|r: Seq<char>| next_set.contains(r) <==> done_set.insert(name@).contains(
                    r,
                ) by {
                    if next_set.contains(r) {
                        let j = choose|j: int| 0 <= j < i + 1 && #[trigger] order[j] == r;
                        if j < i {
                            assert(done_set.contains(r));
                        }
                    }
                    if done_set.contains(r) {
                        let j = choose|j: int| 0 <= j < i && #[trigger] order[j] == r;
                        assert(0 <= j < i + 1 && order[j] == r);
                    }
                    if r == name@ {
                        assert(order[i as int] == r);
                    }
                }
            }
            assert(table@ =~= before.remove_keys(next_set));
        } else {
            assert(next_set =~= done_set) by {
                assert forall|r: Seq<char>| next_set.contains(r) <==> done_set.contains(r) by {
                    if next_set.contains(r) {
                        let j = choose|j: int| 0 <= j < i + 1 && #[trigger] order[j] == r;
                        if j == i {
                            assert(r == name@);
                        }
                    }
                    if done_set.contains(r) {
                        let j = choose|j: int| 0 <= j < i && #[trigger] order[j] == r;
                        assert(0 <= j < i + 1 && order[j] == r);
                    }
                }
            }
        }
        i = i + 1;
    }
    proof {
        let all = Set::new(
            |r: Seq<char>|
                stale.contains(r) && exists|j: int|
                    0 <= j < names.len() && #[trigger] order[j] == r,
        );
        assert(all =~= stale) by {
            assert forall|r: Seq<char>| stale.contains(r) implies all.contains(r) by {
                assert(before.dom().contains(r));
                assert(order.contains(r));
                let j = choose|j: int| 0 <= j < order.len() && order[j] == r;
                assert(order[j] == r);
            }
        }
    }
}

/// Removes every session directory that lacks a valid record. Directories
/// with a valid record stay as they are.
pub fn remove_stale_dirs(reg: &mut Registry)
    ensures
        final(reg)@ == old(reg)@.remove_keys(stale_dir_set(old(reg)@)),
{
    let n = reg.dir_count();
    let names = reg.dir_names();
    let ghost order = reg.dir_order();
    let ghost before = reg@;
    let ghost stale = stale_dir_set(before);
    let mut i: usize = 0;
    assert(before.remove_keys(Set::new(|r: Seq<char>| false)) =~= before);
    while i < names.len()
        invariant
            i <= names.len(),
            names.len() == order.len(),
            order.no_duplicates(),
            forall|j: int| 0 <= j < names.len() ==> (#[trigger] names@[j])@ == order[j],
            forall|r: Seq<char>| before.dom().contains(r) <==> order.contains(r),
            before == old(reg)@,
            stale == stale_dir_set(before),
            reg@ == before.remove_keys(
                Set::new(
                    |r: Seq<char>|
                        stale.contains(r) && exists|j: int| 0 <= j < i && #[trigger] order[j] == r,
                ),
            ),
        decreases names.len() - i,
    {
        let name = &names[i];
        let ghost done_set = Set::new(
            |r: Seq<char>| stale.contains(r) && exists|j: int| 0 <= j < i && #[trigger] order[j] == r,
        );
        let ghost next_set = Set::new(
            |r: Seq<char>|
                stale.contains(r) && exists|j: int| 0 <= j < i + 1 && #[trigger] order[j] == r,
        );
        proof {
            assert(!done_set.contains(name@)) by {
                if done_set.contains(name@) {
                    let j = choose|j: int| 0 <= j < i && #[trigger] order[j] == name@;
                    assert(order[j] == order[i as int]);
                }
            }
            assert(order.contains(name@));
            assert(reg@.dom().contains(name@));
            assert(reg@[name@] == before[name@]);
        }
        let is_stale = match reg.dir(name.as_str()) {
            Some(dir) => match &dir.record {
                Record::Valid(_) => false,
                _ => true,
            },
            None => false,
        };
        assert(is_stale == stale.contains(name@));
        if is_stale {
            let _ = delete_session_dir(reg, name.as_str());
            assert(next_set =~= done_set.insert(name@)) by {
                assert forall|r: Seq<char>| next_set.contains(r) <==> done_set.insert(name@).contains(
                    r,
                ) by {
                    if next_set.contains(r) {
                        let j = choose|j: int| 0 <= j < i + 1 && #[trigger] order[j] == r;
                        if j < i {
                            assert(done_set.contains(r));
                        }
                    }
                    if done_set.contains(r) {
                        let j = choose|j: int| 0 <= j < i && #[trigger] order[j] == r;
                        assert(0 <= j < i + 1 && order[j] == r);
                    }
                    if r == name@ {
                        assert(order[i as int] == r);
                    }
                }
            }
            assert(reg@ =~= before.remove_keys(next_set));
        } else {
            assert(next_set =~= done_set) by {
                assert forall|r: Seq<char>| next_set.contains(r) <==> done_set.contains(r) by {
                    if next_set.contains(r) {
                        let j = choose|j: int| 0 <= j < i + 1 && #[trigger] order[j] == r;
                        if j == i {
                            assert(r == name@);
                        }
                    }
                    if done_set.contains(r) {
                        let j = choose|j: int| 0 <= j < i && #[trigger] order[j] == r;
                        assert(0 <= j < i + 1 && order[j] == r);
                    }
                }
            }
        }
        i = i + 1;
    }
    proof {
        let all = Set::new(
            |r: Seq<char>|
                stale.contains(r) && exists|j: int|
                    0 <= j < names.len() && #[trigger] order[j] == r,
        );
        assert(all =~= stale) by {
            assert forall|r: Seq<char>| stale.contains(r) implies all.contains(r) by {
                assert(before.dom().contains(r));
                assert(order.contains(r));
                let j = choose|j: int| 0 <= j < order.len() && order[j] == r;
                assert(order[j] == r);
            }
        }
    }
}

} // verus!
