//! Exclusive locks on repositories.
//!
//! A repository that only one session may run services for has one lock
//! slot, stored as `.sesh/locks/<repo>.lock`. The slot names the session
//! that holds it and when it was taken. Taking a lock is a plain write:
//! whoever calls `acquire_lock` last holds it. Deciding whether to take,
//! skip or reclaim a lock is left to the callers.

use vstd::prelude::*;
use crate::names::{without_key, NameMap};
use crate::paths::{join_path, joined_path, with_suffix};
use crate::session::{clock_now, Timestamp};

verus! {

/// Who holds a lock, and since when.
#[derive(Debug, Clone)]
pub struct LockInfo {
    pub session: String,
    pub locked_at: Timestamp,
}

/// What a lock file holds.
#[derive(Debug, Clone)]
pub enum LockSlot {
    /// A readable lock.
    Held(LockInfo),
    /// A file that cannot be read as a lock.
    Unreadable,
}

/// The holder of a lock as plain values.
pub ghost struct Holder {
    pub session: Seq<char>,
    pub locked_at: Timestamp,
}

/// The lock files of one parent directory as a map from repository name
/// to holder; an unreadable file maps to `None`.
pub type Locks = Map<Seq<char>, Option<Holder>>;

/// The lock slot as plain values.
pub open spec fn slot_holder(slot: LockSlot) -> Option<Holder> {
    match slot {
        LockSlot::Held(info) => Some(Holder { session: info.session@, locked_at: info.locked_at }),
        LockSlot::Unreadable => None,
    }
}

/// The locks after `session` took the lock of `repo` at `at`.
pub open spec fn acquired(locks: Locks, repo: Seq<char>, session: Seq<char>, at: Timestamp) -> Locks {
    locks.insert(repo, Some(Holder { session, locked_at: at }))
}

/// The locks after the lock of `repo` was given up.
pub open spec fn released(locks: Locks, repo: Seq<char>) -> Locks {
    locks.remove(repo)
}

/// Whether the lock file of `repo` exists but cannot be read.
pub open spec fn unreadable(locks: Locks, repo: Seq<char>) -> bool {
    locks.dom().contains(repo) && locks[repo] is None
}

/// The holder of the lock of `repo`, if the lock is held and readable.
pub open spec fn holder_of(locks: Locks, repo: Seq<char>) -> Option<Holder> {
    if locks.dom().contains(repo) {
        locks[repo]
    } else {
        None
    }
}

/// An operation on the locks.
pub ghost enum LockOp {
    Acquire { repo: Seq<char>, session: Seq<char>, at: Timestamp },
    Release { repo: Seq<char> },
}

/// The repository that an operation works on.
pub open spec fn op_repo(op: LockOp) -> Seq<char> {
    match op {
        LockOp::Acquire { repo, .. } => repo,
        LockOp::Release { repo } => repo,
    }
}

/// The locks after one operation.
pub open spec fn applied(locks: Locks, op: LockOp) -> Locks {
    match op {
        LockOp::Acquire { repo, session, at } => acquired(locks, repo, session, at),
        LockOp::Release { repo } => released(locks, repo),
    }
}

/// The locks after a series of operations, the first one first.
pub open spec fn applied_all(locks: Locks, ops: Seq<LockOp>) -> Locks
    decreases ops.len(),
{
    if ops.len() == 0 {
        locks
    } else {
        applied(applied_all(locks, ops.drop_last()), ops.last())
    }
}

/// A lock that a session has acquired is reported as held by that session.
pub proof fn lemma_acquire_then_check(
    locks: Locks,
    repo: Seq<char>,
    session: Seq<char>,
    at: Timestamp,
)
    ensures
        holder_of(acquired(locks, repo, session, at), repo) == Some(
            Holder { session, locked_at: at },
        ),
{
}

/// A lock stays with its holder through any series of acquisitions and
/// releases of other repositories' locks: only a release or another
/// acquisition of the same lock changes who holds it.
pub proof fn lemma_lock_held_until_changed(
    locks: Locks,
    repo: Seq<char>,
    session: Seq<char>,
    at: Timestamp,
    ops: Seq<LockOp>,
)
    requires
        forall|i: int| 0 <= i < ops.len() ==> op_repo(#[trigger] ops[i]) != repo,
    ensures
        holder_of(applied_all(acquired(locks, repo, session, at), ops), repo) == Some(
            Holder { session, locked_at: at },
        ),
    decreases ops.len(),
{
    if ops.len() > 0 {
        let front = ops.drop_last();
        assert forall|i: int| 0 <= i < front.len() implies op_repo(#[trigger] front[i]) != repo by {
            assert(front[i] == ops[i]);
        }
        lemma_lock_held_until_changed(locks, repo, session, at, front);
        assert(op_repo(ops[ops.len() - 1]) != repo);
    }
}

/// After a later acquisition of the same lock, the later session holds it.
pub proof fn lemma_acquire_overwrites(
    locks: Locks,
    repo: Seq<char>,
    first: Seq<char>,
    first_at: Timestamp,
    second: Seq<char>,
    second_at: Timestamp,
)
    ensures
        holder_of(acquired(acquired(locks, repo, first, first_at), repo, second, second_at), repo)
            == Some(Holder { session: second, locked_at: second_at }),
{
}

/// A released lock has no holder, whoever held it, and releasing it again
/// changes nothing.
pub proof fn lemma_release_then_check(locks: Locks, repo: Seq<char>)
    ensures
        holder_of(released(locks, repo), repo) is None,
        !released(locks, repo).dom().contains(repo),
        released(released(locks, repo), repo) == released(locks, repo),
{
    assert(released(released(locks, repo), repo) =~= released(locks, repo));
}

/// The lock files of one parent directory.
pub struct LockTable {
    slots: NameMap<LockSlot>,
}

impl View for LockTable {
    type V = Locks;

    closed spec fn view(&self) -> Locks {
        self.slots@.map_values(|slot: LockSlot| slot_holder(slot))
    }
}

impl LockTable {
    /// The repositories with a lock file, in the order of the snapshot.
    pub closed spec fn repo_order(&self) -> Seq<Seq<char>> {
        self.slots.keys()
    }

    /// A table without any lock file: no repository has a lock, and the
    /// snapshot lists none.
    pub fn new() -> (table: Self)
        ensures
            table@ == Map::<Seq<char>, Option<Holder>>::empty(),
            table.repo_order() == Seq::<Seq<char>>::empty(),
    {
        let table = LockTable { slots: NameMap::new() };
        assert(table@ =~= Map::<Seq<char>, Option<Holder>>::empty());
        table
    }

    /// Records a lock file as found on disk.
    pub fn put_slot(&mut self, repo_name: &str, slot: LockSlot)
        ensures
            final(self)@ == old(self)@.insert(repo_name@, slot_holder(slot)),
            final(self).repo_order() == if old(self)@.dom().contains(repo_name@) {
                old(self).repo_order()
            } else {
                old(self).repo_order().push(repo_name@)
            },
    {
        self.slots.insert(repo_name, slot);
        assert(self@ =~= old(self)@.insert(repo_name@, slot_holder(slot)));
    }

    /// The number of lock files.
    pub fn slot_count(&self) -> (n: usize)
        ensures
            n == self.repo_order().len(),
            forall|k: Seq<char>| self@.dom().contains(k) <==> self.repo_order().contains(k),
            self.repo_order().no_duplicates(),
    {
        self.slots.len()
    }

    /// The repository of the `i`-th lock file.
    pub fn repo_at(&self, i: usize) -> (name: &String)
        requires
            i < self.repo_order().len(),
        ensures
            name@ == self.repo_order()[i as int],
    {
        self.slots.key_at(i)
    }

    /// The content of the `i`-th lock file.
    pub fn slot_at(&self, i: usize) -> (slot: &LockSlot)
        requires
            i < self.repo_order().len(),
        ensures
            self@.dom().contains(self.repo_order()[i as int]),
            slot_holder(*slot) == self@[self.repo_order()[i as int]],
    {
        self.slots.value_at(i)
    }
}

/// The directory of the lock files: `<parent>/.sesh/locks`.
pub fn locks_dir(parent_dir: &str) -> (dir: String)
    ensures
        dir@ == joined_path(parent_dir@, ".sesh/locks"@),
{
    join_path(parent_dir, ".sesh/locks")
}

/// The lock file of a repository: `<parent>/.sesh/locks/<repo>.lock`.
pub fn lock_path(parent_dir: &str, repo_name: &str) -> (path: String)
    ensures
        path@ == joined_path(joined_path(parent_dir@, ".sesh/locks"@), repo_name@ + ".lock"@),
{
    let dir = locks_dir(parent_dir);
    let file = with_suffix(repo_name, ".lock");
    join_path(dir.as_str(), file.as_str())
}

/// Gives the lock of `repo_name` to `session_name` as of `now`, whoever
/// held it before.
pub fn acquire_lock_at(table: &mut LockTable, repo_name: &str, session_name: &str, now: Timestamp)
    ensures
        final(table)@ == acquired(old(table)@, repo_name@, session_name@, now),
        final(table).repo_order() == if old(table)@.dom().contains(repo_name@) {
            old(table).repo_order()
        } else {
            old(table).repo_order().push(repo_name@)
        },
{
    let info = LockInfo { session: session_name.to_owned(), locked_at: now };
    table.slots.insert(repo_name, LockSlot::Held(info));
    assert(table@ =~= acquired(old(table)@, repo_name@, session_name@, now));
}

/// Gives the lock of `repo_name` to `session_name` as of the current time,
/// whoever held it before. No other lock changes.
pub fn acquire_lock(table: &mut LockTable, repo_name: &str, session_name: &str)
    ensures
        exists|now: Timestamp|
            final(table)@ == #[trigger] acquired(old(table)@, repo_name@, session_name@, now),
{
    let now = clock_now();
    acquire_lock_at(table, repo_name, session_name, now);
}

/// Gives up the lock of `repo_name`. Releasing a lock that is not held
/// changes nothing.
pub fn release_lock(table: &mut LockTable, repo_name: &str)
    ensures
        final(table)@ == released(old(table)@, repo_name@),
        final(table).repo_order() == without_key(old(table).repo_order(), repo_name@),
{
    let _ = table.slots.remove(repo_name);
    assert(table@ =~= released(old(table)@, repo_name@));
}

/// A lock file exists but cannot be read.
#[derive(Debug, Clone, Copy, PartialEq, Eq, Structural)]
pub struct UnreadableLock;

/// Who holds the lock of `repo_name`: `None` when it is free, an error
/// when its file cannot be read.
pub fn check_lock<'a>(table: &'a LockTable, repo_name: &str) -> (held: Result<
    Option<&'a LockInfo>,
    UnreadableLock,
>)
    ensures
        held is Err <==> unreadable(table@, repo_name@),
        held is Ok ==> match held->Ok_0 {
            Some(info) => holder_of(table@, repo_name@) == Some(
                Holder { session: info.session@, locked_at: info.locked_at },
            ),
            None => holder_of(table@, repo_name@) is None,
        },
{
    match table.slots.get(repo_name) {
        None => Ok(None),
        Some(slot) => match slot {
            LockSlot::Held(info) => Ok(Some(info)),
            LockSlot::Unreadable => Err(UnreadableLock),
        },
    }
}

/// The repository and the session of each listed lock.
pub open spec fn lock_pairs(held: Seq<(&String, &LockInfo)>) -> Seq<(Seq<char>, Seq<char>)> {
    Seq::new(held.len(), |i: int| (held[i].0@, held[i].1.session@))
}

/// The repositories of `order` whose lock is held and readable, each with
/// the session that holds it, in the order of `order`.
pub open spec fn held_pairs(order: Seq<Seq<char>>, locks: Locks) -> Seq<(Seq<char>, Seq<char>)>
    decreases order.len(),
{
    if order.len() == 0 {
        Seq::empty()
    } else {
        let rest = held_pairs(order.drop_last(), locks);
        match holder_of(locks, order.last()) {
            Some(h) => rest.push((order.last(), h.session)),
            None => rest,
        }
    }
}

/// The readable locks: every repository whose lock is held, once, with
/// its holder, in the order of the snapshot. Unreadable lock files are
/// left out.
pub fn list_locks(table: &LockTable) -> (held: Vec<(&String, &LockInfo)>)
    ensures
        lock_pairs(held@) == held_pairs(table.repo_order(), table@),
        forall|i: int|
            0 <= i < held.len() ==> holder_of(table@, (#[trigger] held@[i]).0@) == Some(
                Holder { session: held@[i].1.session@, locked_at: held@[i].1.locked_at },
            ),
        forall|repo: Seq<char>|
            holder_of(table@, repo) is Some ==> exists|i: int|
                0 <= i < held.len() && (#[trigger] held@[i]).0@ == repo,
        forall|i: int, j: int|
            0 <= i < j < held.len() ==> (#[trigger] held@[i]).0@ != (#[trigger] held@[j]).0@,
{
    let n = table.slot_count();
    let mut held: Vec<(&String, &LockInfo)> = Vec::new();
    let ghost mut at: Seq<int> = Seq::empty();
    let mut i: usize = 0;
    assert(table.repo_order().take(0).len() == 0);
    assert(lock_pairs(held@) =~= Seq::<(Seq<char>, Seq<char>)>::empty());
    while i < n
        invariant
            i <= n,
            n == table.repo_order().len(),
            lock_pairs(held@) == held_pairs(table.repo_order().take(i as int), table@),
            table.repo_order().no_duplicates(),
            forall|k: Seq<char>| table@.dom().contains(k) <==> table.repo_order().contains(k),
            at.len() == held.len(),
            forall|k: int| 0 <= k < held.len() ==> 0 <= #[trigger] at[k] < i && held@[k].0@ == table.repo_order()[at[k]],
            forall|k: int, l: int| 0 <= k < l < held.len() ==> #[trigger] at[k] < #[trigger] at[l],
            forall|k: int|
                0 <= k < held.len() ==> holder_of(table@, (#[trigger] held@[k]).0@) == Some(
                    Holder { session: held@[k].1.session@, locked_at: held@[k].1.locked_at },
                ),
            forall|p: int|
                0 <= p < i && holder_of(table@, #[trigger] table.repo_order()[p]) is Some
                    ==> exists|k: int| 0 <= k < held.len() && (#[trigger] held@[k]).0@ == table.repo_order()[p],
        decreases n - i,
    {
        let name = table.repo_at(i);
        let ghost before = held@;
        let ghost upto = table.repo_order().take(i + 1);
        let ghost pairs_before = lock_pairs(held@);
        proof {
            assert(upto.drop_last() == table.repo_order().take(i as int));
            assert(upto.last() == table.repo_order()[i as int]);
        }
        match table.slot_at(i) {
            LockSlot::Held(info) => {
                held.push((name, info));
                proof {
                    assert(lock_pairs(held@) =~= pairs_before.push((name@, info.session@)));
                    at = at.push(i as int);
                    assert forall|p: int|
                        0 <= p < i + 1 && holder_of(table@, #[trigger] table.repo_order()[p]) is Some implies exists|
                        k: int,
                    | 0 <= k < held.len() && (#[trigger] held@[k]).0@ == table.repo_order()[p] by {
                        if p < i {
                            let k = choose|k: int|
                                0 <= k < before.len() && (#[trigger] before[k]).0@
                                    == table.repo_order()[p];
                            assert(held@[k] == before[k]);
                        } else {
                            assert(held@[held.len() - 1].0@ == table.repo_order()[p]);
                        }
                    }
                }
            },
            LockSlot::Unreadable => {
                assert(holder_of(table@, table.repo_order()[i as int]) is None);
            },
        }
        i = i + 1;
    }
    proof {
        let order = table.repo_order();
        assert(order.take(n as int) == order);
        assert forall|repo: Seq<char>| holder_of(table@, repo) is Some implies exists|i: int|
            0 <= i < held.len() && (#[trigger] held@[i]).0@ == repo by {
            assert(order.contains(repo));
            let p = choose|p: int| 0 <= p < order.len() && order[p] == repo;
            assert(holder_of(table@, order[p]) is Some);
        }
        assert forall|i: int, j: int| 0 <= i < j < held.len() implies (#[trigger] held@[i]).0@ != (
        #[trigger] held@[j]).0@ by {
            assert(at[i] < at[j]);
            assert(order[at[i]] != order[at[j]]);
        }
    }
    held
}

} // verus!
