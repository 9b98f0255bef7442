//! Sessions and the registry that records them.
//!
//! A session is a branch checked out as one worktree per repository under
//! `.sesh/sessions/<name>/`. The registry is a snapshot of that directory
//! tree: one entry per session directory, holding what its record file
//! contains. Every operation reads or updates such a snapshot; nothing is
//! kept between invocations.

use vstd::prelude::*;
use crate::names::{without_key, NameMap};
use crate::order::{is_stable_order, key_values, positions, stable_order};
use crate::paths::join_path;
use crate::paths::joined_path;
use crate::text::{
    chars_of, decimal, decimal_digits, lemma_decimal_injective, push_all, push_str, replace_char,
    replaced, same_chars, slice_of, string_of,
};

verus! {

/// A point in time: whole seconds since the Unix epoch and the nanoseconds
/// within that second.
#[derive(Clone, Copy, Debug, PartialEq, Eq, Structural)]
pub struct Timestamp {
    pub secs: i64,
    pub nanos: u32,
}

impl Timestamp {
    /// Whether `self` is strictly later than `other`.
    pub open spec fn later_than(self, other: Timestamp) -> bool {
        self.secs > other.secs || (self.secs == other.secs && self.nanos > other.nanos)
    }

    /// Whether `self` is strictly later than `other`.
    pub fn is_later_than(&self, other: &Timestamp) -> (later: bool)
        ensures
            later == self.later_than(*other),
    {
        self.secs > other.secs || (self.secs == other.secs && self.nanos > other.nanos)
    }
}

/// Reads the clock through `chrono::Utc::now` and keeps the seconds and the
/// sub-second nanoseconds of the instant it reports. Nothing is claimed of
/// the value: two calls may differ in any way. The call aborts when the
/// system clock is set before 1970.
#[verifier::external_body]
pub(crate) fn clock_now() -> (now: Timestamp) {
    let t = chrono::Utc::now();
    Timestamp { secs: t.timestamp(), nanos: t.timestamp_subsec_nanos() }
}

/// The result of `chrono::DateTime::format` with the pattern
/// `%Y-%m-%d %H:%M` on the instant, in UTC, that lies `secs` seconds and
/// `nanos` nanoseconds after the Unix epoch; the empty text for an instant
/// that chrono cannot represent.
pub uninterp spec fn minute_text(secs: int, nanos: int) -> Seq<char>;

/// Writes an instant as `year-month-day hour:minute` in UTC. The instant
/// is made with `chrono::DateTime::from_timestamp` and written with
/// `chrono::DateTime::format`; where chrono has no such instant the text is
/// empty. The text depends on the instant alone.
#[verifier::external_body]
pub(crate) fn format_minute(at: Timestamp) -> (text: String)
    ensures
        text@ == minute_text(at.secs as int, at.nanos as int),
{
    match chrono::DateTime::from_timestamp(at.secs, at.nanos) {
        Some(t) => t.format("%Y-%m-%d %H:%M").to_string(),
        None => String::new(),
    }
}

/// `s` without its leading `.` characters.
pub open spec fn dots_stripped(s: Seq<char>) -> Seq<char>
    decreases s.len(),
{
    if s.len() > 0 && s[0] == '.' {
        dots_stripped(s.drop_first())
    } else {
        s
    }
}

/// The directory name that a branch asks for before collisions are looked
/// at: `/` becomes `-`, leading dots go, and an empty rest becomes
/// `session`.
pub open spec fn session_base(branch: Seq<char>) -> Seq<char> {
    let flat = dots_stripped(replaced(branch, '/', '-'));
    if flat.len() == 0 {
        seq!['s', 'e', 's', 's', 'i', 'o', 'n']
    } else {
        flat
    }
}

/// The `k`-th name tried for a base: the base itself, then the base with
/// `-2`, `-3`, and so on.
pub open spec fn candidate(base: Seq<char>, k: nat) -> Seq<char> {
    if k <= 1 {
        base
    } else {
        base + seq!['-'] + decimal(k)
    }
}

/// Whether `name` is among `existing`.
pub open spec fn name_taken(existing: Seq<String>, name: Seq<char>) -> bool {
    exists|i: int| 0 <= i < existing.len() && (#[trigger] existing[i])@ == name
}

/// `name` is the first candidate for `branch` that `existing` does not hold.
pub open spec fn is_session_name_for(
    branch: Seq<char>,
    existing: Seq<String>,
    name: Seq<char>,
) -> bool {
    exists|k: nat|
        k >= 1 && name == #[trigger] candidate(session_base(branch), k) && !name_taken(
            existing,
            name,
        ) && forall|j: nat|
            1 <= j < k ==> name_taken(existing, #[trigger] candidate(session_base(branch), j))
}

/// The session name for a branch is determined by the branch and the names
/// already in use: two names that both qualify are the same name.
pub proof fn lemma_session_name_deterministic(
    branch: Seq<char>,
    existing: Seq<String>,
    a: Seq<char>,
    b: Seq<char>,
)
    requires
        is_session_name_for(branch, existing, a),
        is_session_name_for(branch, existing, b),
    ensures
        a == b,
{
    let base = session_base(branch);
    let ka = choose|k: nat|
        k >= 1 && a == #[trigger] candidate(base, k) && !name_taken(existing, a) && forall|j: nat|
            1 <= j < k ==> name_taken(existing, #[trigger] candidate(base, j));
    let kb = choose|k: nat|
        k >= 1 && b == #[trigger] candidate(base, k) && !name_taken(existing, b) && forall|j: nat|
            1 <= j < k ==> name_taken(existing, #[trigger] candidate(base, j));
    if ka < kb {
        assert(name_taken(existing, candidate(base, ka)));
    } else if kb < ka {
        assert(name_taken(existing, candidate(base, kb)));
    }
}

/// Two candidates of one base coincide only for the same index.
pub proof fn lemma_candidate_injective(base: Seq<char>, j: nat, k: nat)
    requires
        j >= 1,
        k >= 1,
        candidate(base, j) == candidate(base, k),
    ensures
        j == k,
{
    crate::text::lemma_decimal_len(j);
    crate::text::lemma_decimal_len(k);
    if j >= 2 && k >= 2 {
        let cj = candidate(base, j);
        let ck = candidate(base, k);
        assert(cj.skip(base.len() as int + 1) == decimal(j));
        assert(ck.skip(base.len() as int + 1) == decimal(k));
        lemma_decimal_injective(j, k);
    }
}

/// Distinct indices into a list of `n` items are at most `n`.
proof fn lemma_distinct_indices(hits: Seq<int>, n: nat)
    requires
        hits.no_duplicates(),
        forall|i: int| 0 <= i < hits.len() ==> 0 <= #[trigger] hits[i] < n,
    ensures
        hits.len() <= n,
{
    hits.unique_seq_to_set();
    vstd::set_lib::lemma_int_range(0, n as int);
    assert(hits.to_set().subset_of(vstd::set_lib::set_int_range(0, n as int))) by {
        assert forall|x: int| hits.to_set().contains(x) implies vstd::set_lib::set_int_range(
            0,
            n as int,
        ).contains(x) by {
            let i = choose|i: int| 0 <= i < hits.len() && hits[i] == x;
            assert(0 <= hits[i] < n);
        }
    }
    vstd::set_lib::lemma_len_subset(hits.to_set(), vstd::set_lib::set_int_range(0, n as int));
}

fn strip_leading_dots(v: &Vec<char>) -> (out: Vec<char>)
    ensures
        out@ == dots_stripped(v@),
{
    let mut start: usize = 0;
    assert(v@.skip(0) == v@);
    while start < v.len() && v[start] == '.'
        invariant
            start <= v.len(),
            dots_stripped(v@) == dots_stripped(v@.skip(start as int)),
        decreases v.len() - start,
    {
        proof {
            assert(v@.skip(start as int).drop_first() == v@.skip(start + 1));
        }
        start = start + 1;
    }
    assert(v@.skip(start as int) == v@.subrange(start as int, v.len() as int));
    slice_of(v, start, v.len())
}

fn position_of(existing: &Vec<String>, name: &Vec<char>) -> (at: usize)
    ensures
        at <= existing.len(),
        at < existing.len() ==> existing@[at as int]@ == name@,
        at == existing.len() ==> !name_taken(existing@, name@),
{
    let mut i: usize = 0;
    while i < existing.len()
        invariant
            i <= existing.len(),
            forall|j: int| 0 <= j < i ==> (#[trigger] existing@[j])@ != name@,
        decreases existing.len() - i,
    {
        let held = chars_of(existing[i].as_str());
        if same_chars(&held, name) {
            return i;
        }
        i = i + 1;
    }
    i
}

/// Derives the directory name of a new session from its branch: the
/// flattened branch name if it is free, otherwise the first of `<name>-2`,
/// `<name>-3`, ... that is. The result is never one of `existing`.
pub fn sanitize_session_name(branch: &str, existing: &Vec<String>) -> (name: String)
    ensures
        is_session_name_for(branch@, existing@, name@),
        !name_taken(existing@, name@),
{
    let raw = chars_of(branch);
    let flat = replace_char(&raw, '/', '-');
    let stripped = strip_leading_dots(&flat);
    let base = if stripped.len() == 0 {
        let mut fallback: Vec<char> = Vec::new();
        fallback.push('s');
        fallback.push('e');
        fallback.push('s');
        fallback.push('s');
        fallback.push('i');
        fallback.push('o');
        fallback.push('n');
        assert(fallback@ == seq!['s', 'e', 's', 's', 'i', 'o', 'n']);
        fallback
    } else {
        stripped
    };
    assert(base@ == session_base(branch@));
    let first = position_of(existing, &base);
    if first == existing.len() {
        assert(base@ == candidate(base@, 1));
        return string_of(&base);
    }
    let ghost mut hits: Seq<int> = seq![first as int];
    let mut counter: u128 = 2;
    loop
        invariant
            base@ == session_base(branch@),
            2 <= counter <= existing.len() + 1,
            hits.len() == counter - 1,
            forall|j: int|
                0 <= j < hits.len() ==> 0 <= #[trigger] hits[j] < existing.len()
                    && existing@[hits[j]]@ == candidate(base@, (j + 1) as nat),
        decreases existing.len() + 2 - counter,
    {
        let mut cand: Vec<char> = Vec::new();
        push_all(&mut cand, &base);
        cand.push('-');
        let digits = decimal_digits(counter);
        push_all(&mut cand, &digits);
        assert(cand@ == candidate(base@, counter as nat));
        let at = position_of(existing, &cand);
        if at == existing.len() {
            proof {
                assert forall|j: nat| 1 <= j < counter implies name_taken(
                    existing@,
                    #[trigger] candidate(base@, j),
                ) by {
                    assert(existing@[hits[j - 1]]@ == candidate(base@, j));
                }
            }
            return string_of(&cand);
        }
        proof {
            let grown = hits.push(at as int);
            assert forall|i: int, j: int|
                0 <= i < grown.len() && 0 <= j < grown.len() && i != j implies grown[i]
                != grown[j] by {
                if grown[i] == grown[j] {
                    assert(existing@[grown[i]]@ == candidate(base@, (i + 1) as nat));
                    assert(existing@[grown[j]]@ == candidate(base@, (j + 1) as nat));
                    lemma_candidate_injective(base@, (i + 1) as nat, (j + 1) as nat);
                }
            }
            lemma_distinct_indices(grown, existing.len() as nat);
            hits = grown;
        }
        counter = counter + 1;
    }
}

/// The directory of a session: `<parent>/.sesh/sessions/<name>`.
pub open spec fn session_dir_path(parent_dir: Seq<char>, session_name: Seq<char>) -> Seq<char> {
    joined_path(joined_path(parent_dir, ".sesh/sessions"@), session_name)
}

/// The directory that holds a session's record, logs and worktrees.
pub fn session_dir(parent_dir: &str, session_name: &str) -> (dir: String)
    ensures
        dir@ == session_dir_path(parent_dir@, session_name@),
{
    let sessions = join_path(parent_dir, ".sesh/sessions");
    join_path(sessions.as_str(), session_name)
}

/// What a ticket tracker knows about the issue a session works on.
#[derive(Debug, Clone, Default)]
pub struct IssueContext {
    pub provider: String,
    pub identifier: String,
    pub title: String,
    pub state: Option<String>,
    pub labels: Vec<String>,
}

/// One repository of a session: its name, where its worktree lives and the
/// repository the worktree was cut from.
#[derive(Debug, Clone)]
pub struct SessionRepo {
    pub name: String,
    pub worktree_path: String,
    pub original_repo_path: String,
}

/// The record of a session.
#[derive(Debug, Clone)]
pub struct SessionInfo {
    pub name: String,
    pub branch: String,
    pub repos: Vec<SessionRepo>,
    pub created_at: Timestamp,
    pub parent_dir: String,
    pub issue: Option<IssueContext>,
    pub base_branch: Option<String>,
}

/// A background process started for a session. The pid is a hint: the
/// process may have exited since.
#[derive(Debug, Clone)]
pub struct BackgroundPid {
    pub pid: u32,
    pub label: String,
    pub script: String,
}

/// The state of a session directory's record file.
#[derive(Debug, Clone)]
pub enum Record {
    /// The directory holds no record file.
    Missing,
    /// The record file is there but cannot be read as a session.
    Corrupt,
    /// The record file holds this session.
    Valid(SessionInfo),
}

/// One directory under `.sesh/sessions/`.
#[derive(Debug, Clone)]
pub struct SessionDir {
    pub record: Record,
    /// The recorded background processes; `None` when no list is stored.
    pub background: Option<Vec<BackgroundPid>>,
}

/// Why a registry operation failed.
#[derive(Debug, Clone, Copy, PartialEq, Eq, Structural)]
pub enum RegistryError {
    /// The session directory or its record does not exist.
    NotFound,
    /// The record exists but is unreadable.
    Corrupt,
}

/// The session directories under one parent directory, by directory name.
pub struct Registry {
    dirs: NameMap<SessionDir>,
}

impl View for Registry {
    type V = Map<Seq<char>, SessionDir>;

    closed spec fn view(&self) -> Map<Seq<char>, SessionDir> {
        self.dirs@
    }
}

/// The sessions recorded under `keys`, in the order of `keys`.
pub open spec fn valid_records(keys: Seq<Seq<char>>, dirs: Map<Seq<char>, SessionDir>) -> Seq<
    SessionInfo,
>
    decreases keys.len(),
{
    if keys.len() == 0 {
        Seq::empty()
    } else {
        let rest = valid_records(keys.drop_last(), dirs);
        match dirs[keys.last()].record {
            Record::Valid(info) => rest.push(info),
            _ => rest,
        }
    }
}

/// Every session among `valid_records` is recorded under one of the keys,
/// and every valid record under a key is among them.
pub proof fn lemma_valid_records(keys: Seq<Seq<char>>, dirs: Map<Seq<char>, SessionDir>)
    ensures
        forall|i: int|
            0 <= i < valid_records(keys, dirs).len() ==> exists|k: int|
                0 <= k < keys.len() && dirs[#[trigger] keys[k]].record == Record::Valid(
                    #[trigger] valid_records(keys, dirs)[i],
                ),
        forall|k: int, info: SessionInfo|
            0 <= k < keys.len() && dirs[#[trigger] keys[k]].record == Record::Valid(info)
                ==> #[trigger] valid_records(keys, dirs).contains(info),
    decreases keys.len(),
{
    if keys.len() > 0 {
        let front = keys.drop_last();
        let rest = valid_records(front, dirs);
        let all = valid_records(keys, dirs);
        lemma_valid_records(front, dirs);
        assert forall|i: int| 0 <= i < all.len() implies exists|k: int|
            0 <= k < keys.len() && dirs[#[trigger] keys[k]].record == Record::Valid(
                #[trigger] all[i],
            ) by {
            if i < rest.len() {
                assert(all[i] == rest[i]);
                let k = choose|k: int|
                    0 <= k < front.len() && dirs[#[trigger] front[k]].record == Record::Valid(
                        rest[i],
                    );
                assert(keys[k] == front[k]);
            } else {
                assert(dirs[keys[keys.len() - 1]].record == Record::Valid(all[i]));
            }
        }
        assert forall|k: int, info: SessionInfo|
            0 <= k < keys.len() && dirs[#[trigger] keys[k]].record == Record::Valid(
                info,
            ) implies #[trigger] all.contains(info) by {
            if k < front.len() {
                assert(front[k] == keys[k]);
                assert(rest.contains(info));
                let i = choose|i: int| 0 <= i < rest.len() && rest[i] == info;
                assert(all[i] == info);
            } else {
                assert(all[all.len() - 1] == info);
            }
        }
    }
}

/// The sort key that puts later timestamps first.
pub open spec fn age_key(at: Timestamp) -> int {
    -(at.secs as int * 4294967296 + at.nanos as int)
}

/// The sort keys of a list of sessions.
pub open spec fn age_keys(records: Seq<SessionInfo>) -> Seq<int> {
    Seq::new(records.len(), |i: int| age_key(records[i].created_at))
}

/// `listing` holds the sessions of `records`, each once, newest first, and
/// sessions created at the same instant in the order of `records`.
pub open spec fn is_newest_first(records: Seq<SessionInfo>, listing: Seq<SessionInfo>) -> bool {
    exists|order: Seq<int>|
        #![trigger is_stable_order(age_keys(records), order)]
        is_stable_order(age_keys(records), order) && listing.len() == order.len() && forall|
            i: int,
        |
            0 <= i < listing.len() ==> #[trigger] listing[i] == records[order[i]]
}

/// In a newest-first listing no session is later than one listed before
/// it, and the listing holds exactly the sessions it was made from.
pub proof fn lemma_newest_first(records: Seq<SessionInfo>, listing: Seq<SessionInfo>)
    requires
        is_newest_first(records, listing),
    ensures
        listing.len() == records.len(),
        forall|i: int, j: int|
            0 <= i < j < listing.len() ==> !(#[trigger] listing[j]).created_at.later_than(
                (#[trigger] listing[i]).created_at,
            ),
        forall|i: int| 0 <= i < listing.len() ==> records.contains(#[trigger] listing[i]),
        forall|k: int| 0 <= k < records.len() ==> listing.contains(#[trigger] records[k]),
{
    let keys = age_keys(records);
    let order = choose|order: Seq<int>|
        #![trigger is_stable_order(age_keys(records), order)]
        is_stable_order(age_keys(records), order) && listing.len() == order.len() && forall|
            i: int,
        |
            0 <= i < listing.len() ==> #[trigger] listing[i] == records[order[i]];
    assert forall|i: int, j: int| 0 <= i < j < listing.len() implies !(#[trigger] listing[j]).created_at.later_than(
        (#[trigger] listing[i]).created_at,
    ) by {
        assert(listing[i] == records[order[i]]);
        assert(listing[j] == records[order[j]]);
        assert(keys[order[i]] <= keys[order[j]]);
        let a = listing[i].created_at;
        let b = listing[j].created_at;
        assert(0 <= a.nanos < 4294967296 && 0 <= b.nanos < 4294967296);
        assert(age_key(a) <= age_key(b));
        if b.secs > a.secs {
            assert(b.secs as int * 4294967296 >= (a.secs as int + 1) * 4294967296) by (nonlinear_arith)
                requires
                    b.secs as int >= a.secs as int + 1,
            ;
        }
    }
    assert forall|i: int| 0 <= i < listing.len() implies records.contains(#[trigger] listing[i]) by {
        assert(listing[i] == records[order[i]]);
        assert(0 <= order[i] < keys.len());
    }
    assert forall|k: int| 0 <= k < records.len() implies listing.contains(#[trigger] records[k]) by {
        crate::order::lemma_stable_order_complete(keys, order, k);
        let i = choose|i: int| 0 <= i < order.len() && order[i] == k;
        assert(listing[i] == records[k]);
    }
}

/// The sessions settle the listing: two newest-first listings of the
/// same sessions are the same listing.
pub proof fn lemma_newest_first_unique(
    records: Seq<SessionInfo>,
    first: Seq<SessionInfo>,
    second: Seq<SessionInfo>,
)
    requires
        is_newest_first(records, first),
        is_newest_first(records, second),
    ensures
        first == second,
{
    let a = choose|order: Seq<int>|
        #![trigger is_stable_order(age_keys(records), order)]
        is_stable_order(age_keys(records), order) && first.len() == order.len() && forall|i: int|
            0 <= i < first.len() ==> #[trigger] first[i] == records[order[i]];
    let b = choose|order: Seq<int>|
        #![trigger is_stable_order(age_keys(records), order)]
        is_stable_order(age_keys(records), order) && second.len() == order.len() && forall|i: int|
            0 <= i < second.len() ==> #[trigger] second[i] == records[order[i]];
    crate::order::lemma_stable_order_unique(age_keys(records), a, b);
    assert(first =~= second);
}

impl Registry {
    /// The directory names in the order in which the snapshot lists them.
    pub closed spec fn dir_order(&self) -> Seq<Seq<char>> {
        self.dirs.keys()
    }

    /// The sessions with a readable record, in directory order.
    pub open spec fn records(&self) -> Seq<SessionInfo> {
        valid_records(self.dir_order(), self@)
    }

    /// Whether `name` is a session directory holding a record file.
    pub open spec fn has_record(&self, name: Seq<char>) -> bool {
        self@.dom().contains(name) && !(self@[name].record is Missing)
    }

    /// A snapshot without any session directory.
    pub fn new() -> (reg: Self)
        ensures
            reg@ == Map::<Seq<char>, SessionDir>::empty(),
            reg.dir_order() == Seq::<Seq<char>>::empty(),
    {
        Registry { dirs: NameMap::new() }
    }

    /// Records a directory as found on disk, replacing an earlier entry of
    /// the same name.
    pub fn put_dir(&mut self, name: &str, dir: SessionDir)
        ensures
            final(self)@ == old(self)@.insert(name@, dir),
            final(self).dir_order() == if old(self)@.dom().contains(name@) {
                old(self).dir_order()
            } else {
                old(self).dir_order().push(name@)
            },
    {
        self.dirs.insert(name, dir);
    }

    /// The number of session directories.
    pub fn dir_count(&self) -> (n: usize)
        ensures
            n == self.dir_order().len(),
            forall|k: Seq<char>| self@.dom().contains(k) <==> self.dir_order().contains(k),
            self.dir_order().no_duplicates(),
    {
        self.dirs.len()
    }

    /// The name of the `i`-th directory.
    pub fn dir_name(&self, i: usize) -> (name: &String)
        requires
            i < self.dir_order().len(),
        ensures
            name@ == self.dir_order()[i as int],
            self@.dom().contains(name@),
    {
        let n = self.dirs.len();
        assert(self.dir_order().contains(self.dir_order()[i as int]));
        self.dirs.key_at(i)
    }

    /// The `i`-th directory.
    pub fn dir_at(&self, i: usize) -> (dir: &SessionDir)
        requires
            i < self.dir_order().len(),
        ensures
            *dir == self@[self.dir_order()[i as int]],
    {
        self.dirs.value_at(i)
    }

    /// The directory called `name`, if there is one.
    pub fn dir(&self, name: &str) -> (found: Option<&SessionDir>)
        ensures
            found is Some <==> self@.dom().contains(name@),
            found is Some ==> *found->0 == self@[name@],
    {
        self.dirs.get(name)
    }

    /// The names of all session directories, with or without a record.
    pub fn dir_names(&self) -> (names: Vec<String>)
        ensures
            names.len() == self.dir_order().len(),
            forall|i: int| 0 <= i < names.len() ==> (#[trigger] names@[i])@ == self.dir_order()[i],
            forall|k: Seq<char>| self@.dom().contains(k) <==> name_taken(names@, k),
    {
        let n = self.dirs.len();
        let mut names: Vec<String> = Vec::new();
        let mut i: usize = 0;
        while i < n
            invariant
                i <= n,
                n == self.dir_order().len(),
                names.len() == i,
                forall|k: Seq<char>| self@.dom().contains(k) <==> self.dir_order().contains(k),
                forall|j: int| 0 <= j < i ==> (#[trigger] names@[j])@ == self.dir_order()[j],
            decreases n - i,
        {
            names.push(self.dirs.key_at(i).clone());
            i = i + 1;
        }
        proof {
            let order = self.dir_order();
            assert forall|k: Seq<char>| self@.dom().contains(k) <==> name_taken(names@, k) by {
                if self@.dom().contains(k) {
                    assert(order.contains(k));
                    let j = choose|j: int| 0 <= j < order.len() && order[j] == k;
                    assert(names@[j]@ == k);
                    assert(name_taken(names@, k));
                }
                if name_taken(names@, k) {
                    let j = choose|j: int| 0 <= j < names.len() && (#[trigger] names@[j])@ == k;
                    assert(order[j] == k);
                    assert(order.contains(k));
                }
            }
        }
        names
    }
}

/// The sessions that a list of references points at.
pub open spec fn infos(listing: Seq<&SessionInfo>) -> Seq<SessionInfo> {
    Seq::new(listing.len(), |i: int| *listing[i])
}

impl BackgroundPid {
    /// A copy of this entry.
    pub fn duplicate(&self) -> (copy: BackgroundPid)
        ensures
            copy == *self,
    {
        BackgroundPid { pid: self.pid, label: self.label.clone(), script: self.script.clone() }
    }
}

/// Writes the record of a session into the directory `dir_name`, creating
/// the directory if need be and replacing an earlier record. A stored list
/// of background processes is left as it is. The directory is listed last
/// afterwards.
pub fn save_session(reg: &mut Registry, dir_name: &str, info: SessionInfo)
    ensures
        final(reg)@ == old(reg)@.insert(
            dir_name@,
            (SessionDir {
                record: Record::Valid(info),
                background: if old(reg)@.dom().contains(dir_name@) {
                    old(reg)@[dir_name@].background
                } else {
                    None
                },
            }),
        ),
        final(reg).has_record(dir_name@),
        final(reg).dir_order() == without_key(old(reg).dir_order(), dir_name@).push(dir_name@),
{
    let background = match reg.dirs.remove(dir_name) {
        Some(dir) => dir.background,
        None => None,
    };
    let ghost middle = reg@;
    let dir = SessionDir { record: Record::Valid(info), background };
    reg.dirs.insert(dir_name, dir);
    assert(middle.insert(dir_name@, dir) =~= old(reg)@.insert(dir_name@, dir));
}

/// Reads the record of the session stored in the directory `dir_name`.
pub fn load_session<'a>(reg: &'a Registry, dir_name: &str) -> (loaded: Result<
    &'a SessionInfo,
    RegistryError,
>)
    ensures
        match loaded {
            Ok(info) => reg@.dom().contains(dir_name@) && reg@[dir_name@].record == Record::Valid(
                *info,
            ),
            Err(RegistryError::NotFound) => !reg.has_record(dir_name@),
            Err(RegistryError::Corrupt) => reg@.dom().contains(dir_name@)
                && reg@[dir_name@].record is Corrupt,
        },
{
    match reg.dirs.get(dir_name) {
        None => Err(RegistryError::NotFound),
        Some(dir) => match &dir.record {
            Record::Missing => Err(RegistryError::NotFound),
            Record::Corrupt => Err(RegistryError::Corrupt),
            Record::Valid(info) => Ok(info),
        },
    }
}

/// Whether the directory `session_name` exists and holds a record file,
/// readable or not.
pub fn session_exists(reg: &Registry, session_name: &str) -> (exists: bool)
    ensures
        exists == reg.has_record(session_name@),
{
    match reg.dirs.get(session_name) {
        None => false,
        Some(dir) => match &dir.record {
            Record::Missing => false,
            _ => true,
        },
    }
}

/// Removes the directory `dir_name` with everything in it. Fails, changing
/// nothing, when there is no such directory.
pub fn delete_session_dir(reg: &mut Registry, dir_name: &str) -> (done: Result<(), RegistryError>)
    ensures
        final(reg)@ == old(reg)@.remove(dir_name@),
        done is Ok <==> old(reg)@.dom().contains(dir_name@),
        done is Err ==> done == Err::<(), RegistryError>(RegistryError::NotFound),
        !final(reg).has_record(dir_name@),
        final(reg).dir_order() == without_key(old(reg).dir_order(), dir_name@),
{
    match reg.dirs.remove(dir_name) {
        Some(_) => Ok(()),
        None => Err(RegistryError::NotFound),
    }
}

/// Lists the sessions with a readable record, newest first. Directories
/// whose record is missing or unreadable are skipped.
pub fn list_sessions(reg: &Registry) -> (listing: Vec<&SessionInfo>)
    ensures
        is_newest_first(reg.records(), infos(listing@)),
{
    let n = reg.dir_count();
    let mut valid: Vec<&SessionInfo> = Vec::new();
    let mut keys: Vec<i128> = Vec::new();
    let mut i: usize = 0;
    assert(reg.dir_order().take(0).len() == 0);
    while i < n
        invariant
            i <= n,
            n == reg.dir_order().len(),
            infos(valid@) == valid_records(reg.dir_order().take(i as int), reg@),
            keys.len() == valid.len(),
            forall|j: int| 0 <= j < keys.len() ==> #[trigger] keys@[j] as int == age_key(valid@[j].created_at),
        decreases n - i,
    {
        let ghost upto = reg.dir_order().take(i + 1);
        proof {
            assert(upto.drop_last() == reg.dir_order().take(i as int));
            assert(upto.last() == reg.dir_order()[i as int]);
        }
        let ghost before = infos(valid@);
        match &reg.dir_at(i).record {
            Record::Valid(info) => {
                valid.push(info);
                let key: i128 = -(info.created_at.secs as i128 * 4294967296i128
                    + info.created_at.nanos as i128);
                keys.push(key);
                assert(infos(valid@) == before.push(*info));
            },
            _ => {},
        }
        i = i + 1;
    }
    assert(reg.dir_order().take(n as int) == reg.dir_order());
    let order = stable_order(&keys);
    let mut listing: Vec<&SessionInfo> = Vec::new();
    let mut j: usize = 0;
    while j < order.len()
        invariant
            j <= order.len(),
            listing.len() == j,
            is_stable_order(key_values(keys@), positions(order@)),
            keys.len() == valid.len(),
            forall|k: int| 0 <= k < j ==> *(#[trigger] listing@[k]) == *valid@[order@[k] as int],
        decreases order.len() - j,
    {
        assert(0 <= positions(order@)[j as int] < keys.len());
        listing.push(valid[order[j]]);
        j = j + 1;
    }
    proof {
        let records = reg.records();
        assert(records == infos(valid@));
        assert(age_keys(records) =~= key_values(keys@));
        let ps = positions(order@);
        assert forall|k: int| 0 <= k < infos(listing@).len() implies #[trigger] infos(listing@)[k]
            == records[ps[k]] by {
            assert(*listing@[k] == *valid@[order@[k] as int]);
        }
        assert(is_stable_order(age_keys(records), ps));
    }
    listing
}

/// Whether `found` is the first session of `listing` on `branch`, or
/// `None` when no session of `listing` is on it.
pub open spec fn is_first_on_branch(
    listing: Seq<SessionInfo>,
    branch: Seq<char>,
    found: Option<SessionInfo>,
) -> bool {
    match found {
        Some(s) => exists|i: int|
            0 <= i < listing.len() && #[trigger] listing[i] == s && s.branch@ == branch && forall|
                j: int,
            |
                0 <= j < i ==> (#[trigger] listing[j]).branch@ != branch,
        None => forall|j: int| 0 <= j < listing.len() ==> (#[trigger] listing[j]).branch@ != branch,
    }
}

/// The first session of `listing` that uses `branch`.
pub fn find_on_branch<'a>(listing: &Vec<&'a SessionInfo>, branch: &str) -> (found: Option<
    &'a SessionInfo,
>)
    ensures
        is_first_on_branch(
            infos(listing@),
            branch@,
            match found {
                Some(s) => Some(*s),
                None => None,
            },
        ),
{
    let mut i: usize = 0;
    while i < listing.len()
        invariant
            i <= listing.len(),
            forall|j: int| 0 <= j < i ==> (#[trigger] infos(listing@)[j]).branch@ != branch@,
        decreases listing.len() - i,
    {
        let s: &'a SessionInfo = listing[i];
        if crate::text::same_text(s.branch.as_str(), branch) {
            assert(infos(listing@)[i as int] == *s);
            return Some(s);
        }
        i = i + 1;
    }
    None
}

/// The newest session that already uses `branch`, if any: two sessions
/// must not claim one branch.
pub fn find_session_by_branch<'a>(reg: &'a Registry, branch: &str) -> (found: Option<
    &'a SessionInfo,
>)
    ensures
        exists|listing: Seq<SessionInfo>|
            #![trigger is_newest_first(reg.records(), listing)]
            is_newest_first(reg.records(), listing) && is_first_on_branch(
                listing,
                branch@,
                match found {
                    Some(s) => Some(*s),
                    None => None,
                },
            ),
        found is None <==> forall|k: int|
            0 <= k < reg.records().len() ==> (#[trigger] reg.records()[k]).branch@ != branch@,
{
    let listing = list_sessions(reg);
    let found = find_on_branch(&listing, branch);
    proof {
        let l = infos(listing@);
        let records = reg.records();
        lemma_newest_first(records, l);
        if found is None {
            assert forall|k: int| 0 <= k < records.len() implies (#[trigger] records[k]).branch@
                != branch@ by {
                assert(l.contains(records[k]));
                let i = choose|i: int| 0 <= i < l.len() && l[i] == records[k];
                assert(l[i].branch@ != branch@);
            }
        } else {
            let s = *found->0;
            let i = choose|i: int|
                0 <= i < l.len() && #[trigger] l[i] == s && s.branch@ == branch@ && forall|j: int|
                    0 <= j < i ==> (#[trigger] l[j]).branch@ != branch@;
            assert(records.contains(l[i]));
            let k = choose|k: int| 0 <= k < records.len() && records[k] == l[i];
            assert(records[k].branch@ == branch@);
        }
    }
    found
}

/// Stores the list of background processes of the session in `dir_name`,
/// replacing an earlier list. Fails, changing nothing, when the directory
/// does not exist.
pub fn save_background_pids(reg: &mut Registry, dir_name: &str, pids: Vec<BackgroundPid>) -> (done:
    Result<(), RegistryError>)
    ensures
        done is Ok <==> old(reg)@.dom().contains(dir_name@),
        done is Err ==> done == Err::<(), RegistryError>(RegistryError::NotFound) && final(reg)@
            == old(reg)@,
        done is Ok ==> final(reg)@ == old(reg)@.insert(
            dir_name@,
            (SessionDir { record: old(reg)@[dir_name@].record, background: Some(pids) }),
        ),
        done is Ok ==> final(reg).dir_order() == without_key(old(reg).dir_order(), dir_name@).push(
            dir_name@,
        ),
        done is Err ==> final(reg).dir_order() == old(reg).dir_order(),
{
    match reg.dirs.remove(dir_name) {
        None => Err(RegistryError::NotFound),
        Some(dir) => {
            let ghost middle = reg@;
            let updated = SessionDir { record: dir.record, background: Some(pids) };
            reg.dirs.insert(dir_name, updated);
            assert(middle.insert(dir_name@, updated) =~= old(reg)@.insert(dir_name@, updated));
            Ok(())
        },
    }
}

/// The background processes recorded for a session, or `none` when no
/// list is stored for it.
pub open spec fn recorded_pids(dirs: Map<Seq<char>, SessionDir>, dir_name: Seq<char>) -> Seq<
    BackgroundPid,
> {
    if dirs.dom().contains(dir_name) {
        match dirs[dir_name].background {
            Some(pids) => pids@,
            None => Seq::empty(),
        }
    } else {
        Seq::empty()
    }
}

/// Reads the list of background processes of the session in `dir_name`.
/// A missing directory or a missing list reads as the empty list.
pub fn load_background_pids(reg: &Registry, dir_name: &str) -> (pids: Vec<BackgroundPid>)
    ensures
        pids@ == recorded_pids(reg@, dir_name@),
{
    let mut pids: Vec<BackgroundPid> = Vec::new();
    match reg.dirs.get(dir_name) {
        None => {},
        Some(dir) => match &dir.background {
            None => {},
            Some(stored) => {
                let mut i: usize = 0;
                while i < stored.len()
                    invariant
                        i <= stored.len(),
                        pids@ == stored@.take(i as int),
                    decreases stored.len() - i,
                {
                    pids.push(stored[i].duplicate());
                    i = i + 1;
                }
                assert(stored@.take(stored.len() as int) == stored@);
            },
        },
    }
    pids
}

/// Why no session could be picked.
#[derive(Debug, Clone, Copy, PartialEq, Eq, Structural)]
pub enum PickError {
    /// There is no session at all.
    NoSessions,
    /// No session has the requested name.
    NotFound,
}

/// Which session a command works on.
#[derive(Debug, Clone, Copy, PartialEq, Eq, Structural)]
pub enum Pick {
    /// The session at this position of the listing.
    At(usize),
    /// No name was given: the operator chooses from the listing.
    Ask,
}

/// Picks the session called `name` from `listing`, or asks for a choice
/// when no name is given. An empty listing is an error either way.
pub fn pick_session(listing: &Vec<&SessionInfo>, name: Option<&str>) -> (picked: Result<
    Pick,
    PickError,
>)
    ensures
        listing.len() == 0 ==> picked == Err::<Pick, PickError>(PickError::NoSessions),
        listing.len() > 0 && name is None ==> picked == Ok::<Pick, PickError>(Pick::Ask),
        listing.len() > 0 && name is Some ==> match picked {
            Ok(Pick::At(i)) => i < listing.len() && listing@[i as int].name@ == name->0@ && forall|
                j: int,
            |
                0 <= j < i ==> (#[trigger] listing@[j]).name@ != name->0@,
            Ok(Pick::Ask) => false,
            Err(PickError::NotFound) => forall|j: int|
                0 <= j < listing.len() ==> (#[trigger] listing@[j]).name@ != name->0@,
            Err(PickError::NoSessions) => false,
        },
{
    if listing.len() == 0 {
        return Err(PickError::NoSessions);
    }
    match name {
        None => Ok(Pick::Ask),
        Some(wanted) => {
            let mut i: usize = 0;
            while i < listing.len()
                invariant
                    i <= listing.len(),
                    name == Some(wanted),
                    forall|j: int| 0 <= j < i ==> (#[trigger] listing@[j]).name@ != wanted@,
                decreases listing.len() - i,
            {
                if crate::text::same_text(listing[i].name.as_str(), wanted) {
                    return Ok(Pick::At(i));
                }
                i = i + 1;
            }
            Err(PickError::NotFound)
        },
    }
}

/// `s` followed by as many spaces as it takes to make `width` characters;
/// `s` itself if it is that long already.
pub open spec fn padded(s: Seq<char>, width: int) -> Seq<char> {
    if s.len() >= width {
        s
    } else {
        s + Seq::new((width - s.len()) as nat, |i: int| ' ')
    }
}

fn push_padded(out: &mut Vec<char>, cell: &Vec<char>, width: usize)
    ensures
        final(out)@ == old(out)@ + padded(cell@, width as int),
{
    push_all(out, cell);
    let ghost start = out@;
    let mut n: usize = cell.len();
    assert(start + Seq::new(0nat, |i: int| ' ') =~= start);
    while n < width
        invariant
            cell.len() <= n,
            cell.len() < width ==> n <= width,
            cell.len() >= width ==> n == cell.len(),
            start == old(out)@ + cell@,
            out@ == start + Seq::new((n - cell.len()) as nat, |i: int| ' '),
        decreases width - n,
    {
        out.push(' ');
        n = n + 1;
        assert(out@ =~= start + Seq::new((n - cell.len()) as nat, |i: int| ' '));
    }
    assert(out@ =~= old(out)@ + padded(cell@, width as int));
}

/// The line of a session in the list of sessions: the name in 20 columns,
/// the branch in 25, the number of repositories in 6, and the time of
/// creation, with one space between neighbours.
pub open spec fn row_text(name: Seq<char>, branch: Seq<char>, repos: nat, created: Seq<char>) -> Seq<
    char,
> {
    padded(name, 20) + seq![' '] + padded(branch, 25) + seq![' '] + padded(decimal(repos), 6)
        + seq![' '] + created
}

/// Writes the line of a session in the list of sessions.
pub fn session_row(name: &str, branch: &str, repos: usize, created: &str) -> (row: String)
    ensures
        row@ == row_text(name@, branch@, repos as nat, created@),
{
    let mut out: Vec<char> = Vec::new();
    let name_cell = chars_of(name);
    push_padded(&mut out, &name_cell, 20);
    out.push(' ');
    let branch_cell = chars_of(branch);
    push_padded(&mut out, &branch_cell, 25);
    out.push(' ');
    let count = decimal_digits(repos as u128);
    push_padded(&mut out, &count, 6);
    out.push(' ');
    push_str(&mut out, created);
    assert(out@ =~= row_text(name@, branch@, repos as nat, created@));
    string_of(&out)
}

/// The line of `session` in the list of sessions, with its time of
/// creation written to the minute in UTC.
pub fn list_row(session: &SessionInfo) -> (row: String)
    ensures
        row@ == row_text(
            session.name@,
            session.branch@,
            session.repos@.len(),
            minute_text(session.created_at.secs as int, session.created_at.nanos as int),
        ),
{
    let created = format_minute(session.created_at);
    session_row(session.name.as_str(), session.branch.as_str(), session.repos.len(), created.as_str())
}

} // verus!
