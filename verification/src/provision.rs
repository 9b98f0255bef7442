//! Transactional provisioning of a session's worktrees.
//!
//! A session needs one worktree per selected repository. Creating them is a
//! series of git invocations, any of which may fail; when one does, every
//! worktree created so far is removed again, newest first, so that a run
//! leaves either all of its worktrees or none.
//!
//! The library does not run git. `Provisioner` is the state machine that
//! decides what to do next: the caller asks for the pending step, performs
//! it, and reports what happened. The laws at the end of this module are
//! stated over every possible series of reports.

use vstd::prelude::*;

verus! {

/// Where a provisioning run stands.
#[derive(Debug, Clone, Copy, PartialEq, Eq, Structural)]
pub enum Phase {
    /// Fetching the base ref of the current repository.
    Fetching,
    /// Finding out whether the branch exists in the current repository.
    Probing,
    /// Creating the worktree of the current repository.
    Adding,
    /// A step failed: removing the worktrees created so far.
    RollingBack,
    /// Every worktree exists: the session record can be written.
    Provisioned,
    /// The run failed and the rollback is complete.
    RolledBack,
}

/// What the caller has to do next. Repositories are named by their
/// position in the selection.
#[derive(Debug, Clone, Copy, PartialEq, Eq, Structural)]
pub enum Step {
    /// Fetch the base ref; a failure is only a warning.
    Fetch { repo: usize },
    /// Look for the branch, locally and on the remote.
    Probe { repo: usize },
    /// Create the worktree on a new branch cut from the base ref.
    Create { repo: usize },
    /// Create the worktree on the branch that already exists.
    CheckoutExisting { repo: usize },
    /// Remove the worktree again.
    Remove { repo: usize },
    /// All worktrees exist: write the session record.
    Persist,
    /// Nothing of the run is left to undo: report the failure of `failed`.
    Abort { failed: usize },
}

/// What happened when the pending step was performed.
#[derive(Debug, Clone, Copy, PartialEq, Eq, Structural)]
pub enum Event {
    /// The fetch ended, well or not.
    Fetched { ok: bool },
    /// The probe found the branch (`Some(true)`), found it absent
    /// (`Some(false)`), or could not be made (`None`).
    Probed { found: Option<bool> },
    /// The worktree was created, or creating it failed.
    Added { ok: bool },
    /// The worktree was removed, or removing it failed.
    Removed { ok: bool },
}

/// The state of a run as plain values.
pub ghost struct Run {
    /// The number of repositories.
    pub n: nat,
    /// Whether each repository's base ref is fetched first.
    pub fetch_first: bool,
    /// Whether the branch is looked for before the worktree is created.
    pub probe: bool,
    pub phase: Phase,
    /// The repository being worked on; after a failure, the one that failed.
    pub current: nat,
    /// Whether the current repository already has the branch.
    pub existing: bool,
    /// The worktrees `0..standing` exist and no removal was tried on them.
    pub standing: nat,
    /// The worktrees whose removal was tried and failed.
    pub stranded: Seq<nat>,
    /// The worktrees whose removal was tried, in the order of the tries.
    pub removals: Seq<nat>,
}

/// The phase in which work on a repository starts.
pub open spec fn first_phase(fetch_first: bool, probe: bool) -> Phase {
    if fetch_first {
        Phase::Fetching
    } else if probe {
        Phase::Probing
    } else {
        Phase::Adding
    }
}

/// The state before anything was done.
pub open spec fn initial(n: nat, fetch_first: bool, probe: bool) -> Run {
    Run {
        n,
        fetch_first,
        probe,
        phase: if n == 0 {
            Phase::Provisioned
        } else {
            first_phase(fetch_first, probe)
        },
        current: 0,
        existing: false,
        standing: 0,
        stranded: Seq::empty(),
        removals: Seq::empty(),
    }
}

/// The state after the step on the current repository failed.
pub open spec fn failing(s: Run) -> Run {
    Run { phase: if s.standing == 0 { Phase::RolledBack } else { Phase::RollingBack }, ..s }
}

/// The state after `e` was reported. A report that does not answer the
/// pending step changes nothing.
pub open spec fn next(s: Run, e: Event) -> Run {
    match (s.phase, e) {
        (Phase::Fetching, Event::Fetched { ok }) => Run {
            phase: if s.probe { Phase::Probing } else { Phase::Adding },
            existing: false,
            ..s
        },
        (Phase::Probing, Event::Probed { found: Some(found) }) => Run {
            phase: Phase::Adding,
            existing: found,
            ..s
        },
        (Phase::Probing, Event::Probed { found: None }) => failing(s),
        (Phase::Adding, Event::Added { ok: true }) => if s.current + 1 == s.n {
            Run {
                phase: Phase::Provisioned,
                current: s.n,
                existing: false,
                standing: s.n,
                ..s
            }
        } else {
            Run {
                phase: first_phase(s.fetch_first, s.probe),
                current: s.current + 1,
                existing: false,
                standing: s.current + 1,
                ..s
            }
        },
        (Phase::Adding, Event::Added { ok: false }) => failing(s),
        (Phase::RollingBack, Event::Removed { ok }) => {
            let target = (s.standing - 1) as nat;
            Run {
                phase: if target == 0 { Phase::RolledBack } else { Phase::RollingBack },
                standing: target,
                stranded: if ok { s.stranded } else { s.stranded.push(target) },
                removals: s.removals.push(target),
                ..s
            }
        },
        _ => s,
    }
}

/// The step that the caller has to perform in state `s`.
pub open spec fn pending_step(s: Run) -> Step {
    match s.phase {
        Phase::Fetching => Step::Fetch { repo: s.current as usize },
        Phase::Probing => Step::Probe { repo: s.current as usize },
        Phase::Adding => if s.existing {
            Step::CheckoutExisting { repo: s.current as usize }
        } else {
            Step::Create { repo: s.current as usize }
        },
        Phase::RollingBack => Step::Remove { repo: (s.standing - 1) as usize },
        Phase::Provisioned => Step::Persist,
        Phase::RolledBack => Step::Abort { failed: s.current as usize },
    }
}

/// The state after a series of reports, the first one first.
pub open spec fn after(s: Run, events: Seq<Event>) -> Run
    decreases events.len(),
{
    if events.len() == 0 {
        s
    } else {
        next(after(s, events.drop_last()), events.last())
    }
}

/// The worktrees of the run that exist in state `s`: those created and not
/// yet touched by the rollback, and those whose removal failed.
pub open spec fn live(s: Run) -> Set<nat> {
    Set::new(|i: nat| i < s.standing || s.stranded.contains(i))
}

/// Whether a step of the run has failed.
pub open spec fn has_failed(s: Run) -> bool {
    s.phase is RollingBack || s.phase is RolledBack
}

/// The removals tried so far undo the creations newest first: the `k`-th
/// removal is that of worktree `current - 1 - k`.
pub open spec fn removals_in_reverse(s: Run) -> bool {
    &&& s.removals.len() + s.standing == s.current
    &&& forall|k: int| 0 <= k < s.removals.len() ==> #[trigger] s.removals[k] == s.current - 1 - k
}

/// What holds in every state that a run can reach.
pub open spec fn consistent(s: Run) -> bool {
    &&& s.n <= usize::MAX
    &&& forall|i: int| 0 <= i < s.stranded.len() ==> s.removals.contains(#[trigger] s.stranded[i])
    &&& match s.phase {
        Phase::Fetching | Phase::Probing | Phase::Adding => {
            &&& s.current < s.n
            &&& s.standing == s.current
            &&& s.removals.len() == 0
            &&& (s.phase is Fetching ==> s.fetch_first)
            &&& (s.phase is Probing ==> s.probe)
        },
        Phase::Provisioned => s.current == s.n && s.standing == s.n && s.removals.len() == 0,
        Phase::RollingBack => s.current < s.n && 0 < s.standing && removals_in_reverse(s),
        Phase::RolledBack => s.current < s.n && s.standing == 0 && removals_in_reverse(s),
    }
}

/// A consistent state stays consistent under every report.
pub proof fn lemma_next_consistent(s: Run, e: Event)
    requires
        consistent(s),
    ensures
        consistent(next(s, e)),
{
    let t = next(s, e);
    match (s.phase, e) {
        (Phase::RollingBack, Event::Removed { ok }) => {
            let target = (s.standing - 1) as nat;
            assert(t.removals == s.removals.push(target));
            assert forall|k: int| 0 <= k < t.removals.len() implies #[trigger] t.removals[k]
                == t.current - 1 - k by {
                if k < s.removals.len() {
                    assert(t.removals[k] == s.removals[k]);
                }
            }
            assert forall|i: int| 0 <= i < t.stranded.len() implies t.removals.contains(
                #[trigger] t.stranded[i],
            ) by {
                if i < s.stranded.len() {
                    let x = s.stranded[i];
                    assert(t.stranded[i] == x);
                    assert(s.removals.contains(x));
                    let k = choose|k: int| 0 <= k < s.removals.len() && s.removals[k] == x;
                    assert(t.removals[k] == x);
                } else {
                    assert(t.removals[t.removals.len() - 1] == target);
                }
            }
        },
        _ => {},
    }
}

/// Every state of a run is consistent.
pub proof fn lemma_run_consistent(n: nat, fetch_first: bool, probe: bool, events: Seq<Event>)
    requires
        n <= usize::MAX,
    ensures
        consistent(after(initial(n, fetch_first, probe), events)),
        after(initial(n, fetch_first, probe), events).n == n,
    decreases events.len(),
{
    if events.len() > 0 {
        lemma_run_consistent(n, fetch_first, probe, events.drop_last());
        lemma_next_consistent(
            after(initial(n, fetch_first, probe), events.drop_last()),
            events.last(),
        );
    }
}

/// Once a step has failed, the run never gets to write a session record:
/// whatever is reported afterwards, it stays failed.
pub proof fn lemma_failure_is_final(s: Run, events: Seq<Event>)
    requires
        has_failed(s),
    ensures
        has_failed(after(s, events)),
        after(s, events).current == s.current,
    decreases events.len(),
{
    if events.len() > 0 {
        lemma_failure_is_final(s, events.drop_last());
    }
}

/// A failed probe or a failed creation puts the run into its rollback, in
/// whatever state it is reported.
pub proof fn lemma_failed_step_starts_rollback(s: Run, e: Event)
    requires
        consistent(s),
        (s.phase is Adding && e == Event::Added { ok: false }) || (s.phase is Probing && e
            == Event::Probed { found: None }),
    ensures
        has_failed(next(s, e)),
        next(s, e).current == s.current,
        live(next(s, e)) == live(s),
{
}

/// All or nothing. However a provisioning run over `n` repositories goes:
/// when it ends ready to persist, exactly the `n` worktrees exist; when it
/// ends after a failure, a removal was tried on every worktree the run had
/// created, newest first, and the only worktrees left are those whose
/// removal itself failed. With every removal succeeding, none is left.
pub proof fn lemma_all_or_nothing(n: nat, fetch_first: bool, probe: bool, events: Seq<Event>)
    requires
        n <= usize::MAX,
    ensures
        ({
            let end = after(initial(n, fetch_first, probe), events);
            &&& end.phase is Provisioned ==> live(end) == Set::new(|i: nat| i < n)
            &&& end.phase is RolledBack ==> {
                &&& end.removals.len() == end.current
                &&& forall|k: int|
                    0 <= k < end.removals.len() ==> #[trigger] end.removals[k] == end.current - 1
                        - k
                &&& live(end) == end.stranded.to_set()
                &&& (end.stranded.len() == 0 ==> live(end) == Set::<nat>::empty())
            }
        }),
{
    let end = after(initial(n, fetch_first, probe), events);
    lemma_run_consistent(n, fetch_first, probe, events);
    if end.phase is Provisioned {
        assert(end.stranded.len() == 0) by {
            if end.stranded.len() > 0 {
                assert(end.removals.contains(end.stranded[0]));
            }
        }
        assert forall|i: nat| live(end).contains(i) <==> i < n by {
            assert(!end.stranded.contains(i));
        }
        assert(live(end) =~= Set::new(|i: nat| i < n));
    }
    if end.phase is RolledBack {
        assert(live(end) =~= end.stranded.to_set());
        if end.stranded.len() == 0 {
            assert(live(end) =~= Set::<nat>::empty());
        }
    }
}

/// While a run is under way and nothing has failed, the worktrees that
/// exist are exactly those of the repositories before the current one.
pub proof fn lemma_progress_is_a_prefix(n: nat, fetch_first: bool, probe: bool, events: Seq<Event>)
    requires
        n <= usize::MAX,
    ensures
        ({
            let s = after(initial(n, fetch_first, probe), events);
            !has_failed(s) ==> live(s) == Set::new(|i: nat| i < s.current)
        }),
{
    let s = after(initial(n, fetch_first, probe), events);
    lemma_run_consistent(n, fetch_first, probe, events);
    if !has_failed(s) {
        assert(s.stranded.len() == 0) by {
            if s.stranded.len() > 0 {
                assert(s.removals.contains(s.stranded[0]));
            }
        }
        assert forall|i: nat| live(s).contains(i) <==> i < s.current by {
            assert(!s.stranded.contains(i));
        }
        assert(live(s) =~= Set::new(|i: nat| i < s.current));
    }
}

/// A run in which no removal fails strands nothing.
pub proof fn lemma_clean_rollback_strands_nothing(s: Run, events: Seq<Event>)
    requires
        s.stranded.len() == 0,
        forall|i: int| 0 <= i < events.len() ==> #[trigger] events[i] != (Event::Removed { ok: false }),
    ensures
        after(s, events).stranded.len() == 0,
    decreases events.len(),
{
    if events.len() > 0 {
        let front = events.drop_last();
        assert forall|i: int| 0 <= i < front.len() implies #[trigger] front[i] != (Event::Removed {
            ok: false,
        }) by {
            assert(front[i] == events[i]);
        }
        lemma_clean_rollback_strands_nothing(s, front);
        assert(events[events.len() - 1] != (Event::Removed { ok: false }));
    }
}

/// Full rollback. Take any run in which the creation of some repository's
/// worktree fails, or the probe before it, and in which every removal that
/// is tried succeeds. When that run has ended, none of its worktrees
/// exists: never a part of them.
pub proof fn lemma_failed_run_leaves_nothing(
    n: nat,
    fetch_first: bool,
    probe: bool,
    events: Seq<Event>,
    at: int,
)
    requires
        n <= usize::MAX,
        0 <= at < events.len(),
        ({
            let s = after(initial(n, fetch_first, probe), events.take(at));
            (s.phase is Adding && events[at] == Event::Added { ok: false }) || (s.phase is Probing
                && events[at] == Event::Probed { found: None })
        }),
        forall|i: int| 0 <= i < events.len() ==> #[trigger] events[i] != (Event::Removed { ok: false }),
        ({
            let end = after(initial(n, fetch_first, probe), events);
            end.phase is Provisioned || end.phase is RolledBack
        }),
    ensures
        after(initial(n, fetch_first, probe), events).phase is RolledBack,
        live(after(initial(n, fetch_first, probe), events)) == Set::<nat>::empty(),
{
    let start = initial(n, fetch_first, probe);
    let s = after(start, events.take(at));
    let failed = next(s, events[at]);
    let rest = events.skip(at + 1);
    lemma_run_consistent(n, fetch_first, probe, events.take(at));
    lemma_after_split(start, events, at + 1);
    assert(events.take(at + 1).drop_last() == events.take(at));
    assert(after(start, events.take(at + 1)) == failed);
    lemma_failure_is_final(failed, rest);
    lemma_clean_rollback_strands_nothing(start, events);
    lemma_all_or_nothing(n, fetch_first, probe, events);
}

/// Reports can be taken in two batches.
pub proof fn lemma_after_split(s: Run, events: Seq<Event>, k: int)
    requires
        0 <= k <= events.len(),
    ensures
        after(s, events) == after(after(s, events.take(k)), events.skip(k)),
    decreases events.len(),
{
    if k == events.len() {
        assert(events.take(k) == events);
        assert(events.skip(k).len() == 0);
    } else {
        let front = events.drop_last();
        lemma_after_split(s, front, k);
        assert(front.take(k) == events.take(k));
        assert(events.skip(k).drop_last() == front.skip(k));
        assert(events.skip(k).last() == events.last());
    }
}

/// The state machine of one provisioning run.
pub struct Provisioner {
    n: usize,
    fetch_first: bool,
    probe: bool,
    phase: Phase,
    current: usize,
    existing: bool,
    standing: usize,
    stranded: Vec<usize>,
    removals: Ghost<Seq<nat>>,
}

impl View for Provisioner {
    type V = Run;

    closed spec fn view(&self) -> Run {
        Run {
            n: self.n as nat,
            fetch_first: self.fetch_first,
            probe: self.probe,
            phase: self.phase,
            current: self.current as nat,
            existing: self.existing,
            standing: self.standing as nat,
            stranded: Seq::new(self.stranded@.len(), |i: int| self.stranded@[i] as nat),
            removals: self.removals@,
        }
    }
}

impl Provisioner {
    #[verifier::type_invariant]
    spec fn well_formed(&self) -> bool {
        consistent(self@)
    }

    /// A run over `n` repositories. With `fetch_first` each repository's
    /// base ref is fetched before its worktree is made; with `probe` the
    /// branch is looked for first and checked out where it exists.
    pub fn new(n: usize, fetch_first: bool, probe: bool) -> (run: Self)
        ensures
            run@ == initial(n as nat, fetch_first, probe),
    {
        let phase = if n == 0 {
            Phase::Provisioned
        } else if fetch_first {
            Phase::Fetching
        } else if probe {
            Phase::Probing
        } else {
            Phase::Adding
        };
        let run = Provisioner {
            n,
            fetch_first,
            probe,
            phase,
            current: 0,
            existing: false,
            standing: 0,
            stranded: Vec::new(),
            removals: Ghost(Seq::empty()),
        };
        assert(run@.stranded =~= Seq::<nat>::empty());
        run
    }

    /// Where the run stands.
    pub fn phase(&self) -> (phase: Phase)
        ensures
            phase == self@.phase,
    {
        self.phase
    }

    /// Whether the run has ended: ready to persist, or rolled back.
    pub fn is_finished(&self) -> (done: bool)
        ensures
            done == (self@.phase is Provisioned || self@.phase is RolledBack),
    {
        match self.phase {
            Phase::Provisioned => true,
            Phase::RolledBack => true,
            _ => false,
        }
    }

    /// The worktrees left behind by a rollback: those whose removal failed.
    pub fn stranded(&self) -> (left: Vec<usize>)
        ensures
            left@.len() == self@.stranded.len(),
            forall|i: int| 0 <= i < left@.len() ==> #[trigger] left@[i] as nat == self@.stranded[i],
    {
        let mut left: Vec<usize> = Vec::new();
        let mut i: usize = 0;
        while i < self.stranded.len()
            invariant
                i <= self.stranded.len(),
                left@ == self.stranded@.take(i as int),
            decreases self.stranded.len() - i,
        {
            left.push(self.stranded[i]);
            i = i + 1;
        }
        left
    }

    /// The step to perform next.
    pub fn pending(&self) -> (step: Step)
        ensures
            step == pending_step(self@),
    {
        proof {
            use_type_invariant(self);
        }
        match self.phase {
            Phase::Fetching => Step::Fetch { repo: self.current },
            Phase::Probing => Step::Probe { repo: self.current },
            Phase::Adding => if self.existing {
                Step::CheckoutExisting { repo: self.current }
            } else {
                Step::Create { repo: self.current }
            },
            Phase::RollingBack => Step::Remove { repo: self.standing - 1 },
            Phase::Provisioned => Step::Persist,
            Phase::RolledBack => Step::Abort { failed: self.current },
        }
    }

    /// Takes the report `event` on the pending step and moves on.
    pub fn advance(&mut self, event: Event)
        ensures
            final(self)@ == next(old(self)@, event),
    {
        proof {
            use_type_invariant(&*self);
            lemma_next_consistent(self@, event);
        }
        let ghost before = self@;
        let start = if self.fetch_first {
            Phase::Fetching
        } else if self.probe {
            Phase::Probing
        } else {
            Phase::Adding
        };
        let failed_phase = if self.standing == 0 {
            Phase::RolledBack
        } else {
            Phase::RollingBack
        };
        match (self.phase, event) {
            (Phase::Fetching, Event::Fetched { ok }) => {
                let to = if self.probe {
                    Phase::Probing
                } else {
                    Phase::Adding
                };
                self.replace(to, self.current, false, self.standing, None);
            },
            (Phase::Probing, Event::Probed { found: Some(found) }) => {
                self.replace(Phase::Adding, self.current, found, self.standing, None);
            },
            (Phase::Probing, Event::Probed { found: None }) => {
                self.replace(failed_phase, self.current, self.existing, self.standing, None);
            },
            (Phase::Adding, Event::Added { ok: true }) => {
                if self.current + 1 == self.n {
                    self.replace(Phase::Provisioned, self.n, false, self.n, None);
                } else {
                    self.replace(start, self.current + 1, false, self.current + 1, None);
                }
            },
            (Phase::Adding, Event::Added { ok: false }) => {
                self.replace(failed_phase, self.current, self.existing, self.standing, None);
            },
            (Phase::RollingBack, Event::Removed { ok }) => {
                let target = self.standing - 1;
                let to = if target == 0 {
                    Phase::RolledBack
                } else {
                    Phase::RollingBack
                };
                self.replace(to, self.current, self.existing, target, Some(ok));
            },
            _ => {
                assert(next(before, event) == before);
            },
        }
    }

    /// Puts the machine into the given state; `removed` reports a removal
    /// of the worktree `standing`, and whether it succeeded.
    fn replace(
        &mut self,
        phase: Phase,
        current: usize,
        existing: bool,
        standing: usize,
        removed: Option<bool>,
    )
        requires
            consistent(
                Run {
                    phase,
                    current: current as nat,
                    existing,
                    standing: standing as nat,
                    stranded: if removed == Some(false) {
                        old(self)@.stranded.push(standing as nat)
                    } else {
                        old(self)@.stranded
                    },
                    removals: if removed is Some {
                        old(self)@.removals.push(standing as nat)
                    } else {
                        old(self)@.removals
                    },
                    ..old(self)@
                },
            ),
        ensures
            final(self)@ == (Run {
                phase,
                current: current as nat,
                existing,
                standing: standing as nat,
                stranded: if removed == Some(false) {
                    old(self)@.stranded.push(standing as nat)
                } else {
                    old(self)@.stranded
                },
                removals: if removed is Some {
                    old(self)@.removals.push(standing as nat)
                } else {
                    old(self)@.removals
                },
                ..old(self)@
            }),
    {
        let ghost before = self@;
        let ghost target = Run {
            phase,
            current: current as nat,
            existing,
            standing: standing as nat,
            stranded: if removed == Some(false) {
                before.stranded.push(standing as nat)
            } else {
                before.stranded
            },
            removals: if removed is Some {
                before.removals.push(standing as nat)
            } else {
                before.removals
            },
            ..before
        };
        let n = self.n;
        let fetch_first = self.fetch_first;
        let probe = self.probe;
        let mut stranded = self.take_stranded();
        match removed {
            Some(ok) => {
                if !ok {
                    stranded.push(standing);
                }
            },
            None => {},
        }
        proof {
            assert(Seq::new(stranded@.len(), |i: int| stranded@[i] as nat) =~= target.stranded);
        }
        *self =
        Provisioner {
            n,
            fetch_first,
            probe,
            phase,
            current,
            existing,
            standing,
            stranded,
            removals: Ghost(target.removals),
        };
    }

    /// Moves the list of stranded worktrees out, leaving an empty one.
    fn take_stranded(&mut self) -> (moved: Vec<usize>)
        ensures
            moved@ == old(self).stranded@,
            final(self)@ == (Run { stranded: Seq::empty(), ..old(self)@ }),
    {
        let mut moved: Vec<usize> = Vec::new();
        proof {
            use_type_invariant(&*self);
        }
        core::mem::swap(&mut self.stranded, &mut moved);
        assert(self@.stranded =~= Seq::<nat>::empty());
        moved
    }
}

} // verus!
