//! Stopping background processes.
//!
//! Background scripts outlive the invocation that started them; all that
//! is known of them later is a list of pids. Stopping them is done in two
//! rounds: every process is asked to terminate, the processes are watched
//! for a bounded time, and whatever is still alive then is killed.
//!
//! Signals, probes, the clock and sleeping belong to the caller.
//! `KillSupervisor` decides what comes next from what the caller reports.

use vstd::prelude::*;

verus! {

/// How long processes are given to exit after the graceful signal, in
/// milliseconds.
pub const GRACE_MILLIS: u64 = 5000;

/// How long to sleep between two looks at the processes, in milliseconds.
pub const POLL_MILLIS: u64 = 200;

/// Where the supervisor stands.
#[derive(Debug, Clone, Copy, PartialEq, Eq, Structural)]
pub enum KillPhase {
    /// Sending the graceful signal to each process in turn.
    Terminating,
    /// Looking for a process that is still alive.
    Polling,
    /// A process is alive: asking how much time has passed.
    Timing,
    /// Waiting before the next look.
    Sleeping,
    /// The wait is over: probing each process a last time.
    Checking,
    /// Killing the process that the last probe found alive.
    Killing,
    /// Nothing is left to do.
    Done,
}

/// What the caller has to do next.
#[derive(Debug, Clone, Copy, PartialEq, Eq, Structural)]
pub enum KillStep {
    /// Send the graceful terminate signal. A process that is already gone
    /// counts as signalled.
    Terminate { pid: u32 },
    /// Find out whether the process is alive, without disturbing it.
    Probe { pid: u32 },
    /// Report the time passed since the first probe.
    ReadClock,
    /// Sleep for this many milliseconds.
    Sleep { millis: u64 },
    /// Kill the process outright. A process that is already gone counts as
    /// killed.
    Kill { pid: u32 },
    /// Stop: every process was found dead or has been killed.
    Finish,
}

/// What the caller reports.
#[derive(Debug, Clone, Copy, PartialEq, Eq, Structural)]
pub enum KillEvent {
    /// The signal was sent, or there was no such process.
    Signalled,
    /// The result of a probe.
    Probed { alive: bool },
    /// The milliseconds passed since the first probe.
    Clock { elapsed_millis: u64 },
    /// The sleep is over.
    Slept,
}

/// The state of the supervisor as plain values.
pub ghost struct KillRun {
    pub pids: Seq<u32>,
    pub phase: KillPhase,
    /// The position of the process being dealt with.
    pub next: nat,
}

/// The state before anything was done.
pub open spec fn kill_start(pids: Seq<u32>) -> KillRun {
    KillRun {
        pids,
        phase: if pids.len() == 0 { KillPhase::Done } else { KillPhase::Terminating },
        next: 0,
    }
}

/// The state after `e` was reported. A report that does not answer the
/// pending step changes nothing.
pub open spec fn kill_next(s: KillRun, e: KillEvent) -> KillRun {
    let last = s.next + 1 == s.pids.len();
    match (s.phase, e) {
        (KillPhase::Terminating, KillEvent::Signalled) => if last {
            KillRun { phase: KillPhase::Polling, next: 0, ..s }
        } else {
            KillRun { next: s.next + 1, ..s }
        },
        (KillPhase::Polling, KillEvent::Probed { alive: true }) => KillRun {
            phase: KillPhase::Timing,
            next: 0,
            ..s
        },
        (KillPhase::Polling, KillEvent::Probed { alive: false }) => if last {
            KillRun { phase: KillPhase::Checking, next: 0, ..s }
        } else {
            KillRun { next: s.next + 1, ..s }
        },
        (KillPhase::Timing, KillEvent::Clock { elapsed_millis }) => if elapsed_millis
            >= GRACE_MILLIS {
            KillRun { phase: KillPhase::Checking, next: 0, ..s }
        } else {
            KillRun { phase: KillPhase::Sleeping, next: 0, ..s }
        },
        (KillPhase::Sleeping, KillEvent::Slept) => KillRun { phase: KillPhase::Polling, next: 0, ..s },
        (KillPhase::Checking, KillEvent::Probed { alive: true }) => KillRun {
            phase: KillPhase::Killing,
            ..s
        },
        (KillPhase::Checking, KillEvent::Probed { alive: false }) => if last {
            KillRun { phase: KillPhase::Done, next: 0, ..s }
        } else {
            KillRun { next: s.next + 1, ..s }
        },
        (KillPhase::Killing, KillEvent::Signalled) => if last {
            KillRun { phase: KillPhase::Done, next: 0, ..s }
        } else {
            KillRun { phase: KillPhase::Checking, next: s.next + 1, ..s }
        },
        _ => s,
    }
}

/// The step that the caller has to perform in state `s`.
pub open spec fn kill_pending(s: KillRun) -> KillStep {
    match s.phase {
        KillPhase::Terminating => KillStep::Terminate { pid: s.pids[s.next as int] },
        KillPhase::Polling => KillStep::Probe { pid: s.pids[s.next as int] },
        KillPhase::Timing => KillStep::ReadClock,
        KillPhase::Sleeping => KillStep::Sleep { millis: POLL_MILLIS },
        KillPhase::Checking => KillStep::Probe { pid: s.pids[s.next as int] },
        KillPhase::Killing => KillStep::Kill { pid: s.pids[s.next as int] },
        KillPhase::Done => KillStep::Finish,
    }
}

/// The state after a series of reports, the first one first.
pub open spec fn kill_after(s: KillRun, events: Seq<KillEvent>) -> KillRun
    decreases events.len(),
{
    if events.len() == 0 {
        s
    } else {
        kill_next(kill_after(s, events.drop_last()), events.last())
    }
}

/// What holds in every state the supervisor can reach.
pub open spec fn kill_consistent(s: KillRun) -> bool {
    &&& s.pids.len() <= usize::MAX
    &&& (s.phase is Done || s.pids.len() > 0)
    &&& match s.phase {
        KillPhase::Terminating | KillPhase::Polling | KillPhase::Checking | KillPhase::Killing =>
            s.next < s.pids.len(),
        _ => s.next == 0,
    }
}

/// A consistent state stays consistent under every report.
pub proof fn lemma_kill_next_consistent(s: KillRun, e: KillEvent)
    requires
        kill_consistent(s),
    ensures
        kill_consistent(kill_next(s, e)),
        kill_next(s, e).pids == s.pids,
{
}

/// `count` reports of the same kind.
pub open spec fn repeated(e: KillEvent, count: nat) -> Seq<KillEvent> {
    Seq::new(count, |i: int| e)
}

/// The graceful signal goes to every process, in the order of the list,
/// before anything else is done: after `k` signals were sent the next step
/// is the signal to the `k`-th process, and after all of them the first
/// probe.
pub proof fn lemma_everyone_is_asked_to_terminate(pids: Seq<u32>, k: nat)
    requires
        k <= pids.len(),
        pids.len() > 0,
    ensures
        ({
            let s = kill_after(kill_start(pids), repeated(KillEvent::Signalled, k));
            &&& s.pids == pids
            &&& k < pids.len() ==> s.phase is Terminating && s.next == k && kill_pending(s)
                == KillStep::Terminate { pid: pids[k as int] }
            &&& k == pids.len() ==> s.phase is Polling && s.next == 0 && kill_pending(s)
                == KillStep::Probe { pid: pids[0] }
        }),
    decreases k,
{
    if k > 0 {
        lemma_everyone_is_asked_to_terminate(pids, (k - 1) as nat);
        assert(repeated(KillEvent::Signalled, k).drop_last() == repeated(
            KillEvent::Signalled,
            (k - 1) as nat,
        ));
    }
}

/// A round of probes that all find their process dead, started at the
/// first process, ends the phase it is made in: the look-out phase gives
/// way to the last check, and the last check to the end. No other step
/// comes up on the way: no clock is read, no sleep is taken and no process
/// is killed.
pub proof fn lemma_quiet_round(s: KillRun, k: nat)
    requires
        kill_consistent(s),
        s.phase is Polling || s.phase is Checking,
        s.next == 0,
        k <= s.pids.len(),
    ensures
        ({
            let t = kill_after(s, repeated(KillEvent::Probed { alive: false }, k));
            &&& t.pids == s.pids
            &&& k < s.pids.len() ==> t.phase == s.phase && t.next == k && kill_pending(t)
                == KillStep::Probe { pid: s.pids[k as int] }
            &&& k == s.pids.len() && s.phase is Polling ==> t.phase is Checking && t.next == 0
            &&& k == s.pids.len() && s.phase is Checking ==> t.phase is Done
        }),
    decreases k,
{
    if k > 0 {
        lemma_quiet_round(s, (k - 1) as nat);
        assert(repeated(KillEvent::Probed { alive: false }, k).drop_last() == repeated(
            KillEvent::Probed { alive: false },
            (k - 1) as nat,
        ));
    }
}

/// Processes that exit promptly are never killed. When every process has
/// exited by the first look, the supervisor finishes after one round of
/// probes and one last check, without reading the clock, sleeping or
/// killing: it ends before the grace period has even begun to run out.
pub proof fn lemma_prompt_exit_needs_no_force(pids: Seq<u32>)
    requires
        0 < pids.len() <= usize::MAX,
    ensures
        ({
            let n = pids.len();
            let signalled = kill_after(kill_start(pids), repeated(KillEvent::Signalled, n));
            let looked = kill_after(signalled, repeated(KillEvent::Probed { alive: false }, n));
            let checked = kill_after(looked, repeated(KillEvent::Probed { alive: false }, n));
            &&& signalled.phase is Polling
            &&& looked.phase is Checking
            &&& checked.phase is Done
            &&& kill_pending(checked) == KillStep::Finish
        }),
{
    let n = pids.len();
    lemma_everyone_is_asked_to_terminate(pids, n);
    let signalled = kill_after(kill_start(pids), repeated(KillEvent::Signalled, n));
    lemma_quiet_round(signalled, n);
    let looked = kill_after(signalled, repeated(KillEvent::Probed { alive: false }, n));
    lemma_quiet_round(looked, n);
}

/// The wait is bounded. When a process is alive and the grace period has
/// run out, the supervisor stops waiting and turns to the last check; while
/// the grace period lasts, it sleeps one interval and looks again.
pub proof fn lemma_deadline_ends_the_wait(s: KillRun, elapsed_millis: u64)
    requires
        kill_consistent(s),
        s.phase is Timing,
        s.pids.len() > 0,
    ensures
        ({
            let t = kill_next(s, KillEvent::Clock { elapsed_millis });
            &&& elapsed_millis >= GRACE_MILLIS ==> t.phase is Checking && kill_pending(t)
                == KillStep::Probe { pid: s.pids[0] }
            &&& elapsed_millis < GRACE_MILLIS ==> t.phase is Sleeping && kill_pending(t)
                == KillStep::Sleep { millis: POLL_MILLIS }
        }),
{
}

/// A survivor is killed. In the last check, a process found alive is the
/// next to be killed, and a process found dead is left alone: the step
/// after its probe is never its kill.
pub proof fn lemma_survivor_is_killed(s: KillRun, alive: bool)
    requires
        kill_consistent(s),
        s.phase is Checking,
    ensures
        ({
            let pid = s.pids[s.next as int];
            let t = kill_next(s, KillEvent::Probed { alive });
            &&& kill_pending(s) == KillStep::Probe { pid }
            &&& alive ==> kill_pending(t) == KillStep::Kill { pid }
            &&& !alive ==> !(t.phase is Killing)
        }),
{
}

/// The last check looks at every process: from its start, whatever the
/// probes report and with each kill acknowledged, the process at position
/// `k` is probed after the `k` before it were dealt with.
pub proof fn lemma_last_check_covers_everyone(s: KillRun, reports: Seq<bool>)
    requires
        kill_consistent(s),
        s.phase is Checking,
        s.next == 0,
        reports.len() <= s.pids.len(),
    ensures
        ({
            let t = kill_after(s, check_events(reports));
            &&& t.pids == s.pids
            &&& reports.len() < s.pids.len() ==> t.phase is Checking && t.next == reports.len()
            &&& reports.len() == s.pids.len() ==> t.phase is Done
        }),
    decreases reports.len(),
{
    if reports.len() > 0 {
        let front = reports.drop_last();
        lemma_last_check_covers_everyone(s, front);
        let mid = kill_after(s, check_events(front));
        let tail = if reports.last() {
            seq![KillEvent::Probed { alive: true }, KillEvent::Signalled]
        } else {
            seq![KillEvent::Probed { alive: false }]
        };
        reveal_with_fuel(kill_after, 3);
        assert(check_events(reports) == check_events(front) + tail);
        lemma_kill_after_concat(s, check_events(front), tail);
        if reports.last() {
            let probe = seq![KillEvent::Probed { alive: true }];
            assert(tail == seq![KillEvent::Probed { alive: true }, KillEvent::Signalled]);
            assert(tail.drop_last() == probe);
            assert(probe.drop_last().len() == 0);
            assert(kill_after(mid, probe) == kill_next(mid, KillEvent::Probed { alive: true }));
        } else {
            assert(tail == seq![KillEvent::Probed { alive: false }]);
            assert(tail.drop_last().len() == 0);
        }
    }
}

/// The reports of a last check in which the `i`-th probe finds its process
/// alive or dead as `reports[i]` says, each kill being acknowledged.
pub open spec fn check_events(reports: Seq<bool>) -> Seq<KillEvent>
    decreases reports.len(),
{
    if reports.len() == 0 {
        Seq::empty()
    } else if reports.last() {
        check_events(reports.drop_last()) + seq![
            KillEvent::Probed { alive: true },
            KillEvent::Signalled,
        ]
    } else {
        check_events(reports.drop_last()) + seq![KillEvent::Probed { alive: false }]
    }
}

/// Reports can be taken in two batches.
pub proof fn lemma_kill_after_concat(s: KillRun, a: Seq<KillEvent>, b: Seq<KillEvent>)
    ensures
        kill_after(s, a + b) == kill_after(kill_after(s, a), b),
    decreases b.len(),
{
    if b.len() == 0 {
        assert(a + b == a);
    } else {
        lemma_kill_after_concat(s, a, b.drop_last());
        assert((a + b).drop_last() == a + b.drop_last());
        assert((a + b).last() == b.last());
    }
}

/// The supervisor of one stop request.
pub struct KillSupervisor {
    pids: Vec<u32>,
    phase: KillPhase,
    next: usize,
}

impl View for KillSupervisor {
    type V = KillRun;

    closed spec fn view(&self) -> KillRun {
        KillRun { pids: self.pids@, phase: self.phase, next: self.next as nat }
    }
}

impl KillSupervisor {
    #[verifier::type_invariant]
    spec fn well_formed(&self) -> bool {
        kill_consistent(self@)
    }

    /// A supervisor for the processes `pids`.
    pub fn new(pids: Vec<u32>) -> (run: Self)
        ensures
            run@ == kill_start(pids@),
    {
        let phase = if pids.len() == 0 {
            KillPhase::Done
        } else {
            KillPhase::Terminating
        };
        KillSupervisor { pids, phase, next: 0 }
    }

    /// Whether nothing is left to do.
    pub fn is_done(&self) -> (done: bool)
        ensures
            done == (self@.phase is Done),
    {
        match self.phase {
            KillPhase::Done => true,
            _ => false,
        }
    }

    /// The step to perform next.
    pub fn pending(&self) -> (step: KillStep)
        ensures
            step == kill_pending(self@),
    {
        proof {
            use_type_invariant(self);
        }
        match self.phase {
            KillPhase::Terminating => KillStep::Terminate { pid: self.pids[self.next] },
            KillPhase::Polling => KillStep::Probe { pid: self.pids[self.next] },
            KillPhase::Timing => KillStep::ReadClock,
            KillPhase::Sleeping => KillStep::Sleep { millis: POLL_MILLIS },
            KillPhase::Checking => KillStep::Probe { pid: self.pids[self.next] },
            KillPhase::Killing => KillStep::Kill { pid: self.pids[self.next] },
            KillPhase::Done => KillStep::Finish,
        }
    }

    /// Takes the report `event` on the pending step and moves on.
    pub fn advance(&mut self, event: KillEvent)
        ensures
            final(self)@ == kill_next(old(self)@, event),
    {
        proof {
            use_type_invariant(&*self);
        }
        let last = self.next + 1 == self.pids.len();
        let (phase, next) = match (self.phase, event) {
            (KillPhase::Terminating, KillEvent::Signalled) => if last {
                (KillPhase::Polling, 0usize)
            } else {
                (KillPhase::Terminating, self.next + 1)
            },
            (KillPhase::Polling, KillEvent::Probed { alive: true }) => (KillPhase::Timing, 0usize),
            (KillPhase::Polling, KillEvent::Probed { alive: false }) => if last {
                (KillPhase::Checking, 0usize)
            } else {
                (KillPhase::Polling, self.next + 1)
            },
            (KillPhase::Timing, KillEvent::Clock { elapsed_millis }) => if elapsed_millis
                >= GRACE_MILLIS {
                (KillPhase::Checking, 0usize)
            } else {
                (KillPhase::Sleeping, 0usize)
            },
            (KillPhase::Sleeping, KillEvent::Slept) => (KillPhase::Polling, 0usize),
            (KillPhase::Checking, KillEvent::Probed { alive: true }) => (
                KillPhase::Killing,
                self.next,
            ),
            (KillPhase::Checking, KillEvent::Probed { alive: false }) => if last {
                (KillPhase::Done, 0usize)
            } else {
                (KillPhase::Checking, self.next + 1)
            },
            (KillPhase::Killing, KillEvent::Signalled) => if last {
                (KillPhase::Done, 0usize)
            } else {
                (KillPhase::Checking, self.next + 1)
            },
            _ => (self.phase, self.next),
        };
        self.set(phase, next);
    }

    fn set(&mut self, phase: KillPhase, next: usize)
        requires
            kill_consistent(KillRun { phase, next: next as nat, ..old(self)@ }),
        ensures
            final(self)@ == (KillRun { phase, next: next as nat, ..old(self)@ }),
    {
        let mut spent = KillSupervisor { pids: Vec::new(), phase: KillPhase::Done, next: 0 };
        core::mem::swap(self, &mut spent);
        *self = KillSupervisor { pids: spent.pids, phase, next };
    }
}

} // verus!
