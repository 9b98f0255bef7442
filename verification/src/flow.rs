//! The course of creating a session.
//!
//! Creating a session goes through fixed stages: the repositories are
//! discovered and selected, a branch name is settled, the worktrees are
//! provisioned, the session record is written, the locks are arbitrated and
//! the setup scripts run. What may go wrong differs by stage. Before
//! provisioning nothing has been changed and the run simply ends. During
//! provisioning a failure undoes the worktrees made so far. Once the record
//! is written nothing is undone any more: trouble with locks or scripts
//! leaves a session that exists and can be stopped.
//!
//! `SessionFlow` keeps track of the stage and tells the caller what to do
//! next; the caller does it and reports back.

use vstd::prelude::*;
use crate::provision::{
    consistent, initial, lemma_next_consistent, live, next, pending_step, Event, Phase,
    Provisioner, Run, Step,
};

verus! {

/// Where the creation of a session stands.
#[derive(Debug, Clone, Copy, PartialEq, Eq, Structural)]
pub enum Stage {
    Discovering,
    Selecting,
    BranchResolving,
    Provisioning,
    RollingBack,
    Persisting,
    LockArbitration,
    ScriptExecution,
    Finalized,
}

/// How the creation of a session ended.
#[derive(Debug, Clone, Copy, PartialEq, Eq, Structural)]
pub enum Ending {
    /// The session exists and everything went well.
    Created,
    /// The session exists; its locks could not be arbitrated.
    DegradedByLocks,
    /// The session exists; a setup script failed.
    DegradedByScripts,
    /// No repository was found. Nothing was changed.
    NoRepos,
    /// No repository was selected. Nothing was changed.
    NoSelection,
    /// The branch name was refused. Nothing was changed.
    BranchRefused,
    /// The worktree of repository `failed` could not be made; the
    /// worktrees made before it were rolled back.
    WorktreeFailed { failed: usize },
    /// The worktrees exist but the session record could not be written.
    RecordNotWritten,
}

/// What was decided about a candidate branch name.
#[derive(Debug, Clone, Copy, PartialEq, Eq, Structural)]
pub enum BranchOutcome {
    /// The name is used.
    Accepted,
    /// The name is not used and another one is asked for.
    Rejected,
    /// The name is not used and the run gives up.
    Refused,
}

/// What the caller has to do next.
#[derive(Debug, Clone, Copy, PartialEq, Eq, Structural)]
pub enum Task {
    /// Find the repositories under the parent directory.
    Discover,
    /// Settle which repositories take part.
    Select,
    /// Settle the branch name.
    ResolveBranch,
    /// Perform a step of provisioning or of its rollback.
    Worktree(Step),
    /// Write the session record.
    Persist,
    /// Arbitrate the locks of the exclusive repositories.
    ArbitrateLocks,
    /// Run the setup scripts.
    RunScripts,
    /// Nothing is left to do.
    Finish(Ending),
}

/// What the caller reports.
#[derive(Debug, Clone, Copy, PartialEq, Eq, Structural)]
pub enum Report {
    /// This many repositories were found.
    Discovered { repos: usize },
    /// This many repositories were selected.
    Selected { repos: usize },
    /// The candidate branch name was judged.
    Branch { outcome: BranchOutcome },
    /// What came of the pending provisioning step.
    Worktree(Event),
    /// The session record was written, or could not be.
    Persisted { ok: bool },
    /// The locks were arbitrated, or could not be.
    Arbitrated { ok: bool },
    /// The setup scripts ran through, or one failed.
    ScriptsRun { ok: bool },
}

/// The state of the flow as plain values.
pub ghost struct Flow {
    pub stage: Stage,
    /// Whether setup scripts are to be run at all.
    pub run_setup: bool,
    /// The provisioning run.
    pub inner: Run,
    /// How the flow ended, once it has.
    pub ending: Option<Ending>,
    /// Whether the session record was written.
    pub recorded: bool,
}

/// The state before anything was done.
pub open spec fn flow_start(fetch_first: bool, probe: bool, run_setup: bool) -> Flow {
    Flow {
        stage: Stage::Discovering,
        run_setup,
        inner: initial(0, fetch_first, probe),
        ending: None,
        recorded: false,
    }
}

/// The state in which the flow has ended in `ending`.
pub open spec fn ended(s: Flow, ending: Ending) -> Flow {
    Flow { stage: Stage::Finalized, ending: Some(ending), ..s }
}

/// The stage that goes with the phase of the provisioning run.
pub open spec fn provisioning_stage(s: Flow, inner: Run) -> Flow {
    match inner.phase {
        Phase::Provisioned => Flow { stage: Stage::Persisting, inner, ..s },
        Phase::RolledBack => ended(
            Flow { inner, ..s },
            Ending::WorktreeFailed { failed: inner.current as usize },
        ),
        Phase::RollingBack => Flow { stage: Stage::RollingBack, inner, ..s },
        _ => Flow { stage: Stage::Provisioning, inner, ..s },
    }
}

/// The state after `r` was reported. A report that does not answer the
/// pending task changes nothing.
pub open spec fn flow_next(s: Flow, r: Report) -> Flow {
    match (s.stage, r) {
        (Stage::Discovering, Report::Discovered { repos }) => if repos == 0 {
            ended(s, Ending::NoRepos)
        } else {
            Flow { stage: Stage::Selecting, ..s }
        },
        (Stage::Selecting, Report::Selected { repos }) => if repos == 0 {
            ended(s, Ending::NoSelection)
        } else {
            Flow {
                stage: Stage::BranchResolving,
                inner: initial(repos as nat, s.inner.fetch_first, s.inner.probe),
                ..s
            }
        },
        (Stage::BranchResolving, Report::Branch { outcome }) => match outcome {
            BranchOutcome::Accepted => Flow { stage: Stage::Provisioning, ..s },
            BranchOutcome::Rejected => s,
            BranchOutcome::Refused => ended(s, Ending::BranchRefused),
        },
        (Stage::Provisioning, Report::Worktree(e)) => provisioning_stage(s, next(s.inner, e)),
        (Stage::RollingBack, Report::Worktree(e)) => provisioning_stage(s, next(s.inner, e)),
        (Stage::Persisting, Report::Persisted { ok }) => if ok {
            Flow { stage: Stage::LockArbitration, recorded: true, ..s }
        } else {
            ended(s, Ending::RecordNotWritten)
        },
        (Stage::LockArbitration, Report::Arbitrated { ok }) => if !ok {
            ended(s, Ending::DegradedByLocks)
        } else if s.run_setup {
            Flow { stage: Stage::ScriptExecution, ..s }
        } else {
            ended(s, Ending::Created)
        },
        (Stage::ScriptExecution, Report::ScriptsRun { ok }) => if ok {
            ended(s, Ending::Created)
        } else {
            ended(s, Ending::DegradedByScripts)
        },
        _ => s,
    }
}

/// The task that the caller has to perform in state `s`.
pub open spec fn pending_task(s: Flow) -> Task {
    match s.stage {
        Stage::Discovering => Task::Discover,
        Stage::Selecting => Task::Select,
        Stage::BranchResolving => Task::ResolveBranch,
        Stage::Provisioning => Task::Worktree(pending_step(s.inner)),
        Stage::RollingBack => Task::Worktree(pending_step(s.inner)),
        Stage::Persisting => Task::Persist,
        Stage::LockArbitration => Task::ArbitrateLocks,
        Stage::ScriptExecution => Task::RunScripts,
        Stage::Finalized => Task::Finish(
            match s.ending {
                Some(e) => e,
                None => Ending::Created,
            },
        ),
    }
}

/// The state after a series of reports, the first one first.
pub open spec fn flow_after(s: Flow, reports: Seq<Report>) -> Flow
    decreases reports.len(),
{
    if reports.len() == 0 {
        s
    } else {
        flow_next(flow_after(s, reports.drop_last()), reports.last())
    }
}

/// Whether no worktree was made or removed yet.
pub open spec fn untouched(inner: Run) -> bool {
    inner.standing == 0 && inner.current == 0 && inner.stranded.len() == 0 && inner.removals.len()
        == 0
}

/// What holds in every state that the flow can reach.
pub open spec fn flow_consistent(s: Flow) -> bool {
    &&& consistent(s.inner)
    &&& s.ending is Some <==> s.stage is Finalized
    &&& match s.stage {
        Stage::Discovering | Stage::Selecting => untouched(s.inner) && !s.recorded,
        Stage::BranchResolving => untouched(s.inner) && s.inner.n > 0 && !s.recorded && !(
        s.inner.phase is Provisioned) && !(s.inner.phase is RolledBack) && !(s.inner.phase
            is RollingBack),
        Stage::Provisioning => !s.recorded && (s.inner.phase is Fetching || s.inner.phase
            is Probing || s.inner.phase is Adding),
        Stage::RollingBack => !s.recorded && s.inner.phase is RollingBack,
        Stage::Persisting => !s.recorded && s.inner.phase is Provisioned && s.inner.n > 0,
        Stage::LockArbitration | Stage::ScriptExecution => s.recorded && s.inner.phase
            is Provisioned && s.inner.n > 0,
        Stage::Finalized => match s.ending {
            Some(Ending::Created) | Some(Ending::DegradedByLocks) | Some(
                Ending::DegradedByScripts,
            ) => s.recorded && s.inner.phase is Provisioned && s.inner.n > 0,
            Some(Ending::NoRepos) | Some(Ending::NoSelection) | Some(Ending::BranchRefused) =>
                untouched(s.inner) && !s.recorded,
            Some(Ending::WorktreeFailed { failed }) => !s.recorded && s.inner.phase is RolledBack
                && failed == s.inner.current,
            Some(Ending::RecordNotWritten) => !s.recorded && s.inner.phase is Provisioned
                && s.inner.n > 0,
            None => false,
        },
    }
}

/// A consistent state stays consistent under every report.
pub proof fn lemma_flow_next_consistent(s: Flow, r: Report)
    requires
        flow_consistent(s),
    ensures
        flow_consistent(flow_next(s, r)),
{
    match (s.stage, r) {
        (Stage::Provisioning, Report::Worktree(e)) => {
            lemma_next_consistent(s.inner, e);
        },
        (Stage::RollingBack, Report::Worktree(e)) => {
            lemma_next_consistent(s.inner, e);
        },
        _ => {},
    }
}

/// Every state of a flow is consistent.
pub proof fn lemma_flow_consistent(
    fetch_first: bool,
    probe: bool,
    run_setup: bool,
    reports: Seq<Report>,
)
    ensures
        flow_consistent(flow_after(flow_start(fetch_first, probe, run_setup), reports)),
    decreases reports.len(),
{
    if reports.len() > 0 {
        lemma_flow_consistent(fetch_first, probe, run_setup, reports.drop_last());
        lemma_flow_next_consistent(
            flow_after(flow_start(fetch_first, probe, run_setup), reports.drop_last()),
            reports.last(),
        );
    }
}

/// The record comes first. However the creation of a session goes, locks
/// are arbitrated and setup scripts are run only after the session record
/// was written, and the record is written only when every worktree exists.
pub proof fn lemma_record_before_services(
    fetch_first: bool,
    probe: bool,
    run_setup: bool,
    reports: Seq<Report>,
)
    ensures
        ({
            let s = flow_after(flow_start(fetch_first, probe, run_setup), reports);
            let task = pending_task(s);
            &&& task == Task::ArbitrateLocks || task == Task::RunScripts ==> s.recorded
            &&& task == Task::Persist || s.recorded ==> live(s.inner) == Set::new(
                |i: nat| i < s.inner.n,
            )
            &&& task == Task::RunScripts ==> s.run_setup
        }),
{
    let s = flow_after(flow_start(fetch_first, probe, run_setup), reports);
    lemma_flow_consistent(fetch_first, probe, run_setup, reports);
    lemma_setup_only_if_asked(flow_start(fetch_first, probe, run_setup), reports);
    if s.inner.phase is Provisioned {
        assert(s.inner.stranded.len() == 0) by {
            if s.inner.stranded.len() > 0 {
                assert(s.inner.removals.contains(s.inner.stranded[0]));
            }
        }
        assert forall|i: nat| live(s.inner).contains(i) <==> i < s.inner.n by {
            assert(!s.inner.stranded.contains(i));
        }
        assert(live(s.inner) =~= Set::new(|i: nat| i < s.inner.n));
    }
}

proof fn lemma_setup_only_if_asked(start: Flow, reports: Seq<Report>)
    requires
        !(start.stage is ScriptExecution),
    ensures
        flow_after(start, reports).run_setup == start.run_setup,
        flow_after(start, reports).stage is ScriptExecution ==> start.run_setup,
    decreases reports.len(),
{
    if reports.len() > 0 {
        lemma_setup_only_if_asked(start, reports.drop_last());
    }
}

/// Nothing is undone once the record is written, and nothing is changed
/// before provisioning. A flow that ends with a session has all its
/// worktrees; a flow that ends before provisioning has made none; a flow
/// that ends on a failed worktree has been rolled back.
pub proof fn lemma_endings(fetch_first: bool, probe: bool, run_setup: bool, reports: Seq<Report>)
    ensures
        ({
            let s = flow_after(flow_start(fetch_first, probe, run_setup), reports);
            match s.ending {
                Some(Ending::Created) | Some(Ending::DegradedByLocks) | Some(
                    Ending::DegradedByScripts,
                ) => s.recorded && s.inner.phase is Provisioned,
                Some(Ending::RecordNotWritten) => !s.recorded && s.inner.phase is Provisioned,
                Some(Ending::WorktreeFailed { failed }) => !s.recorded && s.inner.phase
                    is RolledBack && live(s.inner) == s.inner.stranded.to_set(),
                Some(_) => !s.recorded && live(s.inner) == Set::<nat>::empty(),
                None => !(s.stage is Finalized),
            }
        }),
{
    let s = flow_after(flow_start(fetch_first, probe, run_setup), reports);
    lemma_flow_consistent(fetch_first, probe, run_setup, reports);
    match s.ending {
        Some(Ending::WorktreeFailed { failed }) => {
            assert(live(s.inner) =~= s.inner.stranded.to_set());
        },
        Some(Ending::NoRepos) | Some(Ending::NoSelection) | Some(Ending::BranchRefused) => {
            assert(live(s.inner) =~= Set::<nat>::empty());
        },
        _ => {},
    }
}

/// The course of creating one session.
pub struct SessionFlow {
    stage: Stage,
    run_setup: bool,
    fetch_first: bool,
    probe: bool,
    provisioner: Provisioner,
    ending: Option<Ending>,
    recorded: bool,
}

impl View for SessionFlow {
    type V = Flow;

    closed spec fn view(&self) -> Flow {
        Flow {
            stage: self.stage,
            run_setup: self.run_setup,
            inner: self.provisioner@,
            ending: self.ending,
            recorded: self.recorded,
        }
    }
}

impl SessionFlow {
    #[verifier::type_invariant]
    spec fn well_formed(&self) -> bool {
        &&& flow_consistent(self@)
        &&& self.provisioner@.fetch_first == self.fetch_first
        &&& self.provisioner@.probe == self.probe
    }

    /// A flow at its beginning. With `fetch_first` each repository's base
    /// ref is fetched before its worktree is made; with `probe` the branch
    /// is looked for in each repository and checked out where it exists;
    /// with `run_setup` setup scripts run at the end.
    pub fn new(fetch_first: bool, probe: bool, run_setup: bool) -> (flow: Self)
        ensures
            flow@ == flow_start(fetch_first, probe, run_setup),
    {
        SessionFlow {
            stage: Stage::Discovering,
            run_setup,
            fetch_first,
            probe,
            provisioner: Provisioner::new(0, fetch_first, probe),
            ending: None,
            recorded: false,
        }
    }

    /// Where the flow stands.
    pub fn stage(&self) -> (stage: Stage)
        ensures
            stage == self@.stage,
    {
        self.stage
    }

    /// Whether the session record was written.
    pub fn is_recorded(&self) -> (recorded: bool)
        ensures
            recorded == self@.recorded,
    {
        self.recorded
    }

    /// The worktrees left behind by a rollback: those whose removal failed.
    pub fn stranded(&self) -> (left: Vec<usize>)
        ensures
            left@.len() == self@.inner.stranded.len(),
            forall|i: int|
                0 <= i < left@.len() ==> #[trigger] left@[i] as nat == self@.inner.stranded[i],
    {
        self.provisioner.stranded()
    }

    /// The task to perform next.
    pub fn pending(&self) -> (task: Task)
        ensures
            task == pending_task(self@),
    {
        proof {
            use_type_invariant(self);
        }
        match self.stage {
            Stage::Discovering => Task::Discover,
            Stage::Selecting => Task::Select,
            Stage::BranchResolving => Task::ResolveBranch,
            Stage::Provisioning => Task::Worktree(self.provisioner.pending()),
            Stage::RollingBack => Task::Worktree(self.provisioner.pending()),
            Stage::Persisting => Task::Persist,
            Stage::LockArbitration => Task::ArbitrateLocks,
            Stage::ScriptExecution => Task::RunScripts,
            Stage::Finalized => Task::Finish(
                match self.ending {
                    Some(e) => e,
                    None => Ending::Created,
                },
            ),
        }
    }

    /// Takes the report on the pending task and moves on.
    pub fn advance(&mut self, report: Report)
        ensures
            final(self)@ == flow_next(old(self)@, report),
    {
        proof {
            use_type_invariant(&*self);
            lemma_flow_next_consistent(self@, report);
        }
        let ghost before = self@;
        let fetch_first = self.fetch_first;
        let probe = self.probe;
        let mut taken = SessionFlow::new(fetch_first, probe, self.run_setup);
        core::mem::swap(self, &mut taken);
        let SessionFlow { stage, run_setup, fetch_first: _, probe: _, provisioner, ending, recorded } =
            taken;
        let mut provisioner = provisioner;
        let mut stage = stage;
        let mut ending = ending;
        let mut recorded = recorded;
        match (stage, report) {
            (Stage::Discovering, Report::Discovered { repos }) => {
                if repos == 0 {
                    stage = Stage::Finalized;
                    ending = Some(Ending::NoRepos);
                } else {
                    stage = Stage::Selecting;
                }
            },
            (Stage::Selecting, Report::Selected { repos }) => {
                if repos == 0 {
                    stage = Stage::Finalized;
                    ending = Some(Ending::NoSelection);
                } else {
                    stage = Stage::BranchResolving;
                    provisioner = Provisioner::new(repos, fetch_first, probe);
                }
            },
            (Stage::BranchResolving, Report::Branch { outcome }) => {
                match outcome {
                    BranchOutcome::Accepted => {
                        stage = Stage::Provisioning;
                    },
                    BranchOutcome::Rejected => {},
                    BranchOutcome::Refused => {
                        stage = Stage::Finalized;
                        ending = Some(Ending::BranchRefused);
                    },
                }
            },
            (Stage::Provisioning, Report::Worktree(e)) | (Stage::RollingBack, Report::Worktree(e)) => {
                provisioner.advance(e);
                match provisioner.pending() {
                    Step::Persist => {
                        stage = Stage::Persisting;
                    },
                    Step::Abort { failed } => {
                        stage = Stage::Finalized;
                        ending = Some(Ending::WorktreeFailed { failed });
                    },
                    Step::Remove { repo } => {
                        stage = Stage::RollingBack;
                    },
                    _ => {
                        stage = Stage::Provisioning;
                    },
                }
            },
            (Stage::Persisting, Report::Persisted { ok }) => {
                if ok {
                    stage = Stage::LockArbitration;
                    recorded = true;
                } else {
                    stage = Stage::Finalized;
                    ending = Some(Ending::RecordNotWritten);
                }
            },
            (Stage::LockArbitration, Report::Arbitrated { ok }) => {
                if !ok {
                    stage = Stage::Finalized;
                    ending = Some(Ending::DegradedByLocks);
                } else if run_setup {
                    stage = Stage::ScriptExecution;
                } else {
                    stage = Stage::Finalized;
                    ending = Some(Ending::Created);
                }
            },
            (Stage::ScriptExecution, Report::ScriptsRun { ok }) => {
                stage = Stage::Finalized;
                if ok {
                    ending = Some(Ending::Created);
                } else {
                    ending = Some(Ending::DegradedByScripts);
                }
            },
            _ => {},
        }
        *self =
        SessionFlow { stage, run_setup, fetch_first, probe, provisioner, ending, recorded };
    }
}

} // verus!
