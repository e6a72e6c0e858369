//! The orchestration of one namespace-switch test: a linear run through the
//! phases baseline, switched, reverted, done. In every phase the current
//! namespace is observed; between phases the calling thread switches to the
//! target namespace and then back to its original one. A failed switch is a
//! recorded diagnostic result, never a reason to skip the switch back.

use vstd::prelude::*;

verus! {

/// The result of one switch attempt: success, or failure carrying the
/// OS-reported reason. A switch is never partial: on failure the calling
/// thread is still in its prior namespace.
#[derive(Debug, PartialEq, Eq)]
pub enum SwitchOutcome {
    Success,
    Failure(String),
}

impl SwitchOutcome {
    /// Whether the attempt succeeded.
    pub fn is_success(&self) -> (b: bool)
        ensures
            b == (self is Success),
    {
        match self {
            SwitchOutcome::Success => true,
            SwitchOutcome::Failure(_) => false,
        }
    }
}

/// The phase a test run is in. Runs move linearly from baseline to done.
#[derive(Clone, Copy, Debug, PartialEq, Eq, Structural)]
pub enum Phase {
    Baseline,
    Switched,
    Reverted,
    Done,
}

/// What the driver of a run has to do next, after observing the namespace
/// the calling thread currently occupies.
#[derive(Clone, Copy, Debug, PartialEq, Eq, Structural)]
pub enum Action {
    SwitchToTarget,
    SwitchBack,
    Finish,
}

/// The action owed in each phase: from the baseline the switch to the
/// target, after it the switch back to the original namespace, then nothing.
pub open spec fn action_for(p: Phase) -> Action {
    match p {
        Phase::Baseline => Action::SwitchToTarget,
        Phase::Switched => Action::SwitchBack,
        Phase::Reverted => Action::Finish,
        Phase::Done => Action::Finish,
    }
}

/// How recording the outcome of the switch to the target changes a run:
/// whatever the outcome, the run is then in the switched phase with that
/// outcome on record, the revert record untouched.
pub open spec fn step_switch(pre: NsTestRun, o: SwitchOutcome, post: NsTestRun) -> bool {
    &&& post.phase == Phase::Switched
    &&& post.switch_outcome == Some(o)
    &&& post.revert_outcome == pre.revert_outcome
}

/// How recording the outcome of the switch back changes a run: whatever the
/// outcome, the run is then in the reverted phase with that outcome on
/// record, the switch record untouched.
pub open spec fn step_revert(pre: NsTestRun, o: SwitchOutcome, post: NsTestRun) -> bool {
    &&& post.phase == Phase::Reverted
    &&& post.revert_outcome == Some(o)
    &&& post.switch_outcome == pre.switch_outcome
}

/// One namespace-switch test run. It records which phase the run is in and
/// the outcome of each switch attempt; the driver observes the current
/// namespace in every phase and performs the action the phase owes.
pub struct NsTestRun {
    pub phase: Phase,
    pub switch_outcome: Option<SwitchOutcome>,
    pub revert_outcome: Option<SwitchOutcome>,
}

impl NsTestRun {
    /// A fresh run: in the baseline phase, nothing recorded.
    pub fn new() -> (r: NsTestRun)
        ensures
            r.phase == Phase::Baseline,
            r.switch_outcome is None,
            r.revert_outcome is None,
    {
        NsTestRun { phase: Phase::Baseline, switch_outcome: None, revert_outcome: None }
    }

    /// The action the run's phase owes next.
    pub fn next_action(&self) -> (a: Action)
        ensures
            a == action_for(self.phase),
    {
        match self.phase {
            Phase::Baseline => Action::SwitchToTarget,
            Phase::Switched => Action::SwitchBack,
            Phase::Reverted => Action::Finish,
            Phase::Done => Action::Finish,
        }
    }

    /// Records the outcome of the switch to the target namespace. The run
    /// moves to the switched phase whether or not the switch succeeded.
    pub fn record_switch(&mut self, outcome: SwitchOutcome)
        requires
            old(self).phase == Phase::Baseline,
        ensures
            step_switch(*old(self), outcome, *final(self)),
    {
        self.phase = Phase::Switched;
        self.switch_outcome = Some(outcome);
    }

    /// Records the outcome of the switch back to the original namespace. The
    /// run moves to the reverted phase whether or not the switch succeeded.
    pub fn record_revert(&mut self, outcome: SwitchOutcome)
        requires
            old(self).phase == Phase::Switched,
        ensures
            step_revert(*old(self), outcome, *final(self)),
    {
        self.phase = Phase::Reverted;
        self.revert_outcome = Some(outcome);
    }

    /// Closes the run after the reverted namespace was observed.
    pub fn finish(&mut self)
        requires
            old(self).phase == Phase::Reverted,
        ensures
            final(self).phase == Phase::Done,
            final(self).switch_outcome == old(self).switch_outcome,
            final(self).revert_outcome == old(self).revert_outcome,
    {
        self.phase = Phase::Done;
    }
}

/// A failed switch never blocks the revert: whatever outcome the switch to
/// the target records, failure included, the run is then in the switched
/// phase, and the action that phase owes is the switch back to the original
/// namespace, after which the revert outcome and the original namespace's
/// state are observed and recorded as in any run.
pub proof fn lemma_failed_switch_still_reverts(pre: NsTestRun, o: SwitchOutcome, post: NsTestRun)
    requires
        pre.phase == Phase::Baseline,
        !(o is Success),
        step_switch(pre, o, post),
    ensures
        post.phase == Phase::Switched,
        action_for(post.phase) == Action::SwitchBack,
{
}

/// The namespace a thread occupies after one switch attempt: the target on
/// success, unchanged on failure — a switch is never partially applied.
pub open spec fn ns_after_attempt(current: int, target: int, ok: bool) -> int {
    if ok {
        target
    } else {
        current
    }
}

/// The symmetry of a run's three observations, over abstract namespace
/// identities and any fixed assignment of an observation (such as a
/// directory listing) to each namespace: after a successful revert the
/// reverted observation equals the baseline one, since both are made from
/// the original namespace; and the switched observation can differ from the
/// baseline one only when the target namespace differs from the original.
pub proof fn lemma_observation_symmetry(
    orig: int,
    target: int,
    switch_ok: bool,
    revert_ok: bool,
    listings: Map<int, Seq<Seq<char>>>,
)
    ensures
        ({
            let switched = ns_after_attempt(orig, target, switch_ok);
            let reverted = ns_after_attempt(switched, orig, revert_ok);
            &&& revert_ok ==> reverted == orig && listings[reverted] == listings[orig]
            &&& target == orig ==> switched == orig && listings[switched] == listings[orig]
            &&& listings[switched] != listings[orig] ==> target != orig
        }),
{
}

} // verus!
