use nsdiag::run::{Action, NsTestRun, Phase, SwitchOutcome};

#[test]
fn fresh_run_starts_at_baseline() {
    let run = NsTestRun::new();
    assert_eq!(run.phase, Phase::Baseline);
    assert!(run.switch_outcome.is_none());
    assert!(run.revert_outcome.is_none());
    assert_eq!(run.next_action(), Action::SwitchToTarget);
}

#[test]
fn successful_run_walks_all_phases() {
    let mut run = NsTestRun::new();
    run.record_switch(SwitchOutcome::Success);
    assert_eq!(run.phase, Phase::Switched);
    assert_eq!(run.next_action(), Action::SwitchBack);
    run.record_revert(SwitchOutcome::Success);
    assert_eq!(run.phase, Phase::Reverted);
    assert_eq!(run.next_action(), Action::Finish);
    run.finish();
    assert_eq!(run.phase, Phase::Done);
    assert_eq!(run.switch_outcome, Some(SwitchOutcome::Success));
    assert_eq!(run.revert_outcome, Some(SwitchOutcome::Success));
}

#[test]
fn failed_switch_still_reaches_revert_and_done() {
    let mut run = NsTestRun::new();
    run.record_switch(SwitchOutcome::Failure(String::from("EPERM: Operation not permitted")));
    assert_eq!(run.phase, Phase::Switched);
    assert_eq!(run.next_action(), Action::SwitchBack);
    run.record_revert(SwitchOutcome::Success);
    assert_eq!(run.phase, Phase::Reverted);
    run.finish();
    assert_eq!(run.phase, Phase::Done);
    assert_eq!(
        run.switch_outcome,
        Some(SwitchOutcome::Failure(String::from("EPERM: Operation not permitted")))
    );
    assert_eq!(run.revert_outcome, Some(SwitchOutcome::Success));
}

#[test]
fn outcome_success_test() {
    assert!(SwitchOutcome::Success.is_success());
    assert!(!SwitchOutcome::Failure(String::from("EINVAL")).is_success());
}
