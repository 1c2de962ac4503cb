use nvmf_subsys::engine::{run_state_change, StateChangeOutcome};
use nvmf_subsys::error::EBUSY;

#[test]
fn clean_start_completes_on_first_attempt() {
    let rcs = vec![0, 0, 0, 0];
    let r = run_state_change(&rcs, 0);
    assert!(matches!(r.outcome, StateChangeOutcome::Completed));
    assert_eq!(r.invocations, 1);
    assert_eq!(r.sleeps, 0);
}

#[test]
fn busy_three_times_then_clean_completes() {
    let rcs = vec![EBUSY, EBUSY, EBUSY, 0];
    let r = run_state_change(&rcs, 0);
    assert!(matches!(r.outcome, StateChangeOutcome::Completed));
    assert_eq!(r.invocations, 4);
    assert_eq!(r.sleeps, 3);
}

#[test]
fn busy_four_times_fails_busy() {
    let rcs = vec![EBUSY, EBUSY, EBUSY, EBUSY];
    let r = run_state_change(&rcs, 0);
    assert!(matches!(r.outcome, StateChangeOutcome::Busy));
    assert_eq!(r.invocations, 4);
    assert_eq!(r.sleeps, 3);
}

#[test]
fn other_errno_fails_without_waiting() {
    let rcs = vec![5, 0, 0, 0];
    let r = run_state_change(&rcs, 0);
    assert!(matches!(r.outcome, StateChangeOutcome::InitiationFailed(5)));
    assert_eq!(r.invocations, 1);
}

#[test]
fn busy_then_errno_fails_after_retry() {
    let rcs = vec![EBUSY, 22, 0, 0];
    let r = run_state_change(&rcs, 0);
    assert!(matches!(r.outcome, StateChangeOutcome::InitiationFailed(22)));
    assert_eq!(r.invocations, 2);
    assert_eq!(r.sleeps, 1);
}

#[test]
fn nonzero_callback_status_fails_the_operation() {
    let rcs = vec![0, 0, 0, 0];
    let r = run_state_change(&rcs, 7);
    assert!(matches!(r.outcome, StateChangeOutcome::OpFailed(7)));
}
