use defra_sync::convergence::{ConvergenceVerifier, Phase, Step, Verdict};
use defra_sync::error::SyncError;

#[test]
fn scenario_never_converges_within_budget() {
    let mut v = ConvergenceVerifier::new(500, 2000);
    let mut step = v.start();
    let mut elapsed: u64 = 0;
    let mut polls = 0;
    loop {
        match step {
            Step::Poll => {
                polls += 1;
                step = v.on_poll(false, elapsed);
            }
            Step::Sleep(ms) => {
                elapsed += ms;
                step = v.on_wake();
            }
            Step::Finish(verdict) => {
                assert_eq!(verdict, Verdict::NotConverged);
                break;
            }
            other => panic!("unexpected step {:?}", other),
        }
    }
    assert_eq!(polls, 4);
    assert_eq!(v.polls, 4);
}

#[test]
fn scenario_cancelled_after_one_poll() {
    let mut v = ConvergenceVerifier::new(500, 2000);
    assert_eq!(v.start(), Step::Poll);
    assert_eq!(v.on_poll(false, 0), Step::Sleep(500));
    assert_eq!(v.cancel(), Step::Finish(Verdict::Cancelled));
    assert_eq!(v.on_wake(), Step::Finish(Verdict::Cancelled));
    assert_eq!(v.on_poll(true, 500), Step::Finish(Verdict::Cancelled));
    assert_eq!(v.polls, 1);
}

#[test]
fn converges_on_a_satisfied_poll() {
    let mut v = ConvergenceVerifier::new(100, 1000);
    assert_eq!(v.on_poll(false, 0), Step::Sleep(100));
    assert_eq!(v.on_poll(true, 100), Step::Finish(Verdict::Converged));
    assert_eq!(v.phase, Phase::Done(Verdict::Converged));
    assert_eq!(v.cancel(), Step::Finish(Verdict::Converged));
}

#[test]
fn zero_budget_polls_once() {
    let mut v = ConvergenceVerifier::new(500, 0);
    assert_eq!(v.start(), Step::Poll);
    assert_eq!(v.on_poll(false, 0), Step::Finish(Verdict::NotConverged));
}

#[test]
fn transport_failure_during_polling_is_the_result() {
    let mut v = ConvergenceVerifier::new(500, 2000);
    let e = SyncError::Unreachable("refused".to_string());
    assert_eq!(v.on_poll_failed(e.clone()), Step::Fail(e));
    assert_eq!(v.on_wake(), Step::Stopped);
    assert_eq!(v.cancel(), Step::Stopped);
}
