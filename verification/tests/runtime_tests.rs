//! The runtime-wait phase: partitioning reaped children, classifying
//! signals and advancing the wait state.

use shimmy::process::{classify_kill, classify_wait, WaitEvent};
use shimmy::runtime::{
    await_on_reaped, await_on_term_signal, classify_signal, partition_reaped, AwaitState,
    AwaitStep, ReapError, RuntimeOutcome, SignalClass, SIGINT, SIGTERM,
};
use shimmy::status::{KillResult, TerminationStatus};

const RUNTIME_PID: i32 = 100;

fn exited(pid: i32, code: i32) -> TerminationStatus {
    TerminationStatus::Exited(pid, code)
}

#[test]
fn partition_splits_runtime_and_container() {
    let reaped = vec![exited(RUNTIME_PID, 0), exited(4242, 7)];
    let (rt, ct) = partition_reaped(RUNTIME_PID, &reaped).unwrap();
    assert_eq!(rt, Some(exited(RUNTIME_PID, 0)));
    assert_eq!(ct, Some(exited(4242, 7)));
}

#[test]
fn partition_rejects_two_container_statuses() {
    let reaped = vec![exited(4242, 0), exited(4243, 1)];
    assert_eq!(
        partition_reaped(RUNTIME_PID, &reaped),
        Err(ReapError::AmbiguousContainerStatus)
    );
}

#[test]
fn partition_rejects_two_runtime_statuses() {
    let reaped = vec![exited(RUNTIME_PID, 0), exited(RUNTIME_PID, 1)];
    assert_eq!(partition_reaped(RUNTIME_PID, &reaped), Err(ReapError::AmbiguousRuntimeStatus));
}

#[test]
fn partition_of_empty_batch() {
    let reaped: Vec<TerminationStatus> = Vec::new();
    assert_eq!(partition_reaped(RUNTIME_PID, &reaped), Ok((None, None)));
}

#[test]
fn signal_classification() {
    assert_eq!(classify_signal(17), SignalClass::Child);
    assert_eq!(classify_signal(2), SignalClass::Termination);
    assert_eq!(classify_signal(3), SignalClass::Termination);
    assert_eq!(classify_signal(15), SignalClass::Termination);
    assert_eq!(classify_signal(1), SignalClass::Unexpected);
    assert_eq!(classify_signal(9), SignalClass::Unexpected);
}

#[test]
fn runtime_clean_exit_serves() {
    let state = AwaitState::initial();
    let step = await_on_reaped(state, Some(exited(RUNTIME_PID, 0)), None).unwrap();
    match step {
        AwaitStep::Done(outcome) => {
            assert!(outcome.should_serve());
            assert_eq!(outcome.inflight(), None);
        }
        AwaitStep::Continue(_) => panic!("runtime status must end the wait"),
    }
}

#[test]
fn runtime_failure_does_not_serve() {
    let state = AwaitState::initial();
    let step = await_on_reaped(state, Some(exited(RUNTIME_PID, 1)), None).unwrap();
    match step {
        AwaitStep::Done(outcome) => {
            assert!(!outcome.should_serve());
            assert_eq!(outcome.describe(), b"Runtime Exited with code 1.".to_vec());
        }
        AwaitStep::Continue(_) => panic!("runtime status must end the wait"),
    }
}

#[test]
fn container_reaped_before_runtime_makes_conjoint() {
    let state = AwaitState::initial();
    let step = await_on_reaped(state, None, Some(exited(4242, 9))).unwrap();
    let state = match step {
        AwaitStep::Continue(s) => s,
        AwaitStep::Done(_) => panic!("no runtime status yet"),
    };
    assert_eq!(state.container, Some(exited(4242, 9)));
    let step = await_on_reaped(state, Some(exited(RUNTIME_PID, 0)), None).unwrap();
    match step {
        AwaitStep::Done(RuntimeOutcome::Conjoint(rt, ct, inflight)) => {
            assert_eq!(rt, exited(RUNTIME_PID, 0));
            assert_eq!(ct, exited(4242, 9));
            assert_eq!(inflight, None);
        }
        _ => panic!("a carried container status makes the outcome conjoint"),
    }
}

#[test]
fn conjoint_outcome_never_serves() {
    let outcome = RuntimeOutcome::new(exited(RUNTIME_PID, 0), Some(exited(4242, 0)), None);
    assert!(!outcome.should_serve());
}

#[test]
fn duplicate_container_status_is_ambiguous() {
    let state = AwaitState {
        container: Some(exited(4242, 0)),
        inflight: None,
    };
    assert!(matches!(
        await_on_reaped(state, None, Some(exited(4243, 0))),
        Err(ReapError::AmbiguousContainerStatus)
    ));
}

#[test]
fn inflight_signal_is_kept_not_dropped() {
    let state = AwaitState::initial();
    let state = await_on_term_signal(state, SIGINT, KillResult::ProcessNotFound);
    assert_eq!(state.inflight, Some(SIGINT));
    let step = await_on_reaped(state, Some(exited(RUNTIME_PID, 0)), None).unwrap();
    match step {
        AwaitStep::Done(outcome) => {
            assert!(outcome.should_serve());
            assert_eq!(outcome.inflight(), Some(SIGINT));
        }
        AwaitStep::Continue(_) => panic!("runtime status must end the wait"),
    }
}

#[test]
fn delivered_signal_leaves_no_inflight() {
    let state = AwaitState::initial();
    let state = await_on_term_signal(state, SIGTERM, KillResult::Delivered);
    assert_eq!(state.inflight, None);
}

#[test]
fn outcome_descriptions() {
    let solitary = RuntimeOutcome::new(exited(RUNTIME_PID, 1), None, Some(2));
    assert_eq!(
        solitary.describe(),
        b"Runtime Exited with code 1. Beware: inflight SIGINT detected.".to_vec()
    );
    let conjoint = RuntimeOutcome::new(
        exited(RUNTIME_PID, 1),
        Some(TerminationStatus::Signaled(4242, 9)),
        None,
    );
    assert_eq!(
        conjoint.describe(),
        b"Runtime Exited with code 1. Container Received signal SIGKILL.".to_vec()
    );
}

#[test]
fn wait_classification() {
    assert_eq!(classify_wait(WaitEvent::Exited(5, 2)), Ok(Some(exited(5, 2))));
    assert_eq!(
        classify_wait(WaitEvent::Signaled(5, 9)),
        Ok(Some(TerminationStatus::Signaled(5, 9)))
    );
    assert_eq!(classify_wait(WaitEvent::Other), Ok(None));
    assert_eq!(classify_wait(WaitEvent::NoChildren), Ok(None));
    assert_eq!(classify_wait(WaitEvent::Failed(5)), Err(5));
}

#[test]
fn kill_classification() {
    assert_eq!(classify_kill(Ok(())), Ok(KillResult::Delivered));
    assert_eq!(classify_kill(Err(3)), Ok(KillResult::ProcessNotFound));
    assert_eq!(classify_kill(Err(1)), Err(1));
}
