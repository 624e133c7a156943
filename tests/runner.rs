use collector::lifecycle::{
    cas_state, load_state, store_state, Backoff, LifecycleState, BACKOFF_BASE_MS, BACKOFF_MAX_MS,
};
use std::sync::atomic::AtomicU8;
use collector::runner::{comm_status_entry, runner_step, RunnerAction, RunnerEvent};
use collector::point::Val;

#[test]
fn reconnect_with_backoff() {
    let mut b = Backoff::new(BACKOFF_BASE_MS, BACKOFF_MAX_MS);
    let mut published: Vec<u8> = Vec::new();
    let mut delays: Vec<u64> = Vec::new();
    let mut event = RunnerEvent::Begin;
    let mut connects = 0;
    loop {
        let step = runner_step(&mut b, false, event);
        if let Some(c) = step.comm_status {
            published.push(c);
        }
        event = match step.action {
            RunnerAction::Connect => {
                connects += 1;
                if connects <= 2 { RunnerEvent::ConnectFailed } else { RunnerEvent::ConnectOk }
            }
            RunnerAction::Sleep(ms) => {
                delays.push(ms);
                RunnerEvent::Begin
            }
            RunnerAction::Serve => break,
            other => panic!("unexpected {:?}", other),
        };
    }
    assert_eq!(delays, vec![500, 1000]);
    assert_eq!(published.iter().filter(|c| **c == 0).count() >= 2, true);
    assert_eq!(*published.last().unwrap(), 1);
    assert_eq!(b.current_ms, 500);
}

#[test]
fn backoff_doubles_up_to_cap_and_resets() {
    let mut b = Backoff::new(500, 10_000);
    let seq: Vec<u64> = (0..7).map(|_| b.next_delay()).collect();
    assert_eq!(seq, vec![500, 1000, 2000, 4000, 8000, 10_000, 10_000]);
    b.reset();
    assert_eq!(b.next_delay(), 500);
}

#[test]
fn stop_exits_from_every_event() {
    for ev in [
        RunnerEvent::Begin,
        RunnerEvent::ConnectOk,
        RunnerEvent::ConnectFailed,
        RunnerEvent::LinkFailed,
        RunnerEvent::PlanFailed,
        RunnerEvent::StopChanged,
        RunnerEvent::ChannelClosed,
    ] {
        let mut b = Backoff::new(500, 10_000);
        let step = runner_step(&mut b, true, ev);
        assert_eq!(step.action, RunnerAction::Exit);
        assert_eq!(step.then_state.or(step.first_state), Some(LifecycleState::Stopped));
        assert_eq!(step.comm_status, Some(0));
    }
}

#[test]
fn connected_publishes_one_and_serves() {
    let mut b = Backoff { current_ms: 4000, base_ms: 500, max_ms: 10_000 };
    let step = runner_step(&mut b, false, RunnerEvent::ConnectOk);
    assert_eq!(step.first_state, Some(LifecycleState::Connected));
    assert_eq!(step.then_state, Some(LifecycleState::Running));
    assert_eq!(step.comm_status, Some(1));
    assert_eq!(step.action, RunnerAction::Serve);
    assert_eq!(b.current_ms, 500);
}

#[test]
fn link_failure_sleeps_and_keeps_state() {
    let mut b = Backoff::new(500, 10_000);
    let step = runner_step(&mut b, false, RunnerEvent::LinkFailed);
    assert_eq!(step.action, RunnerAction::Sleep(500));
    assert_eq!(step.comm_status, Some(0));
    assert_eq!(b.current_ms, 1000);
}

#[test]
fn comm_status_point() {
    let e = comm_status_entry(1);
    assert_eq!(e.key, "COMM_STATUS");
    assert_eq!(e.value, Val::U8(1));
}

#[test]
fn lifecycle_bytes() {
    assert_eq!(LifecycleState::from(6u8), LifecycleState::Running);
    assert_eq!(LifecycleState::from(42u8), LifecycleState::Failed);
    assert_eq!(LifecycleState::Stopped.to_byte(), 8);
    assert!(LifecycleState::Stopped.can_transition(LifecycleState::Starting));
    assert!(LifecycleState::Running.can_transition(LifecycleState::Stopping));
    assert!(!LifecycleState::New.can_transition(LifecycleState::Running));
}

#[test]
fn atomic_state_cas_and_store() {
    let s = AtomicU8::new(0);
    assert_eq!(load_state(&s), LifecycleState::New);
    assert!(cas_state(&s, LifecycleState::New, LifecycleState::Initializing));
    assert!(!cas_state(&s, LifecycleState::New, LifecycleState::Initializing));
    assert_eq!(store_state(&s, LifecycleState::Ready), LifecycleState::Initializing);
    assert_eq!(load_state(&s), LifecycleState::Ready);
}

#[test]
fn planning_failure_marks_failed_and_sleeps() {
    let mut b = Backoff::new(500, 10_000);
    let step = runner_step(&mut b, false, RunnerEvent::PlanFailed);
    assert_eq!(step.first_state, Some(LifecycleState::Failed));
    assert_eq!(step.then_state, None);
    assert_eq!(step.comm_status, Some(0));
    assert_eq!(step.action, RunnerAction::Sleep(500));
    assert_eq!(b.current_ms, 1000);
}
