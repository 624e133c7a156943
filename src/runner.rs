//! Decisions of a device's polling task: what to store, what to publish as
//! `COMM_STATUS`, and what to do next, for each thing that happens.

use vstd::prelude::*;
use crate::lifecycle::{Backoff, LifecycleState, doubled_capped};
use crate::point::{Entry, Val};

verus! {

/// The synthetic connectivity point: key `COMM_STATUS`, value 1 while the
/// device is connected and 0 otherwise.
pub fn comm_status_entry(connected: u8) -> (r: Entry)
    ensures
        r.key@ == "COMM_STATUS"@,
        r.value == Val::U8(connected),
{
    Entry { key: "COMM_STATUS".to_owned(), value: Val::U8(connected) }
}

/// What the task observed since its last decision.
#[derive(Debug, Clone, Copy, PartialEq, Eq, Structural)]
pub enum RunnerEvent {
    /// The top of the reconnect loop: the task starts, or a backoff sleep
    /// ran out.
    Begin,
    /// The bus adapter connected.
    ConnectOk,
    /// The bus adapter failed to connect.
    ConnectFailed,
    /// A poll read or a downlink write failed on the connection.
    LinkFailed,
    /// The point catalog could not be planned into reads.
    PlanFailed,
    /// The stop signal changed.
    StopChanged,
    /// The downlink channel was closed.
    ChannelClosed,
}

/// What the task does next.
#[derive(Debug, Clone, Copy, PartialEq, Eq, Structural)]
pub enum RunnerAction {
    /// Dial the bus adapter.
    Connect,
    /// Poll on the interval and serve downlink messages until something
    /// happens.
    Serve,
    /// Sleep this many milliseconds, waking early on the stop signal.
    Sleep(u64),
    /// Leave the task.
    Exit,
    /// Keep doing what it was doing.
    Continue,
}

/// One decision: states to store in order, the `COMM_STATUS` value to
/// publish (if any), and the next action.
#[derive(Debug, Clone, Copy, PartialEq, Eq, Structural)]
pub struct RunnerStep {
    pub first_state: Option<LifecycleState>,
    pub then_state: Option<LifecycleState>,
    pub comm_status: Option<u8>,
    pub action: RunnerAction,
}

pub open spec fn stopped_step() -> RunnerStep {
    RunnerStep {
        first_state: Some(LifecycleState::Stopped),
        then_state: None,
        comm_status: Some(0),
        action: RunnerAction::Exit,
    }
}

/// The decision for `event` when the stop signal reads `stop` and the
/// backoff's next delay is `delay`.
pub open spec fn decide(stop: bool, event: RunnerEvent, delay: u64) -> RunnerStep {
    match event {
        RunnerEvent::Begin => if stop {
            stopped_step()
        } else {
            RunnerStep {
                first_state: Some(LifecycleState::Connecting),
                then_state: None,
                comm_status: Some(0),
                action: RunnerAction::Connect,
            }
        },
        RunnerEvent::ConnectOk => if stop {
            RunnerStep {
                first_state: Some(LifecycleState::Connected),
                then_state: Some(LifecycleState::Stopped),
                comm_status: Some(0),
                action: RunnerAction::Exit,
            }
        } else {
            RunnerStep {
                first_state: Some(LifecycleState::Connected),
                then_state: Some(LifecycleState::Running),
                comm_status: Some(1),
                action: RunnerAction::Serve,
            }
        },
        RunnerEvent::ConnectFailed => RunnerStep {
            first_state: Some(LifecycleState::Failed),
            then_state: if stop {
                Some(LifecycleState::Stopped)
            } else {
                None
            },
            comm_status: Some(0),
            action: if stop {
                RunnerAction::Exit
            } else {
                RunnerAction::Sleep(delay)
            },
        },
        RunnerEvent::LinkFailed => if stop {
            stopped_step()
        } else {
            RunnerStep {
                first_state: None,
                then_state: None,
                comm_status: Some(0),
                action: RunnerAction::Sleep(delay),
            }
        },
        RunnerEvent::PlanFailed => RunnerStep {
            first_state: Some(LifecycleState::Failed),
            then_state: if stop {
                Some(LifecycleState::Stopped)
            } else {
                None
            },
            comm_status: Some(0),
            action: if stop {
                RunnerAction::Exit
            } else {
                RunnerAction::Sleep(delay)
            },
        },
        RunnerEvent::StopChanged => if stop {
            stopped_step()
        } else {
            RunnerStep {
                first_state: None,
                then_state: None,
                comm_status: None,
                action: RunnerAction::Continue,
            }
        },
        RunnerEvent::ChannelClosed => stopped_step(),
    }
}

/// Whether the decision for `event` takes a delay from the backoff.
pub open spec fn sleeps(stop: bool, event: RunnerEvent) -> bool {
    !stop && (event == RunnerEvent::ConnectFailed || event == RunnerEvent::LinkFailed || event
        == RunnerEvent::PlanFailed)
}

/// Decides the next step of a polling task. A successful connect resets the
/// backoff; every sleep takes the backoff's next delay.
pub fn runner_step(backoff: &mut Backoff, stop: bool, event: RunnerEvent) -> (r: RunnerStep)
    ensures
        r == decide(stop, event, old(backoff).current_ms),
        *final(backoff) == (if event == RunnerEvent::ConnectOk && !stop {
            Backoff { current_ms: old(backoff).base_ms, ..*old(backoff) }
        } else if sleeps(stop, event) {
            Backoff {
                current_ms: doubled_capped(old(backoff).current_ms, old(backoff).max_ms),
                ..*old(backoff)
            }
        } else {
            *old(backoff)
        }),
{
    let stopped = RunnerStep {
        first_state: Some(LifecycleState::Stopped),
        then_state: None,
        comm_status: Some(0),
        action: RunnerAction::Exit,
    };
    match event {
        RunnerEvent::Begin => {
            if stop {
                stopped
            } else {
                RunnerStep {
                    first_state: Some(LifecycleState::Connecting),
                    then_state: None,
                    comm_status: Some(0),
                    action: RunnerAction::Connect,
                }
            }
        },
        RunnerEvent::ConnectOk => {
            if stop {
                RunnerStep {
                    first_state: Some(LifecycleState::Connected),
                    then_state: Some(LifecycleState::Stopped),
                    comm_status: Some(0),
                    action: RunnerAction::Exit,
                }
            } else {
                backoff.reset();
                RunnerStep {
                    first_state: Some(LifecycleState::Connected),
                    then_state: Some(LifecycleState::Running),
                    comm_status: Some(1),
                    action: RunnerAction::Serve,
                }
            }
        },
        RunnerEvent::ConnectFailed => {
            if stop {
                RunnerStep {
                    first_state: Some(LifecycleState::Failed),
                    then_state: Some(LifecycleState::Stopped),
                    comm_status: Some(0),
                    action: RunnerAction::Exit,
                }
            } else {
                let delay = backoff.next_delay();
                RunnerStep {
                    first_state: Some(LifecycleState::Failed),
                    then_state: None,
                    comm_status: Some(0),
                    action: RunnerAction::Sleep(delay),
                }
            }
        },
        RunnerEvent::LinkFailed => {
            if stop {
                stopped
            } else {
                let delay = backoff.next_delay();
                RunnerStep {
                    first_state: None,
                    then_state: None,
                    comm_status: Some(0),
                    action: RunnerAction::Sleep(delay),
                }
            }
        },
        RunnerEvent::PlanFailed => {
            if stop {
                RunnerStep {
                    first_state: Some(LifecycleState::Failed),
                    then_state: Some(LifecycleState::Stopped),
                    comm_status: Some(0),
                    action: RunnerAction::Exit,
                }
            } else {
                let delay = backoff.next_delay();
                RunnerStep {
                    first_state: Some(LifecycleState::Failed),
                    then_state: None,
                    comm_status: Some(0),
                    action: RunnerAction::Sleep(delay),
                }
            }
        },
        RunnerEvent::StopChanged => {
            if stop {
                stopped
            } else {
                RunnerStep {
                    first_state: None,
                    then_state: None,
                    comm_status: None,
                    action: RunnerAction::Continue,
                }
            }
        },
        RunnerEvent::ChannelClosed => stopped,
    }
}

/// The state a step leaves stored: its last state, if it stores one.
pub open spec fn last_state(s: RunnerStep) -> Option<LifecycleState> {
    if s.then_state is Some {
        s.then_state
    } else {
        s.first_state
    }
}

/// Once the stop signal is set, whatever happens next the task's decision
/// leaves `Stopped` stored, publishes `COMM_STATUS` 0 and exits.
pub proof fn lemma_stop_settles(event: RunnerEvent, delay: u64)
    ensures
        decide(true, event, delay).action == RunnerAction::Exit,
        last_state(decide(true, event, delay)) == Some(LifecycleState::Stopped),
        decide(true, event, delay).comm_status == Some(0u8),
{
}

} // verus!
