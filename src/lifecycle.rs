//! Device lifecycle states, stored as one atomic byte, and the reconnect
//! backoff.

use vstd::prelude::*;
use std::sync::atomic::{AtomicU8, Ordering};

verus! {

/// Lifecycle of a device, in the order of its byte encoding.
#[derive(Debug, Clone, Copy, PartialEq, Eq, Structural)]
pub enum LifecycleState {
    New,
    Initializing,
    Ready,
    Starting,
    Connecting,
    Connected,
    Running,
    Stopping,
    Stopped,
    Failed,
}

impl LifecycleState {
    /// Byte that encodes the state.
    pub open spec fn byte(self) -> u8 {
        match self {
            LifecycleState::New => 0,
            LifecycleState::Initializing => 1,
            LifecycleState::Ready => 2,
            LifecycleState::Starting => 3,
            LifecycleState::Connecting => 4,
            LifecycleState::Connected => 5,
            LifecycleState::Running => 6,
            LifecycleState::Stopping => 7,
            LifecycleState::Stopped => 8,
            LifecycleState::Failed => 9,
        }
    }

    /// State that a byte encodes; a byte that encodes none reads as failed.
    pub open spec fn from_byte(v: u8) -> LifecycleState {
        if v == 0 {
            LifecycleState::New
        } else if v == 1 {
            LifecycleState::Initializing
        } else if v == 2 {
            LifecycleState::Ready
        } else if v == 3 {
            LifecycleState::Starting
        } else if v == 4 {
            LifecycleState::Connecting
        } else if v == 5 {
            LifecycleState::Connected
        } else if v == 6 {
            LifecycleState::Running
        } else if v == 7 {
            LifecycleState::Stopping
        } else if v == 8 {
            LifecycleState::Stopped
        } else {
            LifecycleState::Failed
        }
    }

    pub fn to_byte(&self) -> (r: u8)
        ensures
            r == self.byte(),
    {
        match self {
            LifecycleState::New => 0,
            LifecycleState::Initializing => 1,
            LifecycleState::Ready => 2,
            LifecycleState::Starting => 3,
            LifecycleState::Connecting => 4,
            LifecycleState::Connected => 5,
            LifecycleState::Running => 6,
            LifecycleState::Stopping => 7,
            LifecycleState::Stopped => 8,
            LifecycleState::Failed => 9,
        }
    }

    pub fn from_u8(v: u8) -> (r: LifecycleState)
        ensures
            r == LifecycleState::from_byte(v),
    {
        match v {
            0 => LifecycleState::New,
            1 => LifecycleState::Initializing,
            2 => LifecycleState::Ready,
            3 => LifecycleState::Starting,
            4 => LifecycleState::Connecting,
            5 => LifecycleState::Connected,
            6 => LifecycleState::Running,
            7 => LifecycleState::Stopping,
            8 => LifecycleState::Stopped,
            _ => LifecycleState::Failed,
        }
    }

    /// The edges of the lifecycle graph; any state may be forced to stopping.
    pub open spec fn permits(self, to: LifecycleState) -> bool {
        match (self, to) {
            (_, LifecycleState::Stopping) => true,
            (LifecycleState::New, LifecycleState::Initializing) => true,
            (LifecycleState::Initializing, LifecycleState::Ready) => true,
            (LifecycleState::Ready, LifecycleState::Starting) => true,
            (LifecycleState::Starting, LifecycleState::Connecting) => true,
            (LifecycleState::Connecting, LifecycleState::Connected) => true,
            (LifecycleState::Connected, LifecycleState::Running) => true,
            (LifecycleState::Running, LifecycleState::Failed) => true,
            (LifecycleState::Stopping, LifecycleState::Stopped) => true,
            (LifecycleState::Stopped, LifecycleState::Starting) => true,
            (LifecycleState::Failed, LifecycleState::Connecting) => true,
            _ => false,
        }
    }

    pub fn can_transition(&self, to: LifecycleState) -> (r: bool)
        ensures
            r == self.permits(to),
    {
        match (self, to) {
            (_, LifecycleState::Stopping) => true,
            (LifecycleState::New, LifecycleState::Initializing) => true,
            (LifecycleState::Initializing, LifecycleState::Ready) => true,
            (LifecycleState::Ready, LifecycleState::Starting) => true,
            (LifecycleState::Starting, LifecycleState::Connecting) => true,
            (LifecycleState::Connecting, LifecycleState::Connected) => true,
            (LifecycleState::Connected, LifecycleState::Running) => true,
            (LifecycleState::Running, LifecycleState::Failed) => true,
            (LifecycleState::Stopping, LifecycleState::Stopped) => true,
            (LifecycleState::Stopped, LifecycleState::Starting) => true,
            (LifecycleState::Failed, LifecycleState::Connecting) => true,
            _ => false,
        }
    }
}

impl From<u8> for LifecycleState {
    fn from(v: u8) -> (r: LifecycleState) {
        LifecycleState::from_u8(v)
    }
}

impl vstd::std_specs::convert::FromSpecImpl<u8> for LifecycleState {
    open spec fn obeys_from_spec() -> bool {
        true
    }

    open spec fn from_spec(v: u8) -> LifecycleState {
        LifecycleState::from_byte(v)
    }
}

/// Reads the shared state byte. Other tasks may change it at any time, so
/// only its decoding is known.
pub fn load_state(state: &AtomicU8) -> (r: LifecycleState)
    ensures
        exists|v: u8| r == LifecycleState::from_byte(v),
{
    let v = state.load(Ordering::Acquire);
    LifecycleState::from_u8(v)
}

/// Moves the shared state from `from` to `to` when it still holds `from`;
/// false when another task changed it first.
pub fn cas_state(state: &AtomicU8, from: LifecycleState, to: LifecycleState) -> (r: bool) {
    state.compare_exchange(from.to_byte(), to.to_byte(), Ordering::AcqRel, Ordering::Acquire).is_ok()
}

/// Stores `to` unconditionally and returns the state it replaced, so that
/// the caller can record the transition.
pub fn store_state(state: &AtomicU8, to: LifecycleState) -> (r: LifecycleState)
    ensures
        exists|v: u8| r == LifecycleState::from_byte(v),
{
    let from = load_state(state);
    state.store(to.to_byte(), Ordering::Release);
    from
}

/// Exponential reconnect delay in milliseconds: each delay doubles the next,
/// up to `max_ms`; a successful connect starts again from `base_ms`.
#[derive(Debug, Clone, Copy, PartialEq, Eq, Structural)]
pub struct Backoff {
    pub current_ms: u64,
    pub base_ms: u64,
    pub max_ms: u64,
}

/// Default first delay.
pub const BACKOFF_BASE_MS: u64 = 500;

/// Default largest delay.
pub const BACKOFF_MAX_MS: u64 = 10_000;

pub open spec fn doubled_capped(current: u64, max: u64) -> u64 {
    if current as int * 2 > max as int {
        max
    } else {
        (current * 2) as u64
    }
}

impl Backoff {
    pub fn new(base_ms: u64, max_ms: u64) -> (r: Backoff)
        ensures
            r == (Backoff { current_ms: base_ms, base_ms, max_ms }),
    {
        Backoff { current_ms: base_ms, base_ms, max_ms }
    }

    pub fn reset(&mut self)
        ensures
            *final(self) == (Backoff { current_ms: old(self).base_ms, ..*old(self) }),
    {
        self.current_ms = self.base_ms;
    }

    /// Returns the current delay and doubles the next one, capped at the
    /// maximum.
    pub fn next_delay(&mut self) -> (r: u64)
        ensures
            r == old(self).current_ms,
            *final(self) == (Backoff {
                current_ms: doubled_capped(old(self).current_ms, old(self).max_ms),
                ..*old(self)
            }),
    {
        let delay = self.current_ms;
        self.current_ms = if self.current_ms > self.max_ms / 2 {
            self.max_ms
        } else {
            self.current_ms * 2
        };
        delay
    }
}

} // verus!
