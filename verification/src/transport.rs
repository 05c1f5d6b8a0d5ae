//! The agent's transport: the connection state machine and the retry
//! decisions around one batch.
//!
//! The streaming connection itself (open, write a frame, await the reply)
//! is network I/O and lives outside the library. The library owns the
//! decisions: which state each connection event leads to, when to sleep and
//! for how long, and when a batch is surrendered.

use vstd::prelude::*;

use crate::config::CollectorSettings;
use crate::retry::{backoff_base, RetryPolicy};

verus! {

/// The connection's lifecycle states.
#[derive(Debug, Clone, Copy, PartialEq, Eq, Structural)]
pub enum ConnState {
    Disconnected,
    Connecting,
    Connected,
    Backoff,
    Exhausted,
}

/// What the runtime reports back to the state machine.
#[derive(Debug, Clone, Copy, PartialEq, Eq, Structural)]
pub enum ConnEvent {
    /// The runtime wants to open the stream.
    Start,
    /// The upgrade finished and the stream is open.
    ConnectSucceeded,
    /// The upgrade failed.
    ConnectFailed,
    /// A send cycle finished with a parsed response.
    SendSucceeded,
    /// A send cycle failed: write error, timeout, close, unexpected frame
    /// or unparsable response.
    SendFailed,
    /// The backoff sleep has elapsed.
    BackoffElapsed,
}

/// What the runtime must do after a transition.
#[derive(Debug, Clone, Copy, PartialEq, Eq, Structural)]
pub enum ConnAction {
    /// Open the stream and send the upgrade with the configured auth.
    OpenStream,
    /// Keep handling send cycles.
    Proceed,
    /// Sleep this many milliseconds, then report `BackoffElapsed`.
    SleepMs(u64),
    /// Give the current batch up; the retry budget is spent.
    GiveUp,
    /// Nothing; the event does not apply to this state.
    Stay,
}

/// The connection state machine, paired with the retry policy that prices
/// its backoff sleeps and bounds its budget.
pub struct ConnectionFsm {
    pub state: ConnState,
    pub policy: RetryPolicy,
}

impl ConnectionFsm {
    pub fn new(policy: RetryPolicy) -> (r: ConnectionFsm)
        ensures
            r.state == ConnState::Disconnected,
            r.policy == policy,
    {
        ConnectionFsm { state: ConnState::Disconnected, policy }
    }

    /// One transition of the connection table: a successful connect resets
    /// the retry budget; any failure prices a backoff sleep through the
    /// policy, and an exhausted budget ends the attempt.
    pub fn step(&mut self, event: ConnEvent) -> (r: ConnAction)
        requires
            old(self).policy.wf(),
        ensures
            final(self).policy.wf(),
            final(self).policy.max_retries_spec() == old(self).policy.max_retries_spec(),
            // Start opens the stream from anywhere idle.
            (old(self).state == ConnState::Disconnected && event == ConnEvent::Start) ==> {
                &&& final(self).state == ConnState::Connecting
                &&& r == ConnAction::OpenStream
            },
            // A successful connect resets the budget and proceeds.
            (old(self).state == ConnState::Connecting && event == ConnEvent::ConnectSucceeded)
                ==> {
                &&& final(self).state == ConnState::Connected
                &&& final(self).policy.current_attempt_spec() == 0
                &&& r == ConnAction::Proceed
            },
            // Failures price a sleep through the policy while budget
            // remains, else exhaust; the slept duration lies within a fifth
            // of the attempt's exponential base.
            ((old(self).state == ConnState::Connecting && event == ConnEvent::ConnectFailed) || (
            old(self).state == ConnState::Connected && event == ConnEvent::SendFailed)) ==> {
                &&& old(self).policy.current_attempt_spec() < old(
                    self,
                ).policy.max_retries_spec() ==> {
                    let base = backoff_base(
                        old(self).policy.initial_delay_ms_spec(),
                        old(self).policy.max_delay_ms_spec(),
                        (old(self).policy.current_attempt_spec() + 1) as nat,
                    );
                    &&& final(self).state == ConnState::Backoff
                    &&& final(self).policy.current_attempt_spec() == old(
                        self,
                    ).policy.current_attempt_spec() + 1
                    &&& (r matches ConnAction::SleepMs(d) && base - base / 5 <= d <= base + base
                        / 5)
                }
                &&& old(self).policy.current_attempt_spec() >= old(
                    self,
                ).policy.max_retries_spec() ==> final(self).state == ConnState::Exhausted && r
                    == ConnAction::GiveUp
            },
            // A delivered batch keeps the stream and restores the budget.
            (old(self).state == ConnState::Connected && event == ConnEvent::SendSucceeded) ==> {
                &&& final(self).state == ConnState::Connected
                &&& final(self).policy.current_attempt_spec() == 0
                &&& r == ConnAction::Proceed
            },
            // After the sleep the machine reconnects.
            (old(self).state == ConnState::Backoff && event == ConnEvent::BackoffElapsed) ==> {
                &&& final(self).state == ConnState::Connecting
                &&& r == ConnAction::OpenStream
            },
            // Everything else leaves the machine alone.
            !transition_applies(old(self).state, event) ==> final(self).state == old(self).state
                && r == ConnAction::Stay,
    {
        match (self.state, event) {
            (ConnState::Disconnected, ConnEvent::Start) => {
                self.state = ConnState::Connecting;
                ConnAction::OpenStream
            },
            (ConnState::Connecting, ConnEvent::ConnectSucceeded) => {
                self.state = ConnState::Connected;
                self.policy.reset();
                ConnAction::Proceed
            },
            (ConnState::Connecting, ConnEvent::ConnectFailed) => self.fail_step(),
            (ConnState::Connected, ConnEvent::SendFailed) => self.fail_step(),
            (ConnState::Connected, ConnEvent::SendSucceeded) => {
                self.policy.reset();
                ConnAction::Proceed
            },
            (ConnState::Backoff, ConnEvent::BackoffElapsed) => {
                self.state = ConnState::Connecting;
                ConnAction::OpenStream
            },
            _ => ConnAction::Stay,
        }
    }

    /// Prices the next retry or exhausts the budget.
    fn fail_step(&mut self) -> (r: ConnAction)
        requires
            old(self).policy.wf(),
        ensures
            final(self).policy.wf(),
            final(self).policy.max_retries_spec() == old(self).policy.max_retries_spec(),
            old(self).policy.current_attempt_spec() < old(self).policy.max_retries_spec() ==> {
                let base = backoff_base(
                    old(self).policy.initial_delay_ms_spec(),
                    old(self).policy.max_delay_ms_spec(),
                    (old(self).policy.current_attempt_spec() + 1) as nat,
                );
                &&& final(self).state == ConnState::Backoff
                &&& final(self).policy.current_attempt_spec() == old(
                    self,
                ).policy.current_attempt_spec() + 1
                &&& (r matches ConnAction::SleepMs(d) && base - base / 5 <= d <= base + base / 5)
            },
            old(self).policy.current_attempt_spec() >= old(self).policy.max_retries_spec() ==> {
                &&& final(self).state == ConnState::Exhausted
                &&& r == ConnAction::GiveUp
            },
    {
        match self.policy.next_delay() {
            Some(d) => {
                self.state = ConnState::Backoff;
                ConnAction::SleepMs(d)
            },
            None => {
                self.state = ConnState::Exhausted;
                ConnAction::GiveUp
            },
        }
    }
}

/// Whether the transition table has a row for this state and event.
pub open spec fn transition_applies(s: ConnState, e: ConnEvent) -> bool {
    ||| (s == ConnState::Disconnected && e == ConnEvent::Start)
    ||| (s == ConnState::Connecting && (e == ConnEvent::ConnectSucceeded || e
        == ConnEvent::ConnectFailed))
    ||| (s == ConnState::Connected && (e == ConnEvent::SendSucceeded || e
        == ConnEvent::SendFailed))
    ||| (s == ConnState::Backoff && e == ConnEvent::BackoffElapsed)
}

/// The transport layer as configured for one agent; the runtime drives its
/// state machine and performs the I/O.
pub struct Transport {
    pub config: CollectorSettings,
}

impl Transport {
    pub fn new(config: CollectorSettings) -> (r: Transport)
        ensures
            r.config == config,
    {
        Transport { config }
    }
}

} // verus!
