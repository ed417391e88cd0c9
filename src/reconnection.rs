//! Reconnection: the retry policies, and the decisions taken when the
//! transport is lost, as a state machine from state and event to next state
//! and action. Whoever runs the connection performs the actions (sleeping,
//! dialling, calling the user's handler) and reports back the events.
use vstd::prelude::*;
use crate::registry::{callbacks_only, EntryKind};

verus! {

/// Decides how long to wait before the next reconnection attempt.
pub trait ReconnectionPolicy {
    /// The delay in milliseconds before retry number `retry_count` (counted
    /// from 0), or `None` to give up.
    spec fn delay_for(&self, retry_count: u32) -> Option<u64>;

    /// Returns the delay in milliseconds before retry number `retry_count`,
    /// or `None` when no more attempts should be made.
    fn next_retry_delay(&self, retry_count: u32, elapsed_milliseconds: u64) -> (r: Option<u64>)
        ensures
            r == self.delay_for(retry_count),
    ;
}

/// Never retries.
pub struct NoReconnectPolicy;

impl ReconnectionPolicy for NoReconnectPolicy {
    open spec fn delay_for(&self, retry_count: u32) -> Option<u64> {
        None
    }

    fn next_retry_delay(&self, retry_count: u32, elapsed_milliseconds: u64) -> (r: Option<u64>) {
        None
    }
}

/// Whether `retry_count` has used up the allowed attempts.
pub open spec fn exhausted(max_attempts: Option<u32>, retry_count: u32) -> bool {
    match max_attempts {
        Some(m) => retry_count >= m,
        None => false,
    }
}

/// Retries after a constant delay, at most `max_attempts` times if set.
pub struct ConstantDelayPolicy {
    delay: u64,
    max_attempts: Option<u32>,
}

impl ConstantDelayPolicy {
    /// A policy that waits `delay` milliseconds before each attempt.
    pub fn new(delay: u64, max_attempts: Option<u32>) -> (r: Self)
        ensures
            r.delay() == delay,
            r.max_attempts() == max_attempts,
    {
        ConstantDelayPolicy { delay, max_attempts }
    }

    pub closed spec fn delay(&self) -> u64 {
        self.delay
    }

    pub closed spec fn max_attempts(&self) -> Option<u32> {
        self.max_attempts
    }
}

impl ReconnectionPolicy for ConstantDelayPolicy {
    /// The constant delay until the attempts are used up, then `None`.
    open spec fn delay_for(&self, retry_count: u32) -> Option<u64> {
        if exhausted(self.max_attempts(), retry_count) {
            None
        } else {
            Some(self.delay())
        }
    }

    fn next_retry_delay(&self, retry_count: u32, elapsed_milliseconds: u64) -> (r: Option<u64>) {
        if let Some(max) = self.max_attempts {
            if retry_count >= max {
                return None;
            }
        }
        Some(self.delay)
    }
}

/// Retries after `initial + step * retry_count`, capped at `max_delay` if set,
/// at most `max_attempts` times if set.
pub struct LinearBackoffPolicy {
    initial_delay: u64,
    increment: u64,
    max_delay: Option<u64>,
    max_attempts: Option<u32>,
}

/// The linear delay: `initial + step * n`, no more than the cap (or than the
/// largest `u64` where no cap is set).
pub open spec fn linear_delay(initial: u64, step: u64, max_delay: Option<u64>, n: u32) -> u64 {
    let d = initial + step * n;
    let cap = match max_delay {
        Some(m) => m as int,
        None => u64::MAX as int,
    };
    if d > cap {
        cap as u64
    } else {
        d as u64
    }
}

impl LinearBackoffPolicy {
    /// A policy whose delay grows by `increment` milliseconds per attempt.
    pub fn new(
        initial_delay: u64,
        increment: u64,
        max_delay: Option<u64>,
        max_attempts: Option<u32>,
    ) -> (r: Self)
        ensures
            r.initial_delay() == initial_delay,
            r.increment() == increment,
            r.max_delay() == max_delay,
            r.max_attempts() == max_attempts,
    {
        LinearBackoffPolicy { initial_delay, increment, max_delay, max_attempts }
    }

    pub closed spec fn initial_delay(&self) -> u64 {
        self.initial_delay
    }

    pub closed spec fn increment(&self) -> u64 {
        self.increment
    }

    pub closed spec fn max_delay(&self) -> Option<u64> {
        self.max_delay
    }

    pub closed spec fn max_attempts(&self) -> Option<u32> {
        self.max_attempts
    }
}

impl ReconnectionPolicy for LinearBackoffPolicy {
    /// `initial + increment * retry_count`, capped, until the attempts are
    /// used up, then `None`.
    open spec fn delay_for(&self, retry_count: u32) -> Option<u64> {
        if exhausted(self.max_attempts(), retry_count) {
            None
        } else {
            Some(linear_delay(self.initial_delay(), self.increment(), self.max_delay(), retry_count))
        }
    }

    fn next_retry_delay(&self, retry_count: u32, elapsed_milliseconds: u64) -> (r: Option<u64>) {
        if let Some(max) = self.max_attempts {
            if retry_count >= max {
                return None;
            }
        }
        assert((self.increment as int) * (retry_count as int) <= (u64::MAX as int) * (u32::MAX as int))
            by (nonlinear_arith);
        let d: u128 = (self.initial_delay as u128) + (self.increment as u128) * (retry_count as u128);
        let cap: u128 = match self.max_delay {
            Some(m) => m as u128,
            None => u64::MAX as u128,
        };
        if d > cap {
            Some(cap as u64)
        } else {
            Some(d as u64)
        }
    }
}

/// Among the delays it gives, the linear policy never shortens from one
/// retry to the next.
pub proof fn lemma_linear_delay_monotone(p: LinearBackoffPolicy, a: u32, b: u32)
    requires
        a <= b,
        p.delay_for(b) is Some,
    ensures
        p.delay_for(a) is Some,
        p.delay_for(a)->0 <= p.delay_for(b)->0,
{
    assert((p.increment() as int) * (a as int) <= (p.increment() as int) * (b as int))
        by (nonlinear_arith)
        requires
            a <= b,
    ;
}

/// Why the connection is down.
#[derive(Debug, Clone, Copy, PartialEq, Eq, Structural)]
pub enum DisconnectionReason {
    RemoteClosed,
    LocalClosed,
    NeverOpened,
    Reconnecting,
}

/// The state of the connection.
#[derive(Debug, Clone, Copy, PartialEq, Eq, Structural)]
pub enum LinkState {
    NotConnected(DisconnectionReason),
    Connected,
}

/// Who decides on reconnection when the transport is lost.
#[derive(Debug, Clone, Copy, PartialEq, Eq, Structural)]
pub enum ReconnectMode {
    /// The library retries under the policy.
    Automatic,
    /// The user's disconnection handler decides.
    Manual,
    /// After a reconnection made by the user: nobody reconnects.
    Detached,
}

/// What the connection reports to the reconnection rules.
#[derive(Debug, Clone, Copy, PartialEq, Eq, Structural)]
pub enum ReconnectEvent {
    /// The receive loop ended: the transport is gone.
    ConnectionDropped,
    /// The policy's answer for the current retry.
    PolicyAnswered(Option<u64>),
    /// A reconnection attempt (handshake included) succeeded.
    AttemptSucceeded,
    /// A reconnection attempt failed.
    AttemptFailed,
    /// The application called `disconnect`.
    LocalDisconnect,
}

/// What the connection must do next.
#[derive(Debug, Clone, Copy, PartialEq, Eq, Structural)]
pub enum ReconnectAction {
    /// Nothing.
    Nothing,
    /// Hand a reconnection handle to the user's disconnection handler.
    HandToUser,
    /// Ask the policy for the delay before this retry.
    AskPolicy(u32),
    /// Sleep this many milliseconds, then attempt to reconnect.
    SleepThenAttempt(u64),
    /// Install the new connection, start its receive loop, and cancel the
    /// pending invocations; callbacks stay registered.
    Promote,
    /// Drop the connection just made: the client was disconnected meanwhile.
    Discard,
    /// Stop retrying: the policy gave up.
    GiveUp,
    /// Tear down: cancel every pending invocation.
    Shutdown,
}

/// The state of the reconnection rules.
#[derive(Debug, Clone, Copy, PartialEq, Eq, Structural)]
pub struct Reconnector {
    pub state: LinkState,
    pub mode: ReconnectMode,
    pub retry_count: u32,
}

/// The next state and the action, for state `s` and event `e`.
pub open spec fn reconnect_step(s: Reconnector, e: ReconnectEvent) -> (Reconnector, ReconnectAction) {
    let closed = s.state == LinkState::NotConnected(DisconnectionReason::LocalClosed);
    let retrying = s.state == LinkState::NotConnected(DisconnectionReason::Reconnecting);
    match e {
        ReconnectEvent::LocalDisconnect => (
            Reconnector { state: LinkState::NotConnected(DisconnectionReason::LocalClosed), ..s },
            ReconnectAction::Shutdown,
        ),
        ReconnectEvent::ConnectionDropped => if closed || s.state != LinkState::Connected {
            (s, ReconnectAction::Nothing)
        } else if s.mode == ReconnectMode::Manual {
            (
                Reconnector { state: LinkState::NotConnected(DisconnectionReason::RemoteClosed), ..s },
                ReconnectAction::HandToUser,
            )
        } else if s.mode == ReconnectMode::Detached {
            (
                Reconnector { state: LinkState::NotConnected(DisconnectionReason::RemoteClosed), ..s },
                ReconnectAction::Nothing,
            )
        } else {
            (
                Reconnector {
                    state: LinkState::NotConnected(DisconnectionReason::Reconnecting),
                    retry_count: 0,
                    ..s
                },
                ReconnectAction::AskPolicy(0),
            )
        },
        ReconnectEvent::PolicyAnswered(d) => if !retrying || s.mode != ReconnectMode::Automatic {
            (s, ReconnectAction::Nothing)
        } else {
            match d {
                Some(ms) => (s, ReconnectAction::SleepThenAttempt(ms)),
                None => (
                    Reconnector {
                        state: LinkState::NotConnected(DisconnectionReason::RemoteClosed),
                        ..s
                    },
                    ReconnectAction::GiveUp,
                ),
            }
        },
        ReconnectEvent::AttemptSucceeded => if closed {
            (s, ReconnectAction::Discard)
        } else if !retrying || s.mode != ReconnectMode::Automatic {
            (s, ReconnectAction::Discard)
        } else {
            (Reconnector { state: LinkState::Connected, ..s }, ReconnectAction::Promote)
        },
        ReconnectEvent::AttemptFailed => if !retrying || s.mode != ReconnectMode::Automatic {
            (s, ReconnectAction::Nothing)
        } else if s.retry_count == u32::MAX {
            (
                Reconnector { state: LinkState::NotConnected(DisconnectionReason::RemoteClosed), ..s },
                ReconnectAction::GiveUp,
            )
        } else {
            (
                Reconnector { retry_count: (s.retry_count + 1) as u32, ..s },
                ReconnectAction::AskPolicy((s.retry_count + 1) as u32),
            )
        },
    }
}

impl Reconnector {
    /// The rules for a connection that has just been opened: automatic mode
    /// when there is no user handler, manual mode when there is one.
    pub fn new(has_user_handler: bool) -> (r: Self)
        ensures
            r.state == LinkState::Connected,
            r.mode == (if has_user_handler {
                ReconnectMode::Manual
            } else {
                ReconnectMode::Automatic
            }),
            r.retry_count == 0,
    {
        Reconnector {
            state: LinkState::Connected,
            mode: if has_user_handler {
                ReconnectMode::Manual
            } else {
                ReconnectMode::Automatic
            },
            retry_count: 0,
        }
    }

    /// Takes event `e` and returns the action to perform.
    pub fn step(&mut self, e: ReconnectEvent) -> (r: ReconnectAction)
        ensures
            (*final(self), r) == reconnect_step(*old(self), e),
    {
        let closed = self.state == LinkState::NotConnected(DisconnectionReason::LocalClosed);
        let retrying = self.state == LinkState::NotConnected(DisconnectionReason::Reconnecting);
        match e {
            ReconnectEvent::LocalDisconnect => {
                self.state = LinkState::NotConnected(DisconnectionReason::LocalClosed);
                ReconnectAction::Shutdown
            },
            ReconnectEvent::ConnectionDropped => {
                if closed || self.state != LinkState::Connected {
                    ReconnectAction::Nothing
                } else if self.mode == ReconnectMode::Manual {
                    self.state = LinkState::NotConnected(DisconnectionReason::RemoteClosed);
                    ReconnectAction::HandToUser
                } else if self.mode == ReconnectMode::Detached {
                    self.state = LinkState::NotConnected(DisconnectionReason::RemoteClosed);
                    ReconnectAction::Nothing
                } else {
                    self.state = LinkState::NotConnected(DisconnectionReason::Reconnecting);
                    self.retry_count = 0;
                    ReconnectAction::AskPolicy(0)
                }
            },
            ReconnectEvent::PolicyAnswered(d) => {
                if !retrying || self.mode != ReconnectMode::Automatic {
                    ReconnectAction::Nothing
                } else {
                    match d {
                        Some(ms) => ReconnectAction::SleepThenAttempt(ms),
                        None => {
                            self.state = LinkState::NotConnected(DisconnectionReason::RemoteClosed);
                            ReconnectAction::GiveUp
                        },
                    }
                }
            },
            ReconnectEvent::AttemptSucceeded => {
                if closed {
                    ReconnectAction::Discard
                } else if !retrying || self.mode != ReconnectMode::Automatic {
                    ReconnectAction::Discard
                } else {
                    self.state = LinkState::Connected;
                    ReconnectAction::Promote
                }
            },
            ReconnectEvent::AttemptFailed => {
                if !retrying || self.mode != ReconnectMode::Automatic {
                    ReconnectAction::Nothing
                } else if self.retry_count == u32::MAX {
                    self.state = LinkState::NotConnected(DisconnectionReason::RemoteClosed);
                    ReconnectAction::GiveUp
                } else {
                    self.retry_count = self.retry_count + 1;
                    ReconnectAction::AskPolicy(self.retry_count)
                }
            },
        }
    }

    /// Whether the connection is up.
    pub fn is_connected(&self) -> (r: bool)
        ensures
            r == (self.state == LinkState::Connected),
    {
        self.state == LinkState::Connected
    }

    /// Starts a reconnection attempt asked for by the user: none is needed
    /// when connected, none is allowed after a local disconnect; otherwise
    /// the state becomes reconnecting and the attempt must be made.
    pub fn begin_manual_reconnect(&mut self) -> (r: ManualStart)
        ensures
            old(self).state == LinkState::Connected ==> r == ManualStart::AlreadyConnected
                && *final(self) == *old(self),
            old(self).state == LinkState::NotConnected(DisconnectionReason::LocalClosed) ==> r
                == ManualStart::LocallyClosed && *final(self) == *old(self),
            old(self).state != LinkState::Connected && old(self).state != LinkState::NotConnected(
                DisconnectionReason::LocalClosed,
            ) ==> r == ManualStart::Attempt && *final(self) == (Reconnector {
                state: LinkState::NotConnected(DisconnectionReason::Reconnecting),
                ..*old(self)
            }),
    {
        if self.state == LinkState::Connected {
            return ManualStart::AlreadyConnected;
        }
        if self.state == LinkState::NotConnected(DisconnectionReason::LocalClosed) {
            return ManualStart::LocallyClosed;
        }
        self.state = LinkState::NotConnected(DisconnectionReason::Reconnecting);
        ManualStart::Attempt
    }

    /// The outcome of a reconnection attempt asked for by the user. After a
    /// local disconnect the new connection is refused; a success connects
    /// and leaves nobody to reconnect on the next loss; a failure leaves the
    /// connection closed by the remote side.
    pub fn finish_manual_reconnect(&mut self, succeeded: bool) -> (r: AttemptOutcome)
        ensures
            old(self).state == LinkState::NotConnected(DisconnectionReason::LocalClosed) ==> r
                == AttemptOutcome::LocallyClosed && *final(self) == *old(self),
            old(self).state != LinkState::NotConnected(DisconnectionReason::LocalClosed) && succeeded
                ==> r == AttemptOutcome::Succeeded && *final(self) == (Reconnector {
                state: LinkState::Connected,
                mode: ReconnectMode::Detached,
                ..*old(self)
            }),
            old(self).state != LinkState::NotConnected(DisconnectionReason::LocalClosed) && !succeeded
                ==> r == AttemptOutcome::Failed && *final(self) == (Reconnector {
                state: LinkState::NotConnected(DisconnectionReason::RemoteClosed),
                ..*old(self)
            }),
    {
        if self.state == LinkState::NotConnected(DisconnectionReason::LocalClosed) {
            return AttemptOutcome::LocallyClosed;
        }
        if succeeded {
            self.state = LinkState::Connected;
            self.mode = ReconnectMode::Detached;
            AttemptOutcome::Succeeded
        } else {
            self.state = LinkState::NotConnected(DisconnectionReason::RemoteClosed);
            AttemptOutcome::Failed
        }
    }
}

/// How a user-asked reconnection starts.
#[derive(Debug, Clone, Copy, PartialEq, Eq, Structural)]
pub enum ManualStart {
    /// The connection is up: nothing to do.
    AlreadyConnected,
    /// Dial now, then report with `finish_manual_reconnect`.
    Attempt,
    /// The client was disconnected locally: reconnection is refused.
    LocallyClosed,
}

/// How a reconnection attempt ended.
#[derive(Debug, Clone, Copy, PartialEq, Eq, Structural)]
pub enum AttemptOutcome {
    Succeeded,
    Failed,
    LocallyClosed,
}

/// What a user-driven retry loop does next.
#[derive(Debug, Clone, Copy, PartialEq, Eq, Structural)]
pub enum RetryStep {
    /// Attempt now (the first retry does not wait).
    AttemptNow,
    /// Sleep this many milliseconds, then attempt.
    SleepThenAttempt(u64),
    /// The policy gave up.
    Exhausted,
    /// The last attempt reconnected.
    Finished,
    /// The client was disconnected locally: stop at once.
    Aborted,
}

/// One decision of a user-driven retry loop. `last` is how the previous
/// attempt ended (`None` before the first), `failures` how many attempts
/// failed so far, and `delay` the policy's answer for retry `failures`,
/// asked only while the loop goes on.
pub fn policy_retry_step(failures: u32, last: Option<AttemptOutcome>, delay: Option<u64>) -> (r:
    RetryStep)
    ensures
        last == Some(AttemptOutcome::Succeeded) ==> r == RetryStep::Finished,
        last == Some(AttemptOutcome::LocallyClosed) ==> r == RetryStep::Aborted,
        (last is None || last == Some(AttemptOutcome::Failed)) ==> r == (match delay {
            None => RetryStep::Exhausted,
            Some(d) => if failures == 0 {
                RetryStep::AttemptNow
            } else {
                RetryStep::SleepThenAttempt(d)
            },
        }),
{
    match last {
        Some(AttemptOutcome::Succeeded) => RetryStep::Finished,
        Some(AttemptOutcome::LocallyClosed) => RetryStep::Aborted,
        _ => match delay {
            None => RetryStep::Exhausted,
            Some(d) => if failures == 0 {
                RetryStep::AttemptNow
            } else {
                RetryStep::SleepThenAttempt(d)
            },
        },
    }
}

/// In automatic mode a successful reconnection promotes the new connection;
/// the registry then keeps every callback, unchanged, and holds no pending
/// invocation any more.
pub proof fn lemma_reconnect_keeps_callbacks<H>(s: Reconnector, m: Map<Seq<char>, (EntryKind, H)>)
    requires
        s.state == LinkState::NotConnected(DisconnectionReason::Reconnecting),
        s.mode == ReconnectMode::Automatic,
    ensures
        reconnect_step(s, ReconnectEvent::AttemptSucceeded) == (
            Reconnector { state: LinkState::Connected, ..s },
            ReconnectAction::Promote,
        ),
        forall|k: Seq<char>|
            m.contains_key(k) && m[k].0 == EntryKind::Callback ==> #[trigger] callbacks_only(
                m,
            ).contains_key(k) && callbacks_only(m)[k] == m[k],
        forall|k: Seq<char>| #[trigger]
            callbacks_only(m).contains_key(k) ==> callbacks_only(m)[k].0 == EntryKind::Callback,
{
}

} // verus!
