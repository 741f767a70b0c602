//! Connection state tracking: the connection state machine with its legal
//! transition table, and a state manager that records every accepted change
//! as an event for broadcast.

use crate::textutil::{dec_str, u32_to_string};
use vstd::prelude::*;
use vstd::string::StringExecFns;

verus! {

/// Connection state.
#[derive(Debug)]
pub enum ConnectionState {
    /// Not connected to any host
    Disconnected,
    /// Currently attempting to connect
    Connecting,
    /// Successfully connected
    Connected,
    /// Attempting to reconnect after disconnection
    Reconnecting {
        /// Current reconnection attempt number (1-based)
        attempt: u32,
    },
    /// Connection failed
    Failed {
        /// Reason for the failure
        reason: String,
    },
}

/// Deep equality of two connection states: same variant, equal payloads
/// (failure reasons compare by their characters).
pub open spec fn state_eq(a: ConnectionState, b: ConnectionState) -> bool {
    match (a, b) {
        (ConnectionState::Disconnected, ConnectionState::Disconnected) => true,
        (ConnectionState::Connecting, ConnectionState::Connecting) => true,
        (ConnectionState::Connected, ConnectionState::Connected) => true,
        (
            ConnectionState::Reconnecting { attempt: x },
            ConnectionState::Reconnecting { attempt: y },
        ) => x == y,
        (ConnectionState::Failed { reason: x }, ConnectionState::Failed { reason: y }) => x@ == y@,
        _ => false,
    }
}

/// Whether two states are the same variant, payloads aside.
pub open spec fn same_kind(a: ConnectionState, b: ConnectionState) -> bool {
    match (a, b) {
        (ConnectionState::Disconnected, ConnectionState::Disconnected) => true,
        (ConnectionState::Connecting, ConnectionState::Connecting) => true,
        (ConnectionState::Connected, ConnectionState::Connected) => true,
        (ConnectionState::Reconnecting { .. }, ConnectionState::Reconnecting { .. }) => true,
        (ConnectionState::Failed { .. }, ConnectionState::Failed { .. }) => true,
        _ => false,
    }
}

/// The legal-transition table. A same-variant transition is always legal
/// (a no-op or an attempt/reason change); otherwise only the listed edges
/// are legal.
pub open spec fn transition_ok(from: ConnectionState, to: ConnectionState) -> bool {
    ||| same_kind(from, to)
    ||| match (from, to) {
        (ConnectionState::Disconnected, ConnectionState::Connecting) => true,
        (ConnectionState::Disconnected, ConnectionState::Failed { .. }) => true,
        (ConnectionState::Connecting, ConnectionState::Connected) => true,
        (ConnectionState::Connecting, ConnectionState::Failed { .. }) => true,
        (ConnectionState::Connecting, ConnectionState::Disconnected) => true,
        (ConnectionState::Connected, ConnectionState::Disconnected) => true,
        (ConnectionState::Connected, ConnectionState::Failed { .. }) => true,
        (ConnectionState::Connected, ConnectionState::Reconnecting { .. }) => true,
        (ConnectionState::Reconnecting { .. }, ConnectionState::Connected) => true,
        (ConnectionState::Reconnecting { .. }, ConnectionState::Failed { .. }) => true,
        (ConnectionState::Reconnecting { .. }, ConnectionState::Disconnected) => true,
        (ConnectionState::Failed { .. }, ConnectionState::Connecting) => true,
        (ConnectionState::Failed { .. }, ConnectionState::Disconnected) => true,
        _ => false,
    }
}

impl ConnectionState {
    /// Check whether the connection is active.
    pub fn is_connected(&self) -> (r: bool)
        ensures
            r == (self is Connected),
    {
        matches!(self, ConnectionState::Connected)
    }

    /// Check whether a connection attempt is in progress.
    pub fn is_connecting(&self) -> (r: bool)
        ensures
            r == (self is Connecting || self is Reconnecting),
    {
        matches!(self, ConnectionState::Connecting | ConnectionState::Reconnecting { .. })
    }

    /// Check whether the connection has failed.
    pub fn is_failed(&self) -> (r: bool)
        ensures
            r == (self is Failed),
    {
        matches!(self, ConnectionState::Failed { .. })
    }

    /// Check whether disconnected (not connected and not attempting).
    pub fn is_disconnected(&self) -> (r: bool)
        ensures
            r == (self is Disconnected),
    {
        matches!(self, ConnectionState::Disconnected)
    }

    /// The reconnection attempt number, when reconnecting.
    pub fn reconnect_attempt(&self) -> (r: Option<u32>)
        ensures
            match r {
                Some(n) => self matches ConnectionState::Reconnecting { attempt } && n == attempt,
                None => !(self is Reconnecting),
            },
    {
        match self {
            ConnectionState::Reconnecting { attempt } => Some(*attempt),
            _ => None,
        }
    }

    /// The failure reason, when failed.
    pub fn failure_reason(&self) -> (r: Option<&str>)
        ensures
            match r {
                Some(s) => self matches ConnectionState::Failed { reason } && s@ == reason@,
                None => !(self is Failed),
            },
    {
        match self {
            ConnectionState::Failed { reason } => Some(reason.as_str()),
            _ => None,
        }
    }

    /// Check whether the transition to `new_state` is legal.
    pub fn can_transition_to(&self, new_state: &ConnectionState) -> (r: bool)
        ensures
            r == transition_ok(*self, *new_state),
    {
        match (self, new_state) {
            (ConnectionState::Disconnected, ConnectionState::Connecting) => true,
            (ConnectionState::Disconnected, ConnectionState::Failed { .. }) => true,
            (ConnectionState::Connecting, ConnectionState::Connected) => true,
            (ConnectionState::Connecting, ConnectionState::Failed { .. }) => true,
            (ConnectionState::Connecting, ConnectionState::Disconnected) => true,
            (ConnectionState::Connected, ConnectionState::Disconnected) => true,
            (ConnectionState::Connected, ConnectionState::Failed { .. }) => true,
            (ConnectionState::Connected, ConnectionState::Reconnecting { .. }) => true,
            (ConnectionState::Reconnecting { .. }, ConnectionState::Connected) => true,
            (ConnectionState::Reconnecting { .. }, ConnectionState::Failed { .. }) => true,
            (ConnectionState::Reconnecting { .. }, ConnectionState::Reconnecting { .. }) => true,
            (ConnectionState::Reconnecting { .. }, ConnectionState::Disconnected) => true,
            (ConnectionState::Failed { .. }, ConnectionState::Connecting) => true,
            (ConnectionState::Failed { .. }, ConnectionState::Disconnected) => true,
            (ConnectionState::Failed { .. }, ConnectionState::Failed { .. }) => true,
            (ConnectionState::Disconnected, ConnectionState::Disconnected) => true,
            (ConnectionState::Connecting, ConnectionState::Connecting) => true,
            (ConnectionState::Connected, ConnectionState::Connected) => true,
            _ => false,
        }
    }

    /// Deep equality with another state.
    pub fn eq_state(&self, other: &ConnectionState) -> (r: bool)
        ensures
            r == state_eq(*self, *other),
    {
        match (self, other) {
            (ConnectionState::Disconnected, ConnectionState::Disconnected) => true,
            (ConnectionState::Connecting, ConnectionState::Connecting) => true,
            (ConnectionState::Connected, ConnectionState::Connected) => true,
            (
                ConnectionState::Reconnecting { attempt: x },
                ConnectionState::Reconnecting { attempt: y },
            ) => x == y,
            (ConnectionState::Failed { reason: x }, ConnectionState::Failed { reason: y }) => *x
                == *y,
            _ => false,
        }
    }

    /// A human-readable rendering of the state.
    pub fn display_string(&self) -> (r: String)
        ensures
            match self {
                ConnectionState::Disconnected => r@ == "Disconnected"@,
                ConnectionState::Connecting => r@ == "Connecting"@,
                ConnectionState::Connected => r@ == "Connected"@,
                ConnectionState::Reconnecting { attempt } => r@ == "Reconnecting (attempt "@
                    + dec_str(attempt as int) + ")"@,
                ConnectionState::Failed { reason } => r@ == "Failed: "@ + reason@,
            },
    {
        match self {
            ConnectionState::Disconnected => "Disconnected".to_owned(),
            ConnectionState::Connecting => "Connecting".to_owned(),
            ConnectionState::Connected => "Connected".to_owned(),
            ConnectionState::Reconnecting { attempt } => {
                let mut s = "Reconnecting (attempt ".to_owned();
                let num = u32_to_string(*attempt);
                s.append(num.as_str());
                s.append(")");
                s
            },
            ConnectionState::Failed { reason } => {
                let mut s = "Failed: ".to_owned();
                s.append(reason.as_str());
                s
            },
        }
    }
}

impl Clone for ConnectionState {
    /// A deep copy that is state-equal to the original.
    fn clone(&self) -> (r: Self)
        ensures
            state_eq(*self, r),
            same_kind(*self, r),
    {
        match self {
            ConnectionState::Disconnected => ConnectionState::Disconnected,
            ConnectionState::Connecting => ConnectionState::Connecting,
            ConnectionState::Connected => ConnectionState::Connected,
            ConnectionState::Reconnecting { attempt } => ConnectionState::Reconnecting {
                attempt: *attempt,
            },
            ConnectionState::Failed { reason } => ConnectionState::Failed {
                reason: reason.clone(),
            },
        }
    }
}

impl Default for ConnectionState {
    /// The initial state: disconnected.
    fn default() -> (r: Self)
        ensures
            r is Disconnected,
    {
        ConnectionState::Disconnected
    }
}

/// State change event carrying the old and new states.
#[derive(Debug, Clone)]
pub struct StateChangeEvent {
    /// The previous state
    pub old_state: ConnectionState,
    /// The new state
    pub new_state: ConnectionState,
}

/// Error for an illegal state transition; the state is left unchanged.
#[derive(Debug)]
pub struct InvalidTransition {
    /// The state the transition started from
    pub from: ConnectionState,
    /// The state the transition was aimed at
    pub to: ConnectionState,
}

/// Manager for connection state.
///
/// Accepted changes are appended to an event log; the surrounding runtime
/// drains the log with `take_events` and fans the events out to
/// subscribers over its broadcast channel.
pub struct StateManager {
    /// Current state
    state: ConnectionState,
    /// Events not yet handed to the broadcaster
    events: Vec<StateChangeEvent>,
}

impl StateManager {
    /// The current state, for contracts.
    pub closed spec fn spec_state(&self) -> ConnectionState {
        self.state
    }

    /// The pending (not yet drained) events, for contracts.
    pub closed spec fn spec_events(&self) -> Seq<StateChangeEvent> {
        self.events@
    }

    /// Create a new state manager starting in the disconnected state.
    pub fn new() -> (r: Self)
        ensures
            r.spec_state() is Disconnected,
            r.spec_events().len() == 0,
    {
        Self { state: ConnectionState::Disconnected, events: Vec::new() }
    }

    /// Create a new state manager with a specific initial state.
    pub fn with_state(initial_state: ConnectionState) -> (r: Self)
        ensures
            r.spec_state() == initial_state,
            r.spec_events().len() == 0,
    {
        Self { state: initial_state, events: Vec::new() }
    }

    /// Get the current state.
    pub fn state(&self) -> (r: ConnectionState)
        ensures
            state_eq(r, self.spec_state()),
            same_kind(r, self.spec_state()),
    {
        self.state.clone()
    }

    /// Set the state unchecked, recording the change for broadcast.
    ///
    /// Returns true when the state changed, false when the new state
    /// equals the current one (in which case nothing is recorded).
    pub fn set_state(&mut self, new_state: ConnectionState) -> (r: bool)
        ensures
            r == !state_eq(old(self).spec_state(), new_state),
            !r ==> *final(self) == *old(self),
            r ==> final(self).spec_state() == new_state,
            r ==> final(self).spec_events().len() == old(self).spec_events().len() + 1,
            r ==> state_eq(
                final(self).spec_events().last().old_state,
                old(self).spec_state(),
            ) && state_eq(final(self).spec_events().last().new_state, new_state),
            r ==> forall|i: int|
                0 <= i < old(self).spec_events().len() ==> final(self).spec_events()[i] == old(
                    self,
                ).spec_events()[i],
    {
        if self.state.eq_state(&new_state) {
            return false;
        }
        let old_state = self.state.clone();
        let event_new = new_state.clone();
        self.state = new_state;
        self.events.push(StateChangeEvent { old_state, new_state: event_new });
        true
    }

    /// Try a checked transition to a new state.
    ///
    /// Returns Ok(true) when the state changed (and the change is
    /// recorded), Ok(false) when the new state equals the current one,
    /// and an error carrying the attempted edge when the transition is
    /// illegal; in the last two cases the state and the event log are
    /// left untouched.
    pub fn try_transition(&mut self, new_state: ConnectionState) -> (r: Result<
        bool,
        InvalidTransition,
    >)
        ensures
            match r {
                Ok(true) => {
                    &&& !state_eq(old(self).spec_state(), new_state)
                    &&& transition_ok(old(self).spec_state(), new_state)
                    &&& final(self).spec_state() == new_state
                    &&& final(self).spec_events().len() == old(self).spec_events().len() + 1
                    &&& state_eq(
                        final(self).spec_events().last().old_state,
                        old(self).spec_state(),
                    )
                    &&& state_eq(final(self).spec_events().last().new_state, new_state)
                    &&& forall|i: int|
                        0 <= i < old(self).spec_events().len() ==> final(self).spec_events()[i]
                            == old(self).spec_events()[i]
                },
                Ok(false) => {
                    &&& state_eq(old(self).spec_state(), new_state)
                    &&& *final(self) == *old(self)
                },
                Err(e) => {
                    &&& !state_eq(old(self).spec_state(), new_state)
                    &&& !transition_ok(old(self).spec_state(), new_state)
                    &&& *final(self) == *old(self)
                    &&& state_eq(e.from, old(self).spec_state())
                    &&& state_eq(e.to, new_state)
                },
            },
    {
        if self.state.eq_state(&new_state) {
            return Ok(false);
        }

        if !self.state.can_transition_to(&new_state) {
            let from = self.state.clone();
            proof {
                lemma_transition_respects_state_eq(self.state, from, new_state);
            }
            return Err(InvalidTransition { from, to: new_state });
        }

        let old_state = self.state.clone();
        let event_new = new_state.clone();
        self.state = new_state;
        self.events.push(StateChangeEvent { old_state, new_state: event_new });
        Ok(true)
    }

    /// Drain the pending events for broadcast.
    pub fn take_events(&mut self) -> (r: Vec<StateChangeEvent>)
        ensures
            r@ == old(self).spec_events(),
            final(self).spec_events().len() == 0,
            final(self).spec_state() == old(self).spec_state(),
    {
        let mut out: Vec<StateChangeEvent> = Vec::new();
        core::mem::swap(&mut out, &mut self.events);
        out
    }
}

impl Default for StateManager {
    /// A fresh manager in the disconnected state.
    fn default() -> (r: Self)
        ensures
            r.spec_state() is Disconnected,
            r.spec_events().len() == 0,
    {
        Self::new()
    }
}

/// Transition legality only looks at the variants of its endpoints, so it
/// carries over to any state-equal pair.
pub proof fn lemma_transition_respects_state_eq(a: ConnectionState, a2: ConnectionState, b: ConnectionState)
    requires
        same_kind(a, a2),
    ensures
        transition_ok(a, b) == transition_ok(a2, b),
{
}

} // verus!
