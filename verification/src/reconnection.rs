//! Reconnection control: attempt accounting, sticky cancellation, and the
//! decision rule of the retry loop. The surrounding runtime drives the
//! loop (sleeping and awaiting connect calls); every decision — whether to
//! try again, how long to wait first, when to give up — is made here.

use crate::config::{backoff_delay, ReconnectionStrategy};
use vstd::prelude::*;
use vstd::string::StringExecFns;

verus! {

/// Externally visible status of a reconnection controller.
#[derive(Debug)]
pub enum ReconnectionStatus {
    /// No reconnection in progress
    Idle,
    /// A reconnection attempt is running
    InProgress {
        /// The current attempt number (1-based)
        attempt: u32,
        /// The configured maximum number of attempts
        max_attempts: u32,
    },
    /// The last reconnection succeeded
    Succeeded,
    /// The last reconnection failed after exhausting its attempts
    Failed {
        /// How many attempts were made
        attempts: u32,
        /// The last connection error seen
        last_error: String,
    },
    /// Reconnection was cancelled
    Cancelled,
}

/// What the retry loop should do next.
#[derive(Debug)]
pub enum AttemptDecision {
    /// Cancellation was requested: stop without connecting.
    Cancelled,
    /// Every allowed attempt has been made: give up.
    Exhausted {
        /// How many attempts were made
        attempts: u32,
        /// The last recorded connection error
        last_error: String,
    },
    /// Make one more attempt.
    Attempt {
        /// The attempt number (1-based)
        number: u32,
        /// How long to sleep before connecting, in milliseconds (zero for
        /// the first attempt)
        delay_before_ms: u64,
    },
}

/// Reconnection controller.
///
/// Tracks the attempt counter and cancellation flag of one reconnect call.
/// Cancellation is sticky: once requested, no further attempt is handed
/// out until `reset` or `begin`.
pub struct ReconnectionController {
    current_attempt: u32,
    max_attempts: u32,
    cancelled: bool,
    last_error: String,
}

impl ReconnectionController {
    /// The current attempt counter, for contracts.
    pub closed spec fn spec_current_attempt(&self) -> u32 {
        self.current_attempt
    }

    /// The configured maximum, for contracts.
    pub closed spec fn spec_max_attempts(&self) -> u32 {
        self.max_attempts
    }

    /// Whether cancellation was requested, for contracts.
    pub closed spec fn spec_cancelled(&self) -> bool {
        self.cancelled
    }

    /// The last recorded error text, for contracts.
    pub closed spec fn spec_last_error(&self) -> Seq<char> {
        self.last_error@
    }

    /// Create an idle controller.
    pub fn new() -> (r: Self)
        ensures
            r.spec_current_attempt() == 0,
            r.spec_max_attempts() == 0,
            !r.spec_cancelled(),
            r.spec_last_error().len() == 0,
    {
        Self { current_attempt: 0, max_attempts: 0, cancelled: false, last_error: String::new() }
    }

    /// Whether a reconnection is in progress.
    pub fn is_reconnecting(&self) -> (r: bool)
        ensures
            r == (self.spec_current_attempt() > 0),
    {
        self.current_attempt > 0
    }

    /// The current attempt number (zero when idle).
    pub fn current_attempt(&self) -> (r: u32)
        ensures
            r == self.spec_current_attempt(),
    {
        self.current_attempt
    }

    /// The externally visible status.
    pub fn status(&self) -> (r: ReconnectionStatus)
        ensures
            self.spec_cancelled() ==> r is Cancelled,
            !self.spec_cancelled() && self.spec_current_attempt() > 0 ==> (r matches
                ReconnectionStatus::InProgress { attempt, max_attempts }
                && attempt == self.spec_current_attempt()
                && max_attempts == self.spec_max_attempts()),
            !self.spec_cancelled() && self.spec_current_attempt() == 0 ==> r is Idle,
    {
        if self.cancelled {
            ReconnectionStatus::Cancelled
        } else if self.current_attempt > 0 {
            ReconnectionStatus::InProgress {
                attempt: self.current_attempt,
                max_attempts: self.max_attempts,
            }
        } else {
            ReconnectionStatus::Idle
        }
    }

    /// Request cancellation. Sticky until the next reset.
    pub fn cancel_reconnection(&mut self)
        ensures
            final(self).spec_cancelled(),
            final(self).spec_current_attempt() == old(self).spec_current_attempt(),
            final(self).spec_max_attempts() == old(self).spec_max_attempts(),
            final(self).spec_last_error() == old(self).spec_last_error(),
    {
        self.cancelled = true;
    }

    /// Clear the counters and the cancellation flag.
    pub fn reset(&mut self)
        ensures
            final(self).spec_current_attempt() == 0,
            final(self).spec_max_attempts() == 0,
            !final(self).spec_cancelled(),
            final(self).spec_last_error() == old(self).spec_last_error(),
    {
        self.current_attempt = 0;
        self.max_attempts = 0;
        self.cancelled = false;
    }

    /// Start a reconnect call under the given strategy: counters cleared,
    /// maximum taken from the strategy.
    pub fn begin(&mut self, strategy: &ReconnectionStrategy)
        ensures
            final(self).spec_current_attempt() == 0,
            final(self).spec_max_attempts() == strategy.max_attempts,
            !final(self).spec_cancelled(),
            final(self).spec_last_error().len() == 0,
    {
        self.current_attempt = 0;
        self.max_attempts = strategy.max_attempts;
        self.cancelled = false;
        self.last_error = String::new();
    }

    /// Decide what the retry loop does next.
    ///
    /// Hands out attempt numbers 1..=max_attempts one per call, with the
    /// backoff delay to sleep before each attempt after the first; once
    /// the maximum is reached, reports exhaustion with the last recorded
    /// error; after a cancellation request, always reports cancellation.
    pub fn next_attempt(&mut self, strategy: &ReconnectionStrategy) -> (r: AttemptDecision)
        requires
            old(self).spec_max_attempts() == strategy.max_attempts,
        ensures
            final(self).spec_max_attempts() == old(self).spec_max_attempts(),
            final(self).spec_cancelled() == old(self).spec_cancelled(),
            final(self).spec_last_error() == old(self).spec_last_error(),
            old(self).spec_cancelled() ==> r is Cancelled && *final(self) == *old(self),
            !old(self).spec_cancelled() && old(self).spec_current_attempt()
                >= strategy.max_attempts ==> {
                &&& r matches AttemptDecision::Exhausted { attempts, last_error }
                    && attempts == strategy.max_attempts
                    && last_error@ == old(self).spec_last_error()
                &&& final(self).spec_current_attempt() == 0
            },
            !old(self).spec_cancelled() && old(self).spec_current_attempt()
                < strategy.max_attempts ==> {
                &&& r matches AttemptDecision::Attempt { number, delay_before_ms }
                    && number == old(self).spec_current_attempt() + 1
                    && (number == 1 ==> delay_before_ms == 0)
                    && (number > 1 && !strategy.jitter ==> delay_before_ms == backoff_delay(
                    strategy.base_delay_ms,
                    strategy.max_delay_ms,
                    (number - 2) as u32,
                ))
                &&& final(self).spec_current_attempt() == old(self).spec_current_attempt() + 1
            },
    {
        if self.cancelled {
            return AttemptDecision::Cancelled;
        }
        if self.current_attempt >= strategy.max_attempts {
            self.current_attempt = 0;
            return AttemptDecision::Exhausted {
                attempts: strategy.max_attempts,
                last_error: self.last_error.clone(),
            };
        }
        let number = self.current_attempt + 1;
        self.current_attempt = number;
        let delay_before_ms = if number == 1 {
            0
        } else {
            strategy.delay_for_attempt(number - 2)
        };
        AttemptDecision::Attempt { number, delay_before_ms }
    }

    /// Record a failed attempt's error text.
    pub fn record_failure(&mut self, error: String)
        ensures
            final(self).spec_last_error() == error@,
            final(self).spec_current_attempt() == old(self).spec_current_attempt(),
            final(self).spec_max_attempts() == old(self).spec_max_attempts(),
            final(self).spec_cancelled() == old(self).spec_cancelled(),
    {
        self.last_error = error;
    }

    /// Record a successful attempt: the counter returns to idle.
    pub fn record_success(&mut self)
        ensures
            final(self).spec_current_attempt() == 0,
            final(self).spec_max_attempts() == old(self).spec_max_attempts(),
            final(self).spec_cancelled() == old(self).spec_cancelled(),
            final(self).spec_last_error() == old(self).spec_last_error(),
    {
        self.current_attempt = 0;
    }
}

impl Default for ReconnectionController {
    /// A fresh idle controller.
    fn default() -> (r: Self)
        ensures
            r.spec_current_attempt() == 0,
            r.spec_max_attempts() == 0,
            !r.spec_cancelled(),
    {
        Self::new()
    }
}

} // verus!
