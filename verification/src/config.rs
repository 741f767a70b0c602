//! Configuration types: connection behaviour, reconnection strategies with
//! bounded exponential backoff, and SSH session settings. Durations are
//! carried as integral milliseconds.

use vstd::prelude::*;

verus! {

/// Configuration for connection behaviour.
#[derive(Debug, Clone)]
pub struct ConnectionConfig {
    /// Remote host address
    pub host: String,
    /// Remote port number
    pub port: u16,
    /// Connection timeout in milliseconds
    pub timeout_ms: u64,
    /// TCP keepalive interval in milliseconds
    pub keepalive_interval_ms: u64,
    /// Maximum number of reconnection attempts
    pub max_reconnect_attempts: u32,
    /// Base delay for reconnection backoff in milliseconds
    pub reconnect_base_delay_ms: u64,
}

impl Default for ConnectionConfig {
    /// Defaults: port 22, 30 s timeout, 60 s keepalive, 5 reconnection
    /// attempts with a 1 s base delay.
    fn default() -> (r: Self)
        ensures
            r.host@.len() == 0,
            r.port == 22,
            r.timeout_ms == 30_000,
            r.keepalive_interval_ms == 60_000,
            r.max_reconnect_attempts == 5,
            r.reconnect_base_delay_ms == 1_000,
    {
        Self {
            host: String::new(),
            port: 22,
            timeout_ms: 30_000,
            keepalive_interval_ms: 60_000,
            max_reconnect_attempts: 5,
            reconnect_base_delay_ms: 1_000,
        }
    }
}

impl ConnectionConfig {
    /// Create a new connection config with the given host and port.
    pub fn new(host: String, port: u16) -> (r: Self)
        ensures
            r.host@ == host@,
            r.port == port,
            r.timeout_ms == 30_000,
            r.keepalive_interval_ms == 60_000,
            r.max_reconnect_attempts == 5,
            r.reconnect_base_delay_ms == 1_000,
    {
        Self {
            host,
            port,
            timeout_ms: 30_000,
            keepalive_interval_ms: 60_000,
            max_reconnect_attempts: 5,
            reconnect_base_delay_ms: 1_000,
        }
    }

    /// Set the connection timeout.
    pub fn with_timeout(self, timeout_ms: u64) -> (r: Self)
        ensures
            r == (Self { timeout_ms, ..self }),
    {
        Self { timeout_ms, ..self }
    }

    /// Set the keepalive interval.
    pub fn with_keepalive(self, interval_ms: u64) -> (r: Self)
        ensures
            r == (Self { keepalive_interval_ms: interval_ms, ..self }),
    {
        Self { keepalive_interval_ms: interval_ms, ..self }
    }

    /// Set the maximum reconnection attempts.
    pub fn with_max_reconnect_attempts(self, attempts: u32) -> (r: Self)
        ensures
            r == (Self { max_reconnect_attempts: attempts, ..self }),
    {
        Self { max_reconnect_attempts: attempts, ..self }
    }
}

/// Doubling with saturation at the top of u64.
pub open spec fn sat_double(x: u64) -> u64 {
    if x > u64::MAX / 2 {
        u64::MAX
    } else {
        (2 * x) as u64
    }
}

/// `base` doubled `k` times, saturating at the top of u64.
pub open spec fn sat_mul_pow2(base: u64, k: nat) -> u64
    decreases k,
{
    if k == 0 {
        base
    } else {
        sat_double(sat_mul_pow2(base, (k - 1) as nat))
    }
}

/// The exponent used for attempt `n`: capped at ten so the factor stays
/// within 2^10.
pub open spec fn capped_exponent(n: u32) -> nat {
    if n < 10 {
        n as nat
    } else {
        10
    }
}

/// The backoff delay for attempt `n` (before jitter): base times 2^n with
/// the exponent capped at ten, the product saturating, and the result
/// capped at `max`.
pub open spec fn backoff_delay(base: u64, max: u64, n: u32) -> u64 {
    let exp = sat_mul_pow2(base, capped_exponent(n));
    if exp > max {
        max
    } else {
        exp
    }
}

/// Reconnection strategy with exponential backoff.
#[derive(Debug, Clone)]
pub struct ReconnectionStrategy {
    /// Maximum number of reconnection attempts
    pub max_attempts: u32,
    /// Base delay between reconnection attempts, in milliseconds
    pub base_delay_ms: u64,
    /// Maximum delay between reconnection attempts, in milliseconds
    pub max_delay_ms: u64,
    /// Whether to add random jitter to delays
    pub jitter: bool,
}

impl Default for ReconnectionStrategy {
    /// Defaults: 5 attempts, 1 s base delay, 60 s maximum delay, jitter on.
    fn default() -> (r: Self)
        ensures
            r.max_attempts == 5,
            r.base_delay_ms == 1_000,
            r.max_delay_ms == 60_000,
            r.jitter,
    {
        Self { max_attempts: 5, base_delay_ms: 1_000, max_delay_ms: 60_000, jitter: true }
    }
}

/// Relies on rand::random::<u64>: a sampled value reduced modulo `n` lies
/// below `n`; nothing else is assumed of it.
#[verifier::external_body]
fn random_below(n: u64) -> (r: u64)
    requires
        n > 0,
    ensures
        r < n,
{
    rand::random::<u64>() % n
}

impl ReconnectionStrategy {
    /// Create a new reconnection strategy (jitter enabled).
    pub fn new(max_attempts: u32, base_delay_ms: u64, max_delay_ms: u64) -> (r: Self)
        ensures
            r.max_attempts == max_attempts,
            r.base_delay_ms == base_delay_ms,
            r.max_delay_ms == max_delay_ms,
            r.jitter,
    {
        Self { max_attempts, base_delay_ms, max_delay_ms, jitter: true }
    }

    /// Disable jitter for deterministic delays.
    pub fn without_jitter(self) -> (r: Self)
        ensures
            r == (Self { jitter: false, ..self }),
    {
        Self { jitter: false, ..self }
    }

    /// Enable jitter for randomized delays.
    pub fn with_jitter(self) -> (r: Self)
        ensures
            r == (Self { jitter: true, ..self }),
    {
        Self { jitter: true, ..self }
    }

    /// Calculate the delay for a given attempt number, in milliseconds.
    ///
    /// The delay is base_delay times 2^attempt with the exponent capped at
    /// ten, never above max_delay; with jitter enabled, a random duration
    /// strictly below a quarter of that delay is added (saturating at the
    /// top of u64).
    pub fn delay_for_attempt(&self, attempt: u32) -> (r: u64)
        ensures
            !self.jitter ==> r == backoff_delay(self.base_delay_ms, self.max_delay_ms, attempt),
            self.jitter ==> {
                let d = backoff_delay(self.base_delay_ms, self.max_delay_ms, attempt);
                &&& d <= r
                &&& (d / 4 == 0 ==> r == d)
                &&& (d / 4 > 0 && d + d / 4 <= u64::MAX ==> r < d + d / 4)
                &&& (d / 4 > 0 && d + d / 4 > u64::MAX ==> (r < d + d / 4 || r == u64::MAX))
            },
    {
        let capped_attempt: u32 = if attempt < 10 {
            attempt
        } else {
            10
        };

        // base_delay doubled capped_attempt times, saturating.
        let mut exponential = self.base_delay_ms;
        let mut k: u32 = 0;
        while k < capped_attempt
            invariant
                k <= capped_attempt,
                capped_attempt <= 10,
                exponential == sat_mul_pow2(self.base_delay_ms, k as nat),
            decreases capped_attempt - k,
        {
            exponential = if exponential > u64::MAX / 2 {
                u64::MAX
            } else {
                2 * exponential
            };
            k = k + 1;
        }
        proof {
            assert(capped_attempt as nat == capped_exponent(attempt));
        }

        let capped = if exponential > self.max_delay_ms {
            self.max_delay_ms
        } else {
            exponential
        };

        if self.jitter {
            let jitter_max = capped / 4;
            if jitter_max > 0 {
                let j = random_below(jitter_max);
                if capped <= u64::MAX - j {
                    capped + j
                } else {
                    u64::MAX
                }
            } else {
                capped
            }
        } else {
            capped
        }
    }

    /// Check whether another attempt is allowed after `current_attempt`
    /// completed attempts.
    pub fn should_retry(&self, current_attempt: u32) -> (r: bool)
        ensures
            r == (current_attempt < self.max_attempts),
    {
        current_attempt < self.max_attempts
    }
}

/// Saturated doubling never shrinks a value.
proof fn lemma_sat_double_ge(x: u64)
    ensures
        sat_double(x) >= x,
{
}

/// The saturating power ladder is monotone in the exponent.
proof fn lemma_sat_mul_pow2_monotone(base: u64, k: nat)
    ensures
        sat_mul_pow2(base, k + 1) >= sat_mul_pow2(base, k),
    decreases k,
{
    if k > 0 {
        lemma_sat_mul_pow2_monotone(base, (k - 1) as nat);
        lemma_sat_double_monotone(
            sat_mul_pow2(base, (k - 1) as nat),
            sat_mul_pow2(base, k),
        );
    } else {
        lemma_sat_double_ge(base);
    }
}

proof fn lemma_sat_double_monotone(x: u64, y: u64)
    requires
        x <= y,
    ensures
        sat_double(x) <= sat_double(y),
{
}

/// Backoff delays without jitter are non-decreasing in the attempt number,
/// start at the base delay (capped), and never exceed the maximum delay.
pub proof fn lemma_backoff_monotone(base: u64, max: u64, n: u32)
    requires
        n < u32::MAX,
    ensures
        backoff_delay(base, max, (n + 1) as u32) >= backoff_delay(base, max, n),
        backoff_delay(base, max, 0) == (if base > max {
            max
        } else {
            base
        }),
        backoff_delay(base, max, n) <= max,
{
    if n < 10 {
        lemma_sat_mul_pow2_monotone(base, n as nat);
        assert(capped_exponent((n + 1) as u32) == n as nat + 1);
    } else {
        assert(capped_exponent((n + 1) as u32) == capped_exponent(n));
    }
}

/// SSH authentication method.
#[derive(Debug, Clone)]
pub enum AuthMethod {
    /// Password-based authentication
    Password(String),
    /// Public key authentication
    PublicKey {
        /// Path to the private key file
        key_path: String,
        /// Optional passphrase for encrypted keys
        passphrase: Option<String>,
    },
    /// SSH agent authentication
    Agent,
}

/// SSH session configuration.
#[derive(Debug, Clone)]
pub struct SshConfig {
    /// Remote host address
    pub host: String,
    /// Remote port number
    pub port: u16,
    /// Username for authentication
    pub username: String,
    /// Authentication method
    pub auth: AuthMethod,
    /// Connection timeout in milliseconds
    pub timeout_ms: u64,
}

impl SshConfig {
    /// Create a new SSH config with password authentication.
    pub fn with_password(host: String, port: u16, username: String, password: String) -> (r: Self)
        ensures
            r.host@ == host@,
            r.port == port,
            r.username@ == username@,
            r.auth matches AuthMethod::Password(p) && p@ == password@,
            r.timeout_ms == 30_000,
    {
        Self { host, port, username, auth: AuthMethod::Password(password), timeout_ms: 30_000 }
    }

    /// Create a new SSH config with public key authentication.
    pub fn with_key(
        host: String,
        port: u16,
        username: String,
        key_path: String,
        passphrase: Option<String>,
    ) -> (r: Self)
        ensures
            r.host@ == host@,
            r.port == port,
            r.username@ == username@,
            r.auth matches AuthMethod::PublicKey { key_path: k, passphrase: p } && k@ == key_path@
                && p == passphrase,
            r.timeout_ms == 30_000,
    {
        Self {
            host,
            port,
            username,
            auth: AuthMethod::PublicKey { key_path, passphrase },
            timeout_ms: 30_000,
        }
    }

    /// Create a new SSH config with SSH agent authentication.
    pub fn with_agent(host: String, port: u16, username: String) -> (r: Self)
        ensures
            r.host@ == host@,
            r.port == port,
            r.username@ == username@,
            r.auth is Agent,
            r.timeout_ms == 30_000,
    {
        Self { host, port, username, auth: AuthMethod::Agent, timeout_ms: 30_000 }
    }

    /// Set the connection timeout.
    pub fn with_timeout(self, timeout_ms: u64) -> (r: Self)
        ensures
            r == (Self { timeout_ms, ..self }),
    {
        Self { timeout_ms, ..self }
    }
}

} // verus!
