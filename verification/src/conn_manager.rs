//! Builder for connection-manager configuration. The manager itself lives
//! with the transport runtime; everything it decides with — timeouts,
//! keepalive, reconnection bounds — is assembled and checked here.

use crate::config::ConnectionConfig;
use vstd::prelude::*;

verus! {

/// Builder for a connection manager's configuration.
pub struct ConnectionManagerBuilder {
    config: ConnectionConfig,
}

impl ConnectionManagerBuilder {
    /// The configuration under construction, for contracts.
    pub closed spec fn spec_config(&self) -> ConnectionConfig {
        self.config
    }

    /// Start building a configuration for a host and port.
    pub fn new(host: String, port: u16) -> (r: Self)
        ensures
            r.spec_config().host@ == host@,
            r.spec_config().port == port,
            r.spec_config().timeout_ms == 30_000,
            r.spec_config().keepalive_interval_ms == 60_000,
            r.spec_config().max_reconnect_attempts == 5,
            r.spec_config().reconnect_base_delay_ms == 1_000,
    {
        Self { config: ConnectionConfig::new(host, port) }
    }

    /// Set the connection timeout.
    pub fn timeout(self, timeout_ms: u64) -> (r: Self)
        ensures
            r.spec_config() == (ConnectionConfig { timeout_ms, ..self.spec_config() }),
    {
        Self { config: self.config.with_timeout(timeout_ms) }
    }

    /// Set the keepalive interval.
    pub fn keepalive_interval(self, interval_ms: u64) -> (r: Self)
        ensures
            r.spec_config() == (ConnectionConfig {
                keepalive_interval_ms: interval_ms,
                ..self.spec_config()
            }),
    {
        Self { config: self.config.with_keepalive(interval_ms) }
    }

    /// Set the maximum reconnection attempts.
    pub fn max_reconnect_attempts(self, attempts: u32) -> (r: Self)
        ensures
            r.spec_config() == (ConnectionConfig {
                max_reconnect_attempts: attempts,
                ..self.spec_config()
            }),
    {
        Self { config: self.config.with_max_reconnect_attempts(attempts) }
    }

    /// Set the base delay for reconnection backoff.
    pub fn reconnect_base_delay(self, delay_ms: u64) -> (r: Self)
        ensures
            r.spec_config() == (ConnectionConfig {
                reconnect_base_delay_ms: delay_ms,
                ..self.spec_config()
            }),
    {
        Self {
            config: ConnectionConfig { reconnect_base_delay_ms: delay_ms, ..self.config },
        }
    }

    /// Finish: the assembled configuration, ready to hand to a transport
    /// runtime.
    pub fn build(self) -> (r: ConnectionConfig)
        ensures
            r == self.spec_config(),
    {
        self.config
    }
}

} // verus!
