use russh_core::config::{AuthMethod, ConnectionConfig, ReconnectionStrategy, SshConfig};

#[test]
fn connection_config_default() {
    let config = ConnectionConfig::default();
    assert_eq!(config.port, 22);
    assert_eq!(config.timeout_ms, 30_000);
}

#[test]
fn connection_config_builder() {
    let config = ConnectionConfig::new("example.com".to_string(), 2222)
        .with_timeout(60_000)
        .with_keepalive(30_000)
        .with_max_reconnect_attempts(10);

    assert_eq!(config.host, "example.com");
    assert_eq!(config.port, 2222);
    assert_eq!(config.timeout_ms, 60_000);
    assert_eq!(config.keepalive_interval_ms, 30_000);
    assert_eq!(config.max_reconnect_attempts, 10);
}

#[test]
fn reconnection_strategy_default() {
    let strategy = ReconnectionStrategy::default();
    assert_eq!(strategy.max_attempts, 5);
    assert!(strategy.jitter);
}

#[test]
fn ssh_config_with_password() {
    let config = SshConfig::with_password(
        "host.com".to_string(),
        22,
        "user".to_string(),
        "pass".to_string(),
    );
    assert_eq!(config.host, "host.com");
    assert_eq!(config.username, "user");
    assert!(matches!(config.auth, AuthMethod::Password(_)));
}

#[test]
fn backoff_delay_monotone_and_bounded() {
    let strategy = ReconnectionStrategy::new(5, 100, 1_000).without_jitter();
    assert_eq!(strategy.delay_for_attempt(0), 100);
    assert_eq!(strategy.delay_for_attempt(1), 200);
    assert_eq!(strategy.delay_for_attempt(2), 400);
    assert_eq!(strategy.delay_for_attempt(3), 800);
    assert_eq!(strategy.delay_for_attempt(4), 1_000);
    let mut prev = 0u64;
    for n in 0..20u32 {
        let d = strategy.delay_for_attempt(n);
        assert!(d >= prev);
        assert!(d <= 1_000);
        prev = d;
    }
}

#[test]
fn backoff_jitter_stays_in_band() {
    let strategy = ReconnectionStrategy::new(5, 100, 10_000).with_jitter();
    for n in 0..10u32 {
        let base = ReconnectionStrategy::new(5, 100, 10_000)
            .without_jitter()
            .delay_for_attempt(n);
        let d = strategy.delay_for_attempt(n);
        assert!(d >= base);
        assert!(d <= base + base / 4);
    }
}

#[test]
fn should_retry_respects_max() {
    let strategy = ReconnectionStrategy::new(3, 1, 10);
    assert!(strategy.should_retry(0));
    assert!(strategy.should_retry(2));
    assert!(!strategy.should_retry(3));
}
