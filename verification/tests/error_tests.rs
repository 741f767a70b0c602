use russh_core::app_error::AppError;
use russh_core::errors::{ConnectionError, EncryptionError, ReconnectionError};

#[test]
fn connection_error_is_descriptive() {
    let errors = vec![
        ConnectionError::Timeout(30_000),
        ConnectionError::DnsResolution {
            host: "example.com".to_string(),
            reason: "NXDOMAIN".to_string(),
        },
        ConnectionError::ConnectionRefused { host: "localhost".to_string(), port: 22 },
        ConnectionError::NetworkUnreachable("No route to host".to_string()),
        ConnectionError::TlsHandshake("Certificate expired".to_string()),
        ConnectionError::ConnectionClosed("Remote closed".to_string()),
        ConnectionError::InvalidConfig("Missing host".to_string()),
    ];

    for error in errors {
        assert!(error.is_descriptive(), "Error should be descriptive: {:?}", error);
        assert!(!error.reason().is_empty(), "Error reason should not be empty: {:?}", error);
    }
}

#[test]
fn all_error_variants_are_descriptive() {
    let messages = vec![
        ConnectionError::Timeout(5_000).message(),
        ConnectionError::Io("broken pipe".to_string()).message(),
        EncryptionError::Decryption.message(),
        EncryptionError::AuthenticationFailed.message(),
        EncryptionError::KeyGeneration("no entropy".to_string()).message(),
        ReconnectionError::Cancelled.message(),
        ReconnectionError::AttemptsExhausted { attempts: 3, last_error: "fail".to_string() }
            .message(),
    ];
    for m in messages {
        assert!(m.len() >= 10, "message too short: {}", m);
    }
}

#[test]
fn exact_error_messages() {
    assert_eq!(
        ConnectionError::Timeout(30_000).message(),
        "Connection timeout after 30000 ms"
    );
    assert_eq!(
        ConnectionError::ConnectionRefused { host: "h".to_string(), port: 22 }.message(),
        "Connection refused by h:22"
    );
    assert_eq!(
        ReconnectionError::AttemptsExhausted { attempts: 3, last_error: "fail".to_string() }
            .message(),
        "All 3 reconnection attempts failed. Last error: fail"
    );
}

#[test]
fn app_error_codes_are_stable() {
    assert_eq!(AppError::ConnectionFailed("x".to_string()).error_code(), "CONNECTION_FAILED");
    assert_eq!(AppError::AuthenticationFailed("x".to_string()).error_code(), "AUTH_FAILED");
    assert_eq!(AppError::SessionNotFound("x".to_string()).error_code(), "SESSION_NOT_FOUND");
    assert_eq!(
        AppError::P2PConnectionFailed("x".to_string()).error_code(),
        "P2P_CONNECTION_FAILED"
    );
    assert_eq!(
        AppError::SerializationError("x".to_string()).error_code(),
        "SERIALIZATION_ERROR"
    );
}
