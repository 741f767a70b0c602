//! Error types, grouped by subsystem. Each error renders to a descriptive,
//! non-empty message through its `message` method.

use crate::textutil::{dec_str, u64_to_string, u32_to_string};
use vstd::prelude::*;
use vstd::string::{StrSliceExecFns, StringExecFns};

verus! {

/// Errors during connection operations.
#[derive(Debug)]
pub enum ConnectionError {
    /// Connection timed out after the carried number of milliseconds
    Timeout(u64),
    /// DNS resolution failed
    DnsResolution {
        /// The host that could not be resolved
        host: String,
        /// Why resolution failed
        reason: String,
    },
    /// Connection was refused by the remote host
    ConnectionRefused {
        /// The refusing host
        host: String,
        /// The refusing port
        port: u16,
    },
    /// Network is unreachable
    NetworkUnreachable(String),
    /// TLS handshake failed
    TlsHandshake(String),
    /// Generic I/O error, by its rendered description
    Io(String),
    /// Connection was closed unexpectedly
    ConnectionClosed(String),
    /// Invalid configuration
    InvalidConfig(String),
}

/// The rendered message of a connection error.
pub open spec fn connection_error_message(e: ConnectionError) -> Seq<char> {
    match e {
        ConnectionError::Timeout(ms) => "Connection timeout after "@ + dec_str(ms as int)
            + " ms"@,
        ConnectionError::DnsResolution { host, reason } => "DNS resolution failed for host '"@
            + host@ + "': "@ + reason@,
        ConnectionError::ConnectionRefused { host, port } => "Connection refused by "@ + host@
            + ":"@ + dec_str(port as int),
        ConnectionError::NetworkUnreachable(s) => "Network unreachable: "@ + s@,
        ConnectionError::TlsHandshake(s) => "TLS handshake failed: "@ + s@,
        ConnectionError::Io(s) => "IO error: "@ + s@,
        ConnectionError::ConnectionClosed(s) => "Connection closed unexpectedly: "@ + s@,
        ConnectionError::InvalidConfig(s) => "Invalid configuration: "@ + s@,
    }
}

impl ConnectionError {
    /// The error message.
    pub fn message(&self) -> (r: String)
        ensures
            r@ == connection_error_message(*self),
    {
        match self {
            ConnectionError::Timeout(ms) => {
                let mut s = "Connection timeout after ".to_owned();
                let num = u64_to_string(*ms);
                s.append(num.as_str());
                s.append(" ms");
                s
            },
            ConnectionError::DnsResolution { host, reason } => {
                let mut s = "DNS resolution failed for host '".to_owned();
                s.append(host.as_str());
                s.append("': ");
                s.append(reason.as_str());
                s
            },
            ConnectionError::ConnectionRefused { host, port } => {
                let mut s = "Connection refused by ".to_owned();
                s.append(host.as_str());
                s.append(":");
                let num = u64_to_string(*port as u64);
                s.append(num.as_str());
                s
            },
            ConnectionError::NetworkUnreachable(m) => {
                let mut s = "Network unreachable: ".to_owned();
                s.append(m.as_str());
                s
            },
            ConnectionError::TlsHandshake(m) => {
                let mut s = "TLS handshake failed: ".to_owned();
                s.append(m.as_str());
                s
            },
            ConnectionError::Io(m) => {
                let mut s = "IO error: ".to_owned();
                s.append(m.as_str());
                s
            },
            ConnectionError::ConnectionClosed(m) => {
                let mut s = "Connection closed unexpectedly: ".to_owned();
                s.append(m.as_str());
                s
            },
            ConnectionError::InvalidConfig(m) => {
                let mut s = "Invalid configuration: ".to_owned();
                s.append(m.as_str());
                s
            },
        }
    }

    /// Check that this error renders to a non-empty message.
    pub fn is_descriptive(&self) -> (r: bool)
        ensures
            r == (connection_error_message(*self).len() > 0),
    {
        let m = self.message();
        m.as_str().unicode_len() > 0
    }

    /// The error reason: its rendered message.
    pub fn reason(&self) -> (r: String)
        ensures
            r@ == connection_error_message(*self),
    {
        self.message()
    }
}

/// Errors during SSH operations.
#[derive(Debug)]
pub enum SshError {
    /// Authentication failed for a user
    AuthenticationFailed {
        /// The user that failed to authenticate
        user: String,
        /// Why authentication failed
        reason: String,
    },
    /// Host key verification failed
    HostKeyVerification {
        /// The host whose key failed verification
        host: String,
    },
    /// Failed to open an SSH channel
    ChannelOpen(String),
    /// Command execution failed
    CommandExecution(String),
    /// Session is not connected
    NotConnected,
    /// Command timed out after the carried number of milliseconds
    CommandTimeout(u64),
    /// Underlying connection error
    Connection(ConnectionError),
}

/// Errors during encryption operations.
#[derive(Debug)]
pub enum EncryptionError {
    /// Key generation failed
    KeyGeneration(String),
    /// Encryption operation failed
    Encryption(String),
    /// Decryption failed: invalid ciphertext or wrong key (deliberately
    /// opaque; never reveals which part failed)
    Decryption,
    /// Authentication failed: tag mismatch, wrong sender, replay, or
    /// plaintext-hash mismatch
    AuthenticationFailed,
    /// Secure channel establishment failed
    ChannelEstablishment(String),
    /// Invalid key format
    InvalidKeyFormat(String),
}

/// The rendered message of an encryption error.
pub open spec fn encryption_error_message(e: EncryptionError) -> Seq<char> {
    match e {
        EncryptionError::KeyGeneration(s) => "Key generation failed: "@ + s@,
        EncryptionError::Encryption(s) => "Encryption failed: "@ + s@,
        EncryptionError::Decryption => "Decryption failed: invalid ciphertext or wrong key"@,
        EncryptionError::AuthenticationFailed =>
            "Authentication tag mismatch: message may be tampered"@,
        EncryptionError::ChannelEstablishment(s) =>
            "Secure channel establishment failed: "@ + s@,
        EncryptionError::InvalidKeyFormat(s) => "Invalid key format: "@ + s@,
    }
}

impl EncryptionError {
    /// The error message.
    pub fn message(&self) -> (r: String)
        ensures
            r@ == encryption_error_message(*self),
    {
        match self {
            EncryptionError::KeyGeneration(m) => {
                let mut s = "Key generation failed: ".to_owned();
                s.append(m.as_str());
                s
            },
            EncryptionError::Encryption(m) => {
                let mut s = "Encryption failed: ".to_owned();
                s.append(m.as_str());
                s
            },
            EncryptionError::Decryption => "Decryption failed: invalid ciphertext or wrong key"
                .to_owned(),
            EncryptionError::AuthenticationFailed =>
                "Authentication tag mismatch: message may be tampered".to_owned(),
            EncryptionError::ChannelEstablishment(m) => {
                let mut s = "Secure channel establishment failed: ".to_owned();
                s.append(m.as_str());
                s
            },
            EncryptionError::InvalidKeyFormat(m) => {
                let mut s = "Invalid key format: ".to_owned();
                s.append(m.as_str());
                s
            },
        }
    }
}

/// Errors during virtual-filesystem operations.
#[derive(Debug)]
pub enum VdfsError {
    /// File not found at the carried virtual path
    NotFound(String),
    /// Permission denied at the carried virtual path
    PermissionDenied(String),
    /// Content hash mismatch between metadata and reassembled data
    HashMismatch {
        /// Expected hash, in hex
        expected: String,
        /// Actual hash, in hex
        actual: String,
    },
    /// Sync conflict detected
    SyncConflict {
        /// The conflicted path
        path: String,
        /// Local version description
        local: String,
        /// Remote version description
        remote: String,
    },
    /// Peer not connected
    PeerNotConnected(String),
    /// Generic I/O error, by its rendered description
    Io(String),
    /// Serialization error
    Serialization(String),
    /// Chunk not found, by its hex id
    ChunkNotFound(String),
}

/// Errors during reconnection.
#[derive(Debug)]
pub enum ReconnectionError {
    /// All reconnection attempts exhausted
    AttemptsExhausted {
        /// How many attempts were made
        attempts: u32,
        /// The last connection error seen
        last_error: String,
    },
    /// Reconnection was cancelled
    Cancelled,
    /// Connection error during reconnection
    Connection(ConnectionError),
}

/// The rendered message of a reconnection error.
pub open spec fn reconnection_error_message(e: ReconnectionError) -> Seq<char> {
    match e {
        ReconnectionError::AttemptsExhausted { attempts, last_error } => "All "@ + dec_str(
            attempts as int,
        ) + " reconnection attempts failed. Last error: "@ + last_error@,
        ReconnectionError::Cancelled => "Reconnection cancelled by user"@,
        ReconnectionError::Connection(c) => "Connection error during reconnection: "@
            + connection_error_message(c),
    }
}

impl ReconnectionError {
    /// The error message.
    pub fn message(&self) -> (r: String)
        ensures
            r@ == reconnection_error_message(*self),
    {
        match self {
            ReconnectionError::AttemptsExhausted { attempts, last_error } => {
                let mut s = "All ".to_owned();
                let num = u32_to_string(*attempts);
                s.append(num.as_str());
                s.append(" reconnection attempts failed. Last error: ");
                s.append(last_error.as_str());
                s
            },
            ReconnectionError::Cancelled => "Reconnection cancelled by user".to_owned(),
            ReconnectionError::Connection(c) => {
                let mut s = "Connection error during reconnection: ".to_owned();
                let inner = c.message();
                s.append(inner.as_str());
                s
            },
        }
    }
}

/// Errors during session operations.
#[derive(Debug)]
pub enum SessionError {
    /// Session not found, by id
    NotFound(String),
    /// Profile not found, by id or name
    ProfileNotFound(String),
    /// Profile already exists, by name
    ProfileExists(String),
    /// Underlying SSH error
    Ssh(SshError),
    /// Generic I/O error, by its rendered description
    Io(String),
    /// Serialization error
    Serialization(String),
}

/// Errors during port forwarding.
#[derive(Debug)]
pub enum ForwardError {
    /// Failed to bind a local port
    BindFailed {
        /// The port that could not be bound
        port: u16,
        /// Why binding failed
        reason: String,
    },
    /// Failed to connect to the remote destination
    RemoteConnectFailed {
        /// The destination host
        host: String,
        /// The destination port
        port: u16,
        /// Why the connection failed
        reason: String,
    },
    /// Forward not found, by id
    NotFound(String),
    /// Underlying SSH error
    Ssh(SshError),
    /// Generic I/O error, by its rendered description
    Io(String),
}

/// Errors during peer-to-peer operations.
#[derive(Debug)]
pub enum P2PError {
    /// Failed to connect to a peer
    ConnectionFailed {
        /// The peer's node id
        peer_id: String,
        /// Why the connection failed
        reason: String,
    },
    /// Peer not found, by node id
    PeerNotFound(String),
    /// Stream error
    Stream(String),
    /// Relay connection failed
    RelayFailed(String),
    /// NAT traversal failed
    NatTraversalFailed(String),
}

/// Errors during streaming operations.
#[derive(Debug)]
pub enum StreamError {
    /// Stream not found, by id
    NotFound(String),
    /// Seek position out of bounds
    SeekOutOfBounds {
        /// The rejected position
        position: u64,
        /// The stream size
        size: u64,
    },
    /// Buffer underrun: not enough data buffered
    BufferUnderrun,
    /// Generic I/O error, by its rendered description
    Io(String),
    /// Underlying connection error
    Connection(ConnectionError),
}

} // verus!
