//! Application-facing errors with stable error codes, as surfaced to the
//! user interface layer.

use vstd::prelude::*;

verus! {

/// A user-visible application error.
#[derive(Debug)]
pub enum AppError {
    /// A connection could not be established
    ConnectionFailed(String),
    /// Authentication was rejected
    AuthenticationFailed(String),
    /// No session with the given id
    SessionNotFound(String),
    /// The authentication method is not valid for the request
    InvalidAuthMethod,
    /// A profile id was required but missing
    MissingProfileId,
    /// No profile with the given id
    ProfileNotFound(String),
    /// A file operation failed
    FileOperationFailed(String),
    /// A transfer failed
    TransferFailed(String),
    /// A peer connection could not be established
    P2PConnectionFailed(String),
    /// No peer with the given id
    PeerNotFound(String),
    /// Settings could not be read or written
    SettingsError(String),
    /// Serialization failed
    SerializationError(String),
    /// An I/O error, by its rendered description
    IoError(String),
    /// An internal error
    InternalError(String),
}

impl AppError {
    /// The stable error code of this error.
    pub fn error_code(&self) -> (r: &'static str)
        ensures
            match self {
                AppError::ConnectionFailed(_) => r@ == "CONNECTION_FAILED"@,
                AppError::AuthenticationFailed(_) => r@ == "AUTH_FAILED"@,
                AppError::SessionNotFound(_) => r@ == "SESSION_NOT_FOUND"@,
                AppError::InvalidAuthMethod => r@ == "INVALID_AUTH_METHOD"@,
                AppError::MissingProfileId => r@ == "MISSING_PROFILE_ID"@,
                AppError::ProfileNotFound(_) => r@ == "PROFILE_NOT_FOUND"@,
                AppError::FileOperationFailed(_) => r@ == "FILE_OPERATION_FAILED"@,
                AppError::TransferFailed(_) => r@ == "TRANSFER_FAILED"@,
                AppError::P2PConnectionFailed(_) => r@ == "P2P_CONNECTION_FAILED"@,
                AppError::PeerNotFound(_) => r@ == "PEER_NOT_FOUND"@,
                AppError::SettingsError(_) => r@ == "SETTINGS_ERROR"@,
                AppError::SerializationError(_) => r@ == "SERIALIZATION_ERROR"@,
                AppError::IoError(_) => r@ == "IO_ERROR"@,
                AppError::InternalError(_) => r@ == "INTERNAL_ERROR"@,
            },
    {
        match self {
            AppError::ConnectionFailed(_) => "CONNECTION_FAILED",
            AppError::AuthenticationFailed(_) => "AUTH_FAILED",
            AppError::SessionNotFound(_) => "SESSION_NOT_FOUND",
            AppError::InvalidAuthMethod => "INVALID_AUTH_METHOD",
            AppError::MissingProfileId => "MISSING_PROFILE_ID",
            AppError::ProfileNotFound(_) => "PROFILE_NOT_FOUND",
            AppError::FileOperationFailed(_) => "FILE_OPERATION_FAILED",
            AppError::TransferFailed(_) => "TRANSFER_FAILED",
            AppError::P2PConnectionFailed(_) => "P2P_CONNECTION_FAILED",
            AppError::PeerNotFound(_) => "PEER_NOT_FOUND",
            AppError::SettingsError(_) => "SETTINGS_ERROR",
            AppError::SerializationError(_) => "SERIALIZATION_ERROR",
            AppError::IoError(_) => "IO_ERROR",
            AppError::InternalError(_) => "INTERNAL_ERROR",
        }
    }
}

} // verus!
