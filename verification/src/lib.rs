//! Core systems library for a secure remote-shell and peer-to-peer file
//! sharing platform: content hashing and key derivation, an authenticated
//! secure channel with replay protection, connection state control with
//! bounded exponential backoff, a content-addressed chunk store with CRDT
//! replication, and an adaptive streaming buffer with a synchronized
//! playback room.

use vstd::prelude::*;

pub mod app_error;
pub mod buffer;
pub mod chunk;
pub mod cipher;
pub mod codec;
pub mod command;
pub mod config;
pub mod conn_manager;
pub mod conn_state;
pub mod errors;
pub mod filesystem;
pub mod framing;
pub mod handler;
pub mod hashing;
pub mod metadata;
pub mod p2ptypes;
pub mod playback;
pub mod reconnection;
pub mod secure_channel;
pub mod session_profile;
pub mod sync;
pub mod textutil;

verus! {

} // verus!
