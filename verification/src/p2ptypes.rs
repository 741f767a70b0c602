//! Plain peer-to-peer connection metadata: the kind of path a connection
//! takes to its peer.

use vstd::prelude::*;
use vstd::string::StringExecFns;

verus! {

/// How a peer connection reaches its peer.
#[derive(Debug, Clone, Copy, PartialEq, Eq, Structural)]
pub enum ConnectionType {
    /// Direct connection via hole-punching
    Direct,
    /// Connection through a relay server
    Relayed,
    /// Connection type unknown or mixed
    Unknown,
}

impl ConnectionType {
    /// A human-readable rendering of the connection type.
    pub fn display_string(&self) -> (r: String)
        ensures
            match self {
                ConnectionType::Direct => r@ == "Direct"@,
                ConnectionType::Relayed => r@ == "Relayed"@,
                ConnectionType::Unknown => r@ == "Unknown"@,
            },
    {
        match self {
            ConnectionType::Direct => "Direct".to_owned(),
            ConnectionType::Relayed => "Relayed".to_owned(),
            ConnectionType::Unknown => "Unknown".to_owned(),
        }
    }
}

} // verus!
