//! Local-network discovery: retransmission timing and the choice of the
//! interfaces and addresses multicast goes out on.
pub mod discovery;
pub mod interfaces;
pub mod udp;

use crate::protocol::{spec_protocol_error_message, ProtocolError};
use vstd::prelude::*;

verus! {

/// Default UDP port for authentication.
pub const DEFAULT_UDP_PORT: u16 = 36692;

/// IPv4 multicast group for local-network discovery (administratively
/// scoped, `239.255.0.0/16`).
pub const IPV4_MULTICAST_ADDR: &'static str = "239.255.26.44";

/// IPv6 multicast group for local-network discovery (link-local scope, so
/// every send names the interface it goes out on).
pub const IPV6_MULTICAST_ADDR: &'static str = "ff12::fdec:fc27";

/// Failures of local-network discovery.
#[derive(Debug, Clone, PartialEq, Eq)]
pub enum NetworkError {
    /// A socket operation failed, for this reason.
    Io(String),
    Protocol(ProtocolError),
    /// A datagram was not an encrypted packet.
    Decode,
    NoResponse,
    Timeout,
}

/// The message of a discovery failure.
pub open spec fn spec_network_error_message(e: NetworkError) -> Seq<char> {
    match e {
        NetworkError::Io(m) => "IO error: "@ + m@,
        NetworkError::Protocol(p) => "Protocol error: "@ + spec_protocol_error_message(p),
        NetworkError::Decode => "Decode error: failed to decode Protobuf message"@,
        NetworkError::NoResponse => "No response received"@,
        NetworkError::Timeout => "Timeout"@,
    }
}

impl NetworkError {
    /// The failure's message.
    pub fn message(&self) -> (r: String)
        ensures
            r@ == spec_network_error_message(*self),
    {
        match self {
            NetworkError::Io(m) => {
                let mut s = "IO error: ".to_owned();
                s.append(m.as_str());
                s
            },
            NetworkError::Protocol(p) => {
                let mut s = "Protocol error: ".to_owned();
                let pm = p.message();
                s.append(pm.as_str());
                s
            },
            NetworkError::Decode => "Decode error: failed to decode Protobuf message".to_owned(),
            NetworkError::NoResponse => "No response received".to_owned(),
            NetworkError::Timeout => "Timeout".to_owned(),
        }
    }
}

} // verus!
