//! Ping operation: asks for the wire protocol version.
use vstd::prelude::*;
verus! {

/// Native object for a ping: it carries nothing.
#[derive(Copy, Clone, Debug, PartialEq, Eq)]
pub struct Operation;

/// Native object for the result of a ping.
#[derive(Copy, Clone, Debug, PartialEq, Eq)]
pub struct Result {
    /// Major version of the wire protocol.
    pub wire_protocol_version_maj: u8,
    /// Minor version of the wire protocol.
    pub wire_protocol_version_min: u8,
}

} // verus!
