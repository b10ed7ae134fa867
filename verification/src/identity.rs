//! The transport-level origin of a connection.

use vstd::prelude::*;

verus! {

/// The peer address of a connection, held as plain numbers.
///
/// Two identities are equal exactly when every field is equal. An identity
/// tells a session its own messages from everybody else's and has no other
/// use: it is no account, and an address that is used again after a
/// disconnect cannot be told from the earlier one.
#[derive(Clone, Copy, Debug, PartialEq, Eq, Hash, Structural)]
pub enum Identity {
    /// An IPv4 peer: the address as 32 bits in network order, and the port.
    V4 { bits: u32, port: u16 },
    /// An IPv6 peer: the address as 128 bits in network order, the port, the
    /// flow label and the scope.
    V6 { segments: u128, port: u16, flow_info: u32, scope_id: u32 },
}

impl Identity {
    /// The identity of an IPv4 peer.
    pub fn v4(bits: u32, port: u16) -> (id: Identity)
        ensures
            id == (Identity::V4 { bits, port }),
    {
        Identity::V4 { bits, port }
    }

    /// The identity of an IPv6 peer.
    pub fn v6(segments: u128, port: u16, flow_info: u32, scope_id: u32) -> (id: Identity)
        ensures
            id == (Identity::V6 { segments, port, flow_info, scope_id }),
    {
        Identity::V6 { segments, port, flow_info, scope_id }
    }

    /// The peer's port.
    pub open spec fn spec_port(self) -> u16 {
        match self {
            Identity::V4 { port, .. } => port,
            Identity::V6 { port, .. } => port,
        }
    }

    /// The peer's port.
    #[verifier::when_used_as_spec(spec_port)]
    pub fn port(self) -> (p: u16)
        ensures
            p == self.spec_port(),
    {
        match self {
            Identity::V4 { port, .. } => port,
            Identity::V6 { port, .. } => port,
        }
    }

    /// Whether `self` and `other` name the same peer.
    pub fn same_as(self, other: Identity) -> (same: bool)
        ensures
            same == (self == other),
    {
        self == other
    }
}

} // verus!
