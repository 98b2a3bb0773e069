//! What the cluster reports about itself, as plain values.

use vstd::prelude::*;

verus! {

/// A 32-byte account address, the identity of a validator.
#[derive(Clone, Copy, Debug)]
pub struct Pubkey {
    pub bytes: [u8; 32],
}

impl Pubkey {
    /// Tells whether two addresses are the same.
    pub fn same_as(&self, other: &Pubkey) -> (same: bool)
        ensures
            same == (*self == *other),
    {
        let mut next: usize = 0;
        while next < 32
            invariant
                next <= 32,
                forall|i: int| 0 <= i < next ==> self.bytes[i] == other.bytes[i],
            decreases 32 - next,
        {
            if self.bytes[next] != other.bytes[next] {
                return false;
            }
            next = next + 1;
        }
        assert(self.bytes =~= other.bytes);
        true
    }
}

/// An address to send to. The IP addresses are the big-endian values of their octets.
#[allow(inconsistent_fields)]
#[derive(Clone, Copy, Debug, PartialEq, Eq, Structural, Hash)]
pub enum SocketAddr {
    V4 { ip: u32, port: u16 },
    V6 { ip: u128, port: u16, flowinfo: u32, scope_id: u32 },
}

impl SocketAddr {
    pub open spec fn spec_port(self) -> u16 {
        match self {
            SocketAddr::V4 { port, .. } => port,
            SocketAddr::V6 { port, .. } => port,
        }
    }

    /// The same address with another port.
    pub open spec fn at_port(self, new_port: u16) -> SocketAddr {
        match self {
            SocketAddr::V4 { ip, .. } => SocketAddr::V4 { ip, port: new_port },
            SocketAddr::V6 { ip, flowinfo, scope_id, .. } => SocketAddr::V6 {
                ip,
                port: new_port,
                flowinfo,
                scope_id,
            },
        }
    }

    pub fn port(&self) -> (port: u16)
        ensures
            port == self.spec_port(),
            port == match *self {
                SocketAddr::V4 { port, .. } => port,
                SocketAddr::V6 { port, .. } => port,
            },
    {
        match *self {
            SocketAddr::V4 { port, .. } => port,
            SocketAddr::V6 { port, .. } => port,
        }
    }

    pub fn set_port(&mut self, new_port: u16)
        ensures
            *final(self) == old(self).at_port(new_port),
            *final(self) == match *old(self) {
                SocketAddr::V4 { ip, .. } => SocketAddr::V4 { ip, port: new_port },
                SocketAddr::V6 { ip, flowinfo, scope_id, .. } => SocketAddr::V6 {
                    ip,
                    port: new_port,
                    flowinfo,
                    scope_id,
                },
            },
    {
        *self = match *self {
            SocketAddr::V4 { ip, .. } => SocketAddr::V4 { ip, port: new_port },
            SocketAddr::V6 { ip, flowinfo, scope_id, .. } => SocketAddr::V6 {
                ip,
                port: new_port,
                flowinfo,
                scope_id,
            },
        };
    }
}

/// The transport over which transactions are sent.
#[derive(Clone, Copy, Debug, PartialEq, Eq, Structural)]
pub enum Protocol {
    UDP,
    QUIC,
}

/// What a node publishes about how to reach it.
#[derive(Debug)]
pub struct RpcContactInfo {
    /// The node's identity, in base 58.
    pub pubkey: String,
    /// Where the node takes transactions over UDP.
    pub tpu: Option<SocketAddr>,
    /// Where the node takes transactions over QUIC.
    pub tpu_quic: Option<SocketAddr>,
}

/// What is read of the cluster's current epoch.
#[derive(Clone, Copy, Debug, PartialEq, Eq, Structural)]
pub struct EpochInfo {
    pub slots_in_epoch: u64,
}

/// A failed request to an RPC node.
#[derive(Debug)]
pub enum ClientError {
    /// The node answered with an error.
    RpcResponse { code: i64, message: String },
    /// The request failed in any other way, described by the text.
    Other(String),
}

/// A notification about the progress of a slot.
#[derive(Clone, Copy, Debug, PartialEq, Eq, Structural)]
pub enum SlotUpdate {
    FirstShredReceived { slot: u64 },
    Completed { slot: u64 },
    CreatedBank { slot: u64 },
    Frozen { slot: u64 },
    Dead { slot: u64 },
    OptimisticConfirmation { slot: u64 },
    Root { slot: u64 },
}

} // verus!
