//! Who a peer is and where it can be reached.

use vstd::prelude::*;

verus! {

/// The identity of a peer: the bytes of the hash of its public key.
#[derive(Debug)]
pub struct PeerId {
    bytes: Vec<u8>,
}

impl View for PeerId {
    type V = Seq<u8>;

    closed spec fn view(&self) -> Seq<u8> {
        self.bytes@
    }
}

impl PeerId {
    /// The identity that `bytes` encodes.
    pub fn from_bytes(bytes: Vec<u8>) -> (id: PeerId)
        ensures
            id@ == bytes@,
    {
        PeerId { bytes }
    }

    /// The bytes that encode this identity.
    pub fn to_bytes(&self) -> (bytes: Vec<u8>)
        ensures
            bytes@ == self@,
    {
        self.bytes.clone()
    }

    /// Whether both identities name the same peer.
    pub fn same_as(&self, other: &PeerId) -> (same: bool)
        ensures
            same == (self@ == other@),
    {
        if self.bytes.len() != other.bytes.len() {
            return false;
        }
        let mut i: usize = 0;
        while i < self.bytes.len()
            invariant
                i <= self.bytes.len(),
                self.bytes.len() == other.bytes.len(),
                forall|j: int| 0 <= j < i ==> self.bytes@[j] == other.bytes@[j],
            decreases self.bytes.len() - i,
        {
            if self.bytes[i] != other.bytes[i] {
                return false;
            }
            i += 1;
        }
        assert(self.bytes@ =~= other.bytes@);
        true
    }
}

impl Clone for PeerId {
    fn clone(&self) -> (id: PeerId)
        ensures
            id@ == self@,
    {
        PeerId { bytes: self.bytes.clone() }
    }
}

/// A network address in its binary form.
#[derive(Debug)]
pub struct Multiaddr {
    bytes: Vec<u8>,
}

impl View for Multiaddr {
    type V = Seq<u8>;

    closed spec fn view(&self) -> Seq<u8> {
        self.bytes@
    }
}

impl Multiaddr {
    /// The address that `bytes` encodes.
    pub fn from_bytes(bytes: Vec<u8>) -> (addr: Multiaddr)
        ensures
            addr@ == bytes@,
    {
        Multiaddr { bytes }
    }

    /// The bytes that encode this address.
    pub fn to_bytes(&self) -> (bytes: Vec<u8>)
        ensures
            bytes@ == self@,
    {
        self.bytes.clone()
    }
}

impl Clone for Multiaddr {
    fn clone(&self) -> (addr: Multiaddr)
        ensures
            addr@ == self@,
    {
        Multiaddr { bytes: self.bytes.clone() }
    }
}

/// Which end of a connection a peer is.
#[derive(Debug, Clone, Copy, PartialEq, Eq, Structural)]
pub enum Endpoint {
    /// The peer that opened the connection.
    Dialer,
    /// The peer that accepted it.
    Listener,
}

/// How the local node came to hold a connection.
#[derive(Debug)]
pub enum ConnectedPoint {
    /// The local node dialed the remote.
    Dialer {
        /// The address that was dialed.
        address: Multiaddr,
        /// The role the local node plays despite having dialed.
        role_override: Endpoint,
    },
    /// The local node accepted the connection.
    Listener {
        /// The local address the connection came in on.
        local_addr: Multiaddr,
        /// The address to reach the remote by.
        send_back_addr: Multiaddr,
    },
}

} // verus!
