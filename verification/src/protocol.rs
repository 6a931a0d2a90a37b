//! Protocol masks: which transport protocols a record belongs to, or a tab shows.

use vstd::prelude::*;

verus! {

/// Bit of the TCP protocol in a mask.
pub const TCP_BIT: u8 = 1;

/// Bit of the UDP protocol in a mask.
pub const UDP_BIT: u8 = 2;

/// Which version of IP an address belongs to.
#[derive(Clone, Copy, Debug, PartialEq, Eq, Structural)]
pub enum AddressFamily {
    IPv4,
    IPv6,
}

/// A set of transport protocols, held as a bit mask.
#[derive(Clone, Copy, Debug, PartialEq, Eq, Structural)]
pub struct ProtocolFlags {
    pub bits: u8,
}

impl ProtocolFlags {
    /// Whether the two masks have a protocol in common.
    pub open spec fn spec_intersects(self, other: ProtocolFlags) -> bool {
        self.bits & other.bits != 0
    }

    /// Whether every protocol of `self` is one of `other`.
    pub open spec fn spec_within(self, other: ProtocolFlags) -> bool {
        self.bits | other.bits == other.bits
    }

    /// The mask of TCP alone.
    pub fn tcp() -> (flags: ProtocolFlags)
        ensures
            flags.bits == TCP_BIT,
    {
        ProtocolFlags { bits: TCP_BIT }
    }

    /// The mask of UDP alone.
    pub fn udp() -> (flags: ProtocolFlags)
        ensures
            flags.bits == UDP_BIT,
    {
        ProtocolFlags { bits: UDP_BIT }
    }

    /// The mask of every protocol: TCP and UDP.
    pub fn all() -> (flags: ProtocolFlags)
        ensures
            flags.bits == TCP_BIT | UDP_BIT,
            flags.bits == 3,
    {
        assert(1u8 | 2u8 == 3u8) by (bit_vector);
        ProtocolFlags { bits: TCP_BIT | UDP_BIT }
    }

    /// The protocols of either mask.
    pub fn union(self, other: ProtocolFlags) -> (flags: ProtocolFlags)
        ensures
            flags.bits == self.bits | other.bits,
    {
        ProtocolFlags { bits: self.bits | other.bits }
    }

    /// Whether every protocol of `self` is one of `other`.
    #[verifier::when_used_as_spec(spec_within)]
    pub fn within(self, other: ProtocolFlags) -> (inside: bool)
        ensures
            inside == self.spec_within(other),
    {
        self.bits | other.bits == other.bits
    }

    /// Whether the two masks have a protocol in common.
    #[verifier::when_used_as_spec(spec_intersects)]
    pub fn intersects(self, other: ProtocolFlags) -> (common: bool)
        ensures
            common == self.spec_intersects(other),
    {
        self.bits & other.bits != 0
    }
}

} // verus!
