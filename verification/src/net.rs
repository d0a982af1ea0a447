//! Addresses, ports and groups of the discovery and telemetry channels.

use vstd::prelude::*;

verus! {

/// The port of the discovery beacon.
pub const BEACON_PORT: u16 = 11000;

/// The port on which status messages are multicast.
pub const DATA_PORT: u16 = 11001;

/// The port on which the list of available overlays is multicast.
pub const VIS_AD_PORT: u16 = 11002;

/// The group of the discovery beacon over IPv4: 239.1.1.1.
pub const BEACON_GROUP_V4: u32 = 0xEF01_0101;

/// The group of the discovery beacon over IPv6.
pub const BEACON_GROUP_V6: u128 = 0xFF15_0000_0000_0045_5246_6F72_6365_0001;

/// The first of the source-specific groups: site-local scope, and the lowest
/// of the identifiers set aside for one service.
pub const SSM_GROUP_BASE: u128 = 0xFF35_0000_0000_0000_0000_0000_8000_0000;

/// The time between two looks at the interfaces, and the time over which
/// beacons are collected: three seconds.
pub const COLLECTION_WINDOW: u64 = 3_000_000;

/// The largest datagram of the discovery channel.
pub const MAX_BEACON_SIZE: usize = 1024;

/// The largest datagram of a data channel.
pub const MAX_DATAGRAM_SIZE: usize = 65535;

/// An address of either family, as the number that its bytes spell.
#[derive(Clone, Copy, Debug, PartialEq, Eq, Hash)]
pub enum IpAddress {
    V4(u32),
    V6(u128),
}

impl IpAddress {
    /// Whether the address is of the older family.
    pub fn is_ipv4(&self) -> (r: bool)
        ensures
            r == (*self is V4),
    {
        match self {
            IpAddress::V4(_) => true,
            IpAddress::V6(_) => false,
        }
    }

    /// Whether the address is of the newer family.
    pub fn is_ipv6(&self) -> (r: bool)
        ensures
            r == (*self is V6),
    {
        match self {
            IpAddress::V4(_) => false,
            IpAddress::V6(_) => true,
        }
    }

    /// Whether two addresses are the same.
    pub fn same(&self, other: &IpAddress) -> (r: bool)
        ensures
            r == (*self == *other),
    {
        match (self, other) {
            (IpAddress::V4(a), IpAddress::V4(b)) => *a == *b,
            (IpAddress::V6(a), IpAddress::V6(b)) => *a == *b,
            _ => false,
        }
    }
}

/// The address and port of a sender, with the flow label and the scope that
/// the newer family adds.
#[derive(Clone, Copy, Debug, PartialEq, Eq, Hash)]
pub struct SocketAddress {
    pub ip: IpAddress,
    pub port: u16,
    pub flowinfo: u32,
    pub scope_id: u32,
}

impl SocketAddress {
    /// Whether two senders are the same in every part.
    pub fn same(&self, other: &SocketAddress) -> (r: bool)
        ensures
            r == (*self == *other),
    {
        self.ip.same(&other.ip) && self.port == other.port && self.flowinfo == other.flowinfo
            && self.scope_id == other.scope_id
    }
}

/// The source-specific group on which a host sends its data: the base group
/// with the host's control port in the lowest bits. Hosts on one machine thus
/// never share a group, and hosts on different machines that do are told
/// apart by their source address.
pub fn ssm_group_for_port(port: u16) -> (r: u128)
    ensures
        r == SSM_GROUP_BASE + port,
{
    SSM_GROUP_BASE + port as u128
}

} // verus!
