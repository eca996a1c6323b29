//! IP addresses, and networks in CIDR notation.

use vstd::arithmetic::power2::pow2;
use vstd::prelude::*;

verus! {

/// An IP address as a number: the first octet is the most significant one.
#[derive(Debug, Clone, Copy, PartialEq, Eq, Structural)]
pub enum IpAddress {
    V4(u32),
    V6(u128),
}

/// A network: the addresses of the family of `address` whose leading `prefix` bits are its.
#[derive(Debug, Clone, Copy, PartialEq, Eq, Structural)]
pub struct Network {
    pub address: IpAddress,
    pub prefix: u8,
}

/// Whether two numbers of `width` bits agree in their leading `prefix` bits.
pub open spec fn same_leading_bits(a: nat, b: nat, width: nat, prefix: nat) -> bool {
    a / pow2((width - prefix) as nat) == b / pow2((width - prefix) as nat)
}

impl Network {
    /// The prefix is no longer than an address.
    pub open spec fn wf(self) -> bool {
        match self.address {
            IpAddress::V4(_) => self.prefix <= 32,
            IpAddress::V6(_) => self.prefix <= 128,
        }
    }

    /// Whether `ip` is of the network's family and has its leading bits. A network whose
    /// prefix is longer than an address holds none.
    pub open spec fn covers(self, ip: IpAddress) -> bool {
        &&& self.wf()
        &&& match (self.address, ip) {
            (IpAddress::V4(a), IpAddress::V4(b)) => {
                same_leading_bits(a as nat, b as nat, 32, self.prefix as nat)
            },
            (IpAddress::V6(a), IpAddress::V6(b)) => {
                same_leading_bits(a as nat, b as nat, 128, self.prefix as nat)
            },
            _ => false,
        }
    }
}

/// The address that a text denotes, as `FromStr` of std's `IpAddr` reads it.
pub uninterp spec fn ip_address(text: Seq<char>) -> Option<IpAddress>;

/// The network that a text denotes, as `FromStr` of `ipnetwork::IpNetwork` reads it.
pub uninterp spec fn ip_network(text: Seq<char>) -> Option<Network>;

/// Reads an IP address with `str::parse` into std's `IpAddr`: the result is a function of
/// the text alone. (`IpNetwork::new` with an empty prefix, which takes every address, tells
/// the two families apart.)
#[verifier::external_body]
pub(crate) fn parse_ip(text: &str) -> (r: Option<IpAddress>)
    ensures
        r == ip_address(text@),
{
    match ipnetwork::IpNetwork::new(text.parse().ok()?, 0).ok()? {
        ipnetwork::IpNetwork::V4(network) => Some(IpAddress::V4(network.ip().into())),
        ipnetwork::IpNetwork::V6(network) => Some(IpAddress::V6(network.ip().into())),
    }
}

/// Reads a network with `FromStr` of `ipnetwork::IpNetwork`: the result is a function of the
/// text alone, and its prefix is no longer than an address.
#[verifier::external_body]
pub(crate) fn parse_network(text: &str) -> (r: Option<Network>)
    ensures
        r == ip_network(text@),
        r is Some ==> r->0.wf(),
{
    let network = text.parse::<ipnetwork::IpNetwork>().ok()?;
    let address = match network {
        ipnetwork::IpNetwork::V4(v4) => IpAddress::V4(v4.ip().into()),
        ipnetwork::IpNetwork::V6(v6) => IpAddress::V6(v6.ip().into()),
    };
    Some(Network { address, prefix: network.prefix() })
}

/// `ipnetwork::IpNetwork::contains`: whether the address is of the network's family and has
/// its leading bits. `IpNetwork::new` refuses a prefix that is longer than an address.
#[verifier::external_body]
pub(crate) fn network_contains(network: &Network, ip: IpAddress) -> (r: bool)
    ensures
        r == network.covers(ip),
{
    let made = match network.address {
        IpAddress::V4(a) => ipnetwork::IpNetwork::new(a.to_be_bytes().into(), network.prefix),
        IpAddress::V6(a) => ipnetwork::IpNetwork::new(a.to_be_bytes().into(), network.prefix),
    };
    match ip {
        IpAddress::V4(a) => made.map_or(false, |n| n.contains(a.to_be_bytes().into())),
        IpAddress::V6(a) => made.map_or(false, |n| n.contains(a.to_be_bytes().into())),
    }
}

} // verus!
