use vstd::prelude::*;

use crate::dhcp::addr::{ipv4_text, push_ipv4, Ipv4};
use crate::text::{dec_text, owned, push_dec, push_text};

verus! {

/// The ways in which DHCP lease data or a DHCP exchange can be rejected.
#[derive(Debug)]
pub enum DhcpError {
    /// The text does not hold exactly twelve hexadecimal digits.
    InvalidMac(String),
    /// The text is not an IPv4 address in dotted-quad notation.
    InvalidIpv4(String),
    /// A prefix length above 32.
    CidrOutOfRange,
    /// Address and gateway share a network only under a shorter prefix.
    SubnetMismatch { ip: Ipv4, gateway: Ipv4, requested: u8, largest_below: u8 },
    /// Address and gateway share no network under any prefix of at least one bit.
    SubnetUncombinable { ip: Ipv4, gateway: Ipv4, requested: u8 },
    /// A stored lease row holds a prefix length that is not a `u8`.
    InvalidLeaseCidr,
    /// The DNS server list could not be encoded as JSON.
    DnsEncoding,
    /// The lease would end after the last representable second.
    LeaseEndOverflow,
}

/// The message of an error.
pub open spec fn error_message(e: DhcpError) -> Seq<char> {
    match e {
        DhcpError::InvalidMac(v) => "invalid mac address: "@ + v@,
        DhcpError::InvalidIpv4(_) => "invalid IPv4 address syntax"@,
        DhcpError::CidrOutOfRange => "cidr must be between 0 and 32"@,
        DhcpError::SubnetMismatch { ip, gateway, requested, largest_below } => "ip "@ + ipv4_text(
            ip,
        ) + " and gateway "@ + ipv4_text(gateway) + " are not on the same /"@ + dec_text(
            requested as nat,
        ) + " subnet; shortest shared network under your mask is /"@ + dec_text(
            largest_below as nat,
        ) + " (try \"cidr\": "@ + dec_text(largest_below as nat) + ")"@,
        DhcpError::SubnetUncombinable { ip, gateway, requested } => "ip "@ + ipv4_text(ip)
            + " and gateway "@ + ipv4_text(gateway) + " cannot be combined under /"@ + dec_text(
            requested as nat,
        ) + "; check addresses"@,
        DhcpError::InvalidLeaseCidr => "invalid cidr in lease row"@,
        DhcpError::DnsEncoding => "dns server list could not be encoded as json"@,
        DhcpError::LeaseEndOverflow => "lease end is out of range"@,
    }
}

impl DhcpError {
    /// The human-readable message of the error.
    pub fn message(&self) -> (r: String)
        ensures
            r@ == error_message(*self),
    {
        match self {
            DhcpError::InvalidMac(v) => {
                let mut s = owned("invalid mac address: ");
                push_text(&mut s, v.as_str());
                s
            },
            DhcpError::InvalidIpv4(_) => owned("invalid IPv4 address syntax"),
            DhcpError::CidrOutOfRange => owned("cidr must be between 0 and 32"),
            DhcpError::SubnetMismatch { ip, gateway, requested, largest_below } => {
                let mut s = owned("ip ");
                push_ipv4(&mut s, *ip);
                push_text(&mut s, " and gateway ");
                push_ipv4(&mut s, *gateway);
                push_text(&mut s, " are not on the same /");
                push_dec(&mut s, *requested as u64);
                push_text(&mut s, " subnet; shortest shared network under your mask is /");
                push_dec(&mut s, *largest_below as u64);
                push_text(&mut s, " (try \"cidr\": ");
                push_dec(&mut s, *largest_below as u64);
                push_text(&mut s, ")");
                s
            },
            DhcpError::SubnetUncombinable { ip, gateway, requested } => {
                let mut s = owned("ip ");
                push_ipv4(&mut s, *ip);
                push_text(&mut s, " and gateway ");
                push_ipv4(&mut s, *gateway);
                push_text(&mut s, " cannot be combined under /");
                push_dec(&mut s, *requested as u64);
                push_text(&mut s, "; check addresses");
                s
            },
            DhcpError::InvalidLeaseCidr => owned("invalid cidr in lease row"),
            DhcpError::DnsEncoding => owned("dns server list could not be encoded as json"),
            DhcpError::LeaseEndOverflow => owned("lease end is out of range"),
        }
    }
}

} // verus!
