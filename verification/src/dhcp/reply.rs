//! The decisions of the DHCP responder: what a received packet asks of the
//! lease store, and which reply, if any, answers it.
use vstd::prelude::*;

use crate::config::DhcpConfig;
use crate::dhcp::addr::{ipv4_of_text, parse_ipv4, Ipv4};
use crate::dhcp::error::DhcpError;
use crate::dhcp::firewall::{firewall_allows, host_allowed};
use crate::dhcp::lease::DhcpLease;
use crate::dhcp::mac::mac_text;
use crate::dhcp::packet::{
    build_dhcp_nak_response, build_dhcp_response_at, is_dhcp_request, nak_bytes,
    parse_dhcp_request, request_of_packet, request_options, resolve_dhcp_target, response_for_lease, target_spec,
    ParsedDhcpRequest, DhcpTarget, DHCP_ACK, DHCP_DISCOVER, DHCP_OFFER, DHCP_RELEASE, DHCP_REQUEST,
};
use crate::text::same_text;
use crate::time::now_unix;

verus! {

/// What a received packet calls for.
#[derive(Debug)]
pub enum PacketPlan {
    /// Not a DHCP client request: drop it.
    Ignore,
    /// A RELEASE: mark the lease of this MAC address released.
    Release(String),
    /// Any other request: look up the lease of its MAC address, then reply.
    Lookup(ParsedDhcpRequest),
}

/// Sorts a received packet into the three plans.
pub fn plan_dhcp_packet(packet: &[u8]) -> (r: PacketPlan)
    ensures
        !is_dhcp_request(packet@) ==> r is Ignore,
        is_dhcp_request(packet@) ==> match r {
            PacketPlan::Release(mac) => mac@ == mac_text(packet@.subrange(28, 44))
                && request_options(packet@).0 == Some(DHCP_RELEASE),
            PacketPlan::Lookup(q) => request_of_packet(q, packet@) && q.msg_type != DHCP_RELEASE,
            PacketPlan::Ignore => false,
        },
{
    match parse_dhcp_request(packet) {
        None => PacketPlan::Ignore,
        Some(request) => {
            if request.msg_type == DHCP_RELEASE {
                PacketPlan::Release(request.mac)
            } else {
                PacketPlan::Lookup(request)
            }
        },
    }
}

/// A reply decided for a request.
#[derive(Debug)]
pub enum DhcpReply {
    /// Send nothing.
    Silent,
    /// Send `bytes` to `target`.
    Send { bytes: Vec<u8>, target: DhcpTarget },
}

/// The kinds of reply.
pub enum ReplyKind {
    Silent,
    Nak,
    Answer(u8),
}

/// The address a REQUEST asks for: option 50, else `ciaddr` when set.
pub open spec fn asked_address(req: ParsedDhcpRequest) -> Option<Ipv4> {
    if req.requested_ip is Some {
        req.requested_ip
    } else if req.ciaddr != (Ipv4 { o0: 0, o1: 0, o2: 0, o3: 0 }) {
        Some(req.ciaddr)
    } else {
        None
    }
}

/// Which reply answers `req` given the lease found for its MAC address;
/// `None` when the lease's own address is not a valid address.
///
/// A client the firewall refuses gets a NAK for a REQUEST and nothing else.
/// A DISCOVER gets an OFFER when its lease is active. A REQUEST gets a NAK
/// when there is no lease, the lease is not active, or it asks for another
/// address than the lease's; otherwise an ACK. Other types get nothing.
pub open spec fn reply_kind(c: DhcpConfig, req: ParsedDhcpRequest, lease: Option<DhcpLease>) -> Option<
    ReplyKind,
> {
    let vmid = match lease {
        Some(l) => l.vmid,
        None => None,
    };
    if !firewall_allows(c, req.mac@, vmid) {
        if req.msg_type == DHCP_REQUEST {
            Some(ReplyKind::Nak)
        } else {
            Some(ReplyKind::Silent)
        }
    } else if req.msg_type == DHCP_REQUEST {
        match lease {
            None => Some(ReplyKind::Nak),
            Some(l) => if l.state@ != "active"@ {
                Some(ReplyKind::Nak)
            } else {
                match ipv4_of_text(l.ip@) {
                    None => None,
                    Some(expected) => match asked_address(req) {
                        Some(asked) => if asked != expected {
                            Some(ReplyKind::Nak)
                        } else {
                            Some(ReplyKind::Answer(DHCP_ACK))
                        },
                        None => Some(ReplyKind::Answer(DHCP_ACK)),
                    },
                }
            },
        }
    } else if req.msg_type == DHCP_DISCOVER {
        match lease {
            None => Some(ReplyKind::Silent),
            Some(l) => if l.state@ != "active"@ {
                Some(ReplyKind::Silent)
            } else {
                Some(ReplyKind::Answer(DHCP_OFFER))
            },
        }
    } else {
        Some(ReplyKind::Silent)
    }
}

/// `r` is the outcome of answering `req` (from `src`) with `lease` at time
/// `now`: the reply of `reply_kind`, sent to `target_spec`, or the error
/// naming the address text that did not parse (the configured server
/// address first, then the lease's).
pub open spec fn reply_outcome(
    c: DhcpConfig,
    req: ParsedDhcpRequest,
    lease: Option<DhcpLease>,
    src: Option<Ipv4>,
    now: i64,
    r: Result<DhcpReply, DhcpError>,
) -> bool {
    match reply_kind(c, req, lease) {
        None => r matches Err(DhcpError::InvalidIpv4(s)) && s@ == lease->0.ip@,
        Some(ReplyKind::Silent) => r matches Ok(DhcpReply::Silent),
        Some(ReplyKind::Nak) => match ipv4_of_text(c.server_ip@) {
            None => r matches Err(DhcpError::InvalidIpv4(s)) && s@ == c.server_ip@,
            Some(server) => r matches Ok(DhcpReply::Send { bytes, target }) && bytes@ == nak_bytes(
                req,
                server,
            ) && target == target_spec(req, src),
        },
        Some(ReplyKind::Answer(t)) => match ipv4_of_text(c.server_ip@) {
            None => r matches Err(DhcpError::InvalidIpv4(s)) && s@ == c.server_ip@,
            Some(server) => match response_for_lease(req, lease->0, t, server, now) {
                Ok(b) => r matches Ok(DhcpReply::Send { bytes, target }) && bytes@ == b && target
                    == target_spec(req, src),
                Err(text) => r matches Err(DhcpError::InvalidIpv4(s)) && s@ == text,
            },
        },
    }
}

fn nak_reply(config: &DhcpConfig, request: &ParsedDhcpRequest, src_ip: Option<Ipv4>) -> (r: Result<
    DhcpReply,
    DhcpError,
>)
    ensures
        match ipv4_of_text(config.server_ip@) {
            None => r matches Err(DhcpError::InvalidIpv4(s)) && s@ == config.server_ip@,
            Some(server) => r matches Ok(DhcpReply::Send { bytes, target }) && bytes@ == nak_bytes(
                *request,
                server,
            ) && target == target_spec(*request, src_ip),
        },
{
    let server = match parse_ipv4(config.server_ip.as_str()) {
        Ok(a) => a,
        Err(e) => return Err(e),
    };
    let bytes = build_dhcp_nak_response(request, server);
    Ok(DhcpReply::Send { bytes, target: resolve_dhcp_target(request, src_ip) })
}

/// Answers `request` (received from `src_ip`), given the lease found for
/// its MAC address and the time `now`.
pub fn dhcp_reply_at(
    config: &DhcpConfig,
    request: &ParsedDhcpRequest,
    lease: &Option<DhcpLease>,
    src_ip: Option<Ipv4>,
    now: i64,
) -> (r: Result<DhcpReply, DhcpError>)
    ensures
        reply_outcome(*config, *request, *lease, src_ip, now, r),
{
    let lease_vmid = match lease {
        Some(l) => l.vmid,
        None => None,
    };
    if !host_allowed(config, request.mac.as_str(), lease_vmid) {
        if request.msg_type == DHCP_REQUEST {
            return nak_reply(config, request, src_ip);
        }
        return Ok(DhcpReply::Silent);
    }
    let response_type = if request.msg_type == DHCP_DISCOVER {
        DHCP_OFFER
    } else if request.msg_type == DHCP_REQUEST {
        DHCP_ACK
    } else {
        return Ok(DhcpReply::Silent);
    };
    let found = match lease {
        None => {
            if request.msg_type == DHCP_REQUEST {
                return nak_reply(config, request, src_ip);
            }
            return Ok(DhcpReply::Silent);
        },
        Some(l) => l,
    };
    if !same_text(found.state.as_str(), "active") {
        if request.msg_type == DHCP_REQUEST {
            return nak_reply(config, request, src_ip);
        }
        return Ok(DhcpReply::Silent);
    }
    if request.msg_type == DHCP_REQUEST {
        let expected = match parse_ipv4(found.ip.as_str()) {
            Ok(a) => a,
            Err(e) => return Err(e),
        };
        let asked = match request.requested_ip {
            Some(a) => Some(a),
            None => if !request.ciaddr.is_unspecified() {
                Some(request.ciaddr)
            } else {
                None
            },
        };
        if let Some(a) = asked {
            if a != expected {
                return nak_reply(config, request, src_ip);
            }
        }
    }
    let server = match parse_ipv4(config.server_ip.as_str()) {
        Ok(a) => a,
        Err(e) => return Err(e),
    };
    let bytes = match build_dhcp_response_at(request, found, response_type, server, now) {
        Ok(b) => b,
        Err(e) => return Err(e),
    };
    Ok(DhcpReply::Send { bytes, target: resolve_dhcp_target(request, src_ip) })
}

/// Answers `request` (received from `src_ip`), given the lease found for
/// its MAC address, at the current time.
pub fn dhcp_reply(
    config: &DhcpConfig,
    request: &ParsedDhcpRequest,
    lease: &Option<DhcpLease>,
    src_ip: Option<Ipv4>,
) -> (r: Result<DhcpReply, DhcpError>)
    ensures
        exists|now: i64| now >= 0 && reply_outcome(*config, *request, *lease, src_ip, now, r),
{
    let now = now_unix();
    dhcp_reply_at(config, request, lease, src_ip, now)
}

} // verus!
