//! The BOOTP/DHCP wire format: reading client requests and writing OFFER,
//! ACK and NAK replies.
use vstd::prelude::*;

use crate::dhcp::addr::{
    cidr_to_mask, ipv4_octets, ipv4_of_text, ipv4_of_value, parse_ipv4, prefix_mask, Ipv4,
};
use crate::dhcp::error::DhcpError;
use crate::dhcp::lease::DhcpLease;
use crate::dhcp::mac::{format_mac, mac_text};
use crate::time::now_unix;

verus! {

pub const DHCP_DISCOVER: u8 = 1;

pub const DHCP_OFFER: u8 = 2;

pub const DHCP_REQUEST: u8 = 3;

pub const DHCP_ACK: u8 = 5;

pub const DHCP_NAK: u8 = 6;

pub const DHCP_RELEASE: u8 = 7;

/// The four bytes that open the options area of a DHCP message.
pub open spec fn magic_cookie() -> Seq<u8> {
    seq![99u8, 130u8, 83u8, 99u8]
}

/// The fields of a client request that the server uses.
#[derive(Debug, Clone)]
pub struct ParsedDhcpRequest {
    pub xid: [u8; 4],
    pub flags: [u8; 2],
    pub ciaddr: Ipv4,
    pub giaddr: Ipv4,
    pub chaddr: [u8; 16],
    pub mac: String,
    pub msg_type: u8,
    pub requested_ip: Option<Ipv4>,
}

/// The address in the four bytes of `p` starting at `i`.
pub open spec fn ipv4_at(p: Seq<u8>, i: int) -> Ipv4 {
    Ipv4 { o0: p[i], o1: p[i + 1], o2: p[i + 2], o3: p[i + 3] }
}

/// A BOOTREQUEST over Ethernet with the DHCP magic cookie.
pub open spec fn request_header_ok(p: Seq<u8>) -> bool {
    &&& p.len() >= 240
    &&& p[0] == 1 && p[1] == 1 && p[2] == 6
    &&& p.subrange(236, 240) == magic_cookie()
}

/// Walks the options from `idx` on, keeping the last message type (option
/// 53) and requested address (option 50) seen: pad bytes are skipped, the
/// end option or a truncated option stops the walk.
pub open spec fn option_walk(p: Seq<u8>, idx: nat, msg: Option<u8>, req: Option<Ipv4>) -> (
    Option<u8>,
    Option<Ipv4>,
)
    decreases p.len() - idx,
{
    if idx >= p.len() {
        (msg, req)
    } else {
        let code = p[idx as int];
        if code == 0 {
            option_walk(p, idx + 1, msg, req)
        } else if code == 255 {
            (msg, req)
        } else if idx + 1 >= p.len() {
            (msg, req)
        } else {
            let len = p[(idx + 1) as int] as nat;
            let start = idx + 2;
            if start + len > p.len() {
                (msg, req)
            } else {
                let msg2 = if code == 53 && len >= 1 {
                    Some(p[start as int])
                } else {
                    msg
                };
                let req2 = if code == 50 && len == 4 {
                    Some(ipv4_at(p, start as int))
                } else {
                    req
                };
                option_walk(p, start + len, msg2, req2)
            }
        }
    }
}

/// The message type and requested address carried by the options of `p`.
pub open spec fn request_options(p: Seq<u8>) -> (Option<u8>, Option<Ipv4>) {
    option_walk(p, 240, None, None)
}

/// `p` is accepted as a DHCP client request.
pub open spec fn is_dhcp_request(p: Seq<u8>) -> bool {
    request_header_ok(p) && request_options(p).0 is Some
}

/// `r` holds what the request packet `p` carries.
pub open spec fn request_of_packet(r: ParsedDhcpRequest, p: Seq<u8>) -> bool {
    &&& r.xid@ == p.subrange(4, 8)
    &&& r.flags@ == p.subrange(10, 12)
    &&& r.ciaddr == ipv4_at(p, 12)
    &&& r.giaddr == ipv4_at(p, 24)
    &&& r.chaddr@ == p.subrange(28, 44)
    &&& r.mac@ == mac_text(p.subrange(28, 44))
    &&& Some(r.msg_type) == request_options(p).0
    &&& r.requested_ip == request_options(p).1
}

/// Reads a DHCP client request; `None` for anything else.
pub fn parse_dhcp_request(packet: &[u8]) -> (r: Option<ParsedDhcpRequest>)
    ensures
        r is Some <==> is_dhcp_request(packet@),
        r matches Some(q) ==> request_of_packet(q, packet@),
{
    let ghost p = packet@;
    if packet.len() < 240 {
        return None;
    }
    if packet[0] != 1 || packet[1] != 1 || packet[2] != 6 {
        return None;
    }
    if packet[236] != 99 || packet[237] != 130 || packet[238] != 83 || packet[239] != 99 {
        proof {
            if p.subrange(236, 240) == magic_cookie() {
                assert(p.subrange(236, 240)[0] == p[236]);
                assert(p.subrange(236, 240)[1] == p[237]);
                assert(p.subrange(236, 240)[2] == p[238]);
                assert(p.subrange(236, 240)[3] == p[239]);
            }
        }
        return None;
    }
    assert(p.subrange(236, 240) =~= magic_cookie());
    let chaddr: [u8; 16] = [
        packet[28],
        packet[29],
        packet[30],
        packet[31],
        packet[32],
        packet[33],
        packet[34],
        packet[35],
        packet[36],
        packet[37],
        packet[38],
        packet[39],
        packet[40],
        packet[41],
        packet[42],
        packet[43],
    ];
    assert(chaddr@ =~= p.subrange(28, 44));
    let mac = format_mac(&chaddr);
    let xid: [u8; 4] = [packet[4], packet[5], packet[6], packet[7]];
    assert(xid@ =~= p.subrange(4, 8));
    let flags: [u8; 2] = [packet[10], packet[11]];
    assert(flags@ =~= p.subrange(10, 12));
    let ciaddr = Ipv4::new(packet[12], packet[13], packet[14], packet[15]);
    let giaddr = Ipv4::new(packet[24], packet[25], packet[26], packet[27]);

    let mut idx: usize = 240;
    let mut msg_type: Option<u8> = None;
    let mut requested_ip: Option<Ipv4> = None;
    while idx < packet.len()
        invariant
            240 <= idx <= packet.len(),
            p == packet@,
            request_options(p) == option_walk(p, idx as nat, msg_type, requested_ip),
        decreases packet.len() - idx,
    {
        let code = packet[idx];
        if code == 0 {
            idx = idx + 1;
        } else if code == 255 {
            idx = packet.len();
        } else if idx + 1 >= packet.len() {
            idx = packet.len();
        } else {
            let len = packet[idx + 1] as usize;
            let start = idx + 2;
            if len > packet.len() - start {
                idx = packet.len();
            } else {
                if code == 53 && len >= 1 {
                    msg_type = Some(packet[start]);
                }
                if code == 50 && len == 4 {
                    requested_ip = Some(
                        Ipv4::new(
                            packet[start],
                            packet[start + 1],
                            packet[start + 2],
                            packet[start + 3],
                        ),
                    );
                }
                idx = start + len;
            }
        }
    }
    match msg_type {
        Some(t) => Some(
            ParsedDhcpRequest {
                xid,
                flags,
                ciaddr,
                giaddr,
                chaddr,
                mac,
                msg_type: t,
                requested_ip,
            },
        ),
        None => None,
    }
}


/// The bytes that one option adds: code, length, value; nothing when the
/// value is empty or longer than 255 bytes.
pub open spec fn option_bytes(code: u8, value: Seq<u8>) -> Seq<u8> {
    if value.len() == 0 || value.len() > 255 {
        Seq::empty()
    } else {
        seq![code, value.len() as u8] + value
    }
}

/// Appends the option `code` with `value` to `out`; an empty value or one
/// longer than 255 bytes is left out.
pub fn push_option(out: &mut Vec<u8>, code: u8, value: &[u8])
    ensures
        final(out)@ == old(out)@ + option_bytes(code, value@),
{
    if value.len() == 0 || value.len() > 255 {
        assert(old(out)@ + option_bytes(code, value@) =~= old(out)@);
        return;
    }
    out.push(code);
    out.push(value.len() as u8);
    append_bytes(out, value);
    assert(out@ =~= old(out)@ + option_bytes(code, value@));
}

/// Appends every byte of `b` to `out`.
fn append_bytes(out: &mut Vec<u8>, b: &[u8])
    ensures
        final(out)@ == old(out)@ + b@,
{
    let ghost start = out@;
    let mut i: usize = 0;
    while i < b.len()
        invariant
            0 <= i <= b.len(),
            out@ == start + b@.take(i as int),
        decreases b.len() - i,
    {
        out.push(b[i]);
        i = i + 1;
        assert(b@.take(i as int) =~= b@.take((i - 1) as int).push(b@[i - 1]));
    }
    assert(b@.take(b@.len() as int) =~= b@);
}

/// Appends `n` zero bytes to `out`.
fn append_zeros(out: &mut Vec<u8>, n: usize)
    ensures
        final(out)@ == old(out)@ + Seq::new(n as nat, |i: int| 0u8),
{
    let ghost start = out@;
    let mut i: usize = 0;
    while i < n
        invariant
            0 <= i <= n,
            out@ == start + Seq::new(i as nat, |j: int| 0u8),
        decreases n - i,
    {
        out.push(0);
        i = i + 1;
        assert(Seq::new(i as nat, |j: int| 0u8) =~= Seq::new((i - 1) as nat, |j: int| 0u8).push(0u8));
    }
}

/// The fixed 240-byte part of a server reply to `req`: BOOTREPLY over
/// Ethernet, the client's transaction id, flags, relay agent and hardware
/// address, the offered address `yiaddr`, the server address and the cookie.
pub open spec fn reply_header(req: ParsedDhcpRequest, yiaddr: Ipv4, server: Ipv4) -> Seq<u8> {
    seq![2u8, 1u8, 6u8, 0u8] + req.xid@ + seq![0u8, 0u8] + req.flags@ + seq![0u8, 0u8, 0u8, 0u8]
        + ipv4_octets(yiaddr) + ipv4_octets(server) + ipv4_octets(req.giaddr) + req.chaddr@
        + Seq::new(192, |i: int| 0u8) + magic_cookie()
}

fn push_reply_header(out: &mut Vec<u8>, req: &ParsedDhcpRequest, yiaddr: Ipv4, server: Ipv4)
    requires
        old(out)@.len() == 0,
    ensures
        final(out)@ == reply_header(*req, yiaddr, server),
        final(out)@.len() == 240,
{
    out.push(2);
    out.push(1);
    out.push(6);
    out.push(0);
    append_bytes(out, &req.xid);
    out.push(0);
    out.push(0);
    append_bytes(out, &req.flags);
    append_zeros(out, 4);
    append_bytes(out, &yiaddr.octets());
    append_bytes(out, &server.octets());
    append_bytes(out, &req.giaddr.octets());
    append_bytes(out, &req.chaddr);
    append_zeros(out, 192);
    out.push(99);
    out.push(130);
    out.push(83);
    out.push(99);
    assert(out@ =~= reply_header(*req, yiaddr, server));
}

/// The text of option 56 in a NAK.
pub open spec fn nak_message() -> Seq<u8> {
    seq![
        114u8, 101u8, 113u8, 117u8, 101u8, 115u8, 116u8, 101u8, 100u8, 32u8, 108u8, 101u8, 97u8,
        115u8, 101u8, 32u8, 105u8, 115u8, 32u8, 110u8, 111u8, 116u8, 32u8, 118u8, 97u8, 108u8,
        105u8, 100u8,
    ]
}

/// The bytes of a NAK answering `req` from `server`.
pub open spec fn nak_bytes(req: ParsedDhcpRequest, server: Ipv4) -> Seq<u8> {
    reply_header(req, Ipv4 { o0: 0, o1: 0, o2: 0, o3: 0 }, server) + option_bytes(
        53,
        seq![DHCP_NAK],
    ) + option_bytes(54, ipv4_octets(server)) + option_bytes(56, nak_message()) + seq![255u8]
}

/// A DHCPNAK for `request`, naming `server_ip` as the server.
pub fn build_dhcp_nak_response(request: &ParsedDhcpRequest, server_ip: Ipv4) -> (r: Vec<u8>)
    ensures
        r@ == nak_bytes(*request, server_ip),
        r@.subrange(240, 243) == seq![53u8, 1u8, 6u8],
        r@.subrange(243, 249) == seq![54u8, 4u8, server_ip.o0, server_ip.o1, server_ip.o2, server_ip.o3],
{
    let mut out: Vec<u8> = Vec::new();
    push_reply_header(&mut out, request, Ipv4::unspecified(), server_ip);
    let nak_type: [u8; 1] = [DHCP_NAK];
    push_option(&mut out, 53, &nak_type);
    assert(nak_type@ =~= seq![DHCP_NAK]);
    push_option(&mut out, 54, &server_ip.octets());
    let message: Vec<u8> = vec![
        114, 101, 113, 117, 101, 115, 116, 101, 100, 32, 108, 101, 97, 115, 101, 32, 105, 115, 32,
        110, 111, 116, 32, 118, 97, 108, 105, 100,
    ];
    assert(message@ =~= nak_message());
    push_option(&mut out, 56, message.as_slice());
    out.push(255);
    assert(out@ =~= nak_bytes(*request, server_ip));
    proof {
        crate::dhcp::laws::law_nak_layout(*request, server_ip, out@);
    }
    out
}

/// Seconds of lease to announce: what is left of the lease, 300 when it has
/// ended, never under 60, and 3600 when it does not fit in 32 bits.
pub open spec fn lease_seconds(lease_end: i64, now: i64) -> u32 {
    let left: int = if lease_end > now {
        lease_end - now
    } else {
        300
    };
    let t: int = if left < 60 {
        60
    } else {
        left
    };
    if t <= u32::MAX {
        t as u32
    } else {
        3600u32
    }
}

/// `x` in four bytes, most significant first.
pub open spec fn be32(x: u32) -> Seq<u8> {
    seq![
        (x / 0x100_0000) as u8,
        ((x / 0x1_0000) % 256) as u8,
        ((x / 256) % 256) as u8,
        (x % 256) as u8,
    ]
}

fn be32_bytes(x: u32) -> (r: [u8; 4])
    ensures
        r@ == be32(x),
{
    let r = [(x / 0x100_0000) as u8, ((x / 0x1_0000) % 256) as u8, ((x / 256) % 256) as u8, (x
        % 256) as u8];
    assert(r@ =~= be32(x));
    r
}

/// The octets of the addresses among `dns`, in order; texts that are not
/// addresses are skipped.
pub open spec fn dns_octets(dns: Seq<String>) -> Seq<u8>
    decreases dns.len(),
{
    if dns.len() == 0 {
        Seq::empty()
    } else {
        dns_octets(dns.drop_last()) + match ipv4_of_text(dns.last()@) {
            Some(a) => ipv4_octets(a),
            None => Seq::empty(),
        }
    }
}

/// `x * 7` bounded by `u32::MAX`.
pub open spec fn saturating_times7(x: u32) -> u32 {
    if x * 7 > u32::MAX {
        u32::MAX
    } else {
        (x * 7) as u32
    }
}

/// The bytes of an OFFER or ACK of type `response_type` answering `req`:
/// the header offering `yiaddr`, then message type, server id, subnet
/// mask, router, DNS servers, lease time, renewal (T1 = half) and
/// rebinding (T2 = seven eighths) times, and the end option.
pub open spec fn response_bytes(
    req: ParsedDhcpRequest,
    yiaddr: Ipv4,
    gateway: Ipv4,
    cidr: u8,
    dns: Seq<u8>,
    response_type: u8,
    server: Ipv4,
    secs: u32,
) -> Seq<u8> {
    reply_header(req, yiaddr, server) + option_bytes(53, seq![response_type]) + option_bytes(
        54,
        ipv4_octets(server),
    ) + option_bytes(
        1,
        ipv4_octets(ipv4_of_value(prefix_mask(if cidr > 32 { 32nat } else { cidr as nat }))),
    ) + option_bytes(3, ipv4_octets(gateway)) + option_bytes(6, dns) + option_bytes(51, be32(secs))
        + option_bytes(58, be32(secs / 2)) + option_bytes(59, be32(saturating_times7(secs) / 8))
        + seq![255u8]
}

/// The reply that `build_dhcp_response_at` gives for `lease` at time `now`.
pub open spec fn response_for_lease(
    req: ParsedDhcpRequest,
    lease: DhcpLease,
    response_type: u8,
    server: Ipv4,
    now: i64,
) -> Result<Seq<u8>, Seq<char>> {
    match (ipv4_of_text(lease.ip@), ipv4_of_text(lease.gateway@)) {
        (Some(y), Some(g)) => Ok(
            response_bytes(
                req,
                y,
                g,
                lease.cidr,
                dns_octets(lease.dns_servers@),
                response_type,
                server,
                lease_seconds(lease.lease_end, now),
            ),
        ),
        (None, _) => Err(lease.ip@),
        (Some(_), None) => Err(lease.gateway@),
    }
}

/// The octets of the DNS servers of a lease that parse as addresses.
fn dns_raw(dns: &Vec<String>) -> (r: Vec<u8>)
    ensures
        r@ == dns_octets(dns@),
{
    let mut out: Vec<u8> = Vec::new();
    let mut i: usize = 0;
    while i < dns.len()
        invariant
            0 <= i <= dns.len(),
            out@ == dns_octets(dns@.take(i as int)),
        decreases dns.len() - i,
    {
        let ghost before = out@;
        match parse_ipv4(dns[i].as_str()) {
            Ok(a) => {
                append_bytes(&mut out, &a.octets());
            },
            Err(_) => {},
        }
        i = i + 1;
        assert(dns@.take(i as int).drop_last() =~= dns@.take((i - 1) as int));
        assert(dns@.take(i as int).last() == dns@[i - 1]);
        assert(out@ =~= dns_octets(dns@.take(i as int)));
    }
    assert(dns@.take(dns@.len() as int) =~= dns@);
    out
}

/// `r` is the reply of `response_for_lease`, or the error naming the lease
/// address text that did not parse.
pub open spec fn response_outcome(
    req: ParsedDhcpRequest,
    lease: DhcpLease,
    response_type: u8,
    server: Ipv4,
    now: i64,
    r: Result<Vec<u8>, DhcpError>,
) -> bool {
    match response_for_lease(req, lease, response_type, server, now) {
        Ok(b) => r matches Ok(v) && v@ == b,
        Err(t) => r matches Err(DhcpError::InvalidIpv4(s)) && s@ == t,
    }
}

/// An OFFER or ACK for `request` handing out `lease`, as of time `now`.
pub fn build_dhcp_response_at(
    request: &ParsedDhcpRequest,
    lease: &DhcpLease,
    response_type: u8,
    server_ip: Ipv4,
    now: i64,
) -> (r: Result<Vec<u8>, DhcpError>)
    ensures
        response_outcome(*request, *lease, response_type, server_ip, now, r),
        r matches Ok(v) ==> v@.subrange(240, 243) == seq![53u8, 1u8, response_type]
            && v@.subrange(243, 249) == seq![
            54u8,
            4u8,
            server_ip.o0,
            server_ip.o1,
            server_ip.o2,
            server_ip.o3,
        ],
{
    let yiaddr = match parse_ipv4(lease.ip.as_str()) {
        Ok(a) => a,
        Err(e) => return Err(e),
    };
    let gateway = match parse_ipv4(lease.gateway.as_str()) {
        Ok(a) => a,
        Err(e) => return Err(e),
    };
    let subnet_mask = cidr_to_mask(lease.cidr);

    let left: i128 = if lease.lease_end > now {
        lease.lease_end as i128 - now as i128
    } else {
        300
    };
    let lease_time: i128 = if left < 60 {
        60
    } else {
        left
    };
    let lease_u32: u32 = if lease_time <= 0xffff_ffffi128 {
        lease_time as u32
    } else {
        3600
    };
    let times7: u32 = if lease_u32 > 0xffff_ffffu32 / 7 {
        0xffff_ffffu32
    } else {
        lease_u32 * 7
    };

    let mut out: Vec<u8> = Vec::new();
    push_reply_header(&mut out, request, yiaddr, server_ip);
    let type_byte: [u8; 1] = [response_type];
    assert(type_byte@ =~= seq![response_type]);
    push_option(&mut out, 53, &type_byte);
    push_option(&mut out, 54, &server_ip.octets());
    push_option(&mut out, 1, &subnet_mask.octets());
    push_option(&mut out, 3, &gateway.octets());
    let dns = dns_raw(&lease.dns_servers);
    push_option(&mut out, 6, dns.as_slice());
    push_option(&mut out, 51, &be32_bytes(lease_u32));
    push_option(&mut out, 58, &be32_bytes(lease_u32 / 2));
    push_option(&mut out, 59, &be32_bytes(times7 / 8));
    out.push(255);
    assert(out@ =~= response_bytes(
        *request,
        yiaddr,
        gateway,
        lease.cidr,
        dns_octets(lease.dns_servers@),
        response_type,
        server_ip,
        lease_seconds(lease.lease_end, now),
    ));
    let r = Ok(out);
    proof {
        crate::dhcp::laws::law_offer_and_ack_layout(
            *request,
            *lease,
            response_type,
            server_ip,
            now,
            r,
        );
    }
    r
}

/// An OFFER or ACK for `request` handing out `lease`, as of the current time.
pub fn build_dhcp_response(
    request: &ParsedDhcpRequest,
    lease: &DhcpLease,
    response_type: u8,
    server_ip: Ipv4,
) -> (r: Result<Vec<u8>, DhcpError>)
    ensures
        exists|now: i64|
            now >= 0 && #[trigger] response_outcome(
                *request,
                *lease,
                response_type,
                server_ip,
                now,
                r,
            ),
{
    let now = now_unix();
    build_dhcp_response_at(request, lease, response_type, server_ip, now)
}

/// Where a reply goes.
#[derive(Debug, Clone, Copy, PartialEq, Eq, Structural)]
pub struct DhcpTarget {
    pub ip: Ipv4,
    pub port: u16,
}

/// The destination of a reply: the relay agent (port 67) if there is one,
/// else the client's own address (port 68), else the IPv4 source of the
/// packet when it is set, else the broadcast address.
pub open spec fn target_spec(req: ParsedDhcpRequest, src: Option<Ipv4>) -> DhcpTarget {
    let zero = Ipv4 { o0: 0, o1: 0, o2: 0, o3: 0 };
    if req.giaddr != zero {
        DhcpTarget { ip: req.giaddr, port: 67 }
    } else if req.ciaddr != zero {
        DhcpTarget { ip: req.ciaddr, port: 68 }
    } else if src is Some && src->0 != zero {
        DhcpTarget { ip: src->0, port: 68 }
    } else {
        DhcpTarget { ip: Ipv4 { o0: 255, o1: 255, o2: 255, o3: 255 }, port: 68 }
    }
}

/// Where to send the reply to `request`, which came from `src_ip` (`None`
/// for a source that is not IPv4).
pub fn resolve_dhcp_target(request: &ParsedDhcpRequest, src_ip: Option<Ipv4>) -> (r: DhcpTarget)
    ensures
        r == target_spec(*request, src_ip),
{
    if !request.giaddr.is_unspecified() {
        return DhcpTarget { ip: request.giaddr, port: 67 };
    }
    if !request.ciaddr.is_unspecified() {
        return DhcpTarget { ip: request.ciaddr, port: 68 };
    }
    if let Some(src) = src_ip {
        if !src.is_unspecified() {
            return DhcpTarget { ip: src, port: 68 };
        }
    }
    DhcpTarget { ip: Ipv4::new(255, 255, 255, 255), port: 68 }
}

} // verus!
