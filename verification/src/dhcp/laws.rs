//! Properties that span the functions of the DHCP side: what an assigned
//! lease is later served as, and what the firewall and lease times always
//! guarantee.
use vstd::prelude::*;

use crate::config::DhcpConfig;
use crate::dhcp::addr::{ipv4_of_text, ipv4_text, lemma_ipv4_of_own_text, Ipv4};
use crate::dhcp::error::DhcpError;
use crate::dhcp::firewall::firewall_allows;
use crate::dhcp::lease::{prepared_lease, AssignLeaseInput, DhcpLease};
use crate::dhcp::packet::{
    be32, dns_octets, lease_seconds, nak_bytes, reply_header, response_bytes, response_for_lease,
    response_outcome, target_spec, ParsedDhcpRequest, DHCP_ACK, DHCP_DISCOVER, DHCP_OFFER,
    DHCP_REQUEST,
};
use crate::dhcp::reply::{reply_outcome, DhcpReply};
use crate::dhcp::reply::{asked_address, reply_kind, ReplyKind};
use crate::text::ascii_lower_text;

verus! {

/// A dotted-quad text that names an address is that address's own text.
pub proof fn lemma_ipv4_text_of_parsed(s: Seq<char>)
    requires
        ipv4_of_text(s) is Some,
    ensures
        ipv4_text(ipv4_of_text(s)->0) == s,
{
}

/// An assigned lease is offered: once a static lease has been prepared
/// from `input`, a DISCOVER from a client the firewall admits, answered
/// with that lease, gets an OFFER of the assigned address with the
/// assigned gateway, prefix and DNS servers.
pub proof fn law_assigned_lease_is_offered(
    input: AssignLeaseInput,
    default_secs: u64,
    now: i64,
    lease: DhcpLease,
    c: DhcpConfig,
    req: ParsedDhcpRequest,
    server: Ipv4,
    t: i64,
)
    requires
        prepared_lease(input, default_secs, now, Ok(lease)),
        req.msg_type == DHCP_DISCOVER,
        firewall_allows(c, req.mac@, lease.vmid),
    ensures
        reply_kind(c, req, Some(lease)) == Some(ReplyKind::Answer(DHCP_OFFER)),
        response_for_lease(req, lease, DHCP_OFFER, server, t) == Ok::<Seq<u8>, Seq<char>>(
            response_bytes(
                req,
                ipv4_of_text(input.ip@)->0,
                ipv4_of_text(input.gateway@)->0,
                lease.cidr,
                dns_octets(lease.dns_servers@),
                DHCP_OFFER,
                server,
                lease_seconds(lease.lease_end, t),
            ),
        ),
{
    let ip = ipv4_of_text(input.ip@)->0;
    let gw = ipv4_of_text(input.gateway@)->0;
    lemma_ipv4_of_own_text(ip);
    lemma_ipv4_of_own_text(gw);
}

/// An assigned lease is acknowledged: a REQUEST that asks for the assigned
/// address (or for none), from a client the firewall admits, gets an ACK;
/// one that asks for any other address gets a NAK.
pub proof fn law_assigned_lease_is_acknowledged(
    input: AssignLeaseInput,
    default_secs: u64,
    now: i64,
    lease: DhcpLease,
    c: DhcpConfig,
    req: ParsedDhcpRequest,
)
    requires
        prepared_lease(input, default_secs, now, Ok(lease)),
        req.msg_type == DHCP_REQUEST,
        firewall_allows(c, req.mac@, lease.vmid),
    ensures
        asked_address(req) is None || asked_address(req) == ipv4_of_text(input.ip@) ==> reply_kind(
            c,
            req,
            Some(lease),
        ) == Some(ReplyKind::Answer(DHCP_ACK)),
        asked_address(req) is Some && asked_address(req) != ipv4_of_text(input.ip@) ==> reply_kind(
            c,
            req,
            Some(lease),
        ) == Some(ReplyKind::Nak),
{
    let ip = ipv4_of_text(input.ip@)->0;
    lemma_ipv4_of_own_text(ip);
}

/// With the firewall off (in any ASCII case), every client is admitted.
pub proof fn law_firewall_off_admits_all(c: DhcpConfig, mac: Seq<char>, vmid: Option<u32>)
    requires
        ascii_lower_text(c.firewall_mode@) == "off"@,
    ensures
        firewall_allows(c, mac, vmid),
{
    reveal_strlit("off");
    reveal_strlit("blocklist");
    reveal_strlit("allowlist");
    assert("off"@.len() != "blocklist"@.len());
    assert("off"@.len() != "allowlist"@.len());
}

/// A client whose MAC address is on the deny list is refused in
/// blocklist mode, and one on neither allow list is refused in allowlist
/// mode.
pub proof fn law_firewall_lists(c: DhcpConfig, mac: Seq<char>, vmid: Option<u32>)
    ensures
        ascii_lower_text(c.firewall_mode@) == "blocklist"@ && crate::dhcp::firewall::mac_listed(
            c.firewall_deny_macs@,
            mac,
        ) ==> !firewall_allows(c, mac, vmid),
        ascii_lower_text(c.firewall_mode@) == "allowlist"@ && !crate::dhcp::firewall::mac_listed(
            c.firewall_allow_macs@,
            mac,
        ) && !crate::dhcp::firewall::vmid_listed(c.firewall_allow_vmids@, vmid) ==> !firewall_allows(
            c,
            mac,
            vmid,
        ),
{
    reveal_strlit("blocklist");
    reveal_strlit("allowlist");
    assert("allowlist"@[0] != "blocklist"@[0]);
}

/// Every announced lease time lies between one minute and `u32::MAX` seconds.
pub proof fn law_lease_time_at_least_a_minute(lease_end: i64, now: i64)
    ensures
        lease_seconds(lease_end, now) >= 60,
{
}

/// A client the firewall refuses is never served: a REQUEST from it gets a
/// NAK and any other packet gets nothing.
pub proof fn law_refused_client_is_never_served(
    c: DhcpConfig,
    req: ParsedDhcpRequest,
    lease: Option<DhcpLease>,
)
    requires
        !firewall_allows(
            c,
            req.mac@,
            match lease {
                Some(l) => l.vmid,
                None => None,
            },
        ),
    ensures
        req.msg_type == DHCP_REQUEST ==> reply_kind(c, req, lease) == Some(ReplyKind::Nak),
        req.msg_type != DHCP_REQUEST ==> reply_kind(c, req, lease) == Some(ReplyKind::Silent),
{
}

/// Only a DISCOVER is offered and only a REQUEST is acknowledged or
/// refused; every other message type goes unanswered.
pub proof fn law_answers_match_requests(
    c: DhcpConfig,
    req: ParsedDhcpRequest,
    lease: Option<DhcpLease>,
)
    ensures
        reply_kind(c, req, lease) matches Some(ReplyKind::Answer(t)) ==> (t == DHCP_OFFER
            && req.msg_type == DHCP_DISCOVER) || (t == DHCP_ACK && req.msg_type == DHCP_REQUEST),
        reply_kind(c, req, lease) matches Some(ReplyKind::Nak) ==> req.msg_type == DHCP_REQUEST,
        req.msg_type != DHCP_DISCOVER && req.msg_type != DHCP_REQUEST ==> reply_kind(c, req, lease)
            == Some(ReplyKind::Silent),
{
}

/// The fixed part of every reply is 240 bytes long.
proof fn lemma_reply_header_len(req: ParsedDhcpRequest, yiaddr: Ipv4, server: Ipv4)
    ensures
        reply_header(req, yiaddr, server).len() == 240,
        reply_header(req, yiaddr, server).subrange(236, 240) == seq![99u8, 130u8, 83u8, 99u8],
        reply_header(req, yiaddr, server)[0] == 2u8,
        reply_header(req, yiaddr, server).subrange(16, 20) == seq![
            yiaddr.o0,
            yiaddr.o1,
            yiaddr.o2,
            yiaddr.o3,
        ],
        reply_header(req, yiaddr, server).subrange(20, 24) == seq![
            server.o0,
            server.o1,
            server.o2,
            server.o3,
        ],
        reply_header(req, yiaddr, server).subrange(4, 8) == req.xid@,
        reply_header(req, yiaddr, server).subrange(28, 44) == req.chaddr@,
{
    let h = reply_header(req, yiaddr, server);
    assert(req.xid@.len() == 4);
    assert(req.flags@.len() == 2);
    assert(req.chaddr@.len() == 16);
    assert(h.subrange(236, 240) =~= seq![99u8, 130u8, 83u8, 99u8]);
    assert(h.subrange(16, 20) =~= seq![yiaddr.o0, yiaddr.o1, yiaddr.o2, yiaddr.o3]);
    assert(h.subrange(20, 24) =~= seq![server.o0, server.o1, server.o2, server.o3]);
    assert(h.subrange(4, 8) =~= req.xid@);
    assert(h.subrange(28, 44) =~= req.chaddr@);
}

/// Every OFFER or ACK is a BOOTREPLY that hands out the lease's address,
/// names this server (in `siaddr` and, right after the message type, as
/// option 54), carries the subnet mask next, and ends with the lease time
/// (option 51), the renewal time T1 (option 58, half of it), the rebinding
/// time T2 (option 59) and the end mark. The lease time is the one
/// announced for the lease at time `now`.
pub proof fn law_offer_and_ack_layout(
    req: ParsedDhcpRequest,
    lease: DhcpLease,
    response_type: u8,
    server: Ipv4,
    now: i64,
    r: Result<Vec<u8>, DhcpError>,
)
    requires
        response_outcome(req, lease, response_type, server, now, r),
        r is Ok,
    ensures
        r matches Ok(v) && {
            let b = v@;
            let y = ipv4_of_text(lease.ip@)->0;
            let secs = lease_seconds(lease.lease_end, now);
            let n = b.len();
            &&& ipv4_of_text(lease.ip@) is Some
            &&& ipv4_of_text(lease.gateway@) is Some
            &&& 280 <= n
            &&& b[0] == 2u8
            &&& b.subrange(4, 8) == req.xid@
            &&& b.subrange(16, 20) == seq![y.o0, y.o1, y.o2, y.o3]
            &&& b.subrange(20, 24) == seq![server.o0, server.o1, server.o2, server.o3]
            &&& b.subrange(28, 44) == req.chaddr@
            &&& b.subrange(236, 240) == seq![99u8, 130u8, 83u8, 99u8]
            &&& b.subrange(240, 243) == seq![53u8, 1u8, response_type]
            &&& b.subrange(243, 249) == seq![54u8, 4u8, server.o0, server.o1, server.o2, server.o3]
            &&& b[249] == 1u8 && b[250] == 4u8
            &&& b.subrange(n - 19, n - 13) == seq![51u8, 4u8] + be32(secs)
            &&& b.subrange(n - 13, n - 7) == seq![58u8, 4u8] + be32(secs / 2)
            &&& b[n - 7] == 59u8 && b[n - 6] == 4u8
            &&& b[n - 1] == 255u8
        },
{
    let y = ipv4_of_text(lease.ip@)->0;
    let g = ipv4_of_text(lease.gateway@)->0;
    let secs = lease_seconds(lease.lease_end, now);
    let dns = dns_octets(lease.dns_servers@);
    lemma_reply_header_len(req, y, server);
    let h = reply_header(req, y, server);
    let o53 = crate::dhcp::packet::option_bytes(53, seq![response_type]);
    let o54 = crate::dhcp::packet::option_bytes(54, crate::dhcp::addr::ipv4_octets(server));
    let mask = crate::dhcp::addr::ipv4_octets(
        crate::dhcp::addr::ipv4_of_value(
            crate::dhcp::addr::prefix_mask(
                if lease.cidr > 32 {
                    32nat
                } else {
                    lease.cidr as nat
                },
            ),
        ),
    );
    let o1 = crate::dhcp::packet::option_bytes(1, mask);
    let o3 = crate::dhcp::packet::option_bytes(3, crate::dhcp::addr::ipv4_octets(g));
    let o6 = crate::dhcp::packet::option_bytes(6, dns);
    let o51 = crate::dhcp::packet::option_bytes(51, be32(secs));
    let o58 = crate::dhcp::packet::option_bytes(58, be32(secs / 2));
    let o59 = crate::dhcp::packet::option_bytes(
        59,
        be32(crate::dhcp::packet::saturating_times7(secs) / 8),
    );
    let b = response_bytes(req, y, g, lease.cidr, dns, response_type, server, secs);
    assert(o53 =~= seq![53u8, 1u8, response_type]);
    assert(o54 =~= seq![54u8, 4u8, server.o0, server.o1, server.o2, server.o3]);
    assert(o1 =~= seq![1u8, 4u8] + mask);
    assert(o3.len() == 6);
    assert(o51 =~= seq![51u8, 4u8] + be32(secs));
    assert(o58 =~= seq![58u8, 4u8] + be32(secs / 2));
    assert(o59.len() == 6 && o59[0] == 59u8 && o59[1] == 4u8);
    let tail = o51 + o58 + o59 + seq![255u8];
    assert(b =~= h + o53 + o54 + o1 + (o3 + o6) + tail);
    lemma_segments(h, o53, o54, o1, o3 + o6, tail);
    lemma_tail(o51, o58, o59);
    let n = b.len();
    assert(h.subrange(4, 8) =~= b.subrange(4, 8));
    assert(h.subrange(16, 20) =~= b.subrange(16, 20));
    assert(h.subrange(20, 24) =~= b.subrange(20, 24));
    assert(h.subrange(28, 44) =~= b.subrange(28, 44));
    assert(h.subrange(236, 240) =~= b.subrange(236, 240));
    assert(b.subrange(n - 19, n - 13) =~= tail.subrange(0, 6));
    assert(b.subrange(n - 13, n - 7) =~= tail.subrange(6, 12));
    assert(b[n - 7] == tail[12] && b[n - 6] == tail[13] && b[n - 1] == tail[18]);
}

/// Where the parts of a reply lie within it.
proof fn lemma_segments(h: Seq<u8>, a: Seq<u8>, s: Seq<u8>, m: Seq<u8>, d: Seq<u8>, t: Seq<u8>)
    requires
        h.len() == 240,
        a.len() == 3,
        s.len() == 6,
        m.len() == 6,
        t.len() == 19,
    ensures
        ({
            let b = h + a + s + m + d + t;
            &&& b.len() == 255 + d.len() + 19
            &&& b[0] == h[0]
            &&& forall|i: int| 0 <= i < 240 ==> b[i] == h[i]
            &&& b.subrange(240, 243) == a
            &&& b.subrange(243, 249) == s
            &&& b[249] == m[0] && b[250] == m[1]
            &&& forall|i: int| 0 <= i < 19 ==> b[b.len() - 19 + i] == t[i]
        }),
{
    let p1 = h + a;
    let p2 = p1 + s;
    let p3 = p2 + m;
    let p4 = p3 + d;
    let b = p4 + t;
    assert forall|i: int| 0 <= i < 240 implies b[i] == h[i] by {
        assert(b[i] == p4[i] && p4[i] == p3[i] && p3[i] == p2[i] && p2[i] == p1[i]);
    }
    assert(b[0] == h[0]);
    assert forall|i: int| 0 <= i < 19 implies b[b.len() - 19 + i] == t[i] by {
        assert(b.len() - 19 + i == p4.len() + i);
    }
    assert(b[249] == p3[249] && p3[249] == m[0]);
    assert(b[250] == p3[250] && p3[250] == m[1]);
    assert(b.subrange(240, 243) =~= a) by {
        assert forall|i: int| 240 <= i < 243 implies b[i] == a[i - 240] by {
            assert(b[i] == p4[i] && p4[i] == p3[i] && p3[i] == p2[i] && p2[i] == p1[i]);
        }
    }
    assert(b.subrange(243, 249) =~= s) by {
        assert forall|i: int| 243 <= i < 249 implies b[i] == s[i - 243] by {
            assert(b[i] == p4[i] && p4[i] == p3[i] && p3[i] == p2[i]);
        }
    }
}

/// Where the time options lie within the end of a reply.
proof fn lemma_tail(o51: Seq<u8>, o58: Seq<u8>, o59: Seq<u8>)
    requires
        o51.len() == 6,
        o58.len() == 6,
        o59.len() == 6,
    ensures
        ({
            let t = o51 + o58 + o59 + seq![255u8];
            &&& t.len() == 19
            &&& t.subrange(0, 6) == o51
            &&& t.subrange(6, 12) == o58
            &&& t[12] == o59[0] && t[13] == o59[1]
            &&& t[18] == 255u8
        }),
{
    let t = o51 + o58 + o59 + seq![255u8];
    assert(t.subrange(0, 6) =~= o51);
    assert(t.subrange(6, 12) =~= o58);
}

/// Every NAK is a BOOTREPLY that hands out no address, names this server
/// (in `siaddr` and as option 54), and says why in option 56.
pub proof fn law_nak_layout(req: ParsedDhcpRequest, server: Ipv4, b: Seq<u8>)
    requires
        b == nak_bytes(req, server),
    ensures
        b.len() == 280,
        b[0] == 2u8,
        b.subrange(4, 8) == req.xid@,
        b.subrange(16, 20) == seq![0u8, 0u8, 0u8, 0u8],
        b.subrange(20, 24) == seq![server.o0, server.o1, server.o2, server.o3],
        b.subrange(28, 44) == req.chaddr@,
        b.subrange(240, 243) == seq![53u8, 1u8, 6u8],
        b.subrange(243, 249) == seq![54u8, 4u8, server.o0, server.o1, server.o2, server.o3],
        b.subrange(249, 251) == seq![56u8, 28u8],
        b.subrange(251, 279) == "requested lease is not valid"@.map_values(|c: char| c as u8),
        b[279] == 255u8,
{
    let z = Ipv4 { o0: 0, o1: 0, o2: 0, o3: 0 };
    lemma_reply_header_len(req, z, server);
    let h = reply_header(req, z, server);
    let o53 = crate::dhcp::packet::option_bytes(53, seq![6u8]);
    let o54 = crate::dhcp::packet::option_bytes(54, crate::dhcp::addr::ipv4_octets(server));
    let o56 = crate::dhcp::packet::option_bytes(56, crate::dhcp::packet::nak_message());
    assert(o53 =~= seq![53u8, 1u8, 6u8]);
    assert(o54 =~= seq![54u8, 4u8, server.o0, server.o1, server.o2, server.o3]);
    assert(o56 =~= seq![56u8, 28u8] + crate::dhcp::packet::nak_message());
    assert(b =~= h + o53 + o54 + o56 + seq![255u8]);
    assert(b.subrange(4, 8) =~= h.subrange(4, 8));
    assert(b.subrange(16, 20) =~= h.subrange(16, 20));
    assert(b.subrange(20, 24) =~= h.subrange(20, 24));
    assert(b.subrange(28, 44) =~= h.subrange(28, 44));
    assert(b.subrange(240, 243) =~= o53);
    assert(b.subrange(243, 249) =~= o54);
    assert(b.subrange(249, 251) =~= seq![56u8, 28u8]);
    reveal_strlit("requested lease is not valid");
    assert(b.subrange(251, 279) =~= "requested lease is not valid"@.map_values(|c: char| c as u8));
}

/// The lease time announced is what is left of the lease whenever that is
/// between a minute and `u32::MAX` seconds; it is never more than what is
/// left of a lease that still has a minute or more to run.
pub proof fn law_lease_time_is_time_left(lease_end: i64, now: i64)
    ensures
        60 <= lease_end - now <= u32::MAX ==> lease_seconds(lease_end, now) == lease_end - now,
        lease_end - now >= 60 ==> lease_seconds(lease_end, now) <= lease_end - now,
        lease_end <= now ==> lease_seconds(lease_end, now) == 300,
{
}

/// A REQUEST from an admitted client whose lease is not active is refused
/// with a NAK from this server, sent where replies to that request go.
pub proof fn law_inactive_lease_request_is_naked(
    c: DhcpConfig,
    req: ParsedDhcpRequest,
    l: DhcpLease,
    src: Option<Ipv4>,
    now: i64,
    server: Ipv4,
    r: Result<DhcpReply, DhcpError>,
)
    requires
        firewall_allows(c, req.mac@, l.vmid),
        req.msg_type == DHCP_REQUEST,
        l.state@ != "active"@,
        ipv4_of_text(c.server_ip@) == Some(server),
        reply_outcome(c, req, Some(l), src, now, r),
    ensures
        r matches Ok(DhcpReply::Send { bytes, target }) && bytes@ == nak_bytes(req, server)
            && bytes@.subrange(240, 243) == seq![53u8, 1u8, 6u8] && target == target_spec(req, src),
{
    match r {
        Ok(DhcpReply::Send { bytes, target }) => {
            law_nak_layout(req, server, bytes@);
        },
        _ => {},
    }
}

/// A DISCOVER from an admitted client whose lease is not active, or who has
/// no lease, goes unanswered.
pub proof fn law_discover_without_active_lease_is_silent(
    c: DhcpConfig,
    req: ParsedDhcpRequest,
    lease: Option<DhcpLease>,
    src: Option<Ipv4>,
    now: i64,
    r: Result<DhcpReply, DhcpError>,
)
    requires
        firewall_allows(
            c,
            req.mac@,
            match lease {
                Some(l) => l.vmid,
                None => None,
            },
        ),
        req.msg_type == DHCP_DISCOVER,
        lease matches Some(l) ==> l.state@ != "active"@,
        reply_outcome(c, req, lease, src, now, r),
    ensures
        r matches Ok(DhcpReply::Silent),
{
}

/// In blocklist mode (any ASCII case) a client is refused exactly when its
/// MAC address is on the deny list or its lease belongs to a VMID on the
/// deny list; in allowlist mode it is admitted exactly when its MAC address
/// or its lease's VMID is on an allow list.
pub proof fn law_firewall_lists_decide(c: DhcpConfig, mac: Seq<char>, vmid: Option<u32>)
    ensures
        ascii_lower_text(c.firewall_mode@) == "blocklist"@ ==> (firewall_allows(c, mac, vmid) <==> !(
        (exists|i: int|
            0 <= i < c.firewall_deny_macs@.len() && crate::dhcp::mac::normalized_mac(
                #[trigger] c.firewall_deny_macs@[i]@,
            ) == Some(mac)) || (vmid matches Some(v) && c.firewall_deny_vmids@.contains(v)))),
        ascii_lower_text(c.firewall_mode@) == "allowlist"@ ==> (firewall_allows(c, mac, vmid) <==> (
        (exists|i: int|
            0 <= i < c.firewall_allow_macs@.len() && crate::dhcp::mac::normalized_mac(
                #[trigger] c.firewall_allow_macs@[i]@,
            ) == Some(mac)) || (vmid matches Some(v) && c.firewall_allow_vmids@.contains(v)))),
        ascii_lower_text(c.firewall_mode@) == "blocklist"@ && (vmid matches Some(v)
            && c.firewall_deny_vmids@.contains(v)) ==> !firewall_allows(c, mac, vmid),
{
    reveal_strlit("blocklist");
    reveal_strlit("allowlist");
    assert("allowlist"@[0] != "blocklist"@[0]);
}

} // verus!
