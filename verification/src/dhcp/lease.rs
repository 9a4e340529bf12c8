//! Leases: the record the daemon keeps per MAC address, the checks and
//! canonical forms applied when a static lease is assigned, and the
//! stored form of a lease.
use vstd::prelude::*;

use crate::dhcp::addr::{
    effective_cidr_for_gateway_and_ip, effective_cidr_spec, format_ipv4, ipv4_of_text, ipv4_text,
    parse_ipv4,
};
use crate::dhcp::error::DhcpError;
use crate::dhcp::mac::{normalize_mac, normalized_mac};
use crate::text::owned;
use crate::time::now_unix;

verus! {

/// A DHCP lease as stored and served.
#[derive(Debug, Clone)]
pub struct DhcpLease {
    pub mac: String,
    pub ip: String,
    pub hostname: Option<String>,
    pub vmid: Option<u32>,
    pub node: Option<String>,
    pub gateway: String,
    pub cidr: u8,
    pub dns_servers: Vec<String>,
    pub lease_start: i64,
    pub lease_end: i64,
    pub state: String,
    pub static_lease: bool,
}

/// A request to assign a static lease.
#[derive(Debug, Clone)]
pub struct AssignLeaseInput {
    pub mac: String,
    pub ip: String,
    pub hostname: Option<String>,
    pub vmid: Option<u32>,
    pub node: Option<String>,
    pub gateway: String,
    pub cidr: u8,
    pub dns_servers: Vec<String>,
    pub lease_time_secs: Option<u64>,
}

/// The texts of a list of strings.
pub open spec fn texts(v: Seq<String>) -> Seq<Seq<char>> {
    v.map_values(|s: String| s@)
}

/// The DNS server list in canonical dotted-quad form, or the first entry
/// that is not an address.
pub open spec fn canonical_dns(list: Seq<String>) -> Result<Seq<Seq<char>>, Seq<char>>
    decreases list.len(),
{
    if list.len() == 0 {
        Ok(Seq::empty())
    } else {
        match canonical_dns(list.drop_last()) {
            Err(t) => Err(t),
            Ok(prev) => match ipv4_of_text(list.last()@) {
                None => Err(list.last()@),
                Some(a) => Ok(prev.push(ipv4_text(a))),
            },
        }
    }
}

/// The lease length in seconds: the requested one, else the configured
/// default; 86400 when it does not fit in an `i64`.
pub open spec fn lease_duration(requested: Option<u64>, default_secs: u64) -> int {
    let s = match requested {
        Some(s) => s,
        None => default_secs,
    };
    if s <= i64::MAX {
        s as int
    } else {
        86400
    }
}

/// The input of a static lease assignment passes every check: the MAC
/// address, the address and the gateway parse, the prefix length can be
/// reconciled with them, and every DNS server parses.
pub open spec fn input_valid(input: AssignLeaseInput) -> bool {
    &&& normalized_mac(input.mac@) is Some
    &&& ipv4_of_text(input.ip@) is Some
    &&& ipv4_of_text(input.gateway@) is Some
    &&& effective_cidr_spec(ipv4_of_text(input.ip@)->0, ipv4_of_text(input.gateway@)->0, input.cidr)
        is Ok
    &&& canonical_dns(input.dns_servers@) is Ok
}

/// `r` is the refusal of an input that fails a check: the MAC address,
/// then the address, then the gateway are checked, then the prefix length
/// is reconciled with them, then the DNS servers are checked, and the
/// first failure is the error. (False of an input that passes them all.)
pub open spec fn refused_input(input: AssignLeaseInput, r: Result<DhcpLease, DhcpError>) -> bool {
    match normalized_mac(input.mac@) {
        None => r matches Err(DhcpError::InvalidMac(v)) && v@ == input.mac@,
        Some(_) => match ipv4_of_text(input.ip@) {
            None => r matches Err(DhcpError::InvalidIpv4(v)) && v@ == input.ip@,
            Some(ip) => match ipv4_of_text(input.gateway@) {
                None => r matches Err(DhcpError::InvalidIpv4(v)) && v@ == input.gateway@,
                Some(gw) => match effective_cidr_spec(ip, gw, input.cidr) {
                    Err(e) => r == Err::<DhcpLease, DhcpError>(e),
                    Ok(_) => match canonical_dns(input.dns_servers@) {
                        Err(t) => r matches Err(DhcpError::InvalidIpv4(v)) && v@ == t,
                        Ok(_) => false,
                    },
                },
            },
        },
    }
}

/// `l` is the lease that a valid `input` stores at time `now`: the
/// canonical forms of the checked values, starting now, lasting
/// `lease_duration`, active and static.
pub open spec fn lease_of_input(input: AssignLeaseInput, default_secs: u64, now: i64, l: DhcpLease) -> bool {
    let ip = ipv4_of_text(input.ip@)->0;
    let gw = ipv4_of_text(input.gateway@)->0;
    &&& l.mac@ == normalized_mac(input.mac@)->0
    &&& l.ip@ == ipv4_text(ip)
    &&& l.hostname == input.hostname
    &&& l.vmid == input.vmid
    &&& l.node == input.node
    &&& l.gateway@ == ipv4_text(gw)
    &&& effective_cidr_spec(ip, gw, input.cidr) == Ok::<u8, DhcpError>(l.cidr)
    &&& canonical_dns(input.dns_servers@) == Ok::<Seq<Seq<char>>, Seq<char>>(texts(l.dns_servers@))
    &&& l.lease_start == now
    &&& l.lease_end == now + lease_duration(input.lease_time_secs, default_secs)
    &&& l.state@ == "active"@
    &&& l.static_lease
}

/// `r` is the outcome of preparing the static lease `input` at time `now`:
/// the refusal of an input that fails a check, else the lease it stores.
pub open spec fn prepared_lease(
    input: AssignLeaseInput,
    default_secs: u64,
    now: i64,
    r: Result<DhcpLease, DhcpError>,
) -> bool {
    if input_valid(input) {
        r matches Ok(l) && lease_of_input(input, default_secs, now, l)
    } else {
        refused_input(input, r)
    }
}

/// The DNS servers in canonical form.
fn canonical_dns_exec(list: &Vec<String>) -> (r: Result<Vec<String>, DhcpError>)
    ensures
        match canonical_dns(list@) {
            Ok(d) => r matches Ok(v) && texts(v@) == d,
            Err(t) => r matches Err(DhcpError::InvalidIpv4(s)) && s@ == t,
        },
{
    let mut out: Vec<String> = Vec::new();
    let mut i: usize = 0;
    while i < list.len()
        invariant
            0 <= i <= list.len(),
            canonical_dns(list@.take(i as int)) matches Ok(d) && texts(out@) == d,
        decreases list.len() - i,
    {
        let ghost prefix = list@.take((i + 1) as int);
        assert(prefix.drop_last() =~= list@.take(i as int));
        assert(prefix.last() == list@[i as int]);
        match parse_ipv4(list[i].as_str()) {
            Ok(a) => {
                out.push(format_ipv4(a));
                assert(texts(out@) =~= texts(out@.drop_last()).push(out@.last()@));
            },
            Err(e) => {
                proof {
                    let mut k: int = (i + 1) as int;
                    lemma_canonical_dns_error_persists(list@, k);
                }
                return Err(e);
            },
        }
        i = i + 1;
    }
    assert(list@.take(list@.len() as int) =~= list@);
    Ok(out)
}

/// Once a prefix of the list holds an invalid entry, the whole list does.
proof fn lemma_canonical_dns_error_persists(list: Seq<String>, k: int)
    requires
        0 <= k <= list.len(),
        canonical_dns(list.take(k)) is Err,
    ensures
        canonical_dns(list) == canonical_dns(list.take(k)),
    decreases list.len() - k,
{
    if k < list.len() {
        let next = list.take(k + 1);
        assert(next.drop_last() =~= list.take(k));
        lemma_canonical_dns_error_persists(list, k + 1);
    } else {
        assert(list.take(k) =~= list);
    }
}

/// The canonical forms of the checked values of a lease assignment: MAC
/// address, address, gateway, prefix length and DNS servers.
struct CheckedInput {
    mac: String,
    ip: String,
    gateway: String,
    cidr: u8,
    dns_servers: Vec<String>,
}

/// Runs the checks of a lease assignment in order.
fn check_input(input: &AssignLeaseInput) -> (r: Result<CheckedInput, DhcpError>)
    ensures
        r is Ok <==> input_valid(*input),
        r matches Err(e) ==> refused_input(*input, Err(e)),
        r matches Ok(c) ==> {
            let ip = ipv4_of_text(input.ip@)->0;
            let gw = ipv4_of_text(input.gateway@)->0;
            &&& c.mac@ == normalized_mac(input.mac@)->0
            &&& c.ip@ == ipv4_text(ip)
            &&& c.gateway@ == ipv4_text(gw)
            &&& effective_cidr_spec(ip, gw, input.cidr) == Ok::<u8, DhcpError>(c.cidr)
            &&& canonical_dns(input.dns_servers@) == Ok::<Seq<Seq<char>>, Seq<char>>(
                texts(c.dns_servers@),
            )
        },
{
    let mac = match normalize_mac(input.mac.as_str()) {
        Ok(m) => m,
        Err(e) => return Err(e),
    };
    let ip_addr = match parse_ipv4(input.ip.as_str()) {
        Ok(a) => a,
        Err(e) => return Err(e),
    };
    let gateway_addr = match parse_ipv4(input.gateway.as_str()) {
        Ok(a) => a,
        Err(e) => return Err(e),
    };
    let cidr = match effective_cidr_for_gateway_and_ip(ip_addr, gateway_addr, input.cidr) {
        Ok(c) => c,
        Err(e) => return Err(e),
    };
    let gateway = format_ipv4(gateway_addr);
    let dns_servers = match canonical_dns_exec(&input.dns_servers) {
        Ok(d) => d,
        Err(e) => return Err(e),
    };
    let ip = format_ipv4(ip_addr);
    Ok(CheckedInput { mac, ip, gateway, cidr, dns_servers })
}

/// The lease length in seconds as an `i64`.
fn lease_secs(requested: Option<u64>, default_secs: u64) -> (r: i64)
    ensures
        r == lease_duration(requested, default_secs),
{
    let secs = match requested {
        Some(s) => s,
        None => default_secs,
    };
    if secs <= 0x7fff_ffff_ffff_ffffu64 {
        secs as i64
    } else {
        86400
    }
}

/// The lease a checked input stores, starting at `now` and ending at
/// `lease_end`.
fn checked_lease(input: AssignLeaseInput, c: CheckedInput, now: i64, lease_end: i64) -> (r: DhcpLease)
    ensures
        r.mac == c.mac,
        r.ip == c.ip,
        r.hostname == input.hostname,
        r.vmid == input.vmid,
        r.node == input.node,
        r.gateway == c.gateway,
        r.cidr == c.cidr,
        r.dns_servers == c.dns_servers,
        r.lease_start == now,
        r.lease_end == lease_end,
        r.state@ == "active"@,
        r.static_lease,
{
    DhcpLease {
        mac: c.mac,
        ip: c.ip,
        hostname: input.hostname,
        vmid: input.vmid,
        node: input.node,
        gateway: c.gateway,
        cidr: c.cidr,
        dns_servers: c.dns_servers,
        lease_start: now,
        lease_end,
        state: owned("active"),
        static_lease: true,
    }
}

/// Checks a static lease assignment and builds the lease it stores, as of
/// time `now`.
pub fn prepare_static_lease_at(input: AssignLeaseInput, default_lease_secs: u64, now: i64) -> (r:
    Result<DhcpLease, DhcpError>)
    requires
        input_valid(input) ==> now + lease_duration(input.lease_time_secs, default_lease_secs)
            <= i64::MAX,
        input_valid(input) ==> now + lease_duration(input.lease_time_secs, default_lease_secs)
            >= i64::MIN,
    ensures
        prepared_lease(input, default_lease_secs, now, r),
{
    let checked = match check_input(&input) {
        Ok(c) => c,
        Err(e) => return Err(e),
    };
    let duration = lease_secs(input.lease_time_secs, default_lease_secs);
    let lease_end = now + duration;
    Ok(checked_lease(input, checked, now, lease_end))
}

/// `r` is the outcome of preparing `input` when the clock reads `now`: the
/// refusal of an input that fails a check, whatever the clock reads; else
/// `LeaseEndOverflow` when the lease would end after the last
/// representable second; else the lease it stores.
pub open spec fn prepared_lease_now(
    input: AssignLeaseInput,
    default_secs: u64,
    now: i64,
    r: Result<DhcpLease, DhcpError>,
) -> bool {
    if !input_valid(input) {
        refused_input(input, r)
    } else if now + lease_duration(input.lease_time_secs, default_secs) > i64::MAX {
        r matches Err(DhcpError::LeaseEndOverflow)
    } else {
        r matches Ok(l) && lease_of_input(input, default_secs, now, l)
    }
}

/// Checks a static lease assignment and builds the lease it stores, as of
/// the current time. The checks come first; a valid lease that would end
/// after the last representable second is then refused.
pub fn prepare_static_lease(input: AssignLeaseInput, default_lease_secs: u64) -> (r: Result<
    DhcpLease,
    DhcpError,
>)
    ensures
        !input_valid(input) ==> refused_input(input, r),
        exists|now: i64|
            now >= 0 && #[trigger] prepared_lease_now(input, default_lease_secs, now, r),
{
    let ghost given = input;
    let checked = match check_input(&input) {
        Ok(c) => c,
        Err(e) => {
            assert(prepared_lease_now(given, default_lease_secs, 0, Err(e)));
            return Err(e);
        },
    };
    let now = now_unix();
    let duration = lease_secs(input.lease_time_secs, default_lease_secs);
    let r = if now > 0x7fff_ffff_ffff_ffffi64 - duration {
        Err(DhcpError::LeaseEndOverflow)
    } else {
        let lease_end = now + duration;
        Ok(checked_lease(input, checked, now, lease_end))
    };
    assert(prepared_lease_now(given, default_lease_secs, now, r));
    r
}

/// The JSON text that `serde_json::to_string` writes for a list of strings.
pub uninterp spec fn json_text_of_strings(v: Seq<Seq<char>>) -> Seq<char>;

/// The list of strings that `serde_json::from_str` reads from a JSON text,
/// if it reads one.
pub uninterp spec fn json_string_list(text: Seq<char>) -> Option<Seq<Seq<char>>>;

#[verifier::external_type_specification]
#[verifier::external_body]
pub struct ExJsonError(serde_json::Error);

/// `serde_json::to_string` on a list of strings: it succeeds, with the
/// text `json_text_of_strings` of the list. Its documentation names two
/// causes of failure, a `Serialize` impl that fails and a map with
/// non-string keys; a list of strings has neither, and the output is
/// written to a `Vec<u8>`, which never fails to take bytes.
#[verifier::external_body]
fn json_to_string(v: &Vec<String>) -> (r: Result<String, serde_json::Error>)
    ensures
        r is Ok,
        r matches Ok(s) ==> s@ == json_text_of_strings(texts(v@)),
{
    serde_json::to_string(v)
}

/// `serde_json::from_str::<Vec<String>>`: the list read is
/// `json_string_list` of the text, and it is read exactly when that is
/// defined.
#[verifier::external_body]
fn json_from_str(text: &str) -> (r: Option<Vec<String>>)
    ensures
        r is Some <==> json_string_list(text@) is Some,
        r matches Some(v) ==> texts(v@) == json_string_list(text@)->0,
{
    serde_json::from_str::<Vec<String>>(text).ok()
}

/// The stored form of a DNS server list: a JSON array of strings.
pub fn encode_dns_servers(list: &Vec<String>) -> (r: Result<String, DhcpError>)
    ensures
        r matches Ok(s) && s@ == json_text_of_strings(texts(list@)),
{
    match json_to_string(list) {
        Ok(s) => Ok(s),
        Err(_) => Err(DhcpError::DnsEncoding),
    }
}

/// The DNS server list stored as `text`; an empty list when the text is
/// not a JSON array of strings.
pub fn decode_dns_servers(text: &str) -> (r: Vec<String>)
    ensures
        match json_string_list(text@) {
            Some(l) => texts(r@) == l,
            None => r@.len() == 0,
        },
{
    match json_from_str(text) {
        Some(v) => v,
        None => Vec::new(),
    }
}

/// The columns of a stored lease row.
#[derive(Debug, Clone)]
pub struct LeaseRow {
    pub mac: String,
    pub ip: String,
    pub hostname: Option<String>,
    pub vmid: Option<i64>,
    pub node: Option<String>,
    pub gateway: String,
    pub cidr: i64,
    pub dns_servers: String,
    pub lease_start: i64,
    pub lease_end: i64,
    pub state: String,
    pub static_flag: i64,
}

/// The lease a stored row holds: a `vmid` that is not a `u32` is dropped,
/// a `cidr` that is not a `u8` is an error, an unreadable DNS list is
/// empty, and any non-zero flag marks the lease static.
pub fn decode_lease_row(row: LeaseRow) -> (r: Result<DhcpLease, DhcpError>)
    ensures
        !(0 <= row.cidr <= 255) ==> r matches Err(DhcpError::InvalidLeaseCidr),
        0 <= row.cidr <= 255 ==> (r matches Ok(l) && {
            &&& l.mac == row.mac
            &&& l.ip == row.ip
            &&& l.hostname == row.hostname
            &&& l.vmid == (match row.vmid {
                Some(v) => if 0 <= v <= u32::MAX {
                    Some(v as u32)
                } else {
                    None
                },
                None => None,
            })
            &&& l.node == row.node
            &&& l.gateway == row.gateway
            &&& l.cidr == row.cidr
            &&& match json_string_list(row.dns_servers@) {
                Some(d) => texts(l.dns_servers@) == d,
                None => l.dns_servers@.len() == 0,
            }
            &&& l.lease_start == row.lease_start
            &&& l.lease_end == row.lease_end
            &&& l.state == row.state
            &&& l.static_lease == (row.static_flag != 0)
        }),
{
    let vmid = match row.vmid {
        Some(v) => if v >= 0 && v <= 0xffff_ffffi64 {
            Some(v as u32)
        } else {
            None
        },
        None => None,
    };
    if row.cidr < 0 || row.cidr > 255 {
        return Err(DhcpError::InvalidLeaseCidr);
    }
    let dns_servers = decode_dns_servers(row.dns_servers.as_str());
    Ok(
        DhcpLease {
            mac: row.mac,
            ip: row.ip,
            hostname: row.hostname,
            vmid,
            node: row.node,
            gateway: row.gateway,
            cidr: row.cidr as u8,
            dns_servers,
            lease_start: row.lease_start,
            lease_end: row.lease_end,
            state: row.state,
            static_lease: row.static_flag != 0,
        },
    )
}

} // verus!
