//! Bodies and checks of the DHCP lease endpoints.
use vstd::prelude::*;

use crate::dhcp::lease::{AssignLeaseInput, DhcpLease};
use crate::proxmox::QemuIdentity;
use crate::text::{
    clone_opt_string, clone_strings, contains_text, has_infix, is_blank, is_blank_text, owned,
};

verus! {

#[derive(Debug, Clone)]
pub struct ErrorResponse {
    pub error: String,
}

#[derive(Debug, Clone)]
pub struct LeasesResponse {
    pub leases: Vec<ApiLease>,
}

#[derive(Debug, Clone)]
pub struct ApiLease {
    pub mac: String,
    pub ip: String,
    pub hostname: Option<String>,
    pub vmid: Option<u32>,
    pub node: Option<String>,
    pub gateway: String,
    pub cidr: u8,
    pub dns_servers: Vec<String>,
    pub lease_start: i64,
    pub lease_end: i64,
    pub state: String,
    pub static_lease: bool,
}

#[derive(Debug, Clone)]
pub struct AssignLeaseRequest {
    pub vmid: u32,
    pub hostname: String,
    pub ip: String,
    pub gateway: String,
    pub cidr: u8,
    pub dns_servers: Vec<String>,
    pub lease_time_secs: Option<u64>,
}

#[derive(Debug, Clone)]
pub struct AssignLeaseResponse {
    pub lease: ApiLease,
}

#[derive(Debug, Clone)]
pub struct DeleteLeaseResponse {
    pub removed: bool,
}

/// `a` shows lease `l` field for field.
pub open spec fn shows(a: ApiLease, l: DhcpLease) -> bool {
    &&& a.mac == l.mac
    &&& a.ip == l.ip
    &&& a.hostname == l.hostname
    &&& a.vmid == l.vmid
    &&& a.node == l.node
    &&& a.gateway == l.gateway
    &&& a.cidr == l.cidr
    &&& a.dns_servers@ == l.dns_servers@
    &&& a.lease_start == l.lease_start
    &&& a.lease_end == l.lease_end
    &&& a.state == l.state
    &&& a.static_lease == l.static_lease
}

/// The API form of a lease.
pub fn api_lease(l: &DhcpLease) -> (r: ApiLease)
    ensures
        shows(r, *l),
{
    ApiLease {
        mac: l.mac.clone(),
        ip: l.ip.clone(),
        hostname: clone_opt_string(&l.hostname),
        vmid: l.vmid,
        node: clone_opt_string(&l.node),
        gateway: l.gateway.clone(),
        cidr: l.cidr,
        dns_servers: clone_strings(&l.dns_servers),
        lease_start: l.lease_start,
        lease_end: l.lease_end,
        state: l.state.clone(),
        static_lease: l.static_lease,
    }
}

/// The body of `GET /dhcp/leases`: every lease, in the order stored.
pub fn leases_response(leases: &Vec<DhcpLease>) -> (r: LeasesResponse)
    ensures
        r.leases@.len() == leases@.len(),
        forall|i: int| 0 <= i < leases@.len() ==> shows(#[trigger] r.leases@[i], leases@[i]),
{
    let mut out: Vec<ApiLease> = Vec::new();
    let mut i: usize = 0;
    while i < leases.len()
        invariant
            0 <= i <= leases.len(),
            out@.len() == i,
            forall|j: int| 0 <= j < i ==> shows(#[trigger] out@[j], leases@[j]),
        decreases leases.len() - i,
    {
        out.push(api_lease(&leases[i]));
        i = i + 1;
    }
    LeasesResponse { leases: out }
}

/// A request that leaves hostname, address or gateway blank is refused (400).
pub fn assign_request_error(request: &AssignLeaseRequest) -> (r: Option<ErrorResponse>)
    ensures
        (is_blank_text(request.hostname@) || is_blank_text(request.ip@) || is_blank_text(
            request.gateway@,
        )) ==> (r matches Some(e) && e.error@
            == "vmid, hostname, ip, gateway, and cidr are required"@),
        !(is_blank_text(request.hostname@) || is_blank_text(request.ip@) || is_blank_text(
            request.gateway@,
        )) ==> r is None,
{
    if is_blank(request.hostname.as_str()) || is_blank(request.ip.as_str()) || is_blank(
        request.gateway.as_str(),
    ) {
        Some(ErrorResponse { error: owned("vmid, hostname, ip, gateway, and cidr are required") })
    } else {
        None
    }
}

/// The lease assignment a request makes for the guest it names: the
/// guest's MAC address, VMID and node with the requested network settings.
pub fn assign_input(request: AssignLeaseRequest, vm: QemuIdentity) -> (r: AssignLeaseInput)
    ensures
        r.mac == vm.mac,
        r.ip == request.ip,
        r.hostname == Some(request.hostname),
        r.vmid == Some(vm.vmid),
        r.node == Some(vm.node),
        r.gateway == request.gateway,
        r.cidr == request.cidr,
        r.dns_servers == request.dns_servers,
        r.lease_time_secs == request.lease_time_secs,
{
    AssignLeaseInput {
        mac: vm.mac,
        ip: request.ip,
        hostname: Some(request.hostname),
        vmid: Some(vm.vmid),
        node: Some(vm.node),
        gateway: request.gateway,
        cidr: request.cidr,
        dns_servers: request.dns_servers,
        lease_time_secs: request.lease_time_secs,
    }
}

/// The body of a successful assignment.
pub fn assign_lease_response(l: &DhcpLease) -> (r: AssignLeaseResponse)
    ensures
        shows(r.lease, *l),
{
    AssignLeaseResponse { lease: api_lease(l) }
}

/// A failed assignment is the client's fault (400) when its message speaks
/// of an invalid value, a value that must be otherwise, or an address and
/// gateway on different subnets; otherwise it is the server's (500).
pub fn bad_request_or_internal(message: &str) -> (r: u16)
    ensures
        r == if has_infix(message@, "invalid"@) || has_infix(message@, "must be"@) || has_infix(
            message@,
            "not on the same /"@,
        ) || has_infix(message@, "cannot be combined under"@) {
            400u16
        } else {
            500u16
        },
{
    if contains_text(message, "invalid") || contains_text(message, "must be") || contains_text(
        message,
        "not on the same /",
    ) || contains_text(message, "cannot be combined under") {
        400
    } else {
        500
    }
}

/// The refusal when the DHCP service is disabled (503).
pub fn service_disabled_error() -> (r: ErrorResponse)
    ensures
        r.error@ == "dhcp service is disabled in config"@,
{
    ErrorResponse { error: owned("dhcp service is disabled in config") }
}

/// The status of a failed guest lookup: 404 when the message says
/// "not found", else 500.
pub fn map_identity_error(message: &str) -> (r: u16)
    ensures
        r == if has_infix(message@, "not found"@) {
            404u16
        } else {
            500u16
        },
{
    if contains_text(message, "not found") {
        404
    } else {
        500
    }
}

} // verus!
