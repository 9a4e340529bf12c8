//! Body of the virtual machine listing, joined with the DHCP leases.
use vstd::prelude::*;

use crate::dhcp::lease::DhcpLease;
use crate::proxmox::QemuVM;
use crate::text::clone_opt_string;

verus! {

#[derive(Debug, Clone)]
pub struct ErrorResponse {
    pub error: String,
}

#[derive(Debug, Clone)]
pub struct ServersResponse {
    pub servers: Vec<ApiServer>,
}

#[derive(Debug, Clone)]
pub struct ApiServer {
    pub vmid: u32,
    pub name: String,
    pub node: String,
    pub status: Option<String>,
    pub mem: Option<u64>,
    pub maxmem: Option<u64>,
    pub dhcp: ApiServerDhcpStatus,
}

#[derive(Debug, Clone)]
pub struct ApiServerDhcpStatus {
    pub enabled: bool,
    pub has_lease: bool,
    pub lease_state: Option<String>,
    pub ip: Option<String>,
    pub lease_end: Option<i64>,
}

/// The position of the last lease of `leases` that belongs to `vmid`.
pub open spec fn last_lease_of(leases: Seq<DhcpLease>, vmid: u32) -> Option<int>
    decreases leases.len(),
{
    if leases.len() == 0 {
        None
    } else if leases.last().vmid == Some(vmid) {
        Some(leases.len() - 1)
    } else {
        last_lease_of(leases.drop_last(), vmid)
    }
}

/// `d` reports the lease at `idx` of `leases`, or none.
pub open spec fn reports(d: ApiServerDhcpStatus, leases: Seq<DhcpLease>, idx: Option<int>, enabled: bool) -> bool {
    &&& d.enabled == enabled
    &&& match idx {
        Some(k) => {
            &&& d.has_lease
            &&& d.lease_state == Some(leases[k].state)
            &&& d.ip == Some(leases[k].ip)
            &&& d.lease_end == Some(leases[k].lease_end)
        },
        None => !d.has_lease && d.lease_state is None && d.ip is None && d.lease_end is None,
    }
}

proof fn lemma_last_lease_of(leases: Seq<DhcpLease>, vmid: u32)
    ensures
        last_lease_of(leases, vmid) matches Some(k) ==> 0 <= k < leases.len() && leases[k].vmid
            == Some(vmid),
    decreases leases.len(),
{
    if leases.len() > 0 && leases.last().vmid != Some(vmid) {
        lemma_last_lease_of(leases.drop_last(), vmid);
    }
}

/// The DHCP status of guest `vmid`: the last lease recorded for it.
pub fn server_dhcp_status(leases: &Vec<DhcpLease>, vmid: u32, enabled: bool) -> (r: ApiServerDhcpStatus)
    ensures
        reports(r, leases@, last_lease_of(leases@, vmid), enabled),
{
    let mut i: usize = leases.len();
    assert(leases@.take(i as int) =~= leases@);
    while i > 0
        invariant
            i <= leases.len(),
            last_lease_of(leases@, vmid) == last_lease_of(leases@.take(i as int), vmid),
        decreases i,
    {
        let ghost pre = leases@.take(i as int);
        assert(pre.drop_last() =~= leases@.take(i - 1));
        assert(pre.last() == leases@[i - 1]);
        if leases[i - 1].vmid == Some(vmid) {
            let l = &leases[i - 1];
            return ApiServerDhcpStatus {
                enabled,
                has_lease: true,
                lease_state: Some(l.state.clone()),
                ip: Some(l.ip.clone()),
                lease_end: Some(l.lease_end),
            };
        }
        i = i - 1;
    }
    assert(leases@.take(0) =~= Seq::<DhcpLease>::empty());
    ApiServerDhcpStatus {
        enabled,
        has_lease: false,
        lease_state: None,
        ip: None,
        lease_end: None,
    }
}

/// `s` lists guest `vm` with the DHCP status its last lease gives.
pub open spec fn lists(s: ApiServer, vm: QemuVM, leases: Seq<DhcpLease>, enabled: bool) -> bool {
    &&& s.vmid == vm.vmid
    &&& s.name == vm.name
    &&& s.node == vm.node
    &&& s.status == vm.status
    &&& s.mem == vm.mem
    &&& s.maxmem == vm.maxmem
    &&& reports(s.dhcp, leases, last_lease_of(leases, vm.vmid), enabled)
}

/// The body of `GET /servers`: every guest, in order, with the DHCP status
/// of the last lease recorded for its VMID (`leases` is empty when the
/// DHCP service is disabled).
pub fn servers_response(vms: &Vec<QemuVM>, leases: &Vec<DhcpLease>, dhcp_enabled: bool) -> (r:
    ServersResponse)
    ensures
        r.servers@.len() == vms@.len(),
        forall|i: int|
            0 <= i < vms@.len() ==> lists(#[trigger] r.servers@[i], vms@[i], leases@, dhcp_enabled),
{
    let mut out: Vec<ApiServer> = Vec::new();
    let mut i: usize = 0;
    while i < vms.len()
        invariant
            0 <= i <= vms.len(),
            out@.len() == i,
            forall|j: int| 0 <= j < i ==> lists(#[trigger] out@[j], vms@[j], leases@, dhcp_enabled),
        decreases vms.len() - i,
    {
        let vm = &vms[i];
        out.push(
            ApiServer {
                vmid: vm.vmid,
                name: vm.name.clone(),
                node: vm.node.clone(),
                status: clone_opt_string(&vm.status),
                mem: vm.mem,
                maxmem: vm.maxmem,
                dhcp: server_dhcp_status(leases, vm.vmid, dhcp_enabled),
            },
        );
        i = i + 1;
    }
    ServersResponse { servers: out }
}

} // verus!
