//! Bodies of the node endpoints.
use vstd::prelude::*;

use crate::proxmox::NodeStatus;

verus! {

#[derive(Debug, Clone)]
pub struct ErrorResponse {
    pub error: String,
}

#[derive(Debug, Clone)]
pub struct NodeDetailsResponse {
    pub uptime: Option<u64>,
    pub cpus: Option<u32>,
    pub memory: Option<ApiMemory>,
}

#[derive(Debug, Clone)]
pub struct ApiMemory {
    pub total: u64,
    pub used: u64,
    pub available: Option<u64>,
}

/// The body of `GET /nodes/{node}`: the node's uptime, CPU count and
/// memory figures, each present exactly when the status reports it.
pub fn node_details(status: NodeStatus) -> (r: NodeDetailsResponse)
    ensures
        r.uptime == status.uptime,
        r.cpus == (match status.cpuinfo {
            Some(c) => Some(c.cpus),
            None => None,
        }),
        match status.memory {
            Some(m) => r.memory matches Some(a) && a.total == m.total && a.used == m.used
                && a.available == m.available,
            None => r.memory is None,
        },
{
    let memory = match status.memory {
        Some(m) => Some(ApiMemory { total: m.total, used: m.used, available: m.available }),
        None => None,
    };
    let cpus = match status.cpuinfo {
        Some(c) => Some(c.cpus),
        None => None,
    };
    NodeDetailsResponse { uptime: status.uptime, cpus, memory }
}

} // verus!
