//! Bodies of the Proxmox read endpoints.
use vstd::prelude::*;

use crate::proxmox::{ProxmoxNode, ProxmoxVersion};
use crate::text::clone_opt_string;

verus! {

#[derive(Debug, Clone)]
pub struct ErrorResponse {
    pub error: String,
}

#[derive(Debug, Clone)]
pub struct VersionResponse {
    pub version: ApiProxmoxVersion,
}

#[derive(Debug, Clone)]
pub struct NodesResponse {
    pub nodes: Vec<ApiProxmoxNode>,
}

#[derive(Debug, Clone)]
pub struct ApiProxmoxVersion {
    pub version: String,
    pub release: String,
    pub repoid: String,
}

#[derive(Debug, Clone)]
pub struct ApiProxmoxNode {
    pub node: String,
    pub status: Option<String>,
}

/// The body of `GET /proxmox/version`.
pub fn version_response(v: ProxmoxVersion) -> (r: VersionResponse)
    ensures
        r.version.version == v.version,
        r.version.release == v.release,
        r.version.repoid == v.repoid,
{
    VersionResponse {
        version: ApiProxmoxVersion { version: v.version, release: v.release, repoid: v.repoid },
    }
}

/// The body of `GET /proxmox/nodes`: every node with its status, in order.
pub fn nodes_response(nodes: &Vec<ProxmoxNode>) -> (r: NodesResponse)
    ensures
        r.nodes@.len() == nodes@.len(),
        forall|i: int|
            0 <= i < nodes@.len() ==> (#[trigger] r.nodes@[i]).node == nodes@[i].node
                && r.nodes@[i].status == nodes@[i].status,
{
    let mut out: Vec<ApiProxmoxNode> = Vec::new();
    let mut i: usize = 0;
    while i < nodes.len()
        invariant
            0 <= i <= nodes.len(),
            out@.len() == i,
            forall|j: int|
                0 <= j < i ==> (#[trigger] out@[j]).node == nodes@[j].node && out@[j].status
                    == nodes@[j].status,
        decreases nodes.len() - i,
    {
        out.push(
            ApiProxmoxNode {
                node: nodes[i].node.clone(),
                status: clone_opt_string(&nodes[i].status),
            },
        );
        i = i + 1;
    }
    NodesResponse { nodes: out }
}

/// The body of a failed request.
pub fn error_response(message: String) -> (r: ErrorResponse)
    ensures
        r.error == message,
{
    ErrorResponse { error: message }
}

} // verus!
