//! Bodies of the cluster endpoints.
use vstd::prelude::*;

use crate::proxmox::ClusterStatus;
use crate::text::owned;

verus! {

#[derive(Debug, Clone)]
pub struct ErrorResponse {
    pub error: String,
}

#[derive(Debug, Clone)]
pub struct ClusterInfoResponse {
    pub name: String,
    pub nodeid: u32,
}

#[derive(Debug, Clone)]
pub struct ClusterNodesResponse {
    pub nodes: Vec<ApiClusterNode>,
}

#[derive(Debug, Clone)]
pub struct ApiClusterNode {
    pub nodeid: u32,
    pub name: String,
    pub online: Option<u32>,
}

/// The body of `GET /cluster/info`: the cluster's name and node id, or the
/// error (500) that a host outside any cluster gets.
pub fn cluster_info(status: ClusterStatus) -> (r: Result<ClusterInfoResponse, ErrorResponse>)
    ensures
        match status.cluster {
            Some(c) => r matches Ok(info) && info.name == c.name && info.nodeid == c.nodeid,
            None => r matches Err(e) && e.error@ == "cluster information not available"@,
        },
{
    match status.cluster {
        Some(c) => Ok(ClusterInfoResponse { name: c.name, nodeid: c.nodeid }),
        None => Err(ErrorResponse { error: owned("cluster information not available") }),
    }
}

/// The body of `GET /cluster/nodes`: every node of the node list, in order;
/// none when the status has no node list.
pub fn cluster_nodes(status: &ClusterStatus) -> (r: ClusterNodesResponse)
    ensures
        match status.nodelist {
            None => r.nodes@.len() == 0,
            Some(list) => {
                &&& r.nodes@.len() == list@.len()
                &&& forall|i: int|
                    0 <= i < list@.len() ==> {
                        &&& (#[trigger] r.nodes@[i]).nodeid == list@[i].nodeid
                        &&& r.nodes@[i].name == list@[i].name
                        &&& r.nodes@[i].online == list@[i].online
                    }
            },
        },
{
    let mut out: Vec<ApiClusterNode> = Vec::new();
    match &status.nodelist {
        None => {},
        Some(list) => {
            let mut i: usize = 0;
            while i < list.len()
                invariant
                    0 <= i <= list.len(),
                    out@.len() == i,
                    forall|j: int|
                        0 <= j < i ==> {
                            &&& (#[trigger] out@[j]).nodeid == list@[j].nodeid
                            &&& out@[j].name == list@[j].name
                            &&& out@[j].online == list@[j].online
                        },
                decreases list.len() - i,
            {
                out.push(
                    ApiClusterNode {
                        nodeid: list[i].nodeid,
                        name: list[i].name.clone(),
                        online: list[i].online,
                    },
                );
                i = i + 1;
            }
        },
    }
    ClusterNodesResponse { nodes: out }
}

} // verus!
