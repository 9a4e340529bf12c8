//! Bodies and checks of the container endpoints.
use vstd::prelude::*;

use crate::proxmox::LxcContainer;
use crate::text::{clone_opt_string, contains_text, has_infix, is_blank, is_blank_text, owned};

verus! {

#[derive(Debug, Clone)]
pub struct ErrorResponse {
    pub error: String,
}

#[derive(Debug, Clone)]
pub struct ContainersResponse {
    pub containers: Vec<ApiContainer>,
}

#[derive(Debug, Clone)]
pub struct ApiContainer {
    pub vmid: u32,
    pub name: String,
    pub node: String,
    pub status: Option<String>,
    pub mem: Option<u64>,
    pub maxmem: Option<u64>,
}

#[derive(Debug, Clone)]
pub struct SetRootPasswordRequest {
    pub password: String,
}

#[derive(Debug, Clone)]
pub struct SetRootPasswordResponse {
    pub vmid: u32,
    pub node: String,
    pub message: String,
}

/// `a` describes container `c`.
pub open spec fn describes(a: ApiContainer, c: LxcContainer) -> bool {
    &&& a.vmid == c.vmid
    &&& a.name == c.name
    &&& a.node == c.node
    &&& a.status == c.status
    &&& a.mem == c.mem
    &&& a.maxmem == c.maxmem
}

/// The body of `GET /containers`: every container, in order.
pub fn containers_response(containers: &Vec<LxcContainer>) -> (r: ContainersResponse)
    ensures
        r.containers@.len() == containers@.len(),
        forall|i: int|
            0 <= i < containers@.len() ==> describes(#[trigger] r.containers@[i], containers@[i]),
{
    let mut out: Vec<ApiContainer> = Vec::new();
    let mut i: usize = 0;
    while i < containers.len()
        invariant
            0 <= i <= containers.len(),
            out@.len() == i,
            forall|j: int| 0 <= j < i ==> describes(#[trigger] out@[j], containers@[j]),
        decreases containers.len() - i,
    {
        let c = &containers[i];
        out.push(
            ApiContainer {
                vmid: c.vmid,
                name: c.name.clone(),
                node: c.node.clone(),
                status: clone_opt_string(&c.status),
                mem: c.mem,
                maxmem: c.maxmem,
            },
        );
        i = i + 1;
    }
    ContainersResponse { containers: out }
}

/// The refusal of a blank password (400), if the password is blank.
pub fn root_password_error(request: &SetRootPasswordRequest) -> (r: Option<ErrorResponse>)
    ensures
        is_blank_text(request.password@) ==> (r matches Some(e) && e.error@
            == "password cannot be empty"@),
        !is_blank_text(request.password@) ==> r is None,
{
    if is_blank(request.password.as_str()) {
        Some(ErrorResponse { error: owned("password cannot be empty") })
    } else {
        None
    }
}

/// The status of a failed password change: 404 when the message says
/// "not found", else 500.
pub fn map_password_change_error(message: &str) -> (r: u16)
    ensures
        r == if has_infix(message@, "not found"@) {
            404u16
        } else {
            500u16
        },
{
    if contains_text(message, "not found") {
        404
    } else {
        500
    }
}

/// The body of a successful password change.
pub fn root_password_updated(vmid: u32, node: String) -> (r: SetRootPasswordResponse)
    ensures
        r.vmid == vmid,
        r.node == node,
        r.message@ == "root password updated"@,
{
    SetRootPasswordResponse { vmid, node, message: owned("root password updated") }
}

} // verus!
