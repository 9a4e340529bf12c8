//! Which clients the DHCP responder serves.
use vstd::prelude::*;

use crate::config::DhcpConfig;
use crate::dhcp::mac::{normalize_mac, normalized_mac};
use crate::text::{ascii_lower_text, chars_of, lowercase_chars, same_chars, same_text};

verus! {

/// Some entry of `list` normalises to `mac`.
pub open spec fn mac_listed(list: Seq<String>, mac: Seq<char>) -> bool {
    exists|i: int| 0 <= i < list.len() && normalized_mac(#[trigger] list[i]@) == Some(mac)
}

/// `vmid` is known and appears in `list`.
pub open spec fn vmid_listed(list: Seq<u32>, vmid: Option<u32>) -> bool {
    vmid matches Some(v) && exists|j: int| 0 <= j < list.len() && list[j] == v
}

/// The firewall decision: `blocklist` refuses listed clients, `allowlist`
/// admits only listed ones, and `off` or any other mode admits everyone.
/// The mode is read without regard to ASCII case.
pub open spec fn firewall_allows(c: DhcpConfig, mac: Seq<char>, vmid: Option<u32>) -> bool {
    let mode = ascii_lower_text(c.firewall_mode@);
    if mode == "blocklist"@ {
        !(mac_listed(c.firewall_deny_macs@, mac) || vmid_listed(c.firewall_deny_vmids@, vmid))
    } else if mode == "allowlist"@ {
        mac_listed(c.firewall_allow_macs@, mac) || vmid_listed(c.firewall_allow_vmids@, vmid)
    } else {
        true
    }
}

fn mac_in_list(list: &Vec<String>, mac: &str) -> (r: bool)
    ensures
        r == mac_listed(list@, mac@),
{
    let mut i: usize = 0;
    while i < list.len()
        invariant
            0 <= i <= list.len(),
            forall|j: int| 0 <= j < i ==> normalized_mac(#[trigger] list@[j]@) != Some(mac@),
        decreases list.len() - i,
    {
        match normalize_mac(list[i].as_str()) {
            Ok(n) => {
                if same_text(n.as_str(), mac) {
                    return true;
                }
            },
            Err(_) => {},
        }
        i = i + 1;
    }
    false
}

fn vmid_in_list(list: &Vec<u32>, vmid: Option<u32>) -> (r: bool)
    ensures
        r == vmid_listed(list@, vmid),
{
    match vmid {
        None => false,
        Some(v) => {
            let mut i: usize = 0;
            while i < list.len()
                invariant
                    0 <= i <= list.len(),
                    vmid == Some(v),
                    forall|j: int| 0 <= j < i ==> list@[j] != v,
                decreases list.len() - i,
            {
                if list[i] == v {
                    assert(list@[i as int] == v);
                    return true;
                }
                i = i + 1;
            }
            false
        },
    }
}

/// Whether the firewall lets the client with `mac` (normalised) and the
/// lease's `vmid` be served.
pub fn host_allowed(config: &DhcpConfig, mac: &str, vmid: Option<u32>) -> (r: bool)
    ensures
        r == firewall_allows(*config, mac@, vmid),
{
    let mode = lowercase_chars(config.firewall_mode.as_str());
    let blocklist = chars_of("blocklist");
    let allowlist = chars_of("allowlist");
    if same_chars(&mode, &blocklist) {
        let blocked = mac_in_list(&config.firewall_deny_macs, mac) || vmid_in_list(
            &config.firewall_deny_vmids,
            vmid,
        );
        !blocked
    } else if same_chars(&mode, &allowlist) {
        mac_in_list(&config.firewall_allow_macs, mac) || vmid_in_list(
            &config.firewall_allow_vmids,
            vmid,
        )
    } else {
        true
    }
}

} // verus!
