//! Recognising a Proxmox host.
use vstd::prelude::*;

verus! {

/// A host is a Proxmox host when `/etc/pve` is a directory and `pvesh` is
/// installed in `/usr/bin` or `/bin`, or when `pveversion --verbose` succeeds.
pub fn is_proxmox_host(etc_pve_is_dir: bool, usr_bin_pvesh: bool, bin_pvesh: bool, pveversion_ok: bool) -> (r: bool)
    ensures
        r == ((etc_pve_is_dir && (usr_bin_pvesh || bin_pvesh)) || pveversion_ok),
{
    let has_pve_dirs = etc_pve_is_dir && (usr_bin_pvesh || bin_pvesh);
    has_pve_dirs || pveversion_ok
}

/// Where the bundled noVNC assets are installed.
pub fn novnc_target_dir() -> (r: &'static str)
    ensures
        r@ == "/usr/share/novnc-pve"@,
{
    "/usr/share/novnc-pve"
}

} // verus!
