//! Bodies and decisions of the system endpoints.
use vstd::prelude::*;

use crate::config::AppConfig;
use crate::proxmox::ProxmoxVersion;
use crate::text::{dec_text, owned, push_dec, push_text};

verus! {

#[derive(Debug, Clone)]
pub struct HealthResponse {
    pub status: String,
    pub daemon: String,
}

#[derive(Debug, Clone)]
pub struct StatsResponse {
    pub uptime: Option<u64>,
    pub cpus: Option<u32>,
    pub memory: Option<MemoryStats>,
}

#[derive(Debug, Clone)]
pub struct MemoryStats {
    pub total: u64,
    pub used: u64,
    pub available: Option<u64>,
}

#[derive(Debug, Clone)]
pub struct DiagnosticsResponse {
    pub daemon: String,
    pub config_path: String,
    pub api_bind: String,
    pub dhcp_enabled: bool,
    pub is_proxmox_host: bool,
    pub proxmox_version: Option<String>,
    pub proxmox_error: Option<String>,
    pub now_unix: u64,
}

#[derive(Debug, Clone)]
pub struct LogsQuery {
    pub lines: Option<usize>,
}

#[derive(Debug, Clone)]
pub struct LogsResponse {
    pub source: String,
    pub lines: usize,
    pub content: String,
}

#[derive(Debug, Clone)]
pub struct ConfigResponse {
    pub config: AppConfig,
}

#[derive(Debug, Clone)]
pub struct UpdateConfigRequest {
    pub config: AppConfig,
    pub restart: Option<bool>,
}

#[derive(Debug, Clone)]
pub struct ActionResponse {
    pub message: String,
}

#[derive(Debug, Clone)]
pub struct SelfUpdateRequest {
    pub restart: Option<bool>,
}

/// The body of `GET /system/health`.
pub fn health_response(daemon_name: String) -> (r: HealthResponse)
    ensures
        r.status@ == "ok"@,
        r.daemon == daemon_name,
{
    HealthResponse { status: owned("ok"), daemon: daemon_name }
}

/// The body of `GET /system/stats`: nothing is measured.
pub fn stats_response() -> (r: StatsResponse)
    ensures
        r.uptime is None,
        r.cpus is None,
        r.memory is None,
{
    StatsResponse { uptime: None, cpus: None, memory: None }
}

/// The body of `GET /system/diagnostics`: the daemon's settings, whether
/// the host runs Proxmox, and either the Proxmox version or the message of
/// the error that asking for it gave.
pub fn diagnostics_response(
    daemon: String,
    config_path: String,
    api_bind: String,
    dhcp_enabled: bool,
    is_proxmox_host: bool,
    version: Result<ProxmoxVersion, String>,
    now_unix: u64,
) -> (r: DiagnosticsResponse)
    ensures
        r.daemon == daemon,
        r.config_path == config_path,
        r.api_bind == api_bind,
        r.dhcp_enabled == dhcp_enabled,
        r.is_proxmox_host == is_proxmox_host,
        match version {
            Ok(v) => r.proxmox_version == Some(v.version) && r.proxmox_error is None,
            Err(m) => r.proxmox_version is None && r.proxmox_error == Some(m),
        },
        r.now_unix == now_unix,
{
    let (proxmox_version, proxmox_error) = match version {
        Ok(v) => (Some(v.version), None),
        Err(m) => (None, Some(m)),
    };
    DiagnosticsResponse {
        daemon,
        config_path,
        api_bind,
        dhcp_enabled,
        is_proxmox_host,
        proxmox_version,
        proxmox_error,
        now_unix,
    }
}

/// The number of log lines to fetch: 200 by default, kept within 1 to 5000.
pub fn log_line_count(query: &LogsQuery) -> (r: usize)
    ensures
        r == match query.lines {
            None => 200,
            Some(n) => if n < 1 {
                1
            } else if n > 5000 {
                5000
            } else {
                n
            },
        },
        1 <= r <= 5000,
{
    let n = match query.lines {
        Some(n) => n,
        None => 200,
    };
    if n < 1 {
        1
    } else if n > 5000 {
        5000
    } else {
        n
    }
}

/// The arguments of `journalctl -u feathertail -n {lines} --no-pager`.
pub fn journalctl_args(lines: usize) -> (r: Vec<String>)
    ensures
        r@.len() == 5,
        r@[0]@ == "-u"@,
        r@[1]@ == "feathertail"@,
        r@[2]@ == "-n"@,
        r@[3]@ == dec_text(lines as nat),
        r@[4]@ == "--no-pager"@,
{
    let mut v: Vec<String> = Vec::new();
    v.push(owned("-u"));
    v.push(owned("feathertail"));
    v.push(owned("-n"));
    let mut n = String::new();
    push_dec(&mut n, lines as u64);
    assert(n@ =~= dec_text(lines as nat));
    v.push(n);
    v.push(owned("--no-pager"));
    v
}

/// The arguments of `curl -fsSL {url} -o {target}`, the first way a
/// self-update is downloaded.
pub fn curl_args(url: &str, target: &str) -> (r: Vec<String>)
    ensures
        r@.len() == 4,
        r@[0]@ == "-fsSL"@,
        r@[1]@ == url@,
        r@[2]@ == "-o"@,
        r@[3]@ == target@,
{
    let mut v: Vec<String> = Vec::new();
    v.push(owned("-fsSL"));
    v.push(owned(url));
    v.push(owned("-o"));
    v.push(owned(target));
    v
}

/// The arguments of `wget -q -O {target} {url}`, tried when curl fails.
pub fn wget_args(url: &str, target: &str) -> (r: Vec<String>)
    ensures
        r@.len() == 4,
        r@[0]@ == "-q"@,
        r@[1]@ == "-O"@,
        r@[2]@ == target@,
        r@[3]@ == url@,
{
    let mut v: Vec<String> = Vec::new();
    v.push(owned("-q"));
    v.push(owned("-O"));
    v.push(owned(target));
    v.push(owned(url));
    v
}

/// The message when both downloaders failed: `download failed: {stderr}`.
pub fn download_failure(stderr: &str) -> (r: String)
    ensures
        r@ == "download failed: "@ + stderr@,
{
    let mut s = owned("download failed: ");
    push_text(&mut s, stderr);
    s
}

/// The body of `GET /system/logs`.
pub fn logs_response(lines: usize, content: String) -> (r: LogsResponse)
    ensures
        r.source@ == "journalctl -u feathertail"@,
        r.lines == lines,
        r.content == content,
{
    LogsResponse { source: owned("journalctl -u feathertail"), lines, content }
}

/// After a configuration update: whether to schedule a restart (only when
/// asked) and the message to answer.
pub fn config_updated(restart: Option<bool>) -> (r: (bool, ActionResponse))
    ensures
        r.0 == (restart == Some(true)),
        r.0 ==> r.1.message@ == "config updated, restart scheduled"@,
        !r.0 ==> r.1.message@ == "config updated"@,
{
    let go = match restart {
        Some(b) => b,
        None => false,
    };
    if go {
        (true, ActionResponse { message: owned("config updated, restart scheduled") })
    } else {
        (false, ActionResponse { message: owned("config updated") })
    }
}

/// After a self-update: whether to schedule a restart (unless asked not
/// to) and the message to answer.
pub fn update_installed(restart: Option<bool>) -> (r: (bool, ActionResponse))
    ensures
        r.0 == (restart != Some(false)),
        r.0 ==> r.1.message@ == "update installed, restart scheduled"@,
        !r.0 ==> r.1.message@ == "update installed"@,
{
    let go = match restart {
        Some(b) => b,
        None => true,
    };
    if go {
        (true, ActionResponse { message: owned("update installed, restart scheduled") })
    } else {
        (false, ActionResponse { message: owned("update installed") })
    }
}

/// The answer to `POST /system/restart`.
pub fn restart_scheduled() -> (r: ActionResponse)
    ensures
        r.message@ == "restart scheduled"@,
{
    ActionResponse { message: owned("restart scheduled") }
}

} // verus!
