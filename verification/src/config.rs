//! The daemon's configuration, with the defaults used for absent sections
//! and fields.
use vstd::prelude::*;

use crate::text::owned;

verus! {

/// The whole configuration file.
#[derive(Debug, Clone)]
pub struct AppConfig {
    pub daemon: DaemonConfig,
    pub proxmox: ProxmoxConfig,
    pub api: ApiConfig,
    pub auth: AuthConfig,
    pub dhcp: DhcpConfig,
}

/// `[daemon]`: identity, polling period and log level.
#[derive(Debug, Clone)]
pub struct DaemonConfig {
    pub name: String,
    pub poll_interval_secs: u64,
    pub log_level: String,
}

/// `[proxmox]`: the `pvesh` binary to run.
#[derive(Debug, Clone)]
pub struct ProxmoxConfig {
    pub pvesh_bin: String,
}

/// `[api]`: where the HTTP API listens.
#[derive(Debug, Clone)]
pub struct ApiConfig {
    pub bind: String,
}

/// `[auth]`: the bearer token the API expects.
#[derive(Debug, Clone)]
pub struct AuthConfig {
    pub api_token: String,
}

/// `[dhcp]`: the DHCP responder, its lease database and its firewall.
#[derive(Debug, Clone)]
pub struct DhcpConfig {
    pub enabled: bool,
    pub bind: String,
    pub server_ip: String,
    pub lease_time_secs: u64,
    pub database_path: String,
    pub firewall_mode: String,
    pub firewall_allow_macs: Vec<String>,
    pub firewall_deny_macs: Vec<String>,
    pub firewall_allow_vmids: Vec<u32>,
    pub firewall_deny_vmids: Vec<u32>,
}

pub fn default_daemon_name() -> (r: String)
    ensures
        r@ == "feathertail-proxmox"@,
{
    owned("feathertail-proxmox")
}

pub fn default_poll_interval() -> (r: u64)
    ensures
        r == 15,
{
    15
}

pub fn default_log_level() -> (r: String)
    ensures
        r@ == "info"@,
{
    owned("info")
}

pub fn default_pvesh_bin() -> (r: String)
    ensures
        r@ == "pvesh"@,
{
    owned("pvesh")
}

pub fn default_api_bind() -> (r: String)
    ensures
        r@ == "127.0.0.1:8686"@,
{
    owned("127.0.0.1:8686")
}

pub fn default_api_token() -> (r: String)
    ensures
        r@ == "change-me"@,
{
    owned("change-me")
}

pub fn default_dhcp_bind() -> (r: String)
    ensures
        r@ == "0.0.0.0:67"@,
{
    owned("0.0.0.0:67")
}

pub fn default_dhcp_server_ip() -> (r: String)
    ensures
        r@ == "10.0.0.1"@,
{
    owned("10.0.0.1")
}

pub fn default_dhcp_lease_time() -> (r: u64)
    ensures
        r == 86400,
{
    86400
}

pub fn default_dhcp_database_path() -> (r: String)
    ensures
        r@ == "/var/lib/feathertail/dhcp.sqlite3"@,
{
    owned("/var/lib/feathertail/dhcp.sqlite3")
}

pub fn default_firewall_mode() -> (r: String)
    ensures
        r@ == "off"@,
{
    owned("off")
}

/// The defaults of `[daemon]`.
pub open spec fn is_default_daemon(c: DaemonConfig) -> bool {
    &&& c.name@ == "feathertail-proxmox"@
    &&& c.poll_interval_secs == 15
    &&& c.log_level@ == "info"@
}

/// The defaults of `[dhcp]`.
pub open spec fn is_default_dhcp(c: DhcpConfig) -> bool {
    &&& c.enabled
    &&& c.bind@ == "0.0.0.0:67"@
    &&& c.server_ip@ == "10.0.0.1"@
    &&& c.lease_time_secs == 86400
    &&& c.database_path@ == "/var/lib/feathertail/dhcp.sqlite3"@
    &&& c.firewall_mode@ == "off"@
    &&& c.firewall_allow_macs@.len() == 0
    &&& c.firewall_deny_macs@.len() == 0
    &&& c.firewall_allow_vmids@.len() == 0
    &&& c.firewall_deny_vmids@.len() == 0
}

impl Default for DaemonConfig {
    fn default() -> (r: Self)
        ensures
            is_default_daemon(r),
    {
        DaemonConfig {
            name: default_daemon_name(),
            poll_interval_secs: default_poll_interval(),
            log_level: default_log_level(),
        }
    }
}

impl Default for ProxmoxConfig {
    fn default() -> (r: Self)
        ensures
            r.pvesh_bin@ == "pvesh"@,
    {
        ProxmoxConfig { pvesh_bin: default_pvesh_bin() }
    }
}

impl Default for ApiConfig {
    fn default() -> (r: Self)
        ensures
            r.bind@ == "127.0.0.1:8686"@,
    {
        ApiConfig { bind: default_api_bind() }
    }
}

impl Default for AuthConfig {
    fn default() -> (r: Self)
        ensures
            r.api_token@ == "change-me"@,
    {
        AuthConfig { api_token: default_api_token() }
    }
}

impl Default for DhcpConfig {
    fn default() -> (r: Self)
        ensures
            is_default_dhcp(r),
    {
        DhcpConfig {
            enabled: true,
            bind: default_dhcp_bind(),
            server_ip: default_dhcp_server_ip(),
            lease_time_secs: default_dhcp_lease_time(),
            database_path: default_dhcp_database_path(),
            firewall_mode: default_firewall_mode(),
            firewall_allow_macs: Vec::new(),
            firewall_deny_macs: Vec::new(),
            firewall_allow_vmids: Vec::new(),
            firewall_deny_vmids: Vec::new(),
        }
    }
}

impl Default for AppConfig {
    fn default() -> (r: Self)
        ensures
            is_default_daemon(r.daemon),
            r.proxmox.pvesh_bin@ == "pvesh"@,
            r.api.bind@ == "127.0.0.1:8686"@,
            r.auth.api_token@ == "change-me"@,
            is_default_dhcp(r.dhcp),
    {
        AppConfig {
            daemon: DaemonConfig::default(),
            proxmox: ProxmoxConfig::default(),
            api: ApiConfig::default(),
            auth: AuthConfig::default(),
            dhcp: DhcpConfig::default(),
        }
    }
}

} // verus!
