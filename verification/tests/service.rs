use feathertail::auth::{bearer_authorized, extract_bearer, unauthorized_message};
use feathertail::cli::{parse_args, CliError};
use feathertail::config::AppConfig;
use feathertail::daemon::{observe_vmids, PollState};
use feathertail::dhcp::lease::DhcpLease;
use feathertail::proxmox::{
    classify_execute_output, container_node_or_not_found, execute_args, get_json_args,
    lxc_config_path, net_device_mac, qemu_list_path, set_password_args, ExecuteOutput,
    LxcContainer, ProxmoxClient, ProxmoxError, QemuIdentity, QemuVM,
};
use feathertail::routes::api::containers::{map_password_change_error, root_password_error, SetRootPasswordRequest};
use feathertail::routes::api::dhcp::{
    assign_input, assign_request_error, bad_request_or_internal, leases_response,
    map_identity_error, AssignLeaseRequest,
};
use feathertail::routes::api::servers::servers_response;
use feathertail::routes::api::system::{config_updated, diagnostics_response, curl_args, download_failure, wget_args, journalctl_args, log_line_count, update_installed, LogsQuery};
use feathertail::service_install::{install_service, is_root_uid, must_stop_service, systemctl_failure, systemd_unit, InstallError, InstallProgress, InstallStep};
use feathertail::vnc_assets::is_proxmox_host;
use feathertail::proxmox::{place_lxc, place_qemu};
use std::collections::HashSet;
use feathertail::proxmox::{
    ClusterNodeStatus, ClusterStatus, ClusterSummary, NodeCpuInfo, NodeMemory, NodeStatus,
};
use feathertail::routes::api::cluster::{cluster_info, cluster_nodes};
use feathertail::routes::api::nodes::node_details;

fn strings(v: &[&str]) -> Vec<String> {
    v.iter().map(|s| s.to_string()).collect()
}

#[test]
fn cli_arguments() {
    let o = parse_args(&strings(&[])).unwrap();
    assert_eq!(o.config_path, "feathertail.toml");
    assert!(!o.run_once);
    let o = parse_args(&strings(&["--once", "--config", "/etc/x.toml"])).unwrap();
    assert_eq!(o.config_path, "/etc/x.toml");
    assert!(o.run_once);
    let o = parse_args(&strings(&["a.toml", "b.toml"])).unwrap();
    assert_eq!(o.config_path, "b.toml");
    assert!(!o.service_install);
    let o = parse_args(&strings(&["service-install", "--config", "./f.toml"])).unwrap();
    assert!(o.service_install);
    assert_eq!(o.config_path, "./f.toml");
    let e = parse_args(&strings(&["--config"])).unwrap_err();
    assert_eq!(e, CliError::MissingConfigValue);
    assert_eq!(e.message(), "missing value for --config");
    assert_eq!(e.exit_code(), 2);
}

#[test]
fn bearer_tokens() {
    assert_eq!(extract_bearer(Some("Bearer abc")).as_deref(), Some("abc"));
    assert_eq!(extract_bearer(Some("bearer abc")), None);
    assert_eq!(extract_bearer(None), None);
    assert!(bearer_authorized(Some("Bearer change-me"), "change-me"));
    assert!(!bearer_authorized(Some("Bearer change-me "), "change-me"));
    assert!(!bearer_authorized(Some("Basic change-me"), "change-me"));
    assert!(!bearer_authorized(None, "change-me"));
    assert_eq!(unauthorized_message(), "unauthorized");
}

#[test]
fn daemon_reports_only_new_guests() {
    let mut seen: HashSet<u32> = HashSet::new();
    assert_eq!(observe_vmids(&mut seen, &vec![100, 101]), vec![0, 1]);
    assert_eq!(observe_vmids(&mut seen, &vec![101, 102, 102]), vec![1, 2]);
    assert_eq!(seen, [101u32, 102].into_iter().collect::<HashSet<u32>>());
    let mut config = AppConfig::default();
    config.daemon.log_level = "INFO-Yapless".to_owned();
    let mut state = PollState::new(&config);
    assert!(state.info_yapless);
    assert_eq!(state.observe_lxc(&vec![5]), vec![0]);
    assert_eq!(state.observe_lxc(&vec![5]), Vec::<usize>::new());
    assert!(state.seen_qemu_vmids.is_empty());
    assert!(!PollState::new(&AppConfig::default()).info_yapless);
}

fn container(vmid: u32, node: &str) -> LxcContainer {
    LxcContainer { id: 0, vmid, name: format!("ct{vmid}"), node: node.to_owned(), status: None, mem: None, maxmem: None }
}

#[test]
fn proxmox_command_lines() {
    let client = ProxmoxClient::new(&AppConfig::default().proxmox);
    assert_eq!(client.pvesh_bin(), "pvesh");
    assert_eq!(get_json_args("/version"), strings(&["get", "/version", "--output-format", "json"]));
    assert_eq!(
        execute_args("get", "/nodes", &vec![("type".to_owned(), "vm".to_owned())]),
        strings(&["get", "/nodes", "-type", "vm", "--output-format", "json"])
    );
    assert_eq!(execute_args("set", "/x", &vec![]), strings(&["set", "/x"]));
    assert_eq!(qemu_list_path("pve1"), "/nodes/pve1/qemu");
    assert_eq!(lxc_config_path("pve1", 105), "/nodes/pve1/lxc/105/config");
    assert_eq!(
        set_password_args("pve1", 105, "s3cret"),
        strings(&["set", "/nodes/pve1/lxc/105/config", "-password", "s3cret"])
    );
    let cts = vec![container(1, "a"), container(2, "b"), container(2, "c")];
    assert_eq!(container_node_or_not_found(&cts, 2).unwrap(), "b");
    let err = container_node_or_not_found(&cts, 9).unwrap_err();
    assert!(matches!(err, ProxmoxError::ContainerNotFound(9)));
    assert_eq!(err.message(), "lxc container 9 not found");
    assert_eq!(map_password_change_error(&err.message()), 404);
    assert_eq!(map_password_change_error("pvesh set failed"), 500);
}

#[test]
fn execute_output_and_net_devices() {
    assert_eq!(classify_execute_output(""), ExecuteOutput::StatusOk);
    assert_eq!(classify_execute_output("{\"a\":1}"), ExecuteOutput::Json);
    assert_eq!(classify_execute_output("done"), ExecuteOutput::Text);
    assert_eq!(
        net_device_mac("virtio=BC:24:11:2A:3B:4C,bridge=vmbr0").as_deref(),
        Some("bc:24:11:2a:3b:4c")
    );
    assert_eq!(net_device_mac("bridge=vmbr0"), None);
    assert_eq!(net_device_mac("novalue"), None);
}

fn lease(vmid: Option<u32>, ip: &str, state: &str) -> DhcpLease {
    DhcpLease {
        mac: "aa:bb:cc:dd:ee:ff".to_owned(),
        ip: ip.to_owned(),
        hostname: None,
        vmid,
        node: None,
        gateway: "10.0.0.1".to_owned(),
        cidr: 24,
        dns_servers: vec![],
        lease_start: 0,
        lease_end: 99,
        state: state.to_owned(),
        static_lease: true,
    }
}

#[test]
fn servers_join_their_last_lease() {
    let vms = vec![
        QemuVM { id: 0, vmid: 100, name: "a".into(), node: "n".into(), status: Some("running".into()), mem: Some(1), maxmem: Some(2) },
        QemuVM { id: 0, vmid: 101, name: "b".into(), node: "n".into(), status: None, mem: None, maxmem: None },
    ];
    let leases = vec![lease(Some(100), "10.0.0.5", "active"), lease(None, "10.0.0.6", "active"), lease(Some(100), "10.0.0.7", "released")];
    let r = servers_response(&vms, &leases, true);
    assert_eq!(r.servers.len(), 2);
    assert!(r.servers[0].dhcp.has_lease);
    assert_eq!(r.servers[0].dhcp.ip.as_deref(), Some("10.0.0.7"));
    assert_eq!(r.servers[0].dhcp.lease_state.as_deref(), Some("released"));
    assert!(!r.servers[1].dhcp.has_lease);
    assert!(r.servers[1].dhcp.enabled);
    let l = leases_response(&leases);
    assert_eq!(l.leases.len(), 3);
    assert_eq!(l.leases[2].ip, "10.0.0.7");
}

#[test]
fn lease_requests_are_checked_and_classified() {
    let req = AssignLeaseRequest {
        vmid: 108,
        hostname: "  ".into(),
        ip: "1.2.3.4".into(),
        gateway: "1.2.3.1".into(),
        cidr: 24,
        dns_servers: vec![],
        lease_time_secs: None,
    };
    assert_eq!(
        assign_request_error(&req).unwrap().error,
        "vmid, hostname, ip, gateway, and cidr are required"
    );
    let mut ok = req.clone();
    ok.hostname = "vm".into();
    assert!(assign_request_error(&ok).is_none());
    let input = assign_input(ok, QemuIdentity { vmid: 108, node: "pve".into(), mac: "aa:aa:aa:aa:aa:aa".into() });
    assert_eq!(input.vmid, Some(108));
    assert_eq!(input.node.as_deref(), Some("pve"));
    assert_eq!(input.hostname.as_deref(), Some("vm"));
    assert_eq!(bad_request_or_internal("invalid mac address: x"), 400);
    assert_eq!(bad_request_or_internal("cidr must be between 0 and 32"), 400);
    assert_eq!(bad_request_or_internal("database is locked"), 500);
    assert_eq!(map_identity_error("qemu vm 3 not found"), 404);
    assert!(root_password_error(&SetRootPasswordRequest { password: "\t \n".into() }).is_some());
    assert!(root_password_error(&SetRootPasswordRequest { password: "x".into() }).is_none());
}

#[test]
fn system_endpoint_decisions() {
    assert_eq!(log_line_count(&LogsQuery { lines: None }), 200);
    assert_eq!(log_line_count(&LogsQuery { lines: Some(0) }), 1);
    assert_eq!(log_line_count(&LogsQuery { lines: Some(9000) }), 5000);
    assert_eq!(journalctl_args(42), strings(&["-u", "feathertail", "-n", "42", "--no-pager"]));
    let (restart, msg) = config_updated(None);
    assert!(!restart);
    assert_eq!(msg.message, "config updated");
    let (restart, msg) = update_installed(None);
    assert!(restart);
    assert_eq!(msg.message, "update installed, restart scheduled");
}

#[test]
fn installation_steps() {
    assert!(matches!(install_service(None), InstallProgress::Run(InstallStep::CheckRoot)));
    assert!(matches!(
        install_service(Some((InstallStep::CheckRoot, Ok(false)))),
        InstallProgress::Finished(Err(InstallError::NotRoot))
    ));
    assert!(matches!(
        install_service(Some((InstallStep::CheckProxmoxHost, Ok(false)))),
        InstallProgress::Finished(Err(InstallError::NotProxmoxHost))
    ));
    assert!(matches!(
        install_service(Some((InstallStep::ReloadUnits, Ok(true)))),
        InstallProgress::Run(InstallStep::EnableService)
    ));
    assert!(matches!(
        install_service(Some((InstallStep::EnableService, Ok(true)))),
        InstallProgress::Finished(Ok(()))
    ));
    assert!(matches!(
        install_service(Some((InstallStep::InstallBinary, Err("disk full".into())))),
        InstallProgress::Finished(Err(InstallError::StepFailed(_)))
    ));
    assert_eq!(InstallError::NotRoot.message(), "service-install must be run as root");
    let unit = systemd_unit("/usr/local/bin/feathertail", "/etc/feathertail/feathertail.toml");
    assert!(unit.contains("ExecStart=/usr/local/bin/feathertail --config /etc/feathertail/feathertail.toml\n"));
    assert!(unit.starts_with("[Unit]\n"));
    assert!(is_proxmox_host(true, false, true, false));
    assert!(!is_proxmox_host(true, false, false, false));
    assert!(is_proxmox_host(false, false, false, true));
}

#[test]
fn cluster_and_node_bodies() {
    let status = ClusterStatus {
        cluster: Some(ClusterSummary { name: "lab".to_owned(), nodeid: 2 }),
        nodelist: Some(vec![
            ClusterNodeStatus { nodeid: 1, name: "pve1".to_owned(), online: Some(1) },
            ClusterNodeStatus { nodeid: 2, name: "pve2".to_owned(), online: None },
        ]),
    };
    let info = cluster_info(status.clone()).unwrap();
    assert_eq!((info.name.as_str(), info.nodeid), ("lab", 2));
    let nodes = cluster_nodes(&status).nodes;
    assert_eq!(nodes.len(), 2);
    assert_eq!((nodes[1].nodeid, nodes[1].name.as_str(), nodes[1].online), (2, "pve2", None));

    let alone = ClusterStatus { cluster: None, nodelist: None };
    assert_eq!(cluster_info(alone.clone()).unwrap_err().error, "cluster information not available");
    assert!(cluster_nodes(&alone).nodes.is_empty());

    let details = node_details(NodeStatus {
        uptime: Some(3600),
        cpuinfo: Some(NodeCpuInfo { cpus: 16 }),
        memory: Some(NodeMemory { total: 64, used: 16, available: None }),
    });
    assert_eq!(details.uptime, Some(3600));
    assert_eq!(details.cpus, Some(16));
    let memory = details.memory.unwrap();
    assert_eq!((memory.total, memory.used, memory.available), (64, 16, None));

    let bare = node_details(NodeStatus { uptime: None, cpuinfo: None, memory: None });
    assert!(bare.uptime.is_none() && bare.cpus.is_none() && bare.memory.is_none());
}

#[test]
fn root_uid_output() {
    assert!(is_root_uid("0\n"));
    assert!(is_root_uid("  0 "));
    assert!(!is_root_uid("1000\n"));
    assert!(!is_root_uid("00"));
    assert!(!is_root_uid(" \n"));
    assert!(!is_root_uid(""));
}

#[test]
fn systemctl_failure_messages() {
    assert_eq!(
        systemctl_failure(&vec!["enable", "--now", "feathertail.service"], "unit not found"),
        "systemctl enable --now feathertail.service failed: unit not found"
    );
    assert_eq!(systemctl_failure(&vec!["daemon-reload"], ""), "systemctl daemon-reload failed: ");
    assert_eq!(systemctl_failure(&vec![], "x"), "systemctl  failed: x");
}

#[test]
fn self_update_downloads() {
    assert_eq!(curl_args("https://x/y", "/tmp/f"), vec!["-fsSL", "https://x/y", "-o", "/tmp/f"]);
    assert_eq!(wget_args("https://x/y", "/tmp/f"), vec!["-q", "-O", "/tmp/f", "https://x/y"]);
    assert_eq!(download_failure("404"), "download failed: 404");
}

#[test]
fn diagnostics_report_version_or_error() {
    let ok = diagnostics_response(
        "d".to_owned(),
        "/etc/f.toml".to_owned(),
        "0.0.0.0:8686".to_owned(),
        true,
        false,
        Ok(feathertail::proxmox::ProxmoxVersion {
            version: "8.2".to_owned(),
            release: "8".to_owned(),
            repoid: "abc".to_owned(),
        }),
        42,
    );
    assert_eq!(ok.proxmox_version.as_deref(), Some("8.2"));
    assert!(ok.proxmox_error.is_none());
    assert_eq!((ok.daemon.as_str(), ok.now_unix, ok.dhcp_enabled, ok.is_proxmox_host), ("d", 42, true, false));

    let failed = diagnostics_response(String::new(), String::new(), String::new(), false, true, Err("boom".to_owned()), 0);
    assert!(failed.proxmox_version.is_none());
    assert_eq!(failed.proxmox_error.as_deref(), Some("boom"));
}

#[test]
fn unix_seconds_clamps_clock_readings() {
    assert_eq!(feathertail::time::unix_seconds(None), 0);
    assert_eq!(feathertail::time::unix_seconds(Some(1_700_000_000)), 1_700_000_000);
    assert_eq!(feathertail::time::unix_seconds(Some(u64::MAX)), i64::MAX);
    assert_eq!(feathertail::time::unix_seconds(Some(i64::MAX as u64)), i64::MAX);
    assert!(feathertail::time::now_unix() > 1_600_000_000);
}

#[test]
fn running_service_is_stopped_before_the_binary_is_replaced() {
    assert!(must_stop_service(true, true));
    assert!(!must_stop_service(true, false));
    assert!(!must_stop_service(false, false));
}

#[test]
fn node_listings_keep_readable_entries_on_their_node() {
    let vm = |vmid: u32, node: &str| QemuVM {
        id: 0,
        vmid,
        name: format!("vm{vmid}"),
        node: node.to_owned(),
        status: Some("running".to_owned()),
        mem: Some(1),
        maxmem: Some(2),
    };
    let mut out = vec![vm(100, "pve1")];
    place_qemu(&mut out, "pve2", &None);
    assert_eq!(out.len(), 1);
    place_qemu(&mut out, "pve2", &Some(vec![Some(vm(101, "")), None, Some(vm(102, "elsewhere"))]));
    assert_eq!(out.iter().map(|v| v.vmid).collect::<Vec<_>>(), vec![100, 101, 102]);
    assert_eq!(out[0].node, "pve1");
    assert_eq!(out[1].node, "pve2");
    assert_eq!(out[2].node, "pve2");
    assert_eq!(out[2].name, "vm102");

    let mut cts = Vec::new();
    place_lxc(&mut cts, "pve3", &Some(vec![None, Some(container(200, ""))]));
    assert_eq!(cts.len(), 1);
    assert_eq!((cts[0].vmid, cts[0].node.as_str()), (200, "pve3"));
}
