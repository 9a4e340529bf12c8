use feathertail::config::{AppConfig, DhcpConfig};
use feathertail::dhcp::error::DhcpError;
use feathertail::dhcp::lease::{
    decode_dns_servers, decode_lease_row, encode_dns_servers, prepare_static_lease,
    prepare_static_lease_at, AssignLeaseInput, LeaseRow,
};

fn input() -> AssignLeaseInput {
    AssignLeaseInput {
        mac: "BC-24-11-2A-3B-4C".to_owned(),
        ip: "212.87.213.115".to_owned(),
        hostname: Some("dhcp-vm".to_owned()),
        vmid: Some(108),
        node: Some("pve1".to_owned()),
        gateway: "212.87.212.1".to_owned(),
        cidr: 24,
        dns_servers: vec!["1.1.1.1".to_owned(), "8.8.8.8".to_owned()],
        lease_time_secs: None,
    }
}

#[test]
fn prepared_lease_is_canonical_active_and_static() {
    let lease = prepare_static_lease_at(input(), 86400, 1_000).unwrap();
    assert_eq!(lease.mac, "bc:24:11:2a:3b:4c");
    assert_eq!(lease.ip, "212.87.213.115");
    assert_eq!(lease.gateway, "212.87.212.1");
    assert_eq!(lease.cidr, 23);
    assert_eq!(lease.dns_servers, vec!["1.1.1.1".to_owned(), "8.8.8.8".to_owned()]);
    assert_eq!(lease.lease_start, 1_000);
    assert_eq!(lease.lease_end, 1_000 + 86_400);
    assert_eq!(lease.state, "active");
    assert!(lease.static_lease);
    assert_eq!(lease.vmid, Some(108));
    assert_eq!(lease.hostname.as_deref(), Some("dhcp-vm"));
    assert_eq!(lease.node.as_deref(), Some("pve1"));
}

#[test]
fn prepared_lease_uses_requested_time_and_caps_huge_ones() {
    let mut i = input();
    i.lease_time_secs = Some(600);
    assert_eq!(prepare_static_lease_at(i, 86400, 50).unwrap().lease_end, 650);
    let mut i = input();
    i.lease_time_secs = Some(u64::MAX);
    assert_eq!(prepare_static_lease_at(i, 86400, 50).unwrap().lease_end, 50 + 86_400);
    let now_lease = prepare_static_lease(input(), 60).unwrap();
    assert_eq!(now_lease.lease_end - now_lease.lease_start, 60);
    assert!(now_lease.lease_start > 0);
}

#[test]
fn prepared_lease_checks_in_order() {
    let mut i = input();
    i.mac = "bad".to_owned();
    i.ip = "also bad".to_owned();
    assert!(matches!(prepare_static_lease_at(i, 1, 0), Err(DhcpError::InvalidMac(_))));

    let mut i = input();
    i.ip = "300.1.1.1".to_owned();
    match prepare_static_lease_at(i, 1, 0) {
        Err(DhcpError::InvalidIpv4(t)) => assert_eq!(t, "300.1.1.1"),
        other => panic!("unexpected {:?}", other),
    }

    let mut i = input();
    i.gateway = "gw".to_owned();
    match prepare_static_lease_at(i, 1, 0) {
        Err(DhcpError::InvalidIpv4(t)) => assert_eq!(t, "gw"),
        other => panic!("unexpected {:?}", other),
    }

    let mut i = input();
    i.gateway = "9.9.9.9".to_owned();
    assert!(matches!(
        prepare_static_lease_at(i, 1, 0),
        Err(DhcpError::SubnetUncombinable { .. }) | Err(DhcpError::SubnetMismatch { .. })
    ));

    let mut i = input();
    i.dns_servers = vec!["1.1.1.1".to_owned(), "dns".to_owned(), "x".to_owned()];
    match prepare_static_lease_at(i, 1, 0) {
        Err(DhcpError::InvalidIpv4(t)) => assert_eq!(t, "dns"),
        other => panic!("unexpected {:?}", other),
    }
}

#[test]
fn dns_list_round_trips_through_json() {
    let list = vec!["1.1.1.1".to_owned(), "8.8.8.8".to_owned()];
    let text = encode_dns_servers(&list).unwrap();
    assert_eq!(text, "[\"1.1.1.1\",\"8.8.8.8\"]");
    assert_eq!(decode_dns_servers(&text), list);
    assert!(decode_dns_servers("not json").is_empty());
    assert!(decode_dns_servers("[1,2]").is_empty());
}

fn row() -> LeaseRow {
    LeaseRow {
        mac: "aa:bb:cc:dd:ee:ff".to_owned(),
        ip: "10.0.0.5".to_owned(),
        hostname: None,
        vmid: Some(7),
        node: Some("pve".to_owned()),
        gateway: "10.0.0.1".to_owned(),
        cidr: 24,
        dns_servers: "[\"9.9.9.9\"]".to_owned(),
        lease_start: 1,
        lease_end: 2,
        state: "released".to_owned(),
        static_flag: 5,
    }
}

#[test]
fn decode_lease_row_maps_columns() {
    let l = decode_lease_row(row()).unwrap();
    assert_eq!(l.vmid, Some(7));
    assert_eq!(l.cidr, 24);
    assert_eq!(l.dns_servers, vec!["9.9.9.9".to_owned()]);
    assert!(l.static_lease);
    assert_eq!(l.state, "released");

    let mut r = row();
    r.vmid = Some(-1);
    r.static_flag = 0;
    r.dns_servers = "{}".to_owned();
    let l = decode_lease_row(r).unwrap();
    assert_eq!(l.vmid, None);
    assert!(!l.static_lease);
    assert!(l.dns_servers.is_empty());

    let mut r = row();
    r.cidr = 300;
    let e = decode_lease_row(r).unwrap_err();
    assert!(matches!(e, DhcpError::InvalidLeaseCidr));
    assert_eq!(e.message(), "invalid cidr in lease row");
}

#[test]
fn config_defaults() {
    let c = AppConfig::default();
    assert_eq!(c.daemon.name, "feathertail-proxmox");
    assert_eq!(c.daemon.poll_interval_secs, 15);
    assert_eq!(c.daemon.log_level, "info");
    assert_eq!(c.proxmox.pvesh_bin, "pvesh");
    assert_eq!(c.api.bind, "127.0.0.1:8686");
    assert_eq!(c.auth.api_token, "change-me");
    let d = DhcpConfig::default();
    assert_eq!(d.bind, "0.0.0.0:67");
    assert_eq!(d.lease_time_secs, 86400);
    assert_eq!(d.firewall_mode, "off");
    assert_eq!(feathertail::time::now_unix() > 1_600_000_000, true);
}

#[test]
fn checks_come_before_the_lease_end_limit() {
    let mut i = input();
    i.mac = "bad".to_owned();
    i.lease_time_secs = Some(i64::MAX as u64);
    match prepare_static_lease(i, 86400) {
        Err(DhcpError::InvalidMac(t)) => assert_eq!(t, "bad"),
        other => panic!("unexpected {:?}", other),
    }

    let mut i = input();
    i.gateway = "9.9.9.9".to_owned();
    i.lease_time_secs = Some(i64::MAX as u64);
    assert!(matches!(
        prepare_static_lease(i, 86400),
        Err(DhcpError::SubnetUncombinable { .. }) | Err(DhcpError::SubnetMismatch { .. })
    ));

    let mut i = input();
    i.lease_time_secs = Some(i64::MAX as u64);
    assert!(matches!(prepare_static_lease(i, 86400), Err(DhcpError::LeaseEndOverflow)));
}

#[test]
fn encoding_dns_servers_always_succeeds() {
    assert_eq!(encode_dns_servers(&Vec::new()).unwrap(), "[]");
    assert_eq!(encode_dns_servers(&vec!["a\"b".to_owned()]).unwrap(), "[\"a\\\"b\"]");
}
