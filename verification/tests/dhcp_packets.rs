use feathertail::config::DhcpConfig;
use feathertail::dhcp::addr::{
    cidr_to_mask, effective_cidr_for_gateway_and_ip, format_ipv4, ipv4_to_u32, parse_ipv4,
    subnet_mask_u32, Ipv4,
};
use feathertail::dhcp::error::DhcpError;
use feathertail::dhcp::lease::DhcpLease;
use feathertail::dhcp::mac::{format_mac, normalize_mac};
use feathertail::dhcp::packet::{
    build_dhcp_nak_response, build_dhcp_response, build_dhcp_response_at, parse_dhcp_request,
    push_option, resolve_dhcp_target, DHCP_ACK, DHCP_DISCOVER, DHCP_NAK, DHCP_OFFER, DHCP_RELEASE,
    DHCP_REQUEST,
};
use feathertail::dhcp::reply::{dhcp_reply, dhcp_reply_at, plan_dhcp_packet, DhcpReply, PacketPlan};

const DHCP_MAGIC_COOKIE: [u8; 4] = [99, 130, 83, 99];

fn base_packet_with_options(options: &[u8]) -> Vec<u8> {
    let mut packet = vec![0u8; 240];
    packet[0] = 1;
    packet[1] = 1;
    packet[2] = 6;
    packet[3] = 0;
    packet[4..8].copy_from_slice(&[0x12, 0x34, 0x56, 0x78]);
    packet[10..12].copy_from_slice(&[0x80, 0x00]);
    packet[28..44].copy_from_slice(&[
        0xaa, 0xbb, 0xcc, 0xdd, 0xee, 0xff, 0, 0, 0, 0, 0, 0, 0, 0, 0, 0,
    ]);
    packet[236..240].copy_from_slice(&DHCP_MAGIC_COOKIE);
    packet.extend_from_slice(options);
    packet
}

fn sample_lease() -> DhcpLease {
    DhcpLease {
        mac: "aa:bb:cc:dd:ee:ff".to_owned(),
        ip: "193.34.77.10".to_owned(),
        hostname: Some("vm-1".to_owned()),
        vmid: Some(100),
        node: Some("node1".to_owned()),
        gateway: "193.34.77.1".to_owned(),
        cidr: 24,
        dns_servers: vec!["1.1.1.1".to_owned(), "8.8.8.8".to_owned()],
        lease_start: 0,
        lease_end: i64::MAX,
        state: "active".to_owned(),
        static_lease: true,
    }
}

fn config_with_mode(mode: &str) -> DhcpConfig {
    let mut c = DhcpConfig::default();
    c.server_ip = "193.34.77.2".to_owned();
    c.firewall_mode = mode.to_owned();
    c
}

fn contains_window(haystack: &[u8], needle: &[u8]) -> bool {
    haystack.windows(needle.len()).any(|w| w == needle)
}

#[test]
fn normalize_mac_formats_common_inputs() {
    let normalized = normalize_mac("AA-BB-CC-DD-EE-FF").expect("mac should normalize");
    assert_eq!(normalized, "aa:bb:cc:dd:ee:ff");

    let normalized2 = normalize_mac("aabb.ccdd.eeff").expect("mac should normalize");
    assert_eq!(normalized2, "aa:bb:cc:dd:ee:ff");
}

#[test]
fn normalize_mac_rejects_invalid_length() {
    let err = normalize_mac("aa:bb:cc").expect_err("invalid mac should fail");
    assert!(err.message().contains("invalid mac address"));
}

#[test]
fn normalize_mac_is_idempotent_on_examples() {
    for input in ["AA:BB:CC:DD:EE:FF", "aabbccddeeff", "Aa-Bb-Cc-Dd-Ee-Ff"] {
        let once = normalize_mac(input).unwrap();
        let twice = normalize_mac(&once).unwrap();
        assert_eq!(once, twice);
        assert_eq!(once, "aa:bb:cc:dd:ee:ff");
    }
    assert_eq!(normalize_mac("xx-00-11-22-33-44-55").unwrap(), "00:11:22:33:44:55");
    match normalize_mac("0011223344556677") {
        Err(DhcpError::InvalidMac(v)) => assert_eq!(v, "0011223344556677"),
        other => panic!("unexpected {:?}", other),
    }
    assert_eq!(
        normalize_mac("zz").unwrap_err().message(),
        "invalid mac address: zz"
    );
}

#[test]
fn format_mac_writes_lower_hex_pairs() {
    assert_eq!(format_mac(&[0x00, 0x1a, 0xFF, 0x10, 0x09, 0xab, 0x77]), "00:1a:ff:10:09:ab");
}

#[test]
fn parse_dhcp_request_extracts_message_and_requested_ip() {
    let packet = base_packet_with_options(&[53, 1, DHCP_REQUEST, 50, 4, 10, 0, 0, 42, 255]);

    let parsed = parse_dhcp_request(&packet).expect("packet should parse");
    assert_eq!(parsed.msg_type, DHCP_REQUEST);
    assert_eq!(parsed.mac, "aa:bb:cc:dd:ee:ff");
    assert_eq!(parsed.requested_ip, Some(Ipv4::new(10, 0, 0, 42)));
}

#[test]
fn parse_dhcp_request_rejects_malformed_packets() {
    let short = vec![1u8; 100];
    assert!(parse_dhcp_request(&short).is_none());

    let mut reply = base_packet_with_options(&[53, 1, DHCP_REQUEST, 255]);
    reply[0] = 2;
    assert!(parse_dhcp_request(&reply).is_none());

    let mut bad_cookie = base_packet_with_options(&[53, 1, DHCP_REQUEST, 255]);
    bad_cookie[239] = 0;
    assert!(parse_dhcp_request(&bad_cookie).is_none());

    let no_type = base_packet_with_options(&[50, 4, 10, 0, 0, 42, 255]);
    assert!(parse_dhcp_request(&no_type).is_none());

    // Options after the end marker are not read; pad bytes are skipped;
    // a truncated option stops the walk.
    let after_end = base_packet_with_options(&[0, 0, 53, 1, DHCP_DISCOVER, 255, 53, 1, DHCP_REQUEST]);
    assert_eq!(parse_dhcp_request(&after_end).unwrap().msg_type, DHCP_DISCOVER);
    let truncated = base_packet_with_options(&[53, 1, DHCP_DISCOVER, 50, 4, 10, 0]);
    let parsed = parse_dhcp_request(&truncated).unwrap();
    assert_eq!(parsed.requested_ip, None);
    assert_eq!(parsed.xid, [0x12, 0x34, 0x56, 0x78]);
    assert_eq!(parsed.flags, [0x80, 0x00]);
}

#[test]
fn build_dhcp_nak_sets_nak_type_and_server_id() {
    let packet = base_packet_with_options(&[53, 1, DHCP_REQUEST, 255]);
    let parsed = parse_dhcp_request(&packet).expect("packet should parse");
    let server = Ipv4::new(193, 34, 77, 2);

    let nak = build_dhcp_nak_response(&parsed, server);

    assert!(nak.windows(3).any(|w| w == [53, 1, DHCP_NAK]));
    assert!(nak.windows(6).any(|w| w == [54, 4, 193, 34, 77, 2]));
    assert!(contains_window(&nak, b"requested lease is not valid"));
    assert_eq!(nak[0], 2);
    assert_eq!(&nak[4..8], &[0x12, 0x34, 0x56, 0x78]);
    assert_eq!(*nak.last().unwrap(), 255);
}

#[test]
fn build_dhcp_response_includes_router_dns_and_mask() {
    let packet = base_packet_with_options(&[53, 1, DHCP_DISCOVER, 255]);
    let parsed = parse_dhcp_request(&packet).expect("packet should parse");

    let lease = sample_lease();

    let response = build_dhcp_response(&parsed, &lease, DHCP_OFFER, Ipv4::new(193, 34, 77, 2))
        .expect("response should build");

    assert!(response.windows(3).any(|w| w == [53, 1, DHCP_OFFER]));
    assert!(response.windows(6).any(|w| w == [1, 4, 255, 255, 255, 0]));
    assert!(response.windows(6).any(|w| w == [3, 4, 193, 34, 77, 1]));
    assert!(response
        .windows(10)
        .any(|w| w == [6, 8, 1, 1, 1, 1, 8, 8, 8, 8]));
}

#[test]
fn build_dhcp_response_at_has_exact_lease_times() {
    let packet = base_packet_with_options(&[53, 1, DHCP_DISCOVER, 255]);
    let parsed = parse_dhcp_request(&packet).unwrap();
    let mut lease = sample_lease();
    lease.lease_end = 1000 + 3600;
    let out = build_dhcp_response_at(&parsed, &lease, DHCP_OFFER, Ipv4::new(10, 0, 0, 1), 1000).unwrap();
    // yiaddr and siaddr
    assert_eq!(&out[16..20], &[193, 34, 77, 10]);
    assert_eq!(&out[20..24], &[10, 0, 0, 1]);
    assert!(contains_window(&out, &[51, 4, 0, 0, 0x0e, 0x10]));
    assert!(contains_window(&out, &[58, 4, 0, 0, 0x07, 0x08]));
    assert!(contains_window(&out, &[59, 4, 0, 0, 0x0c, 0x4e]));

    // an expired lease announces 300 seconds, a nearly expired one 60
    lease.lease_end = 10;
    let out = build_dhcp_response_at(&parsed, &lease, DHCP_OFFER, Ipv4::new(10, 0, 0, 1), 1000).unwrap();
    assert!(contains_window(&out, &[51, 4, 0, 0, 0x01, 0x2c]));
    lease.lease_end = 1010;
    let out = build_dhcp_response_at(&parsed, &lease, DHCP_OFFER, Ipv4::new(10, 0, 0, 1), 1000).unwrap();
    assert!(contains_window(&out, &[51, 4, 0, 0, 0, 60]));

    // a lease whose address is not an address cannot be served
    lease.ip = "not-an-ip".to_owned();
    match build_dhcp_response_at(&parsed, &lease, DHCP_OFFER, Ipv4::new(10, 0, 0, 1), 1000) {
        Err(DhcpError::InvalidIpv4(t)) => assert_eq!(t, "not-an-ip"),
        other => panic!("unexpected {:?}", other),
    }
}

#[test]
fn push_option_skips_empty_and_oversized_values() {
    let mut out = vec![9u8];
    push_option(&mut out, 6, &[]);
    assert_eq!(out, vec![9]);
    push_option(&mut out, 6, &[0u8; 256]);
    assert_eq!(out, vec![9]);
    push_option(&mut out, 12, &[1, 2]);
    assert_eq!(out, vec![9, 12, 2, 1, 2]);
}

#[test]
fn resolve_dhcp_target_prefers_giaddr_then_ciaddr() {
    let mut packet = base_packet_with_options(&[53, 1, DHCP_REQUEST, 255]);
    packet[12..16].copy_from_slice(&[10, 0, 0, 22]);
    packet[24..28].copy_from_slice(&[10, 0, 0, 1]);
    let parsed = parse_dhcp_request(&packet).expect("packet should parse");

    let src = Some(Ipv4::new(0, 0, 0, 0));
    let target = resolve_dhcp_target(&parsed, src);
    assert_eq!(target.ip, Ipv4::new(10, 0, 0, 1));
    assert_eq!(target.port, 67);

    let mut packet2 = base_packet_with_options(&[53, 1, DHCP_REQUEST, 255]);
    packet2[12..16].copy_from_slice(&[10, 0, 0, 22]);
    let parsed2 = parse_dhcp_request(&packet2).expect("packet should parse");
    let target2 = resolve_dhcp_target(&parsed2, src);
    assert_eq!(target2.ip, Ipv4::new(10, 0, 0, 22));
    assert_eq!(target2.port, 68);
}

#[test]
fn resolve_dhcp_target_falls_back_to_source_then_broadcast() {
    let packet = base_packet_with_options(&[53, 1, DHCP_DISCOVER, 255]);
    let parsed = parse_dhcp_request(&packet).unwrap();
    let t = resolve_dhcp_target(&parsed, Some(Ipv4::new(192, 168, 1, 5)));
    assert_eq!((t.ip, t.port), (Ipv4::new(192, 168, 1, 5), 68));
    let t = resolve_dhcp_target(&parsed, Some(Ipv4::new(0, 0, 0, 0)));
    assert_eq!((t.ip, t.port), (Ipv4::new(255, 255, 255, 255), 68));
    let t = resolve_dhcp_target(&parsed, None);
    assert_eq!((t.ip, t.port), (Ipv4::new(255, 255, 255, 255), 68));
}

#[test]
fn effective_cidr_keeps_matching_gateway_network() {
    let ip = Ipv4::new(193, 34, 77, 50);
    let gw = Ipv4::new(193, 34, 77, 1);
    assert_eq!(effective_cidr_for_gateway_and_ip(ip, gw, 24).unwrap(), 24);
}

#[test]
fn effective_cidr_widens_one_bit_when_routed_supernet_matches() {
    let ip = Ipv4::new(212, 87, 213, 115);
    let gw = Ipv4::new(212, 87, 212, 1);
    assert_eq!(effective_cidr_for_gateway_and_ip(ip, gw, 24).unwrap(), 23);
}

#[test]
fn effective_cidr_rejects_far_mismatch() {
    let ip = Ipv4::new(193, 34, 78, 50);
    let gw = Ipv4::new(193, 34, 77, 1);
    assert!(effective_cidr_for_gateway_and_ip(ip, gw, 24).is_err());
}

#[test]
fn effective_cidr_errors_name_the_shared_prefix() {
    let ip = Ipv4::new(193, 34, 78, 50);
    let gw = Ipv4::new(193, 34, 77, 1);
    let err = effective_cidr_for_gateway_and_ip(ip, gw, 24).unwrap_err();
    match &err {
        DhcpError::SubnetMismatch { largest_below, requested, .. } => {
            assert_eq!(*largest_below, 22);
            assert_eq!(*requested, 24);
        }
        other => panic!("unexpected {:?}", other),
    }
    assert_eq!(
        err.message(),
        "ip 193.34.78.50 and gateway 193.34.77.1 are not on the same /24 subnet; shortest shared network under your mask is /22 (try \"cidr\": 22)"
    );

    let far = effective_cidr_for_gateway_and_ip(Ipv4::new(10, 0, 0, 1), Ipv4::new(200, 0, 0, 1), 8)
        .unwrap_err();
    assert_eq!(
        far.message(),
        "ip 10.0.0.1 and gateway 200.0.0.1 cannot be combined under /8; check addresses"
    );
    assert!(matches!(
        effective_cidr_for_gateway_and_ip(Ipv4::new(10, 0, 0, 1), Ipv4::new(10, 0, 0, 2), 33),
        Err(DhcpError::CidrOutOfRange)
    ));
    assert_eq!(
        effective_cidr_for_gateway_and_ip(Ipv4::new(10, 0, 0, 1), Ipv4::new(99, 0, 0, 2), 0).unwrap(),
        0
    );
    assert_eq!(
        effective_cidr_for_gateway_and_ip(Ipv4::new(10, 0, 0, 1), Ipv4::new(10, 0, 0, 1), 32).unwrap(),
        32
    );
}

#[test]
fn masks_and_values() {
    assert_eq!(subnet_mask_u32(0).unwrap(), 0);
    assert_eq!(subnet_mask_u32(24).unwrap(), 0xffff_ff00);
    assert_eq!(subnet_mask_u32(32).unwrap(), 0xffff_ffff);
    assert!(matches!(subnet_mask_u32(33), Err(DhcpError::CidrOutOfRange)));
    assert_eq!(cidr_to_mask(0), Ipv4::new(0, 0, 0, 0));
    assert_eq!(cidr_to_mask(23), Ipv4::new(255, 255, 254, 0));
    assert_eq!(cidr_to_mask(40), Ipv4::new(255, 255, 255, 255));
    assert_eq!(ipv4_to_u32(Ipv4::new(192, 168, 1, 2)), 0xc0a8_0102);
    assert_eq!(Ipv4::from_u32(0xc0a8_0102), Ipv4::new(192, 168, 1, 2));
    assert_eq!(Ipv4::new(1, 2, 3, 4).octets(), [1, 2, 3, 4]);
}

#[test]
fn ipv4_text_parses_and_formats_canonically() {
    for text in ["0.0.0.0", "255.255.255.255", "193.34.77.10", "10.0.0.1"] {
        let a = parse_ipv4(text).unwrap();
        assert_eq!(format_ipv4(a), text);
    }
    assert_eq!(parse_ipv4("1.2.3.4").unwrap(), Ipv4::new(1, 2, 3, 4));
    for bad in ["01.2.3.4", "256.1.1.1", "1.2.3", "1.2.3.4.5", "", "1..2.3", "1.2.3.4 ", "a.b.c.d", "1000.1.1.1"] {
        match parse_ipv4(bad) {
            Err(DhcpError::InvalidIpv4(t)) => assert_eq!(t, bad),
            other => panic!("{bad}: unexpected {:?}", other),
        }
    }
    assert_eq!(
        parse_ipv4("x").unwrap_err().message(),
        "invalid IPv4 address syntax"
    );
}

#[test]
fn plan_sorts_packets() {
    assert!(matches!(plan_dhcp_packet(&[0u8; 10]), PacketPlan::Ignore));
    let release = base_packet_with_options(&[53, 1, DHCP_RELEASE, 255]);
    match plan_dhcp_packet(&release) {
        PacketPlan::Release(mac) => assert_eq!(mac, "aa:bb:cc:dd:ee:ff"),
        other => panic!("unexpected {:?}", other),
    }
    let discover = base_packet_with_options(&[53, 1, DHCP_DISCOVER, 255]);
    assert!(matches!(plan_dhcp_packet(&discover), PacketPlan::Lookup(_)));
}

#[test]
fn discover_with_active_lease_is_offered() {
    let packet = base_packet_with_options(&[53, 1, DHCP_DISCOVER, 255]);
    let req = parse_dhcp_request(&packet).unwrap();
    let reply = dhcp_reply_at(&config_with_mode("off"), &req, &Some(sample_lease()), None, 0).unwrap();
    match reply {
        DhcpReply::Send { bytes, target } => {
            assert!(contains_window(&bytes, &[53, 1, DHCP_OFFER]));
            assert_eq!(&bytes[16..20], &[193, 34, 77, 10]);
            assert_eq!(target.ip, Ipv4::new(255, 255, 255, 255));
        }
        other => panic!("unexpected {:?}", other),
    }
    // With the current clock too.
    let reply = dhcp_reply(&config_with_mode("off"), &req, &Some(sample_lease()), None).unwrap();
    assert!(matches!(reply, DhcpReply::Send { .. }));
}

#[test]
fn discover_without_lease_or_inactive_is_silent() {
    let packet = base_packet_with_options(&[53, 1, DHCP_DISCOVER, 255]);
    let req = parse_dhcp_request(&packet).unwrap();
    assert!(matches!(
        dhcp_reply_at(&config_with_mode("off"), &req, &None, None, 0).unwrap(),
        DhcpReply::Silent
    ));
    let mut lease = sample_lease();
    lease.state = "released".to_owned();
    assert!(matches!(
        dhcp_reply_at(&config_with_mode("off"), &req, &Some(lease), None, 0).unwrap(),
        DhcpReply::Silent
    ));
}

#[test]
fn request_is_acked_or_naked() {
    let asks_right = base_packet_with_options(&[53, 1, DHCP_REQUEST, 50, 4, 193, 34, 77, 10, 255]);
    let req = parse_dhcp_request(&asks_right).unwrap();
    match dhcp_reply_at(&config_with_mode("off"), &req, &Some(sample_lease()), None, 0).unwrap() {
        DhcpReply::Send { bytes, .. } => assert!(contains_window(&bytes, &[53, 1, DHCP_ACK])),
        other => panic!("unexpected {:?}", other),
    }

    let asks_wrong = base_packet_with_options(&[53, 1, DHCP_REQUEST, 50, 4, 193, 34, 77, 11, 255]);
    let req = parse_dhcp_request(&asks_wrong).unwrap();
    match dhcp_reply_at(&config_with_mode("off"), &req, &Some(sample_lease()), None, 0).unwrap() {
        DhcpReply::Send { bytes, .. } => {
            assert!(contains_window(&bytes, &[53, 1, DHCP_NAK]));
            assert!(contains_window(&bytes, &[54, 4, 193, 34, 77, 2]));
        }
        other => panic!("unexpected {:?}", other),
    }

    // unknown lease: NAK
    match dhcp_reply_at(&config_with_mode("off"), &req, &None, None, 0).unwrap() {
        DhcpReply::Send { bytes, .. } => assert!(contains_window(&bytes, &[53, 1, DHCP_NAK])),
        other => panic!("unexpected {:?}", other),
    }

    // a server address that is not an address is an error
    let mut cfg = config_with_mode("off");
    cfg.server_ip = "nope".to_owned();
    match dhcp_reply_at(&cfg, &req, &None, None, 0) {
        Err(DhcpError::InvalidIpv4(t)) => assert_eq!(t, "nope"),
        other => panic!("unexpected {:?}", other),
    }
}

#[test]
fn firewall_blocks_and_allows() {
    let discover = parse_dhcp_request(&base_packet_with_options(&[53, 1, DHCP_DISCOVER, 255])).unwrap();
    let request = parse_dhcp_request(&base_packet_with_options(&[53, 1, DHCP_REQUEST, 255])).unwrap();

    let mut block = config_with_mode("BlockList");
    block.firewall_deny_macs = vec!["AA-BB-CC-DD-EE-FF".to_owned(), "garbage".to_owned()];
    assert!(feathertail::dhcp::firewall::host_allowed(&block, "11:22:33:44:55:66", None));
    assert!(!feathertail::dhcp::firewall::host_allowed(&block, "aa:bb:cc:dd:ee:ff", None));
    assert!(matches!(
        dhcp_reply_at(&block, &discover, &Some(sample_lease()), None, 0).unwrap(),
        DhcpReply::Silent
    ));
    match dhcp_reply_at(&block, &request, &Some(sample_lease()), None, 0).unwrap() {
        DhcpReply::Send { bytes, .. } => assert!(contains_window(&bytes, &[53, 1, DHCP_NAK])),
        other => panic!("unexpected {:?}", other),
    }

    let mut allow = config_with_mode("allowlist");
    assert!(!feathertail::dhcp::firewall::host_allowed(&allow, "aa:bb:cc:dd:ee:ff", Some(100)));
    allow.firewall_allow_vmids = vec![100];
    assert!(feathertail::dhcp::firewall::host_allowed(&allow, "aa:bb:cc:dd:ee:ff", Some(100)));
    assert!(!feathertail::dhcp::firewall::host_allowed(&allow, "aa:bb:cc:dd:ee:ff", None));

    let unknown = config_with_mode("paranoid");
    assert!(feathertail::dhcp::firewall::host_allowed(&unknown, "aa:bb:cc:dd:ee:ff", None));
}

#[test]
fn other_message_types_go_unanswered() {
    for msg_type in [4u8, 8u8] {
        let req = parse_dhcp_request(&base_packet_with_options(&[53, 1, msg_type, 255])).unwrap();
        assert!(matches!(
            dhcp_reply_at(&config_with_mode("off"), &req, &Some(sample_lease()), None, 0).unwrap(),
            DhcpReply::Silent
        ));
        assert!(matches!(
            dhcp_reply_at(&config_with_mode("off"), &req, &None, None, 0).unwrap(),
            DhcpReply::Silent
        ));
    }
}
