use rbw_vpn_client::telemetry::extract;

fn window(lines: &[&str]) -> Vec<String> {
    lines.iter().map(|l| l.to_string()).collect()
}

#[test]
fn most_recent_counter_wins_per_field() {
    let lines = window(&["write bytes,1000,...", "read bytes,2000,...", "write bytes,1500,..."]);
    let snap = extract(&lines, 0);
    assert_eq!(snap.bytes_sent, 1500);
    assert_eq!(snap.bytes_received, 2000);
}

#[test]
fn empty_window_gives_defaults() {
    let snap = extract(&Vec::new(), 77);
    assert_eq!(snap.tunnel_ipv4, "");
    assert_eq!(snap.tunnel_ipv6, "");
    assert_eq!(snap.remote_ip, "");
    assert_eq!(snap.remote_port, 0);
    assert_eq!(snap.protocol, "");
    assert_eq!(snap.bytes_sent, 0);
    assert_eq!(snap.bytes_received, 0);
    assert_eq!(snap.extracted_at, 77);
}

#[test]
fn tunnel_address_and_remote_endpoint() {
    let lines = window(&[
        "2024-01-01 12:00:00 ifconfig 10.8.0.5",
        "2024-01-01 12:00:01 Peer Connection Initiated with 203.0.113.9:1194 udp",
    ]);
    let snap = extract(&lines, 0);
    assert_eq!(snap.tunnel_ipv4, "10.8.0.5");
    assert_eq!(snap.remote_ip, "203.0.113.9");
    assert_eq!(snap.remote_port, 1194);
    assert_eq!(snap.protocol, "udp");
}

#[test]
fn address_family_tag_is_skipped() {
    let lines = window(&["Peer Connection Initiated with [AF_INET]198.51.100.7:443"]);
    let snap = extract(&lines, 0);
    assert_eq!(snap.remote_ip, "198.51.100.7");
    assert_eq!(snap.remote_port, 443);
    assert_eq!(snap.protocol, "");
}

#[test]
fn push_reply_addresses() {
    let lines = window(&[
        "PUSH: Received control message: 'PUSH_REPLY,route-gateway 10.8.0.1,ifconfig-ipv6 fd00::1000/64 fd00::1,ifconfig 10.8.0.6 255.255.255.0,peer-id 0'",
    ]);
    let snap = extract(&lines, 0);
    assert_eq!(snap.tunnel_ipv4, "10.8.0.6");
    assert_eq!(snap.tunnel_ipv6, "fd00::1000");
}

#[test]
fn most_recent_endpoint_wins() {
    let lines = window(&[
        "Peer Connection Initiated with 192.0.2.1:1194 udp",
        "Peer Connection Initiated with 192.0.2.2:443 tcp",
    ]);
    let snap = extract(&lines, 0);
    assert_eq!(snap.remote_ip, "192.0.2.2");
    assert_eq!(snap.remote_port, 443);
    assert_eq!(snap.protocol, "tcp");
}

#[test]
fn unparseable_counter_line_is_passed_over() {
    let lines = window(&["read bytes,700", "read bytes,abc"]);
    assert_eq!(extract(&lines, 0).bytes_received, 700);
}

#[test]
fn counter_too_large_is_absent() {
    let lines = window(&["read bytes,99999999999999999999"]);
    assert_eq!(extract(&lines, 0).bytes_received, 0);
}

#[test]
fn largest_counter_is_read() {
    let lines = window(&["write bytes,18446744073709551615"]);
    assert_eq!(extract(&lines, 0).bytes_sent, u64::MAX);
}

#[test]
fn counter_field_is_trimmed() {
    let lines = window(&["TUN/TAP write bytes, 42 ,x"]);
    assert_eq!(extract(&lines, 0).bytes_sent, 42);
}

#[test]
fn port_out_of_range_is_absent() {
    let lines = window(&["Peer Connection Initiated with 1.2.3.4:70000 udp"]);
    let snap = extract(&lines, 0);
    assert_eq!(snap.remote_ip, "");
    assert_eq!(snap.remote_port, 0);
}

#[test]
fn non_address_after_marker_is_absent() {
    let lines = window(&["/sbin/ifconfig tun0 up"]);
    assert_eq!(extract(&lines, 0).tunnel_ipv4, "");
}

#[test]
fn counter_with_plus_sign() {
    let lines = window(&["write bytes,+7"]);
    assert_eq!(extract(&lines, 0).bytes_sent, 7);
    assert_eq!(extract(&window(&["write bytes,+"]), 0).bytes_sent, 0);
    assert_eq!(extract(&window(&["write bytes,-7"]), 0).bytes_sent, 0);
}

#[test]
fn counter_trims_unicode_whitespace() {
    let lines = window(&["read bytes,\u{a0}42\u{2003}\u{b},x"]);
    assert_eq!(extract(&lines, 0).bytes_received, 42);
}

#[test]
fn counter_parse_matches_std() {
    for field in ["12", " +12 ", "\u{3000}9", "1 2", "", "+", "x", "18446744073709551616"] {
        let line = format!("read bytes,{},y", field);
        let expected = field.trim().parse::<u64>().unwrap_or(0);
        assert_eq!(extract(&vec![line], 0).bytes_received, expected, "field {:?}", field);
    }
}
