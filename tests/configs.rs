use rbw_vpn_client::clock::timestamp_text;
use rbw_vpn_client::configs::{config_from_file_name, config_name, generated_config, imported_config};

#[test]
fn generated_name_joins_with_dashes() {
    assert_eq!(config_name("alice", "sg", "udp"), "alice-sg-udp");
}

#[test]
fn listing_reads_server_and_protocol_from_name() {
    let c = config_from_file_name("alice-sg-tcp.ovpn", "t".to_string()).unwrap();
    assert_eq!(c.name, "alice-sg-tcp");
    assert_eq!(c.server, "sg");
    assert_eq!(c.protocol, "tcp");
    assert_eq!(c.created_at, "t");
}

#[test]
fn listing_defaults_missing_fields() {
    let c = config_from_file_name("work.ovpn", String::new()).unwrap();
    assert_eq!(c.name, "work");
    assert_eq!(c.server, "unknown");
    assert_eq!(c.protocol, "udp");
    let c = config_from_file_name("a-b.ovpn", String::new()).unwrap();
    assert_eq!(c.server, "b");
    assert_eq!(c.protocol, "udp");
}

#[test]
fn listing_skips_other_files() {
    assert!(config_from_file_name("notes.txt", String::new()).is_none());
    assert!(config_from_file_name("ovpn", String::new()).is_none());
    assert!(config_from_file_name("openvpn.log", String::new()).is_none());
}

#[test]
fn imported_definition_entry() {
    let c = imported_config("mine".to_string(), "t".to_string());
    assert_eq!(c.name, "mine");
    assert_eq!(c.server, "imported");
    assert_eq!(c.protocol, "unknown");
}

#[test]
fn generated_definition_entry() {
    let c = generated_config("bob", "us".to_string(), "tcp".to_string(), "t".to_string());
    assert_eq!(c.name, "bob-us-tcp");
    assert_eq!(c.server, "us");
    assert_eq!(c.protocol, "tcp");
    assert_eq!(c.created_at, "t");
}

#[test]
fn listing_entry_formats_the_creation_time() {
    let c = rbw_vpn_client::configs::listing_entry("alice-sg-udp.ovpn", Some((0, 0))).unwrap();
    assert_eq!(c.created_at, "1970-01-01T00:00:00+00:00");
    assert_eq!(c.server, "sg");
    let c = rbw_vpn_client::configs::listing_entry("x.ovpn", Some((1_700_000_000, 0))).unwrap();
    assert_eq!(c.created_at, "2023-11-14T22:13:20+00:00");
}

#[test]
fn listing_entry_without_time() {
    let c = rbw_vpn_client::configs::listing_entry("x.ovpn", None).unwrap();
    assert_eq!(c.created_at, "");
    assert!(rbw_vpn_client::configs::listing_entry("x.conf", Some((0, 0))).is_none());
}

#[test]
fn listing_entry_out_of_range_time_is_empty() {
    let c = rbw_vpn_client::configs::listing_entry("x.ovpn", Some((i64::MAX, 0))).unwrap();
    assert_eq!(c.created_at, "");
}

#[test]
fn repeated_extension_is_stripped() {
    let c = config_from_file_name("a.ovpn.ovpn", String::new()).unwrap();
    assert_eq!(c.name, "a");
    let c = config_from_file_name(".ovpn", String::new()).unwrap();
    assert_eq!(c.name, "");
}

#[test]
fn timestamp_text_formats_utc() {
    assert_eq!(timestamp_text(0, 0), "1970-01-01T00:00:00+00:00");
    assert_eq!(timestamp_text(1_700_000_000, 500_000_000), "2023-11-14T22:13:20.500+00:00");
    assert_eq!(timestamp_text(i64::MAX, 0), "");
}
