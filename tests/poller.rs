use rbw_vpn_client::poller::{
    connect_at, disconnect_vpn, first_sample, merge_snapshot, reconcile_at, throughput,
};
use rbw_vpn_client::state::AppState;
use rbw_vpn_client::supervisor::{OpenVpnManager, Probe, ProcessHandle, VpnError};
use rbw_vpn_client::telemetry::{extract, TelemetrySnapshot};

fn window(lines: &[&str]) -> Vec<String> {
    lines.iter().map(|l| l.to_string()).collect()
}

fn launched() -> OpenVpnManager {
    let mut m = OpenVpnManager::new("/tmp/configs".to_string());
    m.check_start(true).unwrap();
    m.record_start(Some(ProcessHandle { pid: 7 }), "cfgA".to_string(), "t0".to_string()).unwrap();
    m
}

fn empty_snapshot(at: i64) -> TelemetrySnapshot {
    TelemetrySnapshot {
        tunnel_ipv4: String::new(),
        tunnel_ipv6: String::new(),
        remote_ip: String::new(),
        remote_port: 0,
        protocol: String::new(),
        bytes_sent: 0,
        bytes_received: 0,
        extracted_at: at,
    }
}

#[test]
fn throughput_is_growth_per_second() {
    assert_eq!(throughput(1000, 4000, 3000), 1000);
    assert_eq!(throughput(0, 1500, 500), 3000);
    assert_eq!(throughput(10, 11, 3000), 0);
}

#[test]
fn throughput_is_zero_without_growth_or_time() {
    assert_eq!(throughput(4000, 1000, 3000), 0);
    assert_eq!(throughput(4000, 4000, 3000), 0);
    assert_eq!(throughput(0, 4000, 0), 0);
}

#[test]
fn throughput_is_capped() {
    assert_eq!(throughput(0, u64::MAX, 1), u64::MAX);
}

#[test]
fn connect_reads_tunnel_and_endpoint() {
    let mut m = launched();
    let mut s = AppState::new();
    let lines = window(&[
        "ifconfig 10.8.0.5",
        "Peer Connection Initiated with 203.0.113.9:1194 udp",
    ]);
    let r = connect_at(&mut m, &mut s, Probe::Running, &lines, 1000);
    assert_eq!(r, Ok(()));
    let c = s.get_connection().unwrap();
    assert_eq!(c.config_name, "cfgA");
    assert_eq!(c.private_ipv4, "10.8.0.5");
    assert_eq!(c.server_ip, "203.0.113.9");
    assert_eq!(c.server_port, 1194);
    assert_eq!(c.protocol, "udp");
    assert_eq!(c.connected_at, "t0");
    assert_eq!(c.speed_up, 0);
    assert_eq!(c.speed_down, 0);
}

#[test]
fn connect_fails_when_process_died() {
    let mut m = launched();
    let mut s = AppState::new();
    let r = connect_at(&mut m, &mut s, Probe::Exited, &Vec::new(), 0);
    assert_eq!(r, Err(VpnError::ProcessNotRunning));
    assert!(s.get_connection().is_none());
    assert_eq!(m.process(), None);
}

#[test]
fn reconcile_twice_three_seconds_apart() {
    let mut m = launched();
    let mut s = AppState::new();
    connect_at(&mut m, &mut s, Probe::Running, &Vec::new(), 0).unwrap();
    let first = reconcile_at(&mut m, &mut s, Probe::Running, &window(&["read bytes,1000"]), 10_000).unwrap();
    assert_eq!(first.bytes_received, 1000);
    let second = reconcile_at(&mut m, &mut s, Probe::Running, &window(&["read bytes,4000"]), 13_000).unwrap();
    assert_eq!(second.bytes_received, 4000);
    assert_eq!(second.speed_down, 1000);
    assert_eq!(s.get_connection().unwrap().speed_down, 1000);
}

#[test]
fn first_sample_has_no_throughput() {
    let snap = extract(&window(&["read bytes,5000", "write bytes,7000"]), 3);
    let c = first_sample("cfgB".to_string(), "t".to_string(), &snap);
    assert_eq!(c.bytes_received, 5000);
    assert_eq!(c.bytes_sent, 7000);
    assert_eq!(c.speed_up, 0);
    assert_eq!(c.speed_down, 0);
    assert_eq!(c.sampled_at, 3);
    assert_eq!(c.server, "unknown");
}

#[test]
fn merge_keeps_remote_absent_from_snapshot() {
    let mut base = first_sample("cfg".to_string(), "t".to_string(), &empty_snapshot(0));
    base.server_ip = "1.2.3.4".to_string();
    base.server_port = 1194;
    base.protocol = "udp".to_string();
    base.private_ipv4 = "10.8.0.2".to_string();
    let merged = merge_snapshot(&base, &empty_snapshot(3000));
    assert_eq!(merged.server_ip, "1.2.3.4");
    assert_eq!(merged.server_port, 1194);
    assert_eq!(merged.protocol, "udp");
    assert_eq!(merged.private_ipv4, "10.8.0.2");
    assert_eq!(merged.sampled_at, 3000);
}

#[test]
fn merge_takes_new_facts() {
    let mut base = first_sample("cfg".to_string(), "t".to_string(), &empty_snapshot(0));
    base.server_ip = "1.2.3.4".to_string();
    base.bytes_sent = 100;
    let mut snap = empty_snapshot(2000);
    snap.remote_ip = "5.6.7.8".to_string();
    snap.remote_port = 443;
    snap.bytes_sent = 2100;
    let merged = merge_snapshot(&base, &snap);
    assert_eq!(merged.server_ip, "5.6.7.8");
    assert_eq!(merged.server_port, 443);
    assert_eq!(merged.bytes_sent, 2100);
    assert_eq!(merged.speed_up, 1000);
    assert_eq!(merged.config_name, "cfg");
}

#[test]
fn dead_process_clears_the_record() {
    let mut m = launched();
    let mut s = AppState::new();
    connect_at(&mut m, &mut s, Probe::Running, &Vec::new(), 0).unwrap();
    assert!(reconcile_at(&mut m, &mut s, Probe::Exited, &Vec::new(), 5).is_none());
    assert!(s.get_connection().is_none());
    assert_eq!(m.process(), None);
}

#[test]
fn reconcile_without_record_starts_one() {
    let mut m = launched();
    let mut s = AppState::new();
    let c = reconcile_at(&mut m, &mut s, Probe::Running, &window(&["read bytes,1"]), 5).unwrap();
    assert_eq!(c.config_name, "cfgA");
    assert_eq!(c.connected_at, "t0");
    assert_eq!(c.bytes_received, 1);
    assert_eq!(c.speed_up, 0);
    assert_eq!(c.speed_down, 0);
    assert_eq!(s.get_connection().unwrap().bytes_received, 1);
}

#[test]
fn failed_probe_at_connect_is_recovered_later() {
    let mut m = launched();
    let mut s = AppState::new();
    let r = connect_at(&mut m, &mut s, Probe::Failed, &Vec::new(), 0);
    assert_eq!(r, Err(VpnError::ProcessNotRunning));
    assert!(s.get_connection().is_none());
    assert_eq!(m.process(), Some(ProcessHandle { pid: 7 }));
    let c = reconcile_at(&mut m, &mut s, Probe::Running, &window(&["ifconfig 10.8.0.3"]), 9).unwrap();
    assert_eq!(c.private_ipv4, "10.8.0.3");
    assert_eq!(c.config_name, "cfgA");
}

#[test]
fn counter_going_back_gives_no_throughput() {
    let mut m = launched();
    let mut s = AppState::new();
    connect_at(&mut m, &mut s, Probe::Running, &window(&["write bytes,5000"]), 0).unwrap();
    let c = reconcile_at(&mut m, &mut s, Probe::Running, &window(&["write bytes,100"]), 3000).unwrap();
    assert_eq!(c.bytes_sent, 100);
    assert_eq!(c.speed_up, 0);
}

#[test]
fn disconnect_when_idle_clears_the_record() {
    let mut m = OpenVpnManager::new("/tmp/configs".to_string());
    let mut s = AppState::new();
    s.set_api_key("k".to_string());
    assert_eq!(disconnect_vpn(&mut m, &mut s), None);
    assert!(s.get_connection().is_none());
    assert_eq!(s.get_api_key(), Some("k".to_string()));
}

#[test]
fn disconnect_releases_the_process_and_record() {
    let mut m = launched();
    let mut s = AppState::new();
    connect_at(&mut m, &mut s, Probe::Running, &Vec::new(), 0).unwrap();
    assert_eq!(disconnect_vpn(&mut m, &mut s), Some(ProcessHandle { pid: 7 }));
    assert!(s.get_connection().is_none());
    assert_eq!(m.process(), None);
}
