use rbw_vpn_client::supervisor::{launch_args, stop_result, OpenVpnManager, Probe, ProcessHandle, VpnError};

fn running() -> OpenVpnManager {
    let mut m = OpenVpnManager::new("/tmp/configs".to_string());
    assert_eq!(m.check_start(true), Ok(()));
    assert_eq!(m.record_start(Some(ProcessHandle { pid: 42 }), "cfgA".to_string(), "t0".to_string()), Ok(()));
    m
}

#[test]
fn new_manager_holds_nothing() {
    let m = OpenVpnManager::new("/tmp/configs".to_string());
    assert_eq!(m.process(), None);
    assert_eq!(m.config_dir(), "/tmp/configs");
}

#[test]
fn start_without_definition_fails() {
    let m = OpenVpnManager::new("/tmp/configs".to_string());
    assert_eq!(m.check_start(false), Err(VpnError::ConfigMissing));
}

#[test]
fn second_start_is_refused() {
    let m = running();
    assert_eq!(m.check_start(true), Err(VpnError::AlreadyRunning));
    assert_eq!(m.process(), Some(ProcessHandle { pid: 42 }));
}

#[test]
fn failed_launch_holds_nothing() {
    let mut m = OpenVpnManager::new("/tmp/configs".to_string());
    assert_eq!(m.record_start(None, "cfgA".to_string(), "t0".to_string()), Err(VpnError::SpawnFailed));
    assert_eq!(m.process(), None);
}

#[test]
fn stop_when_idle_succeeds() {
    let mut m = OpenVpnManager::new("/tmp/configs".to_string());
    let taken = m.disconnect();
    assert_eq!(taken, None);
    assert_eq!(stop_result(taken, false), Ok(()));
}

#[test]
fn stop_releases_the_handle() {
    let mut m = running();
    let taken = m.disconnect();
    assert_eq!(taken, Some(ProcessHandle { pid: 42 }));
    assert_eq!(m.process(), None);
    assert_eq!(stop_result(taken, true), Ok(()));
    assert_eq!(m.disconnect(), None);
}

#[test]
fn undelivered_signal_is_reported() {
    let mut m = running();
    let taken = m.disconnect();
    assert_eq!(stop_result(taken, false), Err(VpnError::KillFailed));
    assert_eq!(m.process(), None);
}

#[test]
fn exited_process_is_released_by_the_probe() {
    let mut m = running();
    assert!(!m.is_connected(Probe::Exited));
    assert_eq!(m.process(), None);
    assert_eq!(m.check_start(true), Ok(()));
}

#[test]
fn running_process_is_alive() {
    let mut m = running();
    assert!(m.is_connected(Probe::Running));
    assert_eq!(m.process(), Some(ProcessHandle { pid: 42 }));
}

#[test]
fn failed_probe_keeps_the_handle() {
    let mut m = running();
    assert!(!m.is_connected(Probe::Failed));
    assert_eq!(m.process(), Some(ProcessHandle { pid: 42 }));
}

#[test]
fn nothing_held_is_not_alive() {
    let mut m = OpenVpnManager::new("/tmp/configs".to_string());
    assert!(!m.is_connected(Probe::Running));
}

#[test]
fn launch_remembers_the_definition_and_time() {
    let m = running();
    assert_eq!(m.config_name(), "cfgA");
    assert_eq!(m.started_at(), "t0");
}

#[test]
fn launch_arguments() {
    assert_eq!(launch_args("/c/a.ovpn", None), vec!["--config", "/c/a.ovpn"]);
    assert_eq!(
        launch_args("/c/a.ovpn", Some("/c/a.creds")),
        vec!["--config", "/c/a.ovpn", "--auth-user-pass", "/c/a.creds"]
    );
}

#[test]
fn error_message_text() {
    assert_eq!(VpnError::ConfigMissing.message(), "Config file not found");
    assert_eq!(VpnError::KillFailed.message(), "Failed to kill OpenVPN process");
}

#[test]
fn error_messages_are_not_empty() {
    for e in [
        VpnError::ConfigMissing,
        VpnError::AlreadyRunning,
        VpnError::SpawnFailed,
        VpnError::ProcessNotRunning,
        VpnError::KillFailed,
    ] {
        assert!(!e.message().is_empty());
    }
}
