use deepdash::commands::{
    effective_lan_host, installing_state, restart_failed_state, restart_step, starting_state, state_after_install,
    state_after_start, stopping_state, stops_on_close, tray_command, RestartAction, RestartEvent, TrayCommand,
};
use deepdash::error_mapper::LauncherError;
use deepdash::models::{DshLifecycleStatus, DshState, LauncherConfig};

#[test]
fn publishes_phase_states() {
    assert_eq!(installing_state(Some("1.0.0".to_string())).status, DshLifecycleStatus::SwitchingVersion);
    assert_eq!(installing_state(None).status, DshLifecycleStatus::Installing);
    let starting = starting_state(3080, None);
    assert_eq!(starting.status, DshLifecycleStatus::Starting);
    assert_eq!(starting.port, Some(3080));
    assert_eq!(stopping_state(None).status, DshLifecycleStatus::Stopping);
    let failed = restart_failed_state(LauncherError::new("configReadFailed", "x"), None);
    assert_eq!(failed.status, DshLifecycleStatus::StartFailed);
    assert_eq!(failed.error.unwrap().kind, "configReadFailed");
}

#[test]
fn maps_start_failures_to_statuses() {
    let conflict = LauncherError::new("portConflict", "m").with_port(4000);
    let state = state_after_start(Err(conflict), 3080, None);
    assert_eq!(state.status, DshLifecycleStatus::PortConflict);
    assert_eq!(state.port, Some(4000));
    let state = state_after_start(Err(LauncherError::new("startupTimeout", "m")), 3080, None);
    assert_eq!(state.status, DshLifecycleStatus::StartupTimeout);
    assert_eq!(state.port, Some(3080));
    let state = state_after_start(Err(LauncherError::new("dshMissing", "m")), 3080, None);
    assert_eq!(state.status, DshLifecycleStatus::StartFailed);
    let ok = DshState::ready(None);
    assert_eq!(state_after_start(Ok(ok), 1, None).status, DshLifecycleStatus::ReadyToStart);
}

#[test]
fn maps_install_outcomes_to_statuses() {
    let state = state_after_install(Err(LauncherError::new("operationCanceled", "m")), Some("1.0.0".to_string()));
    assert_eq!(state.status, DshLifecycleStatus::ReadyToStart);
    assert_eq!(state.current_version.as_deref(), Some("1.0.0"));
    assert!(state.error.is_none());
    let state = state_after_install(Err(LauncherError::new("npmInstallFailed", "m")), None);
    assert_eq!(state.status, DshLifecycleStatus::StartFailed);
    assert_eq!(state.port, None);
    let state = state_after_install(Err(LauncherError::new("portConflict", "m").with_port(9)), None);
    assert_eq!(state.status, DshLifecycleStatus::PortConflict);
    assert_eq!(state.port, Some(9));
}

#[test]
fn decides_lan_window_and_tray() {
    let mut config = LauncherConfig::default();
    config.lan_host = Some("192.168.2.9".to_string());
    assert_eq!(effective_lan_host(&config), None);
    config.lan_enabled = true;
    assert_eq!(effective_lan_host(&config).as_deref(), Some("192.168.2.9"));
    assert!(stops_on_close(DshLifecycleStatus::Running));
    assert!(stops_on_close(DshLifecycleStatus::Starting));
    assert!(stops_on_close(DshLifecycleStatus::Stopping));
    assert!(!stops_on_close(DshLifecycleStatus::Stopped));
    assert!(!stops_on_close(DshLifecycleStatus::PortConflict));
    assert_eq!(tray_command("show"), TrayCommand::Show);
    assert_eq!(tray_command("restart"), TrayCommand::Restart);
    assert_eq!(tray_command("quit"), TrayCommand::Quit);
    assert_eq!(tray_command("other"), TrayCommand::Ignore);
}

#[test]
fn restart_steps_in_order() {
    let current = Some("1.0.0".to_string());
    match restart_step(&current, RestartEvent::Begin) {
        RestartAction::Stop { publish } => {
            assert_eq!(publish.status, DshLifecycleStatus::Stopping);
            assert_eq!(publish.current_version.as_deref(), Some("1.0.0"));
        }
        other => panic!("{other:?}"),
    }
    let stopped = DshState::stopped(current.clone());
    assert!(matches!(restart_step(&current, RestartEvent::Stopped(Ok(stopped))), RestartAction::LoadConfig));
    let failure = LauncherError::new("configReadFailed", "bad");
    match restart_step(&current, RestartEvent::ConfigLoaded(Err(failure))) {
        RestartAction::Finish { publish } => {
            assert_eq!(publish.status, DshLifecycleStatus::StartFailed);
            assert_eq!(publish.port, None);
            assert_eq!(publish.error.unwrap().kind, "configReadFailed");
        }
        other => panic!("{other:?}"),
    }
    let config = LauncherConfig {
        port: 4100,
        theme: "dark".to_string(),
        lan_enabled: true,
        lan_host: Some("10.0.0.2".to_string()),
    };
    match restart_step(&current, RestartEvent::ConfigLoaded(Ok(config))) {
        RestartAction::Start { publish, port, lan_host } => {
            assert_eq!(publish.status, DshLifecycleStatus::Starting);
            assert_eq!(publish.port, Some(4100));
            assert_eq!(port, 4100);
            assert_eq!(lan_host.as_deref(), Some("10.0.0.2"));
        }
        other => panic!("{other:?}"),
    }
    let timeout = LauncherError::new("startupTimeout", "slow");
    match restart_step(&current, RestartEvent::Started { port: 4100, result: Err(timeout) }) {
        RestartAction::Finish { publish } => {
            assert_eq!(publish.status, DshLifecycleStatus::StartupTimeout);
            assert_eq!(publish.port, Some(4100));
        }
        other => panic!("{other:?}"),
    }
    let denied = LauncherError::new("processFailed", "no");
    match restart_step(&current, RestartEvent::Stopped(Err(denied))) {
        RestartAction::Finish { publish } => assert_eq!(publish.status, DshLifecycleStatus::StartFailed),
        other => panic!("{other:?}"),
    }
}
