//! The states that the launcher's commands publish around starting,
//! stopping, restarting and installing DSH, and the other decisions that
//! the command handlers, the tray and the main window make.
use vstd::prelude::*;

use crate::error_mapper::LauncherError;
use crate::models::{bare_state, DshLifecycleStatus, DshState, LauncherConfig};
use crate::text::{copy_opt, opt_view, same_text};

verus! {

/// A state with a status, a port and a version, and nothing else set.
pub open spec fn phase_state(
    s: DshState,
    status: DshLifecycleStatus,
    port: Option<u16>,
    version: Option<String>,
) -> bool {
    &&& s.status == status
    &&& s.port == port
    &&& s.url is None
    &&& s.lan_url is None
    &&& !s.lan_connected
    &&& s.current_version == version
    &&& s.error is None
}

/// A failed state: a status, a port, a version and the error.
pub open spec fn failed_state(
    s: DshState,
    status: DshLifecycleStatus,
    port: Option<u16>,
    version: Option<String>,
    error: LauncherError,
) -> bool {
    &&& s.status == status
    &&& s.port == port
    &&& s.url is None
    &&& s.lan_url is None
    &&& !s.lan_connected
    &&& s.current_version == version
    &&& s.error == Some(error)
}

fn phase(status: DshLifecycleStatus, port: Option<u16>, version: Option<String>) -> (s: DshState)
    ensures
        phase_state(s, status, port, version),
{
    DshState { status, port, url: None, lan_url: None, lan_connected: false, current_version: version, error: None }
}

fn failed(status: DshLifecycleStatus, port: Option<u16>, version: Option<String>, error: LauncherError) -> (s: DshState)
    ensures
        failed_state(s, status, port, version, error),
{
    DshState {
        status,
        port,
        url: None,
        lan_url: None,
        lan_connected: false,
        current_version: version,
        error: Some(error),
    }
}

/// Published while a version is installed: switching when one is
/// installed already, installing otherwise.
pub fn installing_state(current: Option<String>) -> (s: DshState)
    ensures
        phase_state(
            s,
            if current is Some {
                DshLifecycleStatus::SwitchingVersion
            } else {
                DshLifecycleStatus::Installing
            },
            None,
            current,
        ),
{
    let status = if current.is_some() {
        DshLifecycleStatus::SwitchingVersion
    } else {
        DshLifecycleStatus::Installing
    };
    phase(status, None, current)
}

/// Published after an install: its state when it succeeded; ready with the
/// installed version when it was cancelled; otherwise a failure (a port
/// conflict or a failed start) with the error's port.
pub fn state_after_install(result: Result<DshState, LauncherError>, current: Option<String>) -> (s: DshState)
    ensures
        match result {
            Ok(next) => s == next,
            Err(e) => if e.kind@ == "operationCanceled"@ {
                bare_state(s, DshLifecycleStatus::ReadyToStart, current)
            } else {
                failed_state(
                    s,
                    if e.kind@ == "portConflict"@ {
                        DshLifecycleStatus::PortConflict
                    } else {
                        DshLifecycleStatus::StartFailed
                    },
                    e.port,
                    current,
                    e,
                )
            },
        },
{
    match result {
        Ok(next) => next,
        Err(e) => {
            if same_text(e.kind.as_str(), "operationCanceled") {
                return DshState::ready(current);
            }
            let status = if same_text(e.kind.as_str(), "portConflict") {
                DshLifecycleStatus::PortConflict
            } else {
                DshLifecycleStatus::StartFailed
            };
            let port = e.port;
            failed(status, port, current, e)
        },
    }
}

/// Published while DSH starts on a port.
pub fn starting_state(port: u16, current: Option<String>) -> (s: DshState)
    ensures
        phase_state(s, DshLifecycleStatus::Starting, Some(port), current),
{
    phase(DshLifecycleStatus::Starting, Some(port), current)
}

/// The status a failed start is reported with.
pub open spec fn start_failure_status(kind: Seq<char>) -> DshLifecycleStatus {
    if kind == "portConflict"@ {
        DshLifecycleStatus::PortConflict
    } else if kind == "startupTimeout"@ {
        DshLifecycleStatus::StartupTimeout
    } else {
        DshLifecycleStatus::StartFailed
    }
}

/// Published after a start on `port`: its state when it succeeded;
/// otherwise the failure, on the error's port or else `port`.
pub fn state_after_start(result: Result<DshState, LauncherError>, port: u16, current: Option<String>) -> (s: DshState)
    ensures
        match result {
            Ok(next) => s == next,
            Err(e) => failed_state(
                s,
                start_failure_status(e.kind@),
                match e.port {
                    Some(p) => Some(p),
                    None => Some(port),
                },
                current,
                e,
            ),
        },
{
    match result {
        Ok(next) => next,
        Err(e) => {
            let status = if same_text(e.kind.as_str(), "portConflict") {
                DshLifecycleStatus::PortConflict
            } else if same_text(e.kind.as_str(), "startupTimeout") {
                DshLifecycleStatus::StartupTimeout
            } else {
                DshLifecycleStatus::StartFailed
            };
            let at = match e.port {
                Some(p) => Some(p),
                None => Some(port),
            };
            failed(status, at, current, e)
        },
    }
}

/// Published while DSH stops.
pub fn stopping_state(current: Option<String>) -> (s: DshState)
    ensures
        phase_state(s, DshLifecycleStatus::Stopping, None, current),
{
    phase(DshLifecycleStatus::Stopping, None, current)
}

/// Published when a restart fails before DSH is started again.
pub fn restart_failed_state(error: LauncherError, current: Option<String>) -> (s: DshState)
    ensures
        failed_state(s, DshLifecycleStatus::StartFailed, None, current, error),
{
    failed(DshLifecycleStatus::StartFailed, None, current, error)
}

/// The LAN address DSH should listen on: the configured one, when LAN
/// access is enabled.
pub fn effective_lan_host(config: &LauncherConfig) -> (host: Option<String>)
    ensures
        opt_view(host) == (if config.lan_enabled {
            opt_view(config.lan_host)
        } else {
            None
        }),
{
    if config.lan_enabled {
        copy_opt(&config.lan_host)
    } else {
        None
    }
}

/// `s` is a state with a status, a port and the version's characters, and
/// nothing else set.
pub open spec fn phase_view(
    s: DshState,
    status: DshLifecycleStatus,
    port: Option<u16>,
    version: Option<Seq<char>>,
) -> bool {
    &&& s.status == status
    &&& s.port == port
    &&& s.url is None
    &&& s.lan_url is None
    &&& !s.lan_connected
    &&& opt_view(s.current_version) == version
    &&& s.error is None
}

/// `s` is a failed state with a status, a port, the version's characters
/// and the error.
pub open spec fn failed_view(
    s: DshState,
    status: DshLifecycleStatus,
    port: Option<u16>,
    version: Option<Seq<char>>,
    error: LauncherError,
) -> bool {
    &&& s.status == status
    &&& s.port == port
    &&& s.url is None
    &&& s.lan_url is None
    &&& !s.lan_connected
    &&& opt_view(s.current_version) == version
    &&& s.error == Some(error)
}

/// What a step of a restart from the tray found.
#[derive(Debug)]
pub enum RestartEvent {
    /// Nothing yet.
    Begin,
    /// DSH was stopped, or could not be.
    Stopped(Result<DshState, LauncherError>),
    /// The configuration was loaded, or could not be.
    ConfigLoaded(Result<LauncherConfig, LauncherError>),
    /// DSH was started on the port.
    Started { port: u16, result: Result<DshState, LauncherError> },
}

/// What a restart does next; each action first publishes its state.
#[derive(Debug)]
pub enum RestartAction {
    /// Publish the state, then stop DSH.
    Stop { publish: DshState },
    /// Load the configuration.
    LoadConfig,
    /// Publish the state, then start DSH on the port and LAN address.
    Start { publish: DshState, port: u16, lan_host: Option<String> },
    /// Publish the state; the restart is over.
    Finish { publish: DshState },
}

/// The step of a restart that follows `event` (see `restart_step`).
pub open spec fn restart_transition(current: Option<Seq<char>>, event: RestartEvent, action: RestartAction) -> bool {
    match event {
        RestartEvent::Begin => action matches RestartAction::Stop { publish } && phase_view(
            publish,
            DshLifecycleStatus::Stopping,
            None,
            current,
        ),
        RestartEvent::Stopped(result) => match result {
            Err(e) => action matches RestartAction::Finish { publish } && failed_view(
                publish,
                DshLifecycleStatus::StartFailed,
                None,
                current,
                e,
            ),
            Ok(_) => action is LoadConfig,
        },
        RestartEvent::ConfigLoaded(result) => match result {
            Err(e) => action matches RestartAction::Finish { publish } && failed_view(
                publish,
                DshLifecycleStatus::StartFailed,
                None,
                current,
                e,
            ),
            Ok(config) => action matches RestartAction::Start { publish, port, lan_host } && phase_view(
                publish,
                DshLifecycleStatus::Starting,
                Some(config.port),
                current,
            ) && port == config.port && opt_view(lan_host) == (if config.lan_enabled {
                opt_view(config.lan_host)
            } else {
                None
            }),
        },
        RestartEvent::Started { port, result } => action matches RestartAction::Finish { publish } && match result {
            Ok(next) => publish == next,
            Err(e) => failed_view(
                publish,
                start_failure_status(e.kind@),
                match e.port {
                    Some(p) => Some(p),
                    None => Some(port),
                },
                current,
                e,
            ),
        },
    }
}

/// The next step of a restart of DSH from the tray, given the installed
/// version: publish Stopping and stop DSH; on failure publish it and end;
/// load the configuration, publishing a failure and ending when it cannot
/// be loaded; publish Starting and start DSH on the configured port and
/// (when enabled) LAN address; publish what the start gave.
pub fn restart_step(current: &Option<String>, event: RestartEvent) -> (action: RestartAction)
    ensures
        restart_transition(opt_view(*current), event, action),
{
    match event {
        RestartEvent::Begin => RestartAction::Stop { publish: stopping_state(copy_opt(current)) },
        RestartEvent::Stopped(result) => match result {
            Err(e) => RestartAction::Finish { publish: restart_failed_state(e, copy_opt(current)) },
            Ok(_) => RestartAction::LoadConfig,
        },
        RestartEvent::ConfigLoaded(result) => match result {
            Err(e) => RestartAction::Finish { publish: restart_failed_state(e, copy_opt(current)) },
            Ok(config) => RestartAction::Start {
                publish: starting_state(config.port, copy_opt(current)),
                port: config.port,
                lan_host: effective_lan_host(&config),
            },
        },
        RestartEvent::Started { port, result } => RestartAction::Finish {
            publish: state_after_start(result, port, copy_opt(current)),
        },
    }
}

/// A restart loads the configuration only after DSH was stopped, and
/// starts DSH again only once the configuration loaded, on its port.
pub proof fn law_restart_starts_only_with_config(
    current: Option<Seq<char>>,
    event: RestartEvent,
    action: RestartAction,
)
    requires
        restart_transition(current, event, action),
    ensures
        action is LoadConfig ==> event matches RestartEvent::Stopped(Ok(_)),
        action is Start ==> (event matches RestartEvent::ConfigLoaded(Ok(config)) && action->Start_port
            == config.port),
{
}

/// A restart listens where a plain start would: with LAN access disabled it
/// passes no LAN address (DSH listens on 127.0.0.1 only), whatever address
/// is still stored; with it enabled it passes the stored address.
pub proof fn law_restart_listens_as_configured(
    current: Option<Seq<char>>,
    config: LauncherConfig,
    action: RestartAction,
)
    requires
        restart_transition(current, RestartEvent::ConfigLoaded(Ok(config)), action),
    ensures
        action matches RestartAction::Start { port, lan_host, .. } && port == config.port,
        !config.lan_enabled ==> action->Start_lan_host is None,
        config.lan_enabled ==> opt_view(action->Start_lan_host) == opt_view(config.lan_host),
{
}

/// A status in which DSH is (or is about to be) serving: closing the
/// window then stops DSH instead of hiding the launcher.
pub open spec fn is_active(status: DshLifecycleStatus) -> bool {
    status == DshLifecycleStatus::Starting || status == DshLifecycleStatus::Running || status
        == DshLifecycleStatus::Stopping
}

pub fn stops_on_close(status: DshLifecycleStatus) -> (r: bool)
    ensures
        r == is_active(status),
{
    match status {
        DshLifecycleStatus::Starting => true,
        DshLifecycleStatus::Running => true,
        DshLifecycleStatus::Stopping => true,
        _ => false,
    }
}

/// What a tray menu entry does.
#[derive(Clone, Copy, Debug, PartialEq, Eq, Structural)]
pub enum TrayCommand {
    Show,
    Restart,
    Quit,
    Ignore,
}

pub fn tray_command(id: &str) -> (c: TrayCommand)
    ensures
        c == (if id@ == "show"@ {
            TrayCommand::Show
        } else if id@ == "restart"@ {
            TrayCommand::Restart
        } else if id@ == "quit"@ {
            TrayCommand::Quit
        } else {
            TrayCommand::Ignore
        }),
{
    if same_text(id, "show") {
        TrayCommand::Show
    } else if same_text(id, "restart") {
        TrayCommand::Restart
    } else if same_text(id, "quit") {
        TrayCommand::Quit
    } else {
        TrayCommand::Ignore
    }
}

/// Closing the window stops DSH only while it is starting, running or
/// stopping; in every other status (installed and ready, stopped, not
/// installed, installing, failed) the window is hidden to the tray.
pub proof fn law_close_stops_only_while_serving(status: DshLifecycleStatus, stops: bool)
    requires
        stops == is_active(status),
    ensures
        stops <==> (status matches DshLifecycleStatus::Starting || status matches DshLifecycleStatus::Running
            || status matches DshLifecycleStatus::Stopping),
        status matches DshLifecycleStatus::ReadyToStart ==> !stops,
        status matches DshLifecycleStatus::Stopped ==> !stops,
        status matches DshLifecycleStatus::NotInstalled ==> !stops,
        status matches DshLifecycleStatus::Installing ==> !stops,
        status matches DshLifecycleStatus::SwitchingVersion ==> !stops,
        status matches DshLifecycleStatus::PortConflict ==> !stops,
        status matches DshLifecycleStatus::StartFailed ==> !stops,
        status matches DshLifecycleStatus::StartupTimeout ==> !stops,
{
}

} // verus!
