//! The launcher's data model: configuration, tool probes, environment
//! status, DSH versions, errors and the DSH lifecycle state.
use vstd::prelude::*;

use crate::text::owned;

verus! {

/// The persisted launcher preferences.
#[derive(Clone, Debug)]
pub struct LauncherConfig {
    pub port: u16,
    pub theme: String,
    pub lan_enabled: bool,
    pub lan_host: Option<String>,
}

impl Default for LauncherConfig {
    fn default() -> (config: Self)
        ensures
            config.port == 3080,
            config.theme@ == "system"@,
            !config.lan_enabled,
            config.lan_host is None,
    {
        LauncherConfig { port: 3080, theme: default_theme(), lan_enabled: false, lan_host: None }
    }
}

/// A local network address that DSH may listen on.
#[derive(Clone, Debug)]
pub struct LanHost {
    pub name: String,
    pub address: String,
}

/// The theme used when none is stored.
pub fn default_theme() -> (theme: String)
    ensures
        theme@ == "system"@,
{
    owned("system")
}

/// What a probe of one command-line tool found.
#[derive(Clone, Debug)]
pub struct ToolInfo {
    pub found: bool,
    pub path: Option<String>,
    pub version: Option<String>,
    pub error: Option<String>,
}

/// The result of probing Node.js, npm and DSH.
#[derive(Clone, Debug)]
pub struct EnvironmentInfo {
    pub node: ToolInfo,
    pub npm: ToolInfo,
    pub prefix: Option<String>,
    pub dsh: ToolInfo,
    pub status: EnvironmentStatus,
    pub checked_at: String,
}

#[derive(Clone, Copy, Debug, PartialEq, Eq, Structural)]
pub enum EnvironmentStatus {
    Ready,
    MissingNode,
    BrokenNode,
    MissingNpm,
    BrokenNpm,
    MissingDsh,
    BrokenDsh,
}

/// One published version of the DSH package, as the version page lists it.
#[derive(Clone, Debug)]
pub struct DshVersion {
    pub version: String,
    pub tags: Vec<String>,
    pub prerelease: bool,
    pub stable: bool,
    pub current: bool,
    pub installed: bool,
    pub published_at: Option<String>,
}

/// An error shown to the user: a machine-readable kind, a message, and
/// optional detail, suggested action and port.
#[derive(Clone, Debug)]
pub struct LauncherError {
    pub kind: String,
    pub message: String,
    pub detail: Option<String>,
    pub action: Option<String>,
    pub port: Option<u16>,
}

#[derive(Clone, Copy, Debug, PartialEq, Eq, Structural)]
pub enum DshLifecycleStatus {
    NotInstalled,
    ReadyToStart,
    Installing,
    SwitchingVersion,
    Starting,
    Running,
    Stopping,
    Stopped,
    PortConflict,
    StartFailed,
    StartupTimeout,
}

/// The state of the DSH web service as the launcher reports it.
#[derive(Clone, Debug)]
pub struct DshState {
    pub status: DshLifecycleStatus,
    pub port: Option<u16>,
    pub url: Option<String>,
    pub lan_url: Option<String>,
    pub lan_connected: bool,
    pub current_version: Option<String>,
    pub error: Option<LauncherError>,
}

/// A state with the given status and version and nothing else set.
pub open spec fn bare_state(state: DshState, status: DshLifecycleStatus, version: Option<String>) -> bool {
    &&& state.status == status
    &&& state.port is None
    &&& state.url is None
    &&& state.lan_url is None
    &&& !state.lan_connected
    &&& state.current_version == version
    &&& state.error is None
}

impl DshState {
    /// DSH is installed (in `version`) and not running.
    pub fn ready(version: Option<String>) -> (state: Self)
        ensures
            bare_state(state, DshLifecycleStatus::ReadyToStart, version),
    {
        DshState {
            status: DshLifecycleStatus::ReadyToStart,
            port: None,
            url: None,
            lan_url: None,
            lan_connected: false,
            current_version: version,
            error: None,
        }
    }

    /// DSH has been stopped.
    pub fn stopped(version: Option<String>) -> (state: Self)
        ensures
            bare_state(state, DshLifecycleStatus::Stopped, version),
    {
        DshState {
            status: DshLifecycleStatus::Stopped,
            port: None,
            url: None,
            lan_url: None,
            lan_connected: false,
            current_version: version,
            error: None,
        }
    }
}

/// Progress of a long operation, for the progress bar.
#[derive(Clone, Debug)]
pub struct OperationProgress {
    pub operation: String,
    pub phase: String,
    pub message: String,
    pub percent: Option<u8>,
}

} // verus!
