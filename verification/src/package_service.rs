//! Installing or switching the global DSH package with npm: the version
//! check, the npm command line, and the decisions between the steps.
use vstd::prelude::*;

use crate::error_mapper::{error_is, map_npm_failure, plain_error, LauncherError};
use crate::models::{bare_state, DshState, OperationProgress};
use crate::semver_support::{is_semver, parse_version};
use crate::text::{copy_opt, first_chars, join2, join3, limit_text, opt_view, owned, same_text};

verus! {

/// Longest accepted version text, in bytes.
pub const VERSION_LIMIT: usize = 120;

/// Longest npm output passed on as the failure's detail.
pub const NPM_OUTPUT_LIMIT: usize = 1800;

/// The package that is installed.
pub open spec fn package_spec(version: Seq<char>) -> Seq<char> {
    "@deepseek-ai/dsh@"@ + version
}

/// A version text that may be installed: at most 120 bytes and a semantic
/// version.
pub open spec fn installable(version: Seq<char>) -> bool {
    (vstd::utf8::encode_utf8(version).len() as usize) <= 120 && is_semver(version)
}

pub fn validate_version(version: &str) -> (r: Result<(), LauncherError>)
    ensures
        r is Ok <==> installable(version@),
        r matches Err(e) ==> plain_error(e, "invalidVersion"@, "版本号格式无效。"@),
{
    if version.len() > VERSION_LIMIT || parse_version(version).is_none() {
        return Err(LauncherError::new("invalidVersion", "版本号格式无效。"));
    }
    Ok(())
}

/// The arguments of the global npm install of a version.
pub open spec fn install_args(version: Seq<char>) -> Seq<Seq<char>> {
    seq!["install"@, "--global"@, "--no-audit"@, "--no-fund"@, package_spec(version)]
}

pub fn npm_install_args(version: &str) -> (args: Vec<String>)
    ensures
        args@.map_values(|s: String| s@) == install_args(version@),
{
    let mut args: Vec<String> = Vec::new();
    args.push(owned("install"));
    args.push(owned("--global"));
    args.push(owned("--no-audit"));
    args.push(owned("--no-fund"));
    args.push(join2("@deepseek-ai/dsh@", version));
    assert(args@.map_values(|s: String| s@) =~= install_args(version@));
    args
}

/// `p` is the given progress report.
pub open spec fn progress_is(
    p: OperationProgress,
    operation: Seq<char>,
    phase: Seq<char>,
    message: Seq<char>,
    percent: u8,
) -> bool {
    p.operation@ == operation && p.phase@ == phase && p.message@ == message && p.percent == Some(percent)
}

/// What an install was asked for.
#[derive(Clone, Debug)]
pub struct InstallRequest {
    pub version: String,
    pub current_version: Option<String>,
}

/// What a step of an install found.
#[derive(Debug)]
pub enum InstallEvent {
    /// Nothing yet.
    Begin,
    /// The operation lock is held and the cancel flag cleared.
    Locked,
    /// The running DSH service has been stopped.
    Stopped,
    /// The npm executable was looked up.
    NpmResolved(Result<String, LauncherError>),
    /// npm was started, or could not be (the reason).
    NpmSpawned(Result<(), String>),
    /// npm's status could not be read; the reason.
    NpmWaitFailed(String),
    /// npm exited: whether the install was cancelled meanwhile, whether npm
    /// succeeded, and its captured output.
    NpmExited { cancelled: bool, success: bool, output: String },
    /// The environment was detected again; the `dsh` version it reports.
    Verified(Option<String>),
}

/// What an install does next.
#[derive(Debug)]
pub enum InstallAction {
    /// Take the operation lock and clear the cancel flag.
    Lock,
    /// Stop the running DSH service.
    StopService,
    /// Find npm.
    ResolveNpm,
    /// Publish the progress and start npm with these arguments.
    SpawnNpm { npm_path: String, args: Vec<String>, progress: OperationProgress },
    /// Wait for npm to exit.
    AwaitNpm,
    /// Publish the progress and detect the environment again.
    Verify { progress: OperationProgress },
    /// Stop with the result, publishing the progress first if any.
    Finish { result: Result<DshState, LauncherError>, progress: Option<OperationProgress> },
}

/// `a` finishes with an error and no progress.
pub open spec fn install_fails(a: InstallAction) -> bool {
    a matches InstallAction::Finish { result: Err(_), progress } && progress is None
}

pub open spec fn install_error(a: InstallAction) -> LauncherError {
    a->Finish_result->Err_0
}

/// The step of an install that follows `event` (see `DshPackageService::install_or_switch`).
pub open spec fn install_transition(request: InstallRequest, event: InstallEvent, action: InstallAction) -> bool {
    let version = request.version@;
    match event {
        InstallEvent::Begin => if installable(version) {
            action is Lock
        } else {
            install_fails(action) && plain_error(install_error(action), "invalidVersion"@, "版本号格式无效。"@)
        },
        InstallEvent::Locked => if request.current_version is Some {
            action is StopService
        } else {
            action is ResolveNpm
        },
        InstallEvent::Stopped => action is ResolveNpm,
        InstallEvent::NpmResolved(found) => match found {
            Err(e) => action matches InstallAction::Finish { result: Err(f), progress } && f == e && progress is None,
            Ok(path) => action matches InstallAction::SpawnNpm { npm_path, args, progress } && npm_path == path
                && args@.map_values(|s: String| s@) == install_args(version) && progress_is(
                progress,
                if opt_view(request.current_version) == Some(version) {
                    "install"@
                } else {
                    "switch"@
                },
                "npm"@,
                "正在通过本机 npm 安装 "@ + version,
                25,
            ),
        },
        InstallEvent::NpmSpawned(result) => match result {
            Err(reason) => install_fails(action) && error_is(
                install_error(action),
                "npmInstallFailed"@,
                "无法启动 npm 全局安装。"@,
                Some(first_chars(reason@, 1200)),
                None,
                None,
            ),
            Ok(()) => action is AwaitNpm,
        },
        InstallEvent::NpmWaitFailed(reason) => install_fails(action) && error_is(
            install_error(action),
            "npmInstallFailed"@,
            "无法读取 npm 全局安装状态。"@,
            Some(first_chars(reason@, 1200)),
            None,
            None,
        ),
        InstallEvent::NpmExited { cancelled, success, output } => if cancelled {
            install_fails(action) && plain_error(install_error(action), "operationCanceled"@, "已取消 npm 全局安装。"@)
        } else if !success {
            install_fails(action) && error_is(
                install_error(action),
                if crate::error_mapper::reports_npm_denied(
                    crate::text::ascii_lowercase(first_chars(output@, 1800)),
                ) {
                    "permissionDenied"@
                } else {
                    "npmInstallFailed"@
                },
                "npm 全局安装未完成。"@,
                Some(first_chars(output@, 1200)),
                Some("确认 npm 默认 global prefix 可写，并检查网络后重试。"@),
                None,
            )
        } else {
            action matches InstallAction::Verify { progress } && progress_is(
                progress,
                "switch"@,
                "verify"@,
                "正在确认全局 dsh 版本"@,
                90,
            )
        },
        InstallEvent::Verified(detected) => if opt_view(detected) == Some(version) {
            action matches InstallAction::Finish { result: Ok(s), progress } && bare_state(
                s,
                crate::models::DshLifecycleStatus::ReadyToStart,
                detected,
            ) && progress is Some && progress_is(progress->0, "switch"@, "done"@, "已切换到 DSH "@ + version, 100)
        } else {
            install_fails(action) && error_is(
                install_error(action),
                "verificationFailed"@,
                "npm 已完成，但 dsh --version 与目标版本不一致。"@,
                Some(first_chars(
                    "检测到："@ + (match detected {
                        Some(d) => d@,
                        None => "未知"@,
                    }) + "；目标："@ + version,
                    1200,
                )),
                Some("重新检测环境，确认 PATH 指向本机 npm global prefix。"@),
                None,
            )
        },
    }
}

fn progress(operation: &str, phase: &str, message: String, percent: u8) -> (p: OperationProgress)
    ensures
        progress_is(p, operation@, phase@, message@, percent),
{
    OperationProgress { operation: owned(operation), phase: owned(phase), message, percent: Some(percent) }
}

/// The package service: npm runs elsewhere; this decides each step of an
/// install.
pub struct DshPackageService;

impl DshPackageService {
    /// The next step of installing or switching to `request.version`: the
    /// version must be installable; the running service is stopped when DSH
    /// is installed; npm installs the package globally; a cancelled or failed
    /// install is an error; and the install only succeeds when `dsh` then
    /// reports the requested version.
    pub fn install_or_switch(&self, request: &InstallRequest, event: InstallEvent) -> (action: InstallAction)
        ensures
            install_transition(*request, event, action),
    {
        let version = request.version.as_str();
        match event {
            InstallEvent::Begin => match validate_version(version) {
                Ok(()) => InstallAction::Lock,
                Err(e) => InstallAction::Finish { result: Err(e), progress: None },
            },
            InstallEvent::Locked => {
                if request.current_version.is_some() {
                    InstallAction::StopService
                } else {
                    InstallAction::ResolveNpm
                }
            },
            InstallEvent::Stopped => InstallAction::ResolveNpm,
            InstallEvent::NpmResolved(found) => match found {
                Err(e) => InstallAction::Finish { result: Err(e), progress: None },
                Ok(npm_path) => {
                    let same = match &request.current_version {
                        Some(c) => same_text(c.as_str(), version),
                        None => false,
                    };
                    let operation = if same {
                        "install"
                    } else {
                        "switch"
                    };
                    let p = progress(operation, "npm", join2("正在通过本机 npm 安装 ", version), 25);
                    InstallAction::SpawnNpm { npm_path, args: npm_install_args(version), progress: p }
                },
            },
            InstallEvent::NpmSpawned(result) => match result {
                Err(reason) => InstallAction::Finish {
                    result: Err(
                        LauncherError::new("npmInstallFailed", "无法启动 npm 全局安装。").with_detail(reason.as_str()),
                    ),
                    progress: None,
                },
                Ok(()) => InstallAction::AwaitNpm,
            },
            InstallEvent::NpmWaitFailed(reason) => InstallAction::Finish {
                result: Err(
                    LauncherError::new("npmInstallFailed", "无法读取 npm 全局安装状态。").with_detail(reason.as_str()),
                ),
                progress: None,
            },
            InstallEvent::NpmExited { cancelled, success, output } => {
                if cancelled {
                    return InstallAction::Finish {
                        result: Err(LauncherError::new("operationCanceled", "已取消 npm 全局安装。")),
                        progress: None,
                    };
                }
                if !success {
                    let cut = limit_text(output.as_str(), NPM_OUTPUT_LIMIT);
                    proof {
                        assert(first_chars(first_chars(output@, 1800), 1200) =~= first_chars(output@, 1200));
                    }
                    return InstallAction::Finish { result: Err(map_npm_failure(cut.as_str())), progress: None };
                }
                InstallAction::Verify { progress: progress("switch", "verify", owned("正在确认全局 dsh 版本"), 90) }
            },
            InstallEvent::Verified(detected) => {
                let matches = match &detected {
                    Some(d) => same_text(d.as_str(), version),
                    None => false,
                };
                if matches {
                    let p = progress("switch", "done", join2("已切换到 DSH ", version), 100);
                    return InstallAction::Finish { result: Ok(DshState::ready(detected)), progress: Some(p) };
                }
                let shown = match &detected {
                    Some(d) => d.as_str(),
                    None => "未知",
                };
                let mut detail = join3("检测到：", shown, "；目标：");
                detail.append(version);
                InstallAction::Finish {
                    result: Err(
                        LauncherError::new(
                            "verificationFailed",
                            "npm 已完成，但 dsh --version 与目标版本不一致。",
                        ).with_detail(detail.as_str()).with_action(
                            "重新检测环境，确认 PATH 指向本机 npm global prefix。",
                        ),
                    ),
                    progress: None,
                }
            },
        }
    }

}

/// An install succeeds only when `dsh` reports the requested version, and
/// then DSH is ready to start in that version.
pub proof fn law_install_success_is_requested_version(
    request: InstallRequest,
    event: InstallEvent,
    action: InstallAction,
)
    requires
        install_transition(request, event, action),
        action matches InstallAction::Finish { result: Ok(_), .. },
    ensures
        event is Verified,
        action matches InstallAction::Finish { result: Ok(s), .. } && s.status
            == crate::models::DshLifecycleStatus::ReadyToStart && opt_view(s.current_version) == Some(
            request.version@,
        ) && s.error is None,
{
}

/// A version text that is not installable never reaches npm.
pub proof fn law_invalid_version_refused(request: InstallRequest, action: InstallAction)
    requires
        !installable(request.version@),
        install_transition(request, InstallEvent::Begin, action),
    ensures
        action matches InstallAction::Finish { result: Err(e), .. } && e.kind@ == "invalidVersion"@,
{
}

/// A cancelled install always fails as cancelled, whatever npm reported.
pub proof fn law_cancelled_install_fails(request: InstallRequest, success: bool, output: String, action: InstallAction)
    requires
        install_transition(request, InstallEvent::NpmExited { cancelled: true, success, output }, action),
    ensures
        action matches InstallAction::Finish { result: Err(e), .. } && e.kind@ == "operationCanceled"@,
{
}

} // verus!
