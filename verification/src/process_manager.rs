//! Starting, watching and stopping the `dsh web` process: its command line,
//! its address, and the decisions taken between the steps of a start.
use vstd::prelude::*;

use crate::error_mapper::{error_is, map_process_failure, plain_error, process_failure_error, LauncherError};
use crate::models::{bare_state, DshLifecycleStatus, DshState, LanHost, OperationProgress};
use crate::text::{
    chars_of, contains_chars, contains_text, copy_opt, decimal, decimal_text, first_chars, join2, join3,
    limit_text, opt_view, owned, push_char,
};

verus! {

/// The address DSH listens on unless a LAN address is chosen.
pub open spec fn loopback() -> Seq<char> {
    "127.0.0.1"@
}

/// Longest output captured from a process, in bytes, before lines are dropped.
pub const LOG_LIMIT: usize = 4000;

/// Longest single captured output line, in characters.
pub const LOG_LINE_LIMIT: usize = 500;

// ---------------------------------------------------------------------------
// Command line and address

/// The arguments of `dsh web`: never opening a browser; with a LAN host,
/// listening on it and trusting it; and the port.
pub open spec fn start_args(port: u16, lan_host: Option<Seq<char>>) -> Seq<Seq<char>> {
    seq!["web"@, "--no-open"@] + (match lan_host {
        Some(h) => seq!["--host"@, h, "--trusted-host"@, h + ":"@ + decimal(port as nat)],
        None => seq![],
    }) + seq!["--port"@, decimal(port as nat)]
}

pub fn command_args(port: u16, lan_host: Option<&str>) -> (args: Vec<String>)
    ensures
        args@.map_values(|s: String| s@) == start_args(
            port,
            match lan_host {
                Some(h) => Some(h@),
                None => None,
            },
        ),
{
    let mut args: Vec<String> = Vec::new();
    args.push(owned("web"));
    args.push(owned("--no-open"));
    match lan_host {
        Some(host) => {
            args.push(owned("--host"));
            args.push(owned(host));
            args.push(owned("--trusted-host"));
            let port_text = decimal_text(port as u64);
            args.push(join3(host, ":", port_text.as_str()));
        },
        None => {},
    }
    args.push(owned("--port"));
    args.push(decimal_text(port as u64));
    assert(args@.map_values(|s: String| s@) =~= start_args(
        port,
        match lan_host {
            Some(h) => Some(h@),
            None => None,
        },
    ));
    args
}

/// `http://{host}:{port}`.
pub open spec fn web_url(host: Seq<char>, port: u16) -> Seq<char> {
    "http://"@ + host + ":"@ + decimal(port as nat)
}

pub fn url(host: &str, port: u16) -> (address: String)
    ensures
        address@ == web_url(host@, port),
{
    let port_text = decimal_text(port as u64);
    let mut address = join3("http://", host, ":");
    address.append(port_text.as_str());
    address
}

// ---------------------------------------------------------------------------
// States

/// `s` reports DSH running.
pub open spec fn running_state(
    s: DshState,
    port: Option<u16>,
    url: Option<Seq<char>>,
    lan_url: Option<Seq<char>>,
    version: Option<Seq<char>>,
) -> bool {
    &&& s.status == DshLifecycleStatus::Running
    &&& s.port == port
    &&& opt_view(s.url) == url
    &&& opt_view(s.lan_url) == lan_url
    &&& !s.lan_connected
    &&& opt_view(s.current_version) == version
    &&& s.error is None
}

/// The state after a stop: stopped, remembering the port it had.
pub fn stopped_state(port: Option<u16>, current_version: Option<String>) -> (state: DshState)
    ensures
        state.status == DshLifecycleStatus::Stopped,
        state.port == port,
        state.url is None,
        state.lan_url is None,
        !state.lan_connected,
        state.current_version == current_version,
        state.error is None,
{
    DshState {
        status: DshLifecycleStatus::Stopped,
        port,
        url: None,
        lan_url: None,
        lan_connected: false,
        current_version,
        error: None,
    }
}

/// The LAN address of a running service: its address unless that is the
/// loopback one.
pub open spec fn lan_part(url: Option<Seq<char>>) -> Option<Seq<char>> {
    match url {
        Some(u) => if contains_text(u, loopback()) {
            None
        } else {
            Some(u)
        },
        None => None,
    }
}

// ---------------------------------------------------------------------------
// Starting

/// What `start` was asked for.
#[derive(Clone, Debug)]
pub struct StartRequest {
    pub port: u16,
    pub current_version: Option<String>,
    pub lan_host: Option<String>,
}

/// What the previously started process looks like.
#[derive(Clone, Debug)]
pub enum ExistingChild {
    /// There is none.
    Absent,
    /// Its status could not be read; the reason.
    StatusFailed(String),
    /// It still runs, on this port and address.
    Running { port: Option<u16>, url: Option<String> },
    /// It has exited.
    Exited,
}

/// How waiting for the service to answer ended.
#[derive(Clone, Debug)]
pub enum HealthOutcome {
    /// The HTTP client could not be made; the reason.
    ClientFailed(String),
    /// The service answered with success.
    Ready,
    /// The process exited first: its exit status and captured output.
    Exited { status: String, log: String },
    /// The process status could not be read; the reason.
    StatusFailed(String),
    /// Forty-five seconds passed without an answer.
    TimedOut,
}

/// What a step of `start` found.
#[derive(Debug)]
pub enum StartEvent {
    /// Nothing yet.
    Begin,
    /// The previously started process was inspected.
    Existing(ExistingChild),
    /// The `dsh` executable was looked up.
    DshResolved(Result<String, LauncherError>),
    /// The LAN address was looked up among the offered ones.
    LanSelected { dsh_path: String, selection: Result<LanHost, LauncherError> },
    /// The port was probed on the host DSH will listen on.
    PortProbed { dsh_path: String, bind_host: String, lan: Option<String>, in_use: bool },
    /// The process was started, or could not be (the reason).
    Spawned { bind_host: String, lan: Option<String>, result: Result<(), String> },
    /// Waiting for the service ended.
    Health { lan: Option<String>, target_url: String, outcome: HealthOutcome },
}

/// What `start` does next.
#[derive(Debug)]
pub enum StartAction {
    /// Look at the previously started process.
    InspectExisting,
    /// Find the `dsh` executable, first forgetting an exited process.
    ResolveDsh { forget_exited: bool },
    /// Look the LAN address up among the offered ones.
    SelectLanHost { dsh_path: String, host: String },
    /// Probe whether the port is taken on the host.
    ProbePort { dsh_path: String, bind_host: String, lan: Option<String> },
    /// Start `dsh` with these arguments.
    Spawn { dsh_path: String, args: Vec<String>, bind_host: String, lan: Option<String> },
    /// Publish the progress and wait for the service at the address.
    AwaitHealth { target_url: String, progress: OperationProgress, lan: Option<String> },
    /// Stop: with the result, whether to terminate the new process, and
    /// whether to keep it as the running one.
    Finish { result: Result<DshState, LauncherError>, terminate: bool, keep: bool },
}

/// `a` finishes with an error, terminating the new process or not, and
/// keeping nothing.
pub open spec fn finishes_with_error(a: StartAction, terminate: bool) -> bool {
    a matches StartAction::Finish { result: Err(_), terminate: t, keep } && t == terminate && !keep
}

/// The error of a finishing action.
pub open spec fn finish_error(a: StartAction) -> LauncherError {
    a->Finish_result->Err_0
}

/// The progress published while waiting for the service.
pub open spec fn health_progress(p: OperationProgress, target_url: Seq<char>) -> bool {
    &&& p.operation@ == "start"@
    &&& p.phase@ == "healthCheck"@
    &&& p.message@ == "正在等待 DSH Web 在 "@ + target_url + " 就绪"@
    &&& p.percent is None
}

fn start_progress(target_url: &str) -> (p: OperationProgress)
    ensures
        health_progress(p, target_url@),
{
    OperationProgress {
        operation: owned("start"),
        phase: owned("healthCheck"),
        message: join3("正在等待 DSH Web 在 ", target_url, " 就绪"),
        percent: None,
    }
}

/// The error when the port is taken before `dsh` starts.
pub fn port_conflict_error(port: u16) -> (e: LauncherError)
    ensures
        error_is(
            e,
            "portConflict"@,
            "目标端口已被其他程序占用。"@,
            None,
            Some("请关闭占用该端口的 DSH 进程，或在设置中更换端口。"@),
            Some(port),
        ),
{
    LauncherError::new("portConflict", "目标端口已被其他程序占用。").with_action(
        "请关闭占用该端口的 DSH 进程，或在设置中更换端口。",
    ).with_port(port)
}

/// The error when a process's status cannot be read.
pub fn process_status_error(reason: &str) -> (e: LauncherError)
    ensures
        error_is(e, "processFailed"@, "无法读取 DSH 进程状态。"@, Some(first_chars(reason@, 1200)), None, None),
{
    LauncherError::new("processFailed", "无法读取 DSH 进程状态。").with_detail(reason)
}

/// `a` finishes with DSH running as the existing process reports.
pub open spec fn finishes_running_existing(
    a: StartAction,
    port: Option<u16>,
    url: Option<Seq<char>>,
    version: Option<Seq<char>>,
) -> bool {
    a matches StartAction::Finish { result: Ok(s), terminate, keep } && !terminate && !keep && running_state(
        s,
        port,
        url,
        lan_part(url),
        version,
    )
}

/// The step of a start that follows `event` (see `start_step`).
pub open spec fn start_transition(request: StartRequest, event: StartEvent, action: StartAction) -> bool {
    match event {
        StartEvent::Begin => if request.port == 0 {
            finishes_with_error(action, false) && plain_error(
                finish_error(action),
                "invalidPort"@,
                "端口必须在 1 到 65535 之间。"@,
            )
        } else {
            action is InspectExisting
        },
        StartEvent::Existing(existing) => match existing {
            ExistingChild::Absent => action matches StartAction::ResolveDsh { forget_exited } && !forget_exited,
            ExistingChild::Exited => action matches StartAction::ResolveDsh { forget_exited } && forget_exited,
            ExistingChild::StatusFailed(reason) => finishes_with_error(action, false) && error_is(
                finish_error(action),
                "processFailed"@,
                "无法读取 DSH 进程状态。"@,
                Some(first_chars(reason@, 1200)),
                None,
                None,
            ),
            ExistingChild::Running { port, url } => finishes_running_existing(
                action,
                port,
                opt_view(url),
                opt_view(request.current_version),
            ),
        },
        StartEvent::DshResolved(found) => match found {
            Err(e) => action matches StartAction::Finish { result: Err(f), terminate, keep } && f == e
                && !terminate && !keep,
            Ok(path) => match request.lan_host {
                Some(h) => action matches StartAction::SelectLanHost { dsh_path, host } && dsh_path@
                    == path@ && host@ == h@,
                None => action matches StartAction::ProbePort { dsh_path, bind_host, lan } && dsh_path@
                    == path@ && bind_host@ == loopback() && lan is None,
            },
        },
        StartEvent::LanSelected { dsh_path: path, selection } => match selection {
            Err(e) => action matches StartAction::Finish { result: Err(f), terminate, keep } && f == e
                && !terminate && !keep,
            Ok(host) => action matches StartAction::ProbePort { dsh_path, bind_host, lan } && dsh_path@
                == path@ && bind_host@ == host.address@ && opt_view(lan) == Some(host.address@),
        },
        StartEvent::PortProbed { dsh_path: path, bind_host: bind, lan: l, in_use } => if in_use {
            finishes_with_error(action, false) && error_is(
                finish_error(action),
                "portConflict"@,
                "目标端口已被其他程序占用。"@,
                None,
                Some("请关闭占用该端口的 DSH 进程，或在设置中更换端口。"@),
                Some(request.port),
            )
        } else {
            action matches StartAction::Spawn { dsh_path, args, bind_host, lan } && dsh_path@ == path@
                && args@.map_values(|s: String| s@) == start_args(request.port, opt_view(l)) && bind_host@
                == bind@ && opt_view(lan) == opt_view(l)
        },
        StartEvent::Spawned { bind_host: bind, lan: l, result } => match result {
            Err(reason) => finishes_with_error(action, false) && error_is(
                finish_error(action),
                "startFailed"@,
                "无法启动 dsh web。"@,
                Some(first_chars(reason@, 1200)),
                None,
                None,
            ),
            Ok(()) => action matches StartAction::AwaitHealth { target_url, progress, lan } && target_url@
                == web_url(bind@, request.port) && health_progress(progress, target_url@) && opt_view(lan)
                == opt_view(l),
        },
        StartEvent::Health { lan: l, target_url, outcome } => match outcome {
            HealthOutcome::ClientFailed(reason) => finishes_with_error(action, false) && error_is(
                finish_error(action),
                "networkError"@,
                "无法执行本地健康检查。"@,
                Some(first_chars(reason@, 1200)),
                None,
                None,
            ),
            HealthOutcome::Ready => action matches StartAction::Finish { result: Ok(s), terminate, keep }
                && !terminate && keep && running_state(
                s,
                Some(request.port),
                Some(target_url@),
                match l {
                    Some(h) => Some(web_url(h@, request.port)),
                    None => None,
                },
                opt_view(request.current_version),
            ),
            HealthOutcome::Exited { status, log } => finishes_with_error(action, true) && process_failure_error(
                finish_error(action),
                "进程退出码："@ + status@ + "\n"@ + log@,
                Some(request.port),
            ),
            HealthOutcome::StatusFailed(reason) => finishes_with_error(action, true) && error_is(
                finish_error(action),
                "processFailed"@,
                "无法读取 DSH 进程状态。"@,
                Some(first_chars(reason@, 1200)),
                None,
                None,
            ),
            HealthOutcome::TimedOut => finishes_with_error(action, true) && error_is(
                finish_error(action),
                "startupTimeout"@,
                "DSH 在 45 秒内没有响应。"@,
                None,
                Some("检查端口、网络和 DSH 日志后重试。"@),
                None,
            ),
        },
    }
}

/// The next step of a start of DSH on `request.port`, given what the last
/// step found. Port 0 is refused; a process that still runs is reported
/// as is; otherwise `dsh` is found, the LAN address (if one is asked for)
/// must still be offered, the port must be free on the host it will
/// listen on (the loopback address without a LAN address), and the new
/// process must answer on that host and port before forty-five seconds
/// pass. A new process that exits, whose status cannot be read or that
/// does not answer in time is terminated.
pub fn start_step(request: &StartRequest, event: StartEvent) -> (action: StartAction)
    ensures
        start_transition(*request, event, action),
{
    match event {
        StartEvent::Begin => {
            if request.port == 0 {
                return StartAction::Finish {
                    result: Err(LauncherError::new("invalidPort", "端口必须在 1 到 65535 之间。")),
                    terminate: false,
                    keep: false,
                };
            }
            StartAction::InspectExisting
        },
        StartEvent::Existing(existing) => match existing {
            ExistingChild::Absent => StartAction::ResolveDsh { forget_exited: false },
            ExistingChild::Exited => StartAction::ResolveDsh { forget_exited: true },
            ExistingChild::StatusFailed(reason) => StartAction::Finish {
                result: Err(process_status_error(reason.as_str())),
                terminate: false,
                keep: false,
            },
            ExistingChild::Running { port, url } => {
                let lan_url = match &url {
                    Some(u) => {
                        let chars = chars_of(u.as_str());
                        if contains_chars(&chars, "127.0.0.1") {
                            None
                        } else {
                            Some(u.clone())
                        }
                    },
                    None => None,
                };
                StartAction::Finish {
                    result: Ok(
                        DshState {
                            status: DshLifecycleStatus::Running,
                            port,
                            url,
                            lan_url,
                            lan_connected: false,
                            current_version: copy_opt(&request.current_version),
                            error: None,
                        },
                    ),
                    terminate: false,
                    keep: false,
                }
            },
        },
        StartEvent::DshResolved(found) => match found {
            Err(e) => StartAction::Finish { result: Err(e), terminate: false, keep: false },
            Ok(path) => match &request.lan_host {
                Some(h) => StartAction::SelectLanHost { dsh_path: path, host: h.clone() },
                None => StartAction::ProbePort { dsh_path: path, bind_host: owned("127.0.0.1"), lan: None },
            },
        },
        StartEvent::LanSelected { dsh_path, selection } => match selection {
            Err(e) => StartAction::Finish { result: Err(e), terminate: false, keep: false },
            Ok(host) => StartAction::ProbePort {
                dsh_path,
                bind_host: host.address.clone(),
                lan: Some(host.address),
            },
        },
        StartEvent::PortProbed { dsh_path, bind_host, lan, in_use } => {
            if in_use {
                return StartAction::Finish {
                    result: Err(port_conflict_error(request.port)),
                    terminate: false,
                    keep: false,
                };
            }
            let args = match &lan {
                Some(h) => command_args(request.port, Some(h.as_str())),
                None => command_args(request.port, None),
            };
            StartAction::Spawn { dsh_path, args, bind_host, lan }
        },
        StartEvent::Spawned { bind_host, lan, result } => match result {
            Err(reason) => StartAction::Finish {
                result: Err(
                    LauncherError::new("startFailed", "无法启动 dsh web。").with_detail(reason.as_str()),
                ),
                terminate: false,
                keep: false,
            },
            Ok(()) => {
                let target_url = url(bind_host.as_str(), request.port);
                let progress = start_progress(target_url.as_str());
                StartAction::AwaitHealth { target_url, progress, lan }
            },
        },
        StartEvent::Health { lan, target_url, outcome } => match outcome {
            HealthOutcome::ClientFailed(reason) => StartAction::Finish {
                result: Err(
                    LauncherError::new("networkError", "无法执行本地健康检查。").with_detail(reason.as_str()),
                ),
                terminate: false,
                keep: false,
            },
            HealthOutcome::Ready => {
                let lan_url = match &lan {
                    Some(h) => Some(url(h.as_str(), request.port)),
                    None => None,
                };
                StartAction::Finish {
                    result: Ok(
                        DshState {
                            status: DshLifecycleStatus::Running,
                            port: Some(request.port),
                            url: Some(target_url),
                            lan_url,
                            lan_connected: false,
                            current_version: copy_opt(&request.current_version),
                            error: None,
                        },
                    ),
                    terminate: false,
                    keep: true,
                }
            },
            HealthOutcome::Exited { status, log } => {
                let mut output = join3("进程退出码：", status.as_str(), "\n");
                output.append(log.as_str());
                StartAction::Finish {
                    result: Err(map_process_failure(output.as_str(), Some(request.port))),
                    terminate: true,
                    keep: false,
                }
            },
            HealthOutcome::StatusFailed(reason) => StartAction::Finish {
                result: Err(process_status_error(reason.as_str())),
                terminate: true,
                keep: false,
            },
            HealthOutcome::TimedOut => StartAction::Finish {
                result: Err(
                    LauncherError::new("startupTimeout", "DSH 在 45 秒内没有响应。").with_action(
                        "检查端口、网络和 DSH 日志后重试。",
                    ),
                ),
                terminate: true,
                keep: false,
            },
        },
    }
}

// ---------------------------------------------------------------------------
// Watching and capturing

/// The captured output still has room: under 4000 bytes of UTF-8.
pub open spec fn log_has_room(log: Seq<char>) -> bool {
    (vstd::utf8::encode_utf8(log).len() as usize) < 4000
}

/// Adds an output line, cut to 500 characters, to the captured output while
/// it is under 4000 bytes; later lines are dropped.
pub fn append_log_line(log: &mut String, line: &str)
    ensures
        final(log)@ == (if log_has_room(old(log)@) {
            old(log)@ + first_chars(line@, 500) + "\n"@
        } else {
            old(log)@
        }),
{
    if log.as_str().len() < LOG_LIMIT {
        let cut = limit_text(line, LOG_LINE_LIMIT);
        log.append(cut.as_str());
        push_char(log, '\n');
        proof {
            reveal_strlit("\n");
        }
        assert(final(log)@ =~= old(log)@ + first_chars(line@, 500) + "\n"@);
    }
}

/// The detail of an unexpected exit: the exit status and the captured
/// output, or why the status could not be read.
pub open spec fn exit_detail(exit: Result<String, String>, log: Seq<char>) -> Seq<char> {
    match exit {
        Ok(status) => "进程退出码："@ + status@ + "\n"@ + log,
        Err(reason) => reason@,
    }
}

/// The state after the running process exited unexpectedly.
pub open spec fn exited_state(s: DshState, port: u16, version: Option<String>, detail: Seq<char>) -> bool {
    &&& s.status == DshLifecycleStatus::StartFailed
    &&& s.port == Some(port)
    &&& s.url is None
    &&& s.lan_url is None
    &&& !s.lan_connected
    &&& s.current_version == version
    &&& s.error matches Some(e) && error_is(
        e,
        "processExited"@,
        "DSH 进程意外退出。"@,
        Some(first_chars(detail, 1200)),
        Some("确认端口和 DSH 环境后重新启动。"@),
        None,
    )
}

/// The state to publish when the watched process ends: nothing when it
/// was being stopped or is no longer the running one; otherwise a failed
/// start on its port, with the exit detail.
pub fn watch_outcome(
    was_stopping: bool,
    was_owned: bool,
    exit: Result<String, String>,
    log: &str,
    port: u16,
    current_version: Option<String>,
) -> (next: Option<DshState>)
    ensures
        (was_stopping || !was_owned) ==> next is None,
        !(was_stopping || !was_owned) ==> (next matches Some(s) && exited_state(
            s,
            port,
            current_version,
            exit_detail(exit, log@),
        )),
{
    if was_stopping || !was_owned {
        return None;
    }
    let detail = match &exit {
        Ok(status) => {
            let mut text = join3("进程退出码：", status.as_str(), "\n");
            text.append(log);
            text
        },
        Err(reason) => reason.clone(),
    };
    let cut = limit_text(detail.as_str(), 1200);
    proof {
        assert(first_chars(first_chars(detail@, 1200), 1200) =~= first_chars(detail@, 1200));
    }
    let error = LauncherError::new("processExited", "DSH 进程意外退出。").with_detail(cut.as_str()).with_action(
        "确认端口和 DSH 环境后重新启动。",
    );
    Some(
        DshState {
            status: DshLifecycleStatus::StartFailed,
            port: Some(port),
            url: None,
            lan_url: None,
            lan_connected: false,
            current_version,
            error: Some(error),
        },
    )
}

// ---------------------------------------------------------------------------
// Laws

/// DSH is always started with `--no-open`; without a LAN address it gets
/// neither `--host` nor `--trusted-host`, so it listens on its default
/// loopback address only.
pub proof fn law_start_args_stay_local(port: u16, lan_host: Option<Seq<char>>)
    ensures
        start_args(port, lan_host)[1] == "--no-open"@,
        start_args(port, lan_host).contains("--no-open"@),
        lan_host is None ==> !start_args(port, lan_host).contains("--host"@),
        lan_host is None ==> !start_args(port, lan_host).contains("--trusted-host"@),
        lan_host is None ==> start_args(port, lan_host) == seq!["web"@, "--no-open"@, "--port"@, decimal(port as nat)],
{
    let a = start_args(port, lan_host);
    assert(a[1] == "--no-open"@);
    if lan_host is None {
        reveal_strlit("web");
        reveal_strlit("--no-open");
        reveal_strlit("--port");
        reveal_strlit("--host");
        reveal_strlit("--trusted-host");
        crate::text::lemma_decimal_digits(port as nat);
        let d = decimal(port as nat);
        assert(a =~= seq!["web"@, "--no-open"@, "--port"@, d]);
        assert(!a.contains("--host"@)) by {
            if a.contains("--host"@) {
                let i = choose|i: int| 0 <= i < a.len() && a[i] == "--host"@;
                if i == 3 {
                    assert(d[0] == '-');
                } else {
                    assert(a[i].len() != "--host"@.len() || a[i][2] != 'h');
                }
            }
        }
        assert(!a.contains("--trusted-host"@)) by {
            if a.contains("--trusted-host"@) {
                let i = choose|i: int| 0 <= i < a.len() && a[i] == "--trusted-host"@;
                if i == 3 {
                    assert(d[0] == '-');
                } else {
                    assert(a[i].len() != "--trusted-host"@.len());
                }
            }
        }
    }
}

/// Without a LAN address, a start probes, spawns on and checks the
/// loopback address: the port is probed on 127.0.0.1 and the service is
/// awaited at `http://127.0.0.1:{port}`.
pub proof fn law_default_start_is_loopback(request: StartRequest, event: StartEvent, action: StartAction)
    requires
        request.lan_host is None,
        start_transition(request, event, action),
    ensures
        event matches StartEvent::DshResolved(Ok(_)) ==> action matches StartAction::ProbePort { bind_host, lan, .. }
            && bind_host@ == loopback() && lan is None,
        event matches StartEvent::Spawned { bind_host, result: Ok(()), .. } ==> (bind_host@ == loopback() ==> (
        action matches StartAction::AwaitHealth { target_url, .. } && target_url@ == web_url(
            loopback(),
            request.port,
        ))),
{
}

/// A start keeps a new process only once it has answered, and then
/// reports DSH running on the requested port.
pub proof fn law_start_keeps_only_ready(request: StartRequest, event: StartEvent, action: StartAction)
    requires
        start_transition(request, event, action),
        action matches StartAction::Finish { keep, .. } && keep,
    ensures
        event matches StartEvent::Health { outcome: HealthOutcome::Ready, .. },
        action matches StartAction::Finish { result: Ok(s), terminate, .. } && !terminate && s.status
            == DshLifecycleStatus::Running && s.port == Some(request.port),
{
}

/// A new process that exits, cannot be watched or does not answer in time
/// is terminated, and the start fails.
pub proof fn law_failed_start_terminates(request: StartRequest, event: StartEvent, action: StartAction)
    requires
        start_transition(request, event, action),
        event matches StartEvent::Health { outcome, .. } && (outcome is Exited || outcome is StatusFailed
            || outcome is TimedOut),
    ensures
        action matches StartAction::Finish { result: Err(_), terminate, keep } && terminate && !keep,
{
}

/// Port 0 is never started on.
pub proof fn law_port_zero_refused(request: StartRequest, action: StartAction)
    requires
        request.port == 0,
        start_transition(request, StartEvent::Begin, action),
    ensures
        action matches StartAction::Finish { result: Err(e), .. } && e.kind@ == "invalidPort"@,
{
}

// ---------------------------------------------------------------------------
// Whole starts

/// The LAN address a start was asked for, as characters.
pub open spec fn lan_view(request: StartRequest) -> Option<Seq<char>> {
    opt_view(request.lan_host)
}

/// The host DSH listens on in a start: the LAN address when one was asked
/// for, else the loopback address.
pub open spec fn listen_host(request: StartRequest) -> Seq<char> {
    match request.lan_host {
        Some(h) => h@,
        None => loopback(),
    }
}

/// `event` reports the outcome of performing `action`, carrying over what
/// the action named.
pub open spec fn responds(action: StartAction, event: StartEvent) -> bool {
    match action {
        StartAction::InspectExisting => event is Existing,
        StartAction::ResolveDsh { .. } => event is DshResolved,
        StartAction::SelectLanHost { dsh_path, host } => event matches StartEvent::LanSelected {
            dsh_path: p,
            selection,
        } && p@ == dsh_path@ && (selection matches Ok(h) ==> h.address@ == host@),
        StartAction::ProbePort { dsh_path, bind_host, lan } => event matches StartEvent::PortProbed {
            dsh_path: p,
            bind_host: b,
            lan: l,
            ..
        } && p@ == dsh_path@ && b@ == bind_host@ && opt_view(l) == opt_view(lan),
        StartAction::Spawn { bind_host, lan, .. } => event matches StartEvent::Spawned { bind_host: b, lan: l, .. }
            && b@ == bind_host@ && opt_view(l) == opt_view(lan),
        StartAction::AwaitHealth { target_url, lan, .. } => event matches StartEvent::Health {
            lan: l,
            target_url: t,
            ..
        } && t@ == target_url@ && opt_view(l) == opt_view(lan),
        StartAction::Finish { .. } => false,
    }
}

/// A run of a start: it begins with `Begin`, each action is the step that
/// follows its event, and each later event answers the action before it.
pub open spec fn start_run(request: StartRequest, events: Seq<StartEvent>, actions: Seq<StartAction>) -> bool {
    &&& events.len() == actions.len()
    &&& events.len() >= 1
    &&& events[0] is Begin
    &&& forall|i: int| 0 <= i < events.len() ==> start_transition(request, #[trigger] events[i], actions[i])
    &&& forall|i: int| 0 <= i < events.len() - 1 ==> responds(#[trigger] actions[i], events[i + 1])
}

/// What an event of a start carries agrees with the request's host.
pub open spec fn event_on_host(request: StartRequest, event: StartEvent) -> bool {
    match event {
        StartEvent::LanSelected { selection, .. } => request.lan_host is Some && (selection matches Ok(h)
            ==> h.address@ == listen_host(request)),
        StartEvent::PortProbed { bind_host, lan, .. } => bind_host@ == listen_host(request) && opt_view(lan)
            == lan_view(request),
        StartEvent::Spawned { bind_host, lan, .. } => bind_host@ == listen_host(request) && opt_view(lan)
            == lan_view(request),
        StartEvent::Health { lan, target_url, .. } => target_url@ == web_url(listen_host(request), request.port)
            && opt_view(lan) == lan_view(request),
        _ => true,
    }
}

/// What an action of a start names agrees with the request's host.
pub open spec fn action_on_host(request: StartRequest, action: StartAction) -> bool {
    match action {
        StartAction::SelectLanHost { host, .. } => request.lan_host is Some && host@ == listen_host(request),
        StartAction::ProbePort { bind_host, lan, .. } => bind_host@ == listen_host(request) && opt_view(lan)
            == lan_view(request),
        StartAction::Spawn { args, bind_host, lan, .. } => args@.map_values(|s: String| s@) == start_args(
            request.port,
            lan_view(request),
        ) && bind_host@ == listen_host(request) && opt_view(lan) == lan_view(request),
        StartAction::AwaitHealth { target_url, lan, .. } => target_url@ == web_url(
            listen_host(request),
            request.port,
        ) && opt_view(lan) == lan_view(request),
        StartAction::Finish { result, keep, .. } => keep ==> (result matches Ok(s) && opt_view(s.url) == Some(
            web_url(listen_host(request), request.port),
        )),
        _ => true,
    }
}

proof fn lemma_step_on_host(request: StartRequest, event: StartEvent, action: StartAction)
    requires
        start_transition(request, event, action),
        event_on_host(request, event),
    ensures
        action_on_host(request, action),
{
}

proof fn lemma_response_on_host(request: StartRequest, action: StartAction, event: StartEvent)
    requires
        responds(action, event),
        action_on_host(request, action),
    ensures
        event_on_host(request, event),
{
}

proof fn lemma_run_on_host(request: StartRequest, events: Seq<StartEvent>, actions: Seq<StartAction>, i: int)
    requires
        start_run(request, events, actions),
        0 <= i < events.len(),
    ensures
        event_on_host(request, events[i]),
        action_on_host(request, actions[i]),
    decreases i,
{
    if i > 0 {
        lemma_run_on_host(request, events, actions, i - 1);
        assert(responds(actions[i - 1], events[i]));
        lemma_response_on_host(request, actions[i - 1], events[i]);
    }
    assert(start_transition(request, events[i], actions[i]));
    lemma_step_on_host(request, events[i], actions[i]);
}

/// Through a whole start, DSH listens where it was asked to: every spawn
/// passes exactly the arguments for the port and the chosen LAN address
/// (with `--no-open`, and without `--host` when none was chosen), the
/// port is probed and the service awaited on that LAN address or else on
/// 127.0.0.1, and a kept process is reported at that address.
pub proof fn law_start_listens_where_asked(request: StartRequest, events: Seq<StartEvent>, actions: Seq<StartAction>)
    requires
        start_run(request, events, actions),
    ensures
        forall|i: int| 0 <= i < actions.len() ==> action_on_host(request, #[trigger] actions[i]),
        forall|i: int|
            0 <= i < actions.len() ==> (#[trigger] actions[i] matches StartAction::Spawn { args, .. }
                ==> args@.map_values(|s: String| s@).contains("--no-open"@)),
        request.lan_host is None ==> forall|i: int|
            0 <= i < actions.len() ==> (#[trigger] actions[i] matches StartAction::Spawn { args, .. }
                ==> !args@.map_values(|s: String| s@).contains("--host"@)),
{
    assert forall|i: int| 0 <= i < actions.len() implies action_on_host(request, #[trigger] actions[i]) by {
        lemma_run_on_host(request, events, actions, i);
    }
    law_start_args_stay_local(request.port, lan_view(request));
}

// ---------------------------------------------------------------------------
// The kept process

/// What the manager remembers of the process a start kept: the identity
/// the launcher gave the process when it spawned it, its port and address.
#[derive(Clone, Debug)]
pub struct KeptProcess {
    pub id: u64,
    pub port: Option<u16>,
    pub web_url: Option<String>,
}

/// What to remember of the process `id`, given the state a start reported
/// for it.
pub fn keep_record(id: u64, state: &DshState) -> (kept: KeptProcess)
    ensures
        kept.id == id,
        kept.port == state.port,
        opt_view(kept.web_url) == opt_view(state.url),
{
    KeptProcess { id, port: state.port, web_url: copy_opt(&state.url) }
}

/// What the process manager remembers: the process it keeps, if any, and
/// whether a stop has been asked for since it was kept.
#[derive(Clone, Debug)]
pub struct ManagerRecord {
    pub kept: Option<KeptProcess>,
    pub stopping: bool,
}

/// The identity of the kept process, if any.
pub open spec fn kept_id(record: ManagerRecord) -> Option<u64> {
    match record.kept {
        Some(k) => Some(k.id),
        None => None,
    }
}

/// The port of the kept process, if any.
pub open spec fn kept_port(record: ManagerRecord) -> Option<u16> {
    match record.kept {
        Some(k) => k.port,
        None => None,
    }
}

/// `id` is the process the record keeps.
pub open spec fn owns(record: ManagerRecord, id: u64) -> bool {
    kept_id(record) == Some(id)
}

impl ManagerRecord {
    /// Nothing kept, nothing stopping.
    pub fn new() -> (record: Self)
        ensures
            record.kept is None,
            !record.stopping,
    {
        ManagerRecord { kept: None, stopping: false }
    }

    /// A stop: marks the manager as stopping and forgets the kept process
    /// (see `stops`).
    pub fn stop(&mut self, current_version: Option<String>) -> (r: (Option<u64>, DshState))
        ensures
            stops(*old(self), current_version, *final(self), r),
    {
        self.stopping = true;
        let (terminate, port) = match &self.kept {
            Some(k) => (Some(k.id), k.port),
            None => (None, None),
        };
        self.kept = None;
        (terminate, stopped_state(port, current_version))
    }

    /// A start kept the process `id` and reported `state` for it.
    pub fn keep(&mut self, id: u64, state: &DshState)
        ensures
            keeps(id, *state, *final(self)),
    {
        self.kept = Some(keep_record(id, state));
        self.stopping = false;
    }

    /// A start found the kept process exited and forgets it.
    pub fn forget_exited(&mut self)
        ensures
            final(self).kept is None,
            final(self).stopping == old(self).stopping,
    {
        self.kept = None;
    }

    /// The watched process `id` ended (see `watches_exit`).
    pub fn watched_exit(
        &mut self,
        id: u64,
        exit: Result<String, String>,
        log: &str,
        port: u16,
        current_version: Option<String>,
    ) -> (next: Option<DshState>)
        ensures
            watches_exit(*old(self), id, exit, log@, port, current_version, *final(self), next),
    {
        let owned = match &self.kept {
            Some(k) => k.id == id,
            None => false,
        };
        if owned {
            self.kept = None;
        }
        watch_outcome(self.stopping, owned, exit, log, port, current_version)
    }
}

/// Keeping the process `id`, for which a start reported `state`, gives
/// `after`: it keeps that process, with the state's port and address, and
/// is not stopping.
pub open spec fn keeps(id: u64, state: DshState, after: ManagerRecord) -> bool {
    &&& after.kept matches Some(k) && k.id == id && k.port == state.port && opt_view(k.web_url) == opt_view(
        state.url,
    )
    &&& !after.stopping
}

/// A stop from `before` gives `after` and `r`: the manager is stopping and
/// keeps nothing; `r` names the process to terminate (the kept one, and no
/// other) and the state to report: stopped, with the kept port.
pub open spec fn stops(
    before: ManagerRecord,
    current_version: Option<String>,
    after: ManagerRecord,
    r: (Option<u64>, DshState),
) -> bool {
    &&& after.kept is None
    &&& after.stopping
    &&& r.0 == kept_id(before)
    &&& r.1.status == DshLifecycleStatus::Stopped
    &&& r.1.port == kept_port(before)
    &&& r.1.url is None
    &&& r.1.lan_url is None
    &&& !r.1.lan_connected
    &&& r.1.current_version == current_version
    &&& r.1.error is None
}

/// The exit of the watched process `id` from `before` gives `after` and
/// `next`: the process is forgotten only if it is still the kept one, and a
/// failed state is published only when it was the kept one and no stop was
/// asked for (see `watch_outcome`).
pub open spec fn watches_exit(
    before: ManagerRecord,
    id: u64,
    exit: Result<String, String>,
    log: Seq<char>,
    port: u16,
    current_version: Option<String>,
    after: ManagerRecord,
    next: Option<DshState>,
) -> bool {
    &&& owns(before, id) ==> after.kept is None
    &&& !owns(before, id) ==> after.kept == before.kept
    &&& after.stopping == before.stopping
    &&& (before.stopping || !owns(before, id)) ==> next is None
    &&& !(before.stopping || !owns(before, id)) ==> (next matches Some(s) && exited_state(
        s,
        port,
        current_version,
        exit_detail(exit, log),
    ))
}

/// A second stop changes nothing and terminates nothing: after a stop, a
/// stop finds no process to terminate, reports no port, and leaves the
/// record as it was.
pub proof fn law_second_stop_changes_nothing(
    start: ManagerRecord,
    v1: Option<String>,
    between: ManagerRecord,
    first: (Option<u64>, DshState),
    v2: Option<String>,
    end: ManagerRecord,
    second: (Option<u64>, DshState),
)
    requires
        stops(start, v1, between, first),
        stops(between, v2, end, second),
    ensures
        second.0 is None,
        second.1.port is None,
        end == between,
{
}

/// Only the launcher's own process is ever terminated or forgotten: a stop
/// terminates the kept process and no other, and the exit of a process
/// that is not the kept one leaves the record as it was and publishes
/// nothing.
pub proof fn law_only_own_process_touched(
    before: ManagerRecord,
    version: Option<String>,
    stopped: ManagerRecord,
    r: (Option<u64>, DshState),
    id: u64,
    exit: Result<String, String>,
    log: Seq<char>,
    port: u16,
    after: ManagerRecord,
    next: Option<DshState>,
)
    requires
        stops(before, version, stopped, r),
        watches_exit(before, id, exit, log, port, version, after, next),
    ensures
        r.0 matches Some(t) ==> owns(before, t),
        !owns(before, id) ==> after == before && next is None,
{
}

/// `existing` is what inspecting the kept process found, given the kept
/// process (if any) and whether it has exited (or why that could not be read).
pub open spec fn inspected(kept: Option<(KeptProcess, Result<bool, String>)>, existing: ExistingChild) -> bool {
    match kept {
        None => existing is Absent,
        Some((k, status)) => match status {
            Err(reason) => existing matches ExistingChild::StatusFailed(r) && r@ == reason@,
            Ok(exited) => if exited {
                existing is Exited
            } else {
                existing matches ExistingChild::Running { port, url } && port == k.port && opt_view(url)
                    == opt_view(k.web_url)
            },
        },
    }
}

/// What the kept process looks like: there is none; its status could not
/// be read; it has exited; or it still runs, with the remembered port and
/// address.
pub fn inspect_kept(kept: Option<(KeptProcess, Result<bool, String>)>) -> (existing: ExistingChild)
    ensures
        inspected(kept, existing),
{
    match kept {
        None => ExistingChild::Absent,
        Some((k, status)) => match status {
            Err(reason) => ExistingChild::StatusFailed(reason),
            Ok(exited) => if exited {
                ExistingChild::Exited
            } else {
                ExistingChild::Running { port: k.port, url: k.web_url }
            },
        },
    }
}

/// Starting again while the process a start kept still runs changes
/// nothing: whatever port and LAN address are asked for, the second start
/// spawns nothing and reports DSH running on the first start's port and
/// address (its LAN part when that is not the loopback address), with the
/// version now asked for.
pub proof fn law_start_is_idempotent(
    first: StartRequest,
    events1: Seq<StartEvent>,
    actions1: Seq<StartAction>,
    kept: KeptProcess,
    again: StartRequest,
    events2: Seq<StartEvent>,
    actions2: Seq<StartAction>,
)
    requires
        start_run(first, events1, actions1),
        actions1.last() matches StartAction::Finish { result: Ok(s0), keep, .. } && keep && kept.port == s0.port
            && opt_view(kept.web_url) == opt_view(s0.url),
        start_run(again, events2, actions2),
        again.port != 0,
        events2.len() >= 2,
        events2[1] matches StartEvent::Existing(existing) && inspected(Some((kept, Ok(false))), existing),
    ensures
        actions2.len() == 2,
        forall|i: int| 0 <= i < actions2.len() ==> !(#[trigger] actions2[i] is Spawn),
        actions2[1] matches StartAction::Finish { result: Ok(s), terminate, keep } && !terminate && !keep
            && running_state(
            s,
            Some(first.port),
            Some(web_url(listen_host(first), first.port)),
            lan_part(Some(web_url(listen_host(first), first.port))),
            opt_view(again.current_version),
        ),
{
    let last = actions1.len() - 1;
    lemma_run_on_host(first, events1, actions1, last);
    assert(start_transition(first, events1[last], actions1[last]));
    law_start_keeps_only_ready(first, events1[last], actions1[last]);
    assert(start_transition(again, events2[0], actions2[0]));
    assert(start_transition(again, events2[1], actions2[1]));
    if actions2.len() > 2 {
        assert(responds(actions2[1], events2[2]));
    }
}

/// What a kept start leaves in the record is what a later start is told
/// while the process runs: keeping the process of a start and then
/// inspecting it reports it running on that start's port and address.
pub proof fn law_kept_start_is_inspected_running(
    id: u64,
    state: DshState,
    after: ManagerRecord,
    existing: ExistingChild,
)
    requires
        keeps(id, state, after),
        inspected(Some((after.kept->0, Ok(false))), existing),
    ensures
        existing matches ExistingChild::Running { port, url } && port == state.port && opt_view(url) == opt_view(
            state.url,
        ),
{
}

/// When the chosen LAN address is no longer offered, the start stops there
/// with that error: nothing is probed, spawned or kept.
pub proof fn law_unavailable_lan_host_stops_the_start(
    request: StartRequest,
    dsh_path: String,
    e: LauncherError,
    action: StartAction,
)
    requires
        start_transition(request, StartEvent::LanSelected { dsh_path, selection: Err(e) }, action),
    ensures
        action matches StartAction::Finish { result: Err(f), terminate, keep } && f == e && !terminate && !keep,
        !(action is ProbePort),
        !(action is Spawn),
{
}

/// The event at `j` found `address` among the offered hosts.
pub open spec fn selected_at(events: Seq<StartEvent>, j: int, address: Seq<char>) -> bool {
    events[j] matches StartEvent::LanSelected { selection: Ok(h), .. } && h.address@ == address
}

/// Some event up to `i` found `address` among the offered hosts.
pub open spec fn selected_by(events: Seq<StartEvent>, i: int, address: Seq<char>) -> bool {
    exists|j: int| 0 <= j <= i && #[trigger] selected_at(events, j, address)
}

/// The LAN address an action probes, spawns on or awaits, if any.
pub open spec fn action_lan(action: StartAction) -> Option<Seq<char>> {
    match action {
        StartAction::ProbePort { lan, .. } => opt_view(lan),
        StartAction::Spawn { lan, .. } => opt_view(lan),
        StartAction::AwaitHealth { lan, .. } => opt_view(lan),
        _ => None,
    }
}

proof fn lemma_lan_from_selection(request: StartRequest, events: Seq<StartEvent>, actions: Seq<StartAction>, i: int)
    requires
        start_run(request, events, actions),
        0 <= i < actions.len(),
    ensures
        action_lan(actions[i]) matches Some(a) ==> selected_by(events, i, a),
    decreases i,
{
    assert(start_transition(request, events[i], actions[i]));
    if i > 0 {
        lemma_lan_from_selection(request, events, actions, i - 1);
        assert(responds(actions[i - 1], events[i]));
        if action_lan(actions[i]) is Some && !(events[i] is LanSelected) {
            let a = action_lan(actions[i])->0;
            let j = choose|j: int| 0 <= j <= i - 1 && #[trigger] selected_at(events, j, a);
            assert(selected_at(events, j, a));
        }
    }
    if action_lan(actions[i]) is Some && events[i] is LanSelected {
        assert(selected_at(events, i, action_lan(actions[i])->0));
    }
}

/// A start probes, spawns on or awaits a LAN address only after that
/// address was found among the offered hosts: every probe, spawn and health
/// check with a LAN address follows a successful selection of that address.
pub proof fn law_lan_address_only_after_selection(
    request: StartRequest,
    events: Seq<StartEvent>,
    actions: Seq<StartAction>,
)
    requires
        start_run(request, events, actions),
    ensures
        forall|i: int|
            0 <= i < actions.len() ==> (#[trigger] action_lan(actions[i]) matches Some(a) ==> selected_by(
                events,
                i,
                a,
            )),
{
    assert forall|i: int| 0 <= i < actions.len() implies (#[trigger] action_lan(actions[i]) matches Some(a)
        ==> selected_by(events, i, a)) by {
        lemma_lan_from_selection(request, events, actions, i);
    }
}

} // verus!
