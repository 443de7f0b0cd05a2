use deepdash::error_mapper::LauncherError;
use deepdash::models::{DshLifecycleStatus, LanHost};
use deepdash::process_manager::{
    append_log_line, command_args, inspect_kept, keep_record, stopped_state, start_step, url, watch_outcome,
    ExistingChild, HealthOutcome, KeptProcess, ManagerRecord, StartAction, StartEvent, StartRequest,
};

#[test]
fn builds_loopback_start_arguments_by_default() {
    assert_eq!(
        command_args(3080, None),
        ["web", "--no-open", "--port", "3080"]
    );
}

#[test]
fn builds_lan_start_arguments_with_trusted_host() {
    assert_eq!(
        command_args(3080, Some("192.168.2.9")),
        [
            "web",
            "--no-open",
            "--host",
            "192.168.2.9",
            "--trusted-host",
            "192.168.2.9:3080",
            "--port",
            "3080"
        ]
    );
}

#[test]
fn start_arguments_always_skip_the_browser() {
    for port in [1u16, 80, 3080, 65535] {
        let args = command_args(port, None);
        assert_eq!(args[1], "--no-open");
        assert!(!args.iter().any(|a| a == "--host" || a == "--trusted-host"));
        assert_eq!(args.last().unwrap(), &port.to_string());
    }
}

#[test]
fn builds_web_urls() {
    assert_eq!(url("127.0.0.1", 3080), "http://127.0.0.1:3080");
    assert_eq!(url("192.168.2.9", 65535), "http://192.168.2.9:65535");
    assert_eq!(url("10.0.0.1", 1), "http://10.0.0.1:1");
}

fn request(port: u16, lan: Option<&str>) -> StartRequest {
    StartRequest {
        port,
        current_version: Some("1.2.3".to_string()),
        lan_host: lan.map(|h| h.to_string()),
    }
}

fn finish(action: StartAction) -> (Result<deepdash::models::DshState, LauncherError>, bool, bool) {
    match action {
        StartAction::Finish { result, terminate, keep } => (result, terminate, keep),
        other => panic!("expected a finish, got {:?}", other),
    }
}

#[test]
fn start_refuses_port_zero() {
    let (result, terminate, keep) = finish(start_step(&request(0, None), StartEvent::Begin));
    let error = result.unwrap_err();
    assert_eq!(error.kind, "invalidPort");
    assert_eq!(error.message, "端口必须在 1 到 65535 之间。");
    assert!(!terminate && !keep);
    assert!(matches!(start_step(&request(3080, None), StartEvent::Begin), StartAction::InspectExisting));
}

#[test]
fn start_reports_existing_process() {
    let action = start_step(
        &request(3080, None),
        StartEvent::Existing(ExistingChild::Running {
            port: Some(4000),
            url: Some("http://127.0.0.1:4000".to_string()),
        }),
    );
    let (result, terminate, keep) = finish(action);
    let state = result.unwrap();
    assert_eq!(state.status, DshLifecycleStatus::Running);
    assert_eq!(state.port, Some(4000));
    assert_eq!(state.url.as_deref(), Some("http://127.0.0.1:4000"));
    assert_eq!(state.lan_url, None);
    assert_eq!(state.current_version.as_deref(), Some("1.2.3"));
    assert!(!terminate && !keep);

    let action = start_step(
        &request(3080, None),
        StartEvent::Existing(ExistingChild::Running {
            port: Some(4000),
            url: Some("http://192.168.2.9:4000".to_string()),
        }),
    );
    let state = finish(action).0.unwrap();
    assert_eq!(state.lan_url.as_deref(), Some("http://192.168.2.9:4000"));
}

#[test]
fn start_handles_exited_and_unreadable_processes() {
    assert!(matches!(
        start_step(&request(3080, None), StartEvent::Existing(ExistingChild::Exited)),
        StartAction::ResolveDsh { forget_exited: true }
    ));
    assert!(matches!(
        start_step(&request(3080, None), StartEvent::Existing(ExistingChild::Absent)),
        StartAction::ResolveDsh { forget_exited: false }
    ));
    let (result, _, _) = finish(start_step(
        &request(3080, None),
        StartEvent::Existing(ExistingChild::StatusFailed("os error".to_string())),
    ));
    let error = result.unwrap_err();
    assert_eq!(error.kind, "processFailed");
    assert_eq!(error.detail.as_deref(), Some("os error"));
}

#[test]
fn start_walks_the_loopback_path() {
    let req = request(3080, None);
    match start_step(&req, StartEvent::DshResolved(Ok("C:/npm/dsh.cmd".to_string()))) {
        StartAction::ProbePort { dsh_path, bind_host, lan } => {
            assert_eq!(dsh_path, "C:/npm/dsh.cmd");
            assert_eq!(bind_host, "127.0.0.1");
            assert_eq!(lan, None);
        }
        other => panic!("{:?}", other),
    }
    match start_step(
        &req,
        StartEvent::PortProbed {
            dsh_path: "dsh".to_string(),
            bind_host: "127.0.0.1".to_string(),
            lan: None,
            in_use: false,
        },
    ) {
        StartAction::Spawn { args, bind_host, .. } => {
            assert_eq!(args, ["web", "--no-open", "--port", "3080"]);
            assert_eq!(bind_host, "127.0.0.1");
        }
        other => panic!("{:?}", other),
    }
    match start_step(
        &req,
        StartEvent::Spawned { bind_host: "127.0.0.1".to_string(), lan: None, result: Ok(()) },
    ) {
        StartAction::AwaitHealth { target_url, progress, .. } => {
            assert_eq!(target_url, "http://127.0.0.1:3080");
            assert_eq!(progress.operation, "start");
            assert_eq!(progress.phase, "healthCheck");
            assert_eq!(progress.message, "正在等待 DSH Web 在 http://127.0.0.1:3080 就绪");
            assert_eq!(progress.percent, None);
        }
        other => panic!("{:?}", other),
    }
    let (result, terminate, keep) = finish(start_step(
        &req,
        StartEvent::Health {
            lan: None,
            target_url: "http://127.0.0.1:3080".to_string(),
            outcome: HealthOutcome::Ready,
        },
    ));
    let state = result.unwrap();
    assert!(keep && !terminate);
    assert_eq!(state.status, DshLifecycleStatus::Running);
    assert_eq!(state.port, Some(3080));
    assert_eq!(state.url.as_deref(), Some("http://127.0.0.1:3080"));
    assert_eq!(state.lan_url, None);
}

#[test]
fn start_walks_the_lan_path() {
    let req = request(3080, Some("192.168.2.9"));
    match start_step(&req, StartEvent::DshResolved(Ok("dsh".to_string()))) {
        StartAction::SelectLanHost { host, .. } => assert_eq!(host, "192.168.2.9"),
        other => panic!("{:?}", other),
    }
    let host = LanHost { name: "wlan".to_string(), address: "192.168.2.9".to_string() };
    match start_step(
        &req,
        StartEvent::LanSelected { dsh_path: "dsh".to_string(), selection: Ok(host) },
    ) {
        StartAction::ProbePort { bind_host, lan, .. } => {
            assert_eq!(bind_host, "192.168.2.9");
            assert_eq!(lan.as_deref(), Some("192.168.2.9"));
        }
        other => panic!("{:?}", other),
    }
    let (result, _, keep) = finish(start_step(
        &req,
        StartEvent::Health {
            lan: Some("192.168.2.9".to_string()),
            target_url: "http://192.168.2.9:3080".to_string(),
            outcome: HealthOutcome::Ready,
        },
    ));
    let state = result.unwrap();
    assert!(keep);
    assert_eq!(state.lan_url.as_deref(), Some("http://192.168.2.9:3080"));
}

#[test]
fn start_reports_port_conflicts_and_spawn_failures() {
    let req = request(3080, None);
    let (result, terminate, _) = finish(start_step(
        &req,
        StartEvent::PortProbed {
            dsh_path: "dsh".to_string(),
            bind_host: "127.0.0.1".to_string(),
            lan: None,
            in_use: true,
        },
    ));
    let error = result.unwrap_err();
    assert!(!terminate);
    assert_eq!(error.kind, "portConflict");
    assert_eq!(error.port, Some(3080));
    assert_eq!(error.action.as_deref(), Some("请关闭占用该端口的 DSH 进程，或在设置中更换端口。"));

    let (result, terminate, _) = finish(start_step(
        &req,
        StartEvent::Spawned { bind_host: "127.0.0.1".to_string(), lan: None, result: Err("not found".to_string()) },
    ));
    let error = result.unwrap_err();
    assert!(!terminate);
    assert_eq!(error.kind, "startFailed");
    assert_eq!(error.message, "无法启动 dsh web。");
    assert_eq!(error.detail.as_deref(), Some("not found"));
}

#[test]
fn start_terminates_failed_processes() {
    let req = request(3080, None);
    let health = |outcome| StartEvent::Health {
        lan: None,
        target_url: "http://127.0.0.1:3080".to_string(),
        outcome,
    };
    let (result, terminate, keep) = finish(start_step(&req, health(HealthOutcome::TimedOut)));
    let error = result.unwrap_err();
    assert!(terminate && !keep);
    assert_eq!(error.kind, "startupTimeout");
    assert_eq!(error.message, "DSH 在 45 秒内没有响应。");

    let (result, terminate, _) = finish(start_step(
        &req,
        health(HealthOutcome::Exited {
            status: "exit code: 1".to_string(),
            log: "Error: listen EADDRINUSE".to_string(),
        }),
    ));
    let error = result.unwrap_err();
    assert!(terminate);
    assert_eq!(error.kind, "portConflict");
    assert_eq!(error.port, Some(3080));

    let (result, terminate, _) = finish(start_step(
        &req,
        health(HealthOutcome::Exited { status: "exit code: 2".to_string(), log: "boom".to_string() }),
    ));
    let error = result.unwrap_err();
    assert!(terminate);
    assert_eq!(error.kind, "processExited");
    assert_eq!(error.detail.as_deref(), Some("进程退出码：exit code: 2\nboom"));

    let (result, terminate, _) = finish(start_step(&req, health(HealthOutcome::StatusFailed("x".to_string()))));
    assert!(terminate);
    assert_eq!(result.unwrap_err().kind, "processFailed");

    let (result, terminate, _) = finish(start_step(&req, health(HealthOutcome::ClientFailed("tls".to_string()))));
    assert!(!terminate);
    let error = result.unwrap_err();
    assert_eq!(error.kind, "networkError");
    assert_eq!(error.message, "无法执行本地健康检查。");
}

#[test]
fn watch_reports_unexpected_exits_only() {
    assert!(watch_outcome(true, true, Ok("exit code: 1".to_string()), "log", 3080, None).is_none());
    assert!(watch_outcome(false, false, Ok("exit code: 1".to_string()), "log", 3080, None).is_none());
    let state = watch_outcome(false, true, Ok("exit code: 1".to_string()), "log", 3080, Some("1.0.0".to_string()))
        .unwrap();
    assert_eq!(state.status, DshLifecycleStatus::StartFailed);
    assert_eq!(state.port, Some(3080));
    let error = state.error.unwrap();
    assert_eq!(error.kind, "processExited");
    assert_eq!(error.message, "DSH 进程意外退出。");
    assert_eq!(error.detail.as_deref(), Some("进程退出码：exit code: 1\nlog"));
    assert_eq!(error.action.as_deref(), Some("确认端口和 DSH 环境后重新启动。"));
    let state = watch_outcome(false, true, Err("wait failed".to_string()), "log", 1, None).unwrap();
    assert_eq!(state.error.unwrap().detail.as_deref(), Some("wait failed"));
}

#[test]
fn captured_output_is_bounded() {
    let mut log = String::new();
    append_log_line(&mut log, "first");
    append_log_line(&mut log, &"x".repeat(600));
    assert_eq!(log, format!("first\n{}\n", "x".repeat(500)));
    let mut full = "y".repeat(4000);
    append_log_line(&mut full, "dropped");
    assert_eq!(full.len(), 4000);
    let mut almost = "y".repeat(3999);
    append_log_line(&mut almost, "kept");
    assert!(almost.ends_with("kept\n"));
}

#[test]
fn stop_keeps_the_port() {
    let state = stopped_state(Some(3080), Some("1.0.0".to_string()));
    assert_eq!(state.status, DshLifecycleStatus::Stopped);
    assert_eq!(state.port, Some(3080));
    assert_eq!(state.url, None);
    assert_eq!(state.current_version.as_deref(), Some("1.0.0"));
}

fn drive(req: &StartRequest) -> (Vec<Vec<String>>, Vec<String>, Result<deepdash::models::DshState, LauncherError>) {
    let mut spawned = Vec::new();
    let mut awaited = Vec::new();
    let mut event = StartEvent::Begin;
    loop {
        event = match start_step(req, event) {
            StartAction::InspectExisting => StartEvent::Existing(ExistingChild::Absent),
            StartAction::ResolveDsh { .. } => StartEvent::DshResolved(Ok("dsh".to_string())),
            StartAction::SelectLanHost { dsh_path, host } => StartEvent::LanSelected {
                dsh_path,
                selection: Ok(deepdash::models::LanHost { name: "wlan".to_string(), address: host }),
            },
            StartAction::ProbePort { dsh_path, bind_host, lan } => {
                StartEvent::PortProbed { dsh_path, bind_host, lan, in_use: false }
            }
            StartAction::Spawn { args, bind_host, lan, .. } => {
                spawned.push(args);
                StartEvent::Spawned { bind_host, lan, result: Ok(()) }
            }
            StartAction::AwaitHealth { target_url, lan, .. } => {
                awaited.push(target_url.clone());
                StartEvent::Health { lan, target_url, outcome: HealthOutcome::Ready }
            }
            StartAction::Finish { result, .. } => return (spawned, awaited, result),
        };
    }
}

#[test]
fn whole_start_listens_where_asked() {
    let (spawned, awaited, result) = drive(&request(3080, None));
    assert_eq!(spawned, vec![vec!["web", "--no-open", "--port", "3080"]]);
    assert_eq!(awaited, ["http://127.0.0.1:3080"]);
    let state = result.unwrap();
    assert_eq!(state.url.as_deref(), Some("http://127.0.0.1:3080"));
    assert_eq!(state.lan_url, None);

    let (spawned, awaited, result) = drive(&request(4000, Some("192.168.2.9")));
    assert_eq!(
        spawned,
        vec![vec!["web", "--no-open", "--host", "192.168.2.9", "--trusted-host", "192.168.2.9:4000", "--port", "4000"]]
    );
    assert_eq!(awaited, ["http://192.168.2.9:4000"]);
    let state = result.unwrap();
    assert_eq!(state.url.as_deref(), Some("http://192.168.2.9:4000"));
    assert_eq!(state.lan_url.as_deref(), Some("http://192.168.2.9:4000"));
}

#[test]
fn starting_again_while_running_changes_nothing() {
    let (_, _, first) = drive(&request(3080, None));
    let kept = keep_record(7, &first.unwrap());
    assert_eq!(kept.id, 7);
    assert_eq!(kept.port, Some(3080));
    assert_eq!(kept.web_url.as_deref(), Some("http://127.0.0.1:3080"));
    let again = request(5000, Some("192.168.2.9"));
    assert!(matches!(start_step(&again, StartEvent::Begin), StartAction::InspectExisting));
    let existing = inspect_kept(Some((kept.clone(), Ok(false))));
    let (result, terminate, keep) = finish(start_step(&again, StartEvent::Existing(existing)));
    assert!(!terminate && !keep);
    let state = result.unwrap();
    assert_eq!(state.status, DshLifecycleStatus::Running);
    assert_eq!(state.port, Some(3080));
    assert_eq!(state.url.as_deref(), Some("http://127.0.0.1:3080"));
    assert_eq!(state.lan_url, None);
}

#[test]
fn inspects_the_kept_process() {
    let kept = KeptProcess { id: 1, port: Some(1), web_url: Some("http://10.0.0.2:1".to_string()) };
    assert!(matches!(inspect_kept(None), ExistingChild::Absent));
    assert!(matches!(inspect_kept(Some((kept.clone(), Ok(true)))), ExistingChild::Exited));
    match inspect_kept(Some((kept.clone(), Err("gone".to_string())))) {
        ExistingChild::StatusFailed(reason) => assert_eq!(reason, "gone"),
        other => panic!("{other:?}"),
    }
    match inspect_kept(Some((kept, Ok(false)))) {
        ExistingChild::Running { port, url } => {
            assert_eq!(port, Some(1));
            assert_eq!(url.as_deref(), Some("http://10.0.0.2:1"));
        }
        other => panic!("{other:?}"),
    }
}

#[test]
fn manager_record_stops_and_watches_its_own_process_only() {
    let mut record = ManagerRecord::new();
    assert!(record.kept.is_none() && !record.stopping);
    let (_, _, started) = drive(&request(3080, None));
    record.keep(4, &started.unwrap());
    assert!(!record.stopping);
    assert_eq!(record.kept.as_ref().map(|k| k.id), Some(4));

    // The exit of another process changes nothing and publishes nothing.
    let next = record.watched_exit(9, Ok("exit code: 1".to_string()), "", 3080, None);
    assert!(next.is_none());
    assert_eq!(record.kept.as_ref().map(|k| k.id), Some(4));

    let (terminate, state) = record.stop(Some("1.0.0".to_string()));
    assert_eq!(terminate, Some(4));
    assert_eq!(state.status, DshLifecycleStatus::Stopped);
    assert_eq!(state.port, Some(3080));
    assert!(record.kept.is_none() && record.stopping);

    // A second stop terminates nothing and reports no port.
    let (terminate, state) = record.stop(None);
    assert_eq!(terminate, None);
    assert_eq!(state.port, None);

    // The stopped process's own exit is not reported.
    assert!(record.watched_exit(4, Ok("exit code: 0".to_string()), "", 3080, None).is_none());
}

#[test]
fn manager_record_reports_an_unexpected_exit_of_its_process() {
    let mut record = ManagerRecord::new();
    let (_, _, started) = drive(&request(3080, None));
    record.keep(2, &started.unwrap());
    let next = record.watched_exit(2, Ok("exit code: 3".to_string()), "boom\n", 3080, None).unwrap();
    assert_eq!(next.status, DshLifecycleStatus::StartFailed);
    assert_eq!(next.port, Some(3080));
    assert_eq!(next.error.unwrap().kind, "processExited");
    assert!(record.kept.is_none() && !record.stopping);
    let mut forgotten = ManagerRecord::new();
    forgotten.keep(5, &drive(&request(3081, None)).2.unwrap());
    forgotten.forget_exited();
    assert!(forgotten.kept.is_none());
}
