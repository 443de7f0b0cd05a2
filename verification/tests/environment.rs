use deepdash::environment::{
    batch_file, command_candidates, launch_plan, missing_tool, normalize_version, prefix_bin, run_capture,
    search_order, tool_info, CommandOutput, DetectNext, DetectStage, EnvironmentService,
};
use deepdash::error_mapper::LauncherError;
use deepdash::models::{EnvironmentStatus, ToolInfo};

#[test]
fn lists_windows_command_candidates() {
    assert_eq!(command_candidates("npm"), ["npm.exe", "npm.cmd", "npm.bat", "npm"]);
    assert_eq!(command_candidates("dsh.cmd"), ["dsh.cmd"]);
    assert_eq!(command_candidates("node.exe"), ["node.exe"]);
    assert_eq!(command_candidates("x.bat"), ["x.bat"]);
    assert_eq!(prefix_bin("C:/Users/a/AppData/Roaming/npm"), "C:/Users/a/AppData/Roaming/npm");
}

#[test]
fn normalizes_version_output() {
    assert_eq!(normalize_version("v20.11.1"), "20.11.1");
    assert_eq!(normalize_version("10.2.4\n"), "10.2.4");
    assert_eq!(normalize_version("DSH version (v1.0.0-beta.2)"), "1.0.0-beta.2");
    assert_eq!(normalize_version("dsh/1.2.3 linux-x64 node-v20.0.0"), "dsh/1.2.3 linux-x64 node-v20.0.0");
    assert_eq!(normalize_version("  vversion unknown\r\nmore"), "ersion unknown");
    assert_eq!(normalize_version("1.0"), "1.0");
    assert_eq!(normalize_version(""), "");
    assert_eq!(normalize_version("v01.0.0 then 2.0.0"), "2.0.0");
}

#[test]
fn captures_command_output() {
    assert_eq!(
        run_capture(
            "node",
            CommandOutput::Finished { success: true, stdout: "  v20.11.1 \n".to_string(), stderr: String::new() }
        )
        .unwrap(),
        "v20.11.1"
    );
    let long = "a".repeat(400);
    assert_eq!(
        run_capture("x", CommandOutput::Finished { success: true, stdout: long, stderr: String::new() })
            .unwrap()
            .len(),
        300
    );
    let error = run_capture(
        "C:/npm.cmd",
        CommandOutput::Finished { success: false, stdout: "out".to_string(), stderr: "err".to_string() },
    )
    .unwrap_err();
    assert_eq!(error.kind, "commandFailed");
    assert_eq!(error.message, "命令 C:/npm.cmd 执行失败。");
    assert_eq!(error.detail.as_deref(), Some("out\nerr"));
    let error = run_capture("node", CommandOutput::SpawnFailed("not found".to_string())).unwrap_err();
    assert_eq!(error.message, "无法执行 node。");
    assert_eq!(error.detail.as_deref(), Some("not found"));
}

#[test]
fn builds_tool_records() {
    let missing = tool_info(None);
    assert!(!missing.found && missing.path.is_none() && missing.version.is_none() && missing.error.is_none());
    let found = tool_info(Some(("C:/node.exe".to_string(), Ok("v20.11.1".to_string()))));
    assert!(found.found);
    assert_eq!(found.path.as_deref(), Some("C:/node.exe"));
    assert_eq!(found.version.as_deref(), Some("20.11.1"));
    let broken = tool_info(Some((
        "C:/node.exe".to_string(),
        Err(LauncherError::new("commandFailed", "无法执行 C:/node.exe。")),
    )));
    assert!(broken.found);
    assert_eq!(broken.version, None);
    assert_eq!(broken.error.as_deref(), Some("无法执行 C:/node.exe。"));
}

fn tool(path: &str, version: Option<&str>) -> ToolInfo {
    ToolInfo {
        found: true,
        path: Some(path.to_string()),
        version: version.map(|v| v.to_string()),
        error: None,
    }
}

fn done(next: DetectNext) -> deepdash::models::EnvironmentInfo {
    match next {
        DetectNext::Done(info) => info,
        other => panic!("{:?}", other),
    }
}

#[test]
fn detection_stops_at_the_first_broken_tool() {
    let service = EnvironmentService;
    let info = done(service.detect(DetectStage::Node { node: missing_tool() }, "1".to_string()));
    assert!(matches!(info.status, EnvironmentStatus::MissingNode));
    assert_eq!(info.checked_at, "1");
    let info = done(service.detect(DetectStage::Node { node: tool("node", None) }, "1".to_string()));
    assert!(matches!(info.status, EnvironmentStatus::BrokenNode));
    assert!(matches!(
        service.detect(DetectStage::Node { node: tool("node", Some("20.0.0")) }, "1".to_string()),
        DetectNext::ProbeNpm
    ));
    let info = done(service.detect(
        DetectStage::Npm { node: tool("node", Some("20.0.0")), npm: missing_tool() },
        "2".to_string(),
    ));
    assert!(matches!(info.status, EnvironmentStatus::MissingNpm));
    let info = done(service.detect(
        DetectStage::Npm { node: tool("node", Some("20.0.0")), npm: tool("npm", None) },
        "2".to_string(),
    ));
    assert!(matches!(info.status, EnvironmentStatus::BrokenNpm));
    match service.detect(
        DetectStage::Npm { node: tool("node", Some("20.0.0")), npm: tool("C:/npm.cmd", Some("10.0.0")) },
        "2".to_string(),
    ) {
        DetectNext::ReadPrefix { npm_path } => assert_eq!(npm_path, "C:/npm.cmd"),
        other => panic!("{:?}", other),
    }
}

#[test]
fn detection_reads_the_prefix_and_probes_dsh() {
    let service = EnvironmentService;
    match service.detect(
        DetectStage::Prefix {
            node: tool("node", Some("20.0.0")),
            npm: tool("npm", Some("10.0.0")),
            prefix: Ok("  C:/npm-global \n".to_string()),
        },
        "3".to_string(),
    ) {
        DetectNext::ProbeDsh { prefix, extra_paths } => {
            assert_eq!(prefix.as_deref(), Some("C:/npm-global"));
            assert_eq!(extra_paths, ["C:/npm-global"]);
        }
        other => panic!("{:?}", other),
    }
    match service.detect(
        DetectStage::Prefix {
            node: tool("node", Some("20.0.0")),
            npm: tool("npm", Some("10.0.0")),
            prefix: Ok("   ".to_string()),
        },
        "3".to_string(),
    ) {
        DetectNext::ProbeDsh { prefix, extra_paths } => {
            assert_eq!(prefix, None);
            assert!(extra_paths.is_empty());
        }
        other => panic!("{:?}", other),
    }
    let info = done(service.detect(
        DetectStage::Prefix {
            node: tool("node", Some("20.0.0")),
            npm: tool("npm", Some("10.0.0")),
            prefix: Err(LauncherError::new("commandFailed", "命令 npm 执行失败。")),
        },
        "3".to_string(),
    ));
    assert!(matches!(info.status, EnvironmentStatus::BrokenNpm));
    assert_eq!(info.npm.error.as_deref(), Some("命令 npm 执行失败。"));
    assert_eq!(info.npm.version.as_deref(), Some("10.0.0"));
    for (dsh, expected) in [
        (missing_tool(), EnvironmentStatus::MissingDsh),
        (tool("dsh", None), EnvironmentStatus::BrokenDsh),
        (tool("dsh", Some("1.0.0")), EnvironmentStatus::Ready),
    ] {
        let info = done(service.detect(
            DetectStage::Dsh {
                node: tool("node", Some("20.0.0")),
                npm: tool("npm", Some("10.0.0")),
                prefix: Some("C:/p".to_string()),
                dsh,
            },
            "4".to_string(),
        ));
        assert_eq!(info.status, expected);
        assert_eq!(info.prefix.as_deref(), Some("C:/p"));
    }
}

#[test]
fn reads_paths_and_version_from_detection() {
    let service = EnvironmentService;
    let info = done(service.detect(
        DetectStage::Dsh {
            node: tool("node", Some("20.0.0")),
            npm: tool("npm", Some("10.0.0")),
            prefix: None,
            dsh: tool("C:/dsh.cmd", Some("1.2.3")),
        },
        "4".to_string(),
    ));
    assert_eq!(service.current_dsh_version(&info).unwrap().as_deref(), Some("1.2.3"));
    assert_eq!(service.dsh_path(&info).unwrap(), "C:/dsh.cmd");
    let info = done(service.detect(DetectStage::Node { node: missing_tool() }, "1".to_string()));
    assert_eq!(service.current_dsh_version(&info).unwrap(), None);
    let error = service.dsh_path(&info).unwrap_err();
    assert_eq!(error.kind, "dshMissing");
    assert_eq!(error.action.as_deref(), Some("前往版本管理页安装 @deepseek-ai/dsh。"));
    assert_eq!(service.npm_path(Some("C:/npm.cmd".to_string())).unwrap(), "C:/npm.cmd");
    let error = service.npm_path(None).unwrap_err();
    assert_eq!(error.kind, "npmMissing");
    assert_eq!(error.message, "未检测到 npm 可执行文件。");
}

#[test]
fn plans_how_to_launch_a_command() {
    let args = vec!["--version".to_string()];
    let (program, arguments) = launch_plan("C:\\npm\\npm.CMD", &args);
    assert_eq!(program, "cmd.exe");
    assert_eq!(arguments, ["/d", "/s", "/c", "C:\\npm\\npm.CMD", "--version"]);
    let (program, arguments) = launch_plan("C:/node/node.exe", &args);
    assert_eq!(program, "C:/node/node.exe");
    assert_eq!(arguments, ["--version"]);
    assert!(batch_file("dsh.bat"));
    assert!(batch_file("a.b.Cmd"));
    assert!(!batch_file(".cmd"));
    assert!(!batch_file("C:\\tools\\.bat"));
    assert!(!batch_file("C:/x.cmd/dsh"));
    assert!(!batch_file("dsh"));
}

#[test]
fn searches_extra_directories_then_path() {
    let extra = vec!["C:/prefix".to_string()];
    let path = vec!["C:/a".to_string(), "C:/b".to_string()];
    let order = search_order("dsh", &extra, &path);
    let expected: Vec<(String, String)> = [
        ("C:/prefix", "dsh.exe"), ("C:/prefix", "dsh.cmd"), ("C:/prefix", "dsh.bat"), ("C:/prefix", "dsh"),
        ("C:/a", "dsh.exe"), ("C:/a", "dsh.cmd"), ("C:/a", "dsh.bat"), ("C:/a", "dsh"),
        ("C:/b", "dsh.exe"), ("C:/b", "dsh.cmd"), ("C:/b", "dsh.bat"), ("C:/b", "dsh"),
    ]
    .iter()
    .map(|(d, f)| (d.to_string(), f.to_string()))
    .collect();
    assert_eq!(order, expected);
    assert_eq!(search_order("npm.cmd", &vec![], &path).len(), 2);
}
