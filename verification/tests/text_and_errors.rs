use deepdash::error_mapper::{map_npm_failure, map_process_failure, LauncherError};
use deepdash::text::{decimal_text, limit_text, trim_text};

#[test]
fn limit_text_keeps_a_bounded_prefix() {
    assert_eq!(limit_text("hello", 3), "hel");
    assert_eq!(limit_text("hello", 10), "hello");
    assert_eq!(limit_text("", 0), "");
    assert_eq!(limit_text("端口已占用", 2), "端口");
    let long = "é".repeat(2000);
    let cut = limit_text(&long, 1200);
    assert_eq!(cut.chars().count(), 1200);
    assert!(long.starts_with(&cut));
}

#[test]
fn renders_decimals_and_trims_unicode_whitespace() {
    assert_eq!(decimal_text(0), "0");
    assert_eq!(decimal_text(3080), "3080");
    assert_eq!(decimal_text(u64::MAX), u64::MAX.to_string());
    assert_eq!(trim_text("  v1.0.0\r\n"), "v1.0.0");
    assert_eq!(trim_text("\u{3000}x\u{a0}"), "x");
    assert_eq!(trim_text("   "), "");
}

#[test]
fn builds_errors_step_by_step() {
    let error = LauncherError::new("kind", "message")
        .with_detail(&"d".repeat(1300))
        .with_action("act")
        .with_port(8080);
    assert_eq!(error.kind, "kind");
    assert_eq!(error.message, "message");
    assert_eq!(error.detail.as_ref().unwrap().len(), 1200);
    assert_eq!(error.action.as_deref(), Some("act"));
    assert_eq!(error.port, Some(8080));
    assert_eq!(error.to_text(), "message");
}

#[test]
fn maps_port_conflicts_case_insensitively() {
    let error = map_process_failure("Error: listen EADDRINUSE: address already in use", Some(3080));
    assert_eq!(error.kind, "portConflict");
    assert_eq!(error.message, "目标端口已被其他程序占用。");
    assert_eq!(error.detail, None);
    assert_eq!(error.action.as_deref(), Some("请在设置中更换端口，或关闭占用该端口的程序。"));
    assert_eq!(error.port, Some(3080));
    let error = map_process_failure("Only one usage of each SOCKET ADDRESS is permitted", None);
    assert_eq!(error.kind, "portConflict");
    assert_eq!(error.port, Some(0));
}

#[test]
fn maps_denied_and_other_process_failures() {
    let error = map_process_failure("Access is DENIED", Some(1));
    assert_eq!(error.kind, "permissionDenied");
    assert_eq!(error.detail.as_deref(), Some("Access is DENIED"));
    assert_eq!(error.port, Some(1));
    let error = map_process_failure("crashed", Some(1));
    assert_eq!(error.kind, "processExited");
    assert_eq!(error.message, "DSH 进程在就绪前退出。");
    assert_eq!(error.detail.as_deref(), Some("crashed"));
    assert_eq!(error.action.as_deref(), Some("检查 Node.js、npm 和 DSH 安装后重试。"));
    assert_eq!(error.port, None);
    let long = "z".repeat(5000);
    assert_eq!(map_process_failure(&long, None).detail.unwrap().len(), 1200);
}

#[test]
fn maps_npm_failures() {
    let error = map_npm_failure("npm ERR! code EACCES");
    assert_eq!(error.kind, "permissionDenied");
    assert_eq!(error.message, "npm 全局安装未完成。");
    assert_eq!(error.action.as_deref(), Some("确认 npm 默认 global prefix 可写，并检查网络后重试。"));
    let error = map_npm_failure("npm ERR! network timeout");
    assert_eq!(error.kind, "npmInstallFailed");
    assert_eq!(error.detail.as_deref(), Some("npm ERR! network timeout"));
    assert_eq!(map_npm_failure(&"q".repeat(3000)).detail.unwrap().len(), 1200);
}
