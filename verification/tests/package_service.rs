use deepdash::error_mapper::LauncherError;
use deepdash::models::DshLifecycleStatus;
use deepdash::package_service::{
    DshPackageService, npm_install_args, validate_version, InstallAction, InstallEvent, InstallRequest,
};

fn request(version: &str, current: Option<&str>) -> InstallRequest {
    InstallRequest { version: version.to_string(), current_version: current.map(|c| c.to_string()) }
}

fn failure(action: InstallAction) -> LauncherError {
    match action {
        InstallAction::Finish { result: Err(e), progress: None } => e,
        other => panic!("{:?}", other),
    }
}

#[test]
fn validates_versions() {
    assert!(validate_version("1.2.3").is_ok());
    assert!(validate_version("1.2.3-beta.1+build.5").is_ok());
    let error = validate_version("latest").unwrap_err();
    assert_eq!(error.kind, "invalidVersion");
    assert_eq!(error.message, "版本号格式无效。");
    assert!(validate_version("1.2").is_err());
    assert!(validate_version(&format!("1.0.0-{}", "a".repeat(120))).is_err());
    assert_eq!(
        npm_install_args("1.2.3"),
        ["install", "--global", "--no-audit", "--no-fund", "@deepseek-ai/dsh@1.2.3"]
    );
}

#[test]
fn install_walks_through_npm_to_verification() {
    let req = request("1.2.3", Some("1.0.0"));
    assert!(matches!(DshPackageService.install_or_switch(&req, InstallEvent::Begin), InstallAction::Lock));
    assert!(matches!(DshPackageService.install_or_switch(&req, InstallEvent::Locked), InstallAction::StopService));
    assert!(matches!(DshPackageService.install_or_switch(&request("1.2.3", None), InstallEvent::Locked), InstallAction::ResolveNpm));
    assert!(matches!(DshPackageService.install_or_switch(&req, InstallEvent::Stopped), InstallAction::ResolveNpm));
    match DshPackageService.install_or_switch(&req, InstallEvent::NpmResolved(Ok("C:/npm.cmd".to_string()))) {
        InstallAction::SpawnNpm { npm_path, args, progress } => {
            assert_eq!(npm_path, "C:/npm.cmd");
            assert_eq!(args[4], "@deepseek-ai/dsh@1.2.3");
            assert_eq!(progress.operation, "switch");
            assert_eq!(progress.phase, "npm");
            assert_eq!(progress.message, "正在通过本机 npm 安装 1.2.3");
            assert_eq!(progress.percent, Some(25));
        }
        other => panic!("{:?}", other),
    }
    match DshPackageService.install_or_switch(&request("1.2.3", Some("1.2.3")), InstallEvent::NpmResolved(Ok("npm".to_string()))) {
        InstallAction::SpawnNpm { progress, .. } => assert_eq!(progress.operation, "install"),
        other => panic!("{:?}", other),
    }
    assert!(matches!(DshPackageService.install_or_switch(&req, InstallEvent::NpmSpawned(Ok(()))), InstallAction::AwaitNpm));
    match DshPackageService.install_or_switch(
        &req,
        InstallEvent::NpmExited { cancelled: false, success: true, output: String::new() },
    ) {
        InstallAction::Verify { progress } => {
            assert_eq!(progress.phase, "verify");
            assert_eq!(progress.message, "正在确认全局 dsh 版本");
            assert_eq!(progress.percent, Some(90));
        }
        other => panic!("{:?}", other),
    }
    match DshPackageService.install_or_switch(&req, InstallEvent::Verified(Some("1.2.3".to_string()))) {
        InstallAction::Finish { result: Ok(state), progress: Some(progress) } => {
            assert_eq!(state.status, DshLifecycleStatus::ReadyToStart);
            assert_eq!(state.current_version.as_deref(), Some("1.2.3"));
            assert_eq!(progress.phase, "done");
            assert_eq!(progress.message, "已切换到 DSH 1.2.3");
            assert_eq!(progress.percent, Some(100));
        }
        other => panic!("{:?}", other),
    }
}

#[test]
fn install_reports_each_failure() {
    let req = request("1.2.3", None);
    assert_eq!(failure(DshPackageService.install_or_switch(&request("x", None), InstallEvent::Begin)).kind, "invalidVersion");
    let missing = LauncherError::new("npmMissing", "未检测到 npm 可执行文件。");
    assert_eq!(failure(DshPackageService.install_or_switch(&req, InstallEvent::NpmResolved(Err(missing)))).kind, "npmMissing");
    let error = failure(DshPackageService.install_or_switch(&req, InstallEvent::NpmSpawned(Err("denied".to_string()))));
    assert_eq!(error.kind, "npmInstallFailed");
    assert_eq!(error.message, "无法启动 npm 全局安装。");
    let error = failure(DshPackageService.install_or_switch(&req, InstallEvent::NpmWaitFailed("gone".to_string())));
    assert_eq!(error.message, "无法读取 npm 全局安装状态。");
    let error = failure(DshPackageService.install_or_switch(
        &req,
        InstallEvent::NpmExited { cancelled: true, success: true, output: String::new() },
    ));
    assert_eq!(error.kind, "operationCanceled");
    assert_eq!(error.message, "已取消 npm 全局安装。");
    let error = failure(DshPackageService.install_or_switch(
        &req,
        InstallEvent::NpmExited { cancelled: false, success: false, output: "npm ERR! code EACCES".to_string() },
    ));
    assert_eq!(error.kind, "permissionDenied");
    let error = failure(DshPackageService.install_or_switch(&req, InstallEvent::Verified(Some("1.0.0".to_string()))));
    assert_eq!(error.kind, "verificationFailed");
    assert_eq!(error.detail.as_deref(), Some("检测到：1.0.0；目标：1.2.3"));
    let error = failure(DshPackageService.install_or_switch(&req, InstallEvent::Verified(None)));
    assert_eq!(error.detail.as_deref(), Some("检测到：未知；目标：1.2.3"));
    assert_eq!(error.action.as_deref(), Some("重新检测环境，确认 PATH 指向本机 npm global prefix。"));
}
