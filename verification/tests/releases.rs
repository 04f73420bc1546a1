use dsh_launcher::config::{LaunchMode, LauncherConfig};
use dsh_launcher::exec::{OperationResult, Platform};
use dsh_launcher::service::MaintenanceStep;
use dsh_launcher::state::{Phase, RuntimeState};
use dsh_launcher::updates::{
    check_launcher_update, current_version_command, extract_version, get_launcher_version,
    get_package_info, invalid_release, latest_version_command, package_info, release_info,
    unreachable_release, update_dsh, update_label, ReleaseFields,
};

fn result(success: bool, output: &str) -> OperationResult {
    OperationResult { success, output: output.to_string() }
}

fn fields(tag: Option<&str>) -> ReleaseFields {
    ReleaseFields {
        tag_name: tag.map(|value| value.to_string()),
        name: None,
        body: None,
        html_url: None,
        published_at: None,
    }
}

#[test]
fn versions_are_found_in_what_commands_print() {
    assert_eq!(extract_version("dsh 0.1.0-rc.8"), "0.1.0-rc.8");
    assert_eq!(extract_version("[\n  \"1.2.3\",\n]"), "1.2.3");
    assert_eq!(extract_version("v1.2.3"), "未知");
    assert_eq!(extract_version(""), "未知");
    assert_eq!(extract_version("node '22.0' x"), "22.0");
}

#[test]
fn a_release_is_compared_with_the_launcher() {
    let release = release_info(fields(Some("v0.6.1")), "0.6.0").unwrap();
    assert_eq!(release.latest_version, "0.6.1");
    assert_eq!(release.tag_name, "v0.6.1");
    assert_eq!(release.current_version, "0.6.0");
    assert!(release.update_available);
    assert_eq!(release.name, "");
    assert!(!release_info(fields(Some("v0.6.0")), "0.6.0").unwrap().update_available);
    assert!(!release_info(fields(Some("0.5.9")), "0.6.0").unwrap().update_available);
    for tag in [None, Some("")] {
        assert_eq!(
            release_info(fields(tag), "0.6.0").unwrap_err(),
            "GitHub 没有可用的最新 Release"
        );
    }
}

#[test]
fn a_release_is_read_from_its_description() {
    let description = r#"{"tag_name":"V0.7","name":"n \"q\"","body":"b","html_url":"h",
        "published_at":"p","draft":false}"#;
    let release = check_launcher_update(description, "0.6.0").unwrap();
    assert_eq!(release.latest_version, "0.7");
    assert_eq!(release.name, "n \"q\"");
    assert_eq!(release.body, "b");
    assert_eq!(release.html_url, "h");
    assert_eq!(release.published_at, "p");
    assert!(release.update_available);

    let release = check_launcher_update(r#"{"tag_name":"v1","name":3}"#, "0.6.0").unwrap();
    assert_eq!(release.name, "");
    for empty in ["[]", "{}", r#"{"tag_name":null}"#] {
        assert_eq!(
            check_launcher_update(empty, "0.6.0").unwrap_err(),
            "GitHub 没有可用的最新 Release"
        );
    }
}

#[test]
fn a_description_that_is_no_json_is_refused() {
    let reason = serde_json::from_str::<serde_json::Value>("{").unwrap_err().to_string();
    assert_eq!(
        check_launcher_update("{", "0.6.0").unwrap_err(),
        format!("GitHub Release 响应无效：{}", reason)
    );
    assert_eq!(invalid_release("e"), "GitHub Release 响应无效：e");
    assert_eq!(unreachable_release("e"), "无法访问 GitHub Release：e");
}

#[test]
fn the_version_of_the_launcher() {
    assert_eq!(get_launcher_version(), "0.6.0");
}

#[test]
fn versions_of_dsh_are_asked_for() {
    let mut config = LauncherConfig::for_directories(None, None);
    config.npx_package = "pkg".to_string();
    let query = latest_version_command(&config, Err(String::new()), Platform::Unix);
    assert_eq!(query.command.program, "npm");
    assert_eq!(query.command.args, vec!["view", "pkg", "version", "--json"]);
    assert_eq!(query.command.current_dir, Some(".".to_string()));
    assert_eq!(query.timeout, 120);
    let query = current_version_command(&config, Err(String::new()), Platform::Unix).unwrap();
    assert_eq!(query.command.program, "dsh");
    assert_eq!(query.command.args, vec!["--version"]);
    assert!(current_version_command(&config, Err(String::new()), Platform::Windows).is_err());
}

#[test]
fn versions_of_dsh_are_put_together() {
    let mut config = LauncherConfig::for_directories(None, None);
    let info = package_info(&config, &result(true, "0.1.0"), &result(true, "\"0.2.0\""), 17);
    assert_eq!(info.current_version, "0.1.0");
    assert_eq!(info.latest_version, "0.2.0");
    assert_eq!(info.source, "dsh");
    assert_eq!(info.checked_at, "17");
    assert_eq!(info.detail, "0.1.0\n\"0.2.0\"");
    config.launch_mode = LaunchMode::Npx;
    let info = package_info(&config, &result(false, "no"), &result(false, ""), 0);
    assert_eq!(info.current_version, "不可用");
    assert_eq!(info.latest_version, "查询失败");
    assert_eq!(info.source, "npx @deepseek-ai/dsh");
    assert_eq!(info.detail, "no");
    let info = get_package_info(&config, &result(true, "1"), &result(true, "2"));
    assert!(info.checked_at.parse::<u64>().unwrap() > 1_600_000_000);
}

#[test]
fn an_update_interrupts_a_service_of_ours_only() {
    let config = LauncherConfig::for_directories(None, None);
    let mut runtime = RuntimeState::<u8>::default();
    let plan = update_dsh(&config, true, &runtime, Err(String::new()), Platform::Unix).unwrap();
    assert_eq!(plan.steps, vec![MaintenanceStep::Run]);
    assert_eq!(
        plan.invocation.command.args,
        vec!["install", "--global", "@deepseek-ai/dsh@latest"]
    );
    assert_eq!(plan.invocation.timeout, 600);
    assert!(plan.invocation.own_group);
    runtime.phase = Phase::Ready;
    let plan = update_dsh(&config, true, &runtime, Err(String::new()), Platform::Unix).unwrap();
    assert_eq!(
        plan.steps,
        vec![MaintenanceStep::Stop, MaintenanceStep::Run, MaintenanceStep::Start]
    );
    runtime.external = true;
    let plan = update_dsh(&config, true, &runtime, Err(String::new()), Platform::Unix).unwrap();
    assert_eq!(plan.steps, vec![MaintenanceStep::Run]);
}

#[test]
fn an_update_waits_for_other_changes() {
    let config = LauncherConfig::for_directories(None, None);
    let mut runtime = RuntimeState::<u8>::default();
    let refusal = |runtime: &RuntimeState<u8>| {
        match update_dsh(&config, false, runtime, Err(String::new()), Platform::Unix) {
            Ok(_) => String::new(),
            Err(message) => message,
        }
    };
    assert_eq!(refusal(&runtime), "另一项插件或更新操作正在进行，请等它完成后再更新 dsh");
    runtime.busy = Some(update_label());
    assert_eq!(refusal(&runtime), "正在更新 dsh，请等它完成后再更新 dsh");
}
