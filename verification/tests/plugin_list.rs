use dsh_launcher::config::LauncherConfig;
use dsh_launcher::exec::{OperationResult, Platform};
use dsh_launcher::plugins::{
    dependencies, install_plugin, is_bundle, is_safe_plugin_spec, list_plugins, plugin_label,
    remove_plugin, run_plugin_action, search_command, search_plugins, search_results, FoundPackage,
    PluginAction, PluginPlan,
};
use dsh_launcher::service::{start_dsh, MaintenanceStep};
use dsh_launcher::state::{OpsBusy, Phase, RuntimeState};
use dsh_launcher::updates::update_dsh;

fn printed(success: bool, output: &str) -> OperationResult {
    OperationResult { success, output: output.to_string() }
}

#[test]
fn specifiers_that_can_go_into_a_command() {
    assert!(is_safe_plugin_spec("github:omdsh-dev/DSH-better-sidebar"));
    assert!(is_safe_plugin_spec("@scope/name@^1".replace('^', "~").as_str()));
    assert!(is_safe_plugin_spec("a b#c+d=e"));
    assert!(!is_safe_plugin_spec(""));
    assert!(!is_safe_plugin_spec("a;b"));
    assert!(!is_safe_plugin_spec("a&b"));
    assert!(!is_safe_plugin_spec("插件"));
    assert!(is_safe_plugin_spec(&"x".repeat(240)));
    assert!(!is_safe_plugin_spec(&"x".repeat(241)));
}

#[test]
fn the_dependencies_of_the_profile_are_its_plugins() {
    let manifest = r#"{"name":"web","dependencies":{"b":"1.0.0","a":{"x":1},"c":"*"}}"#;
    let list = dependencies(manifest).unwrap();
    let plugins = list_plugins(&list, &vec![true, false, false]);
    let shown: Vec<(&str, &str, bool)> = plugins
        .iter()
        .map(|plugin| (plugin.name.as_str(), plugin.version.as_str(), plugin.bundle))
        .collect();
    assert_eq!(shown, vec![("a", "*", true), ("b", "1.0.0", false), ("c", "*", false)]);
    for empty in ["{}", "[]", r#"{"dependencies":["a"]}"#, "3"] {
        assert!(dependencies(empty).unwrap().is_empty());
    }
}

#[test]
fn a_profile_that_is_no_json_is_refused() {
    let reason = serde_json::from_str::<serde_json::Value>("nope").unwrap_err().to_string();
    match dependencies("nope") {
        Ok(_) => panic!("that is no JSON"),
        Err(message) => assert_eq!(message, format!("profile package.json 无效：{}", reason)),
    }
}

#[test]
fn bundles_say_so_in_their_manifest() {
    assert!(is_bundle(Some(r#"{"dsh":{"bundle":"./b.js"}}"#)));
    assert!(is_bundle(Some(r#"{"dsh":{"bundle":null}}"#)));
    assert!(!is_bundle(Some(r#"{"dsh":{}}"#)));
    assert!(!is_bundle(Some(r#"{"dsh":"bundle"}"#)));
    assert!(!is_bundle(Some("{}")));
    assert!(!is_bundle(Some("broken")));
    assert!(!is_bundle(None));
}

#[test]
fn npm_is_asked_for_plugins() {
    let search = search_command(" side bar ", Err(String::new()), Platform::Unix);
    assert_eq!(search.command.program, "npm");
    assert_eq!(
        search.command.args,
        vec!["search", "--json", "--searchlimit", "30", "side bar dsh-plugin"]
    );
    assert_eq!(search.timeout, 120);
    let search = search_command(" ", Err(String::new()), Platform::Windows);
    assert_eq!(search.command.program, "npm.cmd");
    assert_eq!(search.command.args[4], "dsh-plugin");
}

#[test]
fn results_have_to_do_with_dsh() {
    let answer = r#"[
        {"name":"one","version":"1.0","description":"d","keywords":["X-DSH-Plugin"],
         "links":{"homepage":"h","npm":"n"}},
        {"name":"two","keywords":["other"]},
        {"name":"@deepseek-ai/dsh-three","keywords":"dsh"},
        {"keywords":[1,"DeepSeek-Harness"]},
        17
    ]"#;
    let results = search_plugins(&printed(true, answer)).unwrap();
    assert_eq!(results.len(), 3);
    assert_eq!(results[0].name, "one");
    assert_eq!(results[0].version, "1.0");
    assert_eq!(results[0].description, "d");
    assert_eq!(results[0].homepage, "h");
    assert_eq!(results[0].npm_url, "n");
    assert_eq!(results[0].keywords, vec!["X-DSH-Plugin"]);
    assert_eq!(results[1].name, "@deepseek-ai/dsh-three");
    assert_eq!(results[1].version, "未知");
    assert_eq!(results[1].description, "无描述");
    assert!(results[1].keywords.is_empty());
    assert_eq!(results[2].name, "");
    assert_eq!(results[2].keywords, vec!["DeepSeek-Harness"]);
    assert!(search_plugins(&printed(true, "{}")).unwrap().is_empty());
}

#[test]
fn a_search_that_failed() {
    assert_eq!(search_plugins(&printed(false, "ECONN")).unwrap_err(), "ECONN");
    let reason = serde_json::from_str::<serde_json::Value>("oops").unwrap_err().to_string();
    assert_eq!(
        search_plugins(&printed(true, "oops")).unwrap_err(),
        format!("npm 搜索结果无效：{}", reason)
    );
}

#[test]
fn packages_are_shown_in_their_order() {
    let package = |name: &str, keyword: &str| FoundPackage {
        name: Some(name.to_string()),
        version: None,
        description: None,
        homepage: None,
        npm: None,
        keywords: vec![keyword.to_string()],
    };
    let found = vec![package("b", "dsh"), package("x", "ds"), package("a", "my-DSH")];
    let names: Vec<String> = search_results(&found).into_iter().map(|one| one.name).collect();
    assert_eq!(names, vec!["b", "a"]);
}

fn action_of(plan: Result<PluginPlan, String>) -> PluginAction {
    match plan {
        Ok(PluginPlan::Act { action }) => action,
        Ok(PluginPlan::Wait) => panic!("the change had to wait"),
        Err(message) => panic!("{}", message),
    }
}

#[test]
fn plugins_wait_for_their_turn() {
    let config = LauncherConfig::for_directories(None, None);
    let mut runtime = RuntimeState::<u8>::default();
    let busy = OpsBusy::begin(&mut runtime, &plugin_label());
    for verb in ["add", "remove"] {
        let unresolved = Err(String::new());
        let plan =
            run_plugin_action(&config, false, &runtime, verb, "a", unresolved, Platform::Unix);
        assert!(matches!(plan, Ok(PluginPlan::Wait)));
    }
    // A start by hand and an update are refused meanwhile.
    assert_eq!(
        start_dsh(false, Some(&runtime)).unwrap_err(),
        "有插件或更新操作正在进行，完成后会自动恢复服务；请等待操作结束"
    );
    match update_dsh(&config, false, &runtime, Err(String::new()), Platform::Unix) {
        Ok(_) => panic!("the update was let through"),
        Err(message) => {
            assert_eq!(message, "有插件或更新操作正在进行，请等它完成后再更新 dsh");
        }
    }
    busy.finish(&mut runtime);
    let unresolved = Err(String::new());
    let plan = run_plugin_action(&config, true, &runtime, "add", "a", unresolved, Platform::Unix);
    assert_eq!(action_of(plan).steps, vec![MaintenanceStep::Run]);
}

#[test]
fn a_plugin_of_the_store_is_installed_with_the_command_of_dsh() {
    let config = LauncherConfig::for_directories(None, None);
    let runtime = RuntimeState::<u8>::default();
    let plugin = "github:omdsh-dev/DSH-better-sidebar";
    let plan = install_plugin(&config, true, &runtime, plugin, Err(String::new()), Platform::Unix);
    let command = action_of(plan).invocation.unwrap().command;
    assert_eq!(
        format!("{} {}", command.program, command.args.join(" ")),
        "dsh plugin --profile web add github:omdsh-dev/DSH-better-sidebar"
    );
}

#[test]
fn plugins_come_and_go() {
    let config = LauncherConfig::for_directories(None, None);
    let mut runtime = RuntimeState::<u8>::default();
    runtime.phase = Phase::Ready;
    let unresolved = || Err("找不到命令 dsh".to_string());
    let plan = install_plugin(&config, true, &runtime, "github:a/b", unresolved(), Platform::Unix);
    let action = action_of(plan);
    assert_eq!(
        action.steps,
        vec![MaintenanceStep::Stop, MaintenanceStep::Run, MaintenanceStep::Start]
    );
    let run = action.invocation.unwrap();
    assert_eq!(run.command.args, vec!["plugin", "--profile", "web", "add", "github:a/b"]);
    assert_eq!(run.timeout, 300);
    assert!(run.own_group);

    runtime.external = true;
    let plan = remove_plugin(&config, true, &runtime, "a", unresolved(), Platform::Unix);
    let action = action_of(plan);
    assert_eq!(action.steps, vec![MaintenanceStep::Run]);
    assert_eq!(
        action.invocation.unwrap().command.args,
        vec!["plugin", "--profile", "web", "remove", "a"]
    );

    // The service is brought back even where dsh could not be run.
    runtime.external = false;
    let plan = remove_plugin(&config, true, &runtime, "a", unresolved(), Platform::Windows);
    let action = action_of(plan);
    assert_eq!(
        action.steps,
        vec![MaintenanceStep::Stop, MaintenanceStep::Run, MaintenanceStep::Start]
    );
    match action.invocation {
        Ok(_) => panic!("dsh did not resolve"),
        Err(message) => assert_eq!(message, "找不到命令 dsh"),
    }
    for idle in [true, false] {
        match install_plugin(&config, idle, &runtime, "a;b", unresolved(), Platform::Unix) {
            Ok(_) => panic!("the specifier is not safe"),
            Err(message) => assert_eq!(message, "插件标识包含不支持的字符"),
        }
    }
}
