use dsh_launcher::config::{LaunchMode, LauncherConfig};
use dsh_launcher::exec::{
    command_for_invocation, execute_command, group_of, hide_console, kill_child_tree, npm_command,
    prepare_command, run_dsh_invocation, wait_step, ChildPoll, CommandSpec, Invocation, KillStep,
    Platform, WaitAction, CREATE_NO_WINDOW, QUERY_TIMEOUT,
};

fn settings() -> LauncherConfig {
    let mut config = LauncherConfig::for_directories(None, None);
    config.working_directory = "/work".to_string();
    config
}

fn unresolved() -> Result<String, String> {
    Err("找不到命令".to_string())
}

#[test]
fn dsh_is_run_by_its_name_outside_windows() {
    let mut config = settings();
    config.executable = " dsh ".to_string();
    let args = vec!["web".to_string()];
    let command = command_for_invocation(&config, &args, unresolved(), Platform::Unix).unwrap();
    assert_eq!(command.program, "dsh");
    assert_eq!(command.args, vec!["web"]);
    assert_eq!(command.creation_flags, 0);
    assert!(command.current_dir.is_none() && command.env.is_empty());
}

#[test]
fn npx_gets_the_package_first() {
    let mut config = settings();
    config.launch_mode = LaunchMode::Npx;
    let args = vec!["--version".to_string()];
    let command = command_for_invocation(&config, &args, unresolved(), Platform::MacOs).unwrap();
    assert_eq!(command.program, "npx");
    assert_eq!(command.args, vec!["--yes", "@deepseek-ai/dsh", "--version"]);
}

#[test]
fn windows_runs_what_the_program_resolves_to() {
    let config = settings();
    let args = vec!["web".to_string()];
    let resolved = Ok("C:\\npm\\dsh.cmd".to_string());
    let command = command_for_invocation(&config, &args, resolved, Platform::Windows).unwrap();
    assert_eq!(command.program, "C:\\npm\\dsh.cmd");
    assert_eq!(command.creation_flags, CREATE_NO_WINDOW);
    let refused = command_for_invocation(&config, &args, unresolved(), Platform::Windows);
    assert_eq!(refused.unwrap_err(), "找不到命令");
}

#[test]
fn commands_run_in_the_working_directory() {
    let mut config = settings();
    let command = prepare_command(CommandSpec::new("dsh"), &config);
    assert_eq!(command.current_dir, Some("/work".to_string()));
    assert!(command.env.is_empty());
    config.dsh_home = " /srv/dsh ".to_string();
    let command = prepare_command(CommandSpec::new("dsh"), &config);
    assert_eq!(command.env, vec![("DSH_HOME".to_string(), "/srv/dsh".to_string())]);
}

#[test]
fn an_invocation_has_its_time() {
    let config = settings();
    let args = vec!["--version".to_string()];
    let run = run_dsh_invocation(&config, &args, QUERY_TIMEOUT, unresolved(), Platform::Unix);
    let run = run.unwrap();
    assert_eq!(run.timeout, 120);
    assert!(run.own_group);
    let found = || Ok("C:\\npm\\dsh.cmd".to_string());
    let run = run_dsh_invocation(&config, &args, QUERY_TIMEOUT, found(), Platform::Windows);
    assert!(!run.unwrap().own_group);
    let run = run_dsh_invocation(&config, &args, QUERY_TIMEOUT, found(), Platform::MacOs);
    let run = run.unwrap();
    assert!(run.own_group);
    assert_eq!(run.command.current_dir, Some("/work".to_string()));
    assert!(
        run_dsh_invocation(&config, &args, 1, unresolved(), Platform::Windows).is_err()
    );
}

#[test]
fn npm_falls_back_on_its_shim() {
    assert_eq!(npm_command(unresolved(), Platform::Unix).program, "npm");
    assert_eq!(npm_command(unresolved(), Platform::Windows).program, "npm.cmd");
    let npm = npm_command(Ok("C:\\npm.cmd".to_string()), Platform::Windows);
    assert_eq!(npm.program, "C:\\npm.cmd");
    assert_eq!(npm.creation_flags, CREATE_NO_WINDOW);
}

#[test]
fn consoles_are_hidden_on_windows_only() {
    let mut command = CommandSpec::new("x");
    hide_console(&mut command, Platform::Unix);
    assert_eq!(command.creation_flags, 0);
    hide_console(&mut command, Platform::Windows);
    assert_eq!(command.creation_flags, 0x0800_0000);
}

#[test]
fn waiting_for_a_command() {
    assert!(matches!(
        wait_step(ChildPoll::Running, 999_999_999, 1),
        WaitAction::Sleep { millis: 120 }
    ));
    assert!(matches!(
        wait_step(ChildPoll::Running, 1_000_000_000, 1),
        WaitAction::TimedOut
    ));
    assert!(matches!(
        wait_step(ChildPoll::Exited { success: true }, u128::MAX, 1),
        WaitAction::Finish { success: true }
    ));
    match wait_step(ChildPoll::Failed { error: "no".to_string() }, 0, 1) {
        WaitAction::Fail { error } => assert_eq!(error, "no"),
        _ => panic!("the error was lost"),
    }
}

#[test]
fn a_hung_command_is_ended_with_its_group() {
    let invocation = Invocation::new(CommandSpec::new("npm"), 2, Platform::Unix);
    assert!(invocation.own_group);
    let late = 2_100_000_000;
    assert!(matches!(
        wait_step(ChildPoll::Running, late, invocation.timeout),
        WaitAction::TimedOut
    ));
    let steps = kill_child_tree(4711, Platform::Unix);
    assert!(matches!(steps[0], KillStep::Signal { target: -4711 }));
    assert!(!execute_command(None, "", "", invocation.timeout).success);
}

#[test]
fn output_and_errors_stand_on_lines_of_their_own() {
    let result = execute_command(Some(true), " out\n", "\terr ", 120);
    assert!(result.success);
    assert_eq!(result.output, "out\nerr");
    assert_eq!(execute_command(Some(false), "", " err", 1).output, "err");
    assert_eq!(execute_command(Some(false), "out", "", 1).output, "out");
    assert!(!execute_command(Some(false), "", "", 1).success);
    assert_eq!(execute_command(Some(true), " ", "\n", 1).output, "");
}

#[test]
fn a_killed_command_says_so() {
    let result = execute_command(None, "half", "", 300);
    assert!(!result.success);
    assert_eq!(result.output, "命令超过 300 秒未结束，已强制终止。\nhalf");
    let result = execute_command(None, " ", "", 1);
    assert_eq!(result.output, "命令超过 1 秒未结束，已强制终止。");
    assert!(result.output.contains("已强制终止"));
}

#[test]
fn windows_ends_a_process_tree_in_steps() {
    let steps = kill_child_tree(4711, Platform::Windows);
    assert_eq!(steps.len(), 4);
    match &steps[0] {
        KillStep::Run { command } => {
            assert_eq!(command.program, "taskkill");
            assert_eq!(command.args, vec!["/PID", "4711", "/T"]);
            assert_eq!(command.creation_flags, CREATE_NO_WINDOW);
        }
        _ => panic!("the tree was not asked first"),
    }
    assert!(matches!(steps[1], KillStep::Grace { millis: 180 }));
    match &steps[2] {
        KillStep::RunIfAlive { command } => {
            assert_eq!(command.args, vec!["/PID", "4711", "/T", "/F"]);
        }
        _ => panic!("the tree was not forced"),
    }
    assert!(matches!(steps[3], KillStep::Reap));
}

#[test]
fn elsewhere_the_process_group_is_killed() {
    let steps = kill_child_tree(4711, Platform::Unix);
    assert_eq!(steps.len(), 2);
    assert!(matches!(steps[0], KillStep::Signal { target: -4711 }));
    assert!(matches!(steps[1], KillStep::Reap));
    for pid in [0u32, 1, 0x7fff_ffff, 0x8000_0001, 0xffff_ffff] {
        assert_eq!(group_of(pid), (pid as i32).wrapping_neg());
    }
}
