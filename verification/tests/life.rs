use dsh_launcher::config::{LaunchMode, LauncherConfig};
use dsh_launcher::exec::Platform;
use dsh_launcher::service::{
    attach_external, begin_start, classify_startup_wait, command_for_config, finish_stop,
    http_service_alive, is_concerned, is_latest_stop, launch_command, monitor_external, monitor_process, maintenance_steps,
    probe_url, register_child, restart_dsh, service_url, spawn_error, start_dsh, start_process,
    start_with_feedback, startup_timeout, stop_dsh, stop_process, web_args, ExternalAction,
    ExternalEvent, ExternalMonitor, HttpReply, MaintenanceStep, Monitor, MonitorAction, MonitorEvent, PortAction,
    PortEvent, PortSearch, ServiceStep, StartGate, StartupWait, STARTUP_HARD_LIMIT,
};
use dsh_launcher::state::{
    busy_label, clear_logs, current_status, ops_in_progress_error, push_log, snapshot, OpsBusy,
    Phase, RuntimeState, MAX_LOG_LINES,
};
use std::time::Duration;

type Runtime = RuntimeState<&'static str>;

const SECOND: u128 = 1_000_000_000;

fn started(port: u16) -> (Runtime, u64) {
    let mut runtime = Runtime::default();
    match begin_start(&mut runtime, port, Ok(())) {
        Ok(StartGate::Begun { generation }) => (runtime, generation),
        _ => panic!("the start was not let through"),
    }
}

fn running() -> (Runtime, u64, Monitor) {
    let (mut runtime, generation) = started(3080);
    assert!(register_child(&mut runtime, generation, "child", 7).is_none());
    (runtime, generation, Monitor::new(generation, 3080, 60))
}

#[test]
fn keeps_waiting_while_dsh_is_still_logging() {
    let budget = Duration::from_secs(60).as_nanos();
    assert_eq!(
        classify_startup_wait(
            Duration::from_secs(3).as_nanos(),
            Duration::from_secs(300).as_nanos(),
            budget
        ),
        StartupWait::Keep
    );
}

#[test]
fn fails_when_dsh_goes_quiet_without_listening() {
    let budget = Duration::from_secs(60).as_nanos();
    assert_eq!(
        classify_startup_wait(
            Duration::from_secs(61).as_nanos(),
            Duration::from_secs(61).as_nanos(),
            budget
        ),
        StartupWait::Silent
    );
}

#[test]
fn stops_waiting_after_the_hard_limit_even_if_still_logging() {
    let budget = Duration::from_secs(60).as_nanos();
    assert_eq!(
        classify_startup_wait(
            Duration::from_secs(1).as_nanos(),
            (Duration::from_secs(STARTUP_HARD_LIMIT) + Duration::from_secs(1)).as_nanos(),
            budget
        ),
        StartupWait::Exhausted
    );
}

#[test]
fn builds_web_args_that_older_dsh_versions_still_accept() {
    let config = LauncherConfig {
        port: 3081,
        trusted_hosts: vec!["example.test".into()],
        ..LauncherConfig::for_directories(None, None)
    };
    let args = web_args(&config);
    assert_eq!(
        args,
        vec![
            "web",
            "--host",
            "127.0.0.1",
            "--port",
            "3081",
            "--trusted-host",
            "example.test",
        ]
    );
    assert!(!args.contains(&"--no-open".to_string()));
}

#[test]
fn the_limits_of_waiting_are_exact() {
    assert_eq!(classify_startup_wait(60, 60, 60), StartupWait::Keep);
    assert_eq!(classify_startup_wait(61, 61, 60), StartupWait::Silent);
    assert_eq!(classify_startup_wait(0, 900 * SECOND, 60), StartupWait::Keep);
    assert_eq!(classify_startup_wait(0, 900 * SECOND + 1, 60), StartupWait::Exhausted);
    assert_eq!(classify_startup_wait(61, 901 * SECOND, 60), StartupWait::Silent);
    assert_eq!(startup_timeout(LaunchMode::Npx), 180);
    assert_eq!(startup_timeout(LaunchMode::Command), 60);
}

#[test]
fn the_command_of_the_service() {
    let mut config = LauncherConfig::for_directories(None, None);
    config.launch_mode = LaunchMode::Npx;
    config.dsh_home = "/srv/dsh".to_string();
    config.trusted_hosts = vec!["a".to_string(), "b:1".to_string()];
    let launch = launch_command(&config, Err("x".to_string()), Platform::Unix).unwrap();
    assert!(launch.own_group);
    assert_eq!(launch.command.program, "npx");
    assert_eq!(
        launch.command.args,
        vec![
            "--yes", "@deepseek-ai/dsh", "web", "--host", "127.0.0.1", "--port", "3080",
            "--trusted-host", "a", "--trusted-host", "b:1",
        ]
    );
    assert_eq!(launch.command.env.len(), 1);
    assert_eq!(launch.command.current_dir, Some(".".to_string()));
    match launch_command(&config, Err("x".to_string()), Platform::Windows) {
        Ok(_) => panic!("the program did not resolve"),
        Err(message) => assert_eq!(message, "x"),
    }
    let launch = launch_command(&config, Ok("n".to_string()), Platform::Windows).unwrap();
    assert!(!launch.own_group);
    let command = command_for_config(&config, Ok("n".to_string()), Platform::Unix).unwrap();
    assert!(command.env.is_empty() && command.current_dir.is_none());
}

#[test]
fn complaints_about_a_process_that_did_not_start() {
    assert_eq!(
        spawn_error(LaunchMode::Command, "E"),
        "无法启动 dsh：E。请确认已执行 npm install -g @deepseek-ai/dsh，或切换为 npx。"
    );
    assert_eq!(
        spawn_error(LaunchMode::Npx, "E"),
        "无法启动 npx：E。请确认 Node.js 已安装并在 PATH 中。"
    );
}

#[test]
fn any_response_is_a_service() {
    assert!(http_service_alive(HttpReply::Response));
    assert!(http_service_alive(HttpReply::Status));
    assert!(!http_service_alive(HttpReply::Transport));
    assert_eq!(service_url(3081), "http://127.0.0.1:3081");
    assert_eq!(probe_url(3081), "http://127.0.0.1:3081/");
}

#[test]
fn a_new_state() {
    let runtime = Runtime::default();
    let status = snapshot(&runtime);
    assert_eq!(status.phase, Phase::Stopped);
    assert_eq!(status.message, "dsh 尚未启动");
    assert_eq!(status.url, "http://127.0.0.1:3080");
    assert!(status.pid.is_none() && !status.external && status.busy.is_none());
    assert!(status.logs.is_empty() && runtime.child.is_none());
    assert_eq!(current_status(Some(&runtime)).unwrap().message, "dsh 尚未启动");
    assert_eq!(current_status::<u8>(None).unwrap_err(), "启动器状态锁已损坏");
}

#[test]
fn a_start_begins_a_generation() {
    let (runtime, generation) = started(4000);
    assert_eq!(generation, 1);
    assert_eq!(runtime.generation, 1);
    assert_eq!(runtime.phase, Phase::Starting);
    assert_eq!(runtime.message, "正在启动 dsh web…");
    assert_eq!(runtime.url, "http://127.0.0.1:4000");
}

#[test]
fn a_service_that_runs_is_not_started_again() {
    for phase in [Phase::Starting, Phase::Ready, Phase::Stopping] {
        let mut runtime = Runtime::default();
        runtime.phase = phase;
        match begin_start(&mut runtime, 4000, Ok(())) {
            Ok(StartGate::Occupied { status }) => assert_eq!(status.phase, phase),
            _ => panic!("the start was let through"),
        }
        assert_eq!(runtime.generation, 0);
    }
    let mut runtime = Runtime::default();
    runtime.phase = Phase::Failed;
    assert!(matches!(
        begin_start(&mut runtime, 4000, Ok(())),
        Ok(StartGate::Begun { generation: 1 })
    ));
}

#[test]
fn a_start_with_bad_settings_changes_nothing() {
    let mut runtime = Runtime::default();
    let mut config = LauncherConfig::for_directories(None, None);
    config.port = 1;
    match start_process(&mut runtime, &config, true) {
        Err(message) => assert_eq!(message, "端口必须在 1024 到 65535 之间"),
        Ok(_) => panic!("the settings passed"),
    }
    assert_eq!((runtime.generation, runtime.phase), (0, Phase::Stopped));
    config.port = 3080;
    for relative in ["downloads", "a/b"] {
        config.download_directory = relative.to_string();
        match start_process(&mut runtime, &config, true) {
            Err(message) => assert_eq!(message, "下载目录必须是绝对路径"),
            Ok(_) => panic!("the settings passed"),
        }
    }
    config.download_directory = "/d".to_string();
    assert!(matches!(
        start_process(&mut runtime, &config, true),
        Ok(StartGate::Begun { generation: 1 })
    ));
}

#[test]
fn a_free_port_is_used_at_once() {
    let mut search = PortSearch::new(3080);
    assert!(matches!(search.step(PortEvent::Tried { free: true }), PortAction::Launch));
}

#[test]
fn a_service_on_the_port_is_used() {
    let mut search = PortSearch::new(3080);
    assert!(matches!(search.step(PortEvent::Tried { free: false }), PortAction::Ask));
    assert!(matches!(search.step(PortEvent::Asked { alive: true }), PortAction::Attach));
}

#[test]
fn a_port_gets_time_to_become_free() {
    let mut search = PortSearch::new(3080);
    search.step(PortEvent::Tried { free: false });
    assert!(matches!(
        search.step(PortEvent::Asked { alive: false }),
        PortAction::Try { after_millis: 0 }
    ));
    for _ in 0..9 {
        assert!(matches!(
            search.step(PortEvent::Tried { free: false }),
            PortAction::Try { after_millis: 200 }
        ));
    }
    match search.step(PortEvent::Tried { free: false }) {
        PortAction::Refuse { after_millis, message } => {
            assert_eq!(after_millis, 200);
            assert_eq!(
                message,
                "端口 3080 已被占用，且占用者不像一个可用的 Web 服务。请结束占用进程，或在“管理”里换一个端口。"
            );
        }
        _ => panic!("the start was not refused"),
    }
}

#[test]
fn a_port_that_becomes_free_is_used() {
    let mut search = PortSearch::new(3080);
    search.step(PortEvent::Tried { free: false });
    search.step(PortEvent::Asked { alive: false });
    search.step(PortEvent::Tried { free: false });
    assert!(matches!(search.step(PortEvent::Tried { free: true }), PortAction::Launch));
}

#[test]
fn an_external_service_is_used_and_left_running() {
    let (mut runtime, generation) = started(3081);
    assert!(attach_external(&mut runtime, generation, 3081));
    assert_eq!(runtime.phase, Phase::Ready);
    assert!(runtime.external);
    assert_eq!(
        runtime.message,
        "已连接到端口 3081 上已在运行的 dsh 服务（外部启动，Launcher 不会停止它）"
    );
    assert_eq!(
        snapshot(&runtime).logs,
        vec!["[launcher] 检测到端口已有 Web 服务在运行，直接沿用外部 dsh"]
    );
    assert_eq!(maintenance_steps(&runtime), vec![MaintenanceStep::Run]);
    let stop = stop_process(&mut runtime);
    assert!(stop.child.is_none());
    assert_eq!(stop.status.phase, Phase::Stopped);
    assert_eq!(stop.status.message, "已断开与外部 dsh 服务的连接（该服务仍在运行）");
    assert!(!runtime.external);
}

#[test]
fn what_an_earlier_start_does_changes_nothing() {
    let (mut runtime, generation) = started(3080);
    stop_process(&mut runtime);
    let message = runtime.message.clone();
    assert!(!attach_external(&mut runtime, generation, 3080));
    assert_eq!(register_child(&mut runtime, generation, "late", 9), Some("late"));
    assert!(!push_log(&mut runtime, generation, "stdout", "late"));
    let mut monitor = Monitor::new(generation, 3080, 60);
    let woke = MonitorEvent::Woke { now: 0 };
    assert!(matches!(
        monitor_process(&mut monitor, &mut runtime, woke),
        MonitorAction::Quit { kill: None, tell: false }
    ));
    let probed = MonitorEvent::Probed { connected: true, now: 0 };
    monitor_process(&mut monitor, &mut runtime, probed);
    let polled = MonitorEvent::Polled { exit: Some("exit status: 1".to_string()) };
    monitor_process(&mut monitor, &mut runtime, polled);
    let probed = MonitorEvent::Probed { connected: false, now: 1000 * SECOND };
    assert!(matches!(
        monitor_process(&mut monitor, &mut runtime, probed),
        MonitorAction::Quit { kill: None, tell: false }
    ));
    assert_eq!(runtime.message, message);
    assert_eq!(runtime.phase, Phase::Stopped);
    assert!(runtime.child.is_none() && runtime.pid.is_none() && runtime.logs.is_empty());
}

#[test]
fn a_process_is_registered_and_handed_out_once() {
    let (mut runtime, _, _) = running();
    assert_eq!(runtime.pid, Some(7));
    assert_eq!(runtime.message, "等待 http://127.0.0.1:3080 响应…");
    let stop = stop_process(&mut runtime);
    assert_eq!(stop.child, Some("child"));
    assert_eq!(stop.status.phase, Phase::Stopping);
    assert_eq!(stop.status.message, "正在停止 dsh…");
    assert!(runtime.pid.is_none());
    assert!(is_latest_stop(&runtime, stop.generation));
    let status = finish_stop(&mut runtime);
    assert_eq!(status.phase, Phase::Stopped);
    assert_eq!(status.message, "dsh 已停止");
    assert!(stop_process(&mut runtime).child.is_none());
}

#[test]
fn a_stop_without_a_service() {
    let mut runtime = Runtime::default();
    let stop = stop_process(&mut runtime);
    assert_eq!(stop.status.message, "dsh 尚未启动");
    assert_eq!(runtime.generation, 1);
}

#[test]
fn the_watch_sees_the_service_answer() {
    let (mut runtime, _, mut monitor) = running();
    assert_eq!(monitor.next_pause(), 250);
    assert!(matches!(
        monitor_process(&mut monitor, &mut runtime, MonitorEvent::Woke { now: SECOND }),
        MonitorAction::Poll
    ));
    assert!(matches!(
        monitor_process(&mut monitor, &mut runtime, MonitorEvent::Polled { exit: None }),
        MonitorAction::Probe
    ));
    let probed = MonitorEvent::Probed { connected: true, now: SECOND };
    assert!(matches!(
        monitor_process(&mut monitor, &mut runtime, probed),
        MonitorAction::Sleep { millis: 800, tell: true }
    ));
    assert_eq!(runtime.phase, Phase::Ready);
    assert_eq!(runtime.message, "正在监听 http://127.0.0.1:3080");
    assert_eq!(
        maintenance_steps(&runtime),
        vec![MaintenanceStep::Stop, MaintenanceStep::Run, MaintenanceStep::Start]
    );
    monitor_process(&mut monitor, &mut runtime, MonitorEvent::Woke { now: 2 * SECOND });
    assert!(matches!(
        monitor_process(&mut monitor, &mut runtime, MonitorEvent::Polled { exit: None }),
        MonitorAction::Sleep { millis: 800, tell: false }
    ));
}

#[test]
fn the_watch_sees_the_process_end() {
    let (mut runtime, generation, mut monitor) = running();
    push_log(&mut runtime, generation, "stderr", "boom");
    push_log(&mut runtime, generation, "stderr", "");
    let polled = MonitorEvent::Polled { exit: Some("exit status: 1".to_string()) };
    assert!(matches!(
        monitor_process(&mut monitor, &mut runtime, polled),
        MonitorAction::Quit { kill: None, tell: true }
    ));
    assert_eq!(runtime.phase, Phase::Failed);
    assert_eq!(runtime.message, "dsh 进程已退出（exit status: 1）：[stderr] ");
    assert!(runtime.child.is_none() && runtime.pid.is_none());
}

#[test]
fn the_end_of_a_ready_service_is_unexpected() {
    let (mut runtime, _, mut monitor) = running();
    monitor.ready = true;
    runtime.logs.push_back("x".repeat(300));
    runtime.logs.push_back("  ".to_string());
    let polled = MonitorEvent::Polled { exit: Some("signal: 9".to_string()) };
    monitor_process(&mut monitor, &mut runtime, polled);
    let expected = format!("dsh 进程意外退出（signal: 9）：{}…", "x".repeat(239));
    assert_eq!(runtime.message, expected);

    let (mut runtime, _, mut monitor) = running();
    monitor.ready = true;
    let polled = MonitorEvent::Polled { exit: Some("signal: 9".to_string()) };
    monitor_process(&mut monitor, &mut runtime, polled);
    assert_eq!(runtime.message, "dsh 进程意外退出（signal: 9）");

    let (mut runtime, _, mut monitor) = running();
    runtime.phase = Phase::Stopping;
    let polled = MonitorEvent::Polled { exit: Some("signal: 9".to_string()) };
    monitor_process(&mut monitor, &mut runtime, polled);
    assert_eq!((runtime.phase, runtime.message.as_str()), (Phase::Stopped, "dsh 已停止"));
}

#[test]
fn a_silent_process_is_given_up() {
    let (mut runtime, _, mut monitor) = running();
    let probed = MonitorEvent::Probed { connected: false, now: 60 * SECOND };
    // The hint comes first: a minute is long, but not too long.
    assert!(matches!(
        monitor_process(&mut monitor, &mut runtime, probed),
        MonitorAction::Sleep { millis: 250, tell: true }
    ));
    let probed = MonitorEvent::Probed { connected: false, now: 60 * SECOND + 1 };
    match monitor_process(&mut monitor, &mut runtime, probed) {
        MonitorAction::Quit { kill, tell } => assert_eq!((kill, tell), (Some("child"), true)),
        _ => panic!("the process was not given up"),
    }
    assert_eq!(runtime.phase, Phase::Failed);
    assert_eq!(
        runtime.message,
        "dsh 启动超时（60 秒内既没有监听端口 3080，也没有任何新输出），已终止进程，请检查运行日志"
    );
    assert!(runtime.child.is_none() && runtime.pid.is_none());
}

#[test]
fn a_process_that_writes_is_given_up_at_the_last_limit_only() {
    let (mut runtime, generation, mut monitor) = running();
    let mut seconds: u128 = 0;
    while seconds < 900 {
        seconds += 50;
        push_log(&mut runtime, generation, "stdout", "installing");
        let woke = MonitorEvent::Woke { now: seconds * SECOND };
        monitor_process(&mut monitor, &mut runtime, woke);
        let probed = MonitorEvent::Probed { connected: false, now: seconds * SECOND };
        assert!(matches!(
            monitor_process(&mut monitor, &mut runtime, probed),
            MonitorAction::Sleep { .. }
        ));
    }
    let probed = MonitorEvent::Probed { connected: false, now: 901 * SECOND };
    assert!(matches!(
        monitor_process(&mut monitor, &mut runtime, probed),
        MonitorAction::Quit { kill: Some("child"), tell: true }
    ));
    assert_eq!(
        runtime.message,
        "dsh 启动超过 15 分钟仍未监听端口 3080，已终止进程，请检查运行日志"
    );
}

#[test]
fn the_user_is_told_once_of_a_slow_start() {
    let (mut runtime, _, mut monitor) = running();
    let probe = |now: u128| MonitorEvent::Probed { connected: false, now };
    assert!(matches!(
        monitor_process(&mut monitor, &mut runtime, probe(45 * SECOND)),
        MonitorAction::Sleep { millis: 250, tell: false }
    ));
    assert!(matches!(
        monitor_process(&mut monitor, &mut runtime, probe(46 * SECOND)),
        MonitorAction::Sleep { millis: 250, tell: true }
    ));
    assert_eq!(
        runtime.message,
        "dsh 仍在启动，还在输出日志（升级后首次启动要现装依赖，可能要几分钟）：等待 http://127.0.0.1:3080 响应…"
    );
    runtime.message = "kept".to_string();
    assert!(matches!(
        monitor_process(&mut monitor, &mut runtime, probe(47 * SECOND)),
        MonitorAction::Sleep { millis: 250, tell: false }
    ));
    assert_eq!(runtime.message, "kept");
}

#[test]
fn a_hint_for_a_start_that_failed_ends_the_watch() {
    let (mut runtime, _, mut monitor) = running();
    runtime.phase = Phase::Failed;
    let probed = MonitorEvent::Probed { connected: false, now: 46 * SECOND };
    assert!(matches!(
        monitor_process(&mut monitor, &mut runtime, probed),
        MonitorAction::Quit { kill: None, tell: false }
    ));
}

#[test]
fn an_external_service_gets_three_chances() {
    let (mut runtime, generation) = started(3080);
    attach_external(&mut runtime, generation, 3080);
    let mut monitor = ExternalMonitor::new(generation, 3080);
    let failed = ExternalEvent::Probed { connected: false };
    let reached = ExternalEvent::Probed { connected: true };
    assert_eq!(
        monitor_external(&mut monitor, &mut runtime, ExternalEvent::Woke),
        ExternalAction::Probe
    );
    for event in [failed, failed, reached, failed, failed] {
        assert_eq!(
            monitor_external(&mut monitor, &mut runtime, event),
            ExternalAction::Sleep { millis: 900 }
        );
    }
    assert_eq!(runtime.phase, Phase::Ready);
    assert_eq!(
        monitor_external(&mut monitor, &mut runtime, failed),
        ExternalAction::Quit { tell: true }
    );
    assert_eq!(runtime.phase, Phase::Stopped);
    assert!(!runtime.external);
    assert_eq!(runtime.message, "外部 dsh 服务已停止，可以在这里重新启动");
}

#[test]
fn the_watch_over_an_earlier_external_service_ends() {
    let (mut runtime, generation) = started(3080);
    attach_external(&mut runtime, generation, 3080);
    let mut monitor = ExternalMonitor::new(generation, 3080);
    stop_process(&mut runtime);
    let message = runtime.message.clone();
    assert_eq!(
        monitor_external(&mut monitor, &mut runtime, ExternalEvent::Woke),
        ExternalAction::Quit { tell: false }
    );
    assert_eq!(runtime.message, message);
}

#[test]
fn a_start_that_failed_says_why() {
    let (mut runtime, generation) = started(3080);
    let failure = Err("端口 3080 已被占用".to_string());
    assert!(is_concerned(&runtime, Some(generation)));
    assert!(start_with_feedback(&mut runtime, &failure));
    assert_eq!((runtime.phase, runtime.message.as_str()), (Phase::Failed, "端口 3080 已被占用"));
    let success = Ok(snapshot(&runtime));
    assert!(!start_with_feedback(&mut runtime, &success));
    assert_eq!(runtime.phase, Phase::Failed);
    let refusal = Err("dsh 命令不能为空".to_string());
    assert!(is_concerned(&runtime, None));
    assert!(start_with_feedback(&mut runtime, &refusal));
    assert_eq!((runtime.phase, runtime.message.as_str()), (Phase::Failed, "dsh 命令不能为空"));
}

#[test]
fn failures_and_ends_are_noted_in_every_phase() {
    for phase in [Phase::Stopped, Phase::Starting, Phase::Ready, Phase::Stopping, Phase::Failed] {
        let mut runtime = Runtime::default();
        runtime.phase = phase;
        runtime.child = Some("child");
        let failure = Err("无法启动 dsh".to_string());
        assert!(start_with_feedback(&mut runtime, &failure));
        assert_eq!((runtime.phase, runtime.message.as_str()), (Phase::Failed, "无法启动 dsh"));
        runtime.phase = phase;
        assert_eq!(finish_stop(&mut runtime).phase, Phase::Stopped);
        assert_eq!((runtime.phase, runtime.message.as_str()), (Phase::Stopped, "dsh 已停止"));
        assert_eq!(runtime.child, Some("child"));
    }
}

#[test]
fn a_refused_start_does_not_lose_the_process_that_runs() {
    let (mut runtime, _, _) = running();
    let mut config = LauncherConfig::for_directories(None, None);
    config.port = 1;
    assert!(start_process(&mut runtime, &config, true).is_err());
    assert!(!is_concerned(&runtime, None));
    assert_eq!(runtime.phase, Phase::Starting);
    config.port = 3080;
    config.download_directory = "/d".to_string();
    assert!(matches!(
        start_process(&mut runtime, &config, true),
        Ok(StartGate::Occupied { .. })
    ));
    assert_eq!(stop_process(&mut runtime).child, Some("child"));
}

#[test]
fn the_failure_of_an_earlier_start_does_not_disturb_the_next() {
    let (mut runtime, first) = started(3080);
    stop_process(&mut runtime);
    let second = match begin_start(&mut runtime, 3080, Ok(())) {
        Ok(StartGate::Begun { generation }) => generation,
        _ => panic!("the start was not let through"),
    };
    assert!(!is_concerned(&runtime, Some(first)));
    assert!(is_concerned(&runtime, Some(second)));
    assert!(register_child(&mut runtime, second, "second", 8).is_none());
    assert_eq!(stop_process(&mut runtime).child, Some("second"));
}

#[test]
fn a_late_stop_does_not_disturb_the_next_start() {
    let (mut runtime, _, _) = running();
    let slow = stop_process(&mut runtime);
    assert_eq!(slow.child, Some("child"));
    assert!(stop_process(&mut runtime).child.is_none());
    let second = match begin_start(&mut runtime, 3080, Ok(())) {
        Ok(StartGate::Begun { generation }) => generation,
        _ => panic!("the start was not let through"),
    };
    assert!(register_child(&mut runtime, second, "second", 8).is_none());
    assert!(!is_latest_stop(&runtime, slow.generation));
    assert_eq!(stop_process(&mut runtime).child, Some("second"));
}

#[test]
fn commands_wait_for_changes_of_the_installation() {
    let mut runtime = Runtime::default();
    assert_eq!(start_dsh(true, Some(&runtime)).unwrap(), vec![ServiceStep::Start]);
    assert_eq!(
        restart_dsh(true, Some(&runtime)).unwrap(),
        vec![ServiceStep::Stop, ServiceStep::Start]
    );
    assert_eq!(stop_dsh(), vec![ServiceStep::Stop]);
    let busy = OpsBusy::begin(&mut runtime, "正在更新 dsh");
    assert_eq!(busy_label(Some(&runtime)), Some("正在更新 dsh".to_string()));
    assert_eq!(
        start_dsh(false, Some(&runtime)).unwrap_err(),
        "正在更新 dsh，完成后会自动恢复服务；请等待操作结束"
    );
    assert!(restart_dsh(false, Some(&runtime)).is_err());
    busy.finish(&mut runtime);
    assert_eq!(busy_label(Some(&runtime)), None);
    assert_eq!(
        ops_in_progress_error::<u8>(None),
        "有插件或更新操作正在进行，完成后会自动恢复服务；请等待操作结束"
    );
}

#[test]
fn the_log_keeps_the_newest_lines() {
    let (mut runtime, generation) = started(3080);
    for number in 0..MAX_LOG_LINES + 5 {
        assert!(push_log(&mut runtime, generation, "stdout", &format!("line {}", number)));
    }
    let logs = snapshot(&runtime).logs;
    assert_eq!(logs.len(), 400);
    assert_eq!(logs[0], "[stdout] line 5");
    assert_eq!(logs[399], "[stdout] line 404");
    assert_eq!(runtime.log_ticks, 405);
    runtime.log_ticks = u64::MAX;
    push_log(&mut runtime, generation, "stdout", "wraps");
    assert_eq!(runtime.log_ticks, 0);
    assert!(clear_logs(&mut runtime).logs.is_empty());
    assert!(runtime.logs.is_empty());
}
