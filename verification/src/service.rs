//! The life of the dsh service: starting it or using one that is already there, watching
//! it, stopping it.
//!
//! Every change of the state is a transition of `RuntimeView`. A transition that belongs to
//! one start names that start's generation and does nothing once another start or a stop
//! has come. The failure of a start and the end of a stop are noted as they come; whether they
//! are still the state's is asked before, by `is_concerned` and `is_latest_stop`.

use vstd::prelude::*;

use crate::config;
use crate::config::{LaunchMode, LauncherConfig};
use crate::exec;
use crate::exec::{CommandSpec, Platform, NANOS_PER_SECOND};
use crate::paths;
use crate::state;
use crate::state::{LauncherStatus, Phase, RuntimeState, RuntimeView};
use crate::text;
use crate::util;

verus! {

/// Seconds after which a start is given up even though the process still writes output.
pub const STARTUP_HARD_LIMIT: u64 = 900;

/// Seconds after which the user is told why a start takes so long.
pub const SLOW_START_HINT_AFTER: u64 = 45;

/// How often a port is tried that should become free.
pub const PORT_TRIES: u32 = 10;

/// Milliseconds after a try that found the port taken.
pub const PORT_RETRY_MILLIS: u64 = 200;

/// Milliseconds between two looks at an external service.
pub const EXTERNAL_PAUSE_MILLIS: u64 = 900;

/// An external service that could not be reached so often in a row is gone.
pub const EXTERNAL_FAILURES: u32 = 3;

/// The arguments that name the trusted hosts.
pub open spec fn host_args(hosts: Seq<Seq<char>>) -> Seq<Seq<char>>
    decreases hosts.len(),
{
    if hosts.len() == 0 {
        Seq::empty()
    } else {
        host_args(hosts.drop_last()) + seq!["--trusted-host"@, hosts.last()]
    }
}

/// The arguments of `dsh web`.
pub open spec fn web_arguments(config: LauncherConfig) -> Seq<Seq<char>> {
    seq!["web"@, "--host"@, "127.0.0.1"@, "--port"@, text::decimal(config.port as nat)] + host_args(
        config.trusted_hosts.deep_view(),
    )
}

/// Makes the arguments of `dsh web`. `--no-open` is not among them: older versions of dsh
/// do not know it and would end with an error.
pub fn web_args(config: &LauncherConfig) -> (r: Vec<String>)
    ensures
        r.deep_view() == web_arguments(*config),
{
    let mut args: Vec<String> = Vec::new();
    args.push("web".to_string());
    args.push("--host".to_string());
    args.push("127.0.0.1".to_string());
    args.push("--port".to_string());
    args.push(text::decimal_text(config.port as u64));
    let ghost first = seq![
        "web"@,
        "--host"@,
        "127.0.0.1"@,
        "--port"@,
        text::decimal(config.port as nat),
    ];
    let ghost hosts = config.trusted_hosts.deep_view();
    assert(args.deep_view() =~= first + host_args(hosts.take(0)));
    let mut at: usize = 0;
    while at < config.trusted_hosts.len()
        invariant
            at <= config.trusted_hosts.len(),
            hosts == config.trusted_hosts.deep_view(),
            args.deep_view() == first + host_args(hosts.take(at as int)),
        decreases config.trusted_hosts.len() - at,
    {
        let ghost before = args.deep_view();
        let ghost host = config.trusted_hosts@[at as int]@;
        args.push("--trusted-host".to_string());
        args.push(config.trusted_hosts[at].clone());
        assert(args.deep_view() =~= before + seq!["--trusted-host"@, host]);
        assert(hosts.take(at + 1).drop_last() =~= hosts.take(at as int));
        assert(hosts.take(at + 1).last() == host);
        assert(args.deep_view() =~= first + host_args(hosts.take(at + 1)));
        at += 1;
    }
    assert(hosts.take(at as int) =~= hosts);
    args
}

/// Every argument after the port is the switch for a trusted host or a trusted host, in the
/// order of the settings; where the trusted hosts are safe, so are the arguments.
pub proof fn law_host_arguments_are_switches_and_hosts(hosts: Seq<Seq<char>>)
    ensures
        host_args(hosts).len() == 2 * hosts.len(),
        forall|i: int|
            0 <= i < host_args(hosts).len() ==> (if i % 2 == 0 {
                #[trigger] host_args(hosts)[i] == "--trusted-host"@
            } else {
                host_args(hosts)[i] == hosts[i / 2]
            }),
        config::safe_hosts(hosts) ==> forall|i: int|
            0 <= i < host_args(hosts).len() && i % 2 != 0 ==> config::safe_authority(
                #[trigger] host_args(hosts)[i],
            ),
    decreases hosts.len(),
{
    if hosts.len() > 0 {
        let before = hosts.drop_last();
        law_host_arguments_are_switches_and_hosts(before);
        assert forall|i: int| 0 <= i < host_args(hosts).len() implies (if i % 2 == 0 {
            #[trigger] host_args(hosts)[i] == "--trusted-host"@
        } else {
            host_args(hosts)[i] == hosts[i / 2]
        }) by {
            if i < host_args(before).len() {
                assert(host_args(hosts)[i] == host_args(before)[i]);
                assert(i % 2 != 0 ==> before[i / 2] == hosts[i / 2]);
            }
        }
    }
}

/// Makes the command that runs `dsh web`. `resolved` is what the program of the settings
/// resolves to; it matters on Windows only.
pub fn command_for_config(
    config: &LauncherConfig,
    resolved: Result<String, String>,
    platform: Platform,
) -> (r: Result<CommandSpec, String>)
    ensures
        exec::command_or(
            r,
            exec::invocation_outcome(*config, web_arguments(*config), resolved, platform),
        ),
{
    let args: Vec<String> = web_args(config);
    exec::command_for_invocation(config, &args, resolved, platform)
}

/// The command of the service.
pub struct Launch {
    pub command: CommandSpec,
    /// The process gets a process group of its own, so that it can be ended with
    /// everything that it starts.
    pub own_group: bool,
}

/// What is launched is `dsh web` for the settings, or the complaint that there is no such
/// command.
pub open spec fn is_launch(
    r: Result<Launch, String>,
    config: LauncherConfig,
    resolved: Result<String, String>,
    platform: Platform,
) -> bool {
    match exec::invocation_outcome(config, web_arguments(config), resolved, platform) {
        Ok(command) => r is Ok && r->Ok_0.command@ == command.prepared(config)
            && r->Ok_0.own_group == (platform != Platform::Windows),
        Err(message) => r is Err && r->Err_0@ == message,
    }
}

/// Makes the command of the service: `dsh web`, where the settings say and with their dsh
/// directory.
pub fn launch_command(
    config: &LauncherConfig,
    resolved: Result<String, String>,
    platform: Platform,
) -> (r: Result<Launch, String>)
    ensures
        is_launch(r, *config, resolved, platform),
{
    match command_for_config(config, resolved, platform) {
        Ok(command) => {
            let own_group: bool = platform != Platform::Windows;
            Ok(Launch { command: exec::prepare_command(command, config), own_group })
        },
        Err(message) => Err(message),
    }
}

/// Why the process could not be started.
pub open spec fn spawn_complaint(mode: LaunchMode, error: Seq<char>) -> Seq<char> {
    match mode {
        LaunchMode::Command => "无法启动 dsh："@ + error
            + "。请确认已执行 npm install -g @deepseek-ai/dsh，或切换为 npx。"@,
        LaunchMode::Npx => "无法启动 npx："@ + error + "。请确认 Node.js 已安装并在 PATH 中。"@,
    }
}

/// Says why the process could not be started.
pub fn spawn_error(mode: LaunchMode, error: &str) -> (r: String)
    ensures
        r@ == spawn_complaint(mode, error@),
{
    match mode {
        LaunchMode::Command => {
            let mut message: String = "无法启动 dsh：".to_string();
            message.append(error);
            message.append("。请确认已执行 npm install -g @deepseek-ai/dsh，或切换为 npx。");
            message
        },
        LaunchMode::Npx => {
            let mut message: String = "无法启动 npx：".to_string();
            message.append(error);
            message.append("。请确认 Node.js 已安装并在 PATH 中。");
            message
        },
    }
}

/// What came of asking a port for a web page.
pub enum HttpReply {
    /// A response.
    Response,
    /// A response with an error status.
    Status,
    /// No response.
    Transport,
}

/// Tells whether there is a web service: any response will do.
pub fn http_service_alive(reply: HttpReply) -> (r: bool)
    ensures
        r == !(reply is Transport),
{
    match reply {
        HttpReply::Response => true,
        HttpReply::Status => true,
        HttpReply::Transport => false,
    }
}

/// The address of the service on a port of this machine.
pub open spec fn local_url(port: u16) -> Seq<char> {
    "http://127.0.0.1:"@ + text::decimal(port as nat)
}

/// Makes the address of the service.
pub fn service_url(port: u16) -> (r: String)
    ensures
        r@ == local_url(port),
{
    let mut url: String = "http://127.0.0.1:".to_string();
    let digits: String = text::decimal_text(port as u64);
    url.append(digits.as_str());
    url
}

/// Makes the address that is asked whether a service is there.
pub fn probe_url(port: u16) -> (r: String)
    ensures
        r@ == local_url(port) + "/"@,
{
    let mut url: String = service_url(port);
    url.append("/");
    url
}

/// The service runs, or is about to run or to stop.
pub open spec fn occupied(phase: Phase) -> bool {
    phase == Phase::Starting || phase == Phase::Ready || phase == Phase::Stopping
}

/// The last line that is not blank.
pub open spec fn last_nonblank(lines: Seq<Seq<char>>) -> Option<Seq<char>>
    decreases lines.len(),
{
    if lines.len() == 0 {
        None
    } else if text::stripped(lines.last()).len() > 0 {
        Some(lines.last())
    } else {
        last_nonblank(lines.drop_last())
    }
}

/// What is said of a process that ended by itself: how it ended, and the last line that
/// it wrote.
pub open spec fn exit_message(lines: Seq<Seq<char>>, ready: bool, exit: Seq<char>) -> Seq<char> {
    let prefix = if ready { "dsh 进程意外退出"@ } else { "dsh 进程已退出"@ };
    let ended = prefix + "（"@ + exit + "）"@;
    match last_nonblank(lines) {
        Some(line) => ended + "："@ + util::truncated(line, 240),
        None => ended,
    }
}

/// Whether and why a start is given up.
#[derive(Clone, Copy, Debug, PartialEq, Eq, Structural)]
pub enum StartupWait {
    /// There is still hope.
    Keep,
    /// The process has not written anything for too long.
    Silent,
    /// The process keeps writing, but it has been given all the time there is.
    Exhausted,
}

/// What is said of a start that was given up.
pub open spec fn timeout_message(verdict: StartupWait, timeout: u64, port: u16) -> Seq<char> {
    if verdict == StartupWait::Silent {
        "dsh 启动超时（"@ + text::decimal(timeout as nat) + " 秒内既没有监听端口 "@ + text::decimal(
            port as nat,
        ) + "，也没有任何新输出），已终止进程，请检查运行日志"@
    } else {
        "dsh 启动超过 "@ + text::decimal((STARTUP_HARD_LIMIT / 60) as nat)
            + " 分钟仍未监听端口 "@ + text::decimal(port as nat)
            + "，已终止进程，请检查运行日志"@
    }
}

impl<C> RuntimeView<C> {
    /// A start has begun.
    pub open spec fn starting(self, port: u16) -> Self {
        RuntimeView {
            generation: (self.generation + 1) as u64,
            phase: Phase::Starting,
            external: false,
            message: "正在启动 dsh web…"@,
            url: local_url(port),
            logs: Seq::empty(),
            ..self
        }
    }

    /// The start uses a service that was already there.
    pub open spec fn attached(self, generation: u64, port: u16) -> Self {
        if self.generation != generation {
            self
        } else {
            RuntimeView {
                phase: Phase::Ready,
                external: true,
                pid: None,
                message: "已连接到端口 "@ + text::decimal(port as nat)
                    + " 上已在运行的 dsh 服务（外部启动，Launcher 不会停止它）"@,
                logs: self.logs.push(
                    "[launcher] 检测到端口已有 Web 服务在运行，直接沿用外部 dsh"@,
                ),
                ..self
            }
        }
    }

    /// The external service is gone.
    pub open spec fn external_gone(self, generation: u64) -> Self {
        if self.generation != generation {
            self
        } else {
            RuntimeView {
                phase: Phase::Stopped,
                external: false,
                message: "外部 dsh 服务已停止，可以在这里重新启动"@,
                ..self
            }
        }
    }

    /// The start has a process.
    pub open spec fn registered(self, generation: u64, child: C, pid: u32) -> Self {
        if self.generation != generation {
            self
        } else {
            RuntimeView {
                pid: Some(pid),
                child: Some(child),
                message: "等待 "@ + self.url + " 响应…"@,
                ..self
            }
        }
    }

    /// The process of the start has ended.
    pub open spec fn exited(self, generation: u64, ready: bool, exit: Seq<char>) -> Self {
        if self.generation != generation {
            self
        } else if self.phase == Phase::Stopping {
            RuntimeView {
                child: None,
                pid: None,
                phase: Phase::Stopped,
                message: "dsh 已停止"@,
                ..self
            }
        } else {
            RuntimeView {
                child: None,
                pid: None,
                phase: Phase::Failed,
                message: exit_message(self.logs, ready, exit),
                ..self
            }
        }
    }

    /// The service answers on its port.
    pub open spec fn answering(self, generation: u64) -> Self {
        if self.generation != generation || self.phase != Phase::Starting {
            self
        } else {
            RuntimeView { phase: Phase::Ready, message: "正在监听 "@ + self.url, ..self }
        }
    }

    /// The user is told why the start takes so long.
    pub open spec fn hinted(self, generation: u64) -> Self {
        if self.generation != generation || self.phase != Phase::Starting {
            self
        } else {
            RuntimeView {
                message:
                    "dsh 仍在启动，还在输出日志（升级后首次启动要现装依赖，可能要几分钟）：等待 "@
                    + self.url + " 响应…"@,
                ..self
            }
        }
    }

    /// The start has been given up.
    pub open spec fn timed_out(
        self,
        generation: u64,
        verdict: StartupWait,
        timeout: u64,
        port: u16,
    ) -> Self {
        if self.generation != generation {
            self
        } else {
            RuntimeView {
                phase: Phase::Failed,
                message: timeout_message(verdict, timeout, port),
                pid: None,
                child: None,
                ..self
            }
        }
    }

    /// A stop has begun. Where there is no process of ours, there is nothing more to do.
    pub open spec fn stopping(self) -> Self {
        let generation = (self.generation + 1) as u64;
        if self.child is Some {
            RuntimeView {
                generation,
                pid: None,
                child: None,
                phase: Phase::Stopping,
                message: "正在停止 dsh…"@,
                ..self
            }
        } else {
            RuntimeView {
                generation,
                pid: None,
                external: false,
                phase: Phase::Stopped,
                message: if self.external {
                    "已断开与外部 dsh 服务的连接（该服务仍在运行）"@
                } else {
                    "dsh 尚未启动"@
                },
                ..self
            }
        }
    }

    /// The process has been ended.
    pub open spec fn stopped(self) -> Self {
        RuntimeView { phase: Phase::Stopped, message: "dsh 已停止"@, ..self }
    }

    /// A start came to nothing.
    pub open spec fn failed(self, message: Seq<char>) -> Self {
        RuntimeView { phase: Phase::Failed, message, ..self }
    }

    /// The failure of a start is the state's: of one that has begun, as long as nothing else
    /// has come since, and of one that was refused before it began, as long as no service runs,
    /// starts or stops.
    pub open spec fn concerned(self, begun: Option<u64>) -> bool {
        match begun {
            Some(generation) => self.generation == generation,
            None => !occupied(self.phase),
        }
    }
}

/// What a request to start came to.
pub enum StartGate {
    /// The service runs already, or is about to run or to stop.
    Occupied { status: LauncherStatus },
    /// The start has begun and has this generation.
    Begun { generation: u64 },
}

/// What becomes of a start: `complaint` is why the settings did not pass their check, where
/// they did not.
pub open spec fn is_gate<C>(
    gate: Result<StartGate, String>,
    before: RuntimeState<C>,
    after: RuntimeState<C>,
    complaint: Option<Seq<char>>,
    port: u16,
) -> bool {
    match complaint {
        Some(message) => gate is Err && gate->Err_0@ == message && after == before,
        None => if occupied(before.phase) {
            &&& gate is Ok
            &&& gate->Ok_0 matches StartGate::Occupied { status } && status@ == before@.status()
            &&& after == before
        } else {
            &&& gate is Ok
            &&& gate->Ok_0 == (StartGate::Begun { generation: (before.generation + 1) as u64 })
            &&& after@ == before@.starting(port)
        },
    }
}

/// Begins a start, given whether the settings passed their check.
pub fn begin_start<C>(
    runtime: &mut RuntimeState<C>,
    port: u16,
    checked: Result<(), String>,
) -> (r: Result<StartGate, String>)
    requires
        old(runtime).generation < u64::MAX,
    ensures
        checked is Err ==> r is Err && r->Err_0 == checked->Err_0,
        is_gate(
            r,
            *old(runtime),
            *final(runtime),
            match checked {
                Err(message) => Some(message@),
                Ok(_) => None,
            },
            port,
        ),
{
    match checked {
        Err(message) => Err(message),
        Ok(_) => {
            if runtime.phase == Phase::Starting || runtime.phase == Phase::Ready || runtime.phase
                == Phase::Stopping {
                return Ok(StartGate::Occupied { status: state::snapshot(runtime) });
            }
            runtime.generation += 1;
            runtime.phase = Phase::Starting;
            runtime.external = false;
            runtime.message = "正在启动 dsh web…".to_string();
            runtime.url = service_url(port);
            runtime.logs.clear();
            assert(runtime@ =~= old(runtime)@.starting(port));
            Ok(StartGate::Begun { generation: runtime.generation })
        },
    }
}

/// Checks the settings and begins a start. Only whether the working directory is there is
/// for the caller to find out.
pub fn start_process<C>(
    runtime: &mut RuntimeState<C>,
    config: &LauncherConfig,
    workspace_exists: bool,
) -> (r: Result<StartGate, String>)
    requires
        old(runtime).generation < u64::MAX,
    ensures
        exists|download_absolute: bool|
            (download_absolute ==> paths::rooted(text::stripped(config.download_directory@)))
                && is_gate(
                r,
                *old(runtime),
                *final(runtime),
                #[trigger] config::config_complaint(*config, workspace_exists, download_absolute),
                config.port,
            ),
{
    let checked: Result<(), String> = config::validate_config(config, workspace_exists);
    begin_start(runtime, config.port, checked)
}

/// How far a start has come with its port.
#[derive(Clone, Copy, Debug, PartialEq, Eq, Structural)]
pub enum PortStage {
    /// The port is tried for the first time.
    Probe,
    /// The port is taken; whoever has it is asked for a web page.
    Ask,
    /// The port should become free; it was taken so often since.
    Wait { taken: u32 },
    /// It is settled what the start does.
    Settled,
}

/// What was found out about the port.
#[derive(Clone, Copy, Debug, PartialEq, Eq, Structural)]
pub enum PortEvent {
    /// The port was tried.
    Tried { free: bool },
    /// Whoever has the port was asked for a web page.
    Asked { alive: bool },
}

/// What a start does next.
pub enum PortAction {
    /// Ask whoever has the port for a web page.
    Ask,
    /// Sleep for so many milliseconds, then try the port.
    Try { after_millis: u64 },
    /// Use the service that is there.
    Attach,
    /// Run the command.
    Launch,
    /// Sleep for so many milliseconds, then end with this complaint.
    Refuse { after_millis: u64, message: String },
}

/// The content of a `PortAction`.
pub enum PortActionView {
    Ask,
    Try { after_millis: u64 },
    Attach,
    Launch,
    Refuse { after_millis: u64, message: Seq<char> },
}

impl View for PortAction {
    type V = PortActionView;

    open spec fn view(&self) -> PortActionView {
        match self {
            PortAction::Ask => PortActionView::Ask,
            PortAction::Try { after_millis } => PortActionView::Try { after_millis: *after_millis },
            PortAction::Attach => PortActionView::Attach,
            PortAction::Launch => PortActionView::Launch,
            PortAction::Refuse { after_millis, message } => PortActionView::Refuse {
                after_millis: *after_millis,
                message: message@,
            },
        }
    }
}

/// The complaint that the port stays taken.
pub open spec fn port_complaint(port: u16) -> Seq<char> {
    "端口 "@ + text::decimal(port as nat)
        + " 已被占用，且占用者不像一个可用的 Web 服务。请结束占用进程，或在“管理”里换一个端口。"@
}

/// The event is the one that the stage waits for.
pub open spec fn fits(stage: PortStage, event: PortEvent) -> bool {
    match stage {
        PortStage::Probe => event is Tried,
        PortStage::Ask => event is Asked,
        PortStage::Wait { taken } => event is Tried && taken < PORT_TRIES,
        PortStage::Settled => false,
    }
}

/// What the start does about its port, and where it stands then. A taken port is no error
/// by itself: a web service on it is used, and any other owner gets time to leave.
pub open spec fn port_step(stage: PortStage, event: PortEvent, port: u16) -> (
    PortStage,
    PortActionView,
) {
    match (stage, event) {
        (_, PortEvent::Asked { alive: true }) => (PortStage::Settled, PortActionView::Attach),
        (_, PortEvent::Asked { alive: false }) => (
            PortStage::Wait { taken: 0 },
            PortActionView::Try { after_millis: 0 },
        ),
        (_, PortEvent::Tried { free: true }) => (PortStage::Settled, PortActionView::Launch),
        (PortStage::Wait { taken }, PortEvent::Tried { free: false }) => if taken + 1
            < PORT_TRIES {
            (
                PortStage::Wait { taken: (taken + 1) as u32 },
                PortActionView::Try { after_millis: PORT_RETRY_MILLIS },
            )
        } else {
            (
                PortStage::Settled,
                PortActionView::Refuse {
                    after_millis: PORT_RETRY_MILLIS,
                    message: port_complaint(port),
                },
            )
        },
        (_, PortEvent::Tried { free: false }) => (PortStage::Ask, PortActionView::Ask),
    }
}

/// A start on its way to a port. It begins with trying the port.
pub struct PortSearch {
    pub port: u16,
    pub stage: PortStage,
}

impl PortSearch {
    /// The port is still to be tried.
    pub fn new(port: u16) -> (r: Self)
        ensures
            r.port == port,
            r.stage == PortStage::Probe,
    {
        PortSearch { port, stage: PortStage::Probe }
    }

    /// Takes in what was found out about the port and says what to do next.
    pub fn step(&mut self, event: PortEvent) -> (r: PortAction)
        requires
            fits(old(self).stage, event),
        ensures
            final(self).port == old(self).port,
            (final(self).stage, r@) == port_step(old(self).stage, event, old(self).port),
    {
        match event {
            PortEvent::Asked { alive } => {
                if alive {
                    self.stage = PortStage::Settled;
                    PortAction::Attach
                } else {
                    self.stage = PortStage::Wait { taken: 0 };
                    PortAction::Try { after_millis: 0 }
                }
            },
            PortEvent::Tried { free } => {
                if free {
                    self.stage = PortStage::Settled;
                    return PortAction::Launch;
                }
                match self.stage {
                    PortStage::Wait { taken } => {
                        if taken + 1 < PORT_TRIES {
                            self.stage = PortStage::Wait { taken: taken + 1 };
                            PortAction::Try { after_millis: PORT_RETRY_MILLIS }
                        } else {
                            self.stage = PortStage::Settled;
                            let mut message: String = "端口 ".to_string();
                            let digits: String = text::decimal_text(self.port as u64);
                            message.append(digits.as_str());
                            message.append(
                                " 已被占用，且占用者不像一个可用的 Web 服务。请结束占用进程，或在“管理”里换一个端口。",
                            );
                            PortAction::Refuse { after_millis: PORT_RETRY_MILLIS, message }
                        }
                    },
                    _ => {
                        self.stage = PortStage::Ask;
                        PortAction::Ask
                    },
                }
            },
        }
    }
}

/// Uses the service that is already on the port; `false` where the start is over, and
/// nothing is done.
pub fn attach_external<C>(runtime: &mut RuntimeState<C>, generation: u64, port: u16) -> (r: bool)
    ensures
        r == (old(runtime).generation == generation),
        final(runtime)@ == old(runtime)@.attached(generation, port),
{
    if runtime.generation != generation {
        return false;
    }
    runtime.phase = Phase::Ready;
    runtime.external = true;
    runtime.pid = None;
    let mut message: String = "已连接到端口 ".to_string();
    let digits: String = text::decimal_text(port as u64);
    message.append(digits.as_str());
    message.append(" 上已在运行的 dsh 服务（外部启动，Launcher 不会停止它）");
    runtime.message = message;
    runtime.logs.push_back(
        "[launcher] 检测到端口已有 Web 服务在运行，直接沿用外部 dsh".to_string(),
    );
    assert(state::lines_of(runtime.logs@) =~= state::lines_of(old(runtime).logs@).push(
        "[launcher] 检测到端口已有 Web 服务在运行，直接沿用外部 dsh"@,
    ));
    assert(runtime@ =~= old(runtime)@.attached(generation, port));
    true
}

/// Notes the process of a start. Where the start is over, the process comes back and is
/// to be ended.
pub fn register_child<C>(runtime: &mut RuntimeState<C>, generation: u64, child: C, pid: u32) -> (r:
    Option<C>)
    ensures
        r == (if old(runtime).generation == generation { None } else { Some(child) }),
        final(runtime)@ == old(runtime)@.registered(generation, child, pid),
{
    if runtime.generation != generation {
        return Some(child);
    }
    runtime.pid = Some(pid);
    runtime.child = Some(child);
    let mut message: String = "等待 ".to_string();
    message.append(runtime.url.as_str());
    message.append(" 响应…");
    runtime.message = message;
    assert(runtime@ =~= old(runtime)@.registered(generation, child, pid));
    None
}

/// Seconds of silence after which a starting process counts as hanging; npx may have to
/// download the package first.
pub open spec fn silence_budget(mode: LaunchMode) -> u64 {
    match mode {
        LaunchMode::Npx => 180,
        LaunchMode::Command => 60,
    }
}

/// Seconds of silence after which a starting process counts as hanging.
pub fn startup_timeout(mode: LaunchMode) -> (r: u64)
    ensures
        r == silence_budget(mode),
{
    match mode {
        LaunchMode::Npx => 180,
        LaunchMode::Command => 60,
    }
}

/// What the times of a start amount to, in nanoseconds.
pub open spec fn startup_verdict(silent_for: u128, elapsed: u128, silence_budget: u128) -> StartupWait {
    if silent_for > silence_budget {
        StartupWait::Silent
    } else if elapsed > STARTUP_HARD_LIMIT * NANOS_PER_SECOND {
        StartupWait::Exhausted
    } else {
        StartupWait::Keep
    }
}

/// Judges a start by how long the process has been silent rather than by how long it has
/// taken: the first start after an upgrade installs dependencies for minutes, and says so.
/// The times are in nanoseconds.
pub fn classify_startup_wait(silent_for: u128, elapsed: u128, silence_budget: u128) -> (r:
    StartupWait)
    ensures
        r == startup_verdict(silent_for, elapsed, silence_budget),
{
    if silent_for > silence_budget {
        StartupWait::Silent
    } else if elapsed > STARTUP_HARD_LIMIT as u128 * NANOS_PER_SECOND {
        StartupWait::Exhausted
    } else {
        StartupWait::Keep
    }
}

/// The watch over the process of one start.
pub struct Monitor {
    pub generation: u64,
    pub port: u16,
    /// Seconds of silence after which a starting process counts as hanging.
    pub timeout: u64,
    /// The service has answered.
    pub ready: bool,
    /// The user has been told why the start takes so long.
    pub hinted: bool,
    /// How many lines had been written when that was last looked at.
    pub seen_ticks: u64,
    /// When new output was last seen, in nanoseconds since the watch began.
    pub last_active: u128,
}

/// What the watch is told. Times are in nanoseconds since the watch began.
pub enum MonitorEvent {
    /// The pause is over.
    Woke { now: u128 },
    /// The process was asked whether it has ended.
    Polled { exit: Option<String> },
    /// The port was tried.
    Probed { connected: bool, now: u128 },
}

/// What the watch does next.
pub enum MonitorAction<C> {
    /// Ask the process whether it has ended.
    Poll,
    /// Try the port.
    Probe,
    /// Tell the windows if need be, then sleep for so many milliseconds.
    Sleep { millis: u64, tell: bool },
    /// End the process if there is one, tell the windows if need be, then end the watch.
    Quit { kill: Option<C>, tell: bool },
}

impl Monitor {
    /// Milliseconds between two looks at the process.
    pub open spec fn pause(self) -> u64 {
        if self.ready {
            800
        } else {
            250
        }
    }

    /// The watch as it begins.
    pub open spec fn beginning(generation: u64, port: u16, timeout: u64) -> Self {
        Monitor {
            generation,
            port,
            timeout,
            ready: false,
            hinted: false,
            seen_ticks: 0,
            last_active: 0,
        }
    }

    /// The watch after a look at how much the process has written.
    pub open spec fn noticed(self, ticks: u64, now: u128) -> Self {
        if ticks != self.seen_ticks {
            Monitor { seen_ticks: ticks, last_active: now, ..self }
        } else {
            self
        }
    }

    /// What is thought of a start whose port does not answer.
    pub open spec fn verdict(self, now: u128) -> StartupWait {
        startup_verdict(
            if now >= self.last_active { (now - self.last_active) as u128 } else { 0 },
            now,
            (self.timeout * NANOS_PER_SECOND) as u128,
        )
    }

    /// It is time to tell the user why the start takes so long.
    pub open spec fn hint_due(self, now: u128) -> bool {
        !self.hinted && now > SLOW_START_HINT_AFTER * NANOS_PER_SECOND
    }

    /// What becomes of the watch and of the state when the port does not answer, and what
    /// the watch does.
    pub open spec fn unanswered<C>(self, runtime: RuntimeView<C>, now: u128) -> (
        Self,
        RuntimeView<C>,
        MonitorAction<C>,
    ) {
        let verdict = self.verdict(now);
        let current = runtime.generation == self.generation;
        if verdict != StartupWait::Keep {
            (
                self,
                runtime.timed_out(self.generation, verdict, self.timeout, self.port),
                MonitorAction::Quit { kill: if current { runtime.child } else { None }, tell: current },
            )
        } else if !self.hint_due(now) {
            (self, runtime, MonitorAction::Sleep { millis: self.pause(), tell: false })
        } else {
            (
                Monitor { hinted: true, ..self },
                runtime.hinted(self.generation),
                if current && runtime.phase == Phase::Starting {
                    MonitorAction::Sleep { millis: self.pause(), tell: true }
                } else {
                    MonitorAction::Quit { kill: None, tell: false }
                },
            )
        }
    }

    /// What becomes of the watch and of the state with an event, and what the watch does.
    pub open spec fn after<C>(self, runtime: RuntimeView<C>, event: MonitorEvent) -> (
        Self,
        RuntimeView<C>,
        MonitorAction<C>,
    ) {
        match event {
            MonitorEvent::Woke { now } => if runtime.generation != self.generation {
                (self, runtime, MonitorAction::Quit { kill: None, tell: false })
            } else {
                (self.noticed(runtime.log_ticks, now), runtime, MonitorAction::Poll)
            },
            MonitorEvent::Polled { exit } => match exit {
                Some(status) => (
                    self,
                    runtime.exited(self.generation, self.ready, status@),
                    MonitorAction::Quit { kill: None, tell: true },
                ),
                None => (
                    self,
                    runtime,
                    if self.ready {
                        MonitorAction::Sleep { millis: self.pause(), tell: false }
                    } else {
                        MonitorAction::Probe
                    },
                ),
            },
            MonitorEvent::Probed { connected, now } => if connected {
                let answered = Monitor { ready: true, ..self };
                (
                    answered,
                    runtime.answering(self.generation),
                    MonitorAction::Sleep { millis: answered.pause(), tell: true },
                )
            } else {
                self.unanswered(runtime, now)
            },
        }
    }

    /// Begins the watch over the process of a start, with a pause.
    pub fn new(generation: u64, port: u16, timeout: u64) -> (r: Self)
        ensures
            r == Monitor::beginning(generation, port, timeout),
    {
        Monitor {
            generation,
            port,
            timeout,
            ready: false,
            hinted: false,
            seen_ticks: 0,
            last_active: 0,
        }
    }

    /// Milliseconds to the next look at the process.
    pub fn next_pause(&self) -> (r: u64)
        ensures
            r == self.pause(),
    {
        if self.ready {
            800
        } else {
            250
        }
    }
}

/// The last line of a log that is not blank, cut down to `limit` characters.
fn last_words(lines: &std::collections::VecDeque<String>, limit: usize) -> (r: Option<String>)
    ensures
        match last_nonblank(state::lines_of(lines@)) {
            Some(line) => r is Some && r->0@ == util::truncated(line, limit as nat),
            None => r is None,
        },
{
    let ghost all = state::lines_of(lines@);
    let mut end: usize = lines.len();
    assert(all.take(end as int) =~= all);
    while end > 0
        invariant
            end <= lines.len(),
            all == state::lines_of(lines@),
            last_nonblank(all.take(end as int)) == last_nonblank(all),
        decreases end,
    {
        assert(all.take(end as int).last() == lines@[end - 1]@);
        assert(all.take(end as int).drop_last() =~= all.take(end - 1));
        if !text::is_blank(lines[end - 1].as_str()) {
            return Some(util::truncate_chars(lines[end - 1].as_str(), limit));
        }
        end -= 1;
    }
    None
}

/// Says how a process ended that was not asked to.
fn exit_text<C>(runtime: &RuntimeState<C>, ready: bool, exit: &str) -> (r: String)
    ensures
        r@ == exit_message(runtime@.logs, ready, exit@),
{
    let mut message: String = if ready {
        "dsh 进程意外退出".to_string()
    } else {
        "dsh 进程已退出".to_string()
    };
    message.append("（");
    message.append(exit);
    message.append("）");
    match last_words(&runtime.logs, 240) {
        Some(line) => {
            message.append("：");
            message.append(line.as_str());
        },
        None => {},
    }
    message
}

/// Notes that the process of a start has ended.
fn note_exit<C>(runtime: &mut RuntimeState<C>, generation: u64, ready: bool, exit: &str)
    ensures
        final(runtime)@ == old(runtime)@.exited(generation, ready, exit@),
{
    if runtime.generation != generation {
        return ;
    }
    runtime.child = None;
    runtime.pid = None;
    if runtime.phase == Phase::Stopping {
        runtime.phase = Phase::Stopped;
        runtime.message = "dsh 已停止".to_string();
    } else {
        runtime.phase = Phase::Failed;
        runtime.message = exit_text(runtime, ready, exit);
    }
    assert(runtime@ =~= old(runtime)@.exited(generation, ready, exit@));
}

/// Notes that the service answers on its port.
fn note_answer<C>(runtime: &mut RuntimeState<C>, generation: u64)
    ensures
        final(runtime)@ == old(runtime)@.answering(generation),
{
    if runtime.generation == generation && runtime.phase == Phase::Starting {
        runtime.phase = Phase::Ready;
        let mut message: String = "正在监听 ".to_string();
        message.append(runtime.url.as_str());
        runtime.message = message;
    }
    assert(runtime@ =~= old(runtime)@.answering(generation));
}

/// Says of a start that was given up why that was.
fn timeout_text(verdict: StartupWait, timeout: u64, port: u16) -> (r: String)
    ensures
        r@ == timeout_message(verdict, timeout, port),
{
    let digits: String = text::decimal_text(port as u64);
    if verdict == StartupWait::Silent {
        let mut message: String = "dsh 启动超时（".to_string();
        let seconds: String = text::decimal_text(timeout);
        message.append(seconds.as_str());
        message.append(" 秒内既没有监听端口 ");
        message.append(digits.as_str());
        message.append("，也没有任何新输出），已终止进程，请检查运行日志");
        message
    } else {
        let mut message: String = "dsh 启动超过 ".to_string();
        let minutes: String = text::decimal_text(STARTUP_HARD_LIMIT / 60);
        message.append(minutes.as_str());
        message.append(" 分钟仍未监听端口 ");
        message.append(digits.as_str());
        message.append("，已终止进程，请检查运行日志");
        message
    }
}

/// Watches the process of a start: takes in what happened and says what to do next. A
/// process that is still starting is given up once it has been silent for too long or has
/// used up all its time; it is then handed out to be ended, since it would hold on to its
/// port.
pub fn monitor_process<C>(
    monitor: &mut Monitor,
    runtime: &mut RuntimeState<C>,
    event: MonitorEvent,
) -> (r: MonitorAction<C>)
    ensures
        (*final(monitor), final(runtime)@, r) == old(monitor).after(old(runtime)@, event),
{
    match event {
        MonitorEvent::Woke { now } => {
            if runtime.generation != monitor.generation {
                return MonitorAction::Quit { kill: None, tell: false };
            }
            if runtime.log_ticks != monitor.seen_ticks {
                monitor.seen_ticks = runtime.log_ticks;
                monitor.last_active = now;
            }
            MonitorAction::Poll
        },
        MonitorEvent::Polled { exit } => match exit {
            Some(status) => {
                note_exit(runtime, monitor.generation, monitor.ready, status.as_str());
                MonitorAction::Quit { kill: None, tell: true }
            },
            None => if monitor.ready {
                MonitorAction::Sleep { millis: monitor.next_pause(), tell: false }
            } else {
                MonitorAction::Probe
            },
        },
        MonitorEvent::Probed { connected, now } => {
            if connected {
                note_answer(runtime, monitor.generation);
                monitor.ready = true;
                return MonitorAction::Sleep { millis: monitor.next_pause(), tell: true };
            }
            let silent_for: u128 = now.saturating_sub(monitor.last_active);
            let budget: u128 = monitor.timeout as u128 * NANOS_PER_SECOND;
            let verdict: StartupWait = classify_startup_wait(silent_for, now, budget);
            assert(verdict == monitor.verdict(now));
            let current: bool = runtime.generation == monitor.generation;
            if verdict == StartupWait::Keep {
                if !monitor.hinted && now > SLOW_START_HINT_AFTER as u128 * NANOS_PER_SECOND {
                    monitor.hinted = true;
                    if !current || runtime.phase != Phase::Starting {
                        return MonitorAction::Quit { kill: None, tell: false };
                    }
                    let mut message: String =
                        "dsh 仍在启动，还在输出日志（升级后首次启动要现装依赖，可能要几分钟）：等待 ".to_string();
                    message.append(runtime.url.as_str());
                    message.append(" 响应…");
                    runtime.message = message;
                    assert(runtime@ =~= old(runtime)@.hinted(monitor.generation));
                    return MonitorAction::Sleep { millis: monitor.next_pause(), tell: true };
                }
                return MonitorAction::Sleep { millis: monitor.next_pause(), tell: false };
            }
            if !current {
                return MonitorAction::Quit { kill: None, tell: false };
            }
            runtime.phase = Phase::Failed;
            runtime.message = timeout_text(verdict, monitor.timeout, monitor.port);
            runtime.pid = None;
            let child: Option<C> = runtime.child.take();
            assert(runtime@ =~= old(runtime)@.timed_out(
                monitor.generation,
                verdict,
                monitor.timeout,
                monitor.port,
            ));
            MonitorAction::Quit { kill: child, tell: true }
        },
    }
}

/// The watch over a service that was started outside the launcher.
pub struct ExternalMonitor {
    pub generation: u64,
    pub port: u16,
    /// How often in a row the service could not be reached.
    pub failures: u32,
}

/// What the watch over an external service is told.
#[derive(Clone, Copy, Debug, PartialEq, Eq, Structural)]
pub enum ExternalEvent {
    /// The pause is over.
    Woke,
    /// The port was tried.
    Probed { connected: bool },
}

/// What the watch over an external service does next.
#[derive(Clone, Copy, Debug, PartialEq, Eq, Structural)]
pub enum ExternalAction {
    /// Try the port.
    Probe,
    /// Sleep for so many milliseconds.
    Sleep { millis: u64 },
    /// Tell the windows if need be, then end the watch.
    Quit { tell: bool },
}

impl ExternalMonitor {
    /// What becomes of the watch and of the state with an event, and what the watch does.
    pub open spec fn after<C>(self, runtime: RuntimeView<C>, event: ExternalEvent) -> (
        Self,
        RuntimeView<C>,
        ExternalAction,
    ) {
        let current = runtime.generation == self.generation;
        match event {
            ExternalEvent::Woke => (
                self,
                runtime,
                if current {
                    ExternalAction::Probe
                } else {
                    ExternalAction::Quit { tell: false }
                },
            ),
            ExternalEvent::Probed { connected: true } => (
                ExternalMonitor { failures: 0, ..self },
                runtime,
                ExternalAction::Sleep { millis: EXTERNAL_PAUSE_MILLIS },
            ),
            ExternalEvent::Probed { connected: false } => {
                let failed = ExternalMonitor { failures: (self.failures + 1) as u32, ..self };
                if failed.failures < EXTERNAL_FAILURES {
                    (failed, runtime, ExternalAction::Sleep { millis: EXTERNAL_PAUSE_MILLIS })
                } else {
                    (
                        failed,
                        runtime.external_gone(self.generation),
                        ExternalAction::Quit { tell: current },
                    )
                }
            },
        }
    }

    /// The watch goes on as long as there were not too many failures in a row.
    pub open spec fn watching(self) -> bool {
        self.failures < EXTERNAL_FAILURES
    }

    /// Begins the watch over an external service.
    pub fn new(generation: u64, port: u16) -> (r: Self)
        ensures
            r == (ExternalMonitor { generation, port, failures: 0 }),
            r.watching(),
    {
        ExternalMonitor { generation, port, failures: 0 }
    }
}

/// Watches a service that was started outside the launcher: once it is gone, the state says
/// so, and the service can be started here.
pub fn monitor_external<C>(
    monitor: &mut ExternalMonitor,
    runtime: &mut RuntimeState<C>,
    event: ExternalEvent,
) -> (r: ExternalAction)
    requires
        old(monitor).watching(),
    ensures
        (*final(monitor), final(runtime)@, r) == old(monitor).after(old(runtime)@, event),
        !(r is Quit) ==> final(monitor).watching(),
{
    match event {
        ExternalEvent::Woke => if runtime.generation == monitor.generation {
            ExternalAction::Probe
        } else {
            ExternalAction::Quit { tell: false }
        },
        ExternalEvent::Probed { connected } => {
            if connected {
                monitor.failures = 0;
                return ExternalAction::Sleep { millis: EXTERNAL_PAUSE_MILLIS };
            }
            monitor.failures += 1;
            if monitor.failures < EXTERNAL_FAILURES {
                return ExternalAction::Sleep { millis: EXTERNAL_PAUSE_MILLIS };
            }
            if runtime.generation != monitor.generation {
                return ExternalAction::Quit { tell: false };
            }
            runtime.phase = Phase::Stopped;
            runtime.external = false;
            runtime.message = "外部 dsh 服务已停止，可以在这里重新启动".to_string();
            assert(runtime@ =~= old(runtime)@.external_gone(monitor.generation));
            ExternalAction::Quit { tell: true }
        },
    }
}

/// A stop that has begun: its generation, the process that is to be ended, if there is one of
/// ours, and what the windows are told.
pub struct Stop<C> {
    pub generation: u64,
    pub child: Option<C>,
    pub status: LauncherStatus,
}

/// Begins a stop. A service that was started outside the launcher is left running.
pub fn stop_process<C>(runtime: &mut RuntimeState<C>) -> (r: Stop<C>)
    requires
        old(runtime).generation < u64::MAX,
    ensures
        r.generation == old(runtime).generation + 1,
        r.child == old(runtime).child,
        r.status@ == old(runtime)@.stopping().status(),
        final(runtime)@ == old(runtime)@.stopping(),
{
    runtime.generation += 1;
    runtime.pid = None;
    let child: Option<C> = runtime.child.take();
    if child.is_some() {
        runtime.phase = Phase::Stopping;
        runtime.message = "正在停止 dsh…".to_string();
    } else {
        let was_external: bool = runtime.external;
        runtime.external = false;
        runtime.phase = Phase::Stopped;
        runtime.message = if was_external {
            "已断开与外部 dsh 服务的连接（该服务仍在运行）".to_string()
        } else {
            "dsh 尚未启动".to_string()
        };
    }
    assert(runtime@ =~= old(runtime)@.stopping());
    Stop { generation: runtime.generation, child, status: state::snapshot(runtime) }
}

/// Tells whether the stop `generation` is still the latest that has come, so that its end is
/// the state's. Another start may run its process by the time that a slow one is ended.
pub fn is_latest_stop<C>(runtime: &RuntimeState<C>, generation: u64) -> (r: bool)
    ensures
        r == (runtime.generation == generation),
{
    runtime.generation == generation
}

/// Ends a stop, once the process has been ended.
pub fn finish_stop<C>(runtime: &mut RuntimeState<C>) -> (r: LauncherStatus)
    ensures
        r@ == old(runtime)@.stopped().status(),
        final(runtime)@ == old(runtime)@.stopped(),
{
    runtime.phase = Phase::Stopped;
    runtime.message = "dsh 已停止".to_string();
    assert(runtime@ =~= old(runtime)@.stopped());
    state::snapshot(runtime)
}

/// Tells whether the failure of a start is the state's; `begun` is the generation of the start
/// if it had begun. A start that its settings refuse says nothing of the service that runs.
pub fn is_concerned<C>(runtime: &RuntimeState<C>, begun: Option<u64>) -> (r: bool)
    ensures
        r == runtime@.concerned(begun),
{
    match begun {
        Some(generation) => runtime.generation == generation,
        None => runtime.phase != Phase::Starting && runtime.phase != Phase::Ready && runtime.phase
            != Phase::Stopping,
    }
}

/// Notes how a start ended: where it came to nothing, the state says why. The result says
/// whether the windows have to be told.
pub fn start_with_feedback<C>(
    runtime: &mut RuntimeState<C>,
    result: &Result<LauncherStatus, String>,
) -> (r: bool)
    ensures
        r == (result is Err),
        final(runtime)@ == (match *result {
            Ok(_) => old(runtime)@,
            Err(message) => old(runtime)@.failed(message@),
        }),
{
    match result {
        Ok(_) => false,
        Err(message) => {
            runtime.phase = Phase::Failed;
            runtime.message = message.clone();
            assert(runtime@ =~= old(runtime)@.failed(message@));
            true
        },
    }
}

/// What the windows ask for.
#[derive(Clone, Copy, Debug, PartialEq, Eq, Structural)]
pub enum Request {
    Start,
    Stop,
    Restart,
    Update,
    Plugin,
}

/// A request is let through: a stop at any time, all else only while nobody else starts the
/// service or changes the installation.
pub open spec fn let_through(request: Request, idle: bool) -> bool {
    idle || request == Request::Stop
}

/// What happens to the right to start the service or to change the installation.
pub enum Turn {
    /// A request comes, and holds the right if it is let through.
    Asked { request: Request },
    /// What held the right is done.
    Done,
}

/// How many hold the right after a series of turns.
pub open spec fn under_way(turns: Seq<Turn>) -> nat
    decreases turns.len(),
{
    if turns.len() == 0 {
        0
    } else {
        let before = under_way(turns.drop_last());
        match turns.last() {
            Turn::Asked { request } => if request != Request::Stop && let_through(
                request,
                before == 0,
            ) {
                before + 1
            } else {
                before
            },
            Turn::Done => 0,
        }
    }
}

/// What the windows ask for excludes each other, but for stops: at no time is more than one
/// update, change of the plugins, start or restart under way.
pub proof fn law_changes_exclude_each_other(turns: Seq<Turn>)
    ensures
        under_way(turns) <= 1,
    decreases turns.len(),
{
    if turns.len() > 0 {
        law_changes_exclude_each_other(turns.drop_last());
    }
}

/// A step of a command from a window.
#[derive(Clone, Copy, Debug, PartialEq, Eq, Structural)]
pub enum ServiceStep {
    Stop,
    Start,
}

/// The plan for a request, or the refusal while the installation is being changed.
pub open spec fn planned(
    r: Result<Vec<ServiceStep>, String>,
    request: Request,
    idle: bool,
    busy: Option<Seq<char>>,
    steps: Seq<ServiceStep>,
) -> bool {
    if let_through(request, idle) {
        r is Ok && r->Ok_0@ == steps
    } else {
        r is Err && r->Err_0@ == state::ops_complaint(busy)
    }
}

/// Starts the service, unless the installation is being changed: the service would run
/// from a directory that is half written.
pub fn start_dsh<C>(idle: bool, runtime: Option<&RuntimeState<C>>) -> (r: Result<
    Vec<ServiceStep>,
    String,
>)
    ensures
        planned(
            r,
            Request::Start,
            idle,
            state::busy_text(runtime),
            seq![ServiceStep::Start],
        ),
{
    if !idle {
        return Err(state::ops_in_progress_error(runtime));
    }
    let mut steps: Vec<ServiceStep> = Vec::new();
    steps.push(ServiceStep::Start);
    assert(steps@ =~= seq![ServiceStep::Start]);
    Ok(steps)
}

/// Stops the service, at any time.
pub fn stop_dsh() -> (r: Vec<ServiceStep>)
    ensures
        r@ == seq![ServiceStep::Stop],
{
    let mut steps: Vec<ServiceStep> = Vec::new();
    steps.push(ServiceStep::Stop);
    assert(steps@ =~= seq![ServiceStep::Stop]);
    steps
}

/// Stops the service and starts it again, unless the installation is being changed.
pub fn restart_dsh<C>(idle: bool, runtime: Option<&RuntimeState<C>>) -> (r: Result<
    Vec<ServiceStep>,
    String,
>)
    ensures
        planned(
            r,
            Request::Restart,
            idle,
            state::busy_text(runtime),
            seq![ServiceStep::Stop, ServiceStep::Start],
        ),
{
    if !idle {
        return Err(state::ops_in_progress_error(runtime));
    }
    let mut steps: Vec<ServiceStep> = Vec::new();
    steps.push(ServiceStep::Stop);
    steps.push(ServiceStep::Start);
    assert(steps@ =~= seq![ServiceStep::Stop, ServiceStep::Start]);
    Ok(steps)
}

/// The service runs and is ours, so that a change of the installation has to stop it first
/// and start it again afterwards.
pub open spec fn ours_and_ready<C>(runtime: RuntimeView<C>) -> bool {
    runtime.phase == Phase::Ready && !runtime.external
}

/// A step of a change of the installation.
#[derive(Clone, Copy, Debug, PartialEq, Eq, Structural)]
pub enum MaintenanceStep {
    /// Stop the service.
    Stop,
    /// Run the command that makes the change.
    Run,
    /// Start the service again, whatever the command came to.
    Start,
}

/// The steps of a change: a service that runs and is ours is stopped before it, since its
/// files are about to change, and started again after it.
pub open spec fn change_steps<C>(runtime: RuntimeView<C>) -> Seq<MaintenanceStep> {
    if ours_and_ready(runtime) {
        seq![MaintenanceStep::Stop, MaintenanceStep::Run, MaintenanceStep::Start]
    } else {
        seq![MaintenanceStep::Run]
    }
}

/// Plans the steps of a change of the installation.
pub fn maintenance_steps<C>(runtime: &RuntimeState<C>) -> (r: Vec<MaintenanceStep>)
    ensures
        r@ == change_steps(runtime@),
{
    let interrupt: bool = runtime.phase == Phase::Ready && !runtime.external;
    let mut steps: Vec<MaintenanceStep> = Vec::new();
    if interrupt {
        steps.push(MaintenanceStep::Stop);
    }
    steps.push(MaintenanceStep::Run);
    if interrupt {
        steps.push(MaintenanceStep::Start);
    }
    assert(steps@ =~= change_steps(runtime@));
    steps
}

/// dsh is told to serve on this machine only, on the port of the settings, and to trust their
/// hosts; it is told nothing else.
pub proof fn law_what_dsh_web_is_told(config: LauncherConfig, at: int)
    ensures
        web_arguments(config).len() == 5 + 2 * config.trusted_hosts@.len(),
        web_arguments(config)[0] == "web"@,
        web_arguments(config)[1] == "--host"@,
        web_arguments(config)[2] == "127.0.0.1"@,
        web_arguments(config)[3] == "--port"@,
        web_arguments(config)[4] == text::decimal(config.port as nat),
        0 <= at < config.trusted_hosts@.len() ==> web_arguments(config)[5 + 2 * at]
            == "--trusted-host"@ && web_arguments(config)[6 + 2 * at] == config.trusted_hosts@[at]@,
{
    let hosts = config.trusted_hosts.deep_view();
    law_host_arguments_are_switches_and_hosts(hosts);
    if 0 <= at < hosts.len() {
        assert(web_arguments(config)[5 + 2 * at] == host_args(hosts)[2 * at]);
        assert(web_arguments(config)[6 + 2 * at] == host_args(hosts)[2 * at + 1]);
        assert((2 * at) % 2 == 0 && (2 * at + 1) % 2 == 1 && (2 * at + 1) / 2 == at);
        assert(hosts[at] == config.trusted_hosts@[at]@);
    }
}

/// Only what asks for a stop is let through while another request is under way; otherwise
/// everything is.
pub proof fn law_what_is_let_through(request: Request)
    ensures
        let_through(request, true),
        let_through(request, false) <==> request == Request::Stop,
{
}

/// A process that could not be started is told of with its error, and with what helps against it.
pub proof fn law_a_failed_launch_says_why(error: Seq<char>)
    ensures
        spawn_complaint(LaunchMode::Command, error) == "无法启动 dsh："@ + error
            + "。请确认已执行 npm install -g @deepseek-ai/dsh，或切换为 npx。"@,
        spawn_complaint(LaunchMode::Npx, error) == "无法启动 npx："@ + error
            + "。请确认 Node.js 已安装并在 PATH 中。"@,
{
}

/// A start that the settings forbid, or that finds the service at work, changes nothing and says
/// why; any other begins under the next number.
pub proof fn law_what_becomes_of_a_start<C>(
    gate: Result<StartGate, String>,
    before: RuntimeState<C>,
    after: RuntimeState<C>,
    complaint: Option<Seq<char>>,
    port: u16,
)
    requires
        is_gate(gate, before, after, complaint, port),
        before.generation < u64::MAX,
    ensures
        gate is Err <==> complaint is Some,
        gate is Err ==> gate->Err_0@ == complaint->0 && after == before,
        gate is Ok ==> (gate->Ok_0 is Begun <==> before.phase == Phase::Stopped || before.phase
            == Phase::Failed),
        gate is Ok && gate->Ok_0 is Occupied ==> after == before && gate->Ok_0->status@
            == before@.status(),
        gate is Ok && gate->Ok_0 is Begun ==> gate->Ok_0->Begun_generation == before.generation + 1
            && after.generation == before.generation + 1 && after.phase == Phase::Starting,
{
    if gate is Ok && gate->Ok_0 is Begun {
        assert(after@.generation == after.generation);
        assert(after@.phase == after.phase);
    }
}

/// The service is launched with `web`, the port and the trusted hosts, where its settings say, and
/// in a group of its own except on Windows. Only there can the program be missing.
pub proof fn law_how_the_service_is_launched(
    r: Result<Launch, String>,
    config: LauncherConfig,
    resolved: Result<String, String>,
    platform: Platform,
)
    requires
        is_launch(r, config, resolved, platform),
    ensures
        r is Err <==> platform == Platform::Windows && resolved is Err,
        r is Err ==> r->Err_0@ == resolved->Err_0@,
        r is Ok ==> r->Ok_0.own_group == (platform != Platform::Windows),
        r is Ok ==> r->Ok_0.command@ == exec::invocation_outcome(
            config,
            web_arguments(config),
            resolved,
            platform,
        )->Ok_0.prepared(config),
{
}

/// A request is refused exactly where it is not let through, and is told why.
pub proof fn law_what_is_planned_for_a_request(
    r: Result<Vec<ServiceStep>, String>,
    request: Request,
    idle: bool,
    busy: Option<Seq<char>>,
    steps: Seq<ServiceStep>,
)
    requires
        planned(r, request, idle, busy, steps),
    ensures
        r is Ok <==> idle || request == Request::Stop,
        r is Ok ==> r->Ok_0@ == steps,
        r is Err ==> r->Err_0@ == state::ops_complaint(busy),
{
}

} // verus!
