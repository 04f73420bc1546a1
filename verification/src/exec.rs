//! Commands: how dsh and npm are invoked, what becomes of a command's output, and how a
//! process is ended.

use vstd::prelude::*;

use crate::config::{LaunchMode, LauncherConfig};
use crate::text;

verus! {

/// Seconds for a query, such as a version or a search.
pub const QUERY_TIMEOUT: u64 = 120;

/// Seconds for installing or removing one plugin.
pub const PLUGIN_ACTION_TIMEOUT: u64 = 300;

/// Seconds for a global installation of dsh.
pub const GLOBAL_INSTALL_TIMEOUT: u64 = 600;

/// The flag that keeps Windows from opening a console for a child process.
pub const CREATE_NO_WINDOW: u32 = 0x0800_0000;

/// The operating systems that the launcher tells apart.
#[derive(Clone, Copy, Debug, PartialEq, Eq, Structural)]
pub enum Platform {
    Windows,
    MacOs,
    Unix,
}

/// How a command ended.
#[derive(Clone, Debug)]
pub struct OperationResult {
    pub success: bool,
    pub output: String,
}

/// A command that is to be run.
#[derive(Clone, Debug)]
pub struct CommandSpec {
    pub program: String,
    pub args: Vec<String>,
    pub current_dir: Option<String>,
    /// Variables that are set for the command, in order.
    pub env: Vec<(String, String)>,
    /// Windows process creation flags.
    pub creation_flags: u32,
}

/// The content of a `CommandSpec`.
#[verifier::ext_equal]
pub struct CommandView {
    pub program: Seq<char>,
    pub args: Seq<Seq<char>>,
    pub current_dir: Option<Seq<char>>,
    pub env: Seq<(Seq<char>, Seq<char>)>,
    pub creation_flags: u32,
}

impl View for CommandSpec {
    type V = CommandView;

    open spec fn view(&self) -> CommandView {
        CommandView {
            program: self.program@,
            args: self.args.deep_view(),
            current_dir: text::optional(self.current_dir),
            env: self.env@.map_values(|entry: (String, String)| (entry.0@, entry.1@)),
            creation_flags: self.creation_flags,
        }
    }
}

impl CommandView {
    /// A program without arguments.
    pub open spec fn bare(program: Seq<char>) -> Self {
        CommandView {
            program,
            args: Seq::empty(),
            current_dir: None,
            env: Seq::empty(),
            creation_flags: 0,
        }
    }

    /// More arguments at the end.
    pub open spec fn with_args(self, args: Seq<Seq<char>>) -> Self {
        CommandView { args: self.args + args, ..self }
    }

    /// On Windows without a console window.
    pub open spec fn without_console(self, platform: Platform) -> Self {
        if platform == Platform::Windows {
            CommandView { creation_flags: CREATE_NO_WINDOW, ..self }
        } else {
            self
        }
    }

    /// In the working directory of the settings, and with their dsh directory.
    pub open spec fn prepared(self, config: LauncherConfig) -> Self {
        let home = text::stripped(config.dsh_home@);
        CommandView {
            current_dir: Some(config.working_directory@),
            env: if home.len() > 0 { self.env.push(("DSH_HOME"@, home)) } else { self.env },
            ..self
        }
    }
}

impl CommandSpec {
    /// A program without arguments.
    pub fn new(program: &str) -> (r: Self)
        ensures
            r@ == CommandView::bare(program@),
    {
        let r = CommandSpec {
            program: program.to_owned(),
            args: Vec::new(),
            current_dir: None,
            env: Vec::new(),
            creation_flags: 0,
        };
        assert(r@ =~= CommandView::bare(program@));
        r
    }

    /// One more argument.
    pub fn arg(&mut self, arg: &str)
        ensures
            final(self)@ == old(self)@.with_args(seq![arg@]),
    {
        let ghost before = self.args.deep_view();
        self.args.push(arg.to_owned());
        assert(self.args.deep_view() =~= before + seq![arg@]);
        assert(self@ =~= old(self)@.with_args(seq![arg@]));
    }

    /// More arguments.
    pub fn args(&mut self, args: &Vec<String>)
        ensures
            final(self)@ == old(self)@.with_args(args.deep_view()),
    {
        let mut at: usize = 0;
        assert(args.deep_view().take(0) =~= Seq::<Seq<char>>::empty());
        assert(self@ =~= old(self)@.with_args(args.deep_view().take(0)));
        while at < args.len()
            invariant
                at <= args.len(),
                self@ == old(self)@.with_args(args.deep_view().take(at as int)),
            decreases args.len() - at,
        {
            self.arg(args[at].as_str());
            assert(args.deep_view().take(at + 1) =~= args.deep_view().take(at as int)
                + seq![args@[at as int]@]);
            assert(self@ =~= old(self)@.with_args(args.deep_view().take(at + 1)));
            at += 1;
        }
        assert(args.deep_view().take(at as int) =~= args.deep_view());
    }
}

/// Keeps Windows from opening a console window for the command.
pub fn hide_console(command: &mut CommandSpec, platform: Platform)
    ensures
        final(command)@ == old(command)@.without_console(platform),
{
    if platform == Platform::Windows {
        command.creation_flags = CREATE_NO_WINDOW;
    }
    assert(command@ =~= old(command)@.without_console(platform));
}

/// The program that the settings name.
pub open spec fn program_of(config: LauncherConfig) -> Seq<char> {
    match config.launch_mode {
        LaunchMode::Command => text::stripped(config.executable@),
        LaunchMode::Npx => "npx"@,
    }
}

/// The program that the settings name; on Windows it still has to be resolved.
pub fn invocation_program(config: &LauncherConfig) -> (r: String)
    ensures
        r@ == program_of(*config),
{
    match config.launch_mode {
        LaunchMode::Command => text::trim(config.executable.as_str()),
        LaunchMode::Npx => "npx".to_string(),
    }
}

/// What comes before the arguments of dsh itself.
pub open spec fn leading_args(config: LauncherConfig) -> Seq<Seq<char>> {
    match config.launch_mode {
        LaunchMode::Command => Seq::empty(),
        LaunchMode::Npx => seq!["--yes"@, config.npx_package@],
    }
}

/// The command that runs dsh, once its program is known.
pub open spec fn invocation(
    config: LauncherConfig,
    args: Seq<Seq<char>>,
    program: Seq<char>,
    platform: Platform,
) -> CommandView {
    CommandView::bare(program).with_args(leading_args(config) + args).without_console(platform)
}

/// A command, or the complaint that kept it from being made.
pub open spec fn command_or(r: Result<CommandSpec, String>, expected: Result<CommandView, Seq<char>>) -> bool {
    match expected {
        Ok(command) => r is Ok && r->Ok_0@ == command,
        Err(message) => r is Err && r->Err_0@ == message,
    }
}

/// What invoking dsh comes to: on Windows the resolved program is run, and a program
/// that cannot be resolved is the complaint; elsewhere the program is run by its name.
pub open spec fn invocation_outcome(
    config: LauncherConfig,
    args: Seq<Seq<char>>,
    resolved: Result<String, String>,
    platform: Platform,
) -> Result<CommandView, Seq<char>> {
    if platform == Platform::Windows {
        match resolved {
            Ok(program) => Ok(invocation(config, args, program@, platform)),
            Err(message) => Err(message@),
        }
    } else {
        Ok(invocation(config, args, program_of(config), platform))
    }
}

/// Makes the command that runs dsh with the arguments. `resolved` is what the program
/// of the settings resolves to; it matters on Windows only.
pub fn command_for_invocation(
    config: &LauncherConfig,
    args: &Vec<String>,
    resolved: Result<String, String>,
    platform: Platform,
) -> (r: Result<CommandSpec, String>)
    ensures
        command_or(r, invocation_outcome(*config, args.deep_view(), resolved, platform)),
{
    let program: String = if platform == Platform::Windows {
        match resolved {
            Ok(program) => program,
            Err(message) => {
                return Err(message);
            },
        }
    } else {
        invocation_program(config)
    };
    let mut command: CommandSpec = CommandSpec::new(program.as_str());
    if config.launch_mode == LaunchMode::Npx {
        command.arg("--yes");
        command.arg(config.npx_package.as_str());
    }
    assert(command.args.deep_view() =~= leading_args(*config));
    command.args(args);
    hide_console(&mut command, platform);
    assert(command@ =~= invocation(*config, args.deep_view(), program@, platform));
    Ok(command)
}

/// Lets the command run where the settings say, and with their dsh directory.
pub fn prepare_command(command: CommandSpec, config: &LauncherConfig) -> (r: CommandSpec)
    ensures
        r@ == command@.prepared(*config),
{
    let mut prepared: CommandSpec = command;
    prepared.current_dir = Some(config.working_directory.clone());
    let home: String = text::trim(config.dsh_home.as_str());
    if !home.as_str().is_empty() {
        let ghost before = prepared.env@;
        prepared.env.push(("DSH_HOME".to_string(), home));
        assert(prepared@.env =~= command@.env.push(("DSH_HOME"@, home@)));
    }
    assert(prepared@ =~= command@.prepared(*config));
    prepared
}

/// A command with the seconds that it is given.
pub struct Invocation {
    pub command: CommandSpec,
    pub timeout: u64,
    /// The process gets a process group of its own, so that it can be ended with
    /// everything that it starts.
    pub own_group: bool,
}

/// The content of an `Invocation`.
#[verifier::ext_equal]
pub struct InvocationView {
    pub command: CommandView,
    pub timeout: u64,
    pub own_group: bool,
}

impl View for Invocation {
    type V = InvocationView;

    open spec fn view(&self) -> InvocationView {
        InvocationView {
            command: self.command@,
            timeout: self.timeout,
            own_group: self.own_group,
        }
    }
}

impl InvocationView {
    /// The command with its time. Off Windows a process group is what a command that takes
    /// too long is ended by, so it gets one of its own there.
    pub open spec fn of(command: CommandView, timeout: u64, platform: Platform) -> Self {
        InvocationView { command, timeout, own_group: platform != Platform::Windows }
    }
}

impl Invocation {
    /// Gives a command its time.
    pub fn new(command: CommandSpec, timeout: u64, platform: Platform) -> (r: Self)
        ensures
            r@ == InvocationView::of(command@, timeout, platform),
    {
        let own_group: bool = platform != Platform::Windows;
        Invocation { command, timeout, own_group }
    }
}

/// An invocation, or why there is none.
pub open spec fn invocation_or(
    r: Result<Invocation, String>,
    outcome: Result<CommandView, Seq<char>>,
    config: LauncherConfig,
    timeout: u64,
    platform: Platform,
) -> bool {
    match outcome {
        Ok(command) => r is Ok && r->Ok_0@ == InvocationView::of(
            command.prepared(config),
            timeout,
            platform,
        ),
        Err(message) => r is Err && r->Err_0@ == message,
    }
}

/// Makes the prepared command that runs dsh with the arguments.
pub fn run_dsh_invocation(
    config: &LauncherConfig,
    args: &Vec<String>,
    timeout: u64,
    resolved: Result<String, String>,
    platform: Platform,
) -> (r: Result<Invocation, String>)
    ensures
        invocation_or(
            r,
            invocation_outcome(*config, args.deep_view(), resolved, platform),
            *config,
            timeout,
            platform,
        ),
{
    match command_for_invocation(config, args, resolved, platform) {
        Ok(command) => Ok(Invocation::new(prepare_command(command, config), timeout, platform)),
        Err(message) => Err(message),
    }
}

/// The command that runs npm.
pub open spec fn npm(resolved: Result<String, String>, platform: Platform) -> CommandView {
    CommandView::bare(
        if platform == Platform::Windows {
            match resolved {
                Ok(program) => program@,
                Err(_) => "npm.cmd"@,
            }
        } else {
            "npm"@
        },
    ).without_console(platform)
}

/// Makes the command that runs npm. `resolved` is what `npm` resolves to; it matters on
/// Windows only, and there `npm.cmd` stands in where it does not resolve.
pub fn npm_command(resolved: Result<String, String>, platform: Platform) -> (r: CommandSpec)
    ensures
        r@ == npm(resolved, platform),
{
    let program: String = if platform == Platform::Windows {
        match resolved {
            Ok(program) => program,
            Err(_) => "npm.cmd".to_string(),
        }
    } else {
        "npm".to_string()
    };
    let mut command: CommandSpec = CommandSpec::new(program.as_str());
    hide_console(&mut command, platform);
    command
}

/// What asking a child process for its exit came to.
pub enum ChildPoll {
    Exited { success: bool },
    Running,
    Failed { error: String },
}

/// What to do after a child process was asked for its exit.
pub enum WaitAction {
    /// Sleep for so many milliseconds, then ask again.
    Sleep { millis: u64 },
    /// Stop waiting: the process has ended.
    Finish { success: bool },
    /// Stop waiting and kill the process: its time is up.
    TimedOut,
    /// Stop waiting with an error.
    Fail { error: String },
}

/// Nanoseconds in a second.
pub const NANOS_PER_SECOND: u128 = 1_000_000_000;

/// How waiting for a command goes on, after so many nanoseconds and with so many seconds in
/// all. A process that has ended counts as ended even where its time is up.
pub open spec fn wait_action(poll: ChildPoll, elapsed: u128, timeout: u64) -> WaitAction {
    match poll {
        ChildPoll::Exited { success } => WaitAction::Finish { success },
        ChildPoll::Running => if elapsed >= timeout * NANOS_PER_SECOND {
            WaitAction::TimedOut
        } else {
            WaitAction::Sleep { millis: 120 }
        },
        ChildPoll::Failed { error } => WaitAction::Fail { error },
    }
}

/// Decides how waiting for a command goes on.
pub fn wait_step(poll: ChildPoll, elapsed: u128, timeout: u64) -> (r: WaitAction)
    ensures
        r == wait_action(poll, elapsed, timeout),
{
    match poll {
        ChildPoll::Exited { success } => WaitAction::Finish { success },
        ChildPoll::Running => if elapsed >= timeout as u128 * NANOS_PER_SECOND {
            WaitAction::TimedOut
        } else {
            WaitAction::Sleep { millis: 120 }
        },
        ChildPoll::Failed { error } => WaitAction::Fail { error },
    }
}

/// Two texts on lines of their own, an empty one left out.
pub open spec fn two_lines(first: Seq<char>, second: Seq<char>) -> Seq<char> {
    if first.len() == 0 {
        second
    } else if second.len() == 0 {
        first
    } else {
        first + "\n"@ + second
    }
}

/// Puts two texts on lines of their own and leaves an empty one out.
pub fn on_two_lines(first: &str, second: &str) -> (r: String)
    ensures
        r@ == two_lines(first@, second@),
{
    if first.is_empty() {
        return second.to_owned();
    }
    let mut out: String = first.to_owned();
    if !second.is_empty() {
        out.append("\n");
        out.append(second);
    }
    out
}

/// The notice that a command was killed after its time.
pub open spec fn timeout_notice(timeout: u64) -> Seq<char> {
    "命令超过 "@ + text::decimal(timeout as nat) + " 秒未结束，已强制终止。"@
}

/// What is reported of a command: `exit` is `None` where it was killed after its time.
pub open spec fn reported_output(
    exit: Option<bool>,
    stdout: Seq<char>,
    stderr: Seq<char>,
    timeout: u64,
) -> Seq<char> {
    let combined = two_lines(text::stripped(stdout), text::stripped(stderr));
    if exit is Some {
        combined
    } else {
        two_lines(timeout_notice(timeout), combined)
    }
}

/// Reports how a command ended: it succeeded only where it ended by itself with
/// success, and one that was killed says so on its first line.
pub fn execute_command(exit: Option<bool>, stdout: &str, stderr: &str, timeout: u64) -> (r:
    OperationResult)
    ensures
        r.success == (exit == Some(true)),
        r.output@ == reported_output(exit, stdout@, stderr@, timeout),
{
    let out: String = text::trim(stdout);
    let err: String = text::trim(stderr);
    let combined: String = on_two_lines(out.as_str(), err.as_str());
    match exit {
        Some(success) => OperationResult { success, output: combined },
        None => {
            let mut notice: String = "命令超过 ".to_string();
            let seconds: String = text::decimal_text(timeout);
            notice.append(seconds.as_str());
            notice.append(" 秒未结束，已强制终止。");
            OperationResult {
                success: false,
                output: on_two_lines(notice.as_str(), combined.as_str()),
            }
        },
    }
}

/// A command that was killed after its time has failed, and its output begins with the
/// notice. One that ended by itself is reported without it.
pub proof fn law_a_killed_command_says_so(stdout: Seq<char>, stderr: Seq<char>, timeout: u64)
    ensures
        timeout_notice(timeout).is_prefix_of(reported_output(None, stdout, stderr, timeout)),
        forall|success: bool|
            reported_output(Some(success), stdout, stderr, timeout) == two_lines(
                text::stripped(stdout),
                text::stripped(stderr),
            ),
{
    let notice = timeout_notice(timeout);
    let output = reported_output(None, stdout, stderr, timeout);
    reveal_strlit("命令超过 ");
    assert(notice.len() > 0);
    assert(notice =~= output.subrange(0, notice.len() as int));
}

/// The Windows command that ends a process with everything that it started.
pub open spec fn taskkill(pid: u32, force: bool) -> CommandView {
    let args = seq!["/PID"@, text::decimal(pid as nat), "/T"@];
    CommandView::bare("taskkill"@).with_args(
        if force {
            args.push("/F"@)
        } else {
            args
        },
    ).without_console(Platform::Windows)
}

/// Makes the Windows command that ends a process tree, with force or without.
pub fn taskkill_command(pid: u32, force: bool) -> (r: CommandSpec)
    ensures
        r@ == taskkill(pid, force),
{
    let mut command: CommandSpec = CommandSpec::new("taskkill");
    let number: String = text::decimal_text(pid as u64);
    command.arg("/PID");
    command.arg(number.as_str());
    command.arg("/T");
    if force {
        command.arg("/F");
    }
    hide_console(&mut command, Platform::Windows);
    assert(command@ =~= taskkill(pid, force));
    command
}

/// A step of ending a child process with everything that it started.
pub enum KillStep {
    /// Run the command and wait for it.
    Run { command: CommandSpec },
    /// Give the process tree so many milliseconds to close by itself.
    Grace { millis: u64 },
    /// Run the command and wait for it, if the child is still running.
    RunIfAlive { command: CommandSpec },
    /// Send the kill signal to this process, or to a process group where it is negative.
    Signal { target: i32 },
    /// Kill the child itself and collect its exit.
    Reap,
}

/// The target that reaches the whole process group of a process.
pub open spec fn group_target(pid: u32) -> int {
    if pid < 0x8000_0000 {
        -(pid as int)
    } else {
        0x1_0000_0000 - pid
    }
}

/// Negates a process number, which addresses its process group.
pub fn group_of(pid: u32) -> (r: i32)
    requires
        pid != 0x8000_0000,
    ensures
        r == group_target(pid),
{
    if pid < 0x8000_0000 {
        -(pid as i32)
    } else {
        (0xffff_ffffu32 - pid) as i32 + 1
    }
}

/// The steps end a child process with everything that it started.
pub open spec fn ends_tree(steps: Seq<KillStep>, pid: u32, platform: Platform) -> bool {
    if platform == Platform::Windows {
        &&& steps.len() == 4
        &&& steps[0] matches KillStep::Run { command } && command@ == taskkill(pid, false)
        &&& steps[1] == (KillStep::Grace { millis: 180 })
        &&& steps[2] matches KillStep::RunIfAlive { command } && command@ == taskkill(pid, true)
        &&& steps[3] == KillStep::Reap
    } else {
        &&& steps.len() == 2
        &&& steps[0] matches KillStep::Signal { target } && target == group_target(pid)
        &&& steps[1] == KillStep::Reap
    }
}

/// The steps that end a child process: on Windows the tree is asked, given a moment, and
/// forced if the child is still running; elsewhere its process group is killed. The child
/// is reaped last.
pub fn kill_child_tree(pid: u32, platform: Platform) -> (r: Vec<KillStep>)
    requires
        platform != Platform::Windows ==> pid != 0x8000_0000,
    ensures
        ends_tree(r@, pid, platform),
{
    let mut steps: Vec<KillStep> = Vec::new();
    if platform == Platform::Windows {
        steps.push(KillStep::Run { command: taskkill_command(pid, false) });
        steps.push(KillStep::Grace { millis: 180 });
        steps.push(KillStep::RunIfAlive { command: taskkill_command(pid, true) });
    } else {
        steps.push(KillStep::Signal { target: group_of(pid) });
    }
    steps.push(KillStep::Reap);
    steps
}

/// The process group of a process off Windows, and of everything that it starts: its own,
/// which has its number, or the one of the launcher.
pub open spec fn process_group(pid: u32, own_group: bool, launcher: u32) -> u32 {
    if own_group {
        pid
    } else {
        launcher
    }
}

/// The kill signal reaches the processes of this group: a negative target stands for the
/// group of that number.
pub open spec fn signal_reaches(target: int, group: u32) -> bool {
    target < 0 && group == -target
}

/// A command that does not end is given up at the first look after its time, with everything
/// that it started: off Windows the kill signal reaches its process group and leaves the one
/// of the launcher alone.
pub proof fn law_a_hung_command_is_ended_with_all_it_started(
    command: CommandView,
    timeout: u64,
    platform: Platform,
    pid: u32,
    launcher: u32,
    elapsed: u128,
)
    requires
        platform != Platform::Windows,
        0 < pid < 0x8000_0000,
        launcher != pid,
        elapsed >= timeout * NANOS_PER_SECOND,
    ensures
        wait_action(ChildPoll::Running, elapsed, timeout) == WaitAction::TimedOut,
        ({
            let invocation = InvocationView::of(command, timeout, platform);
            let group = process_group(pid, invocation.own_group, launcher);
            signal_reaches(group_target(pid), group)
        }),
        !signal_reaches(group_target(pid), launcher),
{
}

/// How dsh is run: by its own name or through npx, which gets the package first; the arguments
/// of dsh come last and in order. On Windows it is the program that was found, without a
/// console, and nothing where none was found.
pub proof fn law_how_dsh_is_run(
    config: LauncherConfig,
    args: Seq<Seq<char>>,
    resolved: Result<String, String>,
    platform: Platform,
)
    ensures
        ({
            let outcome = invocation_outcome(config, args, resolved, platform);
            &&& outcome is Err <==> platform == Platform::Windows && resolved is Err
            &&& outcome is Err ==> outcome->Err_0 == resolved->Err_0@
            &&& outcome is Ok ==> ({
                let command = outcome->Ok_0;
                &&& config.launch_mode == LaunchMode::Command ==> command.args == args
                &&& config.launch_mode == LaunchMode::Npx ==> command.args == seq![
                    "--yes"@,
                    config.npx_package@,
                ] + args
                &&& platform == Platform::Windows ==> command.program == resolved->Ok_0@
                    && command.creation_flags == 0x0800_0000
                &&& platform != Platform::Windows ==> command.creation_flags == 0 && (
                config.launch_mode == LaunchMode::Npx ==> command.program == "npx"@) && (
                config.launch_mode == LaunchMode::Command ==> command.program == text::stripped(
                    config.executable@,
                ))
                &&& command.env.len() == 0
                &&& command.current_dir is None
            })
        }),
        config.launch_mode == LaunchMode::Command ==> program_of(config) == text::stripped(
            config.executable@,
        ),
        config.launch_mode == LaunchMode::Npx ==> program_of(config) == "npx"@,
{
    assert(Seq::<Seq<char>>::empty() + (leading_args(config) + args) =~= leading_args(config) + args);
    assert(Seq::<Seq<char>>::empty() + args =~= args);
}

/// A command runs in the working directory of the settings, and knows their dsh directory where
/// they name one. Its program and arguments are not touched.
pub proof fn law_how_a_command_is_prepared(command: CommandView, config: LauncherConfig)
    ensures
        command.prepared(config).program == command.program,
        command.prepared(config).args == command.args,
        command.prepared(config).creation_flags == command.creation_flags,
        command.prepared(config).current_dir == Some(config.working_directory@),
        (forall|i: int| 0 <= i < config.dsh_home@.len() ==> text::is_white(#[trigger] config.dsh_home@[i]))
            ==> command.prepared(config).env == command.env,
        !(forall|i: int|
            0 <= i < config.dsh_home@.len() ==> text::is_white(#[trigger] config.dsh_home@[i]))
            ==> command.prepared(config).env == command.env.push(
            ("DSH_HOME"@, text::stripped(config.dsh_home@)),
        ),
{
    text::law_blank_texts_hold_white_space_only(config.dsh_home@);
}

/// npm is run by its name; on Windows it is the program that was found, or its shim.
pub proof fn law_how_npm_is_run(resolved: Result<String, String>, platform: Platform)
    ensures
        npm(resolved, platform).args.len() == 0,
        platform != Platform::Windows ==> npm(resolved, platform).program == "npm"@,
        platform == Platform::Windows && resolved is Ok ==> npm(resolved, platform).program
            == resolved->Ok_0@,
        platform == Platform::Windows && resolved is Err ==> npm(resolved, platform).program
            == "npm.cmd"@,
        npm(resolved, platform).creation_flags == (if platform == Platform::Windows {
            0x0800_0000u32
        } else {
            0
        }),
{
}

/// Every command with a time limit has its own process group off Windows, where that is what it
/// is ended by, and keeps its command and its time.
pub proof fn law_what_an_invocation_is(command: CommandView, timeout: u64, platform: Platform)
    ensures
        InvocationView::of(command, timeout, platform).command == command,
        InvocationView::of(command, timeout, platform).timeout == timeout,
        InvocationView::of(command, timeout, platform).own_group <==> platform != Platform::Windows,
{
}

/// A command is waited for as long as it runs and has time, is given up when its time is over,
/// and counts as it ended where it did. It is looked at about eight times a second.
pub proof fn law_how_a_command_is_waited_for(
    success: bool,
    error: String,
    elapsed: u128,
    timeout: u64,
)
    ensures
        wait_action(ChildPoll::Exited { success }, elapsed, timeout) == (WaitAction::Finish {
            success,
        }),
        wait_action(ChildPoll::Failed { error }, elapsed, timeout) == (WaitAction::Fail { error }),
        elapsed < timeout * 1_000_000_000 ==> wait_action(ChildPoll::Running, elapsed, timeout) == (
        WaitAction::Sleep { millis: 120 }),
        elapsed >= timeout * 1_000_000_000 ==> wait_action(ChildPoll::Running, elapsed, timeout)
            == WaitAction::TimedOut,
{
}

/// What a command wrote is reported in full: what it wrote first, then its errors, each without
/// the white space around it and on lines of their own; what is empty is left out.
pub proof fn law_output_is_reported_in_full(
    stdout: Seq<char>,
    stderr: Seq<char>,
    success: bool,
    timeout: u64,
)
    ensures
        ({
            let out = text::stripped(stdout);
            let err = text::stripped(stderr);
            let report = reported_output(Some(success), stdout, stderr, timeout);
            &&& out.len() == 0 ==> report == err
            &&& err.len() == 0 ==> report == out
            &&& out.len() > 0 && err.len() > 0 ==> report == out + seq!['\n'] + err
            &&& report.len() == 0 ==> reported_output(None, stdout, stderr, timeout)
                == "命令超过 "@ + text::decimal(timeout as nat) + " 秒未结束，已强制终止。"@
            &&& report.len() > 0 ==> reported_output(None, stdout, stderr, timeout) == "命令超过 "@
                + text::decimal(timeout as nat) + " 秒未结束，已强制终止。"@ + seq!['\n'] + report
        }),
{
    reveal_strlit("\n");
    reveal_strlit("命令超过 ");
    assert("\n"@ =~= seq!['\n']);
    assert(timeout_notice(timeout).len() > 0);
}

/// A process is ended with everything that it started: on Windows its tree is asked, given a
/// moment, and forced only if the process still runs; elsewhere its group gets the signal. The
/// process itself is collected last.
pub proof fn law_how_a_process_is_ended(steps: Seq<KillStep>, pid: u32, platform: Platform)
    requires
        ends_tree(steps, pid, platform),
    ensures
        steps.last() == KillStep::Reap,
        platform != Platform::Windows && pid < 0x8000_0000 ==> steps[0] == (KillStep::Signal {
            target: (0 - pid) as i32,
        }),
        platform != Platform::Windows ==> steps.len() == 2,
        platform == Platform::Windows ==> steps.len() == 4 && steps[0] is Run && steps[1] == (
        KillStep::Grace { millis: 180 }) && steps[2] is RunIfAlive && steps[0]->Run_command@.program
            == "taskkill"@ && steps[0]->Run_command@.args == seq![
            "/PID"@,
            text::decimal(pid as nat),
            "/T"@,
        ] && steps[2]->RunIfAlive_command@.program == "taskkill"@
            && steps[2]->RunIfAlive_command@.args == seq![
            "/PID"@,
            text::decimal(pid as nat),
            "/T"@,
            "/F"@,
        ],
{
    if platform == Platform::Windows {
        assert(steps[0]->Run_command@.args =~= seq!["/PID"@, text::decimal(pid as nat), "/T"@]);
        assert(steps[2]->RunIfAlive_command@.args =~= seq![
            "/PID"@,
            text::decimal(pid as nat),
            "/T"@,
            "/F"@,
        ]);
    }
}

/// A command that can be made is the command of the outcome, prepared and with the time it gets; the
/// complaint is that of the outcome.
pub proof fn law_an_outcome_is_answered(
    command: Result<CommandSpec, String>,
    invocation: Result<Invocation, String>,
    outcome: Result<CommandView, Seq<char>>,
    config: LauncherConfig,
    timeout: u64,
    platform: Platform,
)
    requires
        command_or(command, outcome),
        invocation_or(invocation, outcome, config, timeout, platform),
    ensures
        command is Ok <==> outcome is Ok,
        invocation is Ok <==> outcome is Ok,
        outcome is Ok ==> command->Ok_0@ == outcome->Ok_0,
        outcome is Ok ==> invocation->Ok_0@.command == outcome->Ok_0.prepared(config)
            && invocation->Ok_0@.timeout == timeout,
        outcome is Err ==> command->Err_0@ == outcome->Err_0 && invocation->Err_0@ == outcome->Err_0,
{
}

} // verus!
