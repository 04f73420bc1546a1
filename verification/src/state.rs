//! What the launcher knows of the dsh service: its phase, its log, its process.
//!
//! `C` stands for the handle of a child process. The state carries such a handle
//! from the call that registers it to the call that hands it out again.

use std::collections::VecDeque;
use vstd::prelude::*;

use crate::text;

verus! {

/// The log keeps this many lines.
pub const MAX_LOG_LINES: usize = 400;

/// The phase that the service is in.
#[derive(Clone, Copy, Debug, PartialEq, Eq, Structural)]
pub enum Phase {
    Stopped,
    Starting,
    Ready,
    Stopping,
    Failed,
}

/// What the windows are told of the service.
#[derive(Clone, Debug)]
pub struct LauncherStatus {
    pub phase: Phase,
    pub message: String,
    pub url: String,
    pub pid: Option<u32>,
    pub external: bool,
    pub logs: Vec<String>,
    pub busy: Option<String>,
}

/// The content of a `LauncherStatus`.
#[verifier::ext_equal]
pub struct StatusView {
    pub phase: Phase,
    pub message: Seq<char>,
    pub url: Seq<char>,
    pub pid: Option<u32>,
    pub external: bool,
    pub logs: Seq<Seq<char>>,
    pub busy: Option<Seq<char>>,
}

impl View for LauncherStatus {
    type V = StatusView;

    open spec fn view(&self) -> StatusView {
        StatusView {
            phase: self.phase,
            message: self.message@,
            url: self.url@,
            pid: self.pid,
            external: self.external,
            logs: self.logs.deep_view(),
            busy: text::optional(self.busy),
        }
    }
}

/// The state of the service.
pub struct RuntimeState<C> {
    pub phase: Phase,
    pub message: String,
    pub url: String,
    pub child: Option<C>,
    pub pid: Option<u32>,
    /// The service was started outside the launcher: it is used, never stopped.
    pub external: bool,
    pub logs: VecDeque<String>,
    /// Counts starts and stops. What belongs to an earlier start carries an earlier
    /// number and is ignored.
    pub generation: u64,
    /// What an operation that rewrites the installation is doing, while it runs.
    pub busy: Option<String>,
    /// How many lines the process has written, by which a slow start is told from a
    /// hanging one.
    pub log_ticks: u64,
}

/// The content of a `RuntimeState`.
#[verifier::ext_equal]
#[verifier::reject_recursive_types(C)]
pub struct RuntimeView<C> {
    pub phase: Phase,
    pub message: Seq<char>,
    pub url: Seq<char>,
    pub child: Option<C>,
    pub pid: Option<u32>,
    pub external: bool,
    pub logs: Seq<Seq<char>>,
    pub generation: u64,
    pub busy: Option<Seq<char>>,
    pub log_ticks: u64,
}

impl<C> View for RuntimeState<C> {
    type V = RuntimeView<C>;

    open spec fn view(&self) -> RuntimeView<C> {
        RuntimeView {
            phase: self.phase,
            message: self.message@,
            url: self.url@,
            child: self.child,
            pid: self.pid,
            external: self.external,
            logs: lines_of(self.logs@),
            generation: self.generation,
            busy: text::optional(self.busy),
            log_ticks: self.log_ticks,
        }
    }
}

/// The texts of log lines.
pub open spec fn lines_of(lines: Seq<String>) -> Seq<Seq<char>> {
    lines.map_values(|line: String| line@)
}

/// The newest lines, at most `MAX_LOG_LINES` of them.
pub open spec fn newest_lines(lines: Seq<Seq<char>>) -> Seq<Seq<char>> {
    if lines.len() <= MAX_LOG_LINES {
        lines
    } else {
        lines.skip(lines.len() - MAX_LOG_LINES)
    }
}

/// A line as the log shows it.
pub open spec fn log_line(source: Seq<char>, line: Seq<char>) -> Seq<char> {
    "["@ + source + "] "@ + line
}

impl<C> RuntimeView<C> {
    /// Nothing has been started yet.
    pub open spec fn initial() -> Self {
        RuntimeView {
            phase: Phase::Stopped,
            message: "dsh 尚未启动"@,
            url: "http://127.0.0.1:3080"@,
            child: None,
            pid: None,
            external: false,
            logs: Seq::empty(),
            generation: 0,
            busy: None,
            log_ticks: 0,
        }
    }

    /// What the windows are told.
    pub open spec fn status(self) -> StatusView {
        StatusView {
            phase: self.phase,
            message: self.message,
            url: self.url,
            pid: self.pid,
            external: self.external,
            logs: self.logs,
            busy: self.busy,
        }
    }

    /// A line of the process of start `generation` has been read.
    pub open spec fn with_log(self, generation: u64, source: Seq<char>, line: Seq<char>) -> Self {
        if self.generation != generation {
            self
        } else {
            RuntimeView {
                logs: newest_lines(self.logs.push(log_line(source, line))),
                log_ticks: if self.log_ticks == u64::MAX { 0 } else { (self.log_ticks + 1) as u64 },
                ..self
            }
        }
    }

    /// The log has been emptied.
    pub open spec fn with_empty_log(self) -> Self {
        RuntimeView { logs: Seq::empty(), ..self }
    }

    /// An operation is under way, or none is.
    pub open spec fn with_busy(self, busy: Option<Seq<char>>) -> Self {
        RuntimeView { busy, ..self }
    }
}

impl<C> Default for RuntimeState<C> {
    fn default() -> (r: Self)
        ensures
            r@ == RuntimeView::<C>::initial(),
    {
        let r = RuntimeState {
            phase: Phase::Stopped,
            message: "dsh 尚未启动".to_string(),
            url: "http://127.0.0.1:3080".to_string(),
            child: None,
            pid: None,
            external: false,
            logs: VecDeque::new(),
            generation: 0,
            busy: None,
            log_ticks: 0,
        };
        assert(r@ =~= RuntimeView::<C>::initial());
        r
    }
}

/// Copies the state for the windows.
pub fn snapshot<C>(runtime: &RuntimeState<C>) -> (r: LauncherStatus)
    ensures
        r@ == runtime@.status(),
{
    let mut logs: Vec<String> = Vec::new();
    let mut at: usize = 0;
    while at < runtime.logs.len()
        invariant
            at <= runtime.logs.len(),
            logs.deep_view() == lines_of(runtime.logs@).take(at as int),
        decreases runtime.logs.len() - at,
    {
        let ghost before = logs.deep_view();
        let line: String = runtime.logs[at].clone();
        logs.push(line);
        assert(logs.deep_view() =~= before.push(line@));
        assert(lines_of(runtime.logs@).take(at + 1) =~= before.push(line@));
        at += 1;
    }
    let r = LauncherStatus {
        phase: runtime.phase,
        message: runtime.message.clone(),
        url: runtime.url.clone(),
        pid: runtime.pid,
        external: runtime.external,
        logs,
        busy: text::clone_optional(&runtime.busy),
    };
    assert(r@ =~= runtime@.status());
    r
}

/// Notes a line that the process of start `generation` wrote; `false` where that start
/// is over, and the line is dropped.
pub fn push_log<C>(runtime: &mut RuntimeState<C>, generation: u64, source: &str, line: &str) -> (r:
    bool)
    ensures
        r == (old(runtime).generation == generation),
        final(runtime)@ == old(runtime)@.with_log(generation, source@, line@),
{
    if runtime.generation != generation {
        return false;
    }
    let mut entry: String = "[".to_string();
    entry.append(source);
    entry.append("] ");
    entry.append(line);
    let ghost old_lines = lines_of(runtime.logs@);
    let ghost lines = old_lines.push(entry@);
    runtime.logs.push_back(entry);
    assert(lines_of(runtime.logs@) =~= lines);
    runtime.log_ticks = runtime.log_ticks.wrapping_add(1);
    let ghost held = *runtime;
    while runtime.logs.len() > MAX_LOG_LINES
        invariant
            runtime.phase == held.phase,
            runtime.message == held.message,
            runtime.url == held.url,
            runtime.child == held.child,
            runtime.pid == held.pid,
            runtime.external == held.external,
            runtime.generation == held.generation,
            runtime.busy == held.busy,
            runtime.log_ticks == held.log_ticks,
            newest_lines(lines_of(runtime.logs@)) == newest_lines(lines),
        decreases runtime.logs.len(),
    {
        let ghost before = runtime.logs@;
        let _ = runtime.logs.pop_front();
        assert(lines_of(runtime.logs@) =~= lines_of(before).skip(1));
        assert(newest_lines(lines_of(runtime.logs@)) =~= newest_lines(lines_of(before)));
    }
    assert(runtime@ =~= old(runtime)@.with_log(generation, source@, line@));
    true
}

/// The complaint where the state cannot be had any more.
pub open spec fn lock_complaint() -> Seq<char> {
    "启动器状态锁已损坏"@
}

/// The status, where the state can still be had.
pub fn current_status<C>(runtime: Option<&RuntimeState<C>>) -> (r: Result<LauncherStatus, String>)
    ensures
        match runtime {
            Some(state) => r is Ok && r->Ok_0@ == state@.status(),
            None => r is Err && r->Err_0@ == lock_complaint(),
        },
{
    match runtime {
        Some(state) => Ok(snapshot(state)),
        None => Err("启动器状态锁已损坏".to_string()),
    }
}

/// What is being done to the installation, if anything is.
pub fn busy_label<C>(runtime: Option<&RuntimeState<C>>) -> (r: Option<String>)
    ensures
        text::optional(r) == busy_text(runtime),
{
    match runtime {
        Some(state) => text::clone_optional(&state.busy),
        None => None,
    }
}

/// The text of what is being done to the installation.
pub open spec fn busy_text<C>(runtime: Option<&RuntimeState<C>>) -> Option<Seq<char>> {
    match runtime {
        Some(state) => text::optional(state.busy),
        None => None,
    }
}

/// Why a start by hand is refused while the installation is being changed.
pub fn ops_in_progress_error<C>(runtime: Option<&RuntimeState<C>>) -> (r: String)
    ensures
        r@ == ops_complaint(busy_text(runtime)),
{
    let mut message: String = match busy_label(runtime) {
        Some(label) => label,
        None => "有插件或更新操作正在进行".to_string(),
    };
    message.append("，完成后会自动恢复服务；请等待操作结束");
    message
}

/// The refusal, given what is being done.
pub open spec fn ops_complaint(busy: Option<Seq<char>>) -> Seq<char> {
    (match busy {
        Some(label) => label,
        None => "有插件或更新操作正在进行"@,
    }) + "，完成后会自动恢复服务；请等待操作结束"@
}

/// Stands for an operation that changes the installation, from its start to its end.
pub struct OpsBusy {
    pub label: String,
}

impl OpsBusy {
    /// The operation starts: the windows are told what it does.
    pub fn begin<C>(runtime: &mut RuntimeState<C>, label: &str) -> (r: Self)
        ensures
            r.label@ == label@,
            final(runtime)@ == old(runtime)@.with_busy(Some(label@)),
    {
        runtime.busy = Some(label.to_owned());
        assert(runtime@ =~= old(runtime)@.with_busy(Some(label@)));
        OpsBusy { label: label.to_owned() }
    }

    /// The operation is over, however it ended.
    pub fn finish<C>(self, runtime: &mut RuntimeState<C>)
        ensures
            final(runtime)@ == old(runtime)@.with_busy(None),
    {
        runtime.busy = None;
        assert(runtime@ =~= old(runtime)@.with_busy(None));
    }
}

/// Empties the log.
pub fn clear_logs<C>(runtime: &mut RuntimeState<C>) -> (r: LauncherStatus)
    ensures
        final(runtime)@ == old(runtime)@.with_empty_log(),
        r@ == old(runtime)@.with_empty_log().status(),
{
    runtime.logs.clear();
    assert(runtime@ =~= old(runtime)@.with_empty_log());
    snapshot(runtime)
}

} // verus!
