//! What holds of the service over all that happens to it.
//!
//! Starts and stops come in any order and interleave freely. What one start does itself comes in
//! its own order, and the failure of a start or the end of a stop is noted only where it is still
//! the state's, which `service::is_concerned` and `service::is_latest_stop` tell. `in_order` spells
//! this out.

use vstd::prelude::*;

use crate::config::LaunchMode;
use crate::exec;
use crate::service;
use crate::service::{
    ExternalAction, ExternalEvent, ExternalMonitor, MaintenanceStep, Monitor, MonitorAction, MonitorEvent, PortActionView,
    PortEvent, PortStage, StartupWait,
};
use crate::state;
use crate::state::{Phase, RuntimeView};
use crate::text;
use crate::util;

verus! {

/// Everything that can happen to the state of the service.
pub enum Event<C> {
    Start { port: u16 },
    Attach { generation: u64, port: u16 },
    ExternalGone { generation: u64 },
    Register { generation: u64, child: C, pid: u32 },
    Exit { generation: u64, ready: bool, exit: Seq<char> },
    Answer { generation: u64 },
    Hint { generation: u64 },
    TimeOut { generation: u64, verdict: StartupWait, timeout: u64, port: u16 },
    Log { generation: u64, source: Seq<char>, line: Seq<char> },
    Stop,
    Stopped { generation: u64 },
    Fail { begun: Option<u64>, message: Seq<char> },
    ClearLog,
    Busy { label: Option<Seq<char>> },
}

impl<C> Event<C> {
    /// The start that the event belongs to, if it carries the generation of one.
    pub open spec fn of_start(self) -> Option<u64> {
        match self {
            Event::Attach { generation, .. } => Some(generation),
            Event::ExternalGone { generation } => Some(generation),
            Event::Register { generation, .. } => Some(generation),
            Event::Exit { generation, .. } => Some(generation),
            Event::Answer { generation } => Some(generation),
            Event::Hint { generation } => Some(generation),
            Event::TimeOut { generation, .. } => Some(generation),
            Event::Log { generation, .. } => Some(generation),
            _ => None,
        }
    }

    /// The event carries the generation of a start other than the latest.
    pub open spec fn stale(self, state: RuntimeView<C>) -> bool {
        self.of_start() is Some && self.of_start() != Some(state.generation)
    }
}

/// The state after an event.
pub open spec fn after<C>(state: RuntimeView<C>, event: Event<C>) -> RuntimeView<C> {
    match event {
        Event::Start { port } => if service::occupied(state.phase) {
            state
        } else {
            state.starting(port)
        },
        Event::Attach { generation, port } => state.attached(generation, port),
        Event::ExternalGone { generation } => state.external_gone(generation),
        Event::Register { generation, child, pid } => state.registered(generation, child, pid),
        Event::Exit { generation, ready, exit } => state.exited(generation, ready, exit),
        Event::Answer { generation } => state.answering(generation),
        Event::Hint { generation } => state.hinted(generation),
        Event::TimeOut { generation, verdict, timeout, port } => state.timed_out(
            generation,
            verdict,
            timeout,
            port,
        ),
        Event::Log { generation, source, line } => state.with_log(generation, source, line),
        Event::Stop => state.stopping(),
        Event::Stopped { generation } => state.stopped(),
        Event::Fail { begun, message } => state.failed(message),
        Event::ClearLog => state.with_empty_log(),
        Event::Busy { label } => state.with_busy(label),
    }
}

/// The state after a series of events.
pub open spec fn after_all<C>(state: RuntimeView<C>, events: Seq<Event<C>>) -> RuntimeView<C>
    decreases events.len(),
{
    if events.len() == 0 {
        state
    } else {
        after(after_all(state, events.drop_last()), events.last())
    }
}

/// What belongs to an earlier start changes nothing, however much of it arrives.
pub proof fn law_earlier_starts_change_nothing<C>(state: RuntimeView<C>, events: Seq<Event<C>>)
    requires
        forall|i: int| 0 <= i < events.len() ==> (#[trigger] events[i]).stale(state),
    ensures
        after_all(state, events) == state,
    decreases events.len(),
{
    if events.len() > 0 {
        let before = events.drop_last();
        assert forall|i: int| 0 <= i < before.len() implies (#[trigger] before[i]).stale(state) by {
            assert(before[i] == events[i]);
        }
        law_earlier_starts_change_nothing(state, before);
        assert(events[events.len() - 1].stale(state));
    }
}

/// A start that is let through and every stop get a generation of their own, so that what
/// belonged to the start before is an earlier start's from then on. Nothing else touches
/// the generation.
pub proof fn law_starts_and_stops_are_numbered<C>(state: RuntimeView<C>, event: Event<C>)
    requires
        state.generation < u64::MAX,
    ensures
        after(state, event).generation == state.generation + (if event is Stop || (event is Start
            && !service::occupied(state.phase)) {
            1int
        } else {
            0
        }),
        event is Stop ==> forall|later: Event<C>|
            #![trigger later.stale(after(state, event))]
            later.of_start() == Some(state.generation) ==> later.stale(after(state, event)),
{
}

/// A start is let through only where nothing runs, starts or stops.
pub proof fn law_a_running_service_is_not_started_again<C>(state: RuntimeView<C>, port: u16)
    ensures
        service::occupied(state.phase) ==> after(state, Event::Start { port }) == state,
        !service::occupied(state.phase) ==> after(state, Event::Start { port }).phase
            == Phase::Starting,
{
}

/// A process in the state was put there by a registration.
pub proof fn law_processes_come_from_registrations<C>(state: RuntimeView<C>, event: Event<C>)
    ensures
        after(state, event).child is Some ==> after(state, event).child == state.child || (
        event matches Event::Register { child, .. } && after(state, event).child == Some(child)),
{
}

/// The service is either one of ours or an external one, and a process number stands for
/// a process of ours.
pub open spec fn sound<C>(state: RuntimeView<C>) -> bool {
    &&& state.external ==> state.child is None
    &&& state.pid is Some <==> state.child is Some
}

/// A new state is sound.
pub proof fn law_the_initial_state_is_sound<C>()
    ensures
        sound(RuntimeView::<C>::initial()),
{
}

/// An external service is never ended by the launcher: while one is used there is no
/// process that a stop, or giving a start up, could hand out, and a stop says that the
/// service is still running.
pub proof fn law_external_services_are_left_running<C>(
    state: RuntimeView<C>,
    monitor: Monitor,
    event: MonitorEvent,
)
    requires
        sound(state),
        state.external,
    ensures
        state.child is None,
        state.stopping().message == "已断开与外部 dsh 服务的连接（该服务仍在运行）"@,
        state.stopping().phase == Phase::Stopped,
        !(monitor.after(state, event).2 matches MonitorAction::Quit { kill: Some(child), .. }),
{
}

/// After a stop the state has no process: what the stop handed out is handed out once.
pub proof fn law_a_stop_leaves_no_process<C>(state: RuntimeView<C>)
    ensures
        state.stopping().child is None,
        state.stopping().pid is None,
        state.stopping().stopped().child is None,
        !service::occupied(state.stopping().stopped().phase),
        state.child is None ==> !service::occupied(state.stopping().phase),
{
}

/// A process is there only while the service starts or runs.
pub open spec fn accounted<C>(state: RuntimeView<C>) -> bool {
    state.child is Some ==> state.phase == Phase::Starting || state.phase == Phase::Ready
}

/// How far the latest start or stop has come.
#[derive(Clone, Copy, Debug, PartialEq, Eq, Structural)]
pub enum Stage {
    /// Nothing has been started yet.
    Fresh,
    /// A start was let through.
    Begun,
    /// The start uses an external service.
    Attached,
    /// The start has registered its process.
    Running,
    /// The start came to nothing.
    Failed,
    /// A stop has come.
    Halted,
}

/// How far the latest start or stop has come after a series of events.
pub open spec fn stage<C>(events: Seq<Event<C>>) -> Stage
    decreases events.len(),
{
    if events.len() == 0 {
        Stage::Fresh
    } else {
        let state = after_all(RuntimeView::initial(), events.drop_last());
        let before = stage(events.drop_last());
        match events.last() {
            Event::Start { port } => if service::occupied(state.phase) {
                before
            } else {
                Stage::Begun
            },
            Event::Stop => Stage::Halted,
            Event::Attach { generation, .. } => if generation == state.generation {
                Stage::Attached
            } else {
                before
            },
            Event::Register { generation, .. } => if generation == state.generation {
                Stage::Running
            } else {
                before
            },
            Event::Fail { begun, .. } => if begun == Some(state.generation) {
                Stage::Failed
            } else {
                before
            },
            _ => before,
        }
    }
}

/// The last event comes in its order. A start that was let through uses an external service,
/// registers its process or fails; a process is watched once it is registered, an external
/// service once it is used. The failure of a start is noted where it is the state's, and the end
/// of a stop where no other start or stop has come since. What else belongs to an earlier start
/// may come at any time, and so may every request to start or to stop.
pub open spec fn in_order<C>(events: Seq<Event<C>>) -> bool {
    let before = events.drop_last();
    let state = after_all(RuntimeView::initial(), before);
    match events.last() {
        Event::Attach { generation, .. } => generation == state.generation ==> stage(before)
            == Stage::Begun,
        Event::Register { generation, .. } => generation == state.generation ==> stage(before)
            == Stage::Begun,
        Event::ExternalGone { generation } => generation == state.generation ==> stage(before)
            == Stage::Attached,
        Event::Fail { begun, .. } => state.concerned(begun) && (begun is Some ==> stage(before)
            == Stage::Begun),
        Event::Stopped { generation } => generation == state.generation && stage(before)
            == Stage::Halted,
        event => event.of_start() == Some(state.generation) ==> stage(before) == Stage::Running,
    }
}

/// A series of events in which everything comes in its order.
pub open spec fn proper_run<C>(events: Seq<Event<C>>) -> bool
    decreases events.len(),
{
    events.len() == 0 || (proper_run(events.drop_last()) && in_order(events))
}

/// What the state is like at a stage.
spec fn fits<C>(state: RuntimeView<C>, stage: Stage) -> bool {
    match stage {
        Stage::Begun => state.phase == Phase::Starting && state.child is None && !state.external,
        Stage::Running => !state.external,
        _ => state.child is None,
    }
}

/// The state is sound, accounts for its process and is at its stage.
proof fn lemma_state_of_a_run<C>(events: Seq<Event<C>>)
    requires
        proper_run(events),
    ensures
        sound(after_all(RuntimeView::<C>::initial(), events)),
        accounted(after_all(RuntimeView::<C>::initial(), events)),
        fits(after_all(RuntimeView::<C>::initial(), events), stage(events)),
    decreases events.len(),
{
    if events.len() > 0 {
        lemma_state_of_a_run(events.drop_last());
    }
}

/// Whatever starts and stops come, and however they interleave: the service is one of ours or an
/// external one, and a process is there only while the service starts or runs.
pub proof fn law_every_state_is_sound<C>(events: Seq<Event<C>>)
    requires
        proper_run(events),
    ensures
        sound(after_all(RuntimeView::<C>::initial(), events)),
        accounted(after_all(RuntimeView::<C>::initial(), events)),
{
    lemma_state_of_a_run(events);
}

/// No process is lost: one that was registered stays in the state until it has ended by itself,
/// or until giving the start up or a stop hands it out to be ended. No other takes its place.
pub proof fn law_no_process_is_lost<C>(events: Seq<Event<C>>)
    requires
        events.len() > 0,
        proper_run(events),
    ensures
        ({
            let before = after_all(RuntimeView::<C>::initial(), events.drop_last());
            let now = after_all(RuntimeView::<C>::initial(), events);
            before.child is Some && now.child != before.child ==> events.last() is Exit
                || events.last() is TimeOut || events.last() is Stop
        }),
        events.last() matches Event::Register { generation, .. } ==> generation == after_all(
            RuntimeView::<C>::initial(),
            events.drop_last(),
        ).generation ==> after_all(RuntimeView::<C>::initial(), events.drop_last()).child is None,
{
    lemma_state_of_a_run(events.drop_last());
}

/// No process is forgotten: where a start is let through there is none.
pub proof fn law_a_start_forgets_no_process<C>(events: Seq<Event<C>>, port: u16)
    requires
        proper_run(events),
        !service::occupied(after_all(RuntimeView::<C>::initial(), events).phase),
    ensures
        after_all(RuntimeView::<C>::initial(), events).child is None,
        after_all(RuntimeView::<C>::initial(), events).starting(port).child is None,
{
    lemma_state_of_a_run(events);
}

/// While there is a process, the failure of a start that was refused before it began is not the
/// state's, and neither is the failure of an earlier start.
pub proof fn law_a_process_is_not_concerned_by_other_starts<C>(
    events: Seq<Event<C>>,
    begun: Option<u64>,
)
    requires
        proper_run(events),
        after_all(RuntimeView::<C>::initial(), events).child is Some,
        begun != Some(after_all(RuntimeView::<C>::initial(), events).generation),
    ensures
        !after_all(RuntimeView::<C>::initial(), events).concerned(begun),
{
    lemma_state_of_a_run(events);
}

/// The log stays within its bound, and the newest line is its last.
pub proof fn law_the_log_is_bounded<C>(
    state: RuntimeView<C>,
    source: Seq<char>,
    line: Seq<char>,
)
    ensures
        state.with_log(state.generation, source, line).logs.len() <= state::MAX_LOG_LINES,
        state.with_log(state.generation, source, line).logs.last() == state::log_line(source, line),
        state.logs.len() < state::MAX_LOG_LINES ==> state.with_log(
            state.generation,
            source,
            line,
        ).logs == state.logs.push(state::log_line(source, line)),
{
}

/// How many more answers a start needs at most before it is settled what it does.
pub open spec fn answers_left(stage: PortStage) -> int {
    match stage {
        PortStage::Probe => service::PORT_TRIES + 2,
        PortStage::Ask => service::PORT_TRIES + 1,
        PortStage::Wait { taken } => service::PORT_TRIES - taken,
        PortStage::Settled => 0,
    }
}

/// The search for a port ends: every answer brings it closer to its end, and it goes on
/// exactly as long as it asks for something.
pub proof fn law_the_port_search_ends(stage: PortStage, event: PortEvent, port: u16)
    requires
        service::fits(stage, event),
    ensures
        0 <= answers_left(service::port_step(stage, event, port).0) < answers_left(stage),
        service::port_step(stage, event, port).0 == PortStage::Settled <==> !(service::port_step(
            stage,
            event,
            port,
        ).1 is Ask || service::port_step(stage, event, port).1 is Try),
{
}

/// A free port is used at once, and so is a web service on a port that is taken. A start
/// is refused only after the port was found taken as often as it is tried.
pub proof fn law_a_start_is_refused_last(stage: PortStage, event: PortEvent, port: u16)
    requires
        service::fits(stage, event),
    ensures
        event == (PortEvent::Tried { free: true }) ==> service::port_step(stage, event, port).1
            == PortActionView::Launch,
        event == (PortEvent::Asked { alive: true }) ==> service::port_step(stage, event, port).1
            == PortActionView::Attach,
        service::port_step(stage, event, port).1 is Refuse ==> stage == (PortStage::Wait {
            taken: (service::PORT_TRIES - 1) as u32,
        }) && event == (PortEvent::Tried { free: false }),
{
}

/// A process that writes is not given up before the last limit: where new output was seen
/// on waking, a port that does not answer within the time for silence leaves it running.
pub proof fn law_a_process_that_writes_is_not_given_up<C>(
    monitor: Monitor,
    state: RuntimeView<C>,
    woke: u128,
    probed: u128,
)
    requires
        state.generation == monitor.generation,
        state.log_ticks != monitor.seen_ticks,
        woke <= probed,
        probed - woke <= monitor.timeout * exec::NANOS_PER_SECOND,
        probed <= service::STARTUP_HARD_LIMIT * exec::NANOS_PER_SECOND,
    ensures
        ({
            let seen = monitor.after(state, MonitorEvent::Woke { now: woke }).0;
            let (next, then_state, action) = seen.after(
                state,
                MonitorEvent::Probed { connected: false, now: probed },
            );
            &&& then_state.child == state.child
            &&& then_state.phase == state.phase
            &&& !(action matches MonitorAction::Quit { kill: Some(child), .. })
        }),
{
}

/// A process that stays silent for too long, or takes more than all the time there is, is
/// given up: the start has failed, and the process is handed out to be ended.
pub proof fn law_a_hanging_process_is_given_up<C>(monitor: Monitor, state: RuntimeView<C>, now: u128)
    requires
        state.generation == monitor.generation,
        now - monitor.last_active > monitor.timeout * exec::NANOS_PER_SECOND || now
            > service::STARTUP_HARD_LIMIT * exec::NANOS_PER_SECOND,
    ensures
        ({
            let (next, then_state, action) = monitor.after(
                state,
                MonitorEvent::Probed { connected: false, now },
            );
            &&& action == MonitorAction::Quit { kill: state.child, tell: true }
            &&& then_state.phase == Phase::Failed
            &&& then_state.child is None
            &&& then_state.pid is None
        }),
{
}

/// What a watch hands out to be ended is the process of its own start, and the state does
/// not hold on to it.
pub proof fn law_a_watch_ends_its_own_process_only<C>(
    monitor: Monitor,
    state: RuntimeView<C>,
    event: MonitorEvent,
)
    ensures
        monitor.after(state, event).2 matches MonitorAction::Quit { kill: Some(child), .. } ==> {
            &&& state.generation == monitor.generation
            &&& state.child == Some(child)
            &&& monitor.after(state, event).1.child is None
        },
{
}

/// More output never makes a verdict worse.
pub proof fn law_output_never_hurts(longer: u128, shorter: u128, elapsed: u128, budget: u128)
    requires
        shorter <= longer,
    ensures
        service::startup_verdict(longer, elapsed, budget) == StartupWait::Keep
            ==> service::startup_verdict(shorter, elapsed, budget) == StartupWait::Keep,
        service::startup_verdict(longer, elapsed, budget) != StartupWait::Silent
            ==> service::startup_verdict(shorter, elapsed, budget) != StartupWait::Silent,
{
}

/// The watch over an earlier start changes nothing and ends the next time it wakes.
pub proof fn law_an_earlier_watch_changes_nothing<C>(
    monitor: Monitor,
    state: RuntimeView<C>,
    event: MonitorEvent,
)
    requires
        state.generation != monitor.generation,
    ensures
        monitor.after(state, event).1 == state,
        event is Woke ==> monitor.after(state, event).2 == (MonitorAction::<C>::Quit {
            kill: None,
            tell: false,
        }),
{
}

/// Once the service has answered, the watch tries the port no more, and the process can
/// no longer be given up for being slow.
pub proof fn law_a_ready_service_is_only_polled<C>(
    monitor: Monitor,
    state: RuntimeView<C>,
    event: MonitorEvent,
)
    requires
        monitor.ready,
        !(event is Probed),
    ensures
        monitor.after(state, event).0.ready,
        monitor.after(state, event).2 != MonitorAction::<C>::Probe,
        !(monitor.after(state, event).2 matches MonitorAction::Quit { kill: Some(child), .. }),
{
}

/// The user is told once why a start takes so long.
pub proof fn law_the_hint_comes_once<C>(monitor: Monitor, state: RuntimeView<C>, now: u128)
    ensures
        ({
            let event = MonitorEvent::Probed { connected: false, now };
            let (next, then_state, action) = monitor.after(state, event);
            &&& monitor.hinted ==> next.hinted
            &&& monitor.hinted && monitor.verdict(now) == StartupWait::Keep ==> then_state == state
        }),
{
}

/// An external service counts as gone after three failures in a row, and one success
/// starts the count anew.
pub proof fn law_an_external_service_gets_three_chances<C>(
    monitor: ExternalMonitor,
    state: RuntimeView<C>,
)
    requires
        monitor.watching(),
    ensures
        ({
            let failed = ExternalEvent::Probed { connected: false };
            let reached = ExternalEvent::Probed { connected: true };
            let (next, then_state, action) = monitor.after(state, failed);
            &&& monitor.after(state, reached).0.failures == 0
            &&& monitor.after(state, reached).1 == state
            &&& monitor.failures < 2 ==> then_state == state && action is Sleep && next.failures
                == monitor.failures + 1
            &&& monitor.failures == 2 ==> action is Quit && (state.generation == monitor.generation
                ==> then_state.phase == Phase::Stopped && !then_state.external)
        }),
{
}

/// The watch over an external service of an earlier start changes nothing.
pub proof fn law_an_earlier_external_watch_changes_nothing<C>(
    monitor: ExternalMonitor,
    state: RuntimeView<C>,
    event: ExternalEvent,
)
    requires
        state.generation != monitor.generation,
    ensures
        monitor.after(state, event).1 == state,
        event is Woke ==> monitor.after(state, event).2 == (ExternalAction::Quit { tell: false }),
{
}

/// The watch changes the state by events of its own start only.
pub proof fn law_the_watch_acts_for_its_start<C>(
    monitor: Monitor,
    state: RuntimeView<C>,
    event: MonitorEvent,
)
    ensures
        monitor.after(state, event).1 == state || exists|cause: Event<C>|
            cause.of_start() == Some(monitor.generation) && monitor.after(state, event).1
                == #[trigger] after(state, cause),
{
    let generation = monitor.generation;
    match event {
        MonitorEvent::Woke { now } => {},
        MonitorEvent::Polled { exit } => {
            if exit is Some {
                let cause = Event::<C>::Exit { generation, ready: monitor.ready, exit: exit->0@ };
                assert(monitor.after(state, event).1 == after(state, cause));
            }
        },
        MonitorEvent::Probed { connected, now } => {
            let answer = Event::<C>::Answer { generation };
            let hint = Event::<C>::Hint { generation };
            let give_up = Event::<C>::TimeOut {
                generation,
                verdict: monitor.verdict(now),
                timeout: monitor.timeout,
                port: monitor.port,
            };
            if connected {
                assert(monitor.after(state, event).1 == after(state, answer));
            } else if monitor.verdict(now) != StartupWait::Keep {
                assert(monitor.after(state, event).1 == after(state, give_up));
            } else if monitor.hint_due(now) {
                assert(monitor.after(state, event).1 == after(state, hint));
            }
        },
    }
}

/// A change of the installation leaves the service as it found it: what is stopped for it
/// is started again after it, and an external service, or none, is left alone.
pub proof fn law_a_change_brings_the_service_back<C>(state: RuntimeView<C>)
    ensures
        service::change_steps(state).contains(MaintenanceStep::Run),
        service::change_steps(state).contains(MaintenanceStep::Stop)
            <==> service::change_steps(state).contains(MaintenanceStep::Start),
        service::change_steps(state).contains(MaintenanceStep::Stop) ==> !state.external
            && state.phase == Phase::Ready,
        service::change_steps(state).contains(MaintenanceStep::Start)
            ==> service::change_steps(state).last() == MaintenanceStep::Start,
{
    let steps = service::change_steps(state);
    if service::ours_and_ready(state) {
        assert(steps[0] == MaintenanceStep::Stop && steps[1] == MaintenanceStep::Run && steps[2]
            == MaintenanceStep::Start);
    } else {
        assert(steps[0] == MaintenanceStep::Run);
    }
}

/// Once a change of the installation is over, the state no longer says that one is under
/// way; apart from that, the change left no trace in it.
pub proof fn law_a_change_does_not_stay_announced<C>(state: RuntimeView<C>, label: Seq<char>)
    ensures
        state.with_busy(Some(label)).with_busy(None).busy is None,
        state.busy is None ==> state.with_busy(Some(label)).with_busy(None) == state,
{
}

/// Waking looks at the output, and at nothing else: without new output the time of the last
/// output stays what it was, and with new output it is now.
pub proof fn law_only_output_counts_as_life<C>(monitor: Monitor, state: RuntimeView<C>, now: u128)
    requires
        state.generation == monitor.generation,
    ensures
        ({
            let (next, then_state, action) = monitor.after(state, MonitorEvent::Woke { now });
            &&& action == MonitorAction::<C>::Poll
            &&& then_state == state
            &&& next.seen_ticks == state.log_ticks
            &&& state.log_ticks == monitor.seen_ticks ==> next.last_active == monitor.last_active
            &&& state.log_ticks != monitor.seen_ticks ==> next.last_active == now
            &&& next.generation == monitor.generation && next.port == monitor.port && next.timeout
                == monitor.timeout && next.ready == monitor.ready && next.hinted == monitor.hinted
        }),
{
}

/// A process that runs is asked nothing more once the service has answered; before that its port
/// is tried. Asking changes nothing.
pub proof fn law_a_running_process_is_left_alone<C>(monitor: Monitor, state: RuntimeView<C>)
    ensures
        ({
            let (next, then_state, action) = monitor.after(
                state,
                MonitorEvent::Polled { exit: None },
            );
            &&& next == monitor
            &&& then_state == state
            &&& !monitor.ready ==> action == MonitorAction::<C>::Probe
            &&& monitor.ready ==> action == (MonitorAction::<C>::Sleep { millis: 800, tell: false })
        }),
{
}

/// A round of the watch in which nothing comes of it: it wakes, the process has not ended, and
/// the port does not answer.
pub struct Round {
    pub woke: u128,
    pub probed: u128,
}

/// The watch and the state after some rounds. Meanwhile the process has written as many lines as
/// `ticks` says for each round.
pub open spec fn after_rounds<C>(
    monitor: Monitor,
    state: RuntimeView<C>,
    rounds: Seq<Round>,
    ticks: Seq<u64>,
) -> (Monitor, RuntimeView<C>)
    decreases rounds.len(),
{
    if rounds.len() == 0 {
        (monitor, state)
    } else {
        let (before, then) = after_rounds(monitor, state, rounds.drop_last(), ticks);
        let written = RuntimeView { log_ticks: ticks[rounds.len() - 1], ..then };
        let woken = before.after(written, MonitorEvent::Woke { now: rounds.last().woke });
        let polled = woken.0.after(woken.1, MonitorEvent::Polled { exit: None });
        let probed = polled.0.after(
            polled.1,
            MonitorEvent::Probed { connected: false, now: rounds.last().probed },
        );
        (probed.0, probed.1)
    }
}

/// What the last of some rounds does.
pub open spec fn last_action<C>(
    monitor: Monitor,
    state: RuntimeView<C>,
    rounds: Seq<Round>,
    ticks: Seq<u64>,
) -> MonitorAction<C> {
    let (before, then) = after_rounds(monitor, state, rounds.drop_last(), ticks);
    let written = RuntimeView { log_ticks: ticks[rounds.len() - 1], ..then };
    let woken = before.after(written, MonitorEvent::Woke { now: rounds.last().woke });
    let polled = woken.0.after(woken.1, MonitorEvent::Polled { exit: None });
    polled.0.after(
        polled.1,
        MonitorEvent::Probed { connected: false, now: rounds.last().probed },
    ).2
}

/// A start that hangs is given up: however many rounds the process stays silent, the first one
/// that tries the port later than the time for silence after the last output ends the watch. The
/// process is handed out, and the state says that there was no output for so long.
pub proof fn law_silence_is_given_up<C>(
    monitor: Monitor,
    state: RuntimeView<C>,
    rounds: Seq<Round>,
    ticks: Seq<u64>,
)
    requires
        state.generation == monitor.generation,
        state.phase == Phase::Starting,
        !monitor.ready,
        rounds.len() > 0,
        ticks.len() == rounds.len(),
        forall|i: int| 0 <= i < ticks.len() ==> #[trigger] ticks[i] == monitor.seen_ticks,
        forall|i: int|
            0 <= i < rounds.len() - 1 ==> (#[trigger] rounds[i]).probed <= monitor.last_active
                + monitor.timeout * 1_000_000_000 && rounds[i].probed <= 900_000_000_000,
        rounds.last().probed > monitor.last_active + monitor.timeout * 1_000_000_000,
    ensures
        ({
            let (last, then) = after_rounds(monitor, state, rounds, ticks);
            &&& last_action(monitor, state, rounds, ticks) == (MonitorAction::Quit {
                kill: state.child,
                tell: true,
            })
            &&& then.phase == Phase::Failed
            &&& then.child is None
            &&& then.pid is None
            &&& then.message == "dsh 启动超时（"@ + text::decimal(monitor.timeout as nat)
                + " 秒内既没有监听端口 "@ + text::decimal(monitor.port as nat)
                + "，也没有任何新输出），已终止进程，请检查运行日志"@
        }),
{
    let before = rounds.drop_last();
    assert forall|i: int| 0 <= i < before.len() implies (#[trigger] before[i]).probed
        <= monitor.last_active + monitor.timeout * 1_000_000_000 && before[i].probed
        <= 900_000_000_000 by {
        assert(before[i] == rounds[i]);
    }
    lemma_quiet_rounds(monitor, state, before, ticks);
    assert(ticks[rounds.len() - 1] == monitor.seen_ticks);
}

/// Rounds of silence within the time for it change nothing but the message.
proof fn lemma_quiet_rounds<C>(
    monitor: Monitor,
    state: RuntimeView<C>,
    rounds: Seq<Round>,
    ticks: Seq<u64>,
)
    requires
        state.generation == monitor.generation,
        state.phase == Phase::Starting,
        !monitor.ready,
        ticks.len() >= rounds.len(),
        forall|i: int| 0 <= i < ticks.len() ==> #[trigger] ticks[i] == monitor.seen_ticks,
        forall|i: int|
            0 <= i < rounds.len() ==> (#[trigger] rounds[i]).probed <= monitor.last_active
                + monitor.timeout * 1_000_000_000 && rounds[i].probed <= 900_000_000_000,
    ensures
        ({
            let (last, then) = after_rounds(monitor, state, rounds, ticks);
            &&& last.generation == monitor.generation
            &&& last.port == monitor.port
            &&& last.timeout == monitor.timeout
            &&& !last.ready
            &&& last.seen_ticks == monitor.seen_ticks
            &&& last.last_active == monitor.last_active
            &&& then.generation == state.generation
            &&& then.phase == state.phase
            &&& then.child == state.child
            &&& then.pid == state.pid
        }),
    decreases rounds.len(),
{
    if rounds.len() > 0 {
        let before = rounds.drop_last();
        assert forall|i: int| 0 <= i < before.len() implies (#[trigger] before[i]).probed
            <= monitor.last_active + monitor.timeout * 1_000_000_000 && before[i].probed
            <= 900_000_000_000 by {
            assert(before[i] == rounds[i]);
        }
        lemma_quiet_rounds(monitor, state, before, ticks);
        assert(ticks[rounds.len() - 1] == monitor.seen_ticks);
        assert(rounds[rounds.len() - 1].probed <= monitor.last_active + monitor.timeout
            * 1_000_000_000);
    }
}

/// A start that still writes is kept: as long as each round brings new output, and tries the port
/// within the time for silence and before a quarter of an hour is over, the watch goes on and the
/// process stays.
pub proof fn law_output_keeps_a_start_alive<C>(
    monitor: Monitor,
    state: RuntimeView<C>,
    rounds: Seq<Round>,
    ticks: Seq<u64>,
)
    requires
        state.generation == monitor.generation,
        state.phase == Phase::Starting,
        !monitor.ready,
        rounds.len() > 0,
        ticks.len() == rounds.len(),
        ticks[0] != monitor.seen_ticks,
        forall|i: int| 0 < i < ticks.len() ==> #[trigger] ticks[i] != ticks[i - 1],
        forall|i: int|
            0 <= i < rounds.len() ==> (#[trigger] rounds[i]).woke <= rounds[i].probed
                && rounds[i].probed <= rounds[i].woke + monitor.timeout * 1_000_000_000
                && rounds[i].probed <= 900_000_000_000,
    ensures
        ({
            let (last, then) = after_rounds(monitor, state, rounds, ticks);
            &&& last_action(monitor, state, rounds, ticks) matches MonitorAction::Sleep {
                millis,
                ..
            } && millis == 250
            &&& then.phase == Phase::Starting
            &&& then.child == state.child
            &&& then.generation == state.generation
            &&& last.seen_ticks == ticks.last()
            &&& last.generation == monitor.generation
            &&& last.timeout == monitor.timeout
            &&& !last.ready
        }),
    decreases rounds.len(),
{
    if rounds.len() > 1 {
        let before = rounds.drop_last();
        let earlier = ticks.drop_last();
        assert forall|i: int| 0 < i < earlier.len() implies #[trigger] earlier[i] != earlier[i - 1] by {
            assert(earlier[i] == ticks[i]);
        }
        assert forall|i: int| 0 <= i < before.len() implies (#[trigger] before[i]).woke
            <= before[i].probed && before[i].probed <= before[i].woke + monitor.timeout * 1_000_000_000
            && before[i].probed <= 900_000_000_000 by {
            assert(before[i] == rounds[i]);
        }
        law_output_keeps_a_start_alive(monitor, state, before, earlier);
        lemma_ticks_of_earlier_rounds(monitor, state, before, ticks, earlier);
        assert(ticks[ticks.len() - 1] != ticks[ticks.len() - 2]);
    } else {
        assert(after_rounds(monitor, state, rounds.drop_last(), ticks) == (monitor, state));
    }
    assert(rounds[rounds.len() - 1].woke <= rounds[rounds.len() - 1].probed);
}

/// What is written later does not touch earlier rounds.
proof fn lemma_ticks_of_earlier_rounds<C>(
    monitor: Monitor,
    state: RuntimeView<C>,
    rounds: Seq<Round>,
    one: Seq<u64>,
    other: Seq<u64>,
)
    requires
        forall|i: int| 0 <= i < rounds.len() ==> #[trigger] one[i] == other[i],
    ensures
        after_rounds(monitor, state, rounds, one) == after_rounds(monitor, state, rounds, other),
    decreases rounds.len(),
{
    if rounds.len() > 0 {
        lemma_ticks_of_earlier_rounds(monitor, state, rounds.drop_last(), one, other);
        assert(one[rounds.len() - 1] == other[rounds.len() - 1]);
    }
}

/// A quarter of an hour is all the time that there is: a port that does not answer later than
/// that ends the watch, however much the process writes.
pub proof fn law_a_quarter_of_an_hour_is_the_limit<C>(
    monitor: Monitor,
    state: RuntimeView<C>,
    now: u128,
)
    requires
        state.generation == monitor.generation,
        now > 900_000_000_000,
    ensures
        ({
            let (next, then_state, action) = monitor.after(
                state,
                MonitorEvent::Probed { connected: false, now },
            );
            &&& action == (MonitorAction::Quit { kill: state.child, tell: true })
            &&& then_state.phase == Phase::Failed
            &&& then_state.child is None
            &&& monitor.last_active <= now <= monitor.last_active + monitor.timeout * 1_000_000_000
                ==> then_state.message == "dsh 启动超过 "@ + text::decimal(15) + " 分钟仍未监听端口 "@
                + text::decimal(monitor.port as nat) + "，已终止进程，请检查运行日志"@
        }),
{
}

/// The verdict on a start, in seconds: silence beyond the budget comes first, then a quarter of
/// an hour in all.
pub proof fn law_the_verdict_on_a_start(silent_for: u128, elapsed: u128, budget: u128)
    ensures
        service::startup_verdict(silent_for, elapsed, budget) == StartupWait::Silent <==> silent_for
            > budget,
        service::startup_verdict(silent_for, elapsed, budget) == StartupWait::Keep <==> silent_for
            <= budget && elapsed <= 900_000_000_000,
        service::silence_budget(LaunchMode::Command) == 60,
        service::silence_budget(LaunchMode::Npx) == 180,
{
}

/// A port that answers makes a start ready, and the windows are told where it listens. The
/// process is looked at less often from then on.
pub proof fn law_an_answer_makes_a_start_ready<C>(monitor: Monitor, state: RuntimeView<C>, now: u128)
    requires
        state.generation == monitor.generation,
    ensures
        ({
            let (next, then_state, action) = monitor.after(
                state,
                MonitorEvent::Probed { connected: true, now },
            );
            &&& next.ready
            &&& action == (MonitorAction::<C>::Sleep { millis: 800, tell: true })
            &&& state.phase == Phase::Starting ==> then_state.phase == Phase::Ready
                && then_state.message == "正在监听 "@ + state.url
            &&& state.phase != Phase::Starting ==> then_state == state
            &&& then_state.child == state.child && then_state.pid == state.pid && then_state.url
                == state.url && then_state.generation == state.generation && then_state.logs
                == state.logs && then_state.external == state.external && then_state.busy == state.busy
        }),
{
}

/// A start that takes more than three quarters of a minute is explained, once, and goes on.
pub proof fn law_a_slow_start_is_explained<C>(monitor: Monitor, state: RuntimeView<C>, now: u128)
    requires
        state.generation == monitor.generation,
        state.phase == Phase::Starting,
        !monitor.ready,
        monitor.last_active <= now <= monitor.last_active + monitor.timeout * 1_000_000_000,
        now <= 900_000_000_000,
    ensures
        ({
            let (next, then_state, action) = monitor.after(
                state,
                MonitorEvent::Probed { connected: false, now },
            );
            let due = !monitor.hinted && now > 45_000_000_000;
            &&& action == (MonitorAction::<C>::Sleep { millis: 250, tell: due })
            &&& next.hinted <==> monitor.hinted || due
            &&& !due ==> then_state == state
            &&& due ==> then_state.message
                == "dsh 仍在启动，还在输出日志（升级后首次启动要现装依赖，可能要几分钟）：等待 "@
                + state.url + " 响应…"@
            &&& then_state.phase == state.phase && then_state.child == state.child && then_state.pid
                == state.pid && then_state.generation == state.generation && then_state.logs
                == state.logs
        }),
{
}

/// A process that ends by itself leaves nothing to be stopped: it is gone from the state, the
/// windows are told how it ended, and the start has failed, unless it was being stopped.
pub proof fn law_a_process_that_ends_is_noted<C>(
    monitor: Monitor,
    state: RuntimeView<C>,
    exit: String,
)
    requires
        state.generation == monitor.generation,
    ensures
        ({
            let (next, then_state, action) = monitor.after(
                state,
                MonitorEvent::Polled { exit: Some(exit) },
            );
            &&& action == (MonitorAction::<C>::Quit { kill: None, tell: true })
            &&& then_state.child is None
            &&& then_state.pid is None
            &&& state.phase == Phase::Stopping ==> then_state.phase == Phase::Stopped
                && then_state.message == "dsh 已停止"@
            &&& state.phase != Phase::Stopping ==> then_state.phase == Phase::Failed
                && text::occurs(then_state.message, "（"@ + exit@ + "）"@)
            &&& then_state.url == state.url && then_state.logs == state.logs && then_state.generation
                == state.generation && then_state.external == state.external && then_state.busy
                == state.busy
        }),
{
    if state.phase != Phase::Stopping {
        let prefix = if monitor.ready { "dsh 进程意外退出"@ } else { "dsh 进程已退出"@ };
        let middle = "（"@ + exit@ + "）"@;
        let message = service::exit_message(state.logs, monitor.ready, exit@);
        let rest = message.skip((prefix + middle).len() as int);
        assert(prefix + "（"@ + exit@ + "）"@ =~= prefix + middle);
        assert(message =~= prefix + middle + rest);
        text::law_what_occurs_is_a_part(prefix, middle, rest, message);
    }
}

/// What is said of a process that ended: the last line of its log that is not blank comes last,
/// cut to 240 characters; without such a line the message ends with how the process ended.
pub proof fn law_the_last_words_of_a_process_are_told(
    lines: Seq<Seq<char>>,
    ready: bool,
    exit: Seq<char>,
    at: int,
)
    requires
        -1 <= at < lines.len(),
        at >= 0 ==> text::stripped(lines[at]).len() > 0,
        forall|i: int| at < i < lines.len() ==> text::stripped(#[trigger] lines[i]).len() == 0,
    ensures
        ({
            let ended = (if ready { "dsh 进程意外退出"@ } else { "dsh 进程已退出"@ }) + "（"@ + exit
                + "）"@;
            service::exit_message(lines, ready, exit) == (if at >= 0 {
                ended + "："@ + util::truncated(lines[at], 240)
            } else {
                ended
            })
        }),
{
    lemma_last_words(lines, at);
}

/// The last line that is not blank.
proof fn lemma_last_words(lines: Seq<Seq<char>>, at: int)
    requires
        -1 <= at < lines.len(),
        at >= 0 ==> text::stripped(lines[at]).len() > 0,
        forall|i: int| at < i < lines.len() ==> text::stripped(#[trigger] lines[i]).len() == 0,
    ensures
        service::last_nonblank(lines) == (if at >= 0 { Some(lines[at]) } else { None }),
    decreases lines.len(),
{
    if lines.len() > 0 && at < lines.len() - 1 {
        assert(text::stripped(lines[lines.len() - 1]).len() == 0);
        let before = lines.drop_last();
        assert forall|i: int| at < i < before.len() implies text::stripped(#[trigger] before[i]).len()
            == 0 by {
            assert(before[i] == lines[i]);
        }
        lemma_last_words(before, at);
    }
}

/// A start that is let through has the next number, no log, the address of its port and no
/// external service; a process and what is being changed are not touched by it.
pub proof fn law_what_a_start_changes<C>(state: RuntimeView<C>, port: u16)
    requires
        state.generation < u64::MAX,
        state.phase == Phase::Stopped || state.phase == Phase::Failed,
    ensures
        ({
            let then = after(state, Event::Start { port });
            &&& then.generation == state.generation + 1
            &&& then.phase == Phase::Starting
            &&& !then.external
            &&& then.message == "正在启动 dsh web…"@
            &&& then.url == "http://127.0.0.1:"@ + text::decimal(port as nat)
            &&& then.logs.len() == 0
            &&& then.child == state.child && then.pid == state.pid && then.busy == state.busy
                && then.log_ticks == state.log_ticks
        }),
{
}

/// Where the service runs, starts or stops, a start changes nothing; in the other two phases it is
/// let through.
pub proof fn law_where_a_start_is_let_through<C>(state: RuntimeView<C>, port: u16)
    ensures
        state.phase == Phase::Starting || state.phase == Phase::Ready || state.phase == Phase::Stopping
            ==> after(state, Event::Start { port }) == state,
        state.phase == Phase::Stopped || state.phase == Phase::Failed ==> after(
            state,
            Event::Start { port },
        ).phase == Phase::Starting,
{
}

/// A start that uses an external service is ready at once, has no process number, and says that
/// the service will not be stopped.
pub proof fn law_what_using_an_external_service_changes<C>(state: RuntimeView<C>, port: u16)
    ensures
        ({
            let then = after(state, Event::Attach { generation: state.generation, port });
            &&& then.phase == Phase::Ready
            &&& then.external
            &&& then.pid is None
            &&& then.message == "已连接到端口 "@ + text::decimal(port as nat)
                + " 上已在运行的 dsh 服务（外部启动，Launcher 不会停止它）"@
            &&& then.logs == state.logs.push(
                "[launcher] 检测到端口已有 Web 服务在运行，直接沿用外部 dsh"@,
            )
            &&& then.child == state.child && then.url == state.url && then.generation
                == state.generation && then.busy == state.busy
        }),
{
}

/// An external service that is gone leaves a state in which a start is let through.
pub proof fn law_what_a_lost_external_service_changes<C>(state: RuntimeView<C>)
    ensures
        ({
            let then = after(state, Event::ExternalGone { generation: state.generation });
            &&& then.phase == Phase::Stopped
            &&& !then.external
            &&& then.message == "外部 dsh 服务已停止，可以在这里重新启动"@
            &&& then.child == state.child && then.pid == state.pid && then.url == state.url
                && then.logs == state.logs && then.generation == state.generation && then.busy
                == state.busy
        }),
{
}

/// A process that is registered is the one in the state, with its number; the start goes on.
pub proof fn law_what_registering_a_process_changes<C>(state: RuntimeView<C>, child: C, pid: u32)
    ensures
        ({
            let then = after(
                state,
                Event::Register { generation: state.generation, child, pid },
            );
            &&& then.child == Some(child)
            &&& then.pid == Some(pid)
            &&& then.message == "等待 "@ + state.url + " 响应…"@
            &&& then.phase == state.phase && then.external == state.external && then.url == state.url
                && then.logs == state.logs && then.generation == state.generation && then.busy
                == state.busy
        }),
{
}

/// A stop takes the process out of the state and is under way while there is one; without one it
/// is over at once. The log and the address stay.
pub proof fn law_what_a_stop_changes<C>(state: RuntimeView<C>)
    requires
        state.generation < u64::MAX,
    ensures
        ({
            let then = after(state, Event::Stop);
            &&& then.generation == state.generation + 1
            &&& then.child is None
            &&& then.pid is None
            &&& state.child is Some ==> then.phase == Phase::Stopping && then.message
                == "正在停止 dsh…"@ && then.external == state.external
            &&& state.child is None ==> then.phase == Phase::Stopped && !then.external
            &&& state.child is None && !state.external ==> then.message == "dsh 尚未启动"@
            &&& state.child is None && state.external ==> then.message
                == "已断开与外部 dsh 服务的连接（该服务仍在运行）"@
            &&& then.url == state.url && then.logs == state.logs && then.busy == state.busy
                && then.log_ticks == state.log_ticks
        }),
{
}

/// The end of a stop and the failure of a start set the phase and the message, and nothing else.
pub proof fn law_what_an_end_changes<C>(
    state: RuntimeView<C>,
    generation: u64,
    begun: Option<u64>,
    message: Seq<char>,
)
    ensures
        after(state, Event::Stopped { generation }) == (RuntimeView {
            phase: Phase::Stopped,
            message: "dsh 已停止"@,
            ..state
        }),
        after(state, Event::Fail { begun, message }) == (RuntimeView {
            phase: Phase::Failed,
            message,
            ..state
        }),
        after(state, Event::ClearLog) == (RuntimeView { logs: Seq::empty(), ..state }),
{
}

/// Whose failure it is: that of a start that has begun exactly while no other start or stop has
/// come, and that of one that was refused exactly while nothing runs, starts or stops.
pub proof fn law_whose_failure_it_is<C>(state: RuntimeView<C>, generation: u64)
    ensures
        state.concerned(Some(generation)) <==> state.generation == generation,
        state.concerned(None) <==> state.phase == Phase::Stopped || state.phase == Phase::Failed,
{
}

/// A line is noted in the log of the start that wrote it: at the end, with where it came from in
/// brackets in front, the oldest of 400 lines giving way. It counts as output.
pub proof fn law_a_line_is_noted<C>(state: RuntimeView<C>, source: Seq<char>, line: Seq<char>, at: int)
    requires
        state.logs.len() <= 400,
    ensures
        ({
            let then = after(
                state,
                Event::Log { generation: state.generation, source, line },
            );
            let last = then.logs.last();
            &&& last.len() == source.len() + line.len() + 3
            &&& last[0] == '['
            &&& last.subrange(1, source.len() as int + 1) == source
            &&& last[source.len() as int + 1] == ']'
            &&& last[source.len() as int + 2] == ' '
            &&& last.skip(source.len() as int + 3) == line
            &&& state.logs.len() < 400 ==> then.logs.len() == state.logs.len() + 1
                && then.logs.drop_last() == state.logs
            &&& state.logs.len() == 400 ==> then.logs.len() == 400 && then.logs.drop_last()
                == state.logs.drop_first()
            &&& then.log_ticks != state.log_ticks
            &&& then.phase == state.phase && then.child == state.child && then.message
                == state.message && then.generation == state.generation && then.url == state.url
        }),
{
    let then = after(state, Event::Log { generation: state.generation, source, line });
    let entry = state::log_line(source, line);
    reveal_strlit("[");
    reveal_strlit("] ");
    assert(entry.subrange(1, source.len() as int + 1) =~= source);
    assert(entry.skip(source.len() as int + 3) =~= line);
    if state.logs.len() == 400 {
        assert(then.logs.drop_last() =~= state.logs.drop_first());
    } else {
        assert(then.logs.drop_last() =~= state.logs);
    }
}

/// The windows are told what the state is, in every part.
pub proof fn law_the_windows_are_told_the_state<C>(state: RuntimeView<C>)
    ensures
        state.status().phase == state.phase,
        state.status().message == state.message,
        state.status().url == state.url,
        state.status().pid == state.pid,
        state.status().external == state.external,
        state.status().logs == state.logs,
        state.status().busy == state.busy,
        RuntimeView::<C>::initial().phase == Phase::Stopped,
        RuntimeView::<C>::initial().logs.len() == 0,
        RuntimeView::<C>::initial().busy is None,
        RuntimeView::<C>::initial().generation == 0,
{
}

/// The refusal of a start names what is under way, and that the service comes back by itself.
pub proof fn law_a_refused_start_says_why(label: Seq<char>)
    ensures
        state::ops_complaint(Some(label)) == label + "，完成后会自动恢复服务；请等待操作结束"@,
        state::ops_complaint(None) == "有插件或更新操作正在进行"@
            + "，完成后会自动恢复服务；请等待操作结束"@,
{
}

/// A taken port is asked for a web page, a web service on it is used, and any other owner is given
/// ten tries with a fifth of a second between them.
pub proof fn law_a_taken_port_gets_ten_tries(taken: u32, port: u16)
    ensures
        service::port_step(PortStage::Probe, PortEvent::Tried { free: true }, port) == (
            PortStage::Settled,
            PortActionView::Launch,
        ),
        service::port_step(PortStage::Probe, PortEvent::Tried { free: false }, port) == (
            PortStage::Ask,
            PortActionView::Ask,
        ),
        service::port_step(PortStage::Ask, PortEvent::Asked { alive: true }, port) == (
            PortStage::Settled,
            PortActionView::Attach,
        ),
        service::port_step(PortStage::Ask, PortEvent::Asked { alive: false }, port) == (
            PortStage::Wait { taken: 0 },
            PortActionView::Try { after_millis: 0 },
        ),
        service::port_step(PortStage::Wait { taken }, PortEvent::Tried { free: true }, port) == (
            PortStage::Settled,
            PortActionView::Launch,
        ),
        taken < 9 ==> service::port_step(
            PortStage::Wait { taken },
            PortEvent::Tried { free: false },
            port,
        ) == (
            PortStage::Wait { taken: (taken + 1) as u32 },
            PortActionView::Try { after_millis: 200 },
        ),
        taken == 9 ==> service::port_step(
            PortStage::Wait { taken },
            PortEvent::Tried { free: false },
            port,
        ) == (
            PortStage::Settled,
            PortActionView::Refuse {
                after_millis: 200,
                message: "端口 "@ + text::decimal(port as nat)
                    + " 已被占用，且占用者不像一个可用的 Web 服务。请结束占用进程，或在“管理”里换一个端口。"@,
            },
        ),
{
}

/// The watch over an external service looks at its port until it has failed three times in a row,
/// with nine tenths of a second between, and only then gives it up.
pub proof fn law_how_an_external_service_is_watched<C>(monitor: ExternalMonitor, state: RuntimeView<C>)
    requires
        state.generation == monitor.generation,
        monitor.failures < 3,
    ensures
        monitor.after(state, ExternalEvent::Woke) == (monitor, state, ExternalAction::Probe),
        monitor.after(state, ExternalEvent::Probed { connected: true }) == (
            ExternalMonitor { failures: 0, ..monitor },
            state,
            ExternalAction::Sleep { millis: 900 },
        ),
        monitor.failures < 2 ==> monitor.after(state, ExternalEvent::Probed { connected: false }) == (
            ExternalMonitor { failures: (monitor.failures + 1) as u32, ..monitor },
            state,
            ExternalAction::Sleep { millis: 900 },
        ),
        monitor.failures == 2 ==> ({
            let (next, then, action) = monitor.after(
                state,
                ExternalEvent::Probed { connected: false },
            );
            &&& action == (ExternalAction::Quit { tell: true })
            &&& then.phase == Phase::Stopped
            &&& !then.external
            &&& then.child == state.child
        }),
{
}

/// A change interrupts the service exactly where it runs and is the launcher's own.
pub proof fn law_what_a_change_interrupts<C>(state: RuntimeView<C>)
    ensures
        state.phase == Phase::Ready && !state.external ==> service::change_steps(state) == seq![
            MaintenanceStep::Stop,
            MaintenanceStep::Run,
            MaintenanceStep::Start,
        ],
        state.phase != Phase::Ready || state.external ==> service::change_steps(state) == seq![
            MaintenanceStep::Run,
        ],
{
}

/// A watch begins with a process that has not answered and has not written anything, and its time
/// of silence counts from the start.
pub proof fn law_how_a_watch_begins(generation: u64, port: u16, timeout: u64)
    ensures
        ({
            let monitor = Monitor::beginning(generation, port, timeout);
            &&& monitor.generation == generation && monitor.port == port && monitor.timeout == timeout
            &&& !monitor.ready && !monitor.hinted
            &&& monitor.seen_ticks == 0 && monitor.last_active == 0
            &&& monitor.pause() == 250
            &&& (Monitor { ready: true, ..monitor }).pause() == 800
        }),
{
}

/// Before anything happens the service is stopped: there is no process and no line in the log, nothing
/// has been started, and the page would be on the usual port.
pub proof fn law_how_everything_begins<C>()
    ensures
        ({
            let state = RuntimeView::<C>::initial();
            &&& state.phase == Phase::Stopped && state.message == "dsh 尚未启动"@
            &&& state.url == "http://127.0.0.1:3080"@
            &&& state.child is None && state.pid is None && !state.external
            &&& state.logs.len() == 0 && state.log_ticks == 0
            &&& state.generation == 0 && state.busy is None
        }),
        state::lock_complaint() == "启动器状态锁已损坏"@,
{
}

} // verus!
