//! The Windows service: how it is defined, what its status report says, how
//! it answers control requests, and the decisions of running it and of
//! waiting for it to stop.
use vstd::prelude::*;
use vstd::string::*;

use crate::text::string_views;

verus! {

/// States of a Windows service.
#[derive(PartialEq, Eq, Structural, Clone, Copy)]
pub enum ServiceState {
    Stopped,
    StartPending,
    StopPending,
    Running,
    ContinuePending,
    PausePending,
    Paused,
}

/// Start types of a Windows service.
#[derive(PartialEq, Eq, Structural, Clone, Copy)]
pub enum StartType {
    AutoStart,
    BootStart,
    Disabled,
    OnDemand,
    SystemStart,
}

/// The control requests a service accepts.
#[derive(PartialEq, Eq, Structural, Clone, Copy)]
pub struct ControlsAccepted {
    pub stop: bool,
    pub pause_continue: bool,
}

/// The exit code a service reports.
#[derive(PartialEq, Eq, Structural, Clone, Copy)]
pub enum ExitCode {
    Win32(u32),
    ServiceSpecific(u32),
}

/// A status report of a service.
#[derive(PartialEq, Eq, Structural, Clone, Copy)]
pub struct ServiceStatus {
    pub current_state: ServiceState,
    pub controls_accepted: ControlsAccepted,
    pub exit_code: ExitCode,
    pub checkpoint: u32,
    pub wait_hint_millis: u64,
    pub process_id: Option<u32>,
}

/// The configuration of a service, as far as its report shows it.
pub struct ServiceConfig {
    pub display_name: String,
    pub start_type: StartType,
}

/// How a service is registered.
pub struct ServiceDefinition {
    pub name: String,
    pub display_name: String,
    pub launch_arguments: Vec<String>,
    pub start_type: StartType,
    pub description: String,
}

/// Name under which the service is registered.
pub open spec fn service_name_spec() -> Seq<char> {
    "Okey Service"@
}

/// Name under which the service is registered.
pub fn service_name() -> (name: &'static str)
    ensures
        name@ == service_name_spec(),
{
    "Okey Service"
}

/// The text of a service state.
pub open spec fn state_text(state: ServiceState) -> Seq<char> {
    match state {
        ServiceState::Stopped => "\u{274C} stopped"@,
        ServiceState::StartPending => "starting"@,
        ServiceState::StopPending => "stopping"@,
        ServiceState::Running => "\u{1F7E2} running"@,
        ServiceState::ContinuePending => "continuing"@,
        ServiceState::PausePending => "pausing"@,
        ServiceState::Paused => "paused"@,
    }
}

/// The text of a start type.
pub open spec fn start_type_text(start_type: StartType) -> Seq<char> {
    match start_type {
        StartType::AutoStart => "automatic"@,
        StartType::BootStart => "boot"@,
        StartType::Disabled => "disabled"@,
        StartType::OnDemand => "on demand"@,
        StartType::SystemStart => "system"@,
    }
}

/// The text that describes the state of a status.
pub fn service_status_description(status: &ServiceStatus) -> (r: &'static str)
    ensures
        r@ == state_text(status.current_state),
{
    match status.current_state {
        ServiceState::Stopped => "\u{274C} stopped",
        ServiceState::StartPending => "starting",
        ServiceState::StopPending => "stopping",
        ServiceState::Running => "\u{1F7E2} running",
        ServiceState::ContinuePending => "continuing",
        ServiceState::PausePending => "pausing",
        ServiceState::Paused => "paused",
    }
}

/// The text that describes the start type of a configuration.
pub fn service_start_type(config: &ServiceConfig) -> (r: &'static str)
    ensures
        r@ == start_type_text(config.start_type),
{
    match config.start_type {
        StartType::AutoStart => "automatic",
        StartType::BootStart => "boot",
        StartType::Disabled => "disabled",
        StartType::OnDemand => "on demand",
        StartType::SystemStart => "system",
    }
}

/// The lines of the status report of the service.
pub open spec fn status_report(status: ServiceStatus, display_name: Seq<char>, start_type: StartType) -> Seq<Seq<char>> {
    seq![
        "Service : "@ + service_name_spec(),
        "Display name : "@ + display_name,
        "State : "@ + state_text(status.current_state),
        "Start type : "@ + start_type_text(start_type),
    ]
}

fn labelled(label: &str, value: &str) -> (s: String)
    ensures
        s@ == label@ + value@,
{
    let mut s = String::from_str(label);
    s.append(value);
    s
}

/// The lines that the status command prints.
pub fn status_lines(status: &ServiceStatus, config: &ServiceConfig) -> (lines: Vec<String>)
    ensures
        string_views(lines@) == status_report(*status, config.display_name@, config.start_type),
{
    let mut lines: Vec<String> = Vec::new();
    lines.push(labelled("Service : ", service_name()));
    lines.push(labelled("Display name : ", config.display_name.as_str()));
    lines.push(labelled("State : ", service_status_description(status)));
    lines.push(labelled("Start type : ", service_start_type(config)));
    assert(string_views(lines@) =~= status_report(*status, config.display_name@, config.start_type));
    lines
}

/// The display name the service is registered with.
pub open spec fn definition_display_name() -> Seq<char> {
    "Okey Service"@
}

/// The start type the service is registered with: on demand.
pub open spec fn definition_start_type() -> StartType {
    StartType::OnDemand
}

/// How the service is registered: under its name and display name, started
/// on demand, launched with the arguments `service execute`.
pub fn service_definition() -> (d: ServiceDefinition)
    ensures
        d.name@ == service_name_spec(),
        d.display_name@ == definition_display_name(),
        string_views(d.launch_arguments@) == seq!["service"@, "execute"@],
        d.start_type == definition_start_type(),
        d.description@ == "An advanced ready to use key remapper written in Rust."@,
{
    let mut launch_arguments: Vec<String> = Vec::new();
    launch_arguments.push(String::from_str("service"));
    launch_arguments.push(String::from_str("execute"));
    assert(string_views(launch_arguments@) =~= seq!["service"@, "execute"@]);
    ServiceDefinition {
        name: String::from_str(service_name()),
        display_name: String::from_str("Okey Service"),
        launch_arguments,
        start_type: StartType::OnDemand,
        description: String::from_str("An advanced ready to use key remapper written in Rust."),
    }
}

// ---------------------------------------------------------------------------
// Answering control requests
// ---------------------------------------------------------------------------

/// Control requests sent to the service.
#[derive(PartialEq, Eq, Structural, Clone, Copy)]
pub enum ControlRequest {
    Stop,
    Interrogate,
    /// Any other request.
    Other,
}

/// Answers of the control handler.
#[derive(PartialEq, Eq, Structural, Clone, Copy)]
pub enum ControlReply {
    NoError,
    NotImplemented,
}

/// How the service answers a control request: a stop request is answered
/// and signals the service to stop, an interrogation is answered, anything
/// else is not implemented.
pub fn handle_control(request: ControlRequest) -> (r: (ControlReply, bool))
    ensures
        r.1 == (request == ControlRequest::Stop),
        r.0 == (if request == ControlRequest::Other {
            ControlReply::NotImplemented
        } else {
            ControlReply::NoError
        }),
{
    match request {
        ControlRequest::Stop => (ControlReply::NoError, true),
        ControlRequest::Interrogate => (ControlReply::NoError, false),
        ControlRequest::Other => (ControlReply::NotImplemented, false),
    }
}

// ---------------------------------------------------------------------------
// Running the service
// ---------------------------------------------------------------------------

/// The status reported once the user process runs: running, accepting stop
/// and pause/continue, exit code 0.
pub open spec fn running_status_spec() -> ServiceStatus {
    ServiceStatus {
        current_state: ServiceState::Running,
        controls_accepted: ControlsAccepted { stop: true, pause_continue: true },
        exit_code: ExitCode::Win32(0),
        checkpoint: 0,
        wait_hint_millis: 0,
        process_id: None,
    }
}

/// The status reported once the user process is terminated: the running
/// status, stopped and accepting nothing.
pub open spec fn stopped_status_spec() -> ServiceStatus {
    ServiceStatus {
        current_state: ServiceState::Stopped,
        controls_accepted: ControlsAccepted { stop: false, pause_continue: false },
        ..running_status_spec()
    }
}

/// Where a run of the service stands: which step it waits for.
#[derive(PartialEq, Eq, Structural, Clone, Copy)]
pub enum ServiceRunPhase {
    Registering,
    Spawning,
    ReportingRunning,
    AwaitingStop,
    Terminating,
    ReportingStopped,
    Done,
}

/// The next thing a run of the service does.
#[derive(PartialEq, Eq, Structural, Clone, Copy)]
pub enum ServiceRunAction {
    /// Register the control handler.
    RegisterControlHandler,
    /// Start `okey start` in the active user session.
    SpawnUserProcess,
    /// Report this status.
    SetStatus(ServiceStatus),
    /// Wait until the control handler signals a stop.
    AwaitStopSignal,
    /// Terminate the user process.
    TerminateUserProcess,
    /// The run is over and succeeded.
    Finish,
    /// The last step failed: the run ends with its error.
    Fail,
}

/// One step of a run: the phase and action after the step of `phase`
/// succeeded (`ok`) or failed.
pub open spec fn run_step(phase: ServiceRunPhase, ok: bool) -> (ServiceRunPhase, ServiceRunAction) {
    if !ok || phase == ServiceRunPhase::Done {
        (ServiceRunPhase::Done, ServiceRunAction::Fail)
    } else {
        match phase {
            ServiceRunPhase::Registering => (ServiceRunPhase::Spawning, ServiceRunAction::SpawnUserProcess),
            ServiceRunPhase::Spawning => (
                ServiceRunPhase::ReportingRunning,
                ServiceRunAction::SetStatus(running_status_spec()),
            ),
            ServiceRunPhase::ReportingRunning => (ServiceRunPhase::AwaitingStop, ServiceRunAction::AwaitStopSignal),
            ServiceRunPhase::AwaitingStop => (ServiceRunPhase::Terminating, ServiceRunAction::TerminateUserProcess),
            ServiceRunPhase::Terminating => (
                ServiceRunPhase::ReportingStopped,
                ServiceRunAction::SetStatus(stopped_status_spec()),
            ),
            _ => (ServiceRunPhase::Done, ServiceRunAction::Finish),
        }
    }
}

/// A run of the service.
pub struct ServiceRun {
    phase: ServiceRunPhase,
}

fn running_status() -> (s: ServiceStatus)
    ensures
        s == running_status_spec(),
{
    ServiceStatus {
        current_state: ServiceState::Running,
        controls_accepted: ControlsAccepted { stop: true, pause_continue: true },
        exit_code: ExitCode::Win32(0),
        checkpoint: 0,
        wait_hint_millis: 0,
        process_id: None,
    }
}

fn stopped_status() -> (s: ServiceStatus)
    ensures
        s == stopped_status_spec(),
{
    let mut s = running_status();
    s.current_state = ServiceState::Stopped;
    s.controls_accepted = ControlsAccepted { stop: false, pause_continue: false };
    s
}

impl ServiceRun {
    /// The current phase.
    pub closed spec fn phase(&self) -> ServiceRunPhase {
        self.phase
    }

    /// Starts a run; its first action is returned beside it.
    pub fn new() -> (r: (Self, ServiceRunAction))
        ensures
            r.0.phase() == ServiceRunPhase::Registering,
            r.1 == ServiceRunAction::RegisterControlHandler,
    {
        (ServiceRun { phase: ServiceRunPhase::Registering }, ServiceRunAction::RegisterControlHandler)
    }

    /// Hands the run whether its last action succeeded and gets the next one.
    pub fn step(&mut self, ok: bool) -> (action: ServiceRunAction)
        ensures
            (final(self).phase(), action) == run_step(old(self).phase(), ok),
    {
        let (next, action) = if !ok {
            (ServiceRunPhase::Done, ServiceRunAction::Fail)
        } else {
            match self.phase {
                ServiceRunPhase::Registering => (ServiceRunPhase::Spawning, ServiceRunAction::SpawnUserProcess),
                ServiceRunPhase::Spawning => (
                    ServiceRunPhase::ReportingRunning,
                    ServiceRunAction::SetStatus(running_status()),
                ),
                ServiceRunPhase::ReportingRunning => (
                    ServiceRunPhase::AwaitingStop,
                    ServiceRunAction::AwaitStopSignal,
                ),
                ServiceRunPhase::AwaitingStop => (
                    ServiceRunPhase::Terminating,
                    ServiceRunAction::TerminateUserProcess,
                ),
                ServiceRunPhase::Terminating => (
                    ServiceRunPhase::ReportingStopped,
                    ServiceRunAction::SetStatus(stopped_status()),
                ),
                ServiceRunPhase::ReportingStopped => (ServiceRunPhase::Done, ServiceRunAction::Finish),
                ServiceRunPhase::Done => (ServiceRunPhase::Done, ServiceRunAction::Fail),
            }
        };
        self.phase = next;
        action
    }
}

/// The phase a run reaches from `Registering` after the outcomes `oks`.
pub open spec fn run_phase_after(oks: Seq<bool>) -> ServiceRunPhase
    decreases oks.len(),
{
    if oks.len() == 0 {
        ServiceRunPhase::Registering
    } else {
        run_step(run_phase_after(oks.drop_last()), oks.last()).0
    }
}

/// The action a run takes after the outcomes `oks`.
pub open spec fn run_action_after(oks: Seq<bool>) -> ServiceRunAction {
    if oks.len() == 0 {
        ServiceRunAction::RegisterControlHandler
    } else {
        run_step(run_phase_after(oks.drop_last()), oks.last()).1
    }
}

/// The position of each live phase in the order of a run.
pub open spec fn phase_rank(p: ServiceRunPhase) -> nat {
    match p {
        ServiceRunPhase::Registering => 0,
        ServiceRunPhase::Spawning => 1,
        ServiceRunPhase::ReportingRunning => 2,
        ServiceRunPhase::AwaitingStop => 3,
        ServiceRunPhase::Terminating => 4,
        ServiceRunPhase::ReportingStopped => 5,
        ServiceRunPhase::Done => 6,
    }
}

/// A run is in a live phase exactly when every step so far succeeded, and
/// then it is at the step given by their number: so the stopped status is
/// reported only after the running status was reported, a stop signal
/// arrived and the user process was terminated, and the run finishes
/// successfully only after all six steps succeeded.
pub proof fn law_run_steps_in_order(oks: Seq<bool>)
    ensures
        run_phase_after(oks) != ServiceRunPhase::Done <==> (oks.len() <= 5 && forall|i: int|
            0 <= i < oks.len() ==> #[trigger] oks[i]),
        run_phase_after(oks) != ServiceRunPhase::Done ==> phase_rank(run_phase_after(oks))
            == oks.len(),
        run_action_after(oks) == ServiceRunAction::SetStatus(stopped_status_spec()) ==> (oks.len()
            == 5 && forall|i: int| 0 <= i < oks.len() ==> #[trigger] oks[i]),
        run_action_after(oks) == ServiceRunAction::Finish ==> (oks.len() == 6 && forall|i: int|
            0 <= i < oks.len() ==> #[trigger] oks[i]),
    decreases oks.len(),
{
    if oks.len() > 0 {
        let prev = oks.drop_last();
        law_run_steps_in_order(prev);
        assert(forall|i: int| 0 <= i < prev.len() ==> prev[i] == oks[i]);
        if run_phase_after(oks) != ServiceRunPhase::Done {
            assert(oks[oks.len() - 1]);
        }
        if !(forall|i: int| 0 <= i < prev.len() ==> #[trigger] prev[i]) {
            let k = choose|k: int| 0 <= k < prev.len() && !prev[k];
            assert(!oks[k]);
        }
        if !oks.last() {
            assert(!oks[oks.len() - 1]);
        }
    }
}

// ---------------------------------------------------------------------------
// Waiting for the service to stop
// ---------------------------------------------------------------------------

/// Time to wait for the service to stop before giving up, in seconds.
pub const STOP_TIMEOUT_SECS: u64 = 30u64;

/// Pause between two status queries while waiting, in milliseconds.
pub const POLL_INTERVAL_MILLIS: u64 = 500u64;

/// Where a wait for the service to stop stands.
#[derive(PartialEq, Eq, Structural, Clone, Copy)]
pub enum StopWaitPhase {
    QueryingStatus,
    RequestingStop,
    Polling,
    Done,
}

/// What the service answered.
#[derive(PartialEq, Eq, Structural, Clone, Copy)]
pub enum StopWaitEvent {
    /// The first status query: the state, or `None` when the query failed.
    Status(Option<ServiceState>),
    /// Whether the stop request succeeded.
    StopRequested(bool),
    /// A status query while waiting (`None` when it failed) and the time
    /// since the wait began, in nanoseconds.
    Polled(Option<ServiceState>, u128),
}

/// The next thing a wait does.
#[derive(PartialEq, Eq, Structural, Clone, Copy)]
pub enum StopWaitAction {
    /// Query the status of the service.
    QueryStatus,
    /// Ask the service to stop.
    RequestStop,
    /// Start the clock and query the status.
    StartClockAndPoll,
    /// Sleep for the poll interval and query the status again.
    SleepAndPoll,
    /// The wait is over with this answer.
    Finish(bool),
    /// The wait took too long: say so and answer `false`.
    GiveUp,
    /// The last status query failed: the wait ends with its error.
    Fail,
}

/// Whether a phase waits for this kind of answer.
pub open spec fn stop_wait_accepts(phase: StopWaitPhase, ev: StopWaitEvent) -> bool {
    match phase {
        StopWaitPhase::QueryingStatus => ev is Status,
        StopWaitPhase::RequestingStop => ev is StopRequested,
        StopWaitPhase::Polling => ev is Polled,
        StopWaitPhase::Done => false,
    }
}

/// One step of a wait with the given timeout.
pub open spec fn stop_wait_step(timeout_nanos: u128, phase: StopWaitPhase, ev: StopWaitEvent) -> (
    StopWaitPhase,
    StopWaitAction,
) {
    match (phase, ev) {
        (StopWaitPhase::QueryingStatus, StopWaitEvent::Status(s)) => match s {
            Some(state) => if state == ServiceState::Stopped {
                (StopWaitPhase::Done, StopWaitAction::Finish(true))
            } else {
                (StopWaitPhase::RequestingStop, StopWaitAction::RequestStop)
            },
            None => (StopWaitPhase::Done, StopWaitAction::Finish(true)),
        },
        (StopWaitPhase::RequestingStop, StopWaitEvent::StopRequested(ok)) => if ok {
            (StopWaitPhase::Polling, StopWaitAction::StartClockAndPoll)
        } else {
            (StopWaitPhase::Done, StopWaitAction::Finish(true))
        },
        (StopWaitPhase::Polling, StopWaitEvent::Polled(s, elapsed)) => match s {
            None => (StopWaitPhase::Done, StopWaitAction::Fail),
            Some(state) => if state == ServiceState::Stopped {
                (StopWaitPhase::Done, StopWaitAction::Finish(true))
            } else if elapsed > timeout_nanos {
                (StopWaitPhase::Done, StopWaitAction::GiveUp)
            } else {
                (StopWaitPhase::Polling, StopWaitAction::SleepAndPoll)
            },
        },
        _ => (phase, StopWaitAction::Fail),
    }
}

/// A wait for the service to stop: if it runs, it is asked to stop and its
/// status is polled until it has stopped or the timeout has passed.
pub struct StopWait {
    timeout_nanos: u128,
    phase: StopWaitPhase,
}

impl StopWait {
    /// The timeout, in nanoseconds.
    pub closed spec fn timeout(&self) -> u128 {
        self.timeout_nanos
    }

    /// The current phase.
    pub closed spec fn phase(&self) -> StopWaitPhase {
        self.phase
    }

    /// Starts a wait with the given timeout; its first action is returned
    /// beside it.
    pub fn new(timeout_nanos: u128) -> (r: (Self, StopWaitAction))
        ensures
            r.0.timeout() == timeout_nanos,
            r.0.phase() == StopWaitPhase::QueryingStatus,
            r.1 == StopWaitAction::QueryStatus,
    {
        (StopWait { timeout_nanos, phase: StopWaitPhase::QueryingStatus }, StopWaitAction::QueryStatus)
    }

    /// Hands the wait the answer to its last action and gets the next one.
    pub fn step(&mut self, event: StopWaitEvent) -> (action: StopWaitAction)
        requires
            stop_wait_accepts(old(self).phase(), event),
        ensures
            (final(self).phase(), action) == stop_wait_step(old(self).timeout(), old(self).phase(), event),
            final(self).timeout() == old(self).timeout(),
    {
        let (next, action) = match (self.phase, event) {
            (StopWaitPhase::QueryingStatus, StopWaitEvent::Status(s)) => match s {
                Some(state) => if state == ServiceState::Stopped {
                    (StopWaitPhase::Done, StopWaitAction::Finish(true))
                } else {
                    (StopWaitPhase::RequestingStop, StopWaitAction::RequestStop)
                },
                None => (StopWaitPhase::Done, StopWaitAction::Finish(true)),
            },
            (StopWaitPhase::RequestingStop, StopWaitEvent::StopRequested(ok)) => if ok {
                (StopWaitPhase::Polling, StopWaitAction::StartClockAndPoll)
            } else {
                (StopWaitPhase::Done, StopWaitAction::Finish(true))
            },
            (StopWaitPhase::Polling, StopWaitEvent::Polled(s, elapsed)) => match s {
                None => (StopWaitPhase::Done, StopWaitAction::Fail),
                Some(state) => if state == ServiceState::Stopped {
                    (StopWaitPhase::Done, StopWaitAction::Finish(true))
                } else if elapsed > self.timeout_nanos {
                    (StopWaitPhase::Done, StopWaitAction::GiveUp)
                } else {
                    (StopWaitPhase::Polling, StopWaitAction::SleepAndPoll)
                },
            },
            (phase, _) => (phase, StopWaitAction::Fail),
        };
        self.phase = next;
        action
    }
}

/// The phase and last action of a wait after the answers `evs`.
pub open spec fn stop_wait_run(timeout_nanos: u128, evs: Seq<StopWaitEvent>) -> (StopWaitPhase, StopWaitAction)
    decreases evs.len(),
{
    if evs.len() == 0 {
        (StopWaitPhase::QueryingStatus, StopWaitAction::QueryStatus)
    } else {
        stop_wait_step(timeout_nanos, stop_wait_run(timeout_nanos, evs.drop_last()).0, evs.last())
    }
}

/// A wait asks the service to stop only after seeing it in a state other
/// than stopped, and it polls only after its stop request succeeded.
pub proof fn law_stop_requested_only_when_running(timeout_nanos: u128, evs: Seq<StopWaitEvent>)
    ensures
        stop_wait_run(timeout_nanos, evs).0 == StopWaitPhase::RequestingStop ==> exists|j: int|
            0 <= j < evs.len() && (#[trigger] evs[j] matches StopWaitEvent::Status(Some(s)) && s
                != ServiceState::Stopped),
        stop_wait_run(timeout_nanos, evs).0 == StopWaitPhase::Polling ==> exists|j: int|
            0 <= j < evs.len() && #[trigger] evs[j] == StopWaitEvent::StopRequested(true),
    decreases evs.len(),
{
    if evs.len() > 0 {
        let prev = evs.drop_last();
        law_stop_requested_only_when_running(timeout_nanos, prev);
        let p = stop_wait_run(timeout_nanos, prev).0;
        assert(evs[evs.len() - 1] == evs.last());
        if p == StopWaitPhase::RequestingStop {
            let j = choose|j: int|
                0 <= j < prev.len() && (#[trigger] prev[j] matches StopWaitEvent::Status(Some(s))
                    && s != ServiceState::Stopped);
            assert(evs[j] == prev[j]);
        }
        if p == StopWaitPhase::Polling {
            let j = choose|j: int| 0 <= j < prev.len() && #[trigger] prev[j] == StopWaitEvent::StopRequested(true);
            assert(evs[j] == prev[j]);
        }
    }
}

/// A wait gives up only on a poll that found the service not stopped after
/// more than the timeout, and answers `true` from polling only on a poll
/// that found it stopped.
pub proof fn law_give_up_only_after_timeout(timeout_nanos: u128, phase: StopWaitPhase, ev: StopWaitEvent)
    ensures
        stop_wait_step(timeout_nanos, phase, ev).1 == StopWaitAction::GiveUp ==> (phase
            == StopWaitPhase::Polling && (ev matches StopWaitEvent::Polled(Some(s), elapsed) && s
            != ServiceState::Stopped && elapsed > timeout_nanos)),
        phase == StopWaitPhase::Polling && stop_wait_step(timeout_nanos, phase, ev).1
            == StopWaitAction::Finish(true) ==> ev matches StopWaitEvent::Polled(
            Some(ServiceState::Stopped),
            _,
        ),
{
}


/// The number of polls among the answers `evs`.
pub open spec fn poll_count(evs: Seq<StopWaitEvent>) -> nat
    decreases evs.len(),
{
    if evs.len() == 0 {
        0
    } else {
        poll_count(evs.drop_last()) + if evs.last() is Polled {
            1nat
        } else {
            0nat
        }
    }
}

/// Every answer of `evs` is of the kind the wait waits for at that point.
pub open spec fn stop_wait_accepted(timeout_nanos: u128, evs: Seq<StopWaitEvent>) -> bool {
    forall|k: int|
        0 <= k < evs.len() ==> #[trigger] stop_wait_accepts(
            stop_wait_run(timeout_nanos, evs.take(k)).0,
            evs[k],
        )
}

/// The `p`-th poll (counting from zero) comes at least `p` intervals after
/// the wait began, as sleeping one interval between polls makes it.
pub open spec fn polls_spaced(evs: Seq<StopWaitEvent>, interval_nanos: u128) -> bool {
    forall|k: int|
        0 <= k < evs.len() ==> (#[trigger] evs[k] matches StopWaitEvent::Polled(_, elapsed) ==> elapsed
            >= poll_count(evs.take(k)) * interval_nanos)
}

proof fn lemma_past_timeout(timeout_nanos: u128, interval_nanos: u128)
    requires
        interval_nanos > 0,
    ensures
        (timeout_nanos / interval_nanos + 1) * interval_nanos > timeout_nanos,
{
    let t = timeout_nanos as int;
    let i = interval_nanos as int;
    assert((t / i + 1) * i > t) by (nonlinear_arith)
        requires
            i > 0,
            t >= 0,
    ;
}

proof fn lemma_poll_count_bound(timeout_nanos: u128, interval_nanos: u128, evs: Seq<StopWaitEvent>)
    requires
        interval_nanos > 0,
        stop_wait_accepted(timeout_nanos, evs),
        polls_spaced(evs, interval_nanos),
    ensures
        poll_count(evs) <= timeout_nanos / interval_nanos + 2,
        stop_wait_run(timeout_nanos, evs).0 == StopWaitPhase::Polling ==> poll_count(evs)
            <= timeout_nanos / interval_nanos + 1,
        stop_wait_run(timeout_nanos, evs).0 != StopWaitPhase::Polling && stop_wait_run(
            timeout_nanos,
            evs,
        ).0 != StopWaitPhase::Done ==> poll_count(evs) == 0,
    decreases evs.len(),
{
    if evs.len() > 0 {
        let prev = evs.drop_last();
        let k = evs.len() - 1;
        assert(evs.take(k) =~= prev);
        assert forall|j: int| 0 <= j < prev.len() implies #[trigger] stop_wait_accepts(
            stop_wait_run(timeout_nanos, prev.take(j)).0,
            prev[j],
        ) by {
            assert(prev.take(j) =~= evs.take(j));
            assert(stop_wait_accepts(stop_wait_run(timeout_nanos, evs.take(j)).0, evs[j]));
        }
        assert forall|j: int| 0 <= j < prev.len() implies (#[trigger] prev[j] matches StopWaitEvent::Polled(
            _,
            elapsed,
        ) ==> elapsed >= poll_count(prev.take(j)) * interval_nanos) by {
            assert(prev.take(j) =~= evs.take(j));
            assert(prev[j] == evs[j]);
        }
        lemma_poll_count_bound(timeout_nanos, interval_nanos, prev);
        assert(stop_wait_accepts(stop_wait_run(timeout_nanos, evs.take(k)).0, evs[k]));
        assert(evs[k] == evs.last());
        let q = timeout_nanos / interval_nanos;
        if let StopWaitEvent::Polled(state, elapsed) = evs.last() {
            let c = poll_count(prev);
            if c == q + 1 {
                assert(evs[k] matches StopWaitEvent::Polled(_, e) ==> e >= poll_count(evs.take(k))
                    * interval_nanos);
                lemma_past_timeout(timeout_nanos, interval_nanos);
                assert(elapsed as int >= (q + 1) * interval_nanos);
                assert(elapsed > timeout_nanos);
            }
        }
    }
}

/// If the wait sleeps a poll interval between its polls, it polls at most
/// `timeout / interval + 2` times, so it sleeps at most
/// `timeout / interval + 1` times before it ends: at the latest the first
/// poll past the timeout ends it.
pub proof fn law_polls_bounded_by_timeout(
    timeout_nanos: u128,
    interval_nanos: u128,
    evs: Seq<StopWaitEvent>,
)
    requires
        interval_nanos > 0,
        stop_wait_accepted(timeout_nanos, evs),
        polls_spaced(evs, interval_nanos),
    ensures
        poll_count(evs) <= timeout_nanos / interval_nanos + 2,
{
    lemma_poll_count_bound(timeout_nanos, interval_nanos, evs);
}


/// The report of a service that is stopped and configured as the service
/// definition registers it (its display name and start type) reads: the
/// service name, `Okey Service`, stopped, on demand. That the service
/// manager keeps the registered display name and start type, and that the
/// service is stopped after installation, is its part and is not stated here.
pub proof fn law_installed_service_report(status: ServiceStatus)
    requires
        status.current_state == ServiceState::Stopped,
    ensures
        status_report(status, definition_display_name(), definition_start_type()) == seq![
            "Service : Okey Service"@,
            "Display name : Okey Service"@,
            "State : \u{274C} stopped"@,
            "Start type : on demand"@,
        ],
{
    reveal_strlit("Service : ");
    reveal_strlit("Okey Service");
    reveal_strlit("Service : Okey Service");
    reveal_strlit("Display name : ");
    reveal_strlit("Display name : Okey Service");
    reveal_strlit("State : ");
    reveal_strlit("\u{274C} stopped");
    reveal_strlit("State : \u{274C} stopped");
    reveal_strlit("Start type : ");
    reveal_strlit("on demand");
    reveal_strlit("Start type : on demand");
    assert("Service : "@ + "Okey Service"@ =~= "Service : Okey Service"@);
    assert("Display name : "@ + "Okey Service"@ =~= "Display name : Okey Service"@);
    assert("State : "@ + "\u{274C} stopped"@ =~= "State : \u{274C} stopped"@);
    assert("Start type : "@ + "on demand"@ =~= "Start type : on demand"@);
}


/// The text of a start type, letter by letter distinct: its first letter
/// tells the start types apart.
proof fn lemma_start_type_texts()
    ensures
        start_type_text(StartType::AutoStart) == "automatic"@,
        start_type_text(StartType::BootStart) == "boot"@,
        start_type_text(StartType::Disabled) == "disabled"@,
        start_type_text(StartType::OnDemand) == "on demand"@,
        start_type_text(StartType::SystemStart) == "system"@,
        forall|t: StartType| #[trigger] start_type_text(t).len() > 0,
        forall|t: StartType|
            #[trigger] start_type_text(t)[0] == match t {
                StartType::AutoStart => 'a',
                StartType::BootStart => 'b',
                StartType::Disabled => 'd',
                StartType::OnDemand => 'o',
                StartType::SystemStart => 's',
            },
{
    reveal_strlit("automatic");
    reveal_strlit("boot");
    reveal_strlit("disabled");
    reveal_strlit("on demand");
    reveal_strlit("system");
}

/// The status report has four lines: the service name, the display name of
/// the configuration, the text of the current state and the text of the
/// configured start type (automatic, boot, disabled, on demand, system).
/// Different start types give different reports.
pub proof fn law_status_report_lines(
    status: ServiceStatus,
    display_name: Seq<char>,
    start_type: StartType,
    other_start_type: StartType,
)
    ensures
        status_report(status, display_name, start_type).len() == 4,
        status_report(status, display_name, start_type)[0] == "Service : "@ + "Okey Service"@,
        status_report(status, display_name, start_type)[1] == "Display name : "@ + display_name,
        status_report(status, display_name, start_type)[2] == "State : "@ + match status.current_state {
            ServiceState::Stopped => "\u{274C} stopped"@,
            ServiceState::StartPending => "starting"@,
            ServiceState::StopPending => "stopping"@,
            ServiceState::Running => "\u{1F7E2} running"@,
            ServiceState::ContinuePending => "continuing"@,
            ServiceState::PausePending => "pausing"@,
            ServiceState::Paused => "paused"@,
        },
        status_report(status, display_name, start_type)[3] == "Start type : "@ + match start_type {
            StartType::AutoStart => "automatic"@,
            StartType::BootStart => "boot"@,
            StartType::Disabled => "disabled"@,
            StartType::OnDemand => "on demand"@,
            StartType::SystemStart => "system"@,
        },
        start_type != other_start_type ==> status_report(status, display_name, start_type)[3]
            != status_report(status, display_name, other_start_type)[3],
{
    lemma_start_type_texts();
    let prefix = "Start type : "@;
    let a = status_report(status, display_name, start_type)[3];
    let b = status_report(status, display_name, other_start_type)[3];
    if start_type != other_start_type && a == b {
        assert(a.skip(prefix.len() as int) =~= start_type_text(start_type));
        assert(b.skip(prefix.len() as int) =~= start_type_text(other_start_type));
        assert(start_type_text(start_type)[0] == start_type_text(other_start_type)[0]);
    }
}

/// A run whose steps all succeed reports, after spawning the user process,
/// the running status (running, accepting stop and pause/continue, exit code
/// Win32 0, checkpoint 0, no wait hint, no process id), and, after
/// terminating the user process, that same status with only the state
/// (stopped) and the accepted controls (none) changed: a clean stop reports
/// exit code Win32 0.
pub proof fn law_clean_run_statuses()
    ensures
        run_action_after(seq![true, true]) matches ServiceRunAction::SetStatus(running) && {
            &&& running.current_state == ServiceState::Running
            &&& running.controls_accepted == ControlsAccepted { stop: true, pause_continue: true }
            &&& running.exit_code == ExitCode::Win32(0)
            &&& running.checkpoint == 0
            &&& running.wait_hint_millis == 0
            &&& running.process_id is None
            &&& run_action_after(seq![true, true, true, true, true]) matches ServiceRunAction::SetStatus(
                stopped,
            ) && {
                &&& stopped.current_state == ServiceState::Stopped
                &&& stopped.controls_accepted == ControlsAccepted {
                    stop: false,
                    pause_continue: false,
                }
                &&& stopped.exit_code == running.exit_code
                &&& stopped.checkpoint == running.checkpoint
                &&& stopped.wait_hint_millis == running.wait_hint_millis
                &&& stopped.process_id == running.process_id
            }
        },
{
    let t1 = seq![true];
    let t2 = seq![true, true];
    let t3 = seq![true, true, true];
    let t4 = seq![true, true, true, true];
    let t5 = seq![true, true, true, true, true];
    assert(t1.drop_last() =~= Seq::<bool>::empty());
    assert(run_phase_after(Seq::<bool>::empty()) == ServiceRunPhase::Registering);
    assert(t1.last() && t2.last() && t3.last() && t4.last() && t5.last());
    assert(t1.len() == 1 && t2.len() == 2 && t3.len() == 3 && t4.len() == 4 && t5.len() == 5);
    assert(t2.drop_last() =~= t1);
    assert(t3.drop_last() =~= t2);
    assert(t4.drop_last() =~= t3);
    assert(t5.drop_last() =~= t4);
    assert(run_phase_after(t1) == ServiceRunPhase::Spawning);
    assert(run_phase_after(t2) == ServiceRunPhase::ReportingRunning);
    assert(run_phase_after(t3) == ServiceRunPhase::AwaitingStop);
    assert(run_phase_after(t4) == ServiceRunPhase::Terminating);
}

/// While polling, a successful poll that finds the service in any state but
/// stopped keeps waiting (sleep, then poll again) as long as the timeout has
/// not passed; a poll that finds it stopped answers `true`; a failed poll
/// ends with its error. No step of a wait ever answers `false` by itself:
/// the only way to `false` is giving up after the timeout.
pub proof fn law_polling_continues_until_stopped_or_timeout(
    timeout_nanos: u128,
    phase: StopWaitPhase,
    ev: StopWaitEvent,
    state: ServiceState,
    elapsed: u128,
)
    ensures
        state != ServiceState::Stopped && elapsed <= timeout_nanos ==> stop_wait_step(
            timeout_nanos,
            StopWaitPhase::Polling,
            StopWaitEvent::Polled(Some(state), elapsed),
        ) == (StopWaitPhase::Polling, StopWaitAction::SleepAndPoll),
        stop_wait_step(
            timeout_nanos,
            StopWaitPhase::Polling,
            StopWaitEvent::Polled(Some(ServiceState::Stopped), elapsed),
        ) == (StopWaitPhase::Done, StopWaitAction::Finish(true)),
        stop_wait_step(timeout_nanos, StopWaitPhase::Polling, StopWaitEvent::Polled(None, elapsed))
            == (StopWaitPhase::Done, StopWaitAction::Fail),
        stop_wait_step(timeout_nanos, phase, ev).1 != StopWaitAction::Finish(false),
{
}

} // verus!
