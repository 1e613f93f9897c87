use okey::service::{
    handle_control, service_definition, service_name, service_start_type,
    service_status_description, status_lines, ControlReply, ControlRequest, ExitCode, ControlsAccepted,
    ServiceConfig, ServiceRun, ServiceRunAction, ServiceState, ServiceStatus, StartType,
    StopWait, StopWaitAction, StopWaitEvent, STOP_TIMEOUT_SECS, POLL_INTERVAL_MILLIS,
};

fn status(state: ServiceState) -> ServiceStatus {
    ServiceStatus {
        current_state: state,
        controls_accepted: ControlsAccepted { stop: true, pause_continue: false },
        exit_code: ExitCode::Win32(0),
        checkpoint: 0,
        wait_hint_millis: 0,
        process_id: None,
    }
}

#[test]
fn status_descriptions() {
    assert_eq!(service_status_description(&status(ServiceState::Stopped)), "\u{274C} stopped");
    assert_eq!(service_status_description(&status(ServiceState::Running)), "\u{1F7E2} running");
    assert_eq!(service_status_description(&status(ServiceState::StartPending)), "starting");
    assert_eq!(service_status_description(&status(ServiceState::StopPending)), "stopping");
    assert_eq!(service_status_description(&status(ServiceState::ContinuePending)), "continuing");
    assert_eq!(service_status_description(&status(ServiceState::PausePending)), "pausing");
    assert_eq!(service_status_description(&status(ServiceState::Paused)), "paused");
}

#[test]
fn start_type_texts() {
    let text = |t| service_start_type(&ServiceConfig { display_name: String::new(), start_type: t });
    assert_eq!(text(StartType::AutoStart), "automatic");
    assert_eq!(text(StartType::BootStart), "boot");
    assert_eq!(text(StartType::Disabled), "disabled");
    assert_eq!(text(StartType::OnDemand), "on demand");
    assert_eq!(text(StartType::SystemStart), "system");
}

#[test]
fn status_report_lines() {
    let config = ServiceConfig { display_name: "Okey Service".to_string(), start_type: StartType::OnDemand };
    let lines = status_lines(&status(ServiceState::Running), &config);
    assert_eq!(
        lines,
        vec![
            "Service : Okey Service",
            "Display name : Okey Service",
            "State : \u{1F7E2} running",
            "Start type : on demand",
        ]
    );
}

#[test]
fn definition_of_the_service() {
    let d = service_definition();
    assert_eq!(service_name(), "Okey Service");
    assert_eq!(d.name, "Okey Service");
    assert_eq!(d.display_name, "Okey Service");
    assert_eq!(d.launch_arguments, vec!["service", "execute"]);
    assert!(d.start_type == StartType::OnDemand);
    assert_eq!(d.description, "An advanced ready to use key remapper written in Rust.");
}

#[test]
fn control_requests() {
    assert!(handle_control(ControlRequest::Stop) == (ControlReply::NoError, true));
    assert!(handle_control(ControlRequest::Interrogate) == (ControlReply::NoError, false));
    assert!(handle_control(ControlRequest::Other) == (ControlReply::NotImplemented, false));
}

#[test]
fn service_run_in_order() {
    let (mut run, first) = ServiceRun::new();
    assert!(first == ServiceRunAction::RegisterControlHandler);
    assert!(run.step(true) == ServiceRunAction::SpawnUserProcess);
    match run.step(true) {
        ServiceRunAction::SetStatus(s) => {
            assert!(s.current_state == ServiceState::Running);
            assert!(s.controls_accepted == ControlsAccepted { stop: true, pause_continue: true });
            assert!(s.exit_code == ExitCode::Win32(0));
        },
        _ => panic!("expected the running status"),
    }
    assert!(run.step(true) == ServiceRunAction::AwaitStopSignal);
    assert!(run.step(true) == ServiceRunAction::TerminateUserProcess);
    match run.step(true) {
        ServiceRunAction::SetStatus(s) => {
            assert!(s.current_state == ServiceState::Stopped);
            assert!(s.controls_accepted == ControlsAccepted { stop: false, pause_continue: false });
        },
        _ => panic!("expected the stopped status"),
    }
    assert!(run.step(true) == ServiceRunAction::Finish);
}

#[test]
fn service_run_failure_ends_it() {
    let (mut run, _) = ServiceRun::new();
    assert!(run.step(true) == ServiceRunAction::SpawnUserProcess);
    assert!(run.step(false) == ServiceRunAction::Fail);
}

#[test]
fn stop_wait_already_stopped_or_unqueryable() {
    let (mut w, a) = StopWait::new(30);
    assert!(a == StopWaitAction::QueryStatus);
    assert!(w.step(StopWaitEvent::Status(Some(ServiceState::Stopped))) == StopWaitAction::Finish(true));
    let (mut w, _) = StopWait::new(30);
    assert!(w.step(StopWaitEvent::Status(None)) == StopWaitAction::Finish(true));
    let (mut w, _) = StopWait::new(30);
    assert!(w.step(StopWaitEvent::Status(Some(ServiceState::Running))) == StopWaitAction::RequestStop);
    assert!(w.step(StopWaitEvent::StopRequested(false)) == StopWaitAction::Finish(true));
}

#[test]
fn stop_wait_polls_until_stopped_or_timeout() {
    let (mut w, _) = StopWait::new(1000);
    w.step(StopWaitEvent::Status(Some(ServiceState::Running)));
    assert!(w.step(StopWaitEvent::StopRequested(true)) == StopWaitAction::StartClockAndPoll);
    assert!(w.step(StopWaitEvent::Polled(Some(ServiceState::StopPending), 10)) == StopWaitAction::SleepAndPoll);
    assert!(w.step(StopWaitEvent::Polled(Some(ServiceState::StopPending), 1000)) == StopWaitAction::SleepAndPoll);
    assert!(w.step(StopWaitEvent::Polled(Some(ServiceState::Stopped), 5000)) == StopWaitAction::Finish(true));

    let (mut w, _) = StopWait::new(1000);
    w.step(StopWaitEvent::Status(Some(ServiceState::Running)));
    w.step(StopWaitEvent::StopRequested(true));
    assert!(w.step(StopWaitEvent::Polled(Some(ServiceState::StopPending), 1001)) == StopWaitAction::GiveUp);

    let (mut w, _) = StopWait::new(1000);
    w.step(StopWaitEvent::Status(Some(ServiceState::Paused)));
    w.step(StopWaitEvent::StopRequested(true));
    assert!(w.step(StopWaitEvent::Polled(None, 0)) == StopWaitAction::Fail);
    assert_eq!(STOP_TIMEOUT_SECS, 30);
    assert_eq!(POLL_INTERVAL_MILLIS, 500);
}

#[test]
fn installed_service_report_reads_stopped_on_demand() {
    let d = service_definition();
    let config = ServiceConfig { display_name: d.display_name, start_type: d.start_type };
    assert_eq!(
        status_lines(&status(ServiceState::Stopped), &config),
        vec![
            "Service : Okey Service",
            "Display name : Okey Service",
            "State : \u{274C} stopped",
            "Start type : on demand",
        ]
    );
}

#[test]
fn spaced_polls_end_within_the_bound() {
    let timeout: u128 = 1_000;
    let interval: u128 = 500;
    let (mut w, _) = StopWait::new(timeout);
    w.step(StopWaitEvent::Status(Some(ServiceState::Running)));
    let mut action = w.step(StopWaitEvent::StopRequested(true));
    let mut polls: u128 = 0;
    while action == StopWaitAction::StartClockAndPoll || action == StopWaitAction::SleepAndPoll {
        action = w.step(StopWaitEvent::Polled(Some(ServiceState::StopPending), polls * interval));
        polls += 1;
    }
    assert!(action == StopWaitAction::GiveUp);
    assert_eq!(polls, 4);
    assert!(polls <= timeout / interval + 2);
}
