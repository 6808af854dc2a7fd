use drone_swarm::mavlink_client::SwarmError;
use drone_swarm::vehicle_actor::{
    send_command_err, ActorAction, StartSignal, VehicleActor, VehicleCommand, VehicleEvent,
    VehicleEventKind, WorkerOutcome,
};

fn prepare(phase: &str) -> VehicleCommand {
    VehicleCommand::PrepareMission { phase: phase.to_string() }
}

fn start(phase: &str) -> VehicleCommand {
    VehicleCommand::StartPreparedMission { phase: phase.to_string() }
}

fn abort(phase: &str, reason: &str) -> VehicleCommand {
    VehicleCommand::AbortPreparedMission { phase: phase.to_string(), reason: reason.to_string() }
}

fn event(phase: &str, kind: VehicleEventKind) -> VehicleEvent {
    VehicleEvent { vehicle: "alpha".to_string(), phase: phase.to_string(), kind }
}

fn failed(phase: &str, error: &str) -> ActorAction {
    ActorAction::Emit(event(phase, VehicleEventKind::Failed { error: error.to_string() }))
}

fn actor() -> VehicleActor {
    VehicleActor::new("alpha".to_string())
}

#[test]
fn preparing_runs_a_worker() {
    assert_eq!(
        actor().on_command(prepare("p")),
        vec![
            ActorAction::Emit(event("p", VehicleEventKind::CommandAccepted)),
            ActorAction::RunWorker { phase: "p".to_string() },
        ]
    );
}

#[test]
fn only_one_mission_is_prepared_at_a_time() {
    let mut a = actor();
    a.on_command(prepare("p"));
    assert_eq!(
        a.on_command(prepare("q")),
        vec![
            ActorAction::Emit(event("q", VehicleEventKind::CommandAccepted)),
            failed("q", "vehicle already has a prepared mission in progress"),
        ]
    );
    assert_eq!(
        a.on_command(start("p")),
        vec![ActorAction::Signal { signal: StartSignal::Start, report: Some("p".to_string()) }]
    );
    assert!(a.on_command(prepare("r")).contains(&ActorAction::RunWorker { phase: "r".to_string() }));
}

#[test]
fn a_mission_is_decided_once() {
    let mut a = actor();
    let nothing = "no prepared mission is waiting for a start decision";
    assert_eq!(a.on_command(start("p")), vec![failed("p", nothing)]);
    a.on_command(prepare("p"));
    assert_eq!(
        a.on_command(abort("p", "why")),
        vec![ActorAction::Signal {
            signal: StartSignal::Abort { reason: "why".to_string() },
            report: Some("p".to_string()),
        }]
    );
    assert_eq!(a.on_command(start("p")), vec![failed("p", nothing)]);
    assert_eq!(a.on_command(abort("p", "again")), vec![failed("p", nothing)]);
}

#[test]
fn shutting_down_aborts_a_pending_mission() {
    let farewell = vec![
        ActorAction::Emit(event("supervisor", VehicleEventKind::ShutdownAck)),
        ActorAction::Stop,
    ];
    assert_eq!(actor().on_command(VehicleCommand::Shutdown), farewell);
    let mut a = actor();
    a.on_command(prepare("p"));
    let mut wanted = vec![ActorAction::Signal {
        signal: StartSignal::Abort { reason: "vehicle actor shutting down".to_string() },
        report: None,
    }];
    wanted.extend(farewell.clone());
    assert_eq!(a.on_command(VehicleCommand::Shutdown), wanted);
    assert_eq!(a.on_command(VehicleCommand::Shutdown), farewell);
}

#[test]
fn a_lost_decision_is_reported() {
    assert_eq!(
        actor().signal_failed("p".to_string(), "sending on a closed channel"),
        event(
            "p",
            VehicleEventKind::Failed {
                error: "failed to send start signal to blocking worker: sending on a closed channel"
                    .to_string()
            }
        )
    );
}

#[test]
fn the_end_of_a_worker_is_reported() {
    let end = |outcome| actor().completion_event("p".to_string(), outcome);
    assert_eq!(end(WorkerOutcome::Completed), event("p", VehicleEventKind::Completed));
    for error in [SwarmError::Other("why".to_string()), SwarmError::TimedOut("why".to_string())] {
        assert_eq!(
            end(WorkerOutcome::Failed(error)),
            event("p", VehicleEventKind::Failed { error: "why".to_string() })
        );
    }
    assert_eq!(
        end(WorkerOutcome::Lost { detail: "task 3 panicked".to_string() }),
        event(
            "p",
            VehicleEventKind::Failed {
                error: "blocking vehicle task panicked or was cancelled: task 3 panicked"
                    .to_string()
            }
        )
    );
}

#[test]
fn unsent_commands_are_errors() {
    assert_eq!(
        send_command_err("alpha", "channel closed"),
        SwarmError::Other("failed to send command to alpha: channel closed".to_string())
    );
}
