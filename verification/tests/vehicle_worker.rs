use drone_swarm::config::DroneConfig;
use drone_swarm::mavlink_client::{
    arm_vehicle, set_px4_mission_mode, start_mission, SwarmError,
};
use drone_swarm::mission::{
    build_relative_mission_items, hash_mission_items, hash_mission_specs, MissionSpec,
};
use drone_swarm::vehicle_actor::{StartSignal, VehicleEvent, VehicleEventKind};
use drone_swarm::vehicle_worker::{DroneWorker, WorkerAction, WorkerInput};

fn config() -> DroneConfig {
    DroneConfig {
        name: "alpha".to_string(),
        endpoint: "udpin:0.0.0.0:14540".to_string(),
        expected_system_id: Some(3),
        arm: None,
        auto_start: None,
        mission: legs(),
    }
}

fn legs() -> Vec<MissionSpec> {
    vec![
        MissionSpec::Takeoff { rel_alt_m: 10.0_f32.to_bits() },
        MissionSpec::Land { north_m: 1.0_f64.to_bits(), east_m: 2.0_f64.to_bits() },
    ]
}

fn worker(cfg: DroneConfig) -> DroneWorker {
    DroneWorker::new(cfg, "p".to_string())
}

fn show(actions: &[WorkerAction]) -> Vec<String> {
    actions.iter().map(|action| format!("{:?}", action)).collect()
}

fn emit(kind: VehicleEventKind) -> WorkerAction {
    WorkerAction::Emit(VehicleEvent {
        vehicle: "alpha".to_string(),
        phase: "p".to_string(),
        kind,
    })
}

fn print(line: &str) -> WorkerAction {
    WorkerAction::Print(line.to_string())
}

fn told(worker: &mut DroneWorker, input: WorkerInput) -> Vec<WorkerAction> {
    assert!(worker.can_take(&input));
    worker.advance(input)
}

fn found(system_id: u8) -> WorkerInput {
    WorkerInput::VehicleFound { system_id, component_id: 1 }
}

fn json() -> Vec<u8> {
    b"[1,2]".to_vec()
}

fn located(count: usize) -> WorkerInput {
    WorkerInput::Located {
        lat_1e7: 473_977_418,
        lon_1e7: -85_455_939,
        positions: vec![(1, 2); count],
        encoded: Ok(json()),
    }
}

fn ended(error: &str) -> Vec<WorkerAction> {
    vec![
        WorkerAction::StopHeartbeat,
        print("TERMINATED -- alpha"),
        WorkerAction::Finish(Err(SwarmError::Other(error.to_string()))),
    ]
}

fn succeeded() -> Vec<WorkerAction> {
    vec![
        print("TERMINATING -- alpha"),
        WorkerAction::StopHeartbeat,
        print("TERMINATED -- alpha"),
        WorkerAction::Finish(Ok(())),
    ]
}

fn ready(count: usize) -> Vec<WorkerAction> {
    let hash = hash_mission_specs(&json());
    vec![
        emit(VehicleEventKind::ReadinessVote { mission_hash: hash.clone(), item_count: count }),
        emit(VehicleEventKind::WaitingForStart { mission_hash: hash }),
        WorkerAction::AwaitDecision,
    ]
}

/// A worker whose vehicle has its mission.
fn uploading(cfg: DroneConfig) -> DroneWorker {
    let count = cfg.mission.len();
    let mut w = worker(cfg);
    told(&mut w, WorkerInput::Connected);
    told(&mut w, found(3));
    told(&mut w, located(count));
    w
}

#[test]
fn the_whole_way() {
    let mut w = worker(config());
    assert_eq!(
        show(&w.opening()),
        show(&[
            emit(VehicleEventKind::Connecting { endpoint: "udpin:0.0.0.0:14540".to_string() }),
            print("[alpha] connecting on udpin:0.0.0.0:14540"),
            WorkerAction::Connect { endpoint: "udpin:0.0.0.0:14540".to_string() },
        ])
    );
    assert_eq!(show(&told(&mut w, WorkerInput::Connected)), show(&[WorkerAction::AwaitVehicle]));
    assert_eq!(
        show(&told(&mut w, found(3))),
        show(&[
            emit(VehicleEventKind::Discovered { system_id: 3, component_id: 1 }),
            print("[alpha] discovered target sys=3, comp=1"),
            WorkerAction::StartHeartbeat,
            WorkerAction::AwaitPosition,
        ])
    );
    let items = build_relative_mission_items(
        3,
        1,
        473_977_418,
        -85_455_939,
        &vec![(1, 2); 2],
        &legs(),
    )
    .unwrap();
    assert_eq!((items[0].x, items[0].y), (473_977_418, -85_455_939));
    assert_eq!((items[1].x, items[1].y), (1, 2));
    assert_eq!(
        show(&told(&mut w, located(2))),
        show(&[
            emit(VehicleEventKind::StartPosition { lat_1e7: 473_977_418, lon_1e7: -85_455_939 }),
            print("[alpha] start position lat=47.3977418, lon=-8.5455939"),
            emit(VehicleEventKind::MissionBuilt {
                item_count: 2,
                spec_hash: hash_mission_specs(&json()),
                upload_hash: hash_mission_items(&items),
            }),
            WorkerAction::Upload { system_id: 3, component_id: 1, items },
        ])
    );
    assert_eq!(
        show(&told(&mut w, WorkerInput::Uploaded)),
        show(&[
            emit(VehicleEventKind::MissionUploaded),
            print("[alpha] mission uploaded"),
            WorkerAction::SendCommand(arm_vehicle(3, 1)),
        ])
    );
    let mut armed = vec![emit(VehicleEventKind::Armed), print("[alpha] armed")];
    armed.extend(ready(2));
    assert_eq!(show(&told(&mut w, WorkerInput::CommandAccepted)), show(&armed));
    assert_eq!(
        show(&told(&mut w, WorkerInput::Decided(StartSignal::Start))),
        show(&[
            emit(VehicleEventKind::StartApproved),
            WorkerAction::SendCommand(set_px4_mission_mode(3, 1)),
        ])
    );
    assert_eq!(
        show(&told(&mut w, WorkerInput::CommandAccepted)),
        show(&[WorkerAction::SendCommand(start_mission(3, 1, 2))])
    );
    assert_eq!(
        show(&told(&mut w, WorkerInput::CommandAccepted)),
        show(&[
            emit(VehicleEventKind::MissionStarted),
            print("[alpha] mission started"),
            emit(VehicleEventKind::MissionMonitorStarted),
            WorkerAction::Monitor { final_seq: Some(1) },
        ])
    );
    assert_eq!(show(&told(&mut w, WorkerInput::MissionDone)), show(&succeeded()));
    assert!(!w.can_take(&WorkerInput::MissionDone));
    assert!(!w.can_take(&WorkerInput::StepFailed(SwarmError::Other("x".to_string()))));
}

#[test]
fn a_wrong_vehicle_ends_the_worker() {
    let mut w = worker(config());
    told(&mut w, WorkerInput::Connected);
    assert_eq!(
        show(&told(&mut w, found(4))),
        show(&[
            emit(VehicleEventKind::Discovered { system_id: 4, component_id: 1 }),
            print("[alpha] discovered target sys=4, comp=1"),
            WorkerAction::Finish(Err(SwarmError::Other(
                "[alpha] expected system_id 3, got 4".to_string()
            ))),
        ])
    );
}

#[test]
fn any_vehicle_will_do_where_none_is_expected() {
    let mut w = worker(DroneConfig { expected_system_id: None, ..config() });
    told(&mut w, WorkerInput::Connected);
    assert!(matches!(
        told(&mut w, found(200)).last(),
        Some(WorkerAction::AwaitPosition)
    ));
}

#[test]
fn arming_can_be_left_out() {
    let mut w = uploading(DroneConfig { arm: Some(false), ..config() });
    let mut wanted = vec![emit(VehicleEventKind::MissionUploaded), print("[alpha] mission uploaded")];
    wanted.extend(ready(2));
    assert_eq!(show(&told(&mut w, WorkerInput::Uploaded)), show(&wanted));
    let mut armed = uploading(DroneConfig { arm: Some(true), ..config() });
    assert!(matches!(
        told(&mut armed, WorkerInput::Uploaded).last(),
        Some(WorkerAction::SendCommand(_))
    ));
}

#[test]
fn starting_can_be_left_to_the_pilot() {
    let mut w = uploading(DroneConfig { auto_start: Some(false), arm: Some(false), ..config() });
    told(&mut w, WorkerInput::Uploaded);
    let mut wanted = vec![
        emit(VehicleEventKind::StartApproved),
        print("[alpha] auto_start=false; mission prepared but not started"),
    ];
    wanted.extend(succeeded());
    assert_eq!(show(&told(&mut w, WorkerInput::Decided(StartSignal::Start))), show(&wanted));
}

#[test]
fn an_abort_ends_the_worker() {
    let mut w = uploading(DroneConfig { arm: Some(false), ..config() });
    told(&mut w, WorkerInput::Uploaded);
    let mut wanted = vec![emit(VehicleEventKind::StartAborted { reason: "why".to_string() })];
    wanted.extend(ended("mission start aborted by supervisor: why"));
    let signal = StartSignal::Abort { reason: "why".to_string() };
    assert_eq!(show(&told(&mut w, WorkerInput::Decided(signal))), show(&wanted));
}

#[test]
fn a_lost_supervisor_ends_the_worker() {
    let mut w = uploading(DroneConfig { arm: Some(false), ..config() });
    told(&mut w, WorkerInput::Uploaded);
    assert_eq!(
        show(&told(&mut w, WorkerInput::DecisionLost { detail: "closed".to_string() })),
        show(&ended("mission start channel closed before supervisor decision: closed"))
    );
}

#[test]
fn failed_steps_end_the_worker() {
    let error = || WorkerInput::StepFailed(SwarmError::TimedOut("late".to_string()));
    let finish = WorkerAction::Finish(Err(SwarmError::TimedOut("late".to_string())));
    let mut w = worker(config());
    assert_eq!(show(&told(&mut w, error())), show(&[finish]));
    let mut w = uploading(config());
    let out = told(&mut w, error());
    assert_eq!(out.len(), 3);
    assert!(matches!(out[0], WorkerAction::StopHeartbeat));
    assert!(matches!(out[2], WorkerAction::Finish(Err(SwarmError::TimedOut(_)))));
}

#[test]
fn a_mission_that_cannot_be_encoded_ends_the_worker() {
    let mut w = worker(config());
    told(&mut w, WorkerInput::Connected);
    told(&mut w, found(3));
    let mut wanted = vec![
        emit(VehicleEventKind::StartPosition { lat_1e7: 5, lon_1e7: -6 }),
        print("[alpha] start position lat=0.0000005, lon=-0.0000006"),
    ];
    wanted.extend(ended("no json"));
    assert_eq!(
        show(&told(
            &mut w,
            WorkerInput::Located {
                lat_1e7: 5,
                lon_1e7: -6,
                positions: vec![(1, 2); 2],
                encoded: Err(SwarmError::Other("no json".to_string())),
            }
        )),
        show(&wanted)
    );
}

#[test]
fn a_mission_without_items_cannot_be_watched() {
    let mut w = uploading(DroneConfig { mission: vec![], arm: Some(false), ..config() });
    told(&mut w, WorkerInput::Uploaded);
    told(&mut w, WorkerInput::Decided(StartSignal::Start));
    assert_eq!(
        show(&told(&mut w, WorkerInput::CommandAccepted)),
        show(&[WorkerAction::SendCommand(start_mission(3, 1, 0))])
    );
    assert!(matches!(
        told(&mut w, WorkerInput::CommandAccepted).last(),
        Some(WorkerAction::Monitor { final_seq: None })
    ));
}

#[test]
fn inputs_out_of_turn_are_not_taken() {
    let mut w = worker(config());
    assert!(!w.can_take(&WorkerInput::Uploaded));
    assert!(!w.can_take(&WorkerInput::CommandAccepted));
    assert!(!w.can_take(&WorkerInput::Decided(StartSignal::Start)));
    assert!(!w.can_take(&WorkerInput::MissionDone));
    told(&mut w, WorkerInput::Connected);
    assert!(!w.can_take(&WorkerInput::Connected));
    told(&mut w, found(3));
    assert!(!w.can_take(&located(1)));
    assert!(w.can_take(&located(2)));
}

#[test]
fn no_flight_before_the_approval() {
    let mut w = worker(config());
    let mut out = w.opening();
    out.extend(told(&mut w, WorkerInput::Connected));
    out.extend(told(&mut w, found(3)));
    out.extend(told(&mut w, located(2)));
    out.extend(told(&mut w, WorkerInput::Uploaded));
    out.extend(told(&mut w, WorkerInput::CommandAccepted));
    let commands: Vec<String> = show(&out)
        .into_iter()
        .filter(|line| line.contains("DoSetMode") || line.contains("MissionStart,"))
        .collect();
    assert!(commands.is_empty());
    assert!(!w.can_take(&WorkerInput::CommandAccepted));
}
