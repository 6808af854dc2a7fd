use drone_swarm::config::{ConsensusConfig, DroneConfig, SwarmConfig};
use drone_swarm::mavlink_client::{AnyResult, SwarmError};
use drone_swarm::mission::hash_mission_specs;
use drone_swarm::swarm_supervisor::{
    expected_mission_hashes, join_err, Supervisor, SupervisorAction, Wait,
};
use drone_swarm::vehicle_actor::{VehicleCommand, VehicleEvent, VehicleEventKind};
use drone_swarm::vehicle_worker::{DroneWorker, WorkerAction, WorkerInput};

fn drone(name: &str) -> DroneConfig {
    DroneConfig {
        name: name.to_string(),
        endpoint: "udp".to_string(),
        expected_system_id: None,
        arm: None,
        auto_start: None,
        mission: vec![],
    }
}

fn swarm(names: &[&str], policy: &str, enabled: bool) -> SwarmConfig {
    SwarmConfig {
        drones: names.iter().map(|name| drone(name)).collect(),
        consensus: ConsensusConfig {
            enabled,
            quorum_policy: policy.to_string(),
            quorum_count: Some(2),
            readiness_timeout_secs: 45,
        },
    }
}

fn encodings(names: &[&str]) -> Vec<AnyResult<Vec<u8>>> {
    names.iter().map(|name| Ok(name.as_bytes().to_vec())).collect()
}

fn supervisor(names: &[&str], policy: &str, enabled: bool) -> Supervisor {
    Supervisor::new("p".to_string(), &swarm(names, policy, enabled), &encodings(names)).unwrap()
}

fn refused(names: &[&str], policy: &str, encoded: Vec<AnyResult<Vec<u8>>>) -> SwarmError {
    match Supervisor::new("p".to_string(), &swarm(names, policy, true), &encoded) {
        Ok(_) => panic!("a supervisor came out"),
        Err(error) => error,
    }
}

fn hash(name: &str) -> String {
    hash_mission_specs(&name.as_bytes().to_vec())
}

fn event(vehicle: &str, kind: VehicleEventKind) -> VehicleEvent {
    VehicleEvent { vehicle: vehicle.to_string(), phase: "p".to_string(), kind }
}

fn vote(vehicle: &str) -> VehicleEvent {
    vote_with(vehicle, &hash(vehicle))
}

fn vote_with(vehicle: &str, hash: &str) -> VehicleEvent {
    event(
        vehicle,
        VehicleEventKind::ReadinessVote { mission_hash: hash.to_string(), item_count: 1 },
    )
}

fn failure(vehicle: &str) -> VehicleEvent {
    event(vehicle, VehicleEventKind::Failed { error: "lost".to_string() })
}

fn completed(vehicle: &str) -> VehicleEvent {
    event(vehicle, VehicleEventKind::Completed)
}

/// The lines and commands after the one that shows the event.
fn after_showing(supervisor: &mut Supervisor, event: &VehicleEvent) -> Vec<SupervisorAction> {
    let mut out = supervisor.on_event(event);
    let shown = out.remove(0);
    assert!(matches!(shown, SupervisorAction::Print(_)));
    out
}

fn says(line: &str) -> SupervisorAction {
    SupervisorAction::Print(format!("[p][supervisor] {}", line))
}

fn send(vehicle: &str, command: VehicleCommand) -> SupervisorAction {
    SupervisorAction::Send { vehicle: vehicle.to_string(), command }
}

fn start(vehicle: &str) -> SupervisorAction {
    send(vehicle, VehicleCommand::StartPreparedMission { phase: "p".to_string() })
}

fn abort(vehicle: &str, reason: &str) -> SupervisorAction {
    send(
        vehicle,
        VehicleCommand::AbortPreparedMission { phase: "p".to_string(), reason: reason.to_string() },
    )
}

fn starting(vehicle: &str) -> Vec<SupervisorAction> {
    vec![says(&format!("starting {}", vehicle)), start(vehicle)]
}

fn aborting(vehicle: &str, reason: &str) -> Vec<SupervisorAction> {
    vec![
        says(&format!("aborting {} before start: {}", vehicle, reason)),
        abort(vehicle, reason),
    ]
}

fn error(message: &str) -> SwarmError {
    SwarmError::Other(message.to_string())
}

#[test]
fn hashes_are_expected_per_drone() {
    let names = ["a", "b"];
    let expected =
        expected_mission_hashes(&swarm(&names, "all", true).drones, &encodings(&names)).unwrap();
    assert_eq!(expected.len(), 2);
    assert_eq!(expected.get("a"), Some(&hash("a")));
    assert_eq!(expected.get("b"), Some(&hash("b")));
}

#[test]
fn a_file_without_drones_is_refused() {
    assert_eq!(refused(&[], "nonsense", vec![]), error("mission file contains no drones"));
}

#[test]
fn names_must_differ() {
    let names = ["a", "b", "a"];
    assert_eq!(
        refused(&names, "nonsense", encodings(&names)),
        error("duplicate drone name in mission config: a")
    );
}

#[test]
fn the_first_problem_is_reported() {
    let broken = vec![Ok(vec![]), Err(error("no json")), Err(error("neither"))];
    assert_eq!(refused(&["a", "b", "c"], "nonsense", broken), error("no json"));
    let broken = vec![Ok(vec![]), Err(error("no json")), Ok(vec![])];
    assert_eq!(
        refused(&["a", "a", "c"], "all", broken),
        error("duplicate drone name in mission config: a")
    );
    let names = ["a", "b"];
    assert_eq!(
        refused(&names, "nonsense", encodings(&names)),
        error(
            "unsupported consensus.quorum_policy \"nonsense\"; use require_all, majority, or \
             at_least"
        )
    );
}

#[test]
fn a_bad_policy_is_refused_without_a_gate_too() {
    let names = ["a"];
    assert!(Supervisor::new("p".to_string(), &swarm(&names, "x", false), &encodings(&names)).is_err());
}

#[test]
fn a_gated_phase_opens() {
    let s = supervisor(&["b", "a"], "majority", true);
    let prepare = VehicleCommand::PrepareMission { phase: "p".to_string() };
    assert_eq!(
        s.opening(),
        vec![
            says("readiness gate enabled: majority (2/2), timeout=45s"),
            send("b", prepare.clone()),
            send("a", prepare),
        ]
    );
    assert_eq!(s.wait(), Wait::EventOrDeadline);
    assert_eq!(s.readiness_timeout_secs(), 45);
}

#[test]
fn an_ungated_phase_opens() {
    let s = supervisor(&["a"], "all", false);
    assert_eq!(
        s.opening()[0],
        says("readiness gate disabled; vehicles start as soon as they report ready")
    );
    assert_eq!(s.opening().len(), 2);
    assert_eq!(s.wait(), Wait::Event);
}

#[test]
fn every_vehicle_starts_when_all_are_ready() {
    let mut s = supervisor(&["b", "a"], "all", true);
    assert_eq!(
        after_showing(&mut s, &vote("b")),
        vec![
            says("readiness accepted from b; 1/2 votes"),
            says("holding: waiting for readiness: 1 valid votes, need 2 (require_all (2/2))"),
        ]
    );
    assert_eq!(
        after_showing(&mut s, &vote("b")),
        vec![
            says("duplicate readiness vote ignored from b"),
            says("holding: waiting for readiness: 1 valid votes, need 2 (require_all (2/2))"),
        ]
    );
    let mut wanted = vec![
        says("readiness accepted from a; 2/2 votes"),
        says("start decision: 2 valid readiness votes satisfy require_all (2/2)"),
    ];
    wanted.extend(starting("b"));
    wanted.extend(starting("a"));
    assert_eq!(after_showing(&mut s, &vote("a")), wanted);
    s.note_started("b");
    s.note_started("a");
    assert_eq!(s.wait(), Wait::Event);
    assert_eq!(after_showing(&mut s, &vote("a")), vec![]);
    assert_eq!(after_showing(&mut s, &completed("a")), vec![]);
    assert_eq!(s.wait(), Wait::Event);
    assert_eq!(after_showing(&mut s, &completed("b")), vec![]);
    assert_eq!(s.wait(), Wait::Over);
    assert_eq!(s.verdict(), Ok("=== mission phase complete: p ===".to_string()));
}

#[test]
fn events_are_shown_first() {
    let mut s = supervisor(&["a"], "all", true);
    assert_eq!(
        s.on_event(&event("a", VehicleEventKind::Armed)),
        vec![SupervisorAction::Print("[p][a] armed".to_string())]
    );
}

#[test]
fn a_quorum_starts_without_the_rest() {
    let mut s = supervisor(&["a", "b", "c", "d"], "at_least", true);
    after_showing(&mut s, &failure("d"));
    after_showing(&mut s, &vote("c"));
    let excluded = "excluded by quorum start decision";
    let mut wanted = vec![
        says("readiness accepted from a; 2/2 votes"),
        says("start decision: 2 valid readiness votes satisfy at_least (2/4)"),
    ];
    wanted.extend(starting("a"));
    wanted.extend(starting("c"));
    wanted.extend(aborting("b", excluded));
    assert_eq!(after_showing(&mut s, &vote("a")), wanted);
    s.note_started("a");
    s.note_started("c");
    assert_eq!(
        after_showing(&mut s, &failure("b")),
        vec![says("b stopped as planned: lost")]
    );
    assert_eq!(
        after_showing(&mut s, &failure("d")),
        vec![says("d remains excluded from degraded start")]
    );
    after_showing(&mut s, &completed("a"));
    after_showing(&mut s, &completed("c"));
    assert_eq!(s.wait(), Wait::Over);
    assert!(s.verdict().is_ok());
}

#[test]
fn a_failure_can_make_the_phase_abort() {
    let mut s = supervisor(&["a", "b"], "all", true);
    let reason = "quorum impossible: 0 valid votes, at most 1 possible, need 2 (require_all (2/2))";
    let mut wanted = vec![
        says("a failed before readiness decision: lost"),
        says(&format!("abort decision: {}", reason)),
    ];
    wanted.extend(aborting("b", reason));
    assert_eq!(after_showing(&mut s, &failure("a")), wanted);
    assert_eq!(after_showing(&mut s, &failure("b")), vec![says("b stopped as planned: lost")]);
    assert_eq!(s.wait(), Wait::Over);
    assert_eq!(
        s.verdict(),
        Err(error(&format!(
            "mission phase p completed with errors: phase aborted by supervisor: {}",
            reason
        )))
    );
}

#[test]
fn a_failure_can_leave_the_decision_open() {
    let mut s = supervisor(&["a", "b", "c"], "majority", true);
    assert_eq!(
        after_showing(&mut s, &failure("a")),
        vec![
            says("a failed before readiness decision: lost"),
            says("holding: waiting for readiness: 0 valid votes, need 2 (majority (2/3))"),
        ]
    );
    assert_eq!(s.wait(), Wait::EventOrDeadline);
}

#[test]
fn a_failure_can_find_a_quorum_of_zero() {
    let mut config = swarm(&["a", "b"], "count", true);
    config.consensus.quorum_count = Some(0);
    let mut s = Supervisor::new("p".to_string(), &config, &encodings(&["a", "b"])).unwrap();
    let mut wanted = vec![
        says("a failed before readiness decision: lost"),
        says("start decision: 0 valid readiness votes satisfy at_least (0/2)"),
    ];
    wanted.extend(aborting("b", "excluded by quorum start decision"));
    assert_eq!(after_showing(&mut s, &failure("a")), wanted);
}

#[test]
fn a_rejected_vote_is_told() {
    let mut s = supervisor(&["a", "b", "c"], "majority", true);
    assert_eq!(
        after_showing(&mut s, &vote_with("a", "other")),
        vec![
            says(&format!(
                "readiness rejected from a: a reported mission hash other, expected {}",
                hash("a")
            )),
            says("holding: waiting for readiness: 0 valid votes, need 2 (majority (2/3))"),
        ]
    );
    let holding = says("holding: waiting for readiness: 0 valid votes, need 2 (majority (2/3))");
    assert_eq!(
        after_showing(&mut s, &vote("x")),
        vec![
            says("readiness rejected from x: x is not part of this mission phase"),
            holding,
        ]
    );
    let reason = "quorum impossible: 0 valid votes, at most 1 possible, need 2 (majority (2/3))";
    let mut wanted = vec![
        says(&format!(
            "readiness rejected from c: c reported mission hash other, expected {}",
            hash("c")
        )),
        says(&format!("abort decision: {}", reason)),
    ];
    wanted.extend(aborting("a", reason));
    wanted.extend(aborting("b", reason));
    wanted.extend(aborting("c", reason));
    assert_eq!(after_showing(&mut s, &vote_with("c", "other")), wanted);
}

#[test]
fn strangers_do_not_decide_about_the_swarm() {
    let mut s = supervisor(&["a", "b"], "all", true);
    let holding = says("holding: waiting for readiness: 0 valid votes, need 2 (require_all (2/2))");
    assert_eq!(after_showing(&mut s, &vote("x"))[1], holding);
    assert_eq!(after_showing(&mut s, &failure("y"))[1], holding);
    assert_eq!(s.wait(), Wait::EventOrDeadline);
}

#[test]
fn the_deadline_aborts_the_phase() {
    let mut s = supervisor(&["a", "b"], "all", true);
    after_showing(&mut s, &vote("a"));
    let reason = "readiness timeout after 45s; waiting for readiness: 1 valid votes, need 2 \
                  (require_all (2/2))";
    let mut wanted = vec![says(&format!("aborting phase: {}", reason))];
    wanted.extend(aborting("a", reason));
    wanted.extend(aborting("b", reason));
    assert_eq!(s.on_no_event(), Some(wanted));
    assert_eq!(s.wait(), Wait::Event);
    assert_eq!(s.on_no_event(), None);
    assert_eq!(
        s.verdict(),
        Err(error(&format!(
            "mission phase p completed with errors: supervisor stopped after receiving terminal \
             events from 0/2 vehicles; phase aborted by supervisor: {}",
            reason
        )))
    );
}

#[test]
fn nothing_is_started_or_aborted_after_the_decision() {
    let mut s = supervisor(&["a", "b"], "all", true);
    s.on_no_event();
    for e in [vote("a"), vote("b"), failure("a"), completed("b"), vote("x")] {
        for action in after_showing(&mut s, &e) {
            assert!(matches!(action, SupervisorAction::Print(_)));
        }
    }
}

#[test]
fn vehicles_at_an_end_are_not_aborted() {
    let mut s = supervisor(&["a", "b"], "all", true);
    after_showing(&mut s, &completed("a"));
    let out = s.on_no_event().unwrap();
    assert_eq!(out.len(), 3);
    assert!(!out.iter().any(|action| matches!(
        action,
        SupervisorAction::Send { vehicle, .. } if vehicle == "a"
    )));
}

#[test]
fn failures_in_flight_are_errors() {
    let mut s = supervisor(&["a", "b"], "all", true);
    after_showing(&mut s, &vote("a"));
    after_showing(&mut s, &vote("b"));
    assert_eq!(after_showing(&mut s, &failure("a")), vec![]);
    assert_eq!(after_showing(&mut s, &failure("b")), vec![]);
    assert_eq!(s.wait(), Wait::Over);
    assert_eq!(
        s.verdict(),
        Err(error("mission phase p completed with errors: a failed: lost; b failed: lost"))
    );
}

#[test]
fn without_a_gate_votes_start_their_vehicles() {
    let mut s = supervisor(&["a", "b"], "all", false);
    assert_eq!(after_showing(&mut s, &vote_with("b", "whatever")), starting("b"));
    s.note_started("b");
    assert_eq!(after_showing(&mut s, &vote("b")), vec![]);
    assert_eq!(after_showing(&mut s, &vote("x")), vec![]);
    assert_eq!(s.on_no_event(), None);
    assert_eq!(after_showing(&mut s, &failure("a")), vec![]);
    after_showing(&mut s, &completed("b"));
    assert_eq!(
        s.verdict(),
        Err(error("mission phase p completed with errors: a failed: lost"))
    );
}

#[test]
fn without_a_gate_a_failure_is_never_forgotten() {
    let mut s = supervisor(&["a", "b"], "all", false);
    after_showing(&mut s, &failure("a"));
    after_showing(&mut s, &vote("a"));
    after_showing(&mut s, &completed("a"));
    after_showing(&mut s, &completed("b"));
    assert_eq!(s.on_no_event(), None);
    assert_eq!(s.wait(), Wait::Over);
    assert_eq!(
        s.verdict(),
        Err(error("mission phase p completed with errors: a failed: lost"))
    );
}

#[test]
fn a_start_that_was_not_sent_is_tried_again_without_a_gate() {
    let mut s = supervisor(&["a"], "all", false);
    assert_eq!(after_showing(&mut s, &vote("a")), starting("a"));
    assert_eq!(after_showing(&mut s, &vote("a")), starting("a"));
}

#[test]
fn ends_of_strangers_count() {
    let mut s = supervisor(&["a"], "all", true);
    after_showing(&mut s, &completed("x"));
    assert_eq!(s.wait(), Wait::Over);
}

#[test]
fn every_actor_is_shut_down() {
    assert_eq!(
        supervisor(&["b", "a"], "all", true).shutdown(),
        vec![send("b", VehicleCommand::Shutdown), send("a", VehicleCommand::Shutdown)]
    );
}

#[test]
fn unjoined_actors_are_errors() {
    assert_eq!(
        join_err("a", "task 7 panicked"),
        error("vehicle actor a join failed: task 7 panicked")
    );
}

#[test]
fn each_vehicle_gets_one_command_on_an_occasion() {
    let names = ["a", "b", "c"];
    let mut s = supervisor(&names, "majority", true);
    after_showing(&mut s, &vote("c"));
    let out = after_showing(&mut s, &vote("a"));
    for name in names {
        let sent = out.iter().filter(|action| {
            matches!(action, SupervisorAction::Send { vehicle, .. } if vehicle == name)
        });
        assert_eq!(sent.count(), 1);
    }
}

#[test]
fn the_vote_of_a_worker_is_accepted() {
    let names = ["a", "b"];
    let mut s = supervisor(&names, "all", true);
    let mut worker = DroneWorker::new(
        DroneConfig { arm: Some(false), ..drone("b") },
        "p".to_string(),
    );
    worker.advance(WorkerInput::Connected);
    worker.advance(WorkerInput::VehicleFound { system_id: 1, component_id: 1 });
    worker.advance(WorkerInput::Located {
        lat_1e7: 1,
        lon_1e7: 2,
        positions: vec![],
        encoded: Ok(b"b".to_vec()),
    });
    let mut votes = 0;
    for action in worker.advance(WorkerInput::Uploaded) {
        if let WorkerAction::Emit(event) = action {
            if matches!(event.kind, VehicleEventKind::ReadinessVote { .. }) {
                votes += 1;
                assert_eq!(
                    after_showing(&mut s, &event)[0],
                    says("readiness accepted from b; 1/2 votes")
                );
            }
        }
    }
    assert_eq!(votes, 1);
}
