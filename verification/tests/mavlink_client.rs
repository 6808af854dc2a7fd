use drone_swarm::mavlink_client::{
    arm_vehicle, decode_c_string, mission_count, mission_count_line, monitor_mission, other_err,
    send_command_and_wait_ack, set_px4_mission_mode, start_mission, timeout_err, upload_mission,
    wait_for_position, wait_for_vehicle, Command, CommandLong, EnumValue, LinkAction, LinkEvent,
    LinkMessage, LinkStep, MessageBody, SwarmError, MAV_AUTOPILOT_INVALID, MAV_MISSION_ACCEPTED,
    MAV_RESULT_ACCEPTED, MAV_RESULT_IN_PROGRESS,
};
use mavlink::common::{MavAutopilot, MavCmd, MavMissionResult, MavResult};

fn message(body: MessageBody) -> LinkEvent {
    LinkEvent::Message(LinkMessage {
        system_id: 3,
        component_id: 1,
        name: "NAME".to_string(),
        id: 42,
        body,
    })
}

fn c_text(s: &str) -> [u8; 50] {
    let mut bytes = [0_u8; 50];
    bytes[..s.len()].copy_from_slice(s.as_bytes());
    bytes
}

fn silent<T>(action: LinkAction<T>) -> LinkStep<T> {
    LinkStep { action, line: None }
}

fn said<T>(action: LinkAction<T>, line: &str) -> LinkStep<T> {
    LinkStep { action, line: Some(line.to_string()) }
}

fn broken() -> LinkEvent {
    LinkEvent::ReadError { detail: "Io(x)".to_string() }
}

fn fail<T>(message: &str) -> LinkStep<T> {
    silent(LinkAction::Fail(SwarmError::Other(message.to_string())))
}

fn late<T>(message: &str) -> LinkStep<T> {
    silent(LinkAction::Fail(SwarmError::TimedOut(message.to_string())))
}

fn value(code: u32, name: &str) -> EnumValue {
    EnumValue { code, name: name.to_string() }
}

#[test]
fn codes_are_those_of_the_dialect() {
    assert_eq!(MAV_AUTOPILOT_INVALID, MavAutopilot::MAV_AUTOPILOT_INVALID as u32);
    assert_eq!(MAV_MISSION_ACCEPTED, MavMissionResult::MAV_MISSION_ACCEPTED as u32);
    assert_eq!(MAV_RESULT_ACCEPTED, MavResult::MAV_RESULT_ACCEPTED as u32);
    assert_eq!(MAV_RESULT_IN_PROGRESS, MavResult::MAV_RESULT_IN_PROGRESS as u32);
}

#[test]
fn errors_have_messages() {
    assert_eq!(other_err("a".to_string()), SwarmError::Other("a".to_string()));
    assert_eq!(timeout_err("b"), SwarmError::TimedOut("b".to_string()));
    assert_eq!(other_err("a".to_string()).message(), "a");
    assert_eq!(timeout_err("b").message(), "b");
    assert_eq!(timeout_err("b").duplicate(), timeout_err("b"));
    assert_eq!(other_err("b".to_string()).duplicate(), other_err("b".to_string()));
}

#[test]
fn c_strings_end_at_the_first_zero() {
    assert_eq!(decode_c_string(&c_text("hello")), "hello");
    assert_eq!(decode_c_string(&c_text("h\u{e9}\0rest")), "h\u{e9}");
    assert_eq!(decode_c_string(&[0; 50]), "");
    assert_eq!(decode_c_string(&[b'x'; 50]), "x".repeat(50));
}

#[test]
fn c_strings_that_are_not_utf8_are_empty() {
    let mut bytes = c_text("hello");
    bytes[2] = 0xff;
    assert_eq!(decode_c_string(&bytes), "");
    let mut cut = c_text("ok");
    cut[2] = 0;
    cut[3] = 0xff;
    assert_eq!(decode_c_string(&cut), "ok");
    let mut half = [0_u8; 50];
    half[0] = 0xc3;
    assert_eq!(decode_c_string(&half), "");
}

#[test]
fn a_vehicle_is_found_by_its_heartbeat() {
    let px4 = MavAutopilot::MAV_AUTOPILOT_PX4 as u32;
    assert_eq!(
        wait_for_vehicle(&message(MessageBody::Heartbeat { autopilot: px4 })),
        silent(LinkAction::Finish((3, 1)))
    );
    assert_eq!(
        wait_for_vehicle(&message(MessageBody::Heartbeat { autopilot: MAV_AUTOPILOT_INVALID })),
        silent(LinkAction::Continue)
    );
    assert_eq!(wait_for_vehicle(&message(MessageBody::Unmanaged)), silent(LinkAction::Continue));
    assert_eq!(
        wait_for_vehicle(&message(MessageBody::GlobalPositionInt { lat: 1, lon: 1 })),
        silent(LinkAction::Continue)
    );
    assert_eq!(
        wait_for_vehicle(&message(MessageBody::StatusText { text: c_text("ready") })),
        said(LinkAction::Continue, "PX4: ready")
    );
    assert_eq!(wait_for_vehicle(&LinkEvent::Quiet), silent(LinkAction::Pause));
    assert_eq!(
        wait_for_vehicle(&broken()),
        fail("recv error while waiting for HEARTBEAT: Io(x)")
    );
    assert_eq!(
        wait_for_vehicle(&LinkEvent::DeadlinePassed),
        late("Timed out waiting for PX4 HEARTBEAT")
    );
}

#[test]
fn a_position_needs_both_coordinates() {
    let at = |lat, lon| wait_for_position(&message(MessageBody::GlobalPositionInt { lat, lon }));
    assert_eq!(at(5, -6), silent(LinkAction::Finish((5, -6))));
    assert_eq!(at(0, -6), silent(LinkAction::Continue));
    assert_eq!(at(5, 0), silent(LinkAction::Continue));
    assert_eq!(
        wait_for_position(&message(MessageBody::StatusText { text: c_text("gps") })),
        said(LinkAction::Continue, "PX4: gps")
    );
    for body in [MessageBody::Unmanaged, MessageBody::Heartbeat { autopilot: 12 }] {
        assert_eq!(
            wait_for_position(&message(body)),
            said(LinkAction::Continue, "Unmanaged Message with name NAME and id 42")
        );
    }
    assert_eq!(wait_for_position(&LinkEvent::Quiet), silent(LinkAction::Pause));
    assert_eq!(
        wait_for_position(&broken()),
        fail("recv error while waiting for position: Io(x)")
    );
    assert_eq!(
        wait_for_position(&LinkEvent::DeadlinePassed),
        late("Timed out waiting for GLOBAL_POSITION_INT")
    );
}

#[test]
fn missions_are_announced() {
    assert_eq!(mission_count(3), 3);
    assert_eq!(mission_count(65_535), 65_535);
    assert_eq!(mission_count(65_536), 0);
    assert_eq!(mission_count(65_541), 5);
    assert_eq!(mission_count_line(65_541), "Sent MISSION_COUNT(65541)");
}

#[test]
fn uploads_send_what_is_requested() {
    let request = |seq| upload_mission(&message(MessageBody::MissionRequestInt { seq }), 3);
    assert_eq!(request(0), said(LinkAction::SendItem(0), "Sent MISSION_ITEM_INT seq=0"));
    assert_eq!(request(2), said(LinkAction::SendItem(2), "Sent MISSION_ITEM_INT seq=2"));
    assert_eq!(request(3), fail("PX4 requested out-of-range mission item 3"));
}

#[test]
fn uploads_end_with_the_verdict() {
    let ack = |result| upload_mission(&message(MessageBody::MissionAck { result }), 3);
    let accepted = MavMissionResult::MAV_MISSION_ACCEPTED;
    let denied = MavMissionResult::MAV_MISSION_DENIED;
    assert_eq!(
        ack(value(accepted as u32, &format!("{:?}", accepted))),
        silent(LinkAction::Finish(()))
    );
    assert_eq!(
        ack(value(denied as u32, &format!("{:?}", denied))),
        fail("MISSION_ACK was not accepted: MAV_MISSION_DENIED")
    );
}

#[test]
fn uploads_pass_over_the_rest() {
    assert_eq!(upload_mission(&message(MessageBody::Unmanaged), 3), silent(LinkAction::Continue));
    assert_eq!(
        upload_mission(&message(MessageBody::StatusText { text: c_text("busy") }), 3),
        said(LinkAction::Continue, "PX4: busy")
    );
    assert_eq!(upload_mission(&LinkEvent::Quiet, 3), silent(LinkAction::Pause));
    assert_eq!(upload_mission(&broken(), 3), fail("recv error during mission upload: Io(x)"));
    assert_eq!(
        upload_mission(&LinkEvent::DeadlinePassed, 3),
        late("Timed out during mission upload")
    );
}

#[test]
fn an_upload_without_acceptance_does_not_succeed() {
    let events = [
        LinkEvent::Quiet,
        message(MessageBody::MissionRequestInt { seq: 0 }),
        message(MessageBody::CommandAck { command: 400, result: value(0, "MAV_RESULT_ACCEPTED") }),
        message(MessageBody::MissionItemReached { seq: 9 }),
        LinkEvent::DeadlinePassed,
    ];
    for event in &events {
        assert!(!matches!(upload_mission(event, 1).action, LinkAction::Finish(())));
    }
}

#[test]
fn commands_are_acknowledged_by_their_code() {
    let cases = [
        (Command::NavWaypoint, MavCmd::MAV_CMD_NAV_WAYPOINT),
        (Command::NavLand, MavCmd::MAV_CMD_NAV_LAND),
        (Command::NavTakeoff, MavCmd::MAV_CMD_NAV_TAKEOFF),
        (Command::DoSetMode, MavCmd::MAV_CMD_DO_SET_MODE),
        (Command::MissionStart, MavCmd::MAV_CMD_MISSION_START),
        (Command::ComponentArmDisarm, MavCmd::MAV_CMD_COMPONENT_ARM_DISARM),
    ];
    for (sent, dialect) in cases {
        let code = dialect as u32;
        let ack = |command, result: MavResult| {
            send_command_and_wait_ack(
                &message(MessageBody::CommandAck {
                    command,
                    result: value(result as u32, &format!("{:?}", result)),
                }),
                sent,
            )
        };
        assert_eq!(ack(code, MavResult::MAV_RESULT_ACCEPTED), silent(LinkAction::Finish(())));
        assert_eq!(ack(code, MavResult::MAV_RESULT_IN_PROGRESS), silent(LinkAction::Finish(())));
        assert_eq!(
            ack(code, MavResult::MAV_RESULT_DENIED),
            fail(&format!("COMMAND_ACK for {:?} returned MAV_RESULT_DENIED", dialect))
        );
        assert_eq!(ack(code + 1, MavResult::MAV_RESULT_ACCEPTED), silent(LinkAction::Continue));
        assert_eq!(ack(code + 1, MavResult::MAV_RESULT_DENIED), silent(LinkAction::Continue));
    }
}

#[test]
fn the_wording_of_a_refused_command() {
    let refused = message(MessageBody::CommandAck {
        command: 400,
        result: value(2, "MAV_RESULT_DENIED"),
    });
    assert_eq!(
        send_command_and_wait_ack(&refused, Command::ComponentArmDisarm),
        fail("COMMAND_ACK for MAV_CMD_COMPONENT_ARM_DISARM returned MAV_RESULT_DENIED")
    );
}

#[test]
fn waiting_for_an_acknowledgement_passes_over_the_rest() {
    let wait = |event: &LinkEvent| send_command_and_wait_ack(event, Command::MissionStart);
    assert_eq!(wait(&message(MessageBody::Unmanaged)), silent(LinkAction::Continue));
    assert_eq!(
        wait(&message(MessageBody::StatusText { text: c_text("arming") })),
        said(LinkAction::Continue, "PX4: arming")
    );
    assert_eq!(wait(&LinkEvent::Quiet), silent(LinkAction::Pause));
    assert_eq!(wait(&broken()), fail("recv error while waiting for COMMAND_ACK: Io(x)"));
    assert_eq!(wait(&LinkEvent::DeadlinePassed), late("Timed out waiting for COMMAND_ACK"));
}

#[test]
fn missions_end_with_their_last_item() {
    let reached = |seq| monitor_mission(&message(MessageBody::MissionItemReached { seq }), 4);
    assert_eq!(reached(3), said(LinkAction::Continue, "MISSION_ITEM_REACHED seq=3"));
    assert_eq!(reached(4), said(LinkAction::Finish(()), "MISSION_ITEM_REACHED seq=4"));
    assert_eq!(reached(5), said(LinkAction::Finish(()), "MISSION_ITEM_REACHED seq=5"));
    assert_eq!(
        monitor_mission(&message(MessageBody::MissionCurrent { seq: 4 }), 4),
        said(LinkAction::Continue, "MISSION_CURRENT seq=4")
    );
}

#[test]
fn monitoring_passes_over_the_rest() {
    assert_eq!(monitor_mission(&message(MessageBody::Unmanaged), 4), silent(LinkAction::Continue));
    assert_eq!(
        monitor_mission(&message(MessageBody::StatusText { text: c_text("wind") }), 4),
        said(LinkAction::Continue, "PX4: wind")
    );
    assert_eq!(monitor_mission(&LinkEvent::Quiet, 4), silent(LinkAction::Pause));
    assert_eq!(
        monitor_mission(&broken(), 4),
        fail("recv error while monitoring mission: Io(x)")
    );
    assert_eq!(
        monitor_mission(&LinkEvent::DeadlinePassed, 4),
        late("Timed out waiting for mission completion")
    );
}

#[test]
fn long_commands() {
    let arm = CommandLong {
        param1: 1,
        param2: 0,
        param3: 0,
        param4: 0,
        param5: 0,
        param6: 0,
        param7: 0,
        command: Command::ComponentArmDisarm,
        target_system: 3,
        target_component: 1,
        confirmation: 0,
    };
    assert_eq!(arm_vehicle(3, 1), arm);
    assert_eq!(
        set_px4_mission_mode(3, 1),
        CommandLong { param2: 4, param3: 4, command: Command::DoSetMode, ..arm }
    );
    let start = CommandLong { param1: 0, command: Command::MissionStart, ..arm };
    assert_eq!(start_mission(3, 1, 0), start);
    assert_eq!(start_mission(3, 1, 1), start);
    assert_eq!(start_mission(3, 1, 5), CommandLong { param2: 4, ..start });
    assert_eq!(start_mission(3, 1, 65_535), CommandLong { param2: 65_534, ..start });
}

/// The result of an exchange that takes these steps.
fn run<T>(steps: Vec<LinkStep<T>>) -> Option<Result<T, SwarmError>> {
    for step in steps {
        match step.action {
            LinkAction::Finish(value) => return Some(Ok(value)),
            LinkAction::Fail(error) => return Some(Err(error)),
            _ => {}
        }
    }
    None
}

#[test]
fn the_first_settling_event_decides() {
    let accepted = || message(MessageBody::MissionAck { result: value(0, "MAV_MISSION_ACCEPTED") });
    let denied = || message(MessageBody::MissionAck { result: value(14, "MAV_MISSION_DENIED") });
    let request = || message(MessageBody::MissionRequestInt { seq: 0 });
    let upload = |events: Vec<LinkEvent>| {
        run(events.iter().map(|event| upload_mission(event, 1)).collect())
    };
    assert_eq!(upload(vec![request(), LinkEvent::Quiet, accepted(), denied()]), Some(Ok(())));
    assert!(matches!(upload(vec![request(), denied(), accepted()]), Some(Err(_))));
    assert!(matches!(upload(vec![broken(), accepted()]), Some(Err(_))));
    assert_eq!(upload(vec![request(), LinkEvent::Quiet]), None);
    let beat = |autopilot| message(MessageBody::Heartbeat { autopilot });
    let find = |events: Vec<LinkEvent>| run(events.iter().map(wait_for_vehicle).collect());
    assert_eq!(find(vec![beat(MAV_AUTOPILOT_INVALID), beat(12)]), Some(Ok((3, 1))));
    assert!(matches!(find(vec![LinkEvent::DeadlinePassed, beat(12)]), Some(Err(_))));
    let at = |lat, lon| message(MessageBody::GlobalPositionInt { lat, lon });
    let locate = |events: Vec<LinkEvent>| run(events.iter().map(wait_for_position).collect());
    assert_eq!(locate(vec![at(0, 1), at(1, 0), at(4, 5), at(6, 7)]), Some(Ok((4, 5))));
}
