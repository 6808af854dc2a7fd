use drone_swarm::mavlink_client::EnumValue;
use drone_swarm::mission::{
    build_relative_mission_items, digest_label, hash_mission_items, hash_mission_specs,
    hex_sha256, mission_item_bytes, MissionItem, MissionSpec, UNSET_BITS, ZERO_BITS,
};
use mavlink::common::{MavCmd, MavFrame};
use sha2::Digest;

const TAKEOFF: MissionSpec = MissionSpec::Takeoff { rel_alt_m: 0x4120_0000 };

fn waypoint() -> MissionSpec {
    MissionSpec::Waypoint {
        north_m: 10.5_f64.to_bits(),
        east_m: (-3.0_f64).to_bits(),
        rel_alt_m: 15.25_f32.to_bits(),
        acceptance_radius_m: 2.0_f32.to_bits(),
    }
}

fn land() -> MissionSpec {
    MissionSpec::Land { north_m: 0.0_f64.to_bits(), east_m: 1.0_f64.to_bits() }
}

fn built(positions: Vec<(i32, i32)>, mission: Vec<MissionSpec>) -> Vec<MissionItem> {
    build_relative_mission_items(7, 1, 11, -12, &positions, &mission).unwrap()
}

fn command(value: MavCmd) -> EnumValue {
    EnumValue { code: value as u32, name: format!("{:?}", value) }
}

#[test]
fn bit_constants() {
    assert_eq!(ZERO_BITS, 0.0_f32.to_bits());
    assert_eq!(UNSET_BITS, f32::NAN.to_bits());
    assert_eq!(TAKEOFF, MissionSpec::Takeoff { rel_alt_m: 10.0_f32.to_bits() });
}

#[test]
fn every_leg_becomes_an_item() {
    let items = built(vec![(1, 2), (-3, 4), (5, -6)], vec![TAKEOFF, waypoint(), land()]);
    let frame = EnumValue {
        code: MavFrame::MAV_FRAME_GLOBAL_RELATIVE_ALT as u32,
        name: format!("{:?}", MavFrame::MAV_FRAME_GLOBAL_RELATIVE_ALT),
    };
    let takeoff = MissionItem {
        param1: 0.0_f32.to_bits(),
        param2: 0.0_f32.to_bits(),
        param3: 0.0_f32.to_bits(),
        param4: f32::NAN.to_bits(),
        x: 11,
        y: -12,
        z: 10.0_f32.to_bits(),
        seq: 0,
        command: command(MavCmd::MAV_CMD_NAV_TAKEOFF),
        target_system: 7,
        target_component: 1,
        frame,
        current: 1,
        autocontinue: 1,
    };
    let middle = MissionItem {
        param2: 2.0_f32.to_bits(),
        x: -3,
        y: 4,
        z: 15.25_f32.to_bits(),
        seq: 1,
        command: command(MavCmd::MAV_CMD_NAV_WAYPOINT),
        current: 0,
        ..takeoff.clone()
    };
    let landing = MissionItem {
        x: 5,
        y: -6,
        z: 0.0_f32.to_bits(),
        seq: 2,
        command: command(MavCmd::MAV_CMD_NAV_LAND),
        current: 0,
        ..takeoff.clone()
    };
    assert_eq!(items, vec![takeoff, middle, landing]);
}

#[test]
fn enumeration_values_exactly() {
    let items = built(vec![(0, 0); 3], vec![TAKEOFF, waypoint(), land()]);
    let commands: Vec<(u32, &str)> =
        items.iter().map(|item| (item.command.code, item.command.name.as_str())).collect();
    assert_eq!(
        commands,
        vec![(22, "MAV_CMD_NAV_TAKEOFF"), (16, "MAV_CMD_NAV_WAYPOINT"), (21, "MAV_CMD_NAV_LAND")]
    );
    assert_eq!(items[0].frame.code, 3);
    assert_eq!(items[0].frame.name, "MAV_FRAME_GLOBAL_RELATIVE_ALT");
}

#[test]
fn an_empty_mission_has_no_items() {
    assert_eq!(built(vec![], vec![]), vec![]);
}

#[test]
fn item_numbers_wrap_at_sixteen_bits() {
    let items = built(vec![(0, 0); 65_538], vec![TAKEOFF; 65_538]);
    assert_eq!((items[1].seq, items[1].current), (1, 0));
    assert_eq!((items[65_535].seq, items[65_535].current), (65_535, 0));
    assert_eq!((items[65_536].seq, items[65_536].current), (0, 1));
    assert_eq!((items[65_537].seq, items[65_537].current), (1, 0));
}

#[test]
fn items_are_hashed_field_by_field() {
    let items = built(vec![(473_977_418, -85_455_939), (i32::MIN, -1)], vec![waypoint(), land()]);
    let mut wanted: Vec<u8> = Vec::new();
    for item in &items {
        wanted.extend(f32::from_bits(item.param1).to_le_bytes());
        wanted.extend(f32::from_bits(item.param2).to_le_bytes());
        wanted.extend(f32::from_bits(item.param3).to_le_bytes());
        wanted.extend(f32::from_bits(item.param4).to_le_bytes());
        wanted.extend(item.x.to_le_bytes());
        wanted.extend(item.y.to_le_bytes());
        wanted.extend(f32::from_bits(item.z).to_le_bytes());
        wanted.extend(item.seq.to_le_bytes());
        wanted.extend(item.command.name.as_bytes());
        wanted.extend([item.target_system, item.target_component]);
        wanted.extend(item.frame.name.as_bytes());
        wanted.extend([item.current, item.autocontinue]);
    }
    assert_eq!(mission_item_bytes(&items), wanted);
    assert_eq!(hash_mission_items(&items), format!("{:?}", sha2::Sha256::digest(&wanted)));
}

#[test]
fn a_vehicle_takes_off_where_it_stands() {
    let legs = vec![TAKEOFF, land(), TAKEOFF];
    let items =
        build_relative_mission_items(7, 1, 473_977_418, -85_455_939, &vec![(1, 2); 3], &legs)
            .unwrap();
    let places: Vec<(i32, i32)> = items.iter().map(|item| (item.x, item.y)).collect();
    assert_eq!(places, vec![(473_977_418, -85_455_939), (1, 2), (473_977_418, -85_455_939)]);
}

#[test]
fn ten_millionths_of_a_degree_survive_degrees() {
    let mut n: i32 = i32::MIN;
    for _ in 0..200_000 {
        assert_eq!((n as f64 / 1e7 * 1e7).round() as i32, n);
        n = n.wrapping_mul(1_103_515_245).wrapping_add(12_345);
    }
    assert_eq!((i32::MAX as f64 / 1e7 * 1e7).round() as i32, i32::MAX);
}

#[test]
fn different_items_have_different_hashes() {
    let here = built(vec![(1, 2)], vec![land()]);
    let there = built(vec![(1, 3)], vec![land()]);
    assert_eq!(hash_mission_items(&here), hash_mission_items(&here.clone()));
    assert_eq!(hash_mission_items(&here), hash_mission_items(&built(vec![(1, 2)], vec![land()])));
    assert_ne!(hash_mission_items(&here), hash_mission_items(&there));
}

#[test]
fn every_changed_field_changes_the_hash() {
    let item = built(vec![(1, 2)], vec![waypoint()]).remove(0);
    let first = built(vec![(5, 6)], vec![land()]).remove(0);
    let other = |name: &str| EnumValue { code: 0, name: name.to_string() };
    let changed = [
        MissionItem { param1: item.param1 ^ 1, ..item.clone() },
        MissionItem { param2: item.param2 ^ 1, ..item.clone() },
        MissionItem { param3: item.param3 ^ 1, ..item.clone() },
        MissionItem { param4: item.param4 ^ 1, ..item.clone() },
        MissionItem { x: -item.x, ..item.clone() },
        MissionItem { y: -item.y, ..item.clone() },
        MissionItem { z: item.z ^ 0x8000_0000, ..item.clone() },
        MissionItem { seq: item.seq ^ 256, ..item.clone() },
        MissionItem { command: other("MAV_CMD_NAV_LAND"), ..item.clone() },
        MissionItem { target_system: item.target_system ^ 1, ..item.clone() },
        MissionItem { target_component: item.target_component ^ 1, ..item.clone() },
        MissionItem { frame: other("MAV_FRAME_GLOBAL"), ..item.clone() },
        MissionItem { current: item.current ^ 1, ..item.clone() },
        MissionItem { autocontinue: item.autocontinue ^ 1, ..item.clone() },
    ];
    let hash = hash_mission_items(&vec![first.clone(), item.clone()]);
    for one in changed {
        let mission = vec![first.clone(), one];
        assert_ne!(mission_item_bytes(&mission), mission_item_bytes(&vec![first.clone(), item.clone()]));
        assert_ne!(hash_mission_items(&mission), hash);
    }
}

#[test]
fn only_the_names_of_commands_and_frames_are_hashed() {
    let item = built(vec![(1, 2)], vec![land()]).remove(0);
    let recoded = MissionItem {
        command: EnumValue { code: 0, name: item.command.name.clone() },
        ..item.clone()
    };
    assert_eq!(hash_mission_items(&vec![recoded]), hash_mission_items(&vec![item]));
}

#[test]
fn different_digests_are_shown_differently() {
    let label = |at: usize, value: u8| {
        let mut digest = [1_u8; 32];
        digest[at] = value;
        digest_label(digest)
    };
    assert_ne!(label(0, 11), label(1, 11));
    assert_ne!(label(3, 12), label(3, 21));
    assert_eq!(label(3, 12), label(3, 12));
}

#[test]
fn digest_of_nothing() {
    let wanted = "Array([227, 176, 196, 66, 152, 252, 28, 20, 154, 251, 244, 200, 153, 111, 185, \
                  36, 39, 174, 65, 228, 100, 155, 147, 76, 164, 149, 153, 27, 120, 82, 184, 85])";
    assert_eq!(hex_sha256(&[]), wanted);
    assert_eq!(hash_mission_specs(&vec![]), wanted);
    assert_eq!(hash_mission_items(&vec![]), wanted);
}

#[test]
fn specs_are_hashed_by_their_encoding() {
    let encoded = b"[{\"type\":\"takeoff\",\"rel_alt_m\":10.0}]".to_vec();
    let mut hasher = sha2::Sha256::new();
    hasher.update(&encoded);
    assert_eq!(hash_mission_specs(&encoded), format!("{:?}", hasher.finalize()));
    assert_ne!(hash_mission_specs(&encoded), hash_mission_specs(&b"[]".to_vec()));
}

#[test]
fn digests_are_shown_as_lists() {
    let mut digest = [0_u8; 32];
    digest[0] = 255;
    digest[31] = 7;
    let label = digest_label(digest);
    assert!(label.starts_with("Array([255, 0, 0, "));
    assert!(label.ends_with(", 0, 7])"));
    assert_eq!(label.matches(", ").count(), 31);
}

#[test]
fn more_legs_change_no_earlier_item() {
    let places = vec![(1, 2), (3, 4), (5, 6), (7, 8)];
    let legs = vec![TAKEOFF, waypoint(), land(), waypoint()];
    let all = built(places.clone(), legs.clone());
    assert_eq!(all.len(), 4);
    for n in 0..=4 {
        assert_eq!(built(places[..n].to_vec(), legs[..n].to_vec()), all[..n].to_vec());
    }
}
