use drone_swarm::reports::{event_line, short_hash};
use drone_swarm::signing::{
    derive_signing_key, mavlink_signing_timestamp, MAVLINK_EPOCH_UNIX_SECS,
};
use drone_swarm::vehicle_actor::{VehicleEvent, VehicleEventKind};
use sha2::Digest;

#[test]
fn signing_keys_are_digests_of_passphrases() {
    assert_eq!(
        derive_signing_key("abc"),
        [
            0xba, 0x78, 0x16, 0xbf, 0x8f, 0x01, 0xcf, 0xea, 0x41, 0x41, 0x40, 0xde, 0x5d, 0xae,
            0x22, 0x23, 0xb0, 0x03, 0x61, 0xa3, 0x96, 0x17, 0x7a, 0x9c, 0xb4, 0x10, 0xff, 0x61,
            0xf2, 0x00, 0x15, 0xad,
        ]
    );
    let phrase = "swarm \u{e9}\u{10348}";
    let wanted: [u8; 32] = sha2::Sha256::digest(phrase.as_bytes()).into();
    assert_eq!(derive_signing_key(phrase), wanted);
}

#[test]
fn signing_timestamps_count_ten_microseconds() {
    assert_eq!(mavlink_signing_timestamp(MAVLINK_EPOCH_UNIX_SECS, 0), 0);
    assert_eq!(mavlink_signing_timestamp(MAVLINK_EPOCH_UNIX_SECS + 1, 0), 100_000);
    assert_eq!(mavlink_signing_timestamp(MAVLINK_EPOCH_UNIX_SECS + 3, 999_999), 399_999);
    assert_eq!(mavlink_signing_timestamp(1_700_000_000, 123_456), 27_992_960_012_345);
}

#[test]
fn times_before_the_epoch_count_as_its_first_second() {
    assert_eq!(mavlink_signing_timestamp(0, 0), 0);
    assert_eq!(mavlink_signing_timestamp(MAVLINK_EPOCH_UNIX_SECS - 1, 999_999), 99_999);
}

#[test]
fn later_times_have_later_timestamps() {
    let mut last = 0;
    for secs in 0..5 {
        for micros in [0, 9, 10, 500_000, 999_999] {
            let now = mavlink_signing_timestamp(MAVLINK_EPOCH_UNIX_SECS + secs, micros);
            assert!(last <= now);
            last = now;
        }
    }
}

#[test]
fn hashes_are_cut_to_twelve_bytes() {
    assert_eq!(short_hash("0123456789abcdef"), "0123456789ab");
    assert_eq!(short_hash("0123456789ab"), "0123456789ab");
    assert_eq!(short_hash("0123456789a"), "0123456789a");
    assert_eq!(short_hash(""), "");
}

#[test]
fn characters_are_not_cut_apart() {
    for s in ["0123456789a\u{e9}xyz", "\u{e9}\u{e9}\u{e9}\u{e9}\u{e9}\u{e9}\u{e9}", "\u{10348}abcd\u{10348}"] {
        assert_eq!(short_hash(s), s.get(..12).unwrap_or(s));
    }
    assert_eq!(short_hash("0123456789a\u{e9}xyz"), "0123456789a\u{e9}xyz");
}

fn line(kind: VehicleEventKind) -> String {
    event_line(&VehicleEvent::new("alpha".to_string(), "stage".to_string(), kind))
}

#[test]
fn events_are_shown() {
    let long = "0123456789abcdef".to_string();
    let cases = [
        (VehicleEventKind::CommandAccepted, "command accepted"),
        (VehicleEventKind::Connecting { endpoint: "udp:1".to_string() }, "connecting: udp:1"),
        (VehicleEventKind::Discovered { system_id: 7, component_id: 255 }, "discovered sys=7, comp=255"),
        (
            VehicleEventKind::StartPosition { lat_1e7: 473_977_418, lon_1e7: -85_455_939 },
            "start position lat=47.3977418, lon=-8.5455939",
        ),
        (
            VehicleEventKind::MissionBuilt {
                item_count: 3,
                spec_hash: long.clone(),
                upload_hash: "short".to_string(),
            },
            "mission built: 3 items, spec_hash=0123456789ab, upload_hash=short",
        ),
        (VehicleEventKind::MissionUploaded, "mission uploaded"),
        (VehicleEventKind::Armed, "armed"),
        (
            VehicleEventKind::ReadinessVote { mission_hash: long.clone(), item_count: 12 },
            "readiness vote: item_count=12, mission_hash=0123456789ab",
        ),
        (
            VehicleEventKind::WaitingForStart { mission_hash: long },
            "waiting for supervisor start decision, mission_hash=0123456789ab",
        ),
        (VehicleEventKind::StartApproved, "start approved"),
        (VehicleEventKind::StartAborted { reason: "why".to_string() }, "start aborted: why"),
        (VehicleEventKind::MissionStarted, "mission started"),
        (VehicleEventKind::MissionMonitorStarted, "monitoring mission"),
        (VehicleEventKind::Completed, "completed"),
        (VehicleEventKind::Failed { error: "why".to_string() }, "failed: why"),
        (VehicleEventKind::ShutdownAck, "shutdown"),
    ];
    for (kind, wanted) in cases {
        assert_eq!(line(kind), format!("[stage][alpha] {}", wanted));
    }
}
