//! The lines in which vehicle events are shown.
use vstd::prelude::*;
use vstd::string::*;
use vstd::utf8::*;
use crate::text;
use crate::text::{count_text, decimal_text, fixed_1e7_text};
use crate::vehicle_actor::{
    VehicleEvent, VehicleEventKind, VehicleEventKindView, VehicleEventView,
};

verus! {

/// The first twelve bytes of a hash, where they are whole characters; otherwise all of
/// it.
pub open spec fn shortened(hash: Seq<char>) -> Seq<char> {
    if is_char_boundary(encode_utf8(hash), 12) {
        decode_utf8(encode_utf8(hash).subrange(0, 12))
    } else {
        hash
    }
}

/// The beginning of a hash, which is enough to tell it from others by eye.
pub fn short_hash(hash: &str) -> (r: &str)
    ensures
        r@ == shortened(hash@),
{
    if hash.is_char_boundary(12) {
        let (head, _tail) = hash.split_at(12);
        proof {
            encode_utf8_decode_utf8(head@);
        }
        head
    } else {
        hash
    }
}

/// Of a hash that is plain ASCII, the first twelve characters are shown; a shorter one
/// is shown whole.
pub proof fn law_ascii_hash_is_cut(hash: Seq<char>)
    requires
        is_ascii_chars(hash),
    ensures
        hash.len() >= 12 ==> shortened(hash) == hash.take(12),
        hash.len() < 12 ==> shortened(hash) == hash,
{
    is_ascii_chars_encode_utf8(hash);
    encode_utf8_valid_utf8(hash);
    let bytes = encode_utf8(hash);
    if hash.len() > 12 {
        is_char_boundary_iff_is_leading_byte(bytes, 12);
        assert(hash[12] as u8 == bytes[12]);
        assert(is_leading_byte_width_1(bytes[12]));
    } else if hash.len() == 12 {
        is_char_boundary_start_end_of_seq(bytes);
    }
    if hash.len() >= 12 {
        let head = hash.take(12);
        is_ascii_chars_encode_utf8(head);
        assert(encode_utf8(head) =~= bytes.subrange(0, 12));
        encode_utf8_decode_utf8(head);
    }
}

/// What an event says.
pub open spec fn kind_text(kind: VehicleEventKindView) -> Seq<char> {
    match kind {
        VehicleEventKindView::CommandAccepted => "command accepted"@,
        VehicleEventKindView::Connecting { endpoint } => "connecting: "@ + endpoint,
        VehicleEventKindView::Discovered { system_id, component_id } => "discovered sys="@
            + text::decimal(system_id as nat) + ", comp="@ + text::decimal(component_id as nat),
        VehicleEventKindView::StartPosition { lat_1e7, lon_1e7 } => "start position lat="@
            + text::fixed_1e7(lat_1e7 as int) + ", lon="@ + text::fixed_1e7(lon_1e7 as int),
        VehicleEventKindView::MissionBuilt { item_count, spec_hash, upload_hash } => {
            "mission built: "@ + text::decimal(item_count as nat) + " items, spec_hash="@
                + shortened(spec_hash) + ", upload_hash="@ + shortened(upload_hash)
        },
        VehicleEventKindView::MissionUploaded => "mission uploaded"@,
        VehicleEventKindView::Armed => "armed"@,
        VehicleEventKindView::ReadinessVote { mission_hash, item_count } => {
            "readiness vote: item_count="@ + text::decimal(item_count as nat) + ", mission_hash="@
                + shortened(mission_hash)
        },
        VehicleEventKindView::WaitingForStart { mission_hash } => {
            "waiting for supervisor start decision, mission_hash="@ + shortened(mission_hash)
        },
        VehicleEventKindView::StartApproved => "start approved"@,
        VehicleEventKindView::StartAborted { reason } => "start aborted: "@ + reason,
        VehicleEventKindView::MissionStarted => "mission started"@,
        VehicleEventKindView::MissionMonitorStarted => "monitoring mission"@,
        VehicleEventKindView::Completed => "completed"@,
        VehicleEventKindView::Failed { error } => "failed: "@ + error,
        VehicleEventKindView::ShutdownAck => "shutdown"@,
    }
}

/// The line in which an event is shown.
pub open spec fn event_text(event: VehicleEventView) -> Seq<char> {
    "["@ + event.phase + "]["@ + event.vehicle + "] "@ + kind_text(event.kind)
}

/// What an event says.
fn kind_line(kind: &VehicleEventKind) -> (r: String)
    ensures
        r@ == kind_text(kind@),
{
    match kind {
        VehicleEventKind::CommandAccepted => "command accepted".to_string(),
        VehicleEventKind::Connecting { endpoint } => "connecting: ".to_string().concat(
            endpoint.as_str(),
        ),
        VehicleEventKind::Discovered { system_id, component_id } => {
            "discovered sys=".to_string().concat(decimal_text(*system_id as u64).as_str()).concat(
                ", comp=",
            ).concat(decimal_text(*component_id as u64).as_str())
        },
        VehicleEventKind::StartPosition { lat_1e7, lon_1e7 } => {
            "start position lat=".to_string().concat(fixed_1e7_text(*lat_1e7).as_str()).concat(
                ", lon=",
            ).concat(fixed_1e7_text(*lon_1e7).as_str())
        },
        VehicleEventKind::MissionBuilt { item_count, spec_hash, upload_hash } => {
            "mission built: ".to_string().concat(count_text(*item_count).as_str()).concat(
                " items, spec_hash=",
            ).concat(short_hash(spec_hash.as_str())).concat(", upload_hash=").concat(
                short_hash(upload_hash.as_str()),
            )
        },
        VehicleEventKind::MissionUploaded => "mission uploaded".to_string(),
        VehicleEventKind::Armed => "armed".to_string(),
        VehicleEventKind::ReadinessVote { mission_hash, item_count } => {
            "readiness vote: item_count=".to_string().concat(
                count_text(*item_count).as_str(),
            ).concat(", mission_hash=").concat(short_hash(mission_hash.as_str()))
        },
        VehicleEventKind::WaitingForStart { mission_hash } => {
            "waiting for supervisor start decision, mission_hash=".to_string().concat(
                short_hash(mission_hash.as_str()),
            )
        },
        VehicleEventKind::StartApproved => "start approved".to_string(),
        VehicleEventKind::StartAborted { reason } => "start aborted: ".to_string().concat(
            reason.as_str(),
        ),
        VehicleEventKind::MissionStarted => "mission started".to_string(),
        VehicleEventKind::MissionMonitorStarted => "monitoring mission".to_string(),
        VehicleEventKind::Completed => "completed".to_string(),
        VehicleEventKind::Failed { error } => "failed: ".to_string().concat(error.as_str()),
        VehicleEventKind::ShutdownAck => "shutdown".to_string(),
    }
}

/// The line in which an event is shown.
pub fn event_line(event: &VehicleEvent) -> (r: String)
    ensures
        r@ == event_text(event@),
{
    "[".to_string().concat(event.phase.as_str()).concat("][").concat(
        event.vehicle.as_str(),
    ).concat("] ").concat(kind_line(&event.kind).as_str())
}

} // verus!
