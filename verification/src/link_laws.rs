//! What each received message means to each exchange.
//!
//! Every exchange is asked about every message: which ones end it, with what result, and
//! which ones it passes over.
use vstd::prelude::*;
use vstd::utf8::*;
use crate::mavlink_client;
use crate::mavlink_client::{
    AnyResult, Command, CommandLong, EnumValue, LinkAction, LinkActionView, LinkEvent, LinkMessage,
    LinkStep, LinkStepView, MessageBody, SwarmError, SwarmErrorView, COMMAND_TIMEOUT_SECS,
    DISCOVERY_TIMEOUT_SECS, MAV_AUTOPILOT_INVALID, MAV_MISSION_ACCEPTED, MAV_RESULT_ACCEPTED,
    MAV_RESULT_IN_PROGRESS, MISSION_TIMEOUT_SECS, PX4_MAIN_MODE_AUTO, PX4_SUB_MODE_AUTO_MISSION,
    QUIET_PAUSE_MILLIS, UPLOAD_TIMEOUT_SECS,
};
use crate::text;

verus! {

/// Whether an exchange goes on as if the message had not come.
pub open spec fn passes_over<T>(step: LinkStepView<T>) -> bool {
    step.action is Continue && step.line is None
}

/// The heartbeat of any autopilot ends the wait for a vehicle, with the ids of its sender;
/// every other message is passed over.
pub proof fn law_any_autopilot_is_a_vehicle(message: LinkMessage, autopilot: u32)
    ensures
        ({
            let step = mavlink_client::vehicle_step(LinkEvent::Message(message));
            &&& message.body == (MessageBody::Heartbeat { autopilot }) && autopilot
                != MAV_AUTOPILOT_INVALID ==> step.action == LinkActionView::Finish(
                (message.system_id, message.component_id),
            ) && step.line is None
            &&& message.body == (MessageBody::Heartbeat { autopilot: MAV_AUTOPILOT_INVALID })
                ==> passes_over(step)
            &&& !(message.body is Heartbeat || message.body is StatusText) ==> passes_over(step)
        }),
{
}

/// A position ends the wait for one, wherever on the globe it lies: every pair of
/// coordinates neither of which is zero is found as it was sent. A position with a zero is
/// passed over, and other messages are named.
pub proof fn law_every_known_position_is_found(message: LinkMessage, lat: i32, lon: i32)
    ensures
        ({
            let step = mavlink_client::position_step(LinkEvent::Message(message));
            &&& message.body == (MessageBody::GlobalPositionInt { lat, lon }) && lat != 0 && lon
                != 0 ==> step.action == LinkActionView::Finish((lat, lon)) && step.line is None
            &&& message.body == (MessageBody::GlobalPositionInt { lat, lon }) && (lat == 0 || lon
                == 0) ==> passes_over(step)
            &&& !(message.body is GlobalPositionInt || message.body is StatusText) ==> step.action
                is Continue && step.line == Some(
                "Unmanaged Message with name "@ + message.name@ + " and id "@ + text::decimal(
                    message.id as nat,
                ),
            )
        }),
{
}

/// During an upload every item that the mission has is sent when it is requested, and the
/// request of any other ends the upload. The vehicle's acceptance ends it with success, and
/// any other verdict with an error that names it; the rest is passed over.
pub proof fn law_uploads_send_what_there_is(
    message: LinkMessage,
    mission_len: nat,
    seq: u16,
    result: EnumValue,
)
    ensures
        ({
            let step = mavlink_client::upload_step(LinkEvent::Message(message), mission_len);
            let requested = message.body == (MessageBody::MissionRequestInt { seq });
            let answered = message.body == (MessageBody::MissionAck { result });
            &&& requested && seq < mission_len ==> {
                &&& step.action matches LinkActionView::SendItem(index) && index == seq
                &&& step.line == Some("Sent MISSION_ITEM_INT seq="@ + text::decimal(seq as nat))
            }
            &&& requested && seq >= mission_len ==> step.action == LinkActionView::<()>::Fail(
                SwarmErrorView::Other(
                    "PX4 requested out-of-range mission item "@ + text::decimal(seq as nat),
                ),
            ) && step.line is None
            &&& answered && result.code == MAV_MISSION_ACCEPTED ==> step.action
                == LinkActionView::Finish(()) && step.line is None
            &&& answered && result.code != MAV_MISSION_ACCEPTED ==> step.action
                == LinkActionView::<()>::Fail(
                SwarmErrorView::Other("MISSION_ACK was not accepted: "@ + result.name@),
            ) && step.line is None
            &&& !(message.body is MissionRequestInt || message.body is MissionAck || message.body
                is StatusText) ==> passes_over(step)
        }),
{
}

/// A command is settled by its own acknowledgement, whatever that says: accepted or in
/// progress is success, and anything else an error that names the command and the result.
/// Acknowledgements of other commands, and other messages, are passed over.
pub proof fn law_commands_are_settled_by_their_own_ack(
    message: LinkMessage,
    expected: Command,
    code: u32,
    result: EnumValue,
)
    ensures
        ({
            let step = mavlink_client::command_step(LinkEvent::Message(message), expected);
            let answered = message.body == (MessageBody::CommandAck { command: code, result });
            let good = result.code == MAV_RESULT_ACCEPTED || result.code == MAV_RESULT_IN_PROGRESS;
            let own = code == expected.value().code;
            &&& answered && own && good ==> step.action == LinkActionView::Finish(()) && step.line
                is None
            &&& answered && own && !good ==> step.action == LinkActionView::<()>::Fail(
                SwarmErrorView::Other(
                    "COMMAND_ACK for "@ + expected.value().name + " returned "@ + result.name@,
                ),
            ) && step.line is None
            &&& answered && !own ==> passes_over(step)
            &&& !(message.body is CommandAck || message.body is StatusText) ==> passes_over(step)
        }),
{
}

/// Reaching the last item of a mission, or a later one, ends the monitoring; an earlier one
/// and the current item are shown, and other messages are passed over.
pub proof fn law_missions_end_at_the_last_item(message: LinkMessage, final_seq: u16, seq: u16)
    ensures
        ({
            let step = mavlink_client::monitor_step(LinkEvent::Message(message), final_seq);
            let reached = message.body == (MessageBody::MissionItemReached { seq });
            &&& reached && seq >= final_seq ==> step.action == LinkActionView::Finish(())
            &&& reached && seq < final_seq ==> step.action is Continue
            &&& reached ==> step.line == Some(
                "MISSION_ITEM_REACHED seq="@ + text::decimal(seq as nat),
            )
            &&& message.body == (MessageBody::MissionCurrent { seq }) ==> step.action is Continue
                && step.line == Some("MISSION_CURRENT seq="@ + text::decimal(seq as nat))
            &&& !(message.body is MissionItemReached || message.body is MissionCurrent
                || message.body is StatusText) ==> passes_over(step)
        }),
{
}

/// What every exchange does alike: it shows status texts, sleeps when the link is quiet, and
/// gives up on a read error, with its detail, and at the deadline.
pub open spec fn is_ordinary<T>(
    event: LinkEvent,
    step: LinkStepView<T>,
    read_error: Seq<char>,
    timeout: Seq<char>,
) -> bool {
    match event {
        LinkEvent::Message(message) => message.body matches MessageBody::StatusText { text: bytes }
            ==> step.action is Continue && step.line == Some(
            "PX4: "@ + mavlink_client::c_text(bytes@),
        ),
        LinkEvent::Quiet => step.action is Pause && step.line is None,
        LinkEvent::ReadError { detail } => step.action == LinkActionView::<T>::Fail(
            SwarmErrorView::Other(read_error + detail@),
        ) && step.line is None,
        LinkEvent::DeadlinePassed => step.action == LinkActionView::<T>::Fail(
            SwarmErrorView::TimedOut(timeout),
        ) && step.line is None,
    }
}

/// All exchanges show status texts, sleep on a quiet link, and give up on a read error and at
/// the deadline, each in its own words.
pub proof fn law_exchanges_wait_and_give_up_alike(
    event: LinkEvent,
    mission_len: nat,
    command: Command,
    final_seq: u16,
)
    ensures
        is_ordinary(
            event,
            mavlink_client::vehicle_step(event),
            "recv error while waiting for HEARTBEAT: "@,
            "Timed out waiting for PX4 HEARTBEAT"@,
        ),
        is_ordinary(
            event,
            mavlink_client::position_step(event),
            "recv error while waiting for position: "@,
            "Timed out waiting for GLOBAL_POSITION_INT"@,
        ),
        is_ordinary(
            event,
            mavlink_client::upload_step(event, mission_len),
            "recv error during mission upload: "@,
            "Timed out during mission upload"@,
        ),
        is_ordinary(
            event,
            mavlink_client::command_step(event, command),
            "recv error while waiting for COMMAND_ACK: "@,
            "Timed out waiting for COMMAND_ACK"@,
        ),
        is_ordinary(
            event,
            mavlink_client::monitor_step(event, final_seq),
            "recv error while monitoring mission: "@,
            "Timed out waiting for mission completion"@,
        ),
{
}

/// A step that finishes or fails settles its exchange with just that, and no other does.
pub proof fn law_settling<T>(step: LinkStepView<T>)
    ensures
        step.action matches LinkActionView::Finish(value) ==> mavlink_client::settled(step) == Some(
            Ok::<T, SwarmErrorView>(value),
        ),
        step.action matches LinkActionView::Fail(error) ==> mavlink_client::settled(step) == Some(
            Err::<T, SwarmErrorView>(error),
        ),
        !(step.action is Finish || step.action is Fail) ==> mavlink_client::settled(step) is None,
{
}

/// What stands before the first zero byte: no zero is in it, the bytes begin with it, and it
/// is all of them or ends at a zero.
pub proof fn law_c_strings_end_at_the_first_zero(bytes: Seq<u8>)
    ensures
        ({
            let before = mavlink_client::before_nul(bytes);
            &&& before.len() <= bytes.len()
            &&& before == bytes.take(before.len() as int)
            &&& forall|i: int| 0 <= i < before.len() ==> #[trigger] bytes[i] != 0
            &&& before.len() < bytes.len() ==> bytes[before.len() as int] == 0
        }),
    decreases bytes.len(),
{
    if bytes.len() > 0 && bytes[0] != 0 {
        let rest = bytes.drop_first();
        law_c_strings_end_at_the_first_zero(rest);
        let before = mavlink_client::before_nul(bytes);
        let less = mavlink_client::before_nul(rest);
        assert(before =~= bytes.take(before.len() as int));
        assert forall|i: int| 0 <= i < before.len() implies #[trigger] bytes[i] != 0 by {
            if i > 0 {
                assert(rest[i - 1] != 0);
            }
        }
        if before.len() < bytes.len() {
            assert(rest[less.len() as int] == bytes[before.len() as int]);
        }
    } else {
        assert(bytes.take(0) =~= Seq::empty());
    }
}

/// The text of a C string encodes to what stands before its first zero byte; where that is
/// not UTF-8, the text is empty.
pub proof fn law_c_text_is_what_was_encoded(bytes: Seq<u8>, text: Seq<char>)
    ensures
        mavlink_client::before_nul(bytes) == encode_utf8(text) ==> mavlink_client::c_text(bytes)
            == text,
        !valid_utf8(mavlink_client::before_nul(bytes)) ==> mavlink_client::c_text(bytes).len()
            == 0,
{
    encode_utf8_valid_utf8(text);
    encode_utf8_decode_utf8(text);
}

/// Different commands have different codes, so that the acknowledgement of one is never taken
/// for that of another.
pub proof fn law_commands_have_their_own_codes(a: Command, b: Command)
    ensures
        a.value().code == b.value().code <==> a == b,
{
}

/// A long command goes to the vehicle that it is for, as a first request, with its three
/// parameters in their places and zeros behind them.
pub proof fn law_long_commands(
    command: Command,
    target_system: u8,
    target_component: u8,
    param1: u16,
    param2: u16,
    param3: u16,
)
    ensures
        ({
            let long = CommandLong::first(
                command,
                target_system,
                target_component,
                param1,
                param2,
                param3,
            );
            &&& long.command == command
            &&& long.target_system == target_system
            &&& long.target_component == target_component
            &&& long.param1 == param1
            &&& long.param2 == param2
            &&& long.param3 == param3
            &&& long.param4 == 0
            &&& long.param5 == 0
            &&& long.param6 == 0
            &&& long.param7 == 0
            &&& long.confirmation == 0
        }),
{
}

/// The numbers of the protocol and of the exchanges: codes of the dialect, PX4's mission mode,
/// and the time that each exchange may take.
pub proof fn law_fixed_numbers()
    ensures
        MAV_AUTOPILOT_INVALID == 8,
        MAV_MISSION_ACCEPTED == 0,
        MAV_RESULT_ACCEPTED == 0,
        MAV_RESULT_IN_PROGRESS == 5,
        PX4_MAIN_MODE_AUTO == 4,
        PX4_SUB_MODE_AUTO_MISSION == 4,
        DISCOVERY_TIMEOUT_SECS == 20,
        UPLOAD_TIMEOUT_SECS == 30,
        COMMAND_TIMEOUT_SECS == 10,
        MISSION_TIMEOUT_SECS == 300,
        QUIET_PAUSE_MILLIS == 50,
{
}

/// The views of errors and steps show all that these hold.
pub proof fn law_views_of_steps_are_complete<T>(
    error: SwarmError,
    step: LinkStep<T>,
    result: AnyResult<T>,
    value: EnumValue,
)
    ensures
        error matches SwarmError::TimedOut(message) ==> error@ == SwarmErrorView::TimedOut(message@)
            && error@.message() == message@,
        error matches SwarmError::Other(message) ==> error@ == SwarmErrorView::Other(message@)
            && error@.message() == message@,
        step.action is Continue ==> step@.action is Continue,
        step.action is Pause ==> step@.action is Pause,
        step.action matches LinkAction::SendItem(index) ==> step@.action
            == LinkActionView::<T>::SendItem(index),
        step.action matches LinkAction::Finish(yielded) ==> step@.action == LinkActionView::Finish(
            yielded,
        ),
        step.action matches LinkAction::Fail(failure) ==> step@.action
            == LinkActionView::<T>::Fail(failure@),
        step.line matches Some(line) ==> step@.line == Some(line@),
        step.line is None ==> step@.line is None,
        result matches Ok(yielded) ==> mavlink_client::result_view(result) == Ok::<
            T,
            SwarmErrorView,
        >(yielded),
        result matches Err(failure) ==> mavlink_client::result_view(result) == Err::<
            T,
            SwarmErrorView,
        >(failure@),
        value@.code == value.code,
        value@.name == value.name@,
{
}

} // verus!
