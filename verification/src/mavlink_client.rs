//! What the ground station makes of the MAVLink messages that it receives, and the
//! commands that it sends.
//!
//! Every exchange with a vehicle is a loop that reads one event from the link at a time.
//! The functions here decide what one event means: whether to read on, to answer, or to
//! end the exchange. They work on plain copies of the messages.
use vstd::prelude::*;
use vstd::string::*;
use vstd::utf8::*;
use crate::text;
use crate::text::{count_text, decimal_text};

verus! {

/// Why an operation did not succeed.
#[derive(Debug, Clone, PartialEq, Eq)]
pub enum SwarmError {
    /// A deadline passed.
    TimedOut(String),
    /// Anything else.
    Other(String),
}

/// An error over texts.
pub enum SwarmErrorView {
    TimedOut(Seq<char>),
    Other(Seq<char>),
}

impl View for SwarmError {
    type V = SwarmErrorView;

    open spec fn view(&self) -> SwarmErrorView {
        match *self {
            SwarmError::TimedOut(message) => SwarmErrorView::TimedOut(message@),
            SwarmError::Other(message) => SwarmErrorView::Other(message@),
        }
    }
}

impl SwarmErrorView {
    /// The error's message.
    pub open spec fn message(self) -> Seq<char> {
        match self {
            SwarmErrorView::TimedOut(message) => message,
            SwarmErrorView::Other(message) => message,
        }
    }
}

impl SwarmError {
    /// The error's message.
    pub fn message(&self) -> (r: String)
        ensures
            r@ == self@.message(),
    {
        match self {
            SwarmError::TimedOut(message) => message.clone(),
            SwarmError::Other(message) => message.clone(),
        }
    }

    /// A copy of the error.
    pub fn duplicate(&self) -> (r: SwarmError)
        ensures
            r@ == self@,
    {
        match self {
            SwarmError::TimedOut(message) => SwarmError::TimedOut(message.clone()),
            SwarmError::Other(message) => SwarmError::Other(message.clone()),
        }
    }
}

/// The result of an operation that can fail.
pub type AnyResult<T> = Result<T, SwarmError>;

/// A result with its error over texts.
pub open spec fn result_view<T>(r: AnyResult<T>) -> Result<T, SwarmErrorView> {
    match r {
        Ok(value) => Ok(value),
        Err(error) => Err(error@),
    }
}

/// An error with the message `msg`.
pub fn other_err(msg: String) -> (r: SwarmError)
    ensures
        r@ == SwarmErrorView::Other(msg@),
{
    SwarmError::Other(msg)
}

/// The error of a deadline that passed.
pub fn timeout_err(msg: &str) -> (r: SwarmError)
    ensures
        r@ == SwarmErrorView::TimedOut(msg@),
{
    SwarmError::TimedOut(msg.to_string())
}

/// The autopilot code of a component that is no autopilot.
pub const MAV_AUTOPILOT_INVALID: u32 = 8;

/// The code of an accepted mission.
pub const MAV_MISSION_ACCEPTED: u32 = 0;

/// The code of an accepted command.
pub const MAV_RESULT_ACCEPTED: u32 = 0;

/// The code of a command that is being executed.
pub const MAV_RESULT_IN_PROGRESS: u32 = 5;

/// PX4's main mode "auto".
pub const PX4_MAIN_MODE_AUTO: u16 = 4;

/// The sub mode "mission" of PX4's main mode "auto".
pub const PX4_SUB_MODE_AUTO_MISSION: u16 = 4;

/// How long to wait for a vehicle's first heartbeat and for its position.
pub const DISCOVERY_TIMEOUT_SECS: u64 = 20;

/// How long a mission upload may take.
pub const UPLOAD_TIMEOUT_SECS: u64 = 30;

/// How long to wait until a command is acknowledged.
pub const COMMAND_TIMEOUT_SECS: u64 = 10;

/// How long a mission may take.
pub const MISSION_TIMEOUT_SECS: u64 = 300;

/// How long to sleep when the link has nothing to read.
pub const QUIET_PAUSE_MILLIS: u64 = 50;

/// A value of a MAVLink enumeration: its code, and the name that the dialect gives it.
#[derive(Debug, Clone, PartialEq, Eq)]
pub struct EnumValue {
    pub code: u32,
    pub name: String,
}

/// An enumeration value over texts.
pub struct EnumValueView {
    pub code: u32,
    pub name: Seq<char>,
}

impl View for EnumValue {
    type V = EnumValueView;

    open spec fn view(&self) -> EnumValueView {
        EnumValueView { code: self.code, name: self.name@ }
    }
}

/// The commands that the ground station uses.
#[derive(Debug, Clone, Copy, PartialEq, Eq)]
pub enum Command {
    NavWaypoint,
    NavLand,
    NavTakeoff,
    DoSetMode,
    MissionStart,
    ComponentArmDisarm,
}

impl Command {
    /// The command's value in the common dialect.
    pub open spec fn value(self) -> EnumValueView {
        match self {
            Command::NavWaypoint => EnumValueView { code: 16, name: "MAV_CMD_NAV_WAYPOINT"@ },
            Command::NavLand => EnumValueView { code: 21, name: "MAV_CMD_NAV_LAND"@ },
            Command::NavTakeoff => EnumValueView { code: 22, name: "MAV_CMD_NAV_TAKEOFF"@ },
            Command::DoSetMode => EnumValueView { code: 176, name: "MAV_CMD_DO_SET_MODE"@ },
            Command::MissionStart => EnumValueView { code: 300, name: "MAV_CMD_MISSION_START"@ },
            Command::ComponentArmDisarm => EnumValueView {
                code: 400,
                name: "MAV_CMD_COMPONENT_ARM_DISARM"@,
            },
        }
    }
}

/// `mavlink::common::MavCmd`: the discriminant of the command's variant, and its `Debug`
/// text, which is the variant's name.
#[verifier::external_body]
pub(crate) fn command_value(command: Command) -> (r: EnumValue)
    ensures
        r@ == command.value(),
{
    let value = match command {
        Command::NavWaypoint => mavlink::common::MavCmd::MAV_CMD_NAV_WAYPOINT,
        Command::NavLand => mavlink::common::MavCmd::MAV_CMD_NAV_LAND,
        Command::NavTakeoff => mavlink::common::MavCmd::MAV_CMD_NAV_TAKEOFF,
        Command::DoSetMode => mavlink::common::MavCmd::MAV_CMD_DO_SET_MODE,
        Command::MissionStart => mavlink::common::MavCmd::MAV_CMD_MISSION_START,
        Command::ComponentArmDisarm => mavlink::common::MavCmd::MAV_CMD_COMPONENT_ARM_DISARM,
    };
    EnumValue { code: value as u32, name: format!("{:?}", value) }
}

/// The bytes before the first zero byte, or all of them.
pub open spec fn before_nul(bytes: Seq<u8>) -> Seq<u8>
    decreases bytes.len(),
{
    if bytes.len() == 0 || bytes[0] == 0 {
        Seq::<u8>::empty()
    } else {
        seq![bytes[0]] + before_nul(bytes.drop_first())
    }
}

/// The text of a C string: what stands before the first zero byte, or nothing where that
/// is not UTF-8.
pub open spec fn c_text(bytes: Seq<u8>) -> Seq<char> {
    if valid_utf8(before_nul(bytes)) {
        decode_utf8(before_nul(bytes))
    } else {
        Seq::<char>::empty()
    }
}

/// `mavlink::types::CharArray::to_str`: the bytes before the first zero byte as text,
/// where they are valid UTF-8.
#[verifier::external_body]
fn char_array_text(bytes: &[u8; 50]) -> (r: Option<String>)
    ensures
        r is Some <==> valid_utf8(before_nul(bytes@)),
        r matches Some(s) ==> s@ == decode_utf8(before_nul(bytes@)),
{
    match mavlink::types::CharArray::<50>::new(*bytes).to_str() {
        Ok(s) => Some(s.to_string()),
        Err(_) => None,
    }
}

/// The text of a status message.
pub fn decode_c_string(bytes: &[u8; 50]) -> (r: String)
    ensures
        r@ == c_text(bytes@),
{
    match char_array_text(bytes) {
        Some(s) => s,
        None => String::new(),
    }
}

/// What a message says, as far as the ground station reads it.
#[derive(Debug, Clone)]
pub enum MessageBody {
    Heartbeat { autopilot: u32 },
    StatusText { text: [u8; 50] },
    /// A position in ten-millionths of a degree.
    GlobalPositionInt { lat: i32, lon: i32 },
    MissionRequestInt { seq: u16 },
    MissionAck { result: EnumValue },
    CommandAck { command: u32, result: EnumValue },
    MissionCurrent { seq: u16 },
    MissionItemReached { seq: u16 },
    Unmanaged,
}

/// A received message: who sent it, which one it is, and what it says.
#[derive(Debug, Clone)]
pub struct LinkMessage {
    pub system_id: u8,
    pub component_id: u8,
    pub name: String,
    pub id: u32,
    pub body: MessageBody,
}

/// What reading from a link can bring.
#[derive(Debug, Clone)]
pub enum LinkEvent {
    Message(LinkMessage),
    /// Nothing can be read without blocking.
    Quiet,
    ReadError { detail: String },
    DeadlinePassed,
}

/// What an exchange does about an event.
#[derive(Debug, Clone, PartialEq, Eq)]
pub enum LinkAction<T> {
    /// Read on.
    Continue,
    /// Sleep a little, then read on.
    Pause,
    /// Send this mission item, then read on.
    SendItem(usize),
    Finish(T),
    Fail(SwarmError),
}

/// What an exchange does about an event, and the line that it prints afterwards.
#[derive(Debug, Clone, PartialEq, Eq)]
pub struct LinkStep<T> {
    pub action: LinkAction<T>,
    pub line: Option<String>,
}

/// An action over texts.
pub enum LinkActionView<T> {
    Continue,
    Pause,
    SendItem(usize),
    Finish(T),
    Fail(SwarmErrorView),
}

/// A step over texts.
pub struct LinkStepView<T> {
    pub action: LinkActionView<T>,
    pub line: Option<Seq<char>>,
}

impl<T> View for LinkStep<T> {
    type V = LinkStepView<T>;

    open spec fn view(&self) -> LinkStepView<T> {
        LinkStepView {
            action: match self.action {
                LinkAction::Continue => LinkActionView::Continue,
                LinkAction::Pause => LinkActionView::Pause,
                LinkAction::SendItem(index) => LinkActionView::SendItem(index),
                LinkAction::Finish(value) => LinkActionView::Finish(value),
                LinkAction::Fail(error) => LinkActionView::Fail(error@),
            },
            line: match self.line {
                Some(line) => Some(line@),
                None => None,
            },
        }
    }
}

/// The step that an exchange takes for an event that is not special to it: it shows
/// status texts, passes over other messages, sleeps when the link is quiet, and gives up
/// on a read error and at the deadline.
pub open spec fn ordinary_step<T>(
    event: LinkEvent,
    read_error: Seq<char>,
    timeout: Seq<char>,
) -> LinkStepView<T> {
    match event {
        LinkEvent::Message(message) => match message.body {
            MessageBody::StatusText { text } => LinkStepView {
                action: LinkActionView::Continue,
                line: Some("PX4: "@ + c_text(text@)),
            },
            _ => LinkStepView { action: LinkActionView::Continue, line: None },
        },
        LinkEvent::Quiet => LinkStepView { action: LinkActionView::Pause, line: None },
        LinkEvent::ReadError { detail } => LinkStepView {
            action: LinkActionView::Fail(SwarmErrorView::Other(read_error + detail@)),
            line: None,
        },
        LinkEvent::DeadlinePassed => LinkStepView {
            action: LinkActionView::Fail(SwarmErrorView::TimedOut(timeout)),
            line: None,
        },
    }
}

/// The step of waiting for a vehicle: the first heartbeat of an autopilot ends it.
pub open spec fn vehicle_step(event: LinkEvent) -> LinkStepView<(u8, u8)> {
    match event {
        LinkEvent::Message(
            LinkMessage { system_id, component_id, body: MessageBody::Heartbeat { autopilot }, .. },
        ) if autopilot != MAV_AUTOPILOT_INVALID => LinkStepView {
            action: LinkActionView::Finish((system_id, component_id)),
            line: None,
        },
        _ => ordinary_step(
            event,
            "recv error while waiting for HEARTBEAT: "@,
            "Timed out waiting for PX4 HEARTBEAT"@,
        ),
    }
}

/// The step of waiting for a position: the first one whose coordinates are both not zero
/// ends it; messages that are neither positions nor status texts are named.
pub open spec fn position_step(event: LinkEvent) -> LinkStepView<(i32, i32)> {
    let ordinary = ordinary_step(
        event,
        "recv error while waiting for position: "@,
        "Timed out waiting for GLOBAL_POSITION_INT"@,
    );
    match event {
        LinkEvent::Message(message) => match message.body {
            MessageBody::GlobalPositionInt { lat, lon } => LinkStepView {
                action: if lat != 0 && lon != 0 {
                    LinkActionView::Finish((lat, lon))
                } else {
                    LinkActionView::Continue
                },
                line: None,
            },
            MessageBody::StatusText { text } => ordinary,
            _ => LinkStepView {
                action: LinkActionView::Continue,
                line: Some(
                    "Unmanaged Message with name "@ + message.name@ + " and id "@ + text::decimal(
                        message.id as nat,
                    ),
                ),
            },
        },
        _ => ordinary,
    }
}

/// The step of uploading a mission of `mission_len` items: requested items are sent, an
/// item that does not exist ends the upload, and so does the vehicle's verdict.
pub open spec fn upload_step(event: LinkEvent, mission_len: nat) -> LinkStepView<()> {
    match event {
        LinkEvent::Message(
            LinkMessage { body: MessageBody::MissionRequestInt { seq }, .. },
        ) => if seq < mission_len {
            LinkStepView {
                action: LinkActionView::SendItem(seq as usize),
                line: Some("Sent MISSION_ITEM_INT seq="@ + text::decimal(seq as nat)),
            }
        } else {
            LinkStepView {
                action: LinkActionView::Fail(
                    SwarmErrorView::Other(
                        "PX4 requested out-of-range mission item "@ + text::decimal(seq as nat),
                    ),
                ),
                line: None,
            }
        },
        LinkEvent::Message(LinkMessage { body: MessageBody::MissionAck { result }, .. }) => {
            LinkStepView {
                action: if result.code == MAV_MISSION_ACCEPTED {
                    LinkActionView::Finish(())
                } else {
                    LinkActionView::Fail(
                        SwarmErrorView::Other("MISSION_ACK was not accepted: "@ + result.name@),
                    )
                },
                line: None,
            }
        },
        _ => ordinary_step(
            event,
            "recv error during mission upload: "@,
            "Timed out during mission upload"@,
        ),
    }
}

/// The step of waiting for a command's acknowledgement: the first one for that command
/// ends it. A command that is accepted or in progress has succeeded.
pub open spec fn command_step(event: LinkEvent, expected: Command) -> LinkStepView<()> {
    match event {
        LinkEvent::Message(
            LinkMessage { body: MessageBody::CommandAck { command, result }, .. },
        ) if command == expected.value().code => LinkStepView {
            action: if result.code == MAV_RESULT_ACCEPTED || result.code
                == MAV_RESULT_IN_PROGRESS {
                LinkActionView::Finish(())
            } else {
                LinkActionView::Fail(
                    SwarmErrorView::Other(
                        "COMMAND_ACK for "@ + expected.value().name + " returned "@ + result.name@,
                    ),
                )
            },
            line: None,
        },
        _ => ordinary_step(
            event,
            "recv error while waiting for COMMAND_ACK: "@,
            "Timed out waiting for COMMAND_ACK"@,
        ),
    }
}

/// The step of monitoring a mission: reaching `final_seq` or a later item ends it.
pub open spec fn monitor_step(event: LinkEvent, final_seq: u16) -> LinkStepView<()> {
    match event {
        LinkEvent::Message(
            LinkMessage { body: MessageBody::MissionCurrent { seq }, .. },
        ) => LinkStepView {
            action: LinkActionView::Continue,
            line: Some("MISSION_CURRENT seq="@ + text::decimal(seq as nat)),
        },
        LinkEvent::Message(
            LinkMessage { body: MessageBody::MissionItemReached { seq }, .. },
        ) => LinkStepView {
            action: if seq >= final_seq {
                LinkActionView::Finish(())
            } else {
                LinkActionView::Continue
            },
            line: Some("MISSION_ITEM_REACHED seq="@ + text::decimal(seq as nat)),
        },
        _ => ordinary_step(
            event,
            "recv error while monitoring mission: "@,
            "Timed out waiting for mission completion"@,
        ),
    }
}

fn quiet_step<T>(action: LinkAction<T>) -> (r: LinkStep<T>)
    ensures
        r == (LinkStep { action, line: None }),
{
    LinkStep { action, line: None }
}

/// Decides about an event that is not special to an exchange.
fn ordinary<T>(event: &LinkEvent, read_error: &str, timeout: &str) -> (r: LinkStep<T>)
    ensures
        r@ == ordinary_step::<T>(*event, read_error@, timeout@),
{
    match event {
        LinkEvent::Message(message) => match &message.body {
            MessageBody::StatusText { text } => LinkStep {
                action: LinkAction::Continue,
                line: Some("PX4: ".to_string().concat(decode_c_string(text).as_str())),
            },
            _ => quiet_step(LinkAction::Continue),
        },
        LinkEvent::Quiet => quiet_step(LinkAction::Pause),
        LinkEvent::ReadError { detail } => quiet_step(
            LinkAction::Fail(other_err(read_error.to_string().concat(detail.as_str()))),
        ),
        LinkEvent::DeadlinePassed => quiet_step(LinkAction::Fail(timeout_err(timeout))),
    }
}

/// Waits for a vehicle: yields its system and component id.
pub fn wait_for_vehicle(event: &LinkEvent) -> (r: LinkStep<(u8, u8)>)
    ensures
        r@ == vehicle_step(*event),
{
    if let LinkEvent::Message(message) = event {
        if let MessageBody::Heartbeat { autopilot } = &message.body {
            if *autopilot != MAV_AUTOPILOT_INVALID {
                return quiet_step(LinkAction::Finish((message.system_id, message.component_id)));
            }
        }
    }
    ordinary(
        event,
        "recv error while waiting for HEARTBEAT: ",
        "Timed out waiting for PX4 HEARTBEAT",
    )
}

/// Waits for a position: yields latitude and longitude in ten-millionths of a degree.
pub fn wait_for_position(event: &LinkEvent) -> (r: LinkStep<(i32, i32)>)
    ensures
        r@ == position_step(*event),
{
    if let LinkEvent::Message(message) = event {
        match &message.body {
            MessageBody::GlobalPositionInt { lat, lon } => {
                return if *lat != 0 && *lon != 0 {
                    quiet_step(LinkAction::Finish((*lat, *lon)))
                } else {
                    quiet_step(LinkAction::Continue)
                };
            },
            MessageBody::StatusText { .. } => {},
            _ => {
                return LinkStep {
                    action: LinkAction::Continue,
                    line: Some(
                        "Unmanaged Message with name ".to_string().concat(
                            message.name.as_str(),
                        ).concat(" and id ").concat(decimal_text(message.id as u64).as_str()),
                    ),
                };
            },
        }
    }
    ordinary(
        event,
        "recv error while waiting for position: ",
        "Timed out waiting for GLOBAL_POSITION_INT",
    )
}

/// The count that announces a mission of `mission_len` items. The protocol's counter has
/// sixteen bits, and larger counts wrap.
pub fn mission_count(mission_len: usize) -> (r: u16)
    ensures
        r == mission_len % 65536,
{
    (mission_len % 65536) as u16
}

/// The line that tells that the mission was announced.
pub fn mission_count_line(mission_len: usize) -> (r: String)
    ensures
        r@ == "Sent MISSION_COUNT("@ + text::decimal(mission_len as nat) + ")"@,
{
    "Sent MISSION_COUNT(".to_string().concat(count_text(mission_len).as_str()).concat(")")
}

/// Uploads a mission of `mission_len` items, once it has been announced.
pub fn upload_mission(event: &LinkEvent, mission_len: usize) -> (r: LinkStep<()>)
    ensures
        r@ == upload_step(*event, mission_len as nat),
        r.action matches LinkAction::SendItem(index) ==> index < mission_len,
{
    if let LinkEvent::Message(message) = event {
        match &message.body {
            MessageBody::MissionRequestInt { seq } => {
                let index: usize = *seq as usize;
                return if index >= mission_len {
                    quiet_step(
                        LinkAction::Fail(
                            other_err(
                                "PX4 requested out-of-range mission item ".to_string().concat(
                                    count_text(index).as_str(),
                                ),
                            ),
                        ),
                    )
                } else {
                    LinkStep {
                        action: LinkAction::SendItem(index),
                        line: Some(
                            "Sent MISSION_ITEM_INT seq=".to_string().concat(
                                count_text(index).as_str(),
                            ),
                        ),
                    }
                };
            },
            MessageBody::MissionAck { result } => {
                return if result.code == MAV_MISSION_ACCEPTED {
                    quiet_step(LinkAction::Finish(()))
                } else {
                    quiet_step(
                        LinkAction::Fail(
                            other_err(
                                "MISSION_ACK was not accepted: ".to_string().concat(
                                    result.name.as_str(),
                                ),
                            ),
                        ),
                    )
                };
            },
            _ => {},
        }
    }
    ordinary(event, "recv error during mission upload: ", "Timed out during mission upload")
}

/// A long command. Its parameters are the numbers that stand in the message's fields.
#[derive(Debug, Clone, Copy, PartialEq, Eq)]
pub struct CommandLong {
    pub param1: u16,
    pub param2: u16,
    pub param3: u16,
    pub param4: u16,
    pub param5: u16,
    pub param6: u16,
    pub param7: u16,
    pub command: Command,
    pub target_system: u8,
    pub target_component: u8,
    pub confirmation: u8,
}

impl CommandLong {
    /// A first request for `command` whose parameters after the third are zero.
    pub open spec fn first(
        command: Command,
        target_system: u8,
        target_component: u8,
        param1: u16,
        param2: u16,
        param3: u16,
    ) -> CommandLong {
        CommandLong {
            param1,
            param2,
            param3,
            param4: 0,
            param5: 0,
            param6: 0,
            param7: 0,
            command,
            target_system,
            target_component,
            confirmation: 0,
        }
    }
}

/// The command that arms a vehicle.
pub fn arm_vehicle(target_system: u8, target_component: u8) -> (r: CommandLong)
    ensures
        r == CommandLong::first(
            Command::ComponentArmDisarm,
            target_system,
            target_component,
            1,
            0,
            0,
        ),
{
    CommandLong {
        param1: 1,
        param2: 0,
        param3: 0,
        param4: 0,
        param5: 0,
        param6: 0,
        param7: 0,
        command: Command::ComponentArmDisarm,
        target_system,
        target_component,
        confirmation: 0,
    }
}

/// The command that puts PX4 into its mission mode.
pub fn set_px4_mission_mode(target_system: u8, target_component: u8) -> (r: CommandLong)
    ensures
        r == CommandLong::first(
            Command::DoSetMode,
            target_system,
            target_component,
            1,
            PX4_MAIN_MODE_AUTO,
            PX4_SUB_MODE_AUTO_MISSION,
        ),
{
    CommandLong {
        param1: 1,
        param2: PX4_MAIN_MODE_AUTO,
        param3: PX4_SUB_MODE_AUTO_MISSION,
        param4: 0,
        param5: 0,
        param6: 0,
        param7: 0,
        command: Command::DoSetMode,
        target_system,
        target_component,
        confirmation: 0,
    }
}

/// The command that starts a mission of `mission_len` items: from the first item to the
/// last.
pub fn start_mission(target_system: u8, target_component: u8, mission_len: u16) -> (r: CommandLong)
    ensures
        r == CommandLong::first(
            Command::MissionStart,
            target_system,
            target_component,
            0,
            if mission_len == 0 {
                0
            } else {
                (mission_len - 1) as u16
            },
            0,
        ),
{
    let last_item: u16 = if mission_len == 0 {
        0
    } else {
        mission_len - 1
    };
    CommandLong {
        param1: 0,
        param2: last_item,
        param3: 0,
        param4: 0,
        param5: 0,
        param6: 0,
        param7: 0,
        command: Command::MissionStart,
        target_system,
        target_component,
        confirmation: 0,
    }
}

/// Waits until `expected`, which has been sent, is acknowledged.
pub fn send_command_and_wait_ack(event: &LinkEvent, expected: Command) -> (r: LinkStep<()>)
    ensures
        r@ == command_step(*event, expected),
{
    if let LinkEvent::Message(message) = event {
        if let MessageBody::CommandAck { command, result } = &message.body {
            let value: EnumValue = command_value(expected);
            if *command == value.code {
                return if result.code == MAV_RESULT_ACCEPTED || result.code
                    == MAV_RESULT_IN_PROGRESS {
                    quiet_step(LinkAction::Finish(()))
                } else {
                    quiet_step(
                        LinkAction::Fail(
                            other_err(
                                "COMMAND_ACK for ".to_string().concat(value.name.as_str()).concat(
                                    " returned ",
                                ).concat(result.name.as_str()),
                            ),
                        ),
                    )
                };
            }
        }
    }
    ordinary(
        event,
        "recv error while waiting for COMMAND_ACK: ",
        "Timed out waiting for COMMAND_ACK",
    )
}

/// Monitors a mission whose last item is `final_seq`.
pub fn monitor_mission(event: &LinkEvent, final_seq: u16) -> (r: LinkStep<()>)
    ensures
        r@ == monitor_step(*event, final_seq),
{
    if let LinkEvent::Message(message) = event {
        match &message.body {
            MessageBody::MissionCurrent { seq } => {
                return LinkStep {
                    action: LinkAction::Continue,
                    line: Some(
                        "MISSION_CURRENT seq=".to_string().concat(
                            decimal_text(*seq as u64).as_str(),
                        ),
                    ),
                };
            },
            MessageBody::MissionItemReached { seq } => {
                let line: String = "MISSION_ITEM_REACHED seq=".to_string().concat(
                    decimal_text(*seq as u64).as_str(),
                );
                return if *seq >= final_seq {
                    LinkStep { action: LinkAction::Finish(()), line: Some(line) }
                } else {
                    LinkStep { action: LinkAction::Continue, line: Some(line) }
                };
            },
            _ => {},
        }
    }
    ordinary(
        event,
        "recv error while monitoring mission: ",
        "Timed out waiting for mission completion",
    )
}

/// The result that a step ends its exchange with, if it does.
pub open spec fn settled<T>(step: LinkStepView<T>) -> Option<Result<T, SwarmErrorView>> {
    match step.action {
        LinkActionView::Finish(value) => Some(Ok(value)),
        LinkActionView::Fail(error) => Some(Err(error)),
        _ => None,
    }
}

/// The result of an exchange that takes these steps: that of the first step that ends it.
pub open spec fn outcome<T>(steps: Seq<LinkStepView<T>>) -> Option<Result<T, SwarmErrorView>>
    decreases steps.len(),
{
    if steps.len() == 0 {
        None
    } else if settled(steps[0]) is Some {
        settled(steps[0])
    } else {
        outcome(steps.drop_first())
    }
}

/// Whether the step at `at` is the first that ends the exchange.
pub open spec fn settles_first<T>(steps: Seq<LinkStepView<T>>, at: int) -> bool {
    &&& 0 <= at < steps.len()
    &&& settled(steps[at]) is Some
    &&& forall|i: int| 0 <= i < at ==> settled(#[trigger] steps[i]) is None
}

/// An exchange has a result exactly if a step ends it; the result is that of the first one
/// that does.
pub proof fn law_first_settling_step_decides<T>(steps: Seq<LinkStepView<T>>)
    ensures
        outcome(steps) is Some <==> exists|at: int| #[trigger] settles_first(steps, at),
        forall|at: int| #[trigger]
            settles_first(steps, at) ==> outcome(steps) == settled(steps[at]),
    decreases steps.len(),
{
    if steps.len() > 0 {
        if settled(steps[0]) is Some {
            assert(settles_first(steps, 0));
            assert forall|at: int| #[trigger] settles_first(steps, at) implies outcome(steps)
                == settled(steps[at]) by {
                if at > 0 {
                    assert(settled(steps[0]) is None);
                }
            }
        } else {
            let rest = steps.drop_first();
            law_first_settling_step_decides(rest);
            assert forall|at: int| #[trigger] settles_first(rest, at) implies settles_first(
                steps,
                at + 1,
            ) by {
                assert(steps[at + 1] == rest[at]);
                assert forall|i: int| 0 <= i < at + 1 implies settled(#[trigger] steps[i]) is None
                    by {
                    if i > 0 {
                        assert(steps[i] == rest[i - 1]);
                    }
                }
            }
            assert forall|at: int| #[trigger] settles_first(steps, at) implies settles_first(
                rest,
                at - 1,
            ) && outcome(steps) == settled(steps[at]) by {
                assert(steps[at] == rest[at - 1]);
                assert forall|i: int| 0 <= i < at - 1 implies settled(#[trigger] rest[i]) is None
                    by {
                    assert(rest[i] == steps[i + 1]);
                }
            }
            if outcome(steps) is Some {
                let at = choose|at: int| #[trigger] settles_first(rest, at);
                assert(settles_first(steps, at + 1));
            }
        }
    }
}

/// An exchange yields `value` exactly if its first settling step does.
proof fn lemma_success<T>(steps: Seq<LinkStepView<T>>, value: T)
    ensures
        outcome(steps) == Some(Ok::<T, SwarmErrorView>(value)) <==> exists|at: int| #[trigger]
            settles_first(steps, at) && settled(steps[at]) == Some(
                Ok::<T, SwarmErrorView>(value),
            ),
{
    law_first_settling_step_decides(steps);
    if outcome(steps) == Some(Ok::<T, SwarmErrorView>(value)) {
        let at = choose|at: int| #[trigger] settles_first(steps, at);
        assert(settles_first(steps, at) && settled(steps[at]) == Some(
            Ok::<T, SwarmErrorView>(value),
        ));
    }
}

/// The steps of waiting for a vehicle, one for each event.
pub open spec fn vehicle_steps(events: Seq<LinkEvent>) -> Seq<LinkStepView<(u8, u8)>> {
    events.map_values(|event: LinkEvent| vehicle_step(event))
}

/// The steps of waiting for a position, one for each event.
pub open spec fn position_steps(events: Seq<LinkEvent>) -> Seq<LinkStepView<(i32, i32)>> {
    events.map_values(|event: LinkEvent| position_step(event))
}

/// The steps of uploading a mission, one for each event.
pub open spec fn upload_steps(events: Seq<LinkEvent>, mission_len: nat) -> Seq<LinkStepView<()>> {
    events.map_values(|event: LinkEvent| upload_step(event, mission_len))
}

/// The steps of waiting for an acknowledgement, one for each event.
pub open spec fn command_steps(events: Seq<LinkEvent>, command: Command) -> Seq<
    LinkStepView<()>,
> {
    events.map_values(|event: LinkEvent| command_step(event, command))
}

/// The steps of monitoring a mission, one for each event.
pub open spec fn monitor_steps(events: Seq<LinkEvent>, final_seq: u16) -> Seq<LinkStepView<()>> {
    events.map_values(|event: LinkEvent| monitor_step(event, final_seq))
}

/// Whether an event is the heartbeat of an autopilot with these ids.
pub open spec fn is_autopilot_heartbeat(
    event: LinkEvent,
    system_id: u8,
    component_id: u8,
) -> bool {
    event matches LinkEvent::Message(message) && message.body matches MessageBody::Heartbeat {
        autopilot,
    } && autopilot != MAV_AUTOPILOT_INVALID && message.system_id == system_id
        && message.component_id == component_id
}

/// A vehicle is found exactly if the first event that settles the wait is the heartbeat of
/// an autopilot; its ids are the sender's.
pub proof fn law_vehicle_is_found_by_its_heartbeat(
    events: Seq<LinkEvent>,
    system_id: u8,
    component_id: u8,
)
    ensures
        outcome(vehicle_steps(events)) == Some(
            Ok::<(u8, u8), SwarmErrorView>((system_id, component_id)),
        ) <==> exists|at: int| #[trigger]
            settles_first(vehicle_steps(events), at) && is_autopilot_heartbeat(
                events[at],
                system_id,
                component_id,
            ),
{
    let steps = vehicle_steps(events);
    lemma_success(steps, (system_id, component_id));
    assert forall|at: int| #[trigger] settles_first(steps, at) implies (settled(steps[at]) == Some(
        Ok::<(u8, u8), SwarmErrorView>((system_id, component_id)),
    ) <==> is_autopilot_heartbeat(events[at], system_id, component_id)) by {
        assert(steps[at] == vehicle_step(events[at]));
    }
}

/// Whether an event is a position with these coordinates, both of them known.
pub open spec fn is_known_position(event: LinkEvent, lat: i32, lon: i32) -> bool {
    event matches LinkEvent::Message(message) && message.body == (
    MessageBody::GlobalPositionInt { lat, lon }) && lat != 0 && lon != 0
}

/// A position is found exactly if the first event that settles the wait is a message with
/// both coordinates known; the position is that one.
pub proof fn law_position_is_found_by_its_message(events: Seq<LinkEvent>, lat: i32, lon: i32)
    ensures
        outcome(position_steps(events)) == Some(Ok::<(i32, i32), SwarmErrorView>((lat, lon)))
            <==> exists|at: int| #[trigger]
            settles_first(position_steps(events), at) && is_known_position(events[at], lat, lon),
{
    let steps = position_steps(events);
    lemma_success(steps, (lat, lon));
    assert forall|at: int| #[trigger] settles_first(steps, at) implies (settled(steps[at]) == Some(
        Ok::<(i32, i32), SwarmErrorView>((lat, lon)),
    ) <==> is_known_position(events[at], lat, lon)) by {
        assert(steps[at] == position_step(events[at]));
    }
}

/// Whether an event is the vehicle's acceptance of a mission.
pub open spec fn is_mission_acceptance(event: LinkEvent) -> bool {
    event matches LinkEvent::Message(message) && message.body matches MessageBody::MissionAck {
        result,
    } && result.code == MAV_MISSION_ACCEPTED
}

/// An upload succeeds exactly if the first event that settles it is the vehicle's acceptance
/// of the mission.
pub proof fn law_upload_succeeds_by_acceptance(events: Seq<LinkEvent>, mission_len: nat)
    ensures
        outcome(upload_steps(events, mission_len)) == Some(Ok::<(), SwarmErrorView>(()))
            <==> exists|at: int| #[trigger]
            settles_first(upload_steps(events, mission_len), at) && is_mission_acceptance(
                events[at],
            ),
{
    let steps = upload_steps(events, mission_len);
    lemma_success(steps, ());
    assert forall|at: int| #[trigger] settles_first(steps, at) implies (settled(steps[at]) == Some(
        Ok::<(), SwarmErrorView>(()),
    ) <==> is_mission_acceptance(events[at])) by {
        assert(steps[at] == upload_step(events[at], mission_len));
    }
}

/// Whether an event acknowledges `command` as accepted or in progress.
pub open spec fn is_positive_ack(event: LinkEvent, command: Command) -> bool {
    event matches LinkEvent::Message(message) && message.body matches MessageBody::CommandAck {
        command: code,
        result,
    } && code == command.value().code && (result.code == MAV_RESULT_ACCEPTED || result.code
        == MAV_RESULT_IN_PROGRESS)
}

/// A command succeeds exactly if the first event that settles it is the positive
/// acknowledgement of that very command.
pub proof fn law_command_succeeds_by_its_ack(events: Seq<LinkEvent>, command: Command)
    ensures
        outcome(command_steps(events, command)) == Some(Ok::<(), SwarmErrorView>(()))
            <==> exists|at: int| #[trigger]
            settles_first(command_steps(events, command), at) && is_positive_ack(
                events[at],
                command,
            ),
{
    let steps = command_steps(events, command);
    lemma_success(steps, ());
    assert forall|at: int| #[trigger] settles_first(steps, at) implies (settled(steps[at]) == Some(
        Ok::<(), SwarmErrorView>(()),
    ) <==> is_positive_ack(events[at], command)) by {
        assert(steps[at] == command_step(events[at], command));
    }
}

/// Whether an event tells that an item was reached which is `final_seq` or a later one.
pub open spec fn is_final_reached(event: LinkEvent, final_seq: u16) -> bool {
    event matches LinkEvent::Message(message) && message.body
        matches MessageBody::MissionItemReached { seq } && seq >= final_seq
}

/// A mission counts as flown exactly if the first event that settles the monitoring tells
/// that its last item was reached.
pub proof fn law_mission_succeeds_by_its_last_item(events: Seq<LinkEvent>, final_seq: u16)
    ensures
        outcome(monitor_steps(events, final_seq)) == Some(Ok::<(), SwarmErrorView>(()))
            <==> exists|at: int| #[trigger]
            settles_first(monitor_steps(events, final_seq), at) && is_final_reached(
                events[at],
                final_seq,
            ),
{
    let steps = monitor_steps(events, final_seq);
    lemma_success(steps, ());
    assert forall|at: int| #[trigger] settles_first(steps, at) implies (settled(steps[at]) == Some(
        Ok::<(), SwarmErrorView>(()),
    ) <==> is_final_reached(events[at], final_seq)) by {
        assert(steps[at] == monitor_step(events[at], final_seq));
    }
}

/// Every exchange ends at its deadline, with an error that says so.
pub proof fn law_deadline_ends_every_exchange(mission_len: nat, command: Command, final_seq: u16)
    ensures
        settled(vehicle_step(LinkEvent::DeadlinePassed)) matches Some(Err(error)) && error
            is TimedOut,
        settled(position_step(LinkEvent::DeadlinePassed)) matches Some(Err(error)) && error
            is TimedOut,
        settled(upload_step(LinkEvent::DeadlinePassed, mission_len)) matches Some(Err(error))
            && error is TimedOut,
        settled(command_step(LinkEvent::DeadlinePassed, command)) matches Some(Err(error))
            && error is TimedOut,
        settled(monitor_step(LinkEvent::DeadlinePassed, final_seq)) matches Some(Err(error))
            && error is TimedOut,
{
}

} // verus!
