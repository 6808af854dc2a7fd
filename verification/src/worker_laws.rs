//! What a worker makes of every answer, and what it takes to end well.
//!
//! The laws here speak of the configuration as it is written, of what the worker was told,
//! and of what it does: which step it takes next, to whom, with which numbers, and what it
//! reports.
use vstd::prelude::*;
use crate::config::DroneConfig;
use crate::mavlink_client::{
    Command, CommandLong, SwarmErrorView, PX4_MAIN_MODE_AUTO, PX4_SUB_MODE_AUTO_MISSION,
};
use crate::mission;
use crate::text;
use crate::vehicle_actor::{StartSignal, VehicleEventKindView, VehicleEventView};
use crate::vehicle_worker;
use crate::vehicle_worker::{
    DroneConfigView, WorkerAction, WorkerActionView, WorkerInput, WorkerStage, WorkerView,
};

verus! {

/// A vehicle is armed, and an approved mission started, unless the configuration says in so
/// many words that it is not to be.
pub proof fn law_what_is_not_forbidden_is_done(config: DroneConfigView)
    ensures
        config.arm is None || config.arm == Some(true) ==> config.arms(),
        config.arm == Some(false) ==> !config.arms(),
        config.auto_start is None || config.auto_start == Some(true) ==> config.auto_starts(),
        config.auto_start == Some(false) ==> !config.auto_starts(),
{
}

/// The configuration's view shows all that it holds.
pub proof fn law_view_of_a_configuration_is_complete(cfg: DroneConfig)
    ensures
        cfg@.name == cfg.name@,
        cfg@.endpoint == cfg.endpoint@,
        cfg@.expected_system_id == cfg.expected_system_id,
        cfg@.arm == cfg.arm,
        cfg@.auto_start == cfg.auto_start,
        cfg@.mission == cfg.mission@,
{
}

/// At which stage an answer is taken: that of the step which it answers. A failure is taken
/// at every stage with a step that can fail.
pub proof fn law_answers_are_taken_in_turn(worker: WorkerView, input: WorkerInput)
    ensures
        input is Connected ==> (worker.accepts(input) <==> worker.stage is Connecting),
        input is VehicleFound ==> (worker.accepts(input) <==> worker.stage is Discovering),
        input is Located ==> (worker.accepts(input) <==> worker.stage is Locating
            && input->positions@.len() == worker.config.mission.len()),
        input is Uploaded ==> (worker.accepts(input) <==> worker.stage is Uploading),
        input is CommandAccepted ==> (worker.accepts(input) <==> worker.stage is Arming
            || worker.stage is SettingMode || worker.stage is StartingMission),
        input is Decided || input is DecisionLost ==> (worker.accepts(input) <==> worker.stage
            is AwaitingDecision),
        input is MissionDone ==> (worker.accepts(input) <==> worker.stage is Monitoring),
        input is StepFailed ==> (worker.accepts(input) <==> worker.stage != WorkerStage::Ended
            && worker.stage != WorkerStage::AwaitingDecision),
{
}

/// Where an answer leads: each step that went well leads to the next one, arming and starting
/// are left out only where the configuration forbids them, and a vehicle other than the
/// configured one, an encoding that failed, an abort, and any failure end the worker.
pub proof fn law_where_answers_lead(worker: WorkerView, input: WorkerInput)
    requires
        worker.accepts(input),
    ensures
        ({
            let next = worker.after(input).stage;
            let config = worker.config;
            &&& input is Connected ==> next is Discovering
            &&& input matches WorkerInput::VehicleFound { system_id, component_id } ==> {
                &&& config.expected_system_id is None || config.expected_system_id == Some(
                    system_id,
                ) ==> next is Locating
                &&& config.expected_system_id is Some && config.expected_system_id != Some(
                    system_id,
                ) ==> next is Ended
            }
            &&& input is Located && input->encoded is Ok ==> next is Uploading
            &&& input is Located && input->encoded is Err ==> next is Ended
            &&& input is Uploaded && config.arm != Some(false) ==> next is Arming
            &&& input is Uploaded && config.arm == Some(false) ==> next is AwaitingDecision
            &&& input is CommandAccepted && worker.stage is Arming ==> next is AwaitingDecision
            &&& input is CommandAccepted && worker.stage is SettingMode ==> next is StartingMission
            &&& input is CommandAccepted && worker.stage is StartingMission ==> next is Monitoring
            &&& input == WorkerInput::Decided(StartSignal::Start) && config.auto_start != Some(
                false,
            ) ==> next is SettingMode
            &&& input == WorkerInput::Decided(StartSignal::Start) && config.auto_start == Some(
                false,
            ) ==> next is Ended
            &&& input matches WorkerInput::Decided(signal) ==> signal is Abort ==> next is Ended
            &&& input is DecisionLost || input is MissionDone || input is StepFailed ==> next
                is Ended
        }),
{
}

/// What a worker remembers: its configuration and phase always, the ids of the vehicle from
/// when it was found, and the size and hash of the mission from when it was built.
pub proof fn law_what_a_worker_remembers(worker: WorkerView, input: WorkerInput)
    requires
        worker.accepts(input),
    ensures
        ({
            let after = worker.after(input);
            &&& after.config == worker.config
            &&& after.phase == worker.phase
            &&& input matches WorkerInput::VehicleFound { system_id, component_id }
                ==> after.system_id == system_id && after.component_id == component_id
            &&& !(input is VehicleFound) ==> after.system_id == worker.system_id
                && after.component_id == worker.component_id
            &&& input matches WorkerInput::Located { lat_1e7, lon_1e7, positions, encoded } ==> (
            encoded matches Ok(bytes) ==> after.item_count == worker.config.mission.len() as usize
                && after.spec_hash == mission::digest_text(mission::sha256(bytes@)))
            &&& !(input is Located && input->encoded is Ok) ==> after.item_count
                == worker.item_count && after.spec_hash == worker.spec_hash
        }),
{
}

/// Whether an action is a step to take: not a report, a line, or a matter of heartbeats.
pub open spec fn is_step(action: WorkerActionView) -> bool {
    !(action is Emit || action is Print || action is StartHeartbeat || action is StopHeartbeat)
}

/// A long command with these parameters, and zeros behind them, to this vehicle.
pub open spec fn is_command(
    action: WorkerActionView,
    worker: WorkerView,
    command: Command,
    param1: int,
    param2: int,
    param3: int,
) -> bool {
    action matches WorkerActionView::SendCommand(long) && long.command == command && long.param1
        == param1 && long.param2 == param2 && long.param3 == param3 && long.param4 == 0
        && long.param5 == 0 && long.param6 == 0 && long.param7 == 0 && long.confirmation == 0
        && long.target_system == worker.system_id && long.target_component == worker.component_id
}

/// Whether an action is the step of a stage: what the worker does there, with the numbers of
/// its own vehicle and mission. The mission starts at its first item and ends at its last, of
/// which the protocol's counter holds the low sixteen bits.
pub open spec fn is_step_of(action: WorkerActionView, worker: WorkerView) -> bool {
    match worker.stage {
        WorkerStage::Connecting => action == (WorkerActionView::Connect {
            endpoint: worker.config.endpoint,
        }),
        WorkerStage::Discovering => action is AwaitVehicle,
        WorkerStage::Locating => action is AwaitPosition,
        WorkerStage::Uploading => action matches WorkerActionView::Upload {
            system_id,
            component_id,
            items,
        } && system_id == worker.system_id && component_id == worker.component_id && items.len()
            == worker.config.mission.len(),
        WorkerStage::Arming => is_command(action, worker, Command::ComponentArmDisarm, 1, 0, 0),
        WorkerStage::AwaitingDecision => action is AwaitDecision,
        WorkerStage::SettingMode => is_command(
            action,
            worker,
            Command::DoSetMode,
            1,
            PX4_MAIN_MODE_AUTO as int,
            PX4_SUB_MODE_AUTO_MISSION as int,
        ),
        WorkerStage::StartingMission => is_command(
            action,
            worker,
            Command::MissionStart,
            0,
            if worker.item_count % 65536 == 0 {
                0
            } else {
                worker.item_count % 65536 - 1
            },
            0,
        ),
        WorkerStage::Monitoring => action matches WorkerActionView::Monitor { final_seq } && (
        final_seq is None <==> worker.item_count == 0) && (final_seq matches Some(seq) ==> seq == (
        worker.item_count - 1) % 65536),
        WorkerStage::Ended => action is Finish,
    }
}

/// A worker takes one step at a time, as its last action: the step of the stage that the
/// answer led to. A worker that is approved, and may start, thus switches to the mission mode
/// and then starts the mission.
pub proof fn law_one_step_at_a_time(worker: WorkerView, input: WorkerInput, i: int)
    requires
        worker.accepts(input),
        0 <= i < worker.actions(input).len(),
    ensures
        is_step(worker.actions(input)[i]) <==> i == worker.actions(input).len() - 1,
        is_step_of(worker.actions(input).last(), worker.after(input)),
{
}

/// The first step is to connect to the configured endpoint; it is reported before.
pub proof fn law_a_worker_connects_first(worker: WorkerView)
    requires
        worker.stage is Connecting,
    ensures
        worker.opening().len() == 3,
        worker.opening()[0] == WorkerActionView::Emit(
            VehicleEventView {
                vehicle: worker.config.name,
                phase: worker.phase,
                kind: VehicleEventKindView::Connecting { endpoint: worker.config.endpoint },
            },
        ),
        worker.opening()[1] == WorkerActionView::Print(
            "["@ + worker.config.name + "] "@ + ("connecting on "@ + worker.config.endpoint),
        ),
        is_step_of(worker.opening()[2], worker),
{
}

/// An approved mission is started whenever the configuration does not forbid it: the worker
/// switches to the mission mode next. Where it is forbidden, the worker ends well without.
pub proof fn law_approval_starts_the_mission(worker: WorkerView)
    requires
        worker.stage is AwaitingDecision,
    ensures
        ({
            let approval = WorkerInput::Decided(StartSignal::Start);
            let actions = worker.actions(approval);
            &&& worker.config.auto_start is None || worker.config.auto_start == Some(true) ==> {
                &&& worker.after(approval).stage is SettingMode
                &&& exists|i: int|
                    0 <= i < actions.len() && is_command(
                        #[trigger] actions[i],
                        worker,
                        Command::DoSetMode,
                        1,
                        PX4_MAIN_MODE_AUTO as int,
                        PX4_SUB_MODE_AUTO_MISSION as int,
                    )
                &&& forall|i: int|
                    0 <= i < actions.len() ==> !((#[trigger] actions[i]) is Finish
                        || actions[i] is StopHeartbeat)
            }
            &&& worker.config.auto_start == Some(false) ==> {
                &&& worker.after(approval).stage is Ended
                &&& actions.last() == WorkerActionView::Finish(Ok::<(), SwarmErrorView>(()))
            }
        }),
{
    let approval = WorkerInput::Decided(StartSignal::Start);
    let actions = worker.actions(approval);
    if worker.config.auto_start is None || worker.config.auto_start == Some(true) {
        assert(is_command(
            actions[1],
            worker,
            Command::DoSetMode,
            1,
            PX4_MAIN_MODE_AUTO as int,
            PX4_SUB_MODE_AUTO_MISSION as int,
        ));
    }
}

/// Every upload holds one item for each leg of the configured mission, each as it is built
/// for the vehicle that was found, from where it stands.
pub proof fn law_uploads_hold_the_configured_mission(
    worker: WorkerView,
    input: WorkerInput,
    i: int,
)
    requires
        worker.accepts(input),
        input is Located,
        input->encoded is Ok,
        0 <= i < worker.config.mission.len(),
    ensures
        worker.actions(input).last() matches WorkerActionView::Upload {
            system_id,
            component_id,
            items,
        } && items.len() == worker.config.mission.len() && items[i] == mission::item_for(
            worker.system_id,
            worker.component_id,
            i,
            (input->lat_1e7, input->lon_1e7),
            input->positions@[i],
            worker.config.mission[i],
        ),
{
}

/// The report that a worker makes of `kind`.
pub open spec fn report(worker: WorkerView, kind: VehicleEventKindView) -> WorkerActionView {
    WorkerActionView::Emit(
        VehicleEventView { vehicle: worker.config.name, phase: worker.phase, kind },
    )
}

/// The line that a worker prints about itself.
pub open spec fn line(worker: WorkerView, words: Seq<char>) -> WorkerActionView {
    WorkerActionView::Print("["@ + worker.config.name + "] "@ + words)
}

/// What a worker reports: every answer that brings something new is reported, for its own
/// vehicle and phase, with what it brought; and once the vehicle is ready, it votes with the
/// hash and size of its mission, and says that it waits.
pub proof fn law_what_a_worker_reports(worker: WorkerView, input: WorkerInput)
    requires
        worker.accepts(input),
    ensures
        ({
            let actions = worker.actions(input);
            let after = worker.after(input);
            let vote = report(
                worker,
                VehicleEventKindView::ReadinessVote {
                    mission_hash: worker.spec_hash,
                    item_count: worker.item_count,
                },
            );
            let waiting = report(
                worker,
                VehicleEventKindView::WaitingForStart { mission_hash: worker.spec_hash },
            );
            &&& input is Connected ==> actions.len() == 1
            &&& input matches WorkerInput::VehicleFound { system_id, component_id } ==> {
                &&& actions[0] == report(
                    worker,
                    VehicleEventKindView::Discovered { system_id, component_id },
                )
                &&& actions[1] == line(
                    worker,
                    "discovered target sys="@ + text::decimal(system_id as nat) + ", comp="@
                        + text::decimal(component_id as nat),
                )
                &&& after.stage is Locating ==> actions.len() == 4 && actions[2] is StartHeartbeat
                &&& after.stage is Ended ==> actions.len() == 3
            }
            &&& input matches WorkerInput::Located { lat_1e7, lon_1e7, positions, encoded } ==> {
                &&& actions[0] == report(
                    worker,
                    VehicleEventKindView::StartPosition { lat_1e7, lon_1e7 },
                )
                &&& actions[1] == line(
                    worker,
                    "start position lat="@ + text::fixed_1e7(lat_1e7 as int) + ", lon="@
                        + text::fixed_1e7(lon_1e7 as int),
                )
                &&& encoded is Ok ==> actions.len() == 4 && actions[2] == report(
                    worker,
                    VehicleEventKindView::MissionBuilt {
                        item_count: after.item_count,
                        spec_hash: after.spec_hash,
                        upload_hash: mission::digest_text(
                            mission::sha256(mission::items_bytes(actions[3]->items)),
                        ),
                    },
                )
                &&& encoded is Err ==> actions.len() == 5
            }
            &&& input is Uploaded ==> {
                &&& actions[0] == report(worker, VehicleEventKindView::MissionUploaded)
                &&& actions[1] == line(worker, "mission uploaded"@)
                &&& after.stage is Arming ==> actions.len() == 3
                &&& after.stage is AwaitingDecision ==> actions.len() == 5 && actions[2] == vote
                    && actions[3] == waiting
            }
            &&& input is CommandAccepted && worker.stage is Arming ==> {
                &&& actions.len() == 5
                &&& actions[0] == report(worker, VehicleEventKindView::Armed)
                &&& actions[1] == line(worker, "armed"@)
                &&& actions[2] == vote
                &&& actions[3] == waiting
            }
            &&& input is CommandAccepted && worker.stage is SettingMode ==> actions.len() == 1
            &&& input is CommandAccepted && worker.stage is StartingMission ==> {
                &&& actions.len() == 4
                &&& actions[0] == report(worker, VehicleEventKindView::MissionStarted)
                &&& actions[1] == line(worker, "mission started"@)
                &&& actions[2] == report(worker, VehicleEventKindView::MissionMonitorStarted)
            }
            &&& input == WorkerInput::Decided(StartSignal::Start) ==> {
                &&& actions[0] == report(worker, VehicleEventKindView::StartApproved)
                &&& after.stage is SettingMode ==> actions.len() == 2
                &&& after.stage is Ended ==> {
                    &&& actions.len() == 6
                    &&& actions[1] == line(
                        worker,
                        "auto_start=false; mission prepared but not started"@,
                    )
                    &&& actions[2] == WorkerActionView::Print(
                        "TERMINATING -- "@ + worker.config.name,
                    )
                }
            }
            &&& input matches WorkerInput::Decided(signal) ==> (signal matches StartSignal::Abort {
                reason,
            } ==> actions.len() == 4 && actions[0] == report(
                worker,
                VehicleEventKindView::StartAborted { reason: reason@ },
            ))
            &&& input is DecisionLost ==> actions.len() == 3
            &&& input is MissionDone ==> actions.len() == 4 && actions[0]
                == WorkerActionView::Print("TERMINATING -- "@ + worker.config.name)
            &&& input is StepFailed ==> actions.len() == if worker.stage is Connecting
                || worker.stage is Discovering {
                1int
            } else {
                3int
            }
        }),
{
}

/// Whether heartbeats are being sent at a stage: from when the vehicle was found until the
/// worker ends.
pub proof fn law_when_heartbeats_are_sent(stage: WorkerStage)
    ensures
        stage.has_heartbeat() <==> stage != WorkerStage::Connecting && stage
            != WorkerStage::Discovering && stage != WorkerStage::Ended,
{
}

/// With what a worker ends: well where the mission was flown or is left to the pilot, and
/// otherwise with the error that there was, unchanged, or with the words for what went wrong.
/// Heartbeats that were being sent have been stopped just before.
pub proof fn law_how_a_worker_ends(worker: WorkerView, input: WorkerInput)
    requires
        worker.accepts(input),
        worker.after(input).stage is Ended,
    ensures
        ({
            let actions = worker.actions(input);
            let result = actions.last()->Finish_0;
            &&& actions.last() is Finish
            &&& result is Ok <==> input is MissionDone || (input == WorkerInput::Decided(
                StartSignal::Start,
            ) && worker.config.auto_start == Some(false))
            &&& input matches WorkerInput::StepFailed(error) ==> result == Err::<
                (),
                SwarmErrorView,
            >(error@)
            &&& input matches WorkerInput::Located { lat_1e7, lon_1e7, positions, encoded } ==> (
            encoded matches Err(error) ==> result == Err::<(), SwarmErrorView>(error@))
            &&& input matches WorkerInput::VehicleFound { system_id, component_id } ==> result
                == Err::<(), SwarmErrorView>(
                SwarmErrorView::Other(
                    "["@ + worker.config.name + "] expected system_id "@ + text::decimal(
                        worker.config.expected_system_id->0 as nat,
                    ) + ", got "@ + text::decimal(system_id as nat),
                ),
            )
            &&& input matches WorkerInput::Decided(signal) ==> (signal matches StartSignal::Abort {
                reason,
            } ==> result == Err::<(), SwarmErrorView>(
                SwarmErrorView::Other("mission start aborted by supervisor: "@ + reason@),
            ))
            &&& input matches WorkerInput::DecisionLost { detail } ==> result == Err::<
                (),
                SwarmErrorView,
            >(
                SwarmErrorView::Other(
                    "mission start channel closed before supervisor decision: "@ + detail@,
                ),
            )
            &&& worker.stage != WorkerStage::Connecting && worker.stage != WorkerStage::Discovering
                ==> {
                &&& actions.len() >= 3
                &&& actions[actions.len() - 3] is StopHeartbeat
                &&& actions[actions.len() - 2] == WorkerActionView::Print(
                    "TERMINATED -- "@ + worker.config.name,
                )
            }
        }),
{
}

/// Heartbeats are started exactly when the right vehicle was found, and stopped exactly when
/// a worker ends that sends them.
pub proof fn law_heartbeats_start_and_stop(worker: WorkerView, input: WorkerInput, i: int)
    requires
        worker.accepts(input),
        0 <= i < worker.actions(input).len(),
    ensures
        worker.actions(input)[i] is StartHeartbeat <==> worker.after(input).stage is Locating && i
            == 2,
        worker.actions(input)[i] is StopHeartbeat <==> worker.after(input).stage is Ended
            && worker.stage != WorkerStage::Connecting && worker.stage != WorkerStage::Discovering
            && i == worker.actions(input).len() - 3,
{
}

/// The step that a worker takes upon an answer.
#[verifier::opaque]
pub open spec fn step_upon(worker: WorkerView, input: WorkerInput) -> WorkerActionView {
    worker.actions(input).last()
}

/// Whether a step sends `command`.
pub open spec fn sends(step: WorkerActionView, command: Command) -> bool {
    step matches WorkerActionView::SendCommand(long) && long.command == command
}

/// Whether the worker has sent `command` upon one of the answers.
pub open spec fn has_sent(worker: WorkerView, inputs: Seq<WorkerInput>, command: Command) -> bool {
    exists|k: int|
        0 <= k < inputs.len() && sends(
            #[trigger] step_upon(worker.run(inputs.take(k)), inputs[k]),
            command,
        )
}

/// Whether the vehicle with these ids was found.
pub open spec fn has_found(inputs: Seq<WorkerInput>, system_id: u8, component_id: u8) -> bool {
    exists|k: int|
        0 <= k < inputs.len() && #[trigger] inputs[k] == (WorkerInput::VehicleFound {
            system_id,
            component_id,
        })
}

proof fn lemma_sent_extends(worker: WorkerView, inputs: Seq<WorkerInput>, command: Command)
    requires
        inputs.len() > 0,
    ensures
        has_sent(worker, inputs.drop_last(), command) ==> has_sent(worker, inputs, command),
{
    let front = inputs.drop_last();
    if has_sent(worker, front, command) {
        let k = choose|k: int|
            0 <= k < front.len() && sends(
                #[trigger] step_upon(worker.run(front.take(k)), front[k]),
                command,
            );
        assert(inputs.take(k) =~= front.take(k));
        assert(inputs[k] == front[k]);
        assert(sends(step_upon(worker.run(inputs.take(k)), inputs[k]), command));
    }
}

proof fn lemma_sent_now(worker: WorkerView, inputs: Seq<WorkerInput>, command: Command)
    requires
        inputs.len() > 0,
        sends(step_upon(worker.run(inputs.drop_last()), inputs.last()), command),
    ensures
        has_sent(worker, inputs, command),
{
    let last = inputs.len() - 1;
    assert(inputs.take(last) =~= inputs.drop_last());
    assert(sends(step_upon(worker.run(inputs.take(last)), inputs[last]), command));
}

/// What one answer does to a worker, as far as its commands are concerned.
proof fn lemma_one_answer(at: WorkerView, input: WorkerInput)
    requires
        at.accepts(input),
    ensures
        ({
            let next = at.after(input);
            let step = step_upon(at, input);
            &&& is_step_of(step, next)
            &&& next.config == at.config
            &&& is_found(at.stage) && is_found(next.stage) ==> next.system_id == at.system_id
                && next.component_id == at.component_id
            &&& is_found(next.stage) && !is_found(at.stage) ==> input == (
            WorkerInput::VehicleFound {
                system_id: next.system_id,
                component_id: next.component_id,
            }) && (at.config.expected_system_id is None || at.config.expected_system_id == Some(
                next.system_id,
            ))
            &&& next.stage is StartingMission ==> at.stage is SettingMode
            &&& next.stage is Monitoring ==> at.stage is StartingMission
            &&& next.stage is SettingMode ==> at.stage is AwaitingDecision
            &&& next.stage is AwaitingDecision ==> at.stage is Arming || at.config.arm == Some(
                false,
            )
            &&& step == WorkerActionView::Finish(Ok::<(), SwarmErrorView>(())) ==> (at.stage
                is Monitoring && input is MissionDone) || (at.stage is AwaitingDecision && input
                == WorkerInput::Decided(StartSignal::Start) && at.config.auto_start == Some(false))
        }),
{
    reveal(step_upon);
    law_where_answers_lead(at, input);
    law_what_a_worker_remembers(at, input);
    law_one_step_at_a_time(at, input, at.actions(input).len() - 1);
    law_answers_are_taken_in_turn(at, input);
    if at.after(input).stage is Ended {
        law_how_a_worker_ends(at, input);
    }
}

proof fn lemma_found_extends(inputs: Seq<WorkerInput>, system_id: u8, component_id: u8)
    requires
        inputs.len() > 0,
        has_found(inputs.drop_last(), system_id, component_id),
    ensures
        has_found(inputs, system_id, component_id),
{
    let front = inputs.drop_last();
    let k = choose|k: int|
        0 <= k < front.len() && #[trigger] front[k] == (WorkerInput::VehicleFound {
            system_id,
            component_id,
        });
    assert(inputs[k] == front[k]);
}

/// Whether the vehicle has been found at a stage.
spec fn is_found(stage: WorkerStage) -> bool {
    !(stage is Connecting || stage is Discovering || stage is Ended)
}

proof fn lemma_flight_log(worker: WorkerView, inputs: Seq<WorkerInput>)
    requires
        worker.stage is Connecting,
        worker.accepts_all(inputs),
    ensures
        ({
            let now = worker.run(inputs);
            &&& now.config == worker.config
            &&& now.stage is StartingMission || now.stage is Monitoring ==> has_sent(
                worker,
                inputs,
                Command::DoSetMode,
            ) && has_sent(worker, inputs, Command::MissionStart)
            &&& now.stage is SettingMode ==> has_sent(worker, inputs, Command::DoSetMode)
            &&& now.stage is Arming ==> has_sent(worker, inputs, Command::ComponentArmDisarm)
            &&& worker.config.arm != Some(false) && (now.stage is AwaitingDecision || now.stage
                is SettingMode || now.stage is StartingMission || now.stage is Monitoring)
                ==> has_sent(worker, inputs, Command::ComponentArmDisarm)
            &&& is_found(now.stage) ==> has_found(inputs, now.system_id, now.component_id) && (
            worker.config.expected_system_id is None || worker.config.expected_system_id == Some(
                now.system_id,
            ))
        }),
    decreases inputs.len(),
{
    if inputs.len() > 0 {
        let front = inputs.drop_last();
        let at = worker.run(front);
        let input = inputs.last();
        lemma_flight_log(worker, front);
        lemma_one_answer(at, input);
        lemma_sent_extends(worker, inputs, Command::DoSetMode);
        lemma_sent_extends(worker, inputs, Command::MissionStart);
        lemma_sent_extends(worker, inputs, Command::ComponentArmDisarm);
        let now = worker.run(inputs);
        assert(now == at.after(input));
        if now.stage is SettingMode {
            lemma_sent_now(worker, inputs, Command::DoSetMode);
        }
        if now.stage is StartingMission {
            lemma_sent_now(worker, inputs, Command::MissionStart);
        }
        if now.stage is Arming {
            lemma_sent_now(worker, inputs, Command::ComponentArmDisarm);
        }
        if is_found(at.stage) {
            lemma_found_extends(inputs, at.system_id, at.component_id);
        }
        if is_found(now.stage) && !is_found(at.stage) {
            assert(inputs[inputs.len() - 1] == input);
        }
    }
}

/// A worker ends well only if the supervisor approved, and either the configuration leaves
/// the start to the pilot, or the vehicle was switched to the mission mode, told to start the
/// mission, and reached its end. Where arming is not forbidden, it was told to arm.
pub proof fn law_ending_well_means_the_mission_was_flown(
    worker: WorkerView,
    inputs: Seq<WorkerInput>,
)
    requires
        worker.stage is Connecting,
        inputs.len() > 0,
        worker.accepts_all(inputs),
        step_upon(worker.run(inputs.drop_last()), inputs.last()) == WorkerActionView::Finish(
            Ok::<(), SwarmErrorView>(()),
        ),
    ensures
        vehicle_worker::approved(inputs),
        worker.config.auto_start == Some(false) && inputs.last() == WorkerInput::Decided(
            StartSignal::Start,
        ) || inputs.last() is MissionDone && has_sent(worker, inputs, Command::DoSetMode)
            && has_sent(worker, inputs, Command::MissionStart),
        worker.config.arm != Some(false) ==> has_sent(
            worker,
            inputs,
            Command::ComponentArmDisarm,
        ),
{
    let front = inputs.drop_last();
    let at = worker.run(front);
    let input = inputs.last();
    lemma_flight_log(worker, front);
    lemma_one_answer(at, input);
    lemma_sent_extends(worker, inputs, Command::DoSetMode);
    lemma_sent_extends(worker, inputs, Command::MissionStart);
    lemma_sent_extends(worker, inputs, Command::ComponentArmDisarm);
    if input is MissionDone {
        vehicle_worker::lemma_approved_stage(worker, front);
        vehicle_worker::lemma_approved_extends(inputs);
    } else {
        assert(inputs[inputs.len() - 1] == WorkerInput::Decided(StartSignal::Start));
    }
}

/// Commands and uploads go to the vehicle that was found, which is the configured one where
/// one is configured.
pub proof fn law_commands_go_to_the_vehicle_that_was_found(
    worker: WorkerView,
    inputs: Seq<WorkerInput>,
)
    requires
        worker.stage is Connecting,
        inputs.len() > 0,
        worker.accepts_all(inputs),
    ensures
        ({
            let step = step_upon(worker.run(inputs.drop_last()), inputs.last());
            &&& step matches WorkerActionView::SendCommand(long) ==> has_found(
                inputs,
                long.target_system,
                long.target_component,
            ) && (worker.config.expected_system_id is None || worker.config.expected_system_id
                == Some(long.target_system))
            &&& step matches WorkerActionView::Upload { system_id, component_id, items }
                ==> has_found(inputs, system_id, component_id) && (
            worker.config.expected_system_id is None || worker.config.expected_system_id == Some(
                system_id,
            ))
        }),
{
    let at = worker.run(inputs.drop_last());
    let input = inputs.last();
    lemma_flight_log(worker, inputs);
    lemma_one_answer(at, input);
    assert(worker.run(inputs) == at.after(input));
}

/// The views of a worker's actions show all that these hold, in order.
pub proof fn law_views_of_worker_actions_are_complete(actions: Seq<WorkerAction>, i: int)
    requires
        0 <= i < actions.len(),
    ensures
        vehicle_worker::worker_views(actions).len() == actions.len(),
        ({
            let view = vehicle_worker::worker_views(actions)[i];
            match actions[i] {
                WorkerAction::Emit(event) => view == WorkerActionView::Emit(event@),
                WorkerAction::Print(words) => view == WorkerActionView::Print(words@),
                WorkerAction::Connect { endpoint } => view == (WorkerActionView::Connect {
                    endpoint: endpoint@,
                }),
                WorkerAction::AwaitVehicle => view is AwaitVehicle,
                WorkerAction::StartHeartbeat => view is StartHeartbeat,
                WorkerAction::AwaitPosition => view is AwaitPosition,
                WorkerAction::Upload { system_id, component_id, items } => view
                    == (WorkerActionView::Upload {
                    system_id,
                    component_id,
                    items: mission::item_views(items@),
                }),
                WorkerAction::SendCommand(long) => view == WorkerActionView::SendCommand(long),
                WorkerAction::AwaitDecision => view is AwaitDecision,
                WorkerAction::Monitor { final_seq } => view == (WorkerActionView::Monitor {
                    final_seq,
                }),
                WorkerAction::StopHeartbeat => view is StopHeartbeat,
                WorkerAction::Finish(result) => match result {
                    Ok(done) => view == WorkerActionView::Finish(Ok::<(), SwarmErrorView>(())),
                    Err(error) => view == WorkerActionView::Finish(
                        Err::<(), SwarmErrorView>(error@),
                    ),
                },
            }
        }),
{
}

} // verus!
