//! What a vehicle actor makes of every command, and how events are told.
use vstd::prelude::*;
use crate::reports;
use crate::text;
use crate::vehicle_actor;
use crate::vehicle_actor::{
    ActorAction, ActorActionView, ActorView, StartSignal, StartSignalView, VehicleCommand,
    VehicleCommandView, VehicleEvent, VehicleEventKind, VehicleEventKindView, VehicleEventView,
};

verus! {

/// The report that an actor makes of `kind` in `phase`.
pub open spec fn report(
    actor: ActorView,
    phase: Seq<char>,
    kind: VehicleEventKindView,
) -> ActorActionView {
    ActorActionView::Emit(VehicleEventView { vehicle: actor.name, phase, kind })
}

/// A command to prepare is always acknowledged, in its own phase. It runs a worker for that
/// phase where no mission is pending, and fails where one is.
pub proof fn law_preparing(actor: ActorView, phase: Seq<char>)
    ensures
        ({
            let actions = actor.actions(VehicleCommandView::PrepareMission { phase });
            &&& actions.len() == 2
            &&& actions[0] == report(actor, phase, VehicleEventKindView::CommandAccepted)
            &&& !actor.pending ==> actions[1] == (ActorActionView::RunWorker { phase })
            &&& actor.pending ==> actions[1] == report(
                actor,
                phase,
                VehicleEventKindView::Failed {
                    error: "vehicle already has a prepared mission in progress"@,
                },
            )
            &&& actor.after(VehicleCommandView::PrepareMission { phase }).pending
        }),
{
}

/// A decision is handed to the pending mission as it came, and a failure to hand it over is
/// to be reported for its phase; where no mission is pending, that is reported at once.
pub proof fn law_decisions_reach_the_pending_mission(
    actor: ActorView,
    phase: Seq<char>,
    reason: Seq<char>,
)
    ensures
        ({
            let start = VehicleCommandView::StartPreparedMission { phase };
            let abort = VehicleCommandView::AbortPreparedMission { phase, reason };
            let nothing = report(
                actor,
                phase,
                VehicleEventKindView::Failed {
                    error: "no prepared mission is waiting for a start decision"@,
                },
            );
            &&& actor.actions(start).len() == 1
            &&& actor.actions(abort).len() == 1
            &&& actor.pending ==> actor.actions(start)[0] == (ActorActionView::Signal {
                signal: StartSignalView::Start,
                report: Some(phase),
            })
            &&& actor.pending ==> actor.actions(abort)[0] == (ActorActionView::Signal {
                signal: StartSignalView::Abort { reason },
                report: Some(phase),
            })
            &&& !actor.pending ==> actor.actions(start)[0] == nothing && actor.actions(abort)[0]
                == nothing
            &&& !actor.after(start).pending
            &&& !actor.after(abort).pending
        }),
{
}

/// Shutting down aborts a pending mission, without a report if that fails, tells that the
/// actor shuts down, and takes no further commands.
pub proof fn law_shutting_down(actor: ActorView)
    ensures
        ({
            let actions = actor.actions(VehicleCommandView::Shutdown);
            let n = actions.len();
            &&& n == if actor.pending {
                3int
            } else {
                2int
            }
            &&& actor.pending ==> actions[0] == (ActorActionView::Signal {
                signal: StartSignalView::Abort { reason: "vehicle actor shutting down"@ },
                report: None,
            })
            &&& actions[n - 2] == report(actor, "supervisor"@, VehicleEventKindView::ShutdownAck)
            &&& actions[n - 1] is Stop
            &&& !actor.after(VehicleCommandView::Shutdown).pending
        }),
{
}

/// The actor after all of the commands.
pub open spec fn commanded(actor: ActorView, commands: Seq<VehicleCommandView>) -> ActorView
    decreases commands.len(),
{
    if commands.len() == 0 {
        actor
    } else {
        commanded(actor, commands.drop_last()).after(commands.last())
    }
}

/// Whatever an actor was told, it keeps its name, and a mission is pending exactly if the
/// last command was to prepare one.
pub proof fn law_the_last_command_counts(actor: ActorView, commands: Seq<VehicleCommandView>)
    requires
        !actor.pending,
    ensures
        commanded(actor, commands).name == actor.name,
        commanded(actor, commands).pending <==> commands.len() > 0 && commands.last()
            is PrepareMission,
    decreases commands.len(),
{
    if commands.len() > 0 {
        law_the_last_command_counts(actor, commands.drop_last());
    }
}

/// An actor stops upon the shutdown alone.
pub proof fn law_only_the_shutdown_stops(actor: ActorView, command: VehicleCommandView, i: int)
    requires
        0 <= i < actor.actions(command).len(),
    ensures
        actor.actions(command)[i] is Stop ==> command is Shutdown && i == actor.actions(
            command,
        ).len() - 1,
        actor.actions(command)[i] matches ActorActionView::Emit(event) ==> event.vehicle
            == actor.name,
{
}

/// Every event is told on a line that begins with its phase and its vehicle.
pub proof fn law_lines_begin_with_phase_and_vehicle(event: VehicleEventView)
    ensures
        ({
            let beginning = "["@ + event.phase + "]["@ + event.vehicle + "] "@;
            reports::event_text(event) == beginning + reports::kind_text(event.kind)
        }),
{
}

/// What the lines tell of what an event holds: endpoints, ids, coordinates, numbers of items,
/// the beginnings of hashes, reasons and errors, each in its place.
pub proof fn law_lines_tell_what_events_hold(kind: VehicleEventKindView)
    ensures
        ({
            let told = reports::kind_text(kind);
            match kind {
                VehicleEventKindView::CommandAccepted => told == "command accepted"@,
                VehicleEventKindView::Connecting { endpoint } => told == "connecting: "@
                    + endpoint,
                VehicleEventKindView::Discovered { system_id, component_id } => told == (
                "discovered sys="@ + text::decimal(system_id as nat)) + (", comp="@) + (
                text::decimal(component_id as nat)),
                VehicleEventKindView::StartPosition { lat_1e7, lon_1e7 } => told == (
                "start position lat="@ + text::fixed_1e7(lat_1e7 as int)) + (", lon="@) + (
                text::fixed_1e7(lon_1e7 as int)),
                VehicleEventKindView::MissionBuilt { item_count, spec_hash, upload_hash } => told
                    == ("mission built: "@ + text::decimal(item_count as nat)) + (
                " items, spec_hash="@) + reports::shortened(spec_hash) + (", upload_hash="@)
                    + reports::shortened(upload_hash),
                VehicleEventKindView::MissionUploaded => told == "mission uploaded"@,
                VehicleEventKindView::Armed => told == "armed"@,
                VehicleEventKindView::ReadinessVote { mission_hash, item_count } => told == (
                "readiness vote: item_count="@ + text::decimal(item_count as nat)) + (
                ", mission_hash="@) + reports::shortened(mission_hash),
                VehicleEventKindView::WaitingForStart { mission_hash } => told
                    == "waiting for supervisor start decision, mission_hash="@
                    + reports::shortened(mission_hash),
                VehicleEventKindView::StartApproved => told == "start approved"@,
                VehicleEventKindView::StartAborted { reason } => told == "start aborted: "@
                    + reason,
                VehicleEventKindView::MissionStarted => told == "mission started"@,
                VehicleEventKindView::MissionMonitorStarted => told == "monitoring mission"@,
                VehicleEventKindView::Completed => told == "completed"@,
                VehicleEventKindView::Failed { error } => told == "failed: "@ + error,
                VehicleEventKindView::ShutdownAck => told == "shutdown"@,
            }
        }),
{
}

/// The views of events show all that these hold.
pub proof fn law_views_of_events_are_complete(event: VehicleEvent)
    ensures
        event@.vehicle == event.vehicle@,
        event@.phase == event.phase@,
        match event.kind {
            VehicleEventKind::CommandAccepted => event@.kind is CommandAccepted,
            VehicleEventKind::Connecting { endpoint } => event@.kind
                == (VehicleEventKindView::Connecting { endpoint: endpoint@ }),
            VehicleEventKind::Discovered { system_id, component_id } => event@.kind
                == (VehicleEventKindView::Discovered { system_id, component_id }),
            VehicleEventKind::StartPosition { lat_1e7, lon_1e7 } => event@.kind
                == (VehicleEventKindView::StartPosition { lat_1e7, lon_1e7 }),
            VehicleEventKind::MissionBuilt { item_count, spec_hash, upload_hash } => event@.kind
                == (VehicleEventKindView::MissionBuilt {
                item_count,
                spec_hash: spec_hash@,
                upload_hash: upload_hash@,
            }),
            VehicleEventKind::MissionUploaded => event@.kind is MissionUploaded,
            VehicleEventKind::Armed => event@.kind is Armed,
            VehicleEventKind::ReadinessVote { mission_hash, item_count } => event@.kind
                == (VehicleEventKindView::ReadinessVote {
                mission_hash: mission_hash@,
                item_count,
            }),
            VehicleEventKind::WaitingForStart { mission_hash } => event@.kind
                == (VehicleEventKindView::WaitingForStart { mission_hash: mission_hash@ }),
            VehicleEventKind::StartApproved => event@.kind is StartApproved,
            VehicleEventKind::StartAborted { reason } => event@.kind
                == (VehicleEventKindView::StartAborted { reason: reason@ }),
            VehicleEventKind::MissionStarted => event@.kind is MissionStarted,
            VehicleEventKind::MissionMonitorStarted => event@.kind is MissionMonitorStarted,
            VehicleEventKind::Completed => event@.kind is Completed,
            VehicleEventKind::Failed { error } => event@.kind == (VehicleEventKindView::Failed {
                error: error@,
            }),
            VehicleEventKind::ShutdownAck => event@.kind is ShutdownAck,
        },
{
}

/// The views of commands and signals show all that these hold.
pub proof fn law_views_of_commands_are_complete(command: VehicleCommand, signal: StartSignal)
    ensures
        match command {
            VehicleCommand::PrepareMission { phase } => command@
                == (VehicleCommandView::PrepareMission { phase: phase@ }),
            VehicleCommand::StartPreparedMission { phase } => command@
                == (VehicleCommandView::StartPreparedMission { phase: phase@ }),
            VehicleCommand::AbortPreparedMission { phase, reason } => command@
                == (VehicleCommandView::AbortPreparedMission { phase: phase@, reason: reason@ }),
            VehicleCommand::Shutdown => command@ is Shutdown,
        },
        match signal {
            StartSignal::Start => signal@ is Start,
            StartSignal::Abort { reason } => signal@ == (StartSignalView::Abort {
                reason: reason@,
            }),
        },
{
}

/// The views of an actor's actions show all that these hold, in order.
pub proof fn law_views_of_actor_actions_are_complete(actions: Seq<ActorAction>, i: int)
    requires
        0 <= i < actions.len(),
    ensures
        vehicle_actor::actor_views(actions).len() == actions.len(),
        ({
            let view = vehicle_actor::actor_views(actions)[i];
            match actions[i] {
                ActorAction::Emit(event) => view == ActorActionView::Emit(event@),
                ActorAction::RunWorker { phase } => view == (ActorActionView::RunWorker {
                    phase: phase@,
                }),
                ActorAction::Signal { signal, report } => {
                    &&& view is Signal
                    &&& view->signal == signal@
                    &&& report matches Some(phase) ==> view->report == Some(phase@)
                    &&& report is None ==> view->report is None
                },
                ActorAction::Stop => view is Stop,
            }
        }),
{
}

} // verus!
