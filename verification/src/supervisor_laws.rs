//! What holds of every mission phase, whatever the vehicles report.
use vstd::prelude::*;
use crate::config::DroneConfig;
use crate::consensus;
use crate::consensus::{ReadinessVoteView, SwarmDecisionView, TrackerView};
use crate::mavlink_client::{AnyResult, SwarmErrorView};
use crate::mission;
use crate::swarm_supervisor;
use crate::swarm_supervisor::{SupervisorActionView, SupervisorView};
use crate::vehicle_actor::{VehicleCommandView, VehicleEventKindView, VehicleEventView};
use crate::vehicle_worker;
use crate::vehicle_worker::{WorkerActionView, WorkerInput, WorkerView};

verus! {

/// Whether an action tells `vehicle` to start its mission.
pub open spec fn is_start(action: SupervisorActionView, vehicle: Seq<char>) -> bool {
    action matches SupervisorActionView::Send { vehicle: to, command } && to == vehicle && command
        is StartPreparedMission
}

/// Whether an action tells `vehicle` to abort its mission.
pub open spec fn is_abort(action: SupervisorActionView, vehicle: Seq<char>) -> bool {
    action matches SupervisorActionView::Send { vehicle: to, command } && to == vehicle && command
        is AbortPreparedMission
}

/// Whether one of the actions tells `vehicle` to start its mission.
pub open spec fn has_start(actions: Seq<SupervisorActionView>, vehicle: Seq<char>) -> bool {
    exists|i: int| 0 <= i < actions.len() && is_start(#[trigger] actions[i], vehicle)
}

/// Whether one of the actions tells `vehicle` to abort its mission.
pub open spec fn has_abort(actions: Seq<SupervisorActionView>, vehicle: Seq<char>) -> bool {
    exists|i: int| 0 <= i < actions.len() && is_abort(#[trigger] actions[i], vehicle)
}

/// Of two lists of actions one behind the other, each command is in one of them.
pub proof fn lemma_concat(
    a: Seq<SupervisorActionView>,
    b: Seq<SupervisorActionView>,
    vehicle: Seq<char>,
)
    ensures
        has_start(a + b, vehicle) <==> has_start(a, vehicle) || has_start(b, vehicle),
        has_abort(a + b, vehicle) <==> has_abort(a, vehicle) || has_abort(b, vehicle),
{
    let c = a + b;
    if has_start(a, vehicle) {
        let i = choose|i: int| 0 <= i < a.len() && is_start(#[trigger] a[i], vehicle);
        assert(is_start(c[i], vehicle));
    }
    if has_start(b, vehicle) {
        let i = choose|i: int| 0 <= i < b.len() && is_start(#[trigger] b[i], vehicle);
        assert(is_start(c[a.len() + i], vehicle));
    }
    if has_start(c, vehicle) {
        let i = choose|i: int| 0 <= i < c.len() && is_start(#[trigger] c[i], vehicle);
        if i < a.len() {
            assert(is_start(a[i], vehicle));
        } else {
            assert(is_start(b[i - a.len()], vehicle));
        }
    }
    if has_abort(a, vehicle) {
        let i = choose|i: int| 0 <= i < a.len() && is_abort(#[trigger] a[i], vehicle);
        assert(is_abort(c[i], vehicle));
    }
    if has_abort(b, vehicle) {
        let i = choose|i: int| 0 <= i < b.len() && is_abort(#[trigger] b[i], vehicle);
        assert(is_abort(c[a.len() + i], vehicle));
    }
    if has_abort(c, vehicle) {
        let i = choose|i: int| 0 <= i < c.len() && is_abort(#[trigger] c[i], vehicle);
        if i < a.len() {
            assert(is_abort(a[i], vehicle));
        } else {
            assert(is_abort(b[i - a.len()], vehicle));
        }
    }
}

/// A line is no command.
pub proof fn lemma_print(line: Seq<char>, vehicle: Seq<char>)
    ensures
        !has_start(seq![SupervisorActionView::Print(line)], vehicle),
        !has_abort(seq![SupervisorActionView::Print(line)], vehicle),
{
}

proof fn lemma_contains_last(actors: Seq<Seq<char>>, name: Seq<char>)
    requires
        actors.len() > 0,
    ensures
        actors.contains(name) <==> actors.drop_last().contains(name) || actors.last() == name,
{
    let rest = actors.drop_last();
    if actors.contains(name) && actors.last() != name {
        let i = choose|i: int| 0 <= i < actors.len() && actors[i] == name;
        assert(rest[i] == name);
    }
    if rest.contains(name) {
        let i = choose|i: int| 0 <= i < rest.len() && rest[i] == name;
        assert(actors[i] == name);
    }
    assert(actors[actors.len() - 1] == actors.last());
}

/// Exactly those actors are told to start that are to start.
pub proof fn lemma_start_actions(
    s: SupervisorView,
    actors: Seq<Seq<char>>,
    vehicles: Set<Seq<char>>,
    name: Seq<char>,
)
    ensures
        has_start(s.start_actions(actors, vehicles), name) <==> actors.contains(name) && s.starts(
            name,
            vehicles,
        ),
        !has_abort(s.start_actions(actors, vehicles), name),
    decreases actors.len(),
{
    if actors.len() > 0 {
        let last = actors.last();
        let rest = s.start_actions(actors.drop_last(), vehicles);
        lemma_start_actions(s, actors.drop_last(), vehicles, name);
        lemma_contains_last(actors, name);
        if s.starts(last, vehicles) {
            let step = seq![
                s.print("starting "@ + last),
                SupervisorActionView::Send {
                    vehicle: last,
                    command: VehicleCommandView::StartPreparedMission { phase: s.phase },
                },
            ];
            assert(has_start(step, last)) by {
                assert(is_start(step[1], last));
            }
            lemma_concat(rest, step, name);
        } else {
            lemma_concat(rest, Seq::empty(), name);
        }
    }
}

/// Exactly those actors are told to abort that are to abort.
pub proof fn lemma_abort_actions(
    s: SupervisorView,
    actors: Seq<Seq<char>>,
    spared: Set<Seq<char>>,
    reason: Seq<char>,
    name: Seq<char>,
)
    ensures
        has_abort(s.abort_actions(actors, spared, reason), name) <==> actors.contains(name)
            && s.aborts(name, spared),
        !has_start(s.abort_actions(actors, spared, reason), name),
    decreases actors.len(),
{
    if actors.len() > 0 {
        let last = actors.last();
        let rest = s.abort_actions(actors.drop_last(), spared, reason);
        lemma_abort_actions(s, actors.drop_last(), spared, reason, name);
        lemma_contains_last(actors, name);
        if s.aborts(last, spared) {
            let step = seq![
                s.print("aborting "@ + last + " before start: "@ + reason),
                SupervisorActionView::Send {
                    vehicle: last,
                    command: VehicleCommandView::AbortPreparedMission { phase: s.phase, reason },
                },
            ];
            assert(has_abort(step, last)) by {
                assert(is_abort(step[1], last));
            }
            lemma_concat(rest, step, name);
        } else {
            lemma_concat(rest, Seq::empty(), name);
        }
    }
}

/// Whatever a vehicle reports, and also when nothing is reported in time, the state stays
/// consistent.
pub proof fn law_state_stays_consistent(s: SupervisorView, event: VehicleEventView)
    requires
        s.inv(),
    ensures
        s.after(event).inv(),
        s.waiting() ==> s.after_abort(s.timeout_reason()).inv(),
        s.after(event).actors == s.actors,
        s.after(event).phase == s.phase,
        s.terminal.subset_of(s.after(event).terminal),
{
}

/// The decision is final: once it has been made, no event changes it, the votes, the
/// vehicles that were told to abort, or the reason why the phase was aborted; and in a
/// gated phase no vehicle is told to start or to abort any more.
pub proof fn law_decision_is_final(s: SupervisorView, event: VehicleEventView, vehicle: Seq<char>)
    requires
        s.inv(),
        s.decided,
    ensures
        s.after(event).decided,
        s.after(event).tracker == s.tracker,
        s.after(event).planned_aborts == s.planned_aborts,
        s.after(event).abort_reason == s.abort_reason,
        s.gated ==> !has_start(s.actions(event), vehicle) && !has_abort(s.actions(event), vehicle),
{
    lemma_print(crate::reports::event_text(event), vehicle);
    lemma_concat(
        seq![SupervisorActionView::Print(crate::reports::event_text(event))],
        s.reaction(event),
        vehicle,
    );
}

/// On a decision to start, an actor is told to start exactly if it is a participant that
/// has not been started, and told to abort exactly if it is no participant and not at an
/// end. No vehicle is told both.
pub proof fn law_start_decision_splits_the_swarm(
    s: SupervisorView,
    decision: SwarmDecisionView,
    vehicle: Seq<char>,
)
    requires
        decision is Start,
    ensures
        ({
            let actions = s.decision_actions(decision);
            let participants = decision->participants.to_set();
            &&& has_start(actions, vehicle) <==> s.actors.contains(vehicle)
                && participants.contains(vehicle) && !s.started.contains(vehicle)
            &&& has_abort(actions, vehicle) <==> s.actors.contains(vehicle)
                && !participants.contains(vehicle) && !s.terminal.contains(vehicle)
            &&& !(has_start(actions, vehicle) && has_abort(actions, vehicle))
            &&& has_abort(actions, vehicle) ==> s.after_decision(
                decision,
            ).planned_aborts.contains_key(vehicle)
        }),
{
    let participants = decision->participants.to_set();
    let reason = "excluded by quorum start decision"@;
    let line = "start decision: "@ + decision->Start_reason;
    let told = seq![s.print(line)];
    let starts = s.start_actions(s.actors, participants);
    let aborts = s.abort_actions(s.actors, participants, reason);
    lemma_print("["@ + s.phase + "][supervisor] "@ + line, vehicle);
    lemma_start_actions(s, s.actors, participants, vehicle);
    lemma_abort_actions(s, s.actors, participants, reason, vehicle);
    lemma_concat(told, starts, vehicle);
    lemma_concat(told + starts, aborts, vehicle);
}

/// On a decision to abort, and when the readiness deadline passes, exactly the actors
/// that are not at an end are told to abort, and none is told to start.
pub proof fn law_abort_reaches_everyone(s: SupervisorView, reason: Seq<char>, vehicle: Seq<char>)
    ensures
        ({
            let actions = s.decision_actions(SwarmDecisionView::Abort { reason });
            &&& has_abort(actions, vehicle) <==> s.actors.contains(vehicle)
                && !s.terminal.contains(vehicle)
            &&& !has_start(actions, vehicle)
            &&& has_abort(actions, vehicle) ==> s.after_abort(reason).planned_aborts.contains_key(
                vehicle,
            )
        }),
        has_abort(s.timeout_actions(), vehicle) <==> s.actors.contains(vehicle)
            && !s.terminal.contains(vehicle),
        !has_start(s.timeout_actions(), vehicle),
{
    let told = "abort decision: "@ + reason;
    lemma_print("["@ + s.phase + "][supervisor] "@ + told, vehicle);
    lemma_abort_actions(s, s.actors, Set::empty(), reason, vehicle);
    lemma_concat(
        seq![s.print(told)],
        s.abort_actions(s.actors, Set::empty(), reason),
        vehicle,
    );
    let late = "aborting phase: "@ + s.timeout_reason();
    lemma_print("["@ + s.phase + "][supervisor] "@ + late, vehicle);
    lemma_abort_actions(s, s.actors, Set::empty(), s.timeout_reason(), vehicle);
    lemma_concat(
        seq![s.print(late)],
        s.abort_actions(s.actors, Set::empty(), s.timeout_reason()),
        vehicle,
    );
}

/// Something that happens to the supervisor during a phase.
pub enum Happening {
    /// A vehicle reported an event.
    Reported(VehicleEventView),
    /// No event came in time, or none can come any more.
    NoEvent,
    /// A command to start was sent to this vehicle.
    StartSent(Seq<char>),
}

/// The state after something happened.
pub open spec fn next(s: SupervisorView, happening: Happening) -> SupervisorView {
    match happening {
        Happening::Reported(event) => s.after(event),
        Happening::NoEvent => if s.waiting() {
            s.after_abort(s.timeout_reason())
        } else {
            s
        },
        Happening::StartSent(vehicle) => SupervisorView {
            started: s.started.insert(vehicle),
            ..s
        },
    }
}

/// What the supervisor does about something that happened.
pub open spec fn answer(s: SupervisorView, happening: Happening) -> Seq<SupervisorActionView> {
    match happening {
        Happening::Reported(event) => s.actions(event),
        Happening::NoEvent => if s.waiting() {
            s.timeout_actions()
        } else {
            Seq::empty()
        },
        Happening::StartSent(vehicle) => Seq::empty(),
    }
}

/// The state after the first `count` of the happenings.
pub open spec fn state_at(
    s: SupervisorView,
    happenings: Seq<Happening>,
    count: nat,
) -> SupervisorView
    decreases count,
{
    if count == 0 {
        s
    } else {
        next(state_at(s, happenings, (count - 1) as nat), happenings[count - 1])
    }
}

/// Whether the supervisor tells `vehicle` to start or to abort.
pub open spec fn decides(actions: Seq<SupervisorActionView>, vehicle: Seq<char>) -> bool {
    has_start(actions, vehicle) || has_abort(actions, vehicle)
}

proof fn lemma_commands_mean_decision(s: SupervisorView, vehicle: Seq<char>)
    requires
        decides(s.decision_actions(s.tracker.decision()), vehicle),
    ensures
        s.after_decision(s.tracker.decision()).decided,
{
    match s.tracker.decision() {
        SwarmDecisionView::Hold { reason } => {
            lemma_print("["@ + s.phase + "][supervisor] "@ + ("holding: "@ + reason), vehicle);
        },
        _ => {},
    }
}

/// In a gated phase a command to start or to abort means that the start is decided by it.
pub proof fn lemma_commands_settle(s: SupervisorView, happening: Happening, vehicle: Seq<char>)
    requires
        s.inv(),
        s.gated,
        decides(answer(s, happening), vehicle),
    ensures
        s.waiting(),
        next(s, happening).decided,
{
    match happening {
        Happening::Reported(event) => {
            if s.decided {
                law_decision_is_final(s, event, vehicle);
            } else {
                let shown = crate::reports::event_text(event);
                lemma_print(shown, vehicle);
                lemma_concat(seq![SupervisorActionView::Print(shown)], s.reaction(event), vehicle);
                match event.kind {
                    VehicleEventKindView::ReadinessVote { mission_hash, item_count } => {
                        let vote = SupervisorView::vote_of(event);
                        let voted = s.tracking(s.tracker.after_vote(vote));
                        let line = s.outcome_line(event.vehicle, s.tracker.outcome(vote));
                        lemma_print("["@ + s.phase + "][supervisor] "@ + line, vehicle);
                        lemma_concat(
                            seq![s.print(line)],
                            voted.decision_actions(voted.tracker.decision()),
                            vehicle,
                        );
                        lemma_commands_mean_decision(voted, vehicle);
                    },
                    VehicleEventKindView::Failed { error } => {
                        if s.planned_aborts.contains_key(event.vehicle) {
                            let line = event.vehicle + " stopped as planned: "@ + error;
                            lemma_print("["@ + s.phase + "][supervisor] "@ + line, vehicle);
                        } else {
                            let failed = s.failing(event.vehicle, error);
                            let line = event.vehicle + " failed before readiness decision: "@
                                + error;
                            lemma_print("["@ + s.phase + "][supervisor] "@ + line, vehicle);
                            lemma_concat(
                                seq![s.print(line)],
                                failed.decision_actions(failed.tracker.decision()),
                                vehicle,
                            );
                            lemma_commands_mean_decision(failed, vehicle);
                        }
                    },
                    _ => {},
                }
            }
        },
        _ => {},
    }
}

/// A run keeps the state consistent, and a decision once made.
pub proof fn lemma_run_keeps(s: SupervisorView, happenings: Seq<Happening>, from: nat, to: nat)
    requires
        s.inv(),
        from <= to,
    ensures
        state_at(s, happenings, to).inv(),
        state_at(s, happenings, to).gated == s.gated,
        state_at(s, happenings, from).decided ==> state_at(s, happenings, to).decided,
    decreases to,
{
    if to > 0 {
        let earlier = (to - 1) as nat;
        if from < to {
            lemma_run_keeps(s, happenings, from, earlier);
        } else {
            lemma_run_keeps(s, happenings, 0, earlier);
        }
        let at = state_at(s, happenings, earlier);
        match happenings[to - 1] {
            Happening::Reported(event) => {
                law_state_stays_consistent(at, event);
            },
            _ => {},
        }
    }
}

/// Whether at most one of the actions tells `vehicle` to start or to abort.
pub open spec fn at_most_one(actions: Seq<SupervisorActionView>, vehicle: Seq<char>) -> bool {
    forall|i: int, j: int|
        0 <= i < actions.len() && 0 <= j < actions.len() && is_decision(
            #[trigger] actions[i],
            vehicle,
        ) && is_decision(#[trigger] actions[j], vehicle) ==> i == j
}

/// Whether an action tells `vehicle` to start or to abort.
pub open spec fn is_decision(action: SupervisorActionView, vehicle: Seq<char>) -> bool {
    is_start(action, vehicle) || is_abort(action, vehicle)
}

proof fn lemma_decides(actions: Seq<SupervisorActionView>, vehicle: Seq<char>, i: int)
    requires
        0 <= i < actions.len(),
        is_decision(actions[i], vehicle),
    ensures
        decides(actions, vehicle),
{
    if is_start(actions[i], vehicle) {
        assert(has_start(actions, vehicle));
    } else {
        assert(has_abort(actions, vehicle));
    }
}

proof fn lemma_one_of_two(
    a: Seq<SupervisorActionView>,
    b: Seq<SupervisorActionView>,
    vehicle: Seq<char>,
)
    requires
        at_most_one(a, vehicle),
        at_most_one(b, vehicle),
        !(decides(a, vehicle) && decides(b, vehicle)),
    ensures
        at_most_one(a + b, vehicle),
{
    let c = a + b;
    assert forall|i: int, j: int|
        0 <= i < c.len() && 0 <= j < c.len() && is_decision(#[trigger] c[i], vehicle)
            && is_decision(#[trigger] c[j], vehicle) implies i == j by {
        let k = a.len();
        if i < k {
            assert(c[i] == a[i]);
            lemma_decides(a, vehicle, i);
        } else {
            assert(c[i] == b[i - k]);
            lemma_decides(b, vehicle, i - k);
        }
        if j < k {
            assert(c[j] == a[j]);
            lemma_decides(a, vehicle, j);
        } else {
            assert(c[j] == b[j - k]);
            lemma_decides(b, vehicle, j - k);
        }
    }
}

proof fn lemma_last_is_new(actors: Seq<Seq<char>>)
    requires
        actors.no_duplicates(),
        actors.len() > 0,
    ensures
        actors.drop_last().no_duplicates(),
        !actors.drop_last().contains(actors.last()),
{
    let rest = actors.drop_last();
    assert forall|i: int, j: int|
        0 <= i < rest.len() && 0 <= j < rest.len() && i != j implies rest[i] != rest[j] by {
        assert(actors[i] != actors[j]);
    }
    if rest.contains(actors.last()) {
        let i = choose|i: int| 0 <= i < rest.len() && rest[i] == actors.last();
        assert(actors[i] == actors[actors.len() - 1]);
    }
}

proof fn lemma_one_start(
    s: SupervisorView,
    actors: Seq<Seq<char>>,
    vehicles: Set<Seq<char>>,
    name: Seq<char>,
)
    requires
        actors.no_duplicates(),
    ensures
        at_most_one(s.start_actions(actors, vehicles), name),
    decreases actors.len(),
{
    if actors.len() > 0 {
        let last = actors.last();
        let rest = s.start_actions(actors.drop_last(), vehicles);
        lemma_last_is_new(actors);
        lemma_one_start(s, actors.drop_last(), vehicles, name);
        lemma_start_actions(s, actors.drop_last(), vehicles, name);
        let step = if s.starts(last, vehicles) {
            seq![
                s.print("starting "@ + last),
                SupervisorActionView::Send {
                    vehicle: last,
                    command: VehicleCommandView::StartPreparedMission { phase: s.phase },
                },
            ]
        } else {
            Seq::empty()
        };
        lemma_one_of_two(rest, step, name);
    }
}

proof fn lemma_one_abort(
    s: SupervisorView,
    actors: Seq<Seq<char>>,
    spared: Set<Seq<char>>,
    reason: Seq<char>,
    name: Seq<char>,
)
    requires
        actors.no_duplicates(),
    ensures
        at_most_one(s.abort_actions(actors, spared, reason), name),
    decreases actors.len(),
{
    if actors.len() > 0 {
        let last = actors.last();
        let rest = s.abort_actions(actors.drop_last(), spared, reason);
        lemma_last_is_new(actors);
        lemma_one_abort(s, actors.drop_last(), spared, reason, name);
        lemma_abort_actions(s, actors.drop_last(), spared, reason, name);
        let step = if s.aborts(last, spared) {
            seq![
                s.print("aborting "@ + last + " before start: "@ + reason),
                SupervisorActionView::Send {
                    vehicle: last,
                    command: VehicleCommandView::AbortPreparedMission { phase: s.phase, reason },
                },
            ]
        } else {
            Seq::empty()
        };
        lemma_one_of_two(rest, step, name);
    }
}

proof fn lemma_one_behind_print(
    line: Seq<char>,
    actions: Seq<SupervisorActionView>,
    vehicle: Seq<char>,
)
    requires
        at_most_one(actions, vehicle),
    ensures
        at_most_one(seq![SupervisorActionView::Print(line)] + actions, vehicle),
{
    lemma_print(line, vehicle);
    lemma_one_of_two(seq![SupervisorActionView::Print(line)], actions, vehicle);
}

/// On a decision each vehicle gets at most one command to start or to abort, and so it does
/// when the readiness deadline passes.
pub proof fn law_decision_sends_one_command(
    s: SupervisorView,
    decision: SwarmDecisionView,
    vehicle: Seq<char>,
)
    requires
        s.actors.no_duplicates(),
    ensures
        at_most_one(s.decision_actions(decision), vehicle),
        at_most_one(s.timeout_actions(), vehicle),
{
    let own = "["@ + s.phase + "][supervisor] "@;
    lemma_one_abort(s, s.actors, Set::empty(), s.timeout_reason(), vehicle);
    lemma_one_behind_print(
        own + ("aborting phase: "@ + s.timeout_reason()),
        s.abort_actions(s.actors, Set::empty(), s.timeout_reason()),
        vehicle,
    );
    match decision {
        SwarmDecisionView::Start { participants, reason } => {
            let spared = participants.to_set();
            let why = "excluded by quorum start decision"@;
            let line = "start decision: "@ + reason;
            let starts = s.start_actions(s.actors, spared);
            let aborts = s.abort_actions(s.actors, spared, why);
            lemma_one_start(s, s.actors, spared, vehicle);
            lemma_one_abort(s, s.actors, spared, why, vehicle);
            lemma_start_actions(s, s.actors, spared, vehicle);
            lemma_abort_actions(s, s.actors, spared, why, vehicle);
            lemma_one_behind_print(own + line, starts, vehicle);
            lemma_print(own + line, vehicle);
            lemma_concat(seq![s.print(line)], starts, vehicle);
            lemma_one_of_two(seq![s.print(line)] + starts, aborts, vehicle);
        },
        SwarmDecisionView::Abort { reason } => {
            lemma_one_abort(s, s.actors, Set::empty(), reason, vehicle);
            lemma_one_behind_print(
                own + ("abort decision: "@ + reason),
                s.abort_actions(s.actors, Set::empty(), reason),
                vehicle,
            );
        },
        SwarmDecisionView::Hold { reason } => {},
    }
}

/// Whatever happens, each vehicle gets at most one command to start or to abort on that
/// occasion.
pub proof fn law_occasion_sends_one_command(
    s: SupervisorView,
    happening: Happening,
    vehicle: Seq<char>,
)
    requires
        s.inv(),
    ensures
        at_most_one(answer(s, happening), vehicle),
{
    let own = "["@ + s.phase + "][supervisor] "@;
    match happening {
        Happening::Reported(event) => {
            match event.kind {
                VehicleEventKindView::ReadinessVote { mission_hash, item_count } => {
                    if s.waiting() {
                        let vote = SupervisorView::vote_of(event);
                        let voted = s.tracking(s.tracker.after_vote(vote));
                        let line = s.outcome_line(event.vehicle, s.tracker.outcome(vote));
                        let decision = voted.tracker.decision();
                        law_decision_sends_one_command(voted, decision, vehicle);
                        lemma_one_behind_print(
                            own + line,
                            voted.decision_actions(decision),
                            vehicle,
                        );
                    } else {
                        lemma_one_start(s, s.actors, set![event.vehicle], vehicle);
                    }
                },
                VehicleEventKindView::Failed { error } => {
                    if !s.planned_aborts.contains_key(event.vehicle) && s.waiting() {
                        let failed = s.failing(event.vehicle, error);
                        let line = event.vehicle + " failed before readiness decision: "@ + error;
                        let decision = failed.tracker.decision();
                        law_decision_sends_one_command(failed, decision, vehicle);
                        lemma_one_behind_print(
                            own + line,
                            failed.decision_actions(decision),
                            vehicle,
                        );
                    }
                },
                _ => {},
            }
            assert(at_most_one(s.reaction(event), vehicle));
            lemma_one_behind_print(
                crate::reports::event_text(event),
                s.reaction(event),
                vehicle,
            );
        },
        Happening::NoEvent => {
            law_decision_sends_one_command(
                s,
                SwarmDecisionView::Hold { reason: Seq::empty() },
                vehicle,
            );
        },
        Happening::StartSent(started) => {},
    }
}

/// A gated phase is decided once: whatever happens, the commands to start and to abort
/// are all sent on one occasion, and later ones bring no such command to any vehicle.
pub proof fn law_gated_phase_is_decided_once(
    s: SupervisorView,
    happenings: Seq<Happening>,
    i: nat,
    j: nat,
    vehicle: Seq<char>,
    other: Seq<char>,
)
    requires
        s.inv(),
        s.gated,
        i < j < happenings.len(),
        decides(answer(state_at(s, happenings, i), happenings[i as int]), vehicle),
    ensures
        state_at(s, happenings, i).waiting(),
        state_at(s, happenings, j).decided,
        !decides(answer(state_at(s, happenings, j), happenings[j as int]), other),
{
    lemma_run_keeps(s, happenings, 0, i);
    lemma_commands_settle(state_at(s, happenings, i), happenings[i as int], vehicle);
    lemma_run_keeps(s, happenings, i + 1, j);
    let late = state_at(s, happenings, j);
    if decides(answer(late, happenings[j as int]), other) {
        lemma_commands_settle(late, happenings[j as int], other);
    }
}

/// The readiness gate is never waited at without a deadline, and a deadline that passes
/// aborts the phase: it is then decided, and cannot end as complete.
pub proof fn law_deadline_aborts_the_phase(s: SupervisorView)
    requires
        s.inv(),
        s.waiting(),
    ensures
        !(s.wait() is Event),
        ({
            let late = next(s, Happening::NoEvent);
            &&& late.decided
            &&& late.abort_reason == Some(s.timeout_reason())
            &&& late.verdict() is Err
        }),
{
}

/// The tracker as it is when the decision about `event` is taken.
pub open spec fn deciding_tracker(s: SupervisorView, event: VehicleEventView) -> TrackerView {
    match event.kind {
        VehicleEventKindView::ReadinessVote { mission_hash, item_count } => s.tracker.after_vote(
            SupervisorView::vote_of(event),
        ),
        VehicleEventKindView::Failed { error } => s.tracker.after_failure(event.vehicle, error),
        _ => s.tracker,
    }
}

/// In a gated phase a vehicle is told to start only while the decision is open, only on a
/// quorum of valid votes, and only if it is expected and has itself voted for the mission
/// that it is to fly; the start is then decided.
pub proof fn law_gated_start_needs_quorum(
    s: SupervisorView,
    event: VehicleEventView,
    vehicle: Seq<char>,
)
    requires
        s.inv(),
        s.gated,
        has_start(s.actions(event), vehicle),
    ensures
        s.waiting(),
        s.after(event).decided,
        s.after(event).abort_reason is None,
        ({
            let tracker = deciding_tracker(s, event);
            &&& tracker.votes.len() >= tracker.threshold()
            &&& tracker.votes.contains_key(vehicle)
            &&& tracker.expected.contains_key(vehicle)
            &&& tracker.votes[vehicle].mission_hash == tracker.expected[vehicle]
        }),
{
    let shown = crate::reports::event_text(event);
    lemma_print(shown, vehicle);
    lemma_concat(seq![SupervisorActionView::Print(shown)], s.reaction(event), vehicle);
    assert(has_start(s.reaction(event), vehicle));
    match event.kind {
        VehicleEventKindView::ReadinessVote { mission_hash, item_count } => {
            let vote = SupervisorView::vote_of(event);
            let voted = s.tracking(s.tracker.after_vote(vote));
            let line = s.outcome_line(event.vehicle, s.tracker.outcome(vote));
            lemma_print("["@ + s.phase + "][supervisor] "@ + line, vehicle);
            lemma_concat(
                seq![s.print(line)],
                voted.decision_actions(voted.tracker.decision()),
                vehicle,
            );
            lemma_start_among_votes(voted, vehicle);
        },
        VehicleEventKindView::Failed { error } => {
            if !s.planned_aborts.contains_key(event.vehicle) && s.waiting() {
                let failed = s.failing(event.vehicle, error);
                let line = event.vehicle + " failed before readiness decision: "@ + error;
                lemma_print("["@ + s.phase + "][supervisor] "@ + line, vehicle);
                lemma_concat(
                    seq![s.print(line)],
                    failed.decision_actions(failed.tracker.decision()),
                    vehicle,
                );
                lemma_start_among_votes(failed, vehicle);
            }
        },
        _ => {},
    }
}

proof fn lemma_start_among_votes(s: SupervisorView, vehicle: Seq<char>)
    requires
        s.tracker.inv(),
        has_start(s.decision_actions(s.tracker.decision()), vehicle),
    ensures
        s.tracker.decision() is Start,
        s.tracker.votes.contains_key(vehicle),
{
    let decision = s.tracker.decision();
    match decision {
        SwarmDecisionView::Start { participants, reason } => {
            law_start_decision_splits_the_swarm(s, decision, vehicle);
            consensus::law_participants_are_ready(s.tracker);
        },
        SwarmDecisionView::Abort { reason } => {
            law_abort_reaches_everyone(s, reason, vehicle);
        },
        SwarmDecisionView::Hold { reason } => {
            lemma_print("["@ + s.phase + "][supervisor] "@ + ("holding: "@ + reason), vehicle);
        },
    }
}

/// Without a readiness gate, a vote starts the vehicle that cast it, if that is an actor
/// which has not been started, and nothing else starts or aborts any vehicle.
pub proof fn law_ungated_vote_starts_its_vehicle(
    s: SupervisorView,
    event: VehicleEventView,
    vehicle: Seq<char>,
)
    requires
        s.inv(),
        !s.gated,
    ensures
        has_start(s.actions(event), vehicle) <==> event.kind is ReadinessVote && vehicle
            == event.vehicle && s.actors.contains(vehicle) && !s.started.contains(vehicle),
        !has_abort(s.actions(event), vehicle),
{
    let shown = crate::reports::event_text(event);
    lemma_print(shown, vehicle);
    lemma_concat(seq![SupervisorActionView::Print(shown)], s.reaction(event), vehicle);
    lemma_start_actions(s, s.actors, set![event.vehicle], vehicle);
    match event.kind {
        VehicleEventKindView::Failed { error } => {
            lemma_print(
                "["@ + s.phase + "][supervisor] "@ + (event.vehicle + " stopped as planned: "@
                    + error),
                vehicle,
            );
        },
        _ => {},
    }
}

/// A failure is an error of the phase unless it was to be expected: a vehicle that was
/// told to abort, or that failed before the decision, adds none.
pub proof fn law_only_unexpected_failures_are_errors(
    s: SupervisorView,
    event: VehicleEventView,
    error: Seq<char>,
)
    requires
        s.inv(),
        event.kind == (VehicleEventKindView::Failed { error }),
    ensures
        s.after(event).terminal.contains(event.vehicle),
        s.planned_aborts.contains_key(event.vehicle) || s.waiting()
            || s.prestart_failures.contains_key(event.vehicle) ==> s.after(event).errors
            == s.errors,
        !s.planned_aborts.contains_key(event.vehicle) && !s.waiting()
            && !s.prestart_failures.contains_key(event.vehicle) ==> s.after(event).errors
            == s.errors.push(event.vehicle + " failed: "@ + error),
{
}

/// No error of a phase is ever forgotten.
pub proof fn lemma_errors_stay(s: SupervisorView, happenings: Seq<Happening>, from: nat, to: nat)
    requires
        from <= to,
    ensures
        state_at(s, happenings, from).errors.len() <= state_at(s, happenings, to).errors.len(),
    decreases to,
{
    if from < to {
        lemma_errors_stay(s, happenings, from, (to - 1) as nat);
    }
}

/// Without a readiness gate every failure makes the phase fail: it is an error of the
/// phase, and whatever happens afterwards, the phase does not end as complete.
pub proof fn law_ungated_failure_fails_the_phase(
    s: SupervisorView,
    happenings: Seq<Happening>,
    i: nat,
    j: nat,
    event: VehicleEventView,
    error: Seq<char>,
)
    requires
        s.inv(),
        !s.gated,
        i < j <= happenings.len(),
        happenings[i as int] == Happening::Reported(event),
        event.kind == (VehicleEventKindView::Failed { error }),
    ensures
        state_at(s, happenings, i + 1).errors == state_at(s, happenings, i).errors.push(
            event.vehicle + " failed: "@ + error,
        ),
        state_at(s, happenings, j).verdict() is Err,
{
    lemma_run_keeps(s, happenings, 0, i);
    let at = state_at(s, happenings, i);
    assert(!at.planned_aborts.dom().contains(event.vehicle));
    assert(!at.prestart_failures.dom().contains(event.vehicle));
    assert(state_at(s, happenings, i + 1) == at.after(event));
    lemma_errors_stay(s, happenings, i + 1, j);
}

/// As long as only the phase's own vehicles report, the supervisor stops waiting exactly
/// when every one of them has come to an end, and a complete phase is one in which all have.
pub proof fn law_over_means_everyone_ended(s: SupervisorView, event: VehicleEventView)
    requires
        s.inv(),
        s.terminal.subset_of(s.actors.to_set()),
    ensures
        s.wait() is Over <==> s.terminal == s.actors.to_set(),
        s.verdict() is Ok ==> s.terminal == s.actors.to_set(),
        s.actors.contains(event.vehicle) ==> s.after(event).terminal.subset_of(
            s.after(event).actors.to_set(),
        ),
{
    s.actors.unique_seq_to_set();
    vstd::seq_lib::seq_to_set_is_finite(s.actors);
    vstd::set_lib::lemma_len_subset(s.terminal, s.actors.to_set());
    if s.terminal.len() >= s.actors.len() {
        vstd::set_lib::lemma_subset_equality(s.terminal, s.actors.to_set());
    }
    law_complete_means_no_error(s);
}

/// A phase is complete exactly if as many vehicles came to an end as it has, none failed
/// unexpectedly, and the phase was not aborted. In particular an aborted phase never passes
/// as complete.
pub proof fn law_complete_means_no_error(s: SupervisorView)
    ensures
        s.verdict() is Ok <==> s.errors.len() == 0 && s.terminal.len() >= s.actors.len()
            && s.abort_reason is None,
{
}

/// Expected hashes exist exactly for a file whose drones have different names and whose
/// missions can be encoded; each drone's hash is then that of its own mission.
pub proof fn law_expected_hashes(drones: Seq<Seq<char>>, encoded: Seq<AnyResult<Vec<u8>>>)
    requires
        drones.len() == encoded.len(),
    ensures
        swarm_supervisor::expected_hashes(drones, encoded) is Ok <==> drones.no_duplicates() && (
        forall|i: int| 0 <= i < encoded.len() ==> (#[trigger] encoded[i]) is Ok),
        swarm_supervisor::expected_hashes(drones, encoded) matches Ok(expected) ==> {
            &&& expected.dom() == drones.to_set()
            &&& forall|i: int|
                0 <= i < drones.len() ==> expected[#[trigger] drones[i]] == mission::digest_text(
                    mission::sha256(encoded[i]->Ok_0@),
                )
        },
{
    lemma_expected_prefix(drones, encoded);
}

/// What holds of all drones of a file holds of its first ones.
pub proof fn lemma_expected_prefix(drones: Seq<Seq<char>>, encoded: Seq<AnyResult<Vec<u8>>>)
    requires
        drones.len() <= encoded.len(),
    ensures
        swarm_supervisor::expected_hashes(drones, encoded) is Ok <==> drones.no_duplicates() && (
        forall|i: int| 0 <= i < drones.len() ==> (#[trigger] encoded[i]) is Ok),
        swarm_supervisor::expected_hashes(drones, encoded) matches Ok(expected) ==> {
            &&& expected.dom() == drones.to_set()
            &&& forall|i: int|
                0 <= i < drones.len() ==> expected[#[trigger] drones[i]] == mission::digest_text(
                    mission::sha256(encoded[i]->Ok_0@),
                )
        },
    decreases drones.len(),
{
    if drones.len() == 0 {
        assert(drones.to_set() =~= Set::empty());
        assert(Map::<Seq<char>, Seq<char>>::empty().dom() =~= Set::empty());
    } else {
        let rest = drones.drop_last();
        let last = drones.last();
        lemma_expected_prefix(rest, encoded);
        assert(drones == rest.push(last));
        rest.lemma_push_to_set_commute(last);
        if drones.no_duplicates() {
            assert(rest.no_duplicates()) by {
                assert forall|i: int, j: int| 0 <= i < rest.len() && 0 <= j < rest.len() && i != j
                    implies rest[i] != rest[j] by {
                    assert(drones[i] != drones[j]);
                }
            }
            assert(!rest.contains(last)) by {
                if rest.contains(last) {
                    let i = choose|i: int| 0 <= i < rest.len() && rest[i] == last;
                    assert(drones[i] == drones[drones.len() - 1]);
                }
            }
            assert(!rest.to_set().contains(last));
        }
        if rest.no_duplicates() && !rest.contains(last) {
            assert(drones.no_duplicates()) by {
                assert forall|i: int, j: int|
                    0 <= i < drones.len() && 0 <= j < drones.len() && i != j implies drones[i]
                    != drones[j] by {
                    if i < rest.len() {
                        assert(rest[i] == drones[i]);
                        assert(rest.contains(rest[i]));
                    }
                    if j < rest.len() {
                        assert(rest[j] == drones[j]);
                        assert(rest.contains(rest[j]));
                    }
                }
            }
        }
        if swarm_supervisor::expected_hashes(rest, encoded) is Ok {
            let before = swarm_supervisor::expected_hashes(rest, encoded)->Ok_0;
            assert(before.contains_key(last) == rest.contains(last)) by {
                assert(rest.to_set().contains(last) == rest.contains(last));
            }
            if swarm_supervisor::expected_hashes(drones, encoded) is Ok {
                let after = swarm_supervisor::expected_hashes(drones, encoded)->Ok_0;
                assert(after.dom() =~= before.dom().insert(last));
                assert forall|i: int| 0 <= i < drones.len() implies after[#[trigger] drones[i]]
                    == mission::digest_text(mission::sha256(encoded[i]->Ok_0@)) by {
                    if i < rest.len() {
                        assert(rest[i] == drones[i]);
                        assert(rest.contains(rest[i]));
                    }
                }
            }
        }
    }
}

/// A vehicle that votes with the hash of its own configured mission is always accepted
/// the first time.
pub proof fn law_own_vote_is_accepted(
    drones: Seq<Seq<char>>,
    encoded: Seq<AnyResult<Vec<u8>>>,
    i: int,
    tracker: TrackerView,
    vote: ReadinessVoteView,
)
    requires
        drones.len() == encoded.len(),
        0 <= i < drones.len(),
        swarm_supervisor::expected_hashes(drones, encoded) == Ok::<
            Map<Seq<char>, Seq<char>>,
            SwarmErrorView,
        >(tracker.expected),
        vote.vehicle == drones[i],
        vote.mission_hash == mission::digest_text(mission::sha256(encoded[i]->Ok_0@)),
        !tracker.votes.contains_key(vote.vehicle),
    ensures
        tracker.outcome(vote) is Accepted,
        tracker.after_vote(vote).votes.contains_key(vote.vehicle),
{
    law_expected_hashes(drones, encoded);
    assert(drones.to_set().contains(drones[i]));
}

/// A worker's vote is accepted: where a drone's worker is given the encoding of its mission
/// that the supervisor was given, the vote that it casts names the hash of that encoding and
/// the size of the mission, and the tracker accepts it, unless it accepted one before.
pub proof fn law_worker_vote_is_accepted(
    drones: Seq<DroneConfig>,
    encoded: Seq<AnyResult<Vec<u8>>>,
    at: int,
    worker: WorkerView,
    inputs: Seq<WorkerInput>,
    i: int,
    tracker: TrackerView,
)
    requires
        drones.len() == encoded.len(),
        0 <= at < drones.len(),
        swarm_supervisor::expected_hashes(swarm_supervisor::drone_names(drones), encoded) == Ok::<
            Map<Seq<char>, Seq<char>>,
            SwarmErrorView,
        >(tracker.expected),
        !tracker.votes.contains_key(drones[at].name@),
        vehicle_worker::fresh(worker),
        worker.config == drones[at]@,
        inputs.len() > 0,
        worker.accepts_all(inputs),
        forall|k: int|
            0 <= k < inputs.len() ==> brings_only(#[trigger] inputs[k], encoded[at]),
        0 <= i < worker.run(inputs.drop_last()).actions(inputs.last()).len(),
        worker.run(inputs.drop_last()).actions(inputs.last())[i] matches WorkerActionView::Emit(
            event,
        ) && event.kind is ReadinessVote,
    ensures
        ({
            let event = worker.run(inputs.drop_last()).actions(inputs.last())[i]->Emit_0;
            let vote = SupervisorView::vote_of(event);
            &&& encoded[at] is Ok
            &&& vote.vehicle == drones[at].name@
            &&& vote.phase == worker.phase
            &&& vote.mission_hash == mission::digest_text(mission::sha256(encoded[at]->Ok_0@))
            &&& vote.item_count == drones[at].mission@.len()
            &&& tracker.outcome(vote) is Accepted
            &&& tracker.after_vote(vote).votes.contains_key(drones[at].name@)
        }),
{
    let event = worker.run(inputs.drop_last()).actions(inputs.last())[i]->Emit_0;
    let vote = SupervisorView::vote_of(event);
    vehicle_worker::law_vote_means_ready(worker, inputs, i);
    let k = choose|k: int|
        0 <= k < inputs.len() && vehicle_worker::has_hash(#[trigger] inputs[k], vote.mission_hash);
    assert(brings_only(inputs[k], encoded[at]));
    let names = swarm_supervisor::drone_names(drones);
    assert(names[at] == drones[at].name@);
    assert(drones[at].mission.len() == drones[at].mission@.len());
    law_own_vote_is_accepted(names, encoded, at, tracker, vote);
}

/// Whether an input brings no encoding of a mission but `encoding`.
pub open spec fn brings_only(input: WorkerInput, encoding: AnyResult<Vec<u8>>) -> bool {
    match input {
        WorkerInput::Located { lat_1e7, lon_1e7, positions, encoded } => match encoded {
            Ok(bytes) => encoding matches Ok(given) && given@ == bytes@,
            Err(error) => true,
        },
        _ => true,
    }
}

} // verus!
