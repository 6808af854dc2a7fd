//! How a mission phase goes, told by what was reported.
//!
//! The laws here follow a phase from its beginning through whatever happens. They say from
//! the reports alone which vehicles are told to start and to abort, which failures make the
//! phase fail, and when it is over.
use vstd::prelude::*;
use crate::config::DroneConfig;
use crate::consensus;
use crate::consensus::{QuorumPolicy, ReadinessVoteView, SwarmDecisionView, VoteOutcomeView};
use crate::consensus_laws;
use crate::consensus_laws::Observation;
use crate::mavlink_client::{AnyResult, SwarmErrorView};
use crate::reports;
use crate::supervisor_laws;
use crate::supervisor_laws::Happening;
use crate::swarm_supervisor;
use crate::swarm_supervisor::{SupervisorAction, SupervisorActionView, SupervisorView};
use crate::text;
use crate::vehicle_actor::{VehicleCommandView, VehicleEventKindView, VehicleEventView};

verus! {

/// Whether an event tells that its vehicle came to an end.
pub open spec fn is_end(event: VehicleEventView) -> bool {
    event.kind is Completed || event.kind is Failed
}

/// Whether an event bears on a decision that is still open: a vote, or a failure of a vehicle
/// that was not told to abort.
pub open spec fn bears_on_decision(s: SupervisorView, event: VehicleEventView) -> bool {
    s.gated && !s.decided && (event.kind is ReadinessVote || (event.kind is Failed
        && !s.planned_aborts.contains_key(event.vehicle)))
}

/// What an event changes. Only the end of a vehicle is taken down among the ends. A failure
/// is an error of the phase exactly if the vehicle was not told to abort, the decision is not
/// open, and the vehicle did not fail before it. Votes and failures reach the tracker as they
/// were reported, as long as the decision is open; it is then made exactly if the tracker
/// does not hold.
pub proof fn law_what_events_change(s: SupervisorView, event: VehicleEventView)
    requires
        s.inv(),
    ensures
        ({
            let after = s.after(event);
            let planned = s.planned_aborts.contains_key(event.vehicle);
            let open = s.gated && !s.decided;
            let before = s.prestart_failures.contains_key(event.vehicle);
            &&& after.phase == s.phase
            &&& after.actors == s.actors
            &&& after.gated == s.gated
            &&& after.timeout_secs == s.timeout_secs
            &&& after.started == s.started
            &&& is_end(event) ==> after.terminal == s.terminal.insert(event.vehicle)
            &&& !is_end(event) ==> after.terminal == s.terminal
            &&& event.kind matches VehicleEventKindView::Failed { error } ==> {
                &&& !planned && !open && !before ==> after.errors == s.errors.push(
                    event.vehicle + " failed: "@ + error,
                )
                &&& planned || open || before ==> after.errors == s.errors
                &&& !planned && open ==> after.prestart_failures == s.prestart_failures.insert(
                    event.vehicle,
                    error,
                ) && after.tracker == s.tracker.after_failure(event.vehicle, error)
            }
            &&& event.kind matches VehicleEventKindView::ReadinessVote { mission_hash, item_count }
                ==> open ==> after.tracker == s.tracker.after_vote(
                ReadinessVoteView {
                    vehicle: event.vehicle,
                    phase: event.phase,
                    mission_hash,
                    item_count,
                },
            )
            &&& !(event.kind is Failed) ==> after.errors == s.errors && after.prestart_failures
                == s.prestart_failures
            &&& !bears_on_decision(s, event) ==> {
                &&& after.tracker == s.tracker
                &&& after.decided == s.decided
                &&& after.abort_reason == s.abort_reason
                &&& after.planned_aborts == s.planned_aborts
                &&& after.prestart_failures == s.prestart_failures
            }
            &&& bears_on_decision(s, event) ==> {
                &&& after.decided <==> !(after.tracker.decision() is Hold)
                &&& after.tracker.decision() matches SwarmDecisionView::Abort { reason }
                    ==> after.abort_reason == Some(reason)
                &&& !(after.tracker.decision() is Abort) ==> after.abort_reason == s.abort_reason
            }
        }),
{
}

/// What the passing of the deadline, and the sending of a start, change.
pub proof fn law_what_else_changes(s: SupervisorView, vehicle: Seq<char>)
    ensures
        ({
            let late = supervisor_laws::next(s, Happening::NoEvent);
            &&& s.gated && !s.decided ==> late.decided && late.abort_reason == Some(
                "readiness timeout after "@ + text::decimal(s.timeout_secs as nat) + "s; "@
                    + s.tracker.decision().reason(),
            )
            &&& !(s.gated && !s.decided) ==> late == s
            &&& late.terminal == s.terminal
            &&& late.errors == s.errors
            &&& late.tracker == s.tracker
            &&& late.started == s.started
            &&& late.prestart_failures == s.prestart_failures
            &&& late.actors == s.actors
            &&& late.phase == s.phase
            &&& late.gated == s.gated
        }),
        ({
            let sent = supervisor_laws::next(s, Happening::StartSent(vehicle));
            &&& sent.started == s.started.insert(vehicle)
            &&& sent == (SupervisorView { started: sent.started, ..s })
        }),
{
}

/// Which vehicles are told to start and to abort upon an event that bears on the decision: a
/// start goes to the actors whose votes were accepted and that have not been started, and the
/// others are told to abort, unless they came to an end; an abort goes to all that did not.
/// Upon other events no vehicle of a gated phase is told either.
pub proof fn law_who_is_told_what(s: SupervisorView, event: VehicleEventView, vehicle: Seq<char>)
    requires
        s.inv(),
        s.gated,
    ensures
        ({
            let after = s.after(event);
            let decision = after.tracker.decision();
            let start = supervisor_laws::has_start(s.actions(event), vehicle);
            let abort = supervisor_laws::has_abort(s.actions(event), vehicle);
            &&& !bears_on_decision(s, event) ==> !start && !abort
            &&& bears_on_decision(s, event) ==> {
                &&& start <==> decision is Start && s.actors.contains(vehicle)
                    && after.tracker.votes.contains_key(vehicle) && !s.started.contains(vehicle)
                &&& abort <==> s.actors.contains(vehicle) && !after.terminal.contains(vehicle) && (
                decision is Abort || (decision is Start && !after.tracker.votes.contains_key(
                    vehicle,
                )))
            }
        }),
{
    let own = "["@ + s.phase + "][supervisor] "@;
    let shown = reports::event_text(event);
    supervisor_laws::lemma_print(shown, vehicle);
    supervisor_laws::lemma_concat(
        seq![SupervisorActionView::Print(shown)],
        s.reaction(event),
        vehicle,
    );
    match event.kind {
        VehicleEventKindView::ReadinessVote { mission_hash, item_count } => {
            if s.waiting() {
                let vote = SupervisorView::vote_of(event);
                let voted = s.tracking(s.tracker.after_vote(vote));
                let line = s.outcome_line(event.vehicle, s.tracker.outcome(vote));
                supervisor_laws::lemma_print(own + line, vehicle);
                supervisor_laws::lemma_concat(
                    seq![s.print(line)],
                    voted.decision_actions(voted.tracker.decision()),
                    vehicle,
                );
                lemma_who_is_told(voted, vehicle);
            }
        },
        VehicleEventKindView::Failed { error } => {
            if s.planned_aborts.contains_key(event.vehicle) {
                supervisor_laws::lemma_print(
                    own + (event.vehicle + " stopped as planned: "@ + error),
                    vehicle,
                );
            } else if s.waiting() {
                let failed = s.failing(event.vehicle, error);
                let line = event.vehicle + " failed before readiness decision: "@ + error;
                supervisor_laws::lemma_print(own + line, vehicle);
                supervisor_laws::lemma_concat(
                    seq![s.print(line)],
                    failed.decision_actions(failed.tracker.decision()),
                    vehicle,
                );
                lemma_who_is_told(failed, vehicle);
            } else {
                supervisor_laws::lemma_print(
                    own + (event.vehicle + " remains excluded from degraded start"@),
                    vehicle,
                );
            }
        },
        _ => {},
    }
}

proof fn lemma_who_is_told(s: SupervisorView, vehicle: Seq<char>)
    requires
        s.tracker.inv(),
    ensures
        ({
            let decision = s.tracker.decision();
            let actions = s.decision_actions(decision);
            &&& supervisor_laws::has_start(actions, vehicle) <==> decision is Start
                && s.actors.contains(vehicle) && s.tracker.votes.contains_key(vehicle)
                && !s.started.contains(vehicle)
            &&& supervisor_laws::has_abort(actions, vehicle) <==> s.actors.contains(vehicle)
                && !s.terminal.contains(vehicle) && (decision is Abort || (decision is Start
                && !s.tracker.votes.contains_key(vehicle)))
        }),
{
    let decision = s.tracker.decision();
    match decision {
        SwarmDecisionView::Start { participants, reason } => {
            supervisor_laws::law_start_decision_splits_the_swarm(s, decision, vehicle);
            consensus::law_participants_are_ready(s.tracker);
            assert(participants.to_set().contains(vehicle) == s.tracker.votes.contains_key(
                vehicle,
            ));
        },
        SwarmDecisionView::Abort { reason } => {
            supervisor_laws::law_abort_reaches_everyone(s, reason, vehicle);
        },
        SwarmDecisionView::Hold { reason } => {
            supervisor_laws::lemma_print(
                "["@ + s.phase + "][supervisor] "@ + ("holding: "@ + reason),
                vehicle,
            );
        },
    }
}

/// A vehicle is among the planned aborts exactly if it was before, or is told to abort by the
/// decision; it is then there with the reason that it is told, and else as before. So it is
/// when the deadline passes.
pub proof fn law_planned_aborts_are_those_that_were_told(
    s: SupervisorView,
    decision: SwarmDecisionView,
    vehicle: Seq<char>,
)
    ensures
        ({
            let after = s.after_decision(decision).planned_aborts;
            let told = supervisor_laws::has_abort(s.decision_actions(decision), vehicle);
            &&& after.contains_key(vehicle) <==> s.planned_aborts.contains_key(vehicle) || told
            &&& told ==> after[vehicle] == if decision is Start {
                "excluded by quorum start decision"@
            } else {
                decision.reason()
            }
            &&& s.planned_aborts.contains_key(vehicle) && !told ==> after[vehicle]
                == s.planned_aborts[vehicle]
        }),
        ({
            let after = s.after_abort(s.timeout_reason()).planned_aborts;
            let told = supervisor_laws::has_abort(s.timeout_actions(), vehicle);
            &&& after.contains_key(vehicle) <==> s.planned_aborts.contains_key(vehicle) || told
            &&& told ==> after[vehicle] == s.timeout_reason()
        }),
{
    match decision {
        SwarmDecisionView::Start { participants, reason } => {
            supervisor_laws::law_start_decision_splits_the_swarm(s, decision, vehicle);
        },
        SwarmDecisionView::Abort { reason } => {},
        SwarmDecisionView::Hold { reason } => {
            supervisor_laws::lemma_print(
                "["@ + s.phase + "][supervisor] "@ + ("holding: "@ + reason),
                vehicle,
            );
        },
    }
    supervisor_laws::law_abort_reaches_everyone(s, decision.reason(), vehicle);
}

/// Whatever happens, the planned aborts grow by exactly the vehicles that are told to abort
/// upon it.
pub proof fn law_planned_aborts_grow_by_those_told(
    s: SupervisorView,
    happening: Happening,
    vehicle: Seq<char>,
)
    requires
        s.inv(),
    ensures
        supervisor_laws::next(s, happening).planned_aborts.contains_key(vehicle) <==> (
        s.planned_aborts.contains_key(vehicle) || supervisor_laws::has_abort(
            supervisor_laws::answer(s, happening),
            vehicle,
        )),
{
    match happening {
        Happening::Reported(event) => {
            if !s.gated {
                supervisor_laws::law_ungated_vote_starts_its_vehicle(s, event, vehicle);
            } else {
                law_who_is_told_what(s, event, vehicle);
                law_what_events_change(s, event);
                if bears_on_decision(s, event) {
                    match event.kind {
                        VehicleEventKindView::ReadinessVote { mission_hash, item_count } => {
                            let voted = s.tracking(
                                s.tracker.after_vote(SupervisorView::vote_of(event)),
                            );
                            lemma_who_is_told(voted, vehicle);
                            law_planned_aborts_are_those_that_were_told(
                                voted,
                                voted.tracker.decision(),
                                vehicle,
                            );
                        },
                        VehicleEventKindView::Failed { error } => {
                            let failed = s.failing(event.vehicle, error);
                            lemma_who_is_told(failed, vehicle);
                            law_planned_aborts_are_those_that_were_told(
                                failed,
                                failed.tracker.decision(),
                                vehicle,
                            );
                        },
                        _ => {},
                    }
                }
            }
        },
        Happening::NoEvent => {
            law_planned_aborts_are_those_that_were_told(
                s,
                SwarmDecisionView::Hold { reason: Seq::empty() },
                vehicle,
            );
        },
        Happening::StartSent(started) => {},
    }
}

/// Whether a phase begins in this state: nothing has been reported, decided or sent.
pub open spec fn begins(s: SupervisorView) -> bool {
    &&& s.inv()
    &&& s.terminal == Set::<Seq<char>>::empty()
    &&& s.started == Set::<Seq<char>>::empty()
    &&& s.planned_aborts == Map::<Seq<char>, Seq<char>>::empty()
    &&& s.prestart_failures == Map::<Seq<char>, Seq<char>>::empty()
    &&& s.errors.len() == 0
    &&& s.abort_reason is None
    &&& s.decided <==> !s.gated
    &&& consensus_laws::is_new(s.tracker)
}

/// Whether `vehicle` was told to abort upon one of the first `count` happenings.
pub open spec fn told_to_abort(
    s: SupervisorView,
    happenings: Seq<Happening>,
    count: nat,
    vehicle: Seq<char>,
) -> bool {
    exists|k: nat|
        k < count && supervisor_laws::has_abort(
            supervisor_laws::answer(
                #[trigger] supervisor_laws::state_at(s, happenings, k),
                happenings[k as int],
            ),
            vehicle,
        )
}

/// In every phase the planned aborts are exactly the vehicles that were told to abort.
pub proof fn law_only_told_vehicles_are_planned_aborts(
    s: SupervisorView,
    happenings: Seq<Happening>,
    count: nat,
    vehicle: Seq<char>,
)
    requires
        begins(s),
        count <= happenings.len(),
    ensures
        supervisor_laws::state_at(s, happenings, count).planned_aborts.contains_key(vehicle)
            <==> told_to_abort(s, happenings, count, vehicle),
    decreases count,
{
    if count > 0 {
        let less = (count - 1) as nat;
        let at = supervisor_laws::state_at(s, happenings, less);
        let told = supervisor_laws::has_abort(
            supervisor_laws::answer(at, happenings[less as int]),
            vehicle,
        );
        law_only_told_vehicles_are_planned_aborts(s, happenings, less, vehicle);
        supervisor_laws::lemma_run_keeps(s, happenings, 0, less);
        law_planned_aborts_grow_by_those_told(at, happenings[less as int], vehicle);
        assert(supervisor_laws::state_at(s, happenings, count) == supervisor_laws::next(
            at,
            happenings[less as int],
        ));
        if told_to_abort(s, happenings, less, vehicle) {
            let k = choose|k: nat|
                k < less && supervisor_laws::has_abort(
                    supervisor_laws::answer(
                        #[trigger] supervisor_laws::state_at(s, happenings, k),
                        happenings[k as int],
                    ),
                    vehicle,
                );
            assert(supervisor_laws::state_at(s, happenings, k) == supervisor_laws::state_at(
                s,
                happenings,
                k,
            ));
            assert(k < count);
        }
        if told_to_abort(s, happenings, count, vehicle) && !told {
            let k = choose|k: nat|
                k < count && supervisor_laws::has_abort(
                    supervisor_laws::answer(
                        #[trigger] supervisor_laws::state_at(s, happenings, k),
                        happenings[k as int],
                    ),
                    vehicle,
                );
            assert(k != less);
            assert(k < less);
        }
    }
}

proof fn lemma_settled_stays(
    s: SupervisorView,
    happenings: Seq<Happening>,
    from: nat,
    to: nat,
)
    requires
        s.inv(),
        from <= to,
        supervisor_laws::state_at(s, happenings, from).decided,
    ensures
        ({
            let a = supervisor_laws::state_at(s, happenings, from);
            let b = supervisor_laws::state_at(s, happenings, to);
            &&& b.decided
            &&& b.gated == s.gated
            &&& b.planned_aborts == a.planned_aborts
            &&& b.prestart_failures == a.prestart_failures
            &&& b.abort_reason == a.abort_reason
            &&& b.tracker == a.tracker
        }),
    decreases to,
{
    if from < to {
        let less = (to - 1) as nat;
        lemma_settled_stays(s, happenings, from, less);
        supervisor_laws::lemma_run_keeps(s, happenings, 0, less);
        let at = supervisor_laws::state_at(s, happenings, less);
        match happenings[less as int] {
            Happening::Reported(event) => {
                law_what_events_change(at, event);
            },
            _ => {},
        }
    } else {
        supervisor_laws::lemma_run_keeps(s, happenings, 0, to);
    }
}

/// In a gated phase the failure of a vehicle that was told to start makes the phase fail: it
/// is an error of the phase, and whatever happens afterwards, the phase does not end as
/// complete. A vehicle that had failed before it was told to start has had its failure.
pub proof fn law_failure_in_flight_fails_the_phase(
    s: SupervisorView,
    happenings: Seq<Happening>,
    i: nat,
    k: nat,
    j: nat,
    event: VehicleEventView,
    error: Seq<char>,
)
    requires
        begins(s),
        s.gated,
        i < k < j <= happenings.len(),
        supervisor_laws::has_start(
            supervisor_laws::answer(
                supervisor_laws::state_at(s, happenings, i),
                happenings[i as int],
            ),
            event.vehicle,
        ),
        !supervisor_laws::state_at(s, happenings, i + 1).prestart_failures.contains_key(
            event.vehicle,
        ),
        happenings[k as int] == Happening::Reported(event),
        event.kind == (VehicleEventKindView::Failed { error }),
    ensures
        supervisor_laws::state_at(s, happenings, k + 1).errors == supervisor_laws::state_at(
            s,
            happenings,
            k,
        ).errors.push(event.vehicle + " failed: "@ + error),
        supervisor_laws::state_at(s, happenings, j).verdict() is Err,
{
    let vehicle = event.vehicle;
    let at = supervisor_laws::state_at(s, happenings, i);
    supervisor_laws::lemma_run_keeps(s, happenings, 0, i);
    supervisor_laws::lemma_commands_settle(at, happenings[i as int], vehicle);
    // Nothing was told before the decision, and a started vehicle is not told to abort.
    law_only_told_vehicles_are_planned_aborts(s, happenings, i, vehicle);
    if told_to_abort(s, happenings, i, vehicle) {
        let m = choose|m: nat|
            m < i && supervisor_laws::has_abort(
                supervisor_laws::answer(
                    #[trigger] supervisor_laws::state_at(s, happenings, m),
                    happenings[m as int],
                ),
                vehicle,
            );
        supervisor_laws::law_gated_phase_is_decided_once(s, happenings, m, i, vehicle, vehicle);
    }
    match happenings[i as int] {
        Happening::Reported(deciding) => {
            law_who_is_told_what(at, deciding, vehicle);
        },
        Happening::NoEvent => {
            supervisor_laws::law_abort_reaches_everyone(at, at.timeout_reason(), vehicle);
        },
        Happening::StartSent(started) => {},
    }
    law_planned_aborts_grow_by_those_told(at, happenings[i as int], vehicle);
    let next = supervisor_laws::state_at(s, happenings, i + 1);
    assert(next == supervisor_laws::next(at, happenings[i as int]));
    lemma_settled_stays(s, happenings, i + 1, k);
    let then = supervisor_laws::state_at(s, happenings, k);
    supervisor_laws::lemma_run_keeps(s, happenings, 0, k);
    law_what_events_change(then, event);
    assert(supervisor_laws::state_at(s, happenings, k + 1) == then.after(event));
    supervisor_laws::lemma_errors_stay(s, happenings, k + 1, j);
    law_when_a_phase_is_complete(supervisor_laws::state_at(s, happenings, j));
}

/// What the first `count` happenings bring to the tracker: the votes and the failures, as
/// they were reported.
pub open spec fn heard(happenings: Seq<Happening>, count: nat) -> Seq<Observation>
    decreases count,
{
    if count == 0 {
        Seq::empty()
    } else {
        let before = heard(happenings, (count - 1) as nat);
        match happenings[count - 1] {
            Happening::Reported(event) => match event.kind {
                VehicleEventKindView::ReadinessVote { mission_hash, item_count } => before.push(
                    Observation::Vote(
                        ReadinessVoteView {
                            vehicle: event.vehicle,
                            phase: event.phase,
                            mission_hash,
                            item_count,
                        },
                    ),
                ),
                VehicleEventKindView::Failed { error } => before.push(
                    Observation::Failure { vehicle: event.vehicle, error },
                ),
                _ => before,
            },
            _ => before,
        }
    }
}

/// Whether `vehicle` came to an end among the first `count` happenings.
pub open spec fn has_ended(happenings: Seq<Happening>, count: nat, vehicle: Seq<char>) -> bool {
    exists|k: int|
        0 <= k < count && (#[trigger] happenings[k] matches Happening::Reported(event)
            && event.vehicle == vehicle && is_end(event))
}

/// The vehicles at an end are exactly those that reported it.
pub proof fn law_ends_are_those_reported(
    s: SupervisorView,
    happenings: Seq<Happening>,
    count: nat,
    vehicle: Seq<char>,
)
    requires
        begins(s),
        count <= happenings.len(),
    ensures
        supervisor_laws::state_at(s, happenings, count).terminal.contains(vehicle) <==> has_ended(
            happenings,
            count,
            vehicle,
        ),
    decreases count,
{
    if count > 0 {
        let less = (count - 1) as nat;
        law_ends_are_those_reported(s, happenings, less, vehicle);
        supervisor_laws::lemma_run_keeps(s, happenings, 0, less);
        let at = supervisor_laws::state_at(s, happenings, less);
        match happenings[less as int] {
            Happening::Reported(event) => {
                law_what_events_change(at, event);
                if event.vehicle == vehicle && is_end(event) {
                    assert(has_ended(happenings, count, vehicle));
                }
            },
            _ => {},
        }
        if has_ended(happenings, less, vehicle) {
            let k = choose|k: int|
                0 <= k < less && (#[trigger] happenings[k] matches Happening::Reported(event)
                    && event.vehicle == vehicle && is_end(event));
            assert(happenings[k] is Reported);
            assert(has_ended(happenings, count, vehicle));
        }
        if has_ended(happenings, count, vehicle) && !has_ended(happenings, less, vehicle) {
            let k = choose|k: int|
                0 <= k < count && (#[trigger] happenings[k] matches Happening::Reported(event)
                    && event.vehicle == vehicle && is_end(event));
            if k < less {
                assert(has_ended(happenings, less, vehicle));
            }
        }
    }
}

proof fn lemma_observed_push(
    t: consensus::TrackerView,
    observations: Seq<Observation>,
    observation: Observation,
)
    ensures
        consensus_laws::observed(t, observations.push(observation)) == match observation {
            Observation::Vote(vote) => consensus_laws::observed(t, observations).after_vote(vote),
            Observation::Failure { vehicle, error } => consensus_laws::observed(
                t,
                observations,
            ).after_failure(vehicle, error),
        },
{
    assert(observations.push(observation).drop_last() =~= observations);
}

proof fn lemma_open_phase(s: SupervisorView, happenings: Seq<Happening>, count: nat)
    requires
        begins(s),
        s.gated,
        count <= happenings.len(),
        !supervisor_laws::state_at(s, happenings, count).decided,
    ensures
        ({
            let now = supervisor_laws::state_at(s, happenings, count);
            &&& now.inv()
            &&& now.gated
            &&& now.actors == s.actors
            &&& now.tracker == consensus_laws::observed(s.tracker, heard(happenings, count))
            &&& now.planned_aborts.dom() == Set::<Seq<char>>::empty()
        }),
    decreases count,
{
    supervisor_laws::lemma_run_keeps(s, happenings, 0, count);
    if count == 0 {
        assert(s.planned_aborts.dom() =~= Set::empty());
    } else {
        let less = (count - 1) as nat;
        let at = supervisor_laws::state_at(s, happenings, less);
        let now = supervisor_laws::state_at(s, happenings, count);
        if at.decided {
            supervisor_laws::lemma_run_keeps(s, happenings, less, count);
        }
        lemma_open_phase(s, happenings, less);
        match happenings[less as int] {
            Happening::Reported(event) => {
                lemma_open_step(at, event);
                match event.kind {
                    VehicleEventKindView::ReadinessVote { mission_hash, item_count } => {
                        lemma_observed_push(
                            s.tracker,
                            heard(happenings, less),
                            Observation::Vote(
                                ReadinessVoteView {
                                    vehicle: event.vehicle,
                                    phase: event.phase,
                                    mission_hash,
                                    item_count,
                                },
                            ),
                        );
                    },
                    VehicleEventKindView::Failed { error } => {
                        lemma_observed_push(
                            s.tracker,
                            heard(happenings, less),
                            Observation::Failure { vehicle: event.vehicle, error },
                        );
                    },
                    _ => {},
                }
            },
            _ => {},
        }
    }
}

proof fn lemma_open_step(at: SupervisorView, event: VehicleEventView)
    requires
        at.inv(),
        at.gated,
        !at.decided,
        at.planned_aborts.dom() == Set::<Seq<char>>::empty(),
    ensures
        ({
            let now = at.after(event);
            &&& now.actors == at.actors
            &&& event.kind is Failed || event.kind is ReadinessVote ==> bears_on_decision(at, event)
            &&& event.kind matches VehicleEventKindView::ReadinessVote { mission_hash, item_count }
                ==> now.tracker == at.tracker.after_vote(
                ReadinessVoteView {
                    vehicle: event.vehicle,
                    phase: event.phase,
                    mission_hash,
                    item_count,
                },
            )
            &&& event.kind matches VehicleEventKindView::Failed { error } ==> now.tracker
                == at.tracker.after_failure(event.vehicle, error)
            &&& !(event.kind is Failed || event.kind is ReadinessVote) ==> now.tracker
                == at.tracker
            &&& !now.decided ==> now.planned_aborts.dom() == Set::<Seq<char>>::empty()
        }),
{
    assert(!at.planned_aborts.dom().contains(event.vehicle));
    law_what_events_change(at, event);
}

/// The readiness gate follows the votes. As long as it is closed, a report of a vote or a failure opens
/// it exactly if, by what was reported so far, the expected vehicles that voted for the
/// mission that they are to fly are enough: these vehicles are then told to start, as far as
/// they have not been started, and all others that have not come to an end are told to abort.
/// If they are not enough, and those that are not lost are not either, all that have not come
/// to an end are told to abort, and none to start; and else none is told anything.
pub proof fn law_the_start_follows_the_reports(
    s: SupervisorView,
    happenings: Seq<Happening>,
    n: nat,
    event: VehicleEventView,
    vehicle: Seq<char>,
)
    requires
        begins(s),
        s.gated,
        n < happenings.len(),
        !supervisor_laws::state_at(s, happenings, n).decided,
        happenings[n as int] == Happening::Reported(event),
        event.kind is ReadinessVote || event.kind is Failed,
    ensures
        ({
            let at = supervisor_laws::state_at(s, happenings, n);
            let actions = supervisor_laws::answer(at, happenings[n as int]);
            let expected = s.tracker.expected;
            let total = expected.dom().len();
            let ready = consensus_laws::ready_vehicles(expected, heard(happenings, n + 1));
            let gone = consensus_laws::gone_vehicles(expected, heard(happenings, n + 1));
            let quorum = consensus_laws::enough(s.tracker.policy, ready.len(), total);
            let reachable = consensus_laws::enough(
                s.tracker.policy,
                expected.dom().difference(gone).len(),
                total,
            );
            let under_way = s.actors.contains(vehicle) && !has_ended(happenings, n + 1, vehicle);
            &&& supervisor_laws::has_start(actions, vehicle) <==> quorum && s.actors.contains(
                vehicle,
            ) && ready.contains(vehicle) && !at.started.contains(vehicle)
            &&& supervisor_laws::has_abort(actions, vehicle) <==> under_way && (if quorum {
                !ready.contains(vehicle)
            } else {
                !reachable
            })
            &&& supervisor_laws::next(at, happenings[n as int]).decided <==> quorum || !reachable
            &&& supervisor_laws::next(at, happenings[n as int]).abort_reason is Some <==> !quorum
                && !reachable
        }),
{
    let at = supervisor_laws::state_at(s, happenings, n);
    lemma_open_phase(s, happenings, n);
    lemma_open_step(at, event);
    law_who_is_told_what(at, event, vehicle);
    law_what_events_change(at, event);
    let after = at.after(event);
    assert(supervisor_laws::state_at(s, happenings, n + 1) == after);
    law_ends_are_those_reported(s, happenings, n + 1, vehicle);
    match event.kind {
        VehicleEventKindView::ReadinessVote { mission_hash, item_count } => {
            lemma_observed_push(
                s.tracker,
                heard(happenings, n),
                Observation::Vote(
                    ReadinessVoteView {
                        vehicle: event.vehicle,
                        phase: event.phase,
                        mission_hash,
                        item_count,
                    },
                ),
            );
        },
        VehicleEventKindView::Failed { error } => {
            lemma_observed_push(
                s.tracker,
                heard(happenings, n),
                Observation::Failure { vehicle: event.vehicle, error },
            );
        },
        _ => {},
    }
    assert(after.tracker == consensus_laws::observed(s.tracker, heard(happenings, n + 1)));
    consensus_laws::law_decision_follows_what_was_observed(s.tracker, heard(happenings, n + 1));
    assert(after.tracker.votes.dom().contains(vehicle) == after.tracker.votes.contains_key(
        vehicle,
    ));
}

/// Every command that is sent upon a happening is one to start or to abort, in this phase; an
/// abort carries the reason that is kept for its vehicle.
pub proof fn law_what_commands_carry(
    s: SupervisorView,
    decision: SwarmDecisionView,
    vehicles: Set<Seq<char>>,
    i: int,
)
    ensures
        0 <= i < s.decision_actions(decision).len() ==> carries(
            s,
            s.decision_actions(decision)[i],
            if decision is Start {
                "excluded by quorum start decision"@
            } else {
                decision.reason()
            },
        ),
        0 <= i < s.timeout_actions().len() ==> carries(
            s,
            s.timeout_actions()[i],
            s.timeout_reason(),
        ),
        0 <= i < s.start_actions(s.actors, vehicles).len() ==> carries(
            s,
            s.start_actions(s.actors, vehicles)[i],
            Seq::empty(),
        ),
{
    lemma_starts_carry(s, s.actors, vehicles, Seq::empty(), i);
    lemma_aborts_carry(s, s.actors, Set::empty(), s.timeout_reason(), i - 1);
    match decision {
        SwarmDecisionView::Start { participants, reason } => {
            let spared = participants.to_set();
            let why = "excluded by quorum start decision"@;
            let starts = s.start_actions(s.actors, spared);
            lemma_starts_carry(s, s.actors, spared, why, i - 1);
            lemma_aborts_carry(s, s.actors, spared, why, i - 1 - starts.len());
        },
        SwarmDecisionView::Abort { reason } => {
            lemma_aborts_carry(s, s.actors, Set::empty(), reason, i - 1);
        },
        SwarmDecisionView::Hold { reason } => {},
    }
}

/// Whether an action is a line, or a command to an actor to start or to abort in the phase of
/// the supervisor, the latter for `reason`.
pub open spec fn carries(
    s: SupervisorView,
    action: SupervisorActionView,
    reason: Seq<char>,
) -> bool {
    match action {
        SupervisorActionView::Print(words) => true,
        SupervisorActionView::Send { vehicle, command } => s.actors.contains(vehicle) && (command
            == (VehicleCommandView::StartPreparedMission { phase: s.phase }) || command
            == (VehicleCommandView::AbortPreparedMission { phase: s.phase, reason })),
    }
}

proof fn lemma_starts_carry(
    s: SupervisorView,
    actors: Seq<Seq<char>>,
    vehicles: Set<Seq<char>>,
    reason: Seq<char>,
    i: int,
)
    requires
        forall|k: int| 0 <= k < actors.len() ==> s.actors.contains(#[trigger] actors[k]),
    ensures
        0 <= i < s.start_actions(actors, vehicles).len() ==> carries(
            s,
            s.start_actions(actors, vehicles)[i],
            reason,
        ),
    decreases actors.len(),
{
    if actors.len() > 0 {
        let rest = actors.drop_last();
        assert(s.actors.contains(actors[actors.len() - 1]));
        assert forall|k: int| 0 <= k < rest.len() implies s.actors.contains(#[trigger] rest[k]) by {
            assert(rest[k] == actors[k]);
        }
        lemma_starts_carry(s, rest, vehicles, reason, i);
    }
}

proof fn lemma_aborts_carry(
    s: SupervisorView,
    actors: Seq<Seq<char>>,
    spared: Set<Seq<char>>,
    reason: Seq<char>,
    i: int,
)
    requires
        forall|k: int| 0 <= k < actors.len() ==> s.actors.contains(#[trigger] actors[k]),
    ensures
        0 <= i < s.abort_actions(actors, spared, reason).len() ==> carries(
            s,
            s.abort_actions(actors, spared, reason)[i],
            reason,
        ),
    decreases actors.len(),
{
    if actors.len() > 0 {
        let rest = actors.drop_last();
        assert(s.actors.contains(actors[actors.len() - 1]));
        assert forall|k: int| 0 <= k < rest.len() implies s.actors.contains(#[trigger] rest[k]) by {
            assert(rest[k] == actors[k]);
        }
        lemma_aborts_carry(s, rest, spared, reason, i);
    }
}

/// The line of the supervisor's own with these words.
pub open spec fn own_line(s: SupervisorView, words: Seq<char>) -> SupervisorActionView {
    SupervisorActionView::Print("["@ + s.phase + "][supervisor] "@ + words)
}

/// Starts are told actor by actor, in order: of two groups of actors first those of the one,
/// then those of the other. An actor that is to start and has not been started is announced
/// and told; any other is passed over.
pub proof fn law_starts_are_told_in_order(
    s: SupervisorView,
    a: Seq<Seq<char>>,
    b: Seq<Seq<char>>,
    name: Seq<char>,
    vehicles: Set<Seq<char>>,
)
    ensures
        s.start_actions(a + b, vehicles) == s.start_actions(a, vehicles) + s.start_actions(
            b,
            vehicles,
        ),
        s.start_actions(Seq::empty(), vehicles).len() == 0,
        vehicles.contains(name) && !s.started.contains(name) ==> s.start_actions(
            seq![name],
            vehicles,
        ) == seq![
            own_line(s, "starting "@ + name),
            SupervisorActionView::Send {
                vehicle: name,
                command: VehicleCommandView::StartPreparedMission { phase: s.phase },
            },
        ],
        !vehicles.contains(name) || s.started.contains(name) ==> s.start_actions(
            seq![name],
            vehicles,
        ).len() == 0,
    decreases b.len(),
{
    let none = Seq::<Seq<char>>::empty();
    assert(seq![name].drop_last() =~= none);
    assert(s.start_actions(none, vehicles) =~= Seq::empty());
    assert(s.start_actions(none, vehicles) + (if s.starts(name, vehicles) {
        seq![
            s.print("starting "@ + name),
            SupervisorActionView::Send {
                vehicle: name,
                command: VehicleCommandView::StartPreparedMission { phase: s.phase },
            },
        ]
    } else {
        Seq::empty()
    }) == s.start_actions(seq![name], vehicles));
    if b.len() == 0 {
        assert(a + b =~= a);
    } else {
        law_starts_are_told_in_order(s, a, b.drop_last(), name, vehicles);
        assert((a + b).drop_last() =~= a + b.drop_last());
        assert((a + b).last() == b.last());
        assert(s.start_actions(a + b, vehicles) =~= s.start_actions(a, vehicles) + s.start_actions(
            b,
            vehicles,
        ));
    }
}

/// Aborts are told actor by actor, in order: of two groups of actors first those of the one,
/// then those of the other. An actor that is not spared and not at an end is announced and
/// told, with the reason; any other is passed over.
pub proof fn law_aborts_are_told_in_order(
    s: SupervisorView,
    a: Seq<Seq<char>>,
    b: Seq<Seq<char>>,
    name: Seq<char>,
    spared: Set<Seq<char>>,
    reason: Seq<char>,
)
    ensures
        s.abort_actions(a + b, spared, reason) == s.abort_actions(a, spared, reason)
            + s.abort_actions(b, spared, reason),
        s.abort_actions(Seq::empty(), spared, reason).len() == 0,
        !spared.contains(name) && !s.terminal.contains(name) ==> s.abort_actions(
            seq![name],
            spared,
            reason,
        ) == seq![
            own_line(s, "aborting "@ + name + " before start: "@ + reason),
            SupervisorActionView::Send {
                vehicle: name,
                command: VehicleCommandView::AbortPreparedMission { phase: s.phase, reason },
            },
        ],
        spared.contains(name) || s.terminal.contains(name) ==> s.abort_actions(
            seq![name],
            spared,
            reason,
        ).len() == 0,
    decreases b.len(),
{
    let none = Seq::<Seq<char>>::empty();
    assert(seq![name].drop_last() =~= none);
    assert(s.abort_actions(none, spared, reason) =~= Seq::empty());
    assert(s.abort_actions(none, spared, reason) + (if s.aborts(name, spared) {
        seq![
            s.print("aborting "@ + name + " before start: "@ + reason),
            SupervisorActionView::Send {
                vehicle: name,
                command: VehicleCommandView::AbortPreparedMission { phase: s.phase, reason },
            },
        ]
    } else {
        Seq::empty()
    }) == s.abort_actions(seq![name], spared, reason));
    if b.len() == 0 {
        assert(a + b =~= a);
    } else {
        law_aborts_are_told_in_order(s, a, b.drop_last(), name, spared, reason);
        assert((a + b).drop_last() =~= a + b.drop_last());
        assert((a + b).last() == b.last());
        assert(s.abort_actions(a + b, spared, reason) =~= s.abort_actions(a, spared, reason)
            + s.abort_actions(b, spared, reason));
    }
}

/// How decisions are carried out: a line with the reason, then the starts, then the aborts.
/// What is done upon an event that bears on the decision ends with that, and a vote in a
/// phase without a readiness gate is answered with the start of its vehicle alone.
pub proof fn law_how_decisions_are_carried_out(
    s: SupervisorView,
    decision: SwarmDecisionView,
    event: VehicleEventView,
)
    requires
        s.inv(),
    ensures
        decision matches SwarmDecisionView::Start { participants, reason } ==> s.decision_actions(
            decision,
        ) == seq![own_line(s, "start decision: "@ + reason)] + s.start_actions(
            s.actors,
            participants.to_set(),
        ) + s.abort_actions(
            s.actors,
            participants.to_set(),
            "excluded by quorum start decision"@,
        ),
        decision matches SwarmDecisionView::Abort { reason } ==> s.decision_actions(decision)
            == seq![own_line(s, "abort decision: "@ + reason)] + s.abort_actions(
            s.actors,
            Set::empty(),
            reason,
        ),
        decision matches SwarmDecisionView::Hold { reason } ==> s.decision_actions(decision)
            == seq![own_line(s, "holding: "@ + reason)],
        s.timeout_actions() == seq![own_line(s, "aborting phase: "@ + s.timeout_reason())]
            + s.abort_actions(s.actors, Set::empty(), s.timeout_reason()),
        bears_on_decision(s, event) ==> ({
            let after = s.after(event);
            let deciding = SupervisorView {
                tracker: after.tracker,
                terminal: after.terminal,
                prestart_failures: after.prestart_failures,
                ..s
            };
            s.actions(event).skip(2) == deciding.decision_actions(after.tracker.decision())
        }),
        !s.gated && event.kind is ReadinessVote ==> s.actions(event).skip(1) == s.start_actions(
            s.actors,
            set![event.vehicle],
        ),
        s.gated && !bears_on_decision(s, event) && !(event.kind is Failed) ==> s.actions(
            event,
        ).len() == 1,
{
    law_what_events_change(s, event);
    let after = s.after(event);
    let deciding = SupervisorView {
        tracker: after.tracker,
        terminal: after.terminal,
        prestart_failures: after.prestart_failures,
        ..s
    };
    if bears_on_decision(s, event) {
        assert(s.actions(event).skip(2) =~= deciding.decision_actions(after.tracker.decision()));
    }
    if !s.gated && event.kind is ReadinessVote {
        assert(s.actions(event).skip(1) =~= s.start_actions(s.actors, set![event.vehicle]));
    }
}

/// The names of the drones are those of each drone, in order.
pub proof fn law_names_of_drones(drones: Seq<DroneConfig>, i: int)
    requires
        0 <= i < drones.len(),
    ensures
        swarm_supervisor::drone_names(drones).len() == drones.len(),
        swarm_supervisor::drone_names(drones)[i] == drones[i].name@,
{
}

/// A phase opens by telling about the readiness gate, and by having every actor prepared, in order; it
/// is closed by having every actor shut down, in order.
pub proof fn law_opening_and_closing(s: SupervisorView, i: int)
    requires
        0 <= i < s.actors.len(),
    ensures
        s.opening().len() == s.actors.len() + 1,
        s.gated ==> s.opening()[0] == SupervisorActionView::Print(
            "["@ + s.phase + "][supervisor] "@ + ("readiness gate enabled: "@
                + s.tracker.policy.shown(s.tracker.expected.dom().len()) + ", timeout="@
                + text::decimal(s.timeout_secs as nat) + "s"@),
        ),
        !s.gated ==> s.opening()[0] == SupervisorActionView::Print(
            "["@ + s.phase + "][supervisor] "@
                + "readiness gate disabled; vehicles start as soon as they report ready"@,
        ),
        s.opening()[i + 1] == (SupervisorActionView::Send {
            vehicle: s.actors[i],
            command: VehicleCommandView::PrepareMission { phase: s.phase },
        }),
        s.shutdown_actions().len() == s.actors.len(),
        s.shutdown_actions()[i] == (SupervisorActionView::Send {
            vehicle: s.actors[i],
            command: VehicleCommandView::Shutdown,
        }),
{
}

/// What the supervisor waits for: nothing once as many vehicles ended as it has actors; until
/// then the next event, with a deadline exactly as long as the start of a gated phase is not
/// decided.
pub proof fn law_what_is_waited_for(s: SupervisorView)
    ensures
        s.wait() is Over <==> s.terminal.len() >= s.actors.len(),
        s.wait() is EventOrDeadline <==> s.terminal.len() < s.actors.len() && s.gated
            && !s.decided,
        s.wait() is Event <==> s.terminal.len() < s.actors.len() && !(s.gated && !s.decided),
        s.waiting() <==> s.gated && !s.decided,
{
}

/// What is told about an event: the event itself first; then, of a vote that bears on the
/// decision, what became of it, with the numbers of votes, and of a failure, what it means;
/// and then the decision, with its reason.
pub proof fn law_what_is_told(s: SupervisorView, event: VehicleEventView)
    requires
        s.inv(),
    ensures
        ({
            let own = "["@ + s.phase + "][supervisor] "@;
            let actions = s.actions(event);
            let t = s.after(event).tracker;
            let open = s.gated && !s.decided;
            let planned = s.planned_aborts.contains_key(event.vehicle);
            let vote = SupervisorView::vote_of(event);
            let decided = SupervisorActionView::Print(
                own + match t.decision() {
                    SwarmDecisionView::Start { participants, reason } => "start decision: "@
                        + reason,
                    SwarmDecisionView::Abort { reason } => "abort decision: "@ + reason,
                    SwarmDecisionView::Hold { reason } => "holding: "@ + reason,
                },
            );
            &&& actions.len() > 0
            &&& actions[0] == SupervisorActionView::Print(reports::event_text(event))
            &&& event.kind is ReadinessVote && open ==> {
                &&& actions.len() >= 3
                &&& actions[2] == decided
                &&& match s.tracker.outcome(vote) {
                    VoteOutcomeView::Accepted { ready_count, threshold } => actions[1]
                        == SupervisorActionView::Print(
                        own + ("readiness accepted from "@ + event.vehicle + "; "@
                            + text::decimal(t.votes.len()) + "/"@ + text::decimal(
                            t.policy.required(t.expected.len()),
                        ) + " votes"@),
                    ),
                    VoteOutcomeView::Rejected { reason } => actions[1]
                        == SupervisorActionView::Print(
                        own + ("readiness rejected from "@ + event.vehicle + ": "@
                            + t.rejected[event.vehicle]),
                    ),
                    VoteOutcomeView::Duplicate => actions[1] == SupervisorActionView::Print(
                        own + ("duplicate readiness vote ignored from "@ + event.vehicle),
                    ),
                }
            }
            &&& event.kind matches VehicleEventKindView::Failed { error } ==> {
                &&& planned ==> actions.len() == 2 && actions[1] == SupervisorActionView::Print(
                    own + (event.vehicle + " stopped as planned: "@ + error),
                )
                &&& !planned && open ==> actions.len() >= 3 && actions[2] == decided && actions[1]
                    == SupervisorActionView::Print(
                    own + (event.vehicle + " failed before readiness decision: "@ + error),
                )
                &&& !planned && !open && s.prestart_failures.contains_key(event.vehicle)
                    ==> actions.len() == 2 && actions[1] == SupervisorActionView::Print(
                    own + (event.vehicle + " remains excluded from degraded start"@),
                )
                &&& !planned && !open && !s.prestart_failures.contains_key(event.vehicle)
                    ==> actions.len() == 1
            }
            &&& !(event.kind is ReadinessVote || event.kind is Failed) ==> actions.len() == 1
        }),
{
    law_what_events_change(s, event);
}

/// A phase is complete exactly if no failure was an error, as many vehicles ended as it has,
/// and it was not aborted. Otherwise all errors are told: first the failures, in the order in
/// which they came, then how many ends are missing, then why it was aborted.
pub proof fn law_when_a_phase_is_complete(s: SupervisorView)
    ensures
        ({
            let n = s.errors.len();
            let missing = s.terminal.len() < s.actors.len();
            let aborted = s.abort_reason is Some;
            let all = s.all_errors();
            let m = n + if missing {
                1int
            } else {
                0int
            };
            &&& s.verdict() is Ok <==> n == 0 && !missing && !aborted
            &&& s.verdict() is Ok ==> s.verdict() == Ok::<Seq<char>, SwarmErrorView>(
                "=== mission phase complete: "@ + s.phase + " ==="@,
            )
            &&& s.verdict() is Err ==> s.verdict() == Err::<Seq<char>, SwarmErrorView>(
                SwarmErrorView::Other(
                    "mission phase "@ + s.phase + " completed with errors: "@ + text::joined(
                        all,
                        "; "@,
                    ),
                ),
            )
            &&& all.len() == m + if aborted {
                1int
            } else {
                0int
            }
            &&& all.take(n as int) == s.errors
            &&& missing ==> all[n as int]
                == "supervisor stopped after receiving terminal events from "@ + text::decimal(
                s.terminal.len(),
            ) + "/"@ + text::decimal(s.actors.len()) + " vehicles"@
            &&& aborted ==> all[m] == "phase aborted by supervisor: "@ + s.abort_reason->0
        }),
{
    let n = s.errors.len();
    assert(s.all_errors().take(n as int) =~= s.errors);
}

/// A file makes a phase exactly if it has drones, these have different names and missions
/// that can be encoded, and its policy is understood; the phase then begins with the file's
/// drones, settings and hashes.
pub proof fn law_which_files_make_a_phase(
    phase: Seq<char>,
    drones: Seq<Seq<char>>,
    encoded: Seq<AnyResult<Vec<u8>>>,
    gated: bool,
    timeout_secs: u64,
    policy: Result<QuorumPolicy, SwarmErrorView>,
)
    requires
        drones.len() == encoded.len(),
    ensures
        ({
            let made = swarm_supervisor::supervisor_for(
                phase,
                drones,
                encoded,
                gated,
                timeout_secs,
                policy,
            );
            let readable = drones.no_duplicates() && forall|i: int|
                0 <= i < encoded.len() ==> (#[trigger] encoded[i]) is Ok;
            &&& made is Ok <==> drones.len() > 0 && readable && policy is Ok
            &&& drones.len() == 0 ==> made == Err::<SupervisorView, SwarmErrorView>(
                SwarmErrorView::Other("mission file contains no drones"@),
            )
            &&& drones.len() > 0 && readable && policy is Err ==> made == Err::<
                SupervisorView,
                SwarmErrorView,
            >(policy->Err_0)
            &&& made matches Ok(s) ==> {
                &&& begins(s)
                &&& s.phase == phase
                &&& s.actors == drones
                &&& s.gated == gated
                &&& s.timeout_secs == timeout_secs
                &&& s.tracker.policy == policy->Ok_0
                &&& s.tracker.expected.dom() == drones.to_set()
            }
        }),
{
    supervisor_laws::law_expected_hashes(drones, encoded);
    vstd::seq_lib::seq_to_set_is_finite(drones);
    assert(Map::<Seq<char>, Seq<char>>::empty().dom() =~= Set::empty());
}

/// The first drone with a name that was there before is the one that is refused, unless the
/// mission of an earlier one could not be encoded.
pub proof fn law_which_drone_is_refused(
    drones: Seq<Seq<char>>,
    encoded: Seq<AnyResult<Vec<u8>>>,
    at: int,
)
    requires
        drones.len() == encoded.len(),
        0 <= at < drones.len(),
        drones.take(at).no_duplicates(),
        forall|i: int| 0 <= i < at ==> (#[trigger] encoded[i]) is Ok,
    ensures
        drones.take(at).contains(drones[at]) ==> swarm_supervisor::expected_hashes(drones, encoded)
            == Err::<Map<Seq<char>, Seq<char>>, SwarmErrorView>(
            SwarmErrorView::Other("duplicate drone name in mission config: "@ + drones[at]),
        ),
        !drones.take(at).contains(drones[at]) ==> (encoded[at] matches Err(error)
            ==> swarm_supervisor::expected_hashes(drones, encoded) == Err::<
            Map<Seq<char>, Seq<char>>,
            SwarmErrorView,
        >(error@)),
{
    let before = drones.take(at);
    supervisor_laws::lemma_expected_prefix(before, encoded);
    let upto = drones.take(at + 1);
    assert(upto.drop_last() =~= before);
    assert(upto.last() == drones[at]);
    assert(before.to_set().contains(drones[at]) == before.contains(drones[at]));
    if swarm_supervisor::expected_hashes(upto, encoded) is Err {
        swarm_supervisor::lemma_expected_error(drones, encoded, at + 1);
    }
}

/// The views of the supervisor's actions show all that these hold, in order.
pub proof fn law_views_of_supervisor_actions_are_complete(actions: Seq<SupervisorAction>, i: int)
    requires
        0 <= i < actions.len(),
    ensures
        swarm_supervisor::supervisor_views(actions).len() == actions.len(),
        match actions[i] {
            SupervisorAction::Print(words) => swarm_supervisor::supervisor_views(actions)[i]
                == SupervisorActionView::Print(words@),
            SupervisorAction::Send { vehicle, command } => swarm_supervisor::supervisor_views(
                actions,
            )[i] == (SupervisorActionView::Send { vehicle: vehicle@, command: command@ }),
        },
{
}

} // verus!
