//! The supervisor of a mission phase: it prepares every vehicle, gates the start on
//! readiness votes, and settles how the phase ended.
//!
//! The supervisor is a state machine. It is told what the vehicles report, or that
//! nothing was reported in time, and says what to print and which commands to send.
use vstd::prelude::*;
use vstd::string::*;
use crate::config;
use crate::config::{DroneConfig, SwarmConfig};
use crate::consensus::{
    ConsensusTracker, QuorumPolicy, ReadinessVote, ReadinessVoteView, SwarmDecision,
    SwarmDecisionView, TrackerView, VoteOutcome, VoteOutcomeView,
};
use crate::mavlink_client::{other_err, AnyResult, SwarmError, SwarmErrorView};
use crate::mission;
use crate::mission::hash_mission_specs;
use crate::names::{copy_names, NameMap, NameSet};
use crate::reports;
use crate::reports::event_line;
use crate::text;
use crate::text::{count_text, decimal_text, join_texts};
use crate::vehicle_actor::{
    VehicleCommand, VehicleCommandView, VehicleEvent, VehicleEventKind, VehicleEventKindView,
    VehicleEventView,
};

verus! {

/// The names of the drones, in order.
pub open spec fn drone_names(drones: Seq<DroneConfig>) -> Seq<Seq<char>> {
    drones.map_values(|drone: DroneConfig| drone.name@)
}

/// The mission hash that each drone is to vote with, from the names of the drones and the
/// encodings of their missions. The first drone whose name was there before, or whose
/// mission could not be encoded, decides the error.
pub open spec fn expected_hashes(
    drones: Seq<Seq<char>>,
    encoded: Seq<AnyResult<Vec<u8>>>,
) -> Result<Map<Seq<char>, Seq<char>>, SwarmErrorView>
    decreases drones.len(),
{
    if drones.len() == 0 {
        Ok(Map::empty())
    } else {
        match expected_hashes(drones.drop_last(), encoded) {
            Err(error) => Err(error),
            Ok(expected) => if expected.contains_key(drones.last()) {
                Err(
                    SwarmErrorView::Other(
                        "duplicate drone name in mission config: "@ + drones.last(),
                    ),
                )
            } else {
                match encoded[drones.len() - 1] {
                    Err(error) => Err(error@),
                    Ok(bytes) => Ok(
                        expected.insert(
                            drones.last(),
                            mission::digest_text(mission::sha256(bytes@)),
                        ),
                    ),
                }
            },
        }
    }
}

/// Works out the mission hash that each drone is to vote with, from the encodings of the
/// drones' missions.
pub fn expected_mission_hashes(drones: &Vec<DroneConfig>, encoded: &Vec<AnyResult<Vec<u8>>>) -> (r:
    AnyResult<NameMap<String>>)
    requires
        drones.len() == encoded.len(),
    ensures
        r matches Ok(expected) ==> expected.wf() && expected_hashes(
            drone_names(drones@),
            encoded@,
        ) == Ok::<Map<Seq<char>, Seq<char>>, SwarmErrorView>(expected@),
        r matches Err(error) ==> expected_hashes(drone_names(drones@), encoded@) == Err::<
            Map<Seq<char>, Seq<char>>,
            SwarmErrorView,
        >(error@),
{
    let mut expected: NameMap<String> = NameMap::new();
    let ghost given = drone_names(drones@);
    let mut i: usize = 0;
    while i < drones.len()
        invariant
            i <= drones@.len(),
            drones@.len() == encoded@.len(),
            given == drone_names(drones@),
            expected.wf(),
            expected_hashes(given.take(i as int), encoded@) == Ok::<
                Map<Seq<char>, Seq<char>>,
                SwarmErrorView,
            >(expected@),
        decreases drones.len() - i,
    {
        proof {
            assert(given.take(i + 1).drop_last() == given.take(i as int));
            assert(given.take(i + 1).last() == drones@[i as int].name@);
        }
        if expected.contains_key(drones[i].name.as_str()) {
            proof {
                lemma_expected_error(given, encoded@, i + 1);
            }
            return Err(
                other_err(
                    "duplicate drone name in mission config: ".to_string().concat(
                        drones[i].name.as_str(),
                    ),
                ),
            );
        }
        match &encoded[i] {
            Ok(bytes) => {
                expected.insert(drones[i].name.clone(), hash_mission_specs(bytes));
            },
            Err(error) => {
                proof {
                    lemma_expected_error(given, encoded@, i + 1);
                }
                return Err(error.duplicate());
            },
        }
        i = i + 1;
    }
    assert(given.take(given.len() as int) == given);
    Ok(expected)
}

/// What is wrong with the first drones of a file is what is wrong with it.
pub proof fn lemma_expected_error(
    drones: Seq<Seq<char>>,
    encoded: Seq<AnyResult<Vec<u8>>>,
    at: int,
)
    requires
        0 <= at <= drones.len(),
        expected_hashes(drones.take(at), encoded) is Err,
    ensures
        expected_hashes(drones, encoded) == expected_hashes(drones.take(at), encoded),
    decreases drones.len(),
{
    if at < drones.len() {
        assert(drones.drop_last().take(at) == drones.take(at));
        lemma_expected_error(drones.drop_last(), encoded, at);
    } else {
        assert(drones.take(at) == drones);
    }
}

/// What the supervisor does.
#[derive(Debug, Clone, PartialEq, Eq)]
pub enum SupervisorAction {
    Print(String),
    /// Send a command to a vehicle's actor. A start that was sent is to be reported back.
    Send { vehicle: String, command: VehicleCommand },
}

/// A supervisor's action over texts.
pub enum SupervisorActionView {
    Print(Seq<char>),
    Send { vehicle: Seq<char>, command: VehicleCommandView },
}

impl View for SupervisorAction {
    type V = SupervisorActionView;

    open spec fn view(&self) -> SupervisorActionView {
        match *self {
            SupervisorAction::Print(line) => SupervisorActionView::Print(line@),
            SupervisorAction::Send { vehicle, command } => SupervisorActionView::Send {
                vehicle: vehicle@,
                command: command@,
            },
        }
    }
}

/// The actions over texts, in order.
pub open spec fn supervisor_views(actions: Seq<SupervisorAction>) -> Seq<SupervisorActionView> {
    actions.map_values(|action: SupervisorAction| action@)
}

/// What the supervisor waits for.
#[derive(Debug, Clone, Copy, PartialEq, Eq)]
pub enum Wait {
    /// Nothing: as many vehicles have come to an end as the phase has.
    Over,
    /// The next event, or the readiness deadline.
    EventOrDeadline,
    /// The next event.
    Event,
}

/// The state of the supervisor.
pub struct SupervisorView {
    pub phase: Seq<char>,
    /// The vehicles' actors, in the order of the mission file.
    pub actors: Seq<Seq<char>>,
    /// Whether the start is gated on readiness votes.
    pub gated: bool,
    pub timeout_secs: u64,
    pub tracker: TrackerView,
    /// The vehicles that have completed or failed.
    pub terminal: Set<Seq<char>>,
    /// The vehicles that have been told to start.
    pub started: Set<Seq<char>>,
    /// The vehicles that have been told to abort, and why.
    pub planned_aborts: Map<Seq<char>, Seq<char>>,
    /// The vehicles that failed before the decision, and why.
    pub prestart_failures: Map<Seq<char>, Seq<char>>,
    pub errors: Seq<Seq<char>>,
    /// Why the whole phase was aborted, if it was.
    pub abort_reason: Option<Seq<char>>,
    /// Whether the start has been decided about, or needs no decision.
    pub decided: bool,
}

impl SupervisorView {
    /// The actors have different names and are the vehicles that the tracker expects;
    /// only actors are told to abort; and only in a gated phase is the start undecided or
    /// aborted, is a vehicle told to abort, or does one fail before the decision.
    pub open spec fn inv(self) -> bool {
        &&& self.actors.len() > 0
        &&& self.actors.no_duplicates()
        &&& self.tracker.inv()
        &&& self.tracker.expected.dom() == self.actors.to_set()
        &&& self.terminal.finite()
        &&& !self.gated ==> self.decided
        &&& !self.gated ==> self.planned_aborts.dom() == Set::<Seq<char>>::empty()
        &&& !self.gated ==> self.prestart_failures.dom() == Set::<Seq<char>>::empty()
        &&& self.abort_reason is Some ==> self.gated && self.decided
        &&& forall|name: Seq<char>| #[trigger]
            self.planned_aborts.contains_key(name) ==> self.actors.contains(name)
        &&& !self.decided ==> self.errors.len() == 0
    }

    /// The action of printing a line of the supervisor's own.
    pub open spec fn print(self, line: Seq<char>) -> SupervisorActionView {
        SupervisorActionView::Print("["@ + self.phase + "][supervisor] "@ + line)
    }

    /// Whether the readiness gate is closed.
    pub open spec fn waiting(self) -> bool {
        self.gated && !self.decided
    }

    /// What the supervisor waits for.
    pub open spec fn wait(self) -> Wait {
        if self.terminal.len() >= self.actors.len() {
            Wait::Over
        } else if self.waiting() {
            Wait::EventOrDeadline
        } else {
            Wait::Event
        }
    }

    /// The commands to prepare, one for each of `actors`.
    pub open spec fn prepare_actions(self, actors: Seq<Seq<char>>) -> Seq<SupervisorActionView> {
        actors.map_values(
            |name: Seq<char>|
                SupervisorActionView::Send {
                    vehicle: name,
                    command: VehicleCommandView::PrepareMission { phase: self.phase },
                },
        )
    }

    /// What the supervisor does first: it tells about the readiness gate, and has every vehicle
    /// prepared.
    pub open spec fn opening(self) -> Seq<SupervisorActionView> {
        seq![
            if self.gated {
                self.print(
                    "readiness gate enabled: "@ + self.tracker.policy_label() + ", timeout="@
                        + text::decimal(self.timeout_secs as nat) + "s"@,
                )
            } else {
                self.print(
                    "readiness gate disabled; vehicles start as soon as they report ready"@,
                )
            },
        ] + self.prepare_actions(self.actors)
    }

    /// Whether an actor is told to start when `vehicles` are to start.
    pub open spec fn starts(self, name: Seq<char>, vehicles: Set<Seq<char>>) -> bool {
        vehicles.contains(name) && !self.started.contains(name)
    }

    /// The commands to start those of `actors` that are among `vehicles` and have not
    /// been started.
    pub open spec fn start_actions(
        self,
        actors: Seq<Seq<char>>,
        vehicles: Set<Seq<char>>,
    ) -> Seq<SupervisorActionView>
        decreases actors.len(),
    {
        if actors.len() == 0 {
            Seq::empty()
        } else {
            let name = actors.last();
            self.start_actions(actors.drop_last(), vehicles) + if self.starts(name, vehicles) {
                seq![
                    self.print("starting "@ + name),
                    SupervisorActionView::Send {
                        vehicle: name,
                        command: VehicleCommandView::StartPreparedMission { phase: self.phase },
                    },
                ]
            } else {
                Seq::empty()
            }
        }
    }

    /// Whether a vehicle is told to abort when only `spared` are not.
    pub open spec fn aborts(self, name: Seq<char>, spared: Set<Seq<char>>) -> bool {
        !spared.contains(name) && !self.terminal.contains(name)
    }

    /// The commands to abort those of `actors` that are not `spared` and not at an end.
    pub open spec fn abort_actions(
        self,
        actors: Seq<Seq<char>>,
        spared: Set<Seq<char>>,
        reason: Seq<char>,
    ) -> Seq<SupervisorActionView>
        decreases actors.len(),
    {
        if actors.len() == 0 {
            Seq::empty()
        } else {
            let name = actors.last();
            self.abort_actions(actors.drop_last(), spared, reason) + if self.aborts(
                name,
                spared,
            ) {
                seq![
                    self.print("aborting "@ + name + " before start: "@ + reason),
                    SupervisorActionView::Send {
                        vehicle: name,
                        command: VehicleCommandView::AbortPreparedMission {
                            phase: self.phase,
                            reason,
                        },
                    },
                ]
            } else {
                Seq::empty()
            }
        }
    }

    /// The planned aborts, once those of `actors` that are not `spared` and not at an end
    /// have been told to abort.
    pub open spec fn aborts_after(
        self,
        actors: Seq<Seq<char>>,
        spared: Set<Seq<char>>,
        reason: Seq<char>,
    ) -> Map<Seq<char>, Seq<char>> {
        Map::new(
            |name: Seq<char>|
                self.planned_aborts.contains_key(name) || (actors.contains(name) && self.aborts(
                    name,
                    spared,
                )),
            |name: Seq<char>|
                if actors.contains(name) && self.aborts(name, spared) {
                    reason
                } else {
                    self.planned_aborts[name]
                },
        )
    }

    /// The state after a decision.
    pub open spec fn after_decision(self, decision: SwarmDecisionView) -> SupervisorView {
        match decision {
            SwarmDecisionView::Start { participants, reason } => SupervisorView {
                planned_aborts: self.aborts_after(
                    self.actors,
                    participants.to_set(),
                    "excluded by quorum start decision"@,
                ),
                decided: true,
                ..self
            },
            SwarmDecisionView::Abort { reason } => self.after_abort(reason),
            SwarmDecisionView::Hold { reason } => self,
        }
    }

    /// The state after the whole phase was aborted.
    pub open spec fn after_abort(self, reason: Seq<char>) -> SupervisorView {
        SupervisorView {
            planned_aborts: self.aborts_after(self.actors, Set::empty(), reason),
            abort_reason: Some(reason),
            decided: true,
            ..self
        }
    }

    /// What the supervisor does about a decision: a start goes to the participants, and
    /// the other vehicles are aborted; an abort goes to every vehicle.
    pub open spec fn decision_actions(self, decision: SwarmDecisionView) -> Seq<
        SupervisorActionView,
    > {
        match decision {
            SwarmDecisionView::Start { participants, reason } => seq![
                self.print("start decision: "@ + reason),
            ] + self.start_actions(self.actors, participants.to_set()) + self.abort_actions(
                self.actors,
                participants.to_set(),
                "excluded by quorum start decision"@,
            ),
            SwarmDecisionView::Abort { reason } => seq![self.print("abort decision: "@ + reason)]
                + self.abort_actions(self.actors, Set::empty(), reason),
            SwarmDecisionView::Hold { reason } => seq![self.print("holding: "@ + reason)],
        }
    }

    /// The state with another tracker.
    pub open spec fn tracking(self, tracker: TrackerView) -> SupervisorView {
        SupervisorView { tracker, ..self }
    }

    /// The vote that an event is.
    pub open spec fn vote_of(event: VehicleEventView) -> ReadinessVoteView {
        ReadinessVoteView {
            vehicle: event.vehicle,
            phase: event.phase,
            mission_hash: event.kind->ReadinessVote_mission_hash,
            item_count: event.kind->ReadinessVote_item_count,
        }
    }

    /// The line that tells what became of a vote.
    pub open spec fn outcome_line(self, vehicle: Seq<char>, outcome: VoteOutcomeView) -> Seq<
        char,
    > {
        match outcome {
            VoteOutcomeView::Accepted { ready_count, threshold } => "readiness accepted from "@
                + vehicle + "; "@ + text::decimal(ready_count) + "/"@ + text::decimal(threshold)
                + " votes"@,
            VoteOutcomeView::Rejected { reason } => "readiness rejected from "@ + vehicle + ": "@
                + reason,
            VoteOutcomeView::Duplicate => "duplicate readiness vote ignored from "@ + vehicle,
        }
    }

    /// The state with `vehicle` at an end.
    pub open spec fn ended(self, vehicle: Seq<char>) -> SupervisorView {
        SupervisorView { terminal: self.terminal.insert(vehicle), ..self }
    }

    /// The state with a failure before the decision taken into account.
    pub open spec fn failing(self, vehicle: Seq<char>, error: Seq<char>) -> SupervisorView {
        SupervisorView {
            prestart_failures: self.prestart_failures.insert(vehicle, error),
            tracker: self.tracker.after_failure(vehicle, error),
            ..self.ended(vehicle)
        }
    }

    /// The state after an event.
    pub open spec fn after(self, event: VehicleEventView) -> SupervisorView {
        match event.kind {
            VehicleEventKindView::ReadinessVote { mission_hash, item_count } => {
                if self.waiting() {
                    let voted = self.tracking(self.tracker.after_vote(Self::vote_of(event)));
                    voted.after_decision(voted.tracker.decision())
                } else {
                    self
                }
            },
            VehicleEventKindView::Completed => self.ended(event.vehicle),
            VehicleEventKindView::Failed { error } => {
                if self.planned_aborts.contains_key(event.vehicle) {
                    self.ended(event.vehicle)
                } else if self.waiting() {
                    let failed = self.failing(event.vehicle, error);
                    failed.after_decision(failed.tracker.decision())
                } else if self.prestart_failures.contains_key(event.vehicle) {
                    self.ended(event.vehicle)
                } else {
                    SupervisorView {
                        errors: self.errors.push(event.vehicle + " failed: "@ + error),
                        ..self.ended(event.vehicle)
                    }
                }
            },
            _ => self,
        }
    }

    /// What the supervisor does about an event, besides showing it.
    pub open spec fn reaction(self, event: VehicleEventView) -> Seq<SupervisorActionView> {
        match event.kind {
            VehicleEventKindView::ReadinessVote { mission_hash, item_count } => {
                if self.waiting() {
                    let vote = Self::vote_of(event);
                    let voted = self.tracking(self.tracker.after_vote(vote));
                    seq![
                        self.print(self.outcome_line(event.vehicle, self.tracker.outcome(vote))),
                    ] + voted.decision_actions(voted.tracker.decision())
                } else if !self.gated {
                    self.start_actions(self.actors, set![event.vehicle])
                } else {
                    Seq::empty()
                }
            },
            VehicleEventKindView::Failed { error } => {
                if self.planned_aborts.contains_key(event.vehicle) {
                    seq![self.print(event.vehicle + " stopped as planned: "@ + error)]
                } else if self.waiting() {
                    let failed = self.failing(event.vehicle, error);
                    seq![
                        self.print(
                            event.vehicle + " failed before readiness decision: "@ + error,
                        ),
                    ] + failed.decision_actions(failed.tracker.decision())
                } else if self.prestart_failures.contains_key(event.vehicle) {
                    seq![self.print(event.vehicle + " remains excluded from degraded start"@)]
                } else {
                    Seq::empty()
                }
            },
            _ => Seq::empty(),
        }
    }

    /// What the supervisor does about an event.
    pub open spec fn actions(self, event: VehicleEventView) -> Seq<SupervisorActionView> {
        seq![SupervisorActionView::Print(reports::event_text(event))] + self.reaction(event)
    }

    /// Why the phase is aborted when no event comes in time.
    pub open spec fn timeout_reason(self) -> Seq<char> {
        "readiness timeout after "@ + text::decimal(self.timeout_secs as nat) + "s; "@
            + self.tracker.decision().reason()
    }

    /// What the supervisor does when no event comes in time.
    pub open spec fn timeout_actions(self) -> Seq<SupervisorActionView> {
        seq![self.print("aborting phase: "@ + self.timeout_reason())] + self.abort_actions(
            self.actors,
            Set::empty(),
            self.timeout_reason(),
        )
    }

    /// The commands that end the actors.
    pub open spec fn shutdown_actions(self) -> Seq<SupervisorActionView> {
        self.actors.map_values(
            |name: Seq<char>|
                SupervisorActionView::Send { vehicle: name, command: VehicleCommandView::Shutdown },
        )
    }

    /// Everything that went wrong in the phase.
    pub open spec fn all_errors(self) -> Seq<Seq<char>> {
        self.errors + (if self.terminal.len() < self.actors.len() {
            seq![
                "supervisor stopped after receiving terminal events from "@ + text::decimal(
                    self.terminal.len(),
                ) + "/"@ + text::decimal(self.actors.len()) + " vehicles"@,
            ]
        } else {
            Seq::empty()
        }) + (match self.abort_reason {
            Some(reason) => seq!["phase aborted by supervisor: "@ + reason],
            None => Seq::empty(),
        })
    }

    /// How the phase ended: with a line that says so, or with everything that went wrong.
    pub open spec fn verdict(self) -> Result<Seq<char>, SwarmErrorView> {
        if self.all_errors().len() == 0 {
            Ok("=== mission phase complete: "@ + self.phase + " ==="@)
        } else {
            Err(
                SwarmErrorView::Other(
                    "mission phase "@ + self.phase + " completed with errors: "@ + text::joined(
                        self.all_errors(),
                        "; "@,
                    ),
                ),
            )
        }
    }
}

/// The supervisor of one mission phase.
#[derive(Debug, Clone)]
pub struct Supervisor {
    phase: String,
    actors: Vec<String>,
    gated: bool,
    timeout_secs: u64,
    tracker: ConsensusTracker,
    terminal: NameSet,
    started: NameSet,
    planned_aborts: NameMap<String>,
    prestart_failures: NameMap<String>,
    errors: Vec<String>,
    abort_reason: Option<String>,
    decided: bool,
}

impl View for Supervisor {
    type V = SupervisorView;

    closed spec fn view(&self) -> SupervisorView {
        SupervisorView {
            phase: self.phase@,
            actors: text::texts(self.actors@),
            gated: self.gated,
            timeout_secs: self.timeout_secs,
            tracker: self.tracker@,
            terminal: self.terminal@,
            started: self.started@,
            planned_aborts: self.planned_aborts@,
            prestart_failures: self.prestart_failures@,
            errors: text::texts(self.errors@),
            abort_reason: match self.abort_reason {
                Some(reason) => Some(reason@),
                None => None,
            },
            decided: self.decided,
        }
    }
}

/// The state in which a phase begins.
pub open spec fn initial(
    phase: Seq<char>,
    actors: Seq<Seq<char>>,
    gated: bool,
    timeout_secs: u64,
    expected: Map<Seq<char>, Seq<char>>,
    policy: QuorumPolicy,
) -> SupervisorView {
    SupervisorView {
        phase,
        actors,
        gated,
        timeout_secs,
        tracker: TrackerView {
            policy,
            expected,
            votes: Map::empty(),
            rejected: Map::empty(),
            failed: Map::empty(),
        },
        terminal: Set::empty(),
        started: Set::empty(),
        planned_aborts: Map::empty(),
        prestart_failures: Map::empty(),
        errors: Seq::empty(),
        abort_reason: None,
        decided: !gated,
    }
}

/// The supervisor that a mission file asks for, or why there is none.
pub open spec fn supervisor_for(
    phase: Seq<char>,
    drones: Seq<Seq<char>>,
    encoded: Seq<AnyResult<Vec<u8>>>,
    gated: bool,
    timeout_secs: u64,
    policy: Result<QuorumPolicy, SwarmErrorView>,
) -> Result<SupervisorView, SwarmErrorView> {
    if drones.len() == 0 {
        Err(SwarmErrorView::Other("mission file contains no drones"@))
    } else {
        match expected_hashes(drones, encoded) {
            Err(error) => Err(error),
            Ok(expected) => match policy {
                Err(error) => Err(error),
                Ok(policy) => Ok(initial(phase, drones, gated, timeout_secs, expected, policy)),
            },
        }
    }
}

proof fn lemma_expected_names(drones: Seq<Seq<char>>, encoded: Seq<AnyResult<Vec<u8>>>)
    requires
        expected_hashes(drones, encoded) is Ok,
    ensures
        expected_hashes(drones, encoded)->Ok_0.dom() == drones.to_set(),
        drones.no_duplicates(),
    decreases drones.len(),
{
    if drones.len() == 0 {
        assert(drones.to_set() =~= Set::empty());
        assert(Map::<Seq<char>, Seq<char>>::empty().dom() =~= Set::empty());
    } else {
        let rest = drones.drop_last();
        lemma_expected_names(rest, encoded);
        let before = expected_hashes(rest, encoded)->Ok_0;
        assert(drones == rest.push(drones.last()));
        rest.lemma_push_to_set_commute(drones.last());
        assert(expected_hashes(drones, encoded)->Ok_0.dom() =~= before.dom().insert(
            drones.last(),
        ));
        assert(!rest.contains(drones.last())) by {
            assert(!rest.to_set().contains(drones.last()));
        }
    }
}

impl Supervisor {
    /// The collections are well-formed.
    pub closed spec fn parts_wf(&self) -> bool {
        &&& self.tracker.maps_wf()
        &&& self.terminal.wf()
        &&& self.started.wf()
        &&& self.planned_aborts.wf()
        &&& self.prestart_failures.wf()
    }

    /// The collections are well-formed, and the state is consistent.
    pub open spec fn wf(&self) -> bool {
        &&& self.parts_wf()
        &&& self@.inv()
    }

    /// The supervisor of a phase that has just begun. `encoded` are the encodings of the
    /// drones' missions, in order.
    pub fn new(phase: String, config: &SwarmConfig, encoded: &Vec<AnyResult<Vec<u8>>>) -> (r:
        AnyResult<Supervisor>)
        requires
            config.drones.len() == encoded.len(),
        ensures
            ({
                let wanted = supervisor_for(
                    phase@,
                    drone_names(config.drones@),
                    encoded@,
                    config.consensus.enabled,
                    config.consensus.readiness_timeout_secs,
                    config::policy_for(
                        config.consensus.quorum_policy@,
                        config.consensus.quorum_count,
                    ),
                );
                match r {
                    Ok(supervisor) => supervisor.wf() && wanted == Ok::<
                        SupervisorView,
                        SwarmErrorView,
                    >(supervisor@),
                    Err(error) => wanted == Err::<SupervisorView, SwarmErrorView>(error@),
                }
            }),
    {
        if config.drones.len() == 0 {
            return Err(other_err("mission file contains no drones".to_string()));
        }
        let expected: NameMap<String> = match expected_mission_hashes(&config.drones, encoded) {
            Ok(expected) => expected,
            Err(error) => {
                return Err(error);
            },
        };
        let policy: QuorumPolicy = match config.consensus.quorum_policy() {
            Ok(policy) => policy,
            Err(error) => {
                return Err(error);
            },
        };
        let mut actors: Vec<String> = Vec::new();
        let mut i: usize = 0;
        while i < config.drones.len()
            invariant
                i <= config.drones@.len(),
                text::texts(actors@) == drone_names(config.drones@).take(i as int),
            decreases config.drones.len() - i,
        {
            let ghost so_far = text::texts(actors@);
            actors.push(config.drones[i].name.clone());
            proof {
                let name = config.drones@[i as int].name@;
                assert(text::texts(actors@) =~= so_far.push(name));
                assert(drone_names(config.drones@)[i as int] == name);
                assert(drone_names(config.drones@).take(i + 1) =~= so_far.push(name));
            }
            i = i + 1;
        }
        let supervisor = Supervisor {
            phase,
            actors,
            gated: config.consensus.enabled,
            timeout_secs: config.consensus.readiness_timeout_secs,
            tracker: ConsensusTracker::new(expected, policy),
            terminal: NameSet::new(),
            started: NameSet::new(),
            planned_aborts: NameMap::new(),
            prestart_failures: NameMap::new(),
            errors: Vec::new(),
            abort_reason: None,
            decided: !config.consensus.enabled,
        };
        proof {
            let drones = drone_names(config.drones@);
            assert(drones.take(drones.len() as int) == drones);
            lemma_expected_names(drones, encoded@);
            assert(supervisor@.errors =~= Seq::empty());
            assert(supervisor@.planned_aborts.dom() =~= Set::empty());
            assert(supervisor@.prestart_failures.dom() =~= Set::empty());
        }
        Ok(supervisor)
    }

    fn print(&self, line: &str) -> (r: SupervisorAction)
        ensures
            r@ == self@.print(line@),
    {
        SupervisorAction::Print(
            "[".to_string().concat(self.phase.as_str()).concat("][supervisor] ").concat(line),
        )
    }

    /// What the supervisor does first.
    pub fn opening(&self) -> (r: Vec<SupervisorAction>)
        requires
            self.wf(),
        ensures
            supervisor_views(r@) == self@.opening(),
    {
        let mut out: Vec<SupervisorAction> = Vec::new();
        if self.gated {
            out.push(
                self.print(
                    "readiness gate enabled: ".to_string().concat(
                        self.tracker.policy_label().as_str(),
                    ).concat(", timeout=").concat(decimal_text(self.timeout_secs).as_str()).concat(
                        "s",
                    ).as_str(),
                ),
            );
        } else {
            out.push(
                self.print("readiness gate disabled; vehicles start as soon as they report ready"),
            );
        }
        let ghost told = supervisor_views(out@);
        let ghost actors = self@.actors;
        let mut i: usize = 0;
        assert(self@.prepare_actions(actors.take(0)) =~= Seq::empty());
        while i < self.actors.len()
            invariant
                i <= self.actors@.len(),
                actors == self@.actors,
                actors == text::texts(self.actors@),
                supervisor_views(out@) =~= told + self@.prepare_actions(actors.take(i as int)),
            decreases self.actors.len() - i,
        {
            let ghost so_far = supervisor_views(out@);
            out.push(
                SupervisorAction::Send {
                    vehicle: self.actors[i].clone(),
                    command: VehicleCommand::PrepareMission { phase: self.phase.clone() },
                },
            );
            proof {
                let sent = SupervisorActionView::Send {
                    vehicle: actors[i as int],
                    command: VehicleCommandView::PrepareMission { phase: self@.phase },
                };
                assert(supervisor_views(out@) =~= so_far.push(sent));
                assert(actors.take(i + 1) =~= actors.take(i as int).push(actors[i as int]));
                assert(self@.prepare_actions(actors.take(i + 1)) =~= self@.prepare_actions(
                    actors.take(i as int),
                ).push(sent));
            }
            i = i + 1;
        }
        assert(actors.take(actors.len() as int) == actors);
        assert(supervisor_views(out@) =~= self@.opening());
        out
    }

    /// What to wait for.
    pub fn wait(&self) -> (r: Wait)
        requires
            self.wf(),
        ensures
            r == self@.wait(),
    {
        if self.terminal.len() >= self.actors.len() {
            Wait::Over
        } else if self.gated && !self.decided {
            Wait::EventOrDeadline
        } else {
            Wait::Event
        }
    }

    /// How long the vehicles may take to report ready.
    pub fn readiness_timeout_secs(&self) -> (r: u64)
        ensures
            r == self@.timeout_secs,
    {
        self.timeout_secs
    }

    /// Adds the commands to start the actors among `vehicles`.
    fn push_starts(&self, out: &mut Vec<SupervisorAction>, vehicles: &NameSet)
        requires
            self.wf(),
            vehicles.wf(),
        ensures
            supervisor_views(final(out)@) == supervisor_views(old(out)@) + self@.start_actions(
                self@.actors,
                vehicles@,
            ),
    {
        let ghost before = supervisor_views(out@);
        let ghost actors = self@.actors;
        let mut i: usize = 0;
        assert(before + self@.start_actions(actors.take(0), vehicles@) =~= before);
        while i < self.actors.len()
            invariant
                i <= self.actors@.len(),
                self.wf(),
                vehicles.wf(),
                actors == self@.actors,
                actors == text::texts(self.actors@),
                supervisor_views(out@) == before + self@.start_actions(
                    actors.take(i as int),
                    vehicles@,
                ),
            decreases self.actors.len() - i,
        {
            let name: &str = self.actors[i].as_str();
            let ghost so_far = supervisor_views(out@);
            proof {
                assert(actors.take(i + 1).drop_last() == actors.take(i as int));
                assert(actors.take(i + 1).last() == name@);
            }
            if vehicles.contains(name) && !self.started.contains(name) {
                out.push(self.print("starting ".to_string().concat(name).as_str()));
                out.push(
                    SupervisorAction::Send {
                        vehicle: self.actors[i].clone(),
                        command: VehicleCommand::StartPreparedMission { phase: self.phase.clone() },
                    },
                );
            }
            proof {
                let step = if self@.starts(name@, vehicles@) {
                    seq![
                        self@.print("starting "@ + name@),
                        SupervisorActionView::Send {
                            vehicle: name@,
                            command: VehicleCommandView::StartPreparedMission {
                                phase: self@.phase,
                            },
                        },
                    ]
                } else {
                    Seq::empty()
                };
                assert(supervisor_views(out@) =~= so_far + step);
                assert(self@.start_actions(actors.take(i + 1), vehicles@) == self@.start_actions(
                    actors.take(i as int),
                    vehicles@,
                ) + step);
                assert(supervisor_views(out@) =~= before + self@.start_actions(
                    actors.take(i + 1),
                    vehicles@,
                ));
            }
            i = i + 1;
        }
        assert(actors.take(actors.len() as int) == actors);
    }

    /// Tells the actors that are not `spared` and not at an end to abort.
    fn push_aborts(&mut self, out: &mut Vec<SupervisorAction>, spared: &NameSet, reason: &str)
        requires
            old(self).wf(),
            old(self)@.gated,
            spared.wf(),
        ensures
            final(self).wf(),
            final(self)@ == (SupervisorView {
                planned_aborts: old(self)@.aborts_after(old(self)@.actors, spared@, reason@),
                ..old(self)@
            }),
            supervisor_views(final(out)@) == supervisor_views(old(out)@) + old(
                self,
            )@.abort_actions(old(self)@.actors, spared@, reason@),
    {
        let ghost before = supervisor_views(out@);
        let ghost was = self@;
        let ghost actors = self@.actors;
        let mut i: usize = 0;
        assert(before + was.abort_actions(actors.take(0), spared@, reason@) =~= before);
        assert(was.aborts_after(actors.take(0), spared@, reason@) =~= was.planned_aborts);
        while i < self.actors.len()
            invariant
                i <= self.actors@.len(),
                self.wf(),
                spared.wf(),
                was.inv(),
                was.gated,
                actors == was.actors,
                actors == text::texts(self.actors@),
                self@ == (SupervisorView {
                    planned_aborts: was.aborts_after(actors.take(i as int), spared@, reason@),
                    ..was
                }),
                supervisor_views(out@) == before + was.abort_actions(
                    actors.take(i as int),
                    spared@,
                    reason@,
                ),
            decreases self.actors.len() - i,
        {
            let name: String = self.actors[i].clone();
            proof {
                assert(actors.take(i + 1).drop_last() == actors.take(i as int));
                assert(actors.take(i + 1).last() == name@);
                assert(actors.take(i + 1) == actors.take(i as int).push(name@));
            }
            let ghost so_far = supervisor_views(out@);
            if !spared.contains(name.as_str()) && !self.terminal.contains(name.as_str()) {
                out.push(
                    self.print(
                        "aborting ".to_string().concat(name.as_str()).concat(
                            " before start: ",
                        ).concat(reason).as_str(),
                    ),
                );
                self.planned_aborts.insert(name.clone(), reason.to_string());
                out.push(
                    SupervisorAction::Send {
                        vehicle: name,
                        command: VehicleCommand::AbortPreparedMission {
                            phase: self.phase.clone(),
                            reason: reason.to_string(),
                        },
                    },
                );
            }
            proof {
                let next = actors.take(i + 1);
                assert forall|n: Seq<char>| next.contains(n) == (actors.take(i as int).contains(n)
                    || n == actors[i as int]) by {
                    if actors.take(i as int).contains(n) {
                        let k = choose|k: int|
                            0 <= k < actors.take(i as int).len() && actors.take(i as int)[k] == n;
                        assert(next[k] == n);
                    }
                    assert(next[i as int] == actors[i as int]);
                    if next.contains(n) && n != actors[i as int] {
                        let k = choose|k: int| 0 <= k < next.len() && next[k] == n;
                        assert(actors.take(i as int)[k] == n);
                    }
                }
                assert(self@.planned_aborts =~= was.aborts_after(next, spared@, reason@));
                let step = if was.aborts(actors[i as int], spared@) {
                    seq![
                        was.print("aborting "@ + actors[i as int] + " before start: "@ + reason@),
                        SupervisorActionView::Send {
                            vehicle: actors[i as int],
                            command: VehicleCommandView::AbortPreparedMission {
                                phase: was.phase,
                                reason: reason@,
                            },
                        },
                    ]
                } else {
                    Seq::empty()
                };
                assert(supervisor_views(out@) =~= so_far + step);
                assert(was.abort_actions(next, spared@, reason@) == was.abort_actions(
                    actors.take(i as int),
                    spared@,
                    reason@,
                ) + step);
                assert(supervisor_views(out@) =~= before + was.abort_actions(
                    next,
                    spared@,
                    reason@,
                ));
                assert(actors.contains(actors[i as int]));
            }
            i = i + 1;
        }
        assert(actors.take(actors.len() as int) == actors);
    }

    /// Aborts the whole phase.
    fn push_phase_abort(&mut self, out: &mut Vec<SupervisorAction>, reason: String)
        requires
            old(self).wf(),
            old(self)@.gated,
        ensures
            final(self).wf(),
            final(self)@ == old(self)@.after_abort(reason@),
            supervisor_views(final(out)@) == supervisor_views(old(out)@) + old(
                self,
            )@.abort_actions(old(self)@.actors, Set::empty(), reason@),
    {
        self.push_aborts(out, &NameSet::new(), reason.as_str());
        self.abort_reason = Some(reason);
        self.decided = true;
    }

    /// Acts on what the tracker decides.
    fn push_decision(&mut self, out: &mut Vec<SupervisorAction>)
        requires
            old(self).wf(),
            old(self)@.gated,
        ensures
            final(self).wf(),
            final(self)@ == old(self)@.after_decision(old(self)@.tracker.decision()),
            supervisor_views(final(out)@) == supervisor_views(old(out)@) + old(
                self,
            )@.decision_actions(old(self)@.tracker.decision()),
    {
        let ghost before = supervisor_views(out@);
        let ghost was = self@;
        match self.tracker.decide() {
            SwarmDecision::Start { participants, reason } => {
                out.push(
                    self.print("start decision: ".to_string().concat(reason.as_str()).as_str()),
                );
                let participant_set: NameSet = NameSet::from_names(&participants);
                self.push_starts(out, &participant_set);
                self.push_aborts(out, &participant_set, "excluded by quorum start decision");
                self.decided = true;
            },
            SwarmDecision::Abort { reason } => {
                out.push(
                    self.print("abort decision: ".to_string().concat(reason.as_str()).as_str()),
                );
                self.push_phase_abort(out, reason);
            },
            SwarmDecision::Hold { reason } => {
                out.push(self.print("holding: ".to_string().concat(reason.as_str()).as_str()));
            },
        }
        assert(supervisor_views(out@) =~= before + was.decision_actions(was.tracker.decision()));
    }

    /// Takes an event, and says what to do about it.
    pub fn on_event(&mut self, event: &VehicleEvent) -> (r: Vec<SupervisorAction>)
        requires
            old(self).wf(),
        ensures
            final(self).wf(),
            final(self)@ == old(self)@.after(event@),
            supervisor_views(r@) == old(self)@.actions(event@),
    {
        let mut out: Vec<SupervisorAction> = Vec::new();
        out.push(SupervisorAction::Print(event_line(event)));
        let ghost was = self@;
        match &event.kind {
            VehicleEventKind::ReadinessVote { mission_hash, item_count } => {
                if self.gated && !self.decided {
                    let vote = ReadinessVote {
                        vehicle: event.vehicle.clone(),
                        phase: event.phase.clone(),
                        mission_hash: mission_hash.clone(),
                        item_count: *item_count,
                    };
                    self.take_vote(&mut out, vote);
                } else if !self.gated {
                    let mut vehicle_to_start: NameSet = NameSet::new();
                    vehicle_to_start.insert(event.vehicle.clone());
                    self.push_starts(&mut out, &vehicle_to_start);
                    assert(vehicle_to_start@ =~= set![event.vehicle@]);
                }
            },
            VehicleEventKind::Completed => {
                self.terminal.insert(event.vehicle.clone());
            },
            VehicleEventKind::Failed { error } => {
                self.terminal.insert(event.vehicle.clone());
                if self.planned_aborts.contains_key(event.vehicle.as_str()) {
                    out.push(
                        self.print(
                            event.vehicle.clone().concat(" stopped as planned: ").concat(
                                error.as_str(),
                            ).as_str(),
                        ),
                    );
                } else if self.gated && !self.decided {
                    out.push(
                        self.print(
                            event.vehicle.clone().concat(
                                " failed before readiness decision: ",
                            ).concat(error.as_str()).as_str(),
                        ),
                    );
                    self.prestart_failures.insert(event.vehicle.clone(), error.clone());
                    self.tracker.observe_failure(event.vehicle.as_str(), error.clone());
                    self.push_decision(&mut out);
                } else if self.prestart_failures.contains_key(event.vehicle.as_str()) {
                    out.push(
                        self.print(
                            event.vehicle.clone().concat(
                                " remains excluded from degraded start",
                            ).as_str(),
                        ),
                    );
                } else {
                    let ghost errors = self.errors@;
                    self.errors.push(
                        event.vehicle.clone().concat(" failed: ").concat(error.as_str()),
                    );
                    assert(text::texts(self.errors@) =~= text::texts(errors).push(
                        event.vehicle@ + " failed: "@ + error@,
                    ));
                }
            },
            _ => {},
        }
        assert(supervisor_views(out@) =~= was.actions(event@));
        out
    }

    /// Takes a vote, tells what became of it, and acts on the decision that follows.
    fn take_vote(&mut self, out: &mut Vec<SupervisorAction>, vote: ReadinessVote)
        requires
            old(self).wf(),
            old(self)@.waiting(),
        ensures
            final(self).wf(),
            ({
                let voted = old(self)@.tracking(old(self)@.tracker.after_vote(vote@));
                &&& final(self)@ == voted.after_decision(voted.tracker.decision())
                &&& supervisor_views(final(out)@) == supervisor_views(old(out)@) + seq![
                    old(self)@.print(
                        old(self)@.outcome_line(
                            vote@.vehicle,
                            old(self)@.tracker.outcome(vote@),
                        ),
                    ),
                ] + voted.decision_actions(voted.tracker.decision())
            }),
    {
        let ghost before = supervisor_views(out@);
        let ghost was = self@;
        let vehicle: String = vote.vehicle.clone();
        let outcome: VoteOutcome = self.tracker.observe_vote(vote);
        let line: String = match &outcome {
            VoteOutcome::Accepted { ready_count, threshold } => {
                "readiness accepted from ".to_string().concat(vehicle.as_str()).concat("; ").concat(
                    count_text(*ready_count).as_str(),
                ).concat("/").concat(count_text(*threshold).as_str()).concat(" votes")
            },
            VoteOutcome::Rejected { reason } => "readiness rejected from ".to_string().concat(
                vehicle.as_str(),
            ).concat(": ").concat(reason.as_str()),
            VoteOutcome::Duplicate => "duplicate readiness vote ignored from ".to_string().concat(
                vehicle.as_str(),
            ),
        };
        out.push(self.print(line.as_str()));
        assert(supervisor_views(out@) =~= before + seq![
            was.print(was.outcome_line(vehicle@, outcome@)),
        ]);
        self.push_decision(out);
    }

    /// Records that a vehicle was told to start.
    pub fn note_started(&mut self, vehicle: &str)
        requires
            old(self).wf(),
        ensures
            final(self).wf(),
            final(self)@ == (SupervisorView {
                started: old(self)@.started.insert(vehicle@),
                ..old(self)@
            }),
    {
        self.started.insert(vehicle.to_string());
    }

    /// Takes in that no event came: before the decision this aborts the phase, and
    /// afterwards the supervisor stops waiting.
    pub fn on_no_event(&mut self) -> (r: Option<Vec<SupervisorAction>>)
        requires
            old(self).wf(),
        ensures
            final(self).wf(),
            r is Some <==> old(self)@.waiting(),
            r matches Some(actions) ==> {
                &&& final(self)@ == old(self)@.after_abort(old(self)@.timeout_reason())
                &&& supervisor_views(actions@) == old(self)@.timeout_actions()
            },
            r is None ==> final(self)@ == old(self)@,
    {
        if self.gated && !self.decided {
            let ghost was = self@;
            let detail: String = match self.tracker.decide() {
                SwarmDecision::Hold { reason } => reason,
                SwarmDecision::Start { reason, .. } => reason,
                SwarmDecision::Abort { reason } => reason,
            };
            let reason: String = "readiness timeout after ".to_string().concat(
                decimal_text(self.timeout_secs).as_str(),
            ).concat("s; ").concat(detail.as_str());
            let mut out: Vec<SupervisorAction> = Vec::new();
            out.push(self.print("aborting phase: ".to_string().concat(reason.as_str()).as_str()));
            self.push_phase_abort(&mut out, reason);
            assert(supervisor_views(out@) =~= was.timeout_actions());
            Some(out)
        } else {
            None
        }
    }

    /// The commands that end the actors.
    pub fn shutdown(&self) -> (r: Vec<SupervisorAction>)
        ensures
            supervisor_views(r@) == self@.shutdown_actions(),
    {
        let mut out: Vec<SupervisorAction> = Vec::new();
        let mut i: usize = 0;
        while i < self.actors.len()
            invariant
                i <= self.actors@.len(),
                out@.len() == i,
                forall|k: int|
                    0 <= k < i ==> (#[trigger] out@[k])@ == (SupervisorActionView::Send {
                        vehicle: self.actors@[k]@,
                        command: VehicleCommandView::Shutdown,
                    }),
            decreases self.actors.len() - i,
        {
            out.push(
                SupervisorAction::Send {
                    vehicle: self.actors[i].clone(),
                    command: VehicleCommand::Shutdown,
                },
            );
            i = i + 1;
        }
        assert(supervisor_views(out@) =~= self@.shutdown_actions());
        out
    }

    /// How the phase ended.
    pub fn verdict(&self) -> (r: AnyResult<String>)
        requires
            self.wf(),
        ensures
            match r {
                Ok(line) => self@.verdict() == Ok::<Seq<char>, SwarmErrorView>(line@),
                Err(error) => self@.verdict() == Err::<Seq<char>, SwarmErrorView>(error@),
            },
    {
        let mut errors: Vec<String> = copy_names(&self.errors);
        let ended: usize = self.terminal.len();
        if ended < self.actors.len() {
            errors.push(
                "supervisor stopped after receiving terminal events from ".to_string().concat(
                    count_text(ended).as_str(),
                ).concat("/").concat(count_text(self.actors.len()).as_str()).concat(" vehicles"),
            );
        }
        if let Some(reason) = &self.abort_reason {
            errors.push("phase aborted by supervisor: ".to_string().concat(reason.as_str()));
        }
        assert(text::texts(errors@) =~= self@.all_errors());
        if errors.len() == 0 {
            Ok(
                "=== mission phase complete: ".to_string().concat(self.phase.as_str()).concat(
                    " ===",
                ),
            )
        } else {
            Err(
                other_err(
                    "mission phase ".to_string().concat(self.phase.as_str()).concat(
                        " completed with errors: ",
                    ).concat(join_texts(&errors, "; ").as_str()),
                ),
            )
        }
    }
}

/// The error of an actor whose task could not be joined.
pub fn join_err(vehicle: &str, detail: &str) -> (r: SwarmError)
    ensures
        r@ == SwarmErrorView::Other("vehicle actor "@ + vehicle@ + " join failed: "@ + detail@),
{
    other_err(
        "vehicle actor ".to_string().concat(vehicle).concat(" join failed: ").concat(detail),
    )
}

} // verus!
