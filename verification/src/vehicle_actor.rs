//! Vehicle actors: the commands that they take and the events that they report.
//!
//! An actor takes commands from the supervisor and owns at most one prepared mission that
//! waits for a decision. It is a state machine: it is told what happened, and says what
//! to do next.
use vstd::prelude::*;
use vstd::string::*;
use crate::mavlink_client::{other_err, SwarmError, SwarmErrorView};

verus! {

/// What the supervisor asks of a vehicle actor.
#[derive(Debug, Clone, PartialEq, Eq)]
pub enum VehicleCommand {
    /// Prepare means connect, discover, build and upload the mission, optionally arm,
    /// then wait for an explicit start or abort decision of the supervisor.
    PrepareMission { phase: String },
    /// Start a mission that has already emitted a readiness vote.
    StartPreparedMission { phase: String },
    /// Abort a prepared mission before it starts.
    AbortPreparedMission { phase: String, reason: String },
    Shutdown,
}

/// A command over texts.
pub enum VehicleCommandView {
    PrepareMission { phase: Seq<char> },
    StartPreparedMission { phase: Seq<char> },
    AbortPreparedMission { phase: Seq<char>, reason: Seq<char> },
    Shutdown,
}

impl View for VehicleCommand {
    type V = VehicleCommandView;

    open spec fn view(&self) -> VehicleCommandView {
        match *self {
            VehicleCommand::PrepareMission { phase } => VehicleCommandView::PrepareMission {
                phase: phase@,
            },
            VehicleCommand::StartPreparedMission { phase } => {
                VehicleCommandView::StartPreparedMission { phase: phase@ }
            },
            VehicleCommand::AbortPreparedMission { phase, reason } => {
                VehicleCommandView::AbortPreparedMission { phase: phase@, reason: reason@ }
            },
            VehicleCommand::Shutdown => VehicleCommandView::Shutdown,
        }
    }
}

/// Something that a vehicle reports during a phase.
#[derive(Debug, Clone, PartialEq, Eq)]
pub struct VehicleEvent {
    pub vehicle: String,
    pub phase: String,
    pub kind: VehicleEventKind,
}

/// What a vehicle reports.
#[derive(Debug, Clone, PartialEq, Eq)]
pub enum VehicleEventKind {
    CommandAccepted,
    Connecting { endpoint: String },
    Discovered { system_id: u8, component_id: u8 },
    /// A position in ten-millionths of a degree.
    StartPosition { lat_1e7: i32, lon_1e7: i32 },
    MissionBuilt { item_count: usize, spec_hash: String, upload_hash: String },
    MissionUploaded,
    Armed,
    ReadinessVote { mission_hash: String, item_count: usize },
    WaitingForStart { mission_hash: String },
    StartApproved,
    StartAborted { reason: String },
    MissionStarted,
    MissionMonitorStarted,
    Completed,
    Failed { error: String },
    ShutdownAck,
}

/// An event over texts.
pub struct VehicleEventView {
    pub vehicle: Seq<char>,
    pub phase: Seq<char>,
    pub kind: VehicleEventKindView,
}

/// A kind of event over texts.
pub enum VehicleEventKindView {
    CommandAccepted,
    Connecting { endpoint: Seq<char> },
    Discovered { system_id: u8, component_id: u8 },
    StartPosition { lat_1e7: i32, lon_1e7: i32 },
    MissionBuilt { item_count: usize, spec_hash: Seq<char>, upload_hash: Seq<char> },
    MissionUploaded,
    Armed,
    ReadinessVote { mission_hash: Seq<char>, item_count: usize },
    WaitingForStart { mission_hash: Seq<char> },
    StartApproved,
    StartAborted { reason: Seq<char> },
    MissionStarted,
    MissionMonitorStarted,
    Completed,
    Failed { error: Seq<char> },
    ShutdownAck,
}

impl View for VehicleEventKind {
    type V = VehicleEventKindView;

    open spec fn view(&self) -> VehicleEventKindView {
        match *self {
            VehicleEventKind::CommandAccepted => VehicleEventKindView::CommandAccepted,
            VehicleEventKind::Connecting { endpoint } => VehicleEventKindView::Connecting {
                endpoint: endpoint@,
            },
            VehicleEventKind::Discovered { system_id, component_id } => {
                VehicleEventKindView::Discovered { system_id, component_id }
            },
            VehicleEventKind::StartPosition { lat_1e7, lon_1e7 } => {
                VehicleEventKindView::StartPosition { lat_1e7, lon_1e7 }
            },
            VehicleEventKind::MissionBuilt { item_count, spec_hash, upload_hash } => {
                VehicleEventKindView::MissionBuilt {
                    item_count,
                    spec_hash: spec_hash@,
                    upload_hash: upload_hash@,
                }
            },
            VehicleEventKind::MissionUploaded => VehicleEventKindView::MissionUploaded,
            VehicleEventKind::Armed => VehicleEventKindView::Armed,
            VehicleEventKind::ReadinessVote { mission_hash, item_count } => {
                VehicleEventKindView::ReadinessVote { mission_hash: mission_hash@, item_count }
            },
            VehicleEventKind::WaitingForStart { mission_hash } => {
                VehicleEventKindView::WaitingForStart { mission_hash: mission_hash@ }
            },
            VehicleEventKind::StartApproved => VehicleEventKindView::StartApproved,
            VehicleEventKind::StartAborted { reason } => VehicleEventKindView::StartAborted {
                reason: reason@,
            },
            VehicleEventKind::MissionStarted => VehicleEventKindView::MissionStarted,
            VehicleEventKind::MissionMonitorStarted => VehicleEventKindView::MissionMonitorStarted,
            VehicleEventKind::Completed => VehicleEventKindView::Completed,
            VehicleEventKind::Failed { error } => VehicleEventKindView::Failed { error: error@ },
            VehicleEventKind::ShutdownAck => VehicleEventKindView::ShutdownAck,
        }
    }
}

impl View for VehicleEvent {
    type V = VehicleEventView;

    open spec fn view(&self) -> VehicleEventView {
        VehicleEventView { vehicle: self.vehicle@, phase: self.phase@, kind: self.kind@ }
    }
}

impl VehicleEvent {
    /// The event that `vehicle` reports `kind` in `phase`.
    pub fn new(vehicle: String, phase: String, kind: VehicleEventKind) -> (r: VehicleEvent)
        ensures
            r@ == (VehicleEventView { vehicle: vehicle@, phase: phase@, kind: kind@ }),
    {
        VehicleEvent { vehicle, phase, kind }
    }
}

/// The supervisor's decision about a prepared mission.
#[derive(Debug, Clone, PartialEq, Eq)]
pub enum StartSignal {
    Start,
    Abort { reason: String },
}

/// A decision over texts.
pub enum StartSignalView {
    Start,
    Abort { reason: Seq<char> },
}

impl View for StartSignal {
    type V = StartSignalView;

    open spec fn view(&self) -> StartSignalView {
        match *self {
            StartSignal::Start => StartSignalView::Start,
            StartSignal::Abort { reason } => StartSignalView::Abort { reason: reason@ },
        }
    }
}

/// What an actor does about a command.
#[derive(Debug, Clone, PartialEq, Eq)]
pub enum ActorAction {
    Emit(VehicleEvent),
    /// Run a worker for this phase, and keep the sending end of its decision channel.
    RunWorker { phase: String },
    /// Hand the worker its decision and give up the sending end. Where that fails and a
    /// phase is given, the failure is reported for it.
    Signal { signal: StartSignal, report: Option<String> },
    /// Take no further commands.
    Stop,
}

/// An actor's action over texts.
pub enum ActorActionView {
    Emit(VehicleEventView),
    RunWorker { phase: Seq<char> },
    Signal { signal: StartSignalView, report: Option<Seq<char>> },
    Stop,
}

impl View for ActorAction {
    type V = ActorActionView;

    open spec fn view(&self) -> ActorActionView {
        match *self {
            ActorAction::Emit(event) => ActorActionView::Emit(event@),
            ActorAction::RunWorker { phase } => ActorActionView::RunWorker { phase: phase@ },
            ActorAction::Signal { signal, report } => ActorActionView::Signal {
                signal: signal@,
                report: match report {
                    Some(phase) => Some(phase@),
                    None => None,
                },
            },
            ActorAction::Stop => ActorActionView::Stop,
        }
    }
}

/// The actions over texts, in order.
pub open spec fn actor_views(actions: Seq<ActorAction>) -> Seq<ActorActionView> {
    actions.map_values(|action: ActorAction| action@)
}

/// The state of an actor.
pub struct ActorView {
    pub name: Seq<char>,
    /// Whether a prepared mission waits for a decision.
    pub pending: bool,
}

impl ActorView {
    /// The action of reporting `kind` in `phase`.
    pub open spec fn emit(self, phase: Seq<char>, kind: VehicleEventKindView) -> ActorActionView {
        ActorActionView::Emit(VehicleEventView { vehicle: self.name, phase, kind })
    }

    /// The state after a command: preparing leaves a mission pending, and a decision or
    /// the shutdown uses it up.
    pub open spec fn after(self, command: VehicleCommandView) -> ActorView {
        ActorView { pending: command is PrepareMission, ..self }
    }

    /// The answer to a decision in `phase`.
    pub open spec fn signal_actions(self, phase: Seq<char>, signal: StartSignalView) -> Seq<
        ActorActionView,
    > {
        if self.pending {
            seq![ActorActionView::Signal { signal, report: Some(phase) }]
        } else {
            seq![
                self.emit(
                    phase,
                    VehicleEventKindView::Failed {
                        error: "no prepared mission is waiting for a start decision"@,
                    },
                ),
            ]
        }
    }

    /// What the actor does about a command.
    pub open spec fn actions(self, command: VehicleCommandView) -> Seq<ActorActionView> {
        match command {
            VehicleCommandView::PrepareMission { phase } => {
                let accepted = self.emit(phase, VehicleEventKindView::CommandAccepted);
                if self.pending {
                    seq![
                        accepted,
                        self.emit(
                            phase,
                            VehicleEventKindView::Failed {
                                error: "vehicle already has a prepared mission in progress"@,
                            },
                        ),
                    ]
                } else {
                    seq![accepted, ActorActionView::RunWorker { phase }]
                }
            },
            VehicleCommandView::StartPreparedMission { phase } => self.signal_actions(
                phase,
                StartSignalView::Start,
            ),
            VehicleCommandView::AbortPreparedMission { phase, reason } => self.signal_actions(
                phase,
                StartSignalView::Abort { reason },
            ),
            VehicleCommandView::Shutdown => {
                let farewell = seq![
                    self.emit("supervisor"@, VehicleEventKindView::ShutdownAck),
                    ActorActionView::Stop,
                ];
                if self.pending {
                    seq![
                        ActorActionView::Signal {
                            signal: StartSignalView::Abort {
                                reason: "vehicle actor shutting down"@,
                            },
                            report: None,
                        },
                    ] + farewell
                } else {
                    farewell
                }
            },
        }
    }
}

/// A vehicle actor.
#[derive(Debug, Clone, PartialEq, Eq)]
pub struct VehicleActor {
    name: String,
    pending: bool,
}

impl View for VehicleActor {
    type V = ActorView;

    closed spec fn view(&self) -> ActorView {
        ActorView { name: self.name@, pending: self.pending }
    }
}

impl VehicleActor {
    /// An actor that has no mission yet.
    pub fn new(name: String) -> (r: VehicleActor)
        ensures
            r@ == (ActorView { name: name@, pending: false }),
    {
        VehicleActor { name, pending: false }
    }

    fn emit(&self, phase: String, kind: VehicleEventKind) -> (r: ActorAction)
        ensures
            r@ == self@.emit(phase@, kind@),
    {
        ActorAction::Emit(VehicleEvent::new(self.name.clone(), phase, kind))
    }

    /// Takes a command, and says what to do about it.
    pub fn on_command(&mut self, command: VehicleCommand) -> (r: Vec<ActorAction>)
        ensures
            final(self)@ == old(self)@.after(command@),
            actor_views(r@) == old(self)@.actions(command@),
    {
        let mut out: Vec<ActorAction> = Vec::new();
        let ghost before = self@;
        let ghost given = command@;
        match command {
            VehicleCommand::PrepareMission { phase } => {
                out.push(self.emit(phase.clone(), VehicleEventKind::CommandAccepted));
                if self.pending {
                    out.push(
                        self.emit(
                            phase,
                            VehicleEventKind::Failed {
                                error: "vehicle already has a prepared mission in progress".to_string(),
                            },
                        ),
                    );
                } else {
                    self.pending = true;
                    out.push(ActorAction::RunWorker { phase });
                }
            },
            VehicleCommand::StartPreparedMission { phase } => {
                out.push(self.send_start_signal(phase, StartSignal::Start));
            },
            VehicleCommand::AbortPreparedMission { phase, reason } => {
                out.push(self.send_start_signal(phase, StartSignal::Abort { reason }));
            },
            VehicleCommand::Shutdown => {
                if self.pending {
                    self.pending = false;
                    out.push(
                        ActorAction::Signal {
                            signal: StartSignal::Abort {
                                reason: "vehicle actor shutting down".to_string(),
                            },
                            report: None,
                        },
                    );
                }
                out.push(self.emit("supervisor".to_string(), VehicleEventKind::ShutdownAck));
                out.push(ActorAction::Stop);
            },
        }
        assert(actor_views(out@) =~= before.actions(given));
        out
    }

    /// Uses up the pending mission for a decision.
    fn send_start_signal(&mut self, phase: String, signal: StartSignal) -> (r: ActorAction)
        ensures
            final(self)@ == (ActorView { pending: false, ..old(self)@ }),
            seq![r@] == old(self)@.signal_actions(phase@, signal@),
    {
        if self.pending {
            self.pending = false;
            ActorAction::Signal { signal, report: Some(phase) }
        } else {
            self.emit(
                phase,
                VehicleEventKind::Failed {
                    error: "no prepared mission is waiting for a start decision".to_string(),
                },
            )
        }
    }

    /// The event that reports a decision that could not be handed to the worker.
    pub fn signal_failed(&self, phase: String, detail: &str) -> (r: VehicleEvent)
        ensures
            r@ == (VehicleEventView {
                vehicle: self@.name,
                phase: phase@,
                kind: VehicleEventKindView::Failed {
                    error: "failed to send start signal to blocking worker: "@ + detail@,
                },
            }),
    {
        VehicleEvent::new(
            self.name.clone(),
            phase,
            VehicleEventKind::Failed {
                error: "failed to send start signal to blocking worker: ".to_string().concat(detail),
            },
        )
    }

    /// The event that reports how the worker ended: with its own result, or not properly.
    pub fn completion_event(&self, phase: String, outcome: WorkerOutcome) -> (r: VehicleEvent)
        ensures
            r@ == (VehicleEventView {
                vehicle: self@.name,
                phase: phase@,
                kind: match outcome {
                    WorkerOutcome::Completed => VehicleEventKindView::Completed,
                    WorkerOutcome::Failed(error) => VehicleEventKindView::Failed {
                        error: error@.message(),
                    },
                    WorkerOutcome::Lost { detail } => VehicleEventKindView::Failed {
                        error: "blocking vehicle task panicked or was cancelled: "@ + detail@,
                    },
                },
            }),
    {
        let kind: VehicleEventKind = match outcome {
            WorkerOutcome::Completed => VehicleEventKind::Completed,
            WorkerOutcome::Failed(error) => VehicleEventKind::Failed { error: error.message() },
            WorkerOutcome::Lost { detail } => VehicleEventKind::Failed {
                error: "blocking vehicle task panicked or was cancelled: ".to_string().concat(
                    detail.as_str(),
                ),
            },
        };
        VehicleEvent::new(self.name.clone(), phase, kind)
    }
}

/// How a worker ended.
#[derive(Debug, Clone, PartialEq, Eq)]
pub enum WorkerOutcome {
    Completed,
    Failed(SwarmError),
    /// The worker panicked or was cancelled.
    Lost { detail: String },
}

/// The error of a command that could not be sent to a vehicle's actor.
pub fn send_command_err(vehicle_name: &str, detail: &str) -> (r: SwarmError)
    ensures
        r@ == SwarmErrorView::Other(
            "failed to send command to "@ + vehicle_name@ + ": "@ + detail@,
        ),
{
    other_err(
        "failed to send command to ".to_string().concat(vehicle_name).concat(": ").concat(detail),
    )
}

/// A prepared mission is decided once: after a decision, or after the shutdown, a
/// further decision finds no mission that waits for one, until another is prepared.
pub proof fn law_mission_is_decided_once(
    actor: ActorView,
    first: VehicleCommandView,
    phase: Seq<char>,
    reason: Seq<char>,
)
    requires
        !(first is PrepareMission),
    ensures
        ({
            let failed = seq![
                actor.emit(
                    phase,
                    VehicleEventKindView::Failed {
                        error: "no prepared mission is waiting for a start decision"@,
                    },
                ),
            ];
            let after = actor.after(first);
            &&& after.actions(VehicleCommandView::StartPreparedMission { phase }) == failed
            &&& after.actions(VehicleCommandView::AbortPreparedMission { phase, reason }) == failed
        }),
{
}

/// An actor has at most one mission that waits for a decision: it runs a worker only for
/// a command to prepare, and only when none is pending; a second one is refused.
pub proof fn law_one_pending_mission(actor: ActorView, command: VehicleCommandView, i: int)
    requires
        0 <= i < actor.actions(command).len(),
    ensures
        actor.actions(command)[i] is RunWorker ==> {
            &&& command is PrepareMission
            &&& !actor.pending
            &&& actor.after(command).pending
        },
        actor.actions(command)[i] is Signal ==> actor.pending && !actor.after(command).pending,
{
}

/// A worker is told to start only on a command to start, and to abort only on a command to
/// abort or to shut down.
pub proof fn law_signals_follow_commands(actor: ActorView, command: VehicleCommandView, i: int)
    requires
        0 <= i < actor.actions(command).len(),
    ensures
        actor.actions(command)[i] matches ActorActionView::Signal { signal, report } ==> {
            &&& signal is Start <==> command is StartPreparedMission
            &&& signal is Abort <==> command is AbortPreparedMission || command is Shutdown
            &&& command matches VehicleCommandView::AbortPreparedMission { phase, reason }
                ==> signal == (StartSignalView::Abort { reason })
        },
{
}

} // verus!
