//! Vehicle workers: how a drone's mission is carried from connecting to completion.
//!
//! A worker talks to one vehicle, step by step. It is a state machine: it is told how the
//! last step went, and says what to report and which step to take next.
use vstd::prelude::*;
use vstd::string::*;
use crate::config::DroneConfig;
use crate::mavlink_client::{
    arm_vehicle, mission_count, other_err, set_px4_mission_mode, start_mission, AnyResult, Command,
    CommandLong, SwarmError, SwarmErrorView, PX4_MAIN_MODE_AUTO, PX4_SUB_MODE_AUTO_MISSION,
};
use crate::mission;
use crate::mission::{
    build_relative_mission_items, hash_mission_items, hash_mission_specs, MissionItem,
    MissionItemView, MissionSpec,
};
use crate::text;
use crate::text::{decimal_text, fixed_1e7_text};
use crate::vehicle_actor::{
    StartSignal, VehicleEvent, VehicleEventKind, VehicleEventKindView, VehicleEventView,
};

verus! {

/// A drone's configuration over texts.
pub struct DroneConfigView {
    pub name: Seq<char>,
    pub endpoint: Seq<char>,
    pub expected_system_id: Option<u8>,
    pub arm: Option<bool>,
    pub auto_start: Option<bool>,
    pub mission: Seq<MissionSpec>,
}

impl View for DroneConfig {
    type V = DroneConfigView;

    open spec fn view(&self) -> DroneConfigView {
        DroneConfigView {
            name: self.name@,
            endpoint: self.endpoint@,
            expected_system_id: self.expected_system_id,
            arm: self.arm,
            auto_start: self.auto_start,
            mission: self.mission@,
        }
    }
}

impl DroneConfigView {
    /// Whether the vehicle is armed before it reports ready: it is, unless the
    /// configuration says otherwise.
    pub open spec fn arms(self) -> bool {
        self.arm != Some(false)
    }

    /// Whether an approved mission is started: it is, unless the configuration says
    /// otherwise.
    pub open spec fn auto_starts(self) -> bool {
        self.auto_start != Some(false)
    }
}

/// How far a worker has come.
#[derive(Debug, Clone, Copy, PartialEq, Eq)]
pub enum WorkerStage {
    Connecting,
    Discovering,
    Locating,
    Uploading,
    Arming,
    AwaitingDecision,
    SettingMode,
    StartingMission,
    Monitoring,
    Ended,
}

impl WorkerStage {
    /// Whether heartbeats are being sent.
    pub open spec fn has_heartbeat(self) -> bool {
        !(self is Connecting || self is Discovering || self is Ended)
    }

    /// Whether the supervisor has approved the start.
    pub open spec fn is_approved(self) -> bool {
        self is SettingMode || self is StartingMission || self is Monitoring
    }
}

/// What a worker is told.
#[derive(Debug)]
pub enum WorkerInput {
    /// The link is up.
    Connected,
    /// A vehicle was heard on the link.
    VehicleFound { system_id: u8, component_id: u8 },
    /// The vehicle's position is known, in ten-millionths of a degree. With it come, for
    /// each leg of the mission, the position that the leg's offset leads to, and the
    /// mission's JSON encoding.
    Located {
        lat_1e7: i32,
        lon_1e7: i32,
        positions: Vec<(i32, i32)>,
        encoded: AnyResult<Vec<u8>>,
    },
    /// The vehicle has accepted the mission.
    Uploaded,
    /// The vehicle has accepted the last command.
    CommandAccepted,
    /// The supervisor has decided.
    Decided(StartSignal),
    /// The supervisor can no longer decide.
    DecisionLost { detail: String },
    /// The vehicle has reached the end of its mission.
    MissionDone,
    /// The last step failed.
    StepFailed(SwarmError),
}

/// What a worker does.
#[derive(Debug)]
pub enum WorkerAction {
    Emit(VehicleEvent),
    Print(String),
    /// Connect to this endpoint.
    Connect { endpoint: String },
    AwaitVehicle,
    StartHeartbeat,
    /// Wait for a position, and work out where the offsets of the mission's legs lead to.
    AwaitPosition,
    Upload { system_id: u8, component_id: u8, items: Vec<MissionItem> },
    /// Send a command, and wait until it is acknowledged.
    SendCommand(CommandLong),
    AwaitDecision,
    /// Watch the mission until its last item is reached. A mission without items has no
    /// last one, and cannot be watched.
    Monitor { final_seq: Option<u16> },
    StopHeartbeat,
    /// The worker has ended.
    Finish(AnyResult<()>),
}

/// A worker's action over texts.
pub enum WorkerActionView {
    Emit(VehicleEventView),
    Print(Seq<char>),
    Connect { endpoint: Seq<char> },
    AwaitVehicle,
    StartHeartbeat,
    AwaitPosition,
    Upload { system_id: u8, component_id: u8, items: Seq<MissionItemView> },
    SendCommand(CommandLong),
    AwaitDecision,
    Monitor { final_seq: Option<u16> },
    StopHeartbeat,
    Finish(Result<(), SwarmErrorView>),
}

impl View for WorkerAction {
    type V = WorkerActionView;

    open spec fn view(&self) -> WorkerActionView {
        match *self {
            WorkerAction::Emit(event) => WorkerActionView::Emit(event@),
            WorkerAction::Print(line) => WorkerActionView::Print(line@),
            WorkerAction::Connect { endpoint } => WorkerActionView::Connect { endpoint: endpoint@ },
            WorkerAction::AwaitVehicle => WorkerActionView::AwaitVehicle,
            WorkerAction::StartHeartbeat => WorkerActionView::StartHeartbeat,
            WorkerAction::AwaitPosition => WorkerActionView::AwaitPosition,
            WorkerAction::Upload { system_id, component_id, items } => WorkerActionView::Upload {
                system_id,
                component_id,
                items: mission::item_views(items@),
            },
            WorkerAction::SendCommand(command) => WorkerActionView::SendCommand(command),
            WorkerAction::AwaitDecision => WorkerActionView::AwaitDecision,
            WorkerAction::Monitor { final_seq } => WorkerActionView::Monitor { final_seq },
            WorkerAction::StopHeartbeat => WorkerActionView::StopHeartbeat,
            WorkerAction::Finish(result) => WorkerActionView::Finish(
                crate::mavlink_client::result_view(result),
            ),
        }
    }
}

/// The actions over texts, in order.
pub open spec fn worker_views(actions: Seq<WorkerAction>) -> Seq<WorkerActionView> {
    actions.map_values(|action: WorkerAction| action@)
}

/// The state of a worker.
pub struct WorkerView {
    pub config: DroneConfigView,
    pub phase: Seq<char>,
    pub stage: WorkerStage,
    /// Known once the vehicle was found.
    pub system_id: u8,
    /// Known once the vehicle was found.
    pub component_id: u8,
    /// Known once the mission was built.
    pub item_count: usize,
    /// Known once the mission was built.
    pub spec_hash: Seq<char>,
}

impl WorkerView {
    /// The action of reporting `kind`.
    pub open spec fn emit(self, kind: VehicleEventKindView) -> WorkerActionView {
        WorkerActionView::Emit(
            VehicleEventView { vehicle: self.config.name, phase: self.phase, kind },
        )
    }

    /// The action of printing a line for this vehicle.
    pub open spec fn print(self, line: Seq<char>) -> WorkerActionView {
        WorkerActionView::Print("["@ + self.config.name + "] "@ + line)
    }

    /// The same worker at another stage.
    pub open spec fn at(self, stage: WorkerStage) -> WorkerView {
        WorkerView { stage, ..self }
    }

    /// What the worker does first.
    pub open spec fn opening(self) -> Seq<WorkerActionView> {
        seq![
            self.emit(VehicleEventKindView::Connecting { endpoint: self.config.endpoint }),
            self.print("connecting on "@ + self.config.endpoint),
            WorkerActionView::Connect { endpoint: self.config.endpoint },
        ]
    }

    /// How the worker ends with `result`. Heartbeats that are being sent are stopped.
    pub open spec fn ending(self, result: Result<(), SwarmErrorView>) -> Seq<WorkerActionView> {
        if self.stage.has_heartbeat() {
            seq![
                WorkerActionView::StopHeartbeat,
                WorkerActionView::Print("TERMINATED -- "@ + self.config.name),
                WorkerActionView::Finish(result),
            ]
        } else {
            seq![WorkerActionView::Finish(result)]
        }
    }

    /// How the worker ends when all went well.
    pub open spec fn success(self) -> Seq<WorkerActionView> {
        seq![WorkerActionView::Print("TERMINATING -- "@ + self.config.name)] + self.ending(Ok(()))
    }

    /// Whether the worker can be told `input` at this stage: whether it answers the step
    /// that was taken last.
    pub open spec fn accepts(self, input: WorkerInput) -> bool {
        match input {
            WorkerInput::Connected => self.stage is Connecting,
            WorkerInput::VehicleFound { system_id, component_id } => self.stage is Discovering,
            WorkerInput::Located { lat_1e7, lon_1e7, positions, encoded } => {
                self.stage is Locating && positions@.len() == self.config.mission.len()
            },
            WorkerInput::Uploaded => self.stage is Uploading,
            WorkerInput::CommandAccepted => {
                ||| self.stage is Arming
                ||| self.stage is SettingMode
                ||| self.stage is StartingMission
            },
            WorkerInput::Decided(signal) => self.stage is AwaitingDecision,
            WorkerInput::DecisionLost { detail } => self.stage is AwaitingDecision,
            WorkerInput::MissionDone => self.stage is Monitoring,
            WorkerInput::StepFailed(error) => !(self.stage is Ended || self.stage
                is AwaitingDecision),
        }
    }

    /// Whether the vehicle that was found is not the configured one.
    pub open spec fn wrong_vehicle(self, system_id: u8) -> bool {
        self.config.expected_system_id matches Some(expected) && expected != system_id
    }

    /// The items of the mission, which is flown from `start` and whose offsets lead to
    /// `positions`.
    pub open spec fn items(self, start: (i32, i32), positions: Seq<(i32, i32)>) -> Seq<
        MissionItemView,
    > {
        mission::items_for(
            self.system_id,
            self.component_id,
            start,
            positions,
            self.config.mission,
        )
    }

    /// The state after `input`.
    pub open spec fn after(self, input: WorkerInput) -> WorkerView {
        match input {
            WorkerInput::Connected => self.at(WorkerStage::Discovering),
            WorkerInput::VehicleFound { system_id, component_id } => WorkerView {
                stage: if self.wrong_vehicle(system_id) {
                    WorkerStage::Ended
                } else {
                    WorkerStage::Locating
                },
                system_id,
                component_id,
                ..self
            },
            WorkerInput::Located { lat_1e7, lon_1e7, positions, encoded } => match encoded {
                Ok(bytes) => WorkerView {
                    stage: WorkerStage::Uploading,
                    item_count: self.config.mission.len() as usize,
                    spec_hash: mission::digest_text(mission::sha256(bytes@)),
                    ..self
                },
                Err(error) => self.at(WorkerStage::Ended),
            },
            WorkerInput::Uploaded => self.at(
                if self.config.arms() {
                    WorkerStage::Arming
                } else {
                    WorkerStage::AwaitingDecision
                },
            ),
            WorkerInput::CommandAccepted => self.at(
                if self.stage is Arming {
                    WorkerStage::AwaitingDecision
                } else if self.stage is SettingMode {
                    WorkerStage::StartingMission
                } else {
                    WorkerStage::Monitoring
                },
            ),
            WorkerInput::Decided(signal) => self.at(
                if signal is Start && self.config.auto_starts() {
                    WorkerStage::SettingMode
                } else {
                    WorkerStage::Ended
                },
            ),
            WorkerInput::DecisionLost { detail } => self.at(WorkerStage::Ended),
            WorkerInput::MissionDone => self.at(WorkerStage::Ended),
            WorkerInput::StepFailed(error) => self.at(WorkerStage::Ended),
        }
    }

    /// What a worker does once its vehicle is ready: it votes, and waits for a decision.
    pub open spec fn ready(self) -> Seq<WorkerActionView> {
        seq![
            self.emit(
                VehicleEventKindView::ReadinessVote {
                    mission_hash: self.spec_hash,
                    item_count: self.item_count,
                },
            ),
            self.emit(VehicleEventKindView::WaitingForStart { mission_hash: self.spec_hash }),
            WorkerActionView::AwaitDecision,
        ]
    }

    /// The action of sending `command` to the vehicle.
    pub open spec fn command(self, command: Command) -> WorkerActionView {
        let (param1, param2, param3) = match command {
            Command::ComponentArmDisarm => (1u16, 0u16, 0u16),
            Command::DoSetMode => (1u16, PX4_MAIN_MODE_AUTO, PX4_SUB_MODE_AUTO_MISSION),
            _ => {
                let count = self.item_count % 65536;
                (
                    0u16,
                    if count == 0 {
                        0u16
                    } else {
                        (count - 1) as u16
                    },
                    0u16,
                )
            },
        };
        WorkerActionView::SendCommand(
            CommandLong::first(
                command,
                self.system_id,
                self.component_id,
                param1,
                param2,
                param3,
            ),
        )
    }

    /// What the worker does about `input`.
    pub open spec fn actions(self, input: WorkerInput) -> Seq<WorkerActionView> {
        match input {
            WorkerInput::Connected => seq![WorkerActionView::AwaitVehicle],
            WorkerInput::VehicleFound { system_id, component_id } => seq![
                self.emit(VehicleEventKindView::Discovered { system_id, component_id }),
                self.print(
                    "discovered target sys="@ + text::decimal(system_id as nat) + ", comp="@
                        + text::decimal(component_id as nat),
                ),
            ] + if self.wrong_vehicle(system_id) {
                self.ending(
                    Err(
                        SwarmErrorView::Other(
                            "["@ + self.config.name + "] expected system_id "@ + text::decimal(
                                self.config.expected_system_id->0 as nat,
                            ) + ", got "@ + text::decimal(system_id as nat),
                        ),
                    ),
                )
            } else {
                seq![WorkerActionView::StartHeartbeat, WorkerActionView::AwaitPosition]
            },
            WorkerInput::Located { lat_1e7, lon_1e7, positions, encoded } => seq![
                self.emit(VehicleEventKindView::StartPosition { lat_1e7, lon_1e7 }),
                self.print(
                    "start position lat="@ + text::fixed_1e7(lat_1e7 as int) + ", lon="@
                        + text::fixed_1e7(lon_1e7 as int),
                ),
            ] + match encoded {
                Ok(bytes) => seq![
                    self.emit(
                        VehicleEventKindView::MissionBuilt {
                            item_count: self.config.mission.len() as usize,
                            spec_hash: mission::digest_text(mission::sha256(bytes@)),
                            upload_hash: mission::digest_text(
                                mission::sha256(
                                    mission::items_bytes(
                                        self.items((lat_1e7, lon_1e7), positions@),
                                    ),
                                ),
                            ),
                        },
                    ),
                    WorkerActionView::Upload {
                        system_id: self.system_id,
                        component_id: self.component_id,
                        items: self.items((lat_1e7, lon_1e7), positions@),
                    },
                ],
                Err(error) => self.ending(Err(error@)),
            },
            WorkerInput::Uploaded => seq![
                self.emit(VehicleEventKindView::MissionUploaded),
                self.print("mission uploaded"@),
            ] + if self.config.arms() {
                seq![self.command(Command::ComponentArmDisarm)]
            } else {
                self.ready()
            },
            WorkerInput::CommandAccepted => if self.stage is Arming {
                seq![self.emit(VehicleEventKindView::Armed), self.print("armed"@)] + self.ready()
            } else if self.stage is SettingMode {
                seq![self.command(Command::MissionStart)]
            } else {
                seq![
                    self.emit(VehicleEventKindView::MissionStarted),
                    self.print("mission started"@),
                    self.emit(VehicleEventKindView::MissionMonitorStarted),
                    WorkerActionView::Monitor {
                        final_seq: if self.item_count == 0 {
                            None
                        } else {
                            Some(((self.item_count - 1) % 65536) as u16)
                        },
                    },
                ]
            },
            WorkerInput::Decided(StartSignal::Start) => seq![
                self.emit(VehicleEventKindView::StartApproved),
            ] + if self.config.auto_starts() {
                seq![self.command(Command::DoSetMode)]
            } else {
                seq![
                    self.print("auto_start=false; mission prepared but not started"@),
                ] + self.success()
            },
            WorkerInput::Decided(StartSignal::Abort { reason }) => seq![
                self.emit(VehicleEventKindView::StartAborted { reason: reason@ }),
            ] + self.ending(
                Err(SwarmErrorView::Other("mission start aborted by supervisor: "@ + reason@)),
            ),
            WorkerInput::DecisionLost { detail } => self.ending(
                Err(
                    SwarmErrorView::Other(
                        "mission start channel closed before supervisor decision: "@ + detail@,
                    ),
                ),
            ),
            WorkerInput::MissionDone => self.success(),
            WorkerInput::StepFailed(error) => self.ending(Err(error@)),
        }
    }
}

/// The worker of one drone in one phase.
#[derive(Debug)]
pub struct DroneWorker {
    cfg: DroneConfig,
    phase: String,
    stage: WorkerStage,
    system_id: u8,
    component_id: u8,
    item_count: usize,
    spec_hash: String,
}

impl View for DroneWorker {
    type V = WorkerView;

    closed spec fn view(&self) -> WorkerView {
        WorkerView {
            config: self.cfg@,
            phase: self.phase@,
            stage: self.stage,
            system_id: self.system_id,
            component_id: self.component_id,
            item_count: self.item_count,
            spec_hash: self.spec_hash@,
        }
    }
}

impl DroneWorker {
    /// A worker that is about to connect.
    pub fn new(cfg: DroneConfig, phase: String) -> (r: DroneWorker)
        ensures
            r@ == (WorkerView {
                config: cfg@,
                phase: phase@,
                stage: WorkerStage::Connecting,
                system_id: 0,
                component_id: 0,
                item_count: 0,
                spec_hash: Seq::empty(),
            }),
    {
        DroneWorker {
            cfg,
            phase,
            stage: WorkerStage::Connecting,
            system_id: 0,
            component_id: 0,
            item_count: 0,
            spec_hash: String::new(),
        }
    }

    fn emit(&self, kind: VehicleEventKind) -> (r: WorkerAction)
        ensures
            r@ == self@.emit(kind@),
    {
        WorkerAction::Emit(VehicleEvent::new(self.cfg.name.clone(), self.phase.clone(), kind))
    }

    fn print(&self, line: &str) -> (r: WorkerAction)
        ensures
            r@ == self@.print(line@),
    {
        WorkerAction::Print(
            "[".to_string().concat(self.cfg.name.as_str()).concat("] ").concat(line),
        )
    }

    /// What the worker does first.
    pub fn opening(&self) -> (r: Vec<WorkerAction>)
        ensures
            worker_views(r@) == self@.opening(),
    {
        let mut out: Vec<WorkerAction> = Vec::new();
        out.push(self.emit(VehicleEventKind::Connecting { endpoint: self.cfg.endpoint.clone() }));
        out.push(
            self.print("connecting on ".to_string().concat(self.cfg.endpoint.as_str()).as_str()),
        );
        out.push(WorkerAction::Connect { endpoint: self.cfg.endpoint.clone() });
        assert(worker_views(out@) =~= self@.opening());
        out
    }

    /// Whether the worker can be told `input` now.
    pub fn can_take(&self, input: &WorkerInput) -> (r: bool)
        ensures
            r == self@.accepts(*input),
    {
        match input {
            WorkerInput::Connected => matches!(self.stage, WorkerStage::Connecting),
            WorkerInput::VehicleFound { .. } => matches!(self.stage, WorkerStage::Discovering),
            WorkerInput::Located { positions, .. } => matches!(self.stage, WorkerStage::Locating)
                && positions.len() == self.cfg.mission.len(),
            WorkerInput::Uploaded => matches!(self.stage, WorkerStage::Uploading),
            WorkerInput::CommandAccepted => match self.stage {
                WorkerStage::Arming => true,
                WorkerStage::SettingMode => true,
                WorkerStage::StartingMission => true,
                _ => false,
            },
            WorkerInput::Decided(_) => matches!(self.stage, WorkerStage::AwaitingDecision),
            WorkerInput::DecisionLost { .. } => matches!(self.stage, WorkerStage::AwaitingDecision),
            WorkerInput::MissionDone => matches!(self.stage, WorkerStage::Monitoring),
            WorkerInput::StepFailed(_) => match self.stage {
                WorkerStage::Ended => false,
                WorkerStage::AwaitingDecision => false,
                _ => true,
            },
        }
    }

    /// Ends the worker.
    fn push_ending(&mut self, out: &mut Vec<WorkerAction>, result: AnyResult<()>)
        ensures
            final(self)@ == old(self)@.at(WorkerStage::Ended),
            worker_views(final(out)@) == worker_views(old(out)@) + old(self)@.ending(
                crate::mavlink_client::result_view(result),
            ),
    {
        let ghost before = worker_views(out@);
        let ghost ending = self@.ending(crate::mavlink_client::result_view(result));
        let heartbeat: bool = match self.stage {
            WorkerStage::Connecting => false,
            WorkerStage::Discovering => false,
            WorkerStage::Ended => false,
            _ => true,
        };
        if heartbeat {
            out.push(WorkerAction::StopHeartbeat);
            out.push(
                WorkerAction::Print(
                    "TERMINATED -- ".to_string().concat(self.cfg.name.as_str()),
                ),
            );
        }
        out.push(WorkerAction::Finish(result));
        self.stage = WorkerStage::Ended;
        assert(worker_views(out@) =~= before + ending);
    }

    /// Ends the worker when all went well.
    fn push_success(&mut self, out: &mut Vec<WorkerAction>)
        ensures
            final(self)@ == old(self)@.at(WorkerStage::Ended),
            worker_views(final(out)@) == worker_views(old(out)@) + old(self)@.success(),
    {
        let ghost before = worker_views(out@);
        let ghost success = self@.success();
        out.push(
            WorkerAction::Print("TERMINATING -- ".to_string().concat(self.cfg.name.as_str())),
        );
        self.push_ending(out, Ok(()));
        assert(worker_views(out@) =~= before + success);
    }

    /// Votes, and waits for a decision.
    fn push_ready(&mut self, out: &mut Vec<WorkerAction>)
        ensures
            final(self)@ == old(self)@.at(WorkerStage::AwaitingDecision),
            worker_views(final(out)@) == worker_views(old(out)@) + old(self)@.ready(),
    {
        let ghost before = worker_views(out@);
        let ghost ready = self@.ready();
        out.push(
            self.emit(
                VehicleEventKind::ReadinessVote {
                    mission_hash: self.spec_hash.clone(),
                    item_count: self.item_count,
                },
            ),
        );
        out.push(
            self.emit(VehicleEventKind::WaitingForStart { mission_hash: self.spec_hash.clone() }),
        );
        out.push(WorkerAction::AwaitDecision);
        self.stage = WorkerStage::AwaitingDecision;
        assert(worker_views(out@) =~= before + ready);
    }

    /// Tells the worker how its last step went, and says what to do next.
    pub fn advance(&mut self, input: WorkerInput) -> (r: Vec<WorkerAction>)
        requires
            old(self)@.accepts(input),
        ensures
            final(self)@ == old(self)@.after(input),
            worker_views(r@) == old(self)@.actions(input),
    {
        let mut out: Vec<WorkerAction> = Vec::new();
        let ghost before = self@;
        let ghost given = input;
        match input {
            WorkerInput::Connected => {
                self.stage = WorkerStage::Discovering;
                out.push(WorkerAction::AwaitVehicle);
            },
            WorkerInput::VehicleFound { system_id, component_id } => {
                self.found(&mut out, system_id, component_id);
            },
            WorkerInput::Located { lat_1e7, lon_1e7, positions, encoded } => {
                self.located(&mut out, lat_1e7, lon_1e7, &positions, encoded);
            },
            WorkerInput::Uploaded => {
                out.push(self.emit(VehicleEventKind::MissionUploaded));
                out.push(self.print("mission uploaded"));
                if self.cfg.arm.is_none() || self.cfg.arm.unwrap() {
                    self.stage = WorkerStage::Arming;
                    out.push(
                        WorkerAction::SendCommand(arm_vehicle(self.system_id, self.component_id)),
                    );
                } else {
                    self.push_ready(&mut out);
                }
            },
            WorkerInput::CommandAccepted => match self.stage {
                WorkerStage::Arming => {
                    out.push(self.emit(VehicleEventKind::Armed));
                    out.push(self.print("armed"));
                    self.push_ready(&mut out);
                },
                WorkerStage::SettingMode => {
                    self.stage = WorkerStage::StartingMission;
                    out.push(
                        WorkerAction::SendCommand(
                            start_mission(
                                self.system_id,
                                self.component_id,
                                mission_count(self.item_count),
                            ),
                        ),
                    );
                },
                _ => {
                    out.push(self.emit(VehicleEventKind::MissionStarted));
                    out.push(self.print("mission started"));
                    out.push(self.emit(VehicleEventKind::MissionMonitorStarted));
                    let final_seq: Option<u16> = if self.item_count == 0 {
                        None
                    } else {
                        Some(mission_count(self.item_count - 1))
                    };
                    out.push(WorkerAction::Monitor { final_seq });
                    self.stage = WorkerStage::Monitoring;
                },
            },
            WorkerInput::Decided(signal) => match signal {
                StartSignal::Start => {
                    out.push(self.emit(VehicleEventKind::StartApproved));
                    if self.cfg.auto_start.is_none() || self.cfg.auto_start.unwrap() {
                        self.stage = WorkerStage::SettingMode;
                        out.push(
                            WorkerAction::SendCommand(
                                set_px4_mission_mode(self.system_id, self.component_id),
                            ),
                        );
                    } else {
                        out.push(self.print("auto_start=false; mission prepared but not started"));
                        self.push_success(&mut out);
                    }
                },
                StartSignal::Abort { reason } => {
                    out.push(
                        self.emit(VehicleEventKind::StartAborted { reason: reason.clone() }),
                    );
                    self.push_ending(
                        &mut out,
                        Err(
                            other_err(
                                "mission start aborted by supervisor: ".to_string().concat(
                                    reason.as_str(),
                                ),
                            ),
                        ),
                    );
                },
            },
            WorkerInput::DecisionLost { detail } => {
                self.push_ending(
                    &mut out,
                    Err(
                        other_err(
                            "mission start channel closed before supervisor decision: ".to_string()
                                .concat(detail.as_str()),
                        ),
                    ),
                );
            },
            WorkerInput::MissionDone => {
                self.push_success(&mut out);
            },
            WorkerInput::StepFailed(error) => {
                self.push_ending(&mut out, Err(error));
            },
        }
        assert(worker_views(out@) =~= before.actions(given));
        out
    }

    /// Takes in the vehicle that was found.
    fn found(&mut self, out: &mut Vec<WorkerAction>, system_id: u8, component_id: u8)
        ensures
            final(self)@ == old(self)@.after(
                WorkerInput::VehicleFound { system_id, component_id },
            ),
            worker_views(final(out)@) == worker_views(old(out)@) + old(self)@.actions(
                WorkerInput::VehicleFound { system_id, component_id },
            ),
    {
        let ghost before = worker_views(out@);
        let ghost actions = self@.actions(WorkerInput::VehicleFound { system_id, component_id });
        out.push(self.emit(VehicleEventKind::Discovered { system_id, component_id }));
        out.push(
            self.print(
                "discovered target sys=".to_string().concat(
                    decimal_text(system_id as u64).as_str(),
                ).concat(", comp=").concat(decimal_text(component_id as u64).as_str()).as_str(),
            ),
        );
        self.system_id = system_id;
        self.component_id = component_id;
        if let Some(expected) = self.cfg.expected_system_id {
            if expected != system_id {
                let message: String = "[".to_string().concat(self.cfg.name.as_str()).concat(
                    "] expected system_id ",
                ).concat(decimal_text(expected as u64).as_str()).concat(", got ").concat(
                    decimal_text(system_id as u64).as_str(),
                );
                self.push_ending(out, Err(other_err(message)));
                assert(worker_views(out@) =~= before + actions);
                return;
            }
        }
        out.push(WorkerAction::StartHeartbeat);
        out.push(WorkerAction::AwaitPosition);
        self.stage = WorkerStage::Locating;
        assert(worker_views(out@) =~= before + actions);
    }

    /// Takes in the vehicle's position, and builds the mission.
    fn located(
        &mut self,
        out: &mut Vec<WorkerAction>,
        lat_1e7: i32,
        lon_1e7: i32,
        positions: &Vec<(i32, i32)>,
        encoded: AnyResult<Vec<u8>>,
    )
        requires
            old(self)@.stage is Locating,
            positions@.len() == old(self)@.config.mission.len(),
        ensures
            final(self)@ == old(self)@.after(
                WorkerInput::Located { lat_1e7, lon_1e7, positions: *positions, encoded },
            ),
            worker_views(final(out)@) == worker_views(old(out)@) + old(self)@.actions(
                WorkerInput::Located { lat_1e7, lon_1e7, positions: *positions, encoded },
            ),
    {
        let ghost before = worker_views(out@);
        let ghost was = self@;
        let ghost actions = self@.actions(
            WorkerInput::Located { lat_1e7, lon_1e7, positions: *positions, encoded },
        );
        out.push(self.emit(VehicleEventKind::StartPosition { lat_1e7, lon_1e7 }));
        out.push(
            self.print(
                "start position lat=".to_string().concat(fixed_1e7_text(lat_1e7).as_str()).concat(
                    ", lon=",
                ).concat(fixed_1e7_text(lon_1e7).as_str()).as_str(),
            ),
        );
        let built: AnyResult<Vec<MissionItem>> = build_relative_mission_items(
            self.system_id,
            self.component_id,
            lat_1e7,
            lon_1e7,
            positions,
            &self.cfg.mission,
        );
        match built {
            Ok(items) => match encoded {
                Ok(bytes) => {
                    assert(mission::item_views(items@) == was.items(
                        (lat_1e7, lon_1e7),
                        positions@,
                    ));
                    assert(items@.len() == mission::item_views(items@).len());
                    let spec_hash: String = hash_mission_specs(&bytes);
                    let upload_hash: String = hash_mission_items(&items);
                    self.item_count = items.len();
                    self.spec_hash = spec_hash.clone();
                    self.stage = WorkerStage::Uploading;
                    out.push(
                        self.emit(
                            VehicleEventKind::MissionBuilt {
                                item_count: items.len(),
                                spec_hash,
                                upload_hash,
                            },
                        ),
                    );
                    out.push(
                        WorkerAction::Upload {
                            system_id: self.system_id,
                            component_id: self.component_id,
                            items,
                        },
                    );
                },
                Err(error) => {
                    self.push_ending(out, Err(error));
                },
            },
            Err(error) => {
                self.push_ending(out, Err(error));
            },
        }
        assert(worker_views(out@) =~= before + actions);
    }
}

impl WorkerView {
    /// The state after all of `inputs`.
    pub open spec fn run(self, inputs: Seq<WorkerInput>) -> WorkerView
        decreases inputs.len(),
    {
        if inputs.len() == 0 {
            self
        } else {
            self.run(inputs.drop_last()).after(inputs.last())
        }
    }

    /// Whether each of `inputs` answers the step before it.
    pub open spec fn accepts_all(self, inputs: Seq<WorkerInput>) -> bool
        decreases inputs.len(),
    {
        inputs.len() == 0 || {
            &&& self.accepts_all(inputs.drop_last())
            &&& self.run(inputs.drop_last()).accepts(inputs.last())
        }
    }
}

/// Whether the supervisor's approval is among `inputs`.
pub open spec fn approved(inputs: Seq<WorkerInput>) -> bool {
    exists|i: int| 0 <= i < inputs.len() && #[trigger] inputs[i] == WorkerInput::Decided(
        StartSignal::Start,
    )
}

/// Whether an action makes the vehicle fly: it switches to the mission mode, or starts
/// the mission.
pub open spec fn flies(action: WorkerActionView) -> bool {
    action matches WorkerActionView::SendCommand(command) && (command.command is DoSetMode
        || command.command is MissionStart)
}

/// A worker that has just been created.
pub open spec fn fresh(worker: WorkerView) -> bool {
    worker.stage is Connecting
}

/// Further answers do not take an approval back.
pub proof fn lemma_approved_extends(inputs: Seq<WorkerInput>)
    requires
        inputs.len() > 0,
        approved(inputs.drop_last()),
    ensures
        approved(inputs),
{
    let i = choose|i: int|
        0 <= i < inputs.drop_last().len() && #[trigger] inputs.drop_last()[i]
            == WorkerInput::Decided(StartSignal::Start);
    assert(inputs[i] == WorkerInput::Decided(StartSignal::Start));
}

/// A worker is at a stage behind the approval only if it was approved.
pub proof fn lemma_approved_stage(worker: WorkerView, inputs: Seq<WorkerInput>)
    requires
        fresh(worker),
        worker.accepts_all(inputs),
        worker.run(inputs).stage.is_approved(),
    ensures
        approved(inputs),
    decreases inputs.len(),
{
    if inputs.len() > 0 {
        let earlier = inputs.drop_last();
        if worker.run(earlier).stage.is_approved() {
            lemma_approved_stage(worker, earlier);
            lemma_approved_extends(inputs);
        } else {
            assert(inputs.last() == WorkerInput::Decided(StartSignal::Start));
            assert(inputs[inputs.len() - 1] == inputs.last());
        }
    }
}

/// Only the approval, and what follows it, makes the vehicle fly.
proof fn lemma_flight_action(at: WorkerView, input: WorkerInput, i: int)
    requires
        at.accepts(input),
        0 <= i < at.actions(input).len(),
        flies(at.actions(input)[i]),
    ensures
        at.stage.is_approved() || input == WorkerInput::Decided(StartSignal::Start),
{
    match input {
        WorkerInput::Uploaded => {},
        WorkerInput::CommandAccepted => {},
        WorkerInput::VehicleFound { system_id, component_id } => {},
        WorkerInput::Located { lat_1e7, lon_1e7, positions, encoded } => {},
        WorkerInput::Decided(signal) => {},
        _ => {},
    }
}

/// No vehicle flies without the supervisor's approval: whatever a worker has been told,
/// it switches to the mission mode or starts the mission only if a decision to start was
/// among it.
pub proof fn law_no_flight_without_approval(
    worker: WorkerView,
    inputs: Seq<WorkerInput>,
    i: int,
)
    requires
        fresh(worker),
        inputs.len() > 0,
        worker.accepts_all(inputs),
        0 <= i < worker.run(inputs.drop_last()).actions(inputs.last()).len(),
        flies(worker.run(inputs.drop_last()).actions(inputs.last())[i]),
    ensures
        approved(inputs),
{
    let at = worker.run(inputs.drop_last());
    lemma_flight_action(at, inputs.last(), i);
    if at.stage.is_approved() {
        lemma_approved_stage(worker, inputs.drop_last());
        lemma_approved_extends(inputs);
    } else {
        assert(inputs[inputs.len() - 1] == inputs.last());
    }
}

/// Whether the vehicle's acceptance of its mission is among `inputs`.
pub open spec fn uploaded(inputs: Seq<WorkerInput>) -> bool {
    exists|i: int| 0 <= i < inputs.len() && #[trigger] inputs[i] is Uploaded
}

/// Whether the encoding of a mission with the hash `hash` is among `inputs`.
pub open spec fn built(inputs: Seq<WorkerInput>, hash: Seq<char>) -> bool {
    exists|i: int| 0 <= i < inputs.len() && has_hash(#[trigger] inputs[i], hash)
}

/// Whether an input brings the encoding of a mission with the hash `hash`.
pub open spec fn has_hash(input: WorkerInput, hash: Seq<char>) -> bool {
    match input {
        WorkerInput::Located { lat_1e7, lon_1e7, positions, encoded } => match encoded {
            Ok(bytes) => hash == mission::digest_text(mission::sha256(bytes@)),
            Err(error) => false,
        },
        _ => false,
    }
}

/// Whether the mission has been built, so that its hash and size are known.
spec fn past_building(stage: WorkerStage) -> bool {
    !(stage is Connecting || stage is Discovering || stage is Locating || stage is Ended)
}

proof fn lemma_run_facts(worker: WorkerView, inputs: Seq<WorkerInput>)
    requires
        fresh(worker),
        worker.accepts_all(inputs),
    ensures
        worker.run(inputs).config == worker.config,
        worker.run(inputs).phase == worker.phase,
        past_building(worker.run(inputs).stage) ==> {
            &&& built(inputs, worker.run(inputs).spec_hash)
            &&& worker.run(inputs).item_count == worker.config.mission.len() as usize
        },
        past_building(worker.run(inputs).stage) && !(worker.run(inputs).stage is Uploading)
            ==> uploaded(inputs),
        worker.run(inputs).stage is Arming ==> worker.config.arms(),
    decreases inputs.len(),
{
    if inputs.len() > 0 {
        let earlier = inputs.drop_last();
        let at = worker.run(earlier);
        lemma_run_facts(worker, earlier);
        assert(inputs[inputs.len() - 1] == inputs.last());
        if past_building(at.stage) {
            let i = choose|i: int|
                0 <= i < earlier.len() && has_hash(#[trigger] earlier[i], at.spec_hash);
            assert(has_hash(inputs[i], at.spec_hash));
            if !(at.stage is Uploading) {
                let k = choose|k: int| 0 <= k < earlier.len() && #[trigger] earlier[k] is Uploaded;
                assert(inputs[k] is Uploaded);
            }
        }
        if past_building(worker.run(inputs).stage) && at.stage is Locating {
            assert(has_hash(inputs.last(), worker.run(inputs).spec_hash));
        }
    }
}

/// Only what makes a vehicle ready brings a vote, which is the one for its mission.
proof fn lemma_vote_action(at: WorkerView, input: WorkerInput, i: int)
    requires
        at.accepts(input),
        0 <= i < at.actions(input).len(),
        at.actions(input)[i] matches WorkerActionView::Emit(event) && event.kind is ReadinessVote,
    ensures
        input is Uploaded && at.stage is Uploading && !at.config.arms() || input is CommandAccepted
            && at.stage is Arming,
        at.actions(input)[i] == at.ready()[0],
        at.after(input).spec_hash == at.spec_hash,
{
    match input {
        WorkerInput::Uploaded => {},
        WorkerInput::CommandAccepted => {},
        WorkerInput::VehicleFound { system_id, component_id } => {},
        WorkerInput::Located { lat_1e7, lon_1e7, positions, encoded } => {},
        WorkerInput::Decided(signal) => {},
        _ => {},
    }
}

/// A vehicle votes only when it is ready: once it has accepted its mission, and, where
/// arming is configured, once it has acknowledged that. The vote names the vehicle, the
/// phase, the hash of the mission's encoding, and the size of the mission.
pub proof fn law_vote_means_ready(worker: WorkerView, inputs: Seq<WorkerInput>, i: int)
    requires
        fresh(worker),
        inputs.len() > 0,
        worker.accepts_all(inputs),
        0 <= i < worker.run(inputs.drop_last()).actions(inputs.last()).len(),
        worker.run(inputs.drop_last()).actions(inputs.last())[i] matches WorkerActionView::Emit(
            event,
        ) && event.kind is ReadinessVote,
    ensures
        uploaded(inputs),
        worker.config.arms() ==> worker.run(inputs.drop_last()).stage is Arming && inputs.last()
            is CommandAccepted,
        ({
            let event = worker.run(inputs.drop_last()).actions(inputs.last())[i]->Emit_0;
            &&& event.vehicle == worker.config.name
            &&& event.phase == worker.phase
            &&& built(inputs, event.kind->ReadinessVote_mission_hash)
            &&& event.kind->ReadinessVote_item_count == worker.config.mission.len() as usize
        }),
{
    let earlier = inputs.drop_last();
    let at = worker.run(earlier);
    assert(worker.run(inputs) == at.after(inputs.last()));
    lemma_vote_action(at, inputs.last(), i);
    lemma_run_facts(worker, earlier);
    lemma_run_facts(worker, inputs);
}

/// A worker ends with exactly one result, as its last action, and then takes no more
/// input. Where heartbeats were being sent, they are stopped first.
pub proof fn law_worker_ends_once(worker: WorkerView, input: WorkerInput, i: int)
    requires
        worker.accepts(input),
        0 <= i < worker.actions(input).len(),
    ensures
        worker.actions(input)[i] is Finish <==> worker.after(input).stage is Ended && i
            == worker.actions(input).len() - 1,
        worker.after(input).stage is Ended && worker.stage.has_heartbeat() ==> {
            &&& worker.actions(input).len() >= 3
            &&& worker.actions(input)[worker.actions(input).len() - 3] is StopHeartbeat
        },
        worker.actions(input)[i] is StartHeartbeat ==> !worker.stage.has_heartbeat()
            && worker.after(input).stage.has_heartbeat(),
        worker.stage.has_heartbeat() ==> worker.after(input).stage.has_heartbeat()
            || worker.after(input).stage is Ended,
        !(worker.stage is Ended),
{
}

} // verus!
