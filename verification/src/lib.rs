//! The decision logic of a drone swarm.
//!
//! A mission file names drones, their missions, and how many of them must be ready before
//! any of them flies. A supervisor has every vehicle prepared, gates the start on the
//! vehicles' readiness votes, and settles how the phase ended.
//!
//! Nothing here reads a clock, a file or a link. Every part that talks to the outside is a
//! state machine: it is told what happened, and says what to do next.
//!
//! - [`swarm_supervisor`] runs one mission phase, on [`consensus`] and [`config`];
//!   [`supervisor_laws`] states what holds of every phase.
//! - [`vehicle_actor`] takes the supervisor's commands for one vehicle, and
//!   [`vehicle_worker`] carries its mission from connecting to completion.
//! - [`mavlink_client`] says what received messages mean, [`mission`] builds and hashes
//!   mission items, [`hash_laws`] states what the hashes tell apart, and [`signing`] serves
//!   signed links.
//! - [`actor_laws`], [`consensus_laws`], [`link_laws`], [`mission_laws`], [`phase_laws`],
//!   [`text_laws`] and [`worker_laws`] say what all of these are for, in terms of what goes in
//!   and what comes out.
//! - [`reports`], [`text`] and [`names`] hold lines, numbers and collections of names.
//! - [`event_log`] and [`fault_injection`] are vocabulary for logs and link faults.
pub mod actor_laws;
pub mod config;
pub mod consensus;
pub mod consensus_laws;
pub mod event_log;
pub mod fault_injection;
pub mod hash_laws;
pub mod link_laws;
pub mod mavlink_client;
pub mod mission;
pub mod mission_laws;
pub mod names;
pub mod phase_laws;
pub mod reports;
pub mod signing;
pub mod supervisor_laws;
pub mod swarm_supervisor;
pub mod text;
pub mod text_laws;
pub mod vehicle_actor;
pub mod vehicle_worker;
pub mod worker_laws;
