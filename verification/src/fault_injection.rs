//! The faults that a link can be made to show.
use vstd::prelude::*;

verus! {

/// A kind of link fault.
#[derive(Debug, Clone, Copy, PartialEq, Eq)]
pub enum FaultMode {
    NoFault,
    DropLink,
    DelayAcks,
    StaleTelemetry,
}

} // verus!
