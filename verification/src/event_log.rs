//! Records of what happened during a mission, in order.
use vstd::prelude::*;

verus! {

/// One event: its number, who reported it, and what it was.
#[derive(Debug, Clone, PartialEq, Eq)]
pub struct EventRecord {
    pub seq: u64,
    pub source: String,
    pub event: String,
}

} // verus!
