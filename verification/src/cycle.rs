//! The record of one cognitive cycle and the status of a cycle in progress
//! (ids are UUID values, times are milliseconds since the Unix epoch).

use vstd::prelude::*;

use crate::ids::now_millis;
use crate::types::{CognitivePhase, OperatingMode};

verus! {

/// Result of a single cognitive cycle.
#[derive(Debug, Clone)]
pub struct CycleResult {
    pub cycle_id: u128,
    pub phases_completed: Vec<CognitivePhase>,
    pub duration_secs: u64,
    pub modules_published: usize,
    pub modules_rejected: usize,
    pub gaps_detected: usize,
    pub completed_at_ms: i64,
}

/// Metrics of a completed cycle, kept in the rolling history the self-model
/// reads (forge efficiency in thousandths).
#[derive(Debug, Clone)]
pub struct CycleMetrics {
    pub cycle_id: u128,
    pub duration_secs: u64,
    pub gaps_detected: usize,
    pub modules_published: usize,
    pub modules_rejected: usize,
    pub forge_efficiency_thousandths: u32,
    pub operating_mode: OperatingMode,
    pub completed_at_ms: i64,
}

/// Status of an in-progress cycle.
#[derive(Debug, Clone)]
pub struct CycleStatus {
    pub cycle_id: u128,
    pub current_phase: CognitivePhase,
    pub started_at_ms: i64,
    pub elapsed_secs: u64,
}

impl CycleResult {
    /// A result for the cycle with nothing counted yet, completed now.
    pub fn new(cycle_id: u128, duration_secs: u64) -> (r: Self)
        ensures
            r.cycle_id == cycle_id,
            r.duration_secs == duration_secs,
            r.phases_completed@.len() == 0,
            r.modules_published == 0,
            r.modules_rejected == 0,
            r.gaps_detected == 0,
    {
        CycleResult {
            cycle_id,
            phases_completed: Vec::new(),
            duration_secs,
            modules_published: 0,
            modules_rejected: 0,
            gaps_detected: 0,
            completed_at_ms: now_millis(),
        }
    }
}

} // verus!
