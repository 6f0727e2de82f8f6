//! Values that the parts of the control loop hand to one another.
//!
//! `V` is the type of a CPU quantity. The library carries such values and never looks
//! inside them.

use crate::control::span::Span;
use vstd::prelude::*;

verus! {

/// A process as the system identifies it. The start time tells a process from a later
/// one that was given the same pid.
#[derive(Clone, Copy, Debug, PartialEq, Eq, Structural)]
pub struct ProcessIdentity {
    pub pid: i32,
    pub pgid: i32,
    pub start_tvsec: u64,
    pub start_tvusec: u64,
}

/// The process group under control and the process it was found by.
#[derive(Clone, Copy, Debug, PartialEq, Eq, Structural)]
pub struct TargetGroup {
    pub root: ProcessIdentity,
    pub pgid: i32,
}

/// The group that a running session controls, and the group it has stopped, if any.
#[derive(Clone, Copy, Debug, PartialEq, Eq, Structural)]
pub struct ActiveTarget {
    pub pgid: i32,
    pub stopped_pgid: Option<i32>,
}

/// One measurement of a process group.
#[derive(Clone, Debug)]
pub struct RawObservation<V> {
    pub timestamp: Span,
    pub per_pid_cpu: Vec<(i32, V)>,
    pub process_count: usize,
}

/// What the estimator makes of the measurements so far.
#[derive(Clone, Debug)]
pub struct EstimatedState<V> {
    pub normalized_cpu: V,
    pub filtered_cpu: V,
    pub dt: Span,
    pub valid: bool,
    pub warmed_up: bool,
    pub timed_out: bool,
}

/// How long the group is to be stopped in the coming period.
#[derive(Clone, Copy, Debug, PartialEq, Eq, Structural)]
pub struct ControlDecision {
    pub stop_duration: Span,
}

/// A job-control signal for the target.
#[derive(Clone, Copy, Debug, PartialEq, Eq, Structural)]
pub enum JobSignal {
    Stop,
    Continue,
}

} // verus!
