//! Failures of operations that the program performs for the library.

use crate::control::text::joined;
use vstd::prelude::*;

verus! {

/// The kinds of failure that the control logic tells apart.
#[derive(Clone, Copy, Debug, PartialEq, Eq, Structural)]
pub enum FaultKind {
    NotFound,
    PermissionDenied,
    Other,
}

/// A failed operation: its kind and its description.
#[derive(Debug, PartialEq, Eq)]
pub struct IoFault {
    pub kind: FaultKind,
    pub message: String,
}

/// What a fault says, as mathematical values.
#[verifier::ext_equal]
pub struct FaultView {
    pub kind: FaultKind,
    pub message: Seq<char>,
}

impl View for IoFault {
    type V = FaultView;

    open spec fn view(&self) -> FaultView {
        FaultView { kind: self.kind, message: self.message@ }
    }
}

/// The fault of kind `Other` with this description.
pub open spec fn other_fault(message: Seq<char>) -> FaultView {
    FaultView { kind: FaultKind::Other, message }
}

/// A result without a value, with its fault taken by its view.
pub open spec fn outcome_view(outcome: Result<(), IoFault>) -> Result<(), FaultView> {
    match outcome {
        Ok(_) => Ok(()),
        Err(fault) => Err(fault@),
    }
}

impl IoFault {
    pub fn new(kind: FaultKind, message: &str) -> (fault: IoFault)
        ensures
            fault@ == (FaultView { kind, message: message@ }),
    {
        IoFault { kind, message: String::from_str(message) }
    }

    pub fn other(message: &str) -> (fault: IoFault)
        ensures
            fault@ == other_fault(message@),
    {
        IoFault { kind: FaultKind::Other, message: String::from_str(message) }
    }
}

/// The fault of two attempts that both failed: `first` and `second` describe the
/// attempts.
pub open spec fn double_fault(
    first: Seq<char>,
    first_fault: FaultView,
    second: Seq<char>,
    second_fault: FaultView,
) -> FaultView {
    other_fault(first + first_fault.message + second + second_fault.message)
}

/// Builds the fault of two attempts that both failed.
pub fn join_faults(
    first: &str,
    first_fault: &IoFault,
    second: &str,
    second_fault: &IoFault,
) -> (fault: IoFault)
    ensures
        fault@ == double_fault(first@, first_fault@, second@, second_fault@),
{
    let head = joined(first, first_fault.message.as_str());
    let tail = joined(second, second_fault.message.as_str());
    let message = joined(head.as_str(), tail.as_str());
    assert(message@ =~= first@ + first_fault@.message + second@ + second_fault@.message);
    IoFault { kind: FaultKind::Other, message }
}

} // verus!
