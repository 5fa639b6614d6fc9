use vstd::prelude::*;

verus! {

/// Failure categories reported by the rewriting core.
///
/// Structural anomalies in the input markup (stray end tags, unterminated
/// comments) are not errors: the state machines recover from them locally.
/// Only the categories below surface to callers.
#[derive(Clone, Copy, PartialEq, Eq, Structural, Debug)]
pub enum ErrorKind {
    /// A byte sequence was invalid for the declared encoding.
    MalformedInput,
    /// A state machine requested a mode switch with no valid next state.
    UnexpectedModeSwitch,
    /// A consuming collaborator declined to proceed.
    HandlerRejected,
    /// A boundary-layer caller used a stale handle or mutated a chunk that
    /// was already finalized.
    BoundaryMisuse,
}

/// Success status for the boundary layer: the call took effect.
pub const STATUS_OK: i32 = 0;
/// Boundary status for content invalid in the declared encoding.
pub const STATUS_MALFORMED_INPUT: i32 = -1;
/// Boundary status for an internal invariant violation during a mode switch.
pub const STATUS_UNEXPECTED_MODE_SWITCH: i32 = -2;
/// Boundary status for a collaborator that declined to proceed.
pub const STATUS_HANDLER_REJECTED: i32 = -3;
/// Boundary status for a mutating call on a finalized chunk or stale handle.
pub const STATUS_BOUNDARY_MISUSE: i32 = -4;

/// The status code that stands for an error kind at the boundary layer.
pub open spec fn status_of(e: ErrorKind) -> i32 {
    match e {
        ErrorKind::MalformedInput => STATUS_MALFORMED_INPUT,
        ErrorKind::UnexpectedModeSwitch => STATUS_UNEXPECTED_MODE_SWITCH,
        ErrorKind::HandlerRejected => STATUS_HANDLER_REJECTED,
        ErrorKind::BoundaryMisuse => STATUS_BOUNDARY_MISUSE,
    }
}

/// Maps an error kind to its (negative) boundary status code.
pub fn error_status(e: ErrorKind) -> (r: i32)
    ensures
        r == status_of(e),
        r < 0,
{
    match e {
        ErrorKind::MalformedInput => STATUS_MALFORMED_INPUT,
        ErrorKind::UnexpectedModeSwitch => STATUS_UNEXPECTED_MODE_SWITCH,
        ErrorKind::HandlerRejected => STATUS_HANDLER_REJECTED,
        ErrorKind::BoundaryMisuse => STATUS_BOUNDARY_MISUSE,
    }
}

} // verus!
