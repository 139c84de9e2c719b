//! Error taxonomy for session-local argument validation.
//!
//! These errors are produced before any foreign call is made: an argument
//! list that is empty (or too long to present as an `argc` count) is a
//! configuration error, and a token that cannot be represented in a
//! null-terminated byte encoding is an encoding error. Engine-side faults are
//! never reported through this type; they are classified run outcomes.

use vstd::prelude::*;

verus! {

/// A locally detected, locally recoverable rejection of a session input.
#[derive(Clone, Copy, Debug, PartialEq, Eq, Structural)]
pub enum SessionError {
    /// The argument list itself is unusable: empty, or with more tokens than
    /// an `argc` count can carry.
    Configuration,
    /// Some argument token holds an embedded terminator byte and so has no
    /// null-terminated representation.
    Encoding,
}

} // verus!
