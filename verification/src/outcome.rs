//! Classification of raw engine result codes into run outcomes.
//!
//! The engine reports the end of one instrumented execution as a small
//! numeric code. The session maps that code onto a closed outcome taxonomy:
//! a clean exit, a caught fault, a timeout, or an engine-detected anomaly.
//! A code outside the taxonomy is a contract violation by the engine and is
//! surfaced as `None`, never silently defaulted.

use vstd::prelude::*;

verus! {

/// Raw engine code for a clean exit of the target process.
pub const RUN_CODE_NORMAL: u32 = 0;

/// Raw engine code for a fault caught by the engine's trap handling.
pub const RUN_CODE_CRASH: u32 = 1;

/// Raw engine code for a run that did not complete within the timeout.
pub const RUN_CODE_HANG: u32 = 2;

/// Raw engine code for an engine-detected anomaly that is none of the above.
pub const RUN_CODE_OTHER_ERROR: u32 = 3;

/// Outcome of one instrumented run of the target process.
///
/// All four variants are successful returns of a run, not failures of the
/// session: the session's job is classification, not judgment.
#[derive(Clone, Copy, Debug, PartialEq, Eq, Structural)]
pub enum RunOutcome {
    /// The target process exited cleanly.
    Normal,
    /// The target process raised a fault the engine's trap handling caught.
    Crash,
    /// The run did not complete within the configured timeout.
    Hang,
    /// An engine-detected anomaly that is neither a fault nor a timeout.
    OtherError,
}

/// Maps a raw engine result code onto the outcome taxonomy.
///
/// Returns `None` exactly on codes outside the closed enumeration, which a
/// caller must treat as a contract violation by the engine.
pub fn classify_run_code(code: u32) -> (outcome: Option<RunOutcome>)
    ensures
        outcome == Some(RunOutcome::Normal) <==> code == RUN_CODE_NORMAL,
        outcome == Some(RunOutcome::Crash) <==> code == RUN_CODE_CRASH,
        outcome == Some(RunOutcome::Hang) <==> code == RUN_CODE_HANG,
        outcome == Some(RunOutcome::OtherError) <==> code == RUN_CODE_OTHER_ERROR,
        outcome is None <==> code > RUN_CODE_OTHER_ERROR,
{
    if code == RUN_CODE_NORMAL {
        Some(RunOutcome::Normal)
    } else if code == RUN_CODE_CRASH {
        Some(RunOutcome::Crash)
    } else if code == RUN_CODE_HANG {
        Some(RunOutcome::Hang)
    } else if code == RUN_CODE_OTHER_ERROR {
        Some(RunOutcome::OtherError)
    } else {
        None
    }
}

} // verus!
