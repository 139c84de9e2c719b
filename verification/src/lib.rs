//! Instrumentation-session library for coverage-guided execution of a target
//! process under a dynamic binary instrumentation engine.
//!
//! The library owns the host-side logic of a session: marshaling argv-style
//! text arguments into the contiguous null-terminated layout a foreign engine
//! entry point consumes, classifying raw engine result codes into run
//! outcomes, and the coverage de-duplication protocol that reports each code
//! location at most once across collections.

pub mod coverage;
pub mod errors;
pub mod marshal;
pub mod outcome;
pub mod session;
