//! What can go wrong while hooks are decoded and runs are sequenced.

use vstd::prelude::*;

verus! {

/// A fault of the harness itself, as opposed to a failing test.
#[derive(Clone, Copy, Debug, PartialEq, Eq, Structural)]
pub enum TracerError {
    /// A message parameter of a hook is not UTF-8.
    InvalidDebugMessage,
    /// A second test count was reported in one run.
    TestCountAlreadySet,
}

/// Why a batch of tests cannot go on.
#[derive(Clone, Copy, Debug, PartialEq, Eq, Structural)]
pub enum OrchestratorError {
    /// The discovery run ended without a test count.
    TestCountMissing,
    /// A discovery was reported to a batch that knows its test count.
    AlreadyDiscovered,
    /// A result was reported while no test was due to run.
    NoTestDue,
}

} // verus!
