//! The error kinds the core reports.  Construction-time errors are fatal to
//! the graph being built; `CombinationalDivergence` is fatal to the running
//! simulation; `CrossValidationMismatch` reports a disagreement with the
//! external reference simulator's trace.

use vstd::prelude::*;

verus! {

/// Every failure the core can surface, each carrying enough context to
/// reproduce it without re-running.
#[derive(Debug)]
pub enum HdlError {
    /// A value, width, or expression does not fit the declared width rules.
    WidthMismatch { signal: usize },
    /// Two drivers (rules or registers) assign the same signal.
    MultipleDrivers { signal: usize },
    /// Combinational evaluation did not reach a fixpoint within the bound.
    CombinationalDivergence { tick: u64 },
    /// A state value with no transition arm in a supposedly total table.
    UnhandledState { state: i64 },
    /// The simulator's trace and the reference tool's trace differ.
    CrossValidationMismatch { name: String, time: u64, expected: i64, actual: i64 },
}

} // verus!
