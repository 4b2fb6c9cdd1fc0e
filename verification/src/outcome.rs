//! The typed, per-fixture result of a run: a successful [`Outcome`] and the
//! details each kind of outcome carries.
use vstd::prelude::*;

verus! {

/// A successful single-case outcome.
#[derive(Debug)]
pub enum Outcome {
    /// The case passed: a `compile_fail` matched its snapshot, or a pass-test
    /// compiled and ran cleanly. Carries the run output a pass-test produced.
    Passed(Box<PassDetail>),
    /// No snapshot existed; a new one was written under `wip`.
    CreatedWip(Box<WipDetail>),
    /// The snapshot was written in place.
    Overwrote(Box<OverwriteDetail>),
}

/// The captured run output of a passing case (empty for a matched
/// `compile_fail`, which is not executed).
#[derive(Debug)]
pub struct PassDetail {
    /// Cargo's captured stdout from running a pass-test.
    pub stdout: String,
    /// Cargo's captured stderr from running a pass-test.
    pub stderr: String,
    /// The preferred rendering of any build warnings.
    pub warnings: String,
}

/// The paths and contents of a newly created `wip` snapshot.
#[derive(Debug)]
pub struct WipDetail {
    /// The `wip/<name>.stderr` path the new snapshot was written to.
    pub wip_path: String,
    /// The intended final `.stderr` path the snapshot should be moved to.
    pub stderr_path: String,
    /// The snapshot contents that were written.
    pub stderr: String,
}

/// The path and contents of a snapshot overwritten in place.
#[derive(Debug)]
pub struct OverwriteDetail {
    /// The `.stderr` path that was overwritten in place.
    pub stderr_path: String,
    /// The snapshot contents that were written.
    pub stderr: String,
}

} // verus!
