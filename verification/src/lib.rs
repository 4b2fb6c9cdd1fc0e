//! A test harness for invoking rustc on a set of test cases and asserting that
//! any resulting error messages are the ones intended.
use vstd::prelude::*;

pub mod cargo;
pub mod cases;
pub mod chars;
pub mod directory;
pub mod errors;
pub mod laws;
pub mod lockfile;
pub mod expand;
pub mod fingerprint;
pub mod foreign;
pub mod manifest;
pub mod messages;
pub mod model;
pub mod normalize;
pub mod outcome;
pub mod report;
pub mod rules;
pub mod runner;
pub mod snapshot_laws;
pub mod text;
pub mod update;

pub use cases::TestCases;
pub use errors::{
    BuildError, BuildOutput, CompileFailure, DiagnosticsError, MetadataFailure, MismatchDetail, RunOutput,
    RunnerError, UnexpectedSuccess,
};
pub use model::Expected;
pub use outcome::{Outcome, OverwriteDetail, PassDetail, WipDetail};
pub use update::Update;

verus! {

} // verus!
