//! Shared value types: registered test cases and the path dependencies whose
//! locations are normalized out of diagnostics.
use vstd::prelude::*;

use crate::directory::Directory;

verus! {

/// The expected compilation outcome of a registered test case.
#[derive(Copy, Clone, Debug, PartialEq, Eq, Structural)]
pub enum Expected {
    /// The file must compile and its binary must run without panicking.
    Pass,
    /// The file must fail to compile, matching its `.stderr` snapshot.
    CompileFail,
}

/// A single registered ui test: a source file and its expected outcome.
#[derive(Clone, Debug)]
pub struct Test {
    /// Path to the `.rs` test file, relative to the crate root.
    pub path: String,
    /// Whether the file is expected to compile or to fail compilation.
    pub expected: Expected,
}

/// Generated `[[bin]]` target name for a synthesized test (e.g. `trybuild007`).
#[derive(Clone, Debug)]
pub struct Name(pub String);

/// How a path dependency entered the set whose locations are normalized.
#[derive(Copy, Clone, Debug, PartialEq, Eq, Structural)]
pub enum PathDependencyClass {
    /// A `[dependencies]` path dependency of the crate under test.
    LegacyTopLevel,
    /// Any other path dependency (development or target-specific ones).
    Additional,
}

/// A path dependency of the crate under test, captured so its paths can be
/// normalized out of diagnostics.
#[derive(Clone, Debug)]
pub struct PathDependency {
    /// The dependency's crate name.
    pub name: String,
    /// The canonicalized path to the dependency on disk.
    pub normalized_path: Directory,
    /// How the dependency was found.
    pub class: PathDependencyClass,
}

} // verus!
