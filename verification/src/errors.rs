//! The error types of the library's domains: comparing diagnostics against
//! snapshots, building the cases, and running them.
use vstd::prelude::*;

verus! {

/// Errors arising while comparing compiler output against a saved snapshot.
#[derive(Debug)]
pub enum DiagnosticsError {
    /// The compiler output did not match any saved variation of the snapshot;
    /// carries the expected and actual renderings.
    Mismatch(Box<MismatchDetail>),
    /// A `compile_fail` test compiled successfully; carries the build output.
    ShouldNotHaveCompiled(Box<UnexpectedSuccess>),
    /// No `.stderr` snapshot exists and the update mode is `Verify`, so none
    /// was written.
    SnapshotMissing {
        /// The `.stderr` snapshot path that was expected to exist.
        path: String,
    },
    /// Failed to read the expected `.stderr` file.
    ReadStderr(std::io::Error),
    /// Failed to write the `.stderr` (or `wip`) file.
    WriteStderr(std::io::Error),
}

/// The expected and actual diagnostic renderings of a snapshot mismatch.
#[derive(Debug)]
pub struct MismatchDetail {
    /// The committed `.stderr` snapshot contents.
    pub expected: String,
    /// The preferred (most-normalized) rendering of the actual diagnostics.
    pub actual: String,
}

/// The captured output of a `compile_fail` case that unexpectedly compiled.
#[derive(Debug)]
pub struct UnexpectedSuccess {
    /// Cargo's captured stdout from the unexpectedly-successful build.
    pub stdout: String,
    /// The preferred rendering of any warnings the build emitted.
    pub warnings: String,
}

/// Errors arising while invoking cargo or reading its output.
#[derive(Debug)]
pub enum BuildError {
    /// Failed to spawn or execute the `cargo` process.
    Cargo(std::io::Error),
    /// The one-time dependency build of the generated project failed.
    DependencyBuild(Box<BuildOutput>),
    /// A registered pass-test failed to compile.
    CompileFailed(Box<CompileFailure>),
    /// Failed to deserialize `cargo metadata` output.
    Metadata(Box<MetadataFailure>),
    /// Could not determine the name of the project directory.
    ProjectDir,
}

/// The captured output of a failed dependency build of the generated project.
#[derive(Debug)]
pub struct BuildOutput {
    /// Cargo's captured output from the failed dependency build.
    pub output: String,
}

/// The normalized compiler diagnostics from a pass-test that failed to compile.
#[derive(Debug)]
pub struct CompileFailure {
    /// The preferred (most-normalized) rendering of the compiler diagnostics.
    pub diagnostics: String,
}

/// The cause and captured cargo stderr of a `cargo metadata` parse failure.
#[derive(Debug)]
pub struct MetadataFailure {
    /// The deserialization error reported by `serde_json`.
    pub source: serde_json::Error,
    /// Cargo's captured stderr, retained so the parse failure is diagnosable.
    pub stderr: String,
}

/// Errors arising while orchestrating or executing the registered test cases.
#[derive(Debug)]
pub enum RunnerError {
    /// A pass-test compiled and ran but exited unsuccessfully; carries its output.
    RunFailed(Box<RunOutput>),
    /// A glob entry could not be read.
    Glob(glob::GlobError),
    /// A test-path glob pattern was invalid.
    Pattern(glob::PatternError),
    /// One or more registered test cases failed.
    Failed {
        /// How many registered cases failed.
        failures: usize,
        /// How many cases ran in total.
        total: usize,
    },
    /// New `.stderr` snapshots were created and must be moved into place.
    Wip {
        /// How many `wip` snapshots were created.
        count: usize,
    },
}

/// The captured output of a pass-test that ran but exited unsuccessfully.
#[derive(Debug)]
pub struct RunOutput {
    /// The test binary's captured stdout, with the build stdout prepended.
    pub stdout: String,
    /// The test binary's captured stderr.
    pub stderr: String,
    /// The preferred rendering of any build warnings.
    pub warnings: String,
}

} // verus!
