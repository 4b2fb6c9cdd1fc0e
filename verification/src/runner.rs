//! The runner's decisions: which cases run and how they are built, how each
//! case's build and snapshot are turned into an outcome, and how the outcomes
//! of a whole suite collapse into the result of a run.
//!
//! Everything that touches the disk or spawns a process is done by the
//! caller; these functions take what it observed and say what comes next.
use vstd::prelude::*;

use crate::chars;
use crate::directory::{file_name, join_path, std_file_name, std_path_join, std_with_extension, with_extension};
use crate::expand::ExpandedTest;
use crate::model::Expected;
use crate::errors::{
    BuildError, CompileFailure, DiagnosticsError, MismatchDetail, RunOutput, RunnerError,
    UnexpectedSuccess,
};
use crate::normalize::{self, Variations};
use crate::outcome::{Outcome, OverwriteDetail, PassDetail, WipDetail};
use crate::rules;
use crate::text;
use crate::update::Update;

verus! {

/// Which expectations occur among the cases of a run.
#[derive(Clone, Copy, Debug, PartialEq, Eq, Structural)]
pub enum Selected {
    /// No case at all.
    Neither,
    /// Only cases that must compile.
    PassOnly,
    /// Only cases that must fail to compile.
    CompileFailOnly,
    /// Cases of both kinds.
    Both,
}

/// The selection that a pair of flags describes.
pub open spec fn selected_of(has_pass: bool, has_compile_fail: bool) -> Selected {
    if has_pass && has_compile_fail {
        Selected::Both
    } else if has_pass {
        Selected::PassOnly
    } else if has_compile_fail {
        Selected::CompileFailOnly
    } else {
        Selected::Neither
    }
}

impl Selected {
    /// Whether some case must compile.
    pub open spec fn spec_has_pass(self) -> bool {
        self == Selected::PassOnly || self == Selected::Both
    }

    /// Maps the `(has_pass, has_compile_fail)` pair onto the selection.
    pub fn from_flags(has_pass: bool, has_compile_fail: bool) -> (r: Selected)
        ensures
            r == selected_of(has_pass, has_compile_fail),
    {
        match (has_pass, has_compile_fail) {
            (false, false) => Selected::Neither,
            (true, false) => Selected::PassOnly,
            (false, true) => Selected::CompileFailOnly,
            (true, true) => Selected::Both,
        }
    }

    /// Whether some case must compile (and so the build must produce
    /// binaries rather than only check).
    pub fn has_pass(self) -> (r: bool)
        ensures
            r == self.spec_has_pass(),
    {
        match self {
            Selected::PassOnly | Selected::Both => true,
            _ => false,
        }
    }

    /// Whether cases of both kinds occur, so that each reported case shows
    /// which outcome it expected.
    pub fn both(self) -> (r: bool)
        ensures
            r == (self == Selected::Both),
    {
        match self {
            Selected::Both => true,
            _ => false,
        }
    }
}

/// Whether the installed cargo accepts `--keep-going`.
#[derive(Clone, Copy, Debug, PartialEq, Eq, Structural)]
pub enum KeepGoing {
    /// It does: all `compile_fail` bins can be built in one invocation.
    Yes,
    /// It does not, or was not asked.
    No,
}

/// Whether a run builds all its cases in one batched `--keep-going` cargo
/// invocation rather than one invocation per case: only when cargo supports
/// it and no case has to be run after building.
pub fn runs_batched(keep_going: KeepGoing, selected: Selected) -> (r: bool)
    ensures
        r == (keep_going == KeepGoing::Yes && !selected.spec_has_pass()),
{
    match keep_going {
        KeepGoing::Yes => !selected.has_pass(),
        KeepGoing::No => false,
    }
}

/// The name of the generated project of a crate: `<crate>-tests`.
pub fn project_name(crate_name: &str) -> (r: String)
    ensures
        r@ == crate_name@ + "-tests"@,
{
    let suffix = chars::chars_of("-tests");
    let name = chars::concat(&chars::chars_of(crate_name), &suffix);
    chars::string_of(&name)
}

/// A Rust edition.
#[derive(Clone, Copy, Debug, PartialEq, Eq, Structural)]
pub enum Edition {
    /// Edition 2015, the default.
    E2015,
    /// Edition 2018.
    E2018,
    /// Edition 2021.
    E2021,
    /// Edition 2024.
    E2024,
}

impl Default for Edition {
    fn default() -> (r: Edition)
        ensures
            r == Edition::E2015,
    {
        Edition::E2015
    }
}

/// A package's edition as written: either given, or inherited from the
/// workspace with `edition.workspace = true`.
#[derive(Clone, Copy, Debug, PartialEq, Eq, Structural)]
pub enum EditionOrInherit {
    /// The edition is given.
    Edition(Edition),
    /// The edition is the workspace's.
    Inherit,
}

/// Resolves the generated package's edition: the crate's own, or the
/// workspace's when the crate inherits it. `None` when the crate inherits
/// but the workspace names no edition.
pub fn resolve_edition(edition: EditionOrInherit, workspace_edition: Option<Edition>) -> (r: Option<Edition>)
    ensures
        r == (match edition {
            EditionOrInherit::Edition(e) => Some(e),
            EditionOrInherit::Inherit => workspace_edition,
        }),
{
    match edition {
        EditionOrInherit::Edition(specified) => Some(specified),
        EditionOrInherit::Inherit => workspace_edition,
    }
}

/// How a single case ended, as far as the result of the whole run cares.
#[derive(Clone, Copy, Debug, PartialEq, Eq, Structural)]
pub enum CaseStatus {
    /// The case passed.
    Passed,
    /// A new snapshot was written under `wip`.
    CreatedWip,
    /// The snapshot was overwritten in place.
    Overwrote,
    /// The case failed.
    Failed,
}

/// How a case's outcome counts for the run: a pass, a new `wip` snapshot,
/// an overwritten snapshot, or (any error) a failure.
pub open spec fn status_of_outcome<E>(outcome: Result<Outcome, E>) -> CaseStatus {
    match outcome {
        Ok(Outcome::Passed(_)) => CaseStatus::Passed,
        Ok(Outcome::CreatedWip(_)) => CaseStatus::CreatedWip,
        Ok(Outcome::Overwrote(_)) => CaseStatus::Overwrote,
        Err(_) => CaseStatus::Failed,
    }
}

/// How a case's outcome counts for the run.
pub fn case_status<E>(outcome: &Result<Outcome, E>) -> (r: CaseStatus)
    ensures
        r == status_of_outcome(*outcome),
{
    match outcome {
        Ok(Outcome::Passed(_)) => CaseStatus::Passed,
        Ok(Outcome::CreatedWip(_)) => CaseStatus::CreatedWip,
        Ok(Outcome::Overwrote(_)) => CaseStatus::Overwrote,
        Err(_) => CaseStatus::Failed,
    }
}

/// How many entries of `s` are `k`.
pub open spec fn count_of(s: Seq<CaseStatus>, k: CaseStatus) -> nat
    decreases s.len(),
{
    if s.len() == 0 {
        0
    } else {
        count_of(s.drop_last(), k) + if s.last() == k { 1nat } else { 0nat }
    }
}

/// The result of a whole run given how each case ended: failed cases come
/// first, then newly created `wip` snapshots, else success.
pub open spec fn aggregated(cases: Seq<CaseStatus>) -> Result<(), (bool, nat, nat)> {
    let failures = count_of(cases, CaseStatus::Failed);
    let wips = count_of(cases, CaseStatus::CreatedWip);
    if failures > 0 {
        Err((true, failures, cases.len()))
    } else if wips > 0 {
        Err((false, wips, cases.len()))
    } else {
        Ok(())
    }
}

proof fn lemma_count_bounded(s: Seq<CaseStatus>, k: CaseStatus)
    ensures
        count_of(s, k) <= s.len(),
    decreases s.len(),
{
    if s.len() > 0 {
        lemma_count_bounded(s.drop_last(), k);
    }
}

/// Collapses the per-case results of a run: `Failed` with the number of
/// failed cases and the number of cases when any failed, else `Wip` with the
/// number of created snapshots when any was created, else success.
pub fn aggregate(cases: &[CaseStatus]) -> (r: Result<(), RunnerError>)
    ensures
        match aggregated(cases@) {
            Ok(()) => r is Ok,
            Err((true, failures, total)) => r matches Err(RunnerError::Failed { failures: f, total: t })
                && f == failures && t == total,
            Err((false, count, _)) => r matches Err(RunnerError::Wip { count: c }) && c == count,
        },
{
    let mut failures: usize = 0;
    let mut wips: usize = 0;
    let mut i: usize = 0;
    while i < cases.len()
        invariant
            i <= cases.len(),
            failures == count_of(cases@.take(i as int), CaseStatus::Failed),
            wips == count_of(cases@.take(i as int), CaseStatus::CreatedWip),
            failures <= i,
            wips <= i,
        decreases cases.len() - i,
    {
        proof {
            assert(cases@.take(i + 1).drop_last() == cases@.take(i as int));
            lemma_count_bounded(cases@.take(i as int), CaseStatus::Failed);
            lemma_count_bounded(cases@.take(i as int), CaseStatus::CreatedWip);
        }
        match cases[i] {
            CaseStatus::Failed => failures = failures + 1,
            CaseStatus::CreatedWip => wips = wips + 1,
            _ => {},
        }
        i = i + 1;
    }
    assert(cases@.take(cases.len() as int) == cases@);
    if failures > 0 {
        return Err(RunnerError::Failed { failures, total: cases.len() });
    }
    if wips > 0 {
        return Err(RunnerError::Wip { count: wips });
    }
    Ok(())
}

/// The `.stderr` snapshot path of a test file: its extension replaced.
pub open spec fn stderr_path_of(test_path: Seq<char>) -> Seq<char> {
    std_with_extension(test_path, "stderr"@)
}

/// Where a new snapshot is written under `wip/`: the snapshot's file name
/// there, or `test.stderr` when the path has none.
pub open spec fn wip_path_of(stderr_path: Seq<char>) -> Seq<char> {
    std_path_join(
        "wip"@,
        match std_file_name(stderr_path) {
            Some(n) => n,
            None => "test.stderr"@,
        },
    )
}

/// The `.stderr` snapshot path of a test file.
pub fn stderr_path(test_path: &str) -> (r: String)
    ensures
        r@ == stderr_path_of(test_path@),
{
    proof {
        reveal_strlit("stderr");
    }
    with_extension(test_path, "stderr")
}

/// What the disk holds at a case's snapshot path.
#[derive(Debug)]
pub enum Snapshot {
    /// No snapshot file exists.
    Missing,
    /// The snapshot file's contents.
    Saved(String),
}

/// What finishing a `compile_fail` case takes.
#[derive(Debug)]
pub enum Reconciliation {
    /// Nothing more: the case ended with this outcome or failure.
    Done(Result<Outcome, DiagnosticsError>),
    /// Create the `wip` directory with a `.gitignore` of `*`, write the new
    /// snapshot at the detail's `wip_path`, and end with `CreatedWip`.
    WriteWip(WipDetail),
    /// Write the snapshot over the detail's `stderr_path` and end with
    /// `Overwrote`.
    Overwrite(OverwriteDetail),
}

/// How a missing snapshot is reconciled under `update`: `Verify` fails,
/// `Wip` writes a copy under `wip/`, `Overwrite` creates it in place; what
/// is written is the preferred rendering.
pub open spec fn missing_reconciled(r: Reconciliation, update: Update, stderr_path: Seq<char>, preferred: Seq<char>) -> bool {
    match update {
        Update::Verify => r matches Reconciliation::Done(Err(DiagnosticsError::SnapshotMissing { path }))
            && path@ == stderr_path,
        Update::Wip => r matches Reconciliation::WriteWip(w) && w.wip_path@ == wip_path_of(stderr_path)
            && w.stderr_path@ == stderr_path && w.stderr@ == preferred,
        Update::Overwrite => r matches Reconciliation::Overwrite(o) && o.stderr_path@ == stderr_path
            && o.stderr@ == preferred,
    }
}

/// Reconciles a missing `.stderr` snapshot per the update mode.
pub fn missing_snapshot(update: Update, stderr_path: String, preferred: &str) -> (r: Reconciliation)
    ensures
        missing_reconciled(r, update, stderr_path@, preferred@),
{
    match update {
        Update::Verify => Reconciliation::Done(Err(DiagnosticsError::SnapshotMissing { path: stderr_path })),
        Update::Wip => {
            let name = match file_name(stderr_path.as_str()) {
                Some(n) => n,
                None => "test.stderr".to_string(),
            };
            let wip_path = join_path("wip", name.as_str());
            Reconciliation::WriteWip(
                WipDetail { wip_path, stderr_path, stderr: preferred.to_string() },
            )
        },
        Update::Overwrite => overwrite_snapshot(stderr_path, preferred),
    }
}

/// Overwrites the snapshot in place with the preferred rendering.
pub fn overwrite_snapshot(stderr_path: String, preferred: &str) -> (r: Reconciliation)
    ensures
        r matches Reconciliation::Overwrite(o) && o.stderr_path@ == stderr_path@ && o.stderr@ == preferred@,
{
    Reconciliation::Overwrite(OverwriteDetail { stderr_path, stderr: preferred.to_string() })
}

/// An outcome that carries no output: what a matched `compile_fail` case
/// ends with.
pub open spec fn quiet_pass(o: Outcome) -> bool {
    o matches Outcome::Passed(p) && p.stdout@.len() == 0 && p.stderr@.len() == 0 && p.warnings@.len() == 0
}

/// How a `compile_fail` case ends, from whether it built, what the build
/// printed, its variations (of which the last is the preferred one), the
/// update mode and the snapshot on disk: building is a failure; a missing
/// snapshot is reconciled per the mode; a saved snapshot (with `\r\n` read
/// as `\n`) equal to some variation passes quietly; a mismatch is an error,
/// except under `Overwrite`, which writes the preferred rendering in place.
pub open spec fn compile_fail_reconciled(
    r: Reconciliation,
    test_path: Seq<char>,
    success: bool,
    build_stdout: Seq<char>,
    variations: Seq<Seq<char>>,
    update: Update,
    snapshot: Snapshot,
) -> bool {
    &&& success ==> (r matches Reconciliation::Done(Err(DiagnosticsError::ShouldNotHaveCompiled(d)))
        && d.stdout@ == build_stdout && d.warnings@ == variations[rules::STEPS - 1])
    &&& !success ==> match snapshot {
        Snapshot::Missing => missing_reconciled(
            r,
            update,
            stderr_path_of(test_path),
            variations[rules::STEPS - 1],
        ),
        Snapshot::Saved(saved) => {
            let expected = text::replace_all(saved@, "\r\n"@, "\n"@);
            if variations.contains(expected) {
                r matches Reconciliation::Done(Ok(o)) && quiet_pass(o)
            } else if update == Update::Overwrite {
                r matches Reconciliation::Overwrite(o) && o.stderr_path@ == stderr_path_of(test_path)
                    && o.stderr@ == variations[rules::STEPS - 1]
            } else {
                r matches Reconciliation::Done(Err(DiagnosticsError::Mismatch(m)))
                    && m.expected@ == expected && m.actual@ == variations[rules::STEPS - 1]
            }
        },
    }
}

/// The build half of checking a `compile_fail` case, decided before any
/// snapshot is read: a case that compiled fails with its stdout and the
/// preferred rendering of its warnings; otherwise the result is the path of
/// the `.stderr` snapshot to compare against.
pub fn compile_fail_build(
    test_path: &str,
    success: bool,
    build_stdout: &str,
    variations: &Variations,
) -> (r: Result<String, DiagnosticsError>)
    ensures
        variations@.len() == rules::STEPS,
        success ==> (r matches Err(DiagnosticsError::ShouldNotHaveCompiled(d))
            && d.stdout@ == build_stdout@ && d.warnings@ == variations@[rules::STEPS - 1]),
        !success ==> (r matches Ok(p) && p@ == stderr_path_of(test_path@)),
{
    let preferred = variations.preferred();
    if success {
        return Err(
            DiagnosticsError::ShouldNotHaveCompiled(
                Box::new(
                    UnexpectedSuccess {
                        stdout: build_stdout.to_string(),
                        warnings: preferred.to_string(),
                    },
                ),
            ),
        );
    }
    Ok(stderr_path(test_path))
}

/// Checks a `compile_fail` case: it must fail to build, and its diagnostics
/// must match the saved snapshot (with `\r\n` read as `\n`) in some
/// variation. A missing snapshot is reconciled per the update mode; a
/// mismatch is an error, except under `Overwrite`, which writes the
/// preferred rendering in place.
pub fn check_compile_fail(
    test_path: &str,
    success: bool,
    build_stdout: &str,
    variations: &Variations,
    update: Update,
    snapshot: Snapshot,
) -> (r: Reconciliation)
    ensures
        variations@.len() == rules::STEPS,
        compile_fail_reconciled(r, test_path@, success, build_stdout@, variations@, update, snapshot),
{
    let path = match compile_fail_build(test_path, success, build_stdout, variations) {
        Err(e) => return Reconciliation::Done(Err(e)),
        Ok(p) => p,
    };
    let preferred = variations.preferred();
    let saved = match snapshot {
        Snapshot::Missing => return missing_snapshot(update, path, preferred),
        Snapshot::Saved(saved) => saved,
    };
    let expected = chars::string_of(
        &chars::replace_all(
            &chars::chars_of(saved.as_str()),
            &chars::chars_of("\r\n"),
            &chars::chars_of("\n"),
        ),
    );
    if variations.contains(expected.as_str()) {
        assert(variations@[rules::STEPS - 1] == variations@.last());
        return Reconciliation::Done(
            Ok(
                Outcome::Passed(
                    Box::new(
                        PassDetail { stdout: String::new(), stderr: String::new(), warnings: String::new() },
                    ),
                ),
            ),
        );
    }
    match update {
        Update::Verify | Update::Wip => Reconciliation::Done(
            Err(
                DiagnosticsError::Mismatch(
                    Box::new(MismatchDetail { expected, actual: preferred.to_string() }),
                ),
            ),
        ),
        Update::Overwrite => overwrite_snapshot(path, preferred),
    }
}

/// The build half of checking a pass case: it must have compiled, else it
/// fails with the preferred rendering of its diagnostics.
pub fn check_pass_build(success: bool, variations: &Variations) -> (r: Result<(), BuildError>)
    ensures
        variations@.len() == rules::STEPS,
        success ==> r is Ok,
        !success ==> (r matches Err(BuildError::CompileFailed(c))
            && c.diagnostics@ == variations@[rules::STEPS - 1]),
{
    let preferred = variations.preferred();
    if !success {
        return Err(BuildError::CompileFailed(Box::new(CompileFailure { diagnostics: preferred.to_string() })));
    }
    Ok(())
}

/// The run half of checking a pass case, from what its binary printed and
/// whether it exited successfully: the build's stdout comes before the
/// binary's, both streams are trimmed, and the preferred rendering of the
/// build diagnostics is kept as warnings.
pub fn finish_pass(
    build_stdout: &str,
    run_stdout: &str,
    run_stderr: &str,
    run_success: bool,
    variations: &Variations,
) -> (r: Result<Outcome, RunnerError>)
    ensures
        variations@.len() == rules::STEPS,
        run_success ==> (r matches Ok(Outcome::Passed(p)) && p.stdout@ == rules::trim(build_stdout@ + run_stdout@)
            && p.stderr@ == rules::trim(run_stderr@) && p.warnings@ == variations@[rules::STEPS - 1]),
        !run_success ==> (r matches Err(RunnerError::RunFailed(o)) && o.stdout@ == rules::trim(
            build_stdout@ + run_stdout@,
        ) && o.stderr@ == rules::trim(run_stderr@) && o.warnings@ == variations@[rules::STEPS - 1]),
{
    let preferred = variations.preferred();
    let joined = chars::string_of(&chars::concat(&chars::chars_of(build_stdout), &chars::chars_of(run_stdout)));
    let stdout = normalize::trim(joined.as_str());
    let stderr = normalize::trim(run_stderr);
    let warnings = preferred.to_string();
    if run_success {
        Ok(Outcome::Passed(Box::new(PassDetail { stdout, stderr, warnings })))
    } else {
        Err(RunnerError::RunFailed(Box::new(RunOutput { stdout, stderr, warnings })))
    }
}

/// Whether `s` contains `p` (`str::contains`).
pub open spec fn contains(s: Seq<char>, p: Seq<char>) -> bool {
    text::find(s, p) is Some
}

/// The non-empty `trybuild=<fragment>` fragments among the arguments, in
/// order.
pub open spec fn fragments_of(args: Seq<Seq<char>>) -> Seq<Seq<char>>
    decreases args.len(),
{
    if args.len() == 0 {
        Seq::empty()
    } else {
        let rest = fragments_of(args.drop_last());
        let arg = args.last();
        if text::starts_with(arg, "trybuild="@) && arg.len() > 9 {
            rest.push(arg.skip(9))
        } else {
            rest
        }
    }
}

/// Whether a path is selected by the fragments: it contains one of them.
pub open spec fn selects(fragments: Seq<Seq<char>>, path: Seq<char>) -> bool {
    exists|i: int| 0 <= i < fragments.len() && contains(path, #[trigger] fragments[i])
}

/// The `trybuild=<fragment>` command-line filters of a run.
pub struct TrybuildFilters {
    fragments: Vec<String>,
}

impl View for TrybuildFilters {
    type V = Seq<Seq<char>>;

    closed spec fn view(&self) -> Seq<Seq<char>> {
        self.fragments@.map_values(|f: String| f@)
    }
}

impl TrybuildFilters {
    /// Extracts the non-empty `trybuild=<fragment>` filters from the
    /// process arguments (those that are text).
    pub fn from_args(args: &[String]) -> (r: TrybuildFilters)
        ensures
            r@ == fragments_of(args@.map_values(|a: String| a@)),
    {
        let prefix = chars::chars_of("trybuild=");
        let mut fragments: Vec<String> = Vec::new();
        let mut i: usize = 0;
        while i < args.len()
            invariant
                i <= args.len(),
                prefix@ == "trybuild="@,
                fragments@.map_values(|f: String| f@) == fragments_of(
                    args@.take(i as int).map_values(|a: String| a@),
                ),
            decreases args.len() - i,
        {
            let arg = chars::chars_of(args[i].as_str());
            proof {
                assert(args@.take(i + 1).map_values(|a: String| a@).drop_last() == args@.take(
                    i as int,
                ).map_values(|a: String| a@));
                assert(args@.take(i + 1).map_values(|a: String| a@).last() == arg@);
            }
            let ghost before = fragments@;
            if chars::starts_with(&arg, &prefix) && arg.len() > 9 {
                let rest = chars::get_from(&arg, 9);
                fragments.push(chars::string_of(&rest));
                assert(fragments@.map_values(|f: String| f@) =~= before.map_values(|f: String| f@).push(
                    arg@.skip(9),
                ));
            }
            i = i + 1;
        }
        assert(args@.take(args.len() as int) == args@);
        TrybuildFilters { fragments }
    }

    /// Whether no filter was given.
    pub fn is_empty(&self) -> (r: bool)
        ensures
            r == (self@.len() == 0),
    {
        self.fragments.len() == 0
    }

    /// Whether `path` contains at least one of the fragments.
    pub fn matches_path(&self, path: &str) -> (r: bool)
        ensures
            r == selects(self@, path@),
    {
        let p = chars::chars_of(path);
        let mut i: usize = 0;
        while i < self.fragments.len()
            invariant
                i <= self.fragments.len(),
                p@ == path@,
                forall|k: int| 0 <= k < i ==> !contains(path@, #[trigger] self@[k]),
            decreases self.fragments.len() - i,
        {
            let f = chars::chars_of(self.fragments[i].as_str());
            assert(self@[i as int] == f@);
            if chars::find(&p, &f).is_some() {
                return true;
            }
            i = i + 1;
        }
        false
    }
}

/// The cases that the filters keep, in order.
pub open spec fn kept(tests: Seq<ExpandedTest>, fragments: Seq<Seq<char>>) -> Seq<ExpandedTest>
    decreases tests.len(),
{
    if tests.len() == 0 {
        Seq::empty()
    } else {
        let rest = kept(tests.drop_last(), fragments);
        if selects(fragments, tests.last().test.path@) {
            rest.push(tests.last())
        } else {
            rest
        }
    }
}

/// Restricts `tests` to those selected by `trybuild=<fragment>` arguments:
/// with no such argument every case is kept, else those whose path contains
/// some fragment.
pub fn filter_with(tests: &mut Vec<ExpandedTest>, args: &[String])
    ensures
        ({
            let fragments = fragments_of(args@.map_values(|a: String| a@));
            if fragments.len() == 0 {
                final(tests)@ == old(tests)@
            } else {
                final(tests)@ == kept(old(tests)@, fragments)
            }
        }),
{
    let filters = TrybuildFilters::from_args(args);
    if filters.is_empty() {
        return;
    }
    let ghost all = tests@;
    let mut rest: Vec<ExpandedTest> = Vec::new();
    std::mem::swap(&mut rest, tests);
    let mut i: usize = 0;
    let n = rest.len();
    while i < n
        invariant
            i <= n == all.len(),
            rest@ == all.skip(i as int),
            tests@ == kept(all.take(i as int), filters@),
        decreases n - i,
    {
        let t = rest.remove(0);
        assert(t == all[i as int]);
        assert(all.take(i + 1).drop_last() == all.take(i as int));
        assert(rest@ == all.skip(i + 1));
        if filters.matches_path(t.test.path.as_str()) {
            tests.push(t);
        }
        i = i + 1;
    }
    assert(all.take(n as int) == all);
}

/// Whether some case of the run must compile, and whether some must fail.
pub open spec fn selection_of(tests: Seq<ExpandedTest>) -> Selected {
    selected_of(
        exists|i: int| 0 <= i < tests.len() && #[trigger] tests[i].test.expected == Expected::Pass,
        exists|i: int| 0 <= i < tests.len() && #[trigger] tests[i].test.expected == Expected::CompileFail,
    )
}

/// Which expectations occur among the expanded cases.
#[verifier::spinoff_prover]
pub fn selection(tests: &[ExpandedTest]) -> (r: Selected)
    ensures
        r == selection_of(tests@),
{
    let mut has_pass = false;
    let mut has_compile_fail = false;
    let mut i: usize = 0;
    while i < tests.len()
        invariant
            i <= tests.len(),
            has_pass == exists|k: int| 0 <= k < i && #[trigger] tests@[k].test.expected == Expected::Pass,
            has_compile_fail == exists|k: int| 0 <= k < i && #[trigger] tests@[k].test.expected == Expected::CompileFail,
        decreases tests.len() - i,
    {
        let expected = tests[i].test.expected;
        match expected {
            Expected::Pass => has_pass = true,
            Expected::CompileFail => has_compile_fail = true,
        }
        assert(tests@[i as int].test.expected == expected);
        i = i + 1;
    }
    Selected::from_flags(has_pass, has_compile_fail)
}

/// The features of `features` that occur in `known`, in order.
pub open spec fn known_only(features: Seq<Seq<char>>, known: Seq<Seq<char>>) -> Seq<Seq<char>>
    decreases features.len(),
{
    if features.len() == 0 {
        Seq::empty()
    } else {
        let rest = known_only(features.drop_last(), known);
        if known.contains(features.last()) {
            rest.push(features.last())
        } else {
            rest
        }
    }
}

pub open spec fn string_views(v: Seq<String>) -> Seq<Seq<char>> {
    v.map_values(|s: String| s@)
}

/// Drops the active features that the generated manifest does not define;
/// an undetected feature set stays undetected.
pub fn retain_known_features(features: &mut Option<Vec<String>>, known: &[String])
    ensures
        match *old(features) {
            None => *final(features) is None,
            Some(v) => *final(features) matches Some(w) && string_views(w@) == known_only(
                string_views(v@),
                string_views(known@),
            ),
        },
{
    let mut taken: Option<Vec<String>> = None;
    std::mem::swap(&mut taken, features);
    let enabled = match taken {
        None => return,
        Some(v) => v,
    };
    let ghost all = string_views(enabled@);
    let ghost names = string_views(known@);
    let mut retained: Vec<String> = Vec::new();
    let mut i: usize = 0;
    while i < enabled.len()
        invariant
            i <= enabled.len(),
            all == string_views(enabled@),
            names == string_views(known@),
            string_views(retained@) == known_only(all.take(i as int), names),
        decreases enabled.len() - i,
    {
        let f = chars::chars_of(enabled[i].as_str());
        let mut found = false;
        let mut k: usize = 0;
        while k < known.len()
            invariant
                k <= known.len(),
                names == string_views(known@),
                f@ == all[i as int],
                found == exists|j: int| 0 <= j < k && names[j] == f@,
            decreases known.len() - k,
        {
            let g = chars::chars_of(known[k].as_str());
            assert(names[k as int] == g@);
            if chars::equals(&f, &g) {
                found = true;
            }
            k = k + 1;
        }
        proof {
            assert(all.take(i + 1).drop_last() == all.take(i as int));
            assert(all.take(i + 1).last() == f@);
            if found {
                let j = choose|j: int| 0 <= j < known.len() && names[j] == f@;
                assert(names.contains(f@));
            } else {
                assert(!names.contains(f@));
            }
        }
        let ghost before = string_views(retained@);
        if found {
            retained.push(chars::string_of(&f));
            assert(string_views(retained@) =~= before.push(f@));
        }
        i = i + 1;
    }
    assert(all.take(enabled.len() as int) == all);
    *features = Some(retained);
}

} // verus!
