use trybuild::directory::Directory;
use trybuild::errors::{BuildError, DiagnosticsError, RunnerError};
use trybuild::expand::ExpandedTest;
use trybuild::manifest::{has_lib_target, merge_dependencies, path_dependency_candidates, prune_features, rebased, remove_harness};
use trybuild::model::{Expected, Name, PathDependency, PathDependencyClass, Test};
use trybuild::normalize::{self, Context, Variations};
use trybuild::outcome::Outcome;
use trybuild::runner::{
    aggregate, check_compile_fail, check_pass_build, compile_fail_build, filter_with, finish_pass, missing_snapshot, overwrite_snapshot,
    project_name, resolve_edition, retain_known_features, runs_batched, selection, stderr_path, CaseStatus, Edition,
    EditionOrInherit, KeepGoing, Reconciliation, Selected, Snapshot, TrybuildFilters,
};
use trybuild::Update;

fn expanded(path: &str, expected: Expected) -> ExpandedTest {
    ExpandedTest {
        name: Name("trybuild000".to_owned()),
        test: Test { path: path.to_owned(), expected },
        error: None,
        is_from_glob: false,
    }
}

fn has_case(tests: &[ExpandedTest], file: &str) -> bool {
    tests.iter().any(|case| case.test.path.ends_with(file))
}

fn args(list: &[&str]) -> Vec<String> {
    list.iter().map(|a| (*a).to_owned()).collect()
}

fn variations(output: &str) -> Variations {
    let source_dir = Directory::new("/workspace/crate");
    let workspace = Directory::new("/workspace");
    let target_dir = Directory::new("/workspace/target");
    let deps: Vec<PathDependency> = Vec::new();
    let context = Context {
        krate: "trybuild000",
        source_dir: &source_dir,
        workspace: &workspace,
        input_file: "tests/ui/case.rs",
        target_dir: &target_dir,
        path_dependencies: &deps,
    };
    normalize::diagnostics(output, &context)
}

#[test]
fn filter_with_keeps_only_matching_trybuild_arguments() {
    let mut tests = vec![expanded("tests/ui/alpha.rs", Expected::Pass), expanded("tests/ui/beta.rs", Expected::CompileFail)];

    filter_with(&mut tests, &args(&["test", "trybuild=beta.rs"]));
    let only = tests.first().expect("one filtered test remains");

    assert!(tests.len() == 1, "trybuild filters remove non-matching cases");
    assert!(only.test.path == "tests/ui/beta.rs", "trybuild filters keep the matching case");
}

#[test]
fn filter_with_leaves_tests_when_no_filter_is_present() {
    let mut tests = vec![expanded("tests/ui/alpha.rs", Expected::Pass), expanded("tests/ui/beta.rs", Expected::CompileFail)];

    filter_with(&mut tests, &args(&["test"]));

    assert!(tests.len() == 2, "no trybuild filter keeps all cases");
    assert!(has_case(&tests, "alpha.rs"), "the first case remains without a filter");
    assert!(has_case(&tests, "beta.rs"), "the second case remains without a filter");
}

#[test]
fn filter_with_matches_any_non_empty_trybuild_argument() {
    let mut tests = vec![
        expanded("tests/ui/alpha.rs", Expected::Pass),
        expanded("tests/ui/beta.rs", Expected::CompileFail),
        expanded("tests/ui/gamma.rs", Expected::CompileFail),
    ];

    filter_with(&mut tests, &args(&["test", "trybuild=alpha", "trybuild=", "trybuild=gamma"]));

    assert!(tests.len() == 2, "multiple trybuild filters keep every matching case");
    assert!(has_case(&tests, "alpha.rs"), "the first non-empty filter is applied");
    assert!(has_case(&tests, "gamma.rs"), "the second non-empty filter is applied");
    assert!(!has_case(&tests, "beta.rs"), "non-matching cases are removed");
}

#[test]
fn filter_with_can_select_no_cases() {
    let mut tests = vec![expanded("tests/ui/alpha.rs", Expected::Pass), expanded("tests/ui/beta.rs", Expected::CompileFail)];

    filter_with(&mut tests, &args(&["test", "trybuild=missing"]));

    assert!(tests.is_empty(), "a filter with no matching path removes every case");
}

#[test]
fn filters_take_only_non_empty_trybuild_fragments() {
    let filters = TrybuildFilters::from_args(&args(&["trybuild", "trybuild=", "xtrybuild=a", "trybuild=ui/b"]));
    assert!(!filters.is_empty());
    assert!(filters.matches_path("tests/ui/b.rs"));
    assert!(!filters.matches_path("tests/ui/a.rs"));
    assert!(TrybuildFilters::from_args(&args(&["trybuild="])).is_empty());
}

#[test]
fn retain_known_features_drops_unknown_active_features() {
    let known = args(&["diff", "serde"]);
    let mut features = Some(args(&["diff", "unknown", "serde"]));

    retain_known_features(&mut features, &known);
    let retained = features.as_ref().expect("features remain present after retention");
    let mut no_features = None;
    retain_known_features(&mut no_features, &known);

    assert!(retained == &args(&["diff", "serde"]), "only manifest-defined features remain");
    assert!(no_features.is_none(), "missing active feature detection remains missing");
}

#[test]
fn aggregate_reports_failures_wip_and_clean_suites() {
    let clean = [CaseStatus::Passed];
    let failed = [CaseStatus::Failed];
    let wip = [CaseStatus::CreatedWip];

    assert!(aggregate(&clean).is_ok(), "clean reports aggregate successfully");
    assert!(aggregate(&failed).is_err(), "case failures make the aggregate fail");
    assert!(aggregate(&wip).is_err(), "created wip snapshots make the aggregate fail");
}

#[test]
fn aggregate_counts_failures_before_snapshots() {
    let mixed = [CaseStatus::CreatedWip, CaseStatus::Failed, CaseStatus::Passed, CaseStatus::Failed, CaseStatus::Overwrote];
    assert!(matches!(aggregate(&mixed), Err(RunnerError::Failed { failures: 2, total: 5 })));
    let wips = [CaseStatus::CreatedWip, CaseStatus::Overwrote, CaseStatus::CreatedWip];
    assert!(matches!(aggregate(&wips), Err(RunnerError::Wip { count: 2 })));
    assert!(aggregate(&[]).is_ok());
    assert!(aggregate(&[CaseStatus::Overwrote]).is_ok());
}

#[test]
fn snapshot_helpers_verify_missing_and_overwrite_in_place() {
    let missing_result = missing_snapshot(Update::Verify, "fixture/missing.stderr".to_owned(), "error: missing\n");
    let overwrite_result = missing_snapshot(Update::Overwrite, "fixture/overwrite.stderr".to_owned(), "error: created\n");
    let replaced = overwrite_snapshot("fixture/overwrite.stderr".to_owned(), "error: replaced\n");

    assert!(
        matches!(missing_result, Reconciliation::Done(Err(DiagnosticsError::SnapshotMissing { ref path })) if path == "fixture/missing.stderr"),
        "verify mode reports a missing snapshot"
    );
    assert!(
        matches!(overwrite_result, Reconciliation::Overwrite(ref o) if o.stderr_path == "fixture/overwrite.stderr" && o.stderr == "error: created\n"),
        "overwrite mode creates a missing snapshot in place"
    );
    assert!(
        matches!(replaced, Reconciliation::Overwrite(ref o) if o.stderr == "error: replaced\n"),
        "overwrite_snapshot replaces the snapshot bytes"
    );
}

#[test]
fn wip_mode_writes_missing_snapshots_under_wip() {
    let r = missing_snapshot(Update::Wip, "tests/ui/case.stderr".to_owned(), "error: new\n");
    match r {
        Reconciliation::WriteWip(w) => {
            assert_eq!(w.wip_path, "wip/case.stderr");
            assert_eq!(w.stderr_path, "tests/ui/case.stderr");
            assert_eq!(w.stderr, "error: new\n");
        },
        other => panic!("unexpected {other:?}"),
    }
}

#[test]
fn stderr_path_replaces_the_extension() {
    assert_eq!(stderr_path("tests/ui/case.rs"), "tests/ui/case.stderr");
    assert_eq!(stderr_path("tests/ui/case"), "tests/ui/case.stderr");
}

#[test]
fn compile_fail_cases_reconcile_against_their_snapshot() {
    let v = variations("error: broken\n");
    let built = check_compile_fail("tests/ui/case.rs", true, "stdout text", &v, Update::Wip, Snapshot::Missing);
    assert!(matches!(built, Reconciliation::Done(Err(DiagnosticsError::ShouldNotHaveCompiled(ref d))) if d.stdout == "stdout text"));

    let matched = check_compile_fail("tests/ui/case.rs", false, "", &v, Update::Verify, Snapshot::Saved("error: broken\r\n".to_owned()));
    assert!(matches!(matched, Reconciliation::Done(Ok(Outcome::Passed(ref p))) if p.stdout.is_empty() && p.warnings.is_empty()));

    let mismatched = check_compile_fail("tests/ui/case.rs", false, "", &v, Update::Wip, Snapshot::Saved("error: other\n".to_owned()));
    assert!(matches!(mismatched, Reconciliation::Done(Err(DiagnosticsError::Mismatch(ref m))) if m.expected == "error: other\n" && m.actual == "error: broken\n"));

    let overwritten = check_compile_fail("tests/ui/case.rs", false, "", &v, Update::Overwrite, Snapshot::Saved("error: other\n".to_owned()));
    assert!(matches!(overwritten, Reconciliation::Overwrite(ref o) if o.stderr_path == "tests/ui/case.stderr" && o.stderr == "error: broken\n"));

    let missing = check_compile_fail("tests/ui/case.rs", false, "", &v, Update::Verify, Snapshot::Missing);
    assert!(matches!(missing, Reconciliation::Done(Err(DiagnosticsError::SnapshotMissing { ref path })) if path == "tests/ui/case.stderr"));
}

#[test]
fn pass_cases_must_build_then_run() {
    let v = variations("warning: unused\n");
    assert!(check_pass_build(true, &v).is_ok());
    assert!(matches!(check_pass_build(false, &v), Err(BuildError::CompileFailed(ref c)) if c.diagnostics == "warning: unused\n"));

    let ok = finish_pass("build\n", "run  \n\n", "", true, &v);
    assert!(matches!(ok, Ok(Outcome::Passed(ref p)) if p.stdout == "build\nrun\n" && p.stderr.is_empty() && p.warnings == "warning: unused\n"));
    let failed = finish_pass("", "", "panicked\n", false, &v);
    assert!(matches!(failed, Err(RunnerError::RunFailed(ref o)) if o.stderr == "panicked\n" && o.stdout.is_empty()));
}

#[test]
fn selection_and_batching_follow_the_expectations() {
    let tests = vec![expanded("a.rs", Expected::CompileFail), expanded("b.rs", Expected::CompileFail)];
    assert_eq!(selection(&tests), Selected::CompileFailOnly);
    assert!(runs_batched(KeepGoing::Yes, selection(&tests)));
    assert!(!runs_batched(KeepGoing::No, selection(&tests)));
    let mixed = vec![expanded("a.rs", Expected::Pass), expanded("b.rs", Expected::CompileFail)];
    assert_eq!(selection(&mixed), Selected::Both);
    assert!(selection(&mixed).both());
    assert!(!runs_batched(KeepGoing::Yes, selection(&mixed)));
    assert_eq!(selection(&[]), Selected::Neither);
    assert_eq!(Selected::from_flags(true, false), Selected::PassOnly);
}

#[test]
fn project_names_and_editions() {
    assert_eq!(project_name("demo"), "demo-tests");
    assert_eq!(resolve_edition(EditionOrInherit::Edition(Edition::E2021), None), Some(Edition::E2021));
    assert_eq!(resolve_edition(EditionOrInherit::Inherit, Some(Edition::E2024)), Some(Edition::E2024));
    assert_eq!(resolve_edition(EditionOrInherit::Inherit, None), None);
    assert_eq!(Edition::default(), Edition::E2015);
}

#[derive(Clone, Debug, PartialEq)]
struct Dep {
    path: Option<String>,
    optional: bool,
}

fn dep(optional: bool) -> Dep {
    Dep { path: None, optional }
}

fn lookup<'a, V>(table: &'a [(String, V)], key: &str) -> Option<&'a V> {
    table.iter().find(|(k, _)| k == key).map(|(_, v)| v)
}

#[test]
fn merge_dependencies_adds_self_only_for_library_targets() {
    let source_dir = Directory::new("/crate");
    let self_dep = Dep { path: Some(source_dir.to_string_lossy().to_owned()), optional: false };
    let source_dependencies = vec![("normal".to_owned(), dep(false))];
    let source_dev_dependencies = vec![("dev".to_owned(), dep(false))];

    let with_lib = merge_dependencies("demo", self_dep.clone(), source_dependencies.clone(), source_dev_dependencies.clone(), true);
    let without_lib = merge_dependencies("demo", self_dep, source_dependencies, source_dev_dependencies, false);
    let self_dependency = lookup(&with_lib, "demo").expect("library targets add a self dependency");

    assert!(lookup(&with_lib, "normal").is_some(), "source dependencies are retained");
    assert!(lookup(&with_lib, "dev").is_some(), "dev dependencies are merged");
    assert!(self_dependency.path.as_deref() == Some(source_dir.to_string_lossy()), "self dependencies point at the source dir");
    assert!(lookup(&without_lib, "demo").is_none(), "bin-only crates do not add a self dependency");
}

#[test]
fn dev_dependencies_replace_dependencies_of_the_same_name() {
    let merged = merge_dependencies(
        "demo",
        dep(false),
        vec![("shared".to_owned(), dep(false)), ("demo".to_owned(), dep(true))],
        vec![("shared".to_owned(), dep(true))],
        true,
    );
    assert_eq!(merged.len(), 2);
    assert_eq!(lookup(&merged, "shared"), Some(&dep(true)));
    assert_eq!(lookup(&merged, "demo"), Some(&dep(false)));
}

#[test]
fn prune_features_keeps_only_optional_dependency_enables() {
    let dependencies = vec![("top".to_owned(), true), ("plain".to_owned(), false)];
    let targets = vec![vec![("targeted".to_owned(), true)]];
    let features = vec![("feat".to_owned(), args(&["dep:top", "dep:targeted", "dep:plain", "plain"]))];

    let with_lib = prune_features(features.clone(), &dependencies, &targets, true, "demo");
    let without_lib = prune_features(features, &dependencies, &targets, false, "demo");
    let with_lib_enables = lookup(&with_lib, "feat").expect("feature remains with a library target");
    let without_lib_enables = lookup(&without_lib, "feat").expect("feature remains without a library target");

    assert!(
        with_lib_enables == &args(&["demo/feat", "dep:top", "dep:targeted"]),
        "library targets prefix self feature enables and keep optional dependencies"
    );
    assert!(
        without_lib_enables == &args(&["dep:top", "dep:targeted"]),
        "bin-only crates keep optional dependency enables without a self prefix"
    );
}

#[test]
fn library_targets_are_read_from_the_crates_own_package() {
    let packages = vec![
        ("/w/other/Cargo.toml".to_owned(), vec![args(&["bin"])]),
        ("/w/crate/Cargo.toml".to_owned(), vec![args(&["bin"]), args(&["lib"])]),
    ];
    assert!(has_lib_target(&packages, "/w/crate/Cargo.toml"));
    assert!(!has_lib_target(&packages, "/w/other/Cargo.toml"));
    assert!(has_lib_target(&packages, "/w/missing/Cargo.toml"));
}

#[test]
fn path_dependencies_skip_workspace_members_and_repeats() {
    let deps = vec![
        ("external".to_owned(), Some("/deps/external".to_owned())),
        ("workspace".to_owned(), Some("/w/member".to_owned())),
        ("registry".to_owned(), None),
    ];
    let others = vec![
        ("external".to_owned(), Some("/deps/other".to_owned())),
        ("nested_dev".to_owned(), Some("/deps/external/nested".to_owned())),
    ];
    let found = path_dependency_candidates(&deps, &others, &args(&["workspace"]));
    let seen: Vec<(&str, &str, PathDependencyClass)> =
        found.iter().map(|c| (c.name.as_str(), c.path.as_str(), c.class)).collect();
    assert_eq!(
        seen,
        vec![
            ("external", "/deps/external", PathDependencyClass::LegacyTopLevel),
            ("nested_dev", "/deps/external/nested", PathDependencyClass::Additional),
        ]
    );
}

#[test]
fn manifest_paths_are_rebased_and_the_harness_dropped() {
    assert_eq!(rebased(&Directory::new("/w/crate"), "../dep").to_string_lossy(), "/w/crate/../dep/");
    assert_eq!(rebased(&Directory::new("/w/crate"), "/abs").to_string_lossy(), "/abs/");
    let table = remove_harness(vec![("trybuild".to_owned(), 1), ("serde".to_owned(), 2)]);
    assert_eq!(table, vec![("serde".to_owned(), 2)]);
}

#[test]
fn make_manifest_skips_bins_for_expansion_errors() {
    let source_dir = Directory::new("/fixture/source");
    let tests = vec![
        expanded("tests/ui/ok.rs", Expected::CompileFail),
        ExpandedTest {
            name: Name("trybuild001".to_owned()),
            test: Test { path: "tests/ui/bad.rs".to_owned(), expected: Expected::CompileFail },
            error: Some(RunnerError::Failed { failures: 1, total: 1 }),
            is_from_glob: false,
        },
    ];
    let bins = trybuild::manifest::generated_bins("demo-tests", &source_dir, &tests);

    assert!(bins.len() == 2, "the placeholder and successful test bins are registered");
    assert_eq!(bins[0], ("demo-tests".to_owned(), "main.rs".to_owned()));
    assert!(bins.iter().any(|bin| bin.1.ends_with("tests/ui/ok.rs")), "successful expansions become bins");
    assert!(!bins.iter().any(|bin| bin.1.ends_with("tests/ui/bad.rs")), "expansion errors do not become bins");
    assert_eq!(
        trybuild::manifest::project_dir(&Directory::new("/w/target"), "demo").to_string_lossy(),
        "/w/target/tests/trybuild/demo/"
    );
}

#[test]
fn compile_fail_build_decides_before_any_snapshot_is_read() {
    let v = variations("warning: unused\n");
    let built = compile_fail_build("tests/ui/case.rs", true, "out", &v);
    assert!(matches!(built, Err(DiagnosticsError::ShouldNotHaveCompiled(ref d)) if d.stdout == "out" && d.warnings == "warning: unused\n"));
    let failed = compile_fail_build("tests/ui/case.rs", false, "out", &v);
    assert_eq!(failed.ok(), Some("tests/ui/case.stderr".to_owned()));
}
