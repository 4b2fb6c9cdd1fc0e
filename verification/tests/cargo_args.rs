use trybuild::cargo::{
    build_arguments, clean_arguments, dependency_arguments, dependency_step, features, metadata_arguments,
    project_arguments, project_environment, run_arguments, rustflags, target, toml_from, BuildSelection,
    DependencyAction, DependencyEvent, DependencyStep, EnvChange, HostTarget,
};
use trybuild::runner::KeepGoing;
use trybuild::BuildError;
use trybuild::directory::Directory;
use trybuild::model::Name;
use trybuild::runner::Selected;

fn strings(list: &[&str]) -> Vec<String> {
    list.iter().map(|a| (*a).to_owned()).collect()
}

fn flags(rendered: &str) -> Vec<String> {
    let doc: toml::Value = toml::from_str(&format!("flags = {rendered}")).expect("rustflags render as a TOML array");
    doc.get("flags")
        .and_then(toml::Value::as_array)
        .expect("an array")
        .iter()
        .filter_map(toml::Value::as_str)
        .map(ToOwned::to_owned)
        .collect()
}

#[test]
fn toml_from_builds_default_and_extra_flags() {
    let rustflags_toml = toml_from(None, &strings(&["--diagnostic-width=140"]));
    let flags = flags(&rustflags_toml);
    let has = |f: &str| flags.iter().any(|x| x == f);

    assert!(has("--cfg"), "default rustflags include the cfg flag");
    assert!(has("trybuild"), "default rustflags include the trybuild cfg value");
    assert!(has("-A"), "default rustflags allow selected lints");
    assert!(has("dead_code"), "default rustflags allow dead_code in fixtures");
    assert!(has("--diagnostic-width=140"), "extra rustflags are appended");
    assert!(!has("instrument-coverage"), "coverage instrumentation is not forwarded when absent");
}

#[test]
fn toml_from_forwards_coverage_instrumentation() {
    let rustflags_toml = toml_from(Some("-C instrument-coverage"), &[]);
    let flags = flags(&rustflags_toml);
    let has = |f: &str| flags.iter().any(|x| x == f);

    assert!(has("-C"), "coverage forwarding includes the -C option");
    assert!(has("instrument-coverage"), "coverage forwarding includes the instrument-coverage value");
}

#[test]
fn rustflags_keep_their_order() {
    assert_eq!(
        rustflags(Some("-O -C instrument-coverage"), &strings(&["x"])),
        strings(&["--cfg", "trybuild", "--verbose", "-A", "dead_code", "-C", "instrument-coverage", "x"])
    );
    assert_eq!(rustflags(Some("-O"), &[]), strings(&["--cfg", "trybuild", "--verbose", "-A", "dead_code"]));
}

#[test]
fn single_build_plans_the_exact_cargo_arguments() {
    let rustflags_toml = toml_from(Some("-C instrument-coverage"), &strings(&["--diagnostic-width=140"]));
    let target_args = target(false, "x86_64-unknown-linux-gnu");
    let feature_args = features(&Some(strings(&["extra"])));
    let name = Name("case-name".to_owned());
    let arguments = build_arguments(Selected::CompileFailOnly, &target_args, &feature_args, BuildSelection::Named(&name), false);
    let full = project_arguments(&rustflags_toml, "x86_64-unknown-linux-gnu", &arguments);

    let mut expected = vec![
        "--offline".to_owned(),
        format!("--config=build.rustflags={rustflags_toml}"),
        format!("--config=target.x86_64-unknown-linux-gnu.rustflags={rustflags_toml}"),
        "check".to_owned(),
        "--target".to_owned(),
        "x86_64-unknown-linux-gnu".to_owned(),
    ];
    expected.extend(strings(&[
        "--bin",
        "case-name",
        "--no-default-features",
        "--features",
        "extra",
        "--quiet",
        "--color=never",
        "--message-format=json",
    ]));
    assert_eq!(full, expected);
}

#[test]
fn batched_builds_build_all_bins_and_keep_going() {
    let arguments = build_arguments(Selected::PassOnly, &[], &[], BuildSelection::All, true);
    assert_eq!(arguments, strings(&["build", "--bins", "--quiet", "--color=never", "--message-format=json", "--keep-going"]));
    assert!(target(true, "x").is_empty());
    assert!(features(&None).is_empty());
    assert_eq!(features(&Some(strings(&["a", "b"]))), strings(&["--no-default-features", "--features", "a,b"]));
}

#[test]
fn run_and_metadata_requests_keep_distinct_domain_grammars() {
    let run = run_arguments(&[], &Name("demo-tests".to_owned()), &[]);
    assert!(run.iter().any(|argument| argument == "run"), "the pass-test fallback must retain the Cargo run grammar");
    assert_eq!(run, strings(&["run", "--bin", "demo-tests", "--quiet", "--color=never"]));
    assert_eq!(metadata_arguments(), strings(&["metadata", "--no-deps", "--format-version=1"]));
    assert_eq!(clean_arguments("demo-tests"), strings(&["clean", "--package", "demo-tests", "--color=never"]));
    assert_eq!(
        dependency_arguments(Selected::Both, &[], "demo-tests", &[]),
        strings(&["build", "--bin", "demo-tests"])
    );
}

#[test]
fn project_processes_get_the_deterministic_environment() {
    let env = project_environment(&Directory::new("/w/target"));
    assert_eq!(
        env,
        vec![
            EnvChange::Assign("CARGO_TARGET_DIR".to_owned(), "/w/target/tests/trybuild".to_owned()),
            EnvChange::Remove("RUSTFLAGS".to_owned()),
            EnvChange::Assign("CARGO_INCREMENTAL".to_owned(), "0".to_owned()),
        ]
    );
}

#[test]
fn host_arguments_name_the_built_target() {
    let host = HostTarget::current();
    let target_args = host.target_arguments(false);
    assert_eq!(target_args.len(), 2);
    assert_eq!(target_args[0], "--target");
    assert!(!target_args[1].is_empty());
    assert_eq!(target_args[1], host.triple());
    assert!(host.target_arguments(true).is_empty());
    let full = host.project_arguments("[]", &strings(&["check"]));
    assert_eq!(full[0], "--offline");
    assert_eq!(full[1], "--config=build.rustflags=[]");
    assert_eq!(full[2], format!("--config=target.{}.rustflags=[]", target_args[1]));
    assert_eq!(full[3], "check");
}

#[test]
fn a_build_invocation_names_one_triple_in_its_target_and_rustflags() {
    let host = HostTarget::current();
    let name = Name("trybuild000".to_owned());
    let full = host.build_invocation("[]", false, Selected::CompileFailOnly, &[], BuildSelection::Named(&name), false);
    let triple = host.triple();
    assert_eq!(full[2], format!("--config=target.{triple}.rustflags=[]"));
    assert_eq!(&full[3..], &strings(&["check", "--target", triple, "--bin", "trybuild000", "--quiet", "--color=never", "--message-format=json"])[..]);
    let hosted = host.build_invocation("[]", true, Selected::PassOnly, &[], BuildSelection::All, true);
    assert_eq!(&hosted[3..], &strings(&["build", "--bins", "--quiet", "--color=never", "--message-format=json", "--keep-going"])[..]);
}

/// What the lockfile lookup reports.
#[derive(Clone, Copy)]
enum Lock {
    Found,
    Missing,
    Unreadable,
}

/// Drives dependency preparation with scripted outside results: the
/// lockfile lookup answers `lock`, and each cargo invocation in turn exits
/// as `exits` says. Gives the cargo requests made (arguments and whether
/// output was discarded) and how preparation ended.
fn prepare(
    selected: Selected,
    project_features: &[String],
    lock: Lock,
    exits: &[(bool, &str)],
) -> (Vec<(Vec<String>, bool)>, Result<KeepGoing, BuildError>) {
    let target = strings(&["--target", "x86_64-unknown-linux-gnu"]);
    let mut requests = Vec::new();
    let mut step = DependencyStep::Start;
    let mut event = DependencyEvent::Begin;
    loop {
        let (next, action) = dependency_step(step, event, selected, &target, "demo-tests", project_features);
        step = next;
        event = match action {
            DependencyAction::OpenWorkspaceLock => match lock {
                Lock::Found => DependencyEvent::LockfileFound,
                Lock::Missing => DependencyEvent::LockfileMissing,
                Lock::Unreadable => DependencyEvent::LockfileUnreadable,
            },
            DependencyAction::CopyLockfile => DependencyEvent::Copied,
            DependencyAction::Cargo { arguments, quiet } => {
                let (success, stderr) = exits.get(requests.len()).copied().expect("a scripted cargo result");
                requests.push((arguments, quiet));
                DependencyEvent::Exited { success, stderr: stderr.to_owned() }
            },
            DependencyAction::Fail(error) => return (requests, Err(error)),
            DependencyAction::Done(keep_going) => return (requests, Ok(keep_going)),
            DependencyAction::Nothing => panic!("preparation stalled"),
        };
    }
}

#[test]
fn build_dependencies_generates_lockfile_and_records_keep_going() {
    let extra = features(&Some(strings(&["extra"])));
    let (requests, result) =
        prepare(Selected::CompileFailOnly, &extra, Lock::Missing, &[(true, ""), (true, ""), (true, ""), (true, "")]);
    assert!(matches!(result, Ok(KeepGoing::Yes)), "modern cargo support for --keep-going is recorded");
    assert_eq!(requests[0], (strings(&["generate-lockfile"]), false), "missing workspace lockfiles are regenerated");
    let mut build = strings(&["check", "--target", "x86_64-unknown-linux-gnu", "--bin", "demo-tests"]);
    build.extend(extra);
    assert_eq!(requests[1], (build.clone(), false), "the dependency build checks the project's own bin");
    build.push("--keep-going".to_owned());
    assert_eq!(requests[2], (build, true));
    assert_eq!(requests[3], (strings(&["clean", "--package", "demo-tests", "--color=never"]), true));
    assert_eq!(requests.len(), 4);
}

#[test]
fn build_dependencies_reports_dependency_build_errors() {
    let (requests, result) = prepare(Selected::PassOnly, &[], Lock::Missing, &[(false, ""), (false, "error: boom")]);
    match result {
        Err(BuildError::DependencyBuild(output)) => assert_eq!(output.output, "error: boom"),
        _ => panic!("dependency build failures are captured as data"),
    }
    assert_eq!(requests[1].0[0], "build", "a selected pass case builds rather than checks");
    assert_eq!(requests.len(), 2, "a failed lockfile generation is ignored, a failed build is not");
}

#[test]
fn build_dependencies_ignores_non_missing_workspace_lockfile_errors() {
    let (requests, result) = prepare(Selected::CompileFailOnly, &[], Lock::Unreadable, &[(true, ""), (false, ""), (true, "")]);
    assert!(
        matches!(result, Ok(KeepGoing::No)),
        "non-missing lockfile open errors are ignored in favor of the cargo build result"
    );
    assert_eq!(requests[0].0[0], "check", "no lockfile is generated when the workspace lockfile exists");
    assert_eq!(requests.len(), 3);
}

#[test]
fn dependency_preparation_continues_when_the_destination_lockfile_cannot_be_seeded() {
    let (requests, result) = prepare(Selected::Both, &[], Lock::Found, &[(true, ""), (true, ""), (true, "")]);
    assert!(result.is_ok(), "dependency preparation must defer an unseedable destination lockfile to Cargo");
    assert_eq!(
        requests.len(),
        3,
        "an unseedable lockfile must not skip dependency build, keep-going probing, or cleanup"
    );
}

#[test]
fn dependency_preparation_stops_after_a_terminal_build_failure() {
    let (requests, result) = prepare(Selected::CompileFailOnly, &[], Lock::Found, &[(false, "dependency failed")]);
    assert!(result.is_err(), "a failed dependency build must terminate preparation");
    assert_eq!(requests.len(), 1, "keep-going probing and cleanup must not run after terminal dependency failure");
}

#[test]
fn dependency_preparation_interprets_keep_going_in_both_directions() {
    for (probe_success, expected) in [(true, KeepGoing::Yes), (false, KeepGoing::No)] {
        let (requests, result) =
            prepare(Selected::CompileFailOnly, &[], Lock::Found, &[(true, ""), (probe_success, ""), (true, "")]);
        assert!(result.map(|k| k == expected).unwrap_or(false), "the keep-going probe is read in both directions");
        assert_eq!(requests.len(), 3, "successful preparation must build dependencies, probe keep-going, and clean");
        assert!(requests[1].1, "the keep-going probe must discard its output");
        assert!(requests[2].1, "suite cleanup must discard its output");
    }
}

#[test]
fn dependency_step_ignores_events_that_do_not_belong_to_the_step() {
    let (next, action) = dependency_step(DependencyStep::Start, DependencyEvent::Copied, Selected::Both, &[], "demo", &[]);
    assert!(next == DependencyStep::Start);
    assert!(matches!(action, DependencyAction::Nothing));
}
