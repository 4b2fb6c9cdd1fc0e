use trybuild::directory::Directory;
use trybuild::expand::expand_globs;
use trybuild::messages::split_messages;
use trybuild::model::{Expected, PathDependency, Test};
use trybuild::normalize::{self, Context};
use trybuild::runner::{aggregate, case_status, check_compile_fail, CaseStatus, Reconciliation, Snapshot};
use trybuild::{Outcome, OverwriteDetail, PassDetail, WipDetail};
use trybuild::Update;

fn context_parts() -> (Directory, Directory, Directory, Vec<PathDependency>) {
    (Directory::new("/w/crate"), Directory::new("/w"), Directory::new("/w/target"), Vec::new())
}

#[test]
fn trimming_is_idempotent_and_ends_in_one_newline() {
    for s in ["", "  \n\t", "text  \n\n", "a\nb", "x\r\n"] {
        let once = normalize::trim(s);
        assert_eq!(normalize::trim(&once), once);
        assert!(once.is_empty() || (once.ends_with('\n') && !once[..once.len() - 1].ends_with(char::is_whitespace)));
    }
}

#[test]
fn every_variation_is_trimmed_and_no_output_gives_empty_variations() {
    let (source_dir, workspace, target_dir, deps) = context_parts();
    let context = Context {
        krate: "demo",
        source_dir: &source_dir,
        workspace: &workspace,
        input_file: "tests/ui/a.rs",
        target_dir: &target_dir,
        path_dependencies: &deps,
    };
    let v = normalize::diagnostics("error: x   \n\n\n", &context);
    for i in 0..v.len() {
        assert_eq!(normalize::trim(v.get(i)), v.get(i));
    }
    let empty = normalize::diagnostics("", &context);
    for i in 0..empty.len() {
        assert_eq!(empty.get(i), "");
    }
    let mut joined = normalize::diagnostics("error: y\n", &context);
    let before: Vec<String> = (0..joined.len()).map(|i| joined.get(i).to_owned()).collect();
    joined.concat(&empty);
    let after: Vec<String> = (0..joined.len()).map(|i| joined.get(i).to_owned()).collect();
    assert_eq!(before, after);
}

#[test]
fn modes_decide_what_a_compile_fail_case_may_write() {
    let (source_dir, workspace, target_dir, deps) = context_parts();
    let context = Context {
        krate: "demo",
        source_dir: &source_dir,
        workspace: &workspace,
        input_file: "tests/ui/a.rs",
        target_dir: &target_dir,
        path_dependencies: &deps,
    };
    let v = normalize::diagnostics("error: z\n", &context);
    for snapshot in [None, Some("error: other\n"), Some("error: z\n")] {
        let make = || match snapshot {
            None => Snapshot::Missing,
            Some(s) => Snapshot::Saved(s.to_owned()),
        };
        let verify = check_compile_fail("tests/ui/a.rs", false, "", &v, Update::Verify, make());
        assert!(matches!(verify, Reconciliation::Done(_)));
        let wip = check_compile_fail("tests/ui/a.rs", false, "", &v, Update::Wip, make());
        assert!(!matches!(wip, Reconciliation::Overwrite(_)));
        let overwrite = check_compile_fail("tests/ui/a.rs", false, "", &v, Update::Overwrite, make());
        assert!(!matches!(overwrite, Reconciliation::Done(Err(_))));
    }
}

#[test]
fn runs_succeed_only_when_every_case_settled() {
    assert!(aggregate(&[CaseStatus::Passed, CaseStatus::Overwrote]).is_ok());
    assert!(aggregate(&[CaseStatus::Passed, CaseStatus::CreatedWip]).is_err());
    assert!(aggregate(&[CaseStatus::CreatedWip, CaseStatus::Failed]).is_err());
}

#[test]
fn expansions_are_named_by_position_and_messages_read_once() {
    let tests = vec![
        Test { path: "g/*.rs".to_owned(), expected: Expected::Pass },
        Test { path: "g/b.rs".to_owned(), expected: Expected::CompileFail },
        Test { path: "c.rs".to_owned(), expected: Expected::Pass },
    ];
    let expanded = expand_globs(&tests, vec![Some(Ok(vec!["g/a.rs".to_owned(), "g/b.rs".to_owned()])), None, None]);
    for (i, e) in expanded.iter().enumerate() {
        assert_eq!(e.name.0, format!("trybuild{i:03}"));
    }
    let split = split_messages("{\"reason\":\"x\"}\n{\"reason\":\"x\"}\nmid\n{\"reason\":\"y\"}\n");
    assert_eq!(split.messages.len(), 2);
    assert!(split.messages.iter().all(|m| m.starts_with("{\"reason\":")));
    assert_ne!(split.messages[0], split.messages[1]);
}

#[test]
fn windows_line_endings_normalize_like_unix_ones() {
    let (source_dir, workspace, target_dir, deps) = context_parts();
    let context = Context {
        krate: "demo",
        source_dir: &source_dir,
        workspace: &workspace,
        input_file: "tests/ui/a.rs",
        target_dir: &target_dir,
        path_dependencies: &deps,
    };
    let crlf = normalize::diagnostics("error: x\r\n --> /w/crate/tests/ui/a.rs:1:1\r\n", &context);
    let lf = normalize::diagnostics("error: x\n --> /w/crate/tests/ui/a.rs:1:1\n", &context);
    let all = |v: &normalize::Variations| (0..v.len()).map(|i| v.get(i).to_owned()).collect::<Vec<String>>();
    assert_eq!(all(&crlf), all(&lf));
    let raw = "error: a\r\r\nb\n";
    let once = raw.replace("\r\n", "\n");
    assert_eq!(once, "error: a\r\nb\n");
    assert_eq!(all(&normalize::diagnostics(raw, &context)), all(&normalize::diagnostics(&once, &context)));
}

#[test]
fn carriage_returns_before_a_line_ending_are_read_once() {
    let (source_dir, workspace, target_dir, deps) = context_parts();
    let context = Context {
        krate: "demo",
        source_dir: &source_dir,
        workspace: &workspace,
        input_file: "tests/ui/a.rs",
        target_dir: &target_dir,
        path_dependencies: &deps,
    };
    let raw = "error: a\r\r\r\nb\n";
    let once = raw.replace("\r\n", "\n");
    let all = |v: &normalize::Variations| (0..v.len()).map(|i| v.get(i).to_owned()).collect::<Vec<String>>();
    let direct = all(&normalize::diagnostics(raw, &context));
    let reread = all(&normalize::diagnostics(&once, &context));
    assert_eq!(direct[0], "error: a\r\nb\n");
    assert_eq!(reread[0], "error: a\nb\n");
    assert_eq!(direct.last(), reread.last());
}

#[test]
fn a_run_succeeds_only_when_every_case_passed_or_overwrote() {
    let passed = || Ok::<Outcome, String>(Outcome::Passed(Box::new(PassDetail { stdout: String::new(), stderr: String::new(), warnings: String::new() })));
    let overwrote = || Ok::<Outcome, String>(Outcome::Overwrote(Box::new(OverwriteDetail { stderr_path: "a.stderr".to_owned(), stderr: String::new() })));
    let wip = || Ok::<Outcome, String>(Outcome::CreatedWip(Box::new(WipDetail { wip_path: "wip/a.stderr".to_owned(), stderr_path: "a.stderr".to_owned(), stderr: String::new() })));
    let failed = || Err::<Outcome, String>("boom".to_owned());
    let run = |outcomes: Vec<Result<Outcome, String>>| aggregate(&outcomes.iter().map(case_status).collect::<Vec<CaseStatus>>());
    assert!(run(vec![passed(), overwrote()]).is_ok());
    assert!(run(vec![]).is_ok());
    assert!(run(vec![passed(), wip()]).is_err());
    assert!(run(vec![failed(), passed()]).is_err());
    assert!(case_status(&failed()) == CaseStatus::Failed);
    assert!(case_status(&wip()) == CaseStatus::CreatedWip);
}
