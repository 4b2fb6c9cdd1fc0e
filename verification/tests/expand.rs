use trybuild::errors::RunnerError;
use trybuild::expand::{bin_name, expand_globs, is_glob, ExpandedTest};
use trybuild::model::{Expected, Test};

fn registered(path: &str, expected: Expected) -> Test {
    Test { path: path.to_owned(), expected }
}

fn entry(entries: &[ExpandedTest], index: usize) -> &ExpandedTest {
    entries.get(index).expect("expanded entry exists")
}

/// What listing the files that match a pattern gives: the paths in the
/// order found, or the pattern's error.
fn listed(pattern: &str) -> Option<Result<Vec<String>, RunnerError>> {
    if !is_glob(pattern) {
        return None;
    }
    Some(match glob::glob(pattern) {
        Ok(paths) => {
            Ok(paths.filter_map(Result::ok).map(|p| p.to_string_lossy().into_owned()).collect())
        },
        Err(error) => Err(RunnerError::Pattern(error)),
    })
}

#[test]
fn expand_globs_sorts_matches_and_assigns_names() {
    let pattern = "fixture/*.rs";
    let globbed = vec![Some(Ok(vec!["fixture/b.rs".to_owned(), "fixture/a.rs".to_owned()]))];
    let expanded = expand_globs(&[registered(pattern, Expected::CompileFail)], globbed);
    let first = entry(&expanded, 0);
    let second = entry(&expanded, 1);

    assert!(expanded.len() == 2, "glob expansion produces one entry per match");
    assert!(first.name.0 == "trybuild000", "first expanded entry receives the first generated name");
    assert!(second.name.0 == "trybuild001", "second expanded entry receives the second generated name");
    assert!(first.test.path == "fixture/a.rs", "glob expansion sorts paths before insertion");
    assert!(second.test.path == "fixture/b.rs", "glob expansion preserves the sorted second path");
    assert!(first.is_from_glob, "glob matches are marked as glob-derived");
}

#[test]
fn invalid_glob_is_reported_on_the_registered_case() {
    let tests = [registered("[*.rs", Expected::CompileFail)];
    let globbed = tests.iter().map(|t| listed(&t.path)).collect();
    let expanded = expand_globs(&tests, globbed);
    let first = entry(&expanded, 0);

    assert!(expanded.len() == 1, "invalid globs still produce one reportable entry");
    assert!(first.error.is_some(), "invalid glob errors are stored on the entry");
    assert!(!first.is_from_glob, "invalid glob entries are not marked as matches");
}

#[test]
fn explicit_paths_override_globs_but_explicit_duplicates_remain() {
    let alpha = "fixture/a.rs";
    let beta = "fixture/b.rs";
    let globbed = vec![Some(Ok(vec![alpha.to_owned(), beta.to_owned()])), None, None];
    let expanded = expand_globs(
        &[
            registered("fixture/*.rs", Expected::CompileFail),
            registered(beta, Expected::Pass),
            registered(beta, Expected::CompileFail),
        ],
        globbed,
    );
    let first = entry(&expanded, 0);
    let second = entry(&expanded, 1);
    let third = entry(&expanded, 2);

    assert!(expanded.len() == 3, "an explicit duplicate remains after overriding a glob match");
    assert!(first.test.path == alpha, "the non-overridden glob match remains first");
    assert!(second.test.path == beta, "the explicit path replaces the glob-derived entry");
    assert!(matches!(second.test.expected, Expected::Pass), "the explicit path overrides the glob expectation");
    assert!(!second.is_from_glob, "the overridden entry is no longer considered glob-derived");
    assert!(third.test.path == beta, "a later explicit duplicate is kept as its own entry");
}

#[test]
fn bin_names_are_zero_padded_to_three_digits() {
    assert_eq!(bin_name(0).0, "trybuild000");
    assert_eq!(bin_name(7).0, "trybuild007");
    assert_eq!(bin_name(42).0, "trybuild042");
    assert_eq!(bin_name(999).0, "trybuild999");
    assert_eq!(bin_name(1234).0, "trybuild1234");
}

#[test]
fn only_paths_with_a_star_are_globs() {
    assert!(is_glob("tests/ui/*.rs"));
    assert!(!is_glob("tests/ui/a.rs"));
    let expanded = expand_globs(&[registered("tests/ui/a.rs", Expected::Pass)], vec![Some(Ok(vec!["ignored.rs".to_owned()]))]);
    assert_eq!(expanded.len(), 1);
    assert_eq!(expanded[0].test.path, "tests/ui/a.rs");
    assert!(!expanded[0].is_from_glob);
}

#[test]
fn expanded_cases_are_named_after_their_position() {
    let globbed = vec![Some(Ok(vec!["g/a.rs".to_owned(), "g/b.rs".to_owned()])), None, None];
    let expanded = expand_globs(
        &[registered("g/*.rs", Expected::Pass), registered("g/a.rs", Expected::CompileFail), registered("x.rs", Expected::Pass)],
        globbed,
    );
    let names: Vec<&str> = expanded.iter().map(|e| e.name.0.as_str()).collect();
    assert_eq!(names, vec!["trybuild000", "trybuild001", "trybuild002"]);
    assert_eq!(expanded[0].test.expected, Expected::CompileFail);
}

#[test]
fn bin_names_never_repeat() {
    let names: std::collections::BTreeSet<String> = (0..1200).map(|i| bin_name(i).0).collect();
    assert_eq!(names.len(), 1200);
}

#[test]
fn glob_matches_are_ordered_by_path_components() {
    let globbed = vec![Some(Ok(vec!["dir/a-b.rs".to_owned(), "dir/a/b.rs".to_owned(), "dir/A.rs".to_owned()]))];
    let expanded = expand_globs(&[registered("dir/**/*.rs", Expected::Pass)], globbed);
    let paths: Vec<&str> = expanded.iter().map(|e| e.test.path.as_str()).collect();
    assert_eq!(paths, vec!["dir/A.rs", "dir/a/b.rs", "dir/a-b.rs"]);
    let names: Vec<&str> = expanded.iter().map(|e| e.name.0.as_str()).collect();
    assert_eq!(names, vec!["trybuild000", "trybuild001", "trybuild002"]);
}

#[test]
fn every_expanded_case_is_named_by_its_position() {
    let tests: Vec<Test> = (0..12).map(|i| registered(&format!("tests/ui/case{i}.rs"), Expected::Pass)).collect();
    let globbed = tests.iter().map(|_| None).collect();
    let expanded = expand_globs(&tests, globbed);
    for (i, entry) in expanded.iter().enumerate() {
        assert_eq!(entry.name.0, format!("trybuild{i:03}"));
    }
    for i in [0usize, 7, 42, 999, 1000, 12345] {
        assert_eq!(bin_name(i).0, format!("trybuild{i:03}"));
    }
}
