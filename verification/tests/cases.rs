use trybuild::model::Expected;
use trybuild::TestCases;

#[test]
fn default_matches_new_and_registrations_preserve_order() {
    let empty = TestCases::default();
    let mut cases = TestCases::new();

    cases.pass("tests/ui/pass.rs");
    cases.compile_fail("tests/ui/fail.rs");
    let pass = cases.tests().first().expect("pass registration is present");
    let compile_fail = cases.tests().get(1).expect("compile-fail registration is present");

    assert!(empty.tests().is_empty(), "default creates an empty test collection");
    assert!(cases.tests().len() == 2, "registrations append test cases");
    assert!(pass.path == "tests/ui/pass.rs", "pass registrations preserve their path");
    assert!(compile_fail.path == "tests/ui/fail.rs", "compile-fail registrations preserve their path");
    assert!(format!("{:?}", pass.expected) == "Pass", "pass registrations preserve their expected outcome");
    assert!(
        format!("{:?}", compile_fail.expected) == "CompileFail",
        "compile-fail registrations preserve their expected outcome"
    );
}

#[test]
fn registrations_keep_declaration_order_across_kinds() {
    let mut cases = TestCases::new();
    cases.compile_fail("a.rs");
    cases.pass("b.rs");
    cases.compile_fail("c.rs");
    let seen: Vec<(&str, Expected)> = cases.tests().iter().map(|t| (t.path.as_str(), t.expected)).collect();
    assert_eq!(
        seen,
        vec![("a.rs", Expected::CompileFail), ("b.rs", Expected::Pass), ("c.rs", Expected::CompileFail)]
    );
}
