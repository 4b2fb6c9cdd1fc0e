use trybuild::Update;

#[test]
fn parse_accepts_default_and_known_modes() {
    let verify = Update::parse(Some("verify")).expect("verify mode parses");
    let wip = Update::parse(Some("wip")).expect("wip mode parses");
    let overwrite = Update::parse(Some("overwrite")).expect("overwrite mode parses");
    let defaulted = Update::parse(None).expect("unset mode defaults");

    assert!(verify == Update::Verify, "verify selects verify mode");
    assert!(wip == Update::Wip, "wip selects wip mode");
    assert!(overwrite == Update::Overwrite, "overwrite selects overwrite mode");
    assert!(defaulted == Update::Wip, "unset TRYBUILD defaults to wip mode");
}

#[test]
fn parse_rejects_unknown_modes() {
    let error = Update::parse(Some("later")).err();
    assert!(
        error.is_some_and(|err| err.message().contains("verify")),
        "unrecognized TRYBUILD values report the supported modes"
    );
    assert!(Update::parse(Some("later")).is_err(), "unrecognized values are rejected");
}

#[test]
fn unrecognized_update_message_quotes_the_value() {
    let error = Update::parse(Some("later")).err().expect("rejected");
    assert_eq!(error.value, "later");
    assert_eq!(
        error.message(),
        r#"unrecognized value of TRYBUILD: "later" is not one of "verify", "wip", "overwrite""#
    );
    let escaped = Update::parse(Some("a\"b")).err().expect("rejected");
    assert_eq!(
        escaped.message(),
        r#"unrecognized value of TRYBUILD: "a\"b" is not one of "verify", "wip", "overwrite""#
    );
}

#[test]
fn mode_names_are_case_sensitive() {
    assert!(Update::parse(Some("Verify")).is_err());
    assert!(Update::parse(Some("")).is_err());
    assert_eq!(Update::default(), Update::Wip);
}
