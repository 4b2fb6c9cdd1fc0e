use trybuild::directory::Directory;
use trybuild::messages::{
    parse_cargo_json, split_messages, CargoEvent, CompilerArtifact, CompilerMessage, ProjectPaths, Registered,
};
use trybuild::model::{Expected, Name, Test};

fn paths() -> ProjectPaths {
    ProjectPaths {
        source_dir: Directory::new("/fixture/source"),
        workspace: Directory::new("/fixture"),
        target_dir: Directory::new("/fixture/target"),
        path_dependencies: Vec::new(),
    }
}

fn registered(source: &str) -> Vec<Registered> {
    vec![Registered {
        src_path: source.to_owned(),
        name: Name("trybuild000".to_owned()),
        test: Test { path: "case.rs".to_owned(), expected: Expected::CompileFail },
    }]
}

fn compiler_message(target: &str, source: &str, level: &str, rendered: &str) -> String {
    let target_json = serde_json::Value::String(target.to_owned());
    let source_json = serde_json::Value::String(source.to_owned());
    let level_json = serde_json::Value::String(level.to_owned());
    let rendered_json = serde_json::Value::String(rendered.to_owned());
    format!(
        r#"{{"reason":"compiler-message","target":{{"name":{target_json},"src_path":{source_json}}},"message":{{"rendered":{rendered_json},"level":{level_json}}}}}"#
    )
}

fn compiler_artifact(target: &str, source: &str, executable: Option<&str>) -> String {
    let target_json = serde_json::Value::String(target.to_owned());
    let source_json = serde_json::Value::String(source.to_owned());
    let executable_json = executable.map_or(serde_json::Value::Null, |path| serde_json::Value::String(path.to_owned()));
    format!(r#"{{"reason":"compiler-artifact","target":{{"name":{target_json},"src_path":{source_json}}},"executable":{executable_json}}}"#)
}

fn text(v: &serde_json::Value, key: &str) -> Option<String> {
    v.get(key).and_then(serde_json::Value::as_str).map(ToOwned::to_owned)
}

/// Reads one JSON message line the way the runner's caller does.
fn decode(line: &str) -> Option<CargoEvent> {
    let v: serde_json::Value = serde_json::from_str(line).ok()?;
    let target = v.get("target")?;
    let target_name = text(target, "name")?;
    let src_path = text(target, "src_path")?;
    match v.get("reason")?.as_str()? {
        "compiler-message" => {
            let message = v.get("message")?;
            Some(CargoEvent::Message(CompilerMessage {
                target_name,
                src_path,
                level: text(message, "level")?,
                rendered: text(message, "rendered")?,
            }))
        },
        "compiler-artifact" => Some(CargoEvent::Artifact(CompilerArtifact {
            target_name,
            src_path,
            executable: text(&v, "executable"),
        })),
        _ => None,
    }
}

fn parse(stdout: &str, regs: &[Registered]) -> trybuild::messages::ParsedOutputs {
    let split = split_messages(stdout);
    let events = split.messages.iter().map(|line| decode(line)).collect();
    parse_cargo_json(&paths(), regs, split.other, events)
}

#[test]
fn parse_cargo_json_records_matching_diagnostics_and_executables() {
    let source = "/fixture/source/case.rs";
    let executable = "/fixture/target/debug/trybuild000";
    let warning = compiler_message("trybuild000", source, "warning", "warning: caution\n");
    let error = compiler_message("trybuild000", source, "error", "error: broken\n");
    let artifact = compiler_artifact("trybuild000", source, Some(executable));
    let stdout = format!("prelude\n{warning}\n{warning}\n{error}\n{artifact}\ntrailer\n");

    let parsed = parse(&stdout, &registered(source));
    let stderr = parsed.stderr_of(source).expect("matching diagnostics are recorded");
    let executable_path = parsed.executable_of(source).expect("matching compiler artifacts record their executable");

    assert!(parsed.stdout() == "prelude\ntrailer\n", "non-message cargo stdout is preserved");
    assert!(!stderr.success, "an error-level diagnostic marks the test as failed");
    assert!(stderr.stderr.preferred().contains("warning: caution"), "warning diagnostics are normalized into stderr");
    assert!(stderr.stderr.preferred().contains("error: broken"), "error diagnostics are normalized into stderr");
    assert!(executable_path == executable, "matching artifact executable paths are retained");
    assert_eq!(stderr.stderr.preferred(), "warning: caution\n\nerror: broken\n", "duplicate messages are read once");
}

#[test]
fn parse_cargo_json_discards_unrelated_messages_and_artifacts() {
    let source = "/fixture/source/case.rs";
    let other = "/fixture/source/other.rs";
    let failure_note = compiler_message("trybuild000", source, "failure-note", "error: skipped\n");
    let wrong_source = compiler_message("trybuild000", other, "error", "error: skipped\n");
    let wrong_target = compiler_message("trybuild999", source, "error", "error: skipped\n");
    let missing_executable = compiler_artifact("trybuild000", source, None);
    let wrong_artifact_source = compiler_artifact("trybuild000", other, Some("/fixture/other-bin"));
    let wrong_artifact_target = compiler_artifact("trybuild999", source, Some("/fixture/wrong-bin"));
    let unknown = r#"{"reason":"build-finished","success":true}"#;
    let stdout = format!(
        "{failure_note}\n{wrong_source}\n{wrong_target}\n{missing_executable}\n{wrong_artifact_source}\n{wrong_artifact_target}\n{unknown}\n"
    );

    let parsed = parse(&stdout, &registered(source));

    assert!(parsed.stdout().is_empty(), "discarded JSON messages do not leak into cargo stdout");
    assert!(parsed.stderr_of(source).is_none() && parsed.stderr_of(other).is_none(), "unrelated diagnostics are discarded");
    assert!(parsed.executable_of(source).is_none() && parsed.executable_of(other).is_none(), "unrelated artifacts are discarded");
}

#[test]
fn split_messages_keeps_each_line_once_and_the_text_around() {
    let split = split_messages("a{\"reason\":1}\nb\n{\"reason\":1}\n{\"reason\":2}");
    assert_eq!(split.messages, vec!["{\"reason\":1}\n".to_owned(), "{\"reason\":2}".to_owned()]);
    assert_eq!(split.other, "ab\n");
    let none = split_messages("plain text\n");
    assert!(none.messages.is_empty());
    assert_eq!(none.other, "plain text\n");
}
