use trybuild::errors::{CompileFailure, MismatchDetail, RunOutput, UnexpectedSuccess};
use trybuild::model::Expected;
use trybuild::outcome::{OverwriteDetail, PassDetail, WipDetail};
use trybuild::report::{
    diff_sides, render_case, render_mismatch, render_no_tests, render_overwrite, render_pass, render_setup_fail,
    render_shown, render_wip, small_enough, wants_diff, worth_printing, Command, DiffChunk, Render, Shown,
};
use trybuild::report::{play, Color, Style, TermOp};
use trybuild::Update;

const PASS_RENDER: &str = "ok|WARNINGS:|warning payload|STDOUT:|stdout payload|STDERR:|stderr payload";
const ERROR_RENDER: &str = "Expected test case to fail to compile, but it succeeded.|build stdout|compiler diagnostics|Test case failed \
                            at runtime.|run stdout|run stderr|run warning";
const MISMATCH_RENDER: &str = "mismatch|EXPECTED:|expected text|ACTUAL OUTPUT:|actual text|TRYBUILD=overwrite";
const SNAPSHOT_RENDER: &str = "wip|NOTE|snapshot output|wip/case.stderr|tests/ui/case.stderr";
const RUNNER_RENDER: &str = "There are no trybuild tests enabled yet.|ERROR|unrecognized value of TRYBUILD";

/// The text the commands write, without colors.
fn text(commands: &[Command]) -> String {
    commands
        .iter()
        .filter_map(|c| match c {
            Command::Emit(t) => Some(t.as_str()),
            _ => None,
        })
        .collect()
}

fn ensure_rendered(text: &str, needles: &str, context: &str) {
    for needle in needles.split('|') {
        assert!(text.contains(needle), "{context}: missing {needle:?} in {text:?}");
    }
}

fn empty_pass() -> PassDetail {
    PassDetail { stdout: String::new(), stderr: String::new(), warnings: String::new() }
}

#[test]
fn render_case_includes_expected_labels_for_mixed_suites() {
    let pass = empty_pass();
    let mut commands = render_case("tests/ui/pass.rs", Expected::Pass, true, &Shown::Passed(&pass));
    commands.extend(render_case("tests/ui/fail.rs", Expected::CompileFail, true, &Shown::Passed(&pass)));
    commands.extend(render_case("tests/ui/fail.rs", Expected::CompileFail, false, &Shown::Passed(&pass)));
    ensure_rendered(
        &text(&commands),
        "tests/ui/pass.rs|[should pass]|tests/ui/fail.rs|[should fail to compile]|ok",
        "case render includes source names, expected labels, and pass status",
    );
}

#[test]
fn render_snapshot_write_outcomes_include_paths_and_contents() {
    let wip = WipDetail {
        wip_path: "wip/case.stderr".to_owned(),
        stderr_path: "tests/ui/case.stderr".to_owned(),
        stderr: "snapshot output\n".to_owned(),
    };
    let overwrite = OverwriteDetail { stderr_path: "tests/ui/case.stderr".to_owned(), stderr: "snapshot output\n".to_owned() };
    let mut commands = Vec::new();
    render_wip(&mut commands, &wip);
    render_overwrite(&mut commands, &overwrite);
    ensure_rendered(&text(&commands), SNAPSHOT_RENDER, "snapshot write renders include destination paths and contents");
}

#[test]
fn render_setup_and_no_test_messages() {
    let message = Update::parse(Some("later")).err().expect("rejected").message();
    let mut commands = render_no_tests();
    commands.extend(render_setup_fail(&message));
    ensure_rendered(&text(&commands), RUNNER_RENDER, "setup and no-test renders include their user-facing messages");
}

#[test]
fn render_pass_includes_warnings_and_captured_streams() {
    let detail = PassDetail {
        stdout: "stdout payload\n".to_owned(),
        stderr: "stderr payload\n".to_owned(),
        warnings: "warning payload\n".to_owned(),
    };
    let mut commands = Vec::new();
    render_pass(&mut commands, &detail);
    ensure_rendered(&text(&commands), PASS_RENDER, "passing cases include status, warnings, and streams");
}

#[test]
fn render_error_dispatches_rich_failure_details() {
    let unexpected = UnexpectedSuccess { stdout: "build stdout\n".to_owned(), warnings: "unexpected warning\n".to_owned() };
    let compile_failed = CompileFailure { diagnostics: "compiler diagnostics\n".to_owned() };
    let run_failed = RunOutput {
        stdout: "run stdout\n".to_owned(),
        stderr: "run stderr\n".to_owned(),
        warnings: "run warning\n".to_owned(),
    };
    let mut commands = Vec::new();
    render_shown(&mut commands, &Shown::CompiledUnexpectedly(&unexpected));
    render_shown(&mut commands, &Shown::FailedToBuild(&compile_failed));
    render_shown(&mut commands, &Shown::RunFailed(&run_failed));
    ensure_rendered(&text(&commands), ERROR_RENDER, "rich error render includes all selected failure details");
}

#[test]
fn render_error_handles_fallback_and_runtime_without_output() {
    let message = Update::parse(Some("later")).err().expect("rejected").message();
    let quiet = RunOutput { stdout: String::new(), stderr: String::new(), warnings: String::new() };
    let mut commands = Vec::new();
    render_shown(&mut commands, &Shown::Other(message));
    render_shown(&mut commands, &Shown::RunFailed(&quiet));
    ensure_rendered(
        &text(&commands),
        "unrecognized value of TRYBUILD|Execution of the test case was unsuccessful but there was no output.",
        "fallback and quiet runtime errors render their messages",
    );
}

#[test]
fn mismatch_render_includes_both_sides_and_blessing_advice() {
    let mut commands = Vec::new();
    render_mismatch(&mut commands, "expected text\n", "actual text\n", &None);
    ensure_rendered(&text(&commands), MISMATCH_RENDER, "mismatch render includes sides and blessing advice");
    let detail = MismatchDetail { expected: "a\n".to_owned(), actual: "b\n".to_owned() };
    let mut shown = Vec::new();
    render_shown(&mut shown, &Shown::Mismatch(&detail, None));
    assert_eq!(text(&shown), text(&{
        let mut c = Vec::new();
        render_mismatch(&mut c, "a\n", "b\n", &None);
        c
    }));
}

fn chunks(expected: &str, actual: &str) -> Vec<DiffChunk> {
    dissimilar::diff(expected, actual)
        .into_iter()
        .map(|chunk| match chunk {
            dissimilar::Chunk::Equal(t) => DiffChunk::Equal(t.to_owned()),
            dissimilar::Chunk::Delete(t) => DiffChunk::Delete(t.to_owned()),
            dissimilar::Chunk::Insert(t) => DiffChunk::Insert(t.to_owned()),
        })
        .collect()
}

#[test]
fn compute_diff_skips_unhelpful_terminal_modes() {
    assert!(!wants_diff(None), "unset TERM skips diff computation");
    assert!(!wants_diff(Some("dumb")), "dumb TERM skips diff computation");
    assert!(wants_diff(Some("xterm-256color")), "useful terminals enable diff computation");
}

#[test]
fn compute_declines_oversized_or_low_similarity_input() {
    let oversized = "x".repeat(2049);
    assert!(!small_enough(&oversized, ""), "large inputs skip diff computation");
    assert!(small_enough(&"x".repeat(2048), ""));
    let (e, a) = ("aaaa\nbbbb\n", "xxxx\nyyyy\n");
    assert!(!worth_printing(e, a, &chunks(e, a)), "low-similarity inputs skip diff computation");
}

#[test]
fn iter_marks_unique_runs_for_each_side() {
    let expected = "prefix same X suffix same";
    let actual = "prefix same Y suffix same";
    let found = chunks(expected, actual);
    assert!(worth_printing(expected, actual, &found), "similar snapshots produce a diff");
    let sides = diff_sides(expected, actual, &found);
    let show = |runs: &[Render]| -> Vec<String> {
        runs.iter()
            .map(|r| match r {
                Render::Common(t) => format!("common:{t}"),
                Render::Unique(t) => format!("unique:{t}"),
            })
            .collect()
    };
    let expected_chunks = show(&sides.expected);
    let actual_chunks = show(&sides.actual);
    assert!(expected_chunks.iter().any(|chunk| chunk == "unique:X"), "expected-side iteration highlights deleted text");
    assert!(actual_chunks.iter().any(|chunk| chunk == "unique:Y"), "actual-side iteration highlights inserted text");
    assert!(
        expected_chunks.iter().any(|chunk| chunk.starts_with("common:prefix same")),
        "expected-side iteration keeps common prefix text"
    );
    assert!(actual_chunks.iter().any(|chunk| chunk.ends_with("suffix same")), "actual-side iteration keeps common suffix text");
}

#[test]
fn snippets_are_framed_by_sixty_dashes() {
    let mut commands = Vec::new();
    render_pass(&mut commands, &PassDetail { stdout: "out\n".to_owned(), stderr: String::new(), warnings: String::new() });
    let dashes = "-".repeat(60);
    assert_eq!(text(&commands), format!("ok\n\nSTDOUT:\n{dashes}\nout\n{dashes}\n\n"));
    assert_eq!(commands.first(), Some(&Command::Paint(Color::Green)));
}

#[test]
fn styled_text_is_colored_again_on_every_line() {
    let commands = vec![
        Command::BoldPaint(Color::Red),
        Command::Emit("one\ntwo".to_owned()),
        Command::Emit(" more\n".to_owned()),
        Command::Reset,
        Command::Emit("plain\n".to_owned()),
    ];
    assert_eq!(
        play(&commands),
        vec![
            TermOp::SetColor(Style::BoldFg(Color::Red)),
            TermOp::Write("one\n".to_owned()),
            TermOp::SetColor(Style::BoldFg(Color::Red)),
            TermOp::Write("two".to_owned()),
            TermOp::Write(" more\n".to_owned()),
            TermOp::ResetColor,
            TermOp::Write("plain\n".to_owned()),
        ]
    );
    let same_style_twice = vec![Command::Paint(Color::Blue), Command::Emit("a".to_owned()), Command::Paint(Color::Blue), Command::Emit("b".to_owned())];
    assert_eq!(
        play(&same_style_twice),
        vec![TermOp::SetColor(Style::Fg(Color::Blue)), TermOp::Write("a".to_owned()), TermOp::Write("b".to_owned())]
    );
}
