//! What the terminal report of a run says: for each case, its name, its
//! expectation when the suite mixes both kinds, and its outcome with the
//! output, warnings, snapshots or diff it carries; plus the diff of a
//! mismatch itself, as far as it is decided here.
//!
//! A report is a list of commands (set a style, reset, write text) that the
//! caller plays on a colored terminal stream, one line at a time.
use vstd::prelude::*;

use crate::chars;
use crate::errors::{CompileFailure, MismatchDetail, RunOutput, UnexpectedSuccess};
use crate::model::Expected;
use crate::outcome::{OverwriteDetail, PassDetail, WipDetail};

verus! {

/// A terminal color.
#[derive(Clone, Copy, Debug, PartialEq, Eq, Structural)]
pub enum Color {
    Red,
    Green,
    Yellow,
    Blue,
}

/// One command to the terminal.
#[derive(Clone, Debug, PartialEq, Eq)]
pub enum Command {
    /// Write what follows in bold.
    Bold,
    /// Write what follows in the color.
    Paint(Color),
    /// Write what follows in bold and in the color.
    BoldPaint(Color),
    /// Write what follows plainly.
    Reset,
    /// Write the text.
    Emit(String),
}

/// A command as the rules see it.
pub enum Step {
    Bold,
    Paint(Color),
    BoldPaint(Color),
    Reset,
    Emit(Seq<char>),
}

pub open spec fn step(c: Command) -> Step {
    match c {
        Command::Bold => Step::Bold,
        Command::Paint(k) => Step::Paint(k),
        Command::BoldPaint(k) => Step::BoldPaint(k),
        Command::Reset => Step::Reset,
        Command::Emit(t) => Step::Emit(t@),
    }
}

pub open spec fn steps(v: Seq<Command>) -> Seq<Step> {
    v.map_values(|c: Command| step(c))
}

/// The text, then a newline.
pub open spec fn line(t: Seq<char>) -> Seq<Step> {
    seq![Step::Emit(t), Step::Emit("\n"@)]
}

/// The border above and below a snippet: sixty dashes.
pub open spec fn border() -> Seq<char> {
    "------------------------------------------------------------"@
}

/// A run of a diff, for one side: text both sides share, or text only this
/// side has.
#[derive(Clone, Debug, PartialEq, Eq)]
pub enum Render {
    /// Text in both snapshots.
    Common(String),
    /// Text in this side only, highlighted.
    Unique(String),
}

/// What a run of a diff writes: common text in the snippet's color, unique
/// text in bold and reversed.
pub open spec fn render_steps(color: Color, r: Render) -> Seq<Step> {
    match r {
        Render::Common(t) => seq![Step::Paint(color), Step::Emit(t@)],
        Render::Unique(t) => seq![Step::BoldPaint(color), Step::Emit("\u{1b}[7m"@ + t@)],
    }
}

pub open spec fn runs_steps(color: Color, runs: Seq<Render>) -> Seq<Step>
    decreases runs.len(),
{
    if runs.len() == 0 {
        Seq::empty()
    } else {
        runs_steps(color, runs.drop_last()) + render_steps(color, runs.last())
    }
}

/// A snippet in a color between two borders, its runs highlighted when a
/// diff is given.
pub open spec fn snippet_steps(color: Color, content: Seq<char>, diff: Option<Seq<Render>>) -> Seq<Step> {
    seq![Step::Paint(color)] + line(border()) + (match diff {
        Some(runs) => runs_steps(color, runs),
        None => seq![Step::Emit(content)],
    }) + seq![Step::Paint(color)] + line(border()) + seq![Step::Reset]
}

/// A labelled section in bold color followed by its snippet and a blank
/// line, or nothing when the content is empty.
pub open spec fn section_steps(color: Color, label: Seq<char>, content: Seq<char>) -> Seq<Step> {
    if content.len() == 0 {
        Seq::empty()
    } else {
        seq![Step::BoldPaint(color)] + line(label) + snippet_steps(color, content, None) + line(Seq::empty())
    }
}

/// The captured `STDOUT:` and `STDERR:` of a run, each shown when not empty.
pub open spec fn streams_steps(color: Color, stdout: Seq<char>, stderr: Seq<char>) -> Seq<Step> {
    section_steps(color, "STDOUT:"@, stdout) + section_steps(color, "STDERR:"@, stderr)
}

/// The build warnings, shown when there are any.
pub open spec fn warnings_steps(warnings: Seq<char>) -> Seq<Step> {
    section_steps(Color::Yellow, "WARNINGS:"@, warnings)
}

proof fn lemma_steps_push(v: Seq<Command>, c: Command)
    ensures
        steps(v.push(c)) == steps(v).push(step(c)),
{
    assert(steps(v.push(c)) =~= steps(v).push(step(c)));
}

fn cmd(out: &mut Vec<Command>, c: Command)
    ensures
        steps(final(out)@) == steps(old(out)@).push(step(c)),
{
    let ghost before = out@;
    let ghost s = step(c);
    out.push(c);
    proof {
        lemma_steps_push(before, c);
    }
}

fn emit(out: &mut Vec<Command>, t: &str)
    ensures
        steps(final(out)@) == steps(old(out)@).push(Step::Emit(t@)),
{
    cmd(out, Command::Emit(t.to_string()));
}

fn emitln(out: &mut Vec<Command>, t: &str)
    ensures
        steps(final(out)@) == steps(old(out)@) + line(t@),
{
    let ghost before = steps(out@);
    emit(out, t);
    emit(out, "\n");
    assert(steps(out@) =~= before + line(t@));
}

fn runs(out: &mut Vec<Command>, color: Color, diff: &Vec<Render>)
    ensures
        steps(final(out)@) == steps(old(out)@) + runs_steps(color, diff@),
{
    let ghost start = steps(out@);
    let mut i: usize = 0;
    while i < diff.len()
        invariant
            i <= diff.len(),
            steps(out@) == start + runs_steps(color, diff@.take(i as int)),
        decreases diff.len() - i,
    {
        assert(diff@.take(i + 1).drop_last() == diff@.take(i as int));
        assert(diff@.take(i + 1).last() == diff@[i as int]);
        let ghost before = steps(out@);
        match &diff[i] {
            Render::Common(t) => {
                cmd(out, Command::Paint(color));
                emit(out, t.as_str());
            },
            Render::Unique(t) => {
                cmd(out, Command::BoldPaint(color));
                let marked = chars::concat(&chars::chars_of("\u{1b}[7m"), &chars::chars_of(t.as_str()));
                emit(out, chars::string_of(&marked).as_str());
            },
        }
        assert(steps(out@) =~= before + render_steps(color, diff@[i as int]));
        i = i + 1;
    }
    assert(diff@.take(diff.len() as int) == diff@);
}

fn snippet(out: &mut Vec<Command>, color: Color, content: &str, diff: Option<&Vec<Render>>)
    ensures
        steps(final(out)@) == steps(old(out)@) + snippet_steps(
            color,
            content@,
            match diff {
                Some(d) => Some(d@),
                None => None,
            },
        ),
{
    let ghost start = steps(out@);
    cmd(out, Command::Paint(color));
    emitln(out, "------------------------------------------------------------");
    let ghost mid = steps(out@);
    match diff {
        Some(d) => runs(out, color, d),
        None => emit(out, content),
    }
    let ghost body = steps(out@);
    cmd(out, Command::Paint(color));
    emitln(out, "------------------------------------------------------------");
    cmd(out, Command::Reset);
    assert(steps(out@) =~= start + snippet_steps(
        color,
        content@,
        match diff {
            Some(d) => Some(d@),
            None => None,
        },
    ));
}

fn section(out: &mut Vec<Command>, color: Color, label: &str, content: &str)
    ensures
        steps(final(out)@) == steps(old(out)@) + section_steps(color, label@, content@),
{
    let ghost start = steps(out@);
    if content.is_empty() {
        assert(steps(out@) =~= start + section_steps(color, label@, content@));
        return;
    }
    proof {
        reveal_strlit("");
        assert(""@ =~= Seq::<char>::empty());
    }
    cmd(out, Command::BoldPaint(color));
    let ghost a = steps(out@);
    emitln(out, label);
    let ghost b = steps(out@);
    snippet(out, color, content, None);
    let ghost c = steps(out@);
    emitln(out, "");
    assert(a == start + seq![Step::BoldPaint(color)]);
    assert(b == a + line(label@));
    assert(c == b + snippet_steps(color, content@, None));
    assert(steps(out@) == c + line(Seq::empty()));
    assert(steps(out@) =~= start + section_steps(color, label@, content@));
}

fn streams(out: &mut Vec<Command>, color: Color, stdout: &str, stderr: &str)
    ensures
        steps(final(out)@) == steps(old(out)@) + streams_steps(color, stdout@, stderr@),
{
    let ghost start = steps(out@);
    section(out, color, "STDOUT:", stdout);
    section(out, color, "STDERR:", stderr);
    assert(steps(out@) =~= start + streams_steps(color, stdout@, stderr@));
}

fn warnings(out: &mut Vec<Command>, text: &str)
    ensures
        steps(final(out)@) == steps(old(out)@) + warnings_steps(text@),
{
    section(out, Color::Yellow, "WARNINGS:", text);
}

/// The two sides of a mismatch's diff: the runs of the expected snapshot,
/// and those of the actual output.
#[derive(Clone, Debug, PartialEq, Eq)]
pub struct DiffSides {
    pub expected: Vec<Render>,
    pub actual: Vec<Render>,
}

/// What a case's report shows after its name: its outcome, with what the
/// outcome carries.
#[derive(Debug)]
pub enum Shown<'a> {
    /// It passed.
    Passed(&'a PassDetail),
    /// A new snapshot was written under `wip`.
    CreatedWip(&'a WipDetail),
    /// The snapshot was overwritten.
    Overwrote(&'a OverwriteDetail),
    /// Its diagnostics did not match the snapshot; the diff of the two when
    /// one is worth showing.
    Mismatch(&'a MismatchDetail, Option<DiffSides>),
    /// A case that had to fail to compile compiled.
    CompiledUnexpectedly(&'a UnexpectedSuccess),
    /// A case that had to compile failed to.
    FailedToBuild(&'a CompileFailure),
    /// A case compiled but failed when run.
    RunFailed(&'a RunOutput),
    /// Another failure, by its message.
    Other(String),
}

/// A passing case: `ok`, then its warnings and what its binary printed.
pub open spec fn pass_steps(stdout: Seq<char>, stderr: Seq<char>, warnings: Seq<char>) -> Seq<Step> {
    seq![Step::Paint(Color::Green)] + line("ok"@) + seq![Step::Reset] + (if stdout.len() > 0 || stderr.len() > 0
        || warnings.len() > 0 {
        line(Seq::empty())
    } else {
        Seq::empty()
    }) + warnings_steps(warnings) + streams_steps(Color::Yellow, stdout, stderr)
}

/// The note that introduces a written snapshot.
pub open spec fn note_steps() -> Seq<Step> {
    seq![Step::BoldPaint(Color::Yellow)] + line("wip"@) + line(Seq::empty()) + seq![
        Step::Emit("NOTE"@),
        Step::Reset,
    ]
}

/// A snapshot written under `wip`: where it went, where to move it, and
/// what it holds.
pub open spec fn wip_steps(wip_path: Seq<char>, stderr_path: Seq<char>, stderr: Seq<char>) -> Seq<Step> {
    note_steps() + line(": writing the following output to `"@ + wip_path + "`."@) + line(
        "Move this file to `"@ + stderr_path + "` to accept it as correct."@,
    ) + snippet_steps(Color::Yellow, stderr, None) + line(Seq::empty())
}

/// A snapshot overwritten in place: where, and what it holds.
pub open spec fn overwrite_steps(stderr_path: Seq<char>, stderr: Seq<char>) -> Seq<Step> {
    note_steps() + line(": writing the following output to `"@ + stderr_path + "`."@) + snippet_steps(
        Color::Yellow,
        stderr,
        None,
    ) + line(Seq::empty())
}

pub open spec fn sides(diff: Option<DiffSides>) -> (Option<Seq<Render>>, Option<Seq<Render>>) {
    match diff {
        Some(d) => (Some(d.expected@), Some(d.actual@)),
        None => (None, None),
    }
}

/// The heading of one side of a mismatch, in bold color, then its snippet.
pub open spec fn side_steps(color: Color, label: Seq<char>, content: Seq<char>, runs: Option<Seq<Render>>) -> Seq<Step> {
    seq![Step::BoldPaint(color)] + line(label) + snippet_steps(color, content, runs)
}

/// How to accept the actual output of a mismatch.
pub open spec fn bless_steps() -> Seq<Step> {
    seq![
        Step::Emit("note: If the "@),
        Step::Paint(Color::Red),
        Step::Emit("actual output"@),
        Step::Reset,
    ] + line(" is the correct output you can bless it by rerunning"@) + line(
        "      your test with the environment variable TRYBUILD=overwrite"@,
    ) + line(Seq::empty())
}

/// A mismatch: both sides, highlighted when there is a diff, and how to
/// accept the actual output.
pub open spec fn mismatch_steps(expected: Seq<char>, actual: Seq<char>, diff: Option<DiffSides>) -> Seq<Step> {
    seq![Step::BoldPaint(Color::Red)] + line("mismatch"@) + seq![Step::Reset] + line(Seq::empty()) + side_steps(
        Color::Blue,
        "EXPECTED:"@,
        expected,
        sides(diff).0,
    ) + line(Seq::empty()) + side_steps(Color::Red, "ACTUAL OUTPUT:"@, actual, sides(diff).1) + bless_steps()
}

/// The red `error` heading with a red message line.
pub open spec fn error_heading(message: Seq<char>) -> Seq<Step> {
    seq![Step::BoldPaint(Color::Red)] + line("error"@) + seq![Step::Paint(Color::Red)] + line(message) + seq![
        Step::Reset,
    ] + line(Seq::empty())
}

/// A case that compiled though it had to fail: what the build printed and
/// its warnings.
pub open spec fn unexpected_steps(stdout: Seq<char>, warnings: Seq<char>) -> Seq<Step> {
    error_heading("Expected test case to fail to compile, but it succeeded."@) + streams_steps(
        Color::Red,
        stdout,
        Seq::empty(),
    ) + warnings_steps(warnings)
}

/// A case that failed to compile though it had to: its diagnostics.
pub open spec fn failed_to_build_steps(diagnostics: Seq<char>) -> Seq<Step> {
    seq![Step::BoldPaint(Color::Red)] + line("error"@) + snippet_steps(Color::Red, diagnostics, None) + line(
        Seq::empty(),
    )
}

/// A case that failed when run: its warnings and what it printed.
pub open spec fn run_failed_steps(stdout: Seq<char>, stderr: Seq<char>, warnings: Seq<char>) -> Seq<Step> {
    error_heading(
        if stdout.len() > 0 || stderr.len() > 0 {
            "Test case failed at runtime."@
        } else {
            "Execution of the test case was unsuccessful but there was no output."@
        },
    ) + warnings_steps(warnings) + streams_steps(Color::Red, stdout, stderr)
}

/// What a case's outcome shows.
pub open spec fn shown_steps(shown: Shown) -> Seq<Step> {
    match shown {
        Shown::Passed(d) => pass_steps(d.stdout@, d.stderr@, d.warnings@),
        Shown::CreatedWip(d) => wip_steps(d.wip_path@, d.stderr_path@, d.stderr@),
        Shown::Overwrote(d) => overwrite_steps(d.stderr_path@, d.stderr@),
        Shown::Mismatch(d, diff) => mismatch_steps(d.expected@, d.actual@, diff),
        Shown::CompiledUnexpectedly(d) => unexpected_steps(d.stdout@, d.warnings@),
        Shown::FailedToBuild(d) => failed_to_build_steps(d.diagnostics@),
        Shown::RunFailed(d) => run_failed_steps(d.stdout@, d.stderr@, d.warnings@),
        Shown::Other(message) => error_heading(message@),
    }
}

/// A case's report: `test`, its path in bold, its expectation when the
/// suite mixes both kinds, then its outcome.
pub open spec fn case_steps(path: Seq<char>, expected: Expected, show_expected: bool, shown: Shown) -> Seq<Step> {
    seq![Step::Emit("test "@), Step::Bold, Step::Emit(path), Step::Reset] + (if show_expected {
        seq![
            Step::Emit(
                match expected {
                    Expected::Pass => " [should pass]"@,
                    Expected::CompileFail => " [should fail to compile]"@,
                },
            ),
        ]
    } else {
        Seq::empty()
    }) + seq![Step::Emit(" ... "@)] + shown_steps(shown)
}

fn note(out: &mut Vec<Command>)
    ensures
        steps(final(out)@) == steps(old(out)@) + note_steps(),
{
    let ghost start = steps(out@);
    cmd(out, Command::BoldPaint(Color::Yellow));
    emitln(out, "wip");
    emitln(out, "");
    emit(out, "NOTE");
    cmd(out, Command::Reset);
    proof {
        reveal_strlit("");
        assert(""@ =~= Seq::<char>::empty());
    }
    assert(steps(out@) =~= start + note_steps());
}

fn joined3(a: &str, b: &str, c: &str) -> (r: String)
    ensures
        r@ == a@ + b@ + c@,
{
    let ab = chars::concat(&chars::chars_of(a), &chars::chars_of(b));
    chars::string_of(&chars::concat(&ab, &chars::chars_of(c)))
}

/// What a passing case shows.
pub fn render_pass(out: &mut Vec<Command>, detail: &PassDetail)
    ensures
        steps(final(out)@) == steps(old(out)@) + pass_steps(detail.stdout@, detail.stderr@, detail.warnings@),
{
    let ghost start = steps(out@);
    let has_output = !detail.stdout.as_str().is_empty() || !detail.stderr.as_str().is_empty();
    cmd(out, Command::Paint(Color::Green));
    emitln(out, "ok");
    cmd(out, Command::Reset);
    let ghost mid = steps(out@);
    proof {
        reveal_strlit("");
        assert(""@ =~= Seq::<char>::empty());
    }
    if has_output || !detail.warnings.as_str().is_empty() {
        emitln(out, "");
    }
    let ghost gap = steps(out@);
    warnings(out, detail.warnings.as_str());
    streams(out, Color::Yellow, detail.stdout.as_str(), detail.stderr.as_str());
    assert(steps(out@) =~= start + pass_steps(detail.stdout@, detail.stderr@, detail.warnings@));
}

/// What a snapshot written under `wip` shows.
pub fn render_wip(out: &mut Vec<Command>, detail: &WipDetail)
    ensures
        steps(final(out)@) == steps(old(out)@) + wip_steps(detail.wip_path@, detail.stderr_path@, detail.stderr@),
{
    let ghost start = steps(out@);
    note(out);
    emitln(out, joined3(": writing the following output to `", detail.wip_path.as_str(), "`.").as_str());
    emitln(out, joined3("Move this file to `", detail.stderr_path.as_str(), "` to accept it as correct.").as_str());
    snippet(out, Color::Yellow, detail.stderr.as_str(), None);
    emitln(out, "");
    proof {
        reveal_strlit("");
        assert(""@ =~= Seq::<char>::empty());
    }
    assert(steps(out@) =~= start + wip_steps(detail.wip_path@, detail.stderr_path@, detail.stderr@));
}

/// What a snapshot overwritten in place shows.
pub fn render_overwrite(out: &mut Vec<Command>, detail: &OverwriteDetail)
    ensures
        steps(final(out)@) == steps(old(out)@) + overwrite_steps(detail.stderr_path@, detail.stderr@),
{
    let ghost start = steps(out@);
    note(out);
    emitln(out, joined3(": writing the following output to `", detail.stderr_path.as_str(), "`.").as_str());
    snippet(out, Color::Yellow, detail.stderr.as_str(), None);
    emitln(out, "");
    proof {
        reveal_strlit("");
        assert(""@ =~= Seq::<char>::empty());
    }
    assert(steps(out@) =~= start + overwrite_steps(detail.stderr_path@, detail.stderr@));
}

fn side(out: &mut Vec<Command>, color: Color, label: &str, content: &str, runs: Option<&Vec<Render>>)
    ensures
        steps(final(out)@) == steps(old(out)@) + side_steps(
            color,
            label@,
            content@,
            match runs {
                Some(d) => Some(d@),
                None => None,
            },
        ),
{
    let ghost start = steps(out@);
    cmd(out, Command::BoldPaint(color));
    emitln(out, label);
    snippet(out, color, content, runs);
    assert(steps(out@) =~= start + side_steps(
        color,
        label@,
        content@,
        match runs {
            Some(d) => Some(d@),
            None => None,
        },
    ));
}

fn bless(out: &mut Vec<Command>)
    ensures
        steps(final(out)@) == steps(old(out)@) + bless_steps(),
{
    let ghost start = steps(out@);
    emit(out, "note: If the ");
    cmd(out, Command::Paint(Color::Red));
    emit(out, "actual output");
    cmd(out, Command::Reset);
    emitln(out, " is the correct output you can bless it by rerunning");
    emitln(out, "      your test with the environment variable TRYBUILD=overwrite");
    emitln(out, "");
    proof {
        reveal_strlit("");
        assert(""@ =~= Seq::<char>::empty());
    }
    assert(steps(out@) =~= start + bless_steps());
}

/// What a mismatch shows.
pub fn render_mismatch(out: &mut Vec<Command>, expected: &str, actual: &str, diff: &Option<DiffSides>)
    ensures
        steps(final(out)@) == steps(old(out)@) + mismatch_steps(expected@, actual@, *diff),
{
    let ghost start = steps(out@);
    proof {
        reveal_strlit("");
        assert(""@ =~= Seq::<char>::empty());
    }
    cmd(out, Command::BoldPaint(Color::Red));
    emitln(out, "mismatch");
    cmd(out, Command::Reset);
    emitln(out, "");
    let ghost a = steps(out@);
    assert(a =~= start + (seq![Step::BoldPaint(Color::Red)] + line("mismatch"@) + seq![Step::Reset] + line(
        Seq::empty(),
    )));
    match diff {
        Some(d) => side(out, Color::Blue, "EXPECTED:", expected, Some(&d.expected)),
        None => side(out, Color::Blue, "EXPECTED:", expected, None),
    }
    emitln(out, "");
    let ghost b = steps(out@);
    match diff {
        Some(d) => side(out, Color::Red, "ACTUAL OUTPUT:", actual, Some(&d.actual)),
        None => side(out, Color::Red, "ACTUAL OUTPUT:", actual, None),
    }
    let ghost c = steps(out@);
    bless(out);
    assert(steps(out@) =~= start + mismatch_steps(expected@, actual@, *diff));
}

fn heading(out: &mut Vec<Command>, message: &str)
    ensures
        steps(final(out)@) == steps(old(out)@) + error_heading(message@),
{
    let ghost start = steps(out@);
    cmd(out, Command::BoldPaint(Color::Red));
    emitln(out, "error");
    cmd(out, Command::Paint(Color::Red));
    emitln(out, message);
    cmd(out, Command::Reset);
    emitln(out, "");
    proof {
        reveal_strlit("");
        assert(""@ =~= Seq::<char>::empty());
    }
    assert(steps(out@) =~= start + error_heading(message@));
}

/// What a case that compiled though it had to fail shows.
pub fn render_unexpected(out: &mut Vec<Command>, detail: &UnexpectedSuccess)
    ensures
        steps(final(out)@) == steps(old(out)@) + unexpected_steps(detail.stdout@, detail.warnings@),
{
    let ghost start = steps(out@);
    heading(out, "Expected test case to fail to compile, but it succeeded.");
    proof {
        reveal_strlit("");
        assert(""@ =~= Seq::<char>::empty());
    }
    streams(out, Color::Red, detail.stdout.as_str(), "");
    warnings(out, detail.warnings.as_str());
    assert(steps(out@) =~= start + unexpected_steps(detail.stdout@, detail.warnings@));
}

/// What a case that failed to compile though it had to shows.
pub fn render_failed_to_build(out: &mut Vec<Command>, detail: &CompileFailure)
    ensures
        steps(final(out)@) == steps(old(out)@) + failed_to_build_steps(detail.diagnostics@),
{
    let ghost start = steps(out@);
    cmd(out, Command::BoldPaint(Color::Red));
    emitln(out, "error");
    snippet(out, Color::Red, detail.diagnostics.as_str(), None);
    emitln(out, "");
    proof {
        reveal_strlit("");
        assert(""@ =~= Seq::<char>::empty());
    }
    assert(steps(out@) =~= start + failed_to_build_steps(detail.diagnostics@));
}

/// What a case that failed when run shows.
pub fn render_run_failed(out: &mut Vec<Command>, detail: &RunOutput)
    ensures
        steps(final(out)@) == steps(old(out)@) + run_failed_steps(detail.stdout@, detail.stderr@, detail.warnings@),
{
    let ghost start = steps(out@);
    let has_output = !detail.stdout.as_str().is_empty() || !detail.stderr.as_str().is_empty();
    if has_output {
        heading(out, "Test case failed at runtime.");
    } else {
        heading(out, "Execution of the test case was unsuccessful but there was no output.");
    }
    warnings(out, detail.warnings.as_str());
    streams(out, Color::Red, detail.stdout.as_str(), detail.stderr.as_str());
    assert(steps(out@) =~= start + run_failed_steps(detail.stdout@, detail.stderr@, detail.warnings@));
}

/// What a case's outcome shows.
pub fn render_shown(out: &mut Vec<Command>, shown: &Shown)
    ensures
        steps(final(out)@) == steps(old(out)@) + shown_steps(*shown),
{
    match shown {
        Shown::Passed(d) => render_pass(out, d),
        Shown::CreatedWip(d) => render_wip(out, d),
        Shown::Overwrote(d) => render_overwrite(out, d),
        Shown::Mismatch(d, diff) => render_mismatch(out, d.expected.as_str(), d.actual.as_str(), diff),
        Shown::CompiledUnexpectedly(d) => render_unexpected(out, d),
        Shown::FailedToBuild(d) => render_failed_to_build(out, d),
        Shown::RunFailed(d) => render_run_failed(out, d),
        Shown::Other(message) => heading(out, message.as_str()),
    }
}

/// The report of one case: its name, its expectation when the suite mixes
/// both kinds, and what its outcome shows.
pub fn render_case(path: &str, expected: Expected, show_expected: bool, shown: &Shown) -> (r: Vec<Command>)
    ensures
        steps(r@) == case_steps(path@, expected, show_expected, *shown),
{
    let mut out: Vec<Command> = Vec::new();
    assert(steps(out@) =~= Seq::<Step>::empty());
    emit(&mut out, "test ");
    cmd(&mut out, Command::Bold);
    emit(&mut out, path);
    cmd(&mut out, Command::Reset);
    let ghost head = steps(out@);
    if show_expected {
        match expected {
            Expected::Pass => emit(&mut out, " [should pass]"),
            Expected::CompileFail => emit(&mut out, " [should fail to compile]"),
        }
    }
    emit(&mut out, " ... ");
    let ghost mid = steps(out@);
    render_shown(&mut out, shown);
    assert(steps(out@) =~= case_steps(path@, expected, show_expected, *shown));
    out
}

/// The report of a failure that stopped the whole run before any case.
pub fn render_setup_fail(message: &str) -> (r: Vec<Command>)
    ensures
        steps(r@) == seq![Step::BoldPaint(Color::Red), Step::Emit("ERROR"@), Step::Reset] + line(": "@ + message@)
            + line(Seq::empty()),
{
    let mut out: Vec<Command> = Vec::new();
    assert(steps(out@) =~= Seq::<Step>::empty());
    cmd(&mut out, Command::BoldPaint(Color::Red));
    emit(&mut out, "ERROR");
    cmd(&mut out, Command::Reset);
    let text = chars::concat(&chars::chars_of(": "), &chars::chars_of(message));
    emitln(&mut out, chars::string_of(&text).as_str());
    emitln(&mut out, "");
    proof {
        reveal_strlit("");
        assert(""@ =~= Seq::<char>::empty());
    }
    assert(steps(out@) =~= seq![Step::BoldPaint(Color::Red), Step::Emit("ERROR"@), Step::Reset] + line(": "@
        + message@) + line(Seq::empty()));
    out
}

/// The report of a run without any case.
pub fn render_no_tests() -> (r: Vec<Command>)
    ensures
        steps(r@) == seq![Step::Paint(Color::Yellow)] + line("There are no trybuild tests enabled yet."@) + seq![
            Step::Reset,
        ],
{
    let mut out: Vec<Command> = Vec::new();
    assert(steps(out@) =~= Seq::<Step>::empty());
    cmd(&mut out, Command::Paint(Color::Yellow));
    emitln(&mut out, "There are no trybuild tests enabled yet.");
    cmd(&mut out, Command::Reset);
    assert(steps(out@) =~= seq![Step::Paint(Color::Yellow)] + line("There are no trybuild tests enabled yet."@)
        + seq![Step::Reset]);
    out
}

/// Whether the terminal is worth highlighting a diff on: `TERM` is set and
/// is not `dumb`.
pub fn wants_diff(term: Option<&str>) -> (r: bool)
    ensures
        r == (term matches Some(t) && t@ != "dumb"@),
{
    match term {
        None => false,
        Some(t) => !chars::equals(&chars::chars_of(t), &chars::chars_of("dumb")),
    }
}

/// Whether two snapshots are small enough to diff: at most 2048 bytes
/// together.
pub fn small_enough(expected: &str, actual: &str) -> (r: bool)
    ensures
        r == (expected.len() + actual.len() <= 2048),
{
    let a = expected.len();
    let b = actual.len();
    a <= 2048 && b <= 2048 - a
}

/// A chunk of the character diff of two snapshots, as the `dissimilar`
/// crate gives it.
#[derive(Clone, Debug, PartialEq, Eq)]
pub enum DiffChunk {
    /// Text in both.
    Equal(String),
    /// Text in the expected snapshot only.
    Delete(String),
    /// Text in the actual output only.
    Insert(String),
}

/// `a + b`, or the largest `usize` when that overflows.
pub open spec fn sat_add(a: int, b: int) -> int {
    if a + b > usize::MAX { usize::MAX as int } else { a + b }
}

/// `a * k`, or the largest `usize` when that overflows.
pub open spec fn sat_mul(a: int, k: int) -> int {
    if a * k > usize::MAX { usize::MAX as int } else { a * k }
}

/// The bytes the two snapshots have in common by the diff (a saturating
/// sum).
pub open spec fn common_len(chunks: Seq<DiffChunk>) -> int
    decreases chunks.len(),
{
    if chunks.len() == 0 {
        0
    } else {
        let rest = common_len(chunks.drop_last());
        match chunks.last() {
            DiffChunk::Equal(t) => sat_add(rest, (vstd::utf8::encode_utf8(t@).len() as usize) as int),
            _ => rest,
        }
    }
}

/// Whether a diff is worth showing: the common text is at least four
/// fifths of the longer snapshot.
pub open spec fn worth_printing_of(expected: usize, actual: usize, chunks: Seq<DiffChunk>) -> bool {
    let bigger = if expected >= actual { expected as int } else { actual as int };
    sat_mul(common_len(chunks), 5) >= sat_mul(bigger, 4)
}

fn saturating_times(a: usize, k: usize) -> (r: usize)
    ensures
        r == sat_mul(a as int, k as int),
{
    match a.checked_mul(k) {
        Some(v) => v,
        None => usize::MAX,
    }
}

/// Whether the diff of two snapshots is worth showing.
pub fn worth_printing(expected: &str, actual: &str, chunks: &[DiffChunk]) -> (r: bool)
    ensures
        r == worth_printing_of(expected.len(), actual.len(), chunks@),
{
    let mut common: usize = 0;
    let mut i: usize = 0;
    while i < chunks.len()
        invariant
            i <= chunks.len(),
            common == common_len(chunks@.take(i as int)),
            0 <= common_len(chunks@.take(i as int)) <= usize::MAX,
        decreases chunks.len() - i,
    {
        assert(chunks@.take(i + 1).drop_last() == chunks@.take(i as int));
        assert(chunks@.take(i + 1).last() == chunks@[i as int]);
        match &chunks[i] {
            DiffChunk::Equal(t) => {
                let ts = t.as_str();
                let n = ts.len();
                assert(ts@ == t@);
                common = match common.checked_add(n) {
                    Some(v) => v,
                    None => usize::MAX,
                };
            },
            _ => {},
        }
        i = i + 1;
    }
    assert(chunks@.take(chunks.len() as int) == chunks@);
    let a = expected.len();
    let b = actual.len();
    let bigger = if a >= b { a } else { b };
    saturating_times(common, 5) >= saturating_times(bigger, 4)
}

/// The runs of one side of a diff: common text always, deleted text on the
/// expected side, inserted text on the actual side.
pub open spec fn side_runs(chunks: Seq<DiffChunk>, expected_side: bool, actual_side: bool) -> Seq<Render>
    decreases chunks.len(),
{
    if chunks.len() == 0 {
        Seq::empty()
    } else {
        let rest = side_runs(chunks.drop_last(), expected_side, actual_side);
        match chunks.last() {
            DiffChunk::Equal(t) => rest.push(Render::Common(t)),
            DiffChunk::Delete(t) => if expected_side { rest.push(Render::Unique(t)) } else { rest },
            DiffChunk::Insert(t) => if actual_side { rest.push(Render::Unique(t)) } else { rest },
        }
    }
}

fn runs_of(chunks: &[DiffChunk], expected_side: bool, actual_side: bool) -> (r: Vec<Render>)
    ensures
        r@ == side_runs(chunks@, expected_side, actual_side),
{
    let mut out: Vec<Render> = Vec::new();
    let mut i: usize = 0;
    while i < chunks.len()
        invariant
            i <= chunks.len(),
            out@ == side_runs(chunks@.take(i as int), expected_side, actual_side),
        decreases chunks.len() - i,
    {
        assert(chunks@.take(i + 1).drop_last() == chunks@.take(i as int));
        assert(chunks@.take(i + 1).last() == chunks@[i as int]);
        match &chunks[i] {
            DiffChunk::Equal(t) => out.push(Render::Common(t.clone())),
            DiffChunk::Delete(t) => if expected_side {
                out.push(Render::Unique(t.clone()));
            },
            DiffChunk::Insert(t) => if actual_side {
                out.push(Render::Unique(t.clone()));
            },
        }
        i = i + 1;
    }
    assert(chunks@.take(chunks.len() as int) == chunks@);
    out
}

/// Both sides of a diff for display: each side shows its own unique text.
pub fn diff_sides(expected: &str, actual: &str, chunks: &[DiffChunk]) -> (r: DiffSides)
    ensures
        r.expected@ == side_runs(chunks@, true, expected@ == actual@),
        r.actual@ == side_runs(chunks@, actual@ == expected@, true),
{
    let same = chars::equals(&chars::chars_of(expected), &chars::chars_of(actual));
    DiffSides { expected: runs_of(chunks, true, same), actual: runs_of(chunks, same, true) }
}

/// A terminal color setting: plain, bold, a color, or both.
#[derive(Clone, Copy, Debug, PartialEq, Eq, Structural)]
pub enum Style {
    Plain,
    Bold,
    Fg(Color),
    BoldFg(Color),
}

/// One operation on a colored terminal stream.
#[derive(Clone, Debug, PartialEq, Eq)]
pub enum TermOp {
    /// Set the stream's color to the style.
    SetColor(Style),
    /// Write the text.
    Write(String),
    /// Reset the stream's color.
    ResetColor,
}

/// An operation as the rules see it.
pub enum Op {
    SetColor(Style),
    Write(Seq<char>),
    ResetColor,
}

pub open spec fn op(t: TermOp) -> Op {
    match t {
        TermOp::SetColor(s) => Op::SetColor(s),
        TermOp::Write(w) => Op::Write(w@),
        TermOp::ResetColor => Op::ResetColor,
    }
}

pub open spec fn ops(v: Seq<TermOp>) -> Seq<Op> {
    v.map_values(|t: TermOp| op(t))
}

/// Writing text in a style, one line at a time: the color is set again at
/// the start of every line (some terminals forget it across lines). Gives
/// the operations and whether the text ended a line.
pub open spec fn write_ops(style: Style, start_of_line: bool, text: Seq<char>) -> (Seq<Op>, bool)
    decreases text.len(),
{
    if text.len() == 0 {
        (Seq::empty(), start_of_line)
    } else {
        let set = if start_of_line { seq![Op::SetColor(style)] } else { Seq::empty() };
        match crate::text::find_char(text, '\n') {
            Some(i) => if 0 <= i < text.len() {
                let rest = write_ops(style, true, text.skip(i + 1));
                (set + seq![Op::Write(text.take(i + 1))] + rest.0, rest.1)
            } else {
                (set + seq![Op::Write(text)], false)
            },
            None => (set + seq![Op::Write(text)], false),
        }
    }
}

/// The state of the report's terminal: the style in force and whether the
/// next text starts a line.
#[derive(Clone, Copy, Debug, PartialEq, Eq, Structural)]
pub struct Terminal {
    pub style: Style,
    pub start_of_line: bool,
}

/// What one command does to the terminal: a style that differs from the one
/// in force takes over and counts as a new line; a reset goes back to plain;
/// plain text is written as it is, styled text line by line.
pub open spec fn played(t: Terminal, c: Command) -> (Terminal, Seq<Op>) {
    let restyle = |s: Style| if t.style != s {
        (Terminal { style: s, start_of_line: true }, Seq::<Op>::empty())
    } else {
        (t, Seq::<Op>::empty())
    };
    match c {
        Command::Bold => restyle(Style::Bold),
        Command::Paint(k) => restyle(Style::Fg(k)),
        Command::BoldPaint(k) => restyle(Style::BoldFg(k)),
        Command::Reset => (Terminal { style: Style::Plain, ..t }, seq![Op::ResetColor]),
        Command::Emit(text) => if t.style == Style::Plain {
            (t, seq![Op::Write(text@)])
        } else {
            let w = write_ops(t.style, t.start_of_line, text@);
            (Terminal { start_of_line: w.1, ..t }, w.0)
        },
    }
}

/// What the commands do to the terminal, in order, from `t`.
pub open spec fn played_all(t: Terminal, commands: Seq<Command>) -> (Terminal, Seq<Op>)
    decreases commands.len(),
{
    if commands.len() == 0 {
        (t, Seq::empty())
    } else {
        let before = played_all(t, commands.drop_last());
        let last = played(before.0, commands.last());
        (last.0, before.1 + last.1)
    }
}

fn push_op(out: &mut Vec<TermOp>, t: TermOp)
    ensures
        ops(final(out)@) == ops(old(out)@).push(op(t)),
{
    let ghost before = out@;
    out.push(t);
    assert(ops(out@) =~= ops(before).push(op(t)));
}

fn write_lines(out: &mut Vec<TermOp>, style: Style, start_of_line: bool, text: &str) -> (r: bool)
    ensures
        ops(final(out)@) == ops(old(out)@) + write_ops(style, start_of_line, text@).0,
        r == write_ops(style, start_of_line, text@).1,
{
    let all = chars::chars_of(text);
    let ghost start = ops(out@);
    let mut pos: usize = 0;
    let mut sol = start_of_line;
    proof {
        assert(all@.skip(0) == all@);
    }
    while pos < all.len()
        invariant
            pos <= all.len(),
            all@ == text@,
            start + write_ops(style, start_of_line, text@).0 == ops(out@) + write_ops(style, sol, all@.skip(pos as int)).0,
            write_ops(style, start_of_line, text@).1 == write_ops(style, sol, all@.skip(pos as int)).1,
        decreases all.len() - pos,
    {
        let ghost rem = all@.skip(pos as int);
        let ghost before = ops(out@);
        proof {
            crate::text::lemma_find_char_skip(all@, '\n', pos as int, 0);
            crate::text::lemma_find_char_found(all@, '\n', pos as int);
        }
        if sol {
            push_op(out, TermOp::SetColor(style));
        }
        let ghost set = if sol { seq![Op::SetColor(style)] } else { Seq::<Op>::empty() };
        assert(ops(out@) == before + set);
        match chars::find_char_from(&all, '\n', pos) {
            Some(e) => {
                let piece = chars::slice(&all, pos, e + 1);
                assert(piece@ == rem.take(e - pos + 1));
                push_op(out, TermOp::Write(chars::string_of(&piece)));
                assert(rem.skip(e - pos + 1) == all@.skip(e + 1));
                let ghost rest = write_ops(style, true, all@.skip(e + 1));
                assert(write_ops(style, sol, rem) == (set + seq![Op::Write(rem.take(e - pos + 1))] + rest.0, rest.1));
                assert(ops(out@) + rest.0 =~= before + (set + seq![Op::Write(rem.take(e - pos + 1))] + rest.0));
                sol = true;
                pos = e + 1;
            },
            None => {
                let piece = chars::get_from(&all, pos);
                assert(piece@ == rem);
                push_op(out, TermOp::Write(chars::string_of(&piece)));
                assert(write_ops(style, sol, rem) == (set + seq![Op::Write(rem)], false));
                assert(all@.skip(all.len() as int).len() == 0);
                assert(ops(out@) + write_ops(style, false, all@.skip(all.len() as int)).0 =~= before + (set + seq![Op::Write(rem)]));
                sol = false;
                pos = all.len();
            },
        }
    }
    assert(all@.skip(pos as int).len() == 0);
    assert(ops(out@) + Seq::<Op>::empty() == ops(out@));
    sol
}

impl Terminal {
    /// A terminal that starts plain, at the start of a line.
    pub fn new() -> (r: Terminal)
        ensures
            r == (Terminal { style: Style::Plain, start_of_line: true }),
    {
        Terminal { style: Style::Plain, start_of_line: true }
    }

    fn restyle(&mut self, s: Style)
        ensures
            *final(self) == (if old(self).style != s {
                Terminal { style: s, start_of_line: true }
            } else {
                *old(self)
            }),
    {
        if self.style != s {
            self.style = s;
            self.start_of_line = true;
        }
    }

    /// Plays one command, appending the terminal operations it takes.
    pub fn play(&mut self, c: &Command, out: &mut Vec<TermOp>)
        ensures
            *final(self) == played(*old(self), *c).0,
            ops(final(out)@) == ops(old(out)@) + played(*old(self), *c).1,
    {
        let ghost start = ops(out@);
        match c {
            Command::Bold => self.restyle(Style::Bold),
            Command::Paint(k) => self.restyle(Style::Fg(*k)),
            Command::BoldPaint(k) => self.restyle(Style::BoldFg(*k)),
            Command::Reset => {
                self.style = Style::Plain;
                push_op(out, TermOp::ResetColor);
            },
            Command::Emit(text) => {
                if self.style == Style::Plain {
                    push_op(out, TermOp::Write(text.clone()));
                } else {
                    let sol = write_lines(out, self.style, self.start_of_line, text.as_str());
                    self.start_of_line = sol;
                }
            },
        }
        assert(ops(out@) =~= start + played(*old(self), *c).1);
    }
}

/// Plays the commands on a fresh terminal.
pub fn play(commands: &[Command]) -> (r: Vec<TermOp>)
    ensures
        ops(r@) == played_all(Terminal { style: Style::Plain, start_of_line: true }, commands@).1,
{
    let mut t = Terminal::new();
    let mut out: Vec<TermOp> = Vec::new();
    let ghost t0 = t;
    assert(ops(out@) =~= Seq::<Op>::empty());
    let mut i: usize = 0;
    while i < commands.len()
        invariant
            i <= commands.len(),
            t0 == (Terminal { style: Style::Plain, start_of_line: true }),
            (t, ops(out@)) == played_all(t0, commands@.take(i as int)),
        decreases commands.len() - i,
    {
        assert(commands@.take(i + 1).drop_last() == commands@.take(i as int));
        assert(commands@.take(i + 1).last() == commands@[i as int]);
        t.play(&commands[i], &mut out);
        i = i + 1;
    }
    assert(commands@.take(commands.len() as int) == commands@);
    out
}

} // verus!
