//! The cargo invocations of a run, as argument lists: building the
//! generated project's dependencies, building (or checking) one or all test
//! bins, running a pass-test, cleaning, and reading metadata; plus the
//! rustflags and environment every project invocation carries.
use vstd::prelude::*;

use crate::chars;
use crate::directory::{join_path, std_path_join, Directory};
use crate::model::Name;
use crate::errors::{BuildError, BuildOutput};
use crate::runner::{contains, string_views, KeepGoing, Selected};

verus! {

/// The TOML rendering of an array of strings, as `toml::Value`'s `Display`
/// writes it.
pub uninterp spec fn toml_rendering(items: Seq<Seq<char>>) -> Seq<char>;

/// Renders the strings as a TOML array through `toml::Value::Array`'s
/// `Display`. Trusted: the result is the named rendering of the strings.
#[verifier::external_body]
fn toml_array(items: &Vec<String>) -> (r: String)
    ensures
        r@ == toml_rendering(string_views(items@)),
{
    toml::Value::Array(items.iter().map(|item| toml::Value::String(item.clone())).collect()).to_string()
}

/// The target triple the harness was built for, `target_triple::TARGET`.
/// Trusted, with nothing promised of the value: it is fixed when the
/// harness is compiled for a machine.
#[verifier::external_body]
fn host_target() -> (r: String) {
    target_triple::TARGET.to_string()
}

/// trybuild's own rustflags: its cfg, verbose output, the lints silenced in
/// test crates, coverage instrumentation when the inherited `RUSTFLAGS`
/// asked for it, then the extra flags of the invocation.
pub open spec fn rustflags_of(inherited: Option<Seq<char>>, extra: Seq<Seq<char>>) -> Seq<Seq<char>> {
    seq!["--cfg"@, "trybuild"@, "--verbose"@, "-A"@, "dead_code"@] + (match inherited {
        Some(flags) => if contains(flags, "-C instrument-coverage"@) {
            seq!["-C"@, "instrument-coverage"@]
        } else {
            Seq::empty()
        },
        None => Seq::empty(),
    }) + extra
}

fn push_str(v: &mut Vec<String>, s: &str)
    ensures
        string_views(final(v)@) == string_views(old(v)@).push(s@),
{
    let ghost before = v@;
    v.push(s.to_string());
    assert(string_views(v@) =~= string_views(before).push(s@));
}

fn push_all_strs(v: &mut Vec<String>, extra: &[String])
    ensures
        string_views(final(v)@) == string_views(old(v)@) + string_views(extra@),
{
    let ghost start = string_views(v@);
    let mut i: usize = 0;
    while i < extra.len()
        invariant
            i <= extra.len(),
            string_views(v@) == start + string_views(extra@.take(i as int)),
        decreases extra.len() - i,
    {
        push_str(v, extra[i].as_str());
        assert(string_views(extra@.take(i + 1)) =~= string_views(extra@.take(i as int)).push(extra@[i as int]@));
        i = i + 1;
    }
    assert(extra@.take(extra.len() as int) == extra@);
}

/// The rustflags of a project invocation, from the inherited `RUSTFLAGS`
/// (as text) and the invocation's extra flags.
pub fn rustflags(inherited: Option<&str>, extra: &[String]) -> (r: Vec<String>)
    ensures
        string_views(r@) == rustflags_of(
            match inherited {
                Some(s) => Some(s@),
                None => None,
            },
            string_views(extra@),
        ),
{
    let mut flags: Vec<String> = Vec::new();
    push_str(&mut flags, "--cfg");
    push_str(&mut flags, "trybuild");
    push_str(&mut flags, "--verbose");
    push_str(&mut flags, "-A");
    push_str(&mut flags, "dead_code");
    if let Some(env) = inherited {
        let text = chars::chars_of(env);
        if chars::find(&text, &chars::chars_of("-C instrument-coverage")).is_some() {
            push_str(&mut flags, "-C");
            push_str(&mut flags, "instrument-coverage");
        }
    }
    push_all_strs(&mut flags, extra);
    flags
}

/// The rustflags of a project invocation rendered as a TOML array, the
/// value given to `--config=build.rustflags=`.
pub fn toml_from(inherited: Option<&str>, extra: &[String]) -> (r: String)
    ensures
        r@ == toml_rendering(
            rustflags_of(
                match inherited {
                    Some(s) => Some(s@),
                    None => None,
                },
                string_views(extra@),
            ),
        ),
{
    let flags = rustflags(inherited, extra);
    toml_array(&flags)
}

/// The arguments of every invocation on the generated project: offline,
/// with the rustflags set both for the build and for the target triple,
/// then the invocation's own arguments.
pub open spec fn project_arguments_of(toml: Seq<char>, triple: Seq<char>, arguments: Seq<Seq<char>>) -> Seq<Seq<char>> {
    seq![
        "--offline"@,
        "--config=build.rustflags="@ + toml,
        "--config=target."@ + triple + ".rustflags="@ + toml,
    ] + arguments
}

/// The full argument list of an invocation on the generated project.
pub fn project_arguments(rustflags_toml: &str, triple: &str, arguments: &[String]) -> (r: Vec<String>)
    ensures
        string_views(r@) == project_arguments_of(rustflags_toml@, triple@, string_views(arguments@)),
{
    let toml = chars::chars_of(rustflags_toml);
    let mut out: Vec<String> = Vec::new();
    push_str(&mut out, "--offline");
    let build = chars::concat(&chars::chars_of("--config=build.rustflags="), &toml);
    push_str(&mut out, chars::string_of(&build).as_str());
    let target = chars::concat(
        &chars::concat(&chars::concat(&chars::chars_of("--config=target."), &chars::chars_of(triple)), &chars::chars_of(".rustflags=")),
        &toml,
    );
    push_str(&mut out, chars::string_of(&target).as_str());
    push_all_strs(&mut out, arguments);
    assert(string_views(out@) =~= project_arguments_of(rustflags_toml@, triple@, string_views(arguments@)));
    out
}

/// The `--target <triple>` arguments, or none when the harness was built to
/// treat the target as the host (so that cargo passes `RUSTFLAGS` to build
/// scripts and proc macros, which coverage tools need).
pub open spec fn target_of(no_target: bool, triple: Seq<char>) -> Seq<Seq<char>> {
    if no_target {
        Seq::empty()
    } else {
        seq!["--target"@, triple]
    }
}

/// The `--target` arguments for the given triple.
pub fn target(no_target: bool, triple: &str) -> (r: Vec<String>)
    ensures
        string_views(r@) == target_of(no_target, triple@),
{
    let mut out: Vec<String> = Vec::new();
    if !no_target {
        push_str(&mut out, "--target");
        push_str(&mut out, triple);
    }
    assert(string_views(out@) =~= target_of(no_target, triple@));
    out
}

/// The strings joined with `sep` between them (`[String]::join`).
pub open spec fn joined_with(items: Seq<Seq<char>>, sep: Seq<char>) -> Seq<char>
    decreases items.len(),
{
    if items.len() == 0 {
        Seq::empty()
    } else if items.len() == 1 {
        items[0]
    } else {
        joined_with(items.drop_last(), sep) + sep + items.last()
    }
}

/// The arguments selecting the active feature set: none when no set was
/// detected, else the default features off and the set, comma-separated.
pub open spec fn features_of(features: Option<Seq<Seq<char>>>) -> Seq<Seq<char>> {
    match features {
        None => Seq::empty(),
        Some(f) => seq!["--no-default-features"@, "--features"@, joined_with(f, ","@)],
    }
}

pub open spec fn opt_views(o: Option<Vec<String>>) -> Option<Seq<Seq<char>>> {
    match o {
        Some(v) => Some(string_views(v@)),
        None => None,
    }
}

/// The `--no-default-features --features a,b` arguments, or none.
pub fn features(active: &Option<Vec<String>>) -> (r: Vec<String>)
    ensures
        string_views(r@) == features_of(opt_views(*active)),
{
    let mut out: Vec<String> = Vec::new();
    match active {
        None => {
            assert(string_views(out@) =~= features_of(opt_views(*active)));
        },
        Some(list) => {
            let mut joined: Vec<char> = Vec::new();
            let mut i: usize = 0;
            while i < list.len()
                invariant
                    i <= list.len(),
                    joined@ == joined_with(string_views(list@.take(i as int)), ","@),
                decreases list.len() - i,
            {
                let item = chars::chars_of(list[i].as_str());
                proof {
                    assert(string_views(list@.take(i + 1)).drop_last() == string_views(list@.take(i as int)));
                    assert(string_views(list@.take(i + 1)).last() == item@);
                    if i == 0 {
                        assert(string_views(list@.take(1))[0] == item@);
                    }
                }
                let ghost before = joined@;
                proof {
                    reveal_strlit(",");
                }
                if i > 0 {
                    joined.push(',');
                }
                chars::push_all(&mut joined, &item);
                proof {
                    if i == 0 {
                        assert(joined@ == item@);
                    } else {
                        assert(joined@ =~= before + ","@ + item@);
                    }
                }
                i = i + 1;
            }
            assert(list@.take(list.len() as int) == list@);
            push_str(&mut out, "--no-default-features");
            push_str(&mut out, "--features");
            push_str(&mut out, chars::string_of(&joined).as_str());
            assert(string_views(out@) =~= features_of(opt_views(*active)));
        },
    }
    out
}

/// Which test bins a build covers.
#[derive(Clone, Copy, Debug)]
pub enum BuildSelection<'a> {
    /// One named bin.
    Named(&'a Name),
    /// Every generated bin.
    All,
}

/// `build` when some case must run afterwards, else the cheaper `check`.
pub open spec fn build_verb(selected: Selected) -> Seq<char> {
    if selected.spec_has_pass() {
        "build"@
    } else {
        "check"@
    }
}

/// The arguments of a diagnostic build: the verb, the target, the bins, the
/// features, quiet colorless JSON output, and `--keep-going` when asked.
pub open spec fn build_arguments_of(
    selected: Selected,
    target: Seq<Seq<char>>,
    bin: Option<Seq<char>>,
    features: Seq<Seq<char>>,
    keep_going: bool,
) -> Seq<Seq<char>> {
    seq![build_verb(selected)] + target + (match bin {
        Some(name) => seq!["--bin"@, name],
        None => seq!["--bins"@],
    }) + features + seq!["--quiet"@, "--color=never"@, "--message-format=json"@] + (if keep_going {
        seq!["--keep-going"@]
    } else {
        Seq::empty()
    })
}

/// The arguments shared by single and batched diagnostic builds.
pub fn build_arguments(
    selected: Selected,
    target: &[String],
    features: &[String],
    selection: BuildSelection,
    keep_going: bool,
) -> (r: Vec<String>)
    ensures
        string_views(r@) == build_arguments_of(
            selected,
            string_views(target@),
            match selection {
                BuildSelection::Named(name) => Some(name.0@),
                BuildSelection::All => None,
            },
            string_views(features@),
            keep_going,
        ),
{
    let mut out: Vec<String> = Vec::new();
    push_str(&mut out, if selected.has_pass() { "build" } else { "check" });
    push_all_strs(&mut out, target);
    match selection {
        BuildSelection::Named(name) => {
            push_str(&mut out, "--bin");
            push_str(&mut out, name.0.as_str());
        },
        BuildSelection::All => push_str(&mut out, "--bins"),
    }
    push_all_strs(&mut out, features);
    push_str(&mut out, "--quiet");
    push_str(&mut out, "--color=never");
    push_str(&mut out, "--message-format=json");
    if keep_going {
        push_str(&mut out, "--keep-going");
    }
    proof {
        let bin = match selection {
            BuildSelection::Named(name) => Some(name.0@),
            BuildSelection::All => None,
        };
        assert(string_views(out@) =~= build_arguments_of(
            selected,
            string_views(target@),
            bin,
            string_views(features@),
            keep_going,
        ));
    }
    out
}

/// The arguments of the one-time dependency build: the generated project's
/// own placeholder bin, built or checked, with the target and features.
pub open spec fn dependency_arguments_of(
    selected: Selected,
    target: Seq<Seq<char>>,
    project_name: Seq<char>,
    features: Seq<Seq<char>>,
) -> Seq<Seq<char>> {
    seq![build_verb(selected)] + target + seq!["--bin"@, project_name] + features
}

/// The arguments of the one-time dependency build.
pub fn dependency_arguments(selected: Selected, target: &[String], project_name: &str, features: &[String]) -> (r: Vec<
    String,
>)
    ensures
        string_views(r@) == dependency_arguments_of(
            selected,
            string_views(target@),
            project_name@,
            string_views(features@),
        ),
{
    let mut out: Vec<String> = Vec::new();
    push_str(&mut out, if selected.has_pass() { "build" } else { "check" });
    push_all_strs(&mut out, target);
    push_str(&mut out, "--bin");
    push_str(&mut out, project_name);
    push_all_strs(&mut out, features);
    assert(string_views(out@) =~= dependency_arguments_of(
        selected,
        string_views(target@),
        project_name@,
        string_views(features@),
    ));
    out
}

/// Where the preparation of the generated project's dependencies stands:
/// the workspace lockfile is looked for and seeded (or a new one
/// generated), the dependencies are built once, cargo is probed for
/// `--keep-going`, and the generated package is cleaned.
#[derive(Clone, Copy, Debug, PartialEq, Eq, Structural)]
pub enum DependencyStep {
    /// Nothing has been done yet.
    Start,
    /// The workspace's `Cargo.lock` is being opened.
    OpenLock,
    /// The workspace's lockfile is being copied into the project.
    Seeding,
    /// `cargo generate-lockfile` is running.
    Generating,
    /// The dependency build is running.
    Building,
    /// The `--keep-going` probe is running.
    Probing,
    /// The generated package is being cleaned; the probe gave this answer.
    Cleaning(KeepGoing),
    /// The dependency build failed; nothing more is done.
    Stopped,
    /// Preparation is complete, with this answer to the probe.
    Finished(KeepGoing),
}

/// What the outside world reports back after an action.
#[derive(Debug)]
pub enum DependencyEvent {
    /// Preparation starts.
    Begin,
    /// The workspace's `Cargo.lock` was opened.
    LockfileFound,
    /// The workspace has no `Cargo.lock`.
    LockfileMissing,
    /// The workspace's `Cargo.lock` exists but could not be opened.
    LockfileUnreadable,
    /// The lockfile copy was attempted (its outcome does not matter).
    Copied,
    /// A cargo invocation ran to its end, with its exit status and stderr.
    Exited { success: bool, stderr: String },
    /// A cargo invocation could not be run at all.
    Unrunnable(std::io::Error),
}

/// What to do next.
#[derive(Debug)]
pub enum DependencyAction {
    /// Open the workspace's `Cargo.lock`.
    OpenWorkspaceLock,
    /// Copy the opened lockfile into the generated project, best effort.
    CopyLockfile,
    /// Run cargo in the project with these arguments; with `quiet`, its
    /// stdout and stderr are discarded.
    Cargo { arguments: Vec<String>, quiet: bool },
    /// Preparation fails with this error.
    Fail(BuildError),
    /// Preparation is complete; cargo's answer to `--keep-going`.
    Done(KeepGoing),
    /// The event does not belong to the step: nothing to do.
    Nothing,
}

/// An event as plain values.
pub enum EventView {
    Begin,
    LockfileFound,
    LockfileMissing,
    LockfileUnreadable,
    Copied,
    Exited(bool, Seq<char>),
    Unrunnable(std::io::Error),
}

/// An action as plain values.
pub enum ActionView {
    OpenWorkspaceLock,
    CopyLockfile,
    Cargo(Seq<Seq<char>>, bool),
    FailDependencyBuild(Seq<char>),
    FailCargo(std::io::Error),
    /// A failure of any other kind, which preparation never gives.
    FailOther,
    Done(KeepGoing),
    Nothing,
}

/// An event as plain values: a cargo exit by its status and stderr text.
pub open spec fn event_view(e: DependencyEvent) -> EventView {
    match e {
        DependencyEvent::Begin => EventView::Begin,
        DependencyEvent::LockfileFound => EventView::LockfileFound,
        DependencyEvent::LockfileMissing => EventView::LockfileMissing,
        DependencyEvent::LockfileUnreadable => EventView::LockfileUnreadable,
        DependencyEvent::Copied => EventView::Copied,
        DependencyEvent::Exited { success, stderr } => EventView::Exited(success, stderr@),
        DependencyEvent::Unrunnable(err) => EventView::Unrunnable(err),
    }
}

/// An action as plain values: a cargo invocation by its argument texts, a
/// failure by its kind and what it carries.
pub open spec fn action_view(a: DependencyAction) -> ActionView {
    match a {
        DependencyAction::OpenWorkspaceLock => ActionView::OpenWorkspaceLock,
        DependencyAction::CopyLockfile => ActionView::CopyLockfile,
        DependencyAction::Cargo { arguments, quiet } => ActionView::Cargo(string_views(arguments@), quiet),
        DependencyAction::Fail(BuildError::DependencyBuild(o)) => ActionView::FailDependencyBuild(o.output@),
        DependencyAction::Fail(BuildError::Cargo(err)) => ActionView::FailCargo(err),
        DependencyAction::Fail(_) => ActionView::FailOther,
        DependencyAction::Done(k) => ActionView::Done(k),
        DependencyAction::Nothing => ActionView::Nothing,
    }
}

/// The arguments of the suite-level clean of the generated package.
pub open spec fn clean_arguments_of(project_name: Seq<char>) -> Seq<Seq<char>> {
    seq!["clean"@, "--package"@, project_name, "--color=never"@]
}

/// The next step and action of dependency preparation. A missing workspace
/// lockfile is generated with `cargo generate-lockfile`, whose outcome is
/// ignored; an existing one is copied; one that cannot be opened is left
/// alone. The dependencies are then built (`build` when a pass case is
/// selected, else `check`). A failed build ends preparation with the
/// dependency-build error carrying cargo's stderr, and a build cargo could
/// not run with that error; neither probes nor cleans. After a successful
/// build the same invocation is repeated quietly with `--keep-going`: cargo
/// supports it exactly when that probe succeeds. Last the generated package
/// is cleaned quietly, whatever the clean gives.
pub open spec fn dependency_transition(
    step: DependencyStep,
    event: EventView,
    selected: Selected,
    target: Seq<Seq<char>>,
    project_name: Seq<char>,
    features: Seq<Seq<char>>,
) -> (DependencyStep, ActionView) {
    let build = dependency_arguments_of(selected, target, project_name, features);
    let clean = ActionView::Cargo(clean_arguments_of(project_name), true);
    let ignored = (step, ActionView::Nothing);
    match step {
        DependencyStep::Start => match event {
            EventView::Begin => (DependencyStep::OpenLock, ActionView::OpenWorkspaceLock),
            _ => ignored,
        },
        DependencyStep::OpenLock => match event {
            EventView::LockfileFound => (DependencyStep::Seeding, ActionView::CopyLockfile),
            EventView::LockfileMissing => (
                DependencyStep::Generating,
                ActionView::Cargo(seq!["generate-lockfile"@], false),
            ),
            EventView::LockfileUnreadable => (DependencyStep::Building, ActionView::Cargo(build, false)),
            _ => ignored,
        },
        DependencyStep::Seeding => match event {
            EventView::Copied => (DependencyStep::Building, ActionView::Cargo(build, false)),
            _ => ignored,
        },
        DependencyStep::Generating => match event {
            EventView::Exited(_, _) => (DependencyStep::Building, ActionView::Cargo(build, false)),
            EventView::Unrunnable(_) => (DependencyStep::Building, ActionView::Cargo(build, false)),
            _ => ignored,
        },
        DependencyStep::Building => match event {
            EventView::Exited(success, stderr) => if success {
                (DependencyStep::Probing, ActionView::Cargo(build.push("--keep-going"@), true))
            } else {
                (DependencyStep::Stopped, ActionView::FailDependencyBuild(stderr))
            },
            EventView::Unrunnable(err) => (DependencyStep::Stopped, ActionView::FailCargo(err)),
            _ => ignored,
        },
        DependencyStep::Probing => match event {
            EventView::Exited(success, _) => (
                DependencyStep::Cleaning(if success { KeepGoing::Yes } else { KeepGoing::No }),
                clean,
            ),
            EventView::Unrunnable(_) => (DependencyStep::Cleaning(KeepGoing::No), clean),
            _ => ignored,
        },
        DependencyStep::Cleaning(k) => match event {
            EventView::Exited(_, _) => (DependencyStep::Finished(k), ActionView::Done(k)),
            EventView::Unrunnable(_) => (DependencyStep::Finished(k), ActionView::Done(k)),
            _ => ignored,
        },
        DependencyStep::Stopped => ignored,
        DependencyStep::Finished(_) => ignored,
    }
}

/// One step of preparing the generated project's dependencies: from where
/// preparation stands and what the last action reported, the next step and
/// the action to perform.
pub fn dependency_step(
    step: DependencyStep,
    event: DependencyEvent,
    selected: Selected,
    target: &[String],
    project_name: &str,
    features: &[String],
) -> (r: (DependencyStep, DependencyAction))
    ensures
        (r.0, action_view(r.1)) == dependency_transition(
            step,
            event_view(event),
            selected,
            string_views(target@),
            project_name@,
            string_views(features@),
        ),
{
    match step {
        DependencyStep::Start => match event {
            DependencyEvent::Begin => (DependencyStep::OpenLock, DependencyAction::OpenWorkspaceLock),
            _ => (step, DependencyAction::Nothing),
        },
        DependencyStep::OpenLock => match event {
            DependencyEvent::LockfileFound => (DependencyStep::Seeding, DependencyAction::CopyLockfile),
            DependencyEvent::LockfileMissing => {
                let mut arguments: Vec<String> = Vec::new();
                push_str(&mut arguments, "generate-lockfile");
                assert(string_views(arguments@) =~= seq!["generate-lockfile"@]);
                (DependencyStep::Generating, DependencyAction::Cargo { arguments, quiet: false })
            },
            DependencyEvent::LockfileUnreadable => {
                let arguments = dependency_arguments(selected, target, project_name, features);
                (DependencyStep::Building, DependencyAction::Cargo { arguments, quiet: false })
            },
            _ => (step, DependencyAction::Nothing),
        },
        DependencyStep::Seeding => match event {
            DependencyEvent::Copied => {
                let arguments = dependency_arguments(selected, target, project_name, features);
                (DependencyStep::Building, DependencyAction::Cargo { arguments, quiet: false })
            },
            _ => (step, DependencyAction::Nothing),
        },
        DependencyStep::Generating => match event {
            DependencyEvent::Exited { .. } | DependencyEvent::Unrunnable(_) => {
                let arguments = dependency_arguments(selected, target, project_name, features);
                (DependencyStep::Building, DependencyAction::Cargo { arguments, quiet: false })
            },
            _ => (step, DependencyAction::Nothing),
        },
        DependencyStep::Building => match event {
            DependencyEvent::Exited { success, stderr } => {
                if success {
                    let mut arguments = dependency_arguments(selected, target, project_name, features);
                    push_str(&mut arguments, "--keep-going");
                    (DependencyStep::Probing, DependencyAction::Cargo { arguments, quiet: true })
                } else {
                    (
                        DependencyStep::Stopped,
                        DependencyAction::Fail(BuildError::DependencyBuild(Box::new(BuildOutput { output: stderr }))),
                    )
                }
            },
            DependencyEvent::Unrunnable(err) => (DependencyStep::Stopped, DependencyAction::Fail(BuildError::Cargo(err))),
            _ => (step, DependencyAction::Nothing),
        },
        DependencyStep::Probing => {
            let keep_going = match event {
                DependencyEvent::Exited { success, .. } => if success { KeepGoing::Yes } else { KeepGoing::No },
                DependencyEvent::Unrunnable(_) => KeepGoing::No,
                _ => return (step, DependencyAction::Nothing),
            };
            let arguments = clean_arguments(project_name);
            (DependencyStep::Cleaning(keep_going), DependencyAction::Cargo { arguments, quiet: true })
        },
        DependencyStep::Cleaning(k) => match event {
            DependencyEvent::Exited { .. } | DependencyEvent::Unrunnable(_) => (
                DependencyStep::Finished(k),
                DependencyAction::Done(k),
            ),
            _ => (step, DependencyAction::Nothing),
        },
        DependencyStep::Stopped | DependencyStep::Finished(_) => (step, DependencyAction::Nothing),
    }
}

/// The arguments of running a pass-test through `cargo run`, when the build
/// reported no executable to run directly.
pub open spec fn run_arguments_of(target: Seq<Seq<char>>, name: Seq<char>, features: Seq<Seq<char>>) -> Seq<Seq<char>> {
    seq!["run"@] + target + seq!["--bin"@, name] + features + seq!["--quiet"@, "--color=never"@]
}

/// The arguments of `cargo run` for one test bin.
pub fn run_arguments(target: &[String], name: &Name, features: &[String]) -> (r: Vec<String>)
    ensures
        string_views(r@) == run_arguments_of(string_views(target@), name.0@, string_views(features@)),
{
    let mut out: Vec<String> = Vec::new();
    push_str(&mut out, "run");
    push_all_strs(&mut out, target);
    push_str(&mut out, "--bin");
    push_str(&mut out, name.0.as_str());
    push_all_strs(&mut out, features);
    push_str(&mut out, "--quiet");
    push_str(&mut out, "--color=never");
    assert(string_views(out@) =~= run_arguments_of(string_views(target@), name.0@, string_views(features@)));
    out
}

/// The arguments of the suite-level clean of the generated package.
pub fn clean_arguments(project_name: &str) -> (r: Vec<String>)
    ensures
        string_views(r@) == clean_arguments_of(project_name@),
{
    let mut out: Vec<String> = Vec::new();
    push_str(&mut out, "clean");
    push_str(&mut out, "--package");
    push_str(&mut out, project_name);
    push_str(&mut out, "--color=never");
    assert(string_views(out@) =~= seq!["clean"@, "--package"@, project_name@, "--color=never"@]);
    out
}

/// The arguments of reading the workspace's metadata.
pub fn metadata_arguments() -> (r: Vec<String>)
    ensures
        string_views(r@) == seq!["metadata"@, "--no-deps"@, "--format-version=1"@],
{
    let mut out: Vec<String> = Vec::new();
    push_str(&mut out, "metadata");
    push_str(&mut out, "--no-deps");
    push_str(&mut out, "--format-version=1");
    assert(string_views(out@) =~= seq!["metadata"@, "--no-deps"@, "--format-version=1"@]);
    out
}

/// A change to the environment of a process.
#[derive(Debug, PartialEq, Eq)]
pub enum EnvChange {
    /// Set the variable to the value.
    Assign(String, String),
    /// Remove the variable.
    Remove(String),
}

/// The build directory of the generated projects under a target directory.
pub open spec fn trybuild_target_of(target_dir: Seq<char>) -> Seq<char> {
    std_path_join(std_path_join(target_dir, "tests"@), "trybuild"@)
}

/// The environment of every process on the generated project: artifacts
/// under `<target>/tests/trybuild`, the inherited `RUSTFLAGS` removed (they
/// went into the `--config` arguments), and no incremental compilation.
pub fn project_environment(target_dir: &Directory) -> (r: Vec<EnvChange>)
    ensures
        r@.len() == 3,
        r@[0] matches EnvChange::Assign(n, v) && n@ == "CARGO_TARGET_DIR"@ && v@ == trybuild_target_of(target_dir@),
        r@[1] matches EnvChange::Remove(n) && n@ == "RUSTFLAGS"@,
        r@[2] matches EnvChange::Assign(n, v) && n@ == "CARGO_INCREMENTAL"@ && v@ == "0"@,
{
    let tests = target_dir.join("tests");
    let dir = join_path(tests.as_str(), "trybuild");
    let mut out: Vec<EnvChange> = Vec::new();
    out.push(EnvChange::Assign("CARGO_TARGET_DIR".to_string(), dir));
    out.push(EnvChange::Remove("RUSTFLAGS".to_string()));
    out.push(EnvChange::Assign("CARGO_INCREMENTAL".to_string(), "0".to_string()));
    out
}

/// The target the generated project is built for: the triple the harness
/// itself was built for. One value serves every invocation of a run, so the
/// `--target` arguments and the per-target rustflags name the same triple.
#[derive(Clone, Debug)]
pub struct HostTarget {
    triple: String,
}

impl View for HostTarget {
    type V = Seq<char>;

    closed spec fn view(&self) -> Seq<char> {
        self.triple@
    }
}

impl HostTarget {
    /// The triple the harness was built for (`target_triple::TARGET`); which
    /// triple that is, is fixed when the harness is compiled for a machine.
    pub fn current() -> (r: HostTarget) {
        HostTarget { triple: host_target() }
    }

    /// The triple as text.
    pub fn triple(&self) -> (r: &str)
        ensures
            r@ == self@,
    {
        self.triple.as_str()
    }

    /// The `--target` arguments for this triple, none when the target is
    /// treated as the host.
    pub fn target_arguments(&self, no_target: bool) -> (r: Vec<String>)
        ensures
            string_views(r@) == target_of(no_target, self@),
    {
        target(no_target, self.triple.as_str())
    }

    /// The full argument list of an invocation on the generated project,
    /// with the rustflags set for this triple.
    pub fn project_arguments(&self, rustflags_toml: &str, arguments: &[String]) -> (r: Vec<String>)
        ensures
            string_views(r@) == project_arguments_of(rustflags_toml@, self@, string_views(arguments@)),
    {
        project_arguments(rustflags_toml, self.triple.as_str(), arguments)
    }

    /// The full argument list of a diagnostic build: the rustflags for this
    /// triple, then the build arguments with `--target` of the same triple.
    pub fn build_invocation(
        &self,
        rustflags_toml: &str,
        no_target: bool,
        selected: Selected,
        features: &[String],
        selection: BuildSelection,
        keep_going: bool,
    ) -> (r: Vec<String>)
        ensures
            string_views(r@) == project_arguments_of(
                rustflags_toml@,
                self@,
                build_arguments_of(
                    selected,
                    target_of(no_target, self@),
                    match selection {
                        BuildSelection::Named(name) => Some(name.0@),
                        BuildSelection::All => None,
                    },
                    string_views(features@),
                    keep_going,
                ),
            ),
    {
        let target = self.target_arguments(no_target);
        let build = build_arguments(selected, &target, features, selection, keep_going);
        self.project_arguments(rustflags_toml, &build)
    }
}

} // verus!
