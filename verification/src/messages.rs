//! Reading what `cargo build --message-format=json` printed: its JSON
//! message lines are split from the surrounding text, and the diagnostics and
//! artifacts they report are attributed to the registered test files.
use vstd::prelude::*;

use crate::chars;
use crate::directory::Directory;
use crate::expand::{same_path, std_paths_equal};
use crate::model::{Name, PathDependency, Test};
use crate::normalize::{self, context_view, join_snapshots, Context, Variations};
use crate::rules;
use crate::text;

verus! {

/// What every JSON message line of cargo starts with.
pub open spec fn message_mark() -> Seq<char> {
    "{\"reason\":"@
}

/// The length of the line at the start of `rest`, its newline included.
pub open spec fn line_len(rest: Seq<char>) -> int {
    match text::find_char(rest, '\n') {
        Some(e) => e + 1,
        None => rest.len() as int,
    }
}

/// Splits `rem` into the message lines not in `seen` (each kept once, in
/// order) and the text around the message lines: each message line starts at
/// the next occurrence of the mark and runs through its newline.
pub open spec fn scan(rem: Seq<char>, seen: Seq<Seq<char>>) -> (Seq<Seq<char>>, Seq<char>)
    decreases rem.len(),
{
    if rem.len() == 0 {
        (Seq::empty(), Seq::empty())
    } else {
        match text::find(rem, message_mark()) {
            None => (Seq::empty(), rem),
            Some(b) => {
                let rest = rem.skip(b);
                let len = line_len(rest);
                if b < 0 || len <= 0 || b + len > rem.len() {
                    (Seq::empty(), rem)
                } else {
                    let line = rest.take(len);
                    let fresh = !seen.contains(line);
                    let after = scan(rest.skip(len), if fresh { seen.push(line) } else { seen });
                    (if fresh { seq![line] + after.0 } else { after.0 }, rem.take(b) + after.1)
                }
            },
        }
    }
}

/// Cargo's stdout split into its distinct JSON message lines and the rest.
#[derive(Debug)]
pub struct CargoStdout {
    /// The JSON message lines, each once, in the order first printed.
    pub messages: Vec<String>,
    /// Everything else cargo printed.
    pub other: String,
}

pub open spec fn views(v: Seq<Vec<char>>) -> Seq<Seq<char>> {
    v.map_values(|l: Vec<char>| l@)
}

fn already_seen(lines: &Vec<Vec<char>>, line: &Vec<char>) -> (r: bool)
    ensures
        r == views(lines@).contains(line@),
{
    let mut i: usize = 0;
    while i < lines.len()
        invariant
            i <= lines.len(),
            forall|k: int| 0 <= k < i ==> views(lines@)[k] != line@,
        decreases lines.len() - i,
    {
        if chars::equals(&lines[i], line) {
            assert(views(lines@)[i as int] == line@);
            return true;
        }
        i = i + 1;
    }
    false
}

/// Splits cargo's stdout into its JSON message lines, duplicates dropped,
/// and the text around them.
pub fn split_messages(stdout: &str) -> (r: CargoStdout)
    ensures
        r.messages@.map_values(|m: String| m@) == scan(stdout@, Seq::empty()).0,
        r.other@ == scan(stdout@, Seq::empty()).1,
{
    let all = chars::chars_of(stdout);
    let mark = chars::chars_of("{\"reason\":");
    let mut lines: Vec<Vec<char>> = Vec::new();
    let mut other: Vec<char> = Vec::new();
    let mut pos: usize = 0;
    let mut done = false;
    proof {
        reveal_strlit("{\"reason\":");
        assert(all@.skip(0) == all@);
        assert(views(lines@) =~= Seq::<Seq<char>>::empty());
        assert(Seq::<Seq<char>>::empty() + scan(all@, Seq::empty()).0 == scan(all@, Seq::empty()).0);
        assert(other@ + scan(all@, Seq::empty()).1 =~= scan(all@, Seq::empty()).1);
    }
    while pos < all.len() && !done
        invariant
            pos <= all.len(),
            all@ == stdout@,
            mark@ == message_mark(),
            done ==> scan(all@.skip(pos as int), views(lines@)) == (Seq::<Seq<char>>::empty(), all@.skip(pos as int)),
            scan(all@, Seq::empty()) == (
                views(lines@) + scan(all@.skip(pos as int), views(lines@)).0,
                other@ + scan(all@.skip(pos as int), views(lines@)).1,
            ),
        decreases all.len() - pos + if done { 0int } else { 1int },
    {
        let ghost rem = all@.skip(pos as int);
        let ghost seen = views(lines@);
        proof {
            reveal_strlit("{\"reason\":");
            text::lemma_find_skip(all@, mark@, pos as int, 0);
            text::lemma_find_from_found(all@, mark@, pos as int);
        }
        match chars::find_from(&all, &mark, pos) {
            None => {
                done = true;
            },
            Some(begin) => {
                proof {
                    text::lemma_find_char_skip(all@, '\n', begin as int, 0);
                    text::lemma_find_char_found(all@, '\n', begin as int);
                    assert(all@.skip(begin as int) == rem.skip(begin - pos));
                }
                let end = match chars::find_char_from(&all, '\n', begin) {
                    Some(e) => e + 1,
                    None => all.len(),
                };
                let ghost b = begin - pos;
                let ghost rest = rem.skip(b);
                assert(line_len(rest) == end - begin);
                let line = chars::slice(&all, begin, end);
                assert(line@ == rest.take(end - begin));
                let before = chars::slice(&all, pos, begin);
                assert(before@ == rem.take(b));
                let ghost other0 = other@;
                chars::push_all(&mut other, &before);
                assert(rest.skip(end - begin) == all@.skip(end as int));
                let fresh = !already_seen(&lines, &line);
                let ghost seen2 = if fresh { seen.push(line@) } else { seen };
                let ghost after = scan(all@.skip(end as int), seen2);
                assert(rem.len() > 0);
                assert(text::find(rem, message_mark()) == Some(b));
                assert(b >= 0 && line_len(rest) > 0 && b + line_len(rest) <= rem.len());
                assert(fresh == !seen.contains(line@));
                assert(scan(rem, seen) == (
                    if fresh { seq![line@] + after.0 } else { after.0 },
                    rem.take(b) + after.1,
                ));
                if fresh {
                    lines.push(line);
                    assert(views(lines@) =~= seen.push(line@));
                    assert(views(lines@) + after.0 =~= seen + (seq![line@] + after.0));
                }
                assert(other@ + after.1 =~= other0 + (rem.take(b) + after.1));
                pos = end;
            },
        }
    }
    let tail = chars::get_from(&all, pos);
    assert(tail@ == all@.skip(pos as int));
    proof {
        if !done {
            assert(all@.skip(pos as int).len() == 0);
        }
        assert(views(lines@) + Seq::<Seq<char>>::empty() == views(lines@));
    }
    chars::push_all(&mut other, &tail);
    let mut messages: Vec<String> = Vec::new();
    let mut i: usize = 0;
    while i < lines.len()
        invariant
            i <= lines.len(),
            messages@.map_values(|m: String| m@) == views(lines@).take(i as int),
        decreases lines.len() - i,
    {
        let ghost before = messages@;
        let m = chars::string_of(&lines[i]);
        messages.push(m);
        assert(messages@ == before.push(m));
        assert(views(lines@)[i as int] == m@);
        assert(before.map_values(|m: String| m@) == views(lines@).take(i as int));
        assert(messages@.map_values(|m: String| m@) =~= before.map_values(|m: String| m@).push(m@));
        assert(views(lines@).take(i + 1) =~= views(lines@).take(i as int).push(m@));
        i = i + 1;
    }
    assert(views(lines@).take(lines.len() as int) == views(lines@));
    CargoStdout { messages, other: chars::string_of(&other) }
}

/// The paths of the generated project that diagnostics are normalized
/// against.
#[derive(Debug)]
pub struct ProjectPaths {
    /// The crate-under-test's manifest directory.
    pub source_dir: Directory,
    /// The workspace root directory.
    pub workspace: Directory,
    /// The workspace target directory.
    pub target_dir: Directory,
    /// The crate's path dependencies outside the workspace.
    pub path_dependencies: Vec<PathDependency>,
}

/// A registered test file cargo may report on: its canonical source path,
/// the bin it is built as, and the case.
#[derive(Debug)]
pub struct Registered {
    /// The canonical path of the test's source file.
    pub src_path: String,
    /// The bin the file is built as.
    pub name: Name,
    /// The registered case.
    pub test: Test,
}

/// A rustc diagnostic that cargo reported.
#[derive(Debug)]
pub struct CompilerMessage {
    /// The name of the target the diagnostic is about.
    pub target_name: String,
    /// The canonical path of the target's root source file.
    pub src_path: String,
    /// The diagnostic level: `error`, `warning`, `failure-note`, ...
    pub level: String,
    /// The human-readable rendering of the diagnostic.
    pub rendered: String,
}

/// A compiler artifact that cargo reported.
#[derive(Debug)]
pub struct CompilerArtifact {
    /// The name of the target the artifact was built for.
    pub target_name: String,
    /// The canonical path of the target's root source file.
    pub src_path: String,
    /// The executable produced, when the artifact is runnable.
    pub executable: Option<String>,
}

/// One JSON message of cargo that the runner reads.
#[derive(Debug)]
pub enum CargoEvent {
    /// `"reason": "compiler-message"`.
    Message(CompilerMessage),
    /// `"reason": "compiler-artifact"`.
    Artifact(CompilerArtifact),
}

/// The accumulated, normalized stderr of one test file.
#[derive(Debug)]
pub struct Stderr {
    /// Whether the file compiled without an `error`-level diagnostic.
    pub success: bool,
    /// The normalized diagnostic variations of the file.
    pub stderr: Variations,
}

impl Stderr {
    /// What a file that cargo reported nothing on has: success, and no
    /// diagnostics.
    pub fn new() -> (r: Stderr)
        ensures
            r.success,
            r.stderr@ == empty_snapshots(),
    {
        Stderr { success: true, stderr: Variations::empty() }
    }
}

/// One empty rendering per step.
pub open spec fn empty_snapshots() -> Seq<Seq<char>> {
    Seq::new(rules::STEPS as nat, |i: int| Seq::<char>::empty())
}

/// Two diagnostics' variations joined step by step.
pub open spec fn concat_snapshots(a: Seq<Seq<char>>, b: Seq<Seq<char>>) -> Seq<Seq<char>> {
    Seq::new(rules::STEPS as nat, |i: int| join_snapshots(a[i], b[i]))
}

/// The stderr of one test file as the rules see it: the file's path, whether
/// it compiled, its variations.
pub type StderrView = (Seq<char>, bool, Seq<Seq<char>>);

/// A registered file as the rules see it: path, bin name, test path.
pub type RegisteredView = (Seq<char>, Seq<char>, Seq<char>);

pub open spec fn registered_view(r: Registered) -> RegisteredView {
    (r.src_path@, r.name.0@, r.test.path@)
}

pub open spec fn registered_views(v: Seq<Registered>) -> Seq<RegisteredView> {
    v.map_values(|r: Registered| registered_view(r))
}

/// The registered file that cargo's source path denotes: the last one
/// registered under an equal path.
pub open spec fn last_registered(regs: Seq<RegisteredView>, path: Seq<char>, end: int) -> Option<int>
    decreases end,
{
    if end <= 0 {
        None
    } else if std_paths_equal(regs[end - 1].0, path) {
        Some(end - 1)
    } else {
        last_registered(regs, path, end - 1)
    }
}

/// The entry of a path-keyed table under a path equal to `path`.
pub open spec fn entry_of<V>(table: Seq<(Seq<char>, V)>, path: Seq<char>, start: int) -> Option<int>
    decreases table.len() - start,
{
    if start < 0 || start >= table.len() {
        None
    } else if std_paths_equal(table[start].0, path) {
        Some(start)
    } else {
        entry_of(table, path, start + 1)
    }
}

pub open spec fn stderr_key_table(t: Seq<StderrView>) -> Seq<(Seq<char>, (bool, Seq<Seq<char>>))> {
    t.map_values(|e: StderrView| (e.0, (e.1, e.2)))
}

/// The context a registered file's diagnostics are normalized in: its bin
/// name is the crate, its own path is the input file.
pub open spec fn file_context(paths: ProjectPaths, name: Seq<char>, input_file: Seq<char>) -> rules::ContextView {
    rules::ContextView {
        krate: name,
        source_dir: paths.source_dir@,
        workspace: paths.workspace@,
        input_file,
        target_dir: paths.target_dir@,
        deps: paths.path_dependencies@.map_values(|d: PathDependency| normalize::dep_view(d)),
    }
}

/// Records a diagnostic: kept only when it is not a `failure-note` and
/// cargo attributed it to a registered file under that file's own bin; then
/// it is normalized in the file's context and appended to the file's stderr,
/// and an `error` marks the file as having failed to compile.
pub open spec fn recorded_message(
    table: Seq<StderrView>,
    regs: Seq<RegisteredView>,
    paths: ProjectPaths,
    target_name: Seq<char>,
    src_path: Seq<char>,
    level: Seq<char>,
    rendered: Seq<char>,
) -> Seq<StderrView> {
    if level == "failure-note"@ {
        table
    } else {
        match last_registered(regs, src_path, regs.len() as int) {
            None => table,
            Some(i) => if target_name != regs[i].1 {
                table
            } else {
                let normalized = rules::diagnostics(rendered, file_context(paths, regs[i].1, regs[i].2));
                let ok = level != "error"@;
                match entry_of(stderr_key_table(table), src_path, 0) {
                    Some(j) => table.update(
                        j,
                        (table[j].0, table[j].1 && ok, concat_snapshots(table[j].2, normalized)),
                    ),
                    None => table.push((src_path, ok, concat_snapshots(empty_snapshots(), normalized))),
                }
            },
        }
    }
}

/// Records an artifact's executable: kept only when there is one and cargo
/// attributed it to a registered file under that file's own bin; it then
/// becomes (or replaces) the file's executable.
pub open spec fn recorded_artifact(
    table: Seq<(Seq<char>, Seq<char>)>,
    regs: Seq<RegisteredView>,
    target_name: Seq<char>,
    src_path: Seq<char>,
    executable: Option<Seq<char>>,
) -> Seq<(Seq<char>, Seq<char>)> {
    match executable {
        None => table,
        Some(exe) => match last_registered(regs, src_path, regs.len() as int) {
            None => table,
            Some(i) => if target_name != regs[i].1 {
                table
            } else {
                match entry_of(table, src_path, 0) {
                    Some(j) => table.update(j, (table[j].0, exe)),
                    None => table.push((src_path, exe)),
                }
            },
        },
    }
}

/// What the messages of one build reported, by test file, and the text cargo
/// printed around them.
#[derive(Debug)]
pub struct ParsedOutputs {
    stdout: String,
    stderrs: Vec<(String, Stderr)>,
    executables: Vec<(String, String)>,
}

/// The test file paths a table is keyed by.
pub open spec fn path_keys<V>(t: Seq<(String, V)>) -> Seq<Seq<char>> {
    t.map_values(|e: (String, V)| e.0@)
}

/// Whether no two of the paths are the same path.
pub open spec fn distinct_paths(keys: Seq<Seq<char>>) -> bool {
    forall|i: int, j: int| 0 <= i < j < keys.len() ==> !std_paths_equal(#[trigger] keys[i], #[trigger] keys[j])
}

/// A path that `entry_of` does not find is not the path of any entry from
/// the start on.
pub proof fn lemma_entry_of_absent<V>(t: Seq<(Seq<char>, V)>, path: Seq<char>, start: int)
    requires
        0 <= start,
        entry_of(t, path, start) is None,
    ensures
        forall|j: int| start <= j < t.len() ==> !std_paths_equal(#[trigger] t[j].0, path),
    decreases t.len() - start,
{
    if start < t.len() {
        lemma_entry_of_absent(t, path, start + 1);
    }
}

impl ParsedOutputs {
    /// Each test file has at most one entry in each table, paths compared
    /// as `Path`s.
    #[verifier::type_invariant]
    spec fn keys_distinct(self) -> bool {
        &&& distinct_paths(path_keys(self.stderrs@))
        &&& distinct_paths(path_keys(self.executables@))
    }
}

pub open spec fn stderr_view(e: (String, Stderr)) -> StderrView {
    (e.0@, e.1.success, e.1.stderr@)
}

impl ParsedOutputs {
    /// Cargo's stdout with the JSON messages removed.
    pub closed spec fn other_text(&self) -> Seq<char> {
        self.stdout@
    }

    /// The recorded stderr of each test file.
    pub closed spec fn stderr_table(&self) -> Seq<StderrView> {
        self.stderrs@.map_values(|e: (String, Stderr)| stderr_view(e))
    }

    /// The recorded executable of each test file.
    pub closed spec fn executable_table(&self) -> Seq<(Seq<char>, Seq<char>)> {
        self.executables@.map_values(|e: (String, String)| (e.0@, e.1@))
    }

    /// Nothing recorded yet, with `stdout` as the text around the messages.
    pub fn new(stdout: String) -> (r: ParsedOutputs)
        ensures
            r.other_text() == stdout@,
            r.stderr_table() == Seq::<StderrView>::empty(),
            r.executable_table() == Seq::<(Seq<char>, Seq<char>)>::empty(),
    {
        let r = ParsedOutputs { stdout, stderrs: Vec::new(), executables: Vec::new() };
        assert(r.stderr_table() =~= Seq::<StderrView>::empty());
        assert(r.executable_table() =~= Seq::<(Seq<char>, Seq<char>)>::empty());
        r
    }
}

fn last_registered_index(regs: &[Registered], path: &str) -> (r: Option<usize>)
    ensures
        r matches Some(i) ==> i < regs@.len() && last_registered(
            registered_views(regs@),
            path@,
            regs@.len() as int,
        ) == Some(i as int),
        r is None ==> last_registered(registered_views(regs@), path@, regs@.len() as int) is None,
{
    let ghost v = registered_views(regs@);
    let mut end = regs.len();
    while end > 0
        invariant
            end <= regs.len(),
            v == registered_views(regs@),
            last_registered(v, path@, regs@.len() as int) == last_registered(v, path@, end as int),
        decreases end,
    {
        assert(v[end - 1].0 == regs@[end - 1].src_path@);
        if same_path(regs[end - 1].src_path.as_str(), path) {
            return Some(end - 1);
        }
        end = end - 1;
    }
    None
}

impl ParsedOutputs {
    fn stderr_entry(&self, path: &str) -> (r: Option<usize>)
        ensures
            r matches Some(j) ==> j < self.stderr_table().len() && entry_of(
                stderr_key_table(self.stderr_table()),
                path@,
                0,
            ) == Some(j as int),
            r is None ==> entry_of(stderr_key_table(self.stderr_table()), path@, 0) is None,
    {
        let ghost t = stderr_key_table(self.stderr_table());
        let mut k: usize = 0;
        while k < self.stderrs.len()
            invariant
                k <= self.stderrs.len(),
                t == stderr_key_table(self.stderr_table()),
                t.len() == self.stderrs.len(),
                entry_of(t, path@, 0) == entry_of(t, path@, k as int),
            decreases self.stderrs.len() - k,
        {
            assert(t[k as int].0 == self.stderrs@[k as int].0@);
            if same_path(self.stderrs[k].0.as_str(), path) {
                return Some(k);
            }
            k = k + 1;
        }
        None
    }

    fn executable_entry(&self, path: &str) -> (r: Option<usize>)
        ensures
            r matches Some(j) ==> j < self.executable_table().len() && entry_of(
                self.executable_table(),
                path@,
                0,
            ) == Some(j as int),
            r is None ==> entry_of(self.executable_table(), path@, 0) is None,
    {
        let ghost t = self.executable_table();
        let mut k: usize = 0;
        while k < self.executables.len()
            invariant
                k <= self.executables.len(),
                t == self.executable_table(),
                t.len() == self.executables.len(),
                entry_of(t, path@, 0) == entry_of(t, path@, k as int),
            decreases self.executables.len() - k,
        {
            assert(t[k as int].0 == self.executables@[k as int].0@);
            if same_path(self.executables[k].0.as_str(), path) {
                return Some(k);
            }
            k = k + 1;
        }
        None
    }

    /// Records one rustc diagnostic that cargo reported.
    pub fn record_diagnostic(&mut self, paths: &ProjectPaths, regs: &[Registered], message: &CompilerMessage)
        ensures
            final(self).stderr_table() == recorded_message(
                old(self).stderr_table(),
                registered_views(regs@),
                *paths,
                message.target_name@,
                message.src_path@,
                message.level@,
                message.rendered@,
            ),
            final(self).executable_table() == old(self).executable_table(),
            final(self).other_text() == old(self).other_text(),
    {
        let level = chars::chars_of(message.level.as_str());
        if chars::equals(&level, &chars::chars_of("failure-note")) {
            return;
        }
        let i = match last_registered_index(regs, message.src_path.as_str()) {
            None => return,
            Some(i) => i,
        };
        let reg = &regs[i];
        assert(registered_views(regs@)[i as int] == registered_view(*reg));
        if !chars::equals(&chars::chars_of(message.target_name.as_str()), &chars::chars_of(reg.name.0.as_str())) {
            return;
        }
        let is_error = chars::equals(&level, &chars::chars_of("error"));
        let context = Context {
            krate: reg.name.0.as_str(),
            source_dir: &paths.source_dir,
            workspace: &paths.workspace,
            input_file: reg.test.path.as_str(),
            target_dir: &paths.target_dir,
            path_dependencies: paths.path_dependencies.as_slice(),
        };
        let normalized = normalize::diagnostics(message.rendered.as_str(), &context);
        assert(context_view(context) == file_context(*paths, reg.name.0@, reg.test.path@));
        let ghost before = self.stderr_table();
        proof {
            use_type_invariant(&*self);
        }
        let found = self.stderr_entry(message.src_path.as_str());
        let ghost keys = path_keys(self.stderrs@);
        let mut stderrs: Vec<(String, Stderr)> = Vec::new();
        std::mem::swap(&mut stderrs, &mut self.stderrs);
        assert(stderrs@.map_values(|e: (String, Stderr)| stderr_view(e)) == before);
        match found {
            Some(j) => {
                let (key, mut entry) = stderrs.remove(j);
                assert(before[j as int] == stderr_view((key, entry)));
                let ghost old_variations = entry.stderr@;
                if is_error {
                    entry.success = false;
                }
                entry.stderr.concat(&normalized);
                assert(entry.stderr@ =~= concat_snapshots(old_variations, normalized@));
                stderrs.insert(j, (key, entry));
                assert(path_keys(stderrs@) =~= keys);
                self.stderrs = stderrs;
                assert(self.stderr_table() =~= before.update(
                    j as int,
                    (before[j as int].0, before[j as int].1 && !is_error, concat_snapshots(before[j as int].2, normalized@)),
                ));
            },
            None => {
                let mut entry = Stderr::new();
                if is_error {
                    entry.success = false;
                }
                entry.stderr.concat(&normalized);
                assert(entry.stderr@ =~= concat_snapshots(empty_snapshots(), normalized@));
                let key = message.src_path.clone();
                proof {
                    lemma_entry_of_absent(stderr_key_table(before), message.src_path@, 0);
                    assert forall|i: int| 0 <= i < keys.len() implies !std_paths_equal(#[trigger] keys[i], message.src_path@) by {
                        assert(stderr_key_table(before)[i].0 == keys[i]);
                    }
                }
                stderrs.push((key, entry));
                assert(path_keys(stderrs@) =~= keys.push(message.src_path@));
                self.stderrs = stderrs;
                assert(self.stderr_table() =~= before.push(
                    (message.src_path@, !is_error, concat_snapshots(empty_snapshots(), normalized@)),
                ));
            },
        }
    }
}

/// The tables after one event: a diagnostic or an artifact recorded.
pub open spec fn recorded(
    tables: (Seq<StderrView>, Seq<(Seq<char>, Seq<char>)>),
    regs: Seq<RegisteredView>,
    paths: ProjectPaths,
    event: CargoEvent,
) -> (Seq<StderrView>, Seq<(Seq<char>, Seq<char>)>) {
    match event {
        CargoEvent::Message(m) => (
            recorded_message(tables.0, regs, paths, m.target_name@, m.src_path@, m.level@, m.rendered@),
            tables.1,
        ),
        CargoEvent::Artifact(a) => (
            tables.0,
            recorded_artifact(
                tables.1,
                regs,
                a.target_name@,
                a.src_path@,
                match a.executable {
                    Some(e) => Some(e@),
                    None => None,
                },
            ),
        ),
    }
}

/// The tables after the events in order, starting empty; a message line that
/// was not one of the two events the runner reads counts for nothing.
pub open spec fn recorded_all(
    events: Seq<Option<CargoEvent>>,
    regs: Seq<RegisteredView>,
    paths: ProjectPaths,
) -> (Seq<StderrView>, Seq<(Seq<char>, Seq<char>)>)
    decreases events.len(),
{
    if events.len() == 0 {
        (Seq::empty(), Seq::empty())
    } else {
        let before = recorded_all(events.drop_last(), regs, paths);
        match events.last() {
            Some(e) => recorded(before, regs, paths, e),
            None => before,
        }
    }
}

impl ParsedOutputs {
    /// Records the executable of one compiler artifact that cargo reported.
    pub fn record_executable(&mut self, regs: &[Registered], artifact: CompilerArtifact)
        ensures
            final(self).executable_table() == recorded_artifact(
                old(self).executable_table(),
                registered_views(regs@),
                artifact.target_name@,
                artifact.src_path@,
                match artifact.executable {
                    Some(e) => Some(e@),
                    None => None,
                },
            ),
            final(self).stderr_table() == old(self).stderr_table(),
            final(self).other_text() == old(self).other_text(),
    {
        let CompilerArtifact { target_name, src_path, executable } = artifact;
        let exe = match executable {
            None => return,
            Some(e) => e,
        };
        let i = match last_registered_index(regs, src_path.as_str()) {
            None => return,
            Some(i) => i,
        };
        assert(registered_views(regs@)[i as int] == registered_view(regs@[i as int]));
        if !chars::equals(&chars::chars_of(target_name.as_str()), &chars::chars_of(regs[i].name.0.as_str())) {
            return;
        }
        let ghost before = self.executable_table();
        proof {
            use_type_invariant(&*self);
        }
        let found = self.executable_entry(src_path.as_str());
        let ghost keys = path_keys(self.executables@);
        let mut executables: Vec<(String, String)> = Vec::new();
        std::mem::swap(&mut executables, &mut self.executables);
        assert(executables@.map_values(|e: (String, String)| (e.0@, e.1@)) == before);
        match found {
            Some(j) => {
                let (key, _previous) = executables.remove(j);
                assert(before[j as int].0 == key@);
                let ghost exe_view = exe@;
                executables.insert(j, (key, exe));
                assert(path_keys(executables@) =~= keys);
                self.executables = executables;
                assert(self.executable_table() =~= before.update(j as int, (before[j as int].0, exe_view)));
            },
            None => {
                let ghost entry = (src_path@, exe@);
                proof {
                    lemma_entry_of_absent(before, src_path@, 0);
                    assert forall|i: int| 0 <= i < keys.len() implies !std_paths_equal(#[trigger] keys[i], src_path@) by {
                        assert(before[i].0 == keys[i]);
                    }
                }
                executables.push((src_path, exe));
                assert(path_keys(executables@) =~= keys.push(entry.0));
                self.executables = executables;
                assert(self.executable_table() =~= before.push(entry));
            },
        }
    }

    /// Records one event of cargo's.
    pub fn record(&mut self, paths: &ProjectPaths, regs: &[Registered], event: CargoEvent)
        ensures
            (final(self).stderr_table(), final(self).executable_table()) == recorded(
                (old(self).stderr_table(), old(self).executable_table()),
                registered_views(regs@),
                *paths,
                event,
            ),
            final(self).other_text() == old(self).other_text(),
    {
        match event {
            CargoEvent::Message(m) => self.record_diagnostic(paths, regs, &m),
            CargoEvent::Artifact(a) => self.record_executable(regs, a),
        }
    }

    /// The stderr recorded for a test file.
    pub fn stderr_of(&self, path: &str) -> (r: Option<&Stderr>)
        ensures
            match entry_of(stderr_key_table(self.stderr_table()), path@, 0) {
                Some(j) => r matches Some(e) && e.success == self.stderr_table()[j].1 && e.stderr@
                    == self.stderr_table()[j].2,
                None => r is None,
            },
    {
        match self.stderr_entry(path) {
            Some(j) => {
                assert(self.stderr_table()[j as int] == stderr_view(self.stderrs@[j as int]));
                Some(&self.stderrs[j].1)
            },
            None => None,
        }
    }

    /// The executable recorded for a test file.
    pub fn executable_of(&self, path: &str) -> (r: Option<&str>)
        ensures
            match entry_of(self.executable_table(), path@, 0) {
                Some(j) => r matches Some(e) && e@ == self.executable_table()[j].1,
                None => r is None,
            },
    {
        match self.executable_entry(path) {
            Some(j) => {
                assert(self.executable_table()[j as int].1 == self.executables@[j as int].1@);
                Some(self.executables[j].1.as_str())
            },
            None => None,
        }
    }

    /// Cargo's stdout with the JSON messages removed.
    pub fn stdout(&self) -> (r: &str)
        ensures
            r@ == self.other_text(),
    {
        self.stdout.as_str()
    }
}

/// Attributes the events of one build's JSON messages (in the order of the
/// message lines; `None` for a line that was not one of the two events the
/// runner reads) to the registered files, keeping `other` as the text cargo
/// printed around the messages.
pub fn parse_cargo_json(
    paths: &ProjectPaths,
    regs: &[Registered],
    other: String,
    events: Vec<Option<CargoEvent>>,
) -> (r: ParsedOutputs)
    ensures
        r.other_text() == other@,
        (r.stderr_table(), r.executable_table()) == recorded_all(events@, registered_views(regs@), *paths),
{
    let mut parsed = ParsedOutputs::new(other);
    let ghost all = events@;
    let mut rest = events;
    let n = rest.len();
    let mut i: usize = 0;
    while i < n
        invariant
            i <= n == all.len(),
            rest@ == all.skip(i as int),
            parsed.other_text() == other@,
            (parsed.stderr_table(), parsed.executable_table()) == recorded_all(
                all.take(i as int),
                registered_views(regs@),
                *paths,
            ),
        decreases n - i,
    {
        let event = rest.remove(0);
        assert(event == all[i as int]);
        assert(all.take(i + 1).drop_last() == all.take(i as int));
        assert(rest@ == all.skip(i + 1));
        if let Some(e) = event {
            parsed.record(paths, regs, e);
        }
        i = i + 1;
    }
    assert(all.take(n as int) == all);
    parsed
}

} // verus!
