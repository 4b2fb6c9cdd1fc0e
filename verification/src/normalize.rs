//! The diagnostic normalizer: rewriting rustc's rendered output into the
//! stable, machine-independent form saved in `.stderr` snapshots.
use vstd::prelude::*;

use crate::chars;
use crate::directory::Directory;
use crate::model::{PathDependency, PathDependencyClass};
use crate::rules;
use crate::rules::{ContextView, DepView, FilterState};
use crate::text;

verus! {

/// What `str::to_uppercase` returns for a string: its Unicode upper-case
/// mapping.
pub uninterp spec fn str_to_uppercase(s: Seq<char>) -> Seq<char>;

/// Calls `str::to_uppercase`. Trusted: the result is the named Unicode
/// upper-case mapping of the argument, a function of the argument alone.
#[verifier::external_body]
fn to_uppercase(s: &Vec<char>) -> (r: Vec<char>)
    ensures
        r@ == str_to_uppercase(s@),
{
    let text: String = s.iter().collect();
    text.to_uppercase().chars().collect()
}

/// The per-diagnostic context the normalizer needs to recognize and rewrite
/// environment-specific paths and names.
#[derive(Copy, Clone)]
pub struct Context<'a> {
    /// The generated test crate's name, rewritten to `$CRATE`.
    pub krate: &'a str,
    /// The crate-under-test's manifest directory, rewritten to `$DIR`.
    pub source_dir: &'a Directory,
    /// The workspace root directory, rewritten to `$WORKSPACE`.
    pub workspace: &'a Directory,
    /// The test's own source file, whose line numbers are preserved.
    pub input_file: &'a str,
    /// The workspace target directory, recognized to rewrite `$OUT_DIR`.
    pub target_dir: &'a Directory,
    /// Path dependencies of the crate under test, rewritten to `$<NAME>`.
    pub path_dependencies: &'a [PathDependency],
}

pub open spec fn dep_view(d: PathDependency) -> DepView {
    DepView {
        name: d.name@,
        path: d.normalized_path@,
        legacy: d.class == PathDependencyClass::LegacyTopLevel,
    }
}

/// The names and paths of a context, as the rules see them.
pub open spec fn context_view(ctx: Context) -> ContextView {
    ContextView {
        krate: ctx.krate@,
        source_dir: ctx.source_dir@,
        workspace: ctx.workspace@,
        input_file: ctx.input_file@,
        target_dir: ctx.target_dir@,
        deps: ctx.path_dependencies@.map_values(|d: PathDependency| dep_view(d)),
    }
}

/// A path dependency with its lowered path pattern and its variable.
struct PreparedDep {
    name: Vec<char>,
    path: Vec<char>,
    pat: Vec<char>,
    var: Vec<char>,
    legacy: bool,
}

/// A context converted to character vectors, with the lowered patterns that
/// location lines are matched against.
struct Prepared {
    krate: Vec<char>,
    source_dir: Vec<char>,
    workspace: Vec<char>,
    input_file: Vec<char>,
    target_dir: Vec<char>,
    source_pat: Vec<char>,
    workspace_pat: Vec<char>,
    target_pat: Vec<char>,
    input_pat: Vec<char>,
    deps: Vec<PreparedDep>,
}

impl Prepared {
    spec fn view(&self) -> ContextView {
        ContextView {
            krate: self.krate@,
            source_dir: self.source_dir@,
            workspace: self.workspace@,
            input_file: self.input_file@,
            target_dir: self.target_dir@,
            deps: self.deps@.map_values(|d: PreparedDep| DepView { name: d.name@, path: d.path@, legacy: d.legacy }),
        }
    }

    spec fn wf(&self) -> bool {
        &&& self.source_pat@ == text::lower_slash(self.source_dir@)
        &&& self.workspace_pat@ == text::lower_slash(self.workspace@)
        &&& self.target_pat@ == text::lower_slash(self.target_dir@)
        &&& self.input_pat@ == text::lower_slash(self.input_file@)
        &&& forall|j: int|
            0 <= j < self.deps.len() ==> {
                &&& (#[trigger] self.deps@[j]).pat@ == text::lower_slash(self.deps@[j].path@)
                &&& self.deps@[j].var@ == rules::dep_var(self.deps@[j].name@)
            }
    }
}

/// `$` and the crate name in upper case, with `-` written as `_`.
fn dep_var(name: &Vec<char>) -> (r: Vec<char>)
    ensures
        r@ == rules::dep_var(name@),
{
    let upper = to_uppercase(name);
    let mut r: Vec<char> = Vec::new();
    r.push('$');
    let mut i: usize = 0;
    while i < upper.len()
        invariant
            i <= upper.len(),
            r@ == seq!['$'] + upper@.take(i as int).map_values(
                |c: char|
                    if c == '-' {
                        '_'
                    } else {
                        c
                    },
            ),
        decreases upper.len() - i,
    {
        let c = upper[i];
        r.push(if c == '-' { '_' } else { c });
        i = i + 1;
        assert(upper@.take(i as int) == upper@.take(i - 1 as int).push(upper@[i - 1]));
    }
    assert(upper@.take(upper.len() as int) == upper@);
    proof {
        reveal_strlit("$");
    }
    r
}

fn prepare(ctx: &Context) -> (p: Prepared)
    ensures
        p.wf(),
        p.view() == context_view(*ctx),
{
    let krate = chars::chars_of(ctx.krate);
    let source_dir = chars::chars_of(ctx.source_dir.to_string_lossy());
    let workspace = chars::chars_of(ctx.workspace.to_string_lossy());
    let input_file = chars::chars_of(ctx.input_file);
    let target_dir = chars::chars_of(ctx.target_dir.to_string_lossy());
    let source_pat = chars::lower_slash(&source_dir);
    let workspace_pat = chars::lower_slash(&workspace);
    let target_pat = chars::lower_slash(&target_dir);
    let input_pat = chars::lower_slash(&input_file);
    let mut deps: Vec<PreparedDep> = Vec::new();
    let mut j: usize = 0;
    while j < ctx.path_dependencies.len()
        invariant
            j <= ctx.path_dependencies.len(),
            deps.len() == j,
            forall|k: int|
                0 <= k < j ==> {
                    &&& (#[trigger] deps@[k]).pat@ == text::lower_slash(deps@[k].path@)
                    &&& deps@[k].var@ == rules::dep_var(deps@[k].name@)
                    &&& deps@[k].name@ == ctx.path_dependencies@[k].name@
                    &&& deps@[k].path@ == ctx.path_dependencies@[k].normalized_path@
                    &&& deps@[k].legacy == (ctx.path_dependencies@[k].class == PathDependencyClass::LegacyTopLevel)
                },
        decreases ctx.path_dependencies.len() - j,
    {
        let d = &ctx.path_dependencies[j];
        let name = chars::chars_of(d.name.as_str());
        let path = chars::chars_of(d.normalized_path.to_string_lossy());
        let pat = chars::lower_slash(&path);
        let var = dep_var(&name);
        let legacy = match d.class {
            PathDependencyClass::LegacyTopLevel => true,
            PathDependencyClass::Additional => false,
        };
        let ghost before = deps@;
        deps.push(PreparedDep { name, path, pat, var, legacy });
        assert(deps@ == before.push(deps@[j as int]));
        j = j + 1;
    }
    let p = Prepared {
        krate,
        source_dir,
        workspace,
        input_file,
        target_dir,
        source_pat,
        workspace_pat,
        target_pat,
        input_pat,
        deps,
    };
    assert(p.view().deps =~= context_view(*ctx).deps);
    p
}

/// The view of an optional text.
pub open spec fn opt_view(o: Option<Vec<char>>) -> Option<Seq<char>> {
    match o {
        Some(v) => Some(v@),
        None => None,
    }
}

/// Whether a location line has its marker (`--> ` or `::: `) right after
/// `indent` characters, with no slash of either kind before the path.
pub open spec fn marker_line(line: Seq<char>, indent: int) -> bool {
    &&& 0 <= indent
    &&& indent + 4 <= line.len()
    &&& forall|j: int| 0 <= j < indent + 4 ==> line[j] != '/' && line[j] != '\\'
}

/// Blanks the leading line number: `"10 | T: Send,"` becomes `"   | T: Send,"`.
fn hide_leading_numbers(line: &Vec<char>) -> (r: Vec<char>)
    ensures
        r@ == rules::hide_leading_numbers(line@),
{
    let n = chars::leading_spaces_or_digits(line);
    let mut r: Vec<char> = Vec::new();
    let mut i: usize = 0;
    while i < n
        invariant
            i <= n,
            r@ == rules::spaces(i as int),
        decreases n - i,
    {
        r.push(' ');
        i = i + 1;
        assert(r@ =~= rules::spaces(i as int));
    }
    let rest = chars::slice(line, n, line.len());
    chars::push_all(&mut r, &rest);
    assert(line@.skip(n as int) == line@.subrange(n as int, line.len() as int));
    r
}

/// One trailing `:<digits>` group removed, if there is one.
fn strip_number_group(line: &Vec<char>) -> (r: Option<Vec<char>>)
    ensures
        opt_view(r) == rules::strip_number_group(line@),
{
    let digits = chars::trailing_digits(line);
    let without = line.len() - digits;
    let head = chars::slice(line, 0, without);
    let colon = chars::chars_of(":");
    assert(line@.take(without as int) == head@);
    if digits == 0 || !chars::ends_with(&head, &colon) {
        None
    } else {
        proof {
            reveal_strlit(":");
        }
        let r = chars::slice(line, 0, without - 1);
        assert(line@.take(without - 1) == r@);
        Some(r)
    }
}

/// Up to two trailing `:line[:column]` groups removed.
fn hide_trailing_numbers(line: &Vec<char>) -> (r: Vec<char>)
    ensures
        r@ == rules::hide_trailing_numbers(line@),
{
    match strip_number_group(line) {
        None => chars::copy(line),
        Some(once) => match strip_number_group(&once) {
            None => once,
            Some(twice) => twice,
        },
    }
}

/// The end of the bordered rows from line `at` on.
fn bordered_rows_end(lines: &Vec<Vec<char>>, at: usize) -> (r: usize)
    requires
        at <= lines.len(),
    ensures
        r == rules::bordered_rows_end(chars::views(lines@), at as int),
        at <= r <= lines.len(),
{
    let ghost ls = chars::views(lines@);
    let mut k = at;
    while k < lines.len()
        invariant
            at <= k <= lines.len(),
            ls == chars::views(lines@),
            rules::bordered_rows_end(ls, at as int) == rules::bordered_rows_end(ls, k as int),
        decreases lines.len() - k,
    {
        let t = chars::trim_start(&lines[k]);
        assert(ls[k as int] == lines@[k as int]@);
        if t.len() > 0 && (chars::is_digit(t[0]) || t[0] == '|' || t[0] == '.') {
            k = k + 1;
        } else {
            return k;
        }
    }
    k
}

/// Whether a directory component is `<name>-<16 lowercase hex>`.
fn is_out_dir_crate(c: &Vec<char>) -> (r: bool)
    ensures
        r == rules::is_out_dir_crate(c@),
{
    if c.len() <= 17 {
        return false;
    }
    match chars::rfind_char(c, '-') {
        Some(d) => if d != c.len() - 17 {
            return false;
        },
        None => return false,
    }
    let hash = chars::slice(c, c.len() - 16, c.len());
    assert(c@.skip(c.len() - 16) == hash@);
    chars::all_lower_hex(&hash)
}

/// The `$OUT_DIR[<crate>]` rewrite of the components after the target
/// directory.
fn replace_out_dir(line: &Vec<char>, indent: usize, target_len: usize) -> (r: (Vec<char>, bool))
    requires
        indent + 4 + target_len <= line.len(),
    ensures
        (r.0@, r.1) == rules::scan_out_dir(line@, indent as int, indent + 4 + target_len, None),
{
    let mut offset = indent + 4 + target_len;
    let mut name: Option<Vec<char>> = None;
    let out = chars::chars_of("out");
    proof {
        reveal_strlit("out");
    }
    loop
        invariant
            indent + 4 + target_len <= offset <= line.len() + 1,
            out@ == "out"@,
            rules::scan_out_dir(line@, indent as int, indent + 4 + target_len, None) == rules::scan_out_dir(
                line@,
                indent as int,
                offset as int,
                opt_view(name),
            ),
        decreases line.len() + 1 - offset,
    {
        let found = chars::find_char_from(line, '/', offset);
        proof {
            text::lemma_find_char_found(line@, '/', offset as int);
        }
        match found {
            None => return (chars::copy(line), false),
            Some(slash) => {
                let component = chars::slice(line, offset, slash);
                let is_out = chars::equals(&component, &out);
                if is_out && name.is_some() {
                    proof {
                        reveal_strlit("out");
                    }
                    assert(component@.len() == 3);
                    let mut replacement = chars::chars_of("$OUT_DIR[");
                    match &name {
                        Some(n) => chars::push_all(&mut replacement, n),
                        None => {},
                    }
                    let close = chars::chars_of("]");
                    chars::push_all(&mut replacement, &close);
                    let r = chars::splice(line, indent + 4, offset + 3, &replacement);
                    return (r, true);
                }
                name = if is_out_dir_crate(&component) {
                    Some(chars::slice(&component, 0, component.len() - 17))
                } else {
                    None
                };
                assert(opt_view(name) == (if rules::is_out_dir_crate(component@) {
                    Some(component@.take(component@.len() - 17))
                } else {
                    None
                }));
                offset = slash + 1;
            },
        }
    }
}

/// The source-directory rewrite; the flag says whether the line is complete.
fn replace_source_dir(
    line: &Vec<char>,
    lower: &Vec<char>,
    indent: usize,
    k: usize,
    p: &Prepared,
    n: u8,
) -> (r: (bool, Vec<char>))
    requires
        p.wf(),
        line@.len() == lower@.len(),
        indent + 4 <= line.len(),
        text::find(lower@, p.source_pat@) == Some(k as int),
    ensures
        (r.0, r.1@) == rules::replace_source_dir(
            line@,
            lower@,
            indent as int,
            k as int,
            p.source_pat@,
            n as int,
            p.view().input_file,
        ),
{
    let len = p.source_pat.len();
    assert(lower.len() == lower@.len());
    proof {
        text::lemma_find_from_found(lower@, p.source_pat@, 0);
        if len == 0 {
            text::lemma_find_empty(lower@);
            assert(p.source_pat@ =~= Seq::<char>::empty());
        }
    }
    if n >= rules::RELATIVE_TO_DIR && k == indent + 4 {
        let empty: Vec<char> = Vec::new();
        let relative = chars::splice(line, k, k + len, &empty);
        if n < rules::LINES_OUTSIDE_INPUT_FILE {
            return (true, relative);
        }
        let after = chars::get_from(lower, k + len);
        (chars::starts_with(&after, &p.input_pat), relative)
    } else {
        let end = if k + len >= 1 {
            k + len - 1
        } else {
            0
        };
        let dir = chars::chars_of("$DIR");
        (n < rules::LINES_OUTSIDE_INPUT_FILE, chars::splice(line, k, end, &dir))
    }
}

proof fn lemma_first_dep_unchanged(line: Seq<char>, lower: Seq<char>, deps: Seq<DepView>, j: int)
    ensures
        !rules::first_dep_match(line, lower, deps, j).1 ==> rules::first_dep_match(line, lower, deps, j).0
            == line,
    decreases deps.len() - j,
{
    if 0 <= j < deps.len() {
        lemma_first_dep_unchanged(line, lower, deps, j + 1);
    }
}

proof fn lemma_scan_out_dir_unchanged(line: Seq<char>, indent: int, offset: int, name: Option<Seq<char>>)
    ensures
        !rules::scan_out_dir(line, indent, offset, name).1 ==> rules::scan_out_dir(line, indent, offset, name).0
            == line,
    decreases line.len() - offset,
{
    match text::find_char_from(line, '/', offset) {
        None => {},
        Some(slash) => {
            if offset <= slash < line.len() {
                let component = line.subrange(offset, slash);
                let next = if rules::is_out_dir_crate(component) {
                    Some(component.take(component.len() - 17))
                } else {
                    None
                };
                text::lemma_find_char_found(line, '/', offset);
                lemma_scan_out_dir_unchanged(line, indent, slash + 1, next);
            }
        },
    }
}

/// The path-dependency rewrite.
fn replace_path_dependency(line: &Vec<char>, lower: &Vec<char>, p: &Prepared, n: u8) -> (r: (Vec<char>, bool))
    requires
        p.wf(),
        line@.len() == lower@.len(),
    ensures
        (r.0@, r.1) == rules::replace_path_dependency(line@, lower@, p.view().deps, n as int),
        !r.1 ==> r.0@ == line@,
{
    let ghost deps = p.view().deps;
    if n >= rules::NESTED_PATH_DEPENDENCIES {
        let mut best: Option<(usize, usize, usize)> = None;
        let mut j: usize = 0;
        while j < p.deps.len()
            invariant
                p.wf(),
                deps == p.view().deps,
                j <= p.deps.len(),
                line@.len() == lower@.len(),
                best matches Some(b) ==> b.2 < p.deps.len() && b.0 + b.1 <= lower@.len() && (b.1 == 0 ==> b.0
                    == 0),
                rules::longest_dep_match(lower@, deps, 0, None) == rules::longest_dep_match(
                    lower@,
                    deps,
                    j as int,
                    match best {
                        Some(b) => Some((b.0 as int, b.1 as int, p.deps@[b.2 as int].var@)),
                        None => None,
                    },
                ),
            decreases p.deps.len() - j,
        {
            let pat = &p.deps[j].pat;
            assert(pat@ == text::lower_slash(deps[j as int].path));
            assert(p.deps@[j as int].var@ == rules::dep_var(deps[j as int].name));
            assert(lower.len() == lower@.len());
            let found = chars::find(lower, pat);
            proof {
                text::lemma_find_from_found(lower@, pat@, 0);
                if pat@.len() == 0 {
                    text::lemma_find_empty(lower@);
                    assert(pat@ =~= Seq::<char>::empty());
                }
            }
            match found {
                Some(k) => {
                    let better = match best {
                        Some(b) => pat.len() > b.1,
                        None => true,
                    };
                    if better {
                        best = Some((k, pat.len(), j));
                    }
                },
                None => {},
            }
            j = j + 1;
        }
        assert(lower.len() == lower@.len());
        match best {
            Some(b) => {
                let end = if b.0 + b.1 >= 1 {
                    b.0 + b.1 - 1
                } else {
                    0
                };
                (chars::splice(line, b.0, end, &p.deps[b.2].var), true)
            },
            None => (chars::copy(line), false),
        }
    } else {
        let mut j: usize = 0;
        while j < p.deps.len()
            invariant
                p.wf(),
                deps == p.view().deps,
                j <= p.deps.len(),
                line@.len() == lower@.len(),
                n < rules::NESTED_PATH_DEPENDENCIES,
                rules::first_dep_match(line@, lower@, deps, 0) == rules::first_dep_match(
                    line@,
                    lower@,
                    deps,
                    j as int,
                ),
            decreases p.deps.len() - j,
        {
            let pat = &p.deps[j].pat;
            assert(pat@ == text::lower_slash(deps[j as int].path));
            assert(p.deps@[j as int].var@ == rules::dep_var(deps[j as int].name));
            assert(lower.len() == lower@.len());
            let found = chars::find(lower, pat);
            proof {
                text::lemma_find_from_found(lower@, pat@, 0);
                if pat@.len() == 0 {
                    text::lemma_find_empty(lower@);
                    assert(pat@ =~= Seq::<char>::empty());
                }
            }
            match found {
                Some(k) => if p.deps[j].legacy {
                    let end = if k + pat.len() >= 1 {
                        k + pat.len() - 1
                    } else {
                        0
                    };
                    let r = chars::splice(line, k, end, &p.deps[j].var);
                    return (r, true);
                },
                None => {},
            }
            j = j + 1;
        }
        proof {
            lemma_first_dep_unchanged(line@, lower@, deps, 0);
        }
        (chars::copy(line), false)
    }
}

/// A slash-led pattern found in a location line lies after its marker.
proof fn lemma_after_marker(line: Seq<char>, indent: int, pat: Seq<char>, pos: int)
    requires
        marker_line(line, indent),
        pat.len() > 0,
        pat[0] == '/',
        text::find(line, pat) == Some(pos),
    ensures
        indent + 4 <= pos,
        pos + pat.len() <= line.len(),
{
    text::lemma_find_from_found(line, pat, 0);
    assert(line.subrange(pos, pos + pat.len())[0] == line[pos]);
}

/// Whether the line holds a `/rustc/<40 hex>/library/` path after its marker.
fn is_rustc_hash_library(line: &Vec<char>, indent: usize) -> (r: bool)
    requires
        indent + 4 <= line.len(),
    ensures
        r == rules::is_rustc_hash_library(line@, indent as int),
{
    let rustc = chars::chars_of("/rustc/");
    let library = chars::chars_of("/library/");
    let after_marker = chars::get_from(line, indent + 4);
    if !chars::starts_with(&after_marker, &rustc) {
        return false;
    }
    if line.len() - indent < 51 {
        return false;
    }
    let hash = chars::slice(line, indent + 11, indent + 51);
    if !chars::all_lower_hex(&hash) {
        return false;
    }
    let after_hash = chars::get_from(line, indent + 51);
    chars::starts_with(&after_hash, &library)
}

/// The standard-library source rewrite to `$RUST`.
fn replace_rust_lib(line: &Vec<char>, indent: usize) -> (r: (Vec<char>, bool))
    requires
        marker_line(line@, indent as int),
    ensures
        (r.0@, r.1) == rules::replace_rust_lib(line@, indent as int),
        !r.1 ==> r.0@ == line@,
{
    let rust = chars::chars_of("$RUST");
    let src = chars::chars_of("/rustlib/src/rust/src/");
    let library = chars::chars_of("/rustlib/src/rust/library/");
    proof {
        reveal_strlit("/rustlib/src/rust/src/");
        reveal_strlit("/rustlib/src/rust/library/");
        reveal_strlit("/library/");
    }
    assert(line.len() == line@.len());
    match chars::find(line, &src) {
        Some(pos) => {
            proof {
                lemma_after_marker(line@, indent as int, src@, pos as int);
            }
            return (chars::splice(line, indent + 4, pos + 17, &rust), true);
        },
        None => {},
    }
    match chars::find(line, &library) {
        Some(pos) => {
            proof {
                lemma_after_marker(line@, indent as int, library@, pos as int);
            }
            return (chars::splice(line, indent + 4, pos + 25, &rust), true);
        },
        None => {},
    }
    if is_rustc_hash_library(line, indent) {
        assert(text::starts_with(text::get_from(line@, indent + 51), "/library/"@));
        (chars::splice(line, indent + 4, indent + 59, &rust), true)
    } else {
        (chars::copy(line), false)
    }
}

/// The crate version of a `$CARGO/<crate>-<version>/` path rewritten to
/// `$VERSION`.
fn replace_dependency_version(line: &Vec<char>, indent: usize) -> (r: Vec<char>)
    requires
        indent + 4 <= line.len(),
    ensures
        r@ == rules::replace_dependency_version(line@, indent as int),
{
    let rest = if line.len() - indent >= 11 {
        chars::get_from(line, indent + 11)
    } else {
        Vec::new()
    };
    let eov = match chars::find_char_from(&rest, '/', 0) {
        Some(e) => e,
        None => return chars::copy(line),
    };
    proof {
        text::lemma_find_char_found(rest@, '/', 0);
    }
    let head = chars::slice(&rest, 0, eov);
    assert(head@ == rest@.take(eov as int));
    let dot = match chars::find_char_from(&head, '.', 0) {
        Some(d) => d,
        None => return chars::copy(line),
    };
    proof {
        text::lemma_find_char_found(head@, '.', 0);
    }
    let name = chars::slice(&rest, 0, dot);
    assert(name@ == rest@.take(dot as int));
    let eocn = match chars::rfind_char(&name, '-') {
        Some(e) => e,
        None => return chars::copy(line),
    };
    proof {
        text::lemma_rfind_char_found(name@, '-', name@.len() as int);
    }
    let version = chars::chars_of("$VERSION");
    chars::splice(line, indent + eocn + 12, indent + eov + 11, &version)
}

/// The end of the registry directory of a `github.com` or `index.crates.io`
/// registry path.
fn known_registry_end(line: &Vec<char>, indent: usize) -> (r: Option<usize>)
    requires
        marker_line(line@, indent as int),
    ensures
        r matches Some(e) ==> rules::known_registry_end(line@) == Some(e as int) && indent + 4 <= e
            <= line.len(),
        r is None ==> rules::known_registry_end(line@) is None,
{
    let github = chars::chars_of("/registry/src/github.com-");
    let crates_io = chars::chars_of("/registry/src/index.crates.io-");
    proof {
        reveal_strlit("/registry/src/github.com-");
        reveal_strlit("/registry/src/index.crates.io-");
        reveal_strlit("/");
    }
    let pos = match chars::find(line, &github) {
        Some(p) => {
            proof {
                lemma_after_marker(line@, indent as int, github@, p as int);
            }
            p
        },
        None => match chars::find(line, &crates_io) {
            Some(p) => {
                proof {
                    lemma_after_marker(line@, indent as int, crates_io@, p as int);
                }
                p
            },
            None => return None,
        },
    };
    let dash = match chars::find_char_from(line, '-', pos) {
        Some(d) => d,
        None => return None,
    };
    proof {
        text::lemma_find_char_found(line@, '-', pos as int);
    }
    assert(line.len() == line@.len());
    let hash_start = dash + 1;
    if line.len() < 16 || hash_start > line.len() - 16 {
        return None;
    }
    let hash_end = hash_start + 16;
    let hash = chars::slice(line, hash_start, hash_end);
    let tail = chars::slice(line, hash_end, line.len());
    let slash = chars::chars_of("/");
    assert(line@.skip(hash_end as int) == tail@);
    if chars::all_lower_hex(&hash) && chars::starts_with(&tail, &slash) {
        Some(hash_end)
    } else {
        None
    }
}

/// The end of the registry directory of any cargo registry path.
fn any_registry_end(line: &Vec<char>, indent: usize) -> (r: Option<usize>)
    requires
        marker_line(line@, indent as int),
    ensures
        r matches Some(e) ==> rules::any_registry_end(line@) == Some(e as int) && indent + 4 <= e
            <= line.len(),
        r is None ==> rules::any_registry_end(line@) is None,
{
    let registry = chars::chars_of("/registry/src/");
    proof {
        reveal_strlit("/registry/src/");
    }
    let p = match chars::find(line, &registry) {
        Some(p) => p,
        None => return None,
    };
    proof {
        lemma_after_marker(line@, indent as int, registry@, p as int);
    }
    assert(line.len() == line@.len());
    let start = p + 14;
    let slash = match chars::find_char_from(line, '/', start) {
        Some(s) => s,
        None => return None,
    };
    proof {
        text::lemma_find_char_found(line@, '/', start as int);
    }
    let component = chars::slice(line, start, slash);
    if is_out_dir_crate(&component) {
        Some(slash)
    } else {
        None
    }
}

/// The cargo registry rewrite to `$CARGO` (and `$VERSION`).
fn replace_cargo_registry(line: &Vec<char>, indent: usize, n: u8) -> (r: (Vec<char>, bool))
    requires
        marker_line(line@, indent as int),
    ensures
        (r.0@, r.1) == rules::replace_cargo_registry(line@, indent as int, n as int),
{
    let end = if n >= rules::CUSTOM_REGISTRY {
        any_registry_end(line, indent)
    } else {
        known_registry_end(line, indent)
    };
    match end {
        None => (chars::copy(line), false),
        Some(hash_end) => {
            let cargo_var = chars::chars_of("$CARGO");
            let cargo = chars::splice(line, indent + 4, hash_end, &cargo_var);
            proof {
                reveal_strlit("$CARGO");
            }
            if n >= rules::DEPENDENCY_VERSION {
                (replace_dependency_version(&cargo, indent), true)
            } else {
                (cargo, true)
            }
        },
    }
}

/// The line-to-line state of one normalization pass.
#[derive(Copy, Clone)]
struct Progress {
    hide_numbers: usize,
    other_types: Option<usize>,
}

impl Progress {
    spec fn view(self) -> FilterState {
        FilterState {
            hide_numbers: self.hide_numbers as nat,
            other_types: match self.other_types {
                Some(c) => Some(c as nat),
                None => None,
            },
        }
    }
}

/// The rewrite of a `--> ` / `::: ` location line.
fn normalize_location(
    lines: &Vec<Vec<char>>,
    i: usize,
    n: u8,
    p: &Prepared,
    st: Progress,
    line0: &Vec<char>,
    indent: usize,
) -> (r: (Vec<char>, Progress))
    requires
        p.wf(),
        i < lines.len(),
        marker_line(line0@, indent as int),
    ensures
        (r.0@, r.1.view()) == rules::normalize_location(
            chars::views(lines@),
            i as int,
            n as int,
            p.view(),
            st.view(),
            line0@,
            indent as int,
        ),
{
    let line = chars::slashes(line0);
    let lower = chars::lower_slash(line0);
    assert(marker_line(line@, indent as int));
    assert(line.len() == line@.len());
    assert(lower.len() == lower@.len());
    let ghost ls = chars::views(lines@);
    let target_found = chars::find(&lower, &p.target_pat);
    proof {
        text::lemma_find_from_found(lower@, p.target_pat@, 0);
    }
    let first: (bool, Vec<char>, bool) = if target_found == Some(indent + 4) {
        let r = replace_out_dir(&line, indent, p.target_pat.len());
        proof {
            lemma_scan_out_dir_unchanged(line@, indent as int, indent + 4 + p.target_pat@.len(), None);
        }
        (false, r.0, r.1)
    } else {
        match chars::find(&lower, &p.source_pat) {
            Some(k) => {
                let r = replace_source_dir(&line, &lower, indent, k, p, n);
                (r.0, r.1, true)
            },
            None => match chars::find(&lower, &p.workspace_pat) {
                Some(k) => {
                    proof {
                        text::lemma_find_from_found(lower@, p.workspace_pat@, 0);
                        if p.workspace_pat@.len() == 0 {
                            text::lemma_find_empty(lower@);
                            assert(p.workspace_pat@ =~= Seq::<char>::empty());
                        }
                    }
                    let end = if k + p.workspace_pat.len() >= 1 {
                        k + p.workspace_pat.len() - 1
                    } else {
                        0
                    };
                    let var = chars::chars_of("$WORKSPACE");
                    (false, chars::splice(&line, k, end, &var), true)
                },
                None => (false, chars::copy(&line), false),
            },
        }
    };
    assert(!first.2 ==> first.1@ == line@);
    if first.0 {
        return (first.1, st);
    }
    let second = if n >= rules::PATH_DEPENDENCIES && !first.2 {
        replace_path_dependency(&first.1, &lower, p, n)
    } else {
        (first.1, first.2)
    };
    assert(!second.1 ==> second.0@ == line@);
    let third = if n >= rules::RUST_LIB && !second.1 {
        replace_rust_lib(&second.0, indent)
    } else {
        second
    };
    assert(!third.1 ==> third.0@ == line@);
    let fourth = if n >= rules::CARGO_REGISTRY && !third.1 {
        replace_cargo_registry(&third.0, indent, n)
    } else {
        third
    };
    if fourth.1 && n >= rules::WORKSPACE_LINES {
        let end = bordered_rows_end(lines, i + 1);
        let st2 = Progress { hide_numbers: end - i, other_types: st.other_types };
        (hide_trailing_numbers(&fourth.0), st2)
    } else {
        (fourth.0, st)
    }
}

/// A trailing `and <digits> others` collapsed to `and $N others`.
fn normalize_and_others(line: &Vec<char>) -> (r: Vec<char>)
    ensures
        r@ == rules::normalize_and_others(line@),
{
    let t = chars::trim_start(line);
    let and_ = chars::chars_of("and ");
    let others = chars::chars_of(" others");
    if !(chars::starts_with(&t, &and_) && chars::ends_with(line, &others)) {
        return chars::copy(line);
    }
    proof {
        reveal_strlit("and ");
        reveal_strlit(" others");
        text::lemma_leading_ws(line@);
    }
    let indent = line.len() - t.len();
    let num_start = indent + 4;
    let num_end = line.len() - 7;
    if num_start < num_end {
        let num = chars::slice(line, num_start, num_end);
        if chars::all_digits(&num) {
            let var = chars::chars_of("$N");
            return chars::splice(line, num_start, num_end, &var);
        }
    }
    chars::copy(line)
}

/// Whether the line is rustc's note that a long type name was written to a
/// file.
fn is_long_type_name_note(line: &Vec<char>) -> (r: bool)
    ensures
        r == rules::is_long_type_name_note(line@),
{
    let t = chars::trim_start(line);
    let prefix = chars::chars_of("= note: ");
    proof {
        reveal_strlit("= note: ");
    }
    let note = if chars::starts_with(&t, &prefix) {
        let n = chars::slice(&t, 8, t.len());
        assert(n@ == t@.skip(8));
        n
    } else {
        t
    };
    let a = chars::chars_of("the full type name has been written to");
    let b = chars::chars_of("the full name for the type has been written to");
    chars::starts_with(&note, &a) || chars::starts_with(&note, &b)
}

/// The verbose implementor-list collapse: whether the line is dropped, the
/// line, and the new list progress.
fn collapse_other_types(
    lines: &Vec<Vec<char>>,
    i: usize,
    line: &Vec<char>,
    indent: usize,
    other: Option<usize>,
) -> (r: (bool, Vec<char>, Option<usize>))
    requires
        i < lines.len(),
        other matches Some(c) ==> c < i + 1,
    ensures
        (r.0, r.1@, match r.2 {
            Some(c) => Some(c as nat),
            None => None,
        }) == rules::collapse_other_types(
            chars::views(lines@),
            i as int,
            line@,
            indent as int,
            match other {
                Some(c) => Some(c as nat),
                None => None,
            },
        ),
        r.2 matches Some(c) ==> c <= i + 1,
{
    let t = chars::trim_start(line);
    let a = chars::chars_of("= help: the following types implement trait ");
    let b = chars::chars_of("= help: the following other types implement trait ");
    if chars::starts_with(&t, &a) || chars::starts_with(&t, &b) {
        return (false, chars::copy(line), Some(0));
    }
    let seen = match other {
        None => return (false, chars::copy(line), None),
        Some(seen) => seen,
    };
    let collapsed = chars::chars_of("and $N others");
    if indent < 12 || chars::equals(&t, &collapsed) {
        return (false, chars::copy(line), None);
    }
    let count = seen + 1;
    if count > 9 {
        return (true, chars::copy(line), Some(count));
    }
    if count == 9 && i + 1 < lines.len() {
        let next = &lines[i + 1];
        let next_t = chars::trim_start(next);
        proof {
            text::lemma_leading_ws(next@);
        }
        let next_indent = next.len() - next_t.len();
        assert(chars::views(lines@)[i + 1] == next@);
        if indent == next_indent {
            let cut = if indent >= 2 {
                indent - 2
            } else {
                0
            };
            let start = if cut <= line.len() {
                cut
            } else {
                line.len()
            };
            let mut r = chars::slice(line, 0, start);
            chars::push_all(&mut r, &collapsed);
            assert(line@.take(start as int) == line@.subrange(0, start as int));
            return (false, r, Some(count));
        }
    }
    (false, chars::copy(line), Some(count))
}

/// Every case-insensitive, slash-insensitive occurrence of `pattern` that
/// does not directly follow an alphanumeric character replaced.
fn replace_case_insensitive(line: &Vec<char>, pattern: &Vec<char>, replacement: &Vec<char>) -> (r: Vec<char>)
    ensures
        r@ == rules::replace_case_insensitive(line@, pattern@, replacement@),
{
    let lowered = chars::lower_slash(line);
    let pat_lower = chars::lower_slash(pattern);
    let plen = pattern.len();
    let mut pieces = chars::split(&lowered, &pat_lower);
    let mut idx: usize = 0;
    let mut pos: usize = 0;
    let mut insert = false;
    let mut out: Vec<char> = Vec::new();
    assert(line.len() == line@.len());
    proof {
        if plen > 0 {
            rules::lemma_split_span(lowered@, pat_lower@);
        }
        assert(chars::views(pieces@).skip(0) == chars::views(pieces@));
    }
    loop
        invariant
            lowered@ == text::lower_slash(line@),
            pat_lower@ == text::lower_slash(pattern@),
            plen == pattern@.len(),
            pat_lower@.len() == plen,
            lowered@.len() == line@.len(),
            line.len() == line@.len(),
            idx <= pieces.len(),
            pos <= line.len(),
            plen > 0 ==> pos + (if insert && idx < pieces.len() {
                plen as int
            } else {
                0
            }) + rules::span(chars::views(pieces@).skip(idx as int), plen as int) == line.len(),
            rules::replace_case_insensitive(line@, pattern@, replacement@) == rules::rci_walk(
                line@,
                lowered@,
                pat_lower@,
                plen as nat,
                replacement@,
                pos as int,
                chars::views(pieces@).skip(idx as int),
                insert,
                out@,
            ),
        decreases line.len() - pos, pieces.len() - idx,
    {
        let ghost remaining = chars::views(pieces@).skip(idx as int);
        if idx == pieces.len() {
            return out;
        }
        assert(remaining[0] == pieces@[idx as int]@);
        assert(remaining.drop_first() == chars::views(pieces@).skip(idx + 1));
        assert(remaining.len() == pieces.len() - idx);
        proof {
            rules::lemma_span_bounds(remaining, plen as int);
            rules::lemma_span_bounds(remaining.drop_first(), plen as int);
        }
        let piece_len = pieces[idx].len();
        let pos1 = if insert {
            chars::push_all(&mut out, replacement);
            pos + plen
        } else {
            pos
        };
        let keep = if pos1 <= line.len() && piece_len <= line.len() - pos1 {
            chars::slice(line, pos1, pos1 + piece_len)
        } else {
            Vec::new()
        };
        let path_end = if insert {
            match chars::find_either_from(&keep, ' ', ':', 0) {
                Some(e) => e,
                None => keep.len(),
            }
        } else {
            0
        };
        proof {
            text::lemma_find_either_found(keep@, ' ', ':', 0);
        }
        let head = chars::slice(&keep, 0, path_end);
        let head_slashed = chars::slashes(&head);
        chars::push_all(&mut out, &head_slashed);
        let tail = chars::slice(&keep, path_end, keep.len());
        chars::push_all(&mut out, &tail);
        assert(keep@.take(path_end as int) == head@);
        assert(keep@.skip(path_end as int) == tail@);
        let pos2 = pos1 + keep.len();
        if out.len() > 0 && chars::is_alnum(out[out.len() - 1]) && pos2 < line.len() {
            out.push(line[pos2]);
            let rest = chars::slice(&lowered, pos2 + 1, lowered.len());
            assert(rest@ == lowered@.skip(pos2 + 1));
            pieces = chars::split(&rest, &pat_lower);
            proof {
                if plen > 0 {
                    rules::lemma_split_span(rest@, pat_lower@);
                }
                assert(chars::views(pieces@).skip(0) == chars::views(pieces@));
            }
            idx = 0;
            insert = false;
            pos = pos2 + 1;
        } else {
            idx = idx + 1;
            insert = true;
            pos = pos2;
        }
    }
}

/// Whether the line is one of rustc's trailers dropped at rank `n`.
fn dropped_at(line: &Vec<char>, n: u8) -> (r: bool)
    ensures
        r == rules::dropped_at(line@, n as int),
{
    let t = chars::trim_start(line);
    if chars::starts_with(line, &chars::chars_of("error: aborting due to ")) {
        return true;
    }
    if chars::equals(line, &chars::chars_of("To learn more, run the command again with --verbose.")) {
        return true;
    }
    if chars::starts_with(&t, &chars::chars_of("= note: this compiler was built on 2")) && chars::ends_with(
        &t,
        &chars::chars_of("; consider upgrading it if it is out of date"),
    ) {
        return true;
    }
    if n >= rules::STRIP_COULD_NOT_COMPILE && chars::starts_with(line, &chars::chars_of("error: Could not compile `")) {
        return true;
    }
    if n >= rules::STRIP_COULD_NOT_COMPILE2 && chars::starts_with(line, &chars::chars_of("error: could not compile `")) {
        return true;
    }
    if n >= rules::STRIP_FOR_MORE_INFORMATION && chars::starts_with(
        line,
        &chars::chars_of("For more information about this error, try `rustc --explain"),
    ) {
        return true;
    }
    if n >= rules::STRIP_FOR_MORE_INFORMATION2 {
        if chars::starts_with(line, &chars::chars_of("Some errors have detailed explanations:")) {
            return true;
        }
        if chars::starts_with(line, &chars::chars_of("For more information about an error, try `rustc --explain")) {
            return true;
        }
    }
    false
}

spec fn other_bound(st: Progress, i: int) -> bool {
    st.other_types matches Some(c) ==> c <= i
}

/// The rewrite of an ordinary (non-location) line.
fn strip_line(
    lines: &Vec<Vec<char>>,
    i: usize,
    n: u8,
    p: &Prepared,
    st: Progress,
    line0: &Vec<char>,
) -> (r: (Option<Vec<char>>, Progress))
    requires
        p.wf(),
        i < lines.len(),
        other_bound(st, i as int),
    ensures
        (opt_view(r.0), r.1.view()) == rules::strip_line(
            chars::views(lines@),
            i as int,
            n as int,
            p.view(),
            st.view(),
            line0@,
        ),
        other_bound(r.1, i + 1),
        r.1.hide_numbers == st.hide_numbers,
{
    let t0 = chars::trim_start(line0);
    proof {
        text::lemma_leading_ws(line0@);
    }
    let indent = line0.len() - t0.len();
    if dropped_at(line0, n) {
        return (None, st);
    }
    let l1 = if n >= rules::TRIM_END {
        chars::trim_end(line0)
    } else {
        chars::copy(line0)
    };
    let t1 = chars::trim_start(&l1);
    let l2 = if n >= rules::TYPE_DIR_BACKSLASH && chars::starts_with(
        &t1,
        &chars::chars_of("= note: required because it appears within the type"),
    ) {
        chars::slashes(&l1)
    } else {
        l1
    };
    let l3 = if n >= rules::AND_OTHERS {
        normalize_and_others(&l2)
    } else {
        l2
    };
    if n >= rules::STRIP_LONG_TYPE_NAME_FILES && is_long_type_name_note(&l3) {
        return (None, st);
    }
    let c = if n >= rules::AND_OTHERS_VERBOSE {
        collapse_other_types(lines, i, &l3, indent, st.other_types)
    } else {
        (false, l3, st.other_types)
    };
    let st2 = Progress { hide_numbers: st.hide_numbers, other_types: c.2 };
    if c.0 {
        return (None, st2);
    }
    let krate_var = chars::chars_of("$CRATE");
    let dir_var = chars::chars_of("$DIR/");
    let workspace_var = chars::chars_of("$WORKSPACE/");
    let l4 = chars::replace_all(&c.1, &p.krate, &krate_var);
    let l5 = replace_case_insensitive(&l4, &p.source_dir, &dir_var);
    let l6 = replace_case_insensitive(&l5, &p.workspace, &workspace_var);
    (Some(l6), st2)
}

/// The rewrite of line `i` of a diagnostic at rank `n`.
fn filter_line(lines: &Vec<Vec<char>>, i: usize, n: u8, p: &Prepared, st: Progress) -> (r: (
    Option<Vec<char>>,
    Progress,
))
    requires
        p.wf(),
        i < lines.len(),
        other_bound(st, i as int),
    ensures
        (opt_view(r.0), r.1.view()) == rules::filter_line(chars::views(lines@), i as int, n as int, p.view(), st.view()),
        other_bound(r.1, i + 1),
{
    let line0 = &lines[i];
    assert(chars::views(lines@)[i as int] == line0@);
    let line = if st.hide_numbers > 0 {
        hide_leading_numbers(line0)
    } else {
        chars::copy(line0)
    };
    let st1 = Progress {
        hide_numbers: if st.hide_numbers > 0 {
            st.hide_numbers - 1
        } else {
            0
        },
        other_types: st.other_types,
    };
    let t = chars::trim_start(&line);
    proof {
        text::lemma_leading_ws(line@);
        reveal_strlit("--> ");
        reveal_strlit("::: ");
    }
    let indent = line.len() - t.len();
    let arrow = chars::starts_with(&t, &chars::chars_of("--> "));
    let colons = chars::starts_with(&t, &chars::chars_of("::: "));
    if arrow || colons {
        assert forall|j: int| 0 <= j < indent + 4 implies line@[j] != '/' && line@[j] != '\\' by {
            if j >= indent {
                assert(line@[j] == t@[j - indent]);
                assert(t@[j - indent] == t@.take(4)[j - indent]);
                if arrow {
                    assert(t@.take(4) == "--> "@);
                } else {
                    assert(t@.take(4) == "::: "@);
                }
            } else {
                assert(text::is_ws(line@[j]));
            }
        }
        assert(marker_line(line@, indent as int));
    }
    if arrow && n < rules::ARROW_OTHER_CRATE {
        let found = chars::rfind_either(&line, '/', '\\');
        proof {
            text::lemma_rfind_either_found(line@, '/', '\\', line@.len() as int);
        }
        match found {
            Some(cut_end) => {
                let dir = chars::chars_of("$DIR/");
                return (Some(chars::splice(&line, indent + 4, cut_end + 1, &dir)), st1);
            },
            None => {},
        }
    }
    if arrow || colons {
        let r = normalize_location(lines, i, n, p, st1, &line, indent);
        return (Some(r.0), r.1);
    }
    strip_line(lines, i, n, p, st1, &line)
}

/// The kept lines of a diagnostic, each followed by a newline unless the
/// text already ends with a blank line.
fn filter_all(lines: &Vec<Vec<char>>, n: u8, p: &Prepared) -> (r: Vec<char>)
    requires
        p.wf(),
    ensures
        r@ == rules::filter_from(chars::views(lines@), 0, n as int, p.view(), rules::initial_state(), Seq::empty()),
{
    let mut st = Progress { hide_numbers: 0, other_types: None };
    let mut out: Vec<char> = Vec::new();
    let blank = chars::chars_of("\n\n");
    let mut i: usize = 0;
    assert(st.view() == rules::initial_state());
    while i < lines.len()
        invariant
            p.wf(),
            i <= lines.len(),
            blank@ == "\n\n"@,
            other_bound(st, i as int),
            rules::filter_from(chars::views(lines@), 0, n as int, p.view(), rules::initial_state(), Seq::empty())
                == rules::filter_from(chars::views(lines@), i as int, n as int, p.view(), st.view(), out@),
        decreases lines.len() - i,
    {
        let r = filter_line(lines, i, n, p, st);
        match r.0 {
            Some(line) => {
                chars::push_all(&mut out, &line);
                if !chars::ends_with(&out, &blank) {
                    out.push('\n');
                }
            },
            None => {},
        }
        st = r.1;
        i = i + 1;
    }
    out
}

/// The kinds of line that the unindent pass tells apart.
enum Kind {
    Heading,
    Code(usize),
    Note,
    Other(usize),
}

impl Kind {
    spec fn view(self) -> rules::LineKind {
        match self {
            Kind::Heading => rules::LineKind::Heading,
            Kind::Code(i) => rules::LineKind::Code(i as int),
            Kind::Note => rules::LineKind::Note,
            Kind::Other(i) => rules::LineKind::Other(i as int),
        }
    }
}

fn is_diagnostic_heading(line: &Vec<char>) -> (r: bool)
    ensures
        r == rules::is_diagnostic_heading(line@),
{
    let colon = chars::chars_of(":");
    let bracket = chars::chars_of("[");
    proof {
        reveal_strlit("error");
        reveal_strlit("warning");
    }
    if chars::starts_with(line, &chars::chars_of("error")) {
        let rest = chars::slice(line, 5, line.len());
        assert(rest@ == line@.skip(5));
        chars::starts_with(&rest, &colon) || chars::starts_with(&rest, &bracket)
    } else if chars::starts_with(line, &chars::chars_of("warning")) {
        let rest = chars::slice(line, 7, line.len());
        assert(rest@ == line@.skip(7));
        chars::starts_with(&rest, &colon) || chars::starts_with(&rest, &bracket)
    } else {
        false
    }
}

fn is_note_continuation(line: &Vec<char>, previous_was_note: bool, n: u8) -> (r: bool)
    ensures
        r == rules::is_note_continuation(line@, previous_was_note, n as int),
{
    chars::starts_with(line, &chars::chars_of("note:")) || chars::equals(line, &chars::chars_of("..."))
        || (n >= rules::UNINDENT_AFTER_HELP && chars::starts_with(line, &chars::chars_of("help:"))) || (n
        >= rules::UNINDENT_MULTILINE_NOTE && previous_was_note && chars::starts_with(
        line,
        &chars::chars_of("      "),
    ))
}

/// The classification of one line, and whether it continues a note.
fn line_kind(line: &Vec<char>, first: bool, previous_is_note: bool, n: u8) -> (r: (Kind, bool))
    ensures
        (r.0.view(), r.1) == rules::line_kind(line@, first, previous_is_note, n as int),
        r.0 matches Kind::Code(i) ==> i <= line.len(),
{
    if is_diagnostic_heading(line) || (first && n >= rules::HEADING_NOTE && chars::starts_with(
        line,
        &chars::chars_of("note: "),
    )) {
        return (Kind::Heading, false);
    }
    if is_note_continuation(line, previous_is_note, n) {
        return (Kind::Note, true);
    }
    proof {
        reveal_strlit("... ");
    }
    if chars::starts_with(line, &chars::chars_of("... ")) {
        let rest = chars::slice(line, 4, line.len());
        assert(rest@ == line@.skip(4));
        return (Kind::Code(chars::leading_spaces(&rest)), false);
    }
    let lead = chars::leading_spaces(line);
    let after_lead = chars::slice(line, lead, line.len());
    assert(after_lead@ == line@.skip(lead as int));
    let digits = chars::leading_digits(&after_lead);
    let after_digits = chars::slice(line, lead + digits, line.len());
    assert(after_digits@ == line@.skip(lead + digits));
    let spaces = chars::leading_spaces(&after_digits);
    let indent = lead + spaces;
    let rest = chars::slice(line, lead + digits + spaces, line.len());
    assert(rest@ == line@.skip(lead + digits + spaces));
    let numbered = digits > 0;
    let border = chars::equals(&rest, &chars::chars_of("|")) || chars::starts_with(&rest, &chars::chars_of("| "));
    let suggestion = n >= rules::UNINDENT_SUGGESTION && numbered && (chars::equals(&rest, &chars::chars_of("~"))
        || chars::starts_with(&rest, &chars::chars_of("~ ")) || chars::equals(&rest, &chars::chars_of("+"))
        || chars::starts_with(&rest, &chars::chars_of("+ ")) || chars::equals(&rest, &chars::chars_of("-"))
        || chars::starts_with(&rest, &chars::chars_of("- ")));
    let location = chars::starts_with(&rest, &chars::chars_of("--> ")) || chars::starts_with(
        &rest,
        &chars::chars_of("::: "),
    ) || chars::starts_with(&rest, &chars::chars_of("= "));
    if indent != 0 && (border || suggestion || (!numbered && location)) {
        (Kind::Code(indent - 1), false)
    } else {
        (Kind::Other(
            if numbered {
                0
            } else {
                indent
            },
        ), false)
    }
}

/// The size of the code block whose rows start at line `k`.
fn measure_block(lines: &Vec<Vec<char>>, k: usize, n: u8, first_indent: usize) -> (r: (usize, usize))
    requires
        1 <= k <= lines.len(),
    ensures
        (r.0 as int, r.1 as int) == rules::measure_block(chars::views(lines@), k as int, n as int, false, 1, first_indent as int),
{
    let ghost ls = chars::views(lines@);
    let mut j = k;
    let mut prev = false;
    let mut count: usize = 1;
    let mut least = first_indent;
    while j < lines.len()
        invariant
            1 <= k <= j <= lines.len(),
            count == j - k + 1,
            ls == chars::views(lines@),
            rules::measure_block(ls, k as int, n as int, false, 1, first_indent as int) == rules::measure_block(
                ls,
                j as int,
                n as int,
                prev,
                count as int,
                least as int,
            ),
        decreases lines.len() - j,
    {
        assert(ls[j as int] == lines@[j as int]@);
        let r = line_kind(&lines[j], false, prev, n);
        match r.0 {
            Kind::Heading => return (count, least),
            Kind::Code(indent) => {
                if indent < least {
                    least = indent;
                }
            },
            Kind::Note => {},
            Kind::Other(spaces) => if spaces <= 10 {
                return (count, least);
            },
        }
        prev = r.1;
        count = count + 1;
        j = j + 1;
    }
    (count, least)
}

/// A code or other line with `least` spaces cut after its first space.
fn cut_indent(line: &Vec<char>, least: usize) -> (r: Vec<char>)
    ensures
        r@ == rules::cut_indent(line@, least as int),
{
    let space = match chars::find_char_from(line, ' ', 0) {
        Some(s) => s,
        None => line.len(),
    };
    proof {
        text::lemma_find_char_found(line@, ' ', 0);
    }
    let mut r = chars::slice(line, 0, space);
    assert(r@ == line@.take(space as int));
    let tail = if least <= line.len() - space {
        chars::get_from(line, space + least)
    } else {
        Vec::new()
    };
    chars::push_all(&mut r, &tail);
    r
}

/// The `count` lines from `k` on, emitted with their indentation cut.
fn emit_block(lines: &Vec<Vec<char>>, k: usize, count: usize, least: usize, n: u8, out: &mut Vec<char>)
    requires
        k + count <= lines.len(),
    ensures
        final(out)@ == rules::emit_block(chars::views(lines@), k as int, count as int, least as int, n as int, false, old(out)@),
{
    let ghost ls = chars::views(lines@);
    let newline = chars::chars_of("\n");
    let mut j = k;
    let mut prev = false;
    while j < k + count
        invariant
            k <= j <= k + count <= lines.len(),
            ls == chars::views(lines@),
            newline@ == "\n"@,
            rules::emit_block(ls, k as int, count as int, least as int, n as int, false, old(out)@) == rules::emit_block(
                ls,
                j as int,
                (k + count - j) as int,
                least as int,
                n as int,
                prev,
                out@,
            ),
        decreases k + count - j,
    {
        assert(ls[j as int] == lines@[j as int]@);
        let line = &lines[j];
        let r = line_kind(line, false, prev, n);
        let emitted = match r.0 {
            Kind::Code(_) => cut_indent(line, least),
            Kind::Other(_) => cut_indent(line, least),
            _ => chars::copy(line),
        };
        chars::push_all(out, &emitted);
        chars::push_all(out, &newline);
        prev = r.1;
        j = j + 1;
    }
}

/// Whether line `k` is a heading followed by a `--> ` code block, and if so
/// the block's size.
fn block_after(lines: &Vec<Vec<char>>, k: usize, n: u8) -> (r: Option<(usize, usize)>)
    requires
        k < lines.len(),
    ensures
        match r {
            Some(b) => rules::block_after(chars::views(lines@), k as int, n as int) == Some((b.0 as int, b.1 as int)),
            None => rules::block_after(chars::views(lines@), k as int, n as int) is None,
        },
{
    let ghost ls = chars::views(lines@);
    assert(ls[k as int] == lines@[k as int]@);
    let head = line_kind(&lines[k], true, false, n);
    let is_heading = match head.0 {
        Kind::Heading => true,
        _ => false,
    };
    if !(is_heading && k + 1 < lines.len()) {
        return None;
    }
    assert(ls[k + 1] == lines@[k + 1]@);
    let next = line_kind(&lines[k + 1], false, false, n);
    match next.0 {
        Kind::Code(indent) => {
            let after = if indent < lines[k + 1].len() {
                chars::get_from(&lines[k + 1], indent + 1)
            } else {
                Vec::new()
            };
            if chars::starts_with(&after, &chars::chars_of("--> ")) {
                Some(measure_block(lines, k + 2, n, indent))
            } else {
                None
            }
        },
        _ => None,
    }
}

/// The common left indentation of each `--> ` code block removed, from rank
/// `Unindent` on.
fn unindent(diag: &Vec<char>, n: u8) -> (r: Vec<char>)
    ensures
        r@ == rules::unindent(diag@, n as int),
{
    if n < rules::UNINDENT {
        return chars::copy(diag);
    }
    let lines = chars::lines(diag);
    let ghost ls = chars::views(lines@);
    let newline = chars::chars_of("\n");
    let mut out: Vec<char> = Vec::new();
    let mut k: usize = 0;
    while k < lines.len()
        invariant
            k <= lines.len(),
            ls == chars::views(lines@),
            newline@ == "\n"@,
            rules::unindent_from(ls, 0, n as int, Seq::empty()) == rules::unindent_from(ls, k as int, n as int, out@),
        decreases lines.len() - k,
    {
        assert(ls[k as int] == lines@[k as int]@);
        chars::push_all(&mut out, &lines[k]);
        chars::push_all(&mut out, &newline);
        match block_after(&lines, k, n) {
            Some(b) => {
                let taken = if b.0 <= lines.len() - (k + 1) {
                    b.0
                } else {
                    lines.len() - (k + 1)
                };
                emit_block(&lines, k + 1, taken, b.1, n, &mut out);
                k = k + 1 + taken;
            },
            None => {
                k = k + 1;
            },
        }
    }
    out
}

/// Trailing whitespace removed and exactly one newline added, unless the
/// text is empty.
fn trim_chars(s: &Vec<char>) -> (r: Vec<char>)
    ensures
        r@ == rules::trim(s@),
{
    let mut t = chars::trim_end(s);
    if t.len() > 0 {
        t.push('\n');
    }
    t
}

/// One variation: the diagnostic normalized at rank `n`.
fn apply(diagnostic: &Vec<char>, n: u8, p: &Prepared) -> (r: Vec<char>)
    requires
        p.wf(),
    ensures
        r@ == rules::apply(diagnostic@, n as int, p.view()),
{
    let lines = chars::lines(diagnostic);
    let filtered = filter_all(&lines, n, p);
    let unindented = unindent(&filtered, n);
    trim_chars(&unindented)
}

/// Two snapshots of successive diagnostics joined: a newline between them
/// when both are non-empty.
pub open spec fn join_snapshots(a: Seq<char>, b: Seq<char>) -> Seq<char> {
    if a.len() > 0 && b.len() > 0 {
        a + "\n"@ + b
    } else {
        a + b
    }
}

/// Whether `f` can reject (return `false` for) the text `v`.
pub open spec fn rejected<F: Fn(&str) -> bool>(f: F, v: Seq<char>) -> bool {
    exists|s: &str| s@ == v && #[trigger] f.ensures((s,), false)
}

/// The set of normalized renderings of one diagnostic, one per
/// normalization step, any of which a saved snapshot may match.
///
/// A saved stderr file that is identical to any one of these variations
/// passes. The last, most normalized one is the preferred variation, which is
/// what gets written when the stderr file is absent or does not match.
#[derive(Debug)]
pub struct Variations {
    variations: Vec<String>,
}

impl View for Variations {
    type V = Seq<Seq<char>>;

    closed spec fn view(&self) -> Seq<Seq<char>> {
        self.variations@.map_values(|s: String| s@)
    }
}

impl Variations {
    #[verifier::type_invariant]
    spec fn one_per_step(self) -> bool {
        self.variations.len() == rules::STEPS
    }

    /// One empty rendering per step (what a file without diagnostics has).
    pub fn empty() -> (r: Variations)
        ensures
            r@ == Seq::new(rules::STEPS as nat, |i: int| Seq::<char>::empty()),
    {
        let mut variations: Vec<String> = Vec::new();
        let mut i: u8 = 0;
        while i < rules::STEPS
            invariant
                i <= rules::STEPS,
                variations@.map_values(|s: String| s@) == Seq::new(i as nat, |k: int| Seq::<char>::empty()),
            decreases rules::STEPS - i,
        {
            let e = String::new();
            let ghost before = variations@;
            variations.push(e);
            assert(variations@ == before.push(e));
            assert(variations@.map_values(|s: String| s@) == before.map_values(|s: String| s@).push(e@));
            assert(variations@.map_values(|s: String| s@) =~= Seq::new((i + 1) as nat, |k: int| Seq::<char>::empty()));
            i = i + 1;
        }
        Variations { variations }
    }

    /// The number of variations: one per normalization step.
    pub fn len(&self) -> (r: usize)
        ensures
            r == self@.len(),
            r == rules::STEPS,
    {
        proof {
            use_type_invariant(self);
        }
        self.variations.len()
    }

    /// The variation of step rank `i`.
    pub fn get(&self, i: usize) -> (r: &str)
        requires
            i < self@.len(),
        ensures
            r@ == self@[i as int],
    {
        self.variations[i].as_str()
    }

    /// The preferred (most fully normalized) rendering, written out when
    /// creating or overwriting a snapshot.
    pub fn preferred(&self) -> (r: &str)
        ensures
            self@.len() == rules::STEPS,
            r@ == self@[rules::STEPS - 1],
    {
        proof {
            use_type_invariant(self);
        }
        self.variations[self.variations.len() - 1].as_str()
    }

    /// Whether `f` accepts any variation; `f` is called on each in turn
    /// until one is accepted.
    pub fn any<F: Fn(&str) -> bool>(&self, f: F) -> (r: bool)
        requires
            forall|s: &str| #[trigger] f.requires((s,)),
        ensures
            r ==> exists|i: int, s: &str| #![trigger self@[i], f.ensures((s,), true)] 0 <= i < self@.len() && s@ == self@[i] && f.ensures((s,), true),
            !r ==> forall|i: int| 0 <= i < self@.len() ==> #[trigger] rejected(f, self@[i]),
    {
        proof {
            use_type_invariant(self);
        }
        let ghost mut seen: Seq<&str> = Seq::empty();
        let mut i: usize = 0;
        while i < self.variations.len()
            invariant
                i <= self.variations.len(),
                forall|s: &str| #[trigger] f.requires((s,)),
                seen.len() == i,
                forall|k: int| 0 <= k < i ==> (#[trigger] seen[k])@ == self@[k] && f.ensures((seen[k],), false),
            decreases self.variations.len() - i,
        {
            let s = self.variations[i].as_str();
            let b = f(s);
            if b {
                assert(s@ == self@[i as int]);
                return true;
            }
            proof {
                seen = seen.push(s);
            }
            assert(s@ == self@[i as int]);
            i = i + 1;
        }
        assert(self@.len() == self.variations.len());
        assert forall|k: int| 0 <= k < self@.len() implies #[trigger] rejected(f, self@[k]) by {
            assert(seen[k]@ == self@[k] && f.ensures((seen[k],), false));
        }
        false
    }

    /// Whether a saved snapshot is identical to any variation.
    pub fn contains(&self, expected: &str) -> (r: bool)
        ensures
            r == exists|i: int| 0 <= i < self@.len() && self@[i] == expected@,
    {
        proof {
            use_type_invariant(self);
        }
        let e = chars::chars_of(expected);
        let mut i: usize = 0;
        while i < self.variations.len()
            invariant
                i <= self.variations.len(),
                e@ == expected@,
                forall|k: int| 0 <= k < i ==> self@[k] != expected@,
            decreases self.variations.len() - i,
        {
            let v = chars::chars_of(self.variations[i].as_str());
            assert(self@[i as int] == v@);
            if chars::equals(&v, &e) {
                return true;
            }
            i = i + 1;
        }
        false
    }

    /// Appends another diagnostic's variations onto these step by step, so
    /// that a file's successive diagnostics accumulate into one snapshot.
    pub fn concat(&mut self, other: &Self)
        ensures
            final(self)@.len() == rules::STEPS,
            forall|i: int|
                0 <= i < rules::STEPS ==> #[trigger] final(self)@[i] == join_snapshots(old(self)@[i], other@[i]),
    {
        proof {
            use_type_invariant(&*self);
            use_type_invariant(other);
        }
        let newline = chars::chars_of("\n");
        let mut joined: Vec<String> = Vec::new();
        let mut i: usize = 0;
        while i < self.variations.len()
            invariant
                i <= self.variations.len() == other.variations.len() == rules::STEPS,
                newline@ == "\n"@,
                joined.len() == i,
                forall|k: int|
                    0 <= k < i ==> #[trigger] joined@[k]@ == join_snapshots(
                        self.variations@[k]@,
                        other.variations@[k]@,
                    ),
            decreases self.variations.len() - i,
        {
            let mut this = chars::chars_of(self.variations[i].as_str());
            let that = chars::chars_of(other.variations[i].as_str());
            if this.len() > 0 && that.len() > 0 {
                chars::push_all(&mut this, &newline);
            }
            chars::push_all(&mut this, &that);
            joined.push(chars::string_of(&this));
            i = i + 1;
        }
        self.variations = joined;
    }
}

/// For a given compiler output, produces the set of saved outputs against
/// which the compiler's output would be considered correct: one variation
/// per normalization step, after `"\r\n"` line endings became `"\n"`.
pub fn diagnostics(output: &str, context: &Context) -> (r: Variations)
    ensures
        r@ == rules::diagnostics(output@, context_view(*context)),
{
    let raw = chars::chars_of(output);
    let input = chars::replace_all(&raw, &chars::chars_of("\r\n"), &chars::chars_of("\n"));
    let p = prepare(context);
    let ghost expected = rules::diagnostics(output@, context_view(*context));
    let mut variations: Vec<String> = Vec::new();
    let mut n: u8 = 0;
    while n < rules::STEPS
        invariant
            p.wf(),
            p.view() == context_view(*context),
            input@ == text::replace_all(output@, "\r\n"@, "\n"@),
            n <= rules::STEPS,
            variations.len() == n,
            expected == rules::diagnostics(output@, context_view(*context)),
            forall|k: int| 0 <= k < n ==> #[trigger] variations@[k]@ == expected[k],
        decreases rules::STEPS - n,
    {
        let v = apply(&input, n, &p);
        variations.push(chars::string_of(&v));
        n = n + 1;
    }
    let r = Variations { variations };
    assert(r@ =~= expected);
    r
}

/// Trims trailing whitespace and ensures the text ends with exactly one
/// newline, or is left empty.
pub fn trim(output: &str) -> (r: String)
    ensures
        r@ == rules::trim(output@),
{
    let v = chars::chars_of(output);
    chars::string_of(&trim_chars(&v))
}

} // verus!
