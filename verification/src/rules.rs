//! The normalization rules, stated over character sequences: what each step
//! of the diagnostic normalizer makes of a line, a block of lines, and a whole
//! diagnostic. The executable normalizer in [`crate::normalize`] is proved to
//! compute exactly these functions.
use vstd::prelude::*;

use crate::text::{
    all_digits, all_lower_hex, ends_with, find, find_char, find_char_from, find_either_from, get, get_from,
    is_alnum, is_digit, leading_digits, leading_spaces, leading_spaces_or_digits, lines, lower_slash,
    replace_all, rfind_char, rfind_either_before, slashes, splice, split, split_nonempty, starts_with, trailing_digits,
    trim_end, trim_start,
};

verus! {

/// The rank of each normalization step, in the order in which the steps were
/// introduced. A variation produced at rank `n` applies every rule whose
/// rank is at most `n`. New steps are only ever added at the end, so that a
/// snapshot saved under an earlier set of steps still matches one of the
/// variations.
pub const BASIC: u8 = 0;
pub const STRIP_COULD_NOT_COMPILE: u8 = 1;
pub const STRIP_COULD_NOT_COMPILE2: u8 = 2;
pub const STRIP_FOR_MORE_INFORMATION: u8 = 3;
pub const STRIP_FOR_MORE_INFORMATION2: u8 = 4;
pub const TRIM_END: u8 = 5;
pub const RUST_LIB: u8 = 6;
pub const TYPE_DIR_BACKSLASH: u8 = 7;
pub const WORKSPACE_LINES: u8 = 8;
pub const PATH_DEPENDENCIES: u8 = 9;
pub const CARGO_REGISTRY: u8 = 10;
pub const ARROW_OTHER_CRATE: u8 = 11;
pub const RELATIVE_TO_DIR: u8 = 12;
pub const LINES_OUTSIDE_INPUT_FILE: u8 = 13;
pub const UNINDENT: u8 = 14;
pub const AND_OTHERS: u8 = 15;
pub const STRIP_LONG_TYPE_NAME_FILES: u8 = 16;
pub const UNINDENT_AFTER_HELP: u8 = 17;
pub const AND_OTHERS_VERBOSE: u8 = 18;
pub const UNINDENT_MULTILINE_NOTE: u8 = 19;
pub const DEPENDENCY_VERSION: u8 = 20;
pub const HEADING_NOTE: u8 = 21;
pub const UNINDENT_SUGGESTION: u8 = 22;
pub const NESTED_PATH_DEPENDENCIES: u8 = 23;
pub const CUSTOM_REGISTRY: u8 = 24;

/// The number of normalization steps, and so of variations.
pub const STEPS: u8 = 25;

/// A path dependency of the crate under test, as the rules see it.
pub struct DepView {
    pub name: Seq<char>,
    pub path: Seq<char>,
    /// Whether it is a `[dependencies]` path dependency of the crate itself,
    /// which every rank since `PATH_DEPENDENCIES` rewrites; the others are
    /// rewritten from `NESTED_PATH_DEPENDENCIES` on.
    pub legacy: bool,
}

/// The environment-specific names and paths that the rules erase.
pub struct ContextView {
    pub krate: Seq<char>,
    pub source_dir: Seq<char>,
    pub workspace: Seq<char>,
    pub input_file: Seq<char>,
    pub target_dir: Seq<char>,
    pub deps: Seq<DepView>,
}

/// The state carried from one line of a diagnostic to the next.
pub struct FilterState {
    /// How many upcoming lines get their leading line numbers blanked.
    pub hide_numbers: nat,
    /// Progress through a verbose "the following types implement" list.
    pub other_types: Option<nat>,
}

pub open spec fn initial_state() -> FilterState {
    FilterState { hide_numbers: 0, other_types: None }
}

/// `Seq::new(n, ' ')`.
pub open spec fn spaces(n: int) -> Seq<char> {
    Seq::new(n as nat, |i: int| ' ')
}

/// The end of a range that covers `len` characters from `k` but leaves out
/// the last one (the trailing separator of a directory pattern).
pub open spec fn end_before_last(k: int, len: int) -> int {
    if k + len >= 1 {
        k + len - 1
    } else {
        0
    }
}

/// Leading line numbers (and the spaces among them) blanked to spaces:
/// `"10 | T: Send,"` becomes `"   | T: Send,"`.
pub open spec fn hide_leading_numbers(line: Seq<char>) -> Seq<char> {
    let n = leading_spaces_or_digits(line);
    spaces(n) + line.skip(n)
}

/// One `:<digits>` group removed from the end, if there is one.
pub open spec fn strip_number_group(line: Seq<char>) -> Option<Seq<char>> {
    let digits = trailing_digits(line);
    let without = line.len() - digits;
    if digits == 0 || !ends_with(line.take(without), ":"@) {
        None
    } else {
        Some(line.take(without - 1))
    }
}

/// Up to two trailing `:line[:column]` groups removed: `"main.rs:22:29"`
/// becomes `"main.rs"`.
pub open spec fn hide_trailing_numbers(line: Seq<char>) -> Seq<char> {
    match strip_number_group(line) {
        None => line,
        Some(once) => match strip_number_group(once) {
            None => once,
            Some(twice) => twice,
        },
    }
}

/// The position just past the run of border and numbered rows that follows
/// line `at`: the first line from `at` whose first non-blank character is
/// not a digit, `|` or `.` (or the end).
pub open spec fn bordered_rows_end(lines: Seq<Seq<char>>, at: int) -> int
    decreases lines.len() - at,
{
    if at < 0 || at >= lines.len() {
        at
    } else {
        let t = trim_start(lines[at]);
        if t.len() > 0 && (is_digit(t[0]) || t[0] == '|' || t[0] == '.') {
            bordered_rows_end(lines, at + 1)
        } else {
            at
        }
    }
}

/// Whether a directory component is a cargo `OUT_DIR` crate directory: a
/// name, a `-`, then 16 lowercase hexadecimal digits.
pub open spec fn is_out_dir_crate(c: Seq<char>) -> bool {
    &&& c.len() > 17
    &&& rfind_char(c, '-') == Some(c.len() - 17)
    &&& all_lower_hex(c.skip(c.len() - 16))
}

/// The scan of the components after the target directory for
/// `<crate>-<hash>/out`, rewritten to `$OUT_DIR[<crate>]`.
pub open spec fn scan_out_dir(line: Seq<char>, indent: int, offset: int, name: Option<Seq<char>>) -> (
    Seq<char>,
    bool,
)
    decreases line.len() - offset,
{
    match find_char_from(line, '/', offset) {
        None => (line, false),
        Some(slash) => if slash < offset || slash >= line.len() {
            (line, false)
        } else {
            let component = line.subrange(offset, slash);
            if component == "out"@ && name is Some {
                (splice(line, indent + 4, offset + 3, "$OUT_DIR["@ + name->0 + "]"@), true)
            } else {
                let next = if is_out_dir_crate(component) {
                    Some(component.take(component.len() - 17))
                } else {
                    None
                };
                scan_out_dir(line, indent, slash + 1, next)
            }
        },
    }
}

pub open spec fn replace_out_dir(line: Seq<char>, indent: int, target: Seq<char>) -> (Seq<char>, bool) {
    scan_out_dir(line, indent, indent + 4 + target.len(), None)
}

/// The source-directory rewrite. The flag says whether the line is complete
/// as it stands (`true`) or is to be treated as a location in another crate.
pub open spec fn replace_source_dir(
    line: Seq<char>,
    lower: Seq<char>,
    indent: int,
    k: int,
    pat: Seq<char>,
    n: int,
    input_file: Seq<char>,
) -> (bool, Seq<char>) {
    if n >= RELATIVE_TO_DIR && k == indent + 4 {
        let relative = splice(line, k, k + pat.len(), Seq::empty());
        if n < LINES_OUTSIDE_INPUT_FILE {
            (true, relative)
        } else {
            (starts_with(get_from(lower, k + pat.len()), lower_slash(input_file)), relative)
        }
    } else {
        (n < LINES_OUTSIDE_INPUT_FILE, splice(line, k, end_before_last(k, pat.len() as int), "$DIR"@))
    }
}

/// `$` and the crate name in upper case, with `-` written as `_`.
pub open spec fn dep_var(name: Seq<char>) -> Seq<char> {
    "$"@ + crate::normalize::str_to_uppercase(name).map_values(
        |c: char|
            if c == '-' {
                '_'
            } else {
                c
            },
    )
}

/// The first dependency from index `j` on (legacy ones only) whose path
/// occurs in the lowered line, rewritten to its variable.
pub open spec fn first_dep_match(line: Seq<char>, lower: Seq<char>, deps: Seq<DepView>, j: int) -> (
    Seq<char>,
    bool,
)
    decreases deps.len() - j,
{
    if j < 0 || j >= deps.len() {
        (line, false)
    } else {
        let pat = lower_slash(deps[j].path);
        match find(lower, pat) {
            Some(k) => if deps[j].legacy {
                (splice(line, k, end_before_last(k, pat.len() as int), dep_var(deps[j].name)), true)
            } else {
                first_dep_match(line, lower, deps, j + 1)
            },
            None => first_dep_match(line, lower, deps, j + 1),
        }
    }
}

/// Among the dependencies from index `j` on whose paths occur in the lowered
/// line, the one with the longest path (the earliest of equally long ones):
/// its position, path length and variable.
pub open spec fn longest_dep_match(
    lower: Seq<char>,
    deps: Seq<DepView>,
    j: int,
    best: Option<(int, int, Seq<char>)>,
) -> Option<(int, int, Seq<char>)>
    decreases deps.len() - j,
{
    if j < 0 || j >= deps.len() {
        best
    } else {
        let pat = lower_slash(deps[j].path);
        match find(lower, pat) {
            Some(k) => {
                let better = match best {
                    Some(b) => pat.len() > b.1,
                    None => true,
                };
                longest_dep_match(
                    lower,
                    deps,
                    j + 1,
                    if better {
                        Some((k, pat.len() as int, dep_var(deps[j].name)))
                    } else {
                        best
                    },
                )
            },
            None => longest_dep_match(lower, deps, j + 1, best),
        }
    }
}

/// The path-dependency rewrite at rank `n`.
pub open spec fn replace_path_dependency(line: Seq<char>, lower: Seq<char>, deps: Seq<DepView>, n: int) -> (
    Seq<char>,
    bool,
) {
    if n >= NESTED_PATH_DEPENDENCIES {
        match longest_dep_match(lower, deps, 0, None) {
            Some(b) => (splice(line, b.0, end_before_last(b.0, b.1), b.2), true),
            None => (line, false),
        }
    } else {
        first_dep_match(line, lower, deps, 0)
    }
}

/// Whether the line holds a `/rustc/<40 hex>/library/` path right after the
/// location marker.
pub open spec fn is_rustc_hash_library(line: Seq<char>, indent: int) -> bool {
    &&& starts_with(get_from(line, indent + 4), "/rustc/"@)
    &&& indent + 51 <= line.len()
    &&& all_lower_hex(line.subrange(indent + 11, indent + 51))
    &&& starts_with(get_from(line, indent + 51), "/library/"@)
}

/// The standard-library source rewrite to `$RUST`.
pub open spec fn replace_rust_lib(line: Seq<char>, indent: int) -> (Seq<char>, bool) {
    match find(line, "/rustlib/src/rust/src/"@) {
        Some(pos) => (splice(line, indent + 4, pos + 17, "$RUST"@), true),
        None => match find(line, "/rustlib/src/rust/library/"@) {
            Some(pos) => (splice(line, indent + 4, pos + 25, "$RUST"@), true),
            None => if is_rustc_hash_library(line, indent) {
                (splice(line, indent + 4, indent + 59, "$RUST"@), true)
            } else {
                (line, false)
            },
        },
    }
}

/// The crate version in a `$CARGO/<crate>-<version>/...` path rewritten to
/// `$VERSION`.
pub open spec fn replace_dependency_version(line: Seq<char>, indent: int) -> Seq<char> {
    let rest = get_from(line, indent + 11);
    match find_char(rest, '/') {
        None => line,
        Some(end_of_version) => match find_char(rest.take(end_of_version), '.') {
            None => line,
            Some(dot) => match rfind_char(rest.take(dot), '-') {
                None => line,
                Some(end_of_crate_name) => splice(
                    line,
                    indent + end_of_crate_name + 12,
                    indent + end_of_version + 11,
                    "$VERSION"@,
                ),
            },
        },
    }
}

/// The end of the registry directory (`<index>-<16 hex>`) of a cargo
/// registry path, as recognized before custom registries: only the
/// `github.com` and `index.crates.io` registries.
pub open spec fn known_registry_end(line: Seq<char>) -> Option<int> {
    let pos = match find(line, "/registry/src/github.com-"@) {
        Some(p) => Some(p),
        None => find(line, "/registry/src/index.crates.io-"@),
    };
    match pos {
        None => None,
        Some(p) => match find_char_from(line, '-', p) {
            None => None,
            Some(dash) => {
                let hash_start = dash + 1;
                let hash_end = hash_start + 16;
                if hash_end <= line.len() && all_lower_hex(line.subrange(hash_start, hash_end))
                    && starts_with(line.skip(hash_end), "/"@) {
                    Some(hash_end)
                } else {
                    None
                }
            },
        },
    }
}

/// The end of the registry directory of any cargo registry path: the
/// component after `/registry/src/` must be a non-empty name, `-`, and 16
/// lowercase hexadecimal digits, and be followed by `/`.
pub open spec fn any_registry_end(line: Seq<char>) -> Option<int> {
    match find(line, "/registry/src/"@) {
        None => None,
        Some(p) => {
            let start = p + 14;
            match find_char_from(line, '/', start) {
                None => None,
                Some(slash) => if slash >= start && is_out_dir_crate(line.subrange(start, slash)) {
                    Some(slash)
                } else {
                    None
                },
            }
        },
    }
}

/// The cargo registry rewrite to `$CARGO` (and `$VERSION`).
pub open spec fn replace_cargo_registry(line: Seq<char>, indent: int, n: int) -> (Seq<char>, bool) {
    let end = if n >= CUSTOM_REGISTRY {
        any_registry_end(line)
    } else {
        known_registry_end(line)
    };
    match end {
        None => (line, false),
        Some(hash_end) => {
            let cargo = splice(line, indent + 4, hash_end, "$CARGO"@);
            if n >= DEPENDENCY_VERSION {
                (replace_dependency_version(cargo, indent), true)
            } else {
                (cargo, true)
            }
        },
    }
}

/// The rewrite of a `--> ` / `::: ` location line, with the state after it.
pub open spec fn normalize_location(
    lines: Seq<Seq<char>>,
    i: int,
    n: int,
    ctx: ContextView,
    st: FilterState,
    line0: Seq<char>,
    indent: int,
) -> (Seq<char>, FilterState) {
    let line = slashes(line0);
    let lower = lower_slash(line0);
    let target = lower_slash(ctx.target_dir);
    let source = lower_slash(ctx.source_dir);
    let workspace = lower_slash(ctx.workspace);
    // (whether the line is complete, the line, whether it lies in another crate)
    let first: (bool, Seq<char>, bool) = if find(lower, target) == Some(indent + 4) {
        let r = replace_out_dir(line, indent, target);
        (false, r.0, r.1)
    } else {
        match find(lower, source) {
            Some(k) => {
                let r = replace_source_dir(line, lower, indent, k, source, n, ctx.input_file);
                (r.0, r.1, true)
            },
            None => match find(lower, workspace) {
                Some(k) => (false, splice(line, k, end_before_last(k, workspace.len() as int), "$WORKSPACE"@), true),
                None => (false, line, false),
            },
        }
    };
    if first.0 {
        (first.1, st)
    } else {
        let second = if n >= PATH_DEPENDENCIES && !first.2 {
            replace_path_dependency(first.1, lower, ctx.deps, n)
        } else {
            (first.1, first.2)
        };
        let third = if n >= RUST_LIB && !second.1 {
            replace_rust_lib(second.0, indent)
        } else {
            second
        };
        let fourth = if n >= CARGO_REGISTRY && !third.1 {
            replace_cargo_registry(third.0, indent, n)
        } else {
            third
        };
        if fourth.1 && n >= WORKSPACE_LINES {
            (
                hide_trailing_numbers(fourth.0),
                FilterState { hide_numbers: (bordered_rows_end(lines, i + 1) - i) as nat, ..st },
            )
        } else {
            (fourth.0, st)
        }
    }
}

/// A trailing `and <digits> others` count collapsed to `and $N others`.
pub open spec fn normalize_and_others(line: Seq<char>) -> Seq<char> {
    let t = trim_start(line);
    if !(starts_with(t, "and "@) && ends_with(line, " others"@)) {
        line
    } else {
        let indent = line.len() - t.len();
        let num_start = indent + 4;
        let num_end = line.len() - 7;
        if num_start < num_end && all_digits(line.subrange(num_start, num_end)) {
            splice(line, num_start, num_end, "$N"@)
        } else {
            line
        }
    }
}

/// Whether the line is rustc's note that a long type name was written to a
/// file.
pub open spec fn is_long_type_name_note(line: Seq<char>) -> bool {
    let t = trim_start(line);
    let note = if starts_with(t, "= note: "@) {
        t.skip(8)
    } else {
        t
    };
    starts_with(note, "the full type name has been written to"@) || starts_with(
        note,
        "the full name for the type has been written to"@,
    )
}

/// The verbose implementor-list collapse: whether the line is dropped, the
/// (possibly rewritten) line, and the new list progress.
pub open spec fn collapse_other_types(
    lines: Seq<Seq<char>>,
    i: int,
    line: Seq<char>,
    indent: int,
    other: Option<nat>,
) -> (bool, Seq<char>, Option<nat>) {
    let t = trim_start(line);
    if starts_with(t, "= help: the following types implement trait "@) || starts_with(
        t,
        "= help: the following other types implement trait "@,
    ) {
        (false, line, Some(0))
    } else {
        match other {
            None => (false, line, None),
            Some(seen) => if indent < 12 || t == "and $N others"@ {
                (false, line, None)
            } else {
                let count = seen + 1;
                if count > 9 {
                    (true, line, Some(count))
                } else if count == 9 && i + 1 < lines.len() {
                    let next = lines[i + 1];
                    let next_indent = next.len() - trim_start(next).len();
                    if indent == next_indent {
                        let cut = if indent >= 2 {
                            indent - 2
                        } else {
                            0
                        };
                        let start = if cut <= line.len() {
                            cut
                        } else {
                            line.len() as int
                        };
                        (false, line.take(start) + "and $N others"@, Some(count))
                    } else {
                        (false, line, Some(count))
                    }
                } else {
                    (false, line, Some(count))
                }
            },
        }
    }
}

/// `replace_case_insensitive` after the split of the lowered line: walking
/// the pieces between matches, emitting the replacement for each match that
/// does not directly follow an alphanumeric character, normalizing the
/// slashes of the path that follows a replacement, and restarting the split
/// one character further on after a rejected match.
pub open spec fn rci_walk(
    line: Seq<char>,
    lowered: Seq<char>,
    pat_lower: Seq<char>,
    pat_len: nat,
    replacement: Seq<char>,
    pos: int,
    pieces: Seq<Seq<char>>,
    insert: bool,
    out: Seq<char>,
) -> Seq<char>
    decreases (if pos <= line.len() {
        line.len() - pos
    } else {
        0
    }), pieces.len(),
{
    if pieces.len() == 0 {
        out
    } else {
        let piece = pieces[0];
        let out1 = if insert {
            out + replacement
        } else {
            out
        };
        let pos1 = if insert {
            pos + pat_len
        } else {
            pos
        };
        let keep = get(line, pos1, pos1 + piece.len());
        let path_end = if insert {
            match find_either_from(keep, ' ', ':', 0) {
                Some(e) => e,
                None => keep.len() as int,
            }
        } else {
            0
        };
        let out2 = out1 + slashes(keep.take(path_end)) + keep.skip(path_end);
        let pos2 = pos1 + keep.len();
        proof {
            assert(pos <= pos2);
        }
        if out2.len() > 0 && is_alnum(out2.last()) && 0 <= pos2 < line.len() {
            rci_walk(
                line,
                lowered,
                pat_lower,
                pat_len,
                replacement,
                pos2 + 1,
                split(lowered.skip(pos2 + 1), pat_lower),
                false,
                out2.push(line[pos2]),
            )
        } else {
            rci_walk(line, lowered, pat_lower, pat_len, replacement, pos2, pieces.drop_first(), true, out2)
        }
    }
}

/// Every case-insensitive, slash-insensitive occurrence of `pattern` in
/// `line` that does not directly follow an alphanumeric character replaced
/// by `replacement`, and the path following each replacement given forward
/// slashes.
pub open spec fn replace_case_insensitive(line: Seq<char>, pattern: Seq<char>, replacement: Seq<char>) -> Seq<
    char,
> {
    let lowered = lower_slash(line);
    let pat_lower = lower_slash(pattern);
    rci_walk(line, lowered, pat_lower, pattern.len(), replacement, 0, split(lowered, pat_lower), false, Seq::empty())
}

/// Whether a line is one of rustc's trailers dropped at every rank.
pub open spec fn always_dropped(line: Seq<char>) -> bool {
    let t = trim_start(line);
    ||| starts_with(line, "error: aborting due to "@)
    ||| line == "To learn more, run the command again with --verbose."@
    ||| (starts_with(t, "= note: this compiler was built on 2"@) && ends_with(
        t,
        "; consider upgrading it if it is out of date"@,
    ))
}

/// Whether a line is one of rustc's trailers dropped at rank `n`.
pub open spec fn dropped_at(line: Seq<char>, n: int) -> bool {
    ||| always_dropped(line)
    ||| (n >= STRIP_COULD_NOT_COMPILE && starts_with(line, "error: Could not compile `"@))
    ||| (n >= STRIP_COULD_NOT_COMPILE2 && starts_with(line, "error: could not compile `"@))
    ||| (n >= STRIP_FOR_MORE_INFORMATION && starts_with(
        line,
        "For more information about this error, try `rustc --explain"@,
    ))
    ||| (n >= STRIP_FOR_MORE_INFORMATION2 && starts_with(line, "Some errors have detailed explanations:"@))
    ||| (n >= STRIP_FOR_MORE_INFORMATION2 && starts_with(
        line,
        "For more information about an error, try `rustc --explain"@,
    ))
}

/// The rewrite of an ordinary (non-location) line: `None` when it is
/// dropped, with the state after it.
pub open spec fn strip_line(
    lines: Seq<Seq<char>>,
    i: int,
    n: int,
    ctx: ContextView,
    st: FilterState,
    line0: Seq<char>,
) -> (Option<Seq<char>>, FilterState) {
    let indent = line0.len() - trim_start(line0).len();
    if dropped_at(line0, n) {
        (None, st)
    } else {
        let l1 = if n >= TRIM_END {
            trim_end(line0)
        } else {
            line0
        };
        let l2 = if n >= TYPE_DIR_BACKSLASH && starts_with(
            trim_start(l1),
            "= note: required because it appears within the type"@,
        ) {
            slashes(l1)
        } else {
            l1
        };
        let l3 = if n >= AND_OTHERS {
            normalize_and_others(l2)
        } else {
            l2
        };
        if n >= STRIP_LONG_TYPE_NAME_FILES && is_long_type_name_note(l3) {
            (None, st)
        } else {
            let c = if n >= AND_OTHERS_VERBOSE {
                collapse_other_types(lines, i, l3, indent, st.other_types)
            } else {
                (false, l3, st.other_types)
            };
            let st2 = FilterState { other_types: c.2, ..st };
            if c.0 {
                (None, st2)
            } else {
                let l4 = replace_all(c.1, ctx.krate, "$CRATE"@);
                let l5 = replace_case_insensitive(l4, ctx.source_dir, "$DIR/"@);
                let l6 = replace_case_insensitive(l5, ctx.workspace, "$WORKSPACE/"@);
                (Some(l6), st2)
            }
        }
    }
}

/// The rewrite of line `i` of a diagnostic at rank `n`.
pub open spec fn filter_line(lines: Seq<Seq<char>>, i: int, n: int, ctx: ContextView, st: FilterState) -> (
    Option<Seq<char>>,
    FilterState,
) {
    let line0 = lines[i];
    let line = if st.hide_numbers > 0 {
        hide_leading_numbers(line0)
    } else {
        line0
    };
    let st1 = FilterState {
        hide_numbers: if st.hide_numbers > 0 {
            (st.hide_numbers - 1) as nat
        } else {
            0
        },
        ..st
    };
    let t = trim_start(line);
    let indent = line.len() - t.len();
    let arrow = starts_with(t, "--> "@);
    let colons = starts_with(t, "::: "@);
    if arrow && n < ARROW_OTHER_CRATE && rfind_either_before(line, '/', '\\', line.len() as int) is Some {
        let cut_end = rfind_either_before(line, '/', '\\', line.len() as int)->0;
        (Some(splice(line, indent + 4, cut_end + 1, "$DIR/"@)), st1)
    } else if arrow || colons {
        let r = normalize_location(lines, i, n, ctx, st1, line, indent);
        (Some(r.0), r.1)
    } else {
        strip_line(lines, i, n, ctx, st1, line)
    }
}

/// The kept lines from line `i` on appended to `out`, each followed by a
/// newline unless the text already ends with a blank line.
pub open spec fn filter_from(lines: Seq<Seq<char>>, i: int, n: int, ctx: ContextView, st: FilterState, out: Seq<char>) -> Seq<
    char,
>
    decreases lines.len() - i,
{
    if i < 0 || i >= lines.len() {
        out
    } else {
        let r = filter_line(lines, i, n, ctx, st);
        let out2 = match r.0 {
            Some(line) => {
                let joined = out + line;
                if ends_with(joined, "\n\n"@) {
                    joined
                } else {
                    joined.push('\n')
                }
            },
            None => out,
        };
        filter_from(lines, i + 1, n, ctx, r.1, out2)
    }
}

/// The kinds of line that the unindent pass tells apart.
pub enum LineKind {
    Heading,
    Code(int),
    Note,
    Other(int),
}

pub open spec fn is_diagnostic_heading(line: Seq<char>) -> bool {
    if starts_with(line, "error"@) {
        let r = line.skip(5);
        starts_with(r, ":"@) || starts_with(r, "["@)
    } else if starts_with(line, "warning"@) {
        let r = line.skip(7);
        starts_with(r, ":"@) || starts_with(r, "["@)
    } else {
        false
    }
}

pub open spec fn is_heading_note(line: Seq<char>, first: bool, n: int) -> bool {
    first && n >= HEADING_NOTE && starts_with(line, "note: "@)
}

pub open spec fn is_note_continuation(line: Seq<char>, previous_was_note: bool, n: int) -> bool {
    ||| starts_with(line, "note:"@)
    ||| line == "..."@
    ||| (n >= UNINDENT_AFTER_HELP && starts_with(line, "help:"@))
    ||| (n >= UNINDENT_MULTILINE_NOTE && previous_was_note && starts_with(line, "      "@))
}

/// The decomposition of a bordered source line: its indentation (spaces
/// before and after an optional line number), whether it has a line number,
/// and the content after them.
pub open spec fn source_indent(line: Seq<char>) -> int {
    let lead = leading_spaces(line);
    let digits = leading_digits(line.skip(lead as int));
    lead + leading_spaces(line.skip(lead + digits))
}

pub open spec fn has_line_number(line: Seq<char>) -> bool {
    leading_digits(line.skip(leading_spaces(line) as int)) > 0
}

pub open spec fn source_rest(line: Seq<char>) -> Seq<char> {
    let lead = leading_spaces(line);
    let digits = leading_digits(line.skip(lead as int));
    line.skip(lead + digits + leading_spaces(line.skip(lead + digits)))
}

pub open spec fn is_source_border(rest: Seq<char>) -> bool {
    rest == "|"@ || starts_with(rest, "| "@)
}

pub open spec fn is_suggestion(rest: Seq<char>, numbered: bool, n: int) -> bool {
    &&& n >= UNINDENT_SUGGESTION
    &&& numbered
    &&& (rest == "~"@ || starts_with(rest, "~ "@) || rest == "+"@ || starts_with(rest, "+ "@) || rest == "-"@
        || starts_with(rest, "- "@))
}

pub open spec fn is_location_or_note(rest: Seq<char>) -> bool {
    starts_with(rest, "--> "@) || starts_with(rest, "::: "@) || starts_with(rest, "= "@)
}

/// The classification of one line, and whether it continues a note.
pub open spec fn line_kind(line: Seq<char>, first: bool, previous_is_note: bool, n: int) -> (LineKind, bool) {
    if is_diagnostic_heading(line) || is_heading_note(line, first, n) {
        (LineKind::Heading, false)
    } else if is_note_continuation(line, previous_is_note, n) {
        (LineKind::Note, true)
    } else if starts_with(line, "... "@) {
        (LineKind::Code(leading_spaces(line.skip(4)) as int), false)
    } else {
        let indent = source_indent(line);
        let rest = source_rest(line);
        let numbered = has_line_number(line);
        if indent != 0 && (is_source_border(rest) || is_suggestion(rest, numbered, n) || (!numbered
            && is_location_or_note(rest))) {
            (LineKind::Code(indent - 1), false)
        } else {
            (LineKind::Other(
                if numbered {
                    0
                } else {
                    indent
                },
            ), false)
        }
    }
}

/// The size of the code block after a heading: the number of lines it spans
/// (counting the location line) and the least indentation that can be cut.
pub open spec fn measure_block(lines: Seq<Seq<char>>, k: int, n: int, prev: bool, count: int, least: int) -> (
    int,
    int,
)
    decreases lines.len() - k,
{
    if k < 0 || k >= lines.len() {
        (count, least)
    } else {
        let r = line_kind(lines[k], false, prev, n);
        match r.0 {
            LineKind::Heading => (count, least),
            LineKind::Code(indent) => measure_block(
                lines,
                k + 1,
                n,
                r.1,
                count + 1,
                if indent < least {
                    indent
                } else {
                    least
                },
            ),
            LineKind::Note => measure_block(lines, k + 1, n, r.1, count + 1, least),
            LineKind::Other(spaces) => if spaces > 10 {
                measure_block(lines, k + 1, n, r.1, count + 1, least)
            } else {
                (count, least)
            },
        }
    }
}

/// A code or other line with `least` spaces cut after its first space.
pub open spec fn cut_indent(line: Seq<char>, least: int) -> Seq<char> {
    let space = match find_char(line, ' ') {
        Some(s) => s,
        None => line.len() as int,
    };
    line.take(space) + get_from(line, space + least)
}

/// The `count` lines from `k` on emitted with their indentation cut.
pub open spec fn emit_block(lines: Seq<Seq<char>>, k: int, count: int, least: int, n: int, prev: bool, out: Seq<char>) -> Seq<
    char,
>
    decreases count,
{
    if count <= 0 || k < 0 || k >= lines.len() {
        out
    } else {
        let r = line_kind(lines[k], false, prev, n);
        let emitted = match r.0 {
            LineKind::Code(_) => cut_indent(lines[k], least),
            LineKind::Other(_) => cut_indent(lines[k], least),
            _ => lines[k],
        };
        emit_block(lines, k + 1, count - 1, least, n, r.1, out + emitted + "\n"@)
    }
}

/// The number of lines that the block after a heading at line `k` consumes.
pub open spec fn block_len(lines: Seq<Seq<char>>, k: int, count: int) -> int {
    if k + 1 + count <= lines.len() {
        count
    } else {
        lines.len() - (k + 1)
    }
}

/// Whether line `k` is a heading followed by a `--> ` code block, and if so
/// the block's size.
pub open spec fn block_after(lines: Seq<Seq<char>>, k: int, n: int) -> Option<(int, int)> {
    if line_kind(lines[k], true, false, n).0 is Heading && k + 1 < lines.len() {
        match line_kind(lines[k + 1], false, false, n).0 {
            LineKind::Code(indent) => if starts_with(get_from(lines[k + 1], indent + 1), "--> "@) {
                Some(measure_block(lines, k + 2, n, false, 1, indent))
            } else {
                None
            },
            _ => None,
        }
    } else {
        None
    }
}

/// The unindent pass over the lines from `k` on.
pub open spec fn unindent_from(lines: Seq<Seq<char>>, k: int, n: int, out: Seq<char>) -> Seq<char>
    decreases lines.len() - k,
{
    if k < 0 || k >= lines.len() {
        out
    } else {
        let out1 = out + lines[k] + "\n"@;
        match block_after(lines, k, n) {
            Some(b) => {
                let count = if b.0 >= 0 {
                    b.0
                } else {
                    0
                };
                let taken = block_len(lines, k, count);
                unindent_from(lines, k + 1 + taken, n, emit_block(lines, k + 1, taken, b.1, n, false, out1))
            },
            None => unindent_from(lines, k + 1, n, out1),
        }
    }
}

/// The common left indentation of each `--> ` code block removed, from rank
/// `UNINDENT` on.
pub open spec fn unindent(diag: Seq<char>, n: int) -> Seq<char> {
    if n < UNINDENT {
        diag
    } else {
        unindent_from(lines(diag), 0, n, Seq::empty())
    }
}

/// Trailing whitespace removed, then one newline added unless the text is
/// empty.
pub open spec fn trim(s: Seq<char>) -> Seq<char> {
    let t = trim_end(s);
    if t.len() == 0 {
        t
    } else {
        t.push('\n')
    }
}

/// One variation: the diagnostic normalized at rank `n`.
pub open spec fn apply(diagnostic: Seq<char>, n: int, ctx: ContextView) -> Seq<char> {
    trim(unindent(filter_from(lines(diagnostic), 0, n, ctx, initial_state(), Seq::empty()), n))
}

/// Every variation of a diagnostic, one per rank, after `"\r\n"` became
/// `"\n"`.
pub open spec fn diagnostics(output: Seq<char>, ctx: ContextView) -> Seq<Seq<char>> {
    let input = replace_all(output, "\r\n"@, "\n"@);
    Seq::new(STEPS as nat, |n: int| apply(input, n, ctx))
}

/// The number of characters that a run of split pieces covers, with one
/// pattern of length `plen` between consecutive pieces.
pub open spec fn span(pieces: Seq<Seq<char>>, plen: int) -> int
    decreases pieces.len(),
{
    if pieces.len() == 0 {
        0
    } else if pieces.len() == 1 {
        pieces[0].len() as int
    } else {
        pieces[0].len() + plen + span(pieces.drop_first(), plen)
    }
}

/// A span is at least the length of its first piece.
pub proof fn lemma_span_bounds(pieces: Seq<Seq<char>>, plen: int)
    requires
        plen >= 0,
    ensures
        span(pieces, plen) >= 0,
        pieces.len() > 0 ==> span(pieces, plen) >= pieces[0].len(),
    decreases pieces.len(),
{
    if pieces.len() > 1 {
        lemma_span_bounds(pieces.drop_first(), plen);
    }
}

/// The pieces of a split by a non-empty pattern, with the occurrences
/// between them, cover the whole text.
pub proof fn lemma_split_span(s: Seq<char>, p: Seq<char>)
    requires
        p.len() > 0,
    ensures
        split_nonempty(s, p).len() >= 1,
        span(split_nonempty(s, p), p.len() as int) == s.len(),
    decreases s.len(),
{
    match find(s, p) {
        Some(i) => if 0 <= i && i + p.len() <= s.len() {
            let rest = s.skip(i + p.len());
            lemma_split_span(rest, p);
            let parts = split_nonempty(s, p);
            assert(parts == seq![s.take(i)] + split_nonempty(rest, p));
            assert(parts.drop_first() =~= split_nonempty(rest, p));
        },
        None => {},
    }
}

} // verus!
