//! What the snapshots and manifests the harness writes are made of: which
//! lines a normalized diagnostic never keeps, what text each side of a diff
//! shows, where each generated bin points, in which context a recorded
//! diagnostic is normalized, and how locations in other crates lose their
//! line and column numbers.
use vstd::prelude::*;

use crate::directory::std_path_join;
use crate::expand::ExpandedTest;
use crate::manifest::case_bins;
use crate::messages::{
    concat_snapshots, empty_snapshots, entry_of, last_registered, recorded_message, stderr_key_table, ProjectPaths,
    RegisteredView, StderrView,
};
use crate::model::PathDependency;
use crate::normalize;
use crate::report::{side_runs, DiffChunk, Render};
use crate::rules;
use crate::text;

verus! {

// ----- rustc's trailer -----

/// Whether a line is rustc's `error: aborting due to ...` trailer.
pub open spec fn is_abort_trailer(line: Seq<char>) -> bool {
    text::starts_with(line, "error: aborting due to "@)
}

proof fn lemma_trailer_shape(line: Seq<char>)
    requires
        is_abort_trailer(line),
    ensures
        line.len() > 0,
        line[0] == 'e',
        text::trim_start(line) == line,
        rules::hide_leading_numbers(line) == line,
        !text::starts_with(line, "--> "@),
        !text::starts_with(line, "::: "@),
{
    reveal_strlit("error: aborting due to ");
    reveal_strlit("--> ");
    reveal_strlit("::: ");
    assert(line.take(23)[0] == 'e');
    assert(text::leading_ws(line) == 0);
    assert(line.skip(0) =~= line);
    assert(text::leading_spaces_or_digits(line) == 0);
    assert(rules::spaces(0) + line.skip(0) =~= line);
    if text::starts_with(line, "--> "@) {
        assert(line.take(4)[0] == '-');
    }
    if text::starts_with(line, "::: "@) {
        assert(line.take(4)[0] == ':');
    }
}

/// At every rank, and whatever came before, a line that is rustc's
/// `error: aborting due to ...` trailer is dropped from the variation.
pub proof fn law_abort_trailer_line_dropped(
    lines: Seq<Seq<char>>,
    i: int,
    n: int,
    ctx: rules::ContextView,
    st: rules::FilterState,
)
    requires
        0 <= i < lines.len(),
        is_abort_trailer(lines[i]),
    ensures
        rules::filter_line(lines, i, n, ctx, st).0 is None,
{
    lemma_trailer_shape(lines[i]);
}

proof fn lemma_find_lf_end(a: Seq<char>)
    requires
        a.len() > 0,
        a.last() == '\n',
    ensures
        text::find_char(a, '\n') matches Some(i) && 0 <= i < a.len() && a[i] == '\n' && forall|j: int|
            0 <= j < i ==> #[trigger] a[j] != '\n',
{
    text::lemma_find_char_none_before(a, '\n', 0);
    text::lemma_find_char_found(a, '\n', 0);
}

/// The lines of text ending in a newline, followed by more text, are its
/// lines followed by those of the rest.
proof fn lemma_lines_concat(a: Seq<char>, b: Seq<char>)
    requires
        a.len() == 0 || a.last() == '\n',
    ensures
        text::lines(a + b) == text::lines(a) + text::lines(b),
    decreases a.len(),
{
    if a.len() == 0 {
        assert(a + b =~= b);
        assert(text::lines(a) =~= Seq::<Seq<char>>::empty());
        assert(text::lines(a) + text::lines(b) =~= text::lines(b));
    } else {
        lemma_find_lf_end(a);
        let i = text::find_char(a, '\n')->0;
        let s = a + b;
        assert forall|j: int| 0 <= j < i implies #[trigger] s[j] != '\n' by {
            assert(s[j] == a[j]);
        }
        text::lemma_find_char_first(s, '\n', i, 0);
        assert(s.take(i) =~= a.take(i));
        assert(s.skip(i + 1) =~= a.skip(i + 1) + b);
        let rest = a.skip(i + 1);
        if rest.len() > 0 {
            assert(rest.last() == a.last());
        }
        lemma_lines_concat(rest, b);
        assert(text::lines(s) =~= seq![text::strip_cr(a.take(i))] + (text::lines(rest) + text::lines(b)));
        assert(text::lines(a) =~= seq![text::strip_cr(a.take(i))] + text::lines(rest));
    }
}

/// A line without line breaks, ended by a newline, is one line.
proof fn lemma_lines_single(t: Seq<char>)
    requires
        t.len() > 0,
        forall|k: int| 0 <= k < t.len() ==> t[k] != '\n' && t[k] != '\r',
    ensures
        text::lines(t + "\n"@) == seq![t],
{
    reveal_strlit("\n");
    let s = t + "\n"@;
    assert forall|j: int| 0 <= j < t.len() implies #[trigger] s[j] != '\n' by {
        assert(s[j] == t[j]);
    }
    assert(s[t.len() as int] == '\n');
    text::lemma_find_char_first(s, '\n', t.len() as int, 0);
    assert(s.take(t.len() as int) =~= t);
    assert(s.skip(t.len() as int + 1) =~= Seq::<char>::empty());
    assert(t.last() != '\r');
    assert(text::lines(Seq::<char>::empty()) =~= Seq::<Seq<char>>::empty());
}

/// Reading `\r\n` as `\n` in two pieces, the first not ending in `\r`, is
/// reading it in the whole.
proof fn lemma_replace_crlf_concat(x: Seq<char>, y: Seq<char>)
    requires
        x.len() == 0 || x.last() != '\r',
    ensures
        text::replace_nonempty(x + y, "\r\n"@, "\n"@) == text::replace_nonempty(x, "\r\n"@, "\n"@)
            + text::replace_nonempty(y, "\r\n"@, "\n"@),
    decreases x.len(),
{
    reveal_strlit("\r\n");
    reveal_strlit("\n");
    let crlf = "\r\n"@;
    let lf = "\n"@;
    let s = x + y;
    if x.len() == 0 {
        assert(s =~= y);
        assert(text::replace_nonempty(x, crlf, lf) =~= Seq::<char>::empty());
        assert(Seq::<char>::empty() + text::replace_nonempty(y, crlf, lf) =~= text::replace_nonempty(y, crlf, lf));
    } else if x.len() == 1 {
        assert(x[0] != '\r');
        assert(text::replace_nonempty(x, crlf, lf) == x);
        if s.len() >= 2 {
            assert(!text::starts_with(s, crlf)) by {
                if text::starts_with(s, crlf) {
                    assert(s.take(2)[0] == crlf[0]);
                }
            }
            assert(s.drop_first() =~= y);
            assert(seq![s[0]] =~= x);
        } else {
            assert(y.len() == 0);
            assert(s =~= x);
            assert(text::replace_nonempty(y, crlf, lf) =~= y);
            assert(x + y =~= x);
        }
    } else {
        assert(s.take(2) =~= x.take(2));
        if text::starts_with(x, crlf) {
            assert(text::starts_with(s, crlf));
            let x2 = x.skip(2);
            assert(s.skip(2) =~= x2 + y);
            if x2.len() > 0 {
                assert(x2.last() == x.last());
            }
            lemma_replace_crlf_concat(x2, y);
            assert(lf + (text::replace_nonempty(x2, crlf, lf) + text::replace_nonempty(y, crlf, lf)) =~= (lf
                + text::replace_nonempty(x2, crlf, lf)) + text::replace_nonempty(y, crlf, lf));
        } else {
            assert(!text::starts_with(s, crlf));
            let x1 = x.drop_first();
            assert(s.drop_first() =~= x1 + y);
            assert(x1.last() == x.last());
            lemma_replace_crlf_concat(x1, y);
            assert(seq![s[0]] + (text::replace_nonempty(x1, crlf, lf) + text::replace_nonempty(y, crlf, lf)) =~= (
            seq![x[0]] + text::replace_nonempty(x1, crlf, lf)) + text::replace_nonempty(y, crlf, lf));
        }
    }
}

/// Reading `\r\n` as `\n` keeps a final newline.
proof fn lemma_replace_keeps_final_lf(s: Seq<char>)
    requires
        s.len() > 0,
        s.last() == '\n',
    ensures
        text::replace_nonempty(s, "\r\n"@, "\n"@).len() > 0,
        text::replace_nonempty(s, "\r\n"@, "\n"@).last() == '\n',
    decreases s.len(),
{
    reveal_strlit("\r\n");
    reveal_strlit("\n");
    let crlf = "\r\n"@;
    let lf = "\n"@;
    if s.len() >= 2 {
        if text::starts_with(s, crlf) {
            let rest = s.skip(2);
            if rest.len() > 0 {
                assert(rest.last() == s.last());
                lemma_replace_keeps_final_lf(rest);
            } else {
                assert(text::replace_nonempty(rest, crlf, lf) =~= rest);
            }
        } else {
            let rest = s.drop_first();
            assert(rest.last() == s.last());
            lemma_replace_keeps_final_lf(rest);
        }
    }
}

/// A trailer line without line breaks is left alone by reading `\r\n` as
/// `\n`.
proof fn lemma_replace_trailer(t: Seq<char>)
    requires
        forall|k: int| 0 <= k < t.len() ==> t[k] != '\n' && t[k] != '\r',
    ensures
        text::replace_nonempty(t + "\n"@, "\r\n"@, "\n"@) == t + "\n"@,
{
    reveal_strlit("\r\n");
    reveal_strlit("\n");
    let s = t + "\n"@;
    assert forall|k: int| 0 <= k < s.len() implies !text::occurs_at(s + Seq::<char>::empty(), "\r\n"@, k) by {
        if text::occurs_at(s + Seq::<char>::empty(), "\r\n"@, k) {
            assert((s + Seq::<char>::empty()).subrange(k, k + 2)[0] == '\r');
            assert(s[k] == '\r');
            if k < t.len() {
                assert(s[k] == t[k]);
            }
        }
    }
    text::lemma_replace_after_prefix(s, Seq::<char>::empty(), "\r\n"@, "\n"@);
    assert(s + Seq::<char>::empty() =~= s);
    assert(text::replace_nonempty(Seq::<char>::empty(), "\r\n"@, "\n"@) =~= Seq::<char>::empty());
    assert(s + Seq::<char>::empty() =~= s);
}

proof fn lemma_bordered_same(l: Seq<Seq<char>>, t: Seq<char>, at: int)
    requires
        0 <= at <= l.len(),
        is_abort_trailer(t),
    ensures
        rules::bordered_rows_end(l.push(t), at) == rules::bordered_rows_end(l, at),
    decreases l.len() - at,
{
    lemma_trailer_shape(t);
    if at < l.len() {
        assert(l.push(t)[at] == l[at]);
        let tt = text::trim_start(l[at]);
        if tt.len() > 0 && (text::is_digit(tt[0]) || tt[0] == '|' || tt[0] == '.') {
            lemma_bordered_same(l, t, at + 1);
        }
    } else {
        assert(l.push(t)[at] == t);
    }
}

proof fn lemma_filter_line_same(
    l: Seq<Seq<char>>,
    t: Seq<char>,
    i: int,
    n: int,
    ctx: rules::ContextView,
    st: rules::FilterState,
)
    requires
        0 <= i < l.len(),
        is_abort_trailer(t),
    ensures
        rules::filter_line(l.push(t), i, n, ctx, st) == rules::filter_line(l, i, n, ctx, st),
{
    let lt = l.push(t);
    lemma_trailer_shape(t);
    assert(lt[i] == l[i]);
    lemma_bordered_same(l, t, i + 1);
    assert forall|st1: rules::FilterState, line: Seq<char>, indent: int|
        #[trigger] rules::normalize_location(lt, i, n, ctx, st1, line, indent) == rules::normalize_location(
            l,
            i,
            n,
            ctx,
            st1,
            line,
            indent,
        ) by {}
    assert forall|line: Seq<char>, indent: int, other: Option<nat>|
        #[trigger] rules::collapse_other_types(lt, i, line, indent, other) == rules::collapse_other_types(
            l,
            i,
            line,
            indent,
            other,
        ) by {
        if i + 1 < lt.len() {
            assert(lt[i + 1] == t || lt[i + 1] == l[i + 1]);
            if i + 1 == l.len() {
                assert(lt[i + 1] == t);
                assert(t.len() - text::trim_start(t).len() == 0);
            }
        }
    }
    assert forall|st1: rules::FilterState, line: Seq<char>|
        #[trigger] rules::strip_line(lt, i, n, ctx, st1, line) == rules::strip_line(l, i, n, ctx, st1, line) by {}
}

proof fn lemma_filter_from_same(
    l: Seq<Seq<char>>,
    t: Seq<char>,
    i: int,
    n: int,
    ctx: rules::ContextView,
    st: rules::FilterState,
    out: Seq<char>,
)
    requires
        0 <= i <= l.len(),
        is_abort_trailer(t),
    ensures
        rules::filter_from(l.push(t), i, n, ctx, st, out) == rules::filter_from(l, i, n, ctx, st, out),
    decreases l.len() - i,
{
    let lt = l.push(t);
    if i < l.len() {
        lemma_filter_line_same(l, t, i, n, ctx, st);
        let r = rules::filter_line(l, i, n, ctx, st);
        let out2 = match r.0 {
            Some(line) => {
                let joined = out + line;
                if text::ends_with(joined, "\n\n"@) {
                    joined
                } else {
                    joined.push('\n')
                }
            },
            None => out,
        };
        lemma_filter_from_same(l, t, i + 1, n, ctx, r.1, out2);
    } else {
        assert(lt[i] == t);
        law_abort_trailer_line_dropped(lt, i, n, ctx, st);
        let r = rules::filter_line(lt, i, n, ctx, st);
        assert(rules::filter_from(lt, i + 1, n, ctx, r.1, out) == out);
    }
}

/// Appending rustc's `error: aborting due to ...` trailer line to a
/// diagnostic changes none of its variations: every variation, the
/// preferred one included, drops it.
pub proof fn law_abort_trailer_changes_nothing(body: Seq<char>, trailer: Seq<char>, ctx: rules::ContextView)
    requires
        body.len() == 0 || body.last() == '\n',
        is_abort_trailer(trailer),
        forall|k: int| 0 <= k < trailer.len() ==> trailer[k] != '\n' && trailer[k] != '\r',
    ensures
        rules::diagnostics(body + trailer + "\n"@, ctx) == rules::diagnostics(body, ctx),
{
    reveal_strlit("\r\n");
    reveal_strlit("\n");
    lemma_trailer_shape(trailer);
    let crlf = "\r\n"@;
    let lf = "\n"@;
    let tail = trailer + lf;
    assert(body + trailer + lf =~= body + tail);
    lemma_replace_crlf_concat(body, tail);
    lemma_replace_trailer(trailer);
    let b = text::replace_nonempty(body, crlf, lf);
    if body.len() > 0 {
        lemma_replace_keeps_final_lf(body);
    } else {
        assert(b =~= body);
    }
    assert(text::replace_all(body + trailer + lf, crlf, lf) == b + tail);
    assert(text::replace_all(body, crlf, lf) == b);
    lemma_lines_concat(b, tail);
    lemma_lines_single(trailer);
    let l = text::lines(b);
    assert(text::lines(b + tail) =~= l.push(trailer));
    assert forall|k: int| 0 <= k < rules::STEPS implies rules::apply(b + tail, k, ctx) == rules::apply(b, k, ctx) by {
        lemma_filter_from_same(l, trailer, 0, k, ctx, rules::initial_state(), Seq::empty());
    }
    assert(rules::diagnostics(body + trailer + lf, ctx) =~= rules::diagnostics(body, ctx));
}

// ----- locations in other crates -----

proof fn lemma_trailing_digits_append(x: Seq<char>, d: Seq<char>)
    requires
        text::all_digits(d),
    ensures
        text::trailing_digits(x + d) == d.len() + text::trailing_digits(x),
    decreases d.len(),
{
    if d.len() == 0 {
        assert(x + d =~= x);
    } else {
        assert((x + d).drop_last() =~= x + d.drop_last());
        assert((x + d).last() == d.last());
        lemma_trailing_digits_append(x, d.drop_last());
    }
}

proof fn lemma_strip_group(q: Seq<char>, d: Seq<char>)
    requires
        d.len() > 0,
        text::all_digits(d),
    ensures
        rules::strip_number_group(q + ":"@ + d) == Some(q),
{
    reveal_strlit(":");
    let s = q + ":"@ + d;
    lemma_trailing_digits_append(q + ":"@, d);
    assert(text::trailing_digits(q + ":"@) == 0) by {
        assert((q + ":"@).last() == ':');
    }
    assert(s.take(s.len() - d.len()) =~= q + ":"@);
    assert((q + ":"@).skip((q + ":"@).len() - 1) =~= ":"@);
    assert(s.take(s.len() - d.len() - 1) =~= q);
}

/// A location's `:line:column` suffix is removed whole, whatever comes
/// before it (`"main.rs:22:29"` becomes `"main.rs"`), and a lone `:line`
/// suffix is removed from a path that does not end in a digit.
pub proof fn law_trailing_location_numbers_hidden(p: Seq<char>, line_no: Seq<char>, column: Seq<char>)
    requires
        line_no.len() > 0,
        column.len() > 0,
        text::all_digits(line_no),
        text::all_digits(column),
    ensures
        rules::hide_trailing_numbers(p + ":"@ + line_no + ":"@ + column) == p,
        p.len() == 0 || !text::is_digit(p.last()) ==> rules::hide_trailing_numbers(p + ":"@ + line_no) == p,
{
    lemma_strip_group(p + ":"@ + line_no, column);
    lemma_strip_group(p, line_no);
    if p.len() == 0 || !text::is_digit(p.last()) {
        assert(text::trailing_digits(p) == 0);
    }
}

// ----- the two sides of a diff -----

/// The text a sequence of runs shows.
pub open spec fn runs_text(runs: Seq<Render>) -> Seq<char>
    decreases runs.len(),
{
    if runs.len() == 0 {
        Seq::empty()
    } else {
        runs_text(runs.drop_last()) + match runs.last() {
            Render::Common(t) => t@,
            Render::Unique(t) => t@,
        }
    }
}

/// The text a diff says the expected snapshot holds: its equal and deleted
/// chunks.
pub open spec fn diff_old_text(chunks: Seq<DiffChunk>) -> Seq<char>
    decreases chunks.len(),
{
    if chunks.len() == 0 {
        Seq::empty()
    } else {
        diff_old_text(chunks.drop_last()) + match chunks.last() {
            DiffChunk::Equal(t) => t@,
            DiffChunk::Delete(t) => t@,
            DiffChunk::Insert(_) => Seq::empty(),
        }
    }
}

/// The text a diff says the actual output holds: its equal and inserted
/// chunks.
pub open spec fn diff_new_text(chunks: Seq<DiffChunk>) -> Seq<char>
    decreases chunks.len(),
{
    if chunks.len() == 0 {
        Seq::empty()
    } else {
        diff_new_text(chunks.drop_last()) + match chunks.last() {
            DiffChunk::Equal(t) => t@,
            DiffChunk::Insert(t) => t@,
            DiffChunk::Delete(_) => Seq::empty(),
        }
    }
}

/// The text of the runs that only this side has.
pub open spec fn unique_text(runs: Seq<Render>) -> Seq<char>
    decreases runs.len(),
{
    if runs.len() == 0 {
        Seq::empty()
    } else {
        unique_text(runs.drop_last()) + match runs.last() {
            Render::Common(_) => Seq::empty(),
            Render::Unique(t) => t@,
        }
    }
}

/// The text a diff says only the expected snapshot has (`deleted`) or only
/// the actual output has (`!deleted`).
pub open spec fn diff_changed_text(chunks: Seq<DiffChunk>, deleted: bool) -> Seq<char>
    decreases chunks.len(),
{
    if chunks.len() == 0 {
        Seq::empty()
    } else {
        diff_changed_text(chunks.drop_last(), deleted) + match chunks.last() {
            DiffChunk::Equal(_) => Seq::empty(),
            DiffChunk::Delete(t) => if deleted { t@ } else { Seq::empty() },
            DiffChunk::Insert(t) => if deleted { Seq::empty() } else { t@ },
        }
    }
}

proof fn lemma_side_unique_texts(chunks: Seq<DiffChunk>)
    ensures
        unique_text(side_runs(chunks, true, false)) == diff_changed_text(chunks, true),
        unique_text(side_runs(chunks, false, true)) == diff_changed_text(chunks, false),
    decreases chunks.len(),
{
    if chunks.len() > 0 {
        lemma_side_unique_texts(chunks.drop_last());
        let e = side_runs(chunks, true, false);
        let a = side_runs(chunks, false, true);
        let e0 = side_runs(chunks.drop_last(), true, false);
        let a0 = side_runs(chunks.drop_last(), false, true);
        match chunks.last() {
            DiffChunk::Equal(t) => {
                assert(e.drop_last() == e0);
                assert(a.drop_last() == a0);
                assert(unique_text(e) =~= unique_text(e0));
                assert(unique_text(a) =~= unique_text(a0));
                assert(diff_changed_text(chunks, true) =~= diff_changed_text(chunks.drop_last(), true));
                assert(diff_changed_text(chunks, false) =~= diff_changed_text(chunks.drop_last(), false));
            },
            DiffChunk::Delete(t) => {
                assert(e.drop_last() == e0);
                assert(diff_changed_text(chunks, false) =~= diff_changed_text(chunks.drop_last(), false));
            },
            DiffChunk::Insert(t) => {
                assert(a.drop_last() == a0);
                assert(diff_changed_text(chunks, true) =~= diff_changed_text(chunks.drop_last(), true));
            },
        }
    }
}

proof fn lemma_side_texts(chunks: Seq<DiffChunk>)
    ensures
        runs_text(side_runs(chunks, true, false)) == diff_old_text(chunks),
        runs_text(side_runs(chunks, false, true)) == diff_new_text(chunks),
    decreases chunks.len(),
{
    if chunks.len() > 0 {
        lemma_side_texts(chunks.drop_last());
        let e = side_runs(chunks, true, false);
        let a = side_runs(chunks, false, true);
        match chunks.last() {
            DiffChunk::Equal(t) => {
                assert(e.drop_last() == side_runs(chunks.drop_last(), true, false));
                assert(a.drop_last() == side_runs(chunks.drop_last(), false, true));
            },
            DiffChunk::Delete(t) => {
                assert(e.drop_last() == side_runs(chunks.drop_last(), true, false));
                assert(diff_new_text(chunks) =~= diff_new_text(chunks.drop_last()));
            },
            DiffChunk::Insert(t) => {
                assert(a.drop_last() == side_runs(chunks.drop_last(), false, true));
                assert(diff_old_text(chunks) =~= diff_old_text(chunks.drop_last()));
            },
        }
    }
}

/// When a diff of the expected snapshot into the actual output is shown
/// (the two differ), the expected side shows exactly the expected snapshot
/// and the actual side exactly the actual output: inserted text never
/// appears on the expected side, nor deleted text on the actual side; and
/// what each side highlights is exactly the text only it has.
pub proof fn law_diff_sides_show_their_own_text(expected: Seq<char>, actual: Seq<char>, chunks: Seq<DiffChunk>)
    requires
        diff_old_text(chunks) == expected,
        diff_new_text(chunks) == actual,
        expected != actual,
    ensures
        runs_text(side_runs(chunks, true, expected == actual)) == expected,
        runs_text(side_runs(chunks, actual == expected, true)) == actual,
        unique_text(side_runs(chunks, true, expected == actual)) == diff_changed_text(chunks, true),
        unique_text(side_runs(chunks, actual == expected, true)) == diff_changed_text(chunks, false),
{
    lemma_side_texts(chunks);
    lemma_side_unique_texts(chunks);
}

// ----- the generated bins -----

/// Every case bin of the generated manifest is a case that expanded without
/// error, under its name, at the crate's source directory joined with the
/// case's test path; and every such case has its bin.
#[verifier::spinoff_prover]
pub proof fn law_case_bins_point_into_the_source_dir(source_dir: Seq<char>, tests: Seq<ExpandedTest>)
    ensures
        forall|k: int| #![trigger case_bins(source_dir, tests)[k]] 0 <= k < case_bins(source_dir, tests).len() ==> exists|i: int|
            0 <= i < tests.len() && (#[trigger] tests[i]).error is None && case_bins(source_dir, tests)[k] == (
                tests[i].name.0@,
                std_path_join(source_dir, tests[i].test.path@),
            ),
        forall|i: int| 0 <= i < tests.len() && (#[trigger] tests[i]).error is None ==> exists|k: int|
            0 <= k < case_bins(source_dir, tests).len() && #[trigger] case_bins(source_dir, tests)[k] == (
                tests[i].name.0@,
                std_path_join(source_dir, tests[i].test.path@),
            ),
    decreases tests.len(),
{
    if tests.len() > 0 {
        let init = tests.drop_last();
        law_case_bins_point_into_the_source_dir(source_dir, init);
        let rest = case_bins(source_dir, init);
        let all = case_bins(source_dir, tests);
        let t = tests.last();
        let entry = (t.name.0@, std_path_join(source_dir, t.test.path@));
        if t.error is None {
            assert(all == rest.push(entry));
        } else {
            assert(all == rest);
        }
        assert forall|k: int| #![trigger all[k]] 0 <= k < all.len() implies exists|i: int|
            0 <= i < tests.len() && (#[trigger] tests[i]).error is None && all[k] == (
                tests[i].name.0@,
                std_path_join(source_dir, tests[i].test.path@),
            ) by {
            if k < rest.len() {
                let i = choose|i: int|
                    0 <= i < init.len() && (#[trigger] init[i]).error is None && rest[k] == (
                        init[i].name.0@,
                        std_path_join(source_dir, init[i].test.path@),
                    );
                assert(init[i] == tests[i]);
                assert(all[k] == rest[k]);
            } else {
                let last = tests.len() - 1;
                assert(tests[last] == t);
                assert(t.error is None);
                assert(all == rest.push((t.name.0@, std_path_join(source_dir, t.test.path@))));
                assert(all[k] == (tests[last].name.0@, std_path_join(source_dir, tests[last].test.path@)));
            }
        }
        assert forall|i: int| 0 <= i < tests.len() && (#[trigger] tests[i]).error is None implies exists|k: int|
            0 <= k < all.len() && #[trigger] all[k] == (tests[i].name.0@, std_path_join(source_dir, tests[i].test.path@)) by {
            if i < init.len() {
                assert(init[i] == tests[i]);
                let k = choose|k: int|
                    0 <= k < rest.len() && #[trigger] rest[k] == (init[i].name.0@, std_path_join(source_dir, init[i].test.path@));
                assert(all[k] == rest[k]);
            } else {
                assert(all[all.len() - 1] == (t.name.0@, std_path_join(source_dir, t.test.path@)));
            }
        }
    }
}

// ----- the context of a recorded diagnostic -----

/// The context a registered case's diagnostics are normalized in: the case's
/// bin as the crate name, the project's directories and path dependencies,
/// and the case's registered test path (not cargo's canonical source path)
/// as the input file, so the case's own file keeps its line numbers.
pub open spec fn case_context(paths: ProjectPaths, reg: RegisteredView) -> rules::ContextView {
    rules::ContextView {
        krate: reg.1,
        source_dir: paths.source_dir@,
        workspace: paths.workspace@,
        input_file: reg.2,
        target_dir: paths.target_dir@,
        deps: paths.path_dependencies@.map_values(|d: PathDependency| normalize::dep_view(d)),
    }
}

/// A diagnostic that cargo attributes to a registered case under its own bin
/// (and that is not a `failure-note`) is normalized with the case's test
/// path as the input file, and its variations are appended to the file's
/// stderr: to its entry when it has one, else to a new last entry.
pub proof fn law_diagnostics_recorded_in_the_case_context(
    table: Seq<StderrView>,
    regs: Seq<RegisteredView>,
    paths: ProjectPaths,
    target_name: Seq<char>,
    src_path: Seq<char>,
    level: Seq<char>,
    rendered: Seq<char>,
    i: int,
)
    requires
        level != "failure-note"@,
        last_registered(regs, src_path, regs.len() as int) == Some(i),
        target_name == regs[i].1,
    ensures
        ({
            let r = recorded_message(table, regs, paths, target_name, src_path, level, rendered);
            let normalized = rules::diagnostics(rendered, case_context(paths, regs[i]));
            match entry_of(stderr_key_table(table), src_path, 0) {
                Some(j) => r.len() == table.len() && r[j].2 == concat_snapshots(table[j].2, normalized),
                None => r.len() == table.len() + 1 && r.last().0 == src_path && r.last().2 == concat_snapshots(
                    empty_snapshots(),
                    normalized,
                ),
            }
        }),
{
    let ctx = crate::messages::file_context(paths, regs[i].1, regs[i].2);
    assert(ctx == case_context(paths, regs[i]));
    let keys = stderr_key_table(table);
    lemma_entry_in_range(keys, src_path, 0);
    assert(keys.len() == table.len());
}

proof fn lemma_entry_in_range<V>(t: Seq<(Seq<char>, V)>, path: Seq<char>, start: int)
    requires
        0 <= start,
    ensures
        entry_of(t, path, start) matches Some(j) ==> start <= j < t.len(),
    decreases t.len() - start,
{
    if start < t.len() && !crate::expand::std_paths_equal(t[start].0, path) {
        lemma_entry_in_range(t, path, start + 1);
    }
}

} // verus!
