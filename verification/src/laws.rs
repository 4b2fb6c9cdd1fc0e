//! What holds of the library as a whole: properties of the normalizer, of
//! the runner's decisions, of case expansion and of reading cargo's output,
//! each proved over the spec functions that the operations' contracts use.
use vstd::prelude::*;

use crate::cargo::{dependency_transition, ActionView, DependencyStep, EventView};
use crate::expand::{std_paths_equal, bin_name_of, expanded, inserted, inserted_all, path_views, Expansion};
use crate::manifest::{index_of, lemma_index_of_found, merged, table_extend, table_insert};
use crate::messages::{concat_snapshots, empty_snapshots, message_mark, scan};
use crate::rules;
use crate::runner::{
    aggregated, compile_fail_reconciled, count_of, kept, selects, CaseStatus, Reconciliation, Snapshot,
};
use crate::text;
use crate::update::{parsed_update, Update};
use crate::errors::RunnerError;
use crate::model::Test;

verus! {

proof fn lemma_trailing_ws(s: Seq<char>)
    ensures
        0 <= text::trailing_ws(s) <= s.len(),
        text::trailing_ws(s) < s.len() ==> !text::is_ws(s[s.len() - 1 - text::trailing_ws(s)]),
        forall|j: int| s.len() - text::trailing_ws(s) <= j < s.len() ==> text::is_ws(#[trigger] s[j]),
    decreases s.len(),
{
    if s.len() > 0 && text::is_ws(s.last()) {
        lemma_trailing_ws(s.drop_last());
        assert forall|j: int| s.len() - text::trailing_ws(s) <= j < s.len() implies text::is_ws(#[trigger] s[j]) by {
            if j < s.len() - 1 {
                assert(s[j] == s.drop_last()[j]);
            }
        }
        if text::trailing_ws(s) < s.len() {
            assert(s[s.len() - 1 - text::trailing_ws(s)] == s.drop_last()[s.drop_last().len() - 1
                - text::trailing_ws(s.drop_last())]);
        }
    }
}

proof fn lemma_trim_end_shape(s: Seq<char>)
    ensures
        text::trim_end(s).len() > 0 ==> !text::is_ws(text::trim_end(s).last()),
        text::trim_end(s).len() <= s.len(),
{
    lemma_trailing_ws(s);
}

/// Normalized output is either empty or ends with exactly one newline, with
/// no whitespace before it: trailing whitespace is removed and a single
/// newline put back.
pub proof fn law_trim_shape(s: Seq<char>)
    ensures
        rules::trim(s).len() == 0 || (rules::trim(s).len() >= 2 && rules::trim(s).last() == '\n'
            && !text::is_ws(rules::trim(s)[rules::trim(s).len() - 2])),
{
    lemma_trim_end_shape(s);
    let t = text::trim_end(s);
    if t.len() > 0 {
        assert(rules::trim(s)[rules::trim(s).len() - 2] == t.last());
    }
}

/// Trimming twice is trimming once.
pub proof fn law_trim_idempotent(s: Seq<char>)
    ensures
        rules::trim(rules::trim(s)) == rules::trim(s),
{
    lemma_trim_end_shape(s);
    let t = text::trim_end(s);
    if t.len() > 0 {
        let u = t.push('\n');
        assert(text::is_ws('\n'));
        assert(u.drop_last() == t);
        assert(text::trailing_ws(t) == 0);
        assert(text::trailing_ws(u) == 1);
        assert(text::trim_end(u) == u.take(u.len() - 1));
        assert(u.take(u.len() - 1) =~= t);
    } else {
        assert(text::trailing_ws(t) == 0);
        assert(text::trim_end(t) =~= t);
    }
}

/// Every variation of a diagnostic is already trimmed: it is empty or ends
/// in exactly one newline.
pub proof fn law_variations_are_trimmed(output: Seq<char>, ctx: rules::ContextView, i: int)
    requires
        0 <= i < rules::STEPS,
    ensures
        rules::diagnostics(output, ctx).len() == rules::STEPS,
        rules::trim(rules::diagnostics(output, ctx)[i]) == rules::diagnostics(output, ctx)[i],
{
    let input = text::replace_all(output, "\r\n"@, "\n"@);
    let inner = rules::unindent(
        rules::filter_from(text::lines(input), 0, i, ctx, rules::initial_state(), Seq::empty()),
        i,
    );
    law_trim_idempotent(inner);
}

/// Output with Windows line endings normalizes as the same output with
/// `\n` line endings: reading `\r\n` as `\n` once more changes no
/// variation. This holds wherever that reading leaves no `\r\r\n` behind;
/// there a line keeps a `\r` that a second reading would remove.
pub proof fn law_crlf_reads_as_lf(output: Seq<char>, ctx: rules::ContextView)
    requires
        text::no_double_cr_before_lf(text::replace_all(output, "\r\n"@, "\n"@)),
    ensures
        rules::diagnostics(output, ctx) == rules::diagnostics(text::replace_all(output, "\r\n"@, "\n"@), ctx),
{
    reveal_strlit("\r\n");
    let once = text::replace_all(output, "\r\n"@, "\n"@);
    text::lemma_lines_read_crlf(once);
    assert(text::lines(text::replace_all(once, "\r\n"@, "\n"@)) == text::lines(once));
    assert(rules::diagnostics(output, ctx) =~= rules::diagnostics(once, ctx));
}

/// A build that printed no diagnostic has an empty rendering at every step.
pub proof fn law_no_output_no_diagnostics(ctx: rules::ContextView, i: int)
    requires
        0 <= i < rules::STEPS,
    ensures
        rules::diagnostics(Seq::empty(), ctx)[i] == Seq::<char>::empty(),
{
    reveal_strlit("\r\n");
    let e = Seq::<char>::empty();
    assert(text::replace_all(e, "\r\n"@, "\n"@) == e);
    assert(text::lines(e) == Seq::<Seq<char>>::empty());
    assert(rules::filter_from(text::lines(e), 0, i, ctx, rules::initial_state(), e) == e);
    assert(text::lines(e) =~= Seq::<Seq<char>>::empty());
    assert(rules::unindent_from(text::lines(e), 0, i, e) == e);
    assert(rules::unindent(e, i) == e);
    assert(text::trailing_ws(e) == 0);
    assert(text::trim_end(e) =~= e);
}

/// Joining the variations of a diagnostic that printed nothing onto others
/// leaves them unchanged, on either side.
pub proof fn law_concat_empty(a: Seq<Seq<char>>)
    requires
        a.len() == rules::STEPS,
    ensures
        concat_snapshots(a, empty_snapshots()) == a,
        concat_snapshots(empty_snapshots(), a) == a,
{
    assert(concat_snapshots(a, empty_snapshots()) =~= a);
    assert(concat_snapshots(empty_snapshots(), a) =~= a);
}

/// Under `Verify` a `compile_fail` case writes nothing: it ends without any
/// snapshot being created or overwritten.
pub proof fn law_verify_writes_nothing(
    r: Reconciliation,
    test_path: Seq<char>,
    success: bool,
    build_stdout: Seq<char>,
    variations: Seq<Seq<char>>,
    snapshot: Snapshot,
)
    requires
        compile_fail_reconciled(r, test_path, success, build_stdout, variations, Update::Verify, snapshot),
    ensures
        r is Done,
{
}

/// Under `Wip` a saved snapshot is never overwritten.
pub proof fn law_wip_keeps_saved_snapshots(
    r: Reconciliation,
    test_path: Seq<char>,
    success: bool,
    build_stdout: Seq<char>,
    variations: Seq<Seq<char>>,
    snapshot: Snapshot,
)
    requires
        compile_fail_reconciled(r, test_path, success, build_stdout, variations, Update::Wip, snapshot),
    ensures
        !(r is Overwrite),
{
}

/// Under `Overwrite` a `compile_fail` case that failed to build is never
/// reported as a missing or mismatched snapshot.
pub proof fn law_overwrite_accepts_new_output(
    r: Reconciliation,
    test_path: Seq<char>,
    build_stdout: Seq<char>,
    variations: Seq<Seq<char>>,
    snapshot: Snapshot,
)
    requires
        compile_fail_reconciled(r, test_path, false, build_stdout, variations, Update::Overwrite, snapshot),
    ensures
        !(r matches Reconciliation::Done(Err(_))),
{
}

/// A `compile_fail` case passes only when it failed to build and its saved
/// snapshot equals one of the variations.
pub proof fn law_pass_needs_matching_snapshot(
    r: Reconciliation,
    test_path: Seq<char>,
    success: bool,
    build_stdout: Seq<char>,
    variations: Seq<Seq<char>>,
    update: Update,
    snapshot: Snapshot,
)
    requires
        compile_fail_reconciled(r, test_path, success, build_stdout, variations, update, snapshot),
        r matches Reconciliation::Done(Ok(_)),
    ensures
        !success,
        snapshot matches Snapshot::Saved(saved) && variations.contains(
            text::replace_all(saved@, "\r\n"@, "\n"@),
        ),
{
}

/// A `compile_fail` case that compiles is a failure, whatever the mode and
/// the snapshot.
pub proof fn law_compiling_compile_fail_case_fails(
    r: Reconciliation,
    test_path: Seq<char>,
    build_stdout: Seq<char>,
    variations: Seq<Seq<char>>,
    update: Update,
    snapshot: Snapshot,
)
    requires
        compile_fail_reconciled(r, test_path, true, build_stdout, variations, update, snapshot),
    ensures
        r matches Reconciliation::Done(Err(crate::errors::DiagnosticsError::ShouldNotHaveCompiled(_))),
{
}

/// A `compile_fail` case that fails to compile and whose saved snapshot
/// matches one of the variations passes, whatever the mode.
pub proof fn law_matching_snapshot_passes(
    r: Reconciliation,
    test_path: Seq<char>,
    build_stdout: Seq<char>,
    variations: Seq<Seq<char>>,
    update: Update,
    saved: String,
)
    requires
        compile_fail_reconciled(r, test_path, false, build_stdout, variations, update, Snapshot::Saved(saved)),
        variations.contains(text::replace_all(saved@, "\r\n"@, "\n"@)),
    ensures
        r matches Reconciliation::Done(Ok(o)) && crate::runner::quiet_pass(o),
{
}

/// By default (`Wip`), a missing snapshot is written under `wip/` with the
/// preferred rendering, and the saved location is reported for moving it.
pub proof fn law_missing_snapshot_goes_to_wip(
    r: Reconciliation,
    test_path: Seq<char>,
    build_stdout: Seq<char>,
    variations: Seq<Seq<char>>,
)
    requires
        compile_fail_reconciled(r, test_path, false, build_stdout, variations, Update::Wip, Snapshot::Missing),
    ensures
        r matches Reconciliation::WriteWip(w) && w.stderr@ == variations[rules::STEPS - 1]
            && w.wip_path@ == crate::runner::wip_path_of(crate::runner::stderr_path_of(test_path))
            && w.stderr_path@ == crate::runner::stderr_path_of(test_path),
{
}

/// Under `Overwrite`, a case whose snapshot is missing or does not match
/// writes the preferred rendering in place of the snapshot.
pub proof fn law_overwrite_writes_in_place(
    r: Reconciliation,
    test_path: Seq<char>,
    build_stdout: Seq<char>,
    variations: Seq<Seq<char>>,
    snapshot: Snapshot,
)
    requires
        compile_fail_reconciled(r, test_path, false, build_stdout, variations, Update::Overwrite, snapshot),
        match snapshot {
            Snapshot::Missing => true,
            Snapshot::Saved(saved) => !variations.contains(text::replace_all(saved@, "\r\n"@, "\n"@)),
        },
    ensures
        r matches Reconciliation::Overwrite(o) && o.stderr@ == variations[rules::STEPS - 1]
            && o.stderr_path@ == crate::runner::stderr_path_of(test_path),
{
}

proof fn lemma_count_zero(s: Seq<CaseStatus>, k: CaseStatus)
    ensures
        count_of(s, k) == 0 <==> forall|i: int| 0 <= i < s.len() ==> s[i] != k,
    decreases s.len(),
{
    if s.len() > 0 {
        lemma_count_zero(s.drop_last(), k);
        if count_of(s, k) == 0 {
            assert forall|i: int| 0 <= i < s.len() implies s[i] != k by {
                if i < s.len() - 1 {
                    assert(s[i] == s.drop_last()[i]);
                }
            }
        } else if s.last() != k {
            let j = choose|j: int| 0 <= j < s.drop_last().len() && s.drop_last()[j] == k;
            assert(s[j] == k);
        }
    }
}

/// A run succeeds exactly when no case failed and no case created a new
/// `wip` snapshot.
pub proof fn law_run_succeeds_iff_all_settled(cases: Seq<CaseStatus>)
    ensures
        aggregated(cases) is Ok <==> forall|i: int|
            0 <= i < cases.len() ==> cases[i] != CaseStatus::Failed && cases[i] != CaseStatus::CreatedWip,
{
    lemma_count_zero(cases, CaseStatus::Failed);
    lemma_count_zero(cases, CaseStatus::CreatedWip);
}

/// A run succeeds exactly when every case passed or overwrote its
/// snapshot: any error, and any newly created `wip` snapshot, fails it.
pub proof fn law_run_succeeds_iff_every_case_settled<E>(outcomes: Seq<Result<crate::outcome::Outcome, E>>)
    ensures
        aggregated(outcomes.map_values(|o: Result<crate::outcome::Outcome, E>| crate::runner::status_of_outcome(o)))
            is Ok <==> forall|i: int|
            0 <= i < outcomes.len() ==> (#[trigger] outcomes[i] matches Ok(crate::outcome::Outcome::Passed(_))
                || outcomes[i] matches Ok(crate::outcome::Outcome::Overwrote(_))),
{
    let statuses = outcomes.map_values(|o: Result<crate::outcome::Outcome, E>| crate::runner::status_of_outcome(o));
    law_run_succeeds_iff_all_settled(statuses);
    assert forall|i: int| 0 <= i < outcomes.len() implies (statuses[i] != CaseStatus::Failed && statuses[i]
        != CaseStatus::CreatedWip) == (#[trigger] outcomes[i] matches Ok(crate::outcome::Outcome::Passed(_))
        || outcomes[i] matches Ok(crate::outcome::Outcome::Overwrote(_))) by {
        assert(statuses[i] == crate::runner::status_of_outcome(outcomes[i]));
    }
}

/// Failures take precedence: when any case failed, the run reports how many
/// did and how many ran, whatever snapshots were created.
pub proof fn law_failures_take_precedence(cases: Seq<CaseStatus>, i: int)
    requires
        0 <= i < cases.len(),
        cases[i] == CaseStatus::Failed,
    ensures
        aggregated(cases) matches Err((true, failures, total)) && failures >= 1 && total == cases.len(),
{
    lemma_count_zero(cases, CaseStatus::Failed);
}

/// The name that selects an update mode through `TRYBUILD`.
pub open spec fn update_name(u: Update) -> Seq<char> {
    match u {
        Update::Verify => "verify"@,
        Update::Wip => "wip"@,
        Update::Overwrite => "overwrite"@,
    }
}

/// Each mode is selected by its own name, and leaving `TRYBUILD` unset
/// selects `Wip`.
pub proof fn law_update_names_select_their_mode(u: Update)
    ensures
        parsed_update(Some(update_name(u))) == Some(u),
        parsed_update(None) == Some(Update::Wip),
{
    reveal_strlit("verify");
    reveal_strlit("wip");
    reveal_strlit("overwrite");
    assert("wip"@.len() != "verify"@.len());
    assert("overwrite"@.len() != "verify"@.len());
    assert("overwrite"@.len() != "wip"@.len());
}

/// Whether every entry is named after its position.
pub open spec fn named_by_position(s: Seq<Expansion>) -> bool {
    forall|i: int| 0 <= i < s.len() ==> (#[trigger] s[i]).name == bin_name_of(i as nat)
}

proof fn lemma_inserted_named(
    s: Seq<Expansion>,
    path: Seq<char>,
    expected: crate::model::Expected,
    error: Option<RunnerError>,
    is_from_glob: bool,
)
    requires
        named_by_position(s),
    ensures
        named_by_position(inserted(s, path, expected, error, is_from_glob)),
        inserted(s, path, expected, error, is_from_glob).len() >= s.len(),
{
    let r = inserted(s, path, expected, error, is_from_glob);
    lemma_last_with_path_range(s, path, s.len() as int);
    match crate::expand::last_with_path_before(s, path, s.len() as int) {
        Some(k) if s[k].is_from_glob => {
            assert forall|i: int| 0 <= i < r.len() implies (#[trigger] r[i]).name == bin_name_of(i as nat) by {
                assert(r[i].name == s[i].name);
            }
        },
        _ => {
            assert forall|i: int| 0 <= i < r.len() implies (#[trigger] r[i]).name == bin_name_of(i as nat) by {
                if i < s.len() {
                    assert(r[i] == s[i]);
                }
            }
        },
    }
}

proof fn lemma_last_with_path_range(s: Seq<Expansion>, path: Seq<char>, end: int)
    requires
        end <= s.len(),
    ensures
        crate::expand::last_with_path_before(s, path, end) matches Some(k) ==> 0 <= k < end,
    decreases end,
{
    if end > 0 {
        lemma_last_with_path_range(s, path, end - 1);
    }
}

proof fn lemma_inserted_all_named(s: Seq<Expansion>, paths: Seq<Seq<char>>, expected: crate::model::Expected)
    requires
        named_by_position(s),
    ensures
        named_by_position(inserted_all(s, paths, expected)),
    decreases paths.len(),
{
    if paths.len() > 0 {
        lemma_inserted_all_named(s, paths.drop_last(), expected);
        lemma_inserted_named(inserted_all(s, paths.drop_last(), expected), paths.last(), expected, None, true);
    }
}

/// Every expanded case is built as the bin named after its position in the
/// expansion (`trybuild000`, `trybuild001`, ...): an explicit registration
/// that takes over a glob match keeps the match's name.
pub proof fn law_expanded_cases_named_by_position(
    tests: Seq<Test>,
    globbed: Seq<Option<Result<Vec<String>, RunnerError>>>,
)
    ensures
        named_by_position(expanded(tests, globbed)),
    decreases tests.len(),
{
    if tests.len() > 0 {
        let before = expanded(tests.drop_last(), globbed);
        law_expanded_cases_named_by_position(tests.drop_last(), globbed);
        let case = tests.last();
        match crate::expand::listing(globbed, tests.len() - 1) {
            Some(Ok(paths)) => {
                lemma_inserted_all_named(before, crate::expand::std_sorted_paths(path_views(paths@)), case.expected);
                lemma_inserted_named(before, case.path@, case.expected, None, false);
            },
            Some(Err(e)) => {
                lemma_inserted_named(before, case.path@, case.expected, Some(e), false);
                lemma_inserted_named(before, case.path@, case.expected, None, false);
            },
            None => {
                lemma_inserted_named(before, case.path@, case.expected, None, false);
            },
        }
    }
}

/// The number a digit character stands for.
pub open spec fn digit_value(c: char) -> nat {
    if c == '1' { 1 }
    else if c == '2' { 2 }
    else if c == '3' { 3 }
    else if c == '4' { 4 }
    else if c == '5' { 5 }
    else if c == '6' { 6 }
    else if c == '7' { 7 }
    else if c == '8' { 8 }
    else if c == '9' { 9 }
    else { 0 }
}

/// The number a string of digits stands for.
pub open spec fn decimal_value(s: Seq<char>) -> nat
    decreases s.len(),
{
    if s.len() == 0 {
        0
    } else {
        decimal_value(s.drop_last()) * 10 + digit_value(s.last())
    }
}

proof fn lemma_decimal_value(n: nat)
    ensures
        decimal_value(crate::expand::decimal(n)) == n,
    decreases n,
{
    let d = crate::expand::decimal(n);
    if n < 10 {
        assert(d.drop_last() =~= Seq::<char>::empty());
    } else {
        lemma_decimal_value(n / 10);
        assert(d.drop_last() == crate::expand::decimal(n / 10));
        assert((n / 10) * 10 + n % 10 == n) by (nonlinear_arith);
    }
}

proof fn lemma_leading_zeros(k: nat, s: Seq<char>)
    ensures
        decimal_value(Seq::new(k, |i: int| '0') + s) == decimal_value(s),
    decreases s.len(),
{
    let z = Seq::new(k, |i: int| '0');
    if s.len() == 0 {
        assert(z + s =~= z);
        lemma_zeros_value(k);
    } else {
        lemma_leading_zeros(k, s.drop_last());
        assert((z + s).drop_last() =~= z + s.drop_last());
        assert((z + s).last() == s.last());
    }
}

proof fn lemma_zeros_value(k: nat)
    ensures
        decimal_value(Seq::new(k, |i: int| '0')) == 0,
    decreases k,
{
    if k > 0 {
        lemma_zeros_value((k - 1) as nat);
        assert(Seq::new(k, |i: int| '0').drop_last() =~= Seq::new((k - 1) as nat, |i: int| '0'));
    }
}

proof fn lemma_padded_value(n: nat)
    ensures
        decimal_value(crate::expand::padded3(n)) == n,
{
    lemma_decimal_value(n);
    let d = crate::expand::decimal(n);
    if d.len() < 3 {
        lemma_leading_zeros((3 - d.len()) as nat, d);
    }
}

proof fn lemma_decimal_shape(n: nat)
    ensures
        text::all_digits(crate::expand::decimal(n)),
        crate::expand::decimal(n).len() >= 1,
        n >= 1 ==> crate::expand::decimal(n)[0] != '0',
        n < 10 ==> crate::expand::decimal(n).len() == 1,
        n < 100 ==> crate::expand::decimal(n).len() <= 2,
        n < 1000 ==> crate::expand::decimal(n).len() <= 3,
        n >= 10 ==> crate::expand::decimal(n).len() >= 2,
        n >= 100 ==> crate::expand::decimal(n).len() >= 3,
        n >= 1000 ==> crate::expand::decimal(n).len() > 3,
    decreases n,
{
    let d = crate::expand::decimal(n);
    if n >= 10 {
        lemma_decimal_shape(n / 10);
        let e = crate::expand::decimal(n / 10);
        assert(d == e.push(crate::expand::digit(n % 10)));
        assert(d[0] == e[0]);
        assert forall|i: int| 0 <= i < d.len() implies text::is_digit(#[trigger] d[i]) by {
            if i < e.len() {
                assert(d[i] == e[i]);
            }
        }
    }
}

/// The bin name of the case at position `n` is `trybuild` followed by `n`
/// in decimal, zero-padded to three digits (what `format!("trybuild{:03}",
/// n)` writes): only digits, standing for `n`, at least three of them, and
/// no leading zero beyond the padding.
pub proof fn law_bin_name_format(n: nat)
    ensures
        bin_name_of(n) == "trybuild"@ + crate::expand::padded3(n),
        text::all_digits(crate::expand::padded3(n)),
        decimal_value(crate::expand::padded3(n)) == n,
        crate::expand::padded3(n).len() >= 3,
        n < 1000 ==> crate::expand::padded3(n).len() == 3,
        crate::expand::padded3(n).len() > 3 ==> crate::expand::padded3(n)[0] != '0',
{
    lemma_padded_value(n);
    lemma_decimal_shape(n);
    let d = crate::expand::decimal(n);
    let p = crate::expand::padded3(n);
    if d.len() < 3 {
        let z = Seq::new((3 - d.len()) as nat, |i: int| '0');
        assert(p == z + d);
        assert forall|i: int| 0 <= i < p.len() implies text::is_digit(#[trigger] p[i]) by {
            if i >= z.len() {
                assert(p[i] == d[i - z.len()]);
            }
        }
    }
}

/// The i-th expanded case is named `trybuild` and its position, zero-padded
/// to three digits: `trybuild000`, `trybuild001`, and so on.
pub proof fn law_expanded_case_names(
    tests: Seq<Test>,
    globbed: Seq<Option<Result<Vec<String>, RunnerError>>>,
    i: int,
)
    requires
        0 <= i < expanded(tests, globbed).len(),
    ensures
        expanded(tests, globbed)[i].name == "trybuild"@ + crate::expand::padded3(i as nat),
        text::all_digits(crate::expand::padded3(i as nat)),
        decimal_value(crate::expand::padded3(i as nat)) == i,
        i < 1000 ==> crate::expand::padded3(i as nat).len() == 3,
{
    law_expanded_cases_named_by_position(tests, globbed);
    law_bin_name_format(i as nat);
}

/// Distinct positions get distinct bin names.
pub proof fn law_bin_names_distinct(i: nat, j: nat)
    requires
        i != j,
    ensures
        bin_name_of(i) != bin_name_of(j),
{
    lemma_padded_value(i);
    lemma_padded_value(j);
    if bin_name_of(i) == bin_name_of(j) {
        reveal_strlit("trybuild");
        assert(bin_name_of(i).skip(8) =~= crate::expand::padded3(i));
        assert(bin_name_of(j).skip(8) =~= crate::expand::padded3(j));
    }
}

/// No two expanded cases share a bin name, so the generated manifest never
/// declares the same bin twice.
pub proof fn law_expanded_bin_names_unique(
    tests: Seq<Test>,
    globbed: Seq<Option<Result<Vec<String>, RunnerError>>>,
    i: int,
    j: int,
)
    requires
        0 <= i < j < expanded(tests, globbed).len(),
    ensures
        expanded(tests, globbed)[i].name != expanded(tests, globbed)[j].name,
{
    law_expanded_cases_named_by_position(tests, globbed);
    law_bin_names_distinct(i as nat, j as nat);
}

/// Filtering keeps only cases whose path contains one of the fragments, and
/// never adds any.
pub proof fn law_filter_keeps_only_selected(tests: Seq<crate::expand::ExpandedTest>, fragments: Seq<Seq<char>>)
    ensures
        kept(tests, fragments).len() <= tests.len(),
        forall|i: int|
            0 <= i < kept(tests, fragments).len() ==> selects(fragments, (#[trigger] kept(tests, fragments)[i]).test.path@),
    decreases tests.len(),
{
    if tests.len() > 0 {
        law_filter_keeps_only_selected(tests.drop_last(), fragments);
        let k = kept(tests, fragments);
        let prev = kept(tests.drop_last(), fragments);
        assert forall|i: int| 0 <= i < k.len() implies selects(fragments, (#[trigger] k[i]).test.path@) by {
            if i < prev.len() {
                assert(k[i] == prev[i]);
            }
        }
    }
}

proof fn lemma_scan_distinct(rem: Seq<char>, seen: Seq<Seq<char>>)
    ensures
        forall|i: int| 0 <= i < scan(rem, seen).0.len() ==> !seen.contains(#[trigger] scan(rem, seen).0[i]),
        forall|i: int, j: int|
            0 <= i < j < scan(rem, seen).0.len() ==> #[trigger] scan(rem, seen).0[i] != #[trigger] scan(rem, seen).0[j],
        forall|i: int|
            0 <= i < scan(rem, seen).0.len() ==> text::starts_with(#[trigger] scan(rem, seen).0[i], message_mark()),
    decreases rem.len(),
{
    if rem.len() > 0 {
        match text::find(rem, message_mark()) {
            None => {},
            Some(b) => {
                let rest = rem.skip(b);
                let len = crate::messages::line_len(rest);
                if !(b < 0 || len <= 0 || b + len > rem.len()) {
                    let line = rest.take(len);
                    let fresh = !seen.contains(line);
                    let seen2 = if fresh { seen.push(line) } else { seen };
                    lemma_scan_distinct(rest.skip(len), seen2);
                    let after = scan(rest.skip(len), seen2);
                    let out = scan(rem, seen).0;
                    text::lemma_find_from_found(rem, message_mark(), 0);
                    reveal_strlit("{\"reason\":");
                    assert(text::starts_with(line, message_mark())) by {
                        let m = message_mark();
                        assert(rem.subrange(b, b + m.len()) == m);
                        assert(forall|q: int| 0 <= q < m.len() ==> rest[q] == #[trigger] m[q]) by {
                            assert forall|q: int| 0 <= q < m.len() implies rest[q] == #[trigger] m[q] by {
                                assert(rem.subrange(b, b + m.len())[q] == rem[b + q]);
                            }
                        }
                        text::lemma_find_char_found(rest, '\n', 0);
                        assert(len >= m.len()) by {
                            match text::find_char(rest, '\n') {
                                Some(e) => {
                                    if e < m.len() {
                                        assert(rest[e] == m[e]);
                                    }
                                },
                                None => {},
                            }
                        }
                        assert(line.take(m.len() as int) =~= m);
                    }
                    if fresh {
                        assert(out == seq![line] + after.0);
                        assert forall|i: int| 0 <= i < after.0.len() implies !seen.contains(#[trigger] after.0[i])
                            && after.0[i] != line by {
                            assert(!seen2.contains(after.0[i]));
                            if seen.contains(after.0[i]) {
                                let k = choose|k: int| 0 <= k < seen.len() && seen[k] == after.0[i];
                                assert(seen2[k] == after.0[i]);
                            }
                            assert(seen2[seen.len() as int] == line);
                        }
                        assert forall|i: int| 0 <= i < out.len() implies !seen.contains(#[trigger] out[i]) by {
                            if i > 0 {
                                assert(out[i] == after.0[i - 1]);
                            }
                        }
                        assert forall|i: int, j: int| 0 <= i < j < out.len() implies #[trigger] out[i] != #[trigger] out[j] by {
                            assert(out[j] == after.0[j - 1]);
                            if i > 0 {
                                assert(out[i] == after.0[i - 1]);
                            }
                        }
                        assert forall|i: int| 0 <= i < out.len() implies text::starts_with(#[trigger] out[i], message_mark()) by {
                            if i > 0 {
                                assert(out[i] == after.0[i - 1]);
                            }
                        }
                    }
                }
            },
        }
    }
}

/// Each JSON message line cargo printed is read once: no two kept lines are
/// equal, and each starts with the message mark.
pub proof fn law_messages_read_once(stdout: Seq<char>)
    ensures
        forall|i: int, j: int|
            0 <= i < j < scan(stdout, Seq::empty()).0.len() ==> #[trigger] scan(stdout, Seq::empty()).0[i]
                != #[trigger] scan(stdout, Seq::empty()).0[j],
        forall|i: int|
            0 <= i < scan(stdout, Seq::empty()).0.len() ==> text::starts_with(
                #[trigger] scan(stdout, Seq::empty()).0[i],
                message_mark(),
            ),
{
    lemma_scan_distinct(stdout, Seq::empty());
}

/// An `error` diagnostic that cargo attributed to a registered file, under
/// that file's own bin, marks the file as having failed to compile.
pub proof fn law_error_marks_failure(
    table: Seq<crate::messages::StderrView>,
    regs: Seq<crate::messages::RegisteredView>,
    paths: crate::messages::ProjectPaths,
    src_path: Seq<char>,
    rendered: Seq<char>,
    i: int,
)
    requires
        crate::messages::last_registered(regs, src_path, regs.len() as int) == Some(i),
    ensures
        ({
            let after = crate::messages::recorded_message(table, regs, paths, regs[i].1, src_path, "error"@, rendered);
            exists|j: int|
                0 <= j < after.len() && !(#[trigger] after[j]).1 && (after[j].0 == src_path || std_paths_equal(
                    after[j].0,
                    src_path,
                ))
        }),
{
    reveal_strlit("error");
    reveal_strlit("failure-note");
    assert("error"@ != "failure-note"@) by {
        assert("error"@.len() != "failure-note"@.len());
    }
    let after = crate::messages::recorded_message(table, regs, paths, regs[i].1, src_path, "error"@, rendered);
    let keyed = crate::messages::stderr_key_table(table);
    lemma_entry_of_found(keyed, src_path, 0);
    match crate::messages::entry_of(keyed, src_path, 0) {
        Some(j) => {
            assert(keyed[j].0 == table[j].0);
            assert(!after[j].1);
        },
        None => {
            assert(!after[table.len() as int].1);
        },
    }
}

proof fn lemma_entry_of_found<V>(t: Seq<(Seq<char>, V)>, path: Seq<char>, start: int)
    ensures
        crate::messages::entry_of(t, path, start) matches Some(j) ==> start <= j < t.len() && std_paths_equal(
            t[j].0,
            path,
        ),
    decreases t.len() - start,
{
    if 0 <= start < t.len() && !std_paths_equal(t[start].0, path) {
        lemma_entry_of_found(t, path, start + 1);
    }
}

proof fn lemma_index_of_first<V>(t: Seq<(Seq<char>, V)>, k: Seq<char>, i: int, start: int)
    requires
        0 <= start <= i < t.len(),
        t[i].0 == k,
        forall|j: int| start <= j < i ==> (#[trigger] t[j]).0 != k,
    ensures
        index_of(t, k, start) == Some(i),
    decreases i - start,
{
    if start < i {
        lemma_index_of_first(t, k, i, start + 1);
    }
}

/// After inserting `v` under `k`, `k` names `v`.
pub proof fn law_table_insert_then_lookup<V>(t: Seq<(Seq<char>, V)>, k: Seq<char>, v: V)
    ensures
        index_of(table_insert(t, k, v), k, 0) matches Some(i) && table_insert(t, k, v)[i].1 == v,
{
    lemma_index_of_found(t, k, 0);
    let r = table_insert(t, k, v);
    match index_of(t, k, 0) {
        Some(i) => {
            assert forall|j: int| 0 <= j < i implies (#[trigger] r[j]).0 != k by {
                assert(r[j] == t[j]);
            }
            lemma_index_of_first(r, k, i, 0);
        },
        None => {
            assert forall|j: int| 0 <= j < t.len() implies (#[trigger] r[j]).0 != k by {
                assert(r[j] == t[j]);
            }
            lemma_index_of_first(r, k, t.len() as int, 0);
        },
    }
}

/// A crate with a library target is a dependency of its generated project,
/// under its own name, whatever its own tables held under that name.
pub proof fn law_library_crate_depends_on_itself<D>(
    crate_name: Seq<char>,
    self_dependency: D,
    dependencies: Seq<(Seq<char>, D)>,
    dev_dependencies: Seq<(Seq<char>, D)>,
)
    ensures
        ({
            let m = merged(crate_name, self_dependency, dependencies, dev_dependencies, true);
            index_of(m, crate_name, 0) matches Some(i) && m[i].1 == self_dependency
        }),
{
    law_table_insert_then_lookup(
        table_extend(table_extend(Seq::empty(), dependencies), dev_dependencies),
        crate_name,
        self_dependency,
    );
}

/// A failed dependency build ends the preparation of the generated
/// project: the failure carries cargo's stderr, and whatever is reported
/// afterwards, no further cargo invocation (no probe, no clean) follows.
pub proof fn law_failed_dependency_build_stops(
    stderr: Seq<char>,
    later: EventView,
    selected: crate::runner::Selected,
    target: Seq<Seq<char>>,
    project_name: Seq<char>,
    features: Seq<Seq<char>>,
)
    ensures
        dependency_transition(
            DependencyStep::Building,
            EventView::Exited(false, stderr),
            selected,
            target,
            project_name,
            features,
        ) == (DependencyStep::Stopped, ActionView::FailDependencyBuild(stderr)),
        dependency_transition(DependencyStep::Stopped, later, selected, target, project_name, features) == (
            DependencyStep::Stopped,
            ActionView::Nothing,
        ),
{
}

} // verus!
