//! Expanding the registered glob patterns into concrete, uniquely named test
//! cases, deduplicating paths so an explicit registration overrides a glob
//! match.
use vstd::prelude::*;

use crate::chars;
use crate::errors::RunnerError;
use crate::model::{Expected, Name, Test};
use crate::text;

verus! {

/// Whether two paths are equal as `Path`s (component by component).
pub uninterp spec fn std_paths_equal(a: Seq<char>, b: Seq<char>) -> bool;

/// Compares two paths with `Path`'s `==`. Trusted: the result is the named
/// comparison of the two arguments.
#[verifier::external_body]
pub(crate) fn same_path(a: &str, b: &str) -> (r: bool)
    ensures
        r == std_paths_equal(a@, b@),
{
    std::path::Path::new(a) == std::path::Path::new(b)
}

/// Whether path `a` orders before path `b` under `Path`'s `Ord`: component
/// by component.
pub uninterp spec fn std_path_lt(a: Seq<char>, b: Seq<char>) -> bool;

/// What sorting a list of paths as `PathBuf`s gives (`slice::sort`, a
/// stable sort by `Path`'s `Ord`).
pub uninterp spec fn std_sorted_paths(paths: Seq<Seq<char>>) -> Seq<Seq<char>>;

/// Whether no path in the list orders before one that comes earlier.
pub open spec fn ascending(paths: Seq<Seq<char>>) -> bool {
    forall|j: int, k: int| 0 <= j < k < paths.len() ==> !std_path_lt(#[trigger] paths[k], #[trigger] paths[j])
}

/// Sorts paths with `slice::sort` on `PathBuf`. Trusted: the result is the
/// named sort of the argument, holds the same paths, and is in ascending
/// order, as `slice::sort` documents.
#[verifier::external_body]
pub(crate) fn sort_paths(paths: Vec<String>) -> (r: Vec<String>)
    ensures
        path_views(r@) == std_sorted_paths(path_views(paths@)),
        path_views(r@).to_multiset() == path_views(paths@).to_multiset(),
        forall|j: int, k: int|
            0 <= j < k < r@.len() ==> !std_path_lt(#[trigger] r@[k]@, #[trigger] r@[j]@),
{
    let mut v: Vec<std::path::PathBuf> = paths.into_iter().map(std::path::PathBuf::from).collect();
    v.sort();
    v.into_iter().map(|p| p.to_string_lossy().into_owned()).collect()
}

/// The decimal digit `d` as a character.
pub open spec fn digit(d: nat) -> char {
    if d == 0 { '0' }
    else if d == 1 { '1' }
    else if d == 2 { '2' }
    else if d == 3 { '3' }
    else if d == 4 { '4' }
    else if d == 5 { '5' }
    else if d == 6 { '6' }
    else if d == 7 { '7' }
    else if d == 8 { '8' }
    else { '9' }
}

/// The decimal rendering of `n`, without leading zeros.
pub open spec fn decimal(n: nat) -> Seq<char>
    decreases n,
{
    if n < 10 {
        seq![digit(n)]
    } else {
        decimal(n / 10).push(digit(n % 10))
    }
}

/// The decimal rendering of `n`, zero-padded to at least three digits.
pub open spec fn padded3(n: nat) -> Seq<char> {
    let d = decimal(n);
    if d.len() >= 3 {
        d
    } else {
        Seq::new((3 - d.len()) as nat, |i: int| '0') + d
    }
}

/// The generated bin name of the case at `index`: `trybuild` and the index
/// zero-padded to three digits (`trybuild007`).
pub open spec fn bin_name_of(index: nat) -> Seq<char> {
    "trybuild"@ + padded3(index)
}

fn digit_char(d: usize) -> (c: char)
    requires
        d < 10,
    ensures
        c == digit(d as nat),
{
    if d == 0 { '0' }
    else if d == 1 { '1' }
    else if d == 2 { '2' }
    else if d == 3 { '3' }
    else if d == 4 { '4' }
    else if d == 5 { '5' }
    else if d == 6 { '6' }
    else if d == 7 { '7' }
    else if d == 8 { '8' }
    else { '9' }
}

fn push_decimal(v: &mut Vec<char>, n: usize)
    ensures
        final(v)@ == old(v)@ + decimal(n as nat),
    decreases n,
{
    if n >= 10 {
        push_decimal(v, n / 10);
    }
    v.push(digit_char(n % 10));
    proof {
        if n >= 10 {
            assert(old(v)@ + decimal(n as nat) == (old(v)@ + decimal((n / 10) as nat)).push(digit((n % 10) as nat)));
        } else {
            assert(n % 10 == n);
        }
    }
}

/// The generated bin name of the case at `index`.
pub fn bin_name(index: usize) -> (r: Name)
    ensures
        r.0@ == bin_name_of(index as nat),
{
    let mut digits: Vec<char> = Vec::new();
    push_decimal(&mut digits, index);
    assert(digits@ == decimal(index as nat));
    let mut out = chars::chars_of("trybuild");
    let mut k: usize = digits.len();
    while k < 3
        invariant
            digits.len() <= k <= 3 || (k == digits.len() && k >= 3),
            out@ == "trybuild"@ + Seq::new((k - digits.len()) as nat, |i: int| '0'),
        decreases 3 - k,
    {
        let ghost before = out@;
        out.push('0');
        assert(out@ =~= "trybuild"@ + Seq::new((k + 1 - digits.len()) as nat, |i: int| '0'));
        k = k + 1;
    }
    let ghost zeros = out@;
    chars::push_all(&mut out, &digits);
    proof {
        if digits.len() >= 3 {
            assert(Seq::new(0nat, |i: int| '0') + digits@ =~= digits@);
            assert(out@ =~= "trybuild"@ + digits@);
        } else {
            assert(out@ =~= "trybuild"@ + (Seq::new((3 - digits.len()) as nat, |i: int| '0') + digits@));
        }
    }
    Name(chars::string_of(&out))
}

/// One concrete test case after glob expansion, with its generated bin name.
#[derive(Debug)]
pub struct ExpandedTest {
    /// The generated `[[bin]]` name, e.g. `trybuild007`.
    pub name: Name,
    /// The source file and its expected outcome.
    pub test: Test,
    /// An error met while expanding (an unreadable glob), surfaced when run.
    pub error: Option<RunnerError>,
    /// Whether this entry came from a glob match rather than an explicit path.
    pub is_from_glob: bool,
}

/// What an expanded case holds, as the rules see it.
pub struct Expansion {
    pub name: Seq<char>,
    pub path: Seq<char>,
    pub expected: Expected,
    pub error: Option<RunnerError>,
    pub is_from_glob: bool,
}

pub open spec fn expansion(e: ExpandedTest) -> Expansion {
    Expansion {
        name: e.name.0@,
        path: e.test.path@,
        expected: e.test.expected,
        error: e.error,
        is_from_glob: e.is_from_glob,
    }
}

pub open spec fn expansions(v: Seq<ExpandedTest>) -> Seq<Expansion> {
    v.map_values(|e: ExpandedTest| expansion(e))
}

/// The last entry of `s` whose path equals `path`, searching below `end`.
pub open spec fn last_with_path_before(s: Seq<Expansion>, path: Seq<char>, end: int) -> Option<int>
    decreases end,
{
    if end <= 0 {
        None
    } else if std_paths_equal(s[end - 1].path, path) {
        Some(end - 1)
    } else {
        last_with_path_before(s, path, end - 1)
    }
}

/// Adds a case to the expanded set: when the last entry with the same path
/// came from a glob, that entry takes the case's expectation, error and
/// origin (keeping its own path and name); otherwise the case is appended
/// under the next generated name.
pub open spec fn inserted(
    s: Seq<Expansion>,
    path: Seq<char>,
    expected: Expected,
    error: Option<RunnerError>,
    is_from_glob: bool,
) -> Seq<Expansion> {
    match last_with_path_before(s, path, s.len() as int) {
        Some(i) if s[i].is_from_glob => s.update(
            i,
            Expansion { expected, error, is_from_glob, ..s[i] },
        ),
        _ => s.push(Expansion { name: bin_name_of(s.len()), path, expected, error, is_from_glob }),
    }
}

/// Accumulator that assigns bin names and deduplicates entries by path.
pub struct ExpandedTestSet {
    vec: Vec<ExpandedTest>,
}

impl View for ExpandedTestSet {
    type V = Seq<Expansion>;

    closed spec fn view(&self) -> Seq<Expansion> {
        expansions(self.vec@)
    }
}

impl ExpandedTestSet {
    /// An empty set.
    pub fn new() -> (r: ExpandedTestSet)
        ensures
            r@ == Seq::<Expansion>::empty(),
    {
        let r = ExpandedTestSet { vec: Vec::new() };
        assert(r@ =~= Seq::<Expansion>::empty());
        r
    }

    /// The index of the last entry whose path equals `path`.
    fn last_with_path(&self, path: &str) -> (r: Option<usize>)
        ensures
            r matches Some(i) ==> i < self@.len() && last_with_path_before(self@, path@, self@.len() as int) == Some(
                i as int,
            ),
            r is None ==> last_with_path_before(self@, path@, self@.len() as int) is None,
    {
        let mut end = self.vec.len();
        while end > 0
            invariant
                end <= self.vec.len(),
                self@.len() == self.vec.len(),
                last_with_path_before(self@, path@, self@.len() as int) == last_with_path_before(
                    self@,
                    path@,
                    end as int,
                ),
            decreases end,
        {
            assert(self@[end - 1].path == self.vec@[end - 1].test.path@);
            if same_path(self.vec[end - 1].test.path.as_str(), path) {
                return Some(end - 1);
            }
            end = end - 1;
        }
        None
    }

    /// Adds a case, or, when the path was already added from a glob, gives
    /// that entry the case's expectation rather than duplicating it.
    pub fn insert(&mut self, case: Test, error: Option<RunnerError>, is_from_glob: bool)
        ensures
            final(self)@ == inserted(old(self)@, case.path@, case.expected, error, is_from_glob),
    {
        let ghost before = self@;
        if let Some(i) = self.last_with_path(case.path.as_str()) {
            assert(before[i as int].is_from_glob == self.vec@[i as int].is_from_glob);
            if self.vec[i].is_from_glob {
                let name = Name(self.vec[i].name.0.clone());
                let path = self.vec[i].test.path.clone();
                self.vec.set(i, ExpandedTest { name, test: Test { path, expected: case.expected }, error, is_from_glob });
                assert(self@ =~= before.update(
                    i as int,
                    Expansion { expected: case.expected, error, is_from_glob, ..before[i as int] },
                ));
                return;
            }
        }
        let index = self.vec.len();
        let name = bin_name(index);
        let ghost path = case.path@;
        let ghost expected = case.expected;
        self.vec.push(ExpandedTest { name, test: case, error, is_from_glob });
        assert(self@ =~= before.push(
            Expansion { name: bin_name_of(before.len()), path, expected, error, is_from_glob },
        ));
    }

    /// The expanded cases, in insertion order.
    pub fn into_vec(self) -> (r: Vec<ExpandedTest>)
        ensures
            expansions(r@) == self@,
    {
        self.vec
    }
}

/// Whether a registered path is a glob pattern: it holds a `*`.
pub open spec fn is_glob_path(path: Seq<char>) -> bool {
    text::find_char(path, '*') is Some
}

/// Whether a registered path is a glob pattern, to be expanded by listing
/// the files that match it.
pub fn is_glob(path: &str) -> (r: bool)
    ensures
        r == is_glob_path(path@),
{
    let v = chars::chars_of(path);
    chars::find_char_from(&v, '*', 0).is_some()
}

/// The glob matches of a pattern inserted one after another.
pub open spec fn inserted_all(s: Seq<Expansion>, paths: Seq<Seq<char>>, expected: Expected) -> Seq<Expansion>
    decreases paths.len(),
{
    if paths.len() == 0 {
        s
    } else {
        inserted(inserted_all(s, paths.drop_last(), expected), paths.last(), expected, None, true)
    }
}

pub open spec fn path_views(v: Seq<String>) -> Seq<Seq<char>> {
    v.map_values(|p: String| p@)
}

/// One registered case inserted into the expanded set: each file a glob
/// pattern matched (in ascending path order), the pattern itself with its error
/// when the glob failed, or the explicit path.
pub open spec fn registered(s: Seq<Expansion>, case: Test, globbed: Option<Result<Vec<String>, RunnerError>>) -> Seq<Expansion> {
    if is_glob_path(case.path@) {
        match globbed {
            Some(Ok(paths)) => inserted_all(s, std_sorted_paths(path_views(paths@)), case.expected),
            Some(Err(e)) => inserted(s, case.path@, case.expected, Some(e), false),
            None => inserted(s, case.path@, case.expected, None, false),
        }
    } else {
        inserted(s, case.path@, case.expected, None, false)
    }
}

/// The listing given for the case at `i`, if any.
pub open spec fn listing(globbed: Seq<Option<Result<Vec<String>, RunnerError>>>, i: int) -> Option<
    Result<Vec<String>, RunnerError>,
> {
    if 0 <= i < globbed.len() {
        globbed[i]
    } else {
        None
    }
}

/// All registered cases expanded in order.
pub open spec fn expanded(tests: Seq<Test>, globbed: Seq<Option<Result<Vec<String>, RunnerError>>>) -> Seq<Expansion>
    decreases tests.len(),
{
    if tests.len() == 0 {
        Seq::empty()
    } else {
        registered(
            expanded(tests.drop_last(), globbed),
            tests.last(),
            listing(globbed, tests.len() - 1),
        )
    }
}

/// Whether each listing that the expansion inserts is in ascending path
/// order once sorted.
pub open spec fn listings_ascending(tests: Seq<Test>, globbed: Seq<Option<Result<Vec<String>, RunnerError>>>, n: int) -> bool {
    forall|i: int| 0 <= i < n && is_glob_path(#[trigger] tests[i].path@) ==> (listing(globbed, i) matches Some(Ok(paths))
        ==> ascending(std_sorted_paths(path_views(paths@))))
}

/// Expands the registered cases. `globbed[i]` is what listing the files
/// that match `tests[i]` gave, when that path is a glob pattern (the paths
/// in any order, or the glob's error); the matches of each pattern are
/// sorted and inserted in ascending path order. A glob pattern given no
/// listing is kept as an explicit path, and a listing given for an explicit
/// path is ignored.
pub fn expand_globs(tests: &[Test], globbed: Vec<Option<Result<Vec<String>, RunnerError>>>) -> (r: Vec<ExpandedTest>)
    ensures
        expansions(r@) == expanded(tests@, globbed@),
        listings_ascending(tests@, globbed@, tests@.len() as int),
        forall|i: int| 0 <= i < r@.len() ==> (#[trigger] r@[i]).name.0@ == bin_name_of(i as nat),
{
    let mut set = ExpandedTestSet::new();
    let ghost all = globbed@;
    let mut rest = globbed;
    let mut i: usize = 0;
    while i < tests.len()
        invariant
            i <= tests.len(),
            rest@ == (if i <= all.len() { all.skip(i as int) } else { Seq::empty() }),
            set@ == expanded(tests@.take(i as int), all),
            listings_ascending(tests@, all, i as int),
        decreases tests.len() - i,
    {
        let case = &tests[i];
        let g = if rest.len() > 0 {
            rest.remove(0)
        } else {
            None
        };
        assert(g == listing(all, i as int));
        proof {
            assert(tests@.take(i + 1).drop_last() == tests@.take(i as int));
            if i < all.len() {
                assert(rest@ == all.skip(i + 1));
            }
        }
        let ghost before = set@;
        let explicit = Test { path: case.path.clone(), expected: case.expected };
        if is_glob(case.path.as_str()) {
            match g {
                Some(Ok(listed)) => {
                    let paths = sort_paths(listed);
                    let mut k: usize = 0;
                    while k < paths.len()
                        invariant
                            k <= paths.len(),
                            set@ == inserted_all(before, path_views(paths@.take(k as int)), case.expected),
                            listings_ascending(tests@, all, i as int),
                        decreases paths.len() - k,
                    {
                        proof {
                            assert(path_views(paths@.take(k + 1)).drop_last() == path_views(paths@.take(k as int)));
                        }
                        set.insert(Test { path: paths[k].clone(), expected: case.expected }, None, true);
                        k = k + 1;
                    }
                    assert(paths@.take(paths.len() as int) == paths@);
                },
                Some(Err(e)) => set.insert(explicit, Some(e), false),
                None => set.insert(explicit, None, false),
            }
        } else {
            set.insert(explicit, None, false);
        }
        i = i + 1;
    }
    assert(tests@.take(tests.len() as int) == tests@);
    let r = set.into_vec();
    proof {
        crate::laws::law_expanded_cases_named_by_position(tests@, all);
        assert forall|i: int| 0 <= i < r@.len() implies (#[trigger] r@[i]).name.0@ == bin_name_of(i as nat) by {
            assert(expansions(r@)[i] == expansion(r@[i]));
        }
    }
    r
}

} // verus!
