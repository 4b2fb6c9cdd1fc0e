//! Character-sequence primitives that the diagnostic normalizer is built from:
//! prefix and suffix tests, searching, trimming, case folding and the line
//! split, each stated over `Seq<char>` and implemented over `Vec<char>`.
//!
//! Positions are counted in characters.
use vstd::prelude::*;

verus! {

/// Whether `c` has the Unicode `White_Space` property, which is what
/// `char::is_whitespace` (and therefore `str::trim_start`/`trim_end`) tests.
pub open spec fn is_ws(c: char) -> bool {
    ||| c == '\t'
    ||| c == '\n'
    ||| c == '\x0B'
    ||| c == '\x0C'
    ||| c == '\r'
    ||| c == ' '
    ||| c == '\u{85}'
    ||| c == '\u{A0}'
    ||| c == '\u{1680}'
    ||| ('\u{2000}' <= c && c <= '\u{200A}')
    ||| c == '\u{2028}'
    ||| c == '\u{2029}'
    ||| c == '\u{202F}'
    ||| c == '\u{205F}'
    ||| c == '\u{3000}'
}

pub fn is_whitespace(c: char) -> (r: bool)
    ensures
        r == is_ws(c),
{
    c == '\t' || c == '\n' || c == '\x0B' || c == '\x0C' || c == '\r' || c == ' ' || c == '\u{85}'
        || c == '\u{A0}' || c == '\u{1680}' || ('\u{2000}' <= c && c <= '\u{200A}') || c
        == '\u{2028}' || c == '\u{2029}' || c == '\u{202F}' || c == '\u{205F}' || c == '\u{3000}'
}

pub open spec fn is_digit(c: char) -> bool {
    '0' <= c && c <= '9'
}

pub open spec fn is_lower_hex(c: char) -> bool {
    ('0' <= c && c <= '9') || ('a' <= c && c <= 'f')
}

pub open spec fn is_alnum(c: char) -> bool {
    ('0' <= c && c <= '9') || ('a' <= c && c <= 'z') || ('A' <= c && c <= 'Z')
}

pub open spec fn ascii_lower(c: char) -> char {
    if 'A' <= c && c <= 'Z' {
        ((c as u32) + 32) as char
    } else {
        c
    }
}

/// Backslash becomes forward slash; every other character is kept.
pub open spec fn slash(c: char) -> char {
    if c == '\\' {
        '/'
    } else {
        c
    }
}

/// Every character lowercased (ASCII only) and every backslash made a slash.
pub open spec fn lower_slash(s: Seq<char>) -> Seq<char> {
    s.map_values(|c: char| slash(ascii_lower(c)))
}

/// Every backslash made a forward slash.
pub open spec fn slashes(s: Seq<char>) -> Seq<char> {
    s.map_values(|c: char| slash(c))
}

pub open spec fn all_digits(s: Seq<char>) -> bool {
    forall|i: int| 0 <= i < s.len() ==> is_digit(#[trigger] s[i])
}

pub open spec fn all_lower_hex(s: Seq<char>) -> bool {
    forall|i: int| 0 <= i < s.len() ==> is_lower_hex(#[trigger] s[i])
}

pub open spec fn starts_with(s: Seq<char>, p: Seq<char>) -> bool {
    p.len() <= s.len() && s.take(p.len() as int) == p
}

pub open spec fn ends_with(s: Seq<char>, p: Seq<char>) -> bool {
    p.len() <= s.len() && s.skip(s.len() - p.len()) == p
}

/// Whether `p` occurs in `s` starting at position `i`.
pub open spec fn occurs_at(s: Seq<char>, p: Seq<char>, i: int) -> bool {
    0 <= i && i + p.len() <= s.len() && s.subrange(i, i + p.len()) == p
}

/// The first position at or after `start` where `p` occurs in `s`.
pub open spec fn find_from(s: Seq<char>, p: Seq<char>, start: int) -> Option<int>
    decreases s.len() - start,
{
    if start < 0 || start + p.len() > s.len() {
        None
    } else if occurs_at(s, p, start) {
        Some(start)
    } else if start >= s.len() {
        None
    } else {
        find_from(s, p, start + 1)
    }
}

/// The first position where `p` occurs in `s` (`str::find`).
pub open spec fn find(s: Seq<char>, p: Seq<char>) -> Option<int> {
    find_from(s, p, 0)
}

/// The first position at or after `start` holding the character `c`.
pub open spec fn find_char_from(s: Seq<char>, c: char, start: int) -> Option<int>
    decreases s.len() - start,
{
    if start < 0 || start >= s.len() {
        None
    } else if s[start] == c {
        Some(start)
    } else {
        find_char_from(s, c, start + 1)
    }
}

pub open spec fn find_char(s: Seq<char>, c: char) -> Option<int> {
    find_char_from(s, c, 0)
}

/// The last position before `end` holding the character `c`.
pub open spec fn rfind_char_before(s: Seq<char>, c: char, end: int) -> Option<int>
    decreases end,
{
    if end <= 0 || end > s.len() {
        None
    } else if s[end - 1] == c {
        Some(end - 1)
    } else {
        rfind_char_before(s, c, end - 1)
    }
}

pub open spec fn rfind_char(s: Seq<char>, c: char) -> Option<int> {
    rfind_char_before(s, c, s.len() as int)
}

/// The first position holding either `a` or `b`.
pub open spec fn find_either_from(s: Seq<char>, a: char, b: char, start: int) -> Option<int>
    decreases s.len() - start,
{
    if start < 0 || start >= s.len() {
        None
    } else if s[start] == a || s[start] == b {
        Some(start)
    } else {
        find_either_from(s, a, b, start + 1)
    }
}

/// The last position before `end` holding either `a` or `b`.
pub open spec fn rfind_either_before(s: Seq<char>, a: char, b: char, end: int) -> Option<int>
    decreases end,
{
    if end <= 0 || end > s.len() {
        None
    } else if s[end - 1] == a || s[end - 1] == b {
        Some(end - 1)
    } else {
        rfind_either_before(s, a, b, end - 1)
    }
}

/// The number of leading whitespace characters.
pub open spec fn leading_ws(s: Seq<char>) -> int
    decreases s.len(),
{
    if s.len() > 0 && is_ws(s[0]) {
        1 + leading_ws(s.drop_first())
    } else {
        0
    }
}

/// The number of trailing whitespace characters.
pub open spec fn trailing_ws(s: Seq<char>) -> int
    decreases s.len(),
{
    if s.len() > 0 && is_ws(s.last()) {
        1 + trailing_ws(s.drop_last())
    } else {
        0
    }
}

/// The number of leading spaces (`' '` only).
pub open spec fn leading_spaces(s: Seq<char>) -> int
    decreases s.len(),
{
    if s.len() > 0 && s[0] == ' ' {
        1 + leading_spaces(s.drop_first())
    } else {
        0
    }
}

/// The number of leading ASCII digits.
pub open spec fn leading_digits(s: Seq<char>) -> int
    decreases s.len(),
{
    if s.len() > 0 && is_digit(s[0]) {
        1 + leading_digits(s.drop_first())
    } else {
        0
    }
}

/// The number of leading characters that are spaces or ASCII digits.
pub open spec fn leading_spaces_or_digits(s: Seq<char>) -> int
    decreases s.len(),
{
    if s.len() > 0 && (s[0] == ' ' || is_digit(s[0])) {
        1 + leading_spaces_or_digits(s.drop_first())
    } else {
        0
    }
}

/// The number of trailing ASCII digits.
pub open spec fn trailing_digits(s: Seq<char>) -> int
    decreases s.len(),
{
    if s.len() > 0 && is_digit(s.last()) {
        1 + trailing_digits(s.drop_last())
    } else {
        0
    }
}

/// `str::trim_start`.
pub open spec fn trim_start(s: Seq<char>) -> Seq<char> {
    s.skip(leading_ws(s))
}

/// `str::trim_end`.
pub open spec fn trim_end(s: Seq<char>) -> Seq<char> {
    s.take(s.len() - trailing_ws(s))
}

/// The sub-sequence `s[a..b]`, or the empty sequence when the range is not
/// within `s` (as `str::get(a..b).unwrap_or("")`).
pub open spec fn get(s: Seq<char>, a: int, b: int) -> Seq<char> {
    if 0 <= a <= b <= s.len() {
        s.subrange(a, b)
    } else {
        Seq::empty()
    }
}

/// The suffix `s[a..]`, or the empty sequence when `a` lies past the end.
pub open spec fn get_from(s: Seq<char>, a: int) -> Seq<char> {
    get(s, a, s.len() as int)
}

/// `String::replace_range(a..b, r)`.
pub open spec fn splice(s: Seq<char>, a: int, b: int, r: Seq<char>) -> Seq<char> {
    s.take(a) + r + s.skip(b)
}

/// `str::replace(p, r)` for a non-empty pattern: every leftmost,
/// non-overlapping occurrence of `p` replaced by `r`.
pub open spec fn replace_nonempty(s: Seq<char>, p: Seq<char>, r: Seq<char>) -> Seq<char>
    recommends
        p.len() > 0,
    decreases s.len(),
{
    if p.len() == 0 || s.len() < p.len() {
        s
    } else if starts_with(s, p) {
        r + replace_nonempty(s.skip(p.len() as int), p, r)
    } else {
        seq![s[0]] + replace_nonempty(s.drop_first(), p, r)
    }
}

/// `str::replace("", r)`: `r` inserted before every character and at the end.
pub open spec fn replace_empty(s: Seq<char>, r: Seq<char>) -> Seq<char>
    decreases s.len(),
{
    if s.len() == 0 {
        r
    } else {
        r + seq![s[0]] + replace_empty(s.drop_first(), r)
    }
}

/// `str::replace(p, r)`.
pub open spec fn replace_all(s: Seq<char>, p: Seq<char>, r: Seq<char>) -> Seq<char> {
    if p.len() == 0 {
        replace_empty(s, r)
    } else {
        replace_nonempty(s, p, r)
    }
}

/// The pieces of `s` between the occurrences of the non-empty pattern `p`
/// (`str::split`).
pub open spec fn split_nonempty(s: Seq<char>, p: Seq<char>) -> Seq<Seq<char>>
    recommends
        p.len() > 0,
    decreases s.len(),
{
    if p.len() == 0 {
        seq![s]
    } else {
        match find(s, p) {
            Some(i) => if 0 <= i && i + p.len() <= s.len() {
                seq![s.take(i)] + split_nonempty(s.skip(i + p.len()), p)
            } else {
                seq![s]
            },
            None => seq![s],
        }
    }
}

/// `str::split("")`: an empty piece, then every character alone, then an
/// empty piece.
pub open spec fn split_empty(s: Seq<char>) -> Seq<Seq<char>> {
    seq![Seq::<char>::empty()] + Seq::new(s.len(), |i: int| seq![s[i]]) + seq![Seq::<char>::empty()]
}

pub open spec fn split(s: Seq<char>, p: Seq<char>) -> Seq<Seq<char>> {
    if p.len() == 0 {
        split_empty(s)
    } else {
        split_nonempty(s, p)
    }
}

/// One line of `str::lines`: the trailing `"\r"` of a line ended by `"\n"`
/// is removed as part of the line ending.
pub open spec fn strip_cr(line: Seq<char>) -> Seq<char> {
    if line.len() > 0 && line.last() == '\r' {
        line.drop_last()
    } else {
        line
    }
}

/// `str::lines`: the text split at each `"\n"` (or `"\r\n"`); a final line
/// ending is optional and adds no empty line.
pub open spec fn lines(s: Seq<char>) -> Seq<Seq<char>>
    decreases s.len(),
{
    if s.len() == 0 {
        Seq::empty()
    } else {
        match find_char(s, '\n') {
            Some(i) => if 0 <= i < s.len() {
                seq![strip_cr(s.take(i))] + lines(s.skip(i + 1))
            } else {
                seq![s]
            },
            None => seq![s],
        }
    }
}



/// `find_char_from` on a suffix is `find_char_from` on the whole sequence,
/// shifted.
pub proof fn lemma_find_char_skip(s: Seq<char>, c: char, k: int, j: int)
    requires
        0 <= k <= s.len(),
        0 <= j,
    ensures
        find_char_from(s.skip(k), c, j) == (match find_char_from(s, c, k + j) {
            Some(i) => Some(i - k),
            None => None,
        }),
    decreases s.len() - k - j,
{
    if j < s.len() - k && s[k + j] != c {
        lemma_find_char_skip(s, c, k, j + 1);
    }
}

/// `find_from` on a suffix is `find_from` on the whole sequence, shifted.
pub proof fn lemma_find_skip(s: Seq<char>, p: Seq<char>, k: int, j: int)
    requires
        0 <= k <= s.len(),
        0 <= j,
    ensures
        find_from(s.skip(k), p, j) == (match find_from(s, p, k + j) {
            Some(i) => Some(i - k),
            None => None,
        }),
    decreases s.len() - k - j,
{
    if j + p.len() <= s.len() - k {
        assert(s.skip(k).subrange(j, j + p.len()) == s.subrange(k + j, k + j + p.len()));
        if !occurs_at(s, p, k + j) && j < s.len() - k {
            lemma_find_skip(s, p, k, j + 1);
        }
    }
}

/// A position found by `find_from` is an occurrence at or after the start.
pub proof fn lemma_find_from_found(s: Seq<char>, p: Seq<char>, start: int)
    ensures
        find_from(s, p, start) matches Some(i) ==> start <= i && occurs_at(s, p, i),
    decreases s.len() - start,
{
    if start >= 0 && start + p.len() <= s.len() && !occurs_at(s, p, start) && start < s.len() {
        lemma_find_from_found(s, p, start + 1);
    }
}

/// A position found by `find_char_from` holds the character, at or after the
/// start.
pub proof fn lemma_find_char_found(s: Seq<char>, c: char, start: int)
    ensures
        find_char_from(s, c, start) matches Some(i) ==> start <= i < s.len() && s[i] == c,
    decreases s.len() - start,
{
    if 0 <= start < s.len() && s[start] != c {
        lemma_find_char_found(s, c, start + 1);
    }
}

/// Every character before `leading_ws(s)` is whitespace, and the one at it
/// (if any) is not.
pub proof fn lemma_leading_ws(s: Seq<char>)
    ensures
        0 <= leading_ws(s) <= s.len(),
        forall|j: int| 0 <= j < leading_ws(s) ==> is_ws(#[trigger] s[j]),
        leading_ws(s) < s.len() ==> !is_ws(s[leading_ws(s)]),
    decreases s.len(),
{
    if s.len() > 0 && is_ws(s[0]) {
        lemma_leading_ws(s.drop_first());
        assert forall|j: int| 0 <= j < leading_ws(s) implies is_ws(#[trigger] s[j]) by {
            if j > 0 {
                assert(s[j] == s.drop_first()[j - 1]);
            }
        }
    }
}

/// A position found by `rfind_char_before` holds the character and lies
/// before the end.
pub proof fn lemma_rfind_char_found(s: Seq<char>, c: char, end: int)
    ensures
        rfind_char_before(s, c, end) matches Some(i) ==> 0 <= i < end && i < s.len() && s[i] == c,
    decreases end,
{
    if 0 < end <= s.len() && s[end - 1] != c {
        lemma_rfind_char_found(s, c, end - 1);
    }
}

/// A position found by `rfind_either_before` holds one of the characters.
pub proof fn lemma_rfind_either_found(s: Seq<char>, a: char, b: char, end: int)
    ensures
        rfind_either_before(s, a, b, end) matches Some(i) ==> 0 <= i < end && i < s.len() && (s[i] == a
            || s[i] == b),
    decreases end,
{
    if 0 < end <= s.len() && !(s[end - 1] == a || s[end - 1] == b) {
        lemma_rfind_either_found(s, a, b, end - 1);
    }
}

/// A position found by `find_either_from` holds one of the characters.
pub proof fn lemma_find_either_found(s: Seq<char>, a: char, b: char, start: int)
    ensures
        find_either_from(s, a, b, start) matches Some(i) ==> start <= i < s.len() && (s[i] == a || s[i]
            == b),
    decreases s.len() - start,
{
    if 0 <= start < s.len() && !(s[start] == a || s[start] == b) {
        lemma_find_either_found(s, a, b, start + 1);
    }
}

/// Where `find_char_from` finds nothing, or finds `i`, no earlier
/// position from the start holds the character.
pub proof fn lemma_find_char_none_before(s: Seq<char>, c: char, start: int)
    requires
        0 <= start,
    ensures
        find_char_from(s, c, start) matches Some(i) ==> forall|j: int| start <= j < i ==> #[trigger] s[j] != c,
        find_char_from(s, c, start) is None ==> forall|j: int| start <= j < s.len() ==> #[trigger] s[j] != c,
    decreases s.len() - start,
{
    if start < s.len() && s[start] != c {
        lemma_find_char_none_before(s, c, start + 1);
    }
}

/// `find_char_from` finds the first position from the start that holds the
/// character.
pub proof fn lemma_find_char_first(s: Seq<char>, c: char, i: int, start: int)
    requires
        0 <= start <= i < s.len(),
        s[i] == c,
        forall|j: int| start <= j < i ==> #[trigger] s[j] != c,
    ensures
        find_char_from(s, c, start) == Some(i),
    decreases i - start,
{
    if start < i {
        lemma_find_char_first(s, c, i, start + 1);
    }
}

/// Replacing a pattern in `x + y` where no occurrence starts inside `x`
/// leaves `x` as it is.
pub proof fn lemma_replace_after_prefix(x: Seq<char>, y: Seq<char>, p: Seq<char>, r: Seq<char>)
    requires
        p.len() > 0,
        forall|k: int| 0 <= k < x.len() ==> !occurs_at(x + y, p, k),
    ensures
        replace_nonempty(x + y, p, r) == x + replace_nonempty(y, p, r),
    decreases x.len(),
{
    let s = x + y;
    if x.len() == 0 {
        assert(s =~= y);
        assert(x + replace_nonempty(y, p, r) =~= replace_nonempty(y, p, r));
    } else if s.len() < p.len() {
        assert(replace_nonempty(y, p, r) == y);
    } else {
        assert(!occurs_at(s, p, 0));
        assert(s.subrange(0, p.len() as int) =~= s.take(p.len() as int));
        assert(!starts_with(s, p));
        let rest = x.drop_first();
        assert(s.drop_first() =~= rest + y);
        assert forall|k: int| 0 <= k < rest.len() implies !occurs_at(rest + y, p, k) by {
            if occurs_at(rest + y, p, k) {
                assert((rest + y).subrange(k, k + p.len()) =~= s.subrange(k + 1, k + 1 + p.len()));
                assert(occurs_at(s, p, k + 1));
            }
        }
        lemma_replace_after_prefix(rest, y, p, r);
        assert(seq![s[0]] + (rest + replace_nonempty(y, p, r)) =~= x + replace_nonempty(y, p, r));
    }
}

/// Whether `s` holds no `"\r\r\n"`.
pub open spec fn no_double_cr_before_lf(s: Seq<char>) -> bool {
    forall|k: int| 0 <= k && k + 2 < s.len() ==> !(#[trigger] s[k] == '\r' && s[k + 1] == '\r' && s[k + 2] == '\n')
}

/// A text without `"\r\r\n"` splits into the same lines whether or not its
/// `"\r\n"` line endings are first read as `"\n"`.
pub proof fn lemma_lines_read_crlf(s: Seq<char>)
    requires
        no_double_cr_before_lf(s),
    ensures
        lines(replace_nonempty(s, "\r\n"@, "\n"@)) == lines(s),
    decreases s.len(),
{
    reveal_strlit("\r\n");
    reveal_strlit("\n");
    let crlf = "\r\n"@;
    let lf = "\n"@;
    lemma_find_char_none_before(s, '\n', 0);
    lemma_find_char_found(s, '\n', 0);
    match find_char(s, '\n') {
        None => {
            assert forall|k: int| 0 <= k < s.len() implies !occurs_at(s + Seq::<char>::empty(), crlf, k) by {
                if occurs_at(s + Seq::<char>::empty(), crlf, k) {
                    assert((s + Seq::<char>::empty()).subrange(k, k + 2)[1] == crlf[1]);
                }
            }
            lemma_replace_after_prefix(s, Seq::<char>::empty(), crlf, lf);
            assert(s + Seq::<char>::empty() =~= s);
            assert(replace_nonempty(Seq::<char>::empty(), crlf, lf) =~= Seq::<char>::empty());
            assert(s + replace_nonempty(Seq::<char>::empty(), crlf, lf) =~= s);
        },
        Some(i) => {
            let b = s.skip(i + 1);
            let pre: int = if i > 0 && s[i - 1] == '\r' { i - 1 } else { i };
            let x = s.take(pre);
            let y = s.skip(pre);
            assert(x + y =~= s);
            assert forall|k: int| 0 <= k < x.len() implies !occurs_at(x + y, crlf, k) by {
                if occurs_at(x + y, crlf, k) {
                    assert((x + y).subrange(k, k + 2)[1] == crlf[1]);
                    assert((x + y).subrange(k, k + 2)[0] == crlf[0]);
                    assert(s[k + 1] == '\n' && s[k] == '\r');
                }
            }
            lemma_replace_after_prefix(x, y, crlf, lf);
            let ry = replace_nonempty(b, crlf, lf);
            if pre == i - 1 {
                assert(y.subrange(0, 2) =~= crlf);
                assert(starts_with(y, crlf));
                assert(y.skip(2) =~= b);
                assert(replace_nonempty(y, crlf, lf) == lf + ry);
            } else {
                assert(y[0] == '\n');
                assert(!starts_with(y, crlf)) by {
                    if starts_with(y, crlf) {
                        assert(y.take(2)[0] == crlf[0]);
                    }
                }
                assert(y.drop_first() =~= b);
                assert(y.len() >= 2 ==> replace_nonempty(y, crlf, lf) == seq![y[0]] + ry);
                if y.len() < 2 {
                    assert(b.len() == 0);
                    assert(ry == b);
                }
                assert(replace_nonempty(y, crlf, lf) =~= lf + ry);
            }
            let t = replace_nonempty(s, crlf, lf);
            assert(t =~= x + lf + ry);
            assert forall|j: int| 0 <= j < pre implies #[trigger] t[j] != '\n' by {
                assert(t[j] == s[j]);
            }
            assert(t[pre] == '\n');
            lemma_find_char_first(t, '\n', pre, 0);
            assert(t.take(pre) =~= x);
            assert(t.skip(pre + 1) =~= ry);
            if pre == i - 1 {
                assert(strip_cr(s.take(i)) =~= x);
                if pre > 0 {
                    assert(!(s[pre - 1] == '\r' && s[pre] == '\r' && s[pre + 1] == '\n'));
                }
            } else {
                assert(strip_cr(s.take(i)) =~= s.take(i));
            }
            assert(strip_cr(x) == x);
            assert forall|k: int| 0 <= k && k + 2 < b.len() implies !(#[trigger] b[k] == '\r' && b[k + 1] == '\r' && b[k + 2] == '\n') by {
                assert(b[k] == s[k + i + 1] && b[k + 1] == s[k + i + 2] && b[k + 2] == s[k + i + 3]);
            }
            lemma_lines_read_crlf(b);
        },
    }
}

/// The empty pattern is found at the start.
pub proof fn lemma_find_empty(s: Seq<char>)
    ensures
        find(s, Seq::<char>::empty()) == Some(0int),
{
    assert(s.subrange(0, 0) =~= Seq::<char>::empty());
}

} // verus!
