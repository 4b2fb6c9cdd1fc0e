//! Operations on `Vec<char>` text, each proved to compute the matching
//! definition in [`crate::text`].
use vstd::prelude::*;

use crate::text;

verus! {

/// The characters of `s`.
pub fn chars_of(s: &str) -> (v: Vec<char>)
    ensures
        v@ == s@,
{
    let mut v: Vec<char> = Vec::new();
    for c in it: s.chars()
        invariant
            v@ == it.seq().take(it.index()),
            it.seq() == s@,
    {
        v.push(c);
    }
    v
}

/// `s[a..b]` as a new vector.
pub fn slice(s: &Vec<char>, a: usize, b: usize) -> (r: Vec<char>)
    requires
        a <= b <= s.len(),
    ensures
        r@ == s@.subrange(a as int, b as int),
{
    let mut r: Vec<char> = Vec::new();
    let mut i = a;
    while i < b
        invariant
            a <= i <= b <= s.len(),
            r@ == s@.subrange(a as int, i as int),
        decreases b - i,
    {
        r.push(s[i]);
        i = i + 1;
    }
    r
}

/// `str::get(a..b).unwrap_or("")`.
pub fn get(s: &Vec<char>, a: usize, b: usize) -> (r: Vec<char>)
    ensures
        r@ == text::get(s@, a as int, b as int),
{
    if a <= b && b <= s.len() {
        slice(s, a, b)
    } else {
        Vec::new()
    }
}

/// `str::get(a..).unwrap_or("")`.
pub fn get_from(s: &Vec<char>, a: usize) -> (r: Vec<char>)
    ensures
        r@ == text::get_from(s@, a as int),
{
    get(s, a, s.len())
}

/// `a` followed by `b`.
pub fn concat(a: &Vec<char>, b: &Vec<char>) -> (r: Vec<char>)
    ensures
        r@ == a@ + b@,
{
    let mut r = a.clone();
    let mut i: usize = 0;
    while i < b.len()
        invariant
            i <= b.len(),
            r@ == a@ + b@.take(i as int),
        decreases b.len() - i,
    {
        r.push(b[i]);
        i = i + 1;
        assert(b@.take(i as int) == b@.take(i - 1 as int).push(b@[i - 1]));
    }
    assert(b@.take(b.len() as int) == b@);
    r
}

/// Appends `b` to `a`.
pub fn push_all(a: &mut Vec<char>, b: &Vec<char>)
    ensures
        final(a)@ == old(a)@ + b@,
{
    let mut i: usize = 0;
    while i < b.len()
        invariant
            i <= b.len(),
            a@ == old(a)@ + b@.take(i as int),
        decreases b.len() - i,
    {
        a.push(b[i]);
        i = i + 1;
        assert(b@.take(i as int) == b@.take(i - 1 as int).push(b@[i - 1]));
    }
    assert(b@.take(b.len() as int) == b@);
}

/// `String::replace_range(a..b, r)`.
pub fn splice(s: &Vec<char>, a: usize, b: usize, r: &Vec<char>) -> (out: Vec<char>)
    requires
        a <= b <= s.len(),
    ensures
        out@ == text::splice(s@, a as int, b as int, r@),
{
    let head = slice(s, 0, a);
    let tail = slice(s, b, s.len());
    let mut out = concat(&head, r);
    push_all(&mut out, &tail);
    assert(s@.take(a as int) == s@.subrange(0, a as int));
    assert(s@.skip(b as int) == s@.subrange(b as int, s.len() as int));
    out
}

/// Whether `p` occurs in `s` at position `i`.
pub fn occurs_at(s: &Vec<char>, p: &Vec<char>, i: usize) -> (r: bool)
    ensures
        r == text::occurs_at(s@, p@, i as int),
{
    if i > s.len() || p.len() > s.len() - i {
        return false;
    }
    let mut k: usize = 0;
    while k < p.len()
        invariant
            k <= p.len(),
            i + p.len() <= s.len(),
            forall|j: int| 0 <= j < k ==> s@[i + j] == p@[j],
        decreases p.len() - k,
    {
        if s[i + k] != p[k] {
            assert(s@.subrange(i as int, i + p.len())[k as int] != p@[k as int]);
            return false;
        }
        k = k + 1;
    }
    assert(s@.subrange(i as int, i + p.len()) =~= p@);
    true
}

pub fn starts_with(s: &Vec<char>, p: &Vec<char>) -> (r: bool)
    ensures
        r == text::starts_with(s@, p@),
{
    let r = occurs_at(s, p, 0);
    proof {
        if p.len() <= s.len() {
            assert(s@.take(p.len() as int) == s@.subrange(0, p.len() as int));
        }
    }
    r
}

pub fn ends_with(s: &Vec<char>, p: &Vec<char>) -> (r: bool)
    ensures
        r == text::ends_with(s@, p@),
{
    if p.len() > s.len() {
        return false;
    }
    let r = occurs_at(s, p, s.len() - p.len());
    assert(s@.skip(s.len() - p.len()) == s@.subrange(s.len() - p.len(), s.len() as int));
    r
}

/// Whether `s` equals `p`.
pub fn equals(s: &Vec<char>, p: &Vec<char>) -> (r: bool)
    ensures
        r == (s@ == p@),
{
    if s.len() != p.len() {
        return false;
    }
    let r = occurs_at(s, p, 0);
    assert(s@.subrange(0, s.len() as int) == s@);
    r
}

/// The first occurrence of `p` in `s` at or after `start`.
pub fn find_from(s: &Vec<char>, p: &Vec<char>, start: usize) -> (r: Option<usize>)
    ensures
        r matches Some(i) ==> text::find_from(s@, p@, start as int) == Some(i as int),
        r is None ==> text::find_from(s@, p@, start as int) is None,
{
    let mut i = start;
    while i <= s.len() && p.len() <= s.len() - i
        invariant
            start <= i,
            text::find_from(s@, p@, start as int) == text::find_from(s@, p@, i as int),
        decreases s.len() + 1 - i,
    {
        if occurs_at(s, p, i) {
            return Some(i);
        }
        if i == s.len() {
            return None;
        }
        i = i + 1;
    }
    None
}

pub fn find(s: &Vec<char>, p: &Vec<char>) -> (r: Option<usize>)
    ensures
        r matches Some(i) ==> text::find(s@, p@) == Some(i as int),
        r is None ==> text::find(s@, p@) is None,
{
    find_from(s, p, 0)
}

pub fn find_char_from(s: &Vec<char>, c: char, start: usize) -> (r: Option<usize>)
    ensures
        r matches Some(i) ==> text::find_char_from(s@, c, start as int) == Some(i as int),
        r is None ==> text::find_char_from(s@, c, start as int) is None,
{
    let mut i = start;
    while i < s.len()
        invariant
            start <= i,
            text::find_char_from(s@, c, start as int) == text::find_char_from(s@, c, i as int),
        decreases s.len() - i,
    {
        if s[i] == c {
            return Some(i);
        }
        i = i + 1;
    }
    None
}

pub fn find_either_from(s: &Vec<char>, a: char, b: char, start: usize) -> (r: Option<usize>)
    ensures
        r matches Some(i) ==> text::find_either_from(s@, a, b, start as int) == Some(i as int),
        r is None ==> text::find_either_from(s@, a, b, start as int) is None,
{
    let mut i = start;
    while i < s.len()
        invariant
            start <= i,
            text::find_either_from(s@, a, b, start as int) == text::find_either_from(s@, a, b, i as int),
        decreases s.len() - i,
    {
        if s[i] == a || s[i] == b {
            return Some(i);
        }
        i = i + 1;
    }
    None
}

pub fn rfind_char(s: &Vec<char>, c: char) -> (r: Option<usize>)
    ensures
        r matches Some(i) ==> text::rfind_char(s@, c) == Some(i as int),
        r is None ==> text::rfind_char(s@, c) is None,
{
    let mut end = s.len();
    while end > 0
        invariant
            end <= s.len(),
            text::rfind_char(s@, c) == text::rfind_char_before(s@, c, end as int),
        decreases end,
    {
        if s[end - 1] == c {
            return Some(end - 1);
        }
        end = end - 1;
    }
    None
}

pub fn rfind_either(s: &Vec<char>, a: char, b: char) -> (r: Option<usize>)
    ensures
        r matches Some(i) ==> text::rfind_either_before(s@, a, b, s@.len() as int) == Some(i as int),
        r is None ==> text::rfind_either_before(s@, a, b, s@.len() as int) is None,
{
    let mut end = s.len();
    while end > 0
        invariant
            end <= s.len(),
            text::rfind_either_before(s@, a, b, s@.len() as int) == text::rfind_either_before(s@, a, b, end as int),
        decreases end,
    {
        if s[end - 1] == a || s[end - 1] == b {
            return Some(end - 1);
        }
        end = end - 1;
    }
    None
}

/// Owned text for a borrowed character vector.
pub fn copy(s: &Vec<char>) -> (r: Vec<char>)
    ensures
        r@ == s@,
{
    s.clone()
}

/// `text.to_ascii_lowercase().replace('\\', "/")`.
pub fn lower_slash(s: &Vec<char>) -> (r: Vec<char>)
    ensures
        r@ == text::lower_slash(s@),
{
    let mut r: Vec<char> = Vec::new();
    let mut i: usize = 0;
    while i < s.len()
        invariant
            i <= s.len(),
            r@ == text::lower_slash(s@.take(i as int)),
        decreases s.len() - i,
    {
        let c = to_lower(s[i]);
        r.push(if c == '\\' { '/' } else { c });
        i = i + 1;
        assert(s@.take(i as int) == s@.take(i - 1 as int).push(s@[i - 1]));
    }
    assert(s@.take(s.len() as int) == s@);
    r
}

/// `text.replace('\\', "/")`.
pub fn slashes(s: &Vec<char>) -> (r: Vec<char>)
    ensures
        r@ == text::slashes(s@),
{
    let mut r: Vec<char> = Vec::new();
    let mut i: usize = 0;
    while i < s.len()
        invariant
            i <= s.len(),
            r@ == text::slashes(s@.take(i as int)),
        decreases s.len() - i,
    {
        let c = s[i];
        r.push(if c == '\\' { '/' } else { c });
        i = i + 1;
        assert(s@.take(i as int) == s@.take(i - 1 as int).push(s@[i - 1]));
    }
    assert(s@.take(s.len() as int) == s@);
    r
}

/// `char::to_ascii_lowercase`.
pub fn to_lower(c: char) -> (r: char)
    ensures
        r == text::ascii_lower(c),
{
    if 'A' <= c && c <= 'Z' {
        let i: u32 = (c as u32) - ('A' as u32);
        let r = LOWER[i as usize];
        assert(LOWER@ =~= seq![
            'a', 'b', 'c', 'd', 'e', 'f', 'g', 'h', 'i', 'j', 'k', 'l', 'm',
            'n', 'o', 'p', 'q', 'r', 's', 't', 'u', 'v', 'w', 'x', 'y', 'z',
        ]);
        r
    } else {
        c
    }
}

const LOWER: [char; 26] = [
    'a', 'b', 'c', 'd', 'e', 'f', 'g', 'h', 'i', 'j', 'k', 'l', 'm',
    'n', 'o', 'p', 'q', 'r', 's', 't', 'u', 'v', 'w', 'x', 'y', 'z',
];

pub fn is_digit(c: char) -> (r: bool)
    ensures
        r == text::is_digit(c),
{
    '0' <= c && c <= '9'
}

pub fn is_alnum(c: char) -> (r: bool)
    ensures
        r == text::is_alnum(c),
{
    ('0' <= c && c <= '9') || ('a' <= c && c <= 'z') || ('A' <= c && c <= 'Z')
}

/// Whether every character of `s` is an ASCII digit.
pub fn all_digits(s: &Vec<char>) -> (r: bool)
    ensures
        r == text::all_digits(s@),
{
    let mut i: usize = 0;
    while i < s.len()
        invariant
            i <= s.len(),
            forall|j: int| 0 <= j < i ==> text::is_digit(s@[j]),
        decreases s.len() - i,
    {
        if !is_digit(s[i]) {
            return false;
        }
        i = i + 1;
    }
    true
}

/// Whether every character of `s` is a lowercase hexadecimal digit.
pub fn all_lower_hex(s: &Vec<char>) -> (r: bool)
    ensures
        r == text::all_lower_hex(s@),
{
    let mut i: usize = 0;
    while i < s.len()
        invariant
            i <= s.len(),
            forall|j: int| 0 <= j < i ==> text::is_lower_hex(s@[j]),
        decreases s.len() - i,
    {
        let c = s[i];
        if !(('0' <= c && c <= '9') || ('a' <= c && c <= 'f')) {
            return false;
        }
        i = i + 1;
    }
    true
}

pub fn leading_ws(s: &Vec<char>) -> (n: usize)
    ensures
        n == text::leading_ws(s@),
        n <= s.len(),
{
    let mut i: usize = 0;
    assert(s@.skip(0) == s@);
    while i < s.len() && text::is_whitespace(s[i])
        invariant
            i <= s.len(),
            text::leading_ws(s@) == i + text::leading_ws(s@.skip(i as int)),
        decreases s.len() - i,
    {
        assert(s@.skip(i as int).drop_first() == s@.skip(i + 1));
        i = i + 1;
    }
    i
}

pub fn leading_spaces(s: &Vec<char>) -> (n: usize)
    ensures
        n == text::leading_spaces(s@),
        n <= s.len(),
{
    let mut i: usize = 0;
    assert(s@.skip(0) == s@);
    while i < s.len() && s[i] == ' '
        invariant
            i <= s.len(),
            text::leading_spaces(s@) == i + text::leading_spaces(s@.skip(i as int)),
        decreases s.len() - i,
    {
        assert(s@.skip(i as int).drop_first() == s@.skip(i + 1));
        i = i + 1;
    }
    i
}

pub fn leading_digits(s: &Vec<char>) -> (n: usize)
    ensures
        n == text::leading_digits(s@),
        n <= s.len(),
{
    let mut i: usize = 0;
    assert(s@.skip(0) == s@);
    while i < s.len() && is_digit(s[i])
        invariant
            i <= s.len(),
            text::leading_digits(s@) == i + text::leading_digits(s@.skip(i as int)),
        decreases s.len() - i,
    {
        assert(s@.skip(i as int).drop_first() == s@.skip(i + 1));
        i = i + 1;
    }
    i
}

pub fn leading_spaces_or_digits(s: &Vec<char>) -> (n: usize)
    ensures
        n == text::leading_spaces_or_digits(s@),
        n <= s.len(),
{
    let mut i: usize = 0;
    assert(s@.skip(0) == s@);
    while i < s.len() && (s[i] == ' ' || is_digit(s[i]))
        invariant
            i <= s.len(),
            text::leading_spaces_or_digits(s@) == i + text::leading_spaces_or_digits(s@.skip(i as int)),
        decreases s.len() - i,
    {
        assert(s@.skip(i as int).drop_first() == s@.skip(i + 1));
        i = i + 1;
    }
    i
}

pub fn trailing_ws(s: &Vec<char>) -> (n: usize)
    ensures
        n == text::trailing_ws(s@),
        n <= s.len(),
{
    let mut end: usize = s.len();
    assert(s@.take(s.len() as int) == s@);
    while end > 0 && text::is_whitespace(s[end - 1])
        invariant
            end <= s.len(),
            text::trailing_ws(s@) == (s.len() - end) + text::trailing_ws(s@.take(end as int)),
        decreases end,
    {
        assert(s@.take(end as int).drop_last() == s@.take(end - 1));
        end = end - 1;
    }
    s.len() - end
}

pub fn trailing_digits(s: &Vec<char>) -> (n: usize)
    ensures
        n == text::trailing_digits(s@),
        n <= s.len(),
{
    let mut end: usize = s.len();
    assert(s@.take(s.len() as int) == s@);
    while end > 0 && is_digit(s[end - 1])
        invariant
            end <= s.len(),
            text::trailing_digits(s@) == (s.len() - end) + text::trailing_digits(s@.take(end as int)),
        decreases end,
    {
        assert(s@.take(end as int).drop_last() == s@.take(end - 1));
        end = end - 1;
    }
    s.len() - end
}

/// `str::trim_start`.
pub fn trim_start(s: &Vec<char>) -> (r: Vec<char>)
    ensures
        r@ == text::trim_start(s@),
{
    let n = leading_ws(s);
    let r = slice(s, n, s.len());
    assert(s@.skip(n as int) == s@.subrange(n as int, s.len() as int));
    r
}

/// `str::trim_end`.
pub fn trim_end(s: &Vec<char>) -> (r: Vec<char>)
    ensures
        r@ == text::trim_end(s@),
{
    let n = trailing_ws(s);
    let r = slice(s, 0, s.len() - n);
    assert(s@.take(s.len() - n) == s@.subrange(0, s.len() - n));
    r
}

/// `str::replace(p, r)`.
pub fn replace_all(s: &Vec<char>, p: &Vec<char>, r: &Vec<char>) -> (out: Vec<char>)
    ensures
        out@ == text::replace_all(s@, p@, r@),
{
    let mut out: Vec<char> = Vec::new();
    let mut pos: usize = 0;
    assert(s@.skip(0) == s@);
    if p.len() == 0 {
        while pos < s.len()
            invariant
                pos <= s.len(),
                p@.len() == 0,
                text::replace_empty(s@, r@) == out@ + text::replace_empty(s@.skip(pos as int), r@),
            decreases s.len() - pos,
        {
            assert(s@.skip(pos as int).drop_first() == s@.skip(pos + 1));
            push_all(&mut out, r);
            out.push(s[pos]);
            pos = pos + 1;
        }
        push_all(&mut out, r);
        assert(s@.skip(s.len() as int) == Seq::<char>::empty());
        return out;
    }
    while pos < s.len()
        invariant
            pos <= s.len(),
            p@.len() > 0,
            text::replace_nonempty(s@, p@, r@) == out@ + text::replace_nonempty(s@.skip(pos as int), p@, r@),
        decreases s.len() - pos,
    {
        if p.len() > s.len() - pos {
            let rest = slice(s, pos, s.len());
            assert(rest@ == s@.skip(pos as int));
            push_all(&mut out, &rest);
            assert(s@.skip(s.len() as int) == Seq::<char>::empty());
            pos = s.len();
        } else if occurs_at(s, p, pos) {
            assert(s@.skip(pos as int).take(p.len() as int) == s@.subrange(pos as int, pos + p.len()));
            assert(s@.skip(pos as int).skip(p.len() as int) == s@.skip(pos + p.len()));
            push_all(&mut out, r);
            pos = pos + p.len();
        } else {
            assert(s@.skip(pos as int).take(p.len() as int) == s@.subrange(pos as int, pos + p.len()));
            assert(s@.skip(pos as int).drop_first() == s@.skip(pos + 1));
            out.push(s[pos]);
            pos = pos + 1;
        }
    }
    assert(s@.skip(s.len() as int) == Seq::<char>::empty());
    out
}

/// The views of a vector of texts.
pub open spec fn views(v: Seq<Vec<char>>) -> Seq<Seq<char>> {
    v.map_values(|x: Vec<char>| x@)
}

/// `str::split(p)`, each piece as its own vector.
pub fn split(s: &Vec<char>, p: &Vec<char>) -> (out: Vec<Vec<char>>)
    ensures
        views(out@) == text::split(s@, p@),
{
    let mut out: Vec<Vec<char>> = Vec::new();
    if p.len() == 0 {
        out.push(Vec::new());
        let mut i: usize = 0;
        assert(views(out@) =~= seq![Seq::<char>::empty()] + Seq::new(0, |k: int| seq![s@[k]]));
        while i < s.len()
            invariant
                i <= s.len(),
                views(out@) == seq![Seq::<char>::empty()] + Seq::new(i as nat, |k: int| seq![s@[k]]),
            decreases s.len() - i,
        {
            let mut one: Vec<char> = Vec::new();
            one.push(s[i]);
            let ghost before = out@;
            out.push(one);
            assert(views(out@) == views(before).push(one@));
            i = i + 1;
            assert(views(out@) =~= seq![Seq::<char>::empty()] + Seq::new(i as nat, |k: int| seq![s@[k]]));
        }
        let ghost before = out@;
        out.push(Vec::new());
        assert(views(out@) == views(before).push(Seq::<char>::empty()));
        assert(views(out@) =~= text::split_empty(s@));
        return out;
    }
    let mut pos: usize = 0;
    assert(s@.skip(0) == s@);
    assert(views(out@) == Seq::<Seq<char>>::empty());
    loop
        invariant
            pos <= s.len(),
            p@.len() > 0,
            text::split_nonempty(s@, p@) == views(out@) + text::split_nonempty(s@.skip(pos as int), p@),
        decreases s.len() - pos,
    {
        let found = find_from(s, p, pos);
        proof {
            text::lemma_find_skip(s@, p@, pos as int, 0);
            text::lemma_find_from_found(s@, p@, pos as int);
        }
        match found {
            Some(i) => {
                let piece = slice(s, pos, i);
                assert(s@.skip(pos as int).take(i - pos) == piece@);
                assert(s@.skip(pos as int).skip(i - pos + p.len()) == s@.skip(i + p.len()));
                out.push(piece);
                assert(views(out@) == views(out@.drop_last()).push(piece@));
                pos = i + p.len();
            },
            None => {
                let piece = slice(s, pos, s.len());
                assert(s@.skip(pos as int) == piece@);
                out.push(piece);
                assert(views(out@) == views(out@.drop_last()).push(piece@));
                return out;
            },
        }
    }
}

/// `str::lines`, each line as its own vector.
pub fn lines(s: &Vec<char>) -> (out: Vec<Vec<char>>)
    ensures
        views(out@) == text::lines(s@),
{
    let mut out: Vec<Vec<char>> = Vec::new();
    let mut pos: usize = 0;
    assert(s@.skip(0) == s@);
    assert(views(out@) == Seq::<Seq<char>>::empty());
    while pos < s.len()
        invariant
            pos <= s.len(),
            text::lines(s@) == views(out@) + text::lines(s@.skip(pos as int)),
        decreases s.len() - pos,
    {
        let found = find_char_from(s, '\n', pos);
        proof {
            text::lemma_find_char_skip(s@, '\n', pos as int, 0);
            text::lemma_find_char_found(s@, '\n', pos as int);
        }
        match found {
            Some(i) => {
                let mut line = slice(s, pos, i);
                if line.len() > 0 && line[line.len() - 1] == '\r' {
                    line.pop();
                }
                assert(line@ == text::strip_cr(s@.skip(pos as int).take(i - pos)));
                assert(s@.skip(pos as int).skip(i - pos + 1) == s@.skip(i + 1));
                out.push(line);
                assert(views(out@) == views(out@.drop_last()).push(line@));
                pos = i + 1;
            },
            None => {
                let line = slice(s, pos, s.len());
                assert(s@.skip(pos as int) == line@);
                out.push(line);
                assert(views(out@) == views(out@.drop_last()).push(line@));
                pos = s.len();
            },
        }
    }
    assert(s@.skip(s.len() as int) == Seq::<char>::empty());
    out
}

/// Calls `Iterator::collect` on the characters, building a `String`.
/// Trusted: the string holds exactly the given characters.
#[verifier::external_body]
pub(crate) fn string_of(v: &Vec<char>) -> (s: String)
    ensures
        s@ == v@,
{
    v.iter().collect()
}

} // verus!
