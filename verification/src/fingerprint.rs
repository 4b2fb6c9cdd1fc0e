//! Where cargo's fingerprint of the running test binary lies, which records
//! the features the binary was built with, so that the generated project is
//! built with the same set.
//!
//! Listing directories and reading the fingerprint is the caller's part:
//! these functions say which paths to look at and which entries to take.
use vstd::prelude::*;

use crate::chars;
use crate::directory::{file_name, join_path, path_parent, std_file_name, std_path_join, std_path_parent};
use crate::text;

verus! {

/// What `Path::extension` gives for a path.
pub uninterp spec fn std_extension(path: Seq<char>) -> Option<Seq<char>>;

/// Calls `Path::extension`. Trusted: the result is the named extension of
/// the argument.
#[verifier::external_body]
fn extension(path: &str) -> (r: Option<String>)
    ensures
        r matches Some(e) ==> std_extension(path@) == Some(e@),
        r is None ==> std_extension(path@) is None,
{
    std::path::Path::new(path).extension().map(|e| e.to_string_lossy().into_owned())
}

/// `n - k`, or zero when `k` is larger.
pub open spec fn saturating_sub(n: int, k: int) -> int {
    if n >= k { n - k } else { 0 }
}

/// The `-<hash>` suffix of a test binary in cargo's legacy layout
/// (`target/debug/deps/<name>-<16 hex digits>`, with `.exe` after it on
/// Windows): the last 17 characters before any `.exe`, when they are a dash
/// and lowercase hex digits.
pub open spec fn legacy_hash_of(binary: Seq<char>, windows: bool) -> Option<Seq<char>> {
    let n = binary.len() as int;
    let hash = if windows {
        binary.subrange(saturating_sub(n, 21), saturating_sub(n, 4))
    } else {
        binary.subrange(saturating_sub(n, 17), n)
    };
    if hash.len() > 0 && hash[0] == '-' && text::all_lower_hex(hash.skip(1)) {
        Some(hash)
    } else {
        None
    }
}

/// The hash suffix of the test binary in cargo's legacy layout.
pub fn legacy_hash(binary: &str, windows: bool) -> (r: Option<String>)
    ensures
        match legacy_hash_of(binary@, windows) {
            Some(h) => r matches Some(s) && s@ == h,
            None => r is None,
        },
{
    let v = chars::chars_of(binary);
    let n = v.len();
    let hash = if windows {
        let start = if n >= 21 { n - 21 } else { 0 };
        let end = if n >= 4 { n - 4 } else { 0 };
        chars::slice(&v, start, end)
    } else {
        let start = if n >= 17 { n - 17 } else { 0 };
        chars::slice(&v, start, n)
    };
    if hash.len() > 0 && hash[0] == '-' {
        let digits = chars::get_from(&hash, 1);
        if chars::all_lower_hex(&digits) {
            return Some(chars::string_of(&hash));
        }
    }
    None
}

/// The legacy fingerprint directory: `.fingerprint` beside the directory
/// that holds the binary's directory.
pub open spec fn legacy_fingerprint_dir_of(binary: Seq<char>) -> Option<Seq<char>> {
    match std_path_parent(binary) {
        Some(deps) => match std_path_parent(deps) {
            Some(up) => Some(std_path_join(up, ".fingerprint"@)),
            None => None,
        },
        None => None,
    }
}

/// Where the legacy layout keeps the fingerprints of a test binary.
pub fn legacy_fingerprint_dir(binary: &str) -> (r: Option<String>)
    ensures
        match legacy_fingerprint_dir_of(binary@) {
            Some(d) => r matches Some(s) && s@ == d,
            None => r is None,
        },
{
    let deps = path_parent(binary)?;
    let up = path_parent(deps.as_str())?;
    Some(join_path(up.as_str(), ".fingerprint"))
}

/// The fingerprint directory of the new build-directory layout
/// (`target/debug/build/<crate>/<hash>/out/<binary>`): `fingerprint` beside
/// the `out` directory that holds the binary.
pub open spec fn new_fingerprint_dir_of(binary: Seq<char>) -> Option<Seq<char>> {
    match std_path_parent(binary) {
        Some(out) => if std_file_name(out) == Some("out"@) {
            match std_path_parent(out) {
                Some(build) => Some(std_path_join(build, "fingerprint"@)),
                None => None,
            }
        } else {
            None
        },
        None => None,
    }
}

/// Where the new layout keeps the fingerprint of a test binary.
pub fn new_fingerprint_dir(binary: &str) -> (r: Option<String>)
    ensures
        match new_fingerprint_dir_of(binary@) {
            Some(d) => r matches Some(s) && s@ == d,
            None => r is None,
        },
{
    let out = path_parent(binary)?;
    let is_out = match file_name(out.as_str()) {
        Some(name) => chars::equals(&chars::chars_of(name.as_str()), &chars::chars_of("out")),
        None => false,
    };
    if !is_out {
        return None;
    }
    let build = path_parent(out.as_str())?;
    Some(join_path(build.as_str(), "fingerprint"))
}

/// A directory entry: its name (or path) and whether it is of the kind
/// sought (a directory, or a regular file).
pub type Entry = (String, bool);

/// The positions of the entries that `wanted` accepts, in order.
pub open spec fn positions(entries: Seq<Entry>, wanted: spec_fn(Entry) -> bool) -> Seq<int>
    decreases entries.len(),
{
    if entries.len() == 0 {
        Seq::empty()
    } else {
        let rest = positions(entries.drop_last(), wanted);
        if wanted(entries.last()) {
            rest.push(entries.len() - 1)
        } else {
            rest
        }
    }
}

/// The single entry that `wanted` accepts, when exactly one does.
pub open spec fn single(entries: Seq<Entry>, wanted: spec_fn(Entry) -> bool) -> Option<int> {
    let p = positions(entries, wanted);
    if p.len() == 1 {
        Some(p[0])
    } else {
        None
    }
}

/// A legacy fingerprint directory of the binary: a directory whose name
/// ends with the binary's hash.
pub open spec fn is_hash_dir(hash: Seq<char>) -> spec_fn(Entry) -> bool {
    |e: Entry| e.1 && text::ends_with(e.0@, hash)
}

/// A fingerprint file: a regular file with the extension `json`.
pub open spec fn is_json_file() -> spec_fn(Entry) -> bool {
    |e: Entry| e.1 && std_extension(e.0@) == Some("json"@)
}

/// Picks the one legacy fingerprint directory of the binary among the
/// entries of `.fingerprint` (name, is a directory); none when there is no
/// such directory or more than one.
pub fn select_fingerprint(entries: &[Entry], hash: &str) -> (r: Option<usize>)
    ensures
        match single(entries@, is_hash_dir(hash@)) {
            Some(i) => r == Some(i as usize),
            None => r is None,
        },
{
    let h = chars::chars_of(hash);
    let mut found: Vec<usize> = Vec::new();
    let mut i: usize = 0;
    while i < entries.len()
        invariant
            i <= entries.len(),
            h@ == hash@,
            found@.map_values(|k: usize| k as int) == positions(entries@.take(i as int), is_hash_dir(hash@)),
            forall|k: int| 0 <= k < found@.len() ==> found@[k] < i,
        decreases entries.len() - i,
    {
        assert(entries@.take(i + 1).drop_last() == entries@.take(i as int));
        assert(entries@.take(i + 1).last() == entries@[i as int]);
        let accepted = entries[i].1 && chars::ends_with(&chars::chars_of(entries[i].0.as_str()), &h);
        let ghost before = found@;
        if accepted {
            found.push(i);
            assert(found@.map_values(|k: usize| k as int) =~= before.map_values(|k: usize| k as int).push(
                i as int,
            ));
        }
        i = i + 1;
    }
    assert(entries@.take(entries.len() as int) == entries@);
    if found.len() == 1 {
        assert(found@.map_values(|k: usize| k as int)[0] == found@[0] as int);
        Some(found[0])
    } else {
        None
    }
}

/// Picks the one fingerprint file among the entries of a fingerprint
/// directory (path, is a regular file); none when there is no `.json` file
/// or more than one.
pub fn select_json(entries: &[Entry]) -> (r: Option<usize>)
    ensures
        match single(entries@, is_json_file()) {
            Some(i) => r == Some(i as usize),
            None => r is None,
        },
{
    let json = chars::chars_of("json");
    let mut found: Vec<usize> = Vec::new();
    let mut i: usize = 0;
    while i < entries.len()
        invariant
            i <= entries.len(),
            json@ == "json"@,
            found@.map_values(|k: usize| k as int) == positions(entries@.take(i as int), is_json_file()),
            forall|k: int| 0 <= k < found@.len() ==> found@[k] < i,
        decreases entries.len() - i,
    {
        assert(entries@.take(i + 1).drop_last() == entries@.take(i as int));
        assert(entries@.take(i + 1).last() == entries@[i as int]);
        let accepted = entries[i].1 && match extension(entries[i].0.as_str()) {
            Some(e) => chars::equals(&chars::chars_of(e.as_str()), &json),
            None => false,
        };
        let ghost before = found@;
        if accepted {
            found.push(i);
            assert(found@.map_values(|k: usize| k as int) =~= before.map_values(|k: usize| k as int).push(
                i as int,
            ));
        }
        i = i + 1;
    }
    assert(entries@.take(entries.len() as int) == entries@);
    if found.len() == 1 {
        assert(found@.map_values(|k: usize| k as int)[0] == found@[0] as int);
        Some(found[0])
    } else {
        None
    }
}

} // verus!
