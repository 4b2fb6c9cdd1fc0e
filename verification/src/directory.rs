//! A directory path that always reads unambiguously as a directory.
use vstd::prelude::*;

verus! {

/// What `PathBuf::push("")` makes of a path: the path with a trailing
/// separator of the platform, unless it is empty or already ends with one.
pub uninterp spec fn std_as_directory(path: Seq<char>) -> Seq<char>;

/// Pushes an empty component onto the path with `PathBuf::push`. Trusted:
/// the result is the named directory form of the argument.
#[verifier::external_body]
fn as_directory(path: &str) -> (r: String)
    ensures
        r@ == std_as_directory(path@),
{
    let mut buf = std::path::PathBuf::from(path);
    buf.push("");
    buf.to_string_lossy().into_owned()
}

/// What `Path::join` gives: `tail` after `dir` and the platform's separator,
/// or `tail` alone when it is absolute.
pub uninterp spec fn std_path_join(dir: Seq<char>, tail: Seq<char>) -> Seq<char>;

/// Calls `Path::join`. Trusted: the result is the named join of the two
/// arguments.
#[verifier::external_body]
pub(crate) fn join_path(dir: &str, tail: &str) -> (r: String)
    ensures
        r@ == std_path_join(dir@, tail@),
{
    std::path::Path::new(dir).join(tail).to_string_lossy().into_owned()
}

/// What `Path::parent` returns for a path: the path without its final
/// component, or nothing for a root or empty path.
pub uninterp spec fn std_path_parent(path: Seq<char>) -> Option<Seq<char>>;

/// Calls `Path::parent`. Trusted: the result is the named parent of the
/// argument, a function of the argument alone.
#[verifier::external_body]
pub(crate) fn path_parent(path: &str) -> (r: Option<String>)
    ensures
        r matches Some(p) ==> std_path_parent(path@) == Some(p@),
        r is None ==> std_path_parent(path@) is None,
{
    std::path::Path::new(path).parent().map(|p| p.to_string_lossy().into_owned())
}

/// What `Path::with_extension` gives for a path and an extension.
pub uninterp spec fn std_with_extension(path: Seq<char>, ext: Seq<char>) -> Seq<char>;

/// Calls `Path::with_extension`. Trusted: the result is the named
/// replacement of the path's extension, a function of the two arguments.
/// `PathBuf::set_extension` panics on an extension that holds a path
/// separator, so such extensions are ruled out.
#[verifier::external_body]
pub(crate) fn with_extension(path: &str, ext: &str) -> (r: String)
    requires
        forall|i: int| 0 <= i < ext@.len() ==> ext@[i] != '/' && ext@[i] != '\\',
    ensures
        r@ == std_with_extension(path@, ext@),
{
    std::path::Path::new(path).with_extension(ext).to_string_lossy().into_owned()
}

/// What `Path::file_name` gives for a path: its final component, or nothing
/// for a path that ends in `..` or is a root.
pub uninterp spec fn std_file_name(path: Seq<char>) -> Option<Seq<char>>;

/// Calls `Path::file_name`. Trusted: the result is the named final
/// component of the argument.
#[verifier::external_body]
pub(crate) fn file_name(path: &str) -> (r: Option<String>)
    ensures
        r matches Some(n) ==> std_file_name(path@) == Some(n@),
        r is None ==> std_file_name(path@) is None,
{
    std::path::Path::new(path).file_name().map(|n| n.to_string_lossy().into_owned())
}

/// A filesystem directory path, always carrying a trailing separator unless
/// it is empty.
#[derive(Clone, Debug)]
pub struct Directory {
    path: String,
}

impl View for Directory {
    type V = Seq<char>;

    closed spec fn view(&self) -> Seq<char> {
        self.path@
    }
}

impl Directory {
    /// Wraps `input`, appending a trailing separator so it reads as a
    /// directory.
    pub fn new(input: &str) -> (d: Directory)
        ensures
            d@ == std_as_directory(input@),
    {
        Directory { path: as_directory(input) }
    }

    /// The path as text.
    pub fn to_string_lossy(&self) -> (r: &str)
        ensures
            r@ == self@,
    {
        self.path.as_str()
    }

    /// Joins `tail` onto this directory.
    pub fn join(&self, tail: &str) -> (r: String)
        ensures
            r@ == std_path_join(self@, tail@),
    {
        join_path(self.path.as_str(), tail)
    }

    /// This directory's parent, if any.
    pub fn parent(&self) -> (r: Option<Directory>)
        ensures
            r matches Some(d) ==> (std_path_parent(self@) matches Some(p) && d@ == std_as_directory(p)),
            r is None ==> std_path_parent(self@) is None,
    {
        match path_parent(self.path.as_str()) {
            Some(p) => Some(Directory::new(p.as_str())),
            None => None,
        }
    }
}

} // verus!
