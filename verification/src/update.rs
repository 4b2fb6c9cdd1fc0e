//! The snapshot update mode, selected by the `TRYBUILD` environment variable.
use vstd::prelude::*;

use crate::chars;

verus! {

/// How the runner reconciles a `compile_fail` test with its `.stderr` snapshot.
#[derive(Clone, Copy, PartialEq, Eq, Debug, Structural)]
pub enum Update {
    /// Fail when a snapshot is missing or mismatched, writing nothing.
    Verify,
    /// Default: write a new snapshot under `wip` (or report a mismatch)
    /// without touching the saved file.
    Wip,
    /// Write the snapshot in place (`TRYBUILD=overwrite`).
    Overwrite,
}

impl Default for Update {
    fn default() -> (r: Update)
        ensures
            r == Update::Wip,
    {
        Update::Wip
    }
}

/// The mode a `TRYBUILD` value selects: none when unset means `Wip`, the
/// three recognized words select their mode, anything else is rejected.
pub open spec fn parsed_update(raw: Option<Seq<char>>) -> Option<Update> {
    match raw {
        None => Some(Update::Wip),
        Some(v) => if v == "verify"@ {
            Some(Update::Verify)
        } else if v == "wip"@ {
            Some(Update::Wip)
        } else if v == "overwrite"@ {
            Some(Update::Overwrite)
        } else {
            None
        },
    }
}

/// How `{:?}` renders a string: quoted, with quotes, backslashes and
/// unprintable characters escaped.
pub uninterp spec fn std_debug_str(s: Seq<char>) -> Seq<char>;

/// Renders a string with `{:?}`. Trusted: the result is the named Debug
/// rendering of the argument.
#[verifier::external_body]
fn debug_str(s: &str) -> (r: String)
    ensures
        r@ == std_debug_str(s@),
{
    format!("{:?}", s)
}

/// A `TRYBUILD` value that names no update mode.
#[derive(Clone, Debug, PartialEq, Eq)]
pub struct UnrecognizedUpdate {
    /// The value, as text.
    pub value: String,
}

impl UnrecognizedUpdate {
    /// What the error says: the value and the modes that are recognized.
    pub fn message(&self) -> (r: String)
        ensures
            r@ == "unrecognized value of TRYBUILD: "@ + std_debug_str(self.value@)
                + " is not one of \"verify\", \"wip\", \"overwrite\""@,
    {
        let quoted = debug_str(self.value.as_str());
        let head = chars::concat(&chars::chars_of("unrecognized value of TRYBUILD: "), &chars::chars_of(quoted.as_str()));
        let all = chars::concat(&head, &chars::chars_of(" is not one of \"verify\", \"wip\", \"overwrite\""));
        chars::string_of(&all)
    }
}

impl Update {
    /// Parses an optional `TRYBUILD` value (unset means the default, `Wip`);
    /// an unrecognized value is rejected with the value itself.
    pub fn parse(raw: Option<&str>) -> (r: Result<Update, UnrecognizedUpdate>)
        ensures
            match raw {
                None => r == Ok::<Update, UnrecognizedUpdate>(Update::Wip),
                Some(v) => match parsed_update(Some(v@)) {
                    Some(u) => r == Ok::<Update, UnrecognizedUpdate>(u),
                    None => r matches Err(e) && e.value@ == v@,
                },
            },
    {
        let var = match raw {
            None => return Ok(Update::default()),
            Some(var) => var,
        };
        let v = chars::chars_of(var);
        if chars::equals(&v, &chars::chars_of("verify")) {
            Ok(Update::Verify)
        } else if chars::equals(&v, &chars::chars_of("wip")) {
            Ok(Update::Wip)
        } else if chars::equals(&v, &chars::chars_of("overwrite")) {
            Ok(Update::Overwrite)
        } else {
            Err(UnrecognizedUpdate { value: chars::string_of(&v) })
        }
    }
}

} // verus!
