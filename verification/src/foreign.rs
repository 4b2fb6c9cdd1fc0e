//! Declarations of the error types of std and of outside crates that the
//! library's own error types carry through unchanged.
use vstd::prelude::*;

verus! {

/// `std::io::Error`, carried as an opaque value.
#[verifier::external_type_specification]
#[verifier::external_body]
pub struct ExIoError(std::io::Error);

/// `serde_json::Error`, carried as an opaque value.
#[verifier::external_type_specification]
#[verifier::external_body]
pub struct ExJsonError(serde_json::Error);

/// `glob::GlobError`, carried as an opaque value.
#[verifier::external_type_specification]
#[verifier::external_body]
pub struct ExGlobError(glob::GlobError);

/// `glob::PatternError`, carried as an opaque value.
#[verifier::external_type_specification]
#[verifier::external_body]
pub struct ExPatternError(glob::PatternError);

} // verus!
