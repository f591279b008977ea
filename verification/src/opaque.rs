//! Outside types that the library carries without looking inside:
//! filesystem paths and JSON values.

use vstd::prelude::*;

verus! {

/// `std::path::PathBuf`, carried as an opaque value.
#[verifier::external_type_specification]
#[verifier::external_body]
pub struct ExPathBuf(std::path::PathBuf);

/// `serde_json::Value`, carried as an opaque value.
#[verifier::external_type_specification]
#[verifier::external_body]
pub struct ExJsonValue(serde_json::Value);

/// `<PathBuf as Clone>::clone` returns a path equal to the original.
pub assume_specification[ <std::path::PathBuf as Clone>::clone ](
    p: &std::path::PathBuf,
) -> (r: std::path::PathBuf)
    ensures
        r == *p,
;

/// `<serde_json::Value as Clone>::clone` (derived) returns a value equal to
/// the original.
pub assume_specification[ <serde_json::Value as Clone>::clone ](
    v: &serde_json::Value,
) -> (r: serde_json::Value)
    ensures
        r == *v,
;

} // verus!
