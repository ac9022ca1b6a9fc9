//! The standard-library values a scan carries but never looks inside.

use vstd::prelude::*;

verus! {

/// A path handed to the walk by its driver and handed back in requests and
/// skipped entries; the walk never inspects it.
#[verifier::external_type_specification]
#[verifier::external_body]
pub struct ExPathBuf(std::path::PathBuf);

/// An I/O error reported by the driver; the walk only records it or returns
/// it, never inspects it.
#[verifier::external_type_specification]
#[verifier::external_body]
pub struct ExIoError(std::io::Error);

/// `<PathBuf as Clone>::clone`: claims that the copy is the same path as the
/// original (std's `Clone` for `PathBuf` copies the underlying `OsString`).
pub assume_specification[ <std::path::PathBuf as Clone>::clone ](p: &std::path::PathBuf) -> (res: std::path::PathBuf)
    ensures
        res == *p,
;

} // verus!
