//! The one place the library touches the host filesystem directly.

use vstd::prelude::*;

verus! {

/// Whether a path exists on the host filesystem, relative to the working
/// directory.  Relies on `std::path::Path::exists`; what it answers
/// depends on the disk, so nothing more can be promised of the result.
#[verifier::external_body]
pub fn pathexists(filename: String) -> bool {
    let path: std::path::PathBuf = [".".to_string(), filename].iter().collect();
    path.exists()
}

} // verus!
