//! The supported protocol revisions the server reports.

use vstd::prelude::*;

verus! {

/// The list of supported protocol revisions.
#[derive(Debug)]
pub struct Versions {
    pub versions: Vec<&'static str>,
}

impl Versions {
    /// Returns the list of supported protocol revisions.
    pub fn supported() -> (v: Versions)
        ensures
            v.versions@.len() == 1,
            v.versions@[0]@ == "r0.2.0"@,
    {
        Versions { versions: vec!["r0.2.0"] }
    }
}

} // verus!
