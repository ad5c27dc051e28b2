//! The settings of the application that the state depends on.

use vstd::prelude::*;

verus! {

/// Settings chosen on the command line.
pub struct TereSettings {
    /// Only folders are listed.
    pub folders_only: bool,
    /// A search hides the items that do not match it.
    pub filter_search: bool,
}

impl Default for TereSettings {
    fn default() -> (r: Self)
        ensures
            !r.folders_only,
            !r.filter_search,
    {
        TereSettings { folders_only: false, filter_search: false }
    }
}

} // verus!
