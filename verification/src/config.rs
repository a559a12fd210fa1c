//! Process configuration as plain values.

use vstd::prelude::*;

verus! {

/// Where the catalogue lives and where caches are kept.
#[derive(Debug, Clone, PartialEq, Eq)]
pub struct Config {
    /// Location of the catalogue database.
    pub database: String,
    /// Home directory under which extraction and thumbnail caches are kept.
    pub pustaka_home: String,
}

} // verus!
