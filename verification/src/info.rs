//! What the library says of itself.

use vstd::prelude::*;

verus! {

/// The version of the library.
pub const VERSION: &'static str = "0.1.0";

/// The version of the library and the optional parts that it was built
/// with.
#[derive(Clone, Debug)]
pub struct LibraryInfo {
    pub version: &'static str,
    pub features: Vec<&'static str>,
}

/// The optional parts that the library was built with: it has none.
pub fn get_enabled_features() -> (r: Vec<&'static str>)
    ensures
        r@.len() == 0,
{
    Vec::new()
}

/// The version of the library and the optional parts that it was built
/// with.
pub fn info() -> (r: LibraryInfo)
    ensures
        r.version@ == VERSION@,
        r.features@.len() == 0,
{
    LibraryInfo { version: VERSION, features: get_enabled_features() }
}

} // verus!
