//! A header-driven directory browser: confines request paths to a root,
//! projects directory entries, finds the nearest listing template and
//! answers thumbnail requests with conditional caching.
use vstd::prelude::*;

pub mod entry;
pub mod listing;
pub mod route;
pub mod tag;
pub mod text;
pub mod thumbnail;

verus! {

/// The greeting served at the site root.
pub fn index() -> (r: &'static str)
    ensures
        r@ == "Hello, world!"@,
{
    "Hello, world!"
}

/// The paths that the site mounts at its root: the index alone.
pub fn rocket() -> (r: (String, Vec<String>))
    ensures
        r.0@ == "/"@,
        r.1@.len() == 1,
        r.1@[0]@ == "/"@,
{
    let mut routes: Vec<String> = Vec::new();
    routes.push(String::from_str("/"));
    (String::from_str("/"), routes)
}

/// The template filter that shows a byte count in binary units.
pub struct AsBytesFilter;

impl AsBytesFilter {
    /// The name templates use for the filter.
    pub fn name(&self) -> (r: &'static str)
        ensures
            r@ == "as_bytes"@,
    {
        "as_bytes"
    }
}

} // verus!
