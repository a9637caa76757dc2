//! A verified core for a server-rendered to-do list: an ordered item store,
//! a view-model mapper, an HTML renderer, and a route table.

pub mod handler;
pub mod render;
pub mod route;
pub mod store;
pub mod view;

use vstd::prelude::*;

verus! {

/// The failure taxonomy of the application. Every variant collapses to the
/// same opaque server error at the HTTP boundary.
#[derive(Debug)]
pub enum Error {
    /// A failure of the backing store (connectivity, constraint, exhaustion).
    Storage,
    /// A failure to render a template.
    Template,
    /// The shared state lock could not be acquired.
    StateAccess,
}

impl Error {
    /// The HTTP translation of any failure: status 500 with a fixed message.
    pub fn into_response(&self) -> (r: (u16, String))
        ensures
            r.0 == 500,
            r.1@ == "oops something went wrong"@,
    {
        (500, "oops something went wrong".to_owned())
    }
}

} // verus!
