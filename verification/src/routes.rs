//! The pages of the web client.
use vstd::prelude::*;

verus! {

/// A page: the landing page, a room by its id, or the page for unknown paths.
pub enum Route {
    Home,
    Room { id: String },
    NotFound,
}

} // verus!
