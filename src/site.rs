//! Site-wide configuration and the greeting route.
use vstd::prelude::*;

verus! {

/// Configuration read at start-up.
#[derive(Debug)]
pub struct Settings {
    /// The directory that holds the entity images.
    pub image_folder: String,
    /// The audience that login tokens must be issued for.
    pub google_client_id: String,
}

/// The greeting served at the root.
pub fn index() -> (r: &'static str)
    ensures
        r@ == "Hello, world!"@,
{
    "Hello, world!"
}

} // verus!
