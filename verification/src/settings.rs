//! What the program is configured with at startup: the remote
//! catalog's access token and the path of the store file.
use vstd::prelude::*;

verus! {

/// The startup configuration, loaded once; its absence or malformation
/// is a fatal startup error handled outside the library.
#[derive(Debug, PartialEq)]
pub struct Settings {
    pub discogs_key: String,
    pub database_path: String,
}

} // verus!
