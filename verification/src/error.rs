//! The failure value surfaced by store operations: a one-line text
//! describing what went wrong, shown to the user, never panicking.
use vstd::prelude::*;

verus! {

/// A typed failure carrying its user-visible description.
#[derive(Debug, PartialEq)]
pub struct AppError(pub String);

} // verus!
