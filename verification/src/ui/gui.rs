//! The rows of the interface's user and stream lists.
use vstd::prelude::*;

verus! {

/// A connected user, as listed.
pub struct User {
    pub uid: u64,
    pub username: String,
}

/// A running stream, as listed.
pub struct Stream {
    pub uid: u64,
    pub username: String,
}

} // verus!
