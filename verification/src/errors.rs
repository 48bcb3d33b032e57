//! The ways an operation of this library can fail.

use vstd::prelude::*;

verus! {

/// Why an operation was refused.
#[derive(Clone, Copy, Debug, PartialEq, Eq, Structural)]
pub enum Error {
    /// No such record, or the caller does not own it. The two are merged on
    /// purpose, so that a caller cannot learn that a foreign record exists.
    NotFound,
    /// The token is missing, malformed, forged or expired, or names no user.
    Auth,
    /// The store refused the write: the key or the username is taken, or no
    /// digest could be made for the password.
    Storage,
    /// A parent record has a type tag that no kind answers to, or its payload
    /// is missing. This never happens to records made through this library.
    Integrity,
}

} // verus!
