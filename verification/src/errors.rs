//! The library's error type, mirrored by the HTTP layer into response
//! statuses.

use vstd::prelude::*;

verus! {

/// What an administrative operation can fail with.
#[derive(Clone, Debug)]
pub enum Error {
    /// A request failed validation; carries the message.
    Validation(String),
    /// The store reported a failure; carries the message.
    Db(String),
    /// A regex pattern or pattern set failed to compile; carries the
    /// message.
    Regex(String),
    /// The addressed rule does not exist.
    NotFound,
    /// An internal failure, such as automaton construction failing
    /// structurally.
    Internal,
    /// The caller is not authorized.
    Unauthorized,
}

} // verus!
