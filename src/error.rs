//! The library's error taxonomy.
use vstd::prelude::*;

verus! {

/// Why an operation on the store or the selector did not succeed.
#[derive(Clone, Copy, Debug, PartialEq, Eq, Structural)]
pub enum BotError {
    /// A user-supplied value is malformed or missing.
    InvalidInput,
    /// A referenced entity does not exist.
    NotFound,
    /// A create would break a uniqueness rule.
    Conflict,
    /// Every candidate has already been shown to the viewer.
    Exhausted,
}

} // verus!
