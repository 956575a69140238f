//! Protocol-level error carrying a status code and a human-readable detail.

use vstd::prelude::*;

verus! {

/// An HTTP-level failure, turned into a status line by the caller that owns
/// the connection.
pub struct HttpError {
    pub code: usize,
    pub detail: String,
}

} // verus!
