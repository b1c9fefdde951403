//! Errors raised when a value fails validation.

use vstd::prelude::*;

verus! {

/// Validation failures of the value types.
#[derive(Debug, Clone, Copy, PartialEq, Eq, Structural)]
pub enum Error {
    /// The text is not a syntactically valid URI.
    InvalidUri,
    /// The text is not a canonical unpadded base64 encoding.
    InvalidBase64,
}

} // verus!
