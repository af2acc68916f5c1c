//! The one way in which parsing a reminder fails.

use vstd::prelude::*;

verus! {

/// Why a sentence could not be parsed.
#[derive(Debug, Clone, Copy, PartialEq, Eq, Structural)]
pub enum ParseError {
    /// No position of the input starts a time expression: the input holds no
    /// decimal digit.
    NoTimeExpressionFound,
}

} // verus!
