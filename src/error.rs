//! Errors of a conversion.

use vstd::prelude::*;

use crate::unit::Unit;

verus! {

/// Why a conversion produced no text.
#[derive(PartialEq, Eq, Clone, Debug)]
pub enum SizeError {
    /// The magnitude's text is not an integer of the domain; holds the parser's message.
    Parse(String),
    /// The unit cannot be expressed in the domain (ZiB and YiB in the bounded one).
    UnsupportedUnit(Unit),
}

} // verus!
