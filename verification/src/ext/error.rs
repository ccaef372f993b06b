//! The errors of the extension codec.
use vstd::prelude::*;

verus! {

/// A payload that is no record of the extension.
#[derive(Debug, Clone, Copy, PartialEq, Eq, Structural)]
pub enum DesError {
    /// The type id names no record of the extension.
    UnexpectedType(u16),
    /// The payload is too small for the record.
    UnexpectedLength(u64),
}

} // verus!
