//! The reasons for which a read stops.

use vstd::prelude::*;

verus! {

/// Why a read of a node, or of one of its fields, stopped.
#[derive(Clone, Copy, Debug, PartialEq, Eq, Structural)]
pub enum DecodeError {
    /// The kind identifier names none of the six kinds.
    UnknownKind(u8),
    /// The input ended inside a field.
    UnexpectedEnd,
    /// A flag was stored as a byte other than 0 or 1.
    InvalidBool(u8),
    /// The bytes of a text field are not UTF-8.
    InvalidUtf8,
}

} // verus!
