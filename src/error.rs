use vstd::prelude::*;

verus! {

/// A fault in the caller's input, found while encoding or decoding a value.
#[derive(Clone, Copy, Debug, PartialEq, Eq, Structural)]
pub enum CodecError {
    /// A sequence mixes elements of different kinds.
    HeterogeneousArray,
    /// An identifier column held other than twelve bytes.
    InvalidIdentifierLength,
    /// An identifier string is not twenty-four hexadecimal digits.
    InvalidIdentifierFormat,
    /// A mailbox string fails address syntax.
    InvalidAddress,
    /// A document lacks a field that it must carry.
    MissingField,
    /// A document carries a field, or an object a key, more than once.
    DuplicateField,
    /// Wire bytes do not denote a number of the requested kind.
    InvalidNumber,
    /// A document has neither of the accepted shapes.
    UnexpectedShape,
    /// A JSONB value does not start with the supported format version.
    UnsupportedDocument,
}

} // verus!
