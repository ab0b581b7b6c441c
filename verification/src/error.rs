use vstd::prelude::*;

verus! {

/// What went wrong while reading a document.
#[derive(Clone, Copy, Debug, PartialEq, Eq, Structural)]
pub enum ParseErrorKind {
    /// An expected keyword or punctuation mark is absent.
    TagMismatch,
    /// No digits where an integer is expected, or the value does not fit.
    InvalidInteger,
    /// No digits where a decimal number is expected.
    InvalidFloat,
    /// A quoted string has no closing quote.
    UnterminatedString,
    /// The bytes between two quotes are not UTF-8.
    InvalidUtf8,
    /// A bias lies outside [-1, 1].
    InvalidBias,
    /// The input ends where a token is expected.
    UnexpectedEof,
}

/// A parse failure: its kind and the byte offset at which it was found.
#[derive(Clone, Copy, Debug, PartialEq, Eq, Structural)]
pub struct ParseError {
    pub kind: ParseErrorKind,
    pub offset: usize,
}

/// A failure of the skinning engine or of index narrowing.
#[derive(Clone, Copy, Debug, PartialEq, Eq, Structural)]
pub enum ComputeError {
    /// An index does not fit the narrow index type.
    IndexOverflow,
    /// A weight, joint or vertex reference lies outside the known range.
    BoundsError,
}

} // verus!
