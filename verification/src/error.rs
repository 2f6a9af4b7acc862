//! Typed failures for position queries and span operations.
//!
//! Each error is plain data describing one violated precondition; every
//! fallible operation propagates one of these to its immediate caller, and
//! all of them are recoverable.

use vstd::prelude::*;

use crate::index_types::ByteIndex;
use crate::index_types::LineIndex;
use crate::span::Span;

verus! {

/// A requested line lies beyond the last valid line.
///
/// `max` is the last valid line index of the source.
#[derive(Clone, Copy, Debug, PartialEq, Eq, Structural, Hash)]
pub struct LineIndexOutOfBoundsError {
    pub given: LineIndex,
    pub max: LineIndex,
}

/// An unknown source identifier was presented to the registry.
///
/// `max` is the number of registered sources; identifiers below it are valid.
#[derive(Clone, Copy, Debug, PartialEq, Eq, Structural, Hash)]
pub struct NotASourceError {
    pub given: usize,
    pub max: usize,
}

/// A byte index could not be resolved to a location.
#[derive(Clone, Copy, Debug, PartialEq, Eq, Structural, Hash)]
pub enum LocationError {
    /// The byte index lies beyond the valid end-of-text boundary. One past
    /// the end counts as valid only when the text ends with a line feed.
    OutOfBounds { given: ByteIndex },
    /// The byte index falls strictly inside a multi-byte UTF-8 sequence.
    InvalidCharBoundary { given: ByteIndex },
}

/// A requested slice or fragment falls outside the owning source's bounds.
#[derive(Clone, Copy, Debug, PartialEq, Eq, Structural, Hash)]
pub struct SpanOutOfBoundsError {
    pub given: Span,
    pub span: Span,
}

/// An operation was attempted across spans of two different sources.
#[derive(Clone, Copy, Debug, PartialEq, Eq, Structural, Hash)]
pub struct IncompatibleSourcesError {
    pub lhs: Span,
    pub rhs: Span,
}

} // verus!
