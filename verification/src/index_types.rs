//! Strongly typed wrappers for positions in a source text.
//!
//! Indices are 0-based byte, line or column positions; numbers are their
//! 1-based counterparts, meant for human-readable display. Offsets are signed
//! differences between two indices of the same kind. The conversions between
//! the kinds are always explicit.

use vstd::prelude::*;

verus! {

/// Underlying representation of an index: 32 bits, bounding sources to about
/// 4 GiB by design.
pub type RawIndex = u32;

/// Underlying representation of an offset: wide enough to hold the difference
/// of any two raw indices, in either direction.
pub type RawOffset = i64;

/// A 0-based line position.
#[derive(Clone, Copy, Debug, PartialEq, Eq, Structural, Hash, PartialOrd, Ord)]
pub struct LineIndex(pub RawIndex);

/// A 1-based line number, for display.
#[derive(Clone, Copy, Debug, PartialEq, Eq, Structural, Hash, PartialOrd, Ord)]
pub struct LineNumber(pub RawIndex);

/// A signed difference between two line indices.
#[derive(Clone, Copy, Debug, PartialEq, Eq, Structural, Hash, PartialOrd, Ord)]
pub struct LineOffset(pub RawOffset);

/// A 0-based column position.
#[derive(Clone, Copy, Debug, PartialEq, Eq, Structural, Hash, PartialOrd, Ord)]
pub struct ColumnIndex(pub RawIndex);

/// A 1-based column number, for display.
#[derive(Clone, Copy, Debug, PartialEq, Eq, Structural, Hash, PartialOrd, Ord)]
pub struct ColumnNumber(pub RawIndex);

/// A signed difference between two column indices.
#[derive(Clone, Copy, Debug, PartialEq, Eq, Structural, Hash, PartialOrd, Ord)]
pub struct ColumnOffset(pub RawOffset);

/// A 0-based byte position in a source's text.
#[derive(Clone, Copy, Debug, PartialEq, Eq, Structural, Hash, PartialOrd, Ord)]
pub struct ByteIndex(pub RawIndex);

/// A signed difference between two byte indices.
#[derive(Clone, Copy, Debug, PartialEq, Eq, Structural, Hash, PartialOrd, Ord)]
pub struct ByteOffset(pub RawOffset);

/// A relative offset between two indices of one kind.
pub trait Offset: Copy {
    /// The offset as a plain integer.
    spec fn raw_offset(self) -> int;

    /// The zero offset.
    fn zero() -> (r: Self)
        ensures
            r.raw_offset() == 0,
    ;
}

/// An absolute position of one kind, with its offset type.
pub trait Index: Copy {
    type Offset: Offset;

    /// The index as a plain integer.
    spec fn raw_index(self) -> int;

    /// The signed distance from `other` to `self`.
    fn diff(self, other: Self) -> (r: Self::Offset)
        ensures
            r.raw_offset() == self.raw_index() - other.raw_index(),
    ;
}

impl Offset for LineOffset {
    open spec fn raw_offset(self) -> int {
        self.0 as int
    }

    fn zero() -> (r: Self)
        ensures
            r.raw_offset() == 0,
    {
        LineOffset(0)
    }
}

impl Offset for ColumnOffset {
    open spec fn raw_offset(self) -> int {
        self.0 as int
    }

    fn zero() -> (r: Self)
        ensures
            r.raw_offset() == 0,
    {
        ColumnOffset(0)
    }
}

impl Offset for ByteOffset {
    open spec fn raw_offset(self) -> int {
        self.0 as int
    }

    fn zero() -> (r: Self)
        ensures
            r.raw_offset() == 0,
    {
        ByteOffset(0)
    }
}

impl Index for LineIndex {
    type Offset = LineOffset;

    open spec fn raw_index(self) -> int {
        self.0 as int
    }

    fn diff(self, other: Self) -> (r: LineOffset)
        ensures
            r.raw_offset() == self.raw_index() - other.raw_index(),
    {
        LineOffset(self.0 as i64 - other.0 as i64)
    }
}

impl Index for ColumnIndex {
    type Offset = ColumnOffset;

    open spec fn raw_index(self) -> int {
        self.0 as int
    }

    fn diff(self, other: Self) -> (r: ColumnOffset)
        ensures
            r.raw_offset() == self.raw_index() - other.raw_index(),
    {
        ColumnOffset(self.0 as i64 - other.0 as i64)
    }
}

impl Index for ByteIndex {
    type Offset = ByteOffset;

    open spec fn raw_index(self) -> int {
        self.0 as int
    }

    fn diff(self, other: Self) -> (r: ByteOffset)
        ensures
            r.raw_offset() == self.raw_index() - other.raw_index(),
    {
        ByteOffset(self.0 as i64 - other.0 as i64)
    }
}

impl LineIndex {
    pub fn new(n: usize) -> (r: LineIndex)
        requires
            n <= u32::MAX,
        ensures
            r.0 == n,
    {
        LineIndex(n as u32)
    }

    /// The 1-based ordinal of this 0-based index.
    pub fn number(self) -> (r: LineNumber)
        requires
            self.0 < u32::MAX,
        ensures
            r.0 == self.0 + 1,
    {
        LineNumber(self.0 + 1)
    }

    /// The index `offset` lines further on. Staying within the raw index
    /// range is the caller's responsibility.
    pub fn plus_offset(self, offset: LineOffset) -> (r: LineIndex)
        requires
            0 <= self.0 + offset.0 <= u32::MAX,
        ensures
            r.0 == self.0 + offset.0,
    {
        LineIndex((self.0 as i64 + offset.0) as u32)
    }

    /// The signed distance from `other` to `self`.
    pub fn offset_from(self, other: LineIndex) -> (r: LineOffset)
        ensures
            r.0 == self.0 - other.0,
    {
        LineOffset(self.0 as i64 - other.0 as i64)
    }
}

impl ColumnIndex {
    pub fn new(n: usize) -> (r: ColumnIndex)
        requires
            n <= u32::MAX,
        ensures
            r.0 == n,
    {
        ColumnIndex(n as u32)
    }

    /// The 1-based ordinal of this 0-based index.
    pub fn number(self) -> (r: ColumnNumber)
        requires
            self.0 < u32::MAX,
        ensures
            r.0 == self.0 + 1,
    {
        ColumnNumber(self.0 + 1)
    }
}

impl ByteIndex {
    pub fn new(n: usize) -> (r: ByteIndex)
        requires
            n <= u32::MAX,
        ensures
            r.0 == n,
    {
        ByteIndex(n as u32)
    }

    pub fn to_usize(self) -> (r: usize)
        ensures
            r == self.0,
    {
        self.0 as usize
    }

    /// The signed distance from `other` to `self`.
    pub fn offset_from(self, other: ByteIndex) -> (r: ByteOffset)
        ensures
            r.0 == self.0 - other.0,
    {
        ByteOffset(self.0 as i64 - other.0 as i64)
    }

    /// The index `offset` bytes further on. Staying within the raw index
    /// range is the caller's responsibility.
    pub fn plus_offset(self, offset: ByteOffset) -> (r: ByteIndex)
        requires
            0 <= self.0 + offset.0 <= u32::MAX,
        ensures
            r.0 == self.0 + offset.0,
    {
        ByteIndex((self.0 as i64 + offset.0) as u32)
    }

    /// The index `offset` bytes back. Staying within the raw index range is
    /// the caller's responsibility.
    pub fn minus_offset(self, offset: ByteOffset) -> (r: ByteIndex)
        requires
            0 <= self.0 - offset.0 <= u32::MAX,
        ensures
            r.0 == self.0 - offset.0,
    {
        ByteIndex((self.0 as i64 - offset.0) as u32)
    }
}

impl ByteOffset {
    pub fn new(n: usize) -> (r: ByteOffset)
        requires
            n <= i64::MAX,
        ensures
            r.0 == n,
    {
        ByteOffset(n as i64)
    }

    pub fn to_usize(self) -> (r: usize)
        requires
            0 <= self.0 <= usize::MAX,
        ensures
            r == self.0,
    {
        self.0 as usize
    }
}

impl LineOffset {
    pub fn new(n: usize) -> (r: LineOffset)
        requires
            n <= i64::MAX,
        ensures
            r.0 == n,
    {
        LineOffset(n as i64)
    }
}

impl ColumnOffset {
    pub fn new(n: usize) -> (r: ColumnOffset)
        requires
            n <= i64::MAX,
        ensures
            r.0 == n,
    {
        ColumnOffset(n as i64)
    }
}

} // verus!
