//! A resolved (line, column) pair.
//!
//! A [`Location`] is produced by resolving a byte index against a
//! [`crate::source::Source`]; it carries no reference back to the source and
//! is typically only used for reporting.

use vstd::prelude::*;

use crate::index_types::ColumnIndex;
use crate::index_types::ColumnNumber;
use crate::index_types::LineIndex;
use crate::index_types::LineNumber;

verus! {

/// A (line index, column index) pair in a source file. Both are 0-based.
#[derive(Clone, Copy, Debug, PartialEq, Eq, Structural, Hash, PartialOrd, Ord)]
pub struct Location {
    pub line_index: LineIndex,
    pub column_index: ColumnIndex,
}

impl Location {
    pub fn new(line_index: LineIndex, column_index: ColumnIndex) -> (r: Location)
        ensures
            r.line_index == line_index,
            r.column_index == column_index,
    {
        Location { line_index, column_index }
    }

    /// The human-readable, 1-based line number.
    pub fn line_number(&self) -> (r: LineNumber)
        requires
            self.line_index.0 < u32::MAX,
        ensures
            r.0 == self.line_index.0 + 1,
    {
        self.line_index.number()
    }

    /// The human-readable, 1-based column number.
    pub fn column_number(&self) -> (r: ColumnNumber)
        requires
            self.column_index.0 < u32::MAX,
        ensures
            r.0 == self.column_index.0 + 1,
    {
        self.column_index.number()
    }
}

} // verus!
