//! A contiguous byte range within one source.
//!
//! A [`Span`] is a cheap, copyable value: a start byte index, a non-negative
//! byte length and the identity of the owning source. It never owns text.
//! Spans should be obtained from a [`crate::source::Source`] (or an existing
//! span), not built by hand; the low-level constructor trusts its caller.
//!
//! Two spans are equal exactly when they have the same source identity, the
//! same start and the same length; spans of sources with coincidentally equal
//! text stay unequal.

use vstd::prelude::*;
use vstd::string::StringSliceAdditionalSpecFns;

use crate::error::IncompatibleSourcesError;
use crate::error::LocationError;
use crate::index_types::ByteIndex;
use crate::index_types::ByteOffset;
use crate::index_types::ColumnNumber;
use crate::index_types::LineNumber;
use crate::location::Location;
use crate::scan::lemma_char_count_le_len;
use crate::scan::lemma_line_starts_structure;
use crate::source::lemma_line_containing_brackets;
use crate::source::Source;

verus! {

/// A byte range `[start, start + length)` in the source identified by
/// `source_id`.
#[derive(Clone, Copy, Debug, PartialEq, Eq, Structural, Hash)]
pub struct Span {
    pub start: ByteIndex,
    pub length: ByteOffset,
    /// The identity of the owning source: the identifier the source was
    /// created with, which for registered sources is their registry index.
    pub source_id: usize,
}

impl Span {
    /// The byte index one past the span's last byte, as a plain integer.
    pub open spec fn spec_end(self) -> int {
        self.start.0 + self.length.0
    }

    /// The span's start byte index, as a plain integer.
    pub open spec fn spec_start(self) -> int {
        self.start.0 as int
    }

    /// The span's byte length, as a plain integer.
    pub open spec fn spec_len(self) -> int {
        self.length.0 as int
    }

    /// A well-formed span has a non-negative length and an end that still
    /// fits a raw index. Every constructor of this crate returns well-formed
    /// spans.
    pub open spec fn wf(self) -> bool {
        0 <= self.length.0 && self.start.0 + self.length.0 <= u32::MAX
    }

    /// The length of the spanned range in bytes.
    pub fn len(&self) -> (r: usize)
        requires
            self.wf(),
        ensures
            r == self.spec_len(),
    {
        self.length.0 as usize
    }

    /// The position of the spanned range relative to the start of the
    /// source's text; the first byte of the text has position 0.
    pub fn location_offset(&self) -> (r: ByteIndex)
        ensures
            r == self.start,
    {
        self.start
    }

    pub fn start(self) -> (r: ByteIndex)
        ensures
            r == self.start,
    {
        self.start
    }

    pub fn end(self) -> (r: ByteIndex)
        requires
            self.wf(),
        ensures
            r.0 == self.spec_end(),
    {
        ByteIndex((self.start.0 as i64 + self.length.0) as u32)
    }

    /// Whether the byte index `k` lies within the span's half-open range.
    pub open spec fn spec_contains(self, k: int) -> bool {
        self.spec_start() <= k < self.spec_end()
    }

    /// Whether the span genuinely denotes a range of `source`: it carries the
    /// source's identity and its range lies within the source's text. Every
    /// span this crate hands out is valid for its source of origin.
    pub open spec fn valid_for(self, source: Source) -> bool {
        &&& self.source_id == source.spec_id()
        &&& 0 <= self.length.0
        &&& self.spec_end() <= source.text_bytes().len()
    }

    /// A new span over `[start, start + length)` tied to `source`. This
    /// low-level constructor trusts its caller to give an in-range start and
    /// length; spans are normally obtained by slicing a source or an existing
    /// span instead.
    pub fn new(start: ByteIndex, length: ByteOffset, source: &Source) -> (r: Span)
        requires
            source.wf(),
            0 <= length.0,
            start.0 + length.0 <= source.text_bytes().len(),
        ensures
            r.start == start,
            r.length == length,
            r.source_id == source.spec_id(),
            r.wf(),
            r.valid_for(*source),
    {
        Span { start, length, source_id: source.id() }
    }

    /// The text the span covers, as a slice of its source's text. Requires
    /// the span to be valid for `source`; fails exactly when an end of the
    /// span falls strictly inside a multi-byte UTF-8 sequence.
    pub fn fragment<'s>(&self, source: &'s Source) -> (r: Result<&'s str, LocationError>)
        requires
            source.wf(),
            self.valid_for(*source),
        ensures
            match r {
                Ok(f) => source.fragment_boundaries_ok(*self) && f.spec_bytes()
                    == source.text_bytes().subrange(self.spec_start(), self.spec_end()) && f@
                    == vstd::utf8::decode_utf8(
                    source.text_bytes().subrange(self.spec_start(), self.spec_end()),
                ),
                Err(e) => !source.fragment_boundaries_ok(*self) && e == source.spec_fragment_err(
                    *self,
                ),
            },
    {
        source.fragment(self)
    }

    /// What `location_line` and `row` return: the 1-based number of the line
    /// the span starts on.
    pub open spec fn spec_location_line(self, source: Source) -> Result<
        LineNumber,
        LocationError,
    > {
        match source.spec_line_index(self.start) {
            Ok(l) => Ok(LineNumber((l.0 + 1) as u32)),
            Err(e) => Err(e),
        }
    }

    /// The 1-based number of the line the span starts on in its source.
    pub fn location_line(&self, source: &Source) -> (r: Result<LineNumber, LocationError>)
        requires
            source.wf(),
            self.source_id == source.spec_id(),
        ensures
            r == self.spec_location_line(*source),
    {
        proof {
            lemma_line_starts_structure(source.text_bytes());
            lemma_line_containing_brackets(source.starts(), self.start.0 as int);
        }
        match source.line_index(self.start) {
            Ok(l) => Ok(l.number()),
            Err(e) => Err(e),
        }
    }

    /// The 1-based number of the line the span starts on in its source; the
    /// same answer as [`Span::location_line`].
    pub fn row(&self, source: &Source) -> (r: Result<LineNumber, LocationError>)
        requires
            source.wf(),
            self.source_id == source.spec_id(),
        ensures
            r == self.spec_location_line(*source),
    {
        self.location_line(source)
    }

    /// What `column` returns: the 1-based number of the column the span
    /// starts on, counted in UTF-8 scalar values.
    pub open spec fn spec_column(self, source: Source) -> Result<ColumnNumber, LocationError> {
        match source.spec_location_utf8(self.start) {
            Ok(loc) => Ok(ColumnNumber((loc.column_index.0 + 1) as u32)),
            Err(e) => Err(e),
        }
    }

    /// The 1-based number of the column the span starts on, counting UTF-8
    /// scalar values from the line start.
    pub fn column(&self, source: &Source) -> (r: Result<ColumnNumber, LocationError>)
        requires
            source.wf(),
            self.source_id == source.spec_id(),
        ensures
            r == self.spec_column(*source),
    {
        proof {
            lemma_line_starts_structure(source.text_bytes());
            lemma_line_containing_brackets(source.starts(), self.start.0 as int);
            if source.byte_in_bounds(self.start) {
                let l = crate::source::line_containing(source.starts(), self.start.0 as int);
                lemma_char_count_le_len(
                    source.text_bytes().subrange(source.starts()[l], self.start.0 as int),
                );
            }
        }
        match self.location(source) {
            Ok(loc) => Ok(loc.column_index.number()),
            Err(e) => Err(e),
        }
    }

    /// The (line index, column index) location of the span's start in its
    /// source, with the column counted in UTF-8 scalar values.
    pub fn location(&self, source: &Source) -> (r: Result<Location, LocationError>)
        requires
            source.wf(),
            self.source_id == source.spec_id(),
        ensures
            r == source.spec_location_utf8(self.start),
    {
        source.location_utf8(self.start)
    }

    /// What `merge` returns: the convex hull of the two spans when they share
    /// a source, and an error otherwise.
    pub open spec fn spec_merge(self, other: Span) -> Result<Span, IncompatibleSourcesError> {
        if self.source_id != other.source_id {
            Err(IncompatibleSourcesError { lhs: self, rhs: other })
        } else {
            let start = if self.start.0 <= other.start.0 {
                self.start
            } else {
                other.start
            };
            let end = if self.spec_end() >= other.spec_end() {
                self.spec_end()
            } else {
                other.spec_end()
            };
            Ok(Span { start, length: ByteOffset((end - start.0) as i64), source_id: self.source_id })
        }
    }

    /// Combine two spans of the same source by taking the earlier start and
    /// the later end. The merge works even when the two spans are disjoint:
    /// the result then also covers the gap between them. Callers that need a
    /// true set union must handle disjoint spans themselves, for which
    /// [`Span::disjoint`] is a convenience.
    pub fn merge(self, other: Span) -> (r: Result<Span, IncompatibleSourcesError>)
        requires
            self.wf(),
            other.wf(),
        ensures
            r == self.spec_merge(other),
            r matches Ok(m) ==> m.wf(),
    {
        if self.source_id != other.source_id {
            return Err(IncompatibleSourcesError { lhs: self, rhs: other });
        }
        let start: ByteIndex = if self.start.0 <= other.start.0 {
            self.start
        } else {
            other.start
        };
        let self_end: i64 = self.start.0 as i64 + self.length.0;
        let other_end: i64 = other.start.0 as i64 + other.length.0;
        let end: i64 = if self_end >= other_end {
            self_end
        } else {
            other_end
        };
        Ok(Span { start, length: ByteOffset(end - start.0 as i64), source_id: self.source_id })
    }

    /// What `disjoint` returns: true when the two half-open ranges do not
    /// overlap; spans of different sources are disjoint by definition, and
    /// touching endpoints count as disjoint.
    pub open spec fn spec_disjoint(self, other: Span) -> bool {
        self.source_id != other.source_id || self.spec_end() <= other.start.0 || other.spec_end()
            <= self.start.0
    }

    /// Whether two spans do not overlap.
    pub fn disjoint(self, other: Span) -> (r: bool)
        requires
            self.wf(),
            other.wf(),
        ensures
            r == self.spec_disjoint(other),
    {
        if self.source_id != other.source_id {
            return true;
        }
        let self_end: i64 = self.start.0 as i64 + self.length.0;
        let other_end: i64 = other.start.0 as i64 + other.length.0;
        self_end <= other.start.0 as i64 || other_end <= self.start.0 as i64
    }

    /// What `slice` returns: the requested range, taken relative to the
    /// span's own range and clipped to it. An inverted range gives an empty
    /// span at the clipped start.
    pub open spec fn spec_slice(self, range_start: int, range_end: int) -> Span {
        let lo = if range_start <= self.length.0 {
            range_start
        } else {
            self.length.0 as int
        };
        let hi_clipped = if range_end <= self.length.0 {
            range_end
        } else {
            self.length.0 as int
        };
        let hi = if hi_clipped >= lo {
            hi_clipped
        } else {
            lo
        };
        Span {
            start: ByteIndex((self.start.0 + lo) as u32),
            length: ByteOffset((hi - lo) as i64),
            source_id: self.source_id,
        }
    }

    /// A new span covering the bytes `[range_start, range_end)` of this
    /// span's range, counted from the span's start. The range is clipped to
    /// the span's own bounds, so the result is the intersection of the
    /// request with the span and may be empty; an inverted range gives an
    /// empty span. This never fails.
    pub fn slice(&self, range_start: usize, range_end: usize) -> (r: Span)
        requires
            self.wf(),
        ensures
            r == self.spec_slice(range_start as int, range_end as int),
            r.wf(),
            self.spec_start() <= r.spec_start(),
            r.spec_end() <= self.spec_end(),
            r.source_id == self.source_id,
    {
        let n: usize = self.length.0 as usize;
        let lo: usize = if range_start <= n {
            range_start
        } else {
            n
        };
        let hi_clipped: usize = if range_end <= n {
            range_end
        } else {
            n
        };
        let hi: usize = if hi_clipped >= lo {
            hi_clipped
        } else {
            lo
        };
        Span {
            start: ByteIndex(self.start.0 + lo as u32),
            length: ByteOffset((hi - lo) as i64),
            source_id: self.source_id,
        }
    }
}

/// Merging a span with itself gives the span back unchanged.
pub proof fn lemma_merge_identity(a: Span)
    ensures
        a.spec_merge(a) == Ok::<Span, IncompatibleSourcesError>(a),
{
}

/// Merge does not depend on argument order: two spans of one source merge to
/// the same span either way, and two spans of different sources fail either
/// way (the errors differ only in which span they call left).
pub proof fn lemma_merge_commutes(a: Span, b: Span)
    ensures
        a.source_id == b.source_id ==> a.spec_merge(b) == b.spec_merge(a),
        a.source_id != b.source_id ==> a.spec_merge(b) is Err && b.spec_merge(a) is Err,
{
}

/// A same-source merge always succeeds and the result contains both inputs:
/// it starts no later than either span and ends no earlier than either.
pub proof fn lemma_merge_contains(a: Span, b: Span)
    requires
        a.wf(),
        b.wf(),
        a.source_id == b.source_id,
    ensures
        a.spec_merge(b) is Ok,
        a.spec_merge(b)->Ok_0.spec_start() <= a.spec_start(),
        a.spec_merge(b)->Ok_0.spec_start() <= b.spec_start(),
        a.spec_end() <= a.spec_merge(b)->Ok_0.spec_end(),
        b.spec_end() <= a.spec_merge(b)->Ok_0.spec_end(),
        a.spec_merge(b)->Ok_0.source_id == a.source_id,
{
}

/// Disjointness is symmetric, holds unconditionally across different
/// sources, and never holds of two same-source spans that share a byte
/// index. For non-empty spans of one source it holds exactly when no byte
/// index lies in both half-open ranges; an empty span shares no byte index
/// with anything, yet counts as overlapping when it sits strictly inside
/// another span.
pub proof fn lemma_disjoint_characterization(a: Span, b: Span)
    requires
        a.wf(),
        b.wf(),
    ensures
        a.spec_disjoint(b) == b.spec_disjoint(a),
        a.source_id != b.source_id ==> a.spec_disjoint(b),
        a.source_id == b.source_id && a.spec_disjoint(b) ==> !(exists|k: int|
            #[trigger] a.spec_contains(k) && #[trigger] b.spec_contains(k)),
        a.source_id == b.source_id && a.spec_len() > 0 && b.spec_len() > 0 ==> (a.spec_disjoint(b)
            <==> !(exists|k: int| #[trigger] a.spec_contains(k) && #[trigger] b.spec_contains(k))),
{
    if a.source_id == b.source_id && a.spec_len() > 0 && b.spec_len() > 0 && !a.spec_disjoint(b) {
        let k = if a.spec_start() >= b.spec_start() {
            a.spec_start()
        } else {
            b.spec_start()
        };
        assert(a.spec_contains(k) && b.spec_contains(k));
    }
}

} // verus!
