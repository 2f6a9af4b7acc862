//! One unit of source text, with a precomputed table of line starts.
//!
//! A [`Source`] owns its name and text and answers byte-index to line/column
//! queries. The table of line starts is computed once, on construction, by
//! scanning the text for line feeds; lookups then binary-search it. A source
//! carries the integer identity its spans report as [`Span::source_id`].

use vstd::prelude::*;

use crate::error::LineIndexOutOfBoundsError;
use crate::error::LocationError;
use crate::index_types::ByteIndex;
use crate::index_types::ByteOffset;
use crate::index_types::ColumnIndex;
use crate::index_types::LineIndex;
use crate::location::Location;
use crate::scan::char_count;
use crate::scan::find_newlines;
use crate::scan::lemma_char_count_le_len;
use crate::scan::lemma_line_starts_from_newlines;
use crate::scan::lemma_line_starts_structure;
use crate::scan::lemma_newline_offsets_structure;
use crate::scan::line_start_offsets;
use crate::scan::newline_offsets;
use crate::scan::num_chars_fast;
use crate::scan::num_chars_naive;
use crate::span::Span;

verus! {

use vstd::string::StringSliceAdditionalSpecFns;
use vstd::utf8::encode_utf8;

/// The index of the last entry of `ls` that is at most `i`, assuming the
/// entries ascend and the first one is at most `i`. This is the line that
/// byte offset `i` falls on when `ls` lists a text's line starts.
pub open spec fn line_containing(ls: Seq<int>, i: int) -> int
    decreases ls.len(),
{
    if ls.len() <= 1 {
        0
    } else if ls.last() <= i {
        ls.len() - 1
    } else {
        line_containing(ls.drop_last(), i)
    }
}

/// `line_containing` lands on an entry that is at most `i`, with the next
/// entry (if any) past `i`.
pub proof fn lemma_line_containing_brackets(ls: Seq<int>, i: int)
    requires
        ls.len() >= 1,
        forall|a: int, b: int| 0 <= a < b < ls.len() ==> ls[a] < ls[b],
        ls[0] <= i,
    ensures
        0 <= line_containing(ls, i) < ls.len(),
        ls[line_containing(ls, i)] <= i,
        line_containing(ls, i) + 1 < ls.len() ==> i < ls[line_containing(ls, i) + 1],
    decreases ls.len(),
{
    if ls.len() > 1 && ls.last() > i {
        lemma_line_containing_brackets(ls.drop_last(), i);
    }
}

/// No other index brackets `i` the way `line_containing(ls, i)` does.
pub proof fn lemma_line_containing_unique(ls: Seq<int>, i: int, l: int)
    requires
        ls.len() >= 1,
        forall|a: int, b: int| 0 <= a < b < ls.len() ==> ls[a] < ls[b],
        0 <= l < ls.len(),
        ls[l] <= i,
        l + 1 < ls.len() ==> i < ls[l + 1],
    ensures
        l == line_containing(ls, i),
{
    assert(ls[0] <= ls[l] <= i);
    lemma_line_containing_brackets(ls, i);
    let l2 = line_containing(ls, i);
    if l < l2 {
        assert(ls[l + 1] <= ls[l2] <= i);
    } else if l2 < l {
        assert(ls[l2 + 1] <= ls[l] <= i);
    }
}

/// A file, or other unit of source text, that is stored in the registry.
pub struct Source {
    /// The name of the source, typically a file name.
    name: String,
    /// The source text.
    text: String,
    /// The byte indices of the line starts in the source text.
    line_starts: Vec<ByteIndex>,
    /// The identity spans of this source carry.
    id: usize,
}

impl Source {
    /// The source's text as a sequence of characters.
    pub closed spec fn text_view(self) -> Seq<char> {
        self.text@
    }

    /// The source's name as a sequence of characters.
    pub closed spec fn name_view(self) -> Seq<char> {
        self.name@
    }

    /// The identity this source was created with.
    pub closed spec fn spec_id(self) -> usize {
        self.id
    }

    /// The line-start table as plain integers.
    pub closed spec fn starts(self) -> Seq<int> {
        self.line_starts@.map_values(|b: ByteIndex| b.0 as int)
    }

    /// The source's text as UTF-8 bytes; every byte-index query is answered
    /// against this sequence.
    pub open spec fn text_bytes(self) -> Seq<u8> {
        encode_utf8(self.text_view())
    }

    /// A well-formed source's line-start table is exactly the line starts of
    /// its text, and its text is short enough that every byte index fits a
    /// raw index. [`Source::new`] establishes this and nothing disturbs it.
    pub open spec fn wf(self) -> bool {
        &&& self.starts() == line_start_offsets(self.text_bytes())
        &&& self.text_bytes().len() < u32::MAX
    }

    /// Whether a location query at `byte_index` is answerable: the index must
    /// lie within the text, where "one past the end" counts as within only
    /// when the text ends with a line feed (the index then points at the
    /// empty line after it).
    pub open spec fn byte_in_bounds(self, byte_index: ByteIndex) -> bool {
        let n = self.text_bytes().len();
        &&& n > 0
        &&& byte_index.0 <= n
        &&& byte_index.0 < n || self.text_bytes().last() == 10u8
    }

    /// A new source with the given name, text and identity. The identity is
    /// what ties spans to this source: distinct sources must be given
    /// distinct identities, which the registry does by using its indices.
    /// Costs one scan of the text for line feeds.
    pub fn new(name: String, text: String, id: usize) -> (r: Source)
        requires
            encode_utf8(text@).len() < u32::MAX,
        ensures
            r.wf(),
            r.name_view() == name@,
            r.text_view() == text@,
            r.spec_id() == id,
    {
        let line_starts = build_line_starts(text.as_str());
        Source { name, text, line_starts, id }
    }

    /// Replace the source's text, recomputing the line-start table from
    /// scratch. Spans and byte indices obtained against the old text keep
    /// their values and may no longer mean anything against the new text:
    /// discarding them is the caller's contract.
    pub fn set_text(&mut self, text: String)
        requires
            encode_utf8(text@).len() < u32::MAX,
        ensures
            final(self).wf(),
            final(self).text_view() == text@,
            final(self).name_view() == old(self).name_view(),
            final(self).spec_id() == old(self).spec_id(),
    {
        let line_starts = build_line_starts(text.as_str());
        self.text = text;
        self.line_starts = line_starts;
    }

    /// The source text.
    pub fn text(&self) -> (r: &str)
        ensures
            r@ == self.text_view(),
    {
        self.text.as_str()
    }

    /// The source's name.
    pub fn name(&self) -> (r: &str)
        ensures
            r@ == self.name_view(),
    {
        self.name.as_str()
    }

    /// The identity this source was created with.
    pub fn id(&self) -> (r: usize)
        ensures
            r == self.spec_id(),
    {
        self.id
    }

    /// The length of the text in bytes.
    pub fn len(&self) -> (r: usize)
        requires
            self.wf(),
        ensures
            r == self.text_bytes().len(),
    {
        self.text.as_str().len()
    }

    /// The byte index of the start of the text: always 0.
    pub fn start(&self) -> (r: ByteIndex)
        ensures
            r.0 == 0,
    {
        ByteIndex(0)
    }

    /// The byte index one past the end of the text.
    pub fn end(&self) -> (r: ByteIndex)
        requires
            self.wf(),
        ensures
            r.0 == self.text_bytes().len(),
    {
        ByteIndex(self.text.as_str().len() as u32)
    }

    /// The index of the last line the table knows: with `n` line feeds in the
    /// text this is `n`, so a text ending in a line feed has a final, empty
    /// line starting one past the end.
    pub fn last_line_index(&self) -> (r: LineIndex)
        requires
            self.wf(),
        ensures
            r.0 == self.starts().len() - 1,
    {
        proof {
            lemma_line_starts_structure(self.text_bytes());
        }
        LineIndex((self.line_starts.len() - 1) as u32)
    }

    /// What `line_start` returns: the byte index of the start of the given
    /// line, or an error naming the last valid line index.
    pub open spec fn spec_line_start(self, line_index: LineIndex) -> Result<
        ByteIndex,
        LineIndexOutOfBoundsError,
    > {
        if line_index.0 < self.starts().len() {
            Ok(ByteIndex(self.starts()[line_index.0 as int] as u32))
        } else {
            Err(
                LineIndexOutOfBoundsError {
                    given: line_index,
                    max: LineIndex((self.starts().len() - 1) as u32),
                },
            )
        }
    }

    /// The byte index of the start of line `line_index` (0-based): a
    /// bounds-checked access of the line-start table. If the text ends in a
    /// line feed, the last line's start is one past the end of the text.
    pub fn line_start(&self, line_index: LineIndex) -> (r: Result<
        ByteIndex,
        LineIndexOutOfBoundsError,
    >)
        requires
            self.wf(),
        ensures
            r == self.spec_line_start(line_index),
            r matches Ok(b) ==> b.0 <= self.text_bytes().len(),
    {
        proof {
            lemma_line_starts_structure(self.text_bytes());
        }
        if (line_index.0 as usize) < self.line_starts.len() {
            Ok(self.line_starts[line_index.0 as usize])
        } else {
            Err(
                LineIndexOutOfBoundsError {
                    given: line_index,
                    max: LineIndex((self.line_starts.len() - 1) as u32),
                },
            )
        }
    }

    /// What `line_index` returns: the line that `byte_index` falls on, or an
    /// out-of-bounds error.
    pub open spec fn spec_line_index(self, byte_index: ByteIndex) -> Result<
        LineIndex,
        LocationError,
    > {
        if self.byte_in_bounds(byte_index) {
            Ok(LineIndex(line_containing(self.starts(), byte_index.0 as int) as u32))
        } else {
            Err(LocationError::OutOfBounds { given: byte_index })
        }
    }

    /// The index of the line `byte_index` falls on: the unique line whose
    /// start is at or before `byte_index` and whose successor (if any) starts
    /// after it. Errs when `byte_index` is past the end, or one past the end
    /// of a text that does not end with a line feed, or when the text is
    /// empty: there is no such line then.
    pub fn line_index(&self, byte_index: ByteIndex) -> (r: Result<LineIndex, LocationError>)
        requires
            self.wf(),
        ensures
            r == self.spec_line_index(byte_index),
    {
        let text_len: usize = self.text.as_str().len();
        let idx: usize = byte_index.0 as usize;
        if text_len == 0 || idx > text_len {
            return Err(LocationError::OutOfBounds { given: byte_index });
        }
        if idx == text_len {
            let bytes: &[u8] = self.text.as_str().as_bytes();
            let last: u8 = *vstd::slice::slice_index_get(bytes, text_len - 1);
            if last != 10 {
                return Err(LocationError::OutOfBounds { given: byte_index });
            }
        }
        proof {
            lemma_line_starts_structure(self.text_bytes());
        }
        let mut lo: usize = 0;
        let mut hi: usize = self.line_starts.len() - 1;
        while lo != hi
            invariant
                self.wf(),
                lo <= hi < self.line_starts@.len(),
                self.starts()[lo as int] <= byte_index.0,
                hi + 1 < self.starts().len() ==> byte_index.0 < self.starts()[hi as int + 1],
                idx == byte_index.0,
            decreases hi - lo,
        {
            proof {
                lemma_line_starts_structure(self.text_bytes());
            }
            let mid: usize = lo + (hi - lo + 1) / 2;
            if self.line_starts[mid].0 as usize <= idx {
                lo = mid;
            } else {
                hi = mid - 1;
            }
        }
        proof {
            lemma_line_containing_unique(self.starts(), byte_index.0 as int, lo as int);
        }
        Ok(LineIndex(lo as u32))
    }

    /// What `location_in_bytes` returns: the line of `byte_index`, with the
    /// column measured as the raw byte distance from the line's start.
    pub open spec fn spec_location_in_bytes(self, byte_index: ByteIndex) -> Result<
        Location,
        LocationError,
    > {
        if self.byte_in_bounds(byte_index) {
            let l = line_containing(self.starts(), byte_index.0 as int);
            Ok(
                Location {
                    line_index: LineIndex(l as u32),
                    column_index: ColumnIndex((byte_index.0 - self.starts()[l]) as u32),
                },
            )
        } else {
            Err(LocationError::OutOfBounds { given: byte_index })
        }
    }

    /// The (line, column) location of `byte_index`, where the column is the
    /// number of bytes between the line start and `byte_index`: the fast
    /// path, not UTF-8-aware. Errs exactly when `line_index` does.
    pub fn location_in_bytes(&self, byte_index: ByteIndex) -> (r: Result<Location, LocationError>)
        requires
            self.wf(),
        ensures
            r == self.spec_location_in_bytes(byte_index),
    {
        let line: LineIndex = match self.line_index(byte_index) {
            Ok(l) => l,
            Err(e) => {
                return Err(e);
            },
        };
        proof {
            lemma_line_starts_structure(self.text_bytes());
            lemma_line_containing_brackets(self.starts(), byte_index.0 as int);
        }
        let line_start: ByteIndex = self.line_starts[line.0 as usize];
        Ok(Location { line_index: line, column_index: ColumnIndex(byte_index.0 - line_start.0) })
    }

    /// What `location_utf8` and `location_naive_utf8` return: the line of
    /// `byte_index`, with the column counted in UTF-8 scalar values between
    /// the line's start and `byte_index`.
    pub open spec fn spec_location_utf8(self, byte_index: ByteIndex) -> Result<
        Location,
        LocationError,
    > {
        if self.byte_in_bounds(byte_index) {
            let l = line_containing(self.starts(), byte_index.0 as int);
            let column = char_count(
                self.text_bytes().subrange(self.starts()[l], byte_index.0 as int),
            );
            Ok(
                Location {
                    line_index: LineIndex(l as u32),
                    column_index: ColumnIndex(column as u32),
                },
            )
        } else {
            Err(LocationError::OutOfBounds { given: byte_index })
        }
    }

    /// The (line, column) location of `byte_index`, where the column counts
    /// the UTF-8 scalar values between the line start and `byte_index`. Errs
    /// exactly when `line_index` does. The count is done by the fast,
    /// chunk-at-a-time algorithm, which wins on long lines;
    /// [`Source::location_naive_utf8`] has the very same contract.
    pub fn location_utf8(&self, byte_index: ByteIndex) -> (r: Result<Location, LocationError>)
        requires
            self.wf(),
        ensures
            r == self.spec_location_utf8(byte_index),
    {
        let line: LineIndex = match self.line_index(byte_index) {
            Ok(l) => l,
            Err(e) => {
                return Err(e);
            },
        };
        proof {
            lemma_line_starts_structure(self.text_bytes());
            lemma_line_containing_brackets(self.starts(), byte_index.0 as int);
        }
        let line_start: ByteIndex = self.line_starts[line.0 as usize];
        let bytes: &[u8] = self.text.as_str().as_bytes();
        let sub: &[u8] = vstd::slice::slice_subrange(
            bytes,
            line_start.0 as usize,
            byte_index.0 as usize,
        );
        let column: usize = num_chars_fast(sub);
        proof {
            lemma_char_count_le_len(sub@);
        }
        Ok(Location { line_index: line, column_index: ColumnIndex(column as u32) })
    }

    /// The same location as [`Source::location_utf8`], for every input: only
    /// the counting algorithm differs. The column is counted by the naive,
    /// byte-at-a-time algorithm, which wins on short lines.
    pub fn location_naive_utf8(&self, byte_index: ByteIndex) -> (r: Result<
        Location,
        LocationError,
    >)
        requires
            self.wf(),
        ensures
            r == self.spec_location_utf8(byte_index),
    {
        let line: LineIndex = match self.line_index(byte_index) {
            Ok(l) => l,
            Err(e) => {
                return Err(e);
            },
        };
        proof {
            lemma_line_starts_structure(self.text_bytes());
            lemma_line_containing_brackets(self.starts(), byte_index.0 as int);
        }
        let line_start: ByteIndex = self.line_starts[line.0 as usize];
        let bytes: &[u8] = self.text.as_str().as_bytes();
        let sub: &[u8] = vstd::slice::slice_subrange(
            bytes,
            line_start.0 as usize,
            byte_index.0 as usize,
        );
        let column: usize = num_chars_naive(sub);
        proof {
            lemma_char_count_le_len(sub@);
        }
        Ok(Location { line_index: line, column_index: ColumnIndex(column as u32) })
    }

    /// What `location` returns: the line of `byte_index`, with the column
    /// counting the UTF-8 scalar values from the line start up to and
    /// including the one at `byte_index`, so the first column of a line is 1.
    /// A `byte_index` inside a multi-byte scalar is refused.
    pub open spec fn spec_location(self, byte_index: ByteIndex) -> Result<
        Location,
        LocationError,
    > {
        if !self.byte_in_bounds(byte_index) {
            Err(LocationError::OutOfBounds { given: byte_index })
        } else if byte_index.0 < self.text_bytes().len() && vstd::utf8::is_continuation_byte(
            self.text_bytes()[byte_index.0 as int],
        ) {
            Err(LocationError::InvalidCharBoundary { given: byte_index })
        } else {
            let l = line_containing(self.starts(), byte_index.0 as int);
            let column = char_count(
                self.text_bytes().subrange(self.starts()[l], byte_index.0 as int),
            );
            Ok(
                Location {
                    line_index: LineIndex(l as u32),
                    column_index: ColumnIndex((column + 1) as u32),
                },
            )
        }
    }

    /// The (line, column) location of `byte_index`, counting the scalar value
    /// at `byte_index` itself, so that a column here is already 1-based.
    /// Errs when `line_index` does, and when `byte_index` falls strictly
    /// inside a multi-byte UTF-8 sequence.
    pub fn location(&self, byte_index: ByteIndex) -> (r: Result<Location, LocationError>)
        requires
            self.wf(),
        ensures
            r == self.spec_location(byte_index),
    {
        let line: LineIndex = match self.line_index(byte_index) {
            Ok(l) => l,
            Err(e) => {
                return Err(e);
            },
        };
        let text_len: usize = self.text.as_str().len();
        let bytes: &[u8] = self.text.as_str().as_bytes();
        let idx: usize = byte_index.0 as usize;
        if idx < text_len {
            let b: u8 = *vstd::slice::slice_index_get(bytes, idx);
            if 0x80 <= b && b <= 0xbf {
                return Err(LocationError::InvalidCharBoundary { given: byte_index });
            }
        }
        proof {
            lemma_line_starts_structure(self.text_bytes());
            lemma_line_containing_brackets(self.starts(), byte_index.0 as int);
        }
        let line_start: ByteIndex = self.line_starts[line.0 as usize];
        let sub: &[u8] = vstd::slice::slice_subrange(bytes, line_start.0 as usize, idx);
        let column: usize = num_chars_fast(sub);
        proof {
            lemma_char_count_le_len(sub@);
            if byte_index.0 == self.text_bytes().len() {
                assert(self.starts().last() == self.text_bytes().len());
                assert(line_start.0 == self.text_bytes().len());
            }
        }
        Ok(Location { line_index: line, column_index: ColumnIndex((column + 1) as u32) })
    }

    /// What `line_span` returns: the span from the given line's start to the
    /// next line's start, or to the end of the text for the last line.
    pub open spec fn spec_line_span(self, line_index: LineIndex) -> Result<
        Span,
        LineIndexOutOfBoundsError,
    > {
        if line_index.0 < self.starts().len() {
            let s = self.starts()[line_index.0 as int];
            let e = if line_index.0 + 1 < self.starts().len() {
                self.starts()[line_index.0 as int + 1]
            } else {
                self.text_bytes().len() as int
            };
            Ok(
                Span {
                    start: ByteIndex(s as u32),
                    length: ByteOffset((e - s) as i64),
                    source_id: self.spec_id(),
                },
            )
        } else {
            Err(
                LineIndexOutOfBoundsError {
                    given: line_index,
                    max: LineIndex((self.starts().len() - 1) as u32),
                },
            )
        }
    }

    /// The span covering line `line_index` whole: from its first byte up to
    /// and including its terminating line feed, if there is one. The last
    /// line's span ends at the end of the text.
    pub fn line_span(&self, line_index: LineIndex) -> (r: Result<Span, LineIndexOutOfBoundsError>)
        requires
            self.wf(),
        ensures
            r == self.spec_line_span(line_index),
            r matches Ok(sp) ==> sp.wf() && sp.spec_end() <= self.text_bytes().len()
                && sp.source_id == self.spec_id(),
    {
        proof {
            lemma_line_starts_structure(self.text_bytes());
        }
        let li: usize = line_index.0 as usize;
        if li >= self.line_starts.len() {
            return Err(
                LineIndexOutOfBoundsError {
                    given: line_index,
                    max: LineIndex((self.line_starts.len() - 1) as u32),
                },
            );
        }
        let s: u32 = self.line_starts[li].0;
        let e: u32 = if li + 1 < self.line_starts.len() {
            self.line_starts[li + 1].0
        } else {
            self.text.as_str().len() as u32
        };
        Ok(
            Span {
                start: ByteIndex(s),
                length: ByteOffset(e as i64 - s as i64),
                source_id: self.id,
            },
        )
    }

    /// What `slice` returns: the requested byte range clipped to the text.
    pub open spec fn spec_slice(self, range_start: int, range_end: int) -> Span {
        let n = self.text_bytes().len() as int;
        let lo = if range_start <= n {
            range_start
        } else {
            n
        };
        let hi_clipped = if range_end <= n {
            range_end
        } else {
            n
        };
        let hi = if hi_clipped >= lo {
            hi_clipped
        } else {
            lo
        };
        Span {
            start: ByteIndex(lo as u32),
            length: ByteOffset((hi - lo) as i64),
            source_id: self.spec_id(),
        }
    }

    /// A span for the byte range `[range_start, range_end)` of the text. The
    /// range is clipped to the text's bounds, so the result is the
    /// intersection of the request with the valid range and may be empty; an
    /// inverted range gives an empty span. This never fails.
    pub fn slice(&self, range_start: usize, range_end: usize) -> (r: Span)
        requires
            self.wf(),
        ensures
            r == self.spec_slice(range_start as int, range_end as int),
            r.wf(),
            0 <= r.spec_start(),
            r.spec_end() <= self.text_bytes().len(),
            r.source_id == self.spec_id(),
    {
        let n: usize = self.text.as_str().len();
        let lo: usize = if range_start <= n {
            range_start
        } else {
            n
        };
        let hi_clipped: usize = if range_end <= n {
            range_end
        } else {
            n
        };
        let hi: usize = if hi_clipped >= lo {
            hi_clipped
        } else {
            lo
        };
        Span {
            start: ByteIndex(lo as u32),
            length: ByteOffset((hi - lo) as i64),
            source_id: self.id,
        }
    }

    /// The bytes a fragment of `span` denotes: the text's bytes over the
    /// span's range.
    pub open spec fn spec_fragment_bytes(self, span: Span) -> Seq<u8> {
        self.text_bytes().subrange(span.spec_start(), span.spec_end())
    }

    /// Whether both ends of `span` land on UTF-8 character boundaries of the
    /// text, which is what fragment extraction needs.
    pub open spec fn fragment_boundaries_ok(self, span: Span) -> bool {
        &&& vstd::utf8::is_char_boundary(self.text_bytes(), span.spec_start())
        &&& vstd::utf8::is_char_boundary(self.text_bytes(), span.spec_end())
    }

    /// The error `fragment` returns when an end of `span` splits a multi-byte
    /// UTF-8 sequence: the offending end, the start checked first.
    pub open spec fn spec_fragment_err(self, span: Span) -> LocationError {
        if !vstd::utf8::is_char_boundary(self.text_bytes(), span.spec_start()) {
            LocationError::InvalidCharBoundary { given: span.start }
        } else {
            LocationError::InvalidCharBoundary { given: ByteIndex(span.spec_end() as u32) }
        }
    }

    /// The text slice covered by `span`, which must be a span of this source
    /// (`span.valid_for`: same identity, range within the text). Both ends of
    /// the span are checked to land on character boundaries — they always do
    /// for spans produced by line splitting or whole-source slicing, but a
    /// byte-range slice can split a multi-byte scalar, and such a span is
    /// refused here with `InvalidCharBoundary`.
    pub fn fragment<'s>(&'s self, span: &Span) -> (r: Result<&'s str, LocationError>)
        requires
            self.wf(),
            span.valid_for(*self),
        ensures
            match r {
                Ok(f) => self.fragment_boundaries_ok(*span) && f.spec_bytes()
                    == self.spec_fragment_bytes(*span) && f@ == vstd::utf8::decode_utf8(
                    self.spec_fragment_bytes(*span),
                ),
                Err(e) => !self.fragment_boundaries_ok(*span) && e == self.spec_fragment_err(
                    *span,
                ),
            },
    {
        let text: &str = self.text.as_str();
        let start: usize = span.start().0 as usize;
        let length: usize = span.len();
        let end: usize = start + length;
        if !text.is_char_boundary(start) {
            return Err(LocationError::InvalidCharBoundary { given: span.start() });
        }
        if !text.is_char_boundary(end) {
            return Err(LocationError::InvalidCharBoundary { given: ByteIndex(end as u32) });
        }
        proof {
            broadcast use vstd::utf8::encode_utf8_valid_utf8;
            broadcast use vstd::utf8::valid_utf8_split;
            broadcast use vstd::utf8::is_char_boundary_start_end_of_seq;
            broadcast use vstd::utf8::is_char_boundary_iff_not_is_continuation_byte;

            assert(vstd::utf8::valid_utf8(text.spec_bytes()));
        }
        let (_, rest) = text.split_at(start);
        proof {
            broadcast use vstd::utf8::encode_utf8_valid_utf8;
            broadcast use vstd::utf8::valid_utf8_split;
            broadcast use vstd::utf8::is_char_boundary_start_end_of_seq;
            broadcast use vstd::utf8::is_char_boundary_iff_not_is_continuation_byte;

            let bytes = text.spec_bytes();
            let rest_bytes = rest.spec_bytes();
            assert(vstd::utf8::valid_utf8(rest_bytes));
            if length < rest_bytes.len() {
                assert(rest_bytes[length as int] == bytes[end as int]);
                vstd::utf8::is_char_boundary_iff_not_is_continuation_byte(bytes, end as int);
                vstd::utf8::is_char_boundary_iff_not_is_continuation_byte(
                    rest_bytes,
                    length as int,
                );
                assert(vstd::utf8::is_char_boundary(rest_bytes, length as int));
            } else {
                assert(length == rest_bytes.len());
                assert(vstd::utf8::is_char_boundary(rest_bytes, length as int));
            }
        }
        let (frag, _) = rest.split_at(length);
        proof {
            broadcast use vstd::utf8::encode_utf8_decode_utf8;

            let sub = self.text_bytes().subrange(span.spec_start(), span.spec_end());
            assert(frag.spec_bytes() =~= sub);
            assert(vstd::utf8::decode_utf8(vstd::utf8::encode_utf8(frag@)) =~= frag@);
        }
        Ok(frag)
    }

    /// The span covering the entire text.
    pub fn source_span(&self) -> (r: Span)
        requires
            self.wf(),
        ensures
            r.spec_start() == 0,
            r.spec_len() == self.text_bytes().len(),
            r.wf(),
            r.source_id == self.spec_id(),
    {
        Span {
            start: ByteIndex(0),
            length: ByteOffset(self.text.as_str().len() as i64),
            source_id: self.id,
        }
    }
}

/// `v` clipped from above to `n`.
pub open spec fn clip_to(v: int, n: int) -> int {
    if v <= n {
        v
    } else {
        n
    }
}

/// Within bounds, `line_index` finds a line whose start is at or before the
/// byte index and whose successor line (if any) starts strictly after it —
/// and no other line does.
pub proof fn lemma_line_index_brackets(source: Source, byte_index: ByteIndex)
    requires
        source.wf(),
        source.byte_in_bounds(byte_index),
    ensures
        source.spec_line_index(byte_index) is Ok,
        source.spec_line_index(byte_index)->Ok_0.0 == line_containing(
            source.starts(),
            byte_index.0 as int,
        ),
        0 <= line_containing(source.starts(), byte_index.0 as int) < source.starts().len(),
        source.starts()[line_containing(source.starts(), byte_index.0 as int)] <= byte_index.0,
        line_containing(source.starts(), byte_index.0 as int) + 1 < source.starts().len()
            ==> byte_index.0 < source.starts()[line_containing(source.starts(), byte_index.0 as int)
            + 1],
        forall|l2: int|
            0 <= l2 < source.starts().len() && #[trigger] source.starts()[l2] <= byte_index.0 && (
            l2 + 1 < source.starts().len() ==> byte_index.0 < source.starts()[l2 + 1]) ==> l2
                == line_containing(source.starts(), byte_index.0 as int),
{
    lemma_line_starts_structure(source.text_bytes());
    lemma_line_containing_brackets(source.starts(), byte_index.0 as int);
    assert forall|l2: int|
        0 <= l2 < source.starts().len() && #[trigger] source.starts()[l2] <= byte_index.0 && (l2
            + 1 < source.starts().len() ==> byte_index.0 < source.starts()[l2 + 1]) implies l2
        == line_containing(source.starts(), byte_index.0 as int) by {
        lemma_line_containing_unique(source.starts(), byte_index.0 as int, l2);
    }
}

/// The start of the line that `line_index` finds never lies past the byte
/// index itself: `line_start(line_index(i)) <= i`.
pub proof fn lemma_line_start_le_byte_index(source: Source, byte_index: ByteIndex)
    requires
        source.wf(),
        source.byte_in_bounds(byte_index),
    ensures
        source.spec_line_index(byte_index) is Ok,
        source.spec_line_start(source.spec_line_index(byte_index)->Ok_0) is Ok,
        source.spec_line_start(source.spec_line_index(byte_index)->Ok_0)->Ok_0.0 <= byte_index.0,
{
    lemma_line_starts_structure(source.text_bytes());
    lemma_line_index_brackets(source, byte_index);
}

/// Round trip: the bytes of a fragment of `slice(range_start, range_end)`
/// are exactly the requested bytes of the text, after clipping the range to
/// the text's length (and treating an inverted range as empty).
pub proof fn lemma_slice_fragment_round_trip(source: Source, range_start: int, range_end: int)
    requires
        source.wf(),
        0 <= range_start,
        0 <= range_end,
    ensures
        source.spec_slice(range_start, range_end).valid_for(source),
        source.spec_fragment_bytes(source.spec_slice(range_start, range_end))
            == source.text_bytes().subrange(
            clip_to(range_start, source.text_bytes().len() as int),
            if clip_to(range_end, source.text_bytes().len() as int) >= clip_to(
                range_start,
                source.text_bytes().len() as int,
            ) {
                clip_to(range_end, source.text_bytes().len() as int)
            } else {
                clip_to(range_start, source.text_bytes().len() as int)
            },
        ),
{
}

/// The byte indices at which the lines of `text` start, computed by scanning
/// for line feeds.
fn build_line_starts(text: &str) -> (r: Vec<ByteIndex>)
    requires
        text.spec_bytes().len() < u32::MAX,
    ensures
        r@.map_values(|b: ByteIndex| b.0 as int) == line_start_offsets(text.spec_bytes()),
{
    let bytes: &[u8] = text.as_bytes();
    let nl: Vec<usize> = find_newlines(bytes);
    proof {
        lemma_newline_offsets_structure(bytes@);
        lemma_line_starts_from_newlines(bytes@);
    }
    let ghost offsets: Seq<int> = newline_offsets(bytes@);
    let mut line_starts: Vec<ByteIndex> = Vec::new();
    line_starts.push(ByteIndex(0));
    let mut k: usize = 0;
    while k < nl.len()
        invariant
            k <= nl@.len(),
            nl@.map_values(|p: usize| p as int) == offsets,
            offsets == newline_offsets(bytes@),
            bytes@ == text.spec_bytes(),
            bytes@.len() < u32::MAX,
            forall|i: int| 0 <= i < offsets.len() ==> 0 <= #[trigger] offsets[i] < bytes@.len(),
            line_starts@.len() == k + 1,
            line_starts@[0].0 == 0,
            forall|i: int| 1 <= i <= k ==> (#[trigger] line_starts@[i]).0 == offsets[i - 1] + 1,
        decreases nl@.len() - k,
    {
        let p: usize = nl[k];
        assert(p as int == offsets[k as int]);
        line_starts.push(ByteIndex((p + 1) as u32));
        k = k + 1;
    }
    proof {
        let built = line_starts@.map_values(|b: ByteIndex| b.0 as int);
        let wanted = seq![0int] + offsets.map_values(|p2: int| p2 + 1);
        assert(forall|i: int|
            1 <= i < built.len() ==> built[i] == (#[trigger] line_starts@[i]).0 as int);
        assert(built =~= wanted);
    }
    line_starts
}

} // verus!
