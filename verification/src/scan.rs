//! Byte-level scanning primitives: newline discovery and UTF-8 scalar
//! counting, together with the spec functions that describe them.

use vstd::prelude::*;

verus! {

use vstd::utf8::is_continuation_byte;

/// The byte offsets of every line-feed byte in `s`, in ascending order.
pub open spec fn newline_offsets(s: Seq<u8>) -> Seq<int>
    decreases s.len(),
{
    if s.len() == 0 {
        Seq::empty()
    } else if s.last() == 10u8 {
        newline_offsets(s.drop_last()).push(s.len() - 1)
    } else {
        newline_offsets(s.drop_last())
    }
}

/// The byte offsets at which the lines of `s` start: offset 0, and the offset
/// one past every line feed. If `s` ends with a line feed, the final entry is
/// `s.len()`: the start of the empty line that follows it.
pub open spec fn line_start_offsets(s: Seq<u8>) -> Seq<int>
    decreases s.len(),
{
    if s.len() == 0 {
        seq![0int]
    } else if s.last() == 10u8 {
        line_start_offsets(s.drop_last()).push(s.len() as int)
    } else {
        line_start_offsets(s.drop_last())
    }
}

/// How many UTF-8 scalar values `s` holds. Each scalar's encoding starts with
/// exactly one byte that is not a continuation byte, so the scalars are
/// counted by counting those bytes. The count is meaningful for well-formed
/// UTF-8 but defined for any byte sequence.
pub open spec fn char_count(s: Seq<u8>) -> nat
    decreases s.len(),
{
    if s.len() == 0 {
        0
    } else {
        char_count(s.drop_last()) + (if is_continuation_byte(s.last()) {
            0nat
        } else {
            1nat
        })
    }
}

pub proof fn lemma_char_count_le_len(s: Seq<u8>)
    ensures
        char_count(s) <= s.len(),
    decreases s.len(),
{
    if s.len() > 0 {
        lemma_char_count_le_len(s.drop_last());
    }
}

/// Every newline offset is the position of a line-feed byte, and the offsets
/// ascend strictly.
pub proof fn lemma_newline_offsets_structure(s: Seq<u8>)
    ensures
        forall|i: int|
            0 <= i < newline_offsets(s).len() ==> 0 <= #[trigger] newline_offsets(s)[i] < s.len()
                && s[newline_offsets(s)[i]] == 10u8,
        forall|i: int, j: int|
            0 <= i < j < newline_offsets(s).len() ==> newline_offsets(s)[i] < newline_offsets(
                s,
            )[j],
    decreases s.len(),
{
    if s.len() > 0 {
        lemma_newline_offsets_structure(s.drop_last());
        assert(forall|k: int| 0 <= k < s.len() - 1 ==> s[k] == #[trigger] s.drop_last()[k]);
        let pre = newline_offsets(s.drop_last());
        if s.last() == 10u8 {
            assert(newline_offsets(s) == pre.push(s.len() - 1));
            assert(forall|i: int|
                0 <= i < pre.len() ==> #[trigger] newline_offsets(s)[i] == pre[i]);
            assert(newline_offsets(s)[newline_offsets(s).len() - 1] == s.len() - 1);
        } else {
            assert(newline_offsets(s) == pre);
        }
    }
}

/// The line starts are offset 0 followed by the offset one past each newline.
pub proof fn lemma_line_starts_from_newlines(s: Seq<u8>)
    ensures
        line_start_offsets(s) == seq![0int] + newline_offsets(s).map_values(|p: int| p + 1),
    decreases s.len(),
{
    if s.len() == 0 {
        assert(line_start_offsets(s) =~= seq![0int] + newline_offsets(s).map_values(
            |p: int| p + 1,
        ));
    } else {
        lemma_line_starts_from_newlines(s.drop_last());
        if s.last() == 10u8 {
            assert(newline_offsets(s).map_values(|p: int| p + 1) =~= newline_offsets(
                s.drop_last(),
            ).map_values(|p: int| p + 1).push(s.len() as int));
            assert(line_start_offsets(s) =~= seq![0int] + newline_offsets(s).map_values(
                |p: int| p + 1,
            ));
        } else {
            assert(newline_offsets(s).map_values(|p: int| p + 1) =~= newline_offsets(
                s.drop_last(),
            ).map_values(|p: int| p + 1));
        }
    }
}

/// Structural facts about a text's line starts: there is always at least one,
/// the first is 0, they ascend strictly, they stay within the text, each one
/// after the first sits one past a line feed, and the last one reaches
/// `s.len()` exactly when the text ends with a line feed.
pub proof fn lemma_line_starts_structure(s: Seq<u8>)
    ensures
        line_start_offsets(s).len() >= 1,
        line_start_offsets(s).len() <= s.len() + 1,
        line_start_offsets(s)[0] == 0,
        forall|i: int, j: int|
            0 <= i < j < line_start_offsets(s).len() ==> line_start_offsets(s)[i]
                < line_start_offsets(s)[j],
        forall|i: int|
            0 <= i < line_start_offsets(s).len() ==> 0 <= #[trigger] line_start_offsets(s)[i]
                <= s.len(),
        forall|i: int|
            1 <= i < line_start_offsets(s).len() ==> s[#[trigger] line_start_offsets(s)[i]
                - 1] == 10u8,
        s.len() > 0 && s.last() == 10u8 ==> line_start_offsets(s).last() == s.len(),
        s.len() > 0 && s.last() != 10u8 ==> line_start_offsets(s).last() < s.len(),
    decreases s.len(),
{
    if s.len() > 0 {
        lemma_line_starts_structure(s.drop_last());
        assert(forall|k: int| 0 <= k < s.len() - 1 ==> s[k] == #[trigger] s.drop_last()[k]);
    }
}

/// Relies on memchr::memchr_iter: it yields the index of every occurrence of
/// the needle byte (here the line feed, 0x0A) in the haystack, in ascending
/// order.
#[verifier::external_body]
pub(crate) fn find_newlines(bytes: &[u8]) -> (r: Vec<usize>)
    ensures
        r@.map_values(|p: usize| p as int) == newline_offsets(bytes@),
{
    memchr::memchr_iter(b'\n', bytes).collect()
}

/// Relies on bytecount::num_chars: it counts the bytes that are not UTF-8
/// continuation bytes, i.e. the UTF-8 scalar values when the input is
/// well-formed UTF-8. Defined for any byte sequence.
#[verifier::external_body]
pub(crate) fn num_chars_fast(bytes: &[u8]) -> (r: usize)
    ensures
        r == char_count(bytes@),
{
    bytecount::num_chars(bytes)
}

/// Relies on bytecount::naive_num_chars: it counts the bytes `b` with
/// `b >> 6 != 0b10`, i.e. exactly the bytes that are not UTF-8 continuation
/// bytes, one per UTF-8 scalar value when the input is well-formed UTF-8.
#[verifier::external_body]
pub(crate) fn num_chars_naive(bytes: &[u8]) -> (r: usize)
    ensures
        r == char_count(bytes@),
{
    bytecount::naive_num_chars(bytes)
}

} // verus!
