use saucepan::ByteIndex;
use saucepan::LineIndex;
use saucepan::LineIndexOutOfBoundsError;
use saucepan::LocationError;
use saucepan::Source;

#[test]
fn line_starts_of_mixed_line_endings() {
    // Lines start at 0 and one past every line feed; "\r\n" counts through
    // its "\n" alone.
    let source = Source::new("mixed".to_string(), "foo\nbar\r\n\nbaz".to_string(), 0);
    assert_eq!(source.line_start(LineIndex(0)).unwrap(), ByteIndex(0));
    assert_eq!(source.line_start(LineIndex(1)).unwrap(), ByteIndex(4));
    assert_eq!(source.line_start(LineIndex(2)).unwrap(), ByteIndex(9));
    assert_eq!(source.line_start(LineIndex(3)).unwrap(), ByteIndex(10));
    assert_eq!(source.last_line_index(), LineIndex(3));
    let err = source.line_start(LineIndex(4)).unwrap_err();
    assert_eq!(err, LineIndexOutOfBoundsError { given: LineIndex(4), max: LineIndex(3) });
}

#[test]
fn line_spans_cover_whole_lines() {
    let source = Source::new("mixed".to_string(), "foo\nbar\r\n\nbaz".to_string(), 0);
    let line = |i: u32| {
        source
            .line_span(LineIndex(i))
            .unwrap()
            .fragment(&source)
            .unwrap()
            .to_string()
    };
    assert_eq!(line(0), "foo\n");
    assert_eq!(line(1), "bar\r\n");
    assert_eq!(line(2), "\n");
    assert_eq!(line(3), "baz");
    let err = source.line_span(LineIndex(4)).unwrap_err();
    assert_eq!(err, LineIndexOutOfBoundsError { given: LineIndex(4), max: LineIndex(3) });
}

#[test]
fn line_index_finds_the_bracketing_line() {
    let source = Source::new("mixed".to_string(), "foo\nbar\r\n\nbaz".to_string(), 0);
    assert_eq!(source.line_index(ByteIndex(9)).unwrap(), LineIndex(2));
    assert_eq!(source.line_index(ByteIndex(0)).unwrap(), LineIndex(0));
    assert_eq!(source.line_index(ByteIndex(3)).unwrap(), LineIndex(0));
    assert_eq!(source.line_index(ByteIndex(4)).unwrap(), LineIndex(1));
    assert_eq!(source.line_index(ByteIndex(12)).unwrap(), LineIndex(3));
    // One past the end without a trailing line feed: no such line.
    let err = source.line_index(ByteIndex(13)).unwrap_err();
    assert_eq!(err, LocationError::OutOfBounds { given: ByteIndex(13) });
    // For every valid index, line_start(line_index(i)) <= i, and the next
    // line starts after i.
    for i in 0..13u32 {
        let line = source.line_index(ByteIndex(i)).unwrap();
        let start = source.line_start(line).unwrap();
        assert!(start.0 <= i);
        match source.line_start(LineIndex(line.0 + 1)) {
            Ok(next) => assert!(i < next.0),
            Err(_) => {}
        }
    }
}

#[test]
fn trailing_newline_has_a_synthetic_empty_line() {
    let source = Source::new("name".to_string(), "one\ntwo\n".to_string(), 0);
    // The table knows three lines: "one\n", "two\n" and the empty line after
    // the final line feed, which starts one past the end.
    assert_eq!(source.last_line_index(), LineIndex(2));
    assert_eq!(source.line_start(LineIndex(2)).unwrap(), ByteIndex(8));
    assert_eq!(source.line_index(ByteIndex(8)).unwrap(), LineIndex(2));
    let empty = source.line_span(LineIndex(2)).unwrap();
    assert_eq!(empty.len(), 0);
    // Without the trailing line feed there is no such line.
    let other = Source::new("name".to_string(), "one\ntwo".to_string(), 0);
    assert_eq!(other.last_line_index(), LineIndex(1));
    assert!(other.line_index(ByteIndex(7)).is_err());
}

#[test]
fn empty_text_has_no_lines_to_query() {
    let source = Source::new("empty".to_string(), "".to_string(), 0);
    assert!(source.line_index(ByteIndex(0)).is_err());
    assert_eq!(source.last_line_index(), LineIndex(0));
    assert_eq!(source.line_start(LineIndex(0)).unwrap(), ByteIndex(0));
}
