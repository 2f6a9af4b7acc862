use saucepan::ByteIndex;
use saucepan::ColumnNumber;
use saucepan::LineNumber;
use saucepan::LocationError;
use saucepan::Source;

const SOURCE_NAME: &str = "The Second Coming By William Butler Yeats";
const SOURCE_TEXT: &str = "Turning and turning in the widening gyre
The falcon cannot hear the falconer;
Things fall apart; the centre cannot hold;
Mere anarchy is loosed upon the world,
The blood-dimmed tide is loosed, and everywhere
The ceremony of innocence is drowned;
The best lack all conviction, while the worst
Are full of passionate intensity.";

#[test]
fn calculate_columns() {
    let source = Source::new(SOURCE_NAME.to_string(), SOURCE_TEXT.to_string(), 0);
    let span = source.source_span();

    let found_idx = SOURCE_TEXT.find("falconer").unwrap();
    let location = span.slice(found_idx, span.len()).location(&source).unwrap();
    assert_eq!(location.line_index.number(), LineNumber(2));
    assert_eq!(location.column_index.number(), ColumnNumber(28));
}

#[test]
fn calculate_columns_accurately_with_non_ascii_chars() {
    // Each kana character is three bytes long.
    let source = Source::new("Japanese kana".to_string(), "メカジキ".to_string(), 0);
    // The last two glyphs start at byte 6, which is column number 3.
    let location = source.slice(6, source.len()).location(&source).unwrap();
    assert_eq!(location.column_index.number(), ColumnNumber(3));
}

#[test]
fn error_when_getting_column_if_offset_is_too_big() {
    let source = Source::new("some text".to_string(), "".to_string(), 0);
    let location = source.location_in_bytes(ByteIndex(28));

    assert_eq!(location.is_err(), true);
}

#[test]
fn byte_columns_and_utf8_columns_differ_on_non_ascii() {
    let source = Source::new("Japanese kana".to_string(), "メカジキ".to_string(), 0);
    // Under UTF-8 counting, byte 6 is the third glyph: column number 3.
    let utf8 = source.location_utf8(ByteIndex(6)).unwrap();
    assert_eq!(utf8.column_index.number(), ColumnNumber(3));
    // The naive counting algorithm gives the same column.
    let naive = source.location_naive_utf8(ByteIndex(6)).unwrap();
    assert_eq!(naive.column_index.number(), ColumnNumber(3));
    // Under raw byte counting the same byte is column number 7.
    let raw = source.location_in_bytes(ByteIndex(6)).unwrap();
    assert_eq!(raw.column_index.number(), ColumnNumber(7));
}

#[test]
fn utf8_column_algorithms_agree_everywhere() {
    let texts = [
        "",
        "hello world!",
        "foo\nbar\r\n\nbaz",
        "メカジキ",
        "one\ntwoメカ\nthree\n",
    ];
    for text in texts {
        let source = Source::new("t".to_string(), text.to_string(), 0);
        for i in 0..=(text.len() + 2) {
            let fast = source.location_utf8(ByteIndex(i as u32));
            let naive = source.location_naive_utf8(ByteIndex(i as u32));
            assert_eq!(fast, naive);
        }
    }
}

#[test]
fn inclusive_location_counts_the_character_at_the_index() {
    let source = Source::new(SOURCE_NAME.to_string(), SOURCE_TEXT.to_string(), 0);
    let found_idx = SOURCE_TEXT.find("falconer").unwrap();
    // `location` counts the character at the byte index itself, so its
    // column index is already the 1-based column.
    let inclusive = source.location(ByteIndex(found_idx as u32)).unwrap();
    assert_eq!(inclusive.column_index.0, 28);
    let exclusive = source.location_utf8(ByteIndex(found_idx as u32)).unwrap();
    assert_eq!(exclusive.column_index.0, 27);
    assert_eq!(inclusive.line_index, exclusive.line_index);
}

#[test]
fn location_inside_a_multibyte_character_is_refused() {
    let source = Source::new("Japanese kana".to_string(), "メカジキ".to_string(), 0);
    let err = source.location(ByteIndex(4)).unwrap_err();
    assert_eq!(err, LocationError::InvalidCharBoundary { given: ByteIndex(4) });
}

#[test]
fn location_past_the_end_is_out_of_bounds() {
    let source = Source::new("name".to_string(), "no newline at end".to_string(), 0);
    // One past the end of a text that does not end in a line feed is invalid.
    let n = source.len() as u32;
    let err = source.location_utf8(ByteIndex(n)).unwrap_err();
    assert_eq!(err, LocationError::OutOfBounds { given: ByteIndex(n) });
    // With a trailing line feed, one past the end is the empty final line.
    let other = Source::new("name".to_string(), "ends with newline\n".to_string(), 0);
    let m = other.len() as u32;
    let loc = other.location_utf8(ByteIndex(m)).unwrap();
    assert_eq!(loc.line_index.number(), LineNumber(2));
    assert_eq!(loc.column_index.number(), ColumnNumber(1));
}
