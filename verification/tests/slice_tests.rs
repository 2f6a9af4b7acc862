use saucepan::ByteIndex;
use saucepan::LocationError;
use saucepan::NotASourceError;
use saucepan::Source;
use saucepan::Sources;

#[test]
fn slice_clips_to_the_text() {
    let source = Source::new("greeting".to_string(), "hello world!".to_string(), 0);
    assert_eq!(source.slice(0, 5).fragment(&source).unwrap(), "hello");
    // An out-of-range end clips to the text's length.
    assert_eq!(source.slice(0, 100), source.slice(0, 12));
    assert_eq!(source.slice(0, 100).fragment(&source).unwrap(), "hello world!");
    // A fully out-of-range request gives an empty span at the end.
    let far = source.slice(50, 90);
    assert_eq!(far.len(), 0);
    assert_eq!(far.start(), ByteIndex(12));
    // An inverted range gives an empty span at its clipped start.
    let inverted = source.slice(7, 3);
    assert_eq!(inverted.len(), 0);
    assert_eq!(inverted.start(), ByteIndex(7));
}

#[test]
fn slice_fragment_round_trip() {
    let text = "foo\nbar\r\n\nbaz";
    let source = Source::new("mixed".to_string(), text.to_string(), 0);
    let n = text.len();
    for a in 0..(n + 3) {
        for b in 0..(n + 3) {
            let lo = a.min(n);
            let hi = b.min(n).max(lo);
            let frag = source.slice(a, b).fragment(&source).unwrap();
            assert_eq!(frag, &text[lo..hi]);
        }
    }
}

#[test]
fn fragment_refuses_split_characters() {
    let source = Source::new("Japanese kana".to_string(), "メカジキ".to_string(), 0);
    // Glyph boundaries are at 0, 3, 6, 9 and 12; byte 4 splits a glyph.
    let err = source.slice(4, 6).fragment(&source).unwrap_err();
    assert_eq!(err, LocationError::InvalidCharBoundary { given: ByteIndex(4) });
    let err = source.slice(3, 7).fragment(&source).unwrap_err();
    assert_eq!(err, LocationError::InvalidCharBoundary { given: ByteIndex(7) });
    assert_eq!(source.slice(3, 6).fragment(&source).unwrap(), "カ");
}

#[test]
fn source_span_and_accessors() {
    let source = Source::new("a name".to_string(), "some text".to_string(), 0);
    assert_eq!(source.name(), "a name");
    assert_eq!(source.text(), "some text");
    assert_eq!(source.len(), 9);
    assert_eq!(source.start(), ByteIndex(0));
    assert_eq!(source.end(), ByteIndex(9));
    let all = source.source_span();
    assert_eq!(all.len(), 9);
    assert_eq!(all.fragment(&source).unwrap(), "some text");
}

#[test]
fn registry_hands_out_stable_identities() {
    let mut sources = Sources::new();
    let first = sources.add("first".to_string(), "one\ntwo".to_string());
    let second = sources.add("second".to_string(), "one\ntwo".to_string());
    assert_eq!(first, 0);
    assert_eq!(second, 1);
    assert_eq!(sources.len(), 2);
    assert_eq!(sources.get(first).unwrap().name(), "first");
    assert_eq!(sources.get(second).unwrap().name(), "second");
    assert!(sources.get(2).is_none());
    // Spans of different registered sources never merge.
    let a = sources.get(first).unwrap().source_span();
    let b = sources.get(second).unwrap().source_span();
    assert!(a.merge(b).is_err());
    assert!(a.disjoint(b));
}

#[test]
fn registry_update_recomputes_lines() {
    let mut sources = Sources::new();
    let id = sources.add("file".to_string(), "one\ntwo".to_string());
    sources.update(id, "a\nb\nc".to_string()).unwrap();
    let source = sources.get(id).unwrap();
    assert_eq!(source.name(), "file");
    assert_eq!(source.text(), "a\nb\nc");
    assert_eq!(source.line_index(ByteIndex(4)).unwrap().0, 2);
    let err = sources.update(9, "nope".to_string()).unwrap_err();
    assert_eq!(err, NotASourceError { given: 9, max: 1 });
}
