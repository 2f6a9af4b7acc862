use saucepan::ByteIndex;
use saucepan::ByteOffset;
use saucepan::Source;
use saucepan::Span;

const SOURCE_NAME: &str = "The Second Coming By William Butler Yeats";
const SOURCE_TEXT: &str = "Turning and turning in the widening gyre
The falcon cannot hear the falconer;
Things fall apart; the centre cannot hold;
Mere anarchy is loosed upon the world,
The blood-dimmed tide is loosed, and everywhere
The ceremony of innocence is drowned;
The best lack all conviction, while the worst
Are full of passionate intensity.";

#[test]
fn test_merge() {
    let source = Source::new(SOURCE_NAME.to_string(), SOURCE_TEXT.to_string(), 0);

    // overlap
    let a: Span = source.slice(1, 5);
    let b: Span = source.slice(3, 10);
    assert_eq!(a.merge(b).unwrap(), source.slice(1, 10));
    assert_eq!(b.merge(a).unwrap(), source.slice(1, 10));

    // subset
    let two_four = source.slice(2, 4);
    assert_eq!(a.merge(two_four).unwrap(), source.slice(1, 5));
    assert_eq!(two_four.merge(a).unwrap(), source.slice(1, 5));

    // disjoint
    let ten_twenty = source.slice(10, 20);
    assert_eq!(a.merge(ten_twenty).unwrap(), source.slice(1, 20));
    assert_eq!(ten_twenty.merge(a).unwrap(), source.slice(1, 20));

    // identity
    assert_eq!(a.merge(a).unwrap(), a);
}

#[test]
fn test_disjoint() {
    let source = Source::new(SOURCE_NAME.to_string(), SOURCE_TEXT.to_string(), 0);

    // overlap
    let a = source.slice(1, 5);
    let b = source.slice(3, 10);
    assert!(!a.disjoint(b));
    assert!(!b.disjoint(a));

    // subset
    let two_four = source.slice(2, 4);
    assert!(!a.disjoint(two_four));
    assert!(!two_four.disjoint(a));

    // disjoint
    let ten_twenty = source.slice(10, 20);
    assert!(a.disjoint(ten_twenty));
    assert!(ten_twenty.disjoint(a));

    // identity
    assert!(!a.disjoint(a));

    // off by one (upper bound)
    let c = source.slice(5, 10);
    assert!(a.disjoint(c));
    assert!(c.disjoint(a));
    // off by one (lower bound)
    let d = source.slice(0, 1);
    assert!(a.disjoint(d));
    assert!(d.disjoint(a));
}

#[test]
fn merge_across_sources_is_an_error() {
    let first = Source::new("first".to_string(), "one\ntwo".to_string(), 0);
    let second = Source::new("second".to_string(), "one\ntwo".to_string(), 1);
    let a = first.slice(0, 3);
    let b = second.slice(0, 3);
    let err = a.merge(b).unwrap_err();
    assert_eq!(err.lhs, a);
    assert_eq!(err.rhs, b);
    // spans of different sources never compare equal, even over equal text
    assert_ne!(a, b);
    // and they are disjoint by definition
    assert!(a.disjoint(b));
    assert!(b.disjoint(a));
}

#[test]
fn span_accessors_follow_construction() {
    let source = Source::new("name".to_string(), "hello world!".to_string(), 7);
    let span = Span::new(ByteIndex(3), ByteOffset(4), &source);
    assert_eq!(span.start(), ByteIndex(3));
    assert_eq!(span.end(), ByteIndex(7));
    assert_eq!(span.len(), 4);
    assert_eq!(span.location_offset(), ByteIndex(3));
    assert_eq!(span.source_id, 7);
    assert_eq!(span.fragment(&source).unwrap(), "lo w");
}

#[test]
fn span_slice_is_relative_and_clips() {
    let source = Source::new("name".to_string(), "hello world!".to_string(), 0);
    let span = source.slice(6, 11); // "world"
    assert_eq!(span.slice(0, 3).fragment(&source).unwrap(), "wor");
    assert_eq!(span.slice(1, 100).fragment(&source).unwrap(), "orld");
    // inverted ranges give an empty span at the clipped start
    let empty = span.slice(4, 2);
    assert_eq!(empty.len(), 0);
    assert_eq!(empty.start(), ByteIndex(10));
    // an empty slice of an empty request still lies within the source
    let far = span.slice(100, 200);
    assert_eq!(far.len(), 0);
    assert_eq!(far.end(), span.end());
}
