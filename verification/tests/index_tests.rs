use saucepan::ByteIndex;
use saucepan::ByteOffset;
use saucepan::ColumnIndex;
use saucepan::ColumnNumber;
use saucepan::Index;
use saucepan::LineIndex;
use saucepan::LineNumber;
use saucepan::LineOffset;
use saucepan::Location;
use saucepan::Offset;

#[test]
fn numbers_are_one_based_indices() {
    assert_eq!(LineIndex(0).number(), LineNumber(1));
    assert_eq!(LineIndex(41).number(), LineNumber(42));
    assert_eq!(ColumnIndex(0).number(), ColumnNumber(1));
    assert_eq!(ColumnIndex(6).number(), ColumnNumber(7));
}

#[test]
fn index_arithmetic() {
    assert_eq!(ByteIndex::new(7), ByteIndex(7));
    assert_eq!(ByteIndex(7).to_usize(), 7);
    assert_eq!(ByteIndex(7).offset_from(ByteIndex(3)), ByteOffset(4));
    assert_eq!(ByteIndex(3).offset_from(ByteIndex(7)), ByteOffset(-4));
    assert_eq!(ByteIndex(7).plus_offset(ByteOffset(4)), ByteIndex(11));
    assert_eq!(ByteIndex(7).minus_offset(ByteOffset(4)), ByteIndex(3));
    assert_eq!(ByteOffset::new(9).to_usize(), 9);
    assert_eq!(LineIndex(5).plus_offset(LineOffset(1)), LineIndex(6));
    assert_eq!(LineIndex(5).offset_from(LineIndex(2)), LineOffset(3));
}

#[test]
fn index_and_offset_traits() {
    assert_eq!(ByteOffset::zero(), ByteOffset(0));
    assert_eq!(LineOffset::zero(), LineOffset(0));
    assert_eq!(ByteIndex(9).diff(ByteIndex(4)), ByteOffset(5));
    assert_eq!(LineIndex(2).diff(LineIndex(5)), LineOffset(-3));
    assert_eq!(ColumnIndex(8).diff(ColumnIndex(8)), saucepan::ColumnOffset(0));
}

#[test]
fn location_carries_its_fields() {
    let location = Location::new(LineIndex(3), ColumnIndex(9));
    assert_eq!(location.line_index, LineIndex(3));
    assert_eq!(location.column_index, ColumnIndex(9));
    assert_eq!(location.line_number(), LineNumber(4));
    assert_eq!(location.column_number(), ColumnNumber(10));
}
