//! Source-position tracking for parsers and diagnostic tools.
//!
//! Raw source text is registered once and indexed for line starts; from then
//! on byte ranges are handed around as cheap [`Span`] values tied to their
//! [`Source`] by an integer identity, and any byte index can be resolved to a
//! line/column [`Location`].

pub mod error;
pub mod index_types;
pub mod location;
pub mod scan;
pub mod source;
pub mod sources;
pub mod span;

pub use crate::error::IncompatibleSourcesError;
pub use crate::error::LineIndexOutOfBoundsError;
pub use crate::error::LocationError;
pub use crate::error::NotASourceError;
pub use crate::error::SpanOutOfBoundsError;
pub use crate::index_types::ByteIndex;
pub use crate::index_types::ByteOffset;
pub use crate::index_types::ColumnIndex;
pub use crate::index_types::ColumnNumber;
pub use crate::index_types::ColumnOffset;
pub use crate::index_types::Index;
pub use crate::index_types::LineIndex;
pub use crate::index_types::LineNumber;
pub use crate::index_types::LineOffset;
pub use crate::index_types::Offset;
pub use crate::index_types::RawIndex;
pub use crate::index_types::RawOffset;
pub use crate::location::Location;
pub use crate::source::Source;
pub use crate::sources::Sources;
pub use crate::span::Span;
