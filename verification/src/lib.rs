//! A line-oriented text buffer for a screen editor.
//!
//! A [`Document`] is an ordered sequence of [`Row`]s. Every index into a row
//! counts grapheme clusters, never bytes or scalar values. The [`editor`]
//! module maps a cursor position onto a scrolled viewport.
pub mod document;
pub mod editor;
pub mod hightlighting;
pub mod row;
pub mod search;
pub mod segment;
pub mod text;

pub use document::Document;
pub use editor::{Editor, Position, SearchDirection};
pub use row::Row;
