//! A zero-copy reader for delimited text.
//!
//! A buffer is cut into rows at each newline byte, a row into fields at each
//! delimiter byte, and a field is decoded into text, a number or a boolean:
//! each field for itself, or as a schema declares its column. A field that
//! does not decode leaves its slot empty; nothing in a buffer makes a read
//! fail.
//!
//! The contracts say which rows, fields and values come out for every
//! input. Numbers are held as the bits of their encoding, and the decoder
//! that reads a token as a number is named by the caller: the contracts
//! say what is handed to it and what becomes of its result.

use vstd::prelude::*;

pub mod parser;
pub mod reader;
pub mod rows;
pub mod schema;
pub mod span;

pub use parser::{DefaultRowParser, DefaultSchema, FieldValue};
pub use reader::CsvReader;
pub use rows::RowIterator;

verus! {

/// The byte that ends a row.
pub const NEWLINE: u8 = 0x0A;

/// The comma, a common field delimiter.
pub const COMMA: u8 = 0x2C;

/// The semicolon, the field delimiter of a default [`parser::ParseContext`].
pub const SEMICOLON: u8 = 0x3B;

} // verus!

