//! Field decoding: from a field's bytes to text, a number or a boolean.

use vstd::prelude::*;

use crate::span::trim;
use crate::SEMICOLON;

pub mod default;
pub mod fields;
pub mod number;
pub mod text;

pub use default::{DefaultRowParser, DefaultSchema, FieldValue};
pub use fields::RowSpanIterator;
pub use number::{Float32, Float64, FloatParser};

verus! {

/// Why a field did not decode.
#[derive(Debug, Clone, Copy, PartialEq, Eq, Structural)]
pub enum ParseError {
    /// The bytes are not valid UTF-8.
    InvalidText,
    /// The token is not a decimal number.
    InvalidNumber,
    /// The token is neither `true` nor `false`.
    InvalidBool,
}

impl ParseError {
    /// The text of [`ParseError::message`].
    pub open spec fn message_text(&self) -> Seq<char> {
        match self {
            ParseError::InvalidText => "Parse error: the field is not valid UTF-8"@,
            ParseError::InvalidNumber => "Parse error: the field is not a number"@,
            ParseError::InvalidBool => "Parse error: the field is neither true nor false"@,
        }
    }

    /// A sentence for the reader of a log.
    pub fn message(&self) -> (r: String)
        ensures
            r@ == self.message_text(),
    {
        match self {
            ParseError::InvalidText => "Parse error: the field is not valid UTF-8".to_owned(),
            ParseError::InvalidNumber => "Parse error: the field is not a number".to_owned(),
            ParseError::InvalidBool => {
                "Parse error: the field is neither true nor false".to_owned()
            },
        }
    }
}

/// What one read is configured with: the byte that separates fields.
#[derive(Debug, Clone, Copy, PartialEq, Eq, Structural)]
pub struct ParseContext {
    pub delimiter: u8,
}

impl ParseContext {
    /// A context with the given field delimiter.
    pub fn new(delimiter: u8) -> (r: Self)
        ensures
            r.delimiter == delimiter,
    {
        Self { delimiter }
    }
}

impl Default for ParseContext {
    /// Fields are separated by a semicolon.
    fn default() -> (r: Self)
        ensures
            r.delimiter == SEMICOLON,
    {
        Self { delimiter: SEMICOLON }
    }
}

/// A decoder of one field into a value of type `T`.
pub trait FieldParser<T> {
    /// Whether `r` is something that the span may decode to. A decoder
    /// that says nothing of itself may return anything.
    open spec fn decodes(span: Seq<u8>, r: Result<T, ParseError>) -> bool {
        true
    }

    /// Decodes the span.
    fn parse(span: &[u8]) -> (r: Result<T, ParseError>)
        ensures
            Self::decodes(span@, r),
    ;
}

/// What is left of a result where failures count as no value.
pub open spec fn lenient<T>(r: Result<T, ParseError>) -> Option<T> {
    match r {
        Ok(value) => Some(value),
        Err(_) => None,
    }
}

/// The type of what `String::from_utf8` returns for bytes that are not
/// UTF-8. Nothing is read from it.
#[verifier::external_type_specification]
#[verifier::external_body]
pub struct ExFromUtf8Error(std::string::FromUtf8Error);

/// `String::from_utf8` succeeds exactly on valid UTF-8, and the string it
/// returns then holds the characters that the bytes encode.
pub assume_specification[ std::string::String::from_utf8 ](bytes: std::vec::Vec<u8>) -> (r: Result<
    std::string::String,
    std::string::FromUtf8Error,
>)
    ensures
        r is Ok <==> vstd::utf8::valid_utf8(bytes@),
        r matches Ok(text) ==> text@ == vstd::utf8::decode_utf8(bytes@),
;

/// Decodes a field as text: the bytes of the field must be valid UTF-8,
/// and the text is what they encode without the surrounding whitespace.
pub struct StringParser {}

impl FieldParser<String> for StringParser {
    open spec fn decodes(span: Seq<u8>, r: Result<String, ParseError>) -> bool {
        match r {
            Ok(text) => vstd::utf8::valid_utf8(span) && text@ == vstd::utf8::decode_utf8(
                crate::span::trimmed(span),
            ),
            Err(e) => !vstd::utf8::valid_utf8(span) && e == ParseError::InvalidText,
        }
    }

    fn parse(span: &[u8]) -> (r: Result<String, ParseError>) {
        let token = trim(span);
        proof {
            text::lemma_text_accepts_valid_utf8(span@);
        }
        match String::from_utf8(vstd::slice::slice_to_vec(token)) {
            Ok(text) => Ok(text),
            Err(_) => Err(ParseError::InvalidText),
        }
    }
}

/// The bytes of the token `true`.
pub open spec fn true_token() -> Seq<u8> {
    seq![0x74u8, 0x72u8, 0x75u8, 0x65u8]
}

/// The bytes of the token `false`.
pub open spec fn false_token() -> Seq<u8> {
    seq![0x66u8, 0x61u8, 0x6Cu8, 0x73u8, 0x65u8]
}

/// What a token reads as a boolean.
pub open spec fn bool_of(token: Seq<u8>) -> Result<bool, ParseError> {
    if token == true_token() {
        Ok(true)
    } else if token == false_token() {
        Ok(false)
    } else {
        Err(ParseError::InvalidBool)
    }
}

/// Decodes a field as a boolean: without its surrounding whitespace the
/// field must read `true` or `false`, in lower case.
pub struct BoolParser {}

impl FieldParser<bool> for BoolParser {
    open spec fn decodes(span: Seq<u8>, r: Result<bool, ParseError>) -> bool {
        r == bool_of(crate::span::trimmed(span))
    }

    fn parse(span: &[u8]) -> (r: Result<bool, ParseError>) {
        let token = trim(span);
        if token.len() == 4 && token[0] == 0x74 && token[1] == 0x72 && token[2] == 0x75
            && token[3] == 0x65 {
            assert(token@ =~= true_token());
            Ok(true)
        } else if token.len() == 5 && token[0] == 0x66 && token[1] == 0x61 && token[2] == 0x6C
            && token[3] == 0x73 && token[4] == 0x65 {
            assert(token@ =~= false_token());
            Ok(false)
        } else {
            Err(ParseError::InvalidBool)
        }
    }
}

/// The decoder that a type of value is decoded with when nothing else is
/// said.
pub trait IntoFieldParser<T> {
    type Parser: FieldParser<T>;
}

impl IntoFieldParser<bool> for bool {
    type Parser = BoolParser;
}

impl IntoFieldParser<String> for String {
    type Parser = StringParser;
}

/// Decodes a field with the decoder `P`, leniently: a field that does not
/// decode gives no value.
pub fn try_parse_with<T, P: FieldParser<T>>(span: &[u8]) -> (value: Option<T>)
    ensures
        exists|r: Result<T, ParseError>| #[trigger] P::decodes(span@, r) && value == lenient(r),
{
    match P::parse(span) {
        Ok(v) => {
            assert(P::decodes(span@, Ok::<T, ParseError>(v)));
            Some(v)
        },
        Err(e) => {
            assert(P::decodes(span@, Err::<T, ParseError>(e)));
            None
        },
    }
}

/// Decodes a field with the decoder of its type, leniently: a field that
/// does not decode gives no value.
pub fn try_parse<T: IntoFieldParser<T>>(span: &[u8]) -> (value: Option<T>)
    ensures
        exists|r: Result<T, ParseError>| #[trigger]
            <T as IntoFieldParser<T>>::Parser::decodes(span@, r) && value == lenient(r),
{
    try_parse_with::<T, <T as IntoFieldParser<T>>::Parser>(span)
}

/// A decoder of whole rows into records of type `S`.
pub trait RowParser<S> {
    /// Whether `record` is something that the row may decode to when its
    /// fields are separated by `delimiter`. A decoder that says nothing of
    /// itself may return anything.
    open spec fn decodes(&self, row: Seq<u8>, delimiter: u8, record: S) -> bool {
        true
    }

    /// Decodes one row.
    fn parse(&self, row: &[u8], context: &ParseContext) -> (r: S)
        ensures
            self.decodes(row@, context.delimiter, r),
    ;
}

/// What can be made ready, once, to decode any number of rows into records
/// of type `S`, with the number syntax `N`.
pub trait IntoRowParser<S, N> {
    type Parser: RowParser<S>;

    /// Whether `parser` is what `self` is made ready as.
    spec fn ready(self, parser: Self::Parser) -> bool;

    /// Makes `self` ready.
    fn into_row_parser(self) -> (r: Self::Parser)
        ensures
            self.ready(r),
    ;
}

} // verus!
