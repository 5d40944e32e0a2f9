//! Decoding without a schema: each field becomes a number where it reads as
//! one, and text otherwise.

use std::marker::PhantomData;
use vstd::prelude::*;

use crate::parser::{
    try_parse_with, FieldParser, Float64, FloatParser, ParseContext, ParseError, RowParser,
    RowSpanIterator, StringParser,
};

verus! {

/// The value of a field that was decoded without a schema.
#[derive(Debug, Clone, PartialEq)]
pub enum FieldValue {
    Float(Float64),
    String(String),
}

/// A row that was decoded without a schema: one slot for each field of the
/// row, empty where the field gave no value.
#[derive(Debug, Clone, PartialEq)]
pub struct DefaultSchema {
    pub fields: Vec<Option<FieldValue>>,
}

impl DefaultSchema {
    /// The row with the given slots.
    pub fn new(fields: Vec<Option<FieldValue>>) -> (r: Self)
        ensures
            r.fields == fields,
    {
        Self { fields }
    }
}

/// What a field is worth without a schema, given the number that was read
/// from it, if any: an empty field gives no value; a field that reads as a
/// number gives that number, whatever else it could be; any other field
/// gives its text where it is valid UTF-8, and no value where it is not.
pub open spec fn classified(
    span: Seq<u8>,
    number: Option<Float64>,
    value: Option<FieldValue>,
) -> bool {
    if span.len() == 0 {
        value is None
    } else if number is Some {
        value matches Some(FieldValue::Float(v)) && v == number->0
    } else if vstd::utf8::valid_utf8(span) {
        value matches Some(FieldValue::String(text)) && text@ == vstd::utf8::decode_utf8(
            crate::span::trimmed(span),
        )
    } else {
        value is None
    }
}

/// Whether `value` is something that a field may be worth without a schema
/// under the number syntax `N`: what [`classified`] makes of the field and
/// of a possible result of decoding it as a number.
pub open spec fn untyped<N: FieldParser<Float64>>(
    span: Seq<u8>,
    value: Option<FieldValue>,
) -> bool {
    exists|number: Result<Float64, ParseError>| #[trigger]
        <FloatParser<N> as FieldParser<Float64>>::decodes(span, number) && classified(
            span,
            crate::parser::lenient(number),
            value,
        )
}

impl FieldValue {
    /// Settles the value of a field from the field and from the number
    /// that was read from it, if any.
    pub fn classify(span: &[u8], number: Option<Float64>) -> (r: Option<FieldValue>)
        ensures
            classified(span@, number, r),
    {
        if span.len() == 0 {
            None
        } else if let Some(v) = number {
            Some(FieldValue::Float(v))
        } else if let Ok(text) = StringParser::parse(span) {
            Some(FieldValue::String(text))
        } else {
            None
        }
    }
}

/// Decodes rows without a schema, with the number syntax `N`.
pub struct DefaultRowParser<N> {
    syntax: PhantomData<N>,
}

impl<N: FieldParser<Float64>> DefaultRowParser<N> {
    /// The decoder.
    pub fn new() -> (r: Self) {
        Self { syntax: PhantomData }
    }

    /// Decodes one field: a number before anything else.
    pub fn try_parse_field(span: &[u8]) -> (r: Option<FieldValue>)
        ensures
            untyped::<N>(span@, r),
            span@.len() == 0 ==> r is None,
    {
        let number = try_parse_with::<Float64, FloatParser<N>>(span);
        FieldValue::classify(span, number)
    }
}

impl<N: FieldParser<Float64>> RowParser<DefaultSchema> for DefaultRowParser<N> {
    /// The record has one slot for each field of the row, and each slot
    /// holds what its field may be worth.
    open spec fn decodes(&self, row: Seq<u8>, delimiter: u8, record: DefaultSchema) -> bool {
        let fields = crate::parser::fields::fields_of(row, delimiter);
        &&& record.fields@.len() == fields.len()
        &&& forall|k: int|
            0 <= k < fields.len() ==> untyped::<N>(fields[k], #[trigger] record.fields@[k])
    }

    fn parse(&self, row: &[u8], context: &ParseContext) -> (r: DefaultSchema) {
        let ghost fields = crate::parser::fields::fields_of(row@, context.delimiter);
        let mut iterator = RowSpanIterator::new(context, row);
        let mut result: Vec<Option<FieldValue>> = Vec::new();
        loop
            invariant
                iterator.wf(),
                fields == crate::parser::fields::fields_of(row@, context.delimiter),
                result@.len() + iterator.remaining().len() == fields.len(),
                forall|k: int|
                    0 <= k < result@.len() ==> untyped::<N>(fields[k], #[trigger] result@[k]),
                forall|k: int|
                    0 <= k < iterator.remaining().len() ==> iterator.remaining()[k]
                        == fields[result@.len() + k],
            decreases iterator.remaining().len(),
        {
            let ghost before = iterator.remaining();
            match iterator.next() {
                Some(span) => {
                    let value = Self::try_parse_field(span);
                    result.push(value);
                    assert forall|k: int| 0 <= k < iterator.remaining().len() implies
                        iterator.remaining()[k] == fields[result@.len() + k] by {
                        assert(iterator.remaining()[k] == before[k + 1]);
                    }
                },
                None => {
                    return DefaultSchema::new(result);
                },
            }
        }
    }
}

/// A field that reads as a number is worth that number, whether or not its
/// bytes are text as well.
pub proof fn lemma_number_before_text(span: Seq<u8>, number: Float64, value: Option<FieldValue>)
    requires
        span.len() > 0,
        classified(span, Some(number), value),
    ensures
        value matches Some(FieldValue::Float(v)) && v == number,
{
}

/// An empty field is worth nothing, whatever the number syntax.
pub proof fn lemma_untyped_empty<N: FieldParser<Float64>>(span: Seq<u8>, value: Option<FieldValue>)
    requires
        span.len() == 0,
        untyped::<N>(span, value),
    ensures
        value is None,
{
}

/// Where decoding a field as a number can only succeed, the field is worth
/// one of the numbers that it can decode to.
pub proof fn lemma_untyped_number<N: FieldParser<Float64>>(span: Seq<u8>, value: Option<FieldValue>)
    requires
        span.len() > 0,
        untyped::<N>(span, value),
        forall|r: Result<Float64, ParseError>| #[trigger]
            <FloatParser<N> as FieldParser<Float64>>::decodes(span, r) ==> r is Ok,
    ensures
        value matches Some(FieldValue::Float(v)) && <FloatParser<N> as FieldParser<
            Float64,
        >>::decodes(span, Ok(v)),
{
}

/// Where decoding a field as a number can only fail, the field is worth
/// its text where its bytes are valid UTF-8, and nothing where they are
/// not.
pub proof fn lemma_untyped_text<N: FieldParser<Float64>>(span: Seq<u8>, value: Option<FieldValue>)
    requires
        span.len() > 0,
        untyped::<N>(span, value),
        forall|r: Result<Float64, ParseError>| #[trigger]
            <FloatParser<N> as FieldParser<Float64>>::decodes(span, r) ==> r is Err,
    ensures
        vstd::utf8::valid_utf8(span) ==> (value matches Some(FieldValue::String(text)) && text@
            == vstd::utf8::decode_utf8(crate::span::trimmed(span))),
        !vstd::utf8::valid_utf8(span) ==> value is None,
{
}

} // verus!
