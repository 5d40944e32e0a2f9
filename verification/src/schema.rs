//! Decoding with a schema: the caller declares, once, the name and the type
//! of each column, and every row then yields a record of that shape.

use std::marker::PhantomData;
use vstd::prelude::*;

use crate::parser::{
    try_parse, try_parse_with, BoolParser, FieldParser, Float32, Float64, FloatParser,
    IntoRowParser, ParseContext, ParseError, RowParser, RowSpanIterator, StringParser,
};

verus! {

/// The type that a column is declared with.
#[derive(Debug, Clone, Copy, PartialEq, Eq, Structural)]
pub enum FieldType {
    String,
    Float32,
    Float64,
    Bool,
}

/// The value of a field that was decoded with a schema.
#[derive(Debug, Clone, PartialEq)]
pub enum Value {
    String(String),
    Float32(Float32),
    Float64(Float64),
    Bool(bool),
}

/// One column of a schema.
#[derive(Debug, Clone, PartialEq)]
pub struct SchemaField {
    pub name: String,
    pub kind: FieldType,
}

/// The columns that the caller declares, in the order of the file's
/// columns. A column is found by its position, never by its name.
#[derive(Debug, Clone, PartialEq)]
pub struct Schema {
    pub fields: Vec<SchemaField>,
}

impl Schema {
    /// A schema without columns.
    pub fn new() -> (r: Self)
        ensures
            r.fields@.len() == 0,
    {
        Self { fields: Vec::new() }
    }

    /// The schema with one more column at its end.
    pub fn field(self, name: &str, kind: FieldType) -> (r: Self)
        ensures
            r.fields@.len() == self.fields@.len() + 1,
            forall|k: int| 0 <= k < self.fields@.len() ==> r.fields@[k] == self.fields@[k],
            r.fields@[self.fields@.len() as int].name@ == name@,
            r.fields@[self.fields@.len() as int].kind == kind,
    {
        let mut fields = self.fields;
        fields.push(SchemaField { name: name.to_owned(), kind });
        Self { fields }
    }

    /// The number of columns.
    pub fn len(&self) -> (r: usize)
        ensures
            r == self.fields@.len(),
    {
        self.fields.len()
    }
}

/// A row that was decoded with a schema: one slot for each column of the
/// schema, empty where the row gave no value for it.
#[derive(Debug, Clone, PartialEq)]
pub struct Record {
    pub values: Vec<Option<Value>>,
}

impl Record {
    /// The value in the slot of the given column, if the slot exists and
    /// holds one.
    pub fn get(&self, index: usize) -> (r: Option<&Value>)
        ensures
            index < self.values@.len() && self.values@[index as int] is Some ==> r == Some(
                &self.values@[index as int]->0,
            ),
            !(index < self.values@.len() && self.values@[index as int] is Some) ==> r is None,
    {
        if index < self.values.len() {
            self.values[index].as_ref()
        } else {
            None
        }
    }
}

/// A schema made ready to decode rows, with the number syntax `N` for
/// its number columns of either precision.
pub struct SchemaParser<N> {
    schema: Schema,
    syntax: PhantomData<N>,
}

/// Whether `value` is something that a field may be worth in a column of
/// type `kind` under the number syntax `N`: no value where the field is
/// empty or its decoder fails on it, and the decoded value otherwise.
pub open spec fn typed<N: FieldParser<Float32> + FieldParser<Float64>>(
    kind: FieldType,
    span: Seq<u8>,
    value: Option<Value>,
) -> bool {
    if span.len() == 0 {
        value is None
    } else {
        match kind {
            FieldType::String => exists|r: Result<String, ParseError>| #[trigger]
                StringParser::decodes(span, r) && match r {
                    Ok(found) => value matches Some(Value::String(v)) && v == found,
                    Err(_) => value is None,
                },
            FieldType::Float32 => exists|r: Result<Float32, ParseError>| #[trigger]
                <FloatParser<N> as FieldParser<Float32>>::decodes(span, r) && match r {
                    Ok(found) => value matches Some(Value::Float32(v)) && v == found,
                    Err(_) => value is None,
                },
            FieldType::Float64 => exists|r: Result<Float64, ParseError>| #[trigger]
                <FloatParser<N> as FieldParser<Float64>>::decodes(span, r) && match r {
                    Ok(found) => value matches Some(Value::Float64(v)) && v == found,
                    Err(_) => value is None,
                },
            FieldType::Bool => exists|r: Result<bool, ParseError>| #[trigger]
                BoolParser::decodes(span, r) && match r {
                    Ok(found) => value matches Some(Value::Bool(v)) && v == found,
                    Err(_) => value is None,
                },
        }
    }
}

impl<N: FieldParser<Float32> + FieldParser<Float64>> SchemaParser<N> {
    /// The schema that rows are decoded with.
    pub closed spec fn shape(&self) -> Schema {
        self.schema
    }

    /// Makes the schema ready.
    pub fn new(schema: Schema) -> (r: Self)
        ensures
            r.shape() == schema,
    {
        Self { schema, syntax: PhantomData }
    }

    /// The schema that rows are decoded with: the shape of every record.
    pub fn schema(&self) -> (r: &Schema)
        ensures
            *r == self.shape(),
    {
        &self.schema
    }

    /// Decodes one field of a column of type `kind`, leniently.
    pub fn decode_field(kind: FieldType, span: &[u8]) -> (r: Option<Value>)
        ensures
            typed::<N>(kind, span@, r),
    {
        if span.len() == 0 {
            return None;
        }
        match kind {
            FieldType::String => match try_parse::<String>(span) {
                Some(v) => Some(Value::String(v)),
                None => None,
            },
            FieldType::Float32 => match try_parse_with::<Float32, FloatParser<N>>(span) {
                Some(v) => Some(Value::Float32(v)),
                None => None,
            },
            FieldType::Float64 => match try_parse_with::<Float64, FloatParser<N>>(span) {
                Some(v) => Some(Value::Float64(v)),
                None => None,
            },
            FieldType::Bool => match try_parse::<bool>(span) {
                Some(v) => Some(Value::Bool(v)),
                None => None,
            },
        }
    }
}

impl<N: FieldParser<Float32> + FieldParser<Float64>> RowParser<Record> for SchemaParser<N> {
    /// The record has one slot for each column. Slot `k` holds what field
    /// `k` of the row may be worth in column `k`; a column for which the
    /// row has no field gets no value, and a field for which the schema
    /// has no column is passed over.
    open spec fn decodes(&self, row: Seq<u8>, delimiter: u8, record: Record) -> bool {
        let fields = crate::parser::fields::fields_of(row, delimiter);
        &&& record.values@.len() == self.shape().fields@.len()
        &&& forall|k: int|
            0 <= k < self.shape().fields@.len() ==> if k < fields.len() {
                typed::<N>(self.shape().fields@[k].kind, fields[k], #[trigger] record.values@[k])
            } else {
                record.values@[k] is None
            }
    }

    fn parse(&self, row: &[u8], context: &ParseContext) -> (r: Record) {
        let ghost fields = crate::parser::fields::fields_of(row@, context.delimiter);
        let mut iterator = RowSpanIterator::new(context, row);
        let mut values: Vec<Option<Value>> = Vec::new();
        let columns = self.schema.fields.len();
        let mut k: usize = 0;
        while k < columns
            invariant
                iterator.wf(),
                columns == self.schema.fields@.len(),
                fields == crate::parser::fields::fields_of(row@, context.delimiter),
                k <= columns,
                values@.len() == k,
                k <= fields.len() ==> iterator.remaining() == fields.skip(k as int),
                k > fields.len() ==> iterator.remaining().len() == 0,
                forall|j: int|
                    0 <= j < k ==> if j < fields.len() {
                        typed::<N>(self.schema.fields@[j].kind, fields[j], #[trigger] values@[j])
                    } else {
                        values@[j] is None
                    },
            decreases columns - k,
        {
            let kind = self.schema.fields[k].kind;
            let value = match iterator.next() {
                Some(span) => {
                    proof {
                        assert(fields.skip(k as int).drop_first() =~= fields.skip(k + 1));
                    }
                    Self::decode_field(kind, span)
                },
                None => None,
            };
            values.push(value);
            k += 1;
        }
        Record { values }
    }
}

impl<N: FieldParser<Float32> + FieldParser<Float64>> IntoRowParser<Record, N> for Schema {
    type Parser = SchemaParser<N>;

    open spec fn ready(self, parser: SchemaParser<N>) -> bool {
        parser.shape() == self
    }

    fn into_row_parser(self) -> (r: SchemaParser<N>) {
        SchemaParser::new(self)
    }
}

/// An empty field is worth nothing in a column of any type.
pub proof fn lemma_empty_field_gives_no_value<N: FieldParser<Float32> + FieldParser<Float64>>(
    kind: FieldType,
    span: Seq<u8>,
    value: Option<Value>,
)
    requires
        span.len() == 0,
        typed::<N>(kind, span, value),
    ensures
        value is None,
{
}

/// A field whose bytes are not valid UTF-8 is worth nothing in a text
/// column.
pub proof fn lemma_invalid_text_gives_no_value<N: FieldParser<Float32> + FieldParser<Float64>>(
    span: Seq<u8>,
    value: Option<Value>,
)
    requires
        !vstd::utf8::valid_utf8(span),
        typed::<N>(FieldType::String, span, value),
    ensures
        value is None,
{
}

/// A field whose bytes are valid UTF-8, and which is not empty, is worth
/// its trimmed text in a text column.
pub proof fn lemma_valid_text_gives_its_text<N: FieldParser<Float32> + FieldParser<Float64>>(
    span: Seq<u8>,
    value: Option<Value>,
)
    requires
        span.len() > 0,
        vstd::utf8::valid_utf8(span),
        typed::<N>(FieldType::String, span, value),
    ensures
        value matches Some(Value::String(text)) && text@ == vstd::utf8::decode_utf8(
            crate::span::trimmed(span),
        ),
{
}

/// What a field is worth in a boolean column: `true` and `false` for the
/// two tokens, and nothing for anything else.
pub proof fn lemma_bool_column<N: FieldParser<Float32> + FieldParser<Float64>>(
    span: Seq<u8>,
    value: Option<Value>,
)
    requires
        typed::<N>(FieldType::Bool, span, value),
    ensures
        crate::span::trimmed(span) == crate::parser::true_token() ==> value == Some(
            Value::Bool(true),
        ),
        crate::span::trimmed(span) == crate::parser::false_token() ==> value == Some(
            Value::Bool(false),
        ),
        crate::span::trimmed(span) != crate::parser::true_token() && crate::span::trimmed(span)
            != crate::parser::false_token() ==> value is None,
{
    if span.len() == 0 {
        assert(crate::span::trimmed(span) =~= span);
    }
}

/// In a record that a row decodes to, a text column whose field is not
/// valid UTF-8 is empty, and so is every column that the row has no field
/// for; the record has a slot for each column all the same.
pub proof fn lemma_record_keeps_its_shape<N: FieldParser<Float32> + FieldParser<Float64>>(
    parser: SchemaParser<N>,
    row: Seq<u8>,
    delimiter: u8,
    record: Record,
    k: int,
)
    requires
        parser.decodes(row, delimiter, record),
        0 <= k < parser.shape().fields@.len(),
    ensures
        record.values@.len() == parser.shape().fields@.len(),
        k >= crate::parser::fields::fields_of(row, delimiter).len() ==> record.values@[k] is None,
        k < crate::parser::fields::fields_of(row, delimiter).len()
            && parser.shape().fields@[k].kind == FieldType::String && !vstd::utf8::valid_utf8(
            crate::parser::fields::fields_of(row, delimiter)[k],
        ) ==> record.values@[k] is None,
{
    let fields = crate::parser::fields::fields_of(row, delimiter);
    if k < fields.len() {
        assert(typed::<N>(parser.shape().fields@[k].kind, fields[k], record.values@[k]));
    }
}

} // verus!
