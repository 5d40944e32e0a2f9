//! Reading a whole buffer: every row behind the header becomes a record.

use std::marker::PhantomData;
use vstd::prelude::*;

use crate::parser::{ParseContext, ParseError, RowParser};
use crate::rows::RowIterator;

verus! {

/// The rows of a buffer that are decoded: all of them, or all but the
/// first where the first is a header.
pub open spec fn data_rows(data: Seq<u8>, skip_header: bool) -> Seq<Seq<u8>> {
    let rows = crate::rows::rows_of(data);
    if skip_header && rows.len() > 0 {
        rows.drop_first()
    } else {
        rows
    }
}

/// An empty buffer has no rows to decode.
pub proof fn lemma_data_rows_of_empty(skip_header: bool)
    ensures
        data_rows(Seq::<u8>::empty(), skip_header).len() == 0,
{
}

/// Behind a header line, the rows that are decoded are the rows of what
/// follows the header: as many as newline bytes follow it.
pub proof fn lemma_data_rows_behind_header(header: Seq<u8>, body: Seq<u8>)
    requires
        crate::span::free_of(header, crate::NEWLINE),
    ensures
        data_rows(header + seq![crate::NEWLINE] + body, true) == crate::rows::rows_of(body),
        data_rows(header + seq![crate::NEWLINE] + body, true).len() == crate::span::count(
            body,
            crate::NEWLINE,
        ),
{
    crate::rows::lemma_rows_of_line(header, body);
    crate::rows::lemma_rows_count(body);
    let rows = crate::rows::rows_of(header + seq![crate::NEWLINE] + body);
    assert(rows.drop_first() =~= crate::rows::rows_of(body));
}

/// Without a header, every row is decoded: as many as the buffer has
/// newline bytes.
pub proof fn lemma_data_rows_without_header(data: Seq<u8>)
    ensures
        data_rows(data, false) == crate::rows::rows_of(data),
        data_rows(data, false).len() == crate::span::count(data, crate::NEWLINE),
{
    crate::rows::lemma_rows_count(data);
}

/// Reads buffers of delimited text into records of type `Schema`, one for
/// each row, with the row parser `P`.
///
/// A reader passes over one header row unless it is told that there is
/// none, and separates fields by a semicolon unless it is given another
/// context.
pub struct CsvReader<Schema, P> {
    schema: PhantomData<Schema>,
    parser: P,
    context: ParseContext,
    skip_header: bool,
}

impl<Schema, P: RowParser<Schema>> CsvReader<Schema, P> {
    /// The parser that decodes the rows.
    pub closed spec fn parser(&self) -> P {
        self.parser
    }

    /// The context that the rows are decoded in.
    pub closed spec fn context(&self) -> ParseContext {
        self.context
    }

    /// Whether the first row is passed over.
    pub closed spec fn skips_header(&self) -> bool {
        self.skip_header
    }

    /// A reader with the given row parser, for buffers that start with a
    /// header row and separate their fields by a semicolon.
    pub fn new(parser: P) -> (r: Self)
        ensures
            r.parser() == parser,
            r.context().delimiter == crate::SEMICOLON,
            r.skips_header(),
    {
        Self { schema: PhantomData, parser, context: ParseContext::default(), skip_header: true }
    }

    /// The same reader with another context.
    pub fn with_context(self, context: ParseContext) -> (r: Self)
        ensures
            r.parser() == self.parser(),
            r.context() == context,
            r.skips_header() == self.skips_header(),
    {
        Self {
            schema: PhantomData,
            parser: self.parser,
            context,
            skip_header: self.skip_header,
        }
    }

    /// The same reader, told whether buffers start with a header row.
    pub fn with_header(self, header: bool) -> (r: Self)
        ensures
            r.parser() == self.parser(),
            r.context() == self.context(),
            r.skips_header() == header,
    {
        Self {
            schema: PhantomData,
            parser: self.parser,
            context: self.context,
            skip_header: header,
        }
    }

    /// Decodes the rows of `span`, in order. There is one record for each
    /// row behind the header, and nothing in a row makes the read fail: a
    /// field that does not decode leaves its slot empty.
    pub fn read(&self, span: &[u8]) -> (r: Result<Vec<Schema>, ParseError>)
        ensures
            r matches Ok(records) && records@.len() == data_rows(span@, self.skips_header()).len()
                && forall|k: int|
                0 <= k < records@.len() ==> self.parser().decodes(
                    data_rows(span@, self.skips_header())[k],
                    self.context().delimiter,
                    #[trigger] records@[k],
                ),
            span@.len() == 0 ==> (r matches Ok(records) && records@.len() == 0),
    {
        let ghost rows = data_rows(span@, self.skip_header);
        let mut result: Vec<Schema> = Vec::new();
        let mut iterator = RowIterator::new(span);
        if self.skip_header {
            let _ = iterator.next();
        }
        assert(iterator.remaining() == rows);
        loop
            invariant
                iterator.wf(),
                rows == data_rows(span@, self.skips_header()),
                result@.len() + iterator.remaining().len() == rows.len(),
                forall|k: int|
                    0 <= k < result@.len() ==> self.parser().decodes(
                        rows[k],
                        self.context().delimiter,
                        #[trigger] result@[k],
                    ),
                forall|k: int|
                    0 <= k < iterator.remaining().len() ==> iterator.remaining()[k]
                        == rows[result@.len() + k],
            decreases iterator.remaining().len(),
        {
            let ghost before = iterator.remaining();
            match iterator.next() {
                Some(line) => {
                    let row = self.parser.parse(line, &self.context);
                    result.push(row);
                    assert forall|k: int| 0 <= k < iterator.remaining().len() implies
                        iterator.remaining()[k] == rows[result@.len() + k] by {
                        assert(iterator.remaining()[k] == before[k + 1]);
                    }
                },
                None => {
                    return Ok(result);
                },
            }
        }
    }
}

} // verus!
