//! Field segmentation: a row is cut at each delimiter byte.

use vstd::prelude::*;

use crate::parser::ParseContext;
use crate::span::find_from;

verus! {

/// The fields of a row: the spans between its delimiter bytes, in order. A
/// row with `n` delimiters has `n + 1` fields, some of them perhaps empty;
/// the last one is what follows the last delimiter.
pub open spec fn fields_of(row: Seq<u8>, delimiter: u8) -> Seq<Seq<u8>>
    decreases row.len(),
{
    let i = crate::span::first_index(row, delimiter);
    if 0 <= i < row.len() {
        seq![row.subrange(0, i)] + fields_of(row.subrange(i + 1, row.len() as int), delimiter)
    } else {
        seq![row]
    }
}

/// A row has one field more than it has delimiter bytes.
pub proof fn lemma_fields_count(row: Seq<u8>, delimiter: u8)
    ensures
        fields_of(row, delimiter).len() == crate::span::count(row, delimiter) + 1,
    decreases row.len(),
{
    crate::span::lemma_first_index(row, delimiter);
    let i = crate::span::first_index(row, delimiter);
    if i < row.len() {
        lemma_fields_count(row.subrange(i + 1, row.len() as int), delimiter);
        crate::span::lemma_count_split(row, delimiter);
    } else {
        crate::span::lemma_count_free(row, delimiter);
    }
}

/// No field holds the delimiter.
pub proof fn lemma_fields_hold_no_delimiter(row: Seq<u8>, delimiter: u8)
    ensures
        forall|k: int|
            0 <= k < fields_of(row, delimiter).len() ==> crate::span::free_of(
                #[trigger] fields_of(row, delimiter)[k],
                delimiter,
            ),
    decreases row.len(),
{
    crate::span::lemma_first_index(row, delimiter);
    let i = crate::span::first_index(row, delimiter);
    if i < row.len() {
        let rest = row.subrange(i + 1, row.len() as int);
        lemma_fields_hold_no_delimiter(rest, delimiter);
        assert forall|k: int| 0 <= k < fields_of(row, delimiter).len() implies crate::span::free_of(
            #[trigger] fields_of(row, delimiter)[k],
            delimiter,
        ) by {
            if k > 0 {
                assert(fields_of(row, delimiter)[k] == fields_of(rest, delimiter)[k - 1]);
            }
        }
    }
}

/// A field and a delimiter in front of a row put that field in front of
/// the row's fields.
pub proof fn lemma_fields_of_prefixed(field: Seq<u8>, rest: Seq<u8>, delimiter: u8)
    requires
        crate::span::free_of(field, delimiter),
    ensures
        fields_of(field + seq![delimiter] + rest, delimiter) == seq![field] + fields_of(
            rest,
            delimiter,
        ),
{
    let row = field + seq![delimiter] + rest;
    crate::span::lemma_first_index_is(row, delimiter, field.len() as int);
    assert(row.subrange(0, field.len() as int) =~= field);
    assert(row.subrange(field.len() as int + 1, row.len() as int) =~= rest);
}

/// Walks over the fields of a row, front to back. Each field is a span of
/// the row itself.
pub struct RowSpanIterator<'a> {
    context: &'a ParseContext,
    row: &'a [u8],
    offset: usize,
    done: bool,
}

impl<'a> RowSpanIterator<'a> {
    /// The row that is walked over.
    pub closed spec fn row(&self) -> Seq<u8> {
        self.row@
    }

    /// The byte that separates the fields.
    pub closed spec fn delimiter(&self) -> u8 {
        self.context.delimiter
    }

    /// The scan offset: where the next field starts, if one is left.
    pub closed spec fn offset(&self) -> int {
        self.offset as int
    }

    /// Whether the last field has been handed out.
    pub closed spec fn done(&self) -> bool {
        self.done
    }

    /// The scan offset lies within the row.
    pub open spec fn wf(&self) -> bool {
        0 <= self.offset() <= self.row().len()
    }

    /// The fields that are still to come.
    pub open spec fn remaining(&self) -> Seq<Seq<u8>> {
        if self.done() {
            Seq::empty()
        } else {
            fields_of(self.row().subrange(self.offset(), self.row().len() as int), self.delimiter())
        }
    }

    /// Starts at the front of `row`, with the delimiter of `context`.
    pub fn new(context: &'a ParseContext, row: &'a [u8]) -> (r: Self)
        ensures
            r.wf(),
            r.row() == row@,
            r.delimiter() == context.delimiter,
            r.offset() == 0,
            !r.done(),
            r.remaining() == fields_of(row@, context.delimiter),
    {
        assert(row@.subrange(0, row@.len() as int) =~= row@);
        Self { context, row, offset: 0, done: false }
    }

    /// Hands out the next field and moves behind its delimiter. The span
    /// behind the last delimiter is the last field, empty or not; after it
    /// comes `None`. The field is the span of the row that starts at the
    /// scan offset, and the scan offset only ever moves forward.
    pub fn next(&mut self) -> (r: Option<&'a [u8]>)
        requires
            old(self).wf(),
        ensures
            final(self).wf(),
            final(self).row() == old(self).row(),
            final(self).delimiter() == old(self).delimiter(),
            r matches Some(field) ==> old(self).remaining().len() > 0 && field@ == old(
                self,
            ).remaining()[0] && final(self).remaining() == old(self).remaining().drop_first(),
            r matches Some(field) ==> field@ == old(self).row().subrange(
                old(self).offset(),
                old(self).offset() + field@.len(),
            ) && final(self).offset() >= old(self).offset() + field@.len(),
            r is None ==> old(self).remaining().len() == 0 && *final(self) == *old(self),
    {
        if self.done {
            return None;
        }
        let row = self.row;
        let start = self.offset;
        let len = row.len();
        proof {
            crate::span::lemma_first_index(
                row@.subrange(start as int, len as int),
                self.context.delimiter,
            );
        }
        match find_from(row, start, self.context.delimiter) {
            Some(end) => {
                let field = &row[start..end];
                assert(end < len);
                self.offset = end + 1;
                proof {
                    let rest = row@.subrange(start as int, len as int);
                    let i = end - start;
                    assert(field@ =~= rest.subrange(0, i));
                    assert(row@.subrange(end + 1, len as int) =~= rest.subrange(
                        i + 1,
                        rest.len() as int,
                    ));
                    assert(old(self).remaining().drop_first() =~= self.remaining());
                }
                Some(field)
            },
            None => {
                let field = &row[start..len];
                self.offset = len;
                self.done = true;
                proof {
                    assert(old(self).remaining().drop_first() =~= self.remaining());
                }
                Some(field)
            },
        }
    }

    /// Gathers the fields that are left.
    pub fn collect(self) -> (fields: Vec<&'a [u8]>)
        requires
            self.wf(),
        ensures
            fields@.len() == self.remaining().len(),
            forall|k: int|
                0 <= k < fields@.len() ==> (#[trigger] fields@[k])@ == self.remaining()[k],
    {
        let mut iterator = self;
        let mut fields: Vec<&'a [u8]> = Vec::new();
        loop
            invariant
                iterator.wf(),
                fields@.len() + iterator.remaining().len() == self.remaining().len(),
                forall|k: int|
                    0 <= k < fields@.len() ==> (#[trigger] fields@[k])@ == self.remaining()[k],
                forall|k: int|
                    0 <= k < iterator.remaining().len() ==> iterator.remaining()[k]
                        == self.remaining()[fields@.len() + k],
            decreases iterator.remaining().len(),
        {
            let ghost before = iterator.remaining();
            match iterator.next() {
                Some(field) => {
                    fields.push(field);
                    assert forall|k: int| 0 <= k < iterator.remaining().len() implies
                        iterator.remaining()[k] == self.remaining()[fields@.len() + k] by {
                        assert(iterator.remaining()[k] == before[k + 1]);
                    }
                },
                None => {
                    return fields;
                },
            }
        }
    }
}

} // verus!
