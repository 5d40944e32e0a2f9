//! Row segmentation: a buffer is cut at each newline byte.

use vstd::prelude::*;

use crate::span::find_from;
use crate::NEWLINE;

verus! {

/// The rows of a buffer: the spans that end at a newline byte, in order,
/// each without its newline. Bytes behind the last newline belong to no row.
pub open spec fn rows_of(data: Seq<u8>) -> Seq<Seq<u8>>
    decreases data.len(),
{
    let i = crate::span::first_index(data, NEWLINE);
    if 0 <= i < data.len() {
        seq![data.subrange(0, i)] + rows_of(data.subrange(i + 1, data.len() as int))
    } else {
        Seq::empty()
    }
}

/// No row holds a newline byte.
pub proof fn lemma_rows_hold_no_newline(data: Seq<u8>)
    ensures
        forall|k: int|
            0 <= k < rows_of(data).len() ==> crate::span::free_of(
                #[trigger] rows_of(data)[k],
                NEWLINE,
            ),
    decreases data.len(),
{
    crate::span::lemma_first_index(data, NEWLINE);
    let i = crate::span::first_index(data, NEWLINE);
    if i < data.len() {
        let rest = data.subrange(i + 1, data.len() as int);
        lemma_rows_hold_no_newline(rest);
        assert forall|k: int| 0 <= k < rows_of(data).len() implies crate::span::free_of(
            #[trigger] rows_of(data)[k],
            NEWLINE,
        ) by {
            if k > 0 {
                assert(rows_of(data)[k] == rows_of(rest)[k - 1]);
            }
        }
    }
}

/// A buffer has as many rows as newline bytes.
pub proof fn lemma_rows_count(data: Seq<u8>)
    ensures
        rows_of(data).len() == crate::span::count(data, NEWLINE),
    decreases data.len(),
{
    crate::span::lemma_first_index(data, NEWLINE);
    let i = crate::span::first_index(data, NEWLINE);
    if i < data.len() {
        lemma_rows_count(data.subrange(i + 1, data.len() as int));
        crate::span::lemma_count_split(data, NEWLINE);
    } else {
        crate::span::lemma_count_free(data, NEWLINE);
    }
}

/// A line and its newline in front of a buffer put that line, without the
/// newline, in front of the buffer's rows.
pub proof fn lemma_rows_of_line(line: Seq<u8>, rest: Seq<u8>)
    requires
        crate::span::free_of(line, NEWLINE),
    ensures
        rows_of(line + seq![NEWLINE] + rest) == seq![line] + rows_of(rest),
{
    let data = line + seq![NEWLINE] + rest;
    crate::span::lemma_first_index_is(data, NEWLINE, line.len() as int);
    assert(data.subrange(0, line.len() as int) =~= line);
    assert(data.subrange(line.len() as int + 1, data.len() as int) =~= rest);
}

/// Bytes without a newline at the end of a buffer are an unfinished line:
/// they add no row and change none.
pub proof fn lemma_rows_drop_unfinished_line(data: Seq<u8>, tail: Seq<u8>)
    requires
        crate::span::free_of(tail, NEWLINE),
    ensures
        rows_of(data + tail) == rows_of(data),
    decreases data.len(),
{
    crate::span::lemma_first_index(data, NEWLINE);
    let whole = data + tail;
    let i = crate::span::first_index(data, NEWLINE);
    if i < data.len() {
        crate::span::lemma_first_index_is(whole, NEWLINE, i);
        let rest = data.subrange(i + 1, data.len() as int);
        lemma_rows_drop_unfinished_line(rest, tail);
        assert(whole.subrange(0, i) =~= data.subrange(0, i));
        assert(whole.subrange(i + 1, whole.len() as int) =~= rest + tail);
    } else {
        crate::span::lemma_first_index_is(whole, NEWLINE, whole.len() as int);
    }
}

/// Walks over the rows of a buffer, front to back. Each row is a span of
/// the buffer itself.
pub struct RowIterator<'a> {
    data: &'a [u8],
    offset: usize,
}

impl<'a> RowIterator<'a> {
    /// The buffer that is walked over.
    pub closed spec fn buffer(&self) -> Seq<u8> {
        self.data@
    }

    /// The scan offset: where the next row starts.
    pub closed spec fn offset(&self) -> int {
        self.offset as int
    }

    /// The scan offset lies within the buffer.
    pub open spec fn wf(&self) -> bool {
        0 <= self.offset() <= self.buffer().len()
    }

    /// The bytes that have not been scanned yet.
    pub open spec fn rest(&self) -> Seq<u8> {
        self.buffer().subrange(self.offset(), self.buffer().len() as int)
    }

    /// The rows that are still to come.
    pub open spec fn remaining(&self) -> Seq<Seq<u8>> {
        rows_of(self.rest())
    }

    /// Starts at the front of `data`.
    pub fn new(data: &'a [u8]) -> (r: Self)
        ensures
            r.wf(),
            r.buffer() == data@,
            r.offset() == 0,
            r.rest() == data@,
    {
        assert(data@.subrange(0, data@.len() as int) =~= data@);
        Self { data, offset: 0 }
    }

    /// Hands out the next row, without its newline, and moves behind that
    /// newline; `None` once no newline is left. The row is the span of
    /// the buffer that starts at the scan offset, and the scan offset only
    /// ever moves forward.
    pub fn next(&mut self) -> (r: Option<&'a [u8]>)
        requires
            old(self).wf(),
        ensures
            final(self).wf(),
            final(self).buffer() == old(self).buffer(),
            r matches Some(row) ==> old(self).remaining().len() > 0 && row@ == old(
                self,
            ).remaining()[0] && final(self).remaining() == old(self).remaining().drop_first(),
            r matches Some(row) ==> row@ == old(self).buffer().subrange(
                old(self).offset(),
                old(self).offset() + row@.len(),
            ) && final(self).offset() == old(self).offset() + row@.len() + 1,
            r is None ==> old(self).remaining().len() == 0 && *final(self) == *old(self),
    {
        let data = self.data;
        let start = self.offset;
        let len = data.len();
        proof {
            crate::span::lemma_first_index(self.rest(), NEWLINE);
        }
        match find_from(data, start, NEWLINE) {
            Some(end) => {
                let row = &data[start..end];
                assert(end < len);
                self.offset = end + 1;
                proof {
                    let rest = old(self).rest();
                    let i = end - start;
                    assert(row@ =~= rest.subrange(0, i));
                    assert(self.rest() =~= rest.subrange(i + 1, rest.len() as int));
                    assert(old(self).remaining().drop_first() =~= self.remaining());
                }
                Some(row)
            },
            None => None,
        }
    }

    /// Gathers the rows that are left.
    pub fn collect(self) -> (rows: Vec<&'a [u8]>)
        requires
            self.wf(),
        ensures
            rows@.len() == self.remaining().len(),
            forall|k: int| 0 <= k < rows@.len() ==> (#[trigger] rows@[k])@ == self.remaining()[k],
    {
        let mut iterator = self;
        let mut rows: Vec<&'a [u8]> = Vec::new();
        loop
            invariant
                iterator.wf(),
                rows@.len() + iterator.remaining().len() == self.remaining().len(),
                forall|k: int|
                    0 <= k < rows@.len() ==> (#[trigger] rows@[k])@ == self.remaining()[k],
                forall|k: int|
                    0 <= k < iterator.remaining().len() ==> iterator.remaining()[k]
                        == self.remaining()[rows@.len() + k],
            decreases iterator.remaining().len(),
        {
            let ghost before = iterator.remaining();
            match iterator.next() {
                Some(row) => {
                    rows.push(row);
                    assert forall|k: int| 0 <= k < iterator.remaining().len() implies
                        iterator.remaining()[k] == self.remaining()[rows@.len() + k] by {
                        assert(iterator.remaining()[k] == before[k + 1]);
                    }
                },
                None => {
                    return rows;
                },
            }
        }
    }
}

} // verus!
