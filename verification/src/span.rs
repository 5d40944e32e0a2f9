//! Byte spans: searching for a byte and trimming whitespace.

use vstd::prelude::*;

verus! {

/// The index of the first occurrence of `byte` in `s`, or `s.len()` where
/// `s` does not hold it.
pub open spec fn first_index(s: Seq<u8>, byte: u8) -> int
    decreases s.len(),
{
    if s.len() == 0 || s[0] == byte {
        0
    } else {
        1 + first_index(s.drop_first(), byte)
    }
}

/// How often `byte` occurs in `s`.
pub open spec fn count(s: Seq<u8>, byte: u8) -> nat
    decreases s.len(),
{
    if s.len() == 0 {
        0
    } else if s[0] == byte {
        1 + count(s.drop_first(), byte)
    } else {
        count(s.drop_first(), byte)
    }
}

/// Whether `byte` occurs nowhere in `s`.
pub open spec fn free_of(s: Seq<u8>, byte: u8) -> bool {
    forall|i: int| 0 <= i < s.len() ==> s[i] != byte
}

/// `first_index` lies within `0..=s.len()`, no earlier position holds the
/// byte, and the position itself does unless it is the length.
pub proof fn lemma_first_index(s: Seq<u8>, byte: u8)
    ensures
        0 <= first_index(s, byte) <= s.len(),
        forall|j: int| 0 <= j < first_index(s, byte) ==> s[j] != byte,
        first_index(s, byte) < s.len() ==> s[first_index(s, byte)] == byte,
        first_index(s, byte) == s.len() <==> free_of(s, byte),
    decreases s.len(),
{
    if s.len() == 0 || s[0] == byte {
    } else {
        let rest = s.drop_first();
        lemma_first_index(rest, byte);
        let r = first_index(rest, byte);
        assert forall|j: int| 0 <= j < 1 + r implies s[j] != byte by {
            if j > 0 {
                assert(s[j] == rest[j - 1]);
            }
        }
        if r < rest.len() {
            assert(s[1 + r] == rest[r]);
        }
        if free_of(s, byte) {
            assert forall|j: int| 0 <= j < rest.len() implies rest[j] != byte by {
                assert(rest[j] == s[j + 1]);
            }
        }
    }
}

/// A position that holds the byte, or the length, with no occurrence before
/// it, is `first_index`.
pub proof fn lemma_first_index_is(s: Seq<u8>, byte: u8, i: int)
    requires
        0 <= i <= s.len(),
        forall|j: int| 0 <= j < i ==> s[j] != byte,
        i < s.len() ==> s[i] == byte,
    ensures
        first_index(s, byte) == i,
{
    lemma_first_index(s, byte);
    let f = first_index(s, byte);
    if f < i {
        assert(s[f] != byte);
    } else if i < f {
        assert(s[i] != byte);
    }
}

/// A span without the byte counts none of it.
pub proof fn lemma_count_free(s: Seq<u8>, byte: u8)
    requires
        free_of(s, byte),
    ensures
        count(s, byte) == 0,
    decreases s.len(),
{
    if s.len() > 0 {
        let rest = s.drop_first();
        assert forall|j: int| 0 <= j < rest.len() implies rest[j] != byte by {
            assert(rest[j] == s[j + 1]);
        }
        lemma_count_free(rest, byte);
    }
}

/// Counting splits at the first occurrence: one for the occurrence itself,
/// and the rest behind it.
pub proof fn lemma_count_split(s: Seq<u8>, byte: u8)
    requires
        first_index(s, byte) < s.len(),
    ensures
        count(s, byte) == 1 + count(s.subrange(first_index(s, byte) + 1, s.len() as int), byte),
    decreases s.len(),
{
    lemma_first_index(s, byte);
    let rest = s.drop_first();
    if s[0] == byte {
        assert(s.subrange(1, s.len() as int) =~= rest);
    } else {
        lemma_first_index(rest, byte);
        lemma_count_split(rest, byte);
        let i = first_index(rest, byte);
        assert(rest.subrange(i + 1, rest.len() as int) =~= s.subrange(i + 2, s.len() as int));
    }
}

/// `memchr::memchr` returns the index of the first occurrence of `needle` in
/// `haystack`: the byte at that index is `needle` and no earlier byte is.
/// It returns `None` exactly where `haystack` does not hold `needle`.
pub assume_specification[ memchr::memchr ](needle: u8, haystack: &[u8]) -> (r: Option<usize>)
    ensures
        r matches Some(i) ==> i < haystack@.len() && haystack@[i as int] == needle && forall|
            j: int,
        | 0 <= j < i ==> haystack@[j] != needle,
        r is None ==> forall|j: int| 0 <= j < haystack@.len() ==> haystack@[j] != needle,
;

/// Searches `span` from `start` on for `byte`: the position of its first
/// occurrence at or after `start`, or `None` where the rest holds none.
pub fn find_from(span: &[u8], start: usize, byte: u8) -> (r: Option<usize>)
    requires
        start <= span@.len(),
    ensures
        r matches Some(i) ==> i == start + first_index(
            span@.subrange(start as int, span@.len() as int),
            byte,
        ) && i < span@.len(),
        r is None <==> free_of(span@.subrange(start as int, span@.len() as int), byte),
{
    let rest = &span[start..span.len()];
    proof {
        lemma_first_index(rest@, byte);
    }
    match memchr::memchr(byte, rest) {
        Some(index) => {
            proof {
                lemma_first_index_is(rest@, byte, index as int);
            }
            Some(start + index)
        },
        None => None,
    }
}

/// Whether `byte` is ASCII whitespace: the space, or one of the control
/// characters from the horizontal tab to the carriage return.
pub open spec fn is_whitespace(byte: u8) -> bool {
    byte == 0x20 || (0x09 <= byte && byte <= 0x0D)
}

/// `s` without its leading whitespace.
pub open spec fn trim_start(s: Seq<u8>) -> Seq<u8>
    decreases s.len(),
{
    if s.len() > 0 && is_whitespace(s[0]) {
        trim_start(s.drop_first())
    } else {
        s
    }
}

/// `s` without its trailing whitespace.
pub open spec fn trim_end(s: Seq<u8>) -> Seq<u8>
    decreases s.len(),
{
    if s.len() > 0 && is_whitespace(s.last()) {
        trim_end(s.drop_last())
    } else {
        s
    }
}

/// `s` without its leading and trailing whitespace.
pub open spec fn trimmed(s: Seq<u8>) -> Seq<u8> {
    trim_end(trim_start(s))
}

/// What `trim_start` removes is whitespace at the front, all of it: the
/// result is the rest of the span, and does not start with whitespace.
pub proof fn lemma_trim_start(s: Seq<u8>)
    ensures
        trim_start(s).len() <= s.len(),
        trim_start(s) == s.subrange(s.len() - trim_start(s).len(), s.len() as int),
        forall|j: int| 0 <= j < s.len() - trim_start(s).len() ==> is_whitespace(s[j]),
        trim_start(s).len() > 0 ==> !is_whitespace(trim_start(s)[0]),
    decreases s.len(),
{
    if s.len() > 0 && is_whitespace(s[0]) {
        let rest = s.drop_first();
        lemma_trim_start(rest);
        let k = rest.len() - trim_start(rest).len();
        assert(rest.subrange(k, rest.len() as int) =~= s.subrange(k + 1, s.len() as int));
        assert forall|j: int| 0 <= j < s.len() - trim_start(s).len() implies is_whitespace(
            s[j],
        ) by {
            if j > 0 {
                assert(s[j] == rest[j - 1]);
            }
        }
    } else {
        assert(s.subrange(0, s.len() as int) =~= s);
    }
}

/// What `trim_end` removes is whitespace at the end, all of it: the result
/// is the front of the span, and does not end with whitespace.
pub proof fn lemma_trim_end(s: Seq<u8>)
    ensures
        trim_end(s).len() <= s.len(),
        trim_end(s) == s.subrange(0, trim_end(s).len() as int),
        forall|j: int| trim_end(s).len() <= j < s.len() ==> is_whitespace(s[j]),
        trim_end(s).len() > 0 ==> !is_whitespace(trim_end(s).last()),
    decreases s.len(),
{
    if s.len() > 0 && is_whitespace(s.last()) {
        let front = s.drop_last();
        lemma_trim_end(front);
        let m = trim_end(front).len() as int;
        assert(front.subrange(0, m) =~= s.subrange(0, m));
        assert forall|j: int| trim_end(s).len() <= j < s.len() implies is_whitespace(s[j]) by {
            if j < s.len() - 1 {
                assert(s[j] == front[j]);
            }
        }
    } else {
        assert(s.subrange(0, s.len() as int) =~= s);
    }
}

/// A trimmed span is a span of the span it was trimmed from; it neither
/// starts nor ends with whitespace, and trimming it again changes nothing.
pub proof fn lemma_trimmed(s: Seq<u8>)
    ensures
        exists|from: int, to: int|
            0 <= from <= to <= s.len() && trimmed(s) == #[trigger] s.subrange(from, to) && (forall|
                j: int,
            |
                (0 <= j < from || to <= j < s.len()) ==> is_whitespace(s[j])),
        trimmed(s).len() > 0 ==> !is_whitespace(trimmed(s)[0]) && !is_whitespace(trimmed(s).last()),
        trimmed(trimmed(s)) == trimmed(s),
{
    let front = trim_start(s);
    lemma_trim_start(s);
    lemma_trim_end(front);
    let from = s.len() - front.len();
    let to = from + trim_end(front).len();
    assert(trimmed(s) =~= s.subrange(from, to));
    assert forall|j: int| (0 <= j < from || to <= j < s.len()) implies is_whitespace(s[j]) by {
        if to <= j {
            assert(s[j] == front[j - from]);
        }
    }
    let t = trimmed(s);
    if t.len() > 0 {
        assert(t[0] == front[0]);
    }
}

/// Tests a byte for ASCII whitespace.
pub fn is_whitespace_byte(byte: u8) -> (r: bool)
    ensures
        r == is_whitespace(byte),
{
    byte == 0x20 || (0x09 <= byte && byte <= 0x0D)
}

/// Removes leading and trailing ASCII whitespace. The result borrows from
/// `span`; no byte is copied.
pub fn trim(span: &[u8]) -> (r: &[u8])
    ensures
        r@ == trimmed(span@),
{
    let len = span.len();
    let mut start: usize = 0;
    assert(span@.subrange(0, len as int) =~= span@);
    while start < len && is_whitespace_byte(span[start])
        invariant
            len == span@.len(),
            start <= len,
            trim_start(span@) == trim_start(span@.subrange(start as int, len as int)),
        decreases len - start,
    {
        proof {
            let here = span@.subrange(start as int, len as int);
            assert(here.drop_first() =~= span@.subrange(start + 1, len as int));
        }
        start += 1;
    }
    let mut end: usize = len;
    while end > start && is_whitespace_byte(span[end - 1])
        invariant
            len == span@.len(),
            start <= end <= len,
            trim_end(span@.subrange(start as int, len as int)) == trim_end(
                span@.subrange(start as int, end as int),
            ),
        decreases end - start,
    {
        proof {
            let here = span@.subrange(start as int, end as int);
            assert(here.drop_last() =~= span@.subrange(start as int, end - 1));
        }
        end -= 1;
    }
    assert(trim_end(span@.subrange(start as int, end as int)) == span@.subrange(
        start as int,
        end as int,
    ));
    &span[start..end]
}

} // verus!
