//! Text decoding and whitespace: trimming a field does not change whether
//! its bytes are valid UTF-8.

use vstd::prelude::*;

verus! {

/// An ASCII byte at the front of a span is a character of its own: the
/// span is valid UTF-8 exactly where the rest is.
pub proof fn lemma_ascii_at_front(s: Seq<u8>)
    requires
        s.len() > 0,
        s[0] <= 0x7f,
    ensures
        vstd::utf8::valid_utf8(s) <==> vstd::utf8::valid_utf8(s.drop_first()),
{
    let b = s[0];
    assert((b & 0x7F) as u32 <= 0x7f) by (bit_vector);
    assert(vstd::utf8::valid_first_scalar(s));
    assert(vstd::utf8::pop_first_scalar(s) =~= s.drop_first());
}

/// An ASCII byte at the end of a span is a character of its own: the span
/// is valid UTF-8 exactly where what stands before the byte is.
pub proof fn lemma_ascii_at_end(s: Seq<u8>)
    requires
        s.len() > 0,
        s.last() <= 0x7f,
    ensures
        vstd::utf8::valid_utf8(s) <==> vstd::utf8::valid_utf8(s.drop_last()),
{
    let head = s.drop_last();
    let tail = seq![s.last()];
    assert(head + tail =~= s);
    if vstd::utf8::valid_utf8(head) {
        lemma_ascii_at_front(tail);
        assert(tail.drop_first() =~= Seq::<u8>::empty());
        assert(vstd::utf8::valid_utf8(tail));
        vstd::utf8::valid_utf8_concat(head, tail);
    }
    if vstd::utf8::valid_utf8(s) {
        let index = s.len() - 1;
        vstd::utf8::is_char_boundary_iff_not_is_continuation_byte(s, index);
        vstd::utf8::valid_utf8_split(s, index);
        assert(s.subrange(0, index) =~= head);
    }
}

/// A span without its leading whitespace is valid UTF-8 exactly where the
/// span is.
pub proof fn lemma_trim_start_keeps_validity(s: Seq<u8>)
    ensures
        vstd::utf8::valid_utf8(crate::span::trim_start(s)) <==> vstd::utf8::valid_utf8(s),
    decreases s.len(),
{
    if s.len() > 0 && crate::span::is_whitespace(s[0]) {
        lemma_ascii_at_front(s);
        lemma_trim_start_keeps_validity(s.drop_first());
    }
}

/// A span without its trailing whitespace is valid UTF-8 exactly where the
/// span is.
pub proof fn lemma_trim_end_keeps_validity(s: Seq<u8>)
    ensures
        vstd::utf8::valid_utf8(crate::span::trim_end(s)) <==> vstd::utf8::valid_utf8(s),
    decreases s.len(),
{
    if s.len() > 0 && crate::span::is_whitespace(s.last()) {
        lemma_ascii_at_end(s);
        lemma_trim_end_keeps_validity(s.drop_last());
    }
}

/// A field is decoded as text exactly where its bytes, whitespace
/// included, are valid UTF-8.
pub proof fn lemma_text_accepts_valid_utf8(span: Seq<u8>)
    ensures
        vstd::utf8::valid_utf8(crate::span::trimmed(span)) <==> vstd::utf8::valid_utf8(span),
{
    lemma_trim_start_keeps_validity(span);
    lemma_trim_end_keeps_validity(crate::span::trim_start(span));
}

} // verus!
