//! A source text with its bytes, and the text between two byte offsets.
use vstd::prelude::*;
use vstd::utf8::{
    decode_utf8, encode_utf8, encode_utf8_decode_utf8, encode_utf8_valid_utf8, is_char_boundary,
    is_char_boundary_iff_not_is_continuation_byte, is_char_boundary_start_end_of_seq,
    is_continuation_byte,
};

verus! {

/// Position `p` of `b` does not cut a character in two: it is the end of `b`, or the byte
/// there does not continue a character.
pub open spec fn on_boundary(b: Seq<u8>, p: int) -> bool {
    p == b.len() || (0 <= p < b.len() && !is_continuation_byte(b[p]))
}

/// The text that the bytes from `start` to `end` encode, if the two positions delimit a
/// part of `b` and cut no character in two.
pub open spec fn text_at(b: Seq<u8>, start: int, end: int) -> Option<Seq<char>> {
    if 0 <= start <= end <= b.len() && on_boundary(b, start) && on_boundary(b, end) {
        Some(decode_utf8(b.subrange(start, end)))
    } else {
        None
    }
}

/// The bytes of `text`.
pub open spec fn bytes_of(text: Seq<char>) -> Seq<u8> {
    encode_utf8(text)
}

/// The view of an optional string.
pub open spec fn option_text(s: Option<String>) -> Option<Seq<char>> {
    match s {
        Some(t) => Some(t@),
        None => None,
    }
}

/// Whether position `p` of `b` cuts no character in two.
pub fn is_boundary(b: &[u8], p: usize) -> (r: bool)
    ensures
        r == on_boundary(b@, p as int),
{
    p == b.len() || (p < b.len() && !(0x80 <= b[p] && b[p] <= 0xbf))
}

/// A position that cuts no character of a text is a character boundary of its bytes.
pub proof fn lemma_boundary(text: Seq<char>, p: int)
    requires
        0 <= p <= bytes_of(text).len(),
        on_boundary(bytes_of(text), p),
    ensures
        is_char_boundary(bytes_of(text), p),
{
    let b = bytes_of(text);
    encode_utf8_valid_utf8(text);
    if p == b.len() {
        is_char_boundary_start_end_of_seq(b);
    } else {
        is_char_boundary_iff_not_is_continuation_byte(b, p);
    }
}

/// The text of `source` from byte `start` to byte `end`.
pub fn slice_text(source: &str, start: usize, end: usize) -> (text: Option<String>)
    ensures
        option_text(text) == text_at(bytes_of(source@), start as int, end as int),
{
    let bytes = source.as_bytes();
    if !(start <= end && end <= bytes.len() && is_boundary(bytes, start) && is_boundary(
        bytes,
        end,
    )) {
        return None;
    }
    proof {
        lemma_boundary(source@, end as int);
    }
    let (head, _) = source.split_at(end);
    proof {
        assert(bytes_of(head@) =~= bytes_of(source@).subrange(0, end as int));
        lemma_boundary(head@, start as int);
    }
    let (_, part) = head.split_at(start);
    proof {
        assert(bytes_of(part@) =~= bytes_of(source@).subrange(start as int, end as int));
        encode_utf8_decode_utf8(part@);
    }
    Some(part.to_owned())
}

} // verus!
