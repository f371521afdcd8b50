//! Splitting string slices at byte positions next to ASCII bytes.

use vstd::prelude::*;
use vstd::string::StringSliceAdditionalSpecFns;
use vstd::utf8::*;

verus! {

/// In well-formed UTF-8 an ASCII byte is a character of its own: one character
/// starts at it and the next one starts right behind it.
pub proof fn lemma_ascii_byte_is_character(bytes: Seq<u8>, at: int)
    requires
        valid_utf8(bytes),
        0 <= at < bytes.len(),
        bytes[at] < 0x80,
    ensures
        is_char_boundary(bytes, at),
        is_char_boundary(bytes, at + 1),
{
    is_char_boundary_iff_not_is_continuation_byte(bytes, at);
    if at + 1 == bytes.len() {
        is_char_boundary_start_end_of_seq(bytes);
    } else {
        valid_utf8_split(bytes, at);
        reveal_with_fuel(valid_utf8, 2);
        let tail = bytes.subrange(at, bytes.len() as int);
        assert(tail[0] == bytes[at]);
        assert(length_of_first_scalar(tail) == 1);
        let after = pop_first_scalar(tail);
        assert(after.len() > 0);
        assert(after[0] == bytes[at + 1]);
        assert(valid_first_scalar(after));
        assert(!is_continuation_byte(after[0]));
        is_char_boundary_iff_not_is_continuation_byte(bytes, at + 1);
    }
}

/// Whether `mid` is a position of `bytes` with an ASCII byte on at least one
/// side, or one of its two ends.
pub open spec fn beside_ascii(bytes: Seq<u8>, mid: int) -> bool {
    &&& 0 <= mid <= bytes.len()
    &&& (mid == 0 || mid == bytes.len() || bytes[mid - 1] < 0x80 || bytes[mid] < 0x80)
}

/// Cuts `s` in two before its byte number `mid`.
pub(crate) fn cut<'a>(s: &'a str, mid: usize) -> (parts: (&'a str, &'a str))
    requires
        beside_ascii(s.spec_bytes(), mid as int),
    ensures
        parts.0.spec_bytes() == s.spec_bytes().subrange(0, mid as int),
        parts.1.spec_bytes() == s.spec_bytes().subrange(mid as int, s.spec_bytes().len() as int),
{
    proof {
        let bytes = s.spec_bytes();
        encode_utf8_valid_utf8(s@);
        if mid == 0 || mid == bytes.len() {
            is_char_boundary_start_end_of_seq(bytes);
        } else if bytes[mid - 1] < 0x80 {
            lemma_ascii_byte_is_character(bytes, mid - 1);
        } else {
            lemma_ascii_byte_is_character(bytes, mid as int);
        }
    }
    s.split_at(mid)
}

} // verus!
