//! White space, and the first word of a text.

use vstd::prelude::*;
use vstd::slice::slice_subrange;
use vstd::string::StringSliceAdditionalSpecFns;
use vstd::utf8::{char_is_scalar, encode_scalar, encode_utf8};

verus! {

/// Whether `c` is white space: what Unicode calls so.
pub open spec fn is_white_space(c: char) -> bool {
    let code = c as u32;
    ||| 0x09 <= code <= 0x0d
    ||| code == 0x20
    ||| code == 0x85
    ||| code == 0xa0
    ||| code == 0x1680
    ||| 0x2000 <= code <= 0x200a
    ||| code == 0x2028
    ||| code == 0x2029
    ||| code == 0x202f
    ||| code == 0x205f
    ||| code == 0x3000
}

/// What is left of `text` without the white space it starts with.
pub open spec fn skip_white(text: Seq<char>) -> Seq<char>
    decreases text.len(),
{
    if text.len() > 0 && is_white_space(text[0]) {
        skip_white(text.drop_first())
    } else {
        text
    }
}

/// What stands in `text` before its first white space: all of it if it has none.
pub open spec fn until_white(text: Seq<char>) -> Seq<char>
    decreases text.len(),
{
    if text.len() == 0 || is_white_space(text[0]) {
        Seq::empty()
    } else {
        seq![text[0]] + until_white(text.drop_first())
    }
}

/// The first word of `text`: what stands between the white space that the
/// text starts with and the next white space. It is empty if the text is
/// white space only.
pub open spec fn first_word(text: Seq<char>) -> Seq<char> {
    until_white(skip_white(text))
}

/// The length in bytes of the white-space character that starts at `at` in
/// the UTF-8 bytes `s`, or 0 if none starts there.
spec fn space_at(s: Seq<u8>, at: int) -> int {
    if !(0 <= at < s.len()) {
        0
    } else if (0x09 <= s[at] <= 0x0d) || s[at] == 0x20 {
        1
    } else if at + 1 < s.len() && s[at] == 0xc2 && (s[at + 1] == 0x85 || s[at + 1] == 0xa0) {
        2
    } else if at + 2 < s.len() && s[at] == 0xe1 && s[at + 1] == 0x9a && s[at + 2] == 0x80 {
        3
    } else if at + 2 < s.len() && s[at] == 0xe2 && s[at + 1] == 0x80 && ((0x80 <= s[at + 2]
        <= 0x8a) || s[at + 2] == 0xa8 || s[at + 2] == 0xa9 || s[at + 2] == 0xaf) {
        3
    } else if at + 2 < s.len() && s[at] == 0xe2 && s[at + 1] == 0x81 && s[at + 2] == 0x9f {
        3
    } else if at + 2 < s.len() && s[at] == 0xe3 && s[at + 1] == 0x80 && s[at + 2] == 0x80 {
        3
    } else {
        0
    }
}

/// The first position at or behind `at` where no white space starts.
spec fn spaces_end(s: Seq<u8>, at: int) -> int
    decreases s.len() - at,
{
    if space_at(s, at) > 0 {
        spaces_end(s, at + space_at(s, at))
    } else {
        at
    }
}

/// The first position at or behind `at` where white space starts, or the
/// length of `s` if there is none.
spec fn word_stop(s: Seq<u8>, at: int) -> int
    decreases s.len() - at,
{
    if 0 <= at < s.len() && space_at(s, at) == 0 {
        word_stop(s, at + 1)
    } else {
        at
    }
}

proof fn lemma_one_byte(v: u32)
    by (bit_vector)
    requires
        v <= 0x7f,
    ensures
        ((v & 0x7F) as u8) as u32 == v,
{
}

proof fn lemma_two_bytes(v: u32)
    by (bit_vector)
    requires
        0x80 <= v <= 0x7ff,
    ensures
        0xc0 <= (0xC0u8 | ((v >> 6) & 0x1F) as u8) <= 0xdf,
        ((0xC0u8 | ((v >> 6) & 0x1F) as u8) == 0xc2 && (0x80u8 | (v & 0x3F) as u8) == 0x85) <==> v
            == 0x85,
        ((0xC0u8 | ((v >> 6) & 0x1F) as u8) == 0xc2 && (0x80u8 | (v & 0x3F) as u8) == 0xa0) <==> v
            == 0xa0,
{
}

proof fn lemma_three_bytes(v: u32)
    by (bit_vector)
    requires
        0x800 <= v <= 0xffff,
    ensures
        0xe0 <= (0xE0u8 | ((v >> 12) & 0x0F) as u8),
        ((0xE0u8 | ((v >> 12) & 0x0F) as u8) == 0xe1 && (0x80u8 | ((v >> 6) & 0x3F) as u8) == 0x9a
            && (0x80u8 | (v & 0x3F) as u8) == 0x80) <==> v == 0x1680,
        ((0xE0u8 | ((v >> 12) & 0x0F) as u8) == 0xe2 && (0x80u8 | ((v >> 6) & 0x3F) as u8) == 0x80
            && 0x80 <= (0x80u8 | (v & 0x3F) as u8) && (0x80u8 | (v & 0x3F) as u8) <= 0x8a) <==> (
        0x2000 <= v && v <= 0x200a),
        ((0xE0u8 | ((v >> 12) & 0x0F) as u8) == 0xe2 && (0x80u8 | ((v >> 6) & 0x3F) as u8) == 0x80
            && (0x80u8 | (v & 0x3F) as u8) == 0xa8) <==> v == 0x2028,
        ((0xE0u8 | ((v >> 12) & 0x0F) as u8) == 0xe2 && (0x80u8 | ((v >> 6) & 0x3F) as u8) == 0x80
            && (0x80u8 | (v & 0x3F) as u8) == 0xa9) <==> v == 0x2029,
        ((0xE0u8 | ((v >> 12) & 0x0F) as u8) == 0xe2 && (0x80u8 | ((v >> 6) & 0x3F) as u8) == 0x80
            && (0x80u8 | (v & 0x3F) as u8) == 0xaf) <==> v == 0x202f,
        ((0xE0u8 | ((v >> 12) & 0x0F) as u8) == 0xe2 && (0x80u8 | ((v >> 6) & 0x3F) as u8) == 0x81
            && (0x80u8 | (v & 0x3F) as u8) == 0x9f) <==> v == 0x205f,
        ((0xE0u8 | ((v >> 12) & 0x0F) as u8) == 0xe3 && (0x80u8 | ((v >> 6) & 0x3F) as u8) == 0x80
            && (0x80u8 | (v & 0x3F) as u8) == 0x80) <==> v == 0x3000,
{
}

proof fn lemma_four_bytes(v: u32)
    by (bit_vector)
    requires
        0x10000 <= v <= 0x10ffff,
    ensures
        0xf0 <= (0xF0u8 | ((v >> 18) & 0x7) as u8),
{
}

/// The bytes that follow the first in the UTF-8 form of a character all
/// lie between 0x80 and 0xBF.
proof fn lemma_following_bytes(v: u32)
    by (bit_vector)
    ensures
        0x80 <= (0x80u8 | (v & 0x3F) as u8) <= 0xbf,
        0x80 <= (0x80u8 | ((v >> 6) & 0x3F) as u8) <= 0xbf,
        0x80 <= (0x80u8 | ((v >> 12) & 0x3F) as u8) <= 0xbf,
{
}

/// Where a character starts, white space starts if and only if the
/// character is white space, and it is as long as the character is in UTF-8.
proof fn lemma_space_at_character(c: char, rest: Seq<u8>)
    ensures
        space_at(encode_scalar(c as u32) + rest, 0) == if is_white_space(c) {
            encode_scalar(c as u32).len() as int
        } else {
            0
        },
{
    let v = c as u32;
    let bytes = encode_scalar(v);
    let s = bytes + rest;
    char_is_scalar(c);
    assert(s[0] == bytes[0]);
    if v <= 0x7f {
        lemma_one_byte(v);
    } else if v <= 0x7ff {
        lemma_two_bytes(v);
        assert(s[1] == bytes[1]);
    } else if v <= 0xffff {
        lemma_three_bytes(v);
        assert(s[1] == bytes[1]);
        assert(s[2] == bytes[2]);
    } else {
        lemma_four_bytes(v);
    }
}

/// White space starts in the second of two joined texts where it starts in
/// that text alone.
proof fn lemma_space_at_shift(a: Seq<u8>, b: Seq<u8>, k: int)
    requires
        0 <= k,
    ensures
        space_at(a + b, a.len() + k) == space_at(b, k),
{
    let s = a + b;
    if k < b.len() {
        assert(s[a.len() + k] == b[k]);
        if k + 1 < b.len() {
            assert(s[a.len() + k + 1] == b[k + 1]);
        }
        if k + 2 < b.len() {
            assert(s[a.len() + k + 2] == b[k + 2]);
        }
    }
}

proof fn lemma_spaces_end_shift(a: Seq<u8>, b: Seq<u8>, k: int)
    requires
        0 <= k,
    ensures
        spaces_end(a + b, a.len() + k) == a.len() + spaces_end(b, k),
    decreases b.len() - k,
{
    lemma_space_at_shift(a, b, k);
    if space_at(b, k) > 0 {
        lemma_spaces_end_shift(a, b, k + space_at(b, k));
    }
}

proof fn lemma_word_stop_shift(a: Seq<u8>, b: Seq<u8>, k: int)
    requires
        0 <= k,
    ensures
        word_stop(a + b, a.len() + k) == a.len() + word_stop(b, k),
    decreases b.len() - k,
{
    lemma_space_at_shift(a, b, k);
    if k < b.len() && space_at(b, k) == 0 {
        lemma_word_stop_shift(a, b, k + 1);
    }
}

/// A character that is no white space is passed over whole on the way to
/// the end of a word.
proof fn lemma_word_stop_character(c: char, rest: Seq<u8>)
    requires
        !is_white_space(c),
    ensures
        word_stop(encode_scalar(c as u32) + rest, 0) == encode_scalar(c as u32).len() + word_stop(
            rest,
            0,
        ),
{
    let v = c as u32;
    let bytes = encode_scalar(v);
    let s = bytes + rest;
    char_is_scalar(c);
    lemma_space_at_character(c, rest);
    lemma_following_bytes(v);
    lemma_word_stop_shift(bytes, rest, 0);
    reveal_with_fuel(word_stop, 5);
    assert forall|j: int| 1 <= j < bytes.len() implies space_at(s, j) == 0 by {
        assert(s[j] == bytes[j]);
    }
}

/// The white space that the bytes of a text start with is the white space
/// that the text starts with.
proof fn lemma_spaces_end_text(text: Seq<char>)
    ensures
        0 <= spaces_end(encode_utf8(text), 0) <= encode_utf8(text).len(),
        encode_utf8(text).skip(spaces_end(encode_utf8(text), 0)) == encode_utf8(skip_white(text)),
    decreases text.len(),
{
    let s = encode_utf8(text);
    if text.len() == 0 {
        assert(s.skip(0) =~= s);
    } else {
        let first = encode_scalar(text[0] as u32);
        let rest = encode_utf8(text.drop_first());
        lemma_space_at_character(text[0], rest);
        if is_white_space(text[0]) {
            lemma_spaces_end_text(text.drop_first());
            lemma_spaces_end_shift(first, rest, 0);
            assert(s.skip(first.len() + spaces_end(rest, 0)) =~= rest.skip(spaces_end(rest, 0)));
        } else {
            assert(s.skip(0) =~= s);
        }
    }
}

/// The bytes of a text up to its first white space are the bytes of what
/// stands in the text before its first white space.
proof fn lemma_word_stop_text(text: Seq<char>)
    ensures
        0 <= word_stop(encode_utf8(text), 0) <= encode_utf8(text).len(),
        encode_utf8(text).take(word_stop(encode_utf8(text), 0)) == encode_utf8(until_white(text)),
    decreases text.len(),
{
    let s = encode_utf8(text);
    if text.len() == 0 {
        assert(s.take(0) =~= encode_utf8(until_white(text)));
    } else {
        let first = encode_scalar(text[0] as u32);
        let rest = encode_utf8(text.drop_first());
        lemma_space_at_character(text[0], rest);
        if is_white_space(text[0]) {
            assert(s.take(0) =~= encode_utf8(until_white(text)));
        } else {
            lemma_word_stop_text(text.drop_first());
            lemma_word_stop_character(text[0], rest);
            let word = until_white(text);
            let tail = until_white(text.drop_first());
            assert(word.drop_first() =~= tail);
            assert(word[0] == text[0]);
            assert(s.take(first.len() + word_stop(rest, 0)) =~= first + rest.take(
                word_stop(rest, 0),
            ));
        }
    }
}

/// Scanning the bytes of a text for its first word finds the bytes of the
/// first word of the text.
proof fn lemma_first_word(text: Seq<char>)
    ensures
        ({
            let s = encode_utf8(text);
            let start = spaces_end(s, 0);
            &&& 0 <= start <= word_stop(s, start) <= s.len()
            &&& s.subrange(start, word_stop(s, start)) == encode_utf8(first_word(text))
        }),
{
    let s = encode_utf8(text);
    let start = spaces_end(s, 0);
    lemma_spaces_end_text(text);
    let tail = s.skip(start);
    lemma_word_stop_text(skip_white(text));
    lemma_word_stop_shift(s.take(start), tail, 0);
    assert(s.take(start) + tail =~= s);
    assert(s.subrange(start, start + word_stop(tail, 0)) =~= tail.take(word_stop(tail, 0)));
}

/// Finds the length of the white-space character at `at`.
fn space_len(bytes: &[u8], at: usize) -> (len: usize)
    requires
        at < bytes@.len(),
    ensures
        len == space_at(bytes@, at as int),
        at + len <= bytes@.len(),
{
    let n: usize = bytes.len();
    let first: u8 = bytes[at];
    if (0x09 <= first && first <= 0x0d) || first == 0x20 {
        return 1;
    }
    if first == 0xc2 && n - at > 1 {
        let second: u8 = bytes[at + 1];
        if second == 0x85 || second == 0xa0 {
            return 2;
        }
    }
    if n - at > 2 {
        let second: u8 = bytes[at + 1];
        let third: u8 = bytes[at + 2];
        if first == 0xe1 && second == 0x9a && third == 0x80 {
            return 3;
        }
        if first == 0xe2 && second == 0x80 && ((0x80 <= third && third <= 0x8a) || third == 0xa8
            || third == 0xa9 || third == 0xaf) {
            return 3;
        }
        if first == 0xe2 && second == 0x81 && third == 0x9f {
            return 3;
        }
        if first == 0xe3 && second == 0x80 && third == 0x80 {
            return 3;
        }
    }
    0
}

/// Finds the first word of `text`, and hands out its bytes.
pub fn first_word_bytes<'a>(text: &'a str) -> (word: &'a [u8])
    ensures
        word@ == encode_utf8(first_word(text@)),
{
    let bytes = text.as_bytes();
    let n: usize = bytes.len();
    let mut start: usize = 0;
    while start < n && space_len(bytes, start) > 0
        invariant
            0 <= start <= n,
            n == bytes@.len(),
            spaces_end(bytes@, 0) == spaces_end(bytes@, start as int),
        decreases n - start,
    {
        start += space_len(bytes, start);
    }
    let mut stop: usize = start;
    while stop < n && space_len(bytes, stop) == 0
        invariant
            start <= stop <= n,
            n == bytes@.len(),
            word_stop(bytes@, start as int) == word_stop(bytes@, stop as int),
        decreases n - stop,
    {
        stop += 1;
    }
    proof {
        lemma_first_word(text@);
    }
    slice_subrange(bytes, start, stop)
}

} // verus!
