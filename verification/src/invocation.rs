//! Reading a chat message as a command invocation.
//!
//! A command message is the prefix `!`, a word, and optionally a space and the
//! text handed to the command. Digits written right behind the letters of the
//! word are a number for the command: `!recent3 peppy` invokes `recent` with
//! the number 3 and the text `peppy`.

use crate::number::{parse_unsigned, unsigned};
use crate::text::cut;
use vstd::prelude::*;
use vstd::string::StringSliceAdditionalSpecFns;
use vstd::utf8::encode_utf8_decode_utf8;

verus! {

/// The byte that every command message starts with.
pub const PREFIX: u8 = 0x21;

/// The byte that ends the word of a command message.
pub const SPACE: u8 = 0x20;

/// Whether `byte` is an ASCII letter.
pub open spec fn is_alphabetic(byte: u8) -> bool {
    (0x41 <= byte <= 0x5a) || (0x61 <= byte <= 0x7a)
}

/// The length of the first word of `s`: the position of its first space, or
/// its length if it has none.
pub open spec fn word_end(s: Seq<u8>) -> int
    decreases s.len(),
{
    if s.len() == 0 || s[0] == SPACE {
        0
    } else {
        1 + word_end(s.drop_first())
    }
}

/// The length of the shortest prefix of `word` that holds all its letters:
/// the position right behind its last letter, or 0 if it has none.
pub open spec fn letters_end(word: Seq<u8>) -> int
    decreases word.len(),
{
    if word.len() == 0 {
        0
    } else if is_alphabetic(word.last()) {
        word.len() as int
    } else {
        letters_end(word.drop_last())
    }
}

/// The parts of a command message.
pub ghost struct Parsed {
    /// The name of the command.
    pub name: Seq<u8>,
    /// The number written behind the name, if there is one.
    pub num: Option<u32>,
    /// The text behind the first space.
    pub rest: Seq<u8>,
}

/// The number that `word` ends with: what the bytes behind its last letter
/// read as, provided that there are such bytes and that there is a letter.
pub open spec fn suffix_number(word: Seq<u8>) -> Option<u32> {
    let letters = letters_end(word);
    if 0 < letters < word.len() {
        unsigned(word.skip(letters))
    } else {
        None
    }
}

/// What the message `msg` invokes, if it is a command message at all.
pub open spec fn parse(msg: Seq<u8>) -> Option<Parsed> {
    if msg.len() == 0 || msg[0] != PREFIX {
        None
    } else {
        let body = msg.drop_first();
        let end = word_end(body);
        let word = body.take(end);
        let num = suffix_number(word);
        Some(
            Parsed {
                name: if num is Some {
                    word.take(letters_end(word))
                } else {
                    word
                },
                num,
                rest: if end < body.len() {
                    body.skip(end + 1)
                } else {
                    Seq::empty()
                },
            },
        )
    }
}

/// The first word of `s` ends at `end` if no space stands before `end` and
/// one stands at it, or `s` ends there.
pub proof fn lemma_word_end(s: Seq<u8>, end: int)
    requires
        0 <= end <= s.len(),
        forall|i: int| 0 <= i < end ==> s[i] != SPACE,
        end < s.len() ==> s[end] == SPACE,
    ensures
        word_end(s) == end,
    decreases s.len(),
{
    if end > 0 {
        lemma_word_end(s.drop_first(), end - 1);
    }
}

/// The letters of `word` end at `letters` if no letter stands at or behind
/// `letters` and one stands right before it, or `letters` is 0.
pub proof fn lemma_letters_end(word: Seq<u8>, letters: int)
    requires
        0 <= letters <= word.len(),
        forall|i: int| letters <= i < word.len() ==> !is_alphabetic(word[i]),
        letters > 0 ==> is_alphabetic(word[letters - 1]),
    ensures
        letters_end(word) == letters,
    decreases word.len(),
{
    if letters < word.len() {
        lemma_letters_end(word.drop_last(), letters);
    }
}

/// Whether `word` can be called by: it is not empty, holds no space, and
/// ends with a letter.
pub open spec fn is_name(word: Seq<u8>) -> bool {
    &&& word.len() > 0
    &&& forall|i: int| 0 <= i < word.len() ==> word[i] != SPACE
    &&& is_alphabetic(word.last())
}

/// Whether `suffix` can stand between a name and the space: it holds
/// neither a letter nor a space.
pub open spec fn is_suffix(suffix: Seq<u8>) -> bool {
    forall|i: int| 0 <= i < suffix.len() ==> !is_alphabetic(suffix[i]) && suffix[i] != SPACE
}

/// The message that calls `name` with `suffix` written behind it and `rest`
/// behind a space.
pub open spec fn message(name: Seq<u8>, suffix: Seq<u8>, rest: Seq<u8>) -> Seq<u8> {
    seq![PREFIX] + name + suffix + seq![SPACE] + rest
}

/// A message put together from a name, a number or nothing behind it, and a
/// text is read as just these: the name is found again, the suffix is read
/// as the number, and the text behind the first space comes back unchanged.
pub proof fn lemma_parse_message(name: Seq<u8>, suffix: Seq<u8>, rest: Seq<u8>)
    requires
        is_name(name),
        is_suffix(suffix),
        suffix.len() == 0 || unsigned(suffix) is Some,
    ensures
        parse(message(name, suffix, rest)) == Some(Parsed { name, num: unsigned(suffix), rest }),
{
    let msg = message(name, suffix, rest);
    let body = msg.drop_first();
    let word = name + suffix;
    assert(body =~= word + seq![SPACE] + rest);
    lemma_word_end(body, word.len() as int);
    assert(body.take(word.len() as int) =~= word);
    assert(body.skip(word.len() as int + 1) =~= rest);
    lemma_letters_end(word, name.len() as int);
    assert(word.skip(name.len() as int) =~= suffix);
    assert(word.take(name.len() as int) =~= name);
    if suffix.len() == 0 {
        assert(word =~= name);
    }
}

/// What a command gets besides the place to answer to.
#[derive(Clone, Copy, Debug)]
pub struct Args<'a> {
    /// The text behind the first space of the message.
    pub msg: &'a str,
    /// The number written behind the command's name.
    pub num: Option<u32>,
}

/// A message read as a command: the command's name and what it gets.
#[derive(Clone, Copy, Debug)]
pub struct Invocation<'a> {
    /// The name or alias by which the command was called.
    pub name: &'a str,
    /// What is handed to the command.
    pub args: Args<'a>,
}

impl<'a> View for Invocation<'a> {
    type V = Parsed;

    open spec fn view(&self) -> Parsed {
        Parsed {
            name: self.name.spec_bytes(),
            num: self.args.num,
            rest: self.args.msg.spec_bytes(),
        }
    }
}

/// Whether `invocation` is what the message `msg` is read as.
pub open spec fn read_as(msg: &str, invocation: Option<Invocation>) -> bool {
    match invocation {
        Some(found) => parse(msg.spec_bytes()) == Some(found@),
        None => parse(msg.spec_bytes()) is None,
    }
}

/// Reading is a function of the text alone: whatever two messages with the
/// same text are read as, it is the same, down to the characters of the
/// name and of the text that is handed on.
pub proof fn lemma_read_twice(
    first: &str,
    second: &str,
    one: Option<Invocation>,
    other: Option<Invocation>,
)
    requires
        first@ == second@,
        read_as(first, one),
        read_as(second, other),
    ensures
        one is Some <==> other is Some,
        one is Some ==> {
            &&& one->0.name@ == other->0.name@
            &&& one->0.args.num == other->0.args.num
            &&& one->0.args.msg@ == other->0.args.msg@
        },
{
    if one is Some {
        encode_utf8_decode_utf8(one->0.name@);
        encode_utf8_decode_utf8(other->0.name@);
        encode_utf8_decode_utf8(one->0.args.msg@);
        encode_utf8_decode_utf8(other->0.args.msg@);
    }
}

/// Tells whether `byte` is an ASCII letter.
pub fn alphabetic(byte: u8) -> (letter: bool)
    ensures
        letter == is_alphabetic(byte),
{
    (0x41 <= byte && byte <= 0x5a) || (0x61 <= byte && byte <= 0x7a)
}

/// Reads `msg` as a command invocation. A message that does not start with
/// the prefix is none, and every other message is one: nothing is rejected.
/// The result depends on the text of `msg` and on nothing else.
pub fn parse_invocation<'a>(msg: &'a str) -> (invocation: Option<Invocation<'a>>)
    ensures
        invocation is Some <==> msg.spec_bytes().len() > 0 && msg.spec_bytes()[0] == PREFIX,
        read_as(msg, invocation),
{
    let bytes = msg.as_bytes();
    let n: usize = bytes.len();
    if n == 0 || bytes[0] != PREFIX {
        return None;
    }
    let ghost body = bytes@.drop_first();
    let mut end: usize = 1;
    while end < n && bytes[end] != SPACE
        invariant
            1 <= end <= n,
            n == bytes@.len(),
            forall|i: int| 1 <= i < end ==> bytes@[i] != SPACE,
        decreases n - end,
    {
        end += 1;
    }
    proof {
        lemma_word_end(body, end - 1);
    }
    let ghost word = body.take(end - 1);
    let mut letters: usize = end;
    while letters > 1 && !alphabetic(bytes[letters - 1])
        invariant
            1 <= letters <= end <= n,
            n == bytes@.len(),
            forall|i: int| letters <= i < end ==> !is_alphabetic(bytes@[i]),
        decreases letters,
    {
        letters -= 1;
    }
    proof {
        lemma_letters_end(word, letters - 1);
    }
    let (head, tail) = cut(msg, end);
    let (_, whole) = cut(head, 1);
    assert(whole.spec_bytes() =~= word);
    let rest = if end < n {
        cut(tail, 1).1
    } else {
        tail
    };
    assert(rest.spec_bytes() =~= if end - 1 < body.len() {
        body.skip(end as int)
    } else {
        Seq::empty()
    });
    if 1 < letters && letters < end {
        let (front, back) = cut(whole, letters - 1);
        assert(back.spec_bytes() =~= word.skip(letters - 1));
        assert(front.spec_bytes() =~= word.take(letters - 1));
        if let Some(num) = parse_unsigned(back.as_bytes()) {
            return Some(Invocation { name: front, args: Args { msg: rest, num: Some(num) } });
        }
    }
    Some(Invocation { name: whole, args: Args { msg: rest, num: None } })
}

} // verus!
