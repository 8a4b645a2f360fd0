//! Received bytes as text: UTF-8 where the bytes are well formed, an
//! upper-case hexadecimal dump where they are not.

use vstd::prelude::*;
use vstd::string::*;
use vstd::utf8::*;

verus! {

/// The character for one hexadecimal digit, upper case.
pub open spec fn hex_digit(value: int) -> char {
    if value < 10 {
        ('0' as int + value) as char
    } else {
        ('A' as int + value - 10) as char
    }
}

/// The two hexadecimal digits of one byte, high digit first.
pub open spec fn hex_pair(byte: u8) -> Seq<char> {
    seq![hex_digit(byte as int / 16), hex_digit(byte as int % 16)]
}

/// The bytes as hexadecimal pairs, one space between neighbours.
pub open spec fn hex_dump(bytes: Seq<u8>) -> Seq<char>
    decreases bytes.len(),
{
    if bytes.len() == 0 {
        Seq::empty()
    } else if bytes.len() == 1 {
        hex_pair(bytes[0])
    } else {
        hex_dump(bytes.drop_last()) + seq![' '] + hex_pair(bytes.last())
    }
}

/// The text that a received chunk of bytes stands for.
pub open spec fn chunk_text(bytes: Seq<u8>) -> Seq<char> {
    if valid_utf8(bytes) {
        decode_utf8(bytes)
    } else {
        hex_dump(bytes)
    }
}

/// Appends one character by `String::push`: the text afterwards is the text
/// before followed by `c`.
#[verifier::external_body]
pub(crate) fn push_char(s: &mut String, c: char)
    ensures
        final(s)@ == old(s)@.push(c),
{
    s.push(c);
}

/// Reads bytes as text by `std::str::from_utf8`: there is a result exactly
/// when the bytes are well-formed UTF-8, and the result's encoding is then
/// the bytes themselves.
#[verifier::external_body]
pub(crate) fn utf8_text(bytes: &[u8]) -> (text: Option<&str>)
    ensures
        text is Some <==> valid_utf8(bytes@),
        text matches Some(s) ==> s.spec_bytes() == bytes@,
{
    std::str::from_utf8(bytes).ok()
}

/// The characters of `text`, in order.
pub(crate) fn chars_of(text: &str) -> (chars: Vec<char>)
    ensures
        chars@ == text@,
{
    broadcast use group_string_axioms;

    let mut chars: Vec<char> = Vec::new();
    for c in it: text.chars()
        invariant
            it.seq() == text@,
            chars@ == text@.take(it.index()),
    {
        assert(c == text@[it.index()]);
        chars.push(c);
        assert(chars@ == text@.take(it.index() + 1));
    }
    assert(text@.take(text@.len() as int) == text@);
    chars
}

/// Whether two texts hold the same characters.
pub(crate) fn text_eq(left: &str, right: &str) -> (same: bool)
    ensures
        same == (left@ == right@),
{
    let a = chars_of(left);
    let b = chars_of(right);
    if a.len() != b.len() {
        return false;
    }
    let mut i: usize = 0;
    while i < a.len()
        invariant
            a@ == left@,
            b@ == right@,
            a.len() == b.len(),
            i <= a.len(),
            a@.take(i as int) == b@.take(i as int),
        decreases a.len() - i,
    {
        if a[i] != b[i] {
            return false;
        }
        i += 1;
        assert(a@.take(i as int) =~= a@.take(i - 1).push(a[i - 1]));
        assert(b@.take(i as int) =~= b@.take(i - 1).push(b[i - 1]));
    }
    assert(a@ =~= a@.take(a.len() as int));
    assert(b@ =~= b@.take(b.len() as int));
    true
}

fn hex_digit_of(value: u8) -> (c: char)
    requires
        value < 16,
    ensures
        c == hex_digit(value as int),
{
    if value < 10 {
        ('0' as u8 + value) as char
    } else {
        ('A' as u8 + (value - 10)) as char
    }
}

/// The hexadecimal dump of `bytes`.
pub fn hex_text(bytes: &[u8]) -> (text: String)
    ensures
        text@ == hex_dump(bytes@),
{
    let mut text = String::new();
    let mut i: usize = 0;
    while i < bytes.len()
        invariant
            i <= bytes.len(),
            text@ == hex_dump(bytes@.take(i as int)),
        decreases bytes.len() - i,
    {
        let byte = bytes[i];
        proof {
            let before = bytes@.take(i as int);
            let now = bytes@.take(i + 1);
            assert(now.drop_last() == before);
            assert(now.last() == byte);
        }
        if i > 0 {
            push_char(&mut text, ' ');
        }
        push_char(&mut text, hex_digit_of(byte / 16));
        push_char(&mut text, hex_digit_of(byte % 16));
        i += 1;
    }
    proof {
        assert(bytes@.take(bytes@.len() as int) == bytes@);
    }
    text
}

/// Decodes one received chunk: its text where the bytes are UTF-8, their
/// hexadecimal dump otherwise, so that no received byte is lost.
pub fn decode_chunk(bytes: &[u8]) -> (text: String)
    ensures
        text@ == chunk_text(bytes@),
{
    match utf8_text(bytes) {
        Some(s) => {
            proof {
                encode_utf8_decode_utf8(s@);
            }
            s.to_owned()
        },
        None => hex_text(bytes),
    }
}

} // verus!
