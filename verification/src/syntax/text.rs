//! Character-level helpers shared by the lexer and the parser.

use vstd::prelude::*;

verus! {

/// Number of bytes in the UTF-8 encoding of `c`.
pub open spec fn utf8_width(c: char) -> nat {
    vstd::utf8::encode_scalar(c as u32).len()
}

/// `char::len_utf8`.
pub fn char_len_utf8(c: char) -> (n: usize)
    ensures
        n == utf8_width(c),
        1 <= n <= 4,
    no_unwind
{
    proof {
        vstd::utf8::char_is_scalar(c);
    }
    let v = c as u32;
    if v < 0x80 {
        1
    } else if v < 0x800 {
        2
    } else if v < 0x10000 {
        3
    } else {
        4
    }
}

} // verus!

verus! {

/// Whether `c` has the Unicode `Alphabetic` property (what
/// `char::is_alphabetic` computes from the Unicode tables).
pub uninterp spec fn alphabetic(c: char) -> bool;

/// `char::is_alphabetic`. Its result is the name `alphabetic` of `c`. Of
/// the Unicode `Alphabetic` property that its documentation names, only the
/// ASCII part is stated: there the property holds exactly of the letters
/// `A`..`Z` and `a`..`z`. Which other characters have it is left to the
/// Unicode tables of `core`.
#[verifier::external_body]
pub(crate) fn is_alphabetic(c: char) -> (b: bool)
    ensures
        b == alphabetic(c),
        (c as u32) < 128 ==> (b <==> ascii_letter(c)),
{
    c.is_alphabetic()
}

/// An ASCII letter: `A`..`Z` or `a`..`z`.
pub open spec fn ascii_letter(c: char) -> bool {
    65 <= (c as u32) <= 90 || 97 <= (c as u32) <= 122
}

/// A letter: an ASCII letter, or a character beyond ASCII with the Unicode
/// `Alphabetic` property.
pub open spec fn letter(c: char) -> bool {
    if (c as u32) < 128 {
        ascii_letter(c)
    } else {
        alphabetic(c)
    }
}

/// `core::str::from_utf8`, with the error dropped: it succeeds exactly on
/// well-formed UTF-8, and the string it gives back holds the characters that
/// the bytes encode.
#[verifier::external_body]
pub(crate) fn str_from_utf8(bytes: &[u8]) -> (r: Option<&str>)
    ensures
        r is Some <==> vstd::utf8::valid_utf8(bytes@),
        r matches Some(s) ==> s@ == vstd::utf8::decode_utf8(bytes@),
{
    core::str::from_utf8(bytes).ok()
}

/// The first character that `bytes` encodes, where all of `bytes` is
/// well-formed UTF-8 and not empty.
pub open spec fn first_char(bytes: Seq<u8>) -> Option<char> {
    if bytes.len() == 0 || !vstd::utf8::valid_utf8(bytes) {
        None
    } else {
        Some(vstd::utf8::decode_utf8(bytes)[0])
    }
}

/// The first character of well-formed UTF-8 takes at least one and at most
/// all of its bytes.
pub proof fn lemma_first_char_width(bytes: Seq<u8>)
    requires
        first_char(bytes) is Some,
    ensures
        1 <= utf8_width(first_char(bytes)->0) <= bytes.len(),
{
    let c = vstd::utf8::decode_first_scalar(bytes) as char;
    assert(vstd::utf8::decode_utf8(bytes)[0] == c);
    vstd::utf8::decode_utf8_first_scalar(bytes);
    vstd::utf8::char_is_scalar(c);
}

/// Where the first character of well-formed UTF-8 is ASCII, it is the first
/// byte.
pub proof fn lemma_first_char_ascii(bytes: Seq<u8>)
    requires
        first_char(bytes) is Some,
        (first_char(bytes)->0 as u32) < 128,
    ensures
        bytes[0] as u32 == first_char(bytes)->0 as u32,
{
    let c = vstd::utf8::decode_first_scalar(bytes) as char;
    assert(vstd::utf8::decode_utf8(bytes)[0] == c);
    vstd::utf8::decode_utf8_first_scalar(bytes);
    let d = c as u32;
    assert(d < 128 ==> vstd::utf8::has_width_1_encoding(d));
    assert(vstd::utf8::take_first_scalar(bytes)[0] == bytes[0]);
    assert(d < 128 ==> ((d & 0x7F) as u8) as u32 == d) by (bit_vector);
}

/// Where well-formed UTF-8 starts with a character, the bytes of that
/// character are its encoding, and the bytes after it are well-formed too.
pub proof fn lemma_first_char_rest(bytes: Seq<u8>)
    requires
        first_char(bytes) is Some,
    ensures
        utf8_width(first_char(bytes)->0) == vstd::utf8::length_of_first_scalar(bytes),
        bytes.subrange(0, utf8_width(first_char(bytes)->0) as int) == vstd::utf8::encode_scalar(
            first_char(bytes)->0 as u32,
        ),
        vstd::utf8::valid_utf8(bytes.subrange(utf8_width(first_char(bytes)->0) as int, bytes.len() as int)),
{
    let c = vstd::utf8::decode_first_scalar(bytes) as char;
    assert(vstd::utf8::decode_utf8(bytes)[0] == c);
    vstd::utf8::decode_utf8_first_scalar(bytes);
    vstd::utf8::char_is_scalar(c);
}

/// Well-formed UTF-8 that is not empty starts with a character.
pub proof fn lemma_valid_has_first_char(bytes: Seq<u8>)
    requires
        vstd::utf8::valid_utf8(bytes),
        bytes.len() > 0,
    ensures
        first_char(bytes) is Some,
{
}

/// After an ASCII byte at the start of well-formed UTF-8, the rest is
/// well-formed.
pub proof fn lemma_valid_after_ascii(bytes: Seq<u8>)
    requires
        vstd::utf8::valid_utf8(bytes),
        bytes.len() > 0,
        bytes[0] < 128,
    ensures
        vstd::utf8::valid_utf8(bytes.subrange(1, bytes.len() as int)),
{
}

/// ASCII decimal digit.
pub open spec fn is_digit_char(c: char) -> bool {
    48 <= (c as u32) <= 57
}

} // verus!
