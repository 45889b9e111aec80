//! Calls into std's Unicode and UTF-8 support, with what the std
//! documentation and source promise of them.
use vstd::prelude::*;
use vstd::utf8::{decode_utf8, valid_utf8};
use crate::text::{all_ascii, ascii_lower};

verus! {

/// The Unicode `Alphabetic` property of a non-ASCII character, as std's
/// tables give it.
pub uninterp spec fn unicode_alphabetic(c: char) -> bool;

/// The Unicode `Numeric` (general categories Nd, Nl, No) test of a
/// non-ASCII character, as std's tables give it.
pub uninterp spec fn unicode_numeric(c: char) -> bool;

/// What `str::to_lowercase` returns for the text.
pub uninterp spec fn unicode_lowercase(s: Seq<char>) -> Seq<char>;

/// What `char::to_uppercase` yields for the character.
pub uninterp spec fn unicode_uppercase(c: char) -> Seq<char>;

/// What `String::from_utf8_lossy` returns for the bytes.
pub uninterp spec fn utf8_lossy(b: Seq<u8>) -> Seq<char>;

/// An ASCII letter.
pub open spec fn is_ascii_letter(c: char) -> bool {
    ('a' <= c && c <= 'z') || ('A' <= c && c <= 'Z')
}

/// An ASCII digit.
pub open spec fn is_ascii_digit(c: char) -> bool {
    '0' <= c && c <= '9'
}

/// `char::is_alphabetic`.
pub open spec fn is_alpha(c: char) -> bool {
    is_ascii_letter(c) || ((c as u32) > 0x7f && unicode_alphabetic(c))
}

/// `char::is_numeric`.
pub open spec fn is_num(c: char) -> bool {
    is_ascii_digit(c) || ((c as u32) > 0x7f && unicode_numeric(c))
}

/// `char::is_alphanumeric`, which std documents as alphabetic or numeric.
pub open spec fn is_alnum(c: char) -> bool {
    is_alpha(c) || is_num(c)
}

/// A code point that `char::from_u32` accepts.
pub open spec fn valid_scalar(u: u32) -> bool {
    u <= 0x10FFFF && !(0xD800 <= u && u <= 0xDFFF)
}

/// Calls `char::is_alphabetic`; std's source answers true for ASCII letters,
/// false for the rest of ASCII, and looks the other characters up in its
/// `Alphabetic` table.
#[verifier::external_body]
pub fn is_alphabetic(c: char) -> (r: bool)
    ensures
        r == (is_ascii_letter(c) || ((c as u32) > 0x7f && unicode_alphabetic(c))),
{
    c.is_alphabetic()
}

/// Calls `char::is_numeric`; std's source answers true for ASCII digits,
/// false for the rest of ASCII, and looks the other characters up in its
/// numeric tables.
#[verifier::external_body]
pub fn is_numeric(c: char) -> (r: bool)
    ensures
        r == (is_ascii_digit(c) || ((c as u32) > 0x7f && unicode_numeric(c))),
{
    c.is_numeric()
}

/// `char::is_alphanumeric`.
pub fn is_alphanumeric(c: char) -> (r: bool)
    ensures
        r == is_alnum(c),
{
    is_alphabetic(c) || is_numeric(c)
}

/// Calls `char::from_u32`, which gives the character with that code, or
/// `None` for a surrogate or a code above 0x10FFFF.
#[verifier::external_body]
pub fn char_from_u32(u: u32) -> (r: Option<char>)
    ensures
        r == (if valid_scalar(u) {
            Some(u as char)
        } else {
            None
        }),
{
    char::from_u32(u)
}

/// Calls `str::to_lowercase` on the text; on ASCII text std maps each
/// letter to its lowercase and leaves the other characters.
#[verifier::external_body]
pub fn to_lowercase(s: &[char]) -> (r: Vec<char>)
    ensures
        r@ == unicode_lowercase(s@),
        all_ascii(s@) ==> r@ == s@.map_values(|c: char| ascii_lower(c)),
{
    let t: String = s.iter().collect();
    t.to_lowercase().chars().collect()
}

/// Calls `char::to_uppercase` and collects what it yields; an ASCII
/// lowercase letter becomes its uppercase, other ASCII characters stay.
#[verifier::external_body]
pub fn to_uppercase(c: char) -> (r: Vec<char>)
    ensures
        r@ == unicode_uppercase(c),
        'a' <= c && c <= 'z' ==> r@ == seq![((c as u32) - 32) as char],
        (c as u32) < 0x80 && !('a' <= c && c <= 'z') ==> r@ == seq![c],
{
    c.to_uppercase().collect()
}

/// Calls `String::from_utf8_lossy`; valid UTF-8 is decoded as it is.
#[verifier::external_body]
pub fn from_utf8_lossy(b: &[u8]) -> (r: Vec<char>)
    ensures
        r@ == utf8_lossy(b@),
        valid_utf8(b@) ==> r@ == decode_utf8(b@),
{
    String::from_utf8_lossy(b).chars().collect()
}

/// Collects the characters into a `String`.
#[verifier::external_body]
pub fn to_string(v: &[char]) -> (r: String)
    ensures
        r@ == v@,
{
    v.iter().collect()
}

} // verus!
