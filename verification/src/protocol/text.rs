//! Text: strings built piece by piece, and bytes read as UTF-8.

use vstd::prelude::*;
use vstd::string::StringExecFns;
use vstd::string::StringSliceAdditionalSpecFns;
use vstd::utf8::valid_utf8;
use crate::protocol::decimal::decimal;
use crate::protocol::decimal::format_i64;
use crate::protocol::decimal::format_u64;

verus! {

/// The characters that the bytes `bytes` stand for, one per byte.
pub open spec fn latin1(bytes: Seq<u8>) -> Seq<char> {
    bytes.map_values(|b: u8| b as char)
}

/// The decimal text of `i` as characters.
pub open spec fn decimal_text(i: int) -> Seq<char> {
    latin1(decimal(i))
}

/// `String::push`: appends one character to the string.
#[verifier::external_body]
pub(crate) fn push_char(s: &mut String, c: char)
    ensures
        final(s)@ == old(s)@.push(c),
{
    s.push(c)
}

/// `core::str::from_utf8`: the bytes as a string slice, where they are valid
/// UTF-8; the slice then holds exactly those bytes.
#[verifier::external_body]
pub(crate) fn str_from_utf8(bytes: &[u8]) -> (r: Option<&str>)
    ensures
        r is Some <==> valid_utf8(bytes@),
        r matches Some(s) ==> s.spec_bytes() == bytes@,
{
    match core::str::from_utf8(bytes) {
        Ok(s) => Some(s),
        Err(_) => None,
    }
}

/// The capital of an ASCII letter; any other character as it is.
pub open spec fn ascii_upper_char(c: char) -> char {
    if 'a' <= c <= 'z' {
        ((c as u8 - 32) as u8) as char
    } else {
        c
    }
}

/// The text `s` with every ASCII letter made a capital.
pub open spec fn ascii_upper(s: Seq<char>) -> Seq<char> {
    s.map_values(|c: char| ascii_upper_char(c))
}

/// The upper-case form of `s` for text that is not all ASCII, as
/// `str::to_uppercase` gives it.
pub uninterp spec fn upper(s: Seq<char>) -> Seq<char>;

/// The upper-case form of `s`: of ASCII text, the text with its letters
/// made capitals; of other text, what `upper` names.
pub open spec fn folded(s: Seq<char>) -> Seq<char> {
    if vstd::utf8::is_ascii_chars(s) {
        ascii_upper(s)
    } else {
        upper(s)
    }
}

/// `str::to_uppercase`: the upper-case form of the string as Unicode
/// defines it, without regard to a locale. Of ASCII characters Unicode
/// changes only the letters `a` to `z`, each to its capital, so ASCII text
/// gives `ascii_upper` of it; the result for other text is a function of the
/// text alone, named `upper`.
#[verifier::external_body]
pub(crate) fn str_to_uppercase(s: &str) -> (r: String)
    ensures
        vstd::utf8::is_ascii_chars(s@) ==> r@ == ascii_upper(s@),
        !vstd::utf8::is_ascii_chars(s@) ==> r@ == upper(s@),
{
    s.to_uppercase()
}

/// Whether `bytes` are valid UTF-8.
pub fn is_utf8(bytes: &[u8]) -> (r: bool)
    ensures
        r == valid_utf8(bytes@),
{
    str_from_utf8(bytes).is_some()
}

/// Appends to `s` one character per byte of `bytes`.
pub fn push_latin1(s: &mut String, bytes: &[u8])
    ensures
        final(s)@ == old(s)@ + latin1(bytes@),
{
    let mut i: usize = 0;
    while i < bytes.len()
        invariant
            i <= bytes@.len(),
            s@ == old(s)@ + latin1(bytes@.take(i as int)),
        decreases bytes@.len() - i,
    {
        push_char(s, bytes[i] as char);
        assert(s@ =~= old(s)@ + latin1(bytes@.take(i + 1)));
        i += 1;
    }
    assert(bytes@.take(i as int) =~= bytes@);
}

/// Appends the decimal text of `i` to `s`.
pub fn push_i64(s: &mut String, i: i64)
    ensures
        final(s)@ == old(s)@ + decimal_text(i as int),
{
    let text = format_i64(i);
    push_latin1(s, text.as_slice());
}

/// Appends the decimal text of `n` to `s`.
pub fn push_u64(s: &mut String, n: u64)
    ensures
        final(s)@ == old(s)@ + decimal_text(n as int),
{
    let text = format_u64(n);
    push_latin1(s, text.as_slice());
}

/// `head` followed by `tail`.
pub fn concat(head: &str, tail: &str) -> (r: String)
    ensures
        r@ == head@ + tail@,
{
    let mut s = String::from_str(head);
    s.append(tail);
    s
}

/// `head`, then `middle`, then `tail`.
pub fn concat3(head: &str, middle: &str, tail: &str) -> (r: String)
    ensures
        r@ == head@ + middle@ + tail@,
{
    let mut s = String::from_str(head);
    s.append(middle);
    s.append(tail);
    s
}

} // verus!
