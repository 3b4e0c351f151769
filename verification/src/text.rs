//! Text helpers: comparing strings with character literals, building
//! strings, and decoding Mac Roman text.
use vstd::prelude::*;
use encoding::{DecoderTrap, Encoding};
use crate::draw::draw_utils::mac_roman_decode;

verus! {

/// `s` consists of exactly the characters of `lit`.
pub fn str_is(s: &str, lit: &[char]) -> (r: bool)
    ensures
        r == (s@ == lit@),
{
    let mut i: usize = 0;
    let mut ok: bool = true;
    for c in it: s.chars()
        invariant
            it.seq() == s@,
            i <= lit@.len(),
            ok ==> i == it.index() && forall|j: int| 0 <= j < i ==> s@[j] == lit@[j],
            !ok ==> s@ != lit@,
    {
        if ok {
            if i < lit.len() && lit[i] == c {
                i = i + 1;
            } else {
                ok = false;
                proof {
                    if s@ == lit@ {
                        assert(s@[i as int] == c);
                    }
                }
            }
        }
    }
    if ok && i == lit.len() {
        assert(s@ =~= lit@);
        true
    } else {
        false
    }
}

/// Append a character to a string (std's `String::push`): the string's
/// characters are followed by `c`.
#[verifier::external_body]
pub(crate) fn push_char(s: &mut String, c: char)
    ensures
        final(s)@ == old(s)@.push(c),
{
    s.push(c);
}

/// Append the characters of `chars` to a string.
pub(crate) fn push_chars(s: &mut String, chars: &[char])
    ensures
        final(s)@ == old(s)@ + chars@,
{
    let ghost s0 = s@;
    let mut i: usize = 0;
    while i < chars.len()
        invariant
            i <= chars@.len(),
            s@ == s0 + chars@.take(i as int),
        decreases chars.len() - i,
    {
        push_char(s, chars[i]);
        i = i + 1;
        assert(s@ =~= s0 + chars@.take(i as int));
    }
    assert(chars@.take(chars@.len() as int) =~= chars@);
}

/// The decimal digit character of `d` (0..=9).
pub open spec fn digit_char(d: int) -> char {
    (d + 48) as char
}

/// The decimal representation of `n`, most significant digit first, with
/// no leading zeros ("0" for zero).
pub open spec fn decimal(n: nat) -> Seq<char>
    decreases n,
{
    if n < 10 {
        seq![digit_char(n as int)]
    } else {
        decimal(n / 10).push(digit_char((n % 10) as int))
    }
}

/// Append the decimal representation of `n` (see `decimal`).
pub(crate) fn push_decimal(s: &mut String, n: u64)
    ensures
        final(s)@ == old(s)@ + decimal(n as nat),
    decreases n,
{
    if n >= 10 {
        push_decimal(s, n / 10);
    }
    let d: u8 = (n % 10) as u8;
    let c: char = (d + 48) as char;
    proof {
        if n >= 10 {
            assert(old(s)@ + decimal((n / 10) as nat) + seq![c] =~= old(s)@ + decimal(n as nat));
        }
    }
    push_char(s, c);
    proof {
        if n < 10 {
            assert(old(s)@.push(c) =~= old(s)@ + decimal(n as nat));
        }
    }
}

/// The character of a Mac Roman byte in the WHATWG "macintosh" index: the
/// byte itself below 0x80, above it the Mac OS Roman table.
pub open spec fn mac_roman_char(b: u8) -> char {
    mac_roman_decode(b) as char
}

/// Decoding with the encoding crate's `MAC_ROMAN` (`Encoding::decode` with
/// `DecoderTrap::Replace`). Its single-byte decoder writes one character
/// per byte, the byte itself below 0x80 and the entry of the "macintosh"
/// index above; that index has no unmapped entry, so the decoding succeeds.
/// The error, were there one, is passed on as a `String`.
#[verifier::external_body]
fn decode_mac_roman(bytes: &[u8]) -> (r: Result<String, String>)
    ensures
        r is Ok,
        r->Ok_0@ == bytes@.map_values(|b: u8| mac_roman_char(b)),
{
    match encoding::all::MAC_ROMAN.decode(bytes, DecoderTrap::Replace) {
        Ok(s) => Ok(s),
        Err(e) => Err(e.into_owned()),
    }
}

/// std's `String::from_utf8_lossy`, made an owned `String`. Nothing is
/// stated of the result.
#[verifier::external_body]
fn utf8_lossy(bytes: &[u8]) -> (r: String) {
    String::from_utf8_lossy(bytes).into_owned()
}

/// Decode Mac Roman bytes (the encoding of Notelist files) to a string:
/// one character per byte (`mac_roman_char`).
pub fn mac_roman_to_string(bytes: &[u8]) -> (r: String)
    ensures
        r@ == bytes@.map_values(|b: u8| mac_roman_char(b)),
{
    match decode_mac_roman(bytes) {
        Ok(s) => s,
        Err(_) => utf8_lossy(bytes),
    }
}

} // verus!
