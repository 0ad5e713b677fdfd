//! Numbers and names as text.

use vstd::prelude::*;
use vstd::string::StringExecFns;
use vstd::utf8::decode_utf8;
use vstd::utf8::encode_utf8;
use vstd::utf8::encode_utf8_decode_utf8;
use vstd::utf8::encode_utf8_valid_utf8;
use vstd::utf8::is_ascii_chars;
use vstd::utf8::is_ascii_chars_encode_utf8;
use vstd::utf8::valid_utf8;

use crate::error::Error;
use crate::memory::is_outcome;

verus! {

/// Decodes UTF-8 with `String::from_utf8`, which gives the text where the
/// bytes are well-formed UTF-8 and an error where they are not.
#[verifier::external_body]
fn string_from_utf8(bytes: Vec<u8>) -> (text: Result<String, std::string::FromUtf8Error>)
    ensures
        text is Ok <==> valid_utf8(bytes@),
        text matches Ok(s) ==> s@ == decode_utf8(bytes@),
{
    String::from_utf8(bytes)
}

/// The text that bytes hold in UTF-8.
pub fn text_from_utf8(bytes: Vec<u8>) -> (text: Result<String, Error>)
    ensures
        is_outcome(
            text,
            if valid_utf8(bytes@) {
                Ok(decode_utf8(bytes@))
            } else {
                Err(Error::InvalidUtf8)
            },
        ),
{
    match string_from_utf8(bytes) {
        Ok(s) => Ok(s),
        Err(_) => Err(Error::InvalidUtf8),
    }
}

/// The error of `String::from_utf8`, of which nothing is looked at.
#[verifier::external_type_specification]
#[verifier::external_body]
pub struct ExFromUtf8Error(std::string::FromUtf8Error);

/// The characters that ASCII bytes stand for.
pub open spec fn ascii_chars(bytes: Seq<u8>) -> Seq<char> {
    Seq::new(bytes.len(), |i: int| bytes[i] as char)
}

/// Whether every byte is an ASCII character.
pub open spec fn is_ascii_bytes(bytes: Seq<u8>) -> bool {
    forall|i: int| 0 <= i < bytes.len() ==> #[trigger] bytes[i] < 0x80
}

/// ASCII bytes are well-formed UTF-8 and stand for one character each.
pub proof fn lemma_ascii_is_utf8(bytes: Seq<u8>)
    requires
        is_ascii_bytes(bytes),
    ensures
        valid_utf8(bytes),
        decode_utf8(bytes) == ascii_chars(bytes),
{
    let chars = ascii_chars(bytes);
    assert(is_ascii_chars(chars)) by {
        assert forall|i: int| 0 <= i < chars.len() implies '\0' <= #[trigger] chars[i]
            <= '\u{7f}' by {
            assert(bytes[i] < 0x80);
        }
    }
    is_ascii_chars_encode_utf8(chars);
    assert(encode_utf8(chars) =~= bytes) by {
        assert forall|i: int| 0 <= i < bytes.len() implies encode_utf8(chars)[i] == bytes[i] by {
            assert(bytes[i] < 0x80);
            assert(chars[i] as u8 == bytes[i]);
        }
    }
    encode_utf8_valid_utf8(chars);
    encode_utf8_decode_utf8(chars);
}

/// The text that ASCII bytes stand for.
pub fn ascii_string(bytes: Vec<u8>) -> (text: String)
    requires
        is_ascii_bytes(bytes@),
    ensures
        text@ == ascii_chars(bytes@),
{
    proof {
        lemma_ascii_is_utf8(bytes@);
    }
    match text_from_utf8(bytes) {
        Ok(text) => text,
        Err(_) => String::new(),
    }
}

/// The ASCII digit for a value below sixteen, with letters in upper case
/// where `upper`.
pub open spec fn hex_digit(value: int, upper: bool) -> u8 {
    if value < 10 {
        (0x30 + value) as u8
    } else if upper {
        (0x41 + value - 10) as u8
    } else {
        (0x61 + value - 10) as u8
    }
}

/// A number in base sixteen, without leading zeros.
pub open spec fn hex_digits(value: nat, upper: bool) -> Seq<u8>
    decreases value,
{
    if value < 16 {
        seq![hex_digit(value as int, upper)]
    } else {
        hex_digits(value / 16, upper).push(hex_digit((value % 16) as int, upper))
    }
}

/// The lowest `digits` digits of a number in base sixteen, with leading
/// zeros.
pub open spec fn hex_fixed(value: nat, digits: nat, upper: bool) -> Seq<u8>
    decreases digits,
{
    if digits == 0 {
        Seq::empty()
    } else {
        hex_fixed(value / 16, (digits - 1) as nat, upper).push(
            hex_digit((value % 16) as int, upper),
        )
    }
}

/// A number in base ten, without leading zeros.
pub open spec fn decimal_digits(value: nat) -> Seq<u8>
    decreases value,
{
    if value < 10 {
        seq![(0x30 + value) as u8]
    } else {
        decimal_digits(value / 10).push((0x30 + value % 10) as u8)
    }
}

fn hex_digit_of(value: u64, upper: bool) -> (digit: u8)
    requires
        value < 16,
    ensures
        digit == hex_digit(value as int, upper),
        digit < 0x80,
{
    if value < 10 {
        0x30 + value as u8
    } else if upper {
        0x41 + (value as u8 - 10)
    } else {
        0x61 + (value as u8 - 10)
    }
}

/// Writes a number in base sixteen, without leading zeros.
pub fn push_hex(buffer: &mut Vec<u8>, value: u64, upper: bool)
    ensures
        final(buffer)@ == old(buffer)@ + hex_digits(value as nat, upper),
        is_ascii_bytes(old(buffer)@) ==> is_ascii_bytes(final(buffer)@),
    decreases value,
{
    if value >= 16 {
        push_hex(buffer, value / 16, upper);
    }
    buffer.push(hex_digit_of(value % 16, upper));
    assert(buffer@ =~= old(buffer)@ + hex_digits(value as nat, upper));
}

/// Writes the lowest `digits` digits of a number in base sixteen, with
/// leading zeros.
pub fn push_hex_fixed(buffer: &mut Vec<u8>, value: u64, digits: usize, upper: bool)
    ensures
        final(buffer)@ == old(buffer)@ + hex_fixed(value as nat, digits as nat, upper),
        is_ascii_bytes(old(buffer)@) ==> is_ascii_bytes(final(buffer)@),
    decreases digits,
{
    if digits > 0 {
        push_hex_fixed(buffer, value / 16, digits - 1, upper);
        buffer.push(hex_digit_of(value % 16, upper));
    }
    assert(buffer@ =~= old(buffer)@ + hex_fixed(value as nat, digits as nat, upper));
}

/// Writes a number in base ten, without leading zeros.
pub fn push_decimal(buffer: &mut Vec<u8>, value: u64)
    ensures
        final(buffer)@ == old(buffer)@ + decimal_digits(value as nat),
        is_ascii_bytes(old(buffer)@) ==> is_ascii_bytes(final(buffer)@),
    decreases value,
{
    if value >= 10 {
        push_decimal(buffer, value / 10);
    }
    buffer.push(0x30 + (value % 10) as u8);
    assert(buffer@ =~= old(buffer)@ + decimal_digits(value as nat));
}

/// `prefix`, followed by `value` in base sixteen with upper-case letters and
/// without leading zeros.
pub fn with_hex_suffix(prefix: &str, value: u64) -> (text: String)
    ensures
        text@ == prefix@ + ascii_chars(hex_digits(value as nat, true)),
{
    let mut digits: Vec<u8> = Vec::new();
    push_hex(&mut digits, value, true);
    assert(digits@ =~= hex_digits(value as nat, true));
    let mut text = String::from_str(prefix);
    text.append(ascii_string(digits).as_str());
    text
}

/// `prefix`, followed by `value` in base ten.
pub fn with_decimal_suffix(prefix: &str, value: u64) -> (text: String)
    ensures
        text@ == prefix@ + ascii_chars(decimal_digits(value as nat)),
{
    let mut digits: Vec<u8> = Vec::new();
    push_decimal(&mut digits, value);
    assert(digits@ =~= decimal_digits(value as nat));
    let mut text = String::from_str(prefix);
    text.append(ascii_string(digits).as_str());
    text
}

/// Whether two strings hold the same text.
pub fn same_text(left: &str, right: &str) -> (same: bool)
    ensures
        same == (left@ == right@),
{
    let a = left.as_bytes();
    let b = right.as_bytes();
    proof {
        encode_utf8_decode_utf8(left@);
        encode_utf8_decode_utf8(right@);
    }
    if a.len() != b.len() {
        return false;
    }
    let mut i: usize = 0;
    while i < a.len()
        invariant
            i <= a.len(),
            a.len() == b.len(),
            a@ == encode_utf8(left@),
            b@ == encode_utf8(right@),
            decode_utf8(encode_utf8(left@)) == left@,
            decode_utf8(encode_utf8(right@)) == right@,
            forall|k: int| 0 <= k < i ==> a@[k] == b@[k],
        decreases a.len() - i,
    {
        if a[i] != b[i] {
            return false;
        }
        i += 1;
    }
    assert(a@ =~= b@);
    true
}

/// The characters of a string.
pub fn chars_of(text: &str) -> (chars: Vec<char>)
    ensures
        chars@ == text@,
{
    let mut chars: Vec<char> = Vec::new();
    for c in it: text.chars()
        invariant
            it.seq() == text@,
            chars@ =~= it.seq().take(it.index()),
    {
        chars.push(c);
    }
    assert(chars@ =~= text@);
    chars
}

} // verus!
