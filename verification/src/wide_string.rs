//! Text in UTF-16, as the operating system takes it, made from and turned
//! back into Rust strings.

use vstd::prelude::*;
use vstd::utf8::decode_first_scalar;
use vstd::utf8::decode_utf8;
use vstd::utf8::encode_utf8_decode_utf8;
use vstd::utf8::encode_utf8_valid_utf8;
use vstd::utf8::char_u32_cast;
use vstd::utf8::is_leading_byte_width_2;
use vstd::utf8::is_leading_byte_width_3;
use vstd::utf8::is_leading_byte_width_4;
use vstd::utf8::is_scalar;
use vstd::utf8::pop_first_scalar;
use vstd::utf8::utf8_byte_ranges_bitwise;
use vstd::utf8::valid_first_scalar;
use vstd::utf8::valid_utf8;

verus! {

/// The scalar value that a byte sequence begins with, where it begins with a
/// well-formed UTF-8 encoding of one: not overlong, no surrogate, and at most
/// U+10FFFF.
pub open spec fn first_scalar(bytes: Seq<u8>) -> Option<u32> {
    if valid_first_scalar(bytes) {
        Some(decode_first_scalar(bytes))
    } else {
        None
    }
}

/// How many bytes the leading byte of a sequence announces. A byte that
/// cannot lead a sequence stands for itself.
pub open spec fn announced_width(lead: u8) -> int {
    if is_leading_byte_width_2(lead) {
        2
    } else if is_leading_byte_width_3(lead) {
        3
    } else if is_leading_byte_width_4(lead) {
        4
    } else {
        1
    }
}

/// How many bytes reading one scalar value takes from the head of `bytes`:
/// the announced width where that many bytes are there, else the leading byte
/// alone, and nothing from an empty sequence.
pub open spec fn bytes_taken(bytes: Seq<u8>) -> int {
    if bytes.len() == 0 {
        0
    } else if announced_width(bytes[0]) <= bytes.len() {
        announced_width(bytes[0])
    } else {
        1
    }
}

proof fn lemma_two_byte_bound(b1: u8, b2: u8)
    by (bit_vector)
    ensures
        (((b1 & 0x1f) as u32) << 6) | ((b2 & 0x3f) as u32) <= 0x7ff,
{
}

proof fn lemma_three_byte_bound(b1: u8, b2: u8, b3: u8)
    by (bit_vector)
    ensures
        (((b1 & 0x0f) as u32) << 12) | (((b2 & 0x3f) as u32) << 6) | ((b3 & 0x3f) as u32)
            <= 0xffff,
{
}

proof fn lemma_one_byte_value(b1: u8)
    by (bit_vector)
    requires
        b1 <= 0x7f,
    ensures
        b1 & 0x7f == b1,
{
}

/// Reads one scalar value from `bytes` at `*pos` and moves `*pos` past the
/// bytes that were looked at.
pub fn decode_utf8_char(bytes: &[u8], pos: &mut usize) -> (code_point: Option<u32>)
    requires
        *old(pos) <= bytes.len(),
    ensures
        code_point == first_scalar(bytes@.skip(*old(pos) as int)),
        code_point matches Some(scalar) ==> is_scalar(scalar),
        *final(pos) == *old(pos) + bytes_taken(bytes@.skip(*old(pos) as int)),
{
    broadcast use utf8_byte_ranges_bitwise;

    let start = *pos;
    let ghost rest = bytes@.skip(start as int);
    if bytes.len() == start {
        return None;
    }
    let ch = bytes[start];
    assert(rest[0] == ch);
    *pos = start + 1;
    if ch <= 0x7f {
        proof {
            lemma_one_byte_value(ch);
        }
        return Some(ch as u32);
    }
    if (ch & 0xe0) == 0xc0 {
        if bytes.len() - *pos < 1 {
            return None;
        }
        let ch2 = bytes[*pos];
        assert(rest[1] == ch2);
        *pos = *pos + 1;
        if (ch2 & 0xc0) != 0x80 {
            return None;
        }
        let result: u32 = (((ch & 0x1f) as u32) << 6) | ((ch2 & 0x3f) as u32);
        if result <= 0x7f {
            return None;
        }
        proof {
            lemma_two_byte_bound(ch, ch2);
        }
        return Some(result);
    }
    if (ch & 0xf0) == 0xe0 {
        if bytes.len() - *pos < 2 {
            return None;
        }
        let ch2 = bytes[*pos];
        assert(rest[1] == ch2);
        *pos = *pos + 1;
        let ch3 = bytes[*pos];
        assert(rest[2] == ch3);
        *pos = *pos + 1;
        if (ch2 & 0xc0) != 0x80 || (ch3 & 0xc0) != 0x80 {
            return None;
        }
        let result: u32 = (((ch & 0x0f) as u32) << 12) | (((ch2 & 0x3f) as u32) << 6) | ((ch3
            & 0x3f) as u32);
        if result <= 0x7ff || (0xd800 <= result && result <= 0xdfff) {
            return None;
        }
        proof {
            lemma_three_byte_bound(ch, ch2, ch3);
        }
        return Some(result);
    }
    if (ch & 0xf8) == 0xf0 {
        if bytes.len() - *pos < 3 {
            return None;
        }
        let ch2 = bytes[*pos];
        assert(rest[1] == ch2);
        *pos = *pos + 1;
        let ch3 = bytes[*pos];
        assert(rest[2] == ch3);
        *pos = *pos + 1;
        let ch4 = bytes[*pos];
        assert(rest[3] == ch4);
        *pos = *pos + 1;
        if (ch2 & 0xc0) != 0x80 || (ch3 & 0xc0) != 0x80 || (ch4 & 0xc0) != 0x80 {
            return None;
        }
        let result: u32 = (((ch & 0x07) as u32) << 18) | (((ch2 & 0x3f) as u32) << 12) | (((ch3
            & 0x3f) as u32) << 6) | ((ch4 & 0x3f) as u32);
        if result <= 0xffff || 0x10ffff < result {
            return None;
        }
        return Some(result);
    }
    None
}

/// The UTF-16 code units of one scalar value: the value itself up to U+FFFF,
/// and above that a high surrogate that holds the upper ten bits of the
/// value less 0x10000, followed by a low surrogate that holds the lower ten.
pub open spec fn utf16_units(scalar: u32) -> Seq<u16> {
    if scalar <= 0xffff {
        seq![scalar as u16]
    } else {
        seq![
            (0xd800 + (scalar - 0x10000) / 0x400) as u16,
            (0xdc00 + (scalar - 0x10000) % 0x400) as u16,
        ]
    }
}

/// The UTF-16 encoding of a sequence of characters.
pub open spec fn utf16_encoded(chars: Seq<char>) -> Seq<u16>
    decreases chars.len(),
{
    if chars.len() == 0 {
        Seq::empty()
    } else {
        utf16_units(chars[0] as u32) + utf16_encoded(chars.drop_first())
    }
}

/// Whether a code unit is a high surrogate, the first half of a pair.
pub open spec fn is_high_surrogate(unit: u16) -> bool {
    0xd800 <= unit <= 0xdbff
}

/// Whether a code unit is a low surrogate, the second half of a pair.
pub open spec fn is_low_surrogate(unit: u16) -> bool {
    0xdc00 <= unit <= 0xdfff
}

/// The scalar value that a surrogate pair stands for.
pub open spec fn paired_scalar(high: u16, low: u16) -> u32 {
    (0x10000 + (high - 0xd800) * 0x400 + (low - 0xdc00)) as u32
}

/// How many code units the first character of a UTF-16 sequence takes up.
pub open spec fn first_char_units(units: Seq<u16>) -> int {
    if units.len() >= 2 && is_high_surrogate(units[0]) && is_low_surrogate(units[1]) {
        2
    } else {
        1
    }
}

/// The first character of a UTF-16 sequence. A surrogate that is not part of
/// a pair is read as U+FFFD, the replacement character.
pub open spec fn first_char(units: Seq<u16>) -> char {
    if units.len() >= 2 && is_high_surrogate(units[0]) && is_low_surrogate(units[1]) {
        paired_scalar(units[0], units[1]) as char
    } else if is_high_surrogate(units[0]) || is_low_surrogate(units[0]) {
        '\u{fffd}'
    } else {
        (units[0] as u32) as char
    }
}

/// The characters of a UTF-16 sequence, with U+FFFD in place of each
/// surrogate that is not part of a pair.
pub open spec fn utf16_decoded_lossy(units: Seq<u16>) -> Seq<char>
    decreases units.len(),
{
    if units.len() == 0 {
        Seq::empty()
    } else {
        seq![first_char(units)] + utf16_decoded_lossy(units.skip(first_char_units(units)))
    }
}

/// Decodes UTF-16 with `String::from_utf16_lossy`, which reads each
/// surrogate pair as the character it stands for, each other code unit as
/// itself, and each surrogate that is not part of a pair as U+FFFD.
#[verifier::external_body]
pub(crate) fn string_from_utf16_lossy(units: &[u16]) -> (text: String)
    ensures
        text@ == utf16_decoded_lossy(units@),
{
    String::from_utf16_lossy(units)
}

/// A string in UTF-16.
pub struct WideString {
    buffer: Vec<u16>,
}

impl View for WideString {
    type V = Seq<u16>;

    closed spec fn view(&self) -> Seq<u16> {
        self.buffer@
    }
}

impl From<String> for WideString {
    /// Encodes a string in UTF-16.
    fn from(val: String) -> (wide: WideString)
        ensures
            wide@ == utf16_encoded(val@),
    {
        let input = val.as_str().as_bytes();
        let mut buffer: Vec<u16> = Vec::new();
        let mut input_pos: usize = 0;
        proof {
            encode_utf8_valid_utf8(val@);
            encode_utf8_decode_utf8(val@);
            assert(input@.skip(0) =~= input@);
        }
        loop
            invariant
                input_pos <= input.len(),
                valid_utf8(input@.skip(input_pos as int)),
                utf16_encoded(val@) == buffer@ + utf16_encoded(
                    decode_utf8(input@.skip(input_pos as int)),
                ),
            ensures
                buffer@ == utf16_encoded(val@),
            decreases input.len() - input_pos,
        {
            let ghost rest = input@.skip(input_pos as int);
            let ghost before = buffer@;
            let decoded = decode_utf8_char(input, &mut input_pos);
            match decoded {
                Some(code_point) => {
                    proof {
                        assert(pop_first_scalar(rest) =~= input@.skip(input_pos as int));
                        assert(decode_utf8(rest) == seq![code_point as char] + decode_utf8(
                            pop_first_scalar(rest),
                        ));
                        assert((seq![code_point as char] + decode_utf8(
                            pop_first_scalar(rest),
                        )).drop_first() =~= decode_utf8(pop_first_scalar(rest)));
                        assert((code_point as char) as u32 == code_point);
                    }
                    if code_point <= 0xffff {
                        buffer.push(code_point as u16);
                    } else {
                        let reduced: u32 = code_point - 0x10000;
                        assert(reduced >> 10 == reduced / 0x400 && reduced & 0x3ff == reduced
                            % 0x400) by (bit_vector);
                        buffer.push((0xd800 + (reduced >> 10)) as u16);
                        buffer.push((0xdc00 + (reduced & 0x3ff)) as u16);
                    }
                    assert(buffer@ =~= before + utf16_units(code_point));
                    assert(before + (utf16_units(code_point) + utf16_encoded(
                        decode_utf8(pop_first_scalar(rest)),
                    )) =~= buffer@ + utf16_encoded(decode_utf8(pop_first_scalar(rest))));
                },
                None => {
                    assert(rest.len() == 0);
                    assert(buffer@ + Seq::<u16>::empty() =~= buffer@);
                    break ;
                },
            }
        }
        WideString { buffer }
    }
}

impl vstd::std_specs::convert::FromSpecImpl<String> for WideString {
    /// The conversion is stated by the code units of its result, not by the
    /// result itself: two wide strings that hold the same code units need
    /// not be one value.
    open spec fn obeys_from_spec() -> bool {
        false
    }

    /// Some wide string that holds the UTF-16 encoding of the text.
    open spec fn from_spec(val: String) -> WideString {
        choose|wide: WideString| wide@ == utf16_encoded(val@)
    }
}

impl WideString {
    /// The code units of the string.
    pub fn as_slice(&self) -> (units: &[u16])
        ensures
            units@ == self@,
    {
        self.buffer.as_slice()
    }

    /// The string as Rust text.
    pub fn to_string(&self) -> (text: String)
        ensures
            text@ == utf16_decoded_lossy(self@),
    {
        string_from_utf16_lossy(self.buffer.as_slice())
    }
}

/// A character above U+FFFF is written as a high surrogate followed by a low
/// surrogate, and every other character as one code unit that is no
/// surrogate.
pub proof fn law_surrogate_pairs(c: char)
    ensures
        c as u32 >= 0x10000 ==> {
            &&& utf16_units(c as u32).len() == 2
            &&& is_high_surrogate(utf16_units(c as u32)[0])
            &&& is_low_surrogate(utf16_units(c as u32)[1])
            &&& paired_scalar(utf16_units(c as u32)[0], utf16_units(c as u32)[1]) == c as u32
        },
        c as u32 <= 0xffff ==> {
            &&& utf16_units(c as u32).len() == 1
            &&& utf16_units(c as u32)[0] == c as u32
            &&& !is_high_surrogate(utf16_units(c as u32)[0])
            &&& !is_low_surrogate(utf16_units(c as u32)[0])
        },
{
}

/// Encoding characters in UTF-16 and decoding the result gives the
/// characters back.
pub proof fn law_utf16_round_trip(chars: Seq<char>)
    ensures
        utf16_decoded_lossy(utf16_encoded(chars)) == chars,
    decreases chars.len(),
{
    if chars.len() == 0 {
        assert(chars =~= Seq::empty());
    } else {
        let c = chars[0];
        let head = utf16_units(c as u32);
        let tail = utf16_encoded(chars.drop_first());
        let all = utf16_encoded(chars);
        law_surrogate_pairs(c);
        char_u32_cast(c, c as u32);
        law_utf16_round_trip(chars.drop_first());
        assert(all == head + tail);
        assert(all[0] == head[0]);
        if c as u32 >= 0x10000 {
            assert(all[1] == head[1]);
            assert(all.skip(2) =~= tail);
        } else {
            assert(all.skip(1) =~= tail);
            if all.len() >= 2 {
                assert(!is_high_surrogate(all[0]));
            }
        }
        assert(first_char(all) == c);
        assert(seq![c] + chars.drop_first() =~= chars);
    }
}

} // verus!
