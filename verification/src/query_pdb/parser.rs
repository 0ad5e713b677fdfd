//! A cursor over the bytes of a stream.

use vstd::prelude::*;
use vstd::slice::slice_subrange;
use vstd::string::StringExecFns;
use vstd::utf8::decode_utf8;
use vstd::utf8::valid_utf8;

use crate::memory::le_u16;
use crate::memory::le_u32;
use crate::memory::read_le_u16;
use crate::memory::read_le_u32;
use crate::query_pdb::code_view::RecordEntry;
use crate::text::chars_of;

verus! {

/// The error of `std::str::from_utf8`, of which nothing is looked at.
#[verifier::external_type_specification]
#[verifier::external_body]
pub struct ExUtf8Error(std::str::Utf8Error);

/// Reads bytes as text with `std::str::from_utf8`, which gives the text
/// where the bytes are well-formed UTF-8 and an error where they are not.
#[verifier::external_body]
fn str_from_utf8<'a>(bytes: &'a [u8]) -> (text: Result<&'a str, std::str::Utf8Error>)
    ensures
        text is Ok <==> valid_utf8(bytes@),
        text matches Ok(s) ==> s@ == decode_utf8(bytes@),
{
    std::str::from_utf8(bytes)
}

/// How many characters of a text are left when the zero characters at its
/// end are dropped, looking at its first `upto` characters.
pub open spec fn trimmed_len(text: Seq<char>, upto: int) -> int
    decreases upto,
{
    if upto <= 0 {
        0
    } else if text[upto - 1] == '\0' {
        trimmed_len(text, upto - 1)
    } else {
        upto
    }
}

/// A text without the zero characters at its end.
pub open spec fn trimmed(text: Seq<char>) -> Seq<char> {
    text.take(trimmed_len(text, text.len() as int))
}

/// What parsing one record at `position` gives: the record and the
/// position behind it. A record begins with its length, not counting the
/// length itself, and its type, sixteen bits each.
pub open spec fn record_parsed<T: RecordEntry>(buffer: Seq<u8>, position: int) -> Option<
    (T::Model, int),
> {
    if position + 4 > buffer.len() || !T::accepts(le_u16(buffer, position + 2)) || position
        + le_u16(buffer, position) + 2 > buffer.len() {
        None
    } else {
        match T::parsed(buffer.subrange(position, position + le_u16(buffer, position) + 2)) {
            Some(record) => Some((record, position + le_u16(buffer, position) + 2)),
            None => None,
        }
    }
}

/// A text without the zero characters at its end.
pub fn trim_zeros<'a>(text: &'a str) -> (kept: &'a str)
    ensures
        kept@ == trimmed(text@),
{
    let chars = chars_of(text);
    let mut end: usize = chars.len();
    while end > 0 && chars[end - 1] == '\0'
        invariant
            end <= chars.len(),
            trimmed_len(chars@, chars.len() as int) == trimmed_len(chars@, end as int),
        decreases end,
    {
        end -= 1;
    }
    assert(chars@.subrange(0, end as int) =~= chars@.take(end as int));
    text.substring_char(0, end)
}

pub struct Parser<'a> {
    buffer: &'a [u8],
    position: usize,
}

impl<'a> Parser<'a> {
    #[verifier::type_invariant]
    spec fn position_is_in_the_buffer(&self) -> bool {
        self.position <= self.buffer@.len()
    }

    /// The bytes that are read.
    pub closed spec fn buffer(&self) -> Seq<u8> {
        self.buffer@
    }

    /// How many of the bytes have been read.
    pub closed spec fn position(&self) -> int {
        self.position as int
    }

    /// The bytes that have not been read yet.
    pub open spec fn rest(&self) -> Seq<u8> {
        self.buffer().skip(self.position())
    }

    pub fn new(buffer: &'a [u8]) -> (parser: Parser<'a>)
        ensures
            parser.buffer() == buffer@,
            parser.position() == 0,
    {
        Self { buffer, position: 0 }
    }

    pub fn read_u32(&mut self) -> (value: u32)
        requires
            old(self).position() + 4 <= old(self).buffer().len(),
        ensures
            value == le_u32(old(self).buffer(), old(self).position()),
            final(self).buffer() == old(self).buffer(),
            final(self).position() == old(self).position() + 4,
    {
        let _ = self.buffer.len();
        let result = read_le_u32(self.buffer, self.position);
        self.position += 4;
        result
    }

    pub fn read_u16(&mut self) -> (value: u16)
        requires
            old(self).position() + 2 <= old(self).buffer().len(),
        ensures
            value == le_u16(old(self).buffer(), old(self).position()),
            final(self).buffer() == old(self).buffer(),
            final(self).position() == old(self).position() + 2,
    {
        let _ = self.buffer.len();
        let result = read_le_u16(self.buffer, self.position);
        self.position += 2;
        result
    }

    /// Passes over `offset` bytes, or over all that are left where they are
    /// fewer.
    pub fn skip(&mut self, offset: usize)
        ensures
            final(self).buffer() == old(self).buffer(),
            final(self).position() == if old(self).position() + offset <= old(self).buffer().len() {
                old(self).position() + offset
            } else {
                old(self).buffer().len() as int
            },
    {
        proof {
            use_type_invariant(&*self);
        }
        if offset <= self.buffer.len() - self.position {
            self.position += offset;
        } else {
            self.position = self.buffer.len();
        }
    }

    pub fn remaining(&self) -> (left: usize)
        ensures
            left == self.buffer().len() - self.position(),
    {
        proof {
            use_type_invariant(self);
        }
        self.buffer.len() - self.position
    }

    /// Reads a path of `length` bytes and drops the zero characters at its
    /// end.
    pub fn read_path_buf_with_length_trimmed(&mut self, length: usize) -> (path: String)
        requires
            old(self).position() + length <= old(self).buffer().len(),
            valid_utf8(
                old(self).buffer().subrange(old(self).position(), old(self).position() + length),
            ),
        ensures
            path@ == trimmed(
                decode_utf8(
                    old(self).buffer().subrange(
                        old(self).position(),
                        old(self).position() + length,
                    ),
                ),
            ),
            final(self).buffer() == old(self).buffer(),
            final(self).position() == old(self).position() + length,
    {
        String::from_str(self.read_string_with_length_trimmed(length))
    }

    /// Reads a text of `length` bytes.
    pub fn read_string_with_length(&mut self, length: usize) -> (text: &'a str)
        requires
            old(self).position() + length <= old(self).buffer().len(),
            valid_utf8(
                old(self).buffer().subrange(old(self).position(), old(self).position() + length),
            ),
        ensures
            text@ == decode_utf8(
                old(self).buffer().subrange(old(self).position(), old(self).position() + length),
            ),
            final(self).buffer() == old(self).buffer(),
            final(self).position() == old(self).position() + length,
    {
        match str_from_utf8(self.read_bytes(length)) {
            Ok(text) => text,
            Err(_) => "",
        }
    }

    /// Reads a text of `length` bytes, where that many bytes are left and
    /// are well-formed UTF-8. Else nothing is read.
    pub fn try_read_string_with_length(&mut self, length: usize) -> (text: Option<&'a str>)
        ensures
            final(self).buffer() == old(self).buffer(),
            if old(self).position() + length <= old(self).buffer().len() && valid_utf8(
                old(self).buffer().subrange(old(self).position(), old(self).position() + length),
            ) {
                text matches Some(read) && read@ == decode_utf8(
                    old(self).buffer().subrange(
                        old(self).position(),
                        old(self).position() + length,
                    ),
                ) && final(self).position() == old(self).position() + length
            } else {
                text is None && final(self).position() == old(self).position()
            },
    {
        proof {
            use_type_invariant(&*self);
        }
        if self.buffer.len() - self.position < length {
            return None;
        }
        let bytes = slice_subrange(self.buffer, self.position, self.position + length);
        match str_from_utf8(bytes) {
            Ok(text) => {
                self.position += length;
                Some(text)
            },
            Err(_) => None,
        }
    }

    /// Reads a text of `length` bytes and drops the zero characters at its
    /// end.
    pub fn read_string_with_length_trimmed(&mut self, length: usize) -> (text: &'a str)
        requires
            old(self).position() + length <= old(self).buffer().len(),
            valid_utf8(
                old(self).buffer().subrange(old(self).position(), old(self).position() + length),
            ),
        ensures
            text@ == trimmed(
                decode_utf8(
                    old(self).buffer().subrange(
                        old(self).position(),
                        old(self).position() + length,
                    ),
                ),
            ),
            final(self).buffer() == old(self).buffer(),
            final(self).position() == old(self).position() + length,
    {
        trim_zeros(self.read_string_with_length(length))
    }

    pub fn read_bytes(&mut self, length: usize) -> (bytes: &'a [u8])
        requires
            old(self).position() + length <= old(self).buffer().len(),
        ensures
            bytes@ == old(self).buffer().subrange(
                old(self).position(),
                old(self).position() + length,
            ),
            final(self).buffer() == old(self).buffer(),
            final(self).position() == old(self).position() + length,
    {
        let _ = self.buffer.len();
        let result = slice_subrange(self.buffer, self.position, self.position + length);
        self.position += length;
        result
    }

    /// Reads one record, where a record of the kind `T` begins at the
    /// cursor and lies whole in the buffer. Else nothing is read.
    pub fn try_parse<T: RecordEntry>(&mut self) -> (record: Option<T>)
        ensures
            final(self).buffer() == old(self).buffer(),
            match record_parsed::<T>(old(self).buffer(), old(self).position()) {
                Some(parsed) => {
                    &&& record matches Some(read) && read.model() == parsed.0
                    &&& final(self).position() == parsed.1
                },
                None => record is None && final(self).position() == old(self).position(),
            },
    {
        proof {
            use_type_invariant(&*self);
        }
        let pos = self.position;
        if self.buffer.len() - pos < 4 {
            return None;
        }
        let record_size = read_le_u16(self.buffer, pos);
        let record_type = read_le_u16(self.buffer, pos + 2);
        if !T::is_valid_record_type(record_type) {
            return None;
        }
        if self.buffer.len() - pos < record_size as usize + 2 {
            return None;
        }
        let bytes = slice_subrange(self.buffer, pos, pos + record_size as usize + 2);
        match T::read(bytes) {
            Some(record) => {
                self.position = pos + record_size as usize + 2;
                Some(record)
            },
            None => None,
        }
    }

    /// A second cursor at the same place.
    pub fn peek(&self) -> (copy: Parser<'a>)
        ensures
            copy.buffer() == self.buffer(),
            copy.position() == self.position(),
    {
        proof {
            use_type_invariant(self);
        }
        Self { buffer: self.buffer, position: self.position }
    }
}

} // verus!
