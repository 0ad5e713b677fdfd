//! Machine code as text.

use vstd::prelude::*;
use vstd::slice::slice_subrange;
use vstd::slice::slice_to_vec;
use vstd::string::StringExecFns;

use crate::error::Error;
use crate::memory::byte_count;
use crate::memory::mapped_run;
use crate::memory::outcome;
use crate::memory::MemorySource;
use crate::text::ascii_chars;
use crate::text::ascii_string;
use crate::text::hex_fixed;
use crate::text::is_ascii_bytes;
use crate::text::push_hex_fixed;

verus! {

/// The number of bytes that one instruction takes up at most.
pub const MAX_INSTRUCTION_LENGTH: usize = 15;

/// The number of bytes for which a line of disassembly leaves room before
/// the instruction's text.
pub const HEXBYTES_COLUMN_BYTE_LENGTH: usize = 10;

/// The number of bytes of the instruction that `code` begins with, as the
/// decoder of `iced_x86` reads it in sixty-four-bit mode at the address
/// `ip`.
pub uninterp spec fn decoded_length(code: Seq<u8>, ip: u64) -> nat;

/// The text, in the syntax of the Netwide Assembler, of the instruction
/// that `code` begins with, as `iced_x86` formats it for the address `ip`.
pub uninterp spec fn nasm_text(code: Seq<u8>, ip: u64) -> Seq<char>;

/// Decodes one instruction with `iced_x86::Decoder::decode` and gives its
/// length. The decoder takes at least one byte where there is one, never
/// more than fifteen, and never more than there are; bytes that are no
/// instruction are taken as an invalid one.
#[verifier::external_body]
fn decode_length(code: &[u8], ip: u64) -> (length: usize)
    ensures
        length == decoded_length(code@, ip),
        code@.len() > 0 ==> 1 <= length <= 15 && length <= code@.len(),
{
    iced_x86::Decoder::with_ip(64, code, ip, iced_x86::DecoderOptions::NONE).decode().len()
}

/// Decodes one instruction and formats it with
/// `iced_x86::NasmFormatter::format`.
#[verifier::external_body]
fn format_nasm(code: &[u8], ip: u64) -> (text: String)
    ensures
        text@ == nasm_text(code@, ip),
{
    let instruction = iced_x86::Decoder::with_ip(64, code, ip, iced_x86::DecoderOptions::NONE)
        .decode();
    let mut output = String::new();
    iced_x86::Formatter::format(&mut iced_x86::NasmFormatter::new(), &instruction, &mut output);
    output
}

/// One instruction of the target's code.
#[derive(Debug, Clone)]
pub struct Instruction {
    ip: u64,
    bytes: Vec<u8>,
    text: String,
}

pub struct InstructionView {
    /// The address of the instruction.
    pub ip: u64,
    /// The bytes of the instruction.
    pub bytes: Seq<u8>,
    /// The instruction as text.
    pub text: Seq<char>,
}

impl InstructionView {
    /// The address behind the instruction.
    pub open spec fn next_ip(self) -> u64 {
        self.ip.wrapping_add(self.bytes.len() as u64)
    }
}

/// Each byte as two digits of base sixteen.
pub open spec fn hex_bytes(bytes: Seq<u8>) -> Seq<u8>
    decreases bytes.len(),
{
    if bytes.len() == 0 {
        Seq::empty()
    } else {
        hex_bytes(bytes.drop_last()) + hex_fixed(bytes.last() as nat, 2, true)
    }
}

/// `count` spaces.
pub open spec fn spaces(count: nat) -> Seq<u8> {
    Seq::new(count, |i: int| 0x20u8)
}

/// A line of disassembly: the address in sixteen digits of base sixteen, a
/// space, the bytes of the instruction in two digits each, filled up with
/// spaces to the width of ten bytes, a space, and the instruction's text.
pub open spec fn shown_instruction(instruction: InstructionView) -> Seq<char> {
    ascii_chars(
        hex_fixed(instruction.ip as nat, 16, true) + spaces(1) + hex_bytes(instruction.bytes)
            + spaces(
            if instruction.bytes.len() < HEXBYTES_COLUMN_BYTE_LENGTH {
                (2 * (HEXBYTES_COLUMN_BYTE_LENGTH - instruction.bytes.len())) as nat
            } else {
                0
            },
        ) + spaces(1),
    ) + instruction.text
}

impl DeepView for Instruction {
    type V = InstructionView;

    closed spec fn deep_view(&self) -> InstructionView {
        InstructionView { ip: self.ip, bytes: self.bytes@, text: self.text@ }
    }
}

impl Instruction {
    /// An instruction at the address `ip` with the given text. Its bytes are
    /// the first fifteen of `bytes`, or all of them where they are fewer.
    pub fn new(ip: u64, bytes: &[u8], text: String) -> (instruction: Instruction)
        ensures
            instruction.deep_view() == (InstructionView {
                ip,
                bytes: if bytes@.len() <= MAX_INSTRUCTION_LENGTH {
                    bytes@
                } else {
                    bytes@.take(MAX_INSTRUCTION_LENGTH as int)
                },
                text: text@,
            }),
    {
        let kept = if bytes.len() <= MAX_INSTRUCTION_LENGTH {
            bytes
        } else {
            slice_subrange(bytes, 0, MAX_INSTRUCTION_LENGTH)
        };
        assert(bytes@.subrange(0, MAX_INSTRUCTION_LENGTH as int) =~= bytes@.take(
            MAX_INSTRUCTION_LENGTH as int,
        ));
        Instruction { ip, bytes: slice_to_vec(kept), text }
    }

    /// The instruction that `code` begins with, for the address `ip`.
    fn decode(code: &[u8], ip: u64) -> (instruction: Instruction)
        requires
            code@.len() > 0,
        ensures
            instruction.deep_view() == first_instruction(code@, ip),
            1 <= instruction.deep_view().bytes.len() <= 15,
            instruction.deep_view().bytes.len() == decoded_length(code@, ip),
            decoded_length(code@, ip) <= code@.len(),
    {
        let length = decode_length(code, ip);
        let bytes = slice_subrange(code, 0, length);
        assert(code@.subrange(0, length as int) =~= code@.take(length as int));
        Instruction::new(ip, bytes, format_nasm(code, ip))
    }

    /// The address of the instruction.
    pub fn ip(&self) -> (ip: u64)
        ensures
            ip == self.deep_view().ip,
    {
        self.ip
    }

    /// The number of bytes of the instruction.
    pub fn len(&self) -> (len: usize)
        ensures
            len == self.deep_view().bytes.len(),
    {
        self.bytes.len()
    }

    /// The address behind the instruction.
    pub fn next_ip(&self) -> (next: u64)
        ensures
            next == self.deep_view().next_ip(),
    {
        self.ip.wrapping_add(self.bytes.len() as u64)
    }

    /// The bytes of the instruction.
    pub fn bytes(&self) -> (bytes: &[u8])
        ensures
            bytes@ == self.deep_view().bytes,
    {
        self.bytes.as_slice()
    }

    /// The instruction as text, without its address and bytes.
    pub fn text(&self) -> (text: &str)
        ensures
            text@ == self.deep_view().text,
    {
        self.text.as_str()
    }

    /// The instruction as a line of disassembly.
    pub fn to_string(&self) -> (line: String)
        ensures
            line@ == shown_instruction(self.deep_view()),
    {
        let mut head: Vec<u8> = Vec::new();
        push_hex_fixed(&mut head, self.ip, 16, true);
        head.push(0x20);
        let ghost start = head@;
        assert(start =~= hex_fixed(self.ip as nat, 16, true) + spaces(1));
        let mut index: usize = 0;
        assert(self.bytes@.take(0) =~= Seq::<u8>::empty());
        assert(start + hex_bytes(self.bytes@.take(0)) =~= start);
        while index < self.bytes.len()
            invariant
                index <= self.bytes.len(),
                is_ascii_bytes(head@),
                head@ == start + hex_bytes(self.bytes@.take(index as int)),
            decreases self.bytes.len() - index,
        {
            let ghost before = head@;
            push_hex_fixed(&mut head, self.bytes[index] as u64, 2, true);
            proof {
                let taken = self.bytes@.take(index + 1);
                assert(taken.drop_last() =~= self.bytes@.take(index as int));
                assert(taken.last() == self.bytes@[index as int]);
                assert(head@ =~= start + hex_bytes(taken));
            }
            index += 1;
        }
        assert(self.bytes@.take(index as int) =~= self.bytes@);
        let ghost filled = head@;
        let padding: usize = if self.bytes.len() < HEXBYTES_COLUMN_BYTE_LENGTH {
            2 * (HEXBYTES_COLUMN_BYTE_LENGTH - self.bytes.len())
        } else {
            0
        };
        let mut written: usize = 0;
        assert(filled + spaces(0) =~= filled);
        while written < padding + 1
            invariant
                written <= padding + 1,
                padding <= 20,
                is_ascii_bytes(head@),
                head@ == filled + spaces(written as nat),
            decreases padding + 1 - written,
        {
            head.push(0x20);
            assert(head@ =~= filled + spaces((written + 1) as nat));
            written += 1;
        }
        assert(head@ =~= hex_fixed(self.ip as nat, 16, true) + spaces(1) + hex_bytes(
            self.bytes@,
        ) + spaces(padding as nat) + spaces(1));
        let mut line = ascii_string(head);
        line.append(self.text.as_str());
        line
    }
}

/// The instruction that `code` begins with, for the address `ip`.
pub open spec fn first_instruction(code: Seq<u8>, ip: u64) -> InstructionView {
    InstructionView {
        ip,
        bytes: code.take(decoded_length(code, ip) as int),
        text: nasm_text(code, ip),
    }
}

/// The up to `count` instructions that lie one after another in `code`,
/// the first of them at the address `ip`.
pub open spec fn instructions(code: Seq<u8>, ip: u64, count: nat) -> Seq<InstructionView>
    decreases count,
{
    if count == 0 || code.len() == 0 {
        Seq::empty()
    } else {
        seq![first_instruction(code, ip)] + instructions(
            code.skip(decoded_length(code, ip) as int),
            ip.wrapping_add(decoded_length(code, ip) as u64),
            (count - 1) as nat,
        )
    }
}

/// The number of bytes that instructions take up together.
pub open spec fn total_bytes(list: Seq<InstructionView>) -> nat
    decreases list.len(),
{
    if list.len() == 0 {
        0
    } else {
        total_bytes(list.drop_last()) + list.last().bytes.len()
    }
}

/// The bytes of instructions, one instruction after another.
pub open spec fn joined_bytes(list: Seq<InstructionView>) -> Seq<u8>
    decreases list.len(),
{
    if list.len() == 0 {
        Seq::empty()
    } else {
        joined_bytes(list.drop_last()) + list.last().bytes
    }
}

/// Whether `list` holds instructions that were read one after another from
/// the first `offset` bytes of `code`, the first of them at the address
/// `ip`: each takes one to fifteen bytes and begins where the one before it
/// ends, and together they are those bytes.
pub open spec fn reads_head_of(list: Seq<InstructionView>, code: Seq<u8>, ip: u64, offset: nat)
    -> bool {
    &&& offset == total_bytes(list)
    &&& offset <= code.len() <= usize::MAX
    &&& offset <= 15 * list.len()
    &&& joined_bytes(list) == code.take(offset as int)
    &&& forall|k: int| 0 <= k < list.len() ==> 1 <= (#[trigger] list[k]).bytes.len() <= 15
    &&& list.len() > 0 ==> list[0].ip == ip
    &&& forall|k: int| 0 <= k < list.len() - 1 ==> list[k + 1].ip == (#[trigger] list[k]).next_ip()
    &&& list.len() > 0 ==> list.last().next_ip() == ip.wrapping_add(offset as u64)
}

/// Whether `list` is what reading up to `count` instructions from `code`
/// gives, the first of them at the address `ip`.
///
/// Each instruction takes one to fifteen bytes and begins where the one
/// before it ends; together they are the bytes at the head of `code`. There
/// are `count` of them, unless `code` ends before: so there are `count` of
/// them wherever `code` holds fifteen bytes for each.
pub open spec fn is_disassembly(list: Seq<InstructionView>, code: Seq<u8>, ip: u64, count: nat)
    -> bool {
    &&& reads_head_of(list, code, ip, total_bytes(list))
    &&& list.len() <= count
    &&& list.len() == count || total_bytes(list) == code.len()
    &&& code.len() >= 15 * count ==> list.len() == count
}

proof fn lemma_read_one_more(
    list: Seq<InstructionView>,
    code: Seq<u8>,
    ip: u64,
    offset: nat,
    next: InstructionView,
)
    requires
        reads_head_of(list, code, ip, offset),
        next.ip == ip.wrapping_add(offset as u64),
        1 <= next.bytes.len() <= 15,
        offset + next.bytes.len() <= code.len(),
        next.bytes == code.subrange(offset as int, (offset + next.bytes.len()) as int),
    ensures
        reads_head_of(list.push(next), code, ip, offset + next.bytes.len()),
{
    let longer = list.push(next);
    let length = next.bytes.len();
    assert(longer.drop_last() =~= list);
    assert(longer.last() == next);
    assert(total_bytes(longer) == offset + length);
    let end = (offset + length) as int;
    assert(code.take(offset as int) + code.subrange(offset as int, end) =~= code.take(end));
    assert(joined_bytes(longer) == code.take(end));
    assert forall|k: int| 0 <= k < longer.len() implies 1 <= (#[trigger] longer[k]).bytes.len()
        <= 15 by {
        if k < list.len() {
            assert(longer[k] == list[k]);
        }
    }
    if list.len() > 0 {
        assert(longer[0] == list[0]);
        assert(longer[list.len() - 1] == list.last());
    }
    assert forall|k: int| 0 <= k < longer.len() - 1 implies longer[k + 1].ip == (
    #[trigger] longer[k]).next_ip() by {
        assert(longer[k] == list[k]);
        if k + 1 < list.len() {
            assert(longer[k + 1] == list[k + 1]);
        }
    }
    let start = ip.wrapping_add(offset as u64);
    assert(start.wrapping_add(length as u64) == ip.wrapping_add((offset + length) as u64));
}

/// Decodes the up to `line_count` instructions that lie one after another
/// in `code`, the first of them at the address `ip`.
pub fn decode_instructions(code: &[u8], ip: u64, line_count: usize) -> (list: Vec<Instruction>)
    ensures
        list.deep_view() == instructions(code@, ip, line_count as nat),
        is_disassembly(list.deep_view(), code@, ip, line_count as nat),
{
    let mut list: Vec<Instruction> = Vec::new();
    let mut offset: usize = 0;
    let mut address: u64 = ip;
    let ghost all = instructions(code@, ip, line_count as nat);
    assert(code@.skip(0) =~= code@);
    assert(list.deep_view() =~= Seq::<InstructionView>::empty());
    assert(list.deep_view() + all =~= all);
    assert(joined_bytes(list.deep_view()) =~= code@.take(0));
    let code_len = code.len();
    assert(reads_head_of(list.deep_view(), code@, ip, 0));
    while list.len() < line_count && offset < code_len
        invariant
            list.len() <= line_count,
            all == list.deep_view() + instructions(
                code@.skip(offset as int),
                address,
                (line_count - list.len()) as nat,
            ),
            code_len == code.len(),
            reads_head_of(list.deep_view(), code@, ip, offset as nat),
            address == ip.wrapping_add(offset as u64),
        decreases code_len - offset,
    {
        let rest = slice_subrange(code, offset, code_len);
        assert(rest@ =~= code@.skip(offset as int));
        let instruction = Instruction::decode(rest, address);
        let length = instruction.len();
        let ghost before = list.deep_view();
        let ghost view = instruction.deep_view();
        list.push(instruction);
        proof {
            assert(list.deep_view() =~= before.push(view));
            assert(rest@.skip(length as int) =~= code@.skip(offset + length));
            assert(before + (seq![view] + instructions(
                code@.skip(offset + length),
                address.wrapping_add(length as u64),
                (line_count - list.len()) as nat,
            )) =~= list.deep_view() + instructions(
                code@.skip(offset + length),
                address.wrapping_add(length as u64),
                (line_count - list.len()) as nat,
            ));
            assert(view.bytes =~= code@.subrange(offset as int, offset + length));
            lemma_read_one_more(before, code@, ip, offset as nat, view);
        }
        offset += length;
        address = address.wrapping_add(length as u64);
    }
    assert(list.deep_view() + Seq::<InstructionView>::empty() =~= list.deep_view());
    list
}

/// What disassembling `line_count` instructions of the code that was read
/// gives: a failure where no byte could be read.
pub open spec fn disassembly(read: Result<Seq<u8>, Error>, addr: u64, line_count: usize) -> Result<
    Seq<InstructionView>,
    Error,
> {
    match read {
        Err(e) => Err(e),
        Ok(code) => if code.len() == 0 {
            Err(Error::MemorySourceNotEnoughData)
        } else {
            Ok(instructions(code, addr, line_count as nat))
        },
    }
}

/// Disassembles the up to `line_count` instructions at `addr` in the
/// target's memory.
pub fn disassemble<M: MemorySource>(memory_source: &M, addr: u64, line_count: usize) -> (list:
    Result<Vec<Instruction>, Error>)
    ensures
        match disassembly(
            outcome(
                memory_source.failure(addr, byte_count(line_count, 15)),
                mapped_run(
                    memory_source.contents(),
                    addr as int,
                    byte_count(line_count, 15) as nat,
                ),
            ),
            addr,
            line_count,
        ) {
            Ok(found) => list matches Ok(v) && v.deep_view() == found && is_disassembly(
                found,
                mapped_run(
                    memory_source.contents(),
                    addr as int,
                    byte_count(line_count, 15) as nat,
                ),
                addr,
                line_count as nat,
            ),
            Err(e) => list matches Err(err) && err == e,
        },
{
    let max_bytes = match line_count.checked_mul(MAX_INSTRUCTION_LENGTH) {
        Some(bytes) => bytes,
        None => usize::MAX,
    };
    let bytes = match memory_source.read_raw_memory(addr, max_bytes) {
        Ok(bytes) => bytes,
        Err(e) => {
            return Err(e);
        },
    };
    if bytes.len() == 0 {
        return Err(Error::MemorySourceNotEnoughData);
    }
    Ok(decode_instructions(bytes.as_slice(), addr, line_count))
}

/// A disassembly holds no more instructions than were asked for.
pub proof fn law_disassembly_is_bounded(code: Seq<u8>, ip: u64, count: nat)
    ensures
        instructions(code, ip, count).len() <= count,
    decreases count,
{
    if count > 0 && code.len() > 0 {
        law_disassembly_is_bounded(
            code.skip(decoded_length(code, ip) as int),
            ip.wrapping_add(decoded_length(code, ip) as u64),
            (count - 1) as nat,
        );
    }
}

} // verus!
