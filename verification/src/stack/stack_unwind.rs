//! The unwind codes of a function: how its prologue changed the registers,
//! and so how to take those changes back.

use vstd::arithmetic::power2::lemma2_to64;
use vstd::prelude::*;

use crate::context::ThreadContext;
use crate::error::Error;
use crate::memory::data_read;
use crate::memory::MemorySource;
use crate::stack::high_bits;
use crate::stack::low_bits;
use crate::stack::split_fields;
use crate::stack::split_up;

verus! {

/// Push of a non-volatile register; the operation info is the register.
pub const UWOP_PUSH_NONVOL: u8 = 0;

/// A large stack allocation; its size is in the next one or two slots.
pub const UWOP_ALLOC_LARGE: u8 = 1;

/// A small stack allocation; the operation info is its size.
pub const UWOP_ALLOC_SMALL: u8 = 2;

/// The frame pointer was set from the stack pointer.
pub const UWOP_SET_FPREG: u8 = 3;

/// A non-volatile register was stored; the offset is in the next slot.
pub const UWOP_SAVE_NONVOL: u8 = 4;

/// A non-volatile register was stored; the offset is in the next two slots.
pub const UWOP_SAVE_NONVOL_FAR: u8 = 5;

/// A vector register was stored; the offset is in the next slot.
pub const UWOP_SAVE_XMM128: u8 = 8;

/// A vector register was stored; the offset is in the next two slots.
pub const UWOP_SAVE_XMM128_FAR: u8 = 9;

/// The general-purpose registers, in the order of their hardware numbers.
#[derive(Debug, Clone, Copy, PartialEq, Eq, Structural)]
pub enum Register {
    Rax,
    Rcx,
    Rdx,
    Rbx,
    Rsp,
    Rbp,
    Rsi,
    Rdi,
    R8,
    R9,
    R10,
    R11,
    R12,
    R13,
    R14,
    R15,
}

/// The register with hardware number `number`; there is none from 16 on.
pub open spec fn register_numbered(number: u8) -> Option<Register> {
    if number == 0 {
        Some(Register::Rax)
    } else if number == 1 {
        Some(Register::Rcx)
    } else if number == 2 {
        Some(Register::Rdx)
    } else if number == 3 {
        Some(Register::Rbx)
    } else if number == 4 {
        Some(Register::Rsp)
    } else if number == 5 {
        Some(Register::Rbp)
    } else if number == 6 {
        Some(Register::Rsi)
    } else if number == 7 {
        Some(Register::Rdi)
    } else if number == 8 {
        Some(Register::R8)
    } else if number == 9 {
        Some(Register::R9)
    } else if number == 10 {
        Some(Register::R10)
    } else if number == 11 {
        Some(Register::R11)
    } else if number == 12 {
        Some(Register::R12)
    } else if number == 13 {
        Some(Register::R13)
    } else if number == 14 {
        Some(Register::R14)
    } else if number == 15 {
        Some(Register::R15)
    } else {
        None
    }
}

impl Register {
    /// The hardware number of the register.
    pub open spec fn spec_number(self) -> u8 {
        match self {
            Register::Rax => 0,
            Register::Rcx => 1,
            Register::Rdx => 2,
            Register::Rbx => 3,
            Register::Rsp => 4,
            Register::Rbp => 5,
            Register::Rsi => 6,
            Register::Rdi => 7,
            Register::R8 => 8,
            Register::R9 => 9,
            Register::R10 => 10,
            Register::R11 => 11,
            Register::R12 => 12,
            Register::R13 => 13,
            Register::R14 => 14,
            Register::R15 => 15,
        }
    }

    /// The value that the register has in a snapshot.
    pub open spec fn spec_get(self, context: ThreadContext) -> u64 {
        match self {
            Register::Rax => context.rax,
            Register::Rcx => context.rcx,
            Register::Rdx => context.rdx,
            Register::Rbx => context.rbx,
            Register::Rsp => context.rsp,
            Register::Rbp => context.rbp,
            Register::Rsi => context.rsi,
            Register::Rdi => context.rdi,
            Register::R8 => context.r8,
            Register::R9 => context.r9,
            Register::R10 => context.r10,
            Register::R11 => context.r11,
            Register::R12 => context.r12,
            Register::R13 => context.r13,
            Register::R14 => context.r14,
            Register::R15 => context.r15,
        }
    }

    /// The snapshot in which the register has the value `value` and every
    /// other register is unchanged.
    pub open spec fn spec_set(self, context: ThreadContext, value: u64) -> ThreadContext {
        match self {
            Register::Rax => ThreadContext { rax: value, ..context },
            Register::Rcx => ThreadContext { rcx: value, ..context },
            Register::Rdx => ThreadContext { rdx: value, ..context },
            Register::Rbx => ThreadContext { rbx: value, ..context },
            Register::Rsp => ThreadContext { rsp: value, ..context },
            Register::Rbp => ThreadContext { rbp: value, ..context },
            Register::Rsi => ThreadContext { rsi: value, ..context },
            Register::Rdi => ThreadContext { rdi: value, ..context },
            Register::R8 => ThreadContext { r8: value, ..context },
            Register::R9 => ThreadContext { r9: value, ..context },
            Register::R10 => ThreadContext { r10: value, ..context },
            Register::R11 => ThreadContext { r11: value, ..context },
            Register::R12 => ThreadContext { r12: value, ..context },
            Register::R13 => ThreadContext { r13: value, ..context },
            Register::R14 => ThreadContext { r14: value, ..context },
            Register::R15 => ThreadContext { r15: value, ..context },
        }
    }

    #[verifier::when_used_as_spec(spec_number)]
    pub fn number(self) -> (number: u8)
        ensures
            number == self.spec_number(),
            number < 16,
            register_numbered(number) == Some(self),
    {
        match self {
            Register::Rax => 0,
            Register::Rcx => 1,
            Register::Rdx => 2,
            Register::Rbx => 3,
            Register::Rsp => 4,
            Register::Rbp => 5,
            Register::Rsi => 6,
            Register::Rdi => 7,
            Register::R8 => 8,
            Register::R9 => 9,
            Register::R10 => 10,
            Register::R11 => 11,
            Register::R12 => 12,
            Register::R13 => 13,
            Register::R14 => 14,
            Register::R15 => 15,
        }
    }

    /// A reference to the register's place in a snapshot.
    pub fn get_mut<'a>(&self, context: &'a mut ThreadContext) -> (place: &'a mut u64)
        ensures
            *place == self.spec_get(*old(context)),
            *final(context) == self.spec_set(*old(context), *final(place)),
    {
        match self {
            Register::Rax => &mut context.rax,
            Register::Rcx => &mut context.rcx,
            Register::Rdx => &mut context.rdx,
            Register::Rbx => &mut context.rbx,
            Register::Rsp => &mut context.rsp,
            Register::Rbp => &mut context.rbp,
            Register::Rsi => &mut context.rsi,
            Register::Rdi => &mut context.rdi,
            Register::R8 => &mut context.r8,
            Register::R9 => &mut context.r9,
            Register::R10 => &mut context.r10,
            Register::R11 => &mut context.r11,
            Register::R12 => &mut context.r12,
            Register::R13 => &mut context.r13,
            Register::R14 => &mut context.r14,
            Register::R15 => &mut context.r15,
        }
    }

    pub fn get(&self, context: ThreadContext) -> (value: u64)
        ensures
            value == self.spec_get(context),
    {
        match self {
            Register::Rax => context.rax,
            Register::Rcx => context.rcx,
            Register::Rdx => context.rdx,
            Register::Rbx => context.rbx,
            Register::Rsp => context.rsp,
            Register::Rbp => context.rbp,
            Register::Rsi => context.rsi,
            Register::Rdi => context.rdi,
            Register::R8 => context.r8,
            Register::R9 => context.r9,
            Register::R10 => context.r10,
            Register::R11 => context.r11,
            Register::R12 => context.r12,
            Register::R13 => context.r13,
            Register::R14 => context.r14,
            Register::R15 => context.r15,
        }
    }
}

impl TryFrom<u8> for Register {
    type Error = u8;

    fn try_from(value: u8) -> (register: Result<Register, u8>) {
        Ok(
            match value {
                0 => Register::Rax,
                1 => Register::Rcx,
                2 => Register::Rdx,
                3 => Register::Rbx,
                4 => Register::Rsp,
                5 => Register::Rbp,
                6 => Register::Rsi,
                7 => Register::Rdi,
                8 => Register::R8,
                9 => Register::R9,
                10 => Register::R10,
                11 => Register::R11,
                12 => Register::R12,
                13 => Register::R13,
                14 => Register::R14,
                15 => Register::R15,
                err => return Err(err),
            },
        )
    }
}

impl vstd::std_specs::convert::TryFromSpecImpl<u8> for Register {
    open spec fn obeys_try_from_spec() -> bool {
        true
    }

    /// The register with the given hardware number, or the number itself
    /// where no register has it.
    open spec fn try_from_spec(value: u8) -> Result<Register, u8> {
        match register_numbered(value) {
            Some(register) => Ok(register),
            None => Err(value),
        }
    }
}

/// What one unwind code stands for. The two encodings of an allocation, and
/// the near and far encodings of a store, are each one operation here.
#[derive(Debug, Clone, Copy, PartialEq, Eq, Structural)]
pub enum UnwindOp {
    PushNonVolatile { reg: Register },
    Alloc { size: u32 },
    SetFpreg { frame_register: Register, frame_offset: u16 },
    SaveNonVolatile { reg: Register, offset: u32 },
    SaveXmm128 { reg: Register, offset: u32 },
    PushMachFrame { error_code: bool },
}

/// One operation of a prologue, with the offset in the prologue at which it
/// has taken effect.
#[derive(Debug, Clone, Copy, PartialEq, Eq, Structural)]
pub struct UnwindCode {
    pub code_offset: u8,
    pub op: UnwindOp,
}

/// The registers after one operation of a prologue has been taken back:
/// what `UnwindCode::apply` gives.
///
/// An operation whose offset in the prologue lies behind the instruction
/// pointer has not taken effect and changes nothing. Register arithmetic is
/// modulo two to the sixty-fourth.
pub open spec fn operation_undone<M: MemorySource>(
    memory: &M,
    code: UnwindCode,
    context: ThreadContext,
    func_address: u64,
) -> Result<ThreadContext, Error> {
    if code.code_offset > context.rip.wrapping_sub(func_address) {
        Ok(context)
    } else {
        match code.op {
            UnwindOp::Alloc { size } => Ok(
                ThreadContext { rsp: context.rsp.wrapping_add(size as u64), ..context },
            ),
            UnwindOp::PushNonVolatile { reg } => match data_read::<M, u64>(memory, context.rsp) {
                Err(e) => Err(e),
                Ok(value) => {
                    let restored = reg.spec_set(context, value);
                    Ok(ThreadContext { rsp: restored.rsp.wrapping_add(8), ..restored })
                },
            },
            UnwindOp::SaveNonVolatile { reg, offset } => match data_read::<M, u64>(
                memory,
                context.rsp.wrapping_add(offset as u64),
            ) {
                Err(e) => Err(e),
                Ok(value) => Ok(reg.spec_set(context, value)),
            },
            UnwindOp::SetFpreg { frame_register, frame_offset } => Ok(
                ThreadContext {
                    rsp: frame_register.spec_get(context).wrapping_sub(frame_offset as u64),
                    ..context
                },
            ),
            UnwindOp::SaveXmm128 { reg, offset } => Ok(context),
            UnwindOp::PushMachFrame { error_code } => Err(
                Error::UnwindParse(UnwindCodeParseError::UnknownOp(10)),
            ),
        }
    }
}

impl UnwindCode {
    /// Takes one operation of a prologue back.
    ///
    /// Stores of vector registers are passed over, since the snapshot holds
    /// no vector registers. A machine-frame push cannot be taken back.
    pub fn apply<M: MemorySource>(
        &self,
        context: ThreadContext,
        func_address: u64,
        memory_source: &M,
    ) -> (undone: Result<ThreadContext, Error>)
        ensures
            undone == operation_undone(memory_source, *self, context, func_address),
    {
        let mut context = context;
        let func_offset = context.rip.wrapping_sub(func_address);
        if self.code_offset as u64 > func_offset {
            return Ok(context);
        }
        match self.op {
            UnwindOp::Alloc { size } => {
                context.rsp = context.rsp.wrapping_add(size as u64);
            },
            UnwindOp::PushNonVolatile { reg } => {
                let addr = context.rsp;
                let val = match memory_source.read_memory_data::<u64>(addr) {
                    Ok(value) => value,
                    Err(e) => {
                        return Err(e);
                    },
                };
                *reg.get_mut(&mut context) = val;
                context.rsp = context.rsp.wrapping_add(8);
            },
            UnwindOp::SaveNonVolatile { reg, offset } => {
                let addr = context.rsp.wrapping_add(offset as u64);
                let val = match memory_source.read_memory_data::<u64>(addr) {
                    Ok(value) => value,
                    Err(e) => {
                        return Err(e);
                    },
                };
                *reg.get_mut(&mut context) = val;
            },
            UnwindOp::SetFpreg { frame_register, frame_offset } => {
                context.rsp = frame_register.get(context).wrapping_sub(frame_offset as u64);
            },
            UnwindOp::SaveXmm128 { reg, offset } => {},
            UnwindOp::PushMachFrame { error_code } => {
                return Err(Error::UnwindParse(UnwindCodeParseError::UnknownOp(10)));
            },
        }
        Ok(context)
    }
}

/// Why a sequence of unwind code slots could not be read. Each variant holds
/// the operation code at which reading stopped, but for `InvalidRegister`,
/// which holds the register number.
#[derive(Debug, Clone, Copy, PartialEq, Eq, Structural)]
pub enum UnwindCodeParseError {
    IncompleteOp(u8),
    UnknownOp(u8),
    InvalidRegister(u8),
}

/// The prologue offset in the low eight bits of a slot.
pub open spec fn slot_code_offset(slot: u16) -> u8 {
    (slot % 256) as u8
}

/// The operation code in bits 8 to 11 of a slot.
pub open spec fn slot_op(slot: u16) -> u8 {
    ((slot / 256) % 16) as u8
}

/// The operation info in bits 12 to 15 of a slot.
pub open spec fn slot_info(slot: u16) -> u8 {
    (slot / 4096) as u8
}

/// How many slots follow the first slot of an operation, or `None` where the
/// operation code is not one that is read.
pub open spec fn extra_slots(op: u8, info: u8) -> Option<nat> {
    if op == UWOP_PUSH_NONVOL || op == UWOP_ALLOC_SMALL || op == UWOP_SET_FPREG {
        Some(0nat)
    } else if op == UWOP_ALLOC_LARGE && info == 0 {
        Some(1nat)
    } else if op == UWOP_ALLOC_LARGE && info == 1 {
        Some(2nat)
    } else if op == UWOP_SAVE_NONVOL || op == UWOP_SAVE_XMM128 {
        Some(1nat)
    } else if op == UWOP_SAVE_NONVOL_FAR || op == UWOP_SAVE_XMM128_FAR {
        Some(2nat)
    } else {
        None
    }
}

/// The thirty-two-bit number whose low half is `low` and whose high half is
/// `high`.
pub open spec fn wide_operand(low: u16, high: u16) -> u32 {
    (low + high * 65536) as u32
}

/// The operation that a first slot with the fields `op` and `info` stands
/// for, given the one or two slots after it and the frame register and offset
/// of the function's unwind information.
pub open spec fn logical_op(
    op: u8,
    info: u8,
    next: u16,
    after_next: u16,
    frame_register: u8,
    frame_offset: u16,
) -> Result<UnwindOp, UnwindCodeParseError>
    recommends
        info < 16,
        extra_slots(op, info) is Some,
{
    if op == UWOP_PUSH_NONVOL {
        Ok(UnwindOp::PushNonVolatile { reg: register_numbered(info)->0 })
    } else if op == UWOP_ALLOC_LARGE && info == 0 {
        Ok(UnwindOp::Alloc { size: (next * 8) as u32 })
    } else if op == UWOP_ALLOC_LARGE {
        Ok(UnwindOp::Alloc { size: wide_operand(next, after_next) })
    } else if op == UWOP_ALLOC_SMALL {
        Ok(UnwindOp::Alloc { size: (info * 8 + 8) as u32 })
    } else if op == UWOP_SET_FPREG {
        match register_numbered(frame_register) {
            Some(reg) => Ok(UnwindOp::SetFpreg { frame_register: reg, frame_offset }),
            None => Err(UnwindCodeParseError::InvalidRegister(frame_register)),
        }
    } else if op == UWOP_SAVE_NONVOL {
        Ok(UnwindOp::SaveNonVolatile { reg: register_numbered(info)->0, offset: next as u32 })
    } else if op == UWOP_SAVE_NONVOL_FAR {
        Ok(
            UnwindOp::SaveNonVolatile {
                reg: register_numbered(info)->0,
                offset: wide_operand(next, after_next),
            },
        )
    } else if op == UWOP_SAVE_XMM128 {
        Ok(UnwindOp::SaveXmm128 { reg: register_numbered(info)->0, offset: next as u32 })
    } else {
        Ok(
            UnwindOp::SaveXmm128 {
                reg: register_numbered(info)->0,
                offset: wide_operand(next, after_next),
            },
        )
    }
}

/// The operation at the head of `slots`.
///
/// An operation code that is not read gives `UnknownOp`; an operation whose
/// extra slots are not all there gives `IncompleteOp`; a frame register
/// number from 16 on gives `InvalidRegister` at the first operation that
/// sets the frame pointer.
pub open spec fn first_op(slots: Seq<u16>, frame_register: u8, frame_offset: u16) -> Result<
    UnwindCode,
    UnwindCodeParseError,
>
    recommends
        slots.len() > 0,
{
    let op = slot_op(slots[0]);
    let info = slot_info(slots[0]);
    match extra_slots(op, info) {
        None => Err(UnwindCodeParseError::UnknownOp(op)),
        Some(extra) => if extra >= slots.len() {
            Err(UnwindCodeParseError::IncompleteOp(op))
        } else {
            match logical_op(
                op,
                info,
                if extra >= 1 {
                    slots[1]
                } else {
                    0
                },
                if extra >= 2 {
                    slots[2]
                } else {
                    0
                },
                frame_register,
                frame_offset,
            ) {
                Ok(logical) => Ok(
                    UnwindCode { code_offset: slot_code_offset(slots[0]), op: logical },
                ),
                Err(e) => Err(e),
            }
        },
    }
}

/// The number of slots that the operation at the head of `slots` takes up.
pub open spec fn first_op_slots(slots: Seq<u16>) -> nat
    recommends
        slots.len() > 0,
{
    match extra_slots(slot_op(slots[0]), slot_info(slots[0])) {
        Some(extra) => 1 + extra,
        None => 1,
    }
}

/// `codes` followed by what `rest` holds, or the failure of `rest`.
pub open spec fn prepend(
    codes: Seq<UnwindCode>,
    rest: Result<Seq<UnwindCode>, UnwindCodeParseError>,
) -> Result<Seq<UnwindCode>, UnwindCodeParseError> {
    match rest {
        Ok(more) => Ok(codes + more),
        Err(e) => Err(e),
    }
}

/// The operations that a sequence of slots stands for, in the order of the
/// slots, or the first failure met while reading them.
pub open spec fn parsed_ops(slots: Seq<u16>, frame_register: u8, frame_offset: u16) -> Result<
    Seq<UnwindCode>,
    UnwindCodeParseError,
>
    decreases slots.len(),
{
    if slots.len() == 0 {
        Ok(Seq::empty())
    } else {
        match first_op(slots, frame_register, frame_offset) {
            Err(e) => Err(e),
            Ok(code) => if first_op_slots(slots) <= slots.len() {
                prepend(
                    seq![code],
                    parsed_ops(
                        slots.skip(first_op_slots(slots) as int),
                        frame_register,
                        frame_offset,
                    ),
                )
            } else {
                Err(UnwindCodeParseError::IncompleteOp(slot_op(slots[0])))
            },
        }
    }
}

proof fn lemma_slot_fields(slot: u16)
    ensures
        split_fields(slot as nat, seq![8u32, 4u32, 4u32]) == seq![
            slot_code_offset(slot) as nat,
            slot_op(slot) as nat,
            slot_info(slot) as nat,
        ],
{
    lemma2_to64();
    let lengths = seq![8u32, 4u32, 4u32];
    let l1 = lengths.drop_first();
    let l2 = l1.drop_first();
    let l3 = l2.drop_first();
    assert(l1 =~= seq![4u32, 4u32]);
    assert(l2 =~= seq![4u32]);
    assert(l3 =~= Seq::<u32>::empty());
    let v0 = slot as nat;
    let v1 = high_bits(v0, 8);
    let v2 = high_bits(v1, 4);
    let v3 = high_bits(v2, 4);
    assert(split_fields(v3, l3) =~= Seq::<nat>::empty());
    assert(split_fields(v2, l2) =~= seq![low_bits(v2, 4)]);
    assert(split_fields(v1, l1) =~= seq![low_bits(v1, 4), low_bits(v2, 4)]);
    assert(split_fields(v0, lengths) =~= seq![low_bits(v0, 8), low_bits(v1, 4), low_bits(v2, 4)]);
    assert(v1 == slot / 256);
    assert(v2 == slot / 4096);
    assert(low_bits(v2, 4) == slot / 4096);
}

/// Reads the unwind codes of a function.
///
/// `frame_register` and `frame_offset` come from the head of the function's
/// unwind information and are what an operation that sets the frame pointer
/// refers to.
pub fn parse_unwind_ops(code_slots: &[u16], frame_register: u8, frame_offset: u16) -> (result:
    Result<Vec<UnwindCode>, UnwindCodeParseError>)
    ensures
        match parsed_ops(code_slots@, frame_register, frame_offset) {
            Ok(codes) => result matches Ok(ops) && ops@ == codes,
            Err(e) => result == Err::<Vec<UnwindCode>, UnwindCodeParseError>(e),
        },
{
    let mut ops = Vec::<UnwindCode>::new();
    let mut i: usize = 0;
    assert(code_slots@.skip(0) =~= code_slots@);
    while i < code_slots.len()
        invariant
            0 <= i <= code_slots.len(),
            parsed_ops(code_slots@, frame_register, frame_offset) == prepend(
                ops@,
                parsed_ops(code_slots@.skip(i as int), frame_register, frame_offset),
            ),
        decreases code_slots.len() - i,
    {
        let ghost rest = code_slots@.skip(i as int);
        let lengths: [u32; 3] = [8, 4, 4];
        let slot = code_slots[i];
        let fields = split_up(slot, lengths.as_slice());
        proof {
            assert(lengths@ =~= seq![8u32, 4u32, 4u32]);
            lemma_slot_fields(slot);
            assert(fields@.len() == fields@.map_values(|f: u16| f as nat).len());
            assert(fields@[0] as nat == fields@.map_values(|f: u16| f as nat)[0]);
            assert(fields@[1] as nat == fields@.map_values(|f: u16| f as nat)[1]);
            assert(fields@[2] as nat == fields@.map_values(|f: u16| f as nat)[2]);
            assert(rest[0] == slot);
        }
        let code_offset = fields[0] as u8;
        let unwind_op = fields[1] as u8;
        let op_info = fields[2] as u8;
        let remaining = code_slots.len() - i;
        let extra: usize = if unwind_op == UWOP_PUSH_NONVOL || unwind_op == UWOP_ALLOC_SMALL
            || unwind_op == UWOP_SET_FPREG {
            0
        } else if unwind_op == UWOP_ALLOC_LARGE && op_info == 0 {
            1
        } else if unwind_op == UWOP_ALLOC_LARGE && op_info == 1 {
            2
        } else if unwind_op == UWOP_SAVE_NONVOL || unwind_op == UWOP_SAVE_XMM128 {
            1
        } else if unwind_op == UWOP_SAVE_NONVOL_FAR || unwind_op == UWOP_SAVE_XMM128_FAR {
            2
        } else {
            return Err(UnwindCodeParseError::UnknownOp(unwind_op));
        };
        if extra >= remaining {
            return Err(UnwindCodeParseError::IncompleteOp(unwind_op));
        }
        let next: u16 = if extra >= 1 {
            code_slots[i + 1]
        } else {
            0
        };
        let after_next: u16 = if extra >= 2 {
            code_slots[i + 2]
        } else {
            0
        };
        proof {
            if extra >= 1 {
                assert(rest[1] == next);
            }
            if extra >= 2 {
                assert(rest[2] == after_next);
            }
        }
        let op = if unwind_op == UWOP_PUSH_NONVOL {
            UnwindOp::PushNonVolatile { reg: register_of_info(op_info) }
        } else if unwind_op == UWOP_ALLOC_LARGE && op_info == 0 {
            UnwindOp::Alloc { size: (next as u32) * 8 }
        } else if unwind_op == UWOP_ALLOC_LARGE {
            UnwindOp::Alloc { size: next as u32 + (after_next as u32) * 65536 }
        } else if unwind_op == UWOP_ALLOC_SMALL {
            UnwindOp::Alloc { size: (op_info as u32) * 8 + 8 }
        } else if unwind_op == UWOP_SET_FPREG {
            match Register::try_from(frame_register) {
                Ok(reg) => UnwindOp::SetFpreg { frame_register: reg, frame_offset },
                Err(number) => {
                    return Err(UnwindCodeParseError::InvalidRegister(number));
                },
            }
        } else if unwind_op == UWOP_SAVE_NONVOL {
            UnwindOp::SaveNonVolatile { reg: register_of_info(op_info), offset: next as u32 }
        } else if unwind_op == UWOP_SAVE_NONVOL_FAR {
            UnwindOp::SaveNonVolatile {
                reg: register_of_info(op_info),
                offset: next as u32 + (after_next as u32) * 65536,
            }
        } else if unwind_op == UWOP_SAVE_XMM128 {
            UnwindOp::SaveXmm128 { reg: register_of_info(op_info), offset: next as u32 }
        } else {
            UnwindOp::SaveXmm128 {
                reg: register_of_info(op_info),
                offset: next as u32 + (after_next as u32) * 65536,
            }
        };
        let code = UnwindCode { code_offset, op };
        proof {
            assert(first_op(rest, frame_register, frame_offset) == Ok::<
                UnwindCode,
                UnwindCodeParseError,
            >(code));
            assert(first_op_slots(rest) == 1 + extra);
            assert(rest.skip(1 + extra) =~= code_slots@.skip(i + 1 + extra));
            let tail = parsed_ops(code_slots@.skip(i + 1 + extra), frame_register, frame_offset);
            assert(parsed_ops(rest, frame_register, frame_offset) == prepend(seq![code], tail));
            if let Ok(more) = tail {
                assert(ops@ + (seq![code] + more) =~= ops@.push(code) + more);
            }
        }
        ops.push(code);
        i += 1 + extra;
    }
    assert(ops@ + Seq::<UnwindCode>::empty() =~= ops@);
    Ok(ops)
}

/// The register that a four-bit operation info names.
fn register_of_info(info: u8) -> (reg: Register)
    requires
        info < 16,
    ensures
        Some(reg) == register_numbered(info),
{
    match Register::try_from(info) {
        Ok(reg) => reg,
        Err(_) => Register::Rax,
    }
}

/// The first slot of an operation: the prologue offset in the low byte, the
/// operation code and the operation info in the two halves of the high byte.
pub open spec fn first_slot(code_offset: u8, op: u8, info: u8) -> u16
    recommends
        op < 16,
        info < 16,
{
    (code_offset + 256 * op + 4096 * info) as u16
}

/// The slots that stand for one operation, in the shortest encoding that
/// holds its operand.
pub open spec fn encoded_op(code: UnwindCode) -> Seq<u16> {
    match code.op {
        UnwindOp::PushNonVolatile { reg } => seq![
            first_slot(code.code_offset, UWOP_PUSH_NONVOL, reg.spec_number()),
        ],
        UnwindOp::Alloc { size } => if size % 8 == 0 && 8 <= size <= 128 {
            seq![first_slot(code.code_offset, UWOP_ALLOC_SMALL, (size / 8 - 1) as u8)]
        } else if size % 8 == 0 && size / 8 <= 0xffff {
            seq![first_slot(code.code_offset, UWOP_ALLOC_LARGE, 0), (size / 8) as u16]
        } else {
            seq![
                first_slot(code.code_offset, UWOP_ALLOC_LARGE, 1),
                (size % 65536) as u16,
                (size / 65536) as u16,
            ]
        },
        UnwindOp::SetFpreg { frame_register, frame_offset } => seq![
            first_slot(code.code_offset, UWOP_SET_FPREG, 0),
        ],
        UnwindOp::SaveNonVolatile { reg, offset } => if offset <= 0xffff {
            seq![
                first_slot(code.code_offset, UWOP_SAVE_NONVOL, reg.spec_number()),
                offset as u16,
            ]
        } else {
            seq![
                first_slot(code.code_offset, UWOP_SAVE_NONVOL_FAR, reg.spec_number()),
                (offset % 65536) as u16,
                (offset / 65536) as u16,
            ]
        },
        UnwindOp::SaveXmm128 { reg, offset } => if offset <= 0xffff {
            seq![
                first_slot(code.code_offset, UWOP_SAVE_XMM128, reg.spec_number()),
                offset as u16,
            ]
        } else {
            seq![
                first_slot(code.code_offset, UWOP_SAVE_XMM128_FAR, reg.spec_number()),
                (offset % 65536) as u16,
                (offset / 65536) as u16,
            ]
        },
        UnwindOp::PushMachFrame { error_code } => seq![
            first_slot(
                code.code_offset,
                10,
                if error_code {
                    1
                } else {
                    0
                },
            ),
        ],
    }
}

/// The slots that stand for a sequence of operations.
pub open spec fn encoded_ops(codes: Seq<UnwindCode>) -> Seq<u16>
    decreases codes.len(),
{
    if codes.len() == 0 {
        Seq::empty()
    } else {
        encoded_op(codes[0]) + encoded_ops(codes.drop_first())
    }
}

/// Whether reading can give this operation back: a machine-frame push is not
/// read, and an operation that sets the frame pointer is read with the frame
/// register and offset of the unwind information, whatever it held before.
pub open spec fn readable(code: UnwindCode, frame_register: u8, frame_offset: u16) -> bool {
    match code.op {
        UnwindOp::PushMachFrame { error_code } => false,
        UnwindOp::SetFpreg { frame_register: reg, frame_offset: offset } => register_numbered(
            frame_register,
        ) == Some(reg) && offset == frame_offset,
        _ => true,
    }
}

proof fn lemma_first_slot(code_offset: u8, op: u8, info: u8)
    requires
        op < 16,
        info < 16,
    ensures
        slot_code_offset(first_slot(code_offset, op, info)) == code_offset,
        slot_op(first_slot(code_offset, op, info)) == op,
        slot_info(first_slot(code_offset, op, info)) == info,
{
}

proof fn lemma_register_number(reg: Register)
    ensures
        reg.spec_number() < 16,
        register_numbered(reg.spec_number()) == Some(reg),
{
}

proof fn lemma_read_encoded_op(
    code: UnwindCode,
    rest: Seq<u16>,
    frame_register: u8,
    frame_offset: u16,
)
    requires
        readable(code, frame_register, frame_offset),
    ensures
        first_op(encoded_op(code) + rest, frame_register, frame_offset) == Ok::<
            UnwindCode,
            UnwindCodeParseError,
        >(code),
        first_op_slots(encoded_op(code) + rest) == encoded_op(code).len(),
        1 <= encoded_op(code).len() <= 3,
{
    let enc = encoded_op(code);
    let all = enc + rest;
    assert(all[0] == enc[0]);
    if enc.len() >= 2 {
        assert(all[1] == enc[1]);
    }
    if enc.len() >= 3 {
        assert(all[2] == enc[2]);
    }
    match code.op {
        UnwindOp::PushNonVolatile { reg } => {
            lemma_register_number(reg);
            lemma_first_slot(code.code_offset, UWOP_PUSH_NONVOL, reg.spec_number());
        },
        UnwindOp::Alloc { size } => {
            if size % 8 == 0 && 8 <= size <= 128 {
                lemma_first_slot(code.code_offset, UWOP_ALLOC_SMALL, (size / 8 - 1) as u8);
            } else if size % 8 == 0 && size / 8 <= 0xffff {
                lemma_first_slot(code.code_offset, UWOP_ALLOC_LARGE, 0);
            } else {
                lemma_first_slot(code.code_offset, UWOP_ALLOC_LARGE, 1);
            }
        },
        UnwindOp::SetFpreg { frame_register: reg, frame_offset: offset } => {
            lemma_first_slot(code.code_offset, UWOP_SET_FPREG, 0);
        },
        UnwindOp::SaveNonVolatile { reg, offset } => {
            lemma_register_number(reg);
            if offset <= 0xffff {
                lemma_first_slot(code.code_offset, UWOP_SAVE_NONVOL, reg.spec_number());
            } else {
                lemma_first_slot(code.code_offset, UWOP_SAVE_NONVOL_FAR, reg.spec_number());
            }
        },
        UnwindOp::SaveXmm128 { reg, offset } => {
            lemma_register_number(reg);
            if offset <= 0xffff {
                lemma_first_slot(code.code_offset, UWOP_SAVE_XMM128, reg.spec_number());
            } else {
                lemma_first_slot(code.code_offset, UWOP_SAVE_XMM128_FAR, reg.spec_number());
            }
        },
        UnwindOp::PushMachFrame { error_code } => {},
    }
}

/// Writing a sequence of operations as slots and reading the slots gives the
/// sequence back, for every sequence that holds readable operations only.
pub proof fn law_read_encoded_ops(codes: Seq<UnwindCode>, frame_register: u8, frame_offset: u16)
    requires
        forall|k: int|
            0 <= k < codes.len() ==> readable(#[trigger] codes[k], frame_register, frame_offset),
    ensures
        parsed_ops(encoded_ops(codes), frame_register, frame_offset) == Ok::<
            Seq<UnwindCode>,
            UnwindCodeParseError,
        >(codes),
    decreases codes.len(),
{
    if codes.len() > 0 {
        let head = codes[0];
        let tail = codes.drop_first();
        let rest = encoded_ops(tail);
        let all = encoded_ops(codes);
        assert(forall|k: int| 0 <= k < tail.len() ==> tail[k] == codes[k + 1]);
        law_read_encoded_ops(tail, frame_register, frame_offset);
        lemma_read_encoded_op(head, rest, frame_register, frame_offset);
        assert(all == encoded_op(head) + rest);
        assert(all.skip(encoded_op(head).len() as int) =~= rest);
        assert(seq![head] + tail =~= codes);
        assert(parsed_ops(all, frame_register, frame_offset) == prepend(
            seq![head],
            parsed_ops(rest, frame_register, frame_offset),
        ));
    } else {
        assert(codes =~= Seq::empty());
    }
}

/// A machine-frame push is written as an operation code that is not read.
pub proof fn law_machine_frame_is_not_read(
    code: UnwindCode,
    rest: Seq<u16>,
    frame_register: u8,
    frame_offset: u16,
)
    requires
        code.op is PushMachFrame,
    ensures
        parsed_ops(encoded_op(code) + rest, frame_register, frame_offset) == Err::<
            Seq<UnwindCode>,
            UnwindCodeParseError,
        >(UnwindCodeParseError::UnknownOp(10)),
{
    let all = encoded_op(code) + rest;
    assert(all[0] == encoded_op(code)[0]);
    let info: u8 = if code.op->error_code {
        1
    } else {
        0
    };
    lemma_first_slot(code.code_offset, 10, info);
}

} // verus!
