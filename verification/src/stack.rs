//! Walking the call stack of a stopped thread.

use vstd::arithmetic::div_mod::lemma_mod_breakdown;
use vstd::arithmetic::div_mod::lemma_small_mod;
use vstd::arithmetic::power2::lemma_pow2_adds;
use vstd::arithmetic::power2::lemma_pow2_pos;
use vstd::arithmetic::power2::lemma_pow2_strictly_increases;
use vstd::arithmetic::power2::lemma2_to64;
use vstd::arithmetic::power2::pow2;
use vstd::bits::lemma_u16_low_bits_mask_is_mod;
use vstd::bits::lemma_u16_shl_is_mul;
use vstd::bits::lemma_u16_shr_is_div;
use vstd::bits::low_bits_mask;
use vstd::prelude::*;

use crate::context::ThreadContext;
use crate::error::Error;
use crate::memory::array_read;
use crate::memory::data_read;
use crate::memory::full_array_read;
use crate::memory::MemorySource;
use crate::pe::UNW_FLAG_CHAININFO;
use crate::processes::data_directory;
use crate::processes::DirectoryEntry;
use crate::processes::Process;
use crate::processes::ProcessView;
use crate::search::first_true;
use crate::search::lemma_first_from;
use crate::stack::ffi::RUNTIME_FUNCTION;
use crate::stack::ffi::UNWIND_INFO;
use crate::stack::stack_unwind::operation_undone;
use crate::stack::stack_unwind::parse_unwind_ops;
use crate::stack::stack_unwind::parsed_ops;
use crate::stack::stack_unwind::UnwindCode;

pub mod ffi;
pub mod stack_unwind;

verus! {

/// The lowest `len` bits of `value`.
pub open spec fn low_bits(value: nat, len: nat) -> nat {
    value % pow2(len)
}

/// What is left of `value` above its lowest `len` bits.
pub open spec fn high_bits(value: nat, len: nat) -> nat {
    value / pow2(len)
}

/// The bit fields of `value`, lowest field first: field `k` is as wide as
/// `lengths[k]` says and starts where field `k - 1` ended.
pub open spec fn split_fields(value: nat, lengths: Seq<u32>) -> Seq<nat>
    decreases lengths.len(),
{
    if lengths.len() == 0 {
        Seq::empty()
    } else {
        seq![low_bits(value, lengths[0] as nat)] + split_fields(
            high_bits(value, lengths[0] as nat),
            lengths.drop_first(),
        )
    }
}

/// The value whose bit fields are `fields`: each field shifted left past the
/// fields below it.
pub open spec fn recompose(fields: Seq<nat>, lengths: Seq<u32>) -> nat
    decreases lengths.len(),
{
    if lengths.len() == 0 || fields.len() == 0 {
        0
    } else {
        fields[0] + pow2(lengths[0] as nat) * recompose(
            fields.drop_first(),
            lengths.drop_first(),
        )
    }
}

/// The sum of the field widths.
pub open spec fn total_length(lengths: Seq<u32>) -> nat
    decreases lengths.len(),
{
    if lengths.len() == 0 {
        0
    } else {
        lengths[0] as nat + total_length(lengths.drop_first())
    }
}

/// Splits a packed value into its bit fields, lowest field first.
pub fn split_up(value: u16, lengths: &[u32]) -> (fields: Vec<u16>)
    ensures
        fields@.map_values(|f: u16| f as nat) == split_fields(value as nat, lengths@),
{
    let mut fields: Vec<u16> = Vec::new();
    let mut rest: u16 = value;
    let mut k: usize = 0;
    assert(lengths@.skip(0) =~= lengths@);
    assert(fields@.map_values(|f: u16| f as nat) =~= Seq::<nat>::empty());
    while k < lengths.len()
        invariant
            0 <= k <= lengths.len(),
            split_fields(value as nat, lengths@) == fields@.map_values(|f: u16| f as nat)
                + split_fields(rest as nat, lengths@.skip(k as int)),
        decreases lengths.len() - k,
    {
        let len = lengths[k];
        let ghost tail = lengths@.skip(k as int);
        assert(tail[0] == len);
        assert(tail.drop_first() =~= lengths@.skip(k + 1));
        let field: u16;
        let next: u16;
        if len >= 16 {
            proof {
                lemma2_to64();
                if len > 16 {
                    lemma_pow2_strictly_increases(16, len as nat);
                }
                lemma_small_mod(rest as nat, pow2(len as nat));
                vstd::arithmetic::div_mod::lemma_basic_div(rest as int, pow2(len as nat) as int);
            }
            field = rest;
            next = 0;
        } else {
            proof {
                lemma_low_mask(len);
                lemma_u16_low_bits_mask_is_mod(rest, len as nat);
                lemma_u16_shr_is_div(rest, len as u16);
            }
            field = rest & ((1u16 << len) - 1);
            next = rest >> len;
        }
        let ghost before = fields@;
        fields.push(field);
        assert(fields@.map_values(|f: u16| f as nat) =~= before.map_values(|f: u16| f as nat)
            + seq![field as nat]);
        assert(before.map_values(|f: u16| f as nat) + (seq![field as nat] + split_fields(
            next as nat,
            lengths@.skip(k + 1),
        )) =~= fields@.map_values(|f: u16| f as nat) + split_fields(
            next as nat,
            lengths@.skip(k + 1),
        ));
        rest = next;
        k += 1;
    }
    assert(split_fields(rest as nat, lengths@.skip(k as int)) =~= Seq::<nat>::empty());
    assert(fields@.map_values(|f: u16| f as nat) + Seq::<nat>::empty() =~= fields@.map_values(
        |f: u16| f as nat,
    ));
    fields
}

proof fn lemma_low_mask(len: u32)
    requires
        len < 16,
    ensures
        1u16 << len == pow2(len as nat),
        ((1u16 << len) - 1) as u16 == low_bits_mask(len as nat),
        0 < pow2(len as nat) <= 0x8000,
{
    lemma2_to64();
    if len < 15 {
        lemma_pow2_strictly_increases(len as nat, 15);
    }
    lemma_pow2_pos(len as nat);
    lemma_u16_shl_is_mul(1u16, len as u16);
    assert(1u16 << len == 1u16 << (len as u16)) by (bit_vector)
        requires
            len < 16,
    ;
}

/// Splitting a value into fields and putting the fields back together gives
/// the bits of the value that the fields cover.
pub proof fn lemma_recompose_split(value: nat, lengths: Seq<u32>)
    ensures
        recompose(split_fields(value, lengths), lengths) == value % pow2(total_length(lengths)),
    decreases lengths.len(),
{
    lemma2_to64();
    if lengths.len() == 0 {
        assert(value % 1 == 0);
    } else {
        let l = lengths[0] as nat;
        let tail = lengths.drop_first();
        let t = total_length(tail);
        let fields = split_fields(value, lengths);
        let rest = split_fields(high_bits(value, l), tail);
        assert(fields.drop_first() =~= rest);
        assert(fields[0] == low_bits(value, l));
        lemma_recompose_split(high_bits(value, l), tail);
        lemma_pow2_pos(l);
        lemma_pow2_pos(t);
        lemma_pow2_adds(l, t);
        lemma_mod_breakdown(value as int, pow2(l) as int, pow2(t) as int);
        assert(recompose(fields, lengths) == low_bits(value, l) + pow2(l) * recompose(rest, tail));
        assert(recompose(rest, tail) == high_bits(value, l) % pow2(t));
        assert(total_length(lengths) == l + t);
    }
}

/// A sixteen-bit value that is split into fields whose widths add up to
/// sixteen is recovered by shifting each field back to its place.
pub proof fn law_split_then_recompose(value: u16, lengths: Seq<u32>)
    requires
        total_length(lengths) == 16,
    ensures
        recompose(split_fields(value as nat, lengths), lengths) == value,
{
    lemma_recompose_split(value as nat, lengths);
    lemma2_to64();
    lemma_small_mod(value as nat, pow2(16));
}

/// Where a bisection of `list` between `low` and `high` ends: in a table
/// that is in the order of its begin addresses, at the first entry that does
/// not begin before `addr`.
pub open spec fn bisection(list: Seq<RUNTIME_FUNCTION>, addr: u32, low: int, high: int) -> int
    decreases high - low,
{
    if low >= high {
        low
    } else {
        let middle = low + (high - low) / 2;
        if list[middle].BeginAddress < addr {
            bisection(list, addr, middle + 1, high)
        } else {
            bisection(list, addr, low, middle)
        }
    }
}

/// Whether a function's code range holds `addr`.
pub open spec fn covers(function: RUNTIME_FUNCTION, addr: u32) -> bool {
    function.BeginAddress <= addr < function.EndAddress
}

/// The index of the entry of a function table to which `addr` belongs: an
/// entry whose range holds `addr`. The entry at which the bisection ends
/// is taken where it begins at `addr`; else the entry before it, and else
/// that entry itself. An entry whose range does not hold `addr` is never
/// taken, not even one that begins at `addr`.
pub open spec fn runtime_function_index(addr: u32, list: Seq<RUNTIME_FUNCTION>) -> Option<int> {
    let pos = bisection(list, addr, 0, list.len() as int);
    if 0 <= pos < list.len() && list[pos].BeginAddress == addr && covers(list[pos], addr) {
        Some(pos)
    } else if 0 < pos <= list.len() && covers(list[pos - 1], addr) {
        Some(pos - 1)
    } else if 0 <= pos < list.len() && covers(list[pos], addr) {
        Some(pos)
    } else {
        None
    }
}

/// The entry of a function table to which `addr` belongs.
pub open spec fn runtime_function(addr: u32, list: Seq<RUNTIME_FUNCTION>) -> Option<
    RUNTIME_FUNCTION,
> {
    match runtime_function_index(addr, list) {
        Some(index) => Some(list[index]),
        None => None,
    }
}

/// Whether a function table is in the order of its begin addresses.
pub open spec fn sorted_by_begin(list: Seq<RUNTIME_FUNCTION>) -> bool {
    forall|i: int, j: int|
        0 <= i < j < list.len() ==> (#[trigger] list[i]).BeginAddress <= (
        #[trigger] list[j]).BeginAddress
}

/// Whether a function table is as the linker writes it: each function ends
/// behind its begin, and at or before the begin of the next one.
pub open spec fn well_formed_table(list: Seq<RUNTIME_FUNCTION>) -> bool {
    &&& forall|i: int|
        0 <= i < list.len() ==> (#[trigger] list[i]).BeginAddress < list[i].EndAddress
    &&& forall|i: int|
        0 <= i < list.len() - 1 ==> (#[trigger] list[i]).EndAddress <= list[i + 1].BeginAddress
}

proof fn lemma_well_formed_is_sorted(list: Seq<RUNTIME_FUNCTION>, i: int, j: int)
    requires
        well_formed_table(list),
        0 <= i < j < list.len(),
    ensures
        list[i].EndAddress <= list[j].BeginAddress,
        list[i].BeginAddress < list[j].BeginAddress,
    decreases j - i,
{
    if i + 1 < j {
        lemma_well_formed_is_sorted(list, i, j - 1);
        assert(list[j - 1].EndAddress <= list[j].BeginAddress);
        assert(list[j - 1].BeginAddress < list[j - 1].EndAddress);
    } else {
        assert(list[i].EndAddress <= list[i + 1].BeginAddress);
        assert(list[i].BeginAddress < list[i].EndAddress);
    }
}

proof fn lemma_bisection_bounds(list: Seq<RUNTIME_FUNCTION>, addr: u32, low: int, high: int)
    requires
        0 <= low <= high <= list.len(),
    ensures
        low <= bisection(list, addr, low, high) <= high,
    decreases high - low,
{
    if low < high {
        let middle = low + (high - low) / 2;
        if list[middle].BeginAddress < addr {
            lemma_bisection_bounds(list, addr, middle + 1, high);
        } else {
            lemma_bisection_bounds(list, addr, low, middle);
        }
    }
}

proof fn lemma_bisection_sorted(list: Seq<RUNTIME_FUNCTION>, addr: u32, low: int, high: int)
    requires
        0 <= low <= high <= list.len(),
        sorted_by_begin(list),
        forall|i: int| 0 <= i < low ==> (#[trigger] list[i]).BeginAddress < addr,
        forall|i: int| high <= i < list.len() ==> (#[trigger] list[i]).BeginAddress >= addr,
    ensures
        forall|i: int|
            0 <= i < bisection(list, addr, low, high) ==> (#[trigger] list[i]).BeginAddress
                < addr,
        forall|i: int|
            bisection(list, addr, low, high) <= i < list.len() ==> (
            #[trigger] list[i]).BeginAddress >= addr,
    decreases high - low,
{
    if low < high {
        let middle = low + (high - low) / 2;
        if list[middle].BeginAddress < addr {
            assert forall|i: int| 0 <= i < middle + 1 implies (#[trigger] list[i]).BeginAddress
                < addr by {
                if i < middle {
                    assert(list[i].BeginAddress <= list[middle].BeginAddress);
                }
            }
            lemma_bisection_sorted(list, addr, middle + 1, high);
        } else {
            assert forall|i: int| middle <= i < list.len() implies (
            #[trigger] list[i]).BeginAddress >= addr by {
                if i > middle {
                    assert(list[middle].BeginAddress <= list[i].BeginAddress);
                }
            }
            lemma_bisection_sorted(list, addr, low, middle);
        }
    }
}

/// Finds the function to which a code address belongs, in a function table
/// that is in the order of its begin addresses. The address is relative to
/// the module's base, as the table's entries are.
pub fn find_runtime_function(addr: u32, function_list: &[RUNTIME_FUNCTION]) -> (function: Option<
    &RUNTIME_FUNCTION,
>)
    ensures
        match runtime_function(addr, function_list@) {
            Some(found) => function matches Some(entry) && *entry == found,
            None => function is None,
        },
{
    let mut low: usize = 0;
    let mut high: usize = function_list.len();
    while low < high
        invariant
            low <= high <= function_list.len(),
            bisection(function_list@, addr, 0, function_list.len() as int) == bisection(
                function_list@,
                addr,
                low as int,
                high as int,
            ),
        decreases high - low,
    {
        let middle = low + (high - low) / 2;
        if function_list[middle].BeginAddress < addr {
            low = middle + 1;
        } else {
            high = middle;
        }
    }
    let pos = low;
    if pos < function_list.len() && function_list[pos].BeginAddress == addr && addr
        < function_list[pos].EndAddress {
        // Exact match
        Some(&function_list[pos])
    } else if pos > 0 && function_list[pos - 1].BeginAddress <= addr && addr
        < function_list[pos - 1].EndAddress {
        Some(&function_list[pos - 1])
    } else if pos < function_list.len() && function_list[pos].BeginAddress <= addr && addr
        < function_list[pos].EndAddress {
        Some(&function_list[pos])
    } else {
        None
    }
}

/// A function that is found holds the address.
pub proof fn law_found_function_fits(addr: u32, list: Seq<RUNTIME_FUNCTION>)
    ensures
        match runtime_function_index(addr, list) {
            Some(index) => 0 <= index < list.len() && covers(list[index], addr),
            None => true,
        },
        runtime_function(addr, list) matches Some(found) ==> covers(found, addr),
{
}

/// Where no function of the table holds the address, none is found.
pub proof fn law_uncovered_address_has_no_function(addr: u32, list: Seq<RUNTIME_FUNCTION>)
    requires
        forall|i: int| 0 <= i < list.len() ==> !covers(#[trigger] list[i], addr),
    ensures
        runtime_function(addr, list) is None,
{
    lemma_bisection_bounds(list, addr, 0, list.len() as int);
}

/// In a well-formed function table, an address is found in the function
/// that holds it.
pub proof fn law_covering_function_is_found(addr: u32, list: Seq<RUNTIME_FUNCTION>, index: int)
    requires
        well_formed_table(list),
        0 <= index < list.len(),
        covers(list[index], addr),
    ensures
        runtime_function_index(addr, list) == Some(index),
        runtime_function(addr, list) == Some(list[index]),
{
    assert(sorted_by_begin(list)) by {
        assert forall|i: int, j: int| 0 <= i < j < list.len() implies (
        #[trigger] list[i]).BeginAddress <= (#[trigger] list[j]).BeginAddress by {
            lemma_well_formed_is_sorted(list, i, j);
        }
    }
    let pos = bisection(list, addr, 0, list.len() as int);
    lemma_bisection_bounds(list, addr, 0, list.len() as int);
    lemma_bisection_sorted(list, addr, 0, list.len() as int);
    if list[index].BeginAddress == addr {
        assert(pos <= index);
        if pos < index {
            lemma_well_formed_is_sorted(list, pos, index);
            assert(list[pos].BeginAddress >= addr);
        }
    } else {
        assert(pos > index);
        if pos > index + 1 {
            lemma_well_formed_is_sorted(list, index, pos - 1);
            assert(list[pos - 1].BeginAddress < addr);
        }
        if pos < list.len() {
            assert(list[pos].BeginAddress >= addr);
        }
    }
}

/// One level of the call stack: the registers as they were when the call to
/// the next inner level was made.
#[derive(Debug, Clone, Copy, PartialEq, Eq, Structural)]
pub struct StackFrame {
    pub context: ThreadContext,
}

/// The registers after the return address has been taken from the stack:
/// the instruction pointer is what lay at the stack pointer, and the stack
/// pointer is eight bytes further. `None` where the stack cannot be read and
/// where the return address is zero, which ends a call stack.
pub open spec fn return_popped<M: MemorySource>(memory: &M, context: ThreadContext) -> Option<
    ThreadContext,
> {
    match data_read::<M, u64>(memory, context.rsp) {
        Err(_) => None,
        Ok(rip) => if rip == 0 {
            None
        } else {
            Some(ThreadContext { rip, rsp: context.rsp.wrapping_add(8), ..context })
        },
    }
}

/// The registers after the operations of a prologue have been taken back,
/// in the order in which the unwind codes list them.
pub open spec fn prologue_undone<M: MemorySource>(
    memory: &M,
    codes: Seq<UnwindCode>,
    context: ThreadContext,
    func_address: u64,
) -> Result<ThreadContext, Error>
    decreases codes.len(),
{
    if codes.len() == 0 {
        Ok(context)
    } else {
        match operation_undone(memory, codes[0], context, func_address) {
            Err(e) => Err(e),
            Ok(next) => prologue_undone(memory, codes.drop_first(), next, func_address),
        }
    }
}

/// The flags in the high five bits of the first byte of unwind information.
pub open spec fn unwind_flags(info: UNWIND_INFO) -> u8 {
    (info.version_flags / 8) as u8
}

/// The number of the frame register, in the low four bits of the last byte
/// of unwind information.
pub open spec fn frame_register_number(info: UNWIND_INFO) -> u8 {
    (info.frame_register_offset % 16) as u8
}

/// The offset of the frame pointer from the stack pointer: sixteen times the
/// high four bits of the last byte of unwind information.
pub open spec fn frame_pointer_offset(info: UNWIND_INFO) -> u16 {
    ((info.frame_register_offset / 16) * 16) as u16
}

/// Whether unwind information is chained to that of another function.
pub open spec fn is_chained(info: UNWIND_INFO) -> bool {
    (unwind_flags(info) / 4) % 2 == 1
}

/// The registers of the caller of a function with unwind information.
pub open spec fn unwound<M: MemorySource>(
    memory: &M,
    base: u64,
    function: RUNTIME_FUNCTION,
    context: ThreadContext,
) -> Option<ThreadContext> {
    let info_address = base.wrapping_add(function.UnwindInfo as u64);
    match data_read::<M, UNWIND_INFO>(memory, info_address) {
        Err(_) => None,
        Ok(info) => if is_chained(info) {
            None
        } else {
            match full_array_read::<M, u16>(
                memory,
                info_address.wrapping_add(4),
                info.count_of_codes as usize,
            ) {
                Err(_) => None,
                Ok(slots) => match parsed_ops(
                    slots,
                    frame_register_number(info),
                    frame_pointer_offset(info),
                ) {
                    Err(_) => None,
                    Ok(codes) => match prologue_undone(
                        memory,
                        codes,
                        context,
                        base.wrapping_add(function.BeginAddress as u64),
                    ) {
                        Err(_) => None,
                        Ok(undone) => return_popped(memory, undone),
                    },
                },
            }
        },
    }
}

/// How the function table of a module applies to the instruction pointer.
pub enum FunctionLookup {
    /// The instruction pointer lies in no module, or in one without a
    /// function table, or in none of the table's functions.
    Uncovered,
    /// The function table cannot be read.
    Unreadable,
    /// The instruction pointer lies in this function of the module that is
    /// loaded at `base`.
    Covered { base: u64, function: RUNTIME_FUNCTION },
}

/// The function of a module in which the instruction pointer `rip` lies.
pub open spec fn function_lookup<M: MemorySource>(memory: &M, process: ProcessView, rip: u64)
    -> FunctionLookup {
    match process.module_by_address(rip) {
        None => FunctionLookup::Uncovered,
        Some(module) => match data_directory(module.pe_header, DirectoryEntry::Exception) {
            None => FunctionLookup::Uncovered,
            Some(directory) => match array_read::<M, RUNTIME_FUNCTION>(
                memory,
                module.address.wrapping_add(directory.virtual_address as u64),
                (directory.size / 12) as usize,
            ) {
                Err(_) => FunctionLookup::Unreadable,
                Ok(functions) => match runtime_function(
                    ((rip - module.address) % 0x1_0000_0000) as u32,
                    functions,
                ) {
                    None => FunctionLookup::Uncovered,
                    Some(function) => FunctionLookup::Covered { base: module.address, function },
                },
            },
        },
    }
}

/// The registers of the caller of the frame with the registers `context`.
///
/// Where no function table covers the instruction pointer, the frame is
/// taken to have changed nothing but to have been called: the return address
/// lies at the stack pointer. Else the prologue of the function is taken
/// back first.
pub open spec fn parent_context<M: MemorySource>(
    memory: &M,
    process: ProcessView,
    context: ThreadContext,
) -> Option<ThreadContext> {
    match function_lookup(memory, process, context.rip) {
        FunctionLookup::Uncovered => return_popped(memory, context),
        FunctionLookup::Unreadable => None,
        FunctionLookup::Covered { base, function } => unwound(memory, base, function, context),
    }
}

/// The up to `limit` frames outside the frame with the registers `context`,
/// from the inside out.
pub open spec fn outer_frames<M: MemorySource>(
    memory: &M,
    process: ProcessView,
    context: ThreadContext,
    limit: nat,
) -> Seq<StackFrame>
    decreases limit,
{
    if limit == 0 {
        Seq::empty()
    } else {
        match parent_context(memory, process, context) {
            None => Seq::empty(),
            Some(parent) => seq![StackFrame { context: parent }] + outer_frames(
                memory,
                process,
                parent,
                (limit - 1) as nat,
            ),
        }
    }
}

proof fn lemma_byte_fields(value: u8)
    ensures
        split_fields(value as nat, seq![3u32, 5u32]) == seq![
            (value % 8) as nat,
            (value / 8) as nat,
        ],
        split_fields(value as nat, seq![4u32, 4u32]) == seq![
            (value % 16) as nat,
            (value / 16) as nat,
        ],
{
    lemma2_to64();
    let v = value as nat;
    let a = seq![3u32, 5u32];
    assert(a.drop_first() =~= seq![5u32]);
    assert(a.drop_first().drop_first() =~= Seq::<u32>::empty());
    assert(split_fields(high_bits(high_bits(v, 3), 5), Seq::<u32>::empty()) =~= Seq::<
        nat,
    >::empty());
    assert(split_fields(high_bits(v, 3), seq![5u32]) =~= seq![low_bits(high_bits(v, 3), 5)]);
    assert(split_fields(v, a) =~= seq![low_bits(v, 3), low_bits(high_bits(v, 3), 5)]);
    let b = seq![4u32, 4u32];
    assert(b.drop_first() =~= seq![4u32]);
    assert(b.drop_first().drop_first() =~= Seq::<u32>::empty());
    assert(split_fields(high_bits(high_bits(v, 4), 4), Seq::<u32>::empty()) =~= Seq::<
        nat,
    >::empty());
    assert(split_fields(high_bits(v, 4), seq![4u32]) =~= seq![low_bits(high_bits(v, 4), 4)]);
    assert(split_fields(v, b) =~= seq![low_bits(v, 4), low_bits(high_bits(v, 4), 4)]);
}

impl StackFrame {
    pub fn new(context: ThreadContext) -> (frame: StackFrame)
        ensures
            frame.context == context,
    {
        Self { context }
    }

    /// Takes the return address from the stack.
    fn pop_return<M: MemorySource>(context: ThreadContext, memory_source: &M) -> (parent: Option<
        StackFrame,
    >)
        ensures
            parent == match return_popped(memory_source, context) {
                Some(popped) => Some(StackFrame { context: popped }),
                None => None,
            },
    {
        let mut context = context;
        match memory_source.read_memory_data::<u64>(context.rsp) {
            Ok(rip) => {
                if rip == 0 {
                    return None;
                }
                context.rip = rip;
                context.rsp = context.rsp.wrapping_add(8);
                Some(StackFrame::new(context))
            },
            Err(_) => None,
        }
    }

    /// Takes the prologue of a function back and then the return address
    /// from the stack.
    #[verifier::loop_isolation(false)]
    fn unwind<M: MemorySource>(
        &self,
        base: u64,
        function: RUNTIME_FUNCTION,
        memory_source: &M,
    ) -> (parent: Option<StackFrame>)
        ensures
            parent == match unwound(memory_source, base, function, self.context) {
                Some(context) => Some(StackFrame { context }),
                None => None,
            },
    {
        let info_addr = base.wrapping_add(function.UnwindInfo as u64);
        let info = match memory_source.read_memory_data::<UNWIND_INFO>(info_addr) {
            Ok(info) => info,
            Err(_) => {
                return None;
            },
        };
        let flag_lengths: [u32; 2] = [3, 5];
        let version_flags = split_up(info.version_flags as u16, flag_lengths.as_slice());
        let register_lengths: [u32; 2] = [4, 4];
        let register_offset = split_up(
            info.frame_register_offset as u16,
            register_lengths.as_slice(),
        );
        proof {
            assert(flag_lengths@ =~= seq![3u32, 5u32]);
            assert(register_lengths@ =~= seq![4u32, 4u32]);
            lemma_byte_fields(info.version_flags);
            lemma_byte_fields(info.frame_register_offset);
            assert(version_flags@.len() == version_flags@.map_values(|f: u16| f as nat).len());
            assert(version_flags@[1] as nat == version_flags@.map_values(|f: u16| f as nat)[1]);
            assert(register_offset@.len() == register_offset@.map_values(
                |f: u16| f as nat,
            ).len());
            assert(register_offset@[0] as nat == register_offset@.map_values(
                |f: u16| f as nat,
            )[0]);
            assert(register_offset@[1] as nat == register_offset@.map_values(
                |f: u16| f as nat,
            )[1]);
        }
        let flags = version_flags[1] as u8;
        assert(flags & UNW_FLAG_CHAININFO == UNW_FLAG_CHAININFO <==> (flags / 4) % 2 == 1)
            by (bit_vector);
        if flags & UNW_FLAG_CHAININFO == UNW_FLAG_CHAININFO {
            return None;
        }
        let frame_register = register_offset[0] as u8;
        let frame_offset = register_offset[1] * 16;
        // The codes are split up in different ways, depending on the
        // operation, so they are read as plain sixteen-bit slots.
        let codes = match memory_source.read_memory_full_array::<u16>(
            info_addr.wrapping_add(4),
            info.count_of_codes as usize,
        ) {
            Ok(codes) => codes,
            Err(_) => {
                return None;
            },
        };
        let func_address = base.wrapping_add(function.BeginAddress as u64);
        let unwind_ops = match parse_unwind_ops(codes.as_slice(), frame_register, frame_offset) {
            Ok(ops) => ops,
            Err(_) => {
                return None;
            },
        };
        let mut ctx = self.context;
        let mut index: usize = 0;
        assert(unwind_ops@.skip(0) =~= unwind_ops@);
        while index < unwind_ops.len()
            invariant
                index <= unwind_ops.len(),
                prologue_undone(memory_source, unwind_ops@, self.context, func_address)
                    == prologue_undone(
                    memory_source,
                    unwind_ops@.skip(index as int),
                    ctx,
                    func_address,
                ),
            decreases unwind_ops.len() - index,
        {
            let ghost rest = unwind_ops@.skip(index as int);
            assert(rest[0] == unwind_ops@[index as int]);
            assert(rest.drop_first() =~= unwind_ops@.skip(index + 1));
            ctx = match unwind_ops[index].apply(ctx, func_address, memory_source) {
                Ok(next) => next,
                Err(_) => {
                    return None;
                },
            };
            index += 1;
        }
        Self::pop_return(ctx, memory_source)
    }

    /// Finds the frame of the caller.
    ///
    /// `None` ends the walk: the return address is zero, or the stack, the
    /// function table or the unwind information cannot be read, or the
    /// unwind information is malformed or chained.
    pub fn find_parent<M: MemorySource>(&self, process: &Process, memory_source: &M) -> (parent:
        Option<StackFrame>)
        ensures
            parent == match parent_context(memory_source, process.deep_view(), self.context) {
                Some(context) => Some(StackFrame { context }),
                None => None,
            },
    {
        let module = match process.get_module_by_address(self.context.rip) {
            Some(module) => module,
            None => {
                return Self::pop_return(self.context, memory_source);
            },
        };
        let data_directory = match module.get_data_directory(DirectoryEntry::Exception) {
            Some(directory) => directory,
            None => {
                return Self::pop_return(self.context, memory_source);
            },
        };
        proof {
            lemma_first_from(process.deep_view().holding(self.context.rip), 0);
            let found = first_true(process.deep_view().holding(self.context.rip))->0;
            assert(process.deep_view().holding(self.context.rip)[found]);
        }
        let count = (data_directory.size / 12) as usize;
        let table_address = module.address.wrapping_add(data_directory.virtual_address as u64);
        let functions = match memory_source.read_memory_array::<RUNTIME_FUNCTION>(
            table_address,
            count,
        ) {
            Ok(functions) => functions,
            Err(_) => {
                return None;
            },
        };
        let rva = ((self.context.rip - module.address) % 0x1_0000_0000) as u32;
        match find_runtime_function(rva, functions.as_slice()) {
            Some(function) => self.unwind(module.address, *function, memory_source),
            None => Self::pop_return(self.context, memory_source),
        }
    }
}

/// The call stack of a thread with the registers `context`: the frame of
/// the registers themselves, and then the frame of each caller in turn,
/// until no caller is found.
pub fn stack_frames<M: MemorySource>(
    context: ThreadContext,
    process: &Process,
    memory_source: &M,
) -> (frames: Vec<StackFrame>)
    ensures
        frames@ == seq![StackFrame { context }] + outer_frames(
            memory_source,
            process.deep_view(),
            context,
            (usize::MAX - 1) as nat,
        ),
{
    let mut result: Vec<StackFrame> = Vec::new();
    let mut current = StackFrame::new(context);
    result.push(current);
    let ghost all = outer_frames(
        memory_source,
        process.deep_view(),
        context,
        (usize::MAX - 1) as nat,
    );
    assert(result@ =~= seq![StackFrame { context }]);
    while result.len() < usize::MAX
        invariant
            1 <= result.len() <= usize::MAX,
            all == outer_frames(
                memory_source,
                process.deep_view(),
                context,
                (usize::MAX - 1) as nat,
            ),
            seq![StackFrame { context }] + all == result@ + outer_frames(
                memory_source,
                process.deep_view(),
                current.context,
                (usize::MAX - result.len()) as nat,
            ),
        decreases usize::MAX - result.len(),
    {
        let ghost before = result@;
        match current.find_parent(process, memory_source) {
            Some(parent) => {
                result.push(parent);
                assert(before + (seq![parent] + outer_frames(
                    memory_source,
                    process.deep_view(),
                    parent.context,
                    (usize::MAX - result.len()) as nat,
                )) =~= result@ + outer_frames(
                    memory_source,
                    process.deep_view(),
                    parent.context,
                    (usize::MAX - result.len()) as nat,
                ));
                current = parent;
            },
            None => {
                assert(outer_frames(
                    memory_source,
                    process.deep_view(),
                    current.context,
                    (usize::MAX - result.len()) as nat,
                ) =~= Seq::<StackFrame>::empty());
                assert(result@ + Seq::<StackFrame>::empty() =~= result@);
                assert(seq![StackFrame { context }] + all =~= result@);
                return result;
            },
        }
    }
    assert(result@ + Seq::<StackFrame>::empty() =~= result@);
    assert(seq![StackFrame { context }] + all =~= result@);
    result
}

/// Whether no function table covers the instruction pointer `rip`: no
/// module holds it, or its module has no function table, or the function
/// table can be read and none of its functions holds the place of `rip` in
/// the module.
pub open spec fn no_function_covers<M: MemorySource>(memory: &M, process: ProcessView, rip: u64)
    -> bool {
    match process.module_by_address(rip) {
        None => true,
        Some(module) => match data_directory(module.pe_header, DirectoryEntry::Exception) {
            None => true,
            Some(directory) => match array_read::<M, RUNTIME_FUNCTION>(
                memory,
                module.address.wrapping_add(directory.virtual_address as u64),
                (directory.size / 12) as usize,
            ) {
                Err(_) => false,
                Ok(functions) => forall|i: int|
                    0 <= i < functions.len() ==> !covers(
                        #[trigger] functions[i],
                        ((rip - module.address) % 0x1_0000_0000) as u32,
                    ),
            },
        },
    }
}

/// Where no function table covers the instruction pointer and the stack
/// holds a return address that is not zero, the caller's frame is the
/// frame's own, but for the return address, which is taken from the stack.
pub proof fn law_fallback_pops_return<M: MemorySource>(
    memory: &M,
    process: ProcessView,
    context: ThreadContext,
    return_address: u64,
)
    requires
        no_function_covers(memory, process, context.rip),
        data_read::<M, u64>(memory, context.rsp) == Ok::<u64, Error>(return_address),
        return_address != 0,
    ensures
        function_lookup(memory, process, context.rip) is Uncovered,
        parent_context(memory, process, context) == Some(
            ThreadContext {
                rip: return_address,
                rsp: context.rsp.wrapping_add(8),
                ..context
            },
        ),
{
    if let Some(module) = process.module_by_address(context.rip) {
        if let Some(directory) = data_directory(module.pe_header, DirectoryEntry::Exception) {
            let functions = array_read::<M, RUNTIME_FUNCTION>(
                memory,
                module.address.wrapping_add(directory.virtual_address as u64),
                (directory.size / 12) as usize,
            )->Ok_0;
            law_uncovered_address_has_no_function(
                ((context.rip - module.address) % 0x1_0000_0000) as u32,
                functions,
            );
        }
    }
}

/// Where the function table gives no function for the instruction pointer,
/// the caller's registers are the frame's own, but for the return address,
/// which is taken from the stack.
pub proof fn law_uncovered_frame_pops_return<M: MemorySource>(
    memory: &M,
    process: ProcessView,
    context: ThreadContext,
)
    requires
        function_lookup(memory, process, context.rip) is Uncovered,
    ensures
        parent_context(memory, process, context) == return_popped(memory, context),
        parent_context(memory, process, context) matches Some(parent) ==> parent == (
        ThreadContext {
            rip: data_read::<M, u64>(memory, context.rsp)->Ok_0,
            rsp: context.rsp.wrapping_add(8),
            ..context
        }),
{
}

/// A return address of zero ends the walk, and no frame that a walk gives
/// has an instruction pointer of zero.
pub proof fn law_zero_return_ends_walk<M: MemorySource>(
    memory: &M,
    process: ProcessView,
    context: ThreadContext,
)
    ensures
        data_read::<M, u64>(memory, context.rsp) == Ok::<u64, Error>(0) ==> return_popped(
            memory,
            context,
        ) is None,
        parent_context(memory, process, context) matches Some(parent) ==> parent.rip != 0,
{
}

} // verus!
