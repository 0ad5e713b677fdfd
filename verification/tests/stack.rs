use kafer_core::context::ThreadContext;
use kafer_core::error::Error;
use kafer_core::memory::MemoryImage;
use kafer_core::processes::Process;
use kafer_core::stack::ffi::RUNTIME_FUNCTION;
use kafer_core::stack::find_runtime_function;
use kafer_core::stack::stack_frames;
use kafer_core::stack::stack_unwind::Register;
use kafer_core::stack::stack_unwind::UnwindCode;
use kafer_core::stack::stack_unwind::UnwindCodeParseError;
use kafer_core::stack::stack_unwind::UnwindOp;
use kafer_core::stack::StackFrame;

const BASE: u64 = 0x40_0000;

fn function(begin: u32, end: u32) -> RUNTIME_FUNCTION {
    RUNTIME_FUNCTION { BeginAddress: begin, EndAddress: end, UnwindInfo: begin + 1 }
}

#[test]
fn function_of_an_address() {
    let table = [function(0x1000, 0x1100), function(0x1100, 0x1180), function(0x2000, 0x2040)];
    assert_eq!(find_runtime_function(0x1000, &table), Some(&table[0]));
    assert_eq!(find_runtime_function(0x10ff, &table), Some(&table[0]));
    assert_eq!(find_runtime_function(0x1100, &table), Some(&table[1]));
    assert_eq!(find_runtime_function(0x117f, &table), Some(&table[1]));
    assert_eq!(find_runtime_function(0x2000, &table), Some(&table[2]));
    assert_eq!(find_runtime_function(0x203f, &table), Some(&table[2]));
}

#[test]
fn address_of_no_function() {
    let table = [function(0x1000, 0x1100), function(0x1100, 0x1180), function(0x2000, 0x2040)];
    assert_eq!(find_runtime_function(0, &table), None);
    assert_eq!(find_runtime_function(0xfff, &table), None);
    assert_eq!(find_runtime_function(0x1180, &table), None);
    assert_eq!(find_runtime_function(0x1fff, &table), None);
    assert_eq!(find_runtime_function(0x2040, &table), None);
    assert_eq!(find_runtime_function(u32::MAX, &table), None);
    assert_eq!(find_runtime_function(0x1000, &[]), None);
}

#[test]
fn function_in_a_long_table() {
    let table: Vec<RUNTIME_FUNCTION> =
        (0..1000u32).map(|i| function(0x1000 + i * 0x20, 0x1000 + i * 0x20 + 0x18)).collect();
    for i in [0usize, 1, 2, 499, 500, 998, 999] {
        let begin = table[i].BeginAddress;
        assert_eq!(find_runtime_function(begin, &table), Some(&table[i]));
        assert_eq!(find_runtime_function(begin + 0x17, &table), Some(&table[i]));
        assert_eq!(find_runtime_function(begin + 0x18, &table), None);
    }
}

fn put(bytes: &mut [u8], at: usize, data: &[u8]) {
    bytes[at..at + data.len()].copy_from_slice(data);
}

fn put_u16(bytes: &mut [u8], at: usize, value: u16) {
    put(bytes, at, &value.to_le_bytes());
}

fn put_u32(bytes: &mut [u8], at: usize, value: u32) {
    put(bytes, at, &value.to_le_bytes());
}

fn put_u64(bytes: &mut [u8], at: usize, value: u64) {
    put(bytes, at, &value.to_le_bytes());
}

fn slot(code_offset: u8, op: u8, info: u8) -> u16 {
    code_offset as u16 | ((op as u16) << 8) | ((info as u16) << 12)
}

/// An image of 0x3000 bytes with three functions at 0x1000, 0x1100 and
/// 0x1200, their table at 0x300 and their unwind information from 0x340 on.
/// The bytes from 0x800 on serve as the stack.
fn image_bytes() -> Vec<u8> {
    let mut bytes = vec![0u8; 0x1000];
    put_u16(&mut bytes, 0, 0x5a4d);
    put_u32(&mut bytes, 60, 0x80);
    put_u32(&mut bytes, 0x80, 0x4550);
    put_u16(&mut bytes, 0x84, 0x8664);
    put_u32(&mut bytes, 0x80 + 80, 0x3000);
    // The exception directory: three entries of twelve bytes.
    put_u32(&mut bytes, 0x80 + 160, 0x300);
    put_u32(&mut bytes, 0x80 + 164, 36);
    for (index, (begin, end, info)) in
        [(0x1000u32, 0x1100u32, 0x340u32), (0x1100, 0x1200, 0x350), (0x1200, 0x1300, 0x360)]
            .into_iter()
            .enumerate()
    {
        put_u32(&mut bytes, 0x300 + index * 12, begin);
        put_u32(&mut bytes, 0x300 + index * 12 + 4, end);
        put_u32(&mut bytes, 0x300 + index * 12 + 8, info);
    }
    // The first function pushes rbx and makes room for 32 bytes.
    put(&mut bytes, 0x340, &[1, 5, 2, 0]);
    put_u16(&mut bytes, 0x344, slot(5, 2, 3));
    put_u16(&mut bytes, 0x346, slot(1, 0, 3));
    // The second function makes room for 8 bytes.
    put(&mut bytes, 0x350, &[1, 4, 1, 0]);
    put_u16(&mut bytes, 0x354, slot(4, 2, 0));
    // The third function uses rbp as its frame pointer, 16 bytes above the
    // stack pointer, after it has pushed rbp and made room for 0x100 bytes.
    put(&mut bytes, 0x360, &[1, 12, 4, 0x15]);
    put_u16(&mut bytes, 0x364, slot(12, 3, 0));
    put_u16(&mut bytes, 0x366, slot(8, 1, 0));
    put_u16(&mut bytes, 0x368, 0x20);
    put_u16(&mut bytes, 0x36a, slot(1, 0, 5));
    bytes
}

fn process_of(bytes: &[u8]) -> Process {
    let mut process = Process::new();
    process.add_module(BASE, Some(String::from("app.exe")), &MemoryImage::new(BASE, bytes)).unwrap();
    process
}

fn frame(rip: u64, rsp: u64) -> StackFrame {
    let mut context = ThreadContext::zeroed();
    context.rip = rip;
    context.rsp = rsp;
    StackFrame::new(context)
}

#[test]
fn parent_of_a_frame_with_unwind_information() {
    let mut bytes = image_bytes();
    // Room for 32 bytes, the saved rbx, and the return address.
    put_u64(&mut bytes, 0x800 + 32, 0x1122_3344_5566_7788);
    put_u64(&mut bytes, 0x800 + 40, 0x40_1150);
    let process = process_of(&bytes);
    let memory = MemoryImage::new(BASE, &bytes);
    let parent = frame(0x40_1050, 0x40_0800).find_parent(&process, &memory).unwrap();
    assert_eq!(parent.context.rip, 0x40_1150);
    assert_eq!(parent.context.rsp, 0x40_0800 + 48);
    assert_eq!(parent.context.rbx, 0x1122_3344_5566_7788);
    assert_eq!(parent.context.rax, 0);
}

#[test]
fn parent_of_a_frame_in_its_prologue() {
    let mut bytes = image_bytes();
    // At offset 2 the function has pushed rbx and not yet made room.
    put_u64(&mut bytes, 0x800, 0xaaaa);
    put_u64(&mut bytes, 0x808, 0x40_1150);
    let process = process_of(&bytes);
    let memory = MemoryImage::new(BASE, &bytes);
    let parent = frame(0x40_1002, 0x40_0800).find_parent(&process, &memory).unwrap();
    assert_eq!(parent.context.rip, 0x40_1150);
    assert_eq!(parent.context.rsp, 0x40_0810);
    assert_eq!(parent.context.rbx, 0xaaaa);
    // At offset 0 it has done nothing yet.
    put_u64(&mut bytes, 0x800, 0x40_1160);
    let memory = MemoryImage::new(BASE, &bytes);
    let parent = frame(0x40_1000, 0x40_0800).find_parent(&process, &memory).unwrap();
    assert_eq!(parent.context.rip, 0x40_1160);
    assert_eq!(parent.context.rsp, 0x40_0808);
    assert_eq!(parent.context.rbx, 0);
}

#[test]
fn parent_of_a_frame_with_a_frame_pointer() {
    let mut bytes = image_bytes();
    // rbp points 16 bytes above the stack pointer as it was after the
    // prologue. Above the room of 0x100 bytes lie the saved rbp and the
    // return address.
    put_u64(&mut bytes, 0x900, 0xbbbb);
    put_u64(&mut bytes, 0x908, 0x40_1050);
    let process = process_of(&bytes);
    let memory = MemoryImage::new(BASE, &bytes);
    let mut current = frame(0x40_1280, 0x40_0700);
    current.context.rbp = 0x40_0800 + 0x10;
    let parent = current.find_parent(&process, &memory).unwrap();
    assert_eq!(parent.context.rip, 0x40_1050);
    assert_eq!(parent.context.rsp, 0x40_0910);
    assert_eq!(parent.context.rbp, 0xbbbb);
}

#[test]
fn parent_of_a_frame_without_unwind_information() {
    let mut bytes = image_bytes();
    put_u64(&mut bytes, 0x800, 0x40_1150);
    let process = process_of(&bytes);
    let memory = MemoryImage::new(BASE, &bytes);
    // Inside the module, but in none of its functions.
    let parent = frame(0x40_2000, 0x40_0800).find_parent(&process, &memory).unwrap();
    assert_eq!(parent.context.rip, 0x40_1150);
    assert_eq!(parent.context.rsp, 0x40_0808);
    // Outside every module.
    let parent = frame(0x7000_0000, 0x40_0800).find_parent(&process, &memory).unwrap();
    assert_eq!(parent.context.rip, 0x40_1150);
    assert_eq!(parent.context.rsp, 0x40_0808);
}

#[test]
fn parent_in_a_module_without_function_table() {
    let mut bytes = image_bytes();
    put_u32(&mut bytes, 0x80 + 160, 0);
    put_u64(&mut bytes, 0x800, 0x40_1150);
    let process = process_of(&bytes);
    let memory = MemoryImage::new(BASE, &bytes);
    let parent = frame(0x40_1050, 0x40_0800).find_parent(&process, &memory).unwrap();
    assert_eq!(parent.context.rip, 0x40_1150);
    assert_eq!(parent.context.rsp, 0x40_0808);
}

#[test]
fn a_return_address_of_zero_ends_the_walk() {
    let bytes = image_bytes();
    let process = process_of(&bytes);
    let memory = MemoryImage::new(BASE, &bytes);
    assert_eq!(frame(0x40_2000, 0x40_0800).find_parent(&process, &memory), None);
    assert_eq!(frame(0x40_1150, 0x40_0800).find_parent(&process, &memory), None);
}

#[test]
fn a_stack_that_cannot_be_read_ends_the_walk() {
    let bytes = image_bytes();
    let process = process_of(&bytes);
    let memory = MemoryImage::new(BASE, &bytes);
    assert_eq!(frame(0x40_2000, 0x90_0000).find_parent(&process, &memory), None);
    assert_eq!(frame(0x40_1050, 0x40_0ff0).find_parent(&process, &memory), None);
}

#[test]
fn chained_unwind_information_ends_the_walk() {
    let mut bytes = image_bytes();
    // Version 1 with the flag for chained information.
    bytes[0x350] = 1 | (4 << 3);
    put_u64(&mut bytes, 0x808, 0x40_1050);
    let process = process_of(&bytes);
    let memory = MemoryImage::new(BASE, &bytes);
    assert_eq!(frame(0x40_1150, 0x40_0800).find_parent(&process, &memory), None);
}

#[test]
fn malformed_unwind_codes_end_the_walk() {
    let mut bytes = image_bytes();
    put_u16(&mut bytes, 0x354, slot(4, 6, 0));
    put_u64(&mut bytes, 0x808, 0x40_1050);
    let process = process_of(&bytes);
    let memory = MemoryImage::new(BASE, &bytes);
    assert_eq!(frame(0x40_1150, 0x40_0800).find_parent(&process, &memory), None);
}

#[test]
fn walk_of_a_call_chain_three_deep() {
    let mut bytes = image_bytes();
    // The innermost frame is in the third function, which was called by the
    // second, which was called by the first, which was called from outside
    // the function table.
    let rsp = 0x800usize;
    // Third function: room of 0x100 bytes, saved rbp, return address.
    put_u64(&mut bytes, rsp + 0x100, 0xb3);
    put_u64(&mut bytes, rsp + 0x108, 0x40_1180);
    // Second function: room of 8 bytes, return address.
    put_u64(&mut bytes, rsp + 0x118, 0x40_1080);
    // First function: room of 32 bytes, saved rbx, return address.
    put_u64(&mut bytes, rsp + 0x140, 0xb1);
    put_u64(&mut bytes, rsp + 0x148, 0x40_2abc);
    // The outermost frame was called from nowhere.
    put_u64(&mut bytes, rsp + 0x150, 0);
    let process = process_of(&bytes);
    let memory = MemoryImage::new(BASE, &bytes);
    let mut context = ThreadContext::zeroed();
    context.rip = 0x40_1250;
    context.rsp = BASE + rsp as u64;
    context.rbp = BASE + rsp as u64 + 0x10;
    let frames = stack_frames(context, &process, &memory);
    assert_eq!(frames.len(), 4);
    let rips: Vec<u64> = frames.iter().map(|f| f.context.rip).collect();
    assert_eq!(rips, vec![0x40_1250, 0x40_1180, 0x40_1080, 0x40_2abc]);
    let rsps: Vec<u64> = frames.iter().map(|f| f.context.rsp - BASE).collect();
    assert_eq!(rsps, vec![0x800, 0x910, 0x920, 0x950]);
    assert_eq!(frames[0], StackFrame::new(context));
    assert_eq!(frames[1].context.rbp, 0xb3);
    assert_eq!(frames[3].context.rbx, 0xb1);
    assert_eq!(process.address_to_name(frames[3].context.rip), None);
}

#[test]
fn walk_of_a_frame_without_caller() {
    let bytes = image_bytes();
    let process = process_of(&bytes);
    let memory = MemoryImage::new(BASE, &bytes);
    let mut context = ThreadContext::zeroed();
    context.rip = 0x1234;
    context.rsp = 0x40_0800;
    assert_eq!(stack_frames(context, &process, &memory), vec![StackFrame::new(context)]);
}

#[test]
fn operations_are_taken_back_one_by_one() {
    let mut bytes = vec![0u8; 0x100];
    put_u64(&mut bytes, 0x10, 0x1111);
    put_u64(&mut bytes, 0x40, 0x2222);
    let memory = MemoryImage::new(0x1000, &bytes);
    let mut context = ThreadContext::zeroed();
    context.rip = 0x5010;
    context.rsp = 0x1010;
    context.r12 = 0x1080;

    let alloc = UnwindCode { code_offset: 4, op: UnwindOp::Alloc { size: 0x28 } };
    assert_eq!(alloc.apply(context, 0x5000, &memory).unwrap().rsp, 0x1038);

    let push = UnwindCode { code_offset: 4, op: UnwindOp::PushNonVolatile { reg: Register::Rsi } };
    let undone = push.apply(context, 0x5000, &memory).unwrap();
    assert_eq!((undone.rsi, undone.rsp), (0x1111, 0x1018));

    let save = UnwindCode {
        code_offset: 4,
        op: UnwindOp::SaveNonVolatile { reg: Register::R15, offset: 0x30 },
    };
    let undone = save.apply(context, 0x5000, &memory).unwrap();
    assert_eq!((undone.r15, undone.rsp), (0x2222, 0x1010));

    let set = UnwindCode {
        code_offset: 4,
        op: UnwindOp::SetFpreg { frame_register: Register::R12, frame_offset: 0x20 },
    };
    assert_eq!(set.apply(context, 0x5000, &memory).unwrap().rsp, 0x1060);

    let xmm = UnwindCode { code_offset: 4, op: UnwindOp::SaveXmm128 { reg: Register::Rsi, offset: 0 } };
    assert_eq!(xmm.apply(context, 0x5000, &memory).unwrap(), context);

    let frame = UnwindCode { code_offset: 4, op: UnwindOp::PushMachFrame { error_code: false } };
    assert!(matches!(
        frame.apply(context, 0x5000, &memory),
        Err(Error::UnwindParse(UnwindCodeParseError::UnknownOp(10)))
    ));
}

#[test]
fn operations_behind_the_instruction_pointer_change_nothing() {
    let memory = MemoryImage::new(0x1000, &[0u8; 0x10]);
    let mut context = ThreadContext::zeroed();
    context.rip = 0x5003;
    context.rsp = 0x9_0000;
    let alloc = UnwindCode { code_offset: 4, op: UnwindOp::Alloc { size: 0x28 } };
    assert_eq!(alloc.apply(context, 0x5000, &memory).unwrap(), context);
    // The stack is not even read.
    let push = UnwindCode { code_offset: 4, op: UnwindOp::PushNonVolatile { reg: Register::Rsi } };
    assert_eq!(push.apply(context, 0x5000, &memory).unwrap(), context);
    // At the offset itself the operation has taken effect.
    context.rip = 0x5004;
    assert_eq!(alloc.apply(context, 0x5000, &memory).unwrap().rsp, 0x9_0028);
    assert!(matches!(
        push.apply(context, 0x5000, &memory),
        Err(Error::MemorySourceNotEnoughData)
    ));
}

#[test]
fn push_of_the_stack_pointer_itself() {
    let mut bytes = vec![0u8; 0x20];
    put_u64(&mut bytes, 0, 0x7000);
    let memory = MemoryImage::new(0x1000, &bytes);
    let mut context = ThreadContext::zeroed();
    context.rip = 0x5010;
    context.rsp = 0x1000;
    let push = UnwindCode { code_offset: 0, op: UnwindOp::PushNonVolatile { reg: Register::Rsp } };
    assert_eq!(push.apply(context, 0x5000, &memory).unwrap().rsp, 0x7008);
}

#[test]
fn registers_by_number() {
    let mut context = ThreadContext::zeroed();
    context.rcx = 11;
    context.r9 = 99;
    assert_eq!(Register::Rcx.get(context), 11);
    assert_eq!(Register::R9.get(context), 99);
    *Register::Rdx.get_mut(&mut context) = 22;
    *Register::R14.get_mut(&mut context) = 1414;
    assert_eq!(context.rdx, 22);
    assert_eq!(context.r14, 1414);
    assert_eq!(context.rcx, 11);
}

#[test]
fn entry_that_begins_at_the_address_and_does_not_hold_it() {
    let degenerate = RUNTIME_FUNCTION { BeginAddress: 0x1000, EndAddress: 0x1000, UnwindInfo: 1 };
    assert_eq!(find_runtime_function(0x1000, &[degenerate]), None);
    let backwards = RUNTIME_FUNCTION { BeginAddress: 0x1000, EndAddress: 0x800, UnwindInfo: 1 };
    assert_eq!(find_runtime_function(0x1000, &[backwards]), None);
    // The entry before it may still hold the address.
    let before = RUNTIME_FUNCTION { BeginAddress: 0x900, EndAddress: 0x1100, UnwindInfo: 2 };
    assert_eq!(find_runtime_function(0x1000, &[before, degenerate]), Some(&before));
    let one_byte = RUNTIME_FUNCTION { BeginAddress: 0x1000, EndAddress: 0x1001, UnwindInfo: 3 };
    assert_eq!(find_runtime_function(0x1000, &[one_byte]), Some(&one_byte));
}

#[test]
fn parent_of_a_frame_at_an_entry_that_does_not_hold_it() {
    let mut bytes = image_bytes();
    // The second function ends where it begins: it holds no address, and its
    // unwind information is not looked at.
    put_u32(&mut bytes, 0x300 + 12 + 4, 0x1100);
    put_u16(&mut bytes, 0x354, slot(4, 6, 0));
    put_u64(&mut bytes, 0x800, 0x40_1050);
    let process = process_of(&bytes);
    let memory = MemoryImage::new(BASE, &bytes);
    let parent = frame(0x40_1100, 0x40_0800).find_parent(&process, &memory).unwrap();
    assert_eq!(parent.context.rip, 0x40_1050);
    assert_eq!(parent.context.rsp, 0x40_0808);
    assert_eq!(parent.context.rbx, 0);
}
