use kafer_core::stack::split_up;
use kafer_core::stack::stack_unwind::parse_unwind_ops;
use kafer_core::stack::stack_unwind::Register;
use kafer_core::stack::stack_unwind::UnwindCode;
use kafer_core::stack::stack_unwind::UnwindCodeParseError;
use kafer_core::stack::stack_unwind::UnwindOp;

fn slot(code_offset: u8, op: u8, info: u8) -> u16 {
    code_offset as u16 | ((op as u16) << 8) | ((info as u16) << 12)
}

#[test]
fn split_three_fields() {
    assert_eq!(split_up(0xa5c3, &[8, 4, 4]), vec![0xc3, 0x5, 0xa]);
}

#[test]
fn split_two_fields_of_a_byte() {
    assert_eq!(split_up(0b1010_0110, &[3, 5]), vec![0b110, 0b10100]);
    assert_eq!(split_up(0x5d, &[4, 4]), vec![0xd, 0x5]);
}

#[test]
fn split_and_recompose() {
    let lengths = [1u32, 2, 3, 4, 6];
    for value in [0u16, 1, 0x8000, 0xffff, 0x1234, 0xa5a5] {
        let fields = split_up(value, &lengths);
        let mut recomposed: u32 = 0;
        let mut shift = 0;
        for (field, len) in fields.iter().zip(lengths.iter()) {
            recomposed |= (*field as u32) << shift;
            shift += len;
        }
        assert_eq!(recomposed, value as u32);
    }
}

#[test]
fn split_with_a_field_of_all_bits() {
    assert_eq!(split_up(0xbeef, &[16]), vec![0xbeef]);
    assert_eq!(split_up(0xbeef, &[16, 4]), vec![0xbeef, 0]);
    assert_eq!(split_up(0xbeef, &[]), Vec::<u16>::new());
}

#[test]
fn register_numbers() {
    assert_eq!(Register::try_from(0), Ok(Register::Rax));
    assert_eq!(Register::try_from(3), Ok(Register::Rbx));
    assert_eq!(Register::try_from(4), Ok(Register::Rsp));
    assert_eq!(Register::try_from(15), Ok(Register::R15));
    assert_eq!(Register::try_from(16), Err(16));
    assert_eq!(Register::try_from(255), Err(255));
    assert_eq!(Register::Rdi.number(), 7);
}

#[test]
fn parse_no_slots() {
    assert_eq!(parse_unwind_ops(&[], 0, 0), Ok(vec![]));
}

#[test]
fn parse_push_nonvolatile() {
    assert_eq!(
        parse_unwind_ops(&[slot(2, 0, 5)], 0, 0),
        Ok(vec![UnwindCode { code_offset: 2, op: UnwindOp::PushNonVolatile { reg: Register::Rbp } }])
    );
}

#[test]
fn parse_alloc_small() {
    assert_eq!(
        parse_unwind_ops(&[slot(4, 2, 0), slot(8, 2, 15)], 0, 0),
        Ok(vec![
            UnwindCode { code_offset: 4, op: UnwindOp::Alloc { size: 8 } },
            UnwindCode { code_offset: 8, op: UnwindOp::Alloc { size: 128 } },
        ])
    );
}

#[test]
fn parse_alloc_large_in_one_slot() {
    assert_eq!(
        parse_unwind_ops(&[slot(7, 1, 0), 0x1234], 0, 0),
        Ok(vec![UnwindCode { code_offset: 7, op: UnwindOp::Alloc { size: 0x1234 * 8 } }])
    );
    assert_eq!(
        parse_unwind_ops(&[slot(7, 1, 0), 0xffff], 0, 0),
        Ok(vec![UnwindCode { code_offset: 7, op: UnwindOp::Alloc { size: 0x7fff8 } }])
    );
}

#[test]
fn parse_alloc_large_in_two_slots() {
    assert_eq!(
        parse_unwind_ops(&[slot(7, 1, 1), 0x5678, 0x1234], 0, 0),
        Ok(vec![UnwindCode { code_offset: 7, op: UnwindOp::Alloc { size: 0x1234_5678 } }])
    );
    assert_eq!(
        parse_unwind_ops(&[slot(7, 1, 1), 0xffff, 0xffff], 0, 0),
        Ok(vec![UnwindCode { code_offset: 7, op: UnwindOp::Alloc { size: 0xffff_ffff } }])
    );
}

#[test]
fn parse_set_frame_pointer() {
    assert_eq!(
        parse_unwind_ops(&[slot(3, 3, 0)], 5, 0x30),
        Ok(vec![UnwindCode {
            code_offset: 3,
            op: UnwindOp::SetFpreg { frame_register: Register::Rbp, frame_offset: 0x30 },
        }])
    );
}

#[test]
fn parse_save_nonvolatile() {
    assert_eq!(
        parse_unwind_ops(&[slot(9, 4, 6), 0x0042], 0, 0),
        Ok(vec![UnwindCode {
            code_offset: 9,
            op: UnwindOp::SaveNonVolatile { reg: Register::Rsi, offset: 0x42 },
        }])
    );
    assert_eq!(
        parse_unwind_ops(&[slot(9, 5, 12), 0x0042, 0x0001], 0, 0),
        Ok(vec![UnwindCode {
            code_offset: 9,
            op: UnwindOp::SaveNonVolatile { reg: Register::R12, offset: 0x1_0042 },
        }])
    );
}

#[test]
fn parse_save_xmm() {
    assert_eq!(
        parse_unwind_ops(&[slot(9, 8, 6), 0x0010], 0, 0),
        Ok(vec![UnwindCode {
            code_offset: 9,
            op: UnwindOp::SaveXmm128 { reg: Register::Rsi, offset: 0x10 },
        }])
    );
    assert_eq!(
        parse_unwind_ops(&[slot(9, 9, 7), 0x0010, 0x0002], 0, 0),
        Ok(vec![UnwindCode {
            code_offset: 9,
            op: UnwindOp::SaveXmm128 { reg: Register::Rdi, offset: 0x2_0010 },
        }])
    );
}

#[test]
fn parse_a_typical_prologue() {
    // sub rsp, 0x28 ; push rdi ; push rbx, listed last operation first.
    let slots = [slot(6, 2, 4), slot(2, 0, 7), slot(1, 0, 3)];
    assert_eq!(
        parse_unwind_ops(&slots, 0, 0),
        Ok(vec![
            UnwindCode { code_offset: 6, op: UnwindOp::Alloc { size: 0x28 } },
            UnwindCode { code_offset: 2, op: UnwindOp::PushNonVolatile { reg: Register::Rdi } },
            UnwindCode { code_offset: 1, op: UnwindOp::PushNonVolatile { reg: Register::Rbx } },
        ])
    );
}

#[test]
fn parse_incomplete_operations() {
    assert_eq!(parse_unwind_ops(&[slot(1, 1, 0)], 0, 0), Err(UnwindCodeParseError::IncompleteOp(1)));
    assert_eq!(
        parse_unwind_ops(&[slot(1, 1, 1), 5], 0, 0),
        Err(UnwindCodeParseError::IncompleteOp(1))
    );
    assert_eq!(parse_unwind_ops(&[slot(1, 4, 0)], 0, 0), Err(UnwindCodeParseError::IncompleteOp(4)));
    assert_eq!(
        parse_unwind_ops(&[slot(1, 5, 0), 5], 0, 0),
        Err(UnwindCodeParseError::IncompleteOp(5))
    );
    assert_eq!(parse_unwind_ops(&[slot(1, 8, 0)], 0, 0), Err(UnwindCodeParseError::IncompleteOp(8)));
    assert_eq!(
        parse_unwind_ops(&[slot(1, 9, 0), 5], 0, 0),
        Err(UnwindCodeParseError::IncompleteOp(9))
    );
    // A complete operation before an incomplete one does not help.
    assert_eq!(
        parse_unwind_ops(&[slot(1, 0, 0), slot(1, 4, 0)], 0, 0),
        Err(UnwindCodeParseError::IncompleteOp(4))
    );
}

#[test]
fn parse_unknown_operations() {
    assert_eq!(parse_unwind_ops(&[slot(0, 6, 0)], 0, 0), Err(UnwindCodeParseError::UnknownOp(6)));
    assert_eq!(parse_unwind_ops(&[slot(0, 7, 0)], 0, 0), Err(UnwindCodeParseError::UnknownOp(7)));
    // A machine-frame push is not read.
    assert_eq!(parse_unwind_ops(&[slot(0, 10, 0)], 0, 0), Err(UnwindCodeParseError::UnknownOp(10)));
    assert_eq!(parse_unwind_ops(&[slot(0, 15, 0)], 0, 0), Err(UnwindCodeParseError::UnknownOp(15)));
    // A large allocation knows the infos 0 and 1 only.
    assert_eq!(parse_unwind_ops(&[slot(0, 1, 2), 0, 0], 0, 0), Err(UnwindCodeParseError::UnknownOp(1)));
}

#[test]
fn parse_invalid_frame_register() {
    assert_eq!(
        parse_unwind_ops(&[slot(0, 3, 0)], 16, 0),
        Err(UnwindCodeParseError::InvalidRegister(16))
    );
    // The frame register is looked at only where the frame pointer is set.
    assert_eq!(
        parse_unwind_ops(&[slot(0, 2, 0)], 16, 0),
        Ok(vec![UnwindCode { code_offset: 0, op: UnwindOp::Alloc { size: 8 } }])
    );
}

fn encode(code: &UnwindCode) -> Vec<u16> {
    match code.op {
        UnwindOp::PushNonVolatile { reg } => vec![slot(code.code_offset, 0, reg.number())],
        UnwindOp::Alloc { size } => {
            if size % 8 == 0 && (8..=128).contains(&size) {
                vec![slot(code.code_offset, 2, (size / 8 - 1) as u8)]
            } else if size % 8 == 0 && size / 8 <= 0xffff {
                vec![slot(code.code_offset, 1, 0), (size / 8) as u16]
            } else {
                vec![slot(code.code_offset, 1, 1), size as u16, (size >> 16) as u16]
            }
        }
        UnwindOp::SetFpreg { .. } => vec![slot(code.code_offset, 3, 0)],
        UnwindOp::SaveNonVolatile { reg, offset } => {
            if offset <= 0xffff {
                vec![slot(code.code_offset, 4, reg.number()), offset as u16]
            } else {
                vec![slot(code.code_offset, 5, reg.number()), offset as u16, (offset >> 16) as u16]
            }
        }
        UnwindOp::SaveXmm128 { reg, offset } => {
            if offset <= 0xffff {
                vec![slot(code.code_offset, 8, reg.number()), offset as u16]
            } else {
                vec![slot(code.code_offset, 9, reg.number()), offset as u16, (offset >> 16) as u16]
            }
        }
        UnwindOp::PushMachFrame { error_code } => vec![slot(code.code_offset, 10, error_code as u8)],
    }
}

#[test]
fn encoded_operations_read_back() {
    let codes = vec![
        UnwindCode { code_offset: 40, op: UnwindOp::SaveXmm128 { reg: Register::Rsi, offset: 0x12_3456 } },
        UnwindCode { code_offset: 33, op: UnwindOp::SaveXmm128 { reg: Register::Rdi, offset: 0x40 } },
        UnwindCode { code_offset: 30, op: UnwindOp::SaveNonVolatile { reg: Register::R15, offset: 0xffff } },
        UnwindCode { code_offset: 25, op: UnwindOp::SaveNonVolatile { reg: Register::R14, offset: 0x1_0000 } },
        UnwindCode {
            code_offset: 20,
            op: UnwindOp::SetFpreg { frame_register: Register::R13, frame_offset: 0xf0 },
        },
        UnwindCode { code_offset: 16, op: UnwindOp::Alloc { size: 12 } },
        UnwindCode { code_offset: 12, op: UnwindOp::Alloc { size: 0x8_0000 } },
        UnwindCode { code_offset: 8, op: UnwindOp::Alloc { size: 136 } },
        UnwindCode { code_offset: 4, op: UnwindOp::Alloc { size: 128 } },
        UnwindCode { code_offset: 1, op: UnwindOp::PushNonVolatile { reg: Register::Rax } },
    ];
    let slots: Vec<u16> = codes.iter().flat_map(encode).collect();
    assert_eq!(parse_unwind_ops(&slots, 13, 0xf0), Ok(codes));
}

#[test]
fn encoded_machine_frame_push_does_not_read_back() {
    let code = UnwindCode { code_offset: 0, op: UnwindOp::PushMachFrame { error_code: true } };
    assert_eq!(parse_unwind_ops(&encode(&code), 0, 0), Err(UnwindCodeParseError::UnknownOp(10)));
}
