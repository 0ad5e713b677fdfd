//! The integer registers of a thread, by name.

use vstd::prelude::*;
use vstd::string::StringExecFns;

use crate::context::ThreadContext;
use crate::text::ascii_chars;
use crate::text::ascii_string;
use crate::text::hex_fixed;
use crate::text::push_hex_fixed;
use crate::text::same_text;

verus! {

/// A register with its name in lower case.
#[derive(Debug, Clone)]
pub struct Register {
    pub name: String,
    pub value: u64,
}

/// The registers of a thread, in the order in which they are shown.
#[derive(Debug, Clone)]
pub struct Registers {
    registers: Vec<Register>,
}

/// The names of the registers, in the order in which they are shown.
pub open spec fn register_names() -> Seq<Seq<char>> {
    seq![
        "rax"@,
        "rbx"@,
        "rcx"@,
        "rdx"@,
        "rsi"@,
        "rdi"@,
        "rip"@,
        "rsp"@,
        "rbp"@,
        "r8"@,
        "r9"@,
        "r10"@,
        "r11"@,
        "r12"@,
        "r13"@,
        "r14"@,
        "r15"@,
        "eflags"@,
    ]
}

/// The values of the registers of a snapshot, in the order in which they
/// are shown.
pub open spec fn register_values(ctx: ThreadContext) -> Seq<u64> {
    seq![
        ctx.rax,
        ctx.rbx,
        ctx.rcx,
        ctx.rdx,
        ctx.rsi,
        ctx.rdi,
        ctx.rip,
        ctx.rsp,
        ctx.rbp,
        ctx.r8,
        ctx.r9,
        ctx.r10,
        ctx.r11,
        ctx.r12,
        ctx.r13,
        ctx.r14,
        ctx.r15,
        ctx.eflags as u64,
    ]
}

/// A name, filled up with spaces to three characters.
pub open spec fn padded_name(name: Seq<char>) -> Seq<char> {
    if name.len() >= 3 {
        name
    } else if name.len() == 2 {
        name + " "@
    } else if name.len() == 1 {
        name + "  "@
    } else {
        "   "@
    }
}

/// One register as it is shown: the name, filled up to three characters,
/// an equals sign, the value in base sixteen with sixteen digits behind
/// `0x`, and a space.
pub open spec fn shown_register(name: Seq<char>, value: u64) -> Seq<char> {
    padded_name(name) + "=0x"@ + ascii_chars(hex_fixed(value as nat, 16, false)) + " "@
}

/// The registers from `from` on as they are shown: three to a line.
pub open spec fn shown_from(registers: Seq<(Seq<char>, u64)>, from: int) -> Seq<char>
    decreases registers.len() - from,
{
    if from < 0 || from >= registers.len() {
        Seq::empty()
    } else {
        shown_register(registers[from].0, registers[from].1) + (if from % 3 == 2 || from + 1
            == registers.len() {
            "\n"@
        } else {
            Seq::<char>::empty()
        }) + shown_from(registers, from + 1)
    }
}

impl Registers {
    /// The registers as pairs of a name and a value.
    pub closed spec fn view(&self) -> Seq<(Seq<char>, u64)> {
        Seq::new(
            self.registers@.len(),
            |i: int| (self.registers@[i].name@, self.registers@[i].value),
        )
    }

    pub fn from_context(ctx: &ThreadContext) -> (registers: Registers)
        ensures
            registers@ == register_names().zip_with(register_values(*ctx)),
    {
        let mut registers: Vec<Register> = Vec::new();
        registers.push(Register { name: String::from_str("rax"), value: ctx.rax });
        registers.push(Register { name: String::from_str("rbx"), value: ctx.rbx });
        registers.push(Register { name: String::from_str("rcx"), value: ctx.rcx });
        registers.push(Register { name: String::from_str("rdx"), value: ctx.rdx });
        registers.push(Register { name: String::from_str("rsi"), value: ctx.rsi });
        registers.push(Register { name: String::from_str("rdi"), value: ctx.rdi });
        registers.push(Register { name: String::from_str("rip"), value: ctx.rip });
        registers.push(Register { name: String::from_str("rsp"), value: ctx.rsp });
        registers.push(Register { name: String::from_str("rbp"), value: ctx.rbp });
        registers.push(Register { name: String::from_str("r8"), value: ctx.r8 });
        registers.push(Register { name: String::from_str("r9"), value: ctx.r9 });
        registers.push(Register { name: String::from_str("r10"), value: ctx.r10 });
        registers.push(Register { name: String::from_str("r11"), value: ctx.r11 });
        registers.push(Register { name: String::from_str("r12"), value: ctx.r12 });
        registers.push(Register { name: String::from_str("r13"), value: ctx.r13 });
        registers.push(Register { name: String::from_str("r14"), value: ctx.r14 });
        registers.push(Register { name: String::from_str("r15"), value: ctx.r15 });
        registers.push(Register { name: String::from_str("eflags"), value: ctx.eflags as u64 });
        let result = Registers { registers };
        assert(result@ =~= register_names().zip_with(register_values(*ctx)));
        result
    }

    /// The value of the register of the given name: the first one of that
    /// name, in the order in which the registers are shown.
    pub fn get_by_name(&self, name: &str) -> (value: Option<u64>)
        ensures
            match crate::search::first_true(
                Seq::new(self@.len(), |i: int| self@[i].0 == name@),
            ) {
                Some(index) => value == Some(self@[index].1),
                None => value is None,
            },
    {
        let ghost flags = Seq::new(self@.len(), |i: int| self@[i].0 == name@);
        let mut index: usize = 0;
        while index < self.registers.len()
            invariant
                index <= self.registers.len(),
                flags == Seq::new(self@.len(), |i: int| self@[i].0 == name@),
                crate::search::first_true(flags) == crate::search::first_from(
                    flags,
                    index as int,
                ),
            decreases self.registers.len() - index,
        {
            let named = same_text(self.registers[index].name.as_str(), name);
            assert(named == flags[index as int]);
            if named {
                return Some(self.registers[index].value);
            }
            index += 1;
        }
        None
    }

    /// The registers as text: three to a line, each with its name and its
    /// value in base sixteen.
    pub fn print(&self) -> (text: String)
        ensures
            text@ == shown_from(self@, 0),
    {
        let mut text = String::new();
        let mut index: usize = 0;
        assert(text@ + shown_from(self@, 0) =~= shown_from(self@, 0));
        while index < self.registers.len()
            invariant
                index <= self.registers.len(),
                shown_from(self@, 0) == text@ + shown_from(self@, index as int),
            decreases self.registers.len() - index,
        {
            let ghost before = text@;
            let reg = &self.registers[index];
            let ghost name = reg.name@;
            assert(self@[index as int] == (name, reg.value));
            text.append(reg.name.as_str());
            let length = reg.name.as_str().unicode_len();
            if length == 2 {
                text.append(" ");
            } else if length == 1 {
                text.append("  ");
            } else if length == 0 {
                text.append("   ");
            }
            proof {
                reveal_strlit(" ");
                reveal_strlit("  ");
                reveal_strlit("   ");
                assert(text@ =~= before + padded_name(name));
            }
            text.append("=0x");
            let mut digits: Vec<u8> = Vec::new();
            push_hex_fixed(&mut digits, reg.value, 16, false);
            assert(digits@ =~= hex_fixed(reg.value as nat, 16, false));
            text.append(ascii_string(digits).as_str());
            text.append(" ");
            let ghost shown = shown_register(name, reg.value);
            assert(text@ =~= before + shown);
            let end_of_line = index % 3 == 2 || index + 1 == self.registers.len();
            if end_of_line {
                text.append("\n");
            }
            proof {
                let ending = if end_of_line {
                    "\n"@
                } else {
                    Seq::<char>::empty()
                };
                assert(text@ =~= before + shown + ending);
                assert(before + (shown + ending + shown_from(self@, index + 1)) =~= text@
                    + shown_from(self@, index + 1));
            }
            index += 1;
        }
        assert(text@ + Seq::<char>::empty() =~= text@);
        text
    }
}

} // verus!
