//! Addresses as the user writes them: a symbol of a module, a register, or a
//! number.

use vstd::prelude::*;

use crate::debugger::Debugger;
use crate::debugger::DebuggerView;
use crate::events::registers::Registers;
use crate::search::first_from;
use crate::search::first_true;
use crate::text::chars_of;

verus! {

/// The value of a digit in base ten or sixteen, where the character is one.
pub open spec fn digit_value(c: char, radix: u32) -> Option<nat> {
    if '0' <= c <= '9' {
        Some((c as u32 - '0' as u32) as nat)
    } else if radix == 16 && 'a' <= c <= 'f' {
        Some((c as u32 - 'a' as u32 + 10) as nat)
    } else if radix == 16 && 'A' <= c <= 'F' {
        Some((c as u32 - 'A' as u32 + 10) as nat)
    } else {
        None
    }
}

/// The number that the first `upto` characters stand for, where they are
/// all digits.
pub open spec fn digits_value(digits: Seq<char>, radix: u32, upto: int) -> Option<nat>
    decreases upto,
{
    if upto <= 0 {
        Some(0nat)
    } else {
        match (digits_value(digits, radix, upto - 1), digit_value(digits[upto - 1], radix)) {
            (Some(high), Some(low)) => Some((high * radix + low) as nat),
            _ => None,
        }
    }
}

/// The number that a text stands for in base ten or sixteen: one digit or
/// more, with or without a plus sign in front, and no greater than the
/// greatest address.
pub open spec fn number_value(text: Seq<char>, radix: u32) -> Option<usize> {
    let digits = if text.len() > 0 && text[0] == '+' {
        text.skip(1)
    } else {
        text
    };
    if digits.len() == 0 {
        None
    } else {
        match digits_value(digits, radix, digits.len() as int) {
            Some(value) => if value <= usize::MAX {
                Some(value as usize)
            } else {
                None
            },
            None => None,
        }
    }
}

/// The number that a text stands for: in base sixteen behind `0x`, else in
/// base ten.
pub open spec fn usize_value(text: Seq<char>) -> Option<usize> {
    if text.len() >= 2 && text[0] == '0' && text[1] == 'x' {
        number_value(text.skip(2), 16)
    } else {
        number_value(text, 10)
    }
}

proof fn lemma_digits_grow(digits: Seq<char>, radix: u32, low: int, high: int)
    requires
        0 <= low <= high,
        radix >= 1,
    ensures
        digits_value(digits, radix, low) is None ==> digits_value(digits, radix, high) is None,
        digits_value(digits, radix, high) matches Some(value) ==> digits_value(
            digits,
            radix,
            low,
        ) matches Some(part) && part <= value,
    decreases high - low,
{
    if low < high {
        lemma_digits_grow(digits, radix, low, high - 1);
        if let (Some(part), Some(digit)) = (
            digits_value(digits, radix, high - 1),
            digit_value(digits[high - 1], radix),
        ) {
            assert(part <= part * radix + digit) by (nonlinear_arith)
                requires
                    radix >= 1,
            ;
        }
    }
}

fn digit_of(c: char, radix: u32) -> (digit: Option<usize>)
    requires
        radix == 10 || radix == 16,
    ensures
        match digit_value(c, radix) {
            Some(value) => digit == Some(value as usize) && value < radix,
            None => digit is None,
        },
{
    if '0' <= c && c <= '9' {
        Some((c as u32 - '0' as u32) as usize)
    } else if radix == 16 && 'a' <= c && c <= 'f' {
        Some((c as u32 - 'a' as u32 + 10) as usize)
    } else if radix == 16 && 'A' <= c && c <= 'F' {
        Some((c as u32 - 'A' as u32 + 10) as usize)
    } else {
        None
    }
}

/// Reads a number in base ten or sixteen from the characters from `start`
/// on.
#[verifier::loop_isolation(false)]
fn parse_number(text: &Vec<char>, start: usize, radix: u32) -> (number: Option<usize>)
    requires
        start <= text.len(),
        radix == 10 || radix == 16,
    ensures
        number == number_value(text@.skip(start as int), radix),
{
    let ghost whole = text@.skip(start as int);
    let begin = if start < text.len() && text[start] == '+' {
        start + 1
    } else {
        start
    };
    let ghost digits = text@.skip(begin as int);
    assert(digits =~= if whole.len() > 0 && whole[0] == '+' {
        whole.skip(1)
    } else {
        whole
    });
    if begin == text.len() {
        return None;
    }
    let mut value: usize = 0;
    let mut index: usize = begin;
    while index < text.len()
        invariant
            begin <= index <= text.len(),
            radix == 10 || radix == 16,
            digits == text@.skip(begin as int),
            digits_value(digits, radix, index - begin) == Some(value as nat),
        decreases text.len() - index,
    {
        assert(digits[index - begin] == text@[index as int]);
        proof {
            lemma_digits_grow(digits, radix, index - begin + 1, digits.len() as int);
        }
        let digit = match digit_of(text[index], radix) {
            Some(digit) => digit,
            None => {
                return None;
            },
        };
        assert(digits_value(digits, radix, index - begin + 1) == Some(
            (value * radix + digit) as nat,
        ));
        let shifted = match value.checked_mul(radix as usize) {
            Some(shifted) => shifted,
            None => {
                return None;
            },
        };
        value = match shifted.checked_add(digit) {
            Some(sum) => sum,
            None => {
                return None;
            },
        };
        index += 1;
    }
    Some(value)
}

/// Reads a number: in base sixteen behind `0x`, else in base ten.
pub fn parse_usize(addr: &str) -> (number: Option<usize>)
    ensures
        number == usize_value(addr@),
{
    let text = chars_of(addr);
    if text.len() >= 2 && text[0] == '0' && text[1] == 'x' {
        parse_number(&text, 2, 16)
    } else {
        assert(text@.skip(0) =~= text@);
        parse_number(&text, 0, 10)
    }
}

/// For each character, whether it is an exclamation mark.
pub open spec fn marks(text: Seq<char>) -> Seq<bool> {
    Seq::new(text.len(), |i: int| text[i] == '!')
}

/// The address that a text names in a session, with the registers of the
/// stopped thread given by name and value: that of a symbol of a module,
/// written as `module!symbol`; else the value of a register, written as
/// `@register`; else a number. An address that does not fit the debugger's
/// own address space is none.
pub open spec fn address_value(
    text: Seq<char>,
    registers: Seq<(Seq<char>, u64)>,
    session: DebuggerView,
) -> Option<usize> {
    match first_true(marks(text)) {
        Some(mark) => match session.process.module_by_name(text.take(mark)) {
            Some(module) => fitting(module.resolve_function(text.skip(mark + 1))),
            None => None,
        },
        None => if text.len() > 0 && text[0] == '@' {
            match first_true(
                Seq::new(registers.len(), |i: int| registers[i].0 == text.skip(1)),
            ) {
                Some(index) => fitting(Some(registers[index].1)),
                None => None,
            }
        } else {
            usize_value(text)
        },
    }
}

/// A value as an address of the debugger's own address space, where it is
/// one.
pub open spec fn fitting(value: Option<u64>) -> Option<usize> {
    match value {
        Some(value) => if value <= usize::MAX {
            Some(value as usize)
        } else {
            None
        },
        None => None,
    }
}

fn fit(value: Option<u64>) -> (address: Option<usize>)
    ensures
        address == fitting(value),
{
    match value {
        Some(value) => if value <= usize::MAX as u64 {
            Some(value as usize)
        } else {
            None
        },
        None => None,
    }
}

/// Reads an address as the user writes it.
pub fn parse_addr(addr: &str, registers: &Registers, debugger: &Debugger) -> (address: Option<
    usize,
>)
    ensures
        address == address_value(addr@, registers@, debugger.deep_view()),
{
    let text = chars_of(addr);
    let ghost flags = marks(text@);
    let mut mark: usize = 0;
    while mark < text.len() && text[mark] != '!'
        invariant
            mark <= text.len(),
            flags == marks(text@),
            first_true(flags) == first_from(flags, mark as int),
        decreases text.len() - mark,
    {
        mark += 1;
    }
    if mark < text.len() {
        let module_name = addr.substring_char(0, mark);
        let function_name = addr.substring_char(mark + 1, text.len());
        assert(text@.subrange(0, mark as int) =~= text@.take(mark as int));
        assert(text@.subrange(mark + 1, text.len() as int) =~= text@.skip(mark + 1));
        fit(debugger.resolve_symbol(module_name, function_name))
    } else if text.len() > 0 && text[0] == '@' {
        let register = addr.substring_char(1, text.len());
        assert(text@.subrange(1, text.len() as int) =~= text@.skip(1));
        fit(registers.get_by_name(register))
    } else {
        parse_usize(addr)
    }
}

} // verus!
