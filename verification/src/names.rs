//! The names of the registers and how a name is resolved.
//!
//! A register name is an optional marker followed by a body. The marker `W`
//! asks for the 32-bit view; `X`, or no marker, for the 64-bit view. The body
//! is `ZR`, `SP` or `PC`, or the decimal number of a general-purpose register,
//! which may also stand behind the marker `R`.
use vstd::prelude::*;
use vstd::string::*;
use vstd::utf8::is_ascii_chars;
use crate::bits::BitWidth;
use crate::digits::{decimal_digits, decimal_value, digit_value, is_decimal, is_digit};
use crate::digits::{append_decimal, lemma_decimal_value_prefix};
use crate::error::RegisterError;

verus! {

/// How many registers a core has.
pub const REGISTER_COUNT: u32 = 34;

/// The highest number of a general-purpose register.
pub const LAST_GENERAL_PURPOSE: u32 = 30;

/// The number of the zero register.
pub const ZERO_REGISTER: u32 = 31;

/// The number of the stack pointer.
pub const STACK_POINTER: u32 = 32;

/// The number of the program counter.
pub const PROGRAM_COUNTER: u32 = 33;

/// Whether `name` begins with the character `c`.
pub open spec fn starts_with(name: Seq<char>, c: char) -> bool {
    name.len() > 0 && name[0] == c
}

/// The view that a name asks for.
pub open spec fn requested_view(name: Seq<char>) -> BitWidth {
    if starts_with(name, 'W') {
        BitWidth::Low32
    } else {
        BitWidth::Full64
    }
}

/// The name without its view marker, `W` or `X`, if it has one.
pub open spec fn special_body(name: Seq<char>) -> Seq<char> {
    if starts_with(name, 'W') || starts_with(name, 'X') {
        name.drop_first()
    } else {
        name
    }
}

/// The name without its marker `W`, `X` or `R`, if it has one.
pub open spec fn general_body(name: Seq<char>) -> Seq<char> {
    if starts_with(name, 'W') || starts_with(name, 'X') || starts_with(name, 'R') {
        name.drop_first()
    } else {
        name
    }
}

/// The number of the special register that `body` names, if it names one.
pub open spec fn special_number(body: Seq<char>) -> Option<u32> {
    if body =~= seq!['Z', 'R'] {
        Some(ZERO_REGISTER)
    } else if body =~= seq!['S', 'P'] {
        Some(STACK_POINTER)
    } else if body =~= seq!['P', 'C'] {
        Some(PROGRAM_COUNTER)
    } else {
        None
    }
}

/// The number of the general-purpose register that `body` names: `body` is a
/// decimal number of at most 30.
pub open spec fn general_number(body: Seq<char>) -> Option<u32> {
    if is_decimal(body) && decimal_value(body) <= LAST_GENERAL_PURPOSE {
        Some(decimal_value(body) as u32)
    } else {
        None
    }
}

/// The register and the view that `name` stands for; `None` where it is no
/// register name.
pub open spec fn spec_resolve(name: Seq<char>) -> Option<(u32, BitWidth)> {
    match special_number(special_body(name)) {
        Some(number) => Some((number, requested_view(name))),
        None => match general_number(general_body(name)) {
            Some(number) => Some((number, requested_view(name))),
            None => None,
        },
    }
}

/// The name under which the register `number` is kept: `R` and the number for
/// a general-purpose register, `ZR`, `SP` and `PC` for the others.
pub open spec fn canonical_name(number: u32) -> Seq<char> {
    if number == ZERO_REGISTER {
        seq!['Z', 'R']
    } else if number == STACK_POINTER {
        seq!['S', 'P']
    } else if number == PROGRAM_COUNTER {
        seq!['P', 'C']
    } else {
        seq!['R'] + decimal_digits(number as nat)
    }
}

/// The characters that a string of ASCII bytes spells.
pub open spec fn chars_of(bytes: Seq<u8>) -> Seq<char> {
    Seq::new(bytes.len(), |i: int| bytes[i] as char)
}

/// What `resolve` returns for a name that `spec_resolve` maps to `target`.
pub open spec fn resolution(target: Option<(u32, BitWidth)>) -> Result<(u32, BitWidth), RegisterError> {
    match target {
        Some(found) => Ok(found),
        None => Err(RegisterError::UnresolvableName),
    }
}

/// Every register name is made of ASCII characters.
pub proof fn lemma_register_names_are_ascii(name: Seq<char>)
    requires
        spec_resolve(name) is Some,
    ensures
        is_ascii_chars(name),
{
    assert forall|i: int| 0 <= i < name.len() implies '\0' <= #[trigger] name[i] <= '\u{7f}' by {
        let special = special_body(name);
        let general = general_body(name);
        if special_number(special) is Some {
            if special.len() != name.len() {
                if i > 0 {
                    assert(name[i] == special[i - 1]);
                }
            }
        } else {
            assert(is_decimal(general));
            if general.len() != name.len() {
                if i > 0 {
                    assert(name[i] == general[i - 1]);
                    assert(is_digit(general[i - 1]));
                }
            } else {
                assert(is_digit(general[i]));
            }
        }
    }
}

/// Reads the bytes from `start` on as the number of a general-purpose
/// register.
fn parse_general_number(bytes: &[u8], start: usize) -> (number: Option<u32>)
    requires
        start <= bytes@.len(),
    ensures
        number == general_number(chars_of(bytes@).subrange(start as int, bytes@.len() as int)),
{
    let length: usize = bytes.len();
    let ghost text = chars_of(bytes@).subrange(start as int, length as int);
    if start == length {
        return None;
    }
    let mut value: u32 = 0;
    let mut position: usize = start;
    while position < length
        invariant
            start <= position <= length,
            length == bytes@.len(),
            text == chars_of(bytes@).subrange(start as int, length as int),
            value == decimal_value(text.take(position - start)),
            value <= LAST_GENERAL_PURPOSE,
            forall|i: int| 0 <= i < position - start ==> is_digit(#[trigger] text[i]),
        decreases length - position,
    {
        let byte: u8 = bytes[position];
        let ghost read = position - start;
        assert(text[read] == byte as char);
        if byte < '0' as u8 || byte > '9' as u8 {
            assert(!is_digit(text[read]));
            return None;
        }
        let digit: u32 = (byte - '0' as u8) as u32;
        assert(digit == digit_value(text[read]));
        let next: u32 = 10 * value + digit;
        proof {
            assert(text.take(read + 1).drop_last() =~= text.take(read));
            assert(text.take(read + 1).last() == text[read]);
            assert(next == decimal_value(text.take(read + 1)));
            lemma_decimal_value_prefix(text, read + 1);
        }
        if next > LAST_GENERAL_PURPOSE {
            return None;
        }
        value = next;
        position = position + 1;
    }
    assert(text.take(length - start) =~= text);
    Some(value)
}

/// Resolves a name given as its ASCII bytes.
fn resolve_bytes(bytes: &[u8]) -> (resolved: Result<(u32, BitWidth), RegisterError>)
    ensures
        resolved == resolution(spec_resolve(chars_of(bytes@))),
{
    let length: usize = bytes.len();
    let ghost name = chars_of(bytes@);
    let narrow: bool = length > 0 && bytes[0] == 'W' as u8;
    let wide: bool = length > 0 && bytes[0] == 'X' as u8;
    let plain: bool = length > 0 && bytes[0] == 'R' as u8;
    assert(narrow == starts_with(name, 'W'));
    assert(wide == starts_with(name, 'X'));
    assert(plain == starts_with(name, 'R'));
    let view = if narrow {
        BitWidth::Low32
    } else {
        BitWidth::Full64
    };
    let special_start: usize = if narrow || wide {
        1
    } else {
        0
    };
    let ghost special = special_body(name);
    assert(special =~= name.subrange(special_start as int, length as int));
    if length - special_start == 2 {
        let first: u8 = bytes[special_start];
        let second: u8 = bytes[special_start + 1];
        assert(special[0] == first as char && special[1] == second as char);
        if first == 'Z' as u8 && second == 'R' as u8 {
            assert(special =~= seq!['Z', 'R']);
            return Ok((ZERO_REGISTER, view));
        }
        if first == 'S' as u8 && second == 'P' as u8 {
            assert(special =~= seq!['S', 'P']);
            return Ok((STACK_POINTER, view));
        }
        if first == 'P' as u8 && second == 'C' as u8 {
            assert(special =~= seq!['P', 'C']);
            return Ok((PROGRAM_COUNTER, view));
        }
    }
    assert(special_number(special) is None);
    let general_start: usize = if narrow || wide || plain {
        1
    } else {
        0
    };
    assert(general_body(name) =~= name.subrange(general_start as int, length as int));
    match parse_general_number(bytes, general_start) {
        Some(number) => Ok((number, view)),
        None => Err(RegisterError::UnresolvableName),
    }
}

/// Resolves a register name to the number of the register and the view that
/// the name asks for. A name that is no register name, or whose number is
/// above 30, is refused.
pub fn resolve(register_name: &str) -> (resolved: Result<(u32, BitWidth), RegisterError>)
    ensures
        resolved == resolution(spec_resolve(register_name@)),
{
    if !register_name.is_ascii() {
        proof {
            if spec_resolve(register_name@) is Some {
                lemma_register_names_are_ascii(register_name@);
            }
        }
        return Err(RegisterError::UnresolvableName);
    }
    let bytes = register_name.as_bytes();
    proof {
        is_ascii_spec_bytes(register_name);
        assert(chars_of(bytes@) =~= register_name@);
    }
    resolve_bytes(bytes)
}

/// The name under which the register `number` is kept.
pub fn register_name(number: u32) -> (name: String)
    ensures
        name@ == canonical_name(number),
{
    if number == ZERO_REGISTER {
        proof {
            reveal_strlit("ZR");
        }
        let name = String::from_str("ZR");
        assert(name@ =~= canonical_name(number));
        name
    } else if number == STACK_POINTER {
        proof {
            reveal_strlit("SP");
        }
        let name = String::from_str("SP");
        assert(name@ =~= canonical_name(number));
        name
    } else if number == PROGRAM_COUNTER {
        proof {
            reveal_strlit("PC");
        }
        let name = String::from_str("PC");
        assert(name@ =~= canonical_name(number));
        name
    } else {
        proof {
            reveal_strlit("R");
        }
        let mut name = String::from_str("R");
        append_decimal(&mut name, number as u64);
        assert(name@ =~= canonical_name(number));
        name
    }
}

} // verus!
