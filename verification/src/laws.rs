//! Laws of the register file, stated over its model and proved.
use vstd::prelude::*;
use crate::bits::{high_half, lemma_low_half, low_half, BitWidth};
use crate::cpu::{ProcessorState, RegisterState, VALUE_TEXT_WIDTH};
use crate::digits::{
    decimal_digits, hex_digits, is_decimal, lemma_decimal_round_trip, lemma_hex_length_of_u64,
};
use crate::error::RegisterError;
use crate::names::{
    canonical_name, general_body, general_number, special_body, special_number, spec_resolve,
    LAST_GENERAL_PURPOSE, PROGRAM_COUNTER, REGISTER_COUNT, STACK_POINTER, ZERO_REGISTER,
};

verus! {

/// A write and a reset leave the file well formed.
pub proof fn well_formed_is_kept(
    file: ProcessorState,
    number: u32,
    view: BitWidth,
    value: u64,
)
    requires
        file.well_formed(),
    ensures
        file.write(number, view, value).well_formed(),
        file.reset_register(number).well_formed(),
        file.reset().well_formed(),
{
}

/// What was written through the 64-bit view is read back through it, for
/// every register and every value.
pub proof fn full_write_is_read_back(file: ProcessorState, number: u32, value: u64)
    requires
        file.well_formed(),
        number < REGISTER_COUNT,
    ensures
        file.write(number, BitWidth::Full64, value).read(number, BitWidth::Full64) == Ok::<
            u64,
            RegisterError,
        >(value),
{
}

/// A write through the 32-bit view zero-extends: a value of 32 bits is read
/// back through the 32-bit view, and whatever was written, the register then
/// holds the low half of it under a high half of zero.
pub proof fn low_write_zero_extends(file: ProcessorState, number: u32, value: u64)
    requires
        file.well_formed(),
        number < REGISTER_COUNT,
    ensures
        value <= 0xFFFF_FFFF ==> file.write(number, BitWidth::Low32, value).read(
            number,
            BitWidth::Low32,
        ) == Ok::<u64, RegisterError>(value),
        file.write(number, BitWidth::Low32, value).read(number, BitWidth::Low32) == Ok::<
            u64,
            RegisterError,
        >(low_half(value)),
        match file.write(number, BitWidth::Low32, value).read(number, BitWidth::Full64) {
            Ok(stored) => high_half(stored) == 0 && stored == low_half(value),
            Err(_) => false,
        },
{
    lemma_low_half(value);
}

/// The 32-bit view of a register is the low half of what the 64-bit view
/// wrote: the value modulo 2^32, and no shift of it.
pub proof fn views_alias_one_register(file: ProcessorState, number: u32, value: u64)
    requires
        file.well_formed(),
        number < REGISTER_COUNT,
    ensures
        file.write(number, BitWidth::Full64, value).read(number, BitWidth::Low32) == Ok::<
            u64,
            RegisterError,
        >(low_half(value)),
        low_half(value) == value % 0x1_0000_0000,
{
    lemma_low_half(value);
}

/// A write to one register changes no other: every other register is read
/// as before, through either view.
pub proof fn write_leaves_the_others(
    file: ProcessorState,
    number: u32,
    view: BitWidth,
    value: u64,
    other: u32,
    other_view: BitWidth,
)
    requires
        file.well_formed(),
        other != number,
    ensures
        file.write(number, view, value).read(other, other_view) == file.read(other, other_view),
{
}

/// After a reset a register holds its reset value, whatever was written to
/// it before: zero in a file as it is built.
pub proof fn reset_restores(file: ProcessorState, number: u32, value: u64)
    requires
        file.well_formed(),
        number < REGISTER_COUNT,
    ensures
        file.write(number, BitWidth::Full64, value).reset_register(number).read(
            number,
            BitWidth::Full64,
        ) == Ok::<u64, RegisterError>(file.registers[number as int].reset_value),
        file.write(number, BitWidth::Full64, value).reset().read(number, BitWidth::Full64) == Ok::<
            u64,
            RegisterError,
        >(file.registers[number as int].reset_value),
{
}

/// In a file as it is built every register reads zero, and does so again
/// after any write and a reset.
pub proof fn initial_file_resets_to_zero(
    name: Seq<char>,
    core: u32,
    number: u32,
    value: u64,
)
    requires
        number < REGISTER_COUNT,
    ensures
        ProcessorState::initial(name, core).well_formed(),
        ProcessorState::initial(name, core).read(number, BitWidth::Full64) == Ok::<
            u64,
            RegisterError,
        >(0),
        ProcessorState::initial(name, core).write(number, BitWidth::Full64, value).reset_register(
            number,
        ).read(number, BitWidth::Full64) == Ok::<u64, RegisterError>(0),
{
}

/// A number that names no register is refused by a read, and a write or a
/// reset with it changes nothing.
pub proof fn out_of_range_is_refused(
    file: ProcessorState,
    number: u32,
    view: BitWidth,
    value: u64,
)
    requires
        file.well_formed(),
        number >= REGISTER_COUNT,
    ensures
        file.read(number, view) == Err::<u64, RegisterError>(RegisterError::OutOfRange),
        file.write(number, view, value) == file,
        file.reset_register(number) == file,
{
}

/// A name resolves to a register of the file: its number is below 34.
pub proof fn resolved_number_is_in_range(name: Seq<char>)
    ensures
        match spec_resolve(name) {
            Some(target) => target.0 < REGISTER_COUNT,
            None => true,
        },
{
}

/// The marker decides the view and nothing else: behind `X` and behind `W`
/// one body names the same register, through the 64-bit view and through the
/// 32-bit view.
pub proof fn markers_share_the_register(body: Seq<char>)
    ensures
        match spec_resolve(seq!['X'] + body) {
            Some(target) => target.1 == BitWidth::Full64 && spec_resolve(seq!['W'] + body) == Some(
                (target.0, BitWidth::Low32),
            ),
            None => spec_resolve(seq!['W'] + body) is None,
        },
{
    let wide = seq!['X'] + body;
    let narrow = seq!['W'] + body;
    assert(wide.drop_first() =~= body);
    assert(narrow.drop_first() =~= body);
}

/// The register and view that a number resolves to, where the number is one
/// of a general-purpose register.
pub open spec fn numbered(number: Option<u32>, view: BitWidth) -> Option<(u32, BitWidth)> {
    match number {
        Some(found) => Some((found, view)),
        None => None,
    }
}

/// A decimal number is resolved by its value alone, whatever marker stands
/// before it: alone, behind `X` and behind `R` it names the register of that
/// value through the 64-bit view, behind `W` through the 32-bit view, and no
/// register where the value is above 30.
pub proof fn decimal_names_resolve_by_value(digits: Seq<char>)
    requires
        is_decimal(digits),
    ensures
        spec_resolve(digits) == numbered(general_number(digits), BitWidth::Full64),
        spec_resolve(seq!['X'] + digits) == numbered(general_number(digits), BitWidth::Full64),
        spec_resolve(seq!['R'] + digits) == numbered(general_number(digits), BitWidth::Full64),
        spec_resolve(seq!['W'] + digits) == numbered(general_number(digits), BitWidth::Low32),
{
    assert((seq!['X'] + digits).drop_first() =~= digits);
    assert((seq!['R'] + digits).drop_first() =~= digits);
    assert((seq!['W'] + digits).drop_first() =~= digits);
    assert(special_number(digits) is None);
    assert(special_number(seq!['R'] + digits) is None) by {
        let name = seq!['R'] + digits;
        if name.len() == 2 {
            assert(name[1] == digits[0]);
        }
    }
    assert(general_body(digits) == digits);
    assert(special_body(digits) == digits);
    assert(special_body(seq!['R'] + digits) == seq!['R'] + digits);
}

/// The names of a general-purpose register: its number behind `X` or `R`, or
/// alone, for the 64-bit view, and behind `W` for the 32-bit view.
pub proof fn general_names_resolve(number: u32)
    requires
        number <= LAST_GENERAL_PURPOSE,
    ensures
        spec_resolve(seq!['X'] + decimal_digits(number as nat)) == Some(
            (number, BitWidth::Full64),
        ),
        spec_resolve(seq!['R'] + decimal_digits(number as nat)) == Some(
            (number, BitWidth::Full64),
        ),
        spec_resolve(decimal_digits(number as nat)) == Some((number, BitWidth::Full64)),
        spec_resolve(seq!['W'] + decimal_digits(number as nat)) == Some(
            (number, BitWidth::Low32),
        ),
{
    lemma_decimal_round_trip(number as nat);
    decimal_names_resolve_by_value(decimal_digits(number as nat));
}

/// A number above 30 names no general-purpose register, behind whatever
/// marker it stands.
pub proof fn numbers_above_thirty_are_refused(number: nat)
    requires
        number > LAST_GENERAL_PURPOSE,
    ensures
        spec_resolve(seq!['X'] + decimal_digits(number)) is None,
        spec_resolve(seq!['R'] + decimal_digits(number)) is None,
        spec_resolve(seq!['W'] + decimal_digits(number)) is None,
        spec_resolve(decimal_digits(number)) is None,
{
    lemma_decimal_round_trip(number);
    decimal_names_resolve_by_value(decimal_digits(number));
}

/// The names of the zero register, the stack pointer and the program
/// counter: `ZR`, `SP` and `PC`, alone or behind `X` for the 64-bit view, and
/// behind `W` for the 32-bit view.
pub proof fn special_names_resolve()
    ensures
        spec_resolve(seq!['Z', 'R']) == Some((ZERO_REGISTER, BitWidth::Full64)),
        spec_resolve(seq!['X', 'Z', 'R']) == Some((ZERO_REGISTER, BitWidth::Full64)),
        spec_resolve(seq!['W', 'Z', 'R']) == Some((ZERO_REGISTER, BitWidth::Low32)),
        spec_resolve(seq!['S', 'P']) == Some((STACK_POINTER, BitWidth::Full64)),
        spec_resolve(seq!['X', 'S', 'P']) == Some((STACK_POINTER, BitWidth::Full64)),
        spec_resolve(seq!['W', 'S', 'P']) == Some((STACK_POINTER, BitWidth::Low32)),
        spec_resolve(seq!['P', 'C']) == Some((PROGRAM_COUNTER, BitWidth::Full64)),
        spec_resolve(seq!['X', 'P', 'C']) == Some((PROGRAM_COUNTER, BitWidth::Full64)),
        spec_resolve(seq!['W', 'P', 'C']) == Some((PROGRAM_COUNTER, BitWidth::Low32)),
{
    assert(seq!['X', 'Z', 'R'].drop_first() =~= seq!['Z', 'R']);
    assert(seq!['W', 'Z', 'R'].drop_first() =~= seq!['Z', 'R']);
    assert(seq!['X', 'S', 'P'].drop_first() =~= seq!['S', 'P']);
    assert(seq!['W', 'S', 'P'].drop_first() =~= seq!['S', 'P']);
    assert(seq!['X', 'P', 'C'].drop_first() =~= seq!['P', 'C']);
    assert(seq!['W', 'P', 'C'].drop_first() =~= seq!['P', 'C']);
}

/// The name under which a register is kept resolves to that register,
/// through the 64-bit view.
pub proof fn canonical_name_resolves(number: u32)
    requires
        number < REGISTER_COUNT,
    ensures
        spec_resolve(canonical_name(number)) == Some((number, BitWidth::Full64)),
{
    if number <= LAST_GENERAL_PURPOSE {
        general_names_resolve(number);
    } else {
        special_names_resolve();
    }
}

/// A read by a name that resolves is the read of the register that it names;
/// a name that does not resolve is refused.
pub proof fn named_read_reaches_the_register(file: ProcessorState, name: Seq<char>)
    requires
        file.well_formed(),
    ensures
        match spec_resolve(name) {
            Some(target) => file.read_by_name(name) == Ok::<u64, RegisterError>(
                file.registers[target.0 as int].read(target.1),
            ),
            None => file.read_by_name(name) == Err::<u64, RegisterError>(
                RegisterError::UnresolvableName,
            ),
        },
{
}

/// The value of a register is shown in one width: the literal has 18
/// characters for every 64-bit value, and it ends in `0x` and the digits of
/// the value.
pub proof fn value_text_has_one_width(register: RegisterState)
    ensures
        register.value_text().len() == VALUE_TEXT_WIDTH,
        register.value_text().len() == 18,
        register.value_text().subrange(
            18 - (2 + hex_digits(register.value as nat).len()),
            18,
        ) == "0x"@ + hex_digits(register.value as nat),
{
    reveal_strlit("0x");
    lemma_hex_length_of_u64(register.value);
    let literal = "0x"@ + hex_digits(register.value as nat);
    assert(literal.len() == 2 + hex_digits(register.value as nat).len());
    assert(register.value_text().subrange(18 - literal.len(), 18) =~= literal);
}

/// Two registers are shown in lines of one length where their numbers and
/// names are as long as each other, whatever values they hold.
pub proof fn register_text_length_ignores_the_value(first: RegisterState, second: RegisterState)
    requires
        decimal_digits(first.number as nat).len() == decimal_digits(second.number as nat).len(),
        first.name.len() == second.name.len(),
    ensures
        first.text().len() == second.text().len(),
{
    value_text_has_one_width(first);
    value_text_has_one_width(second);
}

} // verus!
