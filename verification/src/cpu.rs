//! Registers and the register file of one core.
use vstd::prelude::*;
use vstd::string::*;
use crate::bits::{low_half, mask_low_half, stored_after_write, view_of, BitWidth};
use crate::digits::{append_decimal, append_hex, append_padded, decimal_digits, hex_digits, pad_left};
use crate::error::RegisterError;
use crate::names::{canonical_name, register_name, resolve, spec_resolve, REGISTER_COUNT};

verus! {

/// The width of a value shown as a hexadecimal literal: `0x` and the sixteen
/// digits of a 64-bit value.
pub const VALUE_TEXT_WIDTH: usize = 18;

/// What a register is, as plain values.
pub ghost struct RegisterState {
    pub name: Seq<char>,
    pub number: u32,
    pub value: u64,
    pub reset_value: u64,
}

impl RegisterState {
    /// The register with `value` in place of what it held.
    pub open spec fn with_value(self, value: u64) -> RegisterState {
        RegisterState { value, ..self }
    }

    /// What a read through `view` gives.
    pub open spec fn read(self, view: BitWidth) -> u64 {
        view_of(self.value, view)
    }

    /// The register after `value` was written through `view`.
    pub open spec fn write(self, view: BitWidth, value: u64) -> RegisterState {
        self.with_value(stored_after_write(view, value))
    }

    /// The register after a reset.
    pub open spec fn reset(self) -> RegisterState {
        self.with_value(self.reset_value)
    }

    /// The value as a hexadecimal literal of 18 characters: `0x` and the
    /// digits, behind the spaces that fill the width. Sixteen digits are the
    /// most that a 64-bit value has, so every value fills exactly that width.
    pub open spec fn value_text(self) -> Seq<char> {
        pad_left("0x"@ + hex_digits(self.value as nat), VALUE_TEXT_WIDTH as nat)
    }

    /// The line that shows the register: its number, its name and its value.
    pub open spec fn text(self) -> Seq<char> {
        "Register "@ + decimal_digits(self.number as nat) + " ("@ + self.name + "): "@
            + self.value_text()
    }
}

/// One architectural register: a 64-bit cell with a name, a number and the
/// value that a reset restores.
pub struct CPURegister {
    name: String,
    number: u32,
    value: u64,
    reset_value: u64,
}

impl View for CPURegister {
    type V = RegisterState;

    closed spec fn view(&self) -> RegisterState {
        RegisterState {
            name: self.name@,
            number: self.number,
            value: self.value,
            reset_value: self.reset_value,
        }
    }
}

impl CPURegister {
    /// A register that holds `initial_value` and goes back to `reset_value`
    /// on reset.
    pub fn new(name: String, number: u32, initial_value: u64, reset_value: u64) -> (register:
        CPURegister)
        ensures
            register@ == (RegisterState {
                name: name@,
                number,
                value: initial_value,
                reset_value,
            }),
    {
        CPURegister { name, number, value: initial_value, reset_value }
    }

    /// Replaces the whole 64-bit value.
    pub fn set_value(&mut self, value: u64)
        ensures
            final(self)@ == old(self)@.with_value(value),
            final(self)@ == old(self)@.write(BitWidth::Full64, value),
    {
        self.value = value;
    }

    /// The whole 64-bit value.
    pub fn get_value(&self) -> (value: u64)
        ensures
            value == self@.value,
            value == self@.read(BitWidth::Full64),
    {
        self.value
    }

    /// The 32-bit view: the low half of the stored value.
    pub fn get_32bit_value(&self) -> (value: u64)
        ensures
            value == low_half(self@.value),
            value == self@.read(BitWidth::Low32),
            value == self@.value % 0x1_0000_0000,
    {
        mask_low_half(self.value)
    }

    /// Writes the 32-bit view: the low half of `value` is stored and the high
    /// half of the register is cleared.
    pub fn set_32bit_value(&mut self, value: u64)
        ensures
            final(self)@ == old(self)@.with_value(low_half(value)),
            final(self)@ == old(self)@.write(BitWidth::Low32, value),
    {
        self.value = mask_low_half(value);
    }

    /// Restores the reset value.
    pub fn reset_register(&mut self)
        ensures
            final(self)@ == old(self)@.reset(),
    {
        self.value = self.reset_value;
    }

    /// The line that shows the register: its number, its name and its value
    /// as a hexadecimal literal of one width for every value.
    pub fn to_text(&self) -> (text: String)
        ensures
            text@ == self@.text(),
    {
        let mut literal = String::from_str("0x");
        append_hex(&mut literal, self.value);
        let mut text = String::from_str("Register ");
        append_decimal(&mut text, self.number as u64);
        text.append(" (");
        text.append(self.name.as_str());
        text.append("): ");
        append_padded(&mut text, literal.as_str(), VALUE_TEXT_WIDTH);
        assert(text@ =~= self@.text());
        text
    }
}

/// What a register file is, as plain values.
pub ghost struct ProcessorState {
    pub name: Seq<char>,
    pub number: u32,
    pub registers: Seq<RegisterState>,
}

/// The lines that show `registers`, one register to a line, in their order.
pub open spec fn register_lines(registers: Seq<RegisterState>) -> Seq<char>
    decreases registers.len(),
{
    if registers.len() == 0 {
        Seq::<char>::empty()
    } else {
        register_lines(registers.drop_last()) + "\t"@ + registers.last().text() + "\n"@
    }
}

impl ProcessorState {
    /// The register file of a core as it is built: every register under its
    /// canonical name, holding zero and reset to zero.
    pub open spec fn initial(name: Seq<char>, number: u32) -> ProcessorState {
        ProcessorState {
            name,
            number,
            registers: Seq::new(
                REGISTER_COUNT as nat,
                |i: int|
                    RegisterState {
                        name: canonical_name(i as u32),
                        number: i as u32,
                        value: 0,
                        reset_value: 0,
                    },
            ),
        }
    }

    /// The file holds the 34 registers, each in the place of its number and
    /// under its canonical name.
    pub open spec fn well_formed(self) -> bool {
        &&& self.registers.len() == REGISTER_COUNT
        &&& forall|i: int|
            0 <= i < REGISTER_COUNT ==> {
                &&& (#[trigger] self.registers[i]).number == i
                &&& self.registers[i].name == canonical_name(i as u32)
            }
    }

    /// Whether `number` is the number of a register of the file.
    pub open spec fn in_range(self, number: u32) -> bool {
        number < self.registers.len()
    }

    /// What a read of the register `number` through `view` gives.
    pub open spec fn read(self, number: u32, view: BitWidth) -> Result<u64, RegisterError> {
        if self.in_range(number) {
            Ok(self.registers[number as int].read(view))
        } else {
            Err(RegisterError::OutOfRange)
        }
    }

    /// The file with `register` in the place `number`.
    pub open spec fn with_register(self, number: u32, register: RegisterState) -> ProcessorState {
        ProcessorState { registers: self.registers.update(number as int, register), ..self }
    }

    /// The file after `value` was written to the register `number` through
    /// `view`; the file itself where there is no such register.
    pub open spec fn write(self, number: u32, view: BitWidth, value: u64) -> ProcessorState {
        if self.in_range(number) {
            self.with_register(number, self.registers[number as int].write(view, value))
        } else {
            self
        }
    }

    /// The file after a reset of the register `number`; the file itself where
    /// there is no such register.
    pub open spec fn reset_register(self, number: u32) -> ProcessorState {
        if self.in_range(number) {
            self.with_register(number, self.registers[number as int].reset())
        } else {
            self
        }
    }

    /// The file after a reset of every register.
    pub open spec fn reset(self) -> ProcessorState {
        ProcessorState {
            registers: Seq::new(self.registers.len(), |i: int| self.registers[i].reset()),
            ..self
        }
    }

    /// What a read by name gives: the read of the register and view that the
    /// name resolves to.
    pub open spec fn read_by_name(self, name: Seq<char>) -> Result<u64, RegisterError> {
        match spec_resolve(name) {
            Some(target) => self.read(target.0, target.1),
            None => Err(RegisterError::UnresolvableName),
        }
    }

    /// The file after a write by name; the file itself where the name does
    /// not resolve.
    pub open spec fn write_by_name(self, name: Seq<char>, value: u64) -> ProcessorState {
        match spec_resolve(name) {
            Some(target) => self.write(target.0, target.1, value),
            None => self,
        }
    }

    /// The text that shows the file: a header with the number and the name of
    /// the core, the registers line by line, and a closing line.
    pub open spec fn text(self) -> Seq<char> {
        "---CPU "@ + decimal_digits(self.number as nat) + " ("@ + self.name
            + ")---\n\t---Registers---\n"@ + register_lines(self.registers) + "\t------"@
    }
}

/// The register file of one processor core.
pub struct CPUProcessor {
    name: String,
    number: u32,
    registers: Vec<CPURegister>,
}

impl View for CPUProcessor {
    type V = ProcessorState;

    closed spec fn view(&self) -> ProcessorState {
        ProcessorState {
            name: self.name@,
            number: self.number,
            registers: Seq::new(self.registers@.len(), |i: int| self.registers@[i]@),
        }
    }
}

impl CPUProcessor {
    /// Whether the file holds its 34 registers in order.
    pub open spec fn wf(&self) -> bool {
        self@.well_formed()
    }

    /// The register file of the core `name`, every register at zero.
    pub fn new(name: String, number: u32) -> (processor: CPUProcessor)
        ensures
            processor.wf(),
            processor@ == ProcessorState::initial(name@, number),
    {
        let mut registers: Vec<CPURegister> = Vec::new();
        let mut next: u32 = 0;
        while next < REGISTER_COUNT
            invariant
                next <= REGISTER_COUNT,
                registers@.len() == next,
                forall|i: int|
                    0 <= i < next ==> (#[trigger] registers@[i])@ == (RegisterState {
                        name: canonical_name(i as u32),
                        number: i as u32,
                        value: 0,
                        reset_value: 0,
                    }),
            decreases REGISTER_COUNT - next,
        {
            registers.push(CPURegister::new(register_name(next), next, 0, 0));
            next = next + 1;
        }
        let processor = CPUProcessor { name, number, registers };
        assert(processor@.registers =~= ProcessorState::initial(name@, number).registers);
        processor
    }

    /// Reads the register `number` through `view`. A number that names no
    /// register is refused.
    pub fn read_register_from_number(&self, register_number: u32, view: BitWidth) -> (value:
        Result<u64, RegisterError>)
        requires
            self.wf(),
        ensures
            value == self@.read(register_number, view),
            value is Ok <==> register_number < REGISTER_COUNT,
    {
        if register_number >= REGISTER_COUNT {
            return Err(RegisterError::OutOfRange);
        }
        let register = &self.registers[register_number as usize];
        match view {
            BitWidth::Full64 => Ok(register.get_value()),
            BitWidth::Low32 => Ok(register.get_32bit_value()),
        }
    }

    /// Writes `value` to the register `number` through `view`: the whole
    /// value through the 64-bit view, its low half with the high half cleared
    /// through the 32-bit view. A number that names no register is refused,
    /// and nothing changes.
    pub fn write_register_from_number(
        &mut self,
        register_number: u32,
        view: BitWidth,
        value: u64,
    ) -> (done: Result<(), RegisterError>)
        requires
            old(self).wf(),
        ensures
            final(self).wf(),
            final(self)@ == old(self)@.write(register_number, view, value),
            register_number < REGISTER_COUNT ==> done == Ok::<(), RegisterError>(()),
            register_number >= REGISTER_COUNT ==> done == Err::<(), RegisterError>(
                RegisterError::OutOfRange,
            ) && final(self)@ == old(self)@,
    {
        if register_number >= REGISTER_COUNT {
            return Err(RegisterError::OutOfRange);
        }
        match view {
            BitWidth::Full64 => self.registers[register_number as usize].set_value(value),
            BitWidth::Low32 => self.registers[register_number as usize].set_32bit_value(value),
        }
        assert(final(self)@.registers =~= old(self)@.write(
            register_number,
            view,
            value,
        ).registers);
        Ok(())
    }

    /// Restores the reset value of the register `number`. A number that names
    /// no register is refused, and nothing changes.
    pub fn reset_register(&mut self, register_number: u32) -> (done: Result<(), RegisterError>)
        requires
            old(self).wf(),
        ensures
            final(self).wf(),
            final(self)@ == old(self)@.reset_register(register_number),
            register_number < REGISTER_COUNT ==> done == Ok::<(), RegisterError>(()),
            register_number >= REGISTER_COUNT ==> done == Err::<(), RegisterError>(
                RegisterError::OutOfRange,
            ) && final(self)@ == old(self)@,
    {
        if register_number >= REGISTER_COUNT {
            return Err(RegisterError::OutOfRange);
        }
        self.registers[register_number as usize].reset_register();
        assert(final(self)@.registers =~= old(self)@.reset_register(register_number).registers);
        Ok(())
    }

    /// Restores the reset value of every register.
    pub fn reset(&mut self)
        requires
            old(self).wf(),
        ensures
            final(self).wf(),
            final(self)@ == old(self)@.reset(),
    {
        let mut next: usize = 0;
        while next < self.registers.len()
            invariant
                next <= self.registers@.len(),
                self.registers@.len() == old(self).registers@.len(),
                self.name == old(self).name,
                self.number == old(self).number,
                forall|i: int|
                    0 <= i < next ==> (#[trigger] self.registers@[i])@ == old(
                        self,
                    ).registers@[i]@.reset(),
                forall|i: int|
                    next <= i < self.registers@.len() ==> (#[trigger] self.registers@[i])@ == old(
                        self,
                    ).registers@[i]@,
            decreases self.registers@.len() - next,
        {
            self.registers[next].reset_register();
            next = next + 1;
        }
        assert(final(self)@.registers =~= old(self)@.reset().registers);
    }

    /// Reads the register that `register_name` names, through the view that
    /// the name asks for. A name that does not resolve is refused.
    pub fn read_register_from_name(&self, register_name: String) -> (value: Result<
        u64,
        RegisterError,
    >)
        requires
            self.wf(),
        ensures
            value == self@.read_by_name(register_name@),
            value is Ok <==> spec_resolve(register_name@) is Some,
    {
        match resolve(register_name.as_str()) {
            Ok((number, view)) => self.read_register_from_number(number, view),
            Err(error) => Err(error),
        }
    }

    /// Writes `value` to the register that `register_name` names, through the
    /// view that the name asks for. A name that does not resolve is refused,
    /// and nothing changes.
    pub fn write_register_from_name(&mut self, register_name: String, value: u64) -> (done:
        Result<(), RegisterError>)
        requires
            old(self).wf(),
        ensures
            final(self).wf(),
            final(self)@ == old(self)@.write_by_name(register_name@, value),
            spec_resolve(register_name@) is Some ==> done == Ok::<(), RegisterError>(()),
            spec_resolve(register_name@) is None ==> done == Err::<(), RegisterError>(
                RegisterError::UnresolvableName,
            ) && final(self)@ == old(self)@,
    {
        match resolve(register_name.as_str()) {
            Ok((number, view)) => self.write_register_from_number(number, view, value),
            Err(error) => Err(error),
        }
    }

    /// The text that shows the file: a header with the number and the name of
    /// the core, then the registers in ascending order, one to a line.
    pub fn to_text(&self) -> (text: String)
        ensures
            text@ == self@.text(),
    {
        let mut text = String::from_str("---CPU ");
        append_decimal(&mut text, self.number as u64);
        text.append(" (");
        text.append(self.name.as_str());
        text.append(")---\n\t---Registers---\n");
        let ghost header = text@;
        let mut next: usize = 0;
        while next < self.registers.len()
            invariant
                next <= self.registers@.len(),
                text@ == header + register_lines(self@.registers.take(next as int)),
            decreases self.registers@.len() - next,
        {
            let line = self.registers[next].to_text();
            text.append("\t");
            text.append(line.as_str());
            text.append("\n");
            proof {
                let shown = self@.registers.take(next + 1);
                assert(shown.drop_last() =~= self@.registers.take(next as int));
                assert(shown.last() == self.registers@[next as int]@);
                assert(text@ =~= header + register_lines(shown));
            }
            next = next + 1;
        }
        assert(self@.registers.take(next as int) =~= self@.registers);
        text.append("\t------");
        assert(text@ =~= self@.text());
        text
    }
}

} // verus!
