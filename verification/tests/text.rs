use emulator::bits::BitWidth;
use emulator::cpu::{CPUProcessor, CPURegister, VALUE_TEXT_WIDTH};
use emulator::digits::{append_decimal, append_hex, append_padded};
use emulator::names::{register_name, REGISTER_COUNT};

const SAMPLES: [u64; 12] = [
    0,
    1,
    9,
    10,
    15,
    16,
    255,
    4096,
    0xFFFF_FFFF,
    0x00FF_FFFF_FFFF_FFFF,
    0xDEAD_BEEF_0000_0001,
    u64::MAX,
];

#[test]
fn append_decimal_writes_the_number() {
    for value in SAMPLES {
        let mut text = String::from("n=");
        append_decimal(&mut text, value);
        assert_eq!(text, format!("n={}", value));
    }
    let mut text = String::new();
    append_decimal(&mut text, 0);
    assert_eq!(text, "0");
    append_decimal(&mut text, 1234567890);
    assert_eq!(text, "01234567890");
}

#[test]
fn append_hex_writes_lower_case_digits() {
    for value in SAMPLES {
        let mut text = String::from("0x");
        append_hex(&mut text, value);
        assert_eq!(text, format!("{:#x}", value));
    }
    let mut text = String::new();
    append_hex(&mut text, 0xABCDEF);
    assert_eq!(text, "abcdef");
}

#[test]
fn append_padded_fills_with_spaces_in_front() {
    let mut text = String::from("[");
    append_padded(&mut text, "ab", 5);
    assert_eq!(text, "[   ab");
    append_padded(&mut text, "cd", 2);
    assert_eq!(text, "[   abcd");
    append_padded(&mut text, "efg", 1);
    assert_eq!(text, "[   abcdefg");
    append_padded(&mut text, "", 2);
    assert_eq!(text, "[   abcdefg  ");
    append_padded(&mut text, "", 0);
    assert_eq!(text, "[   abcdefg  ");
}

#[test]
fn register_text_shows_number_name_and_value() {
    let register = CPURegister::new(String::from("R5"), 5, 0, 0);
    assert_eq!(register.to_text(), "Register 5 (R5):                0x0");
    let register = CPURegister::new(String::from("SP"), 32, 0xFF, 0);
    assert_eq!(register.to_text(), "Register 32 (SP):               0xff");
    let register = CPURegister::new(String::from("R2"), 2, 0xDEAD_BEEF_0000_0001, 0);
    assert_eq!(register.to_text(), "Register 2 (R2): 0xdeadbeef00000001");
    let register = CPURegister::new(String::from("R9"), 9, 0x00AB_CDEF_0123_4567, 0);
    assert_eq!(register.to_text(), "Register 9 (R9):   0xabcdef01234567");
    let register = CPURegister::new(String::from("R9"), 9, 0x0100_0000_0000_0000, 0);
    assert_eq!(register.to_text(), "Register 9 (R9):  0x100000000000000");
    let register = CPURegister::new(String::from("R9"), 9, u64::MAX, 0);
    assert_eq!(register.to_text(), "Register 9 (R9): 0xffffffffffffffff");
}

#[test]
fn register_text_matches_the_standard_formatting() {
    for value in SAMPLES {
        let register = CPURegister::new(String::from("R30"), 30, value, 0);
        assert_eq!(register.to_text(), format!("Register {} ({}): {:#18x}", 30, "R30", value));
    }
}

#[test]
fn register_text_has_one_width_for_every_value() {
    assert_eq!(VALUE_TEXT_WIDTH, 18);
    let head = "Register 30 (R30): ".len();
    let mut values: Vec<u64> = SAMPLES.to_vec();
    for shift in 0..64u32 {
        values.push(1u64 << shift);
        values.push((1u64 << shift) - 1);
    }
    for value in values {
        let register = CPURegister::new(String::from("R30"), 30, value, 0);
        let text = register.to_text();
        assert_eq!(text.len(), head + 18, "{:#x}", value);
        assert!(text.ends_with(&format!("{:#x}", value)));
        let literal = &text[head..];
        assert_eq!(literal.trim_start_matches(' '), format!("{:#x}", value));
    }
}

#[test]
fn new_file_text() {
    let processor = CPUProcessor::new(String::from("CPU0"), 0);
    let mut expected = String::from("---CPU 0 (CPU0)---\n\t---Registers---\n");
    for number in 0..REGISTER_COUNT {
        let name = match number {
            31 => String::from("ZR"),
            32 => String::from("SP"),
            33 => String::from("PC"),
            _ => format!("R{}", number),
        };
        expected.push_str(&format!("\tRegister {} ({}):                0x0\n", number, name));
    }
    expected.push_str("\t------");
    assert_eq!(processor.to_text(), expected);
    assert_eq!(processor.to_text().lines().count(), 37);
    assert!(processor.to_text().contains("\tRegister 22 (R22):"));
}

#[test]
fn file_text_shows_the_registers_in_ascending_order() {
    let mut processor = CPUProcessor::new(String::from("core-b"), 7);
    for number in 0..REGISTER_COUNT {
        let value = u64::from(number) * 0x0101_0101_0101_0101;
        assert_eq!(processor.write_register_from_number(number, BitWidth::Full64, value), Ok(()));
    }
    let mut expected = format!("---CPU {} ({})---\n\t---Registers---\n", 7, "core-b");
    for number in 0..REGISTER_COUNT {
        let value = u64::from(number) * 0x0101_0101_0101_0101;
        expected.push_str(&format!(
            "\tRegister {} ({}): {:#18x}\n",
            number,
            register_name(number),
            value
        ));
    }
    expected.push_str("\t------");
    assert_eq!(processor.to_text(), expected);
}

#[test]
fn file_text_lines_keep_their_length_whatever_the_values() {
    let mut processor = CPUProcessor::new(String::from("CPU0"), 0);
    let before: Vec<usize> = processor.to_text().lines().map(|line| line.len()).collect();
    for number in 0..REGISTER_COUNT {
        let value = u64::MAX >> (number % 64);
        assert_eq!(processor.write_register_from_number(number, BitWidth::Full64, value), Ok(()));
    }
    let after: Vec<usize> = processor.to_text().lines().map(|line| line.len()).collect();
    assert_eq!(before, after);
    assert_eq!(processor.write_register_from_number(0, BitWidth::Full64, 1u64 << 56), Ok(()));
    let text = processor.to_text();
    assert!(text.contains("\tRegister 0 (R0):  0x100000000000000\n"));
    assert!(text.contains("\tRegister 1 (R1): 0x7fffffffffffffff\n"));
}
