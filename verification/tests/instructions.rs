use jasm::errors::{CodecError, LexError};
use jasm::instructions::{get_literal_value, opcode_of_mnemonic, Instruction, Value};
use jasm::memory::Memory;

fn table() -> Vec<(&'static str, u8, bool)> {
    vec![
        ("OUT", 0x00, false),
        ("CUT", 0x01, false),
        ("CIN", 0x02, false),
        ("DMP", 0x03, false),
        ("RTN", 0x04, false),
        ("SEA", 0x05, true),
        ("SET", 0x06, true),
        ("ADD", 0x07, true),
        ("SUB", 0x08, true),
        ("MUL", 0x09, true),
        ("DIV", 0x0A, true),
        ("LAB", 0x0B, true),
        ("CEQ", 0x0C, true),
        ("GTN", 0x0D, true),
        ("LTN", 0x0E, true),
        ("GTE", 0x0F, true),
        ("LTE", 0x10, true),
        ("BNE", 0x11, true),
        ("BEQ", 0x12, true),
        ("JMP", 0x13, true),
        ("EXT", 0x14, true),
    ]
}

#[test]
fn every_mnemonic_has_its_opcode_and_arity() {
    for (mnemonic, opcode, takes) in table() {
        let instruction = Instruction::from_string(mnemonic, Some(Value::Literal(7))).unwrap();
        assert_eq!(instruction.to_u8(), Ok(opcode), "{}", mnemonic);
        assert_eq!(instruction.requires_value(), takes, "{}", mnemonic);
        assert_eq!(Instruction::u8_requires_value(opcode), takes, "{}", mnemonic);
        if takes {
            assert_eq!(instruction.get_value(), Value::Literal(7));
        }
    }
}

#[test]
fn every_opcode_is_read_back_from_its_byte() {
    for (mnemonic, opcode, _) in table() {
        let from_text = Instruction::from_string(mnemonic, Some(Value::Address(9))).unwrap();
        let from_byte = Instruction::from_u8([0x10, opcode], Some(9)).unwrap();
        assert_eq!(from_text, from_byte, "{}", mnemonic);
    }
}

#[test]
fn from_string_builds_the_named_variant() {
    assert_eq!(Instruction::from_string("OUT", None), Ok(Instruction::Output));
    assert_eq!(Instruction::from_string("RTN", None), Ok(Instruction::Return));
    assert_eq!(
        Instruction::from_string("SET", Some(Value::Literal(0x41))),
        Ok(Instruction::SetValue(Value::Literal(0x41)))
    );
    assert_eq!(
        Instruction::from_string("JMP", Some(Value::Address(3))),
        Ok(Instruction::Jump(Value::Address(3)))
    );
    assert_eq!(
        Instruction::from_string("EXT", Some(Value::Literal(1))),
        Ok(Instruction::Exit(Value::Literal(1)))
    );
}

#[test]
fn from_string_ignores_the_operand_of_a_bare_instruction() {
    assert_eq!(
        Instruction::from_string("CUT", Some(Value::Literal(1))),
        Ok(Instruction::CharacterOutput)
    );
}

#[test]
fn from_string_rejects_what_is_no_mnemonic() {
    for text in ["", "OU", "OUTT", "out", "Out", "XYZ", "SE T", "\u{00D6}UT"] {
        assert_eq!(
            Instruction::from_string(text, Some(Value::Literal(0))),
            Err(LexError::UnknownMnemonic),
            "{:?}",
            text
        );
    }
}

#[test]
fn from_string_asks_for_the_operand() {
    assert_eq!(Instruction::from_string("SET", None), Err(LexError::MissingOperand));
    assert_eq!(Instruction::from_string("EXT", None), Err(LexError::MissingOperand));
    assert_eq!(Instruction::from_string("SEA", None), Err(LexError::MissingOperand));
}

#[test]
fn opcode_of_mnemonic_matches_three_letters_exactly() {
    assert_eq!(opcode_of_mnemonic(&['D', 'I', 'V']), Some(0x0A));
    assert_eq!(opcode_of_mnemonic(&['d', 'i', 'v']), None);
    assert_eq!(opcode_of_mnemonic(&['D', 'I']), None);
    assert_eq!(opcode_of_mnemonic(&[]), None);
}

#[test]
fn from_u8_reads_the_mode_byte() {
    assert_eq!(
        Instruction::from_u8([0x00, 0x06], Some(0x1234)),
        Ok(Instruction::SetValue(Value::Literal(0x1234)))
    );
    assert_eq!(
        Instruction::from_u8([0x10, 0x06], Some(0x1234)),
        Ok(Instruction::SetValue(Value::Address(0x1234)))
    );
    assert_eq!(
        Instruction::from_u8([0x01, 0x07], Some(2)),
        Ok(Instruction::Add(Value::Address(2)))
    );
    assert_eq!(
        Instruction::from_u8([0xFF, 0x14], Some(0xFFFF)),
        Ok(Instruction::Exit(Value::Address(0xFFFF)))
    );
}

#[test]
fn from_u8_needs_no_operand_for_a_bare_opcode() {
    assert_eq!(Instruction::from_u8([0x00, 0x00], None), Ok(Instruction::Output));
    assert_eq!(Instruction::from_u8([0x10, 0x03], None), Ok(Instruction::Dump));
    assert_eq!(Instruction::from_u8([0x00, 0x04], Some(5)), Ok(Instruction::Return));
}

#[test]
fn from_u8_rejects_an_opcode_outside_the_table() {
    assert_eq!(Instruction::from_u8([0x00, 0x15], Some(0)), Err(CodecError::UnknownOpcode));
    assert_eq!(Instruction::from_u8([0x00, 0xFF], None), Err(CodecError::UnknownOpcode));
}

#[test]
fn from_u8_reports_a_missing_operand_as_truncation() {
    assert_eq!(Instruction::from_u8([0x00, 0x05], None), Err(CodecError::TruncatedStream));
    assert_eq!(Instruction::from_u8([0x10, 0x14], None), Err(CodecError::TruncatedStream));
}

#[test]
fn u8_requires_value_counts_unknown_bytes_as_taking_one() {
    assert!(!Instruction::u8_requires_value(0x04));
    assert!(Instruction::u8_requires_value(0x05));
    assert!(Instruction::u8_requires_value(0x15));
    assert!(Instruction::u8_requires_value(0xFF));
}

#[test]
fn get_literal_value_resolves_both_modes() {
    let mut memory = Memory::new();
    memory.set(5, 777);
    assert_eq!(get_literal_value(&Value::Literal(5), &mut memory), 5);
    assert_eq!(get_literal_value(&Value::Address(5), &mut memory), 777);
    assert_eq!(get_literal_value(&Value::Address(6), &mut memory), 0);
    assert_eq!(memory.get(5), 777);
}

#[test]
fn get_literal_value_reaches_the_last_cell() {
    let mut memory = Memory::new();
    memory.set(65535, 12);
    assert_eq!(get_literal_value(&Value::Address(65535), &mut memory), 12);
}
