use jasm::compiler::{compile, push_instruction_with_value, push_value};
use jasm::instructions::{Instruction, Value};

#[test]
fn a_bare_instruction_takes_two_bytes() {
    assert_eq!(compile(vec![Instruction::Output]), Ok(vec![0x00, 0x00]));
    assert_eq!(compile(vec![Instruction::CharacterOutput]), Ok(vec![0x00, 0x01]));
    assert_eq!(compile(vec![Instruction::CharacterInput]), Ok(vec![0x00, 0x02]));
    assert_eq!(compile(vec![Instruction::Dump]), Ok(vec![0x00, 0x03]));
    assert_eq!(compile(vec![Instruction::Return]), Ok(vec![0x00, 0x04]));
}

#[test]
fn an_operand_follows_high_byte_first() {
    assert_eq!(
        compile(vec![Instruction::SetValue(Value::Literal(0x1234))]),
        Ok(vec![0x00, 0x06, 0x12, 0x34])
    );
    assert_eq!(
        compile(vec![Instruction::Add(Value::Literal(0x00FF))]),
        Ok(vec![0x00, 0x07, 0x00, 0xFF])
    );
    assert_eq!(
        compile(vec![Instruction::Exit(Value::Literal(0xFF00))]),
        Ok(vec![0x00, 0x14, 0xFF, 0x00])
    );
}

#[test]
fn an_address_is_announced_by_the_mode_byte() {
    assert_eq!(
        compile(vec![Instruction::SetValue(Value::Address(0x0005))]),
        Ok(vec![0x10, 0x06, 0x00, 0x05])
    );
    assert_eq!(
        compile(vec![Instruction::Jump(Value::Address(0xFFFF))]),
        Ok(vec![0x10, 0x13, 0xFF, 0xFF])
    );
}

#[test]
fn the_empty_program_compiles_to_nothing() {
    assert_eq!(compile(Vec::new()), Ok(Vec::new()));
}

#[test]
fn records_follow_one_another_in_program_order() {
    let program = vec![
        Instruction::SetAddress(Value::Literal(0)),
        Instruction::SetValue(Value::Literal(0x41)),
        Instruction::CharacterOutput,
    ];
    assert_eq!(
        compile(program),
        Ok(vec![0x00, 0x05, 0x00, 0x00, 0x00, 0x06, 0x00, 0x41, 0x00, 0x01])
    );
}

#[test]
fn push_value_appends_two_bytes() {
    let mut compiled = vec![9u8];
    push_value(&mut compiled, &Value::Literal(0xABCD));
    assert_eq!(compiled, vec![9, 0xAB, 0xCD]);
    push_value(&mut compiled, &Value::Address(0x0102));
    assert_eq!(compiled, vec![9, 0xAB, 0xCD, 0x01, 0x02]);
}

#[test]
fn push_instruction_with_value_appends_mode_and_opcode() {
    let mut compiled = vec![9u8];
    push_instruction_with_value(&mut compiled, &Instruction::Multiply(Value::Literal(3)));
    assert_eq!(compiled, vec![9, 0x00, 0x09]);
    push_instruction_with_value(&mut compiled, &Instruction::Compare(Value::Address(3)));
    assert_eq!(compiled, vec![9, 0x00, 0x09, 0x10, 0x0C]);
}
