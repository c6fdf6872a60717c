//! The binary form of a program, and the compiler that writes it.
//!
//! A program is a sequence of records without header or length. A record is
//! a mode byte and an opcode byte; where the instruction carries an operand,
//! its 16 bits follow, high byte first.

use crate::errors::CodecError;
use crate::instructions::{Instruction, Value};
use vstd::prelude::*;

verus! {

/// The mode byte of a record whose instruction carries no operand.
pub const MODE_NONE: u8 = 0x00;

/// The mode byte of a record whose operand is a literal.
pub const MODE_LITERAL: u8 = 0x00;

/// The mode byte of a record whose operand is an address.
pub const MODE_ADDRESS: u8 = 0x10;

/// The mode byte that announces `value`.
pub open spec fn mode_byte(value: Value) -> u8 {
    match value {
        Value::Literal(_) => MODE_LITERAL,
        Value::Address(_) => MODE_ADDRESS,
    }
}

/// The upper eight bits of `n`.
pub open spec fn high_byte(n: u16) -> u8 {
    (n / 256) as u8
}

/// The lower eight bits of `n`.
pub open spec fn low_byte(n: u16) -> u8 {
    (n % 256) as u8
}

/// The record of one instruction.
pub open spec fn encode_instruction(instruction: Instruction) -> Seq<u8> {
    match instruction.operand() {
        None => seq![MODE_NONE, instruction.opcode()],
        Some(value) => seq![
            mode_byte(value),
            instruction.opcode(),
            high_byte(value.raw()),
            low_byte(value.raw()),
        ],
    }
}

/// The binary form of a program: the records of its instructions, in order.
pub open spec fn encode(program: Seq<Instruction>) -> Seq<u8>
    decreases program.len(),
{
    if program.len() == 0 {
        Seq::empty()
    } else {
        encode_instruction(program.first()) + encode(program.drop_first())
    }
}

/// The binary form of a program that ends with `last` is the binary form of
/// what comes before, followed by the record of `last`.
pub proof fn lemma_encode_push(program: Seq<Instruction>, last: Instruction)
    ensures
        encode(program.push(last)) == encode(program) + encode_instruction(last),
    decreases program.len(),
{
    let extended = program.push(last);
    if program.len() == 0 {
        assert(encode(extended.drop_first()) =~= Seq::<u8>::empty());
    } else {
        assert(extended.drop_first() =~= program.drop_first().push(last));
        lemma_encode_push(program.drop_first(), last);
    }
}

/// Appends the mode byte and the opcode byte of an instruction that carries
/// an operand.
pub fn push_instruction_with_value(compiled: &mut Vec<u8>, instruction: &Instruction)
    requires
        instruction.operand().is_some(),
    ensures
        final(compiled)@ == old(compiled)@ + seq![
            mode_byte(instruction.operand().unwrap()),
            instruction.opcode(),
        ],
{
    let value = instruction.get_value();
    compiled.push(
        match value {
            Value::Literal(_) => MODE_LITERAL,
            Value::Address(_) => MODE_ADDRESS,
        },
    );
    compiled.push(instruction.to_u8().unwrap());
}

/// Appends the 16 bits of an operand, high byte first.
pub fn push_value(compiled: &mut Vec<u8>, value: &Value)
    ensures
        final(compiled)@ == old(compiled)@ + seq![high_byte(value.raw()), low_byte(value.raw())],
{
    let val: u16 = match value {
        Value::Literal(val) => *val,
        Value::Address(val) => *val,
    };
    assert((val >> 8) == val / 256 && (val >> 8) < 256) by (bit_vector);
    assert((val & 0xff) == val % 256 && (val & 0xff) < 256) by (bit_vector);
    compiled.push((val >> 8) as u8);
    compiled.push((val & 0xff) as u8);
}

/// Writes a program in its binary form. Every program has one.
pub fn compile(instructions: Vec<Instruction>) -> (result: Result<Vec<u8>, CodecError>)
    ensures
        result matches Ok(compiled) && compiled@ == encode(instructions@),
{
    let mut compiled: Vec<u8> = Vec::new();
    let mut done: usize = 0;
    while done < instructions.len()
        invariant
            done <= instructions.len(),
            compiled@ == encode(instructions@.take(done as int)),
        decreases instructions.len() - done,
    {
        let instruction = instructions[done];
        if instruction.requires_value() {
            push_instruction_with_value(&mut compiled, &instruction);
            push_value(&mut compiled, &instruction.get_value());
        } else {
            compiled.push(MODE_NONE);
            compiled.push(instruction.to_u8()?);
        }
        proof {
            assert(instructions@.take(done + 1) =~= instructions@.take(done as int).push(
                instruction,
            ));
            lemma_encode_push(instructions@.take(done as int), instruction);
        }
        done += 1;
    }
    assert(instructions@.take(done as int) =~= instructions@);
    Ok(compiled)
}

} // verus!
