//! Operands and instructions, and the opcode table that the lexer and the
//! codec share.

use crate::errors::{CodecError, LexError};
use crate::memory::Memory;
use crate::text::chars_of;
use vstd::pervasive::unreached;
use vstd::prelude::*;

verus! {

/// An operand: a constant, or the address of the cell that holds the number.
#[derive(Debug, Clone, Copy, PartialEq, Eq, Structural)]
pub enum Value {
    Literal(u16),
    Address(u16),
}

/// One operation of the machine. The variants from `SetAddress` on carry an
/// operand; the first five carry none.
#[derive(Debug, Clone, Copy, PartialEq, Eq, Structural)]
pub enum Instruction {
    Output,
    CharacterOutput,
    CharacterInput,
    Dump,
    Return,
    SetAddress(Value),
    SetValue(Value),
    Add(Value),
    Subtract(Value),
    Multiply(Value),
    Divide(Value),
    Label(Value),
    Compare(Value),
    GreaterThan(Value),
    LessThan(Value),
    GreaterThanEqual(Value),
    LessThanEqual(Value),
    BranchIfNotEqual(Value),
    BranchIfEqual(Value),
    Jump(Value),
    Exit(Value),
}

/// Highest opcode of an instruction without operand.
pub const LAST_BARE_OPCODE: u8 = 0x04;

/// Highest opcode of the table.
pub const LAST_OPCODE: u8 = 0x14;

impl Value {
    /// The 16 bits that the operand carries, whatever its addressing mode.
    pub open spec fn raw(self) -> u16 {
        match self {
            Value::Literal(n) => n,
            Value::Address(n) => n,
        }
    }

    /// The number that the operand stands for in `memory`: a literal is
    /// itself, an address is the content of the cell it names.
    pub open spec fn resolve(self, memory: Seq<u16>) -> u16 {
        match self {
            Value::Literal(n) => n,
            Value::Address(a) => memory[a as int],
        }
    }
}

/// Whether a record with this opcode byte is followed by an operand. Only the
/// opcodes of the bare instructions are not; a byte outside the table counts
/// as taking one.
pub open spec fn opcode_takes_operand(opcode: u8) -> bool {
    opcode > LAST_BARE_OPCODE
}

/// The opcode table: the instruction with the given opcode, carrying
/// `operand` where the opcode takes one.
pub open spec fn instruction_of(opcode: u8, operand: Value) -> Instruction
    recommends
        opcode <= LAST_OPCODE,
{
    match opcode {
        0x00 => Instruction::Output,
        0x01 => Instruction::CharacterOutput,
        0x02 => Instruction::CharacterInput,
        0x03 => Instruction::Dump,
        0x04 => Instruction::Return,
        0x05 => Instruction::SetAddress(operand),
        0x06 => Instruction::SetValue(operand),
        0x07 => Instruction::Add(operand),
        0x08 => Instruction::Subtract(operand),
        0x09 => Instruction::Multiply(operand),
        0x0A => Instruction::Divide(operand),
        0x0B => Instruction::Label(operand),
        0x0C => Instruction::Compare(operand),
        0x0D => Instruction::GreaterThan(operand),
        0x0E => Instruction::LessThan(operand),
        0x0F => Instruction::GreaterThanEqual(operand),
        0x10 => Instruction::LessThanEqual(operand),
        0x11 => Instruction::BranchIfNotEqual(operand),
        0x12 => Instruction::BranchIfEqual(operand),
        0x13 => Instruction::Jump(operand),
        _ => Instruction::Exit(operand),
    }
}

/// The opcode that a mnemonic of three letters names, if it names one.
pub open spec fn letters_opcode(a: char, b: char, c: char) -> Option<u8> {
    if a == 'O' && b == 'U' && c == 'T' {
        Some(0x00u8)
    } else if a == 'C' && b == 'U' && c == 'T' {
        Some(0x01u8)
    } else if a == 'C' && b == 'I' && c == 'N' {
        Some(0x02u8)
    } else if a == 'D' && b == 'M' && c == 'P' {
        Some(0x03u8)
    } else if a == 'R' && b == 'T' && c == 'N' {
        Some(0x04u8)
    } else if a == 'S' && b == 'E' && c == 'A' {
        Some(0x05u8)
    } else if a == 'S' && b == 'E' && c == 'T' {
        Some(0x06u8)
    } else if a == 'A' && b == 'D' && c == 'D' {
        Some(0x07u8)
    } else if a == 'S' && b == 'U' && c == 'B' {
        Some(0x08u8)
    } else if a == 'M' && b == 'U' && c == 'L' {
        Some(0x09u8)
    } else if a == 'D' && b == 'I' && c == 'V' {
        Some(0x0Au8)
    } else if a == 'L' && b == 'A' && c == 'B' {
        Some(0x0Bu8)
    } else if a == 'C' && b == 'E' && c == 'Q' {
        Some(0x0Cu8)
    } else if a == 'G' && b == 'T' && c == 'N' {
        Some(0x0Du8)
    } else if a == 'L' && b == 'T' && c == 'N' {
        Some(0x0Eu8)
    } else if a == 'G' && b == 'T' && c == 'E' {
        Some(0x0Fu8)
    } else if a == 'L' && b == 'T' && c == 'E' {
        Some(0x10u8)
    } else if a == 'B' && b == 'N' && c == 'E' {
        Some(0x11u8)
    } else if a == 'B' && b == 'E' && c == 'Q' {
        Some(0x12u8)
    } else if a == 'J' && b == 'M' && c == 'P' {
        Some(0x13u8)
    } else if a == 'E' && b == 'X' && c == 'T' {
        Some(0x14u8)
    } else {
        None
    }
}

/// The opcode that `mnemonic` names: the match is exact and case-sensitive.
pub open spec fn mnemonic_opcode(mnemonic: Seq<char>) -> Option<u8> {
    if mnemonic.len() == 3 {
        letters_opcode(mnemonic[0], mnemonic[1], mnemonic[2])
    } else {
        None
    }
}

/// The instruction that a mnemonic and the operand beside it spell. A bare
/// instruction ignores an operand; one that takes an operand must have it.
pub open spec fn assemble(mnemonic: Seq<char>, operand: Option<Value>) -> Result<
    Instruction,
    LexError,
> {
    match mnemonic_opcode(mnemonic) {
        None => Err(LexError::UnknownMnemonic),
        Some(opcode) => if !opcode_takes_operand(opcode) {
            Ok(instruction_of(opcode, Value::Literal(0)))
        } else {
            match operand {
                None => Err(LexError::MissingOperand),
                Some(value) => Ok(instruction_of(opcode, value)),
            }
        },
    }
}

/// The operand of a record: an address if the mode byte is not zero.
pub open spec fn operand_of(mode: u8, raw: u16) -> Value {
    if mode != 0 {
        Value::Address(raw)
    } else {
        Value::Literal(raw)
    }
}

/// The instruction that one record of a binary program holds: its mode byte,
/// its opcode byte and the operand read after them, if one was read.
pub open spec fn disassemble(mode: u8, opcode: u8, raw: Option<u16>) -> Result<
    Instruction,
    CodecError,
> {
    if opcode > LAST_OPCODE {
        Err(CodecError::UnknownOpcode)
    } else if !opcode_takes_operand(opcode) {
        Ok(instruction_of(opcode, Value::Literal(0)))
    } else {
        match raw {
            None => Err(CodecError::TruncatedStream),
            Some(n) => Ok(instruction_of(opcode, operand_of(mode, n))),
        }
    }
}

impl Instruction {
    /// The opcode byte of the instruction.
    pub open spec fn opcode(self) -> u8 {
        match self {
            Instruction::Output => 0x00,
            Instruction::CharacterOutput => 0x01,
            Instruction::CharacterInput => 0x02,
            Instruction::Dump => 0x03,
            Instruction::Return => 0x04,
            Instruction::SetAddress(_) => 0x05,
            Instruction::SetValue(_) => 0x06,
            Instruction::Add(_) => 0x07,
            Instruction::Subtract(_) => 0x08,
            Instruction::Multiply(_) => 0x09,
            Instruction::Divide(_) => 0x0A,
            Instruction::Label(_) => 0x0B,
            Instruction::Compare(_) => 0x0C,
            Instruction::GreaterThan(_) => 0x0D,
            Instruction::LessThan(_) => 0x0E,
            Instruction::GreaterThanEqual(_) => 0x0F,
            Instruction::LessThanEqual(_) => 0x10,
            Instruction::BranchIfNotEqual(_) => 0x11,
            Instruction::BranchIfEqual(_) => 0x12,
            Instruction::Jump(_) => 0x13,
            Instruction::Exit(_) => 0x14,
        }
    }

    /// The operand of the instruction, if it carries one.
    pub open spec fn operand(self) -> Option<Value> {
        match self {
            Instruction::Output => None,
            Instruction::CharacterOutput => None,
            Instruction::CharacterInput => None,
            Instruction::Dump => None,
            Instruction::Return => None,
            Instruction::SetAddress(value) => Some(value),
            Instruction::SetValue(value) => Some(value),
            Instruction::Add(value) => Some(value),
            Instruction::Subtract(value) => Some(value),
            Instruction::Multiply(value) => Some(value),
            Instruction::Divide(value) => Some(value),
            Instruction::Label(value) => Some(value),
            Instruction::Compare(value) => Some(value),
            Instruction::GreaterThan(value) => Some(value),
            Instruction::LessThan(value) => Some(value),
            Instruction::GreaterThanEqual(value) => Some(value),
            Instruction::LessThanEqual(value) => Some(value),
            Instruction::BranchIfNotEqual(value) => Some(value),
            Instruction::BranchIfEqual(value) => Some(value),
            Instruction::Jump(value) => Some(value),
            Instruction::Exit(value) => Some(value),
        }
    }

    /// Whether a record with this opcode byte is followed by an operand.
    pub fn u8_requires_value(instruction: u8) -> (takes: bool)
        ensures
            takes == opcode_takes_operand(instruction),
    {
        match instruction {
            0x00 => false,
            0x01 => false,
            0x02 => false,
            0x03 => false,
            0x04 => false,
            _ => true,
        }
    }

    /// Whether the instruction carries an operand.
    pub fn requires_value(&self) -> (carries: bool)
        ensures
            carries == self.operand().is_some(),
            carries == opcode_takes_operand(self.opcode()),
    {
        match self {
            Self::Output => false,
            Self::CharacterOutput => false,
            Self::CharacterInput => false,
            Self::Dump => false,
            Self::Return => false,
            _ => true,
        }
    }

    /// The operand of an instruction that carries one.
    pub fn get_value(&self) -> (value: Value)
        requires
            self.operand().is_some(),
        ensures
            self.operand() == Some(value),
    {
        match self {
            Instruction::SetAddress(value) => *value,
            Instruction::SetValue(value) => *value,
            Instruction::Add(value) => *value,
            Instruction::Subtract(value) => *value,
            Instruction::Multiply(value) => *value,
            Instruction::Divide(value) => *value,
            Instruction::Label(value) => *value,
            Instruction::Compare(value) => *value,
            Instruction::GreaterThan(value) => *value,
            Instruction::LessThan(value) => *value,
            Instruction::GreaterThanEqual(value) => *value,
            Instruction::LessThanEqual(value) => *value,
            Instruction::BranchIfNotEqual(value) => *value,
            Instruction::BranchIfEqual(value) => *value,
            Instruction::Jump(value) => *value,
            Instruction::Exit(value) => *value,
            _ => unreached(),
        }
    }

    /// Looks an opcode up in the table.
    fn with_opcode(opcode: u8, operand: Value) -> (instruction: Instruction)
        requires
            opcode <= LAST_OPCODE,
        ensures
            instruction == instruction_of(opcode, operand),
    {
        match opcode {
            0x00 => Instruction::Output,
            0x01 => Instruction::CharacterOutput,
            0x02 => Instruction::CharacterInput,
            0x03 => Instruction::Dump,
            0x04 => Instruction::Return,
            0x05 => Instruction::SetAddress(operand),
            0x06 => Instruction::SetValue(operand),
            0x07 => Instruction::Add(operand),
            0x08 => Instruction::Subtract(operand),
            0x09 => Instruction::Multiply(operand),
            0x0A => Instruction::Divide(operand),
            0x0B => Instruction::Label(operand),
            0x0C => Instruction::Compare(operand),
            0x0D => Instruction::GreaterThan(operand),
            0x0E => Instruction::LessThan(operand),
            0x0F => Instruction::GreaterThanEqual(operand),
            0x10 => Instruction::LessThanEqual(operand),
            0x11 => Instruction::BranchIfNotEqual(operand),
            0x12 => Instruction::BranchIfEqual(operand),
            0x13 => Instruction::Jump(operand),
            _ => Instruction::Exit(operand),
        }
    }

    /// Builds the instruction that `string` names, with `value` as its
    /// operand.
    pub fn from_string(string: &str, value: Option<Value>) -> (result: Result<Self, LexError>)
        ensures
            result == assemble(string@, value),
    {
        let letters = chars_of(string);
        Self::from_mnemonic(letters.as_slice(), value)
    }

    /// Builds the instruction that the letters of `mnemonic` name, with
    /// `value` as its operand.
    pub fn from_mnemonic(mnemonic: &[char], value: Option<Value>) -> (result: Result<
        Self,
        LexError,
    >)
        ensures
            result == assemble(mnemonic@, value),
    {
        match opcode_of_mnemonic(mnemonic) {
            None => Err(LexError::UnknownMnemonic),
            Some(opcode) => {
                if !Self::u8_requires_value(opcode) {
                    Ok(Self::with_opcode(opcode, Value::Literal(0)))
                } else {
                    match value {
                        None => Err(LexError::MissingOperand),
                        Some(operand) => Ok(Self::with_opcode(opcode, operand)),
                    }
                }
            },
        }
    }

    /// Builds the instruction of one record: `instruction` holds its mode
    /// byte and its opcode byte, `raw_value` the operand read after them.
    pub fn from_u8(instruction: [u8; 2], raw_value: Option<u16>) -> (result: Result<
        Self,
        CodecError,
    >)
        ensures
            result == disassemble(instruction[0], instruction[1], raw_value),
    {
        let mode = instruction[0];
        let opcode = instruction[1];
        if opcode > LAST_OPCODE {
            Err(CodecError::UnknownOpcode)
        } else if !Self::u8_requires_value(opcode) {
            Ok(Self::with_opcode(opcode, Value::Literal(0)))
        } else {
            match raw_value {
                None => Err(CodecError::TruncatedStream),
                Some(raw) => {
                    let operand = if mode > 0x00 {
                        Value::Address(raw)
                    } else {
                        Value::Literal(raw)
                    };
                    Ok(Self::with_opcode(opcode, operand))
                },
            }
        }
    }

    /// The opcode byte of the instruction. Every instruction has one.
    pub fn to_u8(&self) -> (result: Result<u8, CodecError>)
        ensures
            result == Ok::<u8, CodecError>(self.opcode()),
    {
        Ok(
            match self {
                Instruction::Output => 0x00,
                Instruction::CharacterOutput => 0x01,
                Instruction::CharacterInput => 0x02,
                Instruction::Dump => 0x03,
                Instruction::Return => 0x04,
                Instruction::SetAddress(_) => 0x05,
                Instruction::SetValue(_) => 0x06,
                Instruction::Add(_) => 0x07,
                Instruction::Subtract(_) => 0x08,
                Instruction::Multiply(_) => 0x09,
                Instruction::Divide(_) => 0x0A,
                Instruction::Label(_) => 0x0B,
                Instruction::Compare(_) => 0x0C,
                Instruction::GreaterThan(_) => 0x0D,
                Instruction::LessThan(_) => 0x0E,
                Instruction::GreaterThanEqual(_) => 0x0F,
                Instruction::LessThanEqual(_) => 0x10,
                Instruction::BranchIfNotEqual(_) => 0x11,
                Instruction::BranchIfEqual(_) => 0x12,
                Instruction::Jump(_) => 0x13,
                Instruction::Exit(_) => 0x14,
            },
        )
    }
}

/// Every instruction has one opcode of the table, carries an operand exactly
/// when that opcode takes one, and is the instruction that the table gives
/// for its opcode and its operand.
pub proof fn lemma_opcode_table(instruction: Instruction, spare: Value)
    ensures
        instruction.opcode() <= LAST_OPCODE,
        instruction.operand().is_some() == opcode_takes_operand(instruction.opcode()),
        instruction == instruction_of(
            instruction.opcode(),
            match instruction.operand() {
                Some(value) => value,
                None => spare,
            },
        ),
{
}

/// The opcode that the letters of `mnemonic` name.
pub fn opcode_of_mnemonic(mnemonic: &[char]) -> (opcode: Option<u8>)
    ensures
        opcode == mnemonic_opcode(mnemonic@),
{
    if mnemonic.len() != 3 {
        return None;
    }
    let a = mnemonic[0];
    let b = mnemonic[1];
    let c = mnemonic[2];
    if a == 'O' && b == 'U' && c == 'T' {
        Some(0x00)
    } else if a == 'C' && b == 'U' && c == 'T' {
        Some(0x01)
    } else if a == 'C' && b == 'I' && c == 'N' {
        Some(0x02)
    } else if a == 'D' && b == 'M' && c == 'P' {
        Some(0x03)
    } else if a == 'R' && b == 'T' && c == 'N' {
        Some(0x04)
    } else if a == 'S' && b == 'E' && c == 'A' {
        Some(0x05)
    } else if a == 'S' && b == 'E' && c == 'T' {
        Some(0x06)
    } else if a == 'A' && b == 'D' && c == 'D' {
        Some(0x07)
    } else if a == 'S' && b == 'U' && c == 'B' {
        Some(0x08)
    } else if a == 'M' && b == 'U' && c == 'L' {
        Some(0x09)
    } else if a == 'D' && b == 'I' && c == 'V' {
        Some(0x0A)
    } else if a == 'L' && b == 'A' && c == 'B' {
        Some(0x0B)
    } else if a == 'C' && b == 'E' && c == 'Q' {
        Some(0x0C)
    } else if a == 'G' && b == 'T' && c == 'N' {
        Some(0x0D)
    } else if a == 'L' && b == 'T' && c == 'N' {
        Some(0x0E)
    } else if a == 'G' && b == 'T' && c == 'E' {
        Some(0x0F)
    } else if a == 'L' && b == 'T' && c == 'E' {
        Some(0x10)
    } else if a == 'B' && b == 'N' && c == 'E' {
        Some(0x11)
    } else if a == 'B' && b == 'E' && c == 'Q' {
        Some(0x12)
    } else if a == 'J' && b == 'M' && c == 'P' {
        Some(0x13)
    } else if a == 'E' && b == 'X' && c == 'T' {
        Some(0x14)
    } else {
        None
    }
}

/// The number that `val` stands for: a literal is itself, an address is the
/// content of the cell it names. The memory is left as it was.
pub fn get_literal_value(val: &Value, memory: &mut Memory) -> (number: u16)
    ensures
        number == val.resolve(old(memory)@),
        *final(memory) == *old(memory),
{
    match val {
        Value::Literal(literal) => *literal,
        Value::Address(address) => memory.get(*address),
    }
}

} // verus!
