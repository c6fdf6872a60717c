//! What can go wrong: in source text, in a binary program, and during a run.

use vstd::prelude::*;

verus! {

/// Malformed source text.
#[derive(Debug, Clone, Copy, PartialEq, Eq, Structural)]
pub enum LexError {
    /// The first token of a line is not one of the mnemonics.
    UnknownMnemonic,
    /// The operand is not a `0x` or `0b` number of 16 bits.
    UnknownNumberFormat,
    /// The mnemonic takes an operand and the line has none.
    MissingOperand,
    /// The line holds no token at all.
    NoTokens,
}

/// Malformed binary program.
#[derive(Debug, Clone, Copy, PartialEq, Eq, Structural)]
pub enum CodecError {
    /// The opcode byte is outside the opcode table.
    UnknownOpcode,
    /// The stream ends inside a record.
    TruncatedStream,
}

/// An error that stops a run.
#[derive(Debug, Clone, Copy, PartialEq, Eq, Structural)]
pub enum RuntimeError {
    /// A jump or branch names a label that no `Label` instruction declares.
    UndeclaredLabel(u16),
    /// `Return` with no call to return from.
    EmptyCallStack,
    /// The cell to write as a character holds no Unicode scalar value.
    InvalidCharacter,
    /// `Divide` by zero.
    DivisionByZero,
}

} // verus!
