//! From text or bytes to a program.
//!
//! The textual form is read line by line. A line ends at a line feed; a
//! semicolon starts a comment that runs to the end of the line. What is left
//! is split at white space: the first word is the mnemonic, the second, if
//! there is one, the operand; further words are ignored. A line without a
//! word gives no instruction.

use crate::compiler::{encode, encode_instruction, high_byte, low_byte};
use crate::errors::{CodecError, LexError};
use crate::instructions::{
    assemble, disassemble, lemma_opcode_table, opcode_takes_operand, operand_of, Instruction,
    Value,
};
use crate::text::{char_is_whitespace, chars_of, is_whitespace};
use vstd::prelude::*;
use vstd::slice::slice_subrange;

verus! {

/// A class of characters that the lexer scans for.
#[derive(Debug, Clone, Copy, PartialEq, Eq, Structural)]
pub enum CharClass {
    /// White space.
    Space,
    /// Anything but white space.
    Word,
    /// Anything but the semicolon that starts a comment.
    Code,
    /// Anything but the line feed that ends a line.
    Line,
}

impl CharClass {
    /// Whether `c` belongs to the class.
    pub open spec fn holds(self, c: char) -> bool {
        match self {
            CharClass::Space => is_whitespace(c),
            CharClass::Word => !is_whitespace(c),
            CharClass::Code => c != ';',
            CharClass::Line => c != '\n',
        }
    }

    /// Tests a character for membership.
    pub fn contains(&self, c: char) -> (member: bool)
        ensures
            member == self.holds(c),
    {
        match self {
            CharClass::Space => char_is_whitespace(c),
            CharClass::Word => !char_is_whitespace(c),
            CharClass::Code => c != ';',
            CharClass::Line => c != '\n',
        }
    }
}

/// The length of the longest prefix of `text` whose characters all belong to
/// `class`.
pub open spec fn run_len(text: Seq<char>, class: CharClass) -> nat
    decreases text.len(),
{
    if text.len() > 0 && class.holds(text[0]) {
        1 + run_len(text.drop_first(), class)
    } else {
        0
    }
}

/// A run that starts at a member of the class is one longer than the run
/// that starts behind it.
proof fn lemma_run_step(text: Seq<char>, at: int, class: CharClass)
    requires
        0 <= at < text.len(),
        class.holds(text[at]),
    ensures
        run_len(text.skip(at), class) == 1 + run_len(text.skip(at + 1), class),
{
    assert(text.skip(at).drop_first() =~= text.skip(at + 1));
}

/// A run that starts at the end of the text, or at a character that is no
/// member of the class, is empty.
proof fn lemma_run_stop(text: Seq<char>, at: int, class: CharClass)
    requires
        0 <= at <= text.len(),
        at < text.len() ==> !class.holds(text[at]),
    ensures
        run_len(text.skip(at), class) == 0,
{
}

/// The index at which the run of `class` that starts at `from` ends.
fn scan(text: &[char], from: usize, class: CharClass) -> (end: usize)
    requires
        from <= text.len(),
    ensures
        from <= end <= text.len(),
        end - from == run_len(text@.skip(from as int), class),
{
    let mut end = from;
    while end < text.len() && class.contains(text[end])
        invariant
            from <= end <= text.len(),
            run_len(text@.skip(from as int), class) == (end - from) + run_len(
                text@.skip(end as int),
                class,
            ),
        decreases text.len() - end,
    {
        proof {
            lemma_run_step(text@, end as int, class);
        }
        end += 1;
    }
    proof {
        lemma_run_stop(text@, end as int, class);
    }
    end
}

/// The base of a number's digits.
#[derive(Debug, Clone, Copy, PartialEq, Eq, Structural)]
pub enum Radix {
    /// Digits `0` and `1`, after the prefix `0b`.
    Binary,
    /// Digits `0` to `9` and `a` to `f` in either case, after the prefix `0x`.
    Hexadecimal,
}

impl Radix {
    /// The base as a number.
    pub open spec fn base(self) -> int {
        match self {
            Radix::Binary => 2,
            Radix::Hexadecimal => 16,
        }
    }
}

/// The value of `c` as a digit, whatever the base: a decimal digit or one of
/// the letters `a` to `f`, in either case.
pub open spec fn hex_digit(c: char) -> Option<int> {
    let code = c as u32 as int;
    if 0x30 <= code <= 0x39 {
        Some(code - 0x30)
    } else if 0x41 <= code <= 0x46 {
        Some(code - 0x41 + 10)
    } else if 0x61 <= code <= 0x66 {
        Some(code - 0x61 + 10)
    } else {
        None
    }
}

/// The value of `c` as a digit in the given base, if it is one.
pub open spec fn digit_value(c: char, radix: Radix) -> Option<int> {
    match hex_digit(c) {
        Some(value) => if value < radix.base() {
            Some(value)
        } else {
            None
        },
        None => None,
    }
}

/// Whether every character of `digits` is a digit in the given base.
pub open spec fn all_digits(digits: Seq<char>, radix: Radix) -> bool {
    forall|i: int| 0 <= i < digits.len() ==> (#[trigger] digit_value(digits[i], radix)).is_some()
}

/// The number that `digits` write in the given base, most significant digit
/// first. A character that is no digit counts as zero.
pub open spec fn digits_value(digits: Seq<char>, radix: Radix) -> int
    decreases digits.len(),
{
    if digits.len() == 0 {
        0
    } else {
        digits_value(digits.drop_last(), radix) * radix.base() + (match digit_value(
            digits.last(),
            radix,
        ) {
            Some(value) => value,
            None => 0,
        })
    }
}

/// The 16-bit number that `digits` write: there is at least one digit, every
/// character is a digit of the base, and the number fits 16 bits.
pub open spec fn parse_number(digits: Seq<char>, radix: Radix) -> Option<u16> {
    if digits.len() > 0 && all_digits(digits, radix) && digits_value(digits, radix) <= 0xFFFF {
        Some(digits_value(digits, radix) as u16)
    } else {
        None
    }
}

/// Digits written after a number never make it smaller.
proof fn lemma_digits_value_monotone(digits: Seq<char>, radix: Radix, shorter: int)
    requires
        0 <= shorter <= digits.len(),
    ensures
        0 <= digits_value(digits.take(shorter), radix) <= digits_value(digits, radix),
    decreases digits.len(),
{
    if shorter == digits.len() {
        assert(digits.take(shorter) =~= digits);
        if digits.len() > 0 {
            lemma_digits_value_monotone(digits.drop_last(), radix, shorter - 1);
            let front = digits_value(digits.drop_last(), radix);
            assert(front * radix.base() >= 0) by (nonlinear_arith)
                requires
                    front >= 0,
                    radix.base() >= 2,
            ;
        }
    } else {
        let front = digits_value(digits.drop_last(), radix);
        lemma_digits_value_monotone(digits.drop_last(), radix, shorter);
        assert(digits.drop_last().take(shorter) =~= digits.take(shorter));
        assert(front * radix.base() >= front) by (nonlinear_arith)
            requires
                front >= 0,
                radix.base() >= 2,
        ;
    }
}

/// The value of one digit in the given base.
fn digit_of(c: char, radix: Radix) -> (digit: Option<u32>)
    ensures
        digit.is_some() == digit_value(c, radix).is_some(),
        digit matches Some(value) ==> digit_value(c, radix) == Some(value as int),
{
    let code: u32 = c as u32;
    let value: u32 = if 0x30 <= code && code <= 0x39 {
        code - 0x30
    } else if 0x41 <= code && code <= 0x46 {
        code - 0x41 + 10
    } else if 0x61 <= code && code <= 0x66 {
        code - 0x61 + 10
    } else {
        return None;
    };
    let base: u32 = match radix {
        Radix::Binary => 2,
        Radix::Hexadecimal => 16,
    };
    if value < base {
        Some(value)
    } else {
        None
    }
}

/// Reads a number of 16 bits from its digits.
pub fn number_of(digits: &[char], radix: Radix) -> (number: Option<u16>)
    ensures
        number == parse_number(digits@, radix),
{
    if digits.len() == 0 {
        return None;
    }
    let base: u32 = match radix {
        Radix::Binary => 2,
        Radix::Hexadecimal => 16,
    };
    let mut total: u32 = 0;
    let mut read: usize = 0;
    while read < digits.len()
        invariant
            read <= digits.len(),
            base == radix.base(),
            total == digits_value(digits@.take(read as int), radix),
            total <= 0xFFFF,
            all_digits(digits@.take(read as int), radix),
        decreases digits.len() - read,
    {
        let ghost longer = digits@.take(read + 1);
        proof {
            assert(longer.drop_last() =~= digits@.take(read as int));
        }
        match digit_of(digits[read], radix) {
            None => {
                return None;
            },
            Some(digit) => {
                assert(total * base + digit <= 0xFFFF * 16 + 15) by (nonlinear_arith)
                    requires
                        total <= 0xFFFF,
                        base <= 16,
                        digit < 16,
                ;
                total = total * base + digit;
                if total > 0xFFFF {
                    proof {
                        lemma_digits_value_monotone(digits@, radix, read + 1);
                    }
                    return None;
                }
            },
        }
        read += 1;
    }
    assert(digits@.take(read as int) =~= digits@);
    Some(total as u16)
}

/// The base that the prefix of `number` announces: `0x` or `0b`.
pub open spec fn radix_of(number: Seq<char>) -> Option<Radix> {
    if number.len() >= 2 && number[0] == '0' && number[1] == 'x' {
        Some(Radix::Hexadecimal)
    } else if number.len() >= 2 && number[0] == '0' && number[1] == 'b' {
        Some(Radix::Binary)
    } else {
        None
    }
}

/// The operand that a token writes: an asterisk in front, if there is one,
/// makes it an address; a prefix names the base; the digits follow.
pub open spec fn parse_operand(token: Seq<char>) -> Result<Value, LexError> {
    let address = token.len() > 0 && token[0] == '*';
    let number = if address {
        token.drop_first()
    } else {
        token
    };
    match radix_of(number) {
        None => Err(LexError::UnknownNumberFormat),
        Some(radix) => match parse_number(number.skip(2), radix) {
            None => Err(LexError::UnknownNumberFormat),
            Some(raw) => Ok(
                if address {
                    Value::Address(raw)
                } else {
                    Value::Literal(raw)
                },
            ),
        },
    }
}

/// Reads an operand from its token.
pub fn operand_of_token(token: &[char]) -> (result: Result<Value, LexError>)
    ensures
        result == parse_operand(token@),
{
    let address = token.len() > 0 && token[0] == '*';
    let start: usize = if address {
        1
    } else {
        0
    };
    let number = slice_subrange(token, start, token.len());
    assert(!address ==> number@ =~= token@);
    let radix = if number.len() >= 2 && number[0] == '0' && number[1] == 'x' {
        Radix::Hexadecimal
    } else if number.len() >= 2 && number[0] == '0' && number[1] == 'b' {
        Radix::Binary
    } else {
        return Err(LexError::UnknownNumberFormat);
    };
    let digits = slice_subrange(number, 2, number.len());
    match number_of(digits, radix) {
        None => Err(LexError::UnknownNumberFormat),
        Some(raw) => Ok(
            if address {
                Value::Address(raw)
            } else {
                Value::Literal(raw)
            },
        ),
    }
}

/// The first word of `text`: what stands between the white space in front
/// and the next white space.
pub open spec fn first_word(text: Seq<char>) -> Seq<char> {
    let from = text.skip(run_len(text, CharClass::Space) as int);
    from.take(run_len(from, CharClass::Word) as int)
}

/// What follows the first word of `text`.
pub open spec fn after_first_word(text: Seq<char>) -> Seq<char> {
    let from = text.skip(run_len(text, CharClass::Space) as int);
    from.skip(run_len(from, CharClass::Word) as int)
}

/// The part of a line in front of its comment.
pub open spec fn strip_comment(line: Seq<char>) -> Seq<char> {
    line.take(run_len(line, CharClass::Code) as int)
}

/// The instruction that one line writes. The operand is read before the
/// mnemonic is looked up, so its error comes first.
pub open spec fn lex_line(line: Seq<char>) -> Result<Instruction, LexError> {
    let code = strip_comment(line);
    let mnemonic = first_word(code);
    let operand = first_word(after_first_word(code));
    if mnemonic.len() == 0 {
        Err(LexError::NoTokens)
    } else if operand.len() == 0 {
        assemble(mnemonic, None)
    } else {
        match parse_operand(operand) {
            Err(error) => Err(error),
            Ok(value) => assemble(mnemonic, Some(value)),
        }
    }
}

/// `done`, followed by what `rest` holds if it holds a program.
pub open spec fn prepend<E>(done: Seq<Instruction>, rest: Result<Seq<Instruction>, E>) -> Result<
    Seq<Instruction>,
    E,
> {
    match rest {
        Ok(tail) => Ok(done + tail),
        Err(error) => Err(error),
    }
}

/// The program that source text writes: the instructions of its lines, in
/// order. A line without a word gives none. The first line in error decides
/// the error.
pub open spec fn lex(source: Seq<char>) -> Result<Seq<Instruction>, LexError>
    decreases source.len(),
{
    let len = run_len(source, CharClass::Line) as int;
    let rest = if len < source.len() {
        lex(source.skip(len + 1))
    } else {
        Ok(Seq::empty())
    };
    match lex_line(source.take(len)) {
        Err(LexError::NoTokens) => rest,
        Err(error) => Err(error),
        Ok(instruction) => prepend(seq![instruction], rest),
    }
}

/// Putting `first` in front of `rest`, and `done` in front of that, is
/// putting `done` with `first` at its end in front of `rest`.
proof fn lemma_prepend_push<E>(
    done: Seq<Instruction>,
    first: Instruction,
    rest: Result<Seq<Instruction>, E>,
)
    ensures
        prepend(done, prepend(seq![first], rest)) == prepend(done.push(first), rest),
{
    if let Ok(tail) = rest {
        assert(done + (seq![first] + tail) =~= done.push(first) + tail);
    }
}

/// A `Result` that holds a vector, seen as one that holds a sequence.
pub open spec fn program_view<E>(result: Result<Vec<Instruction>, E>) -> Result<
    Seq<Instruction>,
    E,
> {
    match result {
        Ok(program) => Ok(program@),
        Err(error) => Err(error),
    }
}

/// The bounds of the first word of `text` at or behind the index `from`.
fn word_at(text: &[char], from: usize) -> (bounds: (usize, usize))
    requires
        from <= text.len(),
    ensures
        from <= bounds.0 <= bounds.1 <= text.len(),
        text@.subrange(bounds.0 as int, bounds.1 as int) == first_word(text@.skip(from as int)),
        text@.skip(bounds.1 as int) == after_first_word(text@.skip(from as int)),
{
    let start = scan(text, from, CharClass::Space);
    let end = scan(text, start, CharClass::Word);
    proof {
        let rest = text@.skip(from as int);
        let word = rest.skip(start - from);
        assert(word =~= text@.skip(start as int));
        assert(word.take(end - start) =~= text@.subrange(start as int, end as int));
        assert(word.skip(end - start) =~= text@.skip(end as int));
    }
    (start, end)
}

/// Reads the instruction of one line.
pub fn lex_line_chars(line: &[char]) -> (result: Result<Instruction, LexError>)
    ensures
        result == lex_line(line@),
{
    let code_end = scan(line, 0, CharClass::Code);
    let code = slice_subrange(line, 0, code_end);
    proof {
        assert(line@.skip(0) =~= line@);
        assert(code@ =~= strip_comment(line@));
        assert(code@.skip(0) =~= code@);
    }
    let (mnemonic_start, mnemonic_end) = word_at(code, 0);
    let (operand_start, operand_end) = word_at(code, mnemonic_end);
    let mnemonic = slice_subrange(code, mnemonic_start, mnemonic_end);
    let operand = slice_subrange(code, operand_start, operand_end);
    if mnemonic.len() == 0 {
        Err(LexError::NoTokens)
    } else if operand.len() == 0 {
        Instruction::from_mnemonic(mnemonic, None)
    } else {
        match operand_of_token(operand) {
            Err(error) => Err(error),
            Ok(value) => Instruction::from_mnemonic(mnemonic, Some(value)),
        }
    }
}

/// Reads a program from the characters of its source text.
pub fn lex_program(source: &[char]) -> (result: Result<Vec<Instruction>, LexError>)
    ensures
        program_view(result) == lex(source@),
{
    let mut program: Vec<Instruction> = Vec::new();
    let mut start: usize = 0;
    assert(source@.skip(0) =~= source@);
    loop
        invariant
            start <= source.len(),
            lex(source@) == prepend(program@, lex(source@.skip(start as int))),
        decreases source.len() - start,
    {
        let ghost rest = source@.skip(start as int);
        let end = scan(source, start, CharClass::Line);
        let line = slice_subrange(source, start, end);
        let ghost behind = if end < source.len() {
            lex(source@.skip(end + 1))
        } else {
            Ok(Seq::empty())
        };
        proof {
            assert(line@ =~= rest.take(end - start));
            if end < source.len() {
                assert(rest.skip(end - start + 1) =~= source@.skip(end + 1));
            }
        }
        match lex_line_chars(line) {
            Ok(instruction) => {
                proof {
                    lemma_prepend_push(program@, instruction, behind);
                }
                program.push(instruction);
            },
            Err(LexError::NoTokens) => {},
            Err(error) => {
                return Err(error);
            },
        }
        if end >= source.len() {
            assert(program@ + Seq::<Instruction>::empty() =~= program@);
            return Ok(program);
        }
        start = end + 1;
    }
}

/// Reads one line of source text. A line without a word is an error here.
pub fn lex_line_str(line: &str) -> (result: Result<Instruction, LexError>)
    ensures
        result == lex_line(line@),
{
    let chars = chars_of(line);
    lex_line_chars(chars.as_slice())
}

/// Reads a program from its source text.
pub fn lex_str(source: &str) -> (result: Result<Vec<Instruction>, LexError>)
    ensures
        program_view(result) == lex(source@),
{
    let chars = chars_of(source);
    lex_program(chars.as_slice())
}

/// The 16-bit number with the given high and low byte.
pub open spec fn word(high: u8, low: u8) -> u16 {
    (high as int * 256 + low as int) as u16
}

/// The program that a byte stream holds: its records, in order. The stream
/// must end where a record ends. The first record in error decides the error;
/// a record that is cut short is reported before its opcode is looked up.
pub open spec fn decode(bytes: Seq<u8>) -> Result<Seq<Instruction>, CodecError>
    decreases bytes.len(),
{
    if bytes.len() == 0 {
        Ok(Seq::empty())
    } else if bytes.len() < 2 {
        Err(CodecError::TruncatedStream)
    } else if !opcode_takes_operand(bytes[1]) {
        match disassemble(bytes[0], bytes[1], None) {
            Err(error) => Err(error),
            Ok(instruction) => prepend(seq![instruction], decode(bytes.skip(2))),
        }
    } else if bytes.len() < 4 {
        Err(CodecError::TruncatedStream)
    } else {
        match disassemble(bytes[0], bytes[1], Some(word(bytes[2], bytes[3]))) {
            Err(error) => Err(error),
            Ok(instruction) => prepend(seq![instruction], decode(bytes.skip(4))),
        }
    }
}

/// Reads a program from its binary form.
pub fn lex_bin(bytes: &[u8]) -> (result: Result<Vec<Instruction>, CodecError>)
    ensures
        program_view(result) == decode(bytes@),
{
    let mut program: Vec<Instruction> = Vec::new();
    let mut at: usize = 0;
    assert(bytes@.skip(0) =~= bytes@);
    while at < bytes.len()
        invariant
            at <= bytes.len(),
            decode(bytes@) == prepend(program@, decode(bytes@.skip(at as int))),
        decreases bytes.len() - at,
    {
        let ghost rest = bytes@.skip(at as int);
        if bytes.len() - at < 2 {
            return Err(CodecError::TruncatedStream);
        }
        let header: [u8; 2] = [bytes[at], bytes[at + 1]];
        let mut raw_value: Option<u16> = None;
        let mut size: usize = 2;
        if Instruction::u8_requires_value(header[1]) {
            if bytes.len() - at < 4 {
                return Err(CodecError::TruncatedStream);
            }
            let high: u16 = bytes[at + 2] as u16;
            let low: u16 = bytes[at + 3] as u16;
            raw_value = Some(high * 256 + low);
            size = 4;
        }
        match Instruction::from_u8(header, raw_value) {
            Err(error) => {
                return Err(error);
            },
            Ok(instruction) => {
                proof {
                    assert(rest.skip(size as int) =~= bytes@.skip(at + size));
                    lemma_prepend_push(program@, instruction, decode(bytes@.skip(at + size)));
                }
                program.push(instruction);
            },
        }
        at += size;
    }
    Ok(program)
}

/// The two bytes of a number give the number back.
pub proof fn lemma_word_of_bytes(n: u16)
    ensures
        word(high_byte(n), low_byte(n)) == n,
{
}

/// A record in front of a byte stream is read back as its instruction, and
/// the reading goes on behind it.
pub proof fn lemma_decode_record(instruction: Instruction, rest: Seq<u8>)
    ensures
        decode(encode_instruction(instruction) + rest) == prepend(seq![instruction], decode(rest)),
{
    let record = encode_instruction(instruction);
    let bytes = record + rest;
    lemma_opcode_table(instruction, Value::Literal(0));
    match instruction.operand() {
        None => {
            assert(bytes.skip(2) =~= rest);
        },
        Some(value) => {
            assert(bytes.skip(4) =~= rest);
            lemma_word_of_bytes(value.raw());
        },
    }
}

/// Decoding undoes encoding: the binary form of a program is read back as
/// that program.
pub proof fn lemma_decode_encode(program: Seq<Instruction>)
    ensures
        decode(encode(program)) == Ok::<Seq<Instruction>, CodecError>(program),
    decreases program.len(),
{
    if program.len() == 0 {
        assert(program =~= Seq::<Instruction>::empty());
    } else {
        lemma_decode_record(program.first(), encode(program.drop_first()));
        lemma_decode_encode(program.drop_first());
        assert(seq![program.first()] + program.drop_first() =~= program);
    }
}

/// Every source text that lexes gives a program whose binary form is read
/// back as the same program.
pub proof fn lemma_lex_round_trip(source: Seq<char>)
    requires
        lex(source).is_ok(),
    ensures
        decode(encode(lex(source).unwrap())) == Ok::<Seq<Instruction>, CodecError>(
            lex(source).unwrap(),
        ),
{
    lemma_decode_encode(lex(source).unwrap());
}

} // verus!
