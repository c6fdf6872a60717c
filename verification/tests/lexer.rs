use jasm::compiler::compile;
use jasm::errors::{CodecError, LexError};
use jasm::instructions::{Instruction, Value};
use jasm::lexer::{lex_bin, lex_line_str, lex_str, number_of, operand_of_token, Radix};

fn chars(text: &str) -> Vec<char> {
    text.chars().collect()
}

fn every_variant() -> Vec<Instruction> {
    vec![
        Instruction::Output,
        Instruction::CharacterOutput,
        Instruction::CharacterInput,
        Instruction::Dump,
        Instruction::Return,
        Instruction::SetAddress(Value::Literal(0)),
        Instruction::SetValue(Value::Address(1)),
        Instruction::Add(Value::Literal(0xFFFF)),
        Instruction::Subtract(Value::Address(0xFFFF)),
        Instruction::Multiply(Value::Literal(0x0100)),
        Instruction::Divide(Value::Address(0x00FF)),
        Instruction::Label(Value::Literal(7)),
        Instruction::Compare(Value::Address(8)),
        Instruction::GreaterThan(Value::Literal(9)),
        Instruction::LessThan(Value::Address(10)),
        Instruction::GreaterThanEqual(Value::Literal(11)),
        Instruction::LessThanEqual(Value::Address(12)),
        Instruction::BranchIfNotEqual(Value::Literal(7)),
        Instruction::BranchIfEqual(Value::Address(7)),
        Instruction::Jump(Value::Literal(7)),
        Instruction::Exit(Value::Address(0x1234)),
    ]
}

#[test]
fn lexes_the_example_program() {
    assert_eq!(
        lex_str("SEA 0x0000 \n SET 0x0041 \n CUT"),
        Ok(vec![
            Instruction::SetAddress(Value::Literal(0)),
            Instruction::SetValue(Value::Literal(0x41)),
            Instruction::CharacterOutput,
        ])
    );
}

#[test]
fn the_empty_text_is_the_empty_program() {
    assert_eq!(lex_str(""), Ok(Vec::new()));
    assert_eq!(lex_str("\n\n\n"), Ok(Vec::new()));
    assert_eq!(lex_str("   \n\t\n ; nothing here\n"), Ok(Vec::new()));
}

#[test]
fn comments_and_blank_lines_take_no_slot() {
    let source = "; a program\n\nSET 0x01 ; one\n   ; indented comment\nOUT;two\n\n";
    assert_eq!(
        lex_str(source),
        Ok(vec![Instruction::SetValue(Value::Literal(1)), Instruction::Output])
    );
}

#[test]
fn a_comment_may_hide_the_operand() {
    assert_eq!(lex_str("SET ;0x01"), Err(LexError::MissingOperand));
    assert_eq!(lex_str("OUT ;0x01"), Ok(vec![Instruction::Output]));
    assert_eq!(lex_str("SET 0x0;1"), Ok(vec![Instruction::SetValue(Value::Literal(0))]));
}

#[test]
fn leading_white_space_is_trimmed() {
    assert_eq!(
        lex_str("\t  ADD 0x02\n      SUB 0x03"),
        Ok(vec![Instruction::Add(Value::Literal(2)), Instruction::Subtract(Value::Literal(3))])
    );
}

#[test]
fn carriage_returns_are_white_space() {
    assert_eq!(
        lex_str("SET 0x01\r\nOUT\r\n"),
        Ok(vec![Instruction::SetValue(Value::Literal(1)), Instruction::Output])
    );
}

#[test]
fn a_lone_carriage_return_ends_no_line() {
    assert_eq!(lex_str("OUT\rCUT"), Err(LexError::UnknownNumberFormat));
}

#[test]
fn unicode_white_space_separates_tokens() {
    assert_eq!(
        lex_str("SET\u{00A0}0x01\n\u{3000}MUL\u{2003}0x02\u{2028}"),
        Ok(vec![Instruction::SetValue(Value::Literal(1)), Instruction::Multiply(Value::Literal(2))])
    );
}

#[test]
fn an_asterisk_makes_an_address() {
    assert_eq!(lex_str("SET *0x0005"), Ok(vec![Instruction::SetValue(Value::Address(5))]));
    assert_eq!(lex_str("SET 0x0005"), Ok(vec![Instruction::SetValue(Value::Literal(5))]));
    assert_eq!(lex_str("JMP *0b11"), Ok(vec![Instruction::Jump(Value::Address(3))]));
}

#[test]
fn numbers_are_hexadecimal_or_binary() {
    assert_eq!(lex_str("SET 0xFFFF"), Ok(vec![Instruction::SetValue(Value::Literal(65535))]));
    assert_eq!(lex_str("SET 0xffff"), Ok(vec![Instruction::SetValue(Value::Literal(65535))]));
    assert_eq!(lex_str("SET 0xAbCd"), Ok(vec![Instruction::SetValue(Value::Literal(0xABCD))]));
    assert_eq!(lex_str("SET 0b101"), Ok(vec![Instruction::SetValue(Value::Literal(5))]));
    assert_eq!(
        lex_str("SET 0b1111111111111111"),
        Ok(vec![Instruction::SetValue(Value::Literal(65535))])
    );
    assert_eq!(lex_str("SET 0x00000041"), Ok(vec![Instruction::SetValue(Value::Literal(0x41))]));
    assert_eq!(lex_str("SET 0x0"), Ok(vec![Instruction::SetValue(Value::Literal(0))]));
}

#[test]
fn a_number_that_does_not_fit_sixteen_bits_fails() {
    assert_eq!(lex_str("SET 0x10000"), Err(LexError::UnknownNumberFormat));
    assert_eq!(lex_str("SET 0b10000000000000000"), Err(LexError::UnknownNumberFormat));
    assert_eq!(lex_str("SET 0xFFFFFFFFFFFFFFFFFFFFFFFF"), Err(LexError::UnknownNumberFormat));
}

#[test]
fn an_unknown_prefix_fails() {
    for source in ["SET 12", "SET 0q12", "SET 0X12", "SET 0B1", "SET x12", "SET 0", "SET *", "SET *5", "SET **0x5", "SET 0", "SET $12"] {
        assert_eq!(lex_str(source), Err(LexError::UnknownNumberFormat), "{:?}", source);
    }
}

#[test]
fn digits_must_belong_to_the_base() {
    for source in ["SET 0x", "SET 0b", "SET 0xG1", "SET 0b12", "SET 0x0x12", "SET 0x+1", "SET 0x-1", "SET 0x1_0", "SET 0b0b1"] {
        assert_eq!(lex_str(source), Err(LexError::UnknownNumberFormat), "{:?}", source);
    }
}

#[test]
fn an_unknown_mnemonic_fails() {
    assert_eq!(lex_str("FOO"), Err(LexError::UnknownMnemonic));
    assert_eq!(lex_str("out"), Err(LexError::UnknownMnemonic));
    assert_eq!(lex_str("SETT 0x01"), Err(LexError::UnknownMnemonic));
    assert_eq!(lex_str("OUT\nNOP\nOUT"), Err(LexError::UnknownMnemonic));
}

#[test]
fn a_missing_operand_fails() {
    assert_eq!(lex_str("SET"), Err(LexError::MissingOperand));
    assert_eq!(lex_str("OUT\nJMP   \nOUT"), Err(LexError::MissingOperand));
}

#[test]
fn the_operand_is_read_before_the_mnemonic() {
    assert_eq!(lex_str("FOO 12"), Err(LexError::UnknownNumberFormat));
    assert_eq!(lex_str("FOO 0x12"), Err(LexError::UnknownMnemonic));
}

#[test]
fn a_bare_mnemonic_ignores_a_well_formed_operand() {
    assert_eq!(lex_str("OUT 0x01"), Ok(vec![Instruction::Output]));
    assert_eq!(lex_str("RTN *0b1"), Ok(vec![Instruction::Return]));
    assert_eq!(lex_str("OUT junk"), Err(LexError::UnknownNumberFormat));
}

#[test]
fn words_behind_the_operand_are_ignored() {
    assert_eq!(
        lex_str("SET 0x01 and more words"),
        Ok(vec![Instruction::SetValue(Value::Literal(1))])
    );
}

#[test]
fn the_first_line_in_error_decides() {
    assert_eq!(lex_str("SET\nFOO\nSET 12"), Err(LexError::MissingOperand));
    assert_eq!(lex_str("OUT\nSET 12\nFOO"), Err(LexError::UnknownNumberFormat));
}

#[test]
fn a_single_line_without_a_word_has_no_tokens() {
    assert_eq!(lex_line_str(""), Err(LexError::NoTokens));
    assert_eq!(lex_line_str("   \t "), Err(LexError::NoTokens));
    assert_eq!(lex_line_str("; only a comment"), Err(LexError::NoTokens));
    assert_eq!(lex_line_str("  ;SET 0x01"), Err(LexError::NoTokens));
}

#[test]
fn a_single_line_gives_its_instruction() {
    assert_eq!(lex_line_str("  CEQ *0x00ff ; compare"), Ok(Instruction::Compare(Value::Address(255))));
    assert_eq!(lex_line_str("EXT 0b0"), Ok(Instruction::Exit(Value::Literal(0))));
}

#[test]
fn number_of_reads_digits_in_the_base() {
    assert_eq!(number_of(&chars("1f"), Radix::Hexadecimal), Some(31));
    assert_eq!(number_of(&chars("1F"), Radix::Hexadecimal), Some(31));
    assert_eq!(number_of(&chars("10"), Radix::Hexadecimal), Some(16));
    assert_eq!(number_of(&chars("10"), Radix::Binary), Some(2));
    assert_eq!(number_of(&chars("0000000000000000000001"), Radix::Binary), Some(1));
    assert_eq!(number_of(&chars("ffff"), Radix::Hexadecimal), Some(65535));
    assert_eq!(number_of(&chars("10000"), Radix::Hexadecimal), None);
    assert_eq!(number_of(&chars(""), Radix::Hexadecimal), None);
    assert_eq!(number_of(&chars("2"), Radix::Binary), None);
    assert_eq!(number_of(&chars("g"), Radix::Hexadecimal), None);
    assert_eq!(number_of(&chars("10000g"), Radix::Hexadecimal), None);
    assert_eq!(number_of(&chars("\u{0661}"), Radix::Hexadecimal), None);
}

#[test]
fn operand_of_token_reads_mode_prefix_and_digits() {
    assert_eq!(operand_of_token(&chars("0x2A")), Ok(Value::Literal(42)));
    assert_eq!(operand_of_token(&chars("*0x2A")), Ok(Value::Address(42)));
    assert_eq!(operand_of_token(&chars("0b101010")), Ok(Value::Literal(42)));
    assert_eq!(operand_of_token(&chars("")), Err(LexError::UnknownNumberFormat));
    assert_eq!(operand_of_token(&chars("2A")), Err(LexError::UnknownNumberFormat));
    assert_eq!(operand_of_token(&chars("0x*2A")), Err(LexError::UnknownNumberFormat));
}

#[test]
fn decodes_records_in_order() {
    assert_eq!(
        lex_bin(&[0x00, 0x05, 0x00, 0x00, 0x00, 0x06, 0x00, 0x41, 0x00, 0x01]),
        Ok(vec![
            Instruction::SetAddress(Value::Literal(0)),
            Instruction::SetValue(Value::Literal(0x41)),
            Instruction::CharacterOutput,
        ])
    );
}

#[test]
fn the_empty_stream_is_the_empty_program() {
    assert_eq!(lex_bin(&[]), Ok(Vec::new()));
}

#[test]
fn any_mode_byte_but_zero_means_address() {
    assert_eq!(lex_bin(&[0x10, 0x06, 0x12, 0x34]), Ok(vec![Instruction::SetValue(Value::Address(0x1234))]));
    assert_eq!(lex_bin(&[0x01, 0x06, 0x12, 0x34]), Ok(vec![Instruction::SetValue(Value::Address(0x1234))]));
    assert_eq!(lex_bin(&[0xFF, 0x06, 0x12, 0x34]), Ok(vec![Instruction::SetValue(Value::Address(0x1234))]));
    assert_eq!(lex_bin(&[0x00, 0x06, 0x12, 0x34]), Ok(vec![Instruction::SetValue(Value::Literal(0x1234))]));
}

#[test]
fn the_mode_byte_of_a_bare_record_is_not_read() {
    assert_eq!(lex_bin(&[0x10, 0x00]), Ok(vec![Instruction::Output]));
    assert_eq!(lex_bin(&[0xFF, 0x04, 0x00, 0x02]), Ok(vec![Instruction::Return, Instruction::CharacterInput]));
}

#[test]
fn a_stream_that_ends_inside_a_record_is_truncated() {
    assert_eq!(lex_bin(&[0x00]), Err(CodecError::TruncatedStream));
    assert_eq!(lex_bin(&[0x00, 0x05]), Err(CodecError::TruncatedStream));
    assert_eq!(lex_bin(&[0x00, 0x05, 0x01]), Err(CodecError::TruncatedStream));
    assert_eq!(lex_bin(&[0x00, 0x00, 0x00]), Err(CodecError::TruncatedStream));
    assert_eq!(lex_bin(&[0x00, 0x06, 0x00, 0x01, 0x00, 0x07, 0x01]), Err(CodecError::TruncatedStream));
}

#[test]
fn an_opcode_outside_the_table_is_unknown() {
    assert_eq!(lex_bin(&[0x00, 0x15, 0x00, 0x00]), Err(CodecError::UnknownOpcode));
    assert_eq!(lex_bin(&[0x00, 0xFF, 0x00, 0x00]), Err(CodecError::UnknownOpcode));
    assert_eq!(lex_bin(&[0x00, 0x00, 0x00, 0x80, 0x00, 0x00]), Err(CodecError::UnknownOpcode));
}

#[test]
fn a_short_read_is_reported_before_the_opcode_is_looked_up() {
    assert_eq!(lex_bin(&[0x00, 0xFF]), Err(CodecError::TruncatedStream));
    assert_eq!(lex_bin(&[0x00, 0x15, 0x00]), Err(CodecError::TruncatedStream));
}

#[test]
fn the_first_record_in_error_decides() {
    assert_eq!(lex_bin(&[0x00, 0x20, 0x00, 0x00, 0x00]), Err(CodecError::UnknownOpcode));
}

#[test]
fn decoding_undoes_encoding() {
    let program = every_variant();
    let bytes = compile(program.clone()).unwrap();
    assert_eq!(lex_bin(&bytes), Ok(program));
}

#[test]
fn decoding_undoes_encoding_for_every_operand_byte() {
    let mut program = Vec::new();
    for high in [0u16, 1, 0x0F, 0x10, 0x7F, 0x80, 0xFF] {
        for low in [0u16, 1, 0x0F, 0x10, 0x7F, 0x80, 0xFF] {
            program.push(Instruction::SetValue(Value::Literal(high * 256 + low)));
            program.push(Instruction::Add(Value::Address(high * 256 + low)));
        }
    }
    let bytes = compile(program.clone()).unwrap();
    assert_eq!(bytes.len(), program.len() * 4);
    assert_eq!(lex_bin(&bytes), Ok(program));
}

#[test]
fn source_text_survives_the_binary_form() {
    let source = "\
        ; counts down from three\n\
        SEA 0x0010\n\
        SET 0x0003\n\
        LAB 0x0001\n\
        OUT\n\
        SUB 0b1\n\
        CEQ 0x0000\n\
        BNE 0x0001\n\
        SET *0x0010\n\
        JMP 0x0002\n\
        EXT 0x0000\n\
        LAB 0x0002\n\
        DMP\n\
        CIN\n\
        CUT\n\
        RTN\n";
    let program = lex_str(source).unwrap();
    assert_eq!(program.len(), 15);
    let bytes = compile(program.clone()).unwrap();
    assert_eq!(lex_bin(&bytes), Ok(program));
}
