use turtl::compile::{compile, Error, IMM54_MAX};
use turtl::instruction::{argnum, txt_to_instr, Instruction};

fn lines(xs: &[&str]) -> Vec<String> {
    xs.iter().map(|&x| x.into()).collect()
}

#[test]
pub fn basic_compile() {
    let input: Vec<String> = ["MOVI %r1 $13   ; hello", "MOVI %r2 $16", "ADDR %r3 %r1 %r2"]
        .iter()
        .map(|&x| x.into())
        .collect();

    let out = compile(input);
    assert!(out.is_ok());
}

#[test]
fn three_line_program_words() {
    let out = compile(lines(&["MOVI %r1 $13", "MOVI %r2 $16", "ADDR %r3 %r1 %r2"])).unwrap();
    assert_eq!(out.bytecode.len(), 3);
    // the first word's top 6 bits decode to the move-immediate ordinal
    assert_eq!(out.bytecode[0] >> 58, 1);
    // and its operand fields to register 1 and immediate 13
    assert_eq!((out.bytecode[0] >> 54) & 0xF, 1);
    assert_eq!(out.bytecode[0] & IMM54_MAX, 13);
    assert_eq!(out.bytecode[1] >> 58, 1);
    assert_eq!((out.bytecode[1] >> 54) & 0xF, 2);
    assert_eq!(out.bytecode[1] & IMM54_MAX, 16);
    // the third word's top 6 bits decode to the add-registers ordinal
    assert_eq!(out.bytecode[2] >> 58, 6);
    assert_eq!((out.bytecode[2] >> 39) & 0x7FFFF, 3);
    assert_eq!((out.bytecode[2] >> 20) & 0x7FFFF, 1);
    assert_eq!(out.bytecode[2] & 0xFFFFF, 2);
}

#[test]
fn comment_only_line_contributes_nothing() {
    let with_comment = compile(lines(&["MOVI %r1 $13", "; just a comment", "MOVI %r2 $16"]))
        .unwrap();
    let without = compile(lines(&["MOVI %r1 $13", "MOVI %r2 $16"])).unwrap();
    assert_eq!(with_comment.bytecode, without.bytecode);
    assert_eq!(with_comment.bytecode.len(), 2);

    let only = compile(lines(&["; just a comment"])).unwrap();
    assert_eq!(only.bytecode.len(), 0);

    let indented = compile(lines(&["   ; leading spaces then comment"])).unwrap();
    assert_eq!(indented.bytecode.len(), 0);
}

#[test]
fn register_register_round_trip() {
    for r1 in 0..12u64 {
        for r2 in 0..12u64 {
            let src = format!("MOVR %r{} %r{}", r1, r2);
            let out = compile(vec![src]).unwrap();
            let w = out.bytecode[0];
            assert_eq!(w >> 58, 0);
            assert_eq!((w >> 54) & 0xF, r1);
            assert_eq!(w & IMM54_MAX, r2);
        }
    }
}

#[test]
fn register_bounds() {
    // every index inside the register file encodes
    for r in 0..12u64 {
        let src = format!("JMPR %r{}", r);
        assert!(compile(vec![src]).is_ok());
    }
    // every index at or past it is refused
    for r in [12u64, 13, 100, 4096] {
        let src = format!("JMPR %r{}", r);
        assert!(matches!(
            compile(vec![src]),
            Err(Error::RegisterNumOutOfBounds)
        ));
    }
}

#[test]
fn unknown_mnemonic_is_refused() {
    assert!(matches!(
        compile(lines(&["FROB %r1 %r2"])),
        Err(Error::InvalidOpcode)
    ));
    // a blank line has no mnemonic at all
    assert!(matches!(compile(lines(&[""])), Err(Error::InvalidOpcode)));
    assert!(matches!(compile(lines(&["   "])), Err(Error::InvalidOpcode)));
    // mnemonics are case-sensitive
    assert!(matches!(
        compile(lines(&["movi %r1 $3"])),
        Err(Error::InvalidOpcode)
    ));
}

#[test]
fn unencodable_opcode_is_refused() {
    // SUB resolves in the ISA table but has no encoder arm
    assert!(matches!(
        compile(lines(&["SUB %r1 %r2 %r3"])),
        Err(Error::InvalidOpcode)
    ));
}

#[test]
fn arity_mismatch_is_refused() {
    assert!(matches!(
        compile(lines(&["MOVI %r1"])),
        Err(Error::NotEnoughArgs)
    ));
    assert!(matches!(
        compile(lines(&["MOVI %r1 $3 $4"])),
        Err(Error::NotEnoughArgs)
    ));
    assert!(matches!(compile(lines(&["JMPI"])), Err(Error::NotEnoughArgs)));
}

#[test]
fn missing_sigil_is_a_syntax_error() {
    assert!(matches!(
        compile(lines(&["MOVI r1 $3"])),
        Err(Error::Syntax)
    ));
    assert!(matches!(
        compile(lines(&["MOVI %r1 3"])),
        Err(Error::Syntax)
    ));
}

#[test]
fn bad_digits_are_invalid_operands() {
    assert!(matches!(
        compile(lines(&["MOVI %rx $3"])),
        Err(Error::InvalidOperand)
    ));
    assert!(matches!(
        compile(lines(&["MOVI %r1 $three"])),
        Err(Error::InvalidOperand)
    ));
    assert!(matches!(
        compile(lines(&["MOVI %r $3"])),
        Err(Error::InvalidOperand)
    ));
    // a literal past 64 bits cannot parse at all
    assert!(matches!(
        compile(lines(&["MOVI %r1 $99999999999999999999999999"])),
        Err(Error::InvalidOperand)
    ));
}

#[test]
fn immediate_magnitude_bounds() {
    // the full 54-bit range is accepted, not merely values up to the bit
    // count itself
    let top = compile(lines(&["MOVI %r1 $18014398509481983"])).unwrap();
    assert_eq!(top.bytecode[0] & IMM54_MAX, IMM54_MAX);
    assert!(matches!(
        compile(lines(&["MOVI %r1 $18014398509481984"])),
        Err(Error::Overflow)
    ));
    // the jump immediate has the full 58 bits
    assert!(compile(lines(&["JMPI $288230376151711743"])).is_ok());
    assert!(matches!(
        compile(lines(&["JMPI $288230376151711744"])),
        Err(Error::Overflow)
    ));
}

#[test]
fn compile_fails_atomically() {
    // the failing third line aborts the whole compile
    let out = compile(lines(&["MOVI %r1 $1", "MOVI %r2 $2", "BROKEN"]));
    assert!(matches!(out, Err(Error::InvalidOpcode)));
    // the first failing line's error is the one reported
    let out = compile(lines(&["MOVI %r99 $1", "BROKEN"]));
    assert!(matches!(out, Err(Error::RegisterNumOutOfBounds)));
}

#[test]
fn whitespace_runs_and_tabs_split_tokens() {
    let out = compile(lines(&["MOVI   %r1\t$13"])).unwrap();
    assert_eq!(out.bytecode.len(), 1);
    assert_eq!(out.bytecode[0] >> 58, 1);
}

#[test]
fn mnemonic_table() {
    assert!(matches!(txt_to_instr("MOVR"), Ok(Instruction::MOVR)));
    assert!(matches!(txt_to_instr("MOVI"), Ok(Instruction::MOVI)));
    assert!(matches!(txt_to_instr("LODR"), Ok(Instruction::LODR)));
    assert!(matches!(txt_to_instr("LODI"), Ok(Instruction::LODI)));
    assert!(matches!(txt_to_instr("STRR"), Ok(Instruction::STRR)));
    assert!(matches!(txt_to_instr("STRI"), Ok(Instruction::STRI)));
    assert!(matches!(txt_to_instr("ADDR"), Ok(Instruction::ADDR)));
    assert!(matches!(txt_to_instr("ADDI"), Ok(Instruction::ADDI)));
    assert!(matches!(txt_to_instr("SUB"), Ok(Instruction::SUB)));
    assert!(matches!(txt_to_instr("MUL"), Ok(Instruction::MUL)));
    assert!(matches!(txt_to_instr("DIV"), Ok(Instruction::DIV)));
    assert!(matches!(txt_to_instr("JMPI"), Ok(Instruction::JMPI)));
    assert!(matches!(txt_to_instr("JMPR"), Ok(Instruction::JMPR)));
    assert!(matches!(txt_to_instr("EQ"), Ok(Instruction::EQ)));
    assert!(matches!(txt_to_instr("AND"), Ok(Instruction::AND)));
    assert!(matches!(txt_to_instr("LT"), Ok(Instruction::LT)));
    assert!(matches!(txt_to_instr("NOT"), Ok(Instruction::NOT)));
    assert!(txt_to_instr("NOP").is_err());
    assert!(txt_to_instr("").is_err());
}

#[test]
fn arity_table() {
    assert_eq!(argnum(Instruction::MOVR), 2);
    assert_eq!(argnum(Instruction::MOVI), 2);
    assert_eq!(argnum(Instruction::JMPI), 1);
    assert_eq!(argnum(Instruction::JMPR), 1);
    assert_eq!(argnum(Instruction::ADDR), 3);
    assert_eq!(argnum(Instruction::LODR), 2);
    assert_eq!(argnum(Instruction::LODI), 2);
    assert_eq!(argnum(Instruction::STRR), 2);
    assert_eq!(argnum(Instruction::STRI), 2);
    assert_eq!(argnum(Instruction::EQ), 2);
}
