//! The turtl instruction set: the closed set of opcodes, the mapping from
//! mnemonic text to opcodes, the operand count of each opcode, and the
//! 6-bit ordinal that identifies an opcode inside an encoded word.

use vstd::prelude::*;
use vstd::string::StringSliceAdditionalSpecFns;

verus! {

/// Error returned when a mnemonic does not name any defined opcode.
#[derive(Debug)]
pub enum Error {
    NotFound,
}

/// The turtl instruction set.
///
/// Note: operations which access the filesystem can be **very** slow
/// (e.g. LDFS, LDFSM, M2PUB, PUB2M).
#[derive(Copy, Clone, PartialEq, Eq, Structural, Debug)]
pub enum Instruction {
    /// Move from one register (Rb) to another (Ra): MOVR Ra Rb
    MOVR,
    /// Move an immediate constant $C into a register (Ra): MOVI Ra $C
    MOVI,
    /// Load data from memory (address in Rb) into register Ra: LODR Ra Rb
    LODR,
    /// Load data from memory (address an immediate $C) into Ra: LODI Ra $C
    LODI,
    /// Store register Ra to memory (destination address in Rb): STRR Ra Rb
    STRR,
    /// Store register Ra to memory (destination address $C): STRI Ra $C
    STRI,
    /// Add values in two registers (Ra + Rb), storing into Rc: ADDR Rc Ra Rb
    ADDR,
    /// Add an immediate constant $C to the value in register Ra,
    /// storing the result back into Ra: ADDI Ra $C
    ADDI,
    /// Subtract register values, storing into a third: SUB Rc Ra Rb
    SUB,
    /// Multiply register values, storing into a third: MUL Rc Ra Rb
    MUL,
    /// Divide register values, storing into a third: DIV Rc Ra Rb
    DIV,
    /// Move the instruction pointer to the position $C: JMPI $C
    JMPI,
    /// Move the instruction pointer to the position held in Ra: JMPR Ra
    JMPR,
    /// Logical equal operation
    EQ,
    /// Logical AND operation
    AND,
    /// Logical less-than operation
    LT,
    /// Logical NOT operation
    NOT,
    /// Load data from the content-addressed filesystem to a register
    LDFS,
    /// Load data from the content-addressed filesystem to memory
    LDFSM,
    /// Move data from memory to a pubsub channel
    M2PUB,
    /// Move data from a pubsub channel to memory
    PUB2M,
}

/// The ordinal of an opcode: the value stored in the top 6 bits of an
/// encoded instruction word. Every ordinal fits in 6 bits.
pub open spec fn instr_ord(op: Instruction) -> u64 {
    match op {
        Instruction::MOVR => 0,
        Instruction::MOVI => 1,
        Instruction::LODR => 2,
        Instruction::LODI => 3,
        Instruction::STRR => 4,
        Instruction::STRI => 5,
        Instruction::ADDR => 6,
        Instruction::ADDI => 7,
        Instruction::SUB => 8,
        Instruction::MUL => 9,
        Instruction::DIV => 10,
        Instruction::JMPI => 11,
        Instruction::JMPR => 12,
        Instruction::EQ => 13,
        Instruction::AND => 14,
        Instruction::LT => 15,
        Instruction::NOT => 16,
        Instruction::LDFS => 17,
        Instruction::LDFSM => 18,
        Instruction::M2PUB => 19,
        Instruction::PUB2M => 20,
    }
}

/// The opcode with a given ordinal, if the ordinal names one.
pub open spec fn instr_of_ord(ord: u64) -> Option<Instruction> {
    if ord == 0 {
        Some(Instruction::MOVR)
    } else if ord == 1 {
        Some(Instruction::MOVI)
    } else if ord == 2 {
        Some(Instruction::LODR)
    } else if ord == 3 {
        Some(Instruction::LODI)
    } else if ord == 4 {
        Some(Instruction::STRR)
    } else if ord == 5 {
        Some(Instruction::STRI)
    } else if ord == 6 {
        Some(Instruction::ADDR)
    } else if ord == 7 {
        Some(Instruction::ADDI)
    } else if ord == 8 {
        Some(Instruction::SUB)
    } else if ord == 9 {
        Some(Instruction::MUL)
    } else if ord == 10 {
        Some(Instruction::DIV)
    } else if ord == 11 {
        Some(Instruction::JMPI)
    } else if ord == 12 {
        Some(Instruction::JMPR)
    } else if ord == 13 {
        Some(Instruction::EQ)
    } else if ord == 14 {
        Some(Instruction::AND)
    } else if ord == 15 {
        Some(Instruction::LT)
    } else if ord == 16 {
        Some(Instruction::NOT)
    } else if ord == 17 {
        Some(Instruction::LDFS)
    } else if ord == 18 {
        Some(Instruction::LDFSM)
    } else if ord == 19 {
        Some(Instruction::M2PUB)
    } else if ord == 20 {
        Some(Instruction::PUB2M)
    } else {
        None
    }
}

/// Every opcode ordinal fits in the 6-bit opcode field, and decoding an
/// ordinal gives back the opcode it came from.
pub proof fn lemma_instr_ord_inverse(op: Instruction)
    ensures
        instr_ord(op) <= 63,
        instr_of_ord(instr_ord(op)) == Some(op),
{
    match op {
        Instruction::MOVR => {},
        Instruction::MOVI => {},
        Instruction::LODR => {},
        Instruction::LODI => {},
        Instruction::STRR => {},
        Instruction::STRI => {},
        Instruction::ADDR => {},
        Instruction::ADDI => {},
        Instruction::SUB => {},
        Instruction::MUL => {},
        Instruction::DIV => {},
        Instruction::JMPI => {},
        Instruction::JMPR => {},
        Instruction::EQ => {},
        Instruction::AND => {},
        Instruction::LT => {},
        Instruction::NOT => {},
        Instruction::LDFS => {},
        Instruction::LDFSM => {},
        Instruction::M2PUB => {},
        Instruction::PUB2M => {},
    }
}

/// The ordinal of an opcode, computed at run time.
pub fn instr_code(op: Instruction) -> (r: u64)
    ensures
        r == instr_ord(op),
        r <= 63,
{
    match op {
        Instruction::MOVR => 0,
        Instruction::MOVI => 1,
        Instruction::LODR => 2,
        Instruction::LODI => 3,
        Instruction::STRR => 4,
        Instruction::STRI => 5,
        Instruction::ADDR => 6,
        Instruction::ADDI => 7,
        Instruction::SUB => 8,
        Instruction::MUL => 9,
        Instruction::DIV => 10,
        Instruction::JMPI => 11,
        Instruction::JMPR => 12,
        Instruction::EQ => 13,
        Instruction::AND => 14,
        Instruction::LT => 15,
        Instruction::NOT => 16,
        Instruction::LDFS => 17,
        Instruction::LDFSM => 18,
        Instruction::M2PUB => 19,
        Instruction::PUB2M => 20,
    }
}

/// Decode the opcode with a given ordinal, at run time.
pub fn instr_decode(ord: u64) -> (r: Option<Instruction>)
    ensures
        r == instr_of_ord(ord),
{
    if ord == 0 {
        Some(Instruction::MOVR)
    } else if ord == 1 {
        Some(Instruction::MOVI)
    } else if ord == 2 {
        Some(Instruction::LODR)
    } else if ord == 3 {
        Some(Instruction::LODI)
    } else if ord == 4 {
        Some(Instruction::STRR)
    } else if ord == 5 {
        Some(Instruction::STRI)
    } else if ord == 6 {
        Some(Instruction::ADDR)
    } else if ord == 7 {
        Some(Instruction::ADDI)
    } else if ord == 8 {
        Some(Instruction::SUB)
    } else if ord == 9 {
        Some(Instruction::MUL)
    } else if ord == 10 {
        Some(Instruction::DIV)
    } else if ord == 11 {
        Some(Instruction::JMPI)
    } else if ord == 12 {
        Some(Instruction::JMPR)
    } else if ord == 13 {
        Some(Instruction::EQ)
    } else if ord == 14 {
        Some(Instruction::AND)
    } else if ord == 15 {
        Some(Instruction::LT)
    } else if ord == 16 {
        Some(Instruction::NOT)
    } else if ord == 17 {
        Some(Instruction::LDFS)
    } else if ord == 18 {
        Some(Instruction::LDFSM)
    } else if ord == 19 {
        Some(Instruction::M2PUB)
    } else if ord == 20 {
        Some(Instruction::PUB2M)
    } else {
        None
    }
}

/// The mnemonic of each opcode the assembler knows, as a byte sequence.
/// The storage-daemon opcodes (LDFS and later) have no assembler mnemonic.
pub open spec fn instr_of_token(tok: Seq<u8>) -> Option<Instruction> {
    if tok == seq![('M' as u8), ('O' as u8), ('V' as u8), ('R' as u8)] {
        Some(Instruction::MOVR)
    } else if tok == seq![('M' as u8), ('O' as u8), ('V' as u8), ('I' as u8)] {
        Some(Instruction::MOVI)
    } else if tok == seq![('L' as u8), ('O' as u8), ('D' as u8), ('R' as u8)] {
        Some(Instruction::LODR)
    } else if tok == seq![('L' as u8), ('O' as u8), ('D' as u8), ('I' as u8)] {
        Some(Instruction::LODI)
    } else if tok == seq![('S' as u8), ('T' as u8), ('R' as u8), ('R' as u8)] {
        Some(Instruction::STRR)
    } else if tok == seq![('S' as u8), ('T' as u8), ('R' as u8), ('I' as u8)] {
        Some(Instruction::STRI)
    } else if tok == seq![('A' as u8), ('D' as u8), ('D' as u8), ('R' as u8)] {
        Some(Instruction::ADDR)
    } else if tok == seq![('A' as u8), ('D' as u8), ('D' as u8), ('I' as u8)] {
        Some(Instruction::ADDI)
    } else if tok == seq![('S' as u8), ('U' as u8), ('B' as u8)] {
        Some(Instruction::SUB)
    } else if tok == seq![('M' as u8), ('U' as u8), ('L' as u8)] {
        Some(Instruction::MUL)
    } else if tok == seq![('D' as u8), ('I' as u8), ('V' as u8)] {
        Some(Instruction::DIV)
    } else if tok == seq![('J' as u8), ('M' as u8), ('P' as u8), ('I' as u8)] {
        Some(Instruction::JMPI)
    } else if tok == seq![('J' as u8), ('M' as u8), ('P' as u8), ('R' as u8)] {
        Some(Instruction::JMPR)
    } else if tok == seq![('E' as u8), ('Q' as u8)] {
        Some(Instruction::EQ)
    } else if tok == seq![('A' as u8), ('N' as u8), ('D' as u8)] {
        Some(Instruction::AND)
    } else if tok == seq![('L' as u8), ('T' as u8)] {
        Some(Instruction::LT)
    } else if tok == seq![('N' as u8), ('O' as u8), ('T' as u8)] {
        Some(Instruction::NOT)
    } else {
        None
    }
}

/// A map between text representations of opcodes and their binary form.
/// This is used to compile human readable text of turtl bytecode to an
/// executable binary representation.
pub fn txt_to_instr(op: &str) -> (r: Result<Instruction, Error>)
    ensures
        match r {
            Ok(i) => instr_of_token(op.spec_bytes()) == Some(i),
            Err(_) => instr_of_token(op.spec_bytes()) is None,
        },
{
    let b: &[u8] = op.as_bytes();
    match instr_of_bytes(b) {
        Some(i) => Ok(i),
        None => Err(Error::NotFound),
    }
}

/// Resolve a mnemonic given as bytes.
pub fn instr_of_bytes(b: &[u8]) -> (r: Option<Instruction>)
    ensures
        r == instr_of_token(b@),
{
    let n = b.len();
    if n == 4 && b[0] == ('M' as u8) && b[1] == ('O' as u8) && b[2] == ('V' as u8) && b[3] == ('R' as u8) {
        proof {
            assert(b@ =~= seq![('M' as u8), ('O' as u8), ('V' as u8), ('R' as u8)]);
        }
        Some(Instruction::MOVR)
    } else if n == 4 && b[0] == ('M' as u8) && b[1] == ('O' as u8) && b[2] == ('V' as u8) && b[3] == ('I' as u8) {
        proof {
            assert(b@ =~= seq![('M' as u8), ('O' as u8), ('V' as u8), ('I' as u8)]);
        }
        Some(Instruction::MOVI)
    } else if n == 4 && b[0] == ('L' as u8) && b[1] == ('O' as u8) && b[2] == ('D' as u8) && b[3] == ('R' as u8) {
        proof {
            assert(b@ =~= seq![('L' as u8), ('O' as u8), ('D' as u8), ('R' as u8)]);
        }
        Some(Instruction::LODR)
    } else if n == 4 && b[0] == ('L' as u8) && b[1] == ('O' as u8) && b[2] == ('D' as u8) && b[3] == ('I' as u8) {
        proof {
            assert(b@ =~= seq![('L' as u8), ('O' as u8), ('D' as u8), ('I' as u8)]);
        }
        Some(Instruction::LODI)
    } else if n == 4 && b[0] == ('S' as u8) && b[1] == ('T' as u8) && b[2] == ('R' as u8) && b[3] == ('R' as u8) {
        proof {
            assert(b@ =~= seq![('S' as u8), ('T' as u8), ('R' as u8), ('R' as u8)]);
        }
        Some(Instruction::STRR)
    } else if n == 4 && b[0] == ('S' as u8) && b[1] == ('T' as u8) && b[2] == ('R' as u8) && b[3] == ('I' as u8) {
        proof {
            assert(b@ =~= seq![('S' as u8), ('T' as u8), ('R' as u8), ('I' as u8)]);
        }
        Some(Instruction::STRI)
    } else if n == 4 && b[0] == ('A' as u8) && b[1] == ('D' as u8) && b[2] == ('D' as u8) && b[3] == ('R' as u8) {
        proof {
            assert(b@ =~= seq![('A' as u8), ('D' as u8), ('D' as u8), ('R' as u8)]);
        }
        Some(Instruction::ADDR)
    } else if n == 4 && b[0] == ('A' as u8) && b[1] == ('D' as u8) && b[2] == ('D' as u8) && b[3] == ('I' as u8) {
        proof {
            assert(b@ =~= seq![('A' as u8), ('D' as u8), ('D' as u8), ('I' as u8)]);
        }
        Some(Instruction::ADDI)
    } else if n == 3 && b[0] == ('S' as u8) && b[1] == ('U' as u8) && b[2] == ('B' as u8) {
        proof {
            assert(b@ =~= seq![('S' as u8), ('U' as u8), ('B' as u8)]);
        }
        Some(Instruction::SUB)
    } else if n == 3 && b[0] == ('M' as u8) && b[1] == ('U' as u8) && b[2] == ('L' as u8) {
        proof {
            assert(b@ =~= seq![('M' as u8), ('U' as u8), ('L' as u8)]);
        }
        Some(Instruction::MUL)
    } else if n == 3 && b[0] == ('D' as u8) && b[1] == ('I' as u8) && b[2] == ('V' as u8) {
        proof {
            assert(b@ =~= seq![('D' as u8), ('I' as u8), ('V' as u8)]);
        }
        Some(Instruction::DIV)
    } else if n == 4 && b[0] == ('J' as u8) && b[1] == ('M' as u8) && b[2] == ('P' as u8) && b[3] == ('I' as u8) {
        proof {
            assert(b@ =~= seq![('J' as u8), ('M' as u8), ('P' as u8), ('I' as u8)]);
        }
        Some(Instruction::JMPI)
    } else if n == 4 && b[0] == ('J' as u8) && b[1] == ('M' as u8) && b[2] == ('P' as u8) && b[3] == ('R' as u8) {
        proof {
            assert(b@ =~= seq![('J' as u8), ('M' as u8), ('P' as u8), ('R' as u8)]);
        }
        Some(Instruction::JMPR)
    } else if n == 2 && b[0] == ('E' as u8) && b[1] == ('Q' as u8) {
        proof {
            assert(b@ =~= seq![('E' as u8), ('Q' as u8)]);
        }
        Some(Instruction::EQ)
    } else if n == 3 && b[0] == ('A' as u8) && b[1] == ('N' as u8) && b[2] == ('D' as u8) {
        proof {
            assert(b@ =~= seq![('A' as u8), ('N' as u8), ('D' as u8)]);
        }
        Some(Instruction::AND)
    } else if n == 2 && b[0] == ('L' as u8) && b[1] == ('T' as u8) {
        proof {
            assert(b@ =~= seq![('L' as u8), ('T' as u8)]);
        }
        Some(Instruction::LT)
    } else if n == 3 && b[0] == ('N' as u8) && b[1] == ('O' as u8) && b[2] == ('T' as u8) {
        proof {
            assert(b@ =~= seq![('N' as u8), ('O' as u8), ('T' as u8)]);
        }
        Some(Instruction::NOT)
    } else {
        None
    }
}

/// The number of operands an opcode expects.
pub open spec fn spec_argnum(op: Instruction) -> u8 {
    match op {
        Instruction::MOVR => 2,
        Instruction::MOVI => 2,
        Instruction::JMPI => 1,
        Instruction::JMPR => 1,
        Instruction::ADDR => 3,
        Instruction::LODR => 2,
        Instruction::LODI => 2,
        Instruction::STRR => 2,
        Instruction::STRI => 2,
        _ => 2,
    }
}

/// Given an instruction, return the number of operands that it expects.
pub fn argnum(op: Instruction) -> (r: u8)
    ensures
        r == spec_argnum(op),
{
    match op {
        Instruction::MOVR => 2,
        Instruction::MOVI => 2,
        Instruction::JMPI => 1,
        Instruction::JMPR => 1,
        Instruction::ADDR => 3,
        Instruction::LODR => 2,
        Instruction::LODI => 2,
        Instruction::STRR => 2,
        Instruction::STRI => 2,
        _ => 2,
    }
}

} // verus!
