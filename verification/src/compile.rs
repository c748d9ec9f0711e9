//! The compiler: turns newline-delimited turtl assembly text into a Program
//! of fixed-width binary instruction words.
//!
//! Per line: a `;` starts a trailing comment, and a line whose first
//! non-whitespace byte is `;` produces no word at all. The rest of the line
//! splits on whitespace into a mnemonic and its operand tokens. The mnemonic
//! resolves through the ISA table, the operand count must match the opcode's
//! arity exactly, and the operands are packed into the low 58 bits of the
//! word according to the opcode's operand shape, below the 6-bit opcode
//! ordinal. Compilation is atomic: the first invalid line fails the whole
//! compile and no partial bytecode is returned.

use crate::instruction::{instr_code, instr_of_token, spec_argnum, Instruction};
use crate::program::Program;
use crate::vm::NUM_GEN_REGS;
use vstd::prelude::*;
use vstd::slice::{slice_subrange, slice_to_vec};
use vstd::utf8::encode_utf8;

verus! {

/// Encode-time errors, always raised before any bytecode is produced for
/// the offending line.
#[derive(Debug)]
pub enum Error {
    /// The mnemonic does not name an encodable opcode.
    InvalidOpcode,
    /// The operand count does not match the opcode's arity.
    NotEnoughArgs,
    /// An operand token is missing its register or immediate sigil.
    Syntax,
    /// A sigil'd token whose remainder is not a decimal integer.
    InvalidOperand,
    /// A register index outside the register file.
    RegisterNumOutOfBounds,
    /// An immediate literal too large for its operand field.
    Overflow,
}

/// The largest immediate that fits the 54-bit operand sub-field.
pub const IMM54_MAX: u64 = 0x3FFFFFFFFFFFFF;

/// The largest immediate that fits the full 58-bit operand field.
pub const IMM58_MAX: u64 = 0x3FFFFFFFFFFFFFF;

/// Whitespace that separates tokens within a line.
pub open spec fn is_space(b: u8) -> bool {
    b == (' ' as u8) || b == ('\t' as u8)
}

/// A decimal digit byte.
pub open spec fn is_digit(b: u8) -> bool {
    ('0' as u8) <= b <= ('9' as u8)
}

/// The number of bytes before the first `;`, or the whole length if the
/// line has none.
pub open spec fn semi_len(s: Seq<u8>) -> nat
    decreases s.len(),
{
    if s.len() == 0 || s[0] == (';' as u8) {
        0
    } else {
        1 + semi_len(s.drop_first())
    }
}

/// The instruction text of a line: everything before its trailing comment.
pub open spec fn code_part(line: Seq<u8>) -> Seq<u8> {
    line.take(semi_len(line) as int)
}

pub proof fn lemma_semi_len_eq(s: Seq<u8>, k: int)
    requires
        0 <= k <= s.len(),
        forall|j: int| 0 <= j < k ==> s[j] != (';' as u8),
        k < s.len() ==> s[k] == (';' as u8),
    ensures
        semi_len(s) == k,
    decreases s.len(),
{
    if k == 0 {
    } else {
        lemma_semi_len_eq(s.drop_first(), k - 1);
    }
}

/// The length of the maximal non-whitespace prefix.
pub open spec fn tok_len(s: Seq<u8>) -> nat
    decreases s.len(),
{
    if s.len() == 0 || is_space(s[0]) {
        0
    } else {
        1 + tok_len(s.drop_first())
    }
}

pub proof fn lemma_tok_len(s: Seq<u8>)
    ensures
        tok_len(s) <= s.len(),
    decreases s.len(),
{
    if s.len() > 0 && !is_space(s[0]) {
        lemma_tok_len(s.drop_first());
    }
}

pub proof fn lemma_tok_len_eq(s: Seq<u8>, k: int)
    requires
        0 <= k <= s.len(),
        forall|j: int| 0 <= j < k ==> !is_space(s[j]),
        k < s.len() ==> is_space(s[k]),
    ensures
        tok_len(s) == k,
    decreases s.len(),
{
    if k == 0 {
    } else {
        lemma_tok_len_eq(s.drop_first(), k - 1);
    }
}

/// The whitespace-separated tokens of a byte sequence, in order.
pub open spec fn tokens(s: Seq<u8>) -> Seq<Seq<u8>>
    decreases s.len(),
{
    if s.len() == 0 {
        Seq::empty()
    } else if is_space(s[0]) {
        tokens(s.drop_first())
    } else if 1 <= tok_len(s) <= s.len() {
        seq![s.take(tok_len(s) as int)] + tokens(s.skip(tok_len(s) as int))
    } else {
        // never reached: a sequence that does not start with whitespace has
        // a token of at least one byte; the guard keeps the recursion
        // visibly well-founded
        Seq::empty()
    }
}

/// The value of a digit string, most significant digit first.
pub open spec fn dec_val(s: Seq<u8>) -> nat
    decreases s.len(),
{
    if s.len() == 0 {
        0
    } else {
        (dec_val(s.drop_last()) * 10 + (s.last() - ('0' as u8))) as nat
    }
}

/// Every byte is a decimal digit.
pub open spec fn all_digits(s: Seq<u8>) -> bool {
    forall|i: int| 0 <= i < s.len() ==> is_digit(s[i])
}

/// A non-empty all-digit string parses to its value if that value fits in
/// 64 bits; everything else is refused.
pub open spec fn parse_dec(s: Seq<u8>) -> Option<u64> {
    if s.len() > 0 && all_digits(s) && dec_val(s) <= u64::MAX {
        Some(dec_val(s) as u64)
    } else {
        None
    }
}

pub proof fn lemma_dec_val_step(s: Seq<u8>, i: int)
    requires
        0 <= i < s.len(),
    ensures
        dec_val(s.take(i + 1)) == (dec_val(s.take(i)) * 10 + (s[i] - ('0' as u8))) as nat,
{
    assert(s.take(i + 1).drop_last() =~= s.take(i));
    assert(s.take(i + 1).last() == s[i]);
}

pub proof fn lemma_dec_val_monotone(s: Seq<u8>, i: int, j: int)
    requires
        all_digits(s),
        0 <= i <= j <= s.len(),
    ensures
        dec_val(s.take(i)) <= dec_val(s.take(j)),
    decreases j - i,
{
    if i < j {
        lemma_dec_val_monotone(s, i, j - 1);
        lemma_dec_val_step(s, j - 1);
    }
}

/// Parse a decimal literal.
fn parse_decimal(s: &[u8]) -> (r: Option<u64>)
    ensures
        r == parse_dec(s@),
{
    if s.len() == 0 {
        return None;
    }
    let n = s.len();
    let mut i: usize = 0;
    while i < n
        invariant
            i <= n,
            n == s@.len(),
            forall|j: int| 0 <= j < i ==> is_digit(s@[j]),
        decreases n - i,
    {
        let b = s[i];
        if !(('0' as u8) <= b && b <= ('9' as u8)) {
            assert(!is_digit(s@[i as int]));
            return None;
        }
        i = i + 1;
    }
    assert(all_digits(s@));
    let mut v: u128 = 0;
    let mut k: usize = 0;
    while k < n
        invariant
            k <= n,
            n == s@.len(),
            all_digits(s@),
            v == dec_val(s@.take(k as int)),
            v <= u64::MAX as u128,
        decreases n - k,
    {
        let d: u128 = (s[k] - ('0' as u8)) as u128;
        let v2: u128 = v * 10 + d;
        proof {
            lemma_dec_val_step(s@, k as int);
        }
        if v2 > (u64::MAX as u128) {
            proof {
                lemma_dec_val_monotone(s@, k + 1, n as int);
                assert(s@.take(n as int) =~= s@);
            }
            return None;
        }
        v = v2;
        k = k + 1;
    }
    proof {
        assert(s@.take(n as int) =~= s@);
    }
    Some(v as u64)
}

/// The views of a vector of byte tokens.
pub open spec fn views_of(ts: Seq<Vec<u8>>) -> Seq<Seq<u8>> {
    ts.map_values(|t: Vec<u8>| t@)
}

/// Split a byte sequence into its whitespace-separated tokens.
fn tokenize(code: &[u8]) -> (r: Vec<Vec<u8>>)
    ensures
        views_of(r@) == tokens(code@),
{
    let n = code.len();
    let mut toks: Vec<Vec<u8>> = Vec::new();
    let mut i: usize = 0;
    proof {
        assert(code@.skip(0) =~= code@);
        assert(views_of(toks@) + tokens(code@) =~= tokens(code@));
    }
    while i < n
        invariant
            i <= n,
            n == code@.len(),
            tokens(code@) == views_of(toks@) + tokens(code@.skip(i as int)),
        decreases n - i,
    {
        let b = code[i];
        if b == (' ' as u8) || b == ('\t' as u8) {
            proof {
                assert(code@.skip(i as int).drop_first() =~= code@.skip(i + 1));
            }
            i = i + 1;
        } else {
            let start = i;
            let mut j: usize = i + 1;
            while j < n && code[j] != (' ' as u8) && code[j] != ('\t' as u8)
                invariant
                    start < j <= n,
                    n == code@.len(),
                    forall|m: int| start <= m < j ==> !is_space(code@[m]),
                decreases n - j,
            {
                j = j + 1;
            }
            let tok = slice_to_vec(slice_subrange(code, start, j));
            proof {
                let rest = code@.skip(start as int);
                lemma_tok_len_eq(rest, j - start);
                lemma_tok_len(rest);
                assert(rest.take(j - start) =~= code@.subrange(start as int, j as int));
                assert(rest.skip(j - start) =~= code@.skip(j as int));
                assert(tokens(rest) == seq![code@.subrange(start as int, j as int)] + tokens(
                    code@.skip(j as int),
                ));
                assert(views_of(toks@.push(tok)) =~= views_of(toks@) + seq![tok@]);
                assert(views_of(toks@) + tokens(rest) =~= views_of(toks@.push(tok)) + tokens(
                    code@.skip(j as int),
                ));
            }
            toks.push(tok);
            i = j;
        }
    }
    proof {
        assert(code@.skip(n as int) =~= Seq::<u8>::empty());
        assert(tokens(code@) =~= views_of(toks@));
    }
    toks
}

/// What parsing a register token yields: the token must carry the `%r`
/// sigil, its remainder must be a decimal literal, and the index must lie
/// strictly inside the register file.
pub open spec fn spec_parse_register(tok: Seq<u8>) -> Result<u64, Error> {
    if !(tok.len() >= 2 && tok[0] == ('%' as u8) && tok[1] == ('r' as u8)) {
        Err(Error::Syntax)
    } else {
        match parse_dec(tok.skip(2)) {
            Option::None => Err(Error::InvalidOperand),
            Option::Some(v) => {
                if v >= (NUM_GEN_REGS as u64) {
                    Err(Error::RegisterNumOutOfBounds)
                } else {
                    Ok(v)
                }
            },
        }
    }
}

/// Parse an operand that specifies a register.
///
/// Checks that the syntax is correct and that the register number is
/// within bounds.
fn parse_register_operand(arg: &[u8]) -> (r: Result<u64, Error>)
    ensures
        r == spec_parse_register(arg@),
{
    if !(arg.len() >= 2 && arg[0] == ('%' as u8) && arg[1] == ('r' as u8)) {
        return Err(Error::Syntax);
    }
    let digits = slice_subrange(arg, 2, arg.len());
    proof {
        assert(digits@ =~= arg@.skip(2));
    }
    match parse_decimal(digits) {
        Option::None => Err(Error::InvalidOperand),
        Option::Some(v) => {
            if v >= (NUM_GEN_REGS as u64) {
                Err(Error::RegisterNumOutOfBounds)
            } else {
                Ok(v)
            }
        },
    }
}

/// What parsing an immediate token yields: the token must carry the `$`
/// sigil, its remainder must be a decimal literal, and the value must fit
/// the operand sub-field it is destined for.
pub open spec fn spec_parse_immediate(tok: Seq<u8>, max: u64) -> Result<u64, Error> {
    if !(tok.len() >= 1 && tok[0] == ('$' as u8)) {
        Err(Error::Syntax)
    } else {
        match parse_dec(tok.skip(1)) {
            Option::None => Err(Error::InvalidOperand),
            Option::Some(v) => {
                if v > max {
                    Err(Error::Overflow)
                } else {
                    Ok(v)
                }
            },
        }
    }
}

/// Parse an immediate value.
///
/// Checks that the syntax is correct and that the value fits the bit
/// width of the operand field it will occupy.
fn parse_immediate_operand(arg: &[u8], max: u64) -> (r: Result<u64, Error>)
    ensures
        r == spec_parse_immediate(arg@, max),
{
    if !(arg.len() >= 1 && arg[0] == ('$' as u8)) {
        return Err(Error::Syntax);
    }
    let digits = slice_subrange(arg, 1, arg.len());
    proof {
        assert(digits@ =~= arg@.skip(1));
    }
    match parse_decimal(digits) {
        Option::None => Err(Error::InvalidOperand),
        Option::Some(v) => {
            if v > max {
                Err(Error::Overflow)
            } else {
                Ok(v)
            }
        },
    }
}

/// A register+register word: first register in bits 57-54 of the operand
/// field, second register in the unshifted low bits.
pub open spec fn spec_enc_register_register(dst: u64, t1: Seq<u8>, t2: Seq<u8>) -> Result<
    u64,
    Error,
> {
    match spec_parse_register(t1) {
        Err(e) => Err(e),
        Ok(r1) => match spec_parse_register(t2) {
            Err(e) => Err(e),
            Ok(r2) => Ok(dst | (r1 << 54) | r2),
        },
    }
}

/// A register+immediate word: register in bits 57-54, immediate in the
/// low 54 bits.
pub open spec fn spec_enc_register_immediate(dst: u64, t1: Seq<u8>, t2: Seq<u8>) -> Result<
    u64,
    Error,
> {
    match spec_parse_register(t1) {
        Err(e) => Err(e),
        Ok(r1) => match spec_parse_immediate(t2, IMM54_MAX) {
            Err(e) => Err(e),
            Ok(v) => Ok(dst | (r1 << 54) | v),
        },
    }
}

/// A single-register word: the register index in the unshifted low bits.
pub open spec fn spec_enc_single_register(dst: u64, t1: Seq<u8>) -> Result<u64, Error> {
    match spec_parse_register(t1) {
        Err(e) => Err(e),
        Ok(r1) => Ok(dst | r1),
    }
}

/// A single-immediate word: the immediate in the low 58 bits.
pub open spec fn spec_enc_single_immediate(dst: u64, t1: Seq<u8>) -> Result<u64, Error> {
    match spec_parse_immediate(t1, IMM58_MAX) {
        Err(e) => Err(e),
        Ok(v) => Ok(dst | v),
    }
}

/// A three-register word: fields of 19, 19 and 20 bits, shifted by 39, 20
/// and 0.
pub open spec fn spec_enc_reg_reg_reg(dst: u64, t1: Seq<u8>, t2: Seq<u8>, t3: Seq<u8>) -> Result<
    u64,
    Error,
> {
    match spec_parse_register(t1) {
        Err(e) => Err(e),
        Ok(r1) => match spec_parse_register(t2) {
            Err(e) => Err(e),
            Ok(r2) => match spec_parse_register(t3) {
                Err(e) => Err(e),
                Ok(r3) => Ok(dst | (r1 << 39) | (r2 << 20) | r3),
            },
        },
    }
}

/// Encode a 2 operand register+register instruction section.
fn enc_register_register(dst: u64, a1: &[u8], a2: &[u8]) -> (r: Result<u64, Error>)
    ensures
        r == spec_enc_register_register(dst, a1@, a2@),
{
    let r1 = match parse_register_operand(a1) {
        Ok(v) => v,
        Err(e) => {
            return Err(e);
        },
    };
    let r2 = match parse_register_operand(a2) {
        Ok(v) => v,
        Err(e) => {
            return Err(e);
        },
    };
    Ok(dst | (r1 << 54u64) | r2)
}

/// Encode a 2 operand register+immediate instruction section.
fn enc_register_immediate(dst: u64, a1: &[u8], a2: &[u8]) -> (r: Result<u64, Error>)
    ensures
        r == spec_enc_register_immediate(dst, a1@, a2@),
{
    let r1 = match parse_register_operand(a1) {
        Ok(v) => v,
        Err(e) => {
            return Err(e);
        },
    };
    let v = match parse_immediate_operand(a2, IMM54_MAX) {
        Ok(v) => v,
        Err(e) => {
            return Err(e);
        },
    };
    Ok(dst | (r1 << 54u64) | v)
}

/// Encode a 1 operand single register instruction section.
fn enc_single_register(dst: u64, a1: &[u8]) -> (r: Result<u64, Error>)
    ensures
        r == spec_enc_single_register(dst, a1@),
{
    let r1 = match parse_register_operand(a1) {
        Ok(v) => v,
        Err(e) => {
            return Err(e);
        },
    };
    Ok(dst | r1)
}

/// Encode a 1 operand single immediate value instruction section.
fn enc_single_immediate(dst: u64, a1: &[u8]) -> (r: Result<u64, Error>)
    ensures
        r == spec_enc_single_immediate(dst, a1@),
{
    let v = match parse_immediate_operand(a1, IMM58_MAX) {
        Ok(v) => v,
        Err(e) => {
            return Err(e);
        },
    };
    Ok(dst | v)
}

/// Encode a 3 operand register+register+register instruction section.
fn enc_reg_reg_reg(dst: u64, a1: &[u8], a2: &[u8], a3: &[u8]) -> (r: Result<u64, Error>)
    ensures
        r == spec_enc_reg_reg_reg(dst, a1@, a2@, a3@),
{
    let r1 = match parse_register_operand(a1) {
        Ok(v) => v,
        Err(e) => {
            return Err(e);
        },
    };
    let r2 = match parse_register_operand(a2) {
        Ok(v) => v,
        Err(e) => {
            return Err(e);
        },
    };
    let r3 = match parse_register_operand(a3) {
        Ok(v) => v,
        Err(e) => {
            return Err(e);
        },
    };
    Ok(dst | (r1 << 39u64) | (r2 << 20u64) | r3)
}

/// What encoding the operands of one resolved opcode yields, over the
/// line's tokens (the mnemonic is the first token). Opcodes without an
/// operand shape cannot be encoded.
pub open spec fn spec_encode_operands(op: Instruction, dst: u64, toks: Seq<Seq<u8>>) -> Result<
    u64,
    Error,
> {
    match op {
        Instruction::MOVR | Instruction::LODR | Instruction::STRR => {
            if toks.len() != spec_argnum(op) + 1 {
                Err(Error::NotEnoughArgs)
            } else {
                spec_enc_register_register(dst, toks[1], toks[2])
            }
        },
        Instruction::MOVI | Instruction::LODI | Instruction::STRI => {
            if toks.len() != spec_argnum(op) + 1 {
                Err(Error::NotEnoughArgs)
            } else {
                spec_enc_register_immediate(dst, toks[1], toks[2])
            }
        },
        Instruction::JMPR => {
            if toks.len() != spec_argnum(op) + 1 {
                Err(Error::NotEnoughArgs)
            } else {
                spec_enc_single_register(dst, toks[1])
            }
        },
        Instruction::JMPI => {
            if toks.len() != spec_argnum(op) + 1 {
                Err(Error::NotEnoughArgs)
            } else {
                spec_enc_single_immediate(dst, toks[1])
            }
        },
        Instruction::ADDR => {
            if toks.len() != spec_argnum(op) + 1 {
                Err(Error::NotEnoughArgs)
            } else {
                spec_enc_reg_reg_reg(dst, toks[1], toks[2], toks[3])
            }
        },
        _ => Err(Error::InvalidOpcode),
    }
}

/// Check that a line's token count matches the opcode's arity exactly
/// (the mnemonic itself is one token).
fn check_argnum(arglen: usize, op: Instruction) -> (r: Result<(), Error>)
    ensures
        r is Ok <==> arglen == spec_argnum(op) + 1,
        r is Err ==> r == Err::<(), Error>(Error::NotEnoughArgs),
{
    if arglen == (crate::instruction::argnum(op) as usize) + 1 {
        Ok(())
    } else {
        Err(Error::NotEnoughArgs)
    }
}

/// Encode the operand section of one instruction into the word `dst`.
fn encode_operands(op: Instruction, dst: u64, toks: &Vec<Vec<u8>>) -> (r: Result<u64, Error>)
    ensures
        r == spec_encode_operands(op, dst, views_of(toks@)),
{
    match op {
        Instruction::MOVR | Instruction::LODR | Instruction::STRR => {
            match check_argnum(toks.len(), op) {
                Ok(_) => enc_register_register(dst, toks[1].as_slice(), toks[2].as_slice()),
                Err(e) => Err(e),
            }
        },
        Instruction::MOVI | Instruction::LODI | Instruction::STRI => {
            match check_argnum(toks.len(), op) {
                Ok(_) => enc_register_immediate(dst, toks[1].as_slice(), toks[2].as_slice()),
                Err(e) => Err(e),
            }
        },
        Instruction::JMPR => {
            match check_argnum(toks.len(), op) {
                Ok(_) => enc_single_register(dst, toks[1].as_slice()),
                Err(e) => Err(e),
            }
        },
        Instruction::JMPI => {
            match check_argnum(toks.len(), op) {
                Ok(_) => enc_single_immediate(dst, toks[1].as_slice()),
                Err(e) => Err(e),
            }
        },
        Instruction::ADDR => {
            match check_argnum(toks.len(), op) {
                Ok(_) => enc_reg_reg_reg(
                    dst,
                    toks[1].as_slice(),
                    toks[2].as_slice(),
                    toks[3].as_slice(),
                ),
                Err(e) => Err(e),
            }
        },
        _ => Err(Error::InvalidOpcode),
    }
}

/// What one source line contributes: nothing for a line whose first
/// non-whitespace byte starts a comment, one encoded word otherwise, or the
/// error that refuses the line.
pub open spec fn spec_line_word(line: Seq<u8>) -> Result<Option<u64>, Error> {
    let code = code_part(line);
    let toks = tokens(code);
    if toks.len() == 0 {
        if semi_len(line) < line.len() {
            // the line holds nothing but a comment
            Ok(None)
        } else {
            Err(Error::InvalidOpcode)
        }
    } else {
        match instr_of_token(toks[0]) {
            Option::None => Err(Error::InvalidOpcode),
            Option::Some(op) => match spec_encode_operands(op, instr_ord_shifted(op), toks) {
                Ok(w) => Ok(Some(w)),
                Err(e) => Err(e),
            },
        }
    }
}

/// The opcode ordinal placed in the top 6 bits of a word.
pub open spec fn instr_ord_shifted(op: Instruction) -> u64 {
    crate::instruction::instr_ord(op) << 58
}

/// Encode one line of assembly, bytes in, word (or nothing) out.
fn encode_line(line: &[u8]) -> (r: Result<Option<u64>, Error>)
    ensures
        r == spec_line_word(line@),
{
    let n = line.len();
    let mut k: usize = 0;
    while k < n && line[k] != (';' as u8)
        invariant
            k <= n,
            n == line@.len(),
            forall|j: int| 0 <= j < k ==> line@[j] != (';' as u8),
        decreases n - k,
    {
        k = k + 1;
    }
    proof {
        lemma_semi_len_eq(line@, k as int);
    }
    let code = slice_subrange(line, 0, k);
    proof {
        assert(code@ =~= code_part(line@));
    }
    let toks = tokenize(code);
    if toks.len() == 0 {
        if k < n {
            Ok(None)
        } else {
            Err(Error::InvalidOpcode)
        }
    } else {
        let op = match crate::instruction::instr_of_bytes(toks[0].as_slice()) {
            Option::Some(op) => op,
            Option::None => {
                return Err(Error::InvalidOpcode);
            },
        };
        let dst = instr_code(op) << 58u64;
        match encode_operands(op, dst, &toks) {
            Ok(w) => Ok(Some(w)),
            Err(e) => Err(e),
        }
    }
}

/// The byte image of one source line of text.
pub open spec fn line_bytes(s: String) -> Seq<u8> {
    encode_utf8(s@)
}

/// The byte images of a sequence of source lines.
pub open spec fn lines_of(ss: Seq<String>) -> Seq<Seq<u8>> {
    ss.map_values(|s: String| line_bytes(s))
}

/// What compiling a sequence of lines yields: the bytecode words of the
/// non-comment lines in source order, or the error of the first line that
/// is refused. No partial bytecode survives a failure.
pub open spec fn spec_compile(lines: Seq<Seq<u8>>) -> Result<Seq<u64>, Error>
    decreases lines.len(),
{
    if lines.len() == 0 {
        Ok(Seq::empty())
    } else {
        match spec_line_word(lines[0]) {
            Err(e) => Err(e),
            Ok(opt) => match spec_compile(lines.drop_first()) {
                Err(e) => Err(e),
                Ok(rest) => Ok(
                    match opt {
                        Option::None => rest,
                        Option::Some(w) => seq![w] + rest,
                    },
                ),
            },
        }
    }
}

/// Compile the text representation of turtl assembly code into an
/// executable binary.
pub fn compile(input: Vec<String>) -> (r: Result<Program, Error>)
    ensures
        match r {
            Ok(p) => {
                &&& spec_compile(lines_of(input@)) == Ok::<Seq<u64>, Error>(p.bytecode@)
                &&& p.wf()
                &&& p.runtime_id == 0
            },
            Err(e) => spec_compile(lines_of(input@)) == Err::<Seq<u64>, Error>(e),
        },
{
    let ghost all_lines = lines_of(input@);
    let mut bytecode: Vec<u64> = Vec::new();
    let mut idx: usize = 0;
    proof {
        assert(all_lines.skip(0) =~= all_lines);
        if let Ok(rest) = spec_compile(all_lines) {
            assert(bytecode@ + rest =~= rest);
        }
    }
    while idx < input.len()
        invariant
            idx <= input@.len(),
            all_lines == lines_of(input@),
            all_lines.len() == input@.len(),
            forall|j: int| 0 <= j < input@.len() ==> all_lines[j] == line_bytes(input@[j]),
            match spec_compile(all_lines.skip(idx as int)) {
                Ok(rest) => spec_compile(all_lines) == Ok::<Seq<u64>, Error>(bytecode@ + rest),
                Err(e) => spec_compile(all_lines) == Err::<Seq<u64>, Error>(e),
            },
        decreases input@.len() - idx,
    {
        let line: &[u8] = input[idx].as_str().as_bytes();
        proof {
            assert(line@ == all_lines[idx as int]);
            assert(all_lines.skip(idx as int).drop_first() =~= all_lines.skip(idx + 1));
            assert(all_lines.skip(idx as int)[0] == all_lines[idx as int]);
        }
        match encode_line(line) {
            Ok(Some(w)) => {
                proof {
                    if let Ok(rest) = spec_compile(all_lines.skip(idx + 1)) {
                        assert(bytecode@ + (seq![w] + rest) =~= bytecode@.push(w) + rest);
                    }
                }
                bytecode.push(w);
            },
            Ok(None) => {},
            Err(e) => {
                return Err(e);
            },
        }
        idx = idx + 1;
    }
    proof {
        assert(all_lines.skip(input@.len() as int) =~= Seq::<Seq<u8>>::empty());
        assert(bytecode@ + Seq::<u64>::empty() =~= bytecode@);
    }
    Ok(Program::from_bytecode(bytecode))
}

/// Register encoding accepts exactly the register file's indices: for
/// every register token whose digits parse to `v`, parsing succeeds with
/// `v` when `v` lies inside `[0, NUM_GEN_REGS)`, and fails with
/// `RegisterNumOutOfBounds` for every `v` at or past `NUM_GEN_REGS`.
pub proof fn lemma_register_bounds(tok: Seq<u8>, v: u64)
    requires
        tok.len() >= 2,
        tok[0] == ('%' as u8),
        tok[1] == ('r' as u8),
        parse_dec(tok.skip(2)) == Some(v),
    ensures
        v < NUM_GEN_REGS ==> spec_parse_register(tok) == Ok::<u64, Error>(v),
        v >= NUM_GEN_REGS ==> spec_parse_register(tok) == Err::<u64, Error>(
            Error::RegisterNumOutOfBounds,
        ),
{
}

/// A line whose instruction text holds no token at all, though the line
/// does hold a comment: nothing but a comment stands on it.
pub open spec fn is_comment_line(line: Seq<u8>) -> bool {
    &&& tokens(code_part(line)).len() == 0
    &&& semi_len(line) < line.len()
}

/// A comment-only line produces no bytecode word and no error.
pub proof fn lemma_comment_line_no_word(line: Seq<u8>)
    requires
        is_comment_line(line),
    ensures
        spec_line_word(line) == Ok::<Option<u64>, Error>(None),
{
}

/// A comment-only line contributes zero bytecode words: inserting one
/// anywhere in a compilation leaves the compiled program, or the reported
/// error, exactly as it was.
pub proof fn lemma_comment_line_contributes_nothing(lines: Seq<Seq<u8>>, i: int, line: Seq<u8>)
    requires
        0 <= i <= lines.len(),
        is_comment_line(line),
    ensures
        spec_compile(lines.insert(i, line)) == spec_compile(lines),
    decreases i,
{
    if i == 0 {
        assert(lines.insert(0, line)[0] == line);
        assert(lines.insert(0, line).drop_first() =~= lines);
        lemma_comment_line_no_word(line);
    } else {
        lemma_comment_line_contributes_nothing(lines.drop_first(), i - 1, line);
        assert(lines.insert(i, line)[0] == lines[0]);
        assert(lines.insert(i, line).drop_first() =~= lines.drop_first().insert(i - 1, line));
    }
}


} // verus!
