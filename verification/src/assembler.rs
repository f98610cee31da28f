//! The assembler: from source text to a sequence of 32-bit words.
//!
//! Each non-blank, non-comment-only line is encoded independently, in order;
//! there is no cross-line state. A comment runs from `#` to the end of the
//! line. The first malformed line aborts the whole run with its error; there
//! is no partial output.

use vstd::prelude::*;
use vstd::string::{StrSliceExecFns, StringExecFns};

use crate::instr::Instr;
use crate::parse::{parse_imm, parse_reg, spec_parse_imm, spec_parse_reg};
use crate::scan::{
    find_ch, find_char_str, spec_tokens, split_lines, str_eq, strip_comment, strip_commas,
    strip_commas_str, toks_view, tokenize,
};

verus! {

// ------------------------------------------------------------------
// Errors
// ------------------------------------------------------------------
/// A syntax error, fatal to the whole run, carrying the offending token.
#[derive(Debug)]
pub enum AsmError {
    /// A register token that is not `x` followed by a numeral that fits.
    InvalidRegister(String),
    /// An immediate token that is not decimal, `+`-decimal, or `0x`/`0X`
    /// hexadecimal, or a decimal out of the signed 16-bit range.
    InvalidImmediate(String),
    /// A memory operand without a well-formed `imm(reg)` parenthesis pair.
    BadMemOperand(String),
    /// A first token that names no instruction.
    UnknownMnemonic(String),
    /// A line with fewer operands than its mnemonic takes.
    MissingOperand(String),
}

/// The mathematical reading of an `AsmError`: the same variant over the
/// offending token's characters.
pub enum SpecAsmError {
    InvalidRegister(Seq<char>),
    InvalidImmediate(Seq<char>),
    BadMemOperand(Seq<char>),
    UnknownMnemonic(Seq<char>),
    MissingOperand(Seq<char>),
}

impl View for AsmError {
    type V = SpecAsmError;

    open spec fn view(&self) -> SpecAsmError {
        match self {
            AsmError::InvalidRegister(t) => SpecAsmError::InvalidRegister(t@),
            AsmError::InvalidImmediate(t) => SpecAsmError::InvalidImmediate(t@),
            AsmError::BadMemOperand(t) => SpecAsmError::BadMemOperand(t@),
            AsmError::UnknownMnemonic(t) => SpecAsmError::UnknownMnemonic(t@),
            AsmError::MissingOperand(t) => SpecAsmError::MissingOperand(t@),
        }
    }
}

// ------------------------------------------------------------------
// Operand shapes
// ------------------------------------------------------------------
/// Three register operands, commas stripped from all but the last.
pub open spec fn spec_three_regs(toks: Seq<Seq<char>>) -> Result<(u8, u8, u8), SpecAsmError> {
    if toks.len() < 4 {
        Err(SpecAsmError::MissingOperand(toks[0]))
    } else {
        let t1 = strip_commas(toks[1]);
        let t2 = strip_commas(toks[2]);
        let t3 = toks[3];
        match spec_parse_reg(t1) {
            None => Err(SpecAsmError::InvalidRegister(t1)),
            Some(r1) => match spec_parse_reg(t2) {
                None => Err(SpecAsmError::InvalidRegister(t2)),
                Some(r2) => match spec_parse_reg(t3) {
                    None => Err(SpecAsmError::InvalidRegister(t3)),
                    Some(r3) => Ok((r1, r2, r3)),
                },
            },
        }
    }
}

/// Two register operands and an immediate.
pub open spec fn spec_two_regs_imm(toks: Seq<Seq<char>>) -> Result<(u8, u8, i16), SpecAsmError> {
    if toks.len() < 4 {
        Err(SpecAsmError::MissingOperand(toks[0]))
    } else {
        let t1 = strip_commas(toks[1]);
        let t2 = strip_commas(toks[2]);
        let t3 = toks[3];
        match spec_parse_reg(t1) {
            None => Err(SpecAsmError::InvalidRegister(t1)),
            Some(r1) => match spec_parse_reg(t2) {
                None => Err(SpecAsmError::InvalidRegister(t2)),
                Some(r2) => match spec_parse_imm(t3) {
                    None => Err(SpecAsmError::InvalidImmediate(t3)),
                    Some(imm) => Ok((r1, r2, imm)),
                },
            },
        }
    }
}

/// A memory operand `imm(reg)`: the immediate before the first `(`, the base
/// register between it and the first `)`.
pub open spec fn spec_mem_operand(t: Seq<char>) -> Result<(i16, u8), SpecAsmError> {
    let oi = find_ch(t, '(');
    let ci = find_ch(t, ')');
    if oi < 0 || ci < 0 || ci < oi {
        Err(SpecAsmError::BadMemOperand(t))
    } else {
        let off_part = t.subrange(0, oi);
        let reg_part = t.subrange(oi + 1, ci);
        match spec_parse_imm(off_part) {
            None => Err(SpecAsmError::InvalidImmediate(off_part)),
            Some(off) => match spec_parse_reg(reg_part) {
                None => Err(SpecAsmError::InvalidRegister(reg_part)),
                Some(r) => Ok((off, r)),
            },
        }
    }
}

/// A register operand and a memory operand.
pub open spec fn spec_reg_mem(toks: Seq<Seq<char>>) -> Result<(u8, i16, u8), SpecAsmError> {
    if toks.len() < 3 {
        Err(SpecAsmError::MissingOperand(toks[0]))
    } else {
        let t1 = strip_commas(toks[1]);
        match spec_parse_reg(t1) {
            None => Err(SpecAsmError::InvalidRegister(t1)),
            Some(r) => match spec_mem_operand(toks[2]) {
                Err(e) => Err(e),
                Ok((off, base)) => Ok((r, off, base)),
            },
        }
    }
}

/// A register operand and an immediate.
pub open spec fn spec_reg_imm(toks: Seq<Seq<char>>) -> Result<(u8, i16), SpecAsmError> {
    if toks.len() < 3 {
        Err(SpecAsmError::MissingOperand(toks[0]))
    } else {
        let t1 = strip_commas(toks[1]);
        match spec_parse_reg(t1) {
            None => Err(SpecAsmError::InvalidRegister(t1)),
            Some(r) => match spec_parse_imm(toks[2]) {
                None => Err(SpecAsmError::InvalidImmediate(toks[2])),
                Some(imm) => Ok((r, imm)),
            },
        }
    }
}

// ------------------------------------------------------------------
// One instruction line
// ------------------------------------------------------------------
/// The word a tokenized instruction line encodes to, or its first error.
/// The first token selects the mnemonic; the operand order per mnemonic is
/// the table in `instr`.
pub open spec fn spec_instr_line(toks: Seq<Seq<char>>) -> Result<u32, SpecAsmError>
    recommends
        toks.len() > 0,
{
    let m = toks[0];
    if m == "add"@ {
        match spec_three_regs(toks) {
            Ok((rd, rs1, rs2)) => Ok((Instr::Add { rd, rs1, rs2 }).spec_encode()),
            Err(e) => Err(e),
        }
    } else if m == "mul"@ {
        match spec_three_regs(toks) {
            Ok((rd, rs1, rs2)) => Ok((Instr::Mul { rd, rs1, rs2 }).spec_encode()),
            Err(e) => Err(e),
        }
    } else if m == "sub"@ {
        match spec_three_regs(toks) {
            Ok((rd, rs1, rs2)) => Ok((Instr::Sub { rd, rs1, rs2 }).spec_encode()),
            Err(e) => Err(e),
        }
    } else if m == "addi"@ {
        match spec_two_regs_imm(toks) {
            Ok((rd, rs1, imm)) => Ok((Instr::Addi { rd, rs1, imm }).spec_encode()),
            Err(e) => Err(e),
        }
    } else if m == "slli"@ {
        match spec_two_regs_imm(toks) {
            Ok((rd, rs1, imm)) => Ok((Instr::Slli { rd, rs1, imm }).spec_encode()),
            Err(e) => Err(e),
        }
    } else if m == "lui"@ {
        match spec_reg_imm(toks) {
            Ok((rd, imm)) => Ok((Instr::Lui { rd, imm }).spec_encode()),
            Err(e) => Err(e),
        }
    } else if m == "lw"@ {
        match spec_reg_mem(toks) {
            Ok((rd, off, base)) => Ok((Instr::Lw { rd, rs1: base, offset: off }).spec_encode()),
            Err(e) => Err(e),
        }
    } else if m == "sw"@ {
        match spec_reg_mem(toks) {
            Ok((value, off, base)) => Ok(
                (Instr::Sw { rs1: base, rs2: value, offset: off }).spec_encode(),
            ),
            Err(e) => Err(e),
        }
    } else if m == "bne"@ {
        match spec_two_regs_imm(toks) {
            Ok((rs1, rs2, off)) => Ok((Instr::Bne { rs1, rs2, offset: off }).spec_encode()),
            Err(e) => Err(e),
        }
    } else if m == "blt"@ {
        match spec_two_regs_imm(toks) {
            Ok((rs1, rs2, off)) => Ok((Instr::Blt { rs1, rs2, offset: off }).spec_encode()),
            Err(e) => Err(e),
        }
    } else if m == "halt"@ {
        Ok(Instr::Halt.spec_encode())
    } else {
        Err(SpecAsmError::UnknownMnemonic(m))
    }
}

fn three_regs(toks: &Vec<&str>) -> (r: Result<(u8, u8, u8), AsmError>)
    requires
        toks@.len() > 0,
    ensures
        (match (r, spec_three_regs(toks_view(toks@))) {
            (Ok(v), Ok(sv)) => v == sv,
            (Err(e), Err(se)) => e@ == se,
            _ => false,
        }),
{
    if toks.len() < 4 {
        return Err(AsmError::MissingOperand(String::from_str(toks[0])));
    }
    let t1 = strip_commas_str(toks[1]);
    let t2 = strip_commas_str(toks[2]);
    let t3 = toks[3];
    let r1 = match parse_reg(t1) {
        None => {
            return Err(AsmError::InvalidRegister(String::from_str(t1)));
        },
        Some(r) => r,
    };
    let r2 = match parse_reg(t2) {
        None => {
            return Err(AsmError::InvalidRegister(String::from_str(t2)));
        },
        Some(r) => r,
    };
    let r3 = match parse_reg(t3) {
        None => {
            return Err(AsmError::InvalidRegister(String::from_str(t3)));
        },
        Some(r) => r,
    };
    Ok((r1, r2, r3))
}

fn two_regs_imm(toks: &Vec<&str>) -> (r: Result<(u8, u8, i16), AsmError>)
    requires
        toks@.len() > 0,
    ensures
        (match (r, spec_two_regs_imm(toks_view(toks@))) {
            (Ok(v), Ok(sv)) => v == sv,
            (Err(e), Err(se)) => e@ == se,
            _ => false,
        }),
{
    if toks.len() < 4 {
        return Err(AsmError::MissingOperand(String::from_str(toks[0])));
    }
    let t1 = strip_commas_str(toks[1]);
    let t2 = strip_commas_str(toks[2]);
    let t3 = toks[3];
    let r1 = match parse_reg(t1) {
        None => {
            return Err(AsmError::InvalidRegister(String::from_str(t1)));
        },
        Some(r) => r,
    };
    let r2 = match parse_reg(t2) {
        None => {
            return Err(AsmError::InvalidRegister(String::from_str(t2)));
        },
        Some(r) => r,
    };
    let imm = match parse_imm(t3) {
        None => {
            return Err(AsmError::InvalidImmediate(String::from_str(t3)));
        },
        Some(v) => v,
    };
    Ok((r1, r2, imm))
}

fn mem_operand(t: &str) -> (r: Result<(i16, u8), AsmError>)
    ensures
        (match (r, spec_mem_operand(t@)) {
            (Ok(v), Ok(sv)) => v == sv,
            (Err(e), Err(se)) => e@ == se,
            _ => false,
        }),
{
    let oi = match find_char_str(t, '(') {
        None => {
            return Err(AsmError::BadMemOperand(String::from_str(t)));
        },
        Some(i) => i,
    };
    let ci = match find_char_str(t, ')') {
        None => {
            return Err(AsmError::BadMemOperand(String::from_str(t)));
        },
        Some(i) => i,
    };
    if ci < oi {
        return Err(AsmError::BadMemOperand(String::from_str(t)));
    }
    // the characters at oi and ci differ, so oi < ci here
    let off_part = t.substring_char(0, oi);
    let reg_part = t.substring_char(oi + 1, ci);
    let off = match parse_imm(off_part) {
        None => {
            return Err(AsmError::InvalidImmediate(String::from_str(off_part)));
        },
        Some(v) => v,
    };
    let base = match parse_reg(reg_part) {
        None => {
            return Err(AsmError::InvalidRegister(String::from_str(reg_part)));
        },
        Some(r) => r,
    };
    Ok((off, base))
}

fn reg_mem(toks: &Vec<&str>) -> (r: Result<(u8, i16, u8), AsmError>)
    requires
        toks@.len() > 0,
    ensures
        (match (r, spec_reg_mem(toks_view(toks@))) {
            (Ok(v), Ok(sv)) => v == sv,
            (Err(e), Err(se)) => e@ == se,
            _ => false,
        }),
{
    if toks.len() < 3 {
        return Err(AsmError::MissingOperand(String::from_str(toks[0])));
    }
    let t1 = strip_commas_str(toks[1]);
    let r1 = match parse_reg(t1) {
        None => {
            return Err(AsmError::InvalidRegister(String::from_str(t1)));
        },
        Some(r) => r,
    };
    match mem_operand(toks[2]) {
        Err(e) => Err(e),
        Ok((off, base)) => Ok((r1, off, base)),
    }
}

fn reg_imm(toks: &Vec<&str>) -> (r: Result<(u8, i16), AsmError>)
    requires
        toks@.len() > 0,
    ensures
        (match (r, spec_reg_imm(toks_view(toks@))) {
            (Ok(v), Ok(sv)) => v == sv,
            (Err(e), Err(se)) => e@ == se,
            _ => false,
        }),
{
    if toks.len() < 3 {
        return Err(AsmError::MissingOperand(String::from_str(toks[0])));
    }
    let t1 = strip_commas_str(toks[1]);
    let r1 = match parse_reg(t1) {
        None => {
            return Err(AsmError::InvalidRegister(String::from_str(t1)));
        },
        Some(r) => r,
    };
    let imm = match parse_imm(toks[2]) {
        None => {
            return Err(AsmError::InvalidImmediate(String::from_str(toks[2])));
        },
        Some(v) => v,
    };
    Ok((r1, imm))
}

fn instr_line(toks: &Vec<&str>) -> (r: Result<u32, AsmError>)
    requires
        toks@.len() > 0,
    ensures
        (match (r, spec_instr_line(toks_view(toks@))) {
            (Ok(w), Ok(sw)) => w == sw,
            (Err(e), Err(se)) => e@ == se,
            _ => false,
        }),
{
    let m = toks[0];
    if str_eq(m, "add") {
        match three_regs(toks) {
            Ok((rd, rs1, rs2)) => Ok(crate::encode::encode_add(rd, rs1, rs2)),
            Err(e) => Err(e),
        }
    } else if str_eq(m, "mul") {
        match three_regs(toks) {
            Ok((rd, rs1, rs2)) => Ok(crate::encode::encode_mul(rd, rs1, rs2)),
            Err(e) => Err(e),
        }
    } else if str_eq(m, "sub") {
        match three_regs(toks) {
            Ok((rd, rs1, rs2)) => Ok(crate::encode::encode_sub(rd, rs1, rs2)),
            Err(e) => Err(e),
        }
    } else if str_eq(m, "addi") {
        match two_regs_imm(toks) {
            Ok((rd, rs1, imm)) => Ok(crate::encode::encode_addi(rd, rs1, imm)),
            Err(e) => Err(e),
        }
    } else if str_eq(m, "slli") {
        match two_regs_imm(toks) {
            Ok((rd, rs1, imm)) => Ok(crate::encode::encode_slli(rd, rs1, imm)),
            Err(e) => Err(e),
        }
    } else if str_eq(m, "lui") {
        match reg_imm(toks) {
            Ok((rd, imm)) => Ok(crate::encode::encode_lui(rd, imm)),
            Err(e) => Err(e),
        }
    } else if str_eq(m, "lw") {
        match reg_mem(toks) {
            Ok((rd, off, base)) => Ok(crate::encode::encode_lw(rd, base, off)),
            Err(e) => Err(e),
        }
    } else if str_eq(m, "sw") {
        match reg_mem(toks) {
            Ok((value, off, base)) => Ok(crate::encode::encode_sw(base, value, off)),
            Err(e) => Err(e),
        }
    } else if str_eq(m, "bne") {
        match two_regs_imm(toks) {
            Ok((rs1, rs2, off)) => Ok(crate::encode::encode_bne(rs1, rs2, off)),
            Err(e) => Err(e),
        }
    } else if str_eq(m, "blt") {
        match two_regs_imm(toks) {
            Ok((rs1, rs2, off)) => Ok(crate::encode::encode_blt(rs1, rs2, off)),
            Err(e) => Err(e),
        }
    } else if str_eq(m, "halt") {
        Ok(crate::encode::encode_halt())
    } else {
        Err(AsmError::UnknownMnemonic(String::from_str(m)))
    }
}

// ------------------------------------------------------------------
// One source line
// ------------------------------------------------------------------
/// What one source line contributes: nothing, one word, or a fatal error.
enum LineOutcome {
    Blank,
    Word(u32),
    Fail(AsmError),
}

/// The mathematical reading of a line: its comment stripped, its tokens
/// taken; a line with no tokens is blank.
pub open spec fn spec_line(line: Seq<char>) -> Result<Option<u32>, SpecAsmError> {
    let toks = spec_tokens(strip_comment(line));
    if toks.len() == 0 {
        Ok(None)
    } else {
        match spec_instr_line(toks) {
            Ok(w) => Ok(Some(w)),
            Err(e) => Err(e),
        }
    }
}

fn handle_line(line: &str) -> (r: LineOutcome)
    ensures
        (match (r, spec_line(line@)) {
            (LineOutcome::Blank, Ok(o)) => o is None,
            (LineOutcome::Word(w), Ok(o)) => o == Some(w),
            (LineOutcome::Fail(e), Err(se)) => e@ == se,
            _ => false,
        }),
{
    let n = line.unicode_len();
    let mut h: usize = 0;
    while h < n && line.get_char(h) != '#'
        invariant
            0 <= h <= n,
            n == line@.len(),
            forall|j: int| 0 <= j < h ==> line@[j] != '#',
        decreases n - h,
    {
        h = h + 1;
    }
    proof {
        crate::scan::lemma_strip_comment_at(line@, h as int);
    }
    let code = line.substring_char(0, h);
    let toks = tokenize(code);
    if toks.len() == 0 {
        proof {
            assert(spec_tokens(strip_comment(line@)).len() == 0);
        }
        LineOutcome::Blank
    } else {
        match instr_line(&toks) {
            Ok(w) => LineOutcome::Word(w),
            Err(e) => LineOutcome::Fail(e),
        }
    }
}

// ------------------------------------------------------------------
// The whole text
// ------------------------------------------------------------------
/// The words of a sequence of lines, or the first line's error.
pub open spec fn spec_asm_lines(ls: Seq<Seq<char>>) -> Result<Seq<u32>, SpecAsmError>
    decreases ls.len(),
{
    if ls.len() == 0 {
        Ok(Seq::empty())
    } else {
        match spec_line(ls[0]) {
            Err(e) => Err(e),
            Ok(None) => spec_asm_lines(ls.subrange(1, ls.len() as int)),
            Ok(Some(w)) => match spec_asm_lines(ls.subrange(1, ls.len() as int)) {
                Ok(ws) => Ok(seq![w] + ws),
                Err(e) => Err(e),
            },
        }
    }
}

/// The words a source text assembles to, in line order, or the first error.
pub open spec fn spec_assemble(s: Seq<char>) -> Result<Seq<u32>, SpecAsmError> {
    spec_asm_lines(split_lines(s))
}

/// Words already produced, joined with what the remaining lines yield.
spec fn spec_glue(done: Seq<u32>, rest: Result<Seq<u32>, SpecAsmError>) -> Result<
    Seq<u32>,
    SpecAsmError,
> {
    match rest {
        Ok(ws) => Ok(done + ws),
        Err(e) => Err(e),
    }
}

proof fn lemma_glue_empty(done: Seq<u32>, rest: Result<Seq<u32>, SpecAsmError>)
    requires
        done.len() == 0,
    ensures
        spec_glue(done, rest) == rest,
{
    match rest {
        Ok(ws) => {
            assert(done + ws =~= ws);
        },
        Err(_) => {},
    }
}

proof fn lemma_glue_step(done: Seq<u32>, l: Seq<char>, rest: Seq<Seq<char>>)
    ensures
        spec_glue(done, spec_asm_lines(seq![l] + rest)) == (match spec_line(l) {
            Err(e) => Err::<Seq<u32>, SpecAsmError>(e),
            Ok(None) => spec_glue(done, spec_asm_lines(rest)),
            Ok(Some(w)) => spec_glue(done.push(w), spec_asm_lines(rest)),
        }),
{
    let all = seq![l] + rest;
    assert(all[0] == l);
    assert(all.subrange(1, all.len() as int) =~= rest);
    match spec_line(l) {
        Err(_) => {},
        Ok(None) => {},
        Ok(Some(w)) => {
            match spec_asm_lines(rest) {
                Ok(ws) => {
                    assert(done + (seq![w] + ws) =~= done.push(w) + ws);
                },
                Err(_) => {},
            }
        },
    }
}

/// Assemble a source text: one word per non-blank line, in order; the first
/// malformed line aborts the run with its error.
pub fn assemble(input: &str) -> (r: Result<Vec<u32>, AsmError>)
    ensures
        (match (r, spec_assemble(input@)) {
            (Ok(v), Ok(ws)) => v@ == ws,
            (Err(e), Err(se)) => e@ == se,
            _ => false,
        }),
{
    let n = input.unicode_len();
    let mut out: Vec<u32> = Vec::new();
    let mut pos: usize = 0;
    proof {
        assert(input@.subrange(0, n as int) =~= input@);
        lemma_glue_empty(out@, spec_asm_lines(split_lines(input@)));
    }
    loop
        invariant
            0 <= pos <= n,
            n == input@.len(),
            spec_assemble(input@) == spec_glue(
                out@,
                spec_asm_lines(split_lines(input@.subrange(pos as int, n as int))),
            ),
        decreases n - pos,
    {
        let mut j: usize = pos;
        while j < n && input.get_char(j) != '\n'
            invariant
                pos <= j <= n,
                n == input@.len(),
                forall|k: int| pos <= k < j ==> input@[k] != '\n',
            decreases n - j,
        {
            j = j + 1;
        }
        let line = input.substring_char(pos, j);
        let ghost cur = input@.subrange(pos as int, n as int);
        let ghost rest_lines = if (j as int) < n as int {
            split_lines(input@.subrange(j as int + 1, n as int))
        } else {
            Seq::<Seq<char>>::empty()
        };
        proof {
            assert(forall|k: int| 0 <= k < j - pos ==> cur[k] == input@[pos + k]);
            crate::scan::lemma_split_lines_step(cur, j as int - pos as int);
            assert(cur.subrange(0, j as int - pos as int) =~= line@);
            if (j as int) < n as int {
                assert(cur.subrange(j as int - pos as int + 1, cur.len() as int) =~= input@
                    .subrange(j as int + 1, n as int));
                assert(split_lines(cur) == seq![line@] + rest_lines);
            } else {
                assert(split_lines(cur) == seq![line@]);
                assert(seq![line@] + rest_lines =~= seq![line@]);
                assert(split_lines(cur) == seq![line@] + rest_lines);
            }
            lemma_glue_step(out@, line@, rest_lines);
        }
        match handle_line(line) {
            LineOutcome::Fail(e) => {
                return Err(e);
            },
            LineOutcome::Blank => {
                if j == n {
                    proof {
                        lemma_glue_empty(Seq::<u32>::empty(), Ok(Seq::<u32>::empty()));
                        assert(out@ + Seq::<u32>::empty() =~= out@);
                    }
                    return Ok(out);
                }
                pos = j + 1;
            },
            LineOutcome::Word(w) => {
                out.push(w);
                if j == n {
                    proof {
                        assert(out@ + Seq::<u32>::empty() =~= out@);
                    }
                    return Ok(out);
                }
                pos = j + 1;
            },
        }
    }
}

} // verus!
