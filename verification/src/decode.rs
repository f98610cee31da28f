//! The decoder: from a 32-bit word back to mnemonic text.
//!
//! `word & 0x3F` alone selects the format and mnemonic; the C-format register
//! fields are reassigned per mnemonic, mirroring the encoder's asymmetry
//! (see the table in `instr`). A word whose opcode is unassigned — or an
//! opcode-0 word that is not entirely zero — yields a non-fatal "unknown
//! instruction" text carrying the raw word, so that disassembly can continue
//! past unrecognized data.

use vstd::prelude::*;
use vstd::string::{StrSliceExecFns, StringExecFns};

use crate::instr::{decode_word, spec_decode, Instr};
use crate::opcode::{
    OPCODE_ADD, OPCODE_ADDI, OPCODE_BLT, OPCODE_BNE, OPCODE_HALT, OPCODE_LUI, OPCODE_LW,
    OPCODE_MUL, OPCODE_SLLI, OPCODE_SUB, OPCODE_SW,
};
use crate::text::{dec_i16_string, dec_u32_string, hex_u64_string, spec_dec_i16, spec_dec_nat, spec_hex};
use crate::words::word_opcode;

verus! {

// ------------------------------------------------------------------
// The text each instruction renders to
// ------------------------------------------------------------------
/// `m xA, xB, xC`
pub open spec fn spec_text_rrr(m: Seq<char>, rd: u8, rs1: u8, rs2: u8) -> Seq<char> {
    m + " x"@ + spec_dec_nat(rd as nat) + ", x"@ + spec_dec_nat(rs1 as nat) + ", x"@ + spec_dec_nat(
        rs2 as nat,
    )
}

/// `m xA, xB, imm`
pub open spec fn spec_text_rri(m: Seq<char>, rd: u8, rs1: u8, imm: i16) -> Seq<char> {
    m + " x"@ + spec_dec_nat(rd as nat) + ", x"@ + spec_dec_nat(rs1 as nat) + ", "@ + spec_dec_i16(
        imm,
    )
}

/// `m xA, imm`
pub open spec fn spec_text_ri(m: Seq<char>, rd: u8, imm: i16) -> Seq<char> {
    m + " x"@ + spec_dec_nat(rd as nat) + ", "@ + spec_dec_i16(imm)
}

/// `m xA, imm(xB)`
pub open spec fn spec_text_mem(m: Seq<char>, r: u8, off: i16, base: u8) -> Seq<char> {
    m + " x"@ + spec_dec_nat(r as nat) + ", "@ + spec_dec_i16(off) + "(x"@ + spec_dec_nat(
        base as nat,
    ) + ")"@
}

/// The canonical text of an instruction: mnemonic, then the operands in their
/// source order, immediates in normalized decimal.
pub open spec fn spec_render(i: Instr) -> Seq<char> {
    match i {
        Instr::Halt => "halt"@,
        Instr::Add { rd, rs1, rs2 } => spec_text_rrr("add"@, rd, rs1, rs2),
        Instr::Mul { rd, rs1, rs2 } => spec_text_rrr("mul"@, rd, rs1, rs2),
        Instr::Sub { rd, rs1, rs2 } => spec_text_rrr("sub"@, rd, rs1, rs2),
        Instr::Addi { rd, rs1, imm } => spec_text_rri("addi"@, rd, rs1, imm),
        Instr::Slli { rd, rs1, imm } => spec_text_rri("slli"@, rd, rs1, imm),
        Instr::Lui { rd, imm } => spec_text_ri("lui"@, rd, imm),
        Instr::Lw { rd, rs1, offset } => spec_text_mem("lw"@, rd, offset, rs1),
        Instr::Bne { rs1, rs2, offset } => spec_text_rri("bne"@, rs1, rs2, offset),
        Instr::Sw { rs1, rs2, offset } => spec_text_mem("sw"@, rs2, offset, rs1),
        Instr::Blt { rs1, rs2, offset } => spec_text_rri("blt"@, rs1, rs2, offset),
    }
}

/// The text of a word no mnemonic is defined for, carrying the raw word for
/// diagnostics.
pub open spec fn spec_unknown_text(w: u32) -> Seq<char> {
    "unknown instruction: 0x"@ + spec_hex(w as nat, 8)
}

/// The decoded text of any word.
pub open spec fn spec_decode_text(w: u32) -> Seq<char> {
    match spec_decode(w) {
        Some(i) => spec_render(i),
        None => spec_unknown_text(w),
    }
}

// ------------------------------------------------------------------
// Executable rendering
// ------------------------------------------------------------------
fn append_reg(s: &mut String, r: u8)
    ensures
        final (s)@ == old(s)@ + "x"@ + spec_dec_nat(r as nat),
{
    s.append("x");
    let digits = dec_u32_string(r as u32);
    s.append(digits.as_str());
}

fn string_rrr(m: &str, rd: u8, rs1: u8, rs2: u8) -> (s: String)
    ensures
        s@ == spec_text_rrr(m@, rd, rs1, rs2),
{
    let mut s = String::from_str(m);
    s.append(" ");
    append_reg(&mut s, rd);
    s.append(", ");
    append_reg(&mut s, rs1);
    s.append(", ");
    append_reg(&mut s, rs2);
    proof {
        assert(" "@ + "x"@ =~= " x"@) by {
            reveal_strlit(" ");
            reveal_strlit("x");
            reveal_strlit(" x");
        }
        assert(", "@ + "x"@ =~= ", x"@) by {
            reveal_strlit(", ");
            reveal_strlit("x");
            reveal_strlit(", x");
        }
        assert(s@ =~= spec_text_rrr(m@, rd, rs1, rs2));
    }
    s
}

fn string_rri(m: &str, rd: u8, rs1: u8, imm: i16) -> (s: String)
    ensures
        s@ == spec_text_rri(m@, rd, rs1, imm),
{
    let mut s = String::from_str(m);
    s.append(" ");
    append_reg(&mut s, rd);
    s.append(", ");
    append_reg(&mut s, rs1);
    s.append(", ");
    let imm_text = dec_i16_string(imm);
    s.append(imm_text.as_str());
    proof {
        assert(" "@ + "x"@ =~= " x"@) by {
            reveal_strlit(" ");
            reveal_strlit("x");
            reveal_strlit(" x");
        }
        assert(", "@ + "x"@ =~= ", x"@) by {
            reveal_strlit(", ");
            reveal_strlit("x");
            reveal_strlit(", x");
        }
        assert(s@ =~= spec_text_rri(m@, rd, rs1, imm));
    }
    s
}

fn string_ri(m: &str, rd: u8, imm: i16) -> (s: String)
    ensures
        s@ == spec_text_ri(m@, rd, imm),
{
    let mut s = String::from_str(m);
    s.append(" ");
    append_reg(&mut s, rd);
    s.append(", ");
    let imm_text = dec_i16_string(imm);
    s.append(imm_text.as_str());
    proof {
        assert(" "@ + "x"@ =~= " x"@) by {
            reveal_strlit(" ");
            reveal_strlit("x");
            reveal_strlit(" x");
        }
        assert(s@ =~= spec_text_ri(m@, rd, imm));
    }
    s
}

fn string_mem(m: &str, r: u8, off: i16, base: u8) -> (s: String)
    ensures
        s@ == spec_text_mem(m@, r, off, base),
{
    let mut s = String::from_str(m);
    s.append(" ");
    append_reg(&mut s, r);
    s.append(", ");
    let off_text = dec_i16_string(off);
    s.append(off_text.as_str());
    s.append("(");
    append_reg(&mut s, base);
    s.append(")");
    proof {
        assert(" "@ + "x"@ =~= " x"@) by {
            reveal_strlit(" ");
            reveal_strlit("x");
            reveal_strlit(" x");
        }
        assert("("@ + "x"@ =~= "(x"@) by {
            reveal_strlit("(");
            reveal_strlit("x");
            reveal_strlit("(x");
        }
        assert(s@ =~= spec_text_mem(m@, r, off, base));
    }
    s
}

/// The canonical text of one structured instruction.
pub fn render_instr(i: &Instr) -> (s: String)
    ensures
        s@ == spec_render(*i),
{
    match *i {
        Instr::Halt => String::from_str("halt"),
        Instr::Add { rd, rs1, rs2 } => string_rrr("add", rd, rs1, rs2),
        Instr::Mul { rd, rs1, rs2 } => string_rrr("mul", rd, rs1, rs2),
        Instr::Sub { rd, rs1, rs2 } => string_rrr("sub", rd, rs1, rs2),
        Instr::Addi { rd, rs1, imm } => string_rri("addi", rd, rs1, imm),
        Instr::Slli { rd, rs1, imm } => string_rri("slli", rd, rs1, imm),
        Instr::Lui { rd, imm } => string_ri("lui", rd, imm),
        Instr::Lw { rd, rs1, offset } => string_mem("lw", rd, offset, rs1),
        Instr::Bne { rs1, rs2, offset } => string_rri("bne", rs1, rs2, offset),
        Instr::Sw { rs1, rs2, offset } => string_mem("sw", rs2, offset, rs1),
        Instr::Blt { rs1, rs2, offset } => string_rri("blt", rs1, rs2, offset),
    }
}

fn unknown_string(w: u32) -> (s: String)
    ensures
        s@ == spec_unknown_text(w),
{
    let mut s = String::from_str("unknown instruction: 0x");
    let digits = hex_u64_string(w as u64, 8);
    s.append(digits.as_str());
    s
}

// ------------------------------------------------------------------
// The decode entry points
// ------------------------------------------------------------------
/// What `decode_a_type` returns: the A-format reading of the word, or the
/// unknown-instruction text for a word of another opcode.
pub open spec fn spec_decode_a_text(w: u32) -> Seq<char> {
    let op = word_opcode(w);
    if op == OPCODE_ADD || op == OPCODE_MUL || op == OPCODE_SUB {
        spec_decode_text(w)
    } else {
        spec_unknown_text(w)
    }
}

/// Decode an A-format word (add/mul/sub).
pub fn decode_a_type(instr: u32) -> (r: String)
    ensures
        r@ == spec_decode_a_text(instr),
{
    let op = instr & 0x3F;
    if op == OPCODE_ADD || op == OPCODE_MUL || op == OPCODE_SUB {
        match decode_word(instr) {
            Some(i) => render_instr(&i),
            None => unknown_string(instr),
        }
    } else {
        unknown_string(instr)
    }
}

/// What `decode_b_type` returns: the B-format reading of the word, or the
/// unknown-instruction text for a word of another opcode.
pub open spec fn spec_decode_b_text(w: u32) -> Seq<char> {
    let op = word_opcode(w);
    if op == OPCODE_ADDI || op == OPCODE_LUI || op == OPCODE_LW || op == OPCODE_SLLI {
        spec_decode_text(w)
    } else {
        spec_unknown_text(w)
    }
}

/// Decode a B-format word (addi/lui/lw/slli).
pub fn decode_b_type(instr: u32) -> (r: String)
    ensures
        r@ == spec_decode_b_text(instr),
{
    let op = instr & 0x3F;
    if op == OPCODE_ADDI || op == OPCODE_LUI || op == OPCODE_LW || op == OPCODE_SLLI {
        match decode_word(instr) {
            Some(i) => render_instr(&i),
            None => unknown_string(instr),
        }
    } else {
        unknown_string(instr)
    }
}

/// What `decode_c_type` returns: the C-format reading of the word, or the
/// unknown-instruction text for a word of another opcode.
pub open spec fn spec_decode_c_text(w: u32) -> Seq<char> {
    let op = word_opcode(w);
    if op == OPCODE_BNE || op == OPCODE_SW || op == OPCODE_BLT {
        spec_decode_text(w)
    } else {
        spec_unknown_text(w)
    }
}

/// Decode a C-format word (bne/sw/blt), applying the per-mnemonic field
/// reassignment of the table in `instr`.
pub fn decode_c_type(instr: u32) -> (r: String)
    ensures
        r@ == spec_decode_c_text(instr),
{
    let op = instr & 0x3F;
    if op == OPCODE_BNE || op == OPCODE_SW || op == OPCODE_BLT {
        match decode_word(instr) {
            Some(i) => render_instr(&i),
            None => unknown_string(instr),
        }
    } else {
        unknown_string(instr)
    }
}

/// What `decode_halt` returns: `halt` for the all-zero word, the
/// unknown-instruction text for every other word.
pub open spec fn spec_decode_halt_text(w: u32) -> Seq<char> {
    if w == 0 {
        "halt"@
    } else {
        spec_unknown_text(w)
    }
}

/// Decode the halt instruction: only the entirely zero word is `halt`; any
/// other opcode-0 bit pattern is unknown.
pub fn decode_halt(instr: u32) -> (r: String)
    ensures
        r@ == spec_decode_halt_text(instr),
{
    if instr == 0 {
        String::from_str("halt")
    } else {
        unknown_string(instr)
    }
}

/// Decode any word: dispatch on the opcode alone to the format-specific
/// reading; opcodes with no defined mnemonic yield the unknown-instruction
/// text.
pub fn decode_instruction(instr: u32) -> (r: String)
    ensures
        r@ == spec_decode_text(instr),
{
    let op = instr & 0x3F;
    if op == OPCODE_HALT {
        decode_halt(instr)
    } else if op == OPCODE_ADD || op == OPCODE_MUL || op == OPCODE_SUB {
        decode_a_type(instr)
    } else if op == OPCODE_ADDI || op == OPCODE_LUI || op == OPCODE_LW || op == OPCODE_SLLI {
        decode_b_type(instr)
    } else if op == OPCODE_BNE || op == OPCODE_SW || op == OPCODE_BLT {
        decode_c_type(instr)
    } else {
        unknown_string(instr)
    }
}

// ------------------------------------------------------------------
// The textual disassembly listing
// ------------------------------------------------------------------
/// One listing line: the instruction's byte address in hexadecimal (at least
/// four digits), the raw word in eight, then the decoded text.
pub open spec fn spec_listing_line(addr: nat, w: u32) -> Seq<char> {
    spec_hex(addr, 4) + ":  "@ + spec_hex(w as nat, 8) + "  "@ + spec_decode_text(w) + "\n"@
}

pub open spec fn spec_listing_from(ws: Seq<u32>, i: int) -> Seq<char>
    decreases ws.len() - i,
{
    if i < 0 || i >= ws.len() {
        Seq::empty()
    } else {
        spec_listing_line((4 * i) as nat, ws[i]) + spec_listing_from(ws, i + 1)
    }
}

/// The whole listing: one line per instruction, addresses starting at 0 and
/// incrementing by 4.
pub open spec fn spec_listing(ws: Seq<u32>) -> Seq<char> {
    spec_listing_from(ws, 0)
}

/// Disassemble a program to its textual listing.
pub fn disassemble_listing(words: &[u32]) -> (s: String)
    requires
        words@.len() < 0x1000000000000000,
    ensures
        s@ == spec_listing(words@),
{
    let n = words.len();
    let mut s = String::new();
    let mut i: usize = 0;
    while i < n
        invariant
            0 <= i <= n,
            n == words@.len(),
            n < 0x1000000000000000,
            spec_listing(words@) == s@ + spec_listing_from(words@, i as int),
        decreases n - i,
    {
        let w = words[i];
        let ghost s_before = s@;
        let addr_text = hex_u64_string((i as u64) * 4, 4);
        s.append(addr_text.as_str());
        s.append(":  ");
        let word_text = hex_u64_string(w as u64, 8);
        s.append(word_text.as_str());
        s.append("  ");
        let instr_text = decode_instruction(w);
        s.append(instr_text.as_str());
        s.append("\n");
        proof {
            assert(s@ =~= s_before + spec_listing_line((4 * (i as int)) as nat, w));
            assert(spec_listing(words@) =~= s@ + spec_listing_from(words@, i as int + 1));
        }
        i = i + 1;
    }
    proof {
        assert(spec_listing(words@) =~= s@);
    }
    s
}

} // verus!
