//! The library's laws: properties that relate encoding, decoding and
//! parsing, stated over the spec functions the public contracts use.

use vstd::prelude::*;

use crate::assembler::{spec_instr_line, SpecAsmError};
use crate::decode::{spec_decode_text, spec_render};
use crate::instr::{spec_decode, Instr};
use crate::opcode::{
    OPCODE_ADD, OPCODE_ADDI, OPCODE_BLT, OPCODE_BNE, OPCODE_LUI, OPCODE_LW, OPCODE_MUL,
    OPCODE_SLLI, OPCODE_SUB, OPCODE_SW,
};
use crate::parse::{
    all_hex_digits, hex_value, is_ws, spec_parse_imm, trim_back, trim_front, trunc_to_i16,
};
use crate::words::{
    bits_to_i16, lemma_a_fields, lemma_b_fields, lemma_c_fields, lemma_i16_bits_round_trip,
    spec_word_a, spec_word_c, word_c_imm16, word_field11, word_field16, word_opcode, word_rd,
};

verus! {

/// Decoding inverts encoding: every well-formed instruction decodes back to
/// itself from its encoded word, and its decoded text is its canonical
/// rendering (the original line up to immediate-format normalization).
pub proof fn lemma_encode_decode_round_trip(i: Instr)
    requires
        i.wf(),
    ensures
        spec_decode(i.spec_encode()) == Some(i),
        spec_decode_text(i.spec_encode()) == spec_render(i),
{
    match i {
        Instr::Halt => {
            assert(0u32 & 0x3F == 0) by (bit_vector);
        },
        Instr::Add { rd, rs1, rs2 } => {
            lemma_a_fields(OPCODE_ADD, rd, rs1, rs2);
        },
        Instr::Mul { rd, rs1, rs2 } => {
            lemma_a_fields(OPCODE_MUL, rd, rs1, rs2);
        },
        Instr::Sub { rd, rs1, rs2 } => {
            lemma_a_fields(OPCODE_SUB, rd, rs1, rs2);
        },
        Instr::Addi { rd, rs1, imm } => {
            lemma_b_fields(OPCODE_ADDI, rd, rs1, imm as u16);
            lemma_i16_bits_round_trip(imm);
        },
        Instr::Slli { rd, rs1, imm } => {
            lemma_b_fields(OPCODE_SLLI, rd, rs1, imm as u16);
            lemma_i16_bits_round_trip(imm);
        },
        Instr::Lui { rd, imm } => {
            lemma_b_fields(OPCODE_LUI, rd, 0, imm as u16);
            lemma_i16_bits_round_trip(imm);
        },
        Instr::Lw { rd, rs1, offset } => {
            lemma_b_fields(OPCODE_LW, rd, rs1, offset as u16);
            lemma_i16_bits_round_trip(offset);
        },
        Instr::Bne { rs1, rs2, offset } => {
            lemma_c_fields(OPCODE_BNE, rs1, rs2, offset as u16);
            lemma_i16_bits_round_trip(offset);
        },
        Instr::Sw { rs1, rs2, offset } => {
            lemma_c_fields(OPCODE_SW, rs1, rs2, offset as u16);
            lemma_i16_bits_round_trip(offset);
        },
        Instr::Blt { rs1, rs2, offset } => {
            lemma_c_fields(OPCODE_BLT, rs2, rs1, offset as u16);
            lemma_i16_bits_round_trip(offset);
        },
    }
}

/// A `halt` line always encodes to the zero word, whatever else stands on
/// the line after the mnemonic, and the zero word always decodes to `halt`.
pub proof fn lemma_halt_zero(toks: Seq<Seq<char>>)
    requires
        toks.len() >= 1,
        toks[0] == "halt"@,
    ensures
        spec_instr_line(toks) == Ok::<u32, SpecAsmError>(0),
        spec_decode_text(0) == "halt"@,
{
    reveal_strlit("halt");
    reveal_strlit("add");
    reveal_strlit("mul");
    reveal_strlit("sub");
    reveal_strlit("addi");
    reveal_strlit("slli");
    reveal_strlit("lui");
    reveal_strlit("lw");
    reveal_strlit("sw");
    reveal_strlit("bne");
    reveal_strlit("blt");
    assert("halt"@[0] != "addi"@[0]);
    assert(0u32 & 0x3F == 0) by (bit_vector);
}

/// Swapping the rs1 and rs2 inputs of an A-format word changes only the two
/// register fields — which exchange their contents — never rd, the opcode,
/// or any other bit: outside bits 20:11 the two words agree exactly.
pub proof fn lemma_a_swap(op: u32, rd: u8, rs1: u8, rs2: u8)
    requires
        op < 64,
        rd < 32,
        rs1 < 32,
        rs2 < 32,
    ensures
        word_opcode(spec_word_a(op, rd, rs2, rs1)) == word_opcode(spec_word_a(op, rd, rs1, rs2)),
        word_rd(spec_word_a(op, rd, rs2, rs1)) == word_rd(spec_word_a(op, rd, rs1, rs2)),
        word_field16(spec_word_a(op, rd, rs2, rs1)) == word_field11(spec_word_a(op, rd, rs1, rs2)),
        word_field11(spec_word_a(op, rd, rs2, rs1)) == word_field16(spec_word_a(op, rd, rs1, rs2)),
        spec_word_a(op, rd, rs2, rs1) & 0xFFE007FF == spec_word_a(op, rd, rs1, rs2) & 0xFFE007FF,
{
    lemma_a_fields(op, rd, rs1, rs2);
    lemma_a_fields(op, rd, rs2, rs1);
    lemma_a_outside_bits(op, rd, rs1, rs2);
}

proof fn lemma_a_outside_bits(op: u32, rd: u8, rs1: u8, rs2: u8)
    by (bit_vector)
    ensures
        spec_word_a(op, rd, rs2, rs1) & 0xFFE007FF == spec_word_a(op, rd, rs1, rs2) & 0xFFE007FF,
{
}

/// The per-mnemonic operand-to-field assignment of the C formats: `bne`
/// places rs1 at bits 20:16 and rs2 at 15:11; `sw` places its base register
/// rs1 at 20:16 and its value register rs2 at 15:11; `blt` places rs2 at
/// 20:16 and rs1 at 15:11, the inverse of `bne`.
pub proof fn lemma_c_operand_fields(rs1: u8, rs2: u8, offset: i16)
    requires
        rs1 < 32,
        rs2 < 32,
    ensures
        word_field16((Instr::Bne { rs1, rs2, offset }).spec_encode()) == rs1,
        word_field11((Instr::Bne { rs1, rs2, offset }).spec_encode()) == rs2,
        word_field16((Instr::Sw { rs1, rs2, offset }).spec_encode()) == rs1,
        word_field11((Instr::Sw { rs1, rs2, offset }).spec_encode()) == rs2,
        word_field16((Instr::Blt { rs1, rs2, offset }).spec_encode()) == rs2,
        word_field11((Instr::Blt { rs1, rs2, offset }).spec_encode()) == rs1,
{
    lemma_c_fields(OPCODE_BNE, rs1, rs2, offset as u16);
    lemma_c_fields(OPCODE_SW, rs1, rs2, offset as u16);
    lemma_c_fields(OPCODE_BLT, rs2, rs1, offset as u16);
}

/// Two's-complement round trip across the split C-format layout: any signed
/// 16-bit offset, split into 11 high and 5 low bits, reassembles and
/// sign-extends back to itself.
pub proof fn lemma_c_offset_round_trip(op: u32, fa: u8, fb: u8, offset: i16)
    requires
        op < 64,
        fa < 32,
        fb < 32,
    ensures
        bits_to_i16(word_c_imm16(spec_word_c(op, fa, fb, offset as u16))) == offset,
{
    lemma_c_fields(op, fa, fb, offset as u16);
    lemma_i16_bits_round_trip(offset);
}

/// Truncation of wide hexadecimal immediates: a hexadecimal token never
/// fails to parse, however wide its magnitude; the parsed value is the
/// token's value masked to 16 bits and reinterpreted as signed.
pub proof fn lemma_hex_truncation(ds: Seq<char>)
    requires
        ds.len() > 0,
        all_hex_digits(ds),
    ensures
        spec_parse_imm(seq!['0', 'x'] + ds) == Some(trunc_to_i16(hex_value(ds))),
{
    let t = seq!['0', 'x'] + ds;
    assert(!is_ws(t[0]));
    assert(trim_front(t) == t);
    assert(t.last() == ds.last());
    assert(!is_ws(t.last()));
    assert(trim_back(t) == t);
    assert(t.subrange(2, t.len() as int) =~= ds);
}

} // verus!
