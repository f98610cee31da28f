//! Bit-level layout of the 32-bit instruction word.
//!
//! Bit numbering is [31:0] with bit 0 least significant. The three formats
//! partition the word as follows:
//!
//! - A: bits 31:21 reserved zero, 20:16 rs2, 15:11 rs1, 10:6 rd, 5:0 opcode
//! - B: bits 31:16 a 16-bit immediate, 15:11 rs1, 10:6 rd, 5:0 opcode
//! - C: bits 31:21 the high 11 immediate bits, 20:16 and 15:11 two register
//!   fields (assigned per mnemonic), 10:6 the low 5 immediate bits, 5:0 opcode
//!
//! For every instruction, `word & 0x3F` alone determines which format and
//! which mnemonic applies.

use vstd::prelude::*;

verus! {

// ------------------------------------------------------------------
// Field extraction
// ------------------------------------------------------------------
/// The opcode, bits 5:0.
pub open spec fn word_opcode(w: u32) -> u32 {
    w & 0x3F
}

/// The field at bits 10:6 (rd in the A and B formats, the low immediate bits
/// in the C format).
pub open spec fn word_rd(w: u32) -> u32 {
    (w >> 6) & 0x1F
}

/// The field at bits 15:11.
pub open spec fn word_field11(w: u32) -> u32 {
    (w >> 11) & 0x1F
}

/// The field at bits 20:16.
pub open spec fn word_field16(w: u32) -> u32 {
    (w >> 16) & 0x1F
}

/// The 16-bit immediate of the B format, bits 31:16.
pub open spec fn word_imm16(w: u32) -> u32 {
    (w >> 16) & 0xFFFF
}

/// The high 11 immediate bits of the C format, bits 31:21.
pub open spec fn word_imm_high(w: u32) -> u32 {
    (w >> 21) & 0x7FF
}

/// The low 5 immediate bits of the C format, bits 10:6.
pub open spec fn word_imm_low(w: u32) -> u32 {
    (w >> 6) & 0x1F
}

/// The 16-bit immediate of the C format, reassembled from its split fields.
pub open spec fn word_c_imm16(w: u32) -> u32 {
    (word_imm_high(w) << 5) | word_imm_low(w)
}

/// The signed reading of a 16-bit immediate field.
pub open spec fn bits_to_i16(b: u32) -> i16 {
    (b as u16) as i16
}

// ------------------------------------------------------------------
// Word construction
// ------------------------------------------------------------------
/// An A-format word. Registers are masked to 5 bits, the opcode to 6; the
/// reserved bits 31:21 are zero.
pub open spec fn spec_word_a(op: u32, rd: u8, rs1: u8, rs2: u8) -> u32 {
    (((rs2 as u32) & 0x1F) << 16) | (((rs1 as u32) & 0x1F) << 11) | (((rd as u32) & 0x1F) << 6) | (
    op & 0x3F)
}

/// A B-format word: the full 16-bit immediate at bits 31:16.
pub open spec fn spec_word_b(op: u32, rd: u8, rs1: u8, imm: u16) -> u32 {
    ((imm as u32) << 16) | (((rs1 as u32) & 0x1F) << 11) | (((rd as u32) & 0x1F) << 6) | (op & 0x3F)
}

/// A C-format word: the immediate split into 11 high bits at 31:21 and 5 low
/// bits at 10:6, with register fields `fa` at 20:16 and `fb` at 15:11. The
/// assignment of source operands to `fa`/`fb` is per-mnemonic and is fixed by
/// the callers, not here.
pub open spec fn spec_word_c(op: u32, fa: u8, fb: u8, imm: u16) -> u32 {
    ((((imm as u32) >> 5) & 0x7FF) << 21) | (((fa as u32) & 0x1F) << 16) | (((fb as u32) & 0x1F)
        << 11) | (((imm as u32) & 0x1F) << 6) | (op & 0x3F)
}

// ------------------------------------------------------------------
// Inversion: extraction recovers what construction placed
// ------------------------------------------------------------------
/// Every field of an A-format word reads back exactly, and the reserved bits
/// are zero.
pub proof fn lemma_a_fields(op: u32, rd: u8, rs1: u8, rs2: u8)
    by (bit_vector)
    requires
        op < 64,
        rd < 32,
        rs1 < 32,
        rs2 < 32,
    ensures
        word_opcode(spec_word_a(op, rd, rs1, rs2)) == op,
        word_rd(spec_word_a(op, rd, rs1, rs2)) == rd,
        word_field11(spec_word_a(op, rd, rs1, rs2)) == rs1,
        word_field16(spec_word_a(op, rd, rs1, rs2)) == rs2,
        word_rd(spec_word_a(op, rd, rs1, rs2)) as u8 == rd,
        word_field11(spec_word_a(op, rd, rs1, rs2)) as u8 == rs1,
        word_field16(spec_word_a(op, rd, rs1, rs2)) as u8 == rs2,
        word_imm_high(spec_word_a(op, rd, rs1, rs2)) == 0,
        op != 0 ==> spec_word_a(op, rd, rs1, rs2) != 0,
{
}

/// Every field of a B-format word reads back exactly.
pub proof fn lemma_b_fields(op: u32, rd: u8, rs1: u8, imm: u16)
    by (bit_vector)
    requires
        op < 64,
        rd < 32,
        rs1 < 32,
    ensures
        word_opcode(spec_word_b(op, rd, rs1, imm)) == op,
        word_rd(spec_word_b(op, rd, rs1, imm)) == rd,
        word_field11(spec_word_b(op, rd, rs1, imm)) == rs1,
        word_rd(spec_word_b(op, rd, rs1, imm)) as u8 == rd,
        word_field11(spec_word_b(op, rd, rs1, imm)) as u8 == rs1,
        word_imm16(spec_word_b(op, rd, rs1, imm)) == imm,
        word_imm16(spec_word_b(op, rd, rs1, imm)) as u16 == imm,
        op != 0 ==> spec_word_b(op, rd, rs1, imm) != 0,
{
}

/// Every field of a C-format word reads back exactly; in particular the split
/// immediate reassembles to the 16 bits that were placed.
pub proof fn lemma_c_fields(op: u32, fa: u8, fb: u8, imm: u16)
    by (bit_vector)
    requires
        op < 64,
        fa < 32,
        fb < 32,
    ensures
        word_opcode(spec_word_c(op, fa, fb, imm)) == op,
        word_field16(spec_word_c(op, fa, fb, imm)) == fa,
        word_field11(spec_word_c(op, fa, fb, imm)) == fb,
        word_field16(spec_word_c(op, fa, fb, imm)) as u8 == fa,
        word_field11(spec_word_c(op, fa, fb, imm)) as u8 == fb,
        word_c_imm16(spec_word_c(op, fa, fb, imm)) == imm,
        word_c_imm16(spec_word_c(op, fa, fb, imm)) as u16 == imm,
        word_imm_low(spec_word_c(op, fa, fb, imm)) == imm & 0x1F,
        word_imm_high(spec_word_c(op, fa, fb, imm)) == (imm as u32 >> 5) & 0x7FF,
        op != 0 ==> spec_word_c(op, fa, fb, imm) != 0,
{
}

/// Reinterpreting a signed 16-bit value as unsigned bits and back is the
/// identity: two's-complement round trip.
pub proof fn lemma_i16_bits_round_trip(x: i16)
    by (bit_vector)
    ensures
        (x as u16) as i16 == x,
{
}

} // verus!
