//! The encoder: one 32-bit word per mnemonic line.
//!
//! The three format primitives are order-agnostic; each mnemonic-specific
//! function fixes the operand order per the table in `instr`. Out-of-range
//! register numbers silently truncate to 5 bits, and immediates to 16 bits
//! (two's complement): documented, permissive behaviour, not an error.

use vstd::prelude::*;

use crate::instr::Instr;
use crate::opcode::{
    OPCODE_ADD, OPCODE_ADDI, OPCODE_BLT, OPCODE_BNE, OPCODE_LUI, OPCODE_LW, OPCODE_MUL,
    OPCODE_SLLI, OPCODE_SUB, OPCODE_SW,
};
use crate::words::{spec_word_a, spec_word_b, spec_word_c};

verus! {

/// Build an A-format word (reg-reg-reg).
pub fn encode_a(opcode: u32, rd: u8, rs1: u8, rs2: u8) -> (w: u32)
    ensures
        w == spec_word_a(opcode, rd, rs1, rs2),
{
    (((rs2 as u32) & 0x1F) << 16) | (((rs1 as u32) & 0x1F) << 11) | (((rd as u32) & 0x1F) << 6) | (
    opcode & 0x3F)
}

/// Build a B-format word (reg-reg-imm); the immediate is truncated to its 16
/// bits before placement.
pub fn encode_b(opcode: u32, rd: u8, rs1: u8, imm: i16) -> (w: u32)
    ensures
        w == spec_word_b(opcode, rd, rs1, imm as u16),
{
    let imm_u32 = (imm as u16) as u32;
    (imm_u32 << 16) | (((rs1 as u32) & 0x1F) << 11) | (((rd as u32) & 0x1F) << 6) | (opcode & 0x3F)
}

/// Build a C-format word (branch/store): the offset is split into 11 high and
/// 5 low bits. The caller supplies `fa`/`fb` already in the mnemonic-specific
/// order of the table in `instr`.
pub fn encode_c(opcode: u32, fa: u8, fb: u8, offset: i16) -> (w: u32)
    ensures
        w == spec_word_c(opcode, fa, fb, offset as u16),
{
    let offset_u32 = (offset as u16) as u32;
    let imm_high = (offset_u32 >> 5) & 0x7FF;
    let imm_low = offset_u32 & 0x1F;
    (imm_high << 21) | (((fa as u32) & 0x1F) << 16) | (((fb as u32) & 0x1F) << 11) | (imm_low << 6)
        | (opcode & 0x3F)
}

/// `add rd, rs1, rs2`
pub fn encode_add(rd: u8, rs1: u8, rs2: u8) -> (w: u32)
    ensures
        w == (Instr::Add { rd, rs1, rs2 }).spec_encode(),
{
    encode_a(OPCODE_ADD, rd, rs1, rs2)
}

/// `mul rd, rs1, rs2`
pub fn encode_mul(rd: u8, rs1: u8, rs2: u8) -> (w: u32)
    ensures
        w == (Instr::Mul { rd, rs1, rs2 }).spec_encode(),
{
    encode_a(OPCODE_MUL, rd, rs1, rs2)
}

/// `sub rd, rs1, rs2`
pub fn encode_sub(rd: u8, rs1: u8, rs2: u8) -> (w: u32)
    ensures
        w == (Instr::Sub { rd, rs1, rs2 }).spec_encode(),
{
    encode_a(OPCODE_SUB, rd, rs1, rs2)
}

/// `addi rd, rs1, imm`
pub fn encode_addi(rd: u8, rs1: u8, imm: i16) -> (w: u32)
    ensures
        w == (Instr::Addi { rd, rs1, imm }).spec_encode(),
{
    encode_b(OPCODE_ADDI, rd, rs1, imm)
}

/// `slli rd, rs1, imm`
pub fn encode_slli(rd: u8, rs1: u8, imm: i16) -> (w: u32)
    ensures
        w == (Instr::Slli { rd, rs1, imm }).spec_encode(),
{
    encode_b(OPCODE_SLLI, rd, rs1, imm)
}

/// `lui rd, imm`: the field at bits 15:11 is fixed to zero.
pub fn encode_lui(rd: u8, imm: i16) -> (w: u32)
    ensures
        w == (Instr::Lui { rd, imm }).spec_encode(),
{
    encode_b(OPCODE_LUI, rd, 0, imm)
}

/// `lw rd, offset(rs1)`
pub fn encode_lw(rd: u8, rs1: u8, offset: i16) -> (w: u32)
    ensures
        w == (Instr::Lw { rd, rs1, offset }).spec_encode(),
{
    encode_b(OPCODE_LW, rd, rs1, offset)
}

/// `bne rs1, rs2, offset`: rs1 at bits 20:16, rs2 at bits 15:11.
pub fn encode_bne(rs1: u8, rs2: u8, offset: i16) -> (w: u32)
    ensures
        w == (Instr::Bne { rs1, rs2, offset }).spec_encode(),
{
    encode_c(OPCODE_BNE, rs1, rs2, offset)
}

/// `sw rs2, offset(rs1)`: the base register rs1 at bits 20:16, the stored
/// value rs2 at bits 15:11.
pub fn encode_sw(rs1: u8, rs2: u8, offset: i16) -> (w: u32)
    ensures
        w == (Instr::Sw { rs1, rs2, offset }).spec_encode(),
{
    encode_c(OPCODE_SW, rs1, rs2, offset)
}

/// `blt rs1, rs2, offset`: rs2 at bits 20:16, rs1 at bits 15:11 — the inverse
/// of `bne`.
pub fn encode_blt(rs1: u8, rs2: u8, offset: i16) -> (w: u32)
    ensures
        w == (Instr::Blt { rs1, rs2, offset }).spec_encode(),
{
    encode_c(OPCODE_BLT, rs2, rs1, offset)
}

/// `halt`: the all-zero word, unconditionally.
pub fn encode_halt() -> (w: u32)
    ensures
        w == 0,
        w == Instr::Halt.spec_encode(),
{
    0u32
}

} // verus!
