//! Structured instructions and the canonical operand-to-field table.
//!
//! The C-format mnemonics assign their source operands to the two register
//! fields inconsistently; the single source of truth for both encoding and
//! decoding is this table:
//!
//! | mnemonic      | bits 20:16 | bits 15:11 | bits 10:6 |
//! |---------------|------------|------------|-----------|
//! | add, mul, sub | rs2        | rs1        | rd        |
//! | addi, lw, slli| —          | rs1        | rd        |
//! | lui           | —          | 0 (fixed)  | rd        |
//! | bne           | rs1        | rs2        | imm low   |
//! | sw            | rs1 (base) | rs2 (value)| imm low   |
//! | blt           | rs2        | rs1        | imm low   |
//!
//! `blt` places its second source operand at 20:16 and its first at 15:11,
//! the inverse of `bne`.

use vstd::prelude::*;

use crate::opcode::{
    Opcode,
    OPCODE_ADD, OPCODE_ADDI, OPCODE_BLT, OPCODE_BNE, OPCODE_HALT, OPCODE_LUI, OPCODE_LW,
    OPCODE_MUL, OPCODE_SLLI, OPCODE_SUB, OPCODE_SW,
};
use crate::words::{
    bits_to_i16, spec_word_a, spec_word_b, spec_word_c, word_c_imm16, word_field11, word_field16,
    word_imm16, word_opcode, word_rd,
};

verus! {

/// One instruction with its operands. Register numbers are 5-bit indices
/// (`wf` bounds them); immediates and branch/store offsets are signed 16-bit
/// values. For `lw`, `rs1` is the base register of the memory operand; for
/// `sw`, `rs1` is the base and `rs2` the stored value.
#[derive(Clone, Copy, PartialEq, Eq, Structural, Debug)]
pub enum Instr {
    Halt,
    Add { rd: u8, rs1: u8, rs2: u8 },
    Mul { rd: u8, rs1: u8, rs2: u8 },
    Sub { rd: u8, rs1: u8, rs2: u8 },
    Addi { rd: u8, rs1: u8, imm: i16 },
    Slli { rd: u8, rs1: u8, imm: i16 },
    Lui { rd: u8, imm: i16 },
    Lw { rd: u8, rs1: u8, offset: i16 },
    Bne { rs1: u8, rs2: u8, offset: i16 },
    Sw { rs1: u8, rs2: u8, offset: i16 },
    Blt { rs1: u8, rs2: u8, offset: i16 },
}

impl Instr {
    /// Every register index fits its 5-bit field.
    pub open spec fn wf(self) -> bool {
        match self {
            Instr::Halt => true,
            Instr::Add { rd, rs1, rs2 } => rd < 32 && rs1 < 32 && rs2 < 32,
            Instr::Mul { rd, rs1, rs2 } => rd < 32 && rs1 < 32 && rs2 < 32,
            Instr::Sub { rd, rs1, rs2 } => rd < 32 && rs1 < 32 && rs2 < 32,
            Instr::Addi { rd, rs1, imm } => rd < 32 && rs1 < 32,
            Instr::Slli { rd, rs1, imm } => rd < 32 && rs1 < 32,
            Instr::Lui { rd, imm } => rd < 32,
            Instr::Lw { rd, rs1, offset } => rd < 32 && rs1 < 32,
            Instr::Bne { rs1, rs2, offset } => rs1 < 32 && rs2 < 32,
            Instr::Sw { rs1, rs2, offset } => rs1 < 32 && rs2 < 32,
            Instr::Blt { rs1, rs2, offset } => rs1 < 32 && rs2 < 32,
        }
    }

    /// The word this instruction encodes to, per the table above. Out-of-range
    /// register numbers truncate to 5 bits; immediates to 16.
    pub open spec fn spec_encode(self) -> u32 {
        match self {
            Instr::Halt => 0,
            Instr::Add { rd, rs1, rs2 } => spec_word_a(OPCODE_ADD, rd, rs1, rs2),
            Instr::Mul { rd, rs1, rs2 } => spec_word_a(OPCODE_MUL, rd, rs1, rs2),
            Instr::Sub { rd, rs1, rs2 } => spec_word_a(OPCODE_SUB, rd, rs1, rs2),
            Instr::Addi { rd, rs1, imm } => spec_word_b(OPCODE_ADDI, rd, rs1, imm as u16),
            Instr::Slli { rd, rs1, imm } => spec_word_b(OPCODE_SLLI, rd, rs1, imm as u16),
            Instr::Lui { rd, imm } => spec_word_b(OPCODE_LUI, rd, 0, imm as u16),
            Instr::Lw { rd, rs1, offset } => spec_word_b(OPCODE_LW, rd, rs1, offset as u16),
            Instr::Bne { rs1, rs2, offset } => spec_word_c(OPCODE_BNE, rs1, rs2, offset as u16),
            Instr::Sw { rs1, rs2, offset } => spec_word_c(OPCODE_SW, rs1, rs2, offset as u16),
            Instr::Blt { rs1, rs2, offset } => spec_word_c(OPCODE_BLT, rs2, rs1, offset as u16),
        }
    }

    pub fn encode(&self) -> (w: u32)
        ensures
            w == self.spec_encode(),
    {
        match *self {
            Instr::Halt => crate::encode::encode_halt(),
            Instr::Add { rd, rs1, rs2 } => crate::encode::encode_add(rd, rs1, rs2),
            Instr::Mul { rd, rs1, rs2 } => crate::encode::encode_mul(rd, rs1, rs2),
            Instr::Sub { rd, rs1, rs2 } => crate::encode::encode_sub(rd, rs1, rs2),
            Instr::Addi { rd, rs1, imm } => crate::encode::encode_addi(rd, rs1, imm),
            Instr::Slli { rd, rs1, imm } => crate::encode::encode_slli(rd, rs1, imm),
            Instr::Lui { rd, imm } => crate::encode::encode_lui(rd, imm),
            Instr::Lw { rd, rs1, offset } => crate::encode::encode_lw(rd, rs1, offset),
            Instr::Bne { rs1, rs2, offset } => crate::encode::encode_bne(rs1, rs2, offset),
            Instr::Sw { rs1, rs2, offset } => crate::encode::encode_sw(rs1, rs2, offset),
            Instr::Blt { rs1, rs2, offset } => crate::encode::encode_blt(rs1, rs2, offset),
        }
    }
}

/// The instruction a word decodes to, inverse to the table above, or `None`
/// where no mnemonic is defined: opcode 0 decodes to `halt` only if the whole
/// word is zero, and opcodes 11 through 63 are unassigned.
pub open spec fn spec_decode(w: u32) -> Option<Instr> {
    let op = word_opcode(w);
    if op == OPCODE_HALT {
        if w == 0 {
            Some(Instr::Halt)
        } else {
            None
        }
    } else if op == OPCODE_ADD {
        Some(Instr::Add { rd: word_rd(w) as u8, rs1: word_field11(w) as u8, rs2: word_field16(w) as u8 })
    } else if op == OPCODE_MUL {
        Some(Instr::Mul { rd: word_rd(w) as u8, rs1: word_field11(w) as u8, rs2: word_field16(w) as u8 })
    } else if op == OPCODE_SUB {
        Some(Instr::Sub { rd: word_rd(w) as u8, rs1: word_field11(w) as u8, rs2: word_field16(w) as u8 })
    } else if op == OPCODE_ADDI {
        Some(
            Instr::Addi {
                rd: word_rd(w) as u8,
                rs1: word_field11(w) as u8,
                imm: bits_to_i16(word_imm16(w)),
            },
        )
    } else if op == OPCODE_SLLI {
        Some(
            Instr::Slli {
                rd: word_rd(w) as u8,
                rs1: word_field11(w) as u8,
                imm: bits_to_i16(word_imm16(w)),
            },
        )
    } else if op == OPCODE_LUI {
        Some(Instr::Lui { rd: word_rd(w) as u8, imm: bits_to_i16(word_imm16(w)) })
    } else if op == OPCODE_LW {
        Some(
            Instr::Lw {
                rd: word_rd(w) as u8,
                rs1: word_field11(w) as u8,
                offset: bits_to_i16(word_imm16(w)),
            },
        )
    } else if op == OPCODE_BNE {
        Some(
            Instr::Bne {
                rs1: word_field16(w) as u8,
                rs2: word_field11(w) as u8,
                offset: bits_to_i16(word_c_imm16(w)),
            },
        )
    } else if op == OPCODE_SW {
        Some(
            Instr::Sw {
                rs1: word_field16(w) as u8,
                rs2: word_field11(w) as u8,
                offset: bits_to_i16(word_c_imm16(w)),
            },
        )
    } else if op == OPCODE_BLT {
        Some(
            Instr::Blt {
                rs1: word_field11(w) as u8,
                rs2: word_field16(w) as u8,
                offset: bits_to_i16(word_c_imm16(w)),
            },
        )
    } else {
        None
    }
}

/// Decode one word to a structured instruction, or `None` for an unknown
/// instruction.
pub fn decode_word(w: u32) -> (r: Option<Instr>)
    ensures
        r == spec_decode(w),
{
    let op = w & 0x3F;
    let rd = ((w >> 6) & 0x1F) as u8;
    let fld11 = ((w >> 11) & 0x1F) as u8;
    let fld16 = ((w >> 16) & 0x1F) as u8;
    let imm16 = ((w >> 16) & 0xFFFF) as u16 as i16;
    let imm_high = (w >> 21) & 0x7FF;
    let imm_low = (w >> 6) & 0x1F;
    let c_imm = ((imm_high << 5) | imm_low) as u16 as i16;
    match Opcode::from_value(op) {
        None => None,
        Some(Opcode::Halt) => if w == 0 {
            Some(Instr::Halt)
        } else {
            None
        },
        Some(Opcode::Add) => Some(Instr::Add { rd, rs1: fld11, rs2: fld16 }),
        Some(Opcode::Mul) => Some(Instr::Mul { rd, rs1: fld11, rs2: fld16 }),
        Some(Opcode::Sub) => Some(Instr::Sub { rd, rs1: fld11, rs2: fld16 }),
        Some(Opcode::Addi) => Some(Instr::Addi { rd, rs1: fld11, imm: imm16 }),
        Some(Opcode::Slli) => Some(Instr::Slli { rd, rs1: fld11, imm: imm16 }),
        Some(Opcode::Lui) => Some(Instr::Lui { rd, imm: imm16 }),
        Some(Opcode::Lw) => Some(Instr::Lw { rd, rs1: fld11, offset: imm16 }),
        Some(Opcode::Bne) => Some(Instr::Bne { rs1: fld16, rs2: fld11, offset: c_imm }),
        Some(Opcode::Sw) => Some(Instr::Sw { rs1: fld16, rs2: fld11, offset: c_imm }),
        Some(Opcode::Blt) => Some(Instr::Blt { rs1: fld11, rs2: fld16, offset: c_imm }),
    }
}

} // verus!
