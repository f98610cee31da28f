//! The 6-bit opcode space: a closed enumeration of the defined instructions.

use vstd::prelude::*;

verus! {

pub const OPCODE_HALT: u32 = 0;
pub const OPCODE_ADD: u32 = 1;
pub const OPCODE_ADDI: u32 = 2;
pub const OPCODE_BNE: u32 = 3;
pub const OPCODE_MUL: u32 = 4;
pub const OPCODE_LUI: u32 = 5;
pub const OPCODE_LW: u32 = 6;
pub const OPCODE_SW: u32 = 7;
pub const OPCODE_BLT: u32 = 8;
pub const OPCODE_SLLI: u32 = 9;
pub const OPCODE_SUB: u32 = 10;

/// The defined opcodes, value 0 through 10. Any other 6-bit value is
/// unassigned and decodes as an unknown instruction.
#[derive(Clone, Copy, PartialEq, Eq, Structural, Debug)]
pub enum Opcode {
    Halt,
    Add,
    Addi,
    Bne,
    Mul,
    Lui,
    Lw,
    Sw,
    Blt,
    Slli,
    Sub,
}

impl Opcode {
    /// The 6-bit value that selects this instruction.
    pub open spec fn spec_value(self) -> u32 {
        match self {
            Opcode::Halt => OPCODE_HALT,
            Opcode::Add => OPCODE_ADD,
            Opcode::Addi => OPCODE_ADDI,
            Opcode::Bne => OPCODE_BNE,
            Opcode::Mul => OPCODE_MUL,
            Opcode::Lui => OPCODE_LUI,
            Opcode::Lw => OPCODE_LW,
            Opcode::Sw => OPCODE_SW,
            Opcode::Blt => OPCODE_BLT,
            Opcode::Slli => OPCODE_SLLI,
            Opcode::Sub => OPCODE_SUB,
        }
    }

    pub fn value(self) -> (v: u32)
        ensures
            v == self.spec_value(),
    {
        match self {
            Opcode::Halt => OPCODE_HALT,
            Opcode::Add => OPCODE_ADD,
            Opcode::Addi => OPCODE_ADDI,
            Opcode::Bne => OPCODE_BNE,
            Opcode::Mul => OPCODE_MUL,
            Opcode::Lui => OPCODE_LUI,
            Opcode::Lw => OPCODE_LW,
            Opcode::Sw => OPCODE_SW,
            Opcode::Blt => OPCODE_BLT,
            Opcode::Slli => OPCODE_SLLI,
            Opcode::Sub => OPCODE_SUB,
        }
    }

    /// The opcode selected by a 6-bit value, or `None` where the value is
    /// unassigned.
    pub open spec fn spec_from_value(v: u32) -> Option<Opcode> {
        if v == OPCODE_HALT {
            Some(Opcode::Halt)
        } else if v == OPCODE_ADD {
            Some(Opcode::Add)
        } else if v == OPCODE_ADDI {
            Some(Opcode::Addi)
        } else if v == OPCODE_BNE {
            Some(Opcode::Bne)
        } else if v == OPCODE_MUL {
            Some(Opcode::Mul)
        } else if v == OPCODE_LUI {
            Some(Opcode::Lui)
        } else if v == OPCODE_LW {
            Some(Opcode::Lw)
        } else if v == OPCODE_SW {
            Some(Opcode::Sw)
        } else if v == OPCODE_BLT {
            Some(Opcode::Blt)
        } else if v == OPCODE_SLLI {
            Some(Opcode::Slli)
        } else if v == OPCODE_SUB {
            Some(Opcode::Sub)
        } else {
            None
        }
    }

    pub fn from_value(v: u32) -> (r: Option<Opcode>)
        ensures
            r == Self::spec_from_value(v),
    {
        if v == OPCODE_HALT {
            Some(Opcode::Halt)
        } else if v == OPCODE_ADD {
            Some(Opcode::Add)
        } else if v == OPCODE_ADDI {
            Some(Opcode::Addi)
        } else if v == OPCODE_BNE {
            Some(Opcode::Bne)
        } else if v == OPCODE_MUL {
            Some(Opcode::Mul)
        } else if v == OPCODE_LUI {
            Some(Opcode::Lui)
        } else if v == OPCODE_LW {
            Some(Opcode::Lw)
        } else if v == OPCODE_SW {
            Some(Opcode::Sw)
        } else if v == OPCODE_BLT {
            Some(Opcode::Blt)
        } else if v == OPCODE_SLLI {
            Some(Opcode::Slli)
        } else if v == OPCODE_SUB {
            Some(Opcode::Sub)
        } else {
            None
        }
    }
}

} // verus!
