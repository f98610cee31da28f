//! A two-way translator between a small human-readable assembly language and a
//! fixed-width 32-bit binary instruction encoding for a toy register machine.
//!
//! The encoder turns one tokenized mnemonic line into one 32-bit word; the
//! decoder inspects the low 6 bits of a word (the opcode) and reconstructs the
//! mnemonic text by inverting the format used to produce it. Three bit-level
//! layouts partition a word: A (register-register-register), B
//! (register-register-immediate with a full 16-bit immediate), and C
//! (branch/store with the 16-bit immediate split into 11 high and 5 low bits).
//! The operand-to-field mapping of the C formats is per-mnemonic; one canonical
//! table, stated in `words` and `instr`, governs both directions.

pub mod assembler;
pub mod decode;
pub mod encode;
pub mod text;
pub mod instr;
pub mod laws;
pub mod object;
pub mod opcode;
pub mod parse;
pub mod scan;
pub mod words;
