use toyasm::decode::{
    decode_a_type, decode_b_type, decode_c_type, decode_halt, decode_instruction,
    disassemble_listing, render_instr,
};
use toyasm::instr::{decode_word, Instr};

#[test]
fn test_decode_add() {
    // add x1, x2, x3
    let instr = 0b00000000000_00011_00010_00001_000001;
    assert_eq!(decode_instruction(instr), "add x1, x2, x3");
}

#[test]
fn test_decode_mul() {
    // mul x3, x4, x5
    let instr = 0b00000000000_00101_00100_00011_000100;
    assert_eq!(decode_instruction(instr), "mul x3, x4, x5");
}

#[test]
fn test_decode_addi() {
    // addi x1, x0, 10
    let instr = 0b00000000000_01010_00000_00001_000010;
    assert_eq!(decode_instruction(instr), "addi x1, x0, 10");
}

#[test]
fn test_decode_lui() {
    // lui x2, 42
    let instr = 0b00000000001_01010_00000_00010_000101;
    assert_eq!(decode_instruction(instr), "lui x2, 42");
}

#[test]
fn test_decode_lw() {
    // lw x3, 4(x1)
    let instr = 0b00000000000_00100_00001_00011_000110;
    assert_eq!(decode_instruction(instr), "lw x3, 4(x1)");
}

#[test]
fn test_decode_bne() {
    // bne x2, x1, -8
    let instr = 0b11111111111_00010_00001_11000_000011;
    assert_eq!(decode_instruction(instr), "bne x2, x1, -8");
}

#[test]
fn test_decode_sw() {
    // sw x2, 8(x1): base x1 at bits 20:16, value x2 at bits 15:11
    let instr = 0b00000000000_00001_00010_01000_000111;
    assert_eq!(decode_instruction(instr), "sw x2, 8(x1)");
}

#[test]
fn test_decode_blt() {
    // blt places rs2 at bits 20:16 and rs1 at 15:11, so field 20:16 = 4 is
    // the second printed operand and field 15:11 = 5 the first
    let instr = 0b00000000000_00100_00101_10000_001000;
    assert_eq!(decode_instruction(instr), "blt x5, x4, 16");
}

#[test]
fn test_decode_halt() {
    // halt
    let instr = 0;
    assert_eq!(decode_instruction(instr), "halt");
}

#[test]
fn test_decode_slli() {
    // slli x1, x2, 3
    let instr = 0b00000000000_00011_00010_00001_001001;
    assert_eq!(decode_instruction(instr), "slli x1, x2, 3");
}

#[test]
fn test_decode_sub() {
    // sub x3, x4, x5
    let instr = 0b00000000000_00101_00100_00011_001010;
    assert_eq!(decode_instruction(instr), "sub x3, x4, x5");
}

#[test]
fn nonzero_opcode_zero_word_is_unknown() {
    // opcode 0 decodes to halt only when the whole word is zero
    let instr = 0b00000000000_00001_00000_00000_000000;
    assert_eq!(decode_instruction(instr), "unknown instruction: 0x00010000");
    assert_eq!(decode_halt(instr), "unknown instruction: 0x00010000");
    assert_eq!(decode_word(instr), None);
}

#[test]
fn unassigned_opcodes_decode_as_unknown() {
    assert_eq!(decode_instruction(11), "unknown instruction: 0x0000000B");
    assert_eq!(decode_instruction(63), "unknown instruction: 0x0000003F");
    assert_eq!(decode_word(11), None);
    assert_eq!(decode_word(0xFFFFFFFF), None);
}

#[test]
fn format_decoders_reject_foreign_opcodes() {
    let add = 0b00000000000_00011_00010_00001_000001;
    assert_eq!(decode_a_type(add), "add x1, x2, x3");
    assert_eq!(decode_b_type(add), "unknown instruction: 0x00031041");
    assert_eq!(decode_c_type(add), "unknown instruction: 0x00031041");
    let addi = 0b00000000000_01010_00000_00001_000010;
    assert_eq!(decode_b_type(addi), "addi x1, x0, 10");
    assert_eq!(decode_a_type(addi), "unknown instruction: 0x000A0042");
}

#[test]
fn decode_word_yields_structured_instructions() {
    let instr = 0b00000000000_00011_00010_00001_000001;
    assert_eq!(decode_word(instr), Some(Instr::Add { rd: 1, rs1: 2, rs2: 3 }));
    let bne = 0b11111111111_00010_00001_11000_000011;
    assert_eq!(decode_word(bne), Some(Instr::Bne { rs1: 2, rs2: 1, offset: -8 }));
    assert_eq!(decode_word(0), Some(Instr::Halt));
}

#[test]
fn render_matches_decode_text() {
    let i = Instr::Sw { rs1: 1, rs2: 2, offset: 8 };
    assert_eq!(render_instr(&i), "sw x2, 8(x1)");
    assert_eq!(render_instr(&Instr::Lui { rd: 2, imm: -1 }), "lui x2, -1");
    assert_eq!(render_instr(&Instr::Halt), "halt");
}

#[test]
fn structured_round_trip_for_every_opcode_and_register() {
    for r in 0u8..32 {
        let a = (r + 1) % 32;
        let b = (r + 7) % 32;
        let cases = [
            Instr::Halt,
            Instr::Add { rd: r, rs1: a, rs2: b },
            Instr::Mul { rd: b, rs1: r, rs2: a },
            Instr::Sub { rd: a, rs1: b, rs2: r },
            Instr::Addi { rd: r, rs1: a, imm: -300 },
            Instr::Slli { rd: r, rs1: a, imm: 3 },
            Instr::Lui { rd: r, imm: 1024 },
            Instr::Lw { rd: r, rs1: a, offset: 8 },
            Instr::Bne { rs1: r, rs2: a, offset: -16 },
            Instr::Sw { rs1: r, rs2: a, offset: 12 },
            Instr::Blt { rs1: r, rs2: a, offset: 20 },
        ];
        for i in cases {
            assert_eq!(decode_word(i.encode()), Some(i));
        }
    }
    for imm in [-32768i16, -1, 0, 1, 255, 32767] {
        let i = Instr::Addi { rd: 1, rs1: 0, imm };
        assert_eq!(decode_word(i.encode()), Some(i));
        let c = Instr::Bne { rs1: 1, rs2: 2, offset: imm };
        assert_eq!(decode_word(c.encode()), Some(c));
    }
}

#[test]
fn listing_prints_addresses_words_and_text() {
    let words = [0x000A0042u32, 0];
    let listing = disassemble_listing(&words);
    assert_eq!(listing, "0000:  000A0042  addi x1, x0, 10\n0004:  00000000  halt\n");
}

#[test]
fn listing_addresses_grow_by_four() {
    let words = [0u32, 0, 0, 0, 0];
    let listing = disassemble_listing(&words);
    let lines: Vec<&str> = listing.lines().collect();
    assert_eq!(lines.len(), 5);
    assert!(lines[4].starts_with("0010:  "));
    assert_eq!(disassemble_listing(&[]), "");
}
