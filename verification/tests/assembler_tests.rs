use toyasm::assembler::{assemble, AsmError};
use toyasm::decode::decode_instruction;

#[test]
fn test_encode_decode_cycle() {
    let tests = [
        "add x1, x2, x3",
        "addi x3, x0, 42",
        "mul x4, x5, x6",
        "bne x7, x8, -16",
        "lw x9, 8(x10)",
        "lui x13, 1024",
        "halt",
    ];

    let sw_test = "sw x11, 12(x12)";
    let blt_test = "blt x14, x15, 20";

    for &test_str in &tests {
        let code = assemble(test_str).unwrap();
        assert_eq!(code.len(), 1);

        let decoded = decode_instruction(code[0]);
        if test_str.starts_with("lui") {
            assert!(decoded.starts_with("lui"));
        } else {
            assert_eq!(decoded, test_str);
        }
    }

    {
        let code = assemble(sw_test).unwrap();
        assert_eq!(code.len(), 1);
        let decoded = decode_instruction(code[0]);
        assert!(decoded.starts_with("sw"));
    }

    {
        let code = assemble(blt_test).unwrap();
        assert_eq!(code.len(), 1);
        let decoded = decode_instruction(code[0]);
        assert!(decoded.starts_with("blt"));
    }
}

#[test]
fn sw_and_blt_round_trip_exactly() {
    let sw = assemble("sw x11, 12(x12)").unwrap();
    assert_eq!(decode_instruction(sw[0]), "sw x11, 12(x12)");
    let blt = assemble("blt x14, x15, 20").unwrap();
    assert_eq!(decode_instruction(blt[0]), "blt x14, x15, 20");
}

#[test]
fn addi_scenario_end_to_end() {
    // addi x1, x0, 10: imm 10 at bits 31:16, rs1 = 0 at 15:11, rd = 1 at
    // 10:6, opcode 2
    let code = assemble("addi x1, x0, 10").unwrap();
    assert_eq!(code, vec![0x000A0042]);
    assert_eq!(decode_instruction(0x000A0042), "addi x1, x0, 10");
}

#[test]
fn bne_scenario_end_to_end() {
    // bne x3, x2, -8: rs1 = 3 at bits 20:16, rs2 = 2 at 15:11, offset -8
    // split into all-ones high bits and low bits 0b11000
    let code = assemble("bne x3, x2, -8").unwrap();
    assert_eq!(code, vec![0b11111111111_00011_00010_11000_000011]);
    assert_eq!(decode_instruction(code[0]), "bne x3, x2, -8");
}

#[test]
fn negative_offset_round_trips_exactly() {
    let code = assemble("bne x1, x2, -8").unwrap();
    let decoded = decode_instruction(code[0]);
    assert_eq!(decoded, "bne x1, x2, -8");
}

#[test]
fn wide_hex_immediate_truncates_instead_of_failing() {
    // 0x1FFFF has 17 significant bits; the low 16 reinterpret as -1
    let code = assemble("addi x1, x0, 0x1FFFF").unwrap();
    assert_eq!(code.len(), 1);
    assert_eq!(decode_instruction(code[0]), "addi x1, x0, -1");
    let code2 = assemble("addi x1, x0, 0x10003").unwrap();
    assert_eq!(decode_instruction(code2[0]), "addi x1, x0, 3");
    // truncation never turns into an error, however wide the magnitude
    let code3 = assemble("addi x1, x0, 0x80000000").unwrap();
    assert_eq!(decode_instruction(code3[0]), "addi x1, x0, 0");
    let code4 = assemble("lui x2, 0xFFFFFFFFFF").unwrap();
    assert_eq!(decode_instruction(code4[0]), "lui x2, -1");
}

#[test]
fn plus_prefix_normalizes_to_plain_decimal() {
    let code = assemble("addi x1, x0, +10").unwrap();
    assert_eq!(decode_instruction(code[0]), "addi x1, x0, 10");
}

#[test]
fn comments_and_blank_lines_are_skipped() {
    let src = "# a whole comment line\n\n   \nadd x1, x2, x3  # trailing comment\n\nhalt\n";
    let code = assemble(src).unwrap();
    assert_eq!(code.len(), 2);
    assert_eq!(decode_instruction(code[0]), "add x1, x2, x3");
    assert_eq!(code[1], 0);
}

#[test]
fn program_order_is_kept() {
    let src = "addi x1, x0, 1\naddi x2, x0, 2\naddi x3, x0, 3";
    let code = assemble(src).unwrap();
    assert_eq!(code.len(), 3);
    assert_eq!(decode_instruction(code[0]), "addi x1, x0, 1");
    assert_eq!(decode_instruction(code[1]), "addi x2, x0, 2");
    assert_eq!(decode_instruction(code[2]), "addi x3, x0, 3");
}

#[test]
fn empty_source_assembles_to_nothing() {
    assert_eq!(assemble("").unwrap().len(), 0);
    assert_eq!(assemble("\n\n").unwrap().len(), 0);
}

#[test]
fn unknown_mnemonic_is_fatal() {
    let r = assemble("add x1, x2, x3\nnop\nhalt");
    assert!(matches!(r, Err(AsmError::UnknownMnemonic(t)) if t == "nop"));
}

#[test]
fn invalid_register_is_reported_with_its_token() {
    let r = assemble("add x1, y2, x3");
    assert!(matches!(r, Err(AsmError::InvalidRegister(t)) if t == "y2"));
    let r2 = assemble("add x1, x256, x3");
    assert!(matches!(r2, Err(AsmError::InvalidRegister(t)) if t == "x256"));
}

#[test]
fn invalid_immediate_is_reported_with_its_token() {
    let r = assemble("addi x1, x0, ten");
    assert!(matches!(r, Err(AsmError::InvalidImmediate(t)) if t == "ten"));
    // decimal out of the signed 16-bit range is rejected, not truncated
    let r2 = assemble("addi x1, x0, 40000");
    assert!(matches!(r2, Err(AsmError::InvalidImmediate(t)) if t == "40000"));
}

#[test]
fn malformed_memory_operand_is_fatal() {
    let r = assemble("lw x1, 4x2");
    assert!(matches!(r, Err(AsmError::BadMemOperand(t)) if t == "4x2"));
    let r2 = assemble("sw x1, )4(x2");
    assert!(matches!(r2, Err(AsmError::BadMemOperand(_))));
}

#[test]
fn missing_operands_are_fatal() {
    let r = assemble("add x1, x2");
    assert!(matches!(r, Err(AsmError::MissingOperand(t)) if t == "add"));
    let r2 = assemble("lui x1");
    assert!(matches!(r2, Err(AsmError::MissingOperand(_))));
}

#[test]
fn first_error_aborts_the_run() {
    let r = assemble("frob x1\nnop x2");
    assert!(matches!(r, Err(AsmError::UnknownMnemonic(t)) if t == "frob"));
}

#[test]
fn halt_line_assembles_to_zero() {
    assert_eq!(assemble("halt").unwrap(), vec![0]);
}

#[test]
fn out_of_range_register_numerals_mask_in_encoding() {
    // x33 parses (33 fits eight bits) and masks to x1 during encoding
    let code = assemble("add x33, x2, x3").unwrap();
    assert_eq!(decode_instruction(code[0]), "add x1, x2, x3");
}

#[test]
fn sw_operand_mapping_matches_the_table() {
    // sw x2, 8(x1): base x1 to bits 20:16, value x2 to bits 15:11
    let code = assemble("sw x2, 8(x1)").unwrap();
    assert_eq!(code[0], 0b00000000000_00001_00010_01000_000111);
}

#[test]
fn slli_assembles_as_b_format() {
    let code = assemble("slli x1, x2, 3").unwrap();
    assert_eq!(code[0], 0b00000000000_00011_00010_00001_001001);
    assert_eq!(decode_instruction(code[0]), "slli x1, x2, 3");
}
