use toyasm::opcode::Opcode;
use toyasm::parse::{parse_imm, parse_reg};
use toyasm::text::{dec_i16_string, dec_u32_string, hex_u64_string};

#[test]
fn registers_parse_by_numeral() {
    assert_eq!(parse_reg("x0"), Some(0));
    assert_eq!(parse_reg("x31"), Some(31));
    // numerals up to eight bits parse; masking to five happens in encoding
    assert_eq!(parse_reg("x255"), Some(255));
    assert_eq!(parse_reg("x007"), Some(7));
}

#[test]
fn malformed_registers_are_rejected() {
    assert_eq!(parse_reg(""), None);
    assert_eq!(parse_reg("x"), None);
    assert_eq!(parse_reg("y5"), None);
    assert_eq!(parse_reg("x5z"), None);
    assert_eq!(parse_reg("x256"), None);
    assert_eq!(parse_reg("x99999999999999999999"), None);
    assert_eq!(parse_reg("x-1"), None);
}

#[test]
fn decimal_immediates_parse_within_sixteen_bits() {
    assert_eq!(parse_imm("0"), Some(0));
    assert_eq!(parse_imm("10"), Some(10));
    assert_eq!(parse_imm("+10"), Some(10));
    assert_eq!(parse_imm("-8"), Some(-8));
    assert_eq!(parse_imm("32767"), Some(32767));
    assert_eq!(parse_imm("-32768"), Some(-32768));
    assert_eq!(parse_imm(" 42\t"), Some(42));
}

#[test]
fn decimal_immediates_out_of_range_are_rejected() {
    assert_eq!(parse_imm("32768"), None);
    assert_eq!(parse_imm("-32769"), None);
    assert_eq!(parse_imm("99999999999999999999"), None);
}

#[test]
fn malformed_immediates_are_rejected() {
    assert_eq!(parse_imm(""), None);
    assert_eq!(parse_imm("ten"), None);
    assert_eq!(parse_imm("+"), None);
    assert_eq!(parse_imm("-"), None);
    assert_eq!(parse_imm("0x"), None);
    assert_eq!(parse_imm("0xG1"), None);
    assert_eq!(parse_imm("1 2"), None);
}

#[test]
fn hex_immediates_parse_and_truncate() {
    assert_eq!(parse_imm("0x10"), Some(16));
    assert_eq!(parse_imm("0X10"), Some(16));
    assert_eq!(parse_imm("0xFFFF"), Some(-1));
    assert_eq!(parse_imm("0x7fff"), Some(32767));
    assert_eq!(parse_imm("0x8000"), Some(-32768));
    // 17 significant bits truncate to the low 16
    assert_eq!(parse_imm("0x1FFFF"), Some(-1));
    assert_eq!(parse_imm("0x10003"), Some(3));
    // truncation holds however wide the magnitude; nothing is rejected
    assert_eq!(parse_imm("0x7FFFFFFF"), Some(-1));
    assert_eq!(parse_imm("0x80000000"), Some(0));
    assert_eq!(parse_imm("0xFFFFFFFFFF"), Some(-1));
    assert_eq!(parse_imm("0x123456789ABCDEF0123"), Some(0x0123));
}

#[test]
fn decimal_rendering_is_normalized() {
    assert_eq!(dec_u32_string(0), "0");
    assert_eq!(dec_u32_string(4294967295), "4294967295");
    assert_eq!(dec_i16_string(10), "10");
    assert_eq!(dec_i16_string(-8), "-8");
    assert_eq!(dec_i16_string(-32768), "-32768");
    assert_eq!(dec_i16_string(32767), "32767");
}

#[test]
fn hex_rendering_pads_to_width() {
    assert_eq!(hex_u64_string(0, 4), "0000");
    assert_eq!(hex_u64_string(0xC0FFEE, 4), "C0FFEE");
    assert_eq!(hex_u64_string(0xB, 8), "0000000B");
    assert_eq!(hex_u64_string(0x12345678, 8), "12345678");
}

#[test]
fn opcode_values_round_trip() {
    let all = [
        Opcode::Halt,
        Opcode::Add,
        Opcode::Addi,
        Opcode::Bne,
        Opcode::Mul,
        Opcode::Lui,
        Opcode::Lw,
        Opcode::Sw,
        Opcode::Blt,
        Opcode::Slli,
        Opcode::Sub,
    ];
    for (i, op) in all.iter().enumerate() {
        assert_eq!(op.value(), i as u32);
        assert_eq!(Opcode::from_value(i as u32), Some(*op));
    }
    assert_eq!(Opcode::from_value(11), None);
    assert_eq!(Opcode::from_value(63), None);
}
