use toyasm::encode::{
    encode_a, encode_add, encode_addi, encode_b, encode_blt, encode_bne, encode_c, encode_halt,
    encode_lui, encode_lw, encode_mul, encode_slli, encode_sub, encode_sw,
};

#[test]
fn test_encode_add() {
    // add x1, x1, x3 -> 0b00000000000_00011_00001_00001_000001
    let expected = 0b00000000000_00011_00001_00001_000001;
    let actual = encode_add(1, 1, 3);
    assert_eq!(actual, expected);
}

#[test]
fn test_encode_mul() {
    // mul x1, x1, x3 -> 0b00000000000_00011_00001_00001_000100
    let expected = 0b00000000000_00011_00001_00001_000100;
    let actual = encode_mul(1, 1, 3);
    assert_eq!(actual, expected);
}

#[test]
fn test_encode_addi() {
    // addi x1, x0, 0 -> 0b00000000000_00000_00000_00001_000010
    let expected = 0b00000000000_00000_00000_00001_000010;
    let actual = encode_addi(1, 0, 0);
    assert_eq!(actual, expected);
}

#[test]
fn test_encode_bne() {
    // bne x2, x1, -8 -> 0b11111111111_00010_00001_11000_000011
    let expected = 0b11111111111_00010_00001_11000_000011;
    let actual = encode_bne(2, 1, -8);
    assert_eq!(actual, expected);
}

#[test]
fn test_encode_halt() {
    let expected = 0;
    let actual = encode_halt();
    assert_eq!(actual, expected);
}

#[test]
fn test_encode_slli() {
    // slli x1, x2, 3 -> 0b00000000000_00011_00010_00001_001001
    let expected = 0b00000000000_00011_00010_00001_001001;
    let actual = encode_slli(1, 2, 3);
    assert_eq!(actual, expected);
}

#[test]
fn test_encode_sub() {
    // sub x3, x4, x5 -> 0b00000000000_00101_00100_00011_001010
    let expected = 0b00000000000_00101_00100_00011_001010;
    let actual = encode_sub(3, 4, 5);
    assert_eq!(actual, expected);
}

#[test]
fn encode_lui_fixes_field_15_11_to_zero() {
    // lui x2, 42: the rs1 field is fixed zero
    let w = encode_lui(2, 42);
    assert_eq!(w, 0b00000000001_01010_00000_00010_000101);
    assert_eq!((w >> 11) & 0x1F, 0);
}

#[test]
fn encode_lw_places_base_at_15_11() {
    // lw x3, 4(x1)
    let w = encode_lw(3, 1, 4);
    assert_eq!(w, 0b00000000000_00100_00001_00011_000110);
}

#[test]
fn a_type_swap_changes_only_register_fields() {
    // swapping rs1/rs2 exchanges bits 20:16 and 15:11, nothing else
    let w1 = encode_add(1, 2, 3);
    let w2 = encode_add(1, 3, 2);
    assert_eq!(w1 & 0x3F, w2 & 0x3F);
    assert_eq!((w1 >> 6) & 0x1F, (w2 >> 6) & 0x1F);
    assert_eq!((w1 >> 16) & 0x1F, (w2 >> 11) & 0x1F);
    assert_eq!((w1 >> 11) & 0x1F, (w2 >> 16) & 0x1F);
    assert_eq!(w1 & 0xFFE007FF, w2 & 0xFFE007FF);
}

#[test]
fn c_type_operand_fields_match_the_table() {
    // bne: rs1 at 20:16, rs2 at 15:11
    let bne = encode_bne(3, 8, -28);
    assert_eq!((bne >> 16) & 0x1F, 3);
    assert_eq!((bne >> 11) & 0x1F, 8);
    // blt: rs2 at 20:16, rs1 at 15:11 — the inverse of bne
    let blt = encode_blt(5, 6, 12);
    assert_eq!((blt >> 16) & 0x1F, 6);
    assert_eq!((blt >> 11) & 0x1F, 5);
    // sw: base (rs1) at 20:16, value (rs2) at 15:11
    let sw = encode_sw(12, 11, 12);
    assert_eq!((sw >> 16) & 0x1F, 12);
    assert_eq!((sw >> 11) & 0x1F, 11);
}

#[test]
fn out_of_range_registers_truncate_to_five_bits() {
    // register 33 masks to 1; 32 masks to 0
    assert_eq!(encode_add(33, 32, 3), encode_add(1, 0, 3));
    assert_eq!(encode_b(2, 40, 40, 7), encode_b(2, 8, 8, 7));
    assert_eq!(encode_c(3, 33, 34, 5), encode_c(3, 1, 2, 5));
}

#[test]
fn generic_primitives_match_their_wrappers() {
    assert_eq!(encode_a(1, 1, 2, 3), encode_add(1, 2, 3));
    assert_eq!(encode_b(2, 1, 0, 10), encode_addi(1, 0, 10));
    assert_eq!(encode_c(3, 2, 1, -8), encode_bne(2, 1, -8));
}

#[test]
fn c_type_splits_offset_into_high_and_low_parts() {
    // offset -8 is 0xFFF8: high 11 bits all ones, low 5 bits 0b11000
    let w = encode_bne(0, 0, -8);
    assert_eq!((w >> 21) & 0x7FF, 0x7FF);
    assert_eq!((w >> 6) & 0x1F, 0b11000);
}
