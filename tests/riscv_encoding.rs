use o1vm::riscv::{
    add_instruction, and_instruction, encode_r_type, mul_instruction, or_instruction,
    sll_instruction, slt_instruction, sltu_instruction, sra_instruction, srl_instruction,
    sub_instruction, xor_instruction, OP_REG,
};

fn word(bytes: [u8; 4]) -> u32 {
    u32::from_le_bytes(bytes)
}

#[test]
fn add_x1_x2_x3() {
    // add x1, x2, x3
    assert_eq!(add_instruction(1, 2, 3), [0xb3, 0x00, 0x31, 0x00]);
}

#[test]
fn sub_sets_bit_thirty() {
    // sub x5, x6, x7
    assert_eq!(word(sub_instruction(5, 6, 7)), 0x407302b3);
}

#[test]
fn shifts_and_comparisons() {
    assert_eq!(word(sll_instruction(1, 2, 3)), 0x003110b3);
    assert_eq!(word(slt_instruction(1, 2, 3)), 0x003120b3);
    assert_eq!(word(sltu_instruction(1, 2, 3)), 0x003130b3);
    assert_eq!(word(srl_instruction(1, 2, 3)), 0x003150b3);
    assert_eq!(word(sra_instruction(1, 2, 3)), 0x403150b3);
}

#[test]
fn logic_and_multiply() {
    assert_eq!(word(xor_instruction(1, 2, 3)), 0x003140b3);
    assert_eq!(word(or_instruction(1, 2, 3)), 0x003160b3);
    assert_eq!(word(and_instruction(1, 2, 3)), 0x003170b3);
    // mul x10, x11, x12
    assert_eq!(word(mul_instruction(10, 11, 12)), 0x02c58533);
}

#[test]
fn largest_register_indices() {
    assert_eq!(word(add_instruction(31, 31, 31)), 0x01ff8fb3);
    assert_eq!(word(encode_r_type(0x7f, 31, 7, 31, 31, 3, 31)), 0xffff_ffff);
    assert_eq!(word(encode_r_type(OP_REG, 0, 0, 0, 0, 0, 0)), 0x33);
}
