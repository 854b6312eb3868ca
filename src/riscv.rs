use vstd::prelude::*;

verus! {

/// The opcode of the register-register instructions of RV32IM.
pub const OP_REG: u32 = 0b0110011;

/// The value of the 32-bit word of an R-type instruction: `opcode` in bits
/// 0-6, `rd` in 7-11, `funct3` in 12-14, `rs1` in 15-19, `rs2` in 20-24, and
/// `funct7` split as `funct2` in 25-26 and `funct5` in 27-31.
pub open spec fn r_type_word(
    opcode: u32,
    rd: u32,
    funct3: u32,
    rs1: u32,
    rs2: u32,
    funct2: u32,
    funct5: u32,
) -> int {
    opcode + rd * 0x80 + funct3 * 0x1000 + rs1 * 0x8000 + rs2 * 0x10_0000 + funct2 * 0x200_0000
        + funct5 * 0x800_0000
}

/// The four little-endian bytes of a 32-bit value.
pub open spec fn le_bytes(w: int) -> Seq<u8> {
    seq![
        (w % 0x100) as u8,
        ((w / 0x100) % 0x100) as u8,
        ((w / 0x1_0000) % 0x100) as u8,
        ((w / 0x100_0000) % 0x100) as u8,
    ]
}

/// The fields of an R-type instruction fit their bit widths.
pub open spec fn r_type_fields_fit(
    opcode: u32,
    rd: u32,
    funct3: u32,
    rs1: u32,
    rs2: u32,
    funct2: u32,
    funct5: u32,
) -> bool {
    &&& opcode < 0x80
    &&& rd < 32
    &&& funct3 < 8
    &&& rs1 < 32
    &&& rs2 < 32
    &&& funct2 < 4
    &&& funct5 < 32
}

/// The little-endian bytes of the R-type instruction with these fields.
pub fn encode_r_type(
    opcode: u32,
    rd: u32,
    funct3: u32,
    rs1: u32,
    rs2: u32,
    funct2: u32,
    funct5: u32,
) -> (r: [u8; 4])
    requires
        r_type_fields_fit(opcode, rd, funct3, rs1, rs2, funct2, funct5),
    ensures
        r@ == le_bytes(r_type_word(opcode, rd, funct3, rs1, rs2, funct2, funct5)),
{
    let w: u32 = opcode | (rd << 7u32) | (funct3 << 12u32) | (rs1 << 15u32) | (rs2 << 20u32) | (
    funct2 << 25u32) | (funct5 << 27u32);
    let b0 = w as u8;
    let b1 = (w >> 8u32) as u8;
    let b2 = (w >> 16u32) as u8;
    let b3 = (w >> 24u32) as u8;
    proof {
        let sum: u32 = (opcode + rd * 0x80 + funct3 * 0x1000 + rs1 * 0x8000 + rs2 * 0x10_0000
            + funct2 * 0x200_0000 + funct5 * 0x800_0000) as u32;
        assert(w == sum) by (bit_vector)
            requires
                w == opcode | (rd << 7u32) | (funct3 << 12u32) | (rs1 << 15u32) | (rs2 << 20u32)
                    | (funct2 << 25u32) | (funct5 << 27u32),
                sum == (opcode + rd * 0x80 + funct3 * 0x1000 + rs1 * 0x8000 + rs2 * 0x10_0000
                    + funct2 * 0x200_0000 + funct5 * 0x800_0000) as u32,
                opcode < 0x80,
                rd < 32,
                funct3 < 8,
                rs1 < 32,
                rs2 < 32,
                funct2 < 4,
                funct5 < 32,
        ;
        assert(b0 == w % 0x100 && b1 == (w / 0x100) % 0x100 && b2 == (w / 0x1_0000) % 0x100 && b3
            == (w / 0x100_0000) % 0x100) by (bit_vector)
            requires
                b0 == w as u8,
                b1 == (w >> 8u32) as u8,
                b2 == (w >> 16u32) as u8,
                b3 == (w >> 24u32) as u8,
        ;
    }
    let r = [b0, b1, b2, b3];
    assert(r@ =~= le_bytes(r_type_word(opcode, rd, funct3, rs1, rs2, funct2, funct5)));
    r
}

/// The little-endian bytes of `add rd, rs1, rs2`.
pub fn add_instruction(rd: u32, rs1: u32, rs2: u32) -> (r: [u8; 4])
    requires
        rd < 32,
        rs1 < 32,
        rs2 < 32,
    ensures
        r@ == le_bytes(r_type_word(OP_REG, rd, 0b000, rs1, rs2, 0b00, 0b00000)),
{
    encode_r_type(OP_REG, rd, 0b000, rs1, rs2, 0b00, 0b00000)
}

/// The little-endian bytes of `sub rd, rs1, rs2`.
pub fn sub_instruction(rd: u32, rs1: u32, rs2: u32) -> (r: [u8; 4])
    requires
        rd < 32,
        rs1 < 32,
        rs2 < 32,
    ensures
        r@ == le_bytes(r_type_word(OP_REG, rd, 0b000, rs1, rs2, 0b00, 0b01000)),
{
    encode_r_type(OP_REG, rd, 0b000, rs1, rs2, 0b00, 0b01000)
}

/// The little-endian bytes of `sll rd, rs1, rs2`.
pub fn sll_instruction(rd: u32, rs1: u32, rs2: u32) -> (r: [u8; 4])
    requires
        rd < 32,
        rs1 < 32,
        rs2 < 32,
    ensures
        r@ == le_bytes(r_type_word(OP_REG, rd, 0b001, rs1, rs2, 0b00, 0b00000)),
{
    encode_r_type(OP_REG, rd, 0b001, rs1, rs2, 0b00, 0b00000)
}

/// The little-endian bytes of `slt rd, rs1, rs2`.
pub fn slt_instruction(rd: u32, rs1: u32, rs2: u32) -> (r: [u8; 4])
    requires
        rd < 32,
        rs1 < 32,
        rs2 < 32,
    ensures
        r@ == le_bytes(r_type_word(OP_REG, rd, 0b010, rs1, rs2, 0b00, 0b00000)),
{
    encode_r_type(OP_REG, rd, 0b010, rs1, rs2, 0b00, 0b00000)
}

/// The little-endian bytes of `xor rd, rs1, rs2`.
pub fn xor_instruction(rd: u32, rs1: u32, rs2: u32) -> (r: [u8; 4])
    requires
        rd < 32,
        rs1 < 32,
        rs2 < 32,
    ensures
        r@ == le_bytes(r_type_word(OP_REG, rd, 0b100, rs1, rs2, 0b00, 0b00000)),
{
    encode_r_type(OP_REG, rd, 0b100, rs1, rs2, 0b00, 0b00000)
}

/// The little-endian bytes of `sltu rd, rs1, rs2`.
pub fn sltu_instruction(rd: u32, rs1: u32, rs2: u32) -> (r: [u8; 4])
    requires
        rd < 32,
        rs1 < 32,
        rs2 < 32,
    ensures
        r@ == le_bytes(r_type_word(OP_REG, rd, 0b011, rs1, rs2, 0b00, 0b00000)),
{
    encode_r_type(OP_REG, rd, 0b011, rs1, rs2, 0b00, 0b00000)
}

/// The little-endian bytes of `srl rd, rs1, rs2`.
pub fn srl_instruction(rd: u32, rs1: u32, rs2: u32) -> (r: [u8; 4])
    requires
        rd < 32,
        rs1 < 32,
        rs2 < 32,
    ensures
        r@ == le_bytes(r_type_word(OP_REG, rd, 0b101, rs1, rs2, 0b00, 0b00000)),
{
    encode_r_type(OP_REG, rd, 0b101, rs1, rs2, 0b00, 0b00000)
}

/// The little-endian bytes of `sra rd, rs1, rs2`.
pub fn sra_instruction(rd: u32, rs1: u32, rs2: u32) -> (r: [u8; 4])
    requires
        rd < 32,
        rs1 < 32,
        rs2 < 32,
    ensures
        r@ == le_bytes(r_type_word(OP_REG, rd, 0b101, rs1, rs2, 0b00, 0b01000)),
{
    encode_r_type(OP_REG, rd, 0b101, rs1, rs2, 0b00, 0b01000)
}

/// The little-endian bytes of `or rd, rs1, rs2`.
pub fn or_instruction(rd: u32, rs1: u32, rs2: u32) -> (r: [u8; 4])
    requires
        rd < 32,
        rs1 < 32,
        rs2 < 32,
    ensures
        r@ == le_bytes(r_type_word(OP_REG, rd, 0b110, rs1, rs2, 0b00, 0b00000)),
{
    encode_r_type(OP_REG, rd, 0b110, rs1, rs2, 0b00, 0b00000)
}

/// The little-endian bytes of `and rd, rs1, rs2`.
pub fn and_instruction(rd: u32, rs1: u32, rs2: u32) -> (r: [u8; 4])
    requires
        rd < 32,
        rs1 < 32,
        rs2 < 32,
    ensures
        r@ == le_bytes(r_type_word(OP_REG, rd, 0b111, rs1, rs2, 0b00, 0b00000)),
{
    encode_r_type(OP_REG, rd, 0b111, rs1, rs2, 0b00, 0b00000)
}

/// The little-endian bytes of `mul rd, rs1, rs2`.
pub fn mul_instruction(rd: u32, rs1: u32, rs2: u32) -> (r: [u8; 4])
    requires
        rd < 32,
        rs1 < 32,
        rs2 < 32,
    ensures
        r@ == le_bytes(r_type_word(OP_REG, rd, 0b000, rs1, rs2, 0b01, 0b00000)),
{
    encode_r_type(OP_REG, rd, 0b000, rs1, rs2, 0b01, 0b00000)
}

} // verus!
