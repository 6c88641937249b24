//! The instruction set table and the register name resolver: which mnemonics
//! exist, which format each belongs to, its opcode, and the mapping from a
//! register token (numeric name or ABI alias) to its 5-bit index.

use vstd::prelude::*;

verus! {

use vstd::string::StringSliceAdditionalSpecFns;
use crate::text::token_eq_lit;

/// The bytes of an ASCII string literal, as token specs compare them.
pub open spec fn lit(s: &str) -> Seq<u8> {
    s.spec_bytes()
}

/// The R-format mnemonics: register-to-register operations, 16-bit words.
pub open spec fn is_r_mnemonic(m: Seq<u8>) -> bool {
    ||| m == lit("mov")
    ||| m == lit("add")
    ||| m == lit("sub")
    ||| m == lit("and")
    ||| m == lit("or")
    ||| m == lit("xor")
    ||| m == lit("sll")
    ||| m == lit("srl")
    ||| m == lit("sra")
    ||| m == lit("slt")
    ||| m == lit("sltu")
}

pub fn r_mnemonic(m: &Vec<u8>) -> (r: bool)
    ensures
        r == is_r_mnemonic(m@),
{
    token_eq_lit(m, "mov") || token_eq_lit(m, "add") || token_eq_lit(m, "sub") || token_eq_lit(
        m,
        "and",
    ) || token_eq_lit(m, "or") || token_eq_lit(m, "xor") || token_eq_lit(m, "sll") || token_eq_lit(
        m,
        "srl",
    ) || token_eq_lit(m, "sra") || token_eq_lit(m, "slt") || token_eq_lit(m, "sltu")
}

/// The I16-format mnemonics: shifts by a 5-bit immediate, 16-bit words.
pub open spec fn is_i16_mnemonic(m: Seq<u8>) -> bool {
    ||| m == lit("slli")
    ||| m == lit("srli")
    ||| m == lit("srai")
}

pub fn i16_mnemonic(m: &Vec<u8>) -> (r: bool)
    ensures
        r == is_i16_mnemonic(m@),
{
    token_eq_lit(m, "slli") || token_eq_lit(m, "srli") || token_eq_lit(m, "srai")
}

/// The I32-format mnemonics that take an explicit source register (everything
/// but `lui`, whose source register is implied to be `r0`).
pub open spec fn is_i32_mnemonic(m: Seq<u8>) -> bool {
    ||| m == lit("addi")
    ||| m == lit("andi")
    ||| m == lit("ori")
    ||| m == lit("xori")
    ||| m == lit("slti")
    ||| m == lit("sltiu")
    ||| m == lit("beq")
    ||| m == lit("bnq")
    ||| m == lit("blt")
    ||| m == lit("bge")
    ||| m == lit("bltu")
    ||| m == lit("bgeu")
    ||| m == lit("jalr")
    ||| m == lit("lb")
    ||| m == lit("lh")
    ||| m == lit("lbu")
    ||| m == lit("lhu")
    ||| m == lit("lw")
    ||| m == lit("sb")
    ||| m == lit("sh")
    ||| m == lit("sw")
}

pub fn i32_mnemonic(m: &Vec<u8>) -> (r: bool)
    ensures
        r == is_i32_mnemonic(m@),
{
    token_eq_lit(m, "addi") || token_eq_lit(m, "andi") || token_eq_lit(m, "ori") || token_eq_lit(
        m,
        "xori",
    ) || token_eq_lit(m, "slti") || token_eq_lit(m, "sltiu") || token_eq_lit(m, "beq")
        || token_eq_lit(m, "bnq") || token_eq_lit(m, "blt") || token_eq_lit(m, "bge")
        || token_eq_lit(m, "bltu") || token_eq_lit(m, "bgeu") || token_eq_lit(m, "jalr")
        || token_eq_lit(m, "lb") || token_eq_lit(m, "lh") || token_eq_lit(m, "lbu")
        || token_eq_lit(m, "lhu") || token_eq_lit(m, "lw") || token_eq_lit(m, "sb")
        || token_eq_lit(m, "sh") || token_eq_lit(m, "sw")
}

/// The opcode of an R-format mnemonic: a dense enumeration that the matching
/// processor's decoder relies on.
pub open spec fn r_opcode(m: Seq<u8>) -> Option<u32> {
    if m == lit("mov") {
        Some(0b000000u32)
    } else if m == lit("add") {
        Some(0b000001u32)
    } else if m == lit("sub") {
        Some(0b000010u32)
    } else if m == lit("and") {
        Some(0b000011u32)
    } else if m == lit("or") {
        Some(0b000100u32)
    } else if m == lit("xor") {
        Some(0b000101u32)
    } else if m == lit("sll") {
        Some(0b000110u32)
    } else if m == lit("srl") {
        Some(0b000111u32)
    } else if m == lit("sra") {
        Some(0b001000u32)
    } else if m == lit("slt") {
        Some(0b001001u32)
    } else if m == lit("sltu") {
        Some(0b001010u32)
    } else {
        None
    }
}

pub fn r_opcode_of(m: &Vec<u8>) -> (r: Option<u32>)
    ensures
        r == r_opcode(m@),
{
    if token_eq_lit(m, "mov") {
        Some(0b000000)
    } else if token_eq_lit(m, "add") {
        Some(0b000001)
    } else if token_eq_lit(m, "sub") {
        Some(0b000010)
    } else if token_eq_lit(m, "and") {
        Some(0b000011)
    } else if token_eq_lit(m, "or") {
        Some(0b000100)
    } else if token_eq_lit(m, "xor") {
        Some(0b000101)
    } else if token_eq_lit(m, "sll") {
        Some(0b000110)
    } else if token_eq_lit(m, "srl") {
        Some(0b000111)
    } else if token_eq_lit(m, "sra") {
        Some(0b001000)
    } else if token_eq_lit(m, "slt") {
        Some(0b001001)
    } else if token_eq_lit(m, "sltu") {
        Some(0b001010)
    } else {
        None
    }
}

/// The opcode of an I16-format mnemonic.
pub open spec fn i16_opcode(m: Seq<u8>) -> Option<u32> {
    if m == lit("slli") {
        Some(0b010000u32)
    } else if m == lit("srli") {
        Some(0b010001u32)
    } else if m == lit("srai") {
        Some(0b010010u32)
    } else {
        None
    }
}

pub fn i16_opcode_of(m: &Vec<u8>) -> (r: Option<u32>)
    ensures
        r == i16_opcode(m@),
{
    if token_eq_lit(m, "slli") {
        Some(0b010000)
    } else if token_eq_lit(m, "srli") {
        Some(0b010001)
    } else if token_eq_lit(m, "srai") {
        Some(0b010010)
    } else {
        None
    }
}

/// The opcode of an I32-format mnemonic (`lui` included).
pub open spec fn i32_opcode(m: Seq<u8>) -> Option<u32> {
    if m == lit("addi") {
        Some(0b100000u32)
    } else if m == lit("andi") {
        Some(0b100001u32)
    } else if m == lit("ori") {
        Some(0b100010u32)
    } else if m == lit("xori") {
        Some(0b100011u32)
    } else if m == lit("slti") {
        Some(0b100100u32)
    } else if m == lit("sltiu") {
        Some(0b100101u32)
    } else if m == lit("beq") {
        Some(0b100110u32)
    } else if m == lit("bnq") {
        Some(0b100111u32)
    } else if m == lit("blt") {
        Some(0b101000u32)
    } else if m == lit("bge") {
        Some(0b101001u32)
    } else if m == lit("bltu") {
        Some(0b101010u32)
    } else if m == lit("bgeu") {
        Some(0b101011u32)
    } else if m == lit("jalr") {
        Some(0b101100u32)
    } else if m == lit("lb") {
        Some(0b101101u32)
    } else if m == lit("lh") {
        Some(0b101110u32)
    } else if m == lit("lbu") {
        Some(0b101111u32)
    } else if m == lit("lhu") {
        Some(0b110000u32)
    } else if m == lit("lw") {
        Some(0b110001u32)
    } else if m == lit("lui") {
        Some(0b110010u32)
    } else if m == lit("sb") {
        Some(0b110011u32)
    } else if m == lit("sh") {
        Some(0b110100u32)
    } else if m == lit("sw") {
        Some(0b110101u32)
    } else {
        None
    }
}

pub fn i32_opcode_of(m: &Vec<u8>) -> (r: Option<u32>)
    ensures
        r == i32_opcode(m@),
{
    if token_eq_lit(m, "addi") {
        Some(0b100000)
    } else if token_eq_lit(m, "andi") {
        Some(0b100001)
    } else if token_eq_lit(m, "ori") {
        Some(0b100010)
    } else if token_eq_lit(m, "xori") {
        Some(0b100011)
    } else if token_eq_lit(m, "slti") {
        Some(0b100100)
    } else if token_eq_lit(m, "sltiu") {
        Some(0b100101)
    } else if token_eq_lit(m, "beq") {
        Some(0b100110)
    } else if token_eq_lit(m, "bnq") {
        Some(0b100111)
    } else if token_eq_lit(m, "blt") {
        Some(0b101000)
    } else if token_eq_lit(m, "bge") {
        Some(0b101001)
    } else if token_eq_lit(m, "bltu") {
        Some(0b101010)
    } else if token_eq_lit(m, "bgeu") {
        Some(0b101011)
    } else if token_eq_lit(m, "jalr") {
        Some(0b101100)
    } else if token_eq_lit(m, "lb") {
        Some(0b101101)
    } else if token_eq_lit(m, "lh") {
        Some(0b101110)
    } else if token_eq_lit(m, "lbu") {
        Some(0b101111)
    } else if token_eq_lit(m, "lhu") {
        Some(0b110000)
    } else if token_eq_lit(m, "lw") {
        Some(0b110001)
    } else if token_eq_lit(m, "lui") {
        Some(0b110010)
    } else if token_eq_lit(m, "sb") {
        Some(0b110011)
    } else if token_eq_lit(m, "sh") {
        Some(0b110100)
    } else if token_eq_lit(m, "sw") {
        Some(0b110101)
    } else {
        None
    }
}

/// The opcode of a J-format mnemonic.
pub open spec fn j_opcode(m: Seq<u8>) -> Option<u32> {
    if m == lit("jal") {
        Some(0b111111u32)
    } else {
        None
    }
}

pub fn j_opcode_of(m: &Vec<u8>) -> (r: Option<u32>)
    ensures
        r == j_opcode(m@),
{
    if token_eq_lit(m, "jal") {
        Some(0b111111)
    } else {
        None
    }
}

/// The 5-bit index a register token names: the canonical names `r0`..`r31`,
/// and the documented ABI aliases (`zero`, `ra`, `gp`, `sp`, `fp`,
/// `a0`..`a3`, `t0`..`t4`, `flag`).  Aliases for `r14`..`r30` do not exist by
/// design.
pub open spec fn reg_index(t: Seq<u8>) -> Option<u32> {
    if t == lit("r0") || t == lit("zero") {
        Some(0u32)
    } else if t == lit("r1") || t == lit("ra") {
        Some(1u32)
    } else if t == lit("r2") || t == lit("gp") {
        Some(2u32)
    } else if t == lit("r3") || t == lit("sp") {
        Some(3u32)
    } else if t == lit("r4") || t == lit("fp") {
        Some(4u32)
    } else if t == lit("r5") || t == lit("a0") {
        Some(5u32)
    } else if t == lit("r6") || t == lit("a1") {
        Some(6u32)
    } else if t == lit("r7") || t == lit("a2") {
        Some(7u32)
    } else if t == lit("r8") || t == lit("a3") {
        Some(8u32)
    } else if t == lit("r9") || t == lit("t0") {
        Some(9u32)
    } else if t == lit("r10") || t == lit("t1") {
        Some(10u32)
    } else if t == lit("r11") || t == lit("t2") {
        Some(11u32)
    } else if t == lit("r12") || t == lit("t3") {
        Some(12u32)
    } else if t == lit("r13") || t == lit("t4") {
        Some(13u32)
    } else if t == lit("r14") {
        Some(14u32)
    } else if t == lit("r15") {
        Some(15u32)
    } else if t == lit("r16") {
        Some(16u32)
    } else if t == lit("r17") {
        Some(17u32)
    } else if t == lit("r18") {
        Some(18u32)
    } else if t == lit("r19") {
        Some(19u32)
    } else if t == lit("r20") {
        Some(20u32)
    } else if t == lit("r21") {
        Some(21u32)
    } else if t == lit("r22") {
        Some(22u32)
    } else if t == lit("r23") {
        Some(23u32)
    } else if t == lit("r24") {
        Some(24u32)
    } else if t == lit("r25") {
        Some(25u32)
    } else if t == lit("r26") {
        Some(26u32)
    } else if t == lit("r27") {
        Some(27u32)
    } else if t == lit("r28") {
        Some(28u32)
    } else if t == lit("r29") {
        Some(29u32)
    } else if t == lit("r30") {
        Some(30u32)
    } else if t == lit("r31") || t == lit("flag") {
        Some(31u32)
    } else {
        None
    }
}

/// Resolves a register token to its 5-bit index.
#[verifier::rlimit(60)]
pub fn resolve_register(t: &Vec<u8>) -> (r: Option<u32>)
    ensures
        r == reg_index(t@),
{
    if token_eq_lit(t, "r0") || token_eq_lit(t, "zero") {
        Some(0)
    } else if token_eq_lit(t, "r1") || token_eq_lit(t, "ra") {
        Some(1)
    } else if token_eq_lit(t, "r2") || token_eq_lit(t, "gp") {
        Some(2)
    } else if token_eq_lit(t, "r3") || token_eq_lit(t, "sp") {
        Some(3)
    } else if token_eq_lit(t, "r4") || token_eq_lit(t, "fp") {
        Some(4)
    } else if token_eq_lit(t, "r5") || token_eq_lit(t, "a0") {
        Some(5)
    } else if token_eq_lit(t, "r6") || token_eq_lit(t, "a1") {
        Some(6)
    } else if token_eq_lit(t, "r7") || token_eq_lit(t, "a2") {
        Some(7)
    } else if token_eq_lit(t, "r8") || token_eq_lit(t, "a3") {
        Some(8)
    } else if token_eq_lit(t, "r9") || token_eq_lit(t, "t0") {
        Some(9)
    } else if token_eq_lit(t, "r10") || token_eq_lit(t, "t1") {
        Some(10)
    } else if token_eq_lit(t, "r11") || token_eq_lit(t, "t2") {
        Some(11)
    } else if token_eq_lit(t, "r12") || token_eq_lit(t, "t3") {
        Some(12)
    } else if token_eq_lit(t, "r13") || token_eq_lit(t, "t4") {
        Some(13)
    } else if token_eq_lit(t, "r14") {
        Some(14)
    } else if token_eq_lit(t, "r15") {
        Some(15)
    } else if token_eq_lit(t, "r16") {
        Some(16)
    } else if token_eq_lit(t, "r17") {
        Some(17)
    } else if token_eq_lit(t, "r18") {
        Some(18)
    } else if token_eq_lit(t, "r19") {
        Some(19)
    } else if token_eq_lit(t, "r20") {
        Some(20)
    } else if token_eq_lit(t, "r21") {
        Some(21)
    } else if token_eq_lit(t, "r22") {
        Some(22)
    } else if token_eq_lit(t, "r23") {
        Some(23)
    } else if token_eq_lit(t, "r24") {
        Some(24)
    } else if token_eq_lit(t, "r25") {
        Some(25)
    } else if token_eq_lit(t, "r26") {
        Some(26)
    } else if token_eq_lit(t, "r27") {
        Some(27)
    } else if token_eq_lit(t, "r28") {
        Some(28)
    } else if token_eq_lit(t, "r29") {
        Some(29)
    } else if token_eq_lit(t, "r30") {
        Some(30)
    } else if token_eq_lit(t, "r31") || token_eq_lit(t, "flag") {
        Some(31)
    } else {
        None
    }
}

} // verus!
