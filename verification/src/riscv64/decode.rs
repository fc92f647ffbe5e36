//! What the encoded words mean: the immediates a processor reads back, and
//! the laws that branches, jumps and `LA` reach what they are encoded for.

use vstd::prelude::*;
use crate::riscv64::{ConditionCode, cond_holds};
use crate::riscv64::encode::{
    branch_taken, branch_word, cond_funct3, jal_word, la_addi, la_auipc, la_hi, la_lo, la_reaches,
};

verus! {

/// The byte offset a `JAL` word jumps by: its J-type immediate,
/// sign-extended from 21 bits.
pub open spec fn jal_offset(w: u32) -> int {
    let imm = (((w >> 31) & 1) << 20) | (((w >> 21) & 0x3FF) << 1) | (((w >> 20) & 1) << 11) | (((
    w >> 12) & 0xFF) << 12);
    (((imm << 11) as i32) >> 11) as int
}

/// The byte offset a conditional branch word branches by: its B-type
/// immediate, sign-extended from 13 bits.
pub open spec fn branch_offset(w: u32) -> int {
    let imm = (((w >> 31) & 1) << 12) | (((w >> 7) & 1) << 11) | (((w >> 25) & 0x3F) << 5) | (((w
        >> 8) & 0xF) << 1);
    (((imm << 19) as i32) >> 19) as int
}

/// A pseudo-condition, encoded as the reversed base comparison on swapped
/// operands, branches exactly when the condition holds; every condition's
/// branch is taken exactly when the condition holds of its operands.
pub proof fn law_condition_branch_agrees(c: ConditionCode, a: u64, b: u64)
    ensures
        ({
            let (f3, swap) = cond_funct3(c);
            let (x, y) = if swap { (b, a) } else { (a, b) };
            branch_taken(f3, x, y) == cond_holds(c, a, b)
        }),
{
}

/// A `JAL` to an even byte distance within ±1 MiB jumps by exactly that
/// distance and writes its link register.
pub proof fn law_jal_offset_round_trip(rd: u32, delta: i32)
    requires
        rd < 32,
        delta % 2 == 0,
        -0x10_0000 <= delta < 0x10_0000,
    ensures
        jal_offset(jal_word(rd, delta)) == delta,
        (jal_word(rd, delta) >> 7) & 0x1F == rd,
        jal_word(rd, delta) & 0x7F == 0x6F,
{
    let w = jal_word(rd, delta);
    let d = delta as u32;
    assert(w == (((d >> 20) & 1) << 31) | (((d >> 1) & 0x3FF) << 21) | (((d >> 11) & 1) << 20) | (((
    d >> 12) & 0xFF) << 12) | (rd << 7) | 0x6F);
    assert((((((((w >> 31) & 1) << 20) | (((w >> 21) & 0x3FF) << 1) | (((w >> 20) & 1) << 11) | (((w
        >> 12) & 0xFF) << 12)) << 11) as i32) >> 11) == delta && (w >> 7) & 0x1F == rd && w & 0x7F
        == 0x6F) by (bit_vector)
        requires
            w == (((d >> 20) & 1) << 31) | (((d >> 1) & 0x3FF) << 21) | (((d >> 11) & 1) << 20) | (((d
                >> 12) & 0xFF) << 12) | (rd << 7) | 0x6F,
            d == delta as u32,
            rd < 32,
            delta % 2 == 0,
            -0x10_0000 <= delta < 0x10_0000,
    ;
}

/// A conditional branch to an even byte distance within ±4 KiB branches by
/// exactly that distance, and its registers and `funct3` land in their
/// fields.
pub proof fn law_branch_offset_round_trip(rs1: u32, rs2: u32, funct3: u32, delta: i32)
    requires
        rs1 < 32,
        rs2 < 32,
        funct3 < 8,
        delta % 2 == 0,
        -0x1000 <= delta < 0x1000,
    ensures
        branch_offset(branch_word(rs1, rs2, funct3, delta)) == delta,
        (branch_word(rs1, rs2, funct3, delta) >> 15) & 0x1F == rs1,
        (branch_word(rs1, rs2, funct3, delta) >> 20) & 0x1F == rs2,
        (branch_word(rs1, rs2, funct3, delta) >> 12) & 7 == funct3,
        branch_word(rs1, rs2, funct3, delta) & 0x7F == 0x63,
{
    let w = branch_word(rs1, rs2, funct3, delta);
    let d = delta as u32;
    assert(w == (((d >> 12) & 1) << 31) | (((d >> 5) & 0x3F) << 25) | (rs2 << 20) | (rs1 << 15) | (
    funct3 << 12) | (((d >> 1) & 0xF) << 8) | (((d >> 11) & 1) << 7) | 0x63);
    assert((((((((w >> 31) & 1) << 12) | (((w >> 7) & 1) << 11) | (((w >> 25) & 0x3F) << 5) | (((w
        >> 8) & 0xF) << 1)) << 19) as i32) >> 19) == delta && (w >> 15) & 0x1F == rs1 && (w >> 20)
        & 0x1F == rs2 && (w >> 12) & 7 == funct3 && w & 0x7F == 0x63) by (bit_vector)
        requires
            w == (((d >> 12) & 1) << 31) | (((d >> 5) & 0x3F) << 25) | (rs2 << 20) | (rs1 << 15) | (
            funct3 << 12) | (((d >> 1) & 0xF) << 8) | (((d >> 11) & 1) << 7) | 0x63,
            d == delta as u32,
            rs1 < 32,
            rs2 < 32,
            funct3 < 8,
            delta % 2 == 0,
            -0x1000 <= delta < 0x1000,
    ;
}

/// `LA rd, delta` splits the distance into an upper part for `AUIPC` and a
/// signed 12-bit lower part for `ADDI` that add up to it; the two words
/// carry exactly these parts.
pub proof fn law_la_reaches_target(rd: u32, delta: i32)
    requires
        rd < 32,
        la_reaches(delta),
    ensures
        la_hi(delta) * 4096 + la_lo(delta) == delta,
        -0x800 <= la_lo(delta) < 0x800,
        ((la_auipc(rd, delta) & 0xFFFF_F000) as i32) as int + (((la_addi(rd, delta) as i32) >> 20)
            as int) == delta,
        (la_auipc(rd, delta) >> 7) & 0x1F == rd,
        (la_addi(rd, delta) >> 7) & 0x1F == rd,
        (la_addi(rd, delta) >> 15) & 0x1F == rd,
{
    let hi = la_hi(delta);
    let lo = la_lo(delta);
    let d64: i64 = (delta + 0x800) as i64;
    assert(hi == (d64 >> 12) as i32);
    assert(-0x8_0000 <= (d64 >> 12) < 0x8_0000 && 0 <= d64 - (d64 >> 12) * 4096 < 4096) by (bit_vector)
        requires
            -0x8000_0000 + 0x800 <= d64 < 0x7FFF_F800 + 0x800,
    ;
    assert(lo == delta - hi * 4096);
    let wa = la_auipc(rd, delta);
    let wb = la_addi(rd, delta);
    assert((((wa & 0xFFFF_F000) as i32) as int + (((wb as i32) >> 20) as int) == delta) && (wa >> 7)
        & 0x1F == rd && (wb >> 7) & 0x1F == rd && (wb >> 15) & 0x1F == rd) by (bit_vector)
        requires
            wa == ((hi as u32) << 12) | (rd << 7) | 0x17,
            wb == (((lo as u32) & 0xFFF) << 20) | (rd << 15) | (rd << 7) | 0x13,
            rd < 32,
            -0x8_0000 <= hi < 0x8_0000,
            -0x800 <= lo < 0x800,
            hi * 4096 + lo == delta,
    ;
}

} // verus!
