//! RISC-V instruction words.
//!
//! Every instruction here is one 32-bit word in one of the base formats
//! (R, I, S, B, U, J).  Register numbers and immediates are masked to their
//! fields; an immediate is taken as the two's-complement bits of its value.

use vstd::prelude::*;
use crate::riscv64::ConditionCode;
use crate::riscv64::arg::{ArgKind, MemArgKind};

verus! {

// ── operand extraction ──────────────────────────────────────────────────────

/// The register number of a direct register operand; `x0` for anything else.
pub open spec fn reg_of(a: MemArgKind) -> u8 {
    match a {
        MemArgKind::NoMem(ArgKind::Reg { reg, .. }) => reg.0,
        _ => 0,
    }
}

/// Base register and displacement of a memory operand; a direct register
/// serves as `0(reg)`; anything else as `0(x0)`.
pub open spec fn base_offset(m: MemArgKind) -> (u8, i32) {
    match m {
        MemArgKind::Mem { base: ArgKind::Reg { reg, .. }, disp, .. } => (reg.0, disp),
        MemArgKind::NoMem(ArgKind::Reg { reg, .. }) => (reg.0, 0),
        _ => (0, 0),
    }
}

/// A direct literal operand truncated to 32 bits; 0 for anything else.
pub open spec fn lit_imm(a: MemArgKind) -> i32 {
    match a {
        MemArgKind::NoMem(ArgKind::Lit(v)) => v as i32,
        _ => 0,
    }
}

pub fn to_reg(a: &MemArgKind) -> (r: u8)
    ensures
        r == reg_of(*a),
{
    match a {
        MemArgKind::NoMem(ArgKind::Reg { reg, .. }) => reg.0,
        _ => 0,
    }
}

pub fn mem_base_offset(m: &MemArgKind) -> (r: (u8, i32))
    ensures
        r == base_offset(*m),
{
    match m {
        MemArgKind::Mem { base: ArgKind::Reg { reg, .. }, disp, .. } => (reg.0, *disp),
        MemArgKind::NoMem(ArgKind::Reg { reg, .. }) => (reg.0, 0),
        _ => (0, 0),
    }
}

pub fn lit_as_imm(a: &MemArgKind) -> (r: i32)
    ensures
        r == lit_imm(*a),
{
    match a {
        MemArgKind::NoMem(ArgKind::Lit(v)) => *v as i32,
        _ => 0,
    }
}

// ── formats ─────────────────────────────────────────────────────────────────

/// R-type: `funct7 | rs2 | rs1 | funct3 | rd | opcode`.
pub open spec fn r_type(opcode: u32, rd: u8, funct3: u32, rs1: u8, rs2: u8, funct7: u32) -> u32 {
    ((funct7 & 0x7F) << 25) | (((rs2 as u32) & 0x1F) << 20) | (((rs1 as u32) & 0x1F) << 15) | ((
    funct3 & 7) << 12) | (((rd as u32) & 0x1F) << 7) | (opcode & 0x7F)
}

/// I-type: `imm[11:0] | rs1 | funct3 | rd | opcode`.
pub open spec fn i_type(opcode: u32, rd: u8, funct3: u32, rs1: u8, imm: u32) -> u32 {
    ((imm & 0xFFF) << 20) | (((rs1 as u32) & 0x1F) << 15) | ((funct3 & 7) << 12) | (((rd as u32)
        & 0x1F) << 7) | (opcode & 0x7F)
}

/// S-type: `imm[11:5] | rs2 | rs1 | funct3 | imm[4:0] | opcode`.
pub open spec fn s_type(opcode: u32, funct3: u32, rs1: u8, rs2: u8, imm: u32) -> u32 {
    (((imm >> 5) & 0x7F) << 25) | (((rs2 as u32) & 0x1F) << 20) | (((rs1 as u32) & 0x1F) << 15) | ((
    funct3 & 7) << 12) | ((imm & 0x1F) << 7) | (opcode & 0x7F)
}

/// U-type: `imm[31:12] | rd | opcode`.
pub open spec fn u_type(opcode: u32, rd: u8, imm: u32) -> u32 {
    (((imm >> 12) & 0xF_FFFF) << 12) | (((rd as u32) & 0x1F) << 7) | (opcode & 0x7F)
}

/// J-type (`JAL`) with a byte offset: `imm[20|10:1|11|19:12] | rd | 0x6F`.
/// The destination is not masked.
pub open spec fn jal_word(rd: u32, delta: i32) -> u32 {
    let d = delta as u32;
    (((d >> 20) & 1) << 31) | (((d >> 1) & 0x3FF) << 21) | (((d >> 11) & 1) << 20) | (((d >> 12)
        & 0xFF) << 12) | (rd << 7) | 0x6F
}

/// B-type branch with a byte offset:
/// `imm[12|10:5] | rs2 | rs1 | funct3 | imm[4:1|11] | 0x63`.
/// Registers and `funct3` are not masked.
pub open spec fn branch_word(rs1: u32, rs2: u32, funct3: u32, delta: i32) -> u32 {
    let d = delta as u32;
    (((d >> 12) & 1) << 31) | (((d >> 5) & 0x3F) << 25) | (rs2 << 20) | (rs1 << 15) | (funct3 << 12)
        | (((d >> 1) & 0xF) << 8) | (((d >> 11) & 1) << 7) | 0x63
}

/// Encode a `JAL rd, delta`.
pub fn encode_jal(rd: u32, delta: i32) -> (w: u32)
    ensures
        w == jal_word(rd, delta),
{
    let d = delta as u32;
    let imm20 = (d >> 20) & 1;
    let imm10_1 = (d >> 1) & 0x3FF;
    let imm11 = (d >> 11) & 1;
    let imm19_12 = (d >> 12) & 0xFF;
    (imm20 << 31) | (imm10_1 << 21) | (imm11 << 20) | (imm19_12 << 12) | (rd << 7) | 0x6F
}

/// Encode a conditional branch `B<funct3> rs1, rs2, delta`.
pub fn encode_branch(rs1: u32, rs2: u32, funct3: u32, delta: i32) -> (w: u32)
    ensures
        w == branch_word(rs1, rs2, funct3, delta),
{
    let d = delta as u32;
    let imm12 = (d >> 12) & 1;
    let imm10_5 = (d >> 5) & 0x3F;
    let imm4_1 = (d >> 1) & 0xF;
    let imm11 = (d >> 11) & 1;
    (imm12 << 31) | (imm10_5 << 25) | (rs2 << 20) | (rs1 << 15) | (funct3 << 12) | (imm4_1 << 8) | (
    imm11 << 7) | 0x63
}

// ── branch conditions ───────────────────────────────────────────────────────

/// `funct3` of a branch condition, and whether its operands are swapped:
/// `GT`, `LE`, `GTU` and `LEU` are the reversed `LT`, `GE`, `LTU`, `GEU`.
pub open spec fn cond_funct3(c: ConditionCode) -> (u32, bool) {
    match c {
        ConditionCode::EQ => (0, false),
        ConditionCode::NE => (1, false),
        ConditionCode::LT => (4, false),
        ConditionCode::GE => (5, false),
        ConditionCode::LTU => (6, false),
        ConditionCode::GEU => (7, false),
        ConditionCode::GT => (4, true),
        ConditionCode::LE => (5, true),
        ConditionCode::GTU => (6, true),
        ConditionCode::LEU => (7, true),
    }
}

/// The `funct3` of a condition's branch instruction and whether its
/// operands go in swapped.
pub fn funct3_for_cond(cond: ConditionCode) -> (r: (u32, bool))
    ensures
        r == cond_funct3(cond),
        r.0 < 8,
{
    match cond {
        ConditionCode::EQ => (0b000, false),
        ConditionCode::NE => (0b001, false),
        ConditionCode::LT => (0b100, false),
        ConditionCode::GE => (0b101, false),
        ConditionCode::LTU => (0b110, false),
        ConditionCode::GEU => (0b111, false),
        ConditionCode::GT => (0b100, true),
        ConditionCode::LE => (0b101, true),
        ConditionCode::GTU => (0b110, true),
        ConditionCode::LEU => (0b111, true),
    }
}

/// Whether the base branch instruction with `funct3` is taken on `rs1`
/// and `rs2` values `x` and `y`.
pub open spec fn branch_taken(funct3: u32, x: u64, y: u64) -> bool {
    if funct3 == 0 {
        x == y
    } else if funct3 == 1 {
        x != y
    } else if funct3 == 4 {
        (x as i64) < (y as i64)
    } else if funct3 == 5 {
        (x as i64) >= (y as i64)
    } else if funct3 == 6 {
        x < y
    } else if funct3 == 7 {
        x >= y
    } else {
        false
    }
}

// ── instructions ────────────────────────────────────────────────────────────

/// Conditional branch instructions.
#[derive(Clone, Copy, PartialEq, Eq, Debug, Structural)]
pub enum BranchOp {
    Beq,
    Bne,
    Blt,
    Bge,
    Bltu,
    Bgeu,
}

/// Loads, by width.
#[derive(Clone, Copy, PartialEq, Eq, Debug, Structural)]
pub enum LoadOp {
    Lb,
    Lh,
    Lw,
    Ld,
}

/// Stores, by width.
#[derive(Clone, Copy, PartialEq, Eq, Debug, Structural)]
pub enum StoreOp {
    Sb,
    Sh,
    Sw,
    Sd,
}

/// Register-register operations (base ISA and M extension).
#[derive(Clone, Copy, PartialEq, Eq, Debug, Structural)]
pub enum AluOp {
    Add,
    Sub,
    Sll,
    Slt,
    Sltu,
    Xor,
    Srl,
    Sra,
    Or,
    And,
    Mul,
    Mulh,
    Div,
    Divu,
    Rem,
    Remu,
}

/// A RISC-V instruction that the writer emits.
#[derive(Clone, Copy, PartialEq, Eq, Debug, Structural)]
#[allow(inconsistent_fields)]
pub enum RvInst {
    /// `LUI dest, uimm` (`uimm` holds the value's upper 20 bits in place).
    Lui { dest: u8, uimm: u32 },
    /// `AUIPC dest, uimm`.
    Auipc { dest: u8, uimm: u32 },
    /// `JAL dest, offset`.
    Jal { dest: u8, offset: i32 },
    /// `JALR dest, offset(base)`.
    Jalr { dest: u8, base: u8, offset: i32 },
    /// A conditional branch.
    Branch { op: BranchOp, src1: u8, src2: u8, offset: i32 },
    /// A load.
    Load { op: LoadOp, dest: u8, base: u8, offset: i32 },
    /// A store.
    Store { op: StoreOp, src: u8, base: u8, offset: i32 },
    /// `ADDI dest, src1, imm`.
    Addi { dest: u8, src1: u8, imm: i32 },
    /// `SLLI dest, src1, imm`.
    Slli { dest: u8, src1: u8, imm: i32 },
    /// A register-register operation.
    Op { op: AluOp, dest: u8, src1: u8, src2: u8 },
    /// `EBREAK`.
    Ebreak,
}

/// `funct3` of a branch.
pub open spec fn branch_funct3(op: BranchOp) -> u32 {
    match op {
        BranchOp::Beq => 0,
        BranchOp::Bne => 1,
        BranchOp::Blt => 4,
        BranchOp::Bge => 5,
        BranchOp::Bltu => 6,
        BranchOp::Bgeu => 7,
    }
}

/// `funct3` of a load.
pub open spec fn load_funct3(op: LoadOp) -> u32 {
    match op {
        LoadOp::Lb => 0,
        LoadOp::Lh => 1,
        LoadOp::Lw => 2,
        LoadOp::Ld => 3,
    }
}

/// `funct3` of a store.
pub open spec fn store_funct3(op: StoreOp) -> u32 {
    match op {
        StoreOp::Sb => 0,
        StoreOp::Sh => 1,
        StoreOp::Sw => 2,
        StoreOp::Sd => 3,
    }
}

/// `(funct3, funct7)` of a register-register operation.
pub open spec fn alu_functs(op: AluOp) -> (u32, u32) {
    match op {
        AluOp::Add => (0, 0x00),
        AluOp::Sub => (0, 0x20),
        AluOp::Sll => (1, 0x00),
        AluOp::Slt => (2, 0x00),
        AluOp::Sltu => (3, 0x00),
        AluOp::Xor => (4, 0x00),
        AluOp::Srl => (5, 0x00),
        AluOp::Sra => (5, 0x20),
        AluOp::Or => (6, 0x00),
        AluOp::And => (7, 0x00),
        AluOp::Mul => (0, 0x01),
        AluOp::Mulh => (1, 0x01),
        AluOp::Div => (4, 0x01),
        AluOp::Divu => (5, 0x01),
        AluOp::Rem => (6, 0x01),
        AluOp::Remu => (7, 0x01),
    }
}

/// The word of an instruction (RV64).
pub open spec fn rv_word(inst: RvInst) -> u32 {
    match inst {
        RvInst::Lui { dest, uimm } => u_type(0x37, dest, uimm),
        RvInst::Auipc { dest, uimm } => u_type(0x17, dest, uimm),
        RvInst::Jal { dest, offset } => jal_word((dest as u32) & 0x1F, offset),
        RvInst::Jalr { dest, base, offset } => i_type(0x67, dest, 0, base, offset as u32),
        RvInst::Branch { op, src1, src2, offset } => branch_word(
            (src1 as u32) & 0x1F,
            (src2 as u32) & 0x1F,
            branch_funct3(op),
            offset,
        ),
        RvInst::Load { op, dest, base, offset } => i_type(0x03, dest, load_funct3(op), base, offset as u32),
        RvInst::Store { op, src, base, offset } => s_type(0x23, store_funct3(op), base, src, offset as u32),
        RvInst::Addi { dest, src1, imm } => i_type(0x13, dest, 0, src1, imm as u32),
        RvInst::Slli { dest, src1, imm } => i_type(0x13, dest, 1, src1, imm as u32),
        RvInst::Op { op, dest, src1, src2 } => r_type(0x33, dest, alu_functs(op).0, src1, src2, alu_functs(op).1),
        RvInst::Ebreak => i_type(0x73, 0, 0, 0, 1),
    }
}

fn reg5(r: u8) -> (o: u32)
    ensures
        o == (r as u32) & 0x1F,
        o < 32,
{
    let o = (r as u32) & 0x1F;
    assert(o < 32) by (bit_vector)
        requires
            o == (r as u32) & 0x1F,
    ;
    o
}

fn u_word(opcode: u32, rd: u8, imm: u32) -> (w: u32)
    ensures
        w == u_type(opcode, rd, imm),
{
    (((imm >> 12) & 0xF_FFFF) << 12) | (((rd as u32) & 0x1F) << 7) | (opcode & 0x7F)
}

fn s_word(opcode: u32, funct3: u32, rs1: u8, rs2: u8, imm: u32) -> (w: u32)
    ensures
        w == s_type(opcode, funct3, rs1, rs2, imm),
{
    (((imm >> 5) & 0x7F) << 25) | (((rs2 as u32) & 0x1F) << 20) | (((rs1 as u32) & 0x1F) << 15) | ((
    funct3 & 7) << 12) | ((imm & 0x1F) << 7) | (opcode & 0x7F)
}

fn r_word(opcode: u32, rd: u8, funct3: u32, rs1: u8, rs2: u8, funct7: u32) -> (w: u32)
    ensures
        w == r_type(opcode, rd, funct3, rs1, rs2, funct7),
{
    ((funct7 & 0x7F) << 25) | (((rs2 as u32) & 0x1F) << 20) | (((rs1 as u32) & 0x1F) << 15) | ((
    funct3 & 7) << 12) | (((rd as u32) & 0x1F) << 7) | (opcode & 0x7F)
}

fn i_word(opcode: u32, rd: u8, funct3: u32, rs1: u8, imm: u32) -> (w: u32)
    ensures
        w == i_type(opcode, rd, funct3, rs1, imm),
{
    ((imm & 0xFFF) << 20) | (((rs1 as u32) & 0x1F) << 15) | ((funct3 & 7) << 12) | (((rd as u32)
        & 0x1F) << 7) | (opcode & 0x7F)
}

/// The word of an instruction.
pub fn encode(inst: &RvInst) -> (w: u32)
    ensures
        w == rv_word(*inst),
{
    match inst {
        RvInst::Lui { dest, uimm } => u_word(0x37, *dest, *uimm),
        RvInst::Auipc { dest, uimm } => u_word(0x17, *dest, *uimm),
        RvInst::Jal { dest, offset } => encode_jal(reg5(*dest), *offset),
        RvInst::Jalr { dest, base, offset } => i_word(0x67, *dest, 0, *base, *offset as u32),
        RvInst::Branch { op, src1, src2, offset } => {
            let f3: u32 = match op {
                BranchOp::Beq => 0,
                BranchOp::Bne => 1,
                BranchOp::Blt => 4,
                BranchOp::Bge => 5,
                BranchOp::Bltu => 6,
                BranchOp::Bgeu => 7,
            };
            encode_branch(reg5(*src1), reg5(*src2), f3, *offset)
        },
        RvInst::Load { op, dest, base, offset } => {
            let f3: u32 = match op {
                LoadOp::Lb => 0,
                LoadOp::Lh => 1,
                LoadOp::Lw => 2,
                LoadOp::Ld => 3,
            };
            i_word(0x03, *dest, f3, *base, *offset as u32)
        },
        RvInst::Store { op, src, base, offset } => {
            let f3: u32 = match op {
                StoreOp::Sb => 0,
                StoreOp::Sh => 1,
                StoreOp::Sw => 2,
                StoreOp::Sd => 3,
            };
            s_word(0x23, f3, *base, *src, *offset as u32)
        },
        RvInst::Addi { dest, src1, imm } => i_word(0x13, *dest, 0, *src1, *imm as u32),
        RvInst::Slli { dest, src1, imm } => i_word(0x13, *dest, 1, *src1, *imm as u32),
        RvInst::Op { op, dest, src1, src2 } => {
            let (f3, f7): (u32, u32) = match op {
                AluOp::Add => (0, 0x00),
                AluOp::Sub => (0, 0x20),
                AluOp::Sll => (1, 0x00),
                AluOp::Slt => (2, 0x00),
                AluOp::Sltu => (3, 0x00),
                AluOp::Xor => (4, 0x00),
                AluOp::Srl => (5, 0x00),
                AluOp::Sra => (5, 0x20),
                AluOp::Or => (6, 0x00),
                AluOp::And => (7, 0x00),
                AluOp::Mul => (0, 0x01),
                AluOp::Mulh => (1, 0x01),
                AluOp::Div => (4, 0x01),
                AluOp::Divu => (5, 0x01),
                AluOp::Rem => (6, 0x01),
                AluOp::Remu => (7, 0x01),
            };
            r_word(0x33, *dest, f3, *src1, *src2, f7)
        },
        RvInst::Ebreak => i_word(0x73, 0, 0, 0, 1),
    }
}

// ── `LA` (AUIPC + ADDI) ─────────────────────────────────────────────────────

/// The upper part of a PC-relative distance, rounded so that the lower
/// part fits a signed 12-bit immediate.
pub open spec fn la_hi(delta: i32) -> i32 {
    ((delta + 0x800) as i64 >> 12) as i32
}

/// The lower part of a PC-relative distance.
pub open spec fn la_lo(delta: i32) -> i32 {
    (delta - ((la_hi(delta) as int) * 4096)) as i32
}

/// `AUIPC rd, hi` of an `LA rd, delta`.
pub open spec fn la_auipc(rd: u32, delta: i32) -> u32 {
    ((la_hi(delta) as u32) << 12) | (rd << 7) | 0x17
}

/// `ADDI rd, rd, lo` of an `LA rd, delta`.
pub open spec fn la_addi(rd: u32, delta: i32) -> u32 {
    (((la_lo(delta) as u32) & 0xFFF) << 20) | (rd << 15) | (rd << 7) | 0x13
}

/// The distance is one that `LA` reaches: below `0x7FFF_F800` the rounded
/// upper part still fits the 20-bit `AUIPC` immediate.
pub open spec fn la_reaches(delta: i32) -> bool {
    delta < 0x7FFF_F800
}

/// The two words of `LA rd, delta`.
pub fn encode_la(rd: u32, delta: i32) -> (r: (u32, u32))
    requires
        la_reaches(delta),
    ensures
        r == (la_auipc(rd, delta), la_addi(rd, delta)),
{
    let d64: i64 = delta as i64 + 0x800;
    assert(-0x8_0000 <= (d64 >> 12) < 0x8_0000) by (bit_vector)
        requires
            -0x8000_0000 + 0x800 <= d64 < 0x8000_0000,
    ;
    assert(0 <= d64 - (d64 >> 12) * 4096 < 4096) by (bit_vector)
        requires
            -0x8000_0000 + 0x800 <= d64 < 0x8000_0000,
    ;
    let hi20 = (d64 >> 12) as i32;
    let lo12 = delta - hi20 * 4096;
    let auipc = ((hi20 as u32) << 12) | (rd << 7) | 0x17;
    let addi = (((lo12 as u32) & 0xFFF) << 20) | (rd << 15) | (rd << 7) | 0x13;
    (auipc, addi)
}

} // verus!
