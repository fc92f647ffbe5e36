//! AArch64 instruction words.
//!
//! Every instruction is a 32-bit word; the spec functions here give the word
//! for each instruction in terms of its operands, and the exec functions
//! compute it.  Register operands are taken by number (not masked: register
//! numbers above 31 spill into neighbouring fields, as in the hardware
//! field layout they are never meant to), literals by value.

use vstd::prelude::*;
use crate::common::{MemorySize, Reg};
use crate::aarch64::{ConditionCode, cond_bits};
use crate::aarch64::arg::{AddressingMode, ArgKind, MemArgKind};

verus! {

// ── operand extraction ──────────────────────────────────────────────────────

/// The register number of a direct register operand; 0 for anything else.
pub open spec fn reg_of(a: MemArgKind) -> u32 {
    match a {
        MemArgKind::NoMem(ArgKind::Reg { reg, .. }) => reg.0 as u32,
        _ => 0,
    }
}

/// The size of a direct register operand; 64 bits for anything else.
pub open spec fn size_of(a: MemArgKind) -> MemorySize {
    match a {
        MemArgKind::NoMem(ArgKind::Reg { size, .. }) => size,
        _ => MemorySize::_64,
    }
}

/// The value of a direct literal operand.
pub open spec fn lit_of(a: MemArgKind) -> Option<u64> {
    match a {
        MemArgKind::NoMem(ArgKind::Lit(v)) => Some(v),
        _ => None,
    }
}

/// Base register, displacement and addressing mode of a memory operand; a
/// direct register serves as `[reg]`; anything else as `[x0]`.
pub open spec fn base_disp_mode(m: MemArgKind) -> (u32, i32, AddressingMode) {
    match m {
        MemArgKind::Mem { base: ArgKind::Reg { reg, .. }, disp, mode, .. } => (reg.0 as u32, disp, mode),
        MemArgKind::NoMem(ArgKind::Reg { reg, .. }) => (reg.0 as u32, 0, AddressingMode::Offset),
        _ => (0, 0, AddressingMode::Offset),
    }
}

pub fn to_reg(a: &MemArgKind) -> (r: u32)
    ensures
        r == reg_of(*a),
        r < 256,
{
    match a {
        MemArgKind::NoMem(ArgKind::Reg { reg, .. }) => reg.0 as u32,
        _ => 0,
    }
}

pub fn to_reg_size(a: &MemArgKind) -> (r: (u32, MemorySize))
    ensures
        r == (reg_of(*a), size_of(*a)),
        r.0 < 256,
{
    match a {
        MemArgKind::NoMem(ArgKind::Reg { reg, size }) => (reg.0 as u32, *size),
        _ => (0, MemorySize::_64),
    }
}

pub fn mem_base_disp(m: &MemArgKind) -> (r: (u32, i32, AddressingMode))
    ensures
        r == base_disp_mode(*m),
        r.0 < 256,
{
    match m {
        MemArgKind::Mem { base: ArgKind::Reg { reg, .. }, disp, mode, .. } => (reg.0 as u32, *disp, *mode),
        MemArgKind::NoMem(ArgKind::Reg { reg, .. }) => (reg.0 as u32, 0, AddressingMode::Offset),
        _ => (0, 0, AddressingMode::Offset),
    }
}

pub fn lit_value(a: &MemArgKind) -> (r: Option<u64>)
    ensures
        r == lit_of(*a),
{
    match a {
        MemArgKind::NoMem(ArgKind::Lit(v)) => Some(*v),
        _ => None,
    }
}

// ── field layouts ────────────────────────────────────────────────────────────

/// Truncating division (rounds toward zero), as Rust's `/` on signed integers.
pub open spec fn tdiv(a: int, d: int) -> int {
    if a >= 0 {
        a / d
    } else {
        -((-a) / d)
    }
}

/// Three-register layout: `Rm` at 16, `Rn` at 5, `Rd` at 0.
pub open spec fn rrr(opc: u32, rd: u32, rn: u32, rm: u32) -> u32 {
    opc | (rm << 16) | (rn << 5) | rd
}

/// Register-register-immediate12 layout: `imm12` at 10, `Rn` at 5, `Rd` at 0.
pub open spec fn rri12(opc: u32, rd: u32, rn: u32, imm: u32) -> u32 {
    opc | ((imm & 0xFFF) << 10) | (rn << 5) | rd
}

fn rrr_word(opc: u32, rd: u32, rn: u32, rm: u32) -> (w: u32)
    ensures
        w == rrr(opc, rd, rn, rm),
{
    opc | (rm << 16) | (rn << 5) | rd
}

fn rri12_word(opc: u32, rd: u32, rn: u32, imm: u32) -> (w: u32)
    ensures
        w == rri12(opc, rd, rn, imm),
{
    opc | ((imm & 0xFFF) << 10) | (rn << 5) | rd
}

// ── instruction words ───────────────────────────────────────────────────────

/// `BRK #imm16`.
pub open spec fn w_brk(imm: u16) -> u32 {
    0xD420_0000 | ((imm as u32) << 5)
}

/// `RET` (to `x30`).
pub open spec fn w_ret() -> u32 {
    0xD65F_03C0
}

/// `MOV`: a 64/32-bit register move (an `ADD #0` when `sp` is involved) or a
/// `MOVZ` of the low 16 bits of a literal; 8/16-bit destinations use the
/// 64-bit register move.
pub open spec fn w_mov(dest: MemArgKind, src: MemArgKind) -> u32 {
    let rd = reg_of(dest);
    let size = size_of(dest);
    let rm = reg_of(src);
    if size == MemorySize::_64 || size == MemorySize::_32 {
        match lit_of(src) {
            Some(v) => {
                let sf: u32 = if size == MemorySize::_64 { 0x8000_0000 } else { 0 };
                sf | 0x5280_0000 | (((v & 0xFFFF) as u32) << 5) | rd
            },
            None => if size == MemorySize::_64 {
                if rd == 31 || rm == 31 {
                    0x9100_0000 | (rm << 5) | rd
                } else {
                    0xAA00_03E0 | (rm << 16) | rd
                }
            } else {
                0x2A00_03E0 | (rm << 16) | rd
            },
        }
    } else {
        0xAA00_03E0 | (rm << 16) | rd
    }
}

pub fn word_mov(dest: &MemArgKind, src: &MemArgKind) -> (w: u32)
    ensures
        w == w_mov(*dest, *src),
{
    let (rd, size) = to_reg_size(dest);
    if size == MemorySize::_64 || size == MemorySize::_32 {
        if let Some(v) = lit_value(src) {
            let sf: u32 = if size == MemorySize::_64 { 0x8000_0000 } else { 0 };
            sf | 0x5280_0000 | (((v & 0xFFFF) as u32) << 5) | rd
        } else {
            let rm = to_reg(src);
            if size == MemorySize::_64 {
                if rd == 31 || rm == 31 {
                    0x9100_0000 | (rm << 5) | rd
                } else {
                    0xAA00_03E0 | (rm << 16) | rd
                }
            } else {
                0x2A00_03E0 | (rm << 16) | rd
            }
        }
    } else {
        let rm = to_reg(src);
        0xAA00_03E0 | (rm << 16) | rd
    }
}

/// `MOVZ Xd, #imm16, LSL #(16*hw)`.
pub open spec fn w_movz(rd: u32, hw: u32, imm16: u64) -> u32 {
    (0xD280_0000 | (hw << 21)) | (((imm16 & 0xFFFF) as u32) << 5) | rd
}

/// `MOVK Xd, #imm16, LSL #(16*hw)`.
pub open spec fn w_movk(rd: u32, hw: u32, imm16: u64) -> u32 {
    (0xF280_0000 | (hw << 21)) | (((imm16 & 0xFFFF) as u32) << 5) | rd
}

pub fn word_mov_wide(keep: bool, rd: u32, hw: u32, imm16: u64) -> (w: u32)
    requires
        hw < 4,
    ensures
        w == if keep { w_movk(rd, hw, imm16) } else { w_movz(rd, hw, imm16) },
{
    let opc: u32 = if keep { 0xF280_0000 } else { 0xD280_0000 };
    (opc | (hw << 21)) | (((imm16 & 0xFFFF) as u32) << 5) | rd
}

/// The words that load a 64-bit literal: `MOVZ` of bits 0..16, then one
/// `MOVK` for each higher 16-bit chunk up to the highest non-zero one.
pub open spec fn mov_imm_words(rd: u32, val: u64) -> Seq<u32> {
    let w0 = seq![w_movz(rd, 0, val)];
    let w1 = if val > 0xFFFF { w0.push(w_movk(rd, 1, val >> 16)) } else { w0 };
    let w2 = if val > 0xFFFF_FFFF { w1.push(w_movk(rd, 2, val >> 32)) } else { w1 };
    if val > 0xFFFF_FFFF_FFFF { w2.push(w_movk(rd, 3, val >> 48)) } else { w2 }
}

/// `ADD Xd, Xn, #imm12` for a literal second operand, `ADD Xd, Xn, Xm` otherwise.
pub open spec fn w_add(dest: MemArgKind, a: MemArgKind, b: MemArgKind) -> u32 {
    match lit_of(b) {
        Some(v) => rri12(0x9100_0000, reg_of(dest), reg_of(a), v as u32),
        None => rrr(0x8B00_0000, reg_of(dest), reg_of(a), reg_of(b)),
    }
}

/// `SUB Xd, Xn, #imm12` for a literal second operand, `SUB Xd, Xn, Xm` otherwise.
pub open spec fn w_sub(dest: MemArgKind, a: MemArgKind, b: MemArgKind) -> u32 {
    match lit_of(b) {
        Some(v) => rri12(0xD100_0000, reg_of(dest), reg_of(a), v as u32),
        None => rrr(0xCB00_0000, reg_of(dest), reg_of(a), reg_of(b)),
    }
}

pub fn word_add_sub(dest: &MemArgKind, a: &MemArgKind, b: &MemArgKind, sub: bool) -> (w: u32)
    ensures
        w == if sub { w_sub(*dest, *a, *b) } else { w_add(*dest, *a, *b) },
{
    let rd = to_reg(dest);
    let rn = to_reg(a);
    if let Some(v) = lit_value(b) {
        rri12_word(if sub { 0xD100_0000 } else { 0x9100_0000 }, rd, rn, v as u32)
    } else {
        rrr_word(if sub { 0xCB00_0000 } else { 0x8B00_0000 }, rd, rn, to_reg(b))
    }
}

/// Three-register operations that take no immediate form here.
pub open spec fn w_rrr(opc: u32, dest: MemArgKind, a: MemArgKind, b: MemArgKind) -> u32 {
    rrr(opc, reg_of(dest), reg_of(a), reg_of(b))
}

pub fn word_rrr(opc: u32, dest: &MemArgKind, a: &MemArgKind, b: &MemArgKind) -> (w: u32)
    ensures
        w == w_rrr(opc, *dest, *a, *b),
{
    rrr_word(opc, to_reg(dest), to_reg(a), to_reg(b))
}

/// `AND Xd, Xn, Xm`.
pub open spec fn opc_and() -> u32 { 0x8A00_0000 }
/// `ORR Xd, Xn, Xm`.
pub open spec fn opc_orr() -> u32 { 0xAA00_0000 }
/// `EOR Xd, Xn, Xm`.
pub open spec fn opc_eor() -> u32 { 0xCA00_0000 }
/// `MUL Xd, Xn, Xm` (`MADD` with `XZR`).
pub open spec fn opc_mul() -> u32 { 0x9B00_7C00 }
/// `UDIV Xd, Xn, Xm`.
pub open spec fn opc_udiv() -> u32 { 0x9AC0_0800 }
/// `SDIV Xd, Xn, Xm`.
pub open spec fn opc_sdiv() -> u32 { 0x9AC0_0C00 }
/// `FADD Dd, Dn, Dm`.
pub open spec fn opc_fadd() -> u32 { 0x1E60_2800 }
/// `FSUB Dd, Dn, Dm`.
pub open spec fn opc_fsub() -> u32 { 0x1E60_3800 }
/// `FMUL Dd, Dn, Dm`.
pub open spec fn opc_fmul() -> u32 { 0x1E60_0800 }
/// `FDIV Dd, Dn, Dm`.
pub open spec fn opc_fdiv() -> u32 { 0x1E60_1800 }

/// Shift kinds.
#[derive(Clone, Copy, PartialEq, Eq, Debug, Structural)]
pub enum ShiftKind {
    /// Logical shift left.
    Lsl,
    /// Logical shift right.
    Lsr,
    /// Arithmetic shift right.
    Asr,
}

/// `LSL/LSR/ASR Xd, Xn, #shift` (as `UBFM`/`SBFM`) for a literal shift,
/// `LSLV/LSRV/ASRV Xd, Xn, Xm` otherwise.
pub open spec fn w_shift(kind: ShiftKind, dest: MemArgKind, a: MemArgKind, b: MemArgKind) -> u32 {
    let rd = reg_of(dest);
    let rn = reg_of(a);
    match lit_of(b) {
        Some(v) => {
            let shift = (v & 0x3F) as u32;
            match kind {
                ShiftKind::Lsl => 0xD340_0000 | (((64 - shift) as u32 & 0x3F) << 16) | (((63 - shift) as u32) << 10) | (rn << 5) | rd,
                ShiftKind::Lsr => 0xD340_0000 | (shift << 16) | (0x3Fu32 << 10) | (rn << 5) | rd,
                ShiftKind::Asr => 0x9340_0000 | (shift << 16) | (0x3Fu32 << 10) | (rn << 5) | rd,
            }
        },
        None => {
            let opc: u32 = match kind {
                ShiftKind::Lsl => 0x9AC0_2000,
                ShiftKind::Lsr => 0x9AC0_2400,
                ShiftKind::Asr => 0x9AC0_2800,
            };
            rrr(opc, rd, rn, reg_of(b))
        },
    }
}

pub fn word_shift(kind: ShiftKind, dest: &MemArgKind, a: &MemArgKind, b: &MemArgKind) -> (w: u32)
    ensures
        w == w_shift(kind, *dest, *a, *b),
{
    let rd = to_reg(dest);
    let rn = to_reg(a);
    if let Some(v) = lit_value(b) {
        assert(v & 0x3F < 64) by (bit_vector);
        let shift = (v & 0x3F) as u32;
        match kind {
            ShiftKind::Lsl => {
                let immr = (64 - shift) & 0x3F;
                let imms = 63 - shift;
                0xD340_0000 | (immr << 16) | (imms << 10) | (rn << 5) | rd
            },
            ShiftKind::Lsr => 0xD340_0000 | (shift << 16) | (0x3Fu32 << 10) | (rn << 5) | rd,
            ShiftKind::Asr => 0x9340_0000 | (shift << 16) | (0x3Fu32 << 10) | (rn << 5) | rd,
        }
    } else {
        let opc: u32 = match kind {
            ShiftKind::Lsl => 0x9AC0_2000,
            ShiftKind::Lsr => 0x9AC0_2400,
            ShiftKind::Asr => 0x9AC0_2800,
        };
        rrr_word(opc, rd, rn, to_reg(b))
    }
}

/// `MVN Xd, Xm` (`ORN Xd, XZR, Xm`).
pub open spec fn w_mvn(dest: MemArgKind, src: MemArgKind) -> u32 {
    0xAA20_03E0 | (reg_of(src) << 16) | reg_of(dest)
}

/// `CMP Xn, #imm12` or `CMP Xn, Xm` (`SUBS XZR, ...`).
pub open spec fn w_compare(a: MemArgKind, b: MemArgKind) -> u32 {
    match lit_of(b) {
        Some(v) => 0xF100_001F | (((v as u32) & 0xFFF) << 10) | (reg_of(a) << 5),
        None => 0xEB00_001F | (reg_of(b) << 16) | (reg_of(a) << 5),
    }
}

pub fn word_compare(a: &MemArgKind, b: &MemArgKind) -> (w: u32)
    ensures
        w == w_compare(*a, *b),
{
    let rn = to_reg(a);
    if let Some(v) = lit_value(b) {
        0xF100_001F | ((v as u32 & 0xFFF) << 10) | (rn << 5)
    } else {
        let rm = to_reg(b);
        0xEB00_001F | (rm << 16) | (rn << 5)
    }
}

/// `CSEL Xd, Xn, Xm, cond`.
pub open spec fn w_csel(cond: ConditionCode, dest: MemArgKind, t: MemArgKind, f: MemArgKind) -> u32 {
    0x9A80_0000 | (reg_of(f) << 16) | (cond_bits(cond) << 12) | (reg_of(t) << 5) | reg_of(dest)
}

/// `SXTB/SXTH/SXTW Xd, Wn` by the source size (32/64 both give `SXTW`).
pub open spec fn w_sxt(dest: MemArgKind, src: MemArgKind) -> u32 {
    let rd = reg_of(dest);
    let rn = reg_of(src);
    match size_of(src) {
        MemorySize::_8 => 0x9340_1C00 | (rn << 5) | rd,
        MemorySize::_16 => 0x9340_3C00 | (rn << 5) | rd,
        _ => 0x9340_7C00 | (rn << 5) | rd,
    }
}

/// `UXTB/UXTH Wd, Wn`, or `MOV Wd, Wn` for wider sources.
pub open spec fn w_uxt(dest: MemArgKind, src: MemArgKind) -> u32 {
    let rd = reg_of(dest);
    let rn = reg_of(src);
    match size_of(src) {
        MemorySize::_8 => 0x5300_1C00 | (rn << 5) | rd,
        MemorySize::_16 => 0x5300_3C00 | (rn << 5) | rd,
        _ => 0x2A00_03E0 | (rn << 16) | rd,
    }
}

pub fn word_ext(dest: &MemArgKind, src: &MemArgKind, signed: bool) -> (w: u32)
    ensures
        w == if signed { w_sxt(*dest, *src) } else { w_uxt(*dest, *src) },
{
    let rd = to_reg(dest);
    let (rn, size) = to_reg_size(src);
    if signed {
        match size {
            MemorySize::_8 => 0x9340_1C00 | (rn << 5) | rd,
            MemorySize::_16 => 0x9340_3C00 | (rn << 5) | rd,
            _ => 0x9340_7C00 | (rn << 5) | rd,
        }
    } else {
        match size {
            MemorySize::_8 => 0x5300_1C00 | (rn << 5) | rd,
            MemorySize::_16 => 0x5300_3C00 | (rn << 5) | rd,
            _ => 0x2A00_03E0 | (rn << 16) | rd,
        }
    }
}

/// Opcode bits of a single-register load (`load`) or store by access size.
pub open spec fn ldst_size_opc(load: bool, size: MemorySize) -> u32 {
    let base: u32 = match size {
        MemorySize::_64 => 0xF800_0000,
        MemorySize::_32 => 0xB800_0000,
        MemorySize::_16 => 0x7800_0000,
        MemorySize::_8 => 0x3800_0000,
    };
    if load { base | 0x0040_0000 } else { base }
}

/// The scale (in bytes) of an unsigned load/store offset of a given size.
pub open spec fn ldst_scale(size: MemorySize) -> int {
    match size {
        MemorySize::_64 => 8,
        MemorySize::_32 => 4,
        MemorySize::_16 => 2,
        MemorySize::_8 => 1,
    }
}

/// `LDR`/`STR` of register `rt` (sized by the register operand) at memory
/// operand `mem`: an unsigned scaled 12-bit offset for a non-negative
/// displacement, an unscaled signed 9-bit offset (`LDUR`/`STUR`) for a
/// negative one, or the pre/post-indexed forms with a signed 9-bit offset.
pub open spec fn w_ldst(load: bool, reg: MemArgKind, mem: MemArgKind) -> u32 {
    let rt = reg_of(reg);
    let size = size_of(reg);
    let (rn, disp, mode) = base_disp_mode(mem);
    let simm9 = (disp as u32) & 0x1FF;
    let opc = ldst_size_opc(load, size);
    match mode {
        AddressingMode::Offset => if disp >= 0 {
            (opc | 0x0100_0000) | (((tdiv(disp as int, ldst_scale(size)) as u32) & 0xFFF) << 10) | (rn << 5) | rt
        } else {
            opc | (simm9 << 12) | (rn << 5) | rt
        },
        AddressingMode::PreIndex => (opc | 0x0C00) | (simm9 << 12) | (rn << 5) | rt,
        AddressingMode::PostIndex => (opc | 0x0400) | (simm9 << 12) | (rn << 5) | rt,
    }
}

pub fn word_ldst(load: bool, reg: &MemArgKind, mem: &MemArgKind) -> (w: u32)
    ensures
        w == w_ldst(load, *reg, *mem),
{
    let (rt, size) = to_reg_size(reg);
    let (rn, disp, mode) = mem_base_disp(mem);
    let simm9 = (disp as u32) & 0x1FF;
    let base: u32 = match size {
        MemorySize::_64 => 0xF800_0000,
        MemorySize::_32 => 0xB800_0000,
        MemorySize::_16 => 0x7800_0000,
        MemorySize::_8 => 0x3800_0000,
    };
    let opc = if load { base | 0x0040_0000 } else { base };
    match mode {
        AddressingMode::Offset => if disp >= 0 {
            let scaled: i32 = match size {
                MemorySize::_64 => disp / 8,
                MemorySize::_32 => disp / 4,
                MemorySize::_16 => disp / 2,
                MemorySize::_8 => disp,
            };
            (opc | 0x0100_0000) | (((scaled as u32) & 0xFFF) << 10) | (rn << 5) | rt
        } else {
            opc | (simm9 << 12) | (rn << 5) | rt
        },
        AddressingMode::PreIndex => (opc | 0x0C00) | (simm9 << 12) | (rn << 5) | rt,
        AddressingMode::PostIndex => (opc | 0x0400) | (simm9 << 12) | (rn << 5) | rt,
    }
}

/// `LDP`/`STP` of two registers with a scaled signed 7-bit offset.
pub open spec fn w_ldstp(load: bool, r1: MemArgKind, r2: MemArgKind, mem: MemArgKind) -> u32 {
    let (rn, disp, mode) = base_disp_mode(mem);
    let simm7 = ((tdiv(disp as int, 8) as i32) as u32) & 0x7F;
    let base_opc: u32 = match mode {
        AddressingMode::Offset => if load { 0xA940_0000 } else { 0xA900_0000 },
        AddressingMode::PreIndex => if load { 0xA9C0_0000 } else { 0xA9A0_0000 },
        AddressingMode::PostIndex => if load { 0xA8C0_0000 } else { 0xA880_0000 },
    };
    base_opc | (simm7 << 15) | (reg_of(r2) << 10) | (rn << 5) | reg_of(r1)
}

pub fn word_ldstp(load: bool, r1: &MemArgKind, r2: &MemArgKind, mem: &MemArgKind) -> (w: u32)
    ensures
        w == w_ldstp(load, *r1, *r2, *mem),
{
    let rt1 = to_reg(r1);
    let rt2 = to_reg(r2);
    let (rn, disp, mode) = mem_base_disp(mem);
    let simm7 = ((disp / 8) as u32) & 0x7F;
    let base_opc: u32 = match mode {
        AddressingMode::Offset => if load { 0xA940_0000 } else { 0xA900_0000 },
        AddressingMode::PreIndex => if load { 0xA9C0_0000 } else { 0xA9A0_0000 },
        AddressingMode::PostIndex => if load { 0xA8C0_0000 } else { 0xA880_0000 },
    };
    base_opc | (simm7 << 15) | (rt2 << 10) | (rn << 5) | rt1
}

/// `BL #imm26` for a literal byte offset, `BLR Xn` otherwise.
pub open spec fn w_bl(target: MemArgKind) -> u32 {
    match lit_of(target) {
        Some(v) => 0x9400_0000 | (((v as u32) >> 2) & 0x3FF_FFFF),
        None => 0xD63F_0000 | (reg_of(target) << 5),
    }
}

/// `B #imm26` for a literal byte offset, `BR Xn` otherwise.
pub open spec fn w_b(target: MemArgKind) -> u32 {
    match lit_of(target) {
        Some(v) => 0x1400_0000 | (((v as u32) >> 2) & 0x3FF_FFFF),
        None => 0xD61F_0000 | (reg_of(target) << 5),
    }
}

pub fn word_branch(target: &MemArgKind, link: bool) -> (w: u32)
    ensures
        w == if link { w_bl(*target) } else { w_b(*target) },
{
    if let Some(v) = lit_value(target) {
        let imm = ((v as u32) >> 2) & 0x3FF_FFFF;
        if link { 0x9400_0000 | imm } else { 0x1400_0000 | imm }
    } else {
        let rn = to_reg(target);
        if link { 0xD63F_0000 | (rn << 5) } else { 0xD61F_0000 | (rn << 5) }
    }
}

/// `MRS Xd, NZCV`.
pub open spec fn w_mrs_nzcv(dest: MemArgKind) -> u32 {
    0xD53B_4200 | reg_of(dest)
}

/// `MSR NZCV, Xn`.
pub open spec fn w_msr_nzcv(src: MemArgKind) -> u32 {
    0xD51B_4200 | reg_of(src)
}

/// `FMOV Dd, Dn`.
pub open spec fn w_fmov(dest: MemArgKind, src: MemArgKind) -> u32 {
    0x1E60_4000 | (reg_of(src) << 5) | reg_of(dest)
}

/// `BR Xn`.
pub open spec fn w_br(target: MemArgKind) -> u32 {
    0xD61F_0000 | (reg_of(target) << 5)
}

/// `B.cond #imm19` with the literal byte offset (0 for a non-literal target).
pub open spec fn w_bcond(cond: ConditionCode, target: MemArgKind) -> u32 {
    let imm19: u32 = match lit_of(target) {
        Some(v) => (((v as i64) >> 2) as u32) & 0x7_FFFF,
        None => 0,
    };
    0x5400_0000 | (imm19 << 5) | cond_bits(cond)
}

pub fn word_bcond(cond: ConditionCode, target: &MemArgKind) -> (w: u32)
    ensures
        w == w_bcond(cond, *target),
{
    let imm19: u32 = if let Some(v) = lit_value(target) {
        (((v as i64) >> 2) as u32) & 0x7_FFFF
    } else {
        0
    };
    0x5400_0000 | (imm19 << 5) | cond.bits()
}

/// `ADR Xd, #imm21` with the immediate split into `immlo` (bits 29..31) and
/// `immhi` (bits 5..24).
pub open spec fn adr_word(rd: u32, imm21: u32) -> u32 {
    0x1000_0000 | ((imm21 & 0x3) << 29) | (((imm21 >> 2) & 0x7_FFFF) << 5) | rd
}

fn adr_word_exec(rd: u32, imm21: u32) -> (w: u32)
    ensures
        w == adr_word(rd, imm21),
{
    0x1000_0000 | ((imm21 & 0x3) << 29) | (((imm21 >> 2) & 0x7_FFFF) << 5) | rd
}

/// `ADR Xd, #imm` with the literal offset (0 for a non-literal source).
pub open spec fn w_adr(dest: MemArgKind, src: MemArgKind) -> u32 {
    let imm21: u32 = match lit_of(src) {
        Some(v) => v as u32,
        None => 0,
    };
    adr_word(reg_of(dest), imm21)
}

pub fn word_adr(dest: &MemArgKind, src: &MemArgKind) -> (w: u32)
    ensures
        w == w_adr(*dest, *src),
{
    let imm21: u32 = if let Some(v) = lit_value(src) { v as u32 } else { 0 };
    adr_word_exec(to_reg(dest), imm21)
}

/// `B #(delta)` to a byte distance from the branch itself.
pub open spec fn b_to(delta: i32) -> u32 {
    0x1400_0000 | ((tdiv(delta as int, 4) as i32 as u32) & 0x3FF_FFFF)
}

/// `BL #(delta)` to a byte distance from the branch itself.
pub open spec fn bl_to(delta: i32) -> u32 {
    0x9400_0000 | ((tdiv(delta as int, 4) as i32 as u32) & 0x3FF_FFFF)
}

/// `B.cond #(delta)` to a byte distance from the branch itself.
pub open spec fn bcond_to(cond: ConditionCode, delta: i32) -> u32 {
    0x5400_0000 | (((tdiv(delta as int, 4) as i32 as u32) & 0x7_FFFF) << 5) | cond_bits(cond)
}

/// `ADR Xd, #(delta)` to a byte distance from the instruction itself.
pub open spec fn adr_to(rd: u32, delta: i32) -> u32 {
    adr_word(rd, delta as u32)
}

pub fn word_b_to(delta: i32, link: bool) -> (w: u32)
    ensures
        w == if link { bl_to(delta) } else { b_to(delta) },
{
    let imm26 = ((delta / 4) as u32) & 0x3FF_FFFF;
    if link { 0x9400_0000 | imm26 } else { 0x1400_0000 | imm26 }
}

pub fn word_bcond_to(cond: ConditionCode, delta: i32) -> (w: u32)
    ensures
        w == bcond_to(cond, delta),
{
    let imm19 = ((delta / 4) as u32) & 0x7_FFFF;
    0x5400_0000 | (imm19 << 5) | cond.bits()
}

pub fn word_adr_to(rd: u32, delta: i32) -> (w: u32)
    ensures
        w == adr_to(rd, delta),
{
    adr_word_exec(rd, delta as u32)
}

} // verus!
