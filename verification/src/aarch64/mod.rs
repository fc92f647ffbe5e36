//! AArch64 (ARM64) target: configuration, condition codes, operands, a
//! binary encoder and register-allocator integration.

use vstd::prelude::*;
use crate::common::MemorySize;

pub mod arg;
pub mod encode;
pub mod bin;
pub mod regalloc;
pub mod decode;
pub mod shim;
pub mod reg;

verus! {

/// Register class for display formatting: general-purpose or SIMD/FP.
#[derive(Clone, Copy, PartialEq, Eq, Debug, Hash, Structural)]
pub enum RegisterClass {
    /// General-purpose register (x0, x1, ...).
    Gpr,
    /// SIMD/FP register (v0, v1, ...).
    Simd,
}

impl Default for RegisterClass {
    fn default() -> (r: Self)
        ensures
            r == RegisterClass::Gpr,
    {
        RegisterClass::Gpr
    }
}

/// AArch64 architecture configuration (no options yet).
#[derive(Clone, Copy, PartialEq, Eq, Debug, Hash)]
pub struct AArch64Arch {}

impl Default for AArch64Arch {
    fn default() -> (r: Self)
        ensures
            r == (AArch64Arch {}),
    {
        AArch64Arch {}
    }
}

/// Display options: architecture and register class.
#[derive(Clone, Copy, PartialEq, Eq, Debug, Hash)]
pub struct DisplayOpts {
    /// The target architecture configuration.
    pub arch: AArch64Arch,
    /// The register class for display.
    pub reg_class: RegisterClass,
}

impl DisplayOpts {
    /// Display options with the given architecture and the general-purpose class.
    pub fn new(arch: AArch64Arch) -> (r: Self)
        ensures
            r.arch == arch,
            r.reg_class == RegisterClass::Gpr,
    {
        DisplayOpts { arch, reg_class: RegisterClass::Gpr }
    }

    /// Display options with the given architecture and register class.
    pub fn with_reg_class(arch: AArch64Arch, reg_class: RegisterClass) -> (r: Self)
        ensures
            r.arch == arch,
            r.reg_class == reg_class,
    {
        DisplayOpts { arch, reg_class }
    }
}

impl Default for DisplayOpts {
    fn default() -> (r: Self)
        ensures
            r.reg_class == RegisterClass::Gpr,
    {
        DisplayOpts::new(AArch64Arch::default())
    }
}

/// AArch64 condition codes, each with its 4-bit encoding.
#[derive(Clone, Copy, PartialEq, Eq, Debug, Hash, Structural)]
pub enum ConditionCode {
    /// Equal (Z == 1).
    EQ,
    /// Not equal (Z == 0).
    NE,
    /// Carry set / unsigned higher or same (C == 1).
    HS,
    /// Carry clear / unsigned lower (C == 0).
    LO,
    /// Minus / negative (N == 1).
    MI,
    /// Plus / positive or zero (N == 0).
    PL,
    /// Overflow set (V == 1).
    VS,
    /// Overflow clear (V == 0).
    VC,
    /// Unsigned higher (C == 1 && Z == 0).
    HI,
    /// Unsigned lower or same (C == 0 || Z == 1).
    LS,
    /// Signed greater than or equal (N == V).
    GE,
    /// Signed less than (N != V).
    LT,
    /// Signed greater than (Z == 0 && N == V).
    GT,
    /// Signed less than or equal (Z == 1 || N != V).
    LE,
    /// Always.
    AL,
    /// Never (behaves as always).
    NV,
}

/// The 4-bit field that encodes a condition.
pub open spec fn cond_bits(c: ConditionCode) -> u32 {
    match c {
        ConditionCode::EQ => 0,
        ConditionCode::NE => 1,
        ConditionCode::HS => 2,
        ConditionCode::LO => 3,
        ConditionCode::MI => 4,
        ConditionCode::PL => 5,
        ConditionCode::VS => 6,
        ConditionCode::VC => 7,
        ConditionCode::HI => 8,
        ConditionCode::LS => 9,
        ConditionCode::GE => 10,
        ConditionCode::LT => 11,
        ConditionCode::GT => 12,
        ConditionCode::LE => 13,
        ConditionCode::AL => 14,
        ConditionCode::NV => 15,
    }
}

/// The assembly mnemonic suffix of a condition.
pub open spec fn cond_name(c: ConditionCode) -> Seq<char> {
    match c {
        ConditionCode::EQ => "eq"@,
        ConditionCode::NE => "ne"@,
        ConditionCode::HS => "hs"@,
        ConditionCode::LO => "lo"@,
        ConditionCode::MI => "mi"@,
        ConditionCode::PL => "pl"@,
        ConditionCode::VS => "vs"@,
        ConditionCode::VC => "vc"@,
        ConditionCode::HI => "hi"@,
        ConditionCode::LS => "ls"@,
        ConditionCode::GE => "ge"@,
        ConditionCode::LT => "lt"@,
        ConditionCode::GT => "gt"@,
        ConditionCode::LE => "le"@,
        ConditionCode::AL => "al"@,
        ConditionCode::NV => "nv"@,
    }
}

impl ConditionCode {
    /// The 4-bit encoding of this condition.
    pub fn bits(&self) -> (b: u32)
        ensures
            b == cond_bits(*self),
            b < 16,
    {
        match self {
            ConditionCode::EQ => 0,
            ConditionCode::NE => 1,
            ConditionCode::HS => 2,
            ConditionCode::LO => 3,
            ConditionCode::MI => 4,
            ConditionCode::PL => 5,
            ConditionCode::VS => 6,
            ConditionCode::VC => 7,
            ConditionCode::HI => 8,
            ConditionCode::LS => 9,
            ConditionCode::GE => 10,
            ConditionCode::LT => 11,
            ConditionCode::GT => 12,
            ConditionCode::LE => 13,
            ConditionCode::AL => 14,
            ConditionCode::NV => 15,
        }
    }

    /// The assembly name of this condition (`eq`, `ne`, ...).
    pub fn to_string(&self) -> (s: String)
        ensures
            s@ == cond_name(*self),
    {
        match self {
            ConditionCode::EQ => "eq".to_owned(),
            ConditionCode::NE => "ne".to_owned(),
            ConditionCode::HS => "hs".to_owned(),
            ConditionCode::LO => "lo".to_owned(),
            ConditionCode::MI => "mi".to_owned(),
            ConditionCode::PL => "pl".to_owned(),
            ConditionCode::VS => "vs".to_owned(),
            ConditionCode::VC => "vc".to_owned(),
            ConditionCode::HI => "hi".to_owned(),
            ConditionCode::LS => "ls".to_owned(),
            ConditionCode::GE => "ge".to_owned(),
            ConditionCode::LT => "lt".to_owned(),
            ConditionCode::GT => "gt".to_owned(),
            ConditionCode::LE => "le".to_owned(),
            ConditionCode::AL => "al".to_owned(),
            ConditionCode::NV => "nv".to_owned(),
        }
    }
}


/// Options for formatting register names: the architecture, the operand
/// size and the register class.
#[derive(Clone, Copy, PartialEq, Eq, Debug, Hash)]
pub struct RegFormatOpts {
    /// The target architecture configuration.
    pub arch: AArch64Arch,
    /// The operand size.
    pub size: MemorySize,
    /// The register class.
    pub reg_class: RegisterClass,
}

impl RegFormatOpts {
    /// 64-bit general-purpose formatting for the given architecture.
    pub fn default_with_arch(arch: AArch64Arch) -> (r: Self)
        ensures
            r == (RegFormatOpts { arch, size: MemorySize::_64, reg_class: RegisterClass::Gpr }),
    {
        Self::default_with_arch_and_size(arch, MemorySize::default())
    }

    /// General-purpose formatting at the given size.
    pub fn default_with_arch_and_size(arch: AArch64Arch, size: MemorySize) -> (r: Self)
        ensures
            r == (RegFormatOpts { arch, size, reg_class: RegisterClass::Gpr }),
    {
        RegFormatOpts { arch, size, reg_class: RegisterClass::default() }
    }

    /// Formatting at the given size and register class.
    pub fn with_reg_class(arch: AArch64Arch, size: MemorySize, reg_class: RegisterClass) -> (r: Self)
        ensures
            r == (RegFormatOpts { arch, size, reg_class }),
    {
        RegFormatOpts { arch, size, reg_class }
    }
}

impl Default for RegFormatOpts {
    fn default() -> (r: Self)
        ensures
            r.size == MemorySize::_64,
            r.reg_class == RegisterClass::Gpr,
    {
        Self::default_with_arch(AArch64Arch::default())
    }
}

} // verus!
