//! RISC-V 64 (RV64) target: configuration, condition codes, operands, a
//! binary encoder, register-allocator integration and the x86-64 shim's
//! translation rules.

use vstd::prelude::*;
use crate::common::MemorySize;

pub mod arg;
pub mod encode;
pub mod bin;
pub mod regalloc;
pub mod shim;
pub mod reg;
pub mod decode;
pub mod li;
pub mod desugar;
pub mod sem;

verus! {

/// Register class for display formatting: general-purpose or floating-point.
#[derive(Clone, Copy, PartialEq, Eq, PartialOrd, Ord, Hash, Debug, Structural)]
pub enum RegisterClass {
    /// General-purpose register (x0-x31).
    Gpr,
    /// Floating-point register (f0-f31).
    Fp,
}

impl Default for RegisterClass {
    fn default() -> (r: Self)
        ensures
            r == RegisterClass::Gpr,
    {
        RegisterClass::Gpr
    }
}

/// RISC-V 64 architecture configuration: which extensions are available.
#[derive(Clone, Copy, PartialEq, Eq, PartialOrd, Ord, Hash, Debug, Structural)]
pub struct RiscV64Arch {
    /// M: integer multiplication and division.
    pub m_extension: bool,
    /// A: atomic operations.
    pub a_extension: bool,
    /// F: single-precision floating point.
    pub f_extension: bool,
    /// D: double-precision floating point.
    pub d_extension: bool,
    /// C: compressed instructions.
    pub c_extension: bool,
}

impl Default for RiscV64Arch {
    /// The base integer ISA only: no extension.
    fn default() -> (r: Self)
        ensures
            !r.m_extension && !r.a_extension && !r.f_extension && !r.d_extension && !r.c_extension,
    {
        RiscV64Arch {
            m_extension: false,
            a_extension: false,
            f_extension: false,
            d_extension: false,
            c_extension: false,
        }
    }
}

impl RiscV64Arch {
    /// RV64IMFD: the M, F and D extensions.
    pub open spec fn spec_rv64imfd() -> Self {
        RiscV64Arch {
            m_extension: true,
            a_extension: false,
            f_extension: true,
            d_extension: true,
            c_extension: false,
        }
    }

    /// RV64IMFD: the M, F and D extensions.
    pub fn rv64imfd() -> (r: Self)
        ensures
            r == Self::spec_rv64imfd(),
            r.m_extension && !r.a_extension && r.f_extension && r.d_extension && !r.c_extension,
    {
        RiscV64Arch {
            m_extension: true,
            a_extension: false,
            f_extension: true,
            d_extension: true,
            c_extension: false,
        }
    }

    /// RV64GC: IMAFD and the C extension.
    pub fn rv64gc() -> (r: Self)
        ensures
            r.m_extension && r.a_extension && r.f_extension && r.d_extension && r.c_extension,
    {
        RiscV64Arch {
            m_extension: true,
            a_extension: true,
            f_extension: true,
            d_extension: true,
            c_extension: true,
        }
    }
}

/// Display options: architecture and register class.
#[derive(Clone, Copy, PartialEq, Eq, PartialOrd, Ord, Hash, Debug, Structural)]
pub struct DisplayOpts {
    /// The target architecture configuration.
    pub arch: RiscV64Arch,
    /// The register class for display.
    pub reg_class: RegisterClass,
}

impl DisplayOpts {
    /// Display options with the given architecture and the general-purpose class.
    pub fn new(arch: RiscV64Arch) -> (r: Self)
        ensures
            r.arch == arch,
            r.reg_class == RegisterClass::Gpr,
    {
        DisplayOpts { arch, reg_class: RegisterClass::Gpr }
    }

    /// Display options with the given architecture and register class.
    pub fn with_reg_class(arch: RiscV64Arch, reg_class: RegisterClass) -> (r: Self)
        ensures
            r.arch == arch,
            r.reg_class == reg_class,
    {
        DisplayOpts { arch, reg_class }
    }
}

impl Default for DisplayOpts {
    fn default() -> (r: Self)
        ensures
            r.reg_class == RegisterClass::Gpr,
            !r.arch.m_extension && !r.arch.a_extension && !r.arch.f_extension
                && !r.arch.d_extension && !r.arch.c_extension,
    {
        DisplayOpts::new(RiscV64Arch::default())
    }
}

/// RISC-V branch conditions.  The first six are branch instructions; the
/// last four are pseudo-instructions for the reversed comparisons.
#[derive(Clone, Copy, PartialEq, Eq, PartialOrd, Ord, Hash, Debug, Structural)]
pub enum ConditionCode {
    /// Equal (`BEQ`).
    EQ,
    /// Not equal (`BNE`).
    NE,
    /// Less than, signed (`BLT`).
    LT,
    /// Greater than or equal, signed (`BGE`).
    GE,
    /// Less than, unsigned (`BLTU`).
    LTU,
    /// Greater than or equal, unsigned (`BGEU`).
    GEU,
    /// Greater than, signed (`BGT`).
    GT,
    /// Less than or equal, signed (`BLE`).
    LE,
    /// Greater than, unsigned (`BGTU`).
    GTU,
    /// Less than or equal, unsigned (`BLEU`).
    LEU,
}

/// The mnemonic suffix of a condition.
pub open spec fn cond_name(c: ConditionCode) -> Seq<char> {
    match c {
        ConditionCode::EQ => "eq"@,
        ConditionCode::NE => "ne"@,
        ConditionCode::LT => "lt"@,
        ConditionCode::GE => "ge"@,
        ConditionCode::LTU => "ltu"@,
        ConditionCode::GEU => "geu"@,
        ConditionCode::GT => "gt"@,
        ConditionCode::LE => "le"@,
        ConditionCode::GTU => "gtu"@,
        ConditionCode::LEU => "leu"@,
    }
}

/// Whether a branch under condition `c` is taken for operands `a` and `b`
/// (64-bit register values).
pub open spec fn cond_holds(c: ConditionCode, a: u64, b: u64) -> bool {
    match c {
        ConditionCode::EQ => a == b,
        ConditionCode::NE => a != b,
        ConditionCode::LT => (a as i64) < (b as i64),
        ConditionCode::GE => (a as i64) >= (b as i64),
        ConditionCode::LTU => a < b,
        ConditionCode::GEU => a >= b,
        ConditionCode::GT => (a as i64) > (b as i64),
        ConditionCode::LE => (a as i64) <= (b as i64),
        ConditionCode::GTU => a > b,
        ConditionCode::LEU => a <= b,
    }
}

impl ConditionCode {
    /// The mnemonic suffix of this condition (`eq`, `ne`, `lt`, ...).
    pub fn to_string(&self) -> (s: String)
        ensures
            s@ == cond_name(*self),
    {
        match self {
            ConditionCode::EQ => "eq".to_owned(),
            ConditionCode::NE => "ne".to_owned(),
            ConditionCode::LT => "lt".to_owned(),
            ConditionCode::GE => "ge".to_owned(),
            ConditionCode::LTU => "ltu".to_owned(),
            ConditionCode::GEU => "geu".to_owned(),
            ConditionCode::GT => "gt".to_owned(),
            ConditionCode::LE => "le".to_owned(),
            ConditionCode::GTU => "gtu".to_owned(),
            ConditionCode::LEU => "leu".to_owned(),
        }
    }
}


/// Options for formatting register names: the architecture, the operand
/// size and the register class.
#[derive(Clone, Copy, PartialEq, Eq, Debug, Hash)]
pub struct RegFormatOpts {
    /// The target architecture configuration.
    pub arch: RiscV64Arch,
    /// The operand size.
    pub size: MemorySize,
    /// The register class.
    pub reg_class: RegisterClass,
}

impl RegFormatOpts {
    /// 64-bit general-purpose formatting for the given architecture.
    pub fn default_with_arch(arch: RiscV64Arch) -> (r: Self)
        ensures
            r == (RegFormatOpts { arch, size: MemorySize::_64, reg_class: RegisterClass::Gpr }),
    {
        Self::default_with_arch_and_size(arch, MemorySize::default())
    }

    /// General-purpose formatting at the given size.
    pub fn default_with_arch_and_size(arch: RiscV64Arch, size: MemorySize) -> (r: Self)
        ensures
            r == (RegFormatOpts { arch, size, reg_class: RegisterClass::Gpr }),
    {
        RegFormatOpts { arch, size, reg_class: RegisterClass::default() }
    }

    /// Formatting at the given size and register class.
    pub fn with_reg_class(arch: RiscV64Arch, size: MemorySize, reg_class: RegisterClass) -> (r: Self)
        ensures
            r == (RegFormatOpts { arch, size, reg_class }),
    {
        RegFormatOpts { arch, size, reg_class }
    }
}

impl Default for RegFormatOpts {
    fn default() -> (r: Self)
        ensures
            r.size == MemorySize::_64,
            r.reg_class == RegisterClass::Gpr,
    {
        Self::default_with_arch(RiscV64Arch::default())
    }
}

} // verus!
