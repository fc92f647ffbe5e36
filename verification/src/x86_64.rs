//! The x86-64 side of the translation shims: the architecture options and
//! condition codes they translate, and what a condition means after a
//! comparison.

use vstd::prelude::*;
use crate::common::{MemorySize, Reg};

verus! {

/// x86-64 architecture options.
#[derive(Clone, Copy, PartialEq, Eq, Debug, Hash, Structural)]
pub struct X64Arch {
    /// Advanced Performance Extensions: general-purpose registers r16-r31.
    pub apx: bool,
}

impl Default for X64Arch {
    /// Without APX.
    fn default() -> (r: Self)
        ensures
            !r.apx,
    {
        X64Arch { apx: false }
    }
}

/// x86-64 condition codes (`Jcc`, `SETcc`, `CMOVcc`).
#[derive(Clone, Copy, PartialEq, Eq, Debug, Hash, Structural)]
pub enum ConditionCode {
    /// Equal (ZF).
    E,
    /// Not equal (!ZF).
    NE,
    /// Below, unsigned less (CF).
    B,
    /// Not below (!CF).
    NB,
    /// Above, unsigned greater (!CF && !ZF).
    A,
    /// Not above (CF || ZF).
    NA,
    /// Less, signed (SF != OF).
    L,
    /// Not less (SF == OF).
    NL,
    /// Greater, signed (!ZF && SF == OF).
    G,
    /// Not greater (ZF || SF != OF).
    NG,
    /// Overflow (OF).
    O,
    /// No overflow (!OF).
    NO,
    /// Sign (SF).
    S,
    /// No sign (!SF).
    NS,
    /// Parity even (PF).
    P,
    /// Parity odd (!PF).
    NP,
}

/// The status flags after `CMP a, b` (that is, after computing `a - b`).
pub struct StatusFlags {
    /// Zero flag: the difference is zero.
    pub zf: bool,
    /// Carry flag: the subtraction borrowed (`a < b` unsigned).
    pub cf: bool,
    /// Sign flag: the difference is negative as a signed value.
    pub sf: bool,
    /// Overflow flag: the signed difference does not fit 64 bits.
    pub of: bool,
    /// Parity flag: the low byte of the difference has an even number of ones.
    pub pf: bool,
}

/// `a - b` modulo 2^64.
pub open spec fn diff(a: u64, b: u64) -> u64 {
    (if a >= b { a - b } else { a - b + 0x1_0000_0000_0000_0000 }) as u64
}

/// Number of ones in the low `n` bits of `x`.
pub open spec fn popcount(x: u64, n: nat) -> nat
    decreases n,
{
    if n == 0 {
        0
    } else {
        popcount(x / 2, (n - 1) as nat) + (x % 2) as nat
    }
}

/// The flags after `CMP a, b`.
pub open spec fn flags_after_compare(a: u64, b: u64) -> StatusFlags {
    StatusFlags {
        zf: a == b,
        cf: a < b,
        sf: diff(a, b) >= 0x8000_0000_0000_0000,
        of: !(i64::MIN <= (a as i64) - (b as i64) <= i64::MAX),
        pf: popcount(diff(a, b), 8) % 2 == 0,
    }
}

/// Whether condition `cc` holds after `CMP a, b`.
pub open spec fn x64_cond_holds(cc: ConditionCode, a: u64, b: u64) -> bool {
    let f = flags_after_compare(a, b);
    match cc {
        ConditionCode::E => f.zf,
        ConditionCode::NE => !f.zf,
        ConditionCode::B => f.cf,
        ConditionCode::NB => !f.cf,
        ConditionCode::A => !f.cf && !f.zf,
        ConditionCode::NA => f.cf || f.zf,
        ConditionCode::L => f.sf != f.of,
        ConditionCode::NL => f.sf == f.of,
        ConditionCode::G => !f.zf && f.sf == f.of,
        ConditionCode::NG => f.zf || f.sf != f.of,
        ConditionCode::O => f.of,
        ConditionCode::NO => !f.of,
        ConditionCode::S => f.sf,
        ConditionCode::NS => !f.sf,
        ConditionCode::P => f.pf,
        ConditionCode::NP => !f.pf,
    }
}

/// x86-64 register classes.
#[derive(Clone, Copy, PartialEq, Eq, Debug, Hash, Structural)]
pub enum RegisterClass {
    /// General-purpose registers.
    Gpr,
    /// SSE registers.
    Xmm,
}

/// An x86-64 operand: a register of some size, or a literal.
#[derive(Clone, Copy, PartialEq, Eq, Debug, Hash, Structural)]
pub enum ArgKind {
    /// A register with a specific size.
    Reg {
        /// The register.
        reg: Reg,
        /// The operand size.
        size: MemorySize,
    },
    /// A literal 64-bit value.
    Lit(u64),
}

/// An x86-64 direct operand or memory reference
/// (`[base + offset * scale + disp]`).
#[derive(Clone, Copy, PartialEq, Eq, Debug, Hash)]
pub enum MemArgKind {
    /// A direct operand.
    NoMem(ArgKind),
    /// A memory reference.
    Mem {
        /// The base operand.
        base: ArgKind,
        /// Optional index operand and its scale.
        offset: Option<(ArgKind, u32)>,
        /// The displacement (32 bits).
        disp: u32,
        /// Size of the memory access.
        size: MemorySize,
        /// Register class of the access.
        reg_class: RegisterClass,
    },
}

/// A shim's label: a number, unique within the shim that made it.
#[derive(Clone, Copy, PartialEq, Eq, PartialOrd, Ord, Debug, Hash, Structural)]
pub struct ShimLabel(pub usize);

} // verus!
