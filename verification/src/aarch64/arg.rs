//! Operand types: registers, literals and memory references.

use vstd::prelude::*;
use crate::common::{MemorySize, Reg};
use crate::aarch64::RegisterClass;

verus! {

/// A concrete operand: a register of some size, or a literal.
#[derive(Clone, Copy, PartialEq, Eq, Debug, Hash, Structural)]
pub enum ArgKind {
    /// A register with a specific size.
    Reg {
        /// The register.
        reg: Reg,
        /// The operand size.
        size: MemorySize,
    },
    /// A literal 64-bit value.
    Lit(u64),
}

/// How a memory reference updates its base register.
#[derive(Clone, Copy, PartialEq, Eq, Debug, Hash, Structural)]
pub enum AddressingMode {
    /// `[base, #disp]`: the base is not updated.
    Offset,
    /// `[base, #disp]!`: the base is updated before the access.
    PreIndex,
    /// `[base], #disp`: the base is updated after the access.
    PostIndex,
}

/// A direct operand or a memory reference.
#[derive(Clone, Copy, PartialEq, Eq, Debug, Hash)]
pub enum MemArgKind {
    /// A direct operand (not a memory reference).
    NoMem(ArgKind),
    /// A memory reference.
    Mem {
        /// The base operand.
        base: ArgKind,
        /// Optional scaled index (operand, scale factor).
        offset: Option<(ArgKind, u32)>,
        /// Displacement added to the address.
        disp: i32,
        /// Size of the memory access.
        size: MemorySize,
        /// Register class for the memory access.
        reg_class: RegisterClass,
        /// Addressing mode.
        mode: AddressingMode,
    },
}


/// The registers an operand names: none for a literal, the register for a
/// register operand.
pub open spec fn arg_regs(a: ArgKind) -> Seq<Reg> {
    match a {
        ArgKind::Reg { reg, .. } => seq![reg],
        ArgKind::Lit(_) => Seq::empty(),
    }
}

/// The registers an operand or memory reference names: the base's, then
/// the index's.
pub open spec fn mem_regs_spec(m: MemArgKind) -> Seq<Reg> {
    match m {
        MemArgKind::NoMem(a) => arg_regs(a),
        MemArgKind::Mem { base, offset, .. } => arg_regs(base) + match offset {
            Some((o, _)) => arg_regs(o),
            None => Seq::empty(),
        },
    }
}

impl ArgKind {
    /// The registers this operand names (see [`arg_regs`]).
    pub fn regs(&self) -> (v: Vec<Reg>)
        ensures
            v@ == arg_regs(*self),
    {
        let mut v: Vec<Reg> = Vec::new();
        match self {
            ArgKind::Reg { reg, .. } => {
                v.push(*reg);
                assert(v@ =~= seq![*reg]);
            },
            ArgKind::Lit(_) => {
                assert(v@ =~= Seq::<Reg>::empty());
            },
        }
        v
    }
}

impl MemArgKind {
    /// The registers this operand names (see [`mem_regs_spec`]).
    pub fn mem_regs(&self) -> (v: Vec<Reg>)
        ensures
            v@ == mem_regs_spec(*self),
    {
        match self {
            MemArgKind::NoMem(a) => a.regs(),
            MemArgKind::Mem { base, offset, .. } => {
                let mut v = base.regs();
                match offset {
                    Some((o, _)) => {
                        let mut w = o.regs();
                        let ghost v0 = v@;
                        v.append(&mut w);
                        assert(v@ =~= v0 + arg_regs(*o));
                    },
                    None => {
                        assert(v@ =~= v@ + Seq::<Reg>::empty());
                    },
                }
                v
            },
        }
    }
}

} // verus!
