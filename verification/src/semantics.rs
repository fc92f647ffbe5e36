//! Semantic representation of assembly operations: arguments, memory
//! references, conditional value trees and the values instructions compute.

use vstd::prelude::*;
use crate::common::Reg;
use portal_pc_asm_common::types::ops::{Arith, Cmp};

verus! {

/// An arithmetic operation (carried through, not inspected).
#[verifier::external_type_specification]
#[verifier::external_body]
pub struct ExArith(Arith);

/// A comparison (carried through, not inspected).
#[verifier::external_type_specification]
#[verifier::external_body]
pub struct ExCmp(Cmp);

/// The kind of an argument.
#[derive(Clone, Copy, PartialEq, Eq, Hash, Debug, Structural)]
pub enum ArgKind {
    /// A fixed physical register.
    FixedReg(Reg),
    /// A stack slot.
    Slot(u8),
    /// Reference to a previous value.
    Previous(u32),
    /// A literal value.
    Lit(u64),
}

/// Bit length of an argument's bit range.
#[derive(Clone, Copy, PartialEq, Eq, PartialOrd, Ord, Hash, Debug, Structural)]
pub struct BitLength(pub u8);

/// An argument with its bit range.
#[derive(Clone, Copy, PartialEq, Eq, Hash, Debug, Structural)]
pub struct Arg<K> {
    /// The kind of argument.
    pub kind: K,
    /// Starting bit position within the value.
    pub bit_start: u8,
    /// Length of the bit range.
    pub bit_length: BitLength,
}

/// The kind of a memory argument.
#[derive(Clone, Copy, PartialEq, Eq, Hash, Debug, Structural)]
pub enum MemArgKind {
    /// A direct argument.
    Arg(ArgKind),
    /// A memory dereference.
    Deref {
        /// The base argument to dereference.
        base: Arg<ArgKind>,
    },
}

/// A memory argument (an argument of memory argument kind).
pub type MemArg = Arg<MemArgKind>;

/// A computed value.
#[derive(PartialEq, Eq)]
pub enum Val {
    /// A binary arithmetic operation.
    Bin {
        /// Left operand.
        left: Arg<ArgKind>,
        /// Arithmetic operator.
        op: Arith,
        /// Right operand.
        right: Arg<ArgKind>,
    },
    /// A jump to a target address: it always leaves the machine instruction
    /// being lowered.
    Jmp {
        /// Jump target.
        target: Arg<ArgKind>,
    },
    /// A direct value.
    Just {
        /// The value.
        value: Arg<ArgKind>,
    },
    /// A memory dereference.
    Deref {
        /// Memory address.
        mem: Arg<ArgKind>,
        /// Optional offset.
        offset: Option<Arg<ArgKind>>,
    },
    /// A backward jump within the lowered instruction's implementation, for
    /// looping instructions such as x86-64 `rep` prefixed ones.
    Rewind {
        /// Rewind target.
        target: Arg<ArgKind>,
        /// Rewind limit.
        limit: u32,
    },
}

/// A conditional value tree: either values, or a comparison choosing
/// between two subtrees.
#[derive(PartialEq, Eq)]
pub enum PredicateTree {
    /// The values, with their bit lengths.
    Just(Vec<(Val, BitLength)>),
    /// A conditional expression.
    Compare {
        /// Left operand of the comparison.
        left: Arg<ArgKind>,
        /// Comparison operator.
        op: Cmp,
        /// Right operand of the comparison.
        right: Arg<ArgKind>,
        /// Value if the comparison holds.
        if_true: PredicateBox,
        /// Value if it does not.
        if_false: PredicateBox,
    },
}

/// A boxed predicate tree.
#[derive(PartialEq, Eq)]
pub struct PredicateBox(pub Box<PredicateTree>);

impl PredicateBox {
    /// The tree in the box.
    pub fn tree(&self) -> (t: &PredicateTree)
        ensures
            *t == *self.0,
    {
        &*self.0
    }
}

/// The effect of an instruction: each memory location with the value tree
/// it receives.
#[derive(PartialEq, Eq)]
pub struct Semantic {
    /// The locations and their values.
    pub wrapped: Vec<(MemArg, PredicateTree)>,
}

impl Semantic {
    /// The locations and their values, in order.
    pub fn entries(&self) -> (e: &[(MemArg, PredicateTree)])
        ensures
            e@ == self.wrapped@,
    {
        self.wrapped.as_slice()
    }
}

} // verus!
