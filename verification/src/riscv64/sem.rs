//! A register-level model of the integer instructions that load constants
//! and compute addresses (`ADDI`, `SLLI`, `LUI`, `ADD`, `SUB`, `SLL`), used
//! to state what instruction sequences compute.

use vstd::prelude::*;
use vstd::arithmetic::power2::pow2;
use crate::riscv64::encode::{AluOp, LoadOp, RvInst, StoreOp};
use crate::riscv64::li::{law_li_loads_value, li_run, li_seq, li_step, lui_value, only_rd, to_reg};

verus! {

/// The value register `r` reads: `x0` reads zero.
pub open spec fn rd(regs: spec_fn(u8) -> u64, r: u8) -> u64 {
    if r == 0 { 0 } else { regs(r) }
}

/// The register file with `r` set to `v`.
pub open spec fn set(regs: spec_fn(u8) -> u64, r: u8, v: u64) -> spec_fn(u8) -> u64 {
    |x: u8| if x == r { v } else { regs(x) }
}

/// The instruction is one the model covers.
pub open spec fn modeled(i: RvInst) -> bool {
    match i {
        RvInst::Addi { .. } | RvInst::Slli { .. } | RvInst::Lui { .. } => true,
        RvInst::Op { op, .. } => op is Add || op is Sub || op is Sll,
        _ => false,
    }
}

/// The register file after one instruction: results are taken modulo
/// 2^64; a shift by register uses the low six bits of the amount.
/// Instructions the model does not cover leave it unchanged.
pub open spec fn step(regs: spec_fn(u8) -> u64, i: RvInst) -> spec_fn(u8) -> u64 {
    match i {
        RvInst::Addi { dest, src1, imm } => set(regs, dest, to_reg(rd(regs, src1) + imm)),
        RvInst::Slli { dest, src1, imm } => if 0 <= imm {
            set(regs, dest, to_reg(rd(regs, src1) * pow2(imm as nat)))
        } else {
            regs
        },
        RvInst::Lui { dest, uimm } => set(regs, dest, to_reg(lui_value(uimm))),
        RvInst::Op { op, dest, src1, src2 } => match op {
            AluOp::Add => set(regs, dest, to_reg(rd(regs, src1) + rd(regs, src2))),
            AluOp::Sub => set(regs, dest, to_reg(rd(regs, src1) - rd(regs, src2))),
            AluOp::Sll => set(regs, dest, to_reg(rd(regs, src1) * pow2((rd(regs, src2) % 64) as nat))),
            _ => regs,
        },
        _ => regs,
    }
}

/// The register file after `insts` run in order.
pub open spec fn run(regs: spec_fn(u8) -> u64, insts: Seq<RvInst>) -> spec_fn(u8) -> u64
    decreases insts.len(),
{
    if insts.len() == 0 {
        regs
    } else {
        run(step(regs, insts[0]), insts.drop_first())
    }
}

/// Running two sequences in a row runs their concatenation.
pub proof fn lemma_run_concat(regs: spec_fn(u8) -> u64, a: Seq<RvInst>, b: Seq<RvInst>)
    ensures
        run(regs, a + b) == run(run(regs, a), b),
    decreases a.len(),
{
    if a.len() > 0 {
        assert((a + b).drop_first() =~= a.drop_first() + b);
        assert((a + b)[0] == a[0]);
        lemma_run_concat(step(regs, a[0]), a.drop_first(), b);
    } else {
        assert(a + b =~= b);
    }
}

/// Running one instruction.
pub proof fn lemma_run_one(regs: spec_fn(u8) -> u64, i: RvInst)
    ensures
        run(regs, seq![i]) == step(regs, i),
{
    assert(seq![i].drop_first() =~= Seq::<RvInst>::empty());
    reveal_with_fuel(run, 2);
}

proof fn lemma_run_only_rd(regs: spec_fn(u8) -> u64, t: u8, insts: Seq<RvInst>)
    requires
        t != 0,
        forall|i: int| 0 <= i < insts.len() ==> only_rd(t, #[trigger] insts[i]),
    ensures
        forall|x: u8| #[trigger] run(regs, insts)(x) == if x == t { li_run(t, insts, regs(t)) } else { regs(x) },
    decreases insts.len(),
{
    if insts.len() > 0 {
        let i0 = insts[0];
        assert(only_rd(t, i0));
        let r1 = step(regs, i0);
        assert forall|x: u8| #[trigger] r1(x) == if x == t { li_step(t, regs(t), i0) } else { regs(x) } by {}
        assert forall|i: int| 0 <= i < insts.drop_first().len() implies only_rd(t, #[trigger] insts.drop_first()[i]) by {
            assert(insts.drop_first()[i] == insts[i + 1]);
        }
        lemma_run_only_rd(r1, t, insts.drop_first());
        assert(run(regs, insts) == run(r1, insts.drop_first()));
        assert(li_run(t, insts, regs(t)) == li_run(t, insts.drop_first(), li_step(t, regs(t), i0)));
        assert forall|x: u8| #[trigger] run(regs, insts)(x) == if x == t { li_run(t, insts, regs(t)) } else { regs(x) } by {
            assert(run(r1, insts.drop_first())(x) == if x == t { li_run(t, insts.drop_first(), r1(t)) } else { r1(x) });
        }
    }
}

/// `LI t, v` sets `t` to `v` and leaves every other register unchanged.
pub proof fn lemma_run_li(regs: spec_fn(u8) -> u64, t: u8, v: u64)
    requires
        t != 0,
    ensures
        forall|x: u8| #[trigger] run(regs, li_seq(t, v))(x) == if x == t { v } else { regs(x) },
        forall|i: int| 0 <= i < li_seq(t, v).len() ==> modeled(#[trigger] li_seq(t, v)[i]),
{
    law_li_loads_value(t, v, regs(t));
    lemma_run_only_rd(regs, t, li_seq(t, v));
    assert forall|i: int| 0 <= i < li_seq(t, v).len() implies modeled(#[trigger] li_seq(t, v)[i]) by {
        assert(only_rd(t, li_seq(t, v)[i]));
    }
}

/// A machine state: the register file and memory, as 64-bit words by
/// address.
pub struct Machine {
    pub regs: spec_fn(u8) -> u64,
    pub mem: spec_fn(u64) -> u64,
}

/// The address `offset(base)`.
pub open spec fn addr_of(regs: spec_fn(u8) -> u64, base: u8, offset: i32) -> u64 {
    to_reg(rd(regs, base) + offset)
}

/// The machine after one instruction: `SD` writes the source register's
/// value at its address, `LD` reads the word there into its destination;
/// the register-file model covers the rest.
pub open spec fn mstep(m: Machine, i: RvInst) -> Machine {
    match i {
        RvInst::Store { op: StoreOp::Sd, src, base, offset } => {
            let a = addr_of(m.regs, base, offset);
            let v = rd(m.regs, src);
            Machine { regs: m.regs, mem: |x: u64| if x == a { v } else { (m.mem)(x) } }
        },
        RvInst::Load { op: LoadOp::Ld, dest, base, offset } => Machine {
            regs: set(m.regs, dest, (m.mem)(addr_of(m.regs, base, offset))),
            mem: m.mem,
        },
        _ => Machine { regs: step(m.regs, i), mem: m.mem },
    }
}

/// The machine after `insts` run in order.
pub open spec fn mrun(m: Machine, insts: Seq<RvInst>) -> Machine
    decreases insts.len(),
{
    if insts.len() == 0 {
        m
    } else {
        mrun(mstep(m, insts[0]), insts.drop_first())
    }
}

} // verus!
