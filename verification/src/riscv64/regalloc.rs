//! Register-allocator integration for RISC-V 64: register kinds, the
//! instructions that carry out allocator commands, and the initial frames.

use vstd::prelude::*;
use core::convert::Infallible;
use crate::common::{MemorySize, Reg};
use crate::regalloc::{Cmd, RegAlloc, RegAllocFrame, Target};
use crate::riscv64::{RegisterClass, RiscV64Arch};
use crate::riscv64::arg::{ArgKind, MemArgKind};
use crate::riscv64::bin::{insts_bytes, lemma_insts_bytes_push, RvAsmWriter};
use crate::riscv64::encode::{LoadOp, RvInst, StoreOp};
use crate::riscv64::li::to_reg;
use crate::riscv64::sem::{mrun, mstep, rd, addr_of, Machine};

verus! {

/// Register kind: integer (general-purpose) or floating-point.  A kind's
/// index (`Int` 0, `Float` 1) is its frame in the allocator.
#[derive(Clone, Copy, PartialEq, Eq, PartialOrd, Ord, Hash, Debug, Structural)]
pub enum RegKind {
    /// Integer/general-purpose register.
    Int,
    /// Floating-point register.
    Float,
}

/// The frame index of a register kind.
pub open spec fn kind_index(k: RegKind) -> usize {
    match k {
        RegKind::Int => 0,
        RegKind::Float => 1,
    }
}

impl RegKind {
    /// The kind with the given frame index: 0 is `Int`, 1 is `Float`, any
    /// other index is an error.
    pub fn try_from_index(value: usize) -> (r: Result<RegKind, ()>)
        ensures
            value == 0 ==> r == Ok::<RegKind, ()>(RegKind::Int),
            value == 1 ==> r == Ok::<RegKind, ()>(RegKind::Float),
            value > 1 ==> r == Err::<RegKind, ()>(()),
    {
        match value {
            0 => Ok(RegKind::Int),
            1 => Ok(RegKind::Float),
            _ => Err(()),
        }
    }

    /// The frame index of this kind.
    pub fn index(&self) -> (i: usize)
        ensures
            i == kind_index(*self),
    {
        match self {
            RegKind::Int => 0,
            RegKind::Float => 1,
        }
    }
}

/// The register kind of a logical register: `Float` for a float register,
/// `Int` otherwise (the index does not matter).
pub fn map_index_to_kind(_idx: usize, is_float: bool) -> (k: RegKind)
    ensures
        k == (if is_float { RegKind::Float } else { RegKind::Int }),
{
    if is_float {
        RegKind::Float
    } else {
        RegKind::Int
    }
}

/// Byte displacement of local `l` below the frame pointer.
pub open spec fn local_disp(l: u32) -> i32 {
    (-((l + 1) * 8)) as i32
}

/// The instructions that carry out an allocator command with the stack
/// pointer `sp` (`x2`) and frame pointer `s0` (`x8`): a push is
/// `ADDI sp, sp, -8; SD r, 0(sp)`, a pop `LD r, 0(sp); ADDI sp, sp, 8`,
/// and local `l` lives at `-(l+1)*8(s0)`.
pub open spec fn cmd_insts(cmd: Cmd) -> Seq<RvInst> {
    match cmd {
        Cmd::Push(t) => seq![
            RvInst::Addi { dest: 2, src1: 2, imm: -8i32 },
            RvInst::Store { op: StoreOp::Sd, src: t.reg, base: 2, offset: 0 },
        ],
        Cmd::Pop(t) => seq![
            RvInst::Load { op: LoadOp::Ld, dest: t.reg, base: 2, offset: 0 },
            RvInst::Addi { dest: 2, src1: 2, imm: 8 },
        ],
        Cmd::GetLocal { dest, local } => seq![
            RvInst::Load { op: LoadOp::Ld, dest: dest.reg, base: 8, offset: local_disp(local) },
        ],
        Cmd::SetLocal { src, local } => seq![
            RvInst::Store { op: StoreOp::Sd, src: src.reg, base: 8, offset: local_disp(local) },
        ],
    }
}

/// The command moves an integer register (this writer has no
/// floating-point loads and stores) and its local, if any, has a
/// displacement that fits in 32 bits.
pub open spec fn cmd_in_range(cmd: Cmd) -> bool {
    match cmd {
        Cmd::Push(t) => t.kind == 0,
        Cmd::Pop(t) => t.kind == 0,
        Cmd::GetLocal { dest, local } => dest.kind == 0 && (local + 1) * 8 <= i32::MAX,
        Cmd::SetLocal { src, local } => src.kind == 0 && (local + 1) * 8 <= i32::MAX,
    }
}

fn reg_arg(r: u8) -> (a: MemArgKind)
    ensures
        a == MemArgKind::NoMem(ArgKind::Reg { reg: Reg(r), size: MemorySize::_64 }),
{
    MemArgKind::NoMem(ArgKind::Reg { reg: Reg(r), size: MemorySize::default() })
}

fn slot(base: u8, disp: i32) -> (m: MemArgKind)
    ensures
        m == (MemArgKind::Mem {
            base: ArgKind::Reg { reg: Reg(base), size: MemorySize::_64 },
            offset: None,
            disp,
            size: MemorySize::_64,
            reg_class: RegisterClass::Gpr,
        }),
{
    MemArgKind::Mem {
        base: ArgKind::Reg { reg: Reg(base), size: MemorySize::default() },
        offset: None,
        disp,
        size: MemorySize::_64,
        reg_class: RegisterClass::Gpr,
    }
}

/// Emit the instructions that carry out one allocator command.
pub fn process_cmd<L, C>(writer: &mut RvAsmWriter<L>, ctx: &mut C, arch: RiscV64Arch, cmd: &Cmd) -> (r: Result<(), Infallible>)
    requires
        old(writer).wf(),
        cmd_in_range(*cmd),
    ensures
        r is Ok,
        final(writer).emitted_all(*old(writer), cmd_insts(*cmd)),
{
    let sp = reg_arg(2);
    let ghost w0 = *writer;
    match cmd {
        Cmd::Push(target) => {
            let reg = reg_arg(target.reg);
            let _ = writer.addi(ctx, arch, &sp, &sp, -8);
            let _ = writer.sd(ctx, arch, &reg, &slot(2, 0));
            proof {
                let c = cmd_insts(*cmd);
                lemma_insts_bytes_push(seq![c[0]], c[1]);
                lemma_insts_bytes_push(Seq::empty(), c[0]);
                assert(seq![c[0]].push(c[1]) =~= c);
                assert(writer.bytes() =~= w0.bytes() + insts_bytes(c));
            }
            Ok(())
        },
        Cmd::Pop(target) => {
            let reg = reg_arg(target.reg);
            let _ = writer.ld(ctx, arch, &reg, &slot(2, 0));
            let _ = writer.addi(ctx, arch, &sp, &sp, 8);
            proof {
                let c = cmd_insts(*cmd);
                lemma_insts_bytes_push(seq![c[0]], c[1]);
                lemma_insts_bytes_push(Seq::empty(), c[0]);
                assert(seq![c[0]].push(c[1]) =~= c);
                assert(writer.bytes() =~= w0.bytes() + insts_bytes(c));
            }
            Ok(())
        },
        Cmd::GetLocal { dest, local } => {
            let reg = reg_arg(dest.reg);
            let disp: i32 = -((*local as i32 + 1) * 8);
            writer.ld(ctx, arch, &reg, &slot(8, disp))
        },
        Cmd::SetLocal { src, local } => {
            let reg = reg_arg(src.reg);
            let disp: i32 = -((*local as i32 + 1) * 8);
            writer.sd(ctx, arch, &reg, &slot(8, disp))
        },
    }
}

/// The initial state of register `r` of frame `k`: `zero`, `ra`, `sp`,
/// `gp`, `tp` (`x0`-`x4`) and the frame pointer `s0` (`x8`) are reserved;
/// every other register is free.
pub open spec fn initial_slot(k: int, r: int) -> RegAllocFrame {
    if k == 0 && (0 <= r <= 4 || r == 8) { RegAllocFrame::Reserved } else { RegAllocFrame::Empty }
}

/// An allocator with an integer and a float frame of `N` registers each,
/// with the registers reserved by the calling convention marked so.
pub fn init_regalloc<const N: usize>(_arch: RiscV64Arch) -> (ra: RegAlloc)
    requires
        N <= 256,
    ensures
        ra.wf(),
        ra.stack() == Seq::<Target>::empty(),
        ra.kinds() == 2,
        ra.regs() == N,
        forall|k: int, r: int| 0 <= k < 2 && 0 <= r < N ==> #[trigger] ra.slot(k, r) == initial_slot(k, r),
{
    let mut int_frame: Vec<RegAllocFrame> = Vec::new();
    let mut float_frame: Vec<RegAllocFrame> = Vec::new();
    let mut i: usize = 0;
    while i < N
        invariant
            i <= N,
            int_frame@.len() == i,
            float_frame@.len() == i,
            forall|r: int| 0 <= r < i ==> #[trigger] int_frame@[r] == initial_slot(0, r),
            forall|r: int| 0 <= r < i ==> #[trigger] float_frame@[r] == initial_slot(1, r),
        decreases N - i,
    {
        if i <= 4 || i == 8 {
            int_frame.push(RegAllocFrame::Reserved);
        } else {
            int_frame.push(RegAllocFrame::Empty);
        }
        float_frame.push(RegAllocFrame::Empty);
        i = i + 1;
    }
    let mut frames: Vec<Vec<RegAllocFrame>> = Vec::new();
    frames.push(int_frame);
    frames.push(float_frame);
    let ghost f = frames@;
    assert(f[0]@.len() == N && f[1]@.len() == N);
    let ra = RegAlloc::new(frames);
    proof {
        assert forall|k: int, r: int| 0 <= k < 2 && 0 <= r < N implies #[trigger] ra.slot(k, r) == initial_slot(k, r) by {
            assert(ra.table()[k] == f[k]@);
        }
        assert(ra.table()[0] == f[0]@);
    }
    ra
}

/// Pushing a register to the native stack and popping it back into the
/// same register restores every register, `sp` included, and changes no
/// memory but the word just below `sp`.
pub proof fn law_push_then_pop_restores(m: Machine, t: Target)
    ensures
        ({
            let after = mrun(m, cmd_insts(Cmd::Push(t)) + cmd_insts(Cmd::Pop(t)));
            let slot = to_reg(rd(m.regs, 2) - 8);
            &&& forall|x: u8| #[trigger] rd(after.regs, x) == rd(m.regs, x)
            &&& forall|a: u64| a != slot ==> #[trigger] (after.mem)(a) == (m.mem)(a)
        }),
{
    let insts = cmd_insts(Cmd::Push(t)) + cmd_insts(Cmd::Pop(t));
    reveal_with_fuel(mrun, 5);
    let sp = rd(m.regs, 2);
    let md: int = 0x1_0000_0000_0000_0000;
    let s1 = to_reg(sp - 8);
    vstd::arithmetic::div_mod::lemma_add_mod_noop(sp - 8, 8, md);
    vstd::arithmetic::div_mod::lemma_small_mod(sp as nat, md as nat);
    vstd::arithmetic::div_mod::lemma_small_mod(8nat, md as nat);
    assert(to_reg(s1 + 8) == sp);
    vstd::arithmetic::div_mod::lemma_add_mod_noop(s1 as int, 0, md);
    vstd::arithmetic::div_mod::lemma_small_mod(s1 as nat, md as nat);
    assert(to_reg(s1 + 0) == s1);
    let i0 = insts[0];
    let i1 = insts[1];
    let i2 = insts[2];
    let i3 = insts[3];
    let m1 = mstep(m, i0);
    let m2 = mstep(m1, i1);
    let m3 = mstep(m2, i2);
    let m4 = mstep(m3, i3);
    assert(insts.drop_first().drop_first().drop_first().drop_first() =~= Seq::<RvInst>::empty());
    assert(mrun(m, insts) == m4);
    assert(rd(m1.regs, 2) == s1);
    assert(addr_of(m1.regs, 2, 0) == s1);
    assert((m2.mem)(s1) == rd(m1.regs, t.reg));
    assert(rd(m2.regs, 2) == s1);
    assert(forall|x: u8| #[trigger] rd(m3.regs, x) == rd(m1.regs, x));
    assert forall|x: u8| #[trigger] rd(m4.regs, x) == rd(m.regs, x) by {
        if x == 2 {
            assert(rd(m3.regs, 2) == s1);
        }
    }
}

} // verus!
