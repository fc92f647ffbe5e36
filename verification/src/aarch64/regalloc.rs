//! Register-allocator integration for AArch64: register kinds, the
//! instructions that carry out allocator commands, and the initial frames.

use vstd::prelude::*;
use core::convert::Infallible;
use crate::common::{MemorySize, Reg};
use crate::regalloc::{Cmd, RegAlloc, RegAllocFrame, Target};
use crate::aarch64::{AArch64Arch, RegisterClass};
use crate::aarch64::arg::{AddressingMode, ArgKind, MemArgKind};
use crate::aarch64::bin::AArch64Writer;
use crate::aarch64::encode::w_ldst;

verus! {

/// Register kind: integer (general-purpose) or floating-point/SIMD.  A
/// kind's index (`Int` 0, `Float` 1) is its frame in the allocator.
#[derive(Clone, Copy, PartialEq, Eq, PartialOrd, Ord, Hash, Debug, Structural)]
pub enum RegKind {
    /// Integer/general-purpose register.
    Int,
    /// Floating-point/SIMD register.
    Float,
}

/// The frame index of a register kind.
pub open spec fn kind_index(k: RegKind) -> usize {
    match k {
        RegKind::Int => 0,
        RegKind::Float => 1,
    }
}

impl RegKind {
    /// The kind with the given frame index: 0 is `Int`, 1 is `Float`, any
    /// other index is an error.
    pub fn try_from_index(value: usize) -> (r: Result<RegKind, ()>)
        ensures
            value == 0 ==> r == Ok::<RegKind, ()>(RegKind::Int),
            value == 1 ==> r == Ok::<RegKind, ()>(RegKind::Float),
            value > 1 ==> r == Err::<RegKind, ()>(()),
    {
        match value {
            0 => Ok(RegKind::Int),
            1 => Ok(RegKind::Float),
            _ => Err(()),
        }
    }

    /// The frame index of this kind.
    pub fn index(&self) -> (i: usize)
        ensures
            i == kind_index(*self),
    {
        match self {
            RegKind::Int => 0,
            RegKind::Float => 1,
        }
    }
}

/// The register kind of a logical register: `Float` for a float register,
/// `Int` otherwise (the index does not matter).
pub fn map_index_to_kind(idx: usize, is_float: bool) -> (k: RegKind)
    ensures
        k == (if is_float { RegKind::Float } else { RegKind::Int }),
{
    if is_float {
        RegKind::Float
    } else {
        RegKind::Int
    }
}

/// A register operand (64-bit).
pub open spec fn reg_operand(r: u8) -> MemArgKind {
    MemArgKind::NoMem(ArgKind::Reg { reg: Reg(r), size: MemorySize::_64 })
}

/// The register class of a frame index: `Simd` for floats, `Gpr` otherwise.
pub open spec fn class_of(kind: usize) -> RegisterClass {
    if kind == 1 { RegisterClass::Simd } else { RegisterClass::Gpr }
}

/// A 64-bit memory operand `[base, #disp]` with the given addressing mode.
pub open spec fn frame_slot(base: u8, disp: i32, class: RegisterClass, mode: AddressingMode) -> MemArgKind {
    MemArgKind::Mem {
        base: ArgKind::Reg { reg: Reg(base), size: MemorySize::_64 },
        offset: None,
        disp,
        size: MemorySize::_64,
        reg_class: class,
        mode,
    }
}

/// Byte displacement of local `l` below the frame pointer.
pub open spec fn local_disp(l: u32) -> i32 {
    (-((l + 1) * 8)) as i32
}

/// The instruction that carries out an allocator command:
/// a push is `STR r, [sp, #-8]!`, a pop `LDR r, [sp], #8`, and a local
/// lives at `[x29, #-(l+1)*8]`.
pub open spec fn cmd_word(cmd: Cmd) -> u32 {
    match cmd {
        Cmd::Push(t) => w_ldst(false, reg_operand(t.reg), frame_slot(31, -8i32, class_of(t.kind), AddressingMode::PreIndex)),
        Cmd::Pop(t) => w_ldst(true, reg_operand(t.reg), frame_slot(31, 8, class_of(t.kind), AddressingMode::PostIndex)),
        Cmd::GetLocal { dest, local } => w_ldst(true, reg_operand(dest.reg), frame_slot(29, local_disp(local), class_of(dest.kind), AddressingMode::Offset)),
        Cmd::SetLocal { src, local } => w_ldst(false, reg_operand(src.reg), frame_slot(29, local_disp(local), class_of(src.kind), AddressingMode::Offset)),
    }
}

/// The command's register kind is a valid `RegKind` index and its local,
/// if any, has a displacement that fits in 32 bits.
pub open spec fn cmd_in_range(cmd: Cmd) -> bool {
    match cmd {
        Cmd::Push(t) => t.kind < 2,
        Cmd::Pop(t) => t.kind < 2,
        Cmd::GetLocal { dest, local } => dest.kind < 2 && (local + 1) * 8 <= i32::MAX,
        Cmd::SetLocal { src, local } => src.kind < 2 && (local + 1) * 8 <= i32::MAX,
    }
}

fn class_exec(kind: usize) -> (c: RegisterClass)
    requires
        kind < 2,
    ensures
        c == class_of(kind),
{
    match RegKind::try_from_index(kind) {
        Ok(RegKind::Float) => RegisterClass::Simd,
        _ => RegisterClass::Gpr,
    }
}

fn slot_exec(base: u8, disp: i32, class: RegisterClass, mode: AddressingMode) -> (m: MemArgKind)
    ensures
        m == frame_slot(base, disp, class, mode),
{
    MemArgKind::Mem {
        base: ArgKind::Reg { reg: Reg(base), size: MemorySize::default() },
        offset: None,
        disp,
        size: MemorySize::_64,
        reg_class: class,
        mode,
    }
}

/// Emit the instruction that carries out one allocator command.
pub fn process_cmd<L, C>(writer: &mut AArch64Writer<L>, ctx: &mut C, arch: AArch64Arch, cmd: &Cmd) -> (r: Result<(), Infallible>)
    requires
        old(writer).wf(),
        cmd_in_range(*cmd),
    ensures
        r is Ok,
        final(writer).emitted(*old(writer), cmd_word(*cmd)),
{
    match cmd {
        Cmd::Push(target) => {
            let reg = MemArgKind::NoMem(ArgKind::Reg { reg: Reg(target.reg), size: MemorySize::default() });
            let mem = slot_exec(31, -8, class_exec(target.kind), AddressingMode::PreIndex);
            writer.str(ctx, arch, &reg, &mem)
        },
        Cmd::Pop(target) => {
            let reg = MemArgKind::NoMem(ArgKind::Reg { reg: Reg(target.reg), size: MemorySize::default() });
            let mem = slot_exec(31, 8, class_exec(target.kind), AddressingMode::PostIndex);
            writer.ldr(ctx, arch, &reg, &mem)
        },
        Cmd::GetLocal { dest, local } => {
            let reg = MemArgKind::NoMem(ArgKind::Reg { reg: Reg(dest.reg), size: MemorySize::default() });
            let disp: i32 = -((*local as i32 + 1) * 8);
            let mem = slot_exec(29, disp, class_exec(dest.kind), AddressingMode::Offset);
            writer.ldr(ctx, arch, &reg, &mem)
        },
        Cmd::SetLocal { src, local } => {
            let reg = MemArgKind::NoMem(ArgKind::Reg { reg: Reg(src.reg), size: MemorySize::default() });
            let disp: i32 = -((*local as i32 + 1) * 8);
            let mem = slot_exec(29, disp, class_exec(src.kind), AddressingMode::Offset);
            writer.str(ctx, arch, &reg, &mem)
        },
    }
}

/// The initial state of register `r` of frame `k` for AArch64 with `n`
/// registers per kind: `x29` (frame pointer), `x30` (link register) and
/// `x31` (stack pointer) are reserved; every other register is free.
pub open spec fn initial_slot(k: int, r: int) -> RegAllocFrame {
    if k == 0 && 29 <= r <= 31 { RegAllocFrame::Reserved } else { RegAllocFrame::Empty }
}

/// An allocator with an integer and a float frame of `N` registers each,
/// with the registers reserved by the calling convention marked so.
pub fn init_regalloc<const N: usize>(arch: AArch64Arch) -> (ra: RegAlloc)
    requires
        N <= 256,
    ensures
        ra.wf(),
        ra.stack() == Seq::<Target>::empty(),
        ra.kinds() == 2,
        ra.regs() == N,
        forall|k: int, r: int| 0 <= k < 2 && 0 <= r < N ==> #[trigger] ra.slot(k, r) == initial_slot(k, r),
{
    let mut int_frame: Vec<RegAllocFrame> = Vec::new();
    let mut float_frame: Vec<RegAllocFrame> = Vec::new();
    let mut i: usize = 0;
    while i < N
        invariant
            i <= N,
            int_frame@.len() == i,
            float_frame@.len() == i,
            forall|r: int| 0 <= r < i ==> #[trigger] int_frame@[r] == initial_slot(0, r),
            forall|r: int| 0 <= r < i ==> #[trigger] float_frame@[r] == initial_slot(1, r),
        decreases N - i,
    {
        if 29 <= i && i <= 31 {
            int_frame.push(RegAllocFrame::Reserved);
        } else {
            int_frame.push(RegAllocFrame::Empty);
        }
        float_frame.push(RegAllocFrame::Empty);
        i = i + 1;
    }
    let mut frames: Vec<Vec<RegAllocFrame>> = Vec::new();
    frames.push(int_frame);
    frames.push(float_frame);
    let ghost f = frames@;
    assert(f[0]@.len() == N && f[1]@.len() == N);
    let ra = RegAlloc::new(frames);
    proof {
        assert forall|k: int, r: int| 0 <= k < 2 && 0 <= r < N implies #[trigger] ra.slot(k, r) == initial_slot(k, r) by {
            assert(ra.table()[k] == f[k]@);
        }
        assert(ra.table()[0] == f[0]@);
    }
    ra
}

} // verus!
