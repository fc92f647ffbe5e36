//! Rules of the x86-64 to RISC-V 64 translation shim: how x86-64
//! registers and conditions map to RISC-V ones, and the shim's own label
//! numbering.

use vstd::prelude::*;
use core::convert::Infallible;
use crate::common::{MemorySize, Reg};
use crate::riscv64::{ConditionCode, RiscV64Arch, RegisterClass, cond_holds};
use crate::riscv64::arg::{ArgKind, MemArgKind};
use crate::riscv64::bin::{RvAsmWriter, RvFixupKind, lemma_insts_bytes_concat, resolvable};
use crate::aarch64::bin::lawful_label;
use crate::riscv64::encode::{base_offset, branch_taken, lit_imm, reg_of, AluOp, BranchOp, LoadOp, RvInst, StoreOp};
use crate::riscv64::li::{li_seq};
use crate::x86_64::{
    ArgKind as X64ArgKind, MemArgKind as X64MemArgKind, RegisterClass as X64RegisterClass,
};
use crate::x86_64::{ConditionCode as X64ConditionCode, ShimLabel, X64Arch, x64_cond_holds};

verus! {

/// The RISC-V register that holds x86-64 register `r`:
/// `rax, rcx, rdx` → `a0, a1, a2`; `rbx` → `s2`; `rsp` → `sp`; `rbp` → `s0`;
/// `rsi, rdi` → `a3, a4`; `r8-r10` → `a5-a7`; `r11-r13` → `t0-t2`;
/// `r14, r15` → `t3, t4`; with APX, `r16` and up → `x20-x31` (cyclically);
/// any other register number is kept.
pub open spec fn riscv_reg_for(r: u8, apx: bool) -> u8 {
    if apx && r >= 16 {
        (20 + (r - 16) % 12) as u8
    } else if r == 0 { 10 }
    else if r == 1 { 11 }
    else if r == 2 { 12 }
    else if r == 3 { 18 }
    else if r == 4 { 2 }
    else if r == 5 { 8 }
    else if r == 6 { 13 }
    else if r == 7 { 14 }
    else if r == 8 { 15 }
    else if r == 9 { 16 }
    else if r == 10 { 17 }
    else if r == 11 { 5 }
    else if r == 12 { 6 }
    else if r == 13 { 7 }
    else if r == 14 { 28 }
    else if r == 15 { 29 }
    else { r }
}

/// Maps an x86-64 register to the RISC-V register that stands for it.
pub fn map_x64_register_to_riscv(reg: Reg, arch: X64Arch) -> (r: Reg)
    ensures
        r.0 == riscv_reg_for(reg.0, arch.apx),
{
    if arch.apx {
        let r = reg.0;
        if r >= 16 {
            return Reg(20 + ((r - 16) % 12));
        }
    }
    match reg.0 {
        0 => Reg(10),
        1 => Reg(11),
        2 => Reg(12),
        3 => Reg(18),
        4 => Reg(2),
        5 => Reg(8),
        6 => Reg(13),
        7 => Reg(14),
        8 => Reg(15),
        9 => Reg(16),
        10 => Reg(17),
        11 => Reg(5),
        12 => Reg(6),
        13 => Reg(7),
        14 => Reg(28),
        15 => Reg(29),
        n => Reg(n),
    }
}

/// The sixteen x86-64 general-purpose registers go to sixteen distinct
/// RISC-V registers, none of them `zero`, `ra`, `gp` or `tp`; `rsp` goes to
/// `sp` and `rbp` to the frame pointer `s0`.
pub proof fn law_register_map_injective(a: u8, b: u8, apx: bool)
    requires
        a < 16,
        b < 16,
    ensures
        a != b ==> riscv_reg_for(a, apx) != riscv_reg_for(b, apx),
        riscv_reg_for(a, apx) != 0 && riscv_reg_for(a, apx) != 1,
        riscv_reg_for(a, apx) != 3 && riscv_reg_for(a, apx) != 4,
        riscv_reg_for(4, apx) == 2,
        riscv_reg_for(5, apx) == 8,
{
}

/// The RISC-V condition that stands for an x86-64 condition after a
/// comparison of the same operands.
pub open spec fn riscv_cond_for(cc: X64ConditionCode) -> ConditionCode {
    match cc {
        X64ConditionCode::E => ConditionCode::EQ,
        X64ConditionCode::NE => ConditionCode::NE,
        X64ConditionCode::B => ConditionCode::LTU,
        X64ConditionCode::NB => ConditionCode::GEU,
        X64ConditionCode::A => ConditionCode::GTU,
        X64ConditionCode::NA => ConditionCode::LEU,
        X64ConditionCode::L => ConditionCode::LT,
        X64ConditionCode::NL => ConditionCode::GE,
        X64ConditionCode::G => ConditionCode::GT,
        X64ConditionCode::NG => ConditionCode::LE,
        X64ConditionCode::O => ConditionCode::NE,
        X64ConditionCode::NO => ConditionCode::EQ,
        X64ConditionCode::S => ConditionCode::LT,
        X64ConditionCode::NS => ConditionCode::GE,
        X64ConditionCode::P => ConditionCode::EQ,
        X64ConditionCode::NP => ConditionCode::NE,
    }
}

/// Translates an x86-64 condition to a RISC-V branch condition.  The
/// overflow, sign and parity conditions have no RISC-V counterpart and are
/// approximated.
pub fn translate_condition(cc: X64ConditionCode) -> (c: ConditionCode)
    ensures
        c == riscv_cond_for(cc),
{
    match cc {
        X64ConditionCode::E => ConditionCode::EQ,
        X64ConditionCode::NE => ConditionCode::NE,
        X64ConditionCode::B => ConditionCode::LTU,
        X64ConditionCode::NB => ConditionCode::GEU,
        X64ConditionCode::A => ConditionCode::GTU,
        X64ConditionCode::NA => ConditionCode::LEU,
        X64ConditionCode::L => ConditionCode::LT,
        X64ConditionCode::NL => ConditionCode::GE,
        X64ConditionCode::G => ConditionCode::GT,
        X64ConditionCode::NG => ConditionCode::LE,
        X64ConditionCode::O => ConditionCode::NE,
        X64ConditionCode::NO => ConditionCode::EQ,
        X64ConditionCode::S => ConditionCode::LT,
        X64ConditionCode::NS => ConditionCode::GE,
        X64ConditionCode::P => ConditionCode::EQ,
        X64ConditionCode::NP => ConditionCode::NE,
    }
}

/// The condition is one of the ten that compare the operands (equality,
/// unsigned and signed order).
pub open spec fn is_comparison(cc: X64ConditionCode) -> bool {
    !(cc is O || cc is NO || cc is S || cc is NS || cc is P || cc is NP)
}

/// For the ten comparison conditions, the translated RISC-V branch on the
/// compared operands is taken exactly when the x86-64 condition holds after
/// `CMP a, b`.
pub proof fn law_comparison_translation_exact(cc: X64ConditionCode, a: u64, b: u64)
    requires
        is_comparison(cc),
    ensures
        cond_holds(riscv_cond_for(cc), a, b) == x64_cond_holds(cc, a, b),
{
    assert((a as i64) < (b as i64) <==> (crate::x86_64::diff(a, b) >= 0x8000_0000_0000_0000) != !(
    i64::MIN <= (a as i64) - (b as i64) <= i64::MAX)) by (bit_vector);
    assert(((a as i64) == (b as i64)) <==> a == b) by (bit_vector);
}

/// The RISC-V operand that stands for an x86-64 operand: registers are
/// mapped, sizes and literals kept.
pub open spec fn adapt_arg(arg: X64ArgKind, apx: bool) -> ArgKind {
    match arg {
        X64ArgKind::Reg { reg, size } => ArgKind::Reg { reg: Reg(riscv_reg_for(reg.0, apx)), size },
        X64ArgKind::Lit(v) => ArgKind::Lit(v),
    }
}

/// The RISC-V register class of an x86-64 one: XMM registers are
/// floating-point registers.
pub open spec fn adapt_class(c: X64RegisterClass) -> RegisterClass {
    match c {
        X64RegisterClass::Gpr => RegisterClass::Gpr,
        X64RegisterClass::Xmm => RegisterClass::Fp,
    }
}

/// The RISC-V operand that stands for an x86-64 direct operand or memory
/// reference: every register is mapped and the displacement is read as a
/// signed 32-bit value.
pub open spec fn adapt_mem(m: X64MemArgKind, apx: bool) -> MemArgKind {
    match m {
        X64MemArgKind::NoMem(a) => MemArgKind::NoMem(adapt_arg(a, apx)),
        X64MemArgKind::Mem { base, offset, disp, size, reg_class } => MemArgKind::Mem {
            base: adapt_arg(base, apx),
            offset: match offset {
                Some((o, scale)) => Some((adapt_arg(o, apx), scale)),
                None => None,
            },
            disp: disp as i32,
            size,
            reg_class: adapt_class(reg_class),
        },
    }
}

/// Converts an x86-64 operand to the RISC-V operand that stands for it.
pub fn convert_arg_kind(arg: X64ArgKind, arch: X64Arch) -> (r: ArgKind)
    ensures
        r == adapt_arg(arg, arch.apx),
{
    match arg {
        X64ArgKind::Reg { reg, size } => ArgKind::Reg { reg: map_x64_register_to_riscv(reg, arch), size },
        X64ArgKind::Lit(v) => ArgKind::Lit(v),
    }
}

/// Converts an x86-64 register class to the RISC-V one.
pub fn convert_register_class(c: X64RegisterClass) -> (r: RegisterClass)
    ensures
        r == adapt_class(c),
{
    match c {
        X64RegisterClass::Gpr => RegisterClass::Gpr,
        X64RegisterClass::Xmm => RegisterClass::Fp,
    }
}

/// An x86-64 operand seen as a RISC-V one.
#[derive(Clone, Copy, PartialEq, Eq, Debug, Hash)]
pub struct MemArgAdapter {
    /// The x86-64 operand.
    pub inner: X64MemArgKind,
    /// The x86-64 configuration it comes from.
    pub arch: X64Arch,
}

impl MemArgAdapter {
    /// Wraps an x86-64 operand of the given configuration.
    pub fn new(inner: X64MemArgKind, arch: X64Arch) -> (a: Self)
        ensures
            a.inner == inner,
            a.arch == arch,
    {
        MemArgAdapter { inner, arch }
    }

    /// The RISC-V operand that stands for the wrapped one.
    pub fn concrete_mem_kind(&self) -> (m: MemArgKind)
        ensures
            m == adapt_mem(self.inner, self.arch.apx),
    {
        match self.inner {
            X64MemArgKind::NoMem(a) => MemArgKind::NoMem(convert_arg_kind(a, self.arch)),
            X64MemArgKind::Mem { base, offset, disp, size, reg_class } => {
                let off = match offset {
                    Some((o, scale)) => Some((convert_arg_kind(o, self.arch), scale)),
                    None => None,
                };
                MemArgKind::Mem {
                    base: convert_arg_kind(base, self.arch),
                    offset: off,
                    disp: disp as i32,
                    size,
                    reg_class: convert_register_class(reg_class),
                }
            },
        }
    }
}

/// A translation shim around a RISC-V writer `W`: it holds the writer, the
/// RISC-V configuration, and a counter that numbers its own labels.
pub struct X64ToRiscV64Shim<W> {
    /// The underlying RISC-V 64 writer.
    pub inner: W,
    /// RISC-V 64 architecture configuration.
    pub riscv_cfg: RiscV64Arch,
    shim_counter: usize,
}

impl<W> X64ToRiscV64Shim<W> {
    /// The number of labels the shim has made so far (the next label's number).
    pub closed spec fn counter(&self) -> usize {
        self.shim_counter
    }

    /// The wrapped writer.
    pub closed spec fn writer(&self) -> W {
        self.inner
    }

    /// The RISC-V configuration.
    pub closed spec fn config(&self) -> RiscV64Arch {
        self.riscv_cfg
    }

    /// A shim around `inner` for RV64IMFD.
    pub fn new(inner: W) -> (s: Self)
        ensures
            s.writer() == inner,
            s.config() == RiscV64Arch::spec_rv64imfd(),
            s.counter() == 0,
    {
        X64ToRiscV64Shim { inner, riscv_cfg: RiscV64Arch::rv64imfd(), shim_counter: 0 }
    }

    /// A shim around `inner` for the given configuration.
    pub fn with_config(inner: W, riscv_cfg: RiscV64Arch) -> (s: Self)
        ensures
            s.writer() == inner,
            s.config() == riscv_cfg,
            s.counter() == 0,
    {
        X64ToRiscV64Shim { inner, riscv_cfg, shim_counter: 0 }
    }

    /// `self` is `before` after handing out label `l`: the label carries
    /// the counter, which moves on by one.
    pub open spec fn took_label(self, before: Self, l: ShimLabel) -> bool {
        &&& l == ShimLabel(before.counter())
        &&& self.counter() == before.counter() + 1
        &&& self.writer() == before.writer()
        &&& self.config() == before.config()
    }

    /// A label the shim has not handed out before.
    pub fn next_shim_label(&mut self) -> (l: ShimLabel)
        requires
            old(self).counter() < usize::MAX,
        ensures
            final(self).took_label(*old(self), l),
    {
        let label = ShimLabel(self.shim_counter);
        self.shim_counter = self.shim_counter + 1;
        label
    }
}

/// A shim never hands out a label twice: a label taken after another one
/// (at a counter no lower than where the first left it) differs from it.
pub proof fn law_shim_labels_unique<W>(
    s0: X64ToRiscV64Shim<W>,
    s1: X64ToRiscV64Shim<W>,
    l1: ShimLabel,
    s2: X64ToRiscV64Shim<W>,
    s3: X64ToRiscV64Shim<W>,
    l3: ShimLabel,
)
    requires
        s1.took_label(s0, l1),
        s3.took_label(s2, l3),
        s1.counter() <= s2.counter(),
    ensures
        l1 != l3,
{
}


// ── instruction translation ─────────────────────────────────────────────────

/// The 64-bit register operand `x<r>`.
pub open spec fn reg_operand(r: u8) -> MemArgKind {
    MemArgKind::NoMem(ArgKind::Reg { reg: Reg(r), size: MemorySize::_64 })
}

/// `0(sp)`: the stack slot that pushes store to and pops load from.
pub open spec fn stack_top() -> MemArgKind {
    MemArgKind::Mem {
        base: ArgKind::Reg { reg: Reg(2), size: MemorySize::_64 },
        offset: None,
        disp: 0,
        size: MemorySize::_64,
        reg_class: RegisterClass::Gpr,
    }
}

/// The operand is a memory reference.
pub open spec fn is_mem(m: MemArgKind) -> bool {
    m is Mem
}

/// `MV d, s` (`ADDI d, s, 0`).
pub open spec fn mv_inst(d: MemArgKind, s: MemArgKind) -> RvInst {
    RvInst::Addi { dest: reg_of(d), src1: reg_of(s), imm: 0 }
}

/// `LD d, m`.
pub open spec fn ld_inst(d: MemArgKind, m: MemArgKind) -> RvInst {
    RvInst::Load { op: LoadOp::Ld, dest: reg_of(d), base: base_offset(m).0, offset: base_offset(m).1 }
}

/// `SD s, m`.
pub open spec fn sd_inst(s: MemArgKind, m: MemArgKind) -> RvInst {
    RvInst::Store { op: StoreOp::Sd, src: reg_of(s), base: base_offset(m).0, offset: base_offset(m).1 }
}

/// `ADDI sp, sp, imm`.
pub open spec fn sp_adjust(imm: i32) -> RvInst {
    RvInst::Addi { dest: 2, src1: 2, imm }
}

/// x86-64 `op a, b` (`a = a op b`): the register-register operation on
/// `a`'s and `b`'s registers.
pub open spec fn alu_inst(op: AluOp, a: MemArgKind, b: MemArgKind) -> RvInst {
    RvInst::Op { op, dest: reg_of(a), src1: reg_of(a), src2: reg_of(b) }
}

/// x86-64 `MOV dest, src`: a register move, a load, a store, or a load
/// into `t5` and a store for memory to memory.
pub open spec fn mov_insts(dest: MemArgKind, src: MemArgKind) -> Seq<RvInst> {
    if !is_mem(dest) && !is_mem(src) {
        seq![mv_inst(dest, src)]
    } else if !is_mem(dest) {
        seq![ld_inst(dest, src)]
    } else if !is_mem(src) {
        seq![sd_inst(src, dest)]
    } else {
        seq![ld_inst(reg_operand(30), src), sd_inst(reg_operand(30), dest)]
    }
}

/// The branch a conditional jump takes on the comparison result in `t6`:
/// `BEQ`, `BNE`, `BLT`, `BGE`, `BLTU`, `BGEU` for the conditions of those
/// names, and `BNE` for every other condition.
pub open spec fn jcc_branch(c: ConditionCode) -> BranchOp {
    match c {
        ConditionCode::EQ => BranchOp::Beq,
        ConditionCode::NE => BranchOp::Bne,
        ConditionCode::LT => BranchOp::Blt,
        ConditionCode::GE => BranchOp::Bge,
        ConditionCode::LTU => BranchOp::Bltu,
        ConditionCode::GEU => BranchOp::Bgeu,
        _ => BranchOp::Bne,
    }
}

/// Writing `a` and then `b` writes `a + b`.
proof fn lemma_chain<L>(w0: RvAsmWriter<L>, w1: RvAsmWriter<L>, w2: RvAsmWriter<L>, a: Seq<RvInst>, b: Seq<RvInst>)
    requires
        w1.emitted_all(w0, a),
        w2.emitted_all(w1, b),
    ensures
        w2.emitted_all(w0, a + b),
{
    lemma_insts_bytes_concat(a, b);
    assert(w2.bytes() =~= w0.bytes() + crate::riscv64::bin::insts_bytes(a + b));
}

fn reg_arg(r: u8) -> (a: MemArgKind)
    ensures
        a == reg_operand(r),
{
    MemArgKind::NoMem(ArgKind::Reg { reg: Reg(r), size: MemorySize::_64 })
}

fn stack_top_arg() -> (m: MemArgKind)
    ensures
        m == stack_top(),
{
    MemArgKind::Mem {
        base: ArgKind::Reg { reg: Reg(2), size: MemorySize::_64 },
        offset: None,
        disp: 0,
        size: MemorySize::_64,
        reg_class: RegisterClass::Gpr,
    }
}

fn is_mem_exec(m: &MemArgKind) -> (b: bool)
    ensures
        b == is_mem(*m),
{
    match m {
        MemArgKind::Mem { .. } => true,
        MemArgKind::NoMem(_) => false,
    }
}

impl<L> X64ToRiscV64Shim<RvAsmWriter<L>> {
    /// `self` is `before` with the instructions `insts` appended to its
    /// writer; the label counter and the configuration are unchanged.
    pub open spec fn x64_wrote(self, before: Self, insts: Seq<RvInst>) -> bool {
        &&& self.writer().emitted_all(before.writer(), insts)
        &&& self.counter() == before.counter()
        &&& self.config() == before.config()
    }

    /// x86-64 `HLT`: `EBREAK`.
    pub fn hlt<C>(&mut self, ctx: &mut C, _arch: X64Arch) -> (r: Result<(), Infallible>)
        requires
            old(self).writer().wf(),
        ensures
            r is Ok,
            final(self).x64_wrote(*old(self), seq![RvInst::Ebreak]),
    {
        let cfg = self.riscv_cfg;
        let _ = self.inner.ebreak(ctx, cfg);
        Ok(())
    }

    /// x86-64 `XCHG dest, src`: three moves through `t5`.
    pub fn xchg<C>(&mut self, ctx: &mut C, arch: X64Arch, dest: &X64MemArgKind, src: &X64MemArgKind) -> (r: Result<(), Infallible>)
        requires
            old(self).writer().wf(),
        ensures
            r is Ok,
            final(self).x64_wrote(*old(self), {
                let d = adapt_mem(*dest, arch.apx);
                let s = adapt_mem(*src, arch.apx);
                seq![mv_inst(reg_operand(30), d), mv_inst(d, s), mv_inst(s, reg_operand(30))]
            }),
    {
        let d = MemArgAdapter::new(*dest, arch).concrete_mem_kind();
        let sv = MemArgAdapter::new(*src, arch).concrete_mem_kind();
        let t5 = reg_arg(30);
        let cfg = self.riscv_cfg;
        let ghost w0 = self.inner;
        let _ = self.inner.mv(ctx, cfg, &t5, &d);
        let ghost w1 = self.inner;
        let _ = self.inner.mv(ctx, cfg, &d, &sv);
        proof { lemma_chain(w0, w1, self.inner, seq![mv_inst(t5, d)], seq![mv_inst(d, sv)]); }
        let ghost w2 = self.inner;
        let _ = self.inner.mv(ctx, cfg, &sv, &t5);
        proof {
            lemma_chain(w0, w2, self.inner, seq![mv_inst(t5, d)] + seq![mv_inst(d, sv)], seq![mv_inst(sv, t5)]);
            assert(seq![mv_inst(t5, d)] + seq![mv_inst(d, sv)] + seq![mv_inst(sv, t5)]
                =~= seq![mv_inst(t5, d), mv_inst(d, sv), mv_inst(sv, t5)]);
        }
        Ok(())
    }

    /// x86-64 `MOV dest, src`, see [`mov_insts`].
    pub fn mov<C>(&mut self, ctx: &mut C, arch: X64Arch, dest: &X64MemArgKind, src: &X64MemArgKind) -> (r: Result<(), Infallible>)
        requires
            old(self).writer().wf(),
        ensures
            r is Ok,
            final(self).x64_wrote(*old(self), mov_insts(adapt_mem(*dest, arch.apx), adapt_mem(*src, arch.apx))),
    {
        let d = MemArgAdapter::new(*dest, arch).concrete_mem_kind();
        let sv = MemArgAdapter::new(*src, arch).concrete_mem_kind();
        let cfg = self.riscv_cfg;
        let dm = is_mem_exec(&d);
        let sm = is_mem_exec(&sv);
        if !dm && !sm {
            let _ = self.inner.mv(ctx, cfg, &d, &sv);
        } else if !dm {
            let _ = self.inner.ld(ctx, cfg, &d, &sv);
        } else if !sm {
            let _ = self.inner.sd(ctx, cfg, &sv, &d);
        } else {
            let t5 = reg_arg(30);
            let ghost w0 = self.inner;
            let _ = self.inner.ld(ctx, cfg, &t5, &sv);
            let ghost w1 = self.inner;
            let _ = self.inner.sd(ctx, cfg, &t5, &d);
            proof {
                lemma_chain(w0, w1, self.inner, seq![ld_inst(t5, sv)], seq![sd_inst(t5, d)]);
                assert(seq![ld_inst(t5, sv)] + seq![sd_inst(t5, d)] =~= seq![ld_inst(t5, sv), sd_inst(t5, d)]);
            }
        }
        Ok(())
    }
}


impl<L> X64ToRiscV64Shim<RvAsmWriter<L>> {
    fn alu<C>(&mut self, ctx: &mut C, arch: X64Arch, a: &X64MemArgKind, b: &X64MemArgKind, op: AluOp) -> (r: Result<(), Infallible>)
        requires
            old(self).writer().wf(),
            op is Add || op is Sub || op is Mul || op is Divu || op is Div || op is And || op is Or
                || op is Xor || op is Sll || op is Srl,
        ensures
            r is Ok,
            final(self).x64_wrote(*old(self), seq![alu_inst(op, adapt_mem(*a, arch.apx), adapt_mem(*b, arch.apx))]),
    {
        let ma = MemArgAdapter::new(*a, arch).concrete_mem_kind();
        let mb = MemArgAdapter::new(*b, arch).concrete_mem_kind();
        let cfg = self.riscv_cfg;
        let _ = match op {
            AluOp::Add => self.inner.add(ctx, cfg, &ma, &ma, &mb),
            AluOp::Sub => self.inner.sub(ctx, cfg, &ma, &ma, &mb),
            AluOp::Mul => self.inner.mul(ctx, cfg, &ma, &ma, &mb),
            AluOp::Divu => self.inner.divu(ctx, cfg, &ma, &ma, &mb),
            AluOp::Div => self.inner.div(ctx, cfg, &ma, &ma, &mb),
            AluOp::And => self.inner.and(ctx, cfg, &ma, &ma, &mb),
            AluOp::Or => self.inner.or(ctx, cfg, &ma, &ma, &mb),
            AluOp::Xor => self.inner.xor(ctx, cfg, &ma, &ma, &mb),
            AluOp::Sll => self.inner.sll(ctx, cfg, &ma, &ma, &mb),
            _ => self.inner.srl(ctx, cfg, &ma, &ma, &mb),
        };
        Ok(())
    }

    /// x86-64 `ADD a, b`: `ADD a, a, b`.
    pub fn add<C>(&mut self, ctx: &mut C, arch: X64Arch, a: &X64MemArgKind, b: &X64MemArgKind) -> (r: Result<(), Infallible>)
        requires
            old(self).writer().wf(),
        ensures
            r is Ok,
            final(self).x64_wrote(*old(self), seq![alu_inst(AluOp::Add, adapt_mem(*a, arch.apx), adapt_mem(*b, arch.apx))]),
    {
        self.alu(ctx, arch, a, b, AluOp::Add)
    }

    /// x86-64 `SUB a, b`: `SUB a, a, b`.
    pub fn sub<C>(&mut self, ctx: &mut C, arch: X64Arch, a: &X64MemArgKind, b: &X64MemArgKind) -> (r: Result<(), Infallible>)
        requires
            old(self).writer().wf(),
        ensures
            r is Ok,
            final(self).x64_wrote(*old(self), seq![alu_inst(AluOp::Sub, adapt_mem(*a, arch.apx), adapt_mem(*b, arch.apx))]),
    {
        self.alu(ctx, arch, a, b, AluOp::Sub)
    }

    /// x86-64 `IMUL a, b`: `MUL a, a, b`.
    pub fn mul<C>(&mut self, ctx: &mut C, arch: X64Arch, a: &X64MemArgKind, b: &X64MemArgKind) -> (r: Result<(), Infallible>)
        requires
            old(self).writer().wf(),
        ensures
            r is Ok,
            final(self).x64_wrote(*old(self), seq![alu_inst(AluOp::Mul, adapt_mem(*a, arch.apx), adapt_mem(*b, arch.apx))]),
    {
        self.alu(ctx, arch, a, b, AluOp::Mul)
    }

    /// x86-64 unsigned `DIV a, b`: `DIVU a, a, b`.
    pub fn div<C>(&mut self, ctx: &mut C, arch: X64Arch, a: &X64MemArgKind, b: &X64MemArgKind) -> (r: Result<(), Infallible>)
        requires
            old(self).writer().wf(),
        ensures
            r is Ok,
            final(self).x64_wrote(*old(self), seq![alu_inst(AluOp::Divu, adapt_mem(*a, arch.apx), adapt_mem(*b, arch.apx))]),
    {
        self.alu(ctx, arch, a, b, AluOp::Divu)
    }

    /// x86-64 signed `IDIV a, b`: `DIV a, a, b`.
    pub fn idiv<C>(&mut self, ctx: &mut C, arch: X64Arch, a: &X64MemArgKind, b: &X64MemArgKind) -> (r: Result<(), Infallible>)
        requires
            old(self).writer().wf(),
        ensures
            r is Ok,
            final(self).x64_wrote(*old(self), seq![alu_inst(AluOp::Div, adapt_mem(*a, arch.apx), adapt_mem(*b, arch.apx))]),
    {
        self.alu(ctx, arch, a, b, AluOp::Div)
    }

    /// x86-64 `AND a, b`: `AND a, a, b`.
    pub fn and<C>(&mut self, ctx: &mut C, arch: X64Arch, a: &X64MemArgKind, b: &X64MemArgKind) -> (r: Result<(), Infallible>)
        requires
            old(self).writer().wf(),
        ensures
            r is Ok,
            final(self).x64_wrote(*old(self), seq![alu_inst(AluOp::And, adapt_mem(*a, arch.apx), adapt_mem(*b, arch.apx))]),
    {
        self.alu(ctx, arch, a, b, AluOp::And)
    }

    /// x86-64 `OR a, b`: `OR a, a, b`.
    pub fn or<C>(&mut self, ctx: &mut C, arch: X64Arch, a: &X64MemArgKind, b: &X64MemArgKind) -> (r: Result<(), Infallible>)
        requires
            old(self).writer().wf(),
        ensures
            r is Ok,
            final(self).x64_wrote(*old(self), seq![alu_inst(AluOp::Or, adapt_mem(*a, arch.apx), adapt_mem(*b, arch.apx))]),
    {
        self.alu(ctx, arch, a, b, AluOp::Or)
    }

    /// x86-64 `XOR a, b`: `XOR a, a, b`.
    pub fn eor<C>(&mut self, ctx: &mut C, arch: X64Arch, a: &X64MemArgKind, b: &X64MemArgKind) -> (r: Result<(), Infallible>)
        requires
            old(self).writer().wf(),
        ensures
            r is Ok,
            final(self).x64_wrote(*old(self), seq![alu_inst(AluOp::Xor, adapt_mem(*a, arch.apx), adapt_mem(*b, arch.apx))]),
    {
        self.alu(ctx, arch, a, b, AluOp::Xor)
    }

    /// x86-64 `SHL a, b`: `SLL a, a, b`.
    pub fn shl<C>(&mut self, ctx: &mut C, arch: X64Arch, a: &X64MemArgKind, b: &X64MemArgKind) -> (r: Result<(), Infallible>)
        requires
            old(self).writer().wf(),
        ensures
            r is Ok,
            final(self).x64_wrote(*old(self), seq![alu_inst(AluOp::Sll, adapt_mem(*a, arch.apx), adapt_mem(*b, arch.apx))]),
    {
        self.alu(ctx, arch, a, b, AluOp::Sll)
    }

    /// x86-64 `SHR a, b`: `SRL a, a, b`.
    pub fn shr<C>(&mut self, ctx: &mut C, arch: X64Arch, a: &X64MemArgKind, b: &X64MemArgKind) -> (r: Result<(), Infallible>)
        requires
            old(self).writer().wf(),
        ensures
            r is Ok,
            final(self).x64_wrote(*old(self), seq![alu_inst(AluOp::Srl, adapt_mem(*a, arch.apx), adapt_mem(*b, arch.apx))]),
    {
        self.alu(ctx, arch, a, b, AluOp::Srl)
    }

    fn plain_move<C>(&mut self, ctx: &mut C, arch: X64Arch, dest: &X64MemArgKind, src: &X64MemArgKind) -> (r: Result<(), Infallible>)
        requires
            old(self).writer().wf(),
        ensures
            r is Ok,
            final(self).x64_wrote(*old(self), seq![mv_inst(adapt_mem(*dest, arch.apx), adapt_mem(*src, arch.apx))]),
    {
        let d = MemArgAdapter::new(*dest, arch).concrete_mem_kind();
        let sv = MemArgAdapter::new(*src, arch).concrete_mem_kind();
        let cfg = self.riscv_cfg;
        let _ = self.inner.mv(ctx, cfg, &d, &sv);
        Ok(())
    }

    /// x86-64 `MOVSX dest, src`: a register move (`MV dest, src`).
    pub fn movsx<C>(&mut self, ctx: &mut C, arch: X64Arch, dest: &X64MemArgKind, src: &X64MemArgKind) -> (r: Result<(), Infallible>)
        requires
            old(self).writer().wf(),
        ensures
            r is Ok,
            final(self).x64_wrote(*old(self), seq![mv_inst(adapt_mem(*dest, arch.apx), adapt_mem(*src, arch.apx))]),
    {
        self.plain_move(ctx, arch, dest, src)
    }

    /// x86-64 `MOVZX dest, src`: a register move (`MV dest, src`).
    pub fn movzx<C>(&mut self, ctx: &mut C, arch: X64Arch, dest: &X64MemArgKind, src: &X64MemArgKind) -> (r: Result<(), Infallible>)
        requires
            old(self).writer().wf(),
        ensures
            r is Ok,
            final(self).x64_wrote(*old(self), seq![mv_inst(adapt_mem(*dest, arch.apx), adapt_mem(*src, arch.apx))]),
    {
        self.plain_move(ctx, arch, dest, src)
    }

    /// x86-64 `LEA dest, src`: a register move (`MV dest, src`).
    pub fn lea<C>(&mut self, ctx: &mut C, arch: X64Arch, dest: &X64MemArgKind, src: &X64MemArgKind) -> (r: Result<(), Infallible>)
        requires
            old(self).writer().wf(),
        ensures
            r is Ok,
            final(self).x64_wrote(*old(self), seq![mv_inst(adapt_mem(*dest, arch.apx), adapt_mem(*src, arch.apx))]),
    {
        self.plain_move(ctx, arch, dest, src)
    }

    /// x86-64 `PUSH op`: `ADDI sp, sp, -8` then `SD op, 0(sp)`.
    pub fn push<C>(&mut self, ctx: &mut C, arch: X64Arch, op: &X64MemArgKind) -> (r: Result<(), Infallible>)
        requires
            old(self).writer().wf(),
        ensures
            r is Ok,
            final(self).x64_wrote(*old(self), seq![sp_adjust(-8i32), sd_inst(adapt_mem(*op, arch.apx), stack_top())]),
    {
        let o = MemArgAdapter::new(*op, arch).concrete_mem_kind();
        let sp = reg_arg(2);
        let top = stack_top_arg();
        let cfg = self.riscv_cfg;
        let ghost w0 = self.inner;
        let _ = self.inner.addi(ctx, cfg, &sp, &sp, -8);
        let ghost w1 = self.inner;
        let _ = self.inner.sd(ctx, cfg, &o, &top);
        proof {
            lemma_chain(w0, w1, self.inner, seq![sp_adjust(-8i32)], seq![sd_inst(o, top)]);
            assert(seq![sp_adjust(-8i32)] + seq![sd_inst(o, top)] =~= seq![sp_adjust(-8i32), sd_inst(o, top)]);
        }
        Ok(())
    }

    /// x86-64 `POP op`: `LD op, 0(sp)` then `ADDI sp, sp, 8`.
    pub fn pop<C>(&mut self, ctx: &mut C, arch: X64Arch, op: &X64MemArgKind) -> (r: Result<(), Infallible>)
        requires
            old(self).writer().wf(),
        ensures
            r is Ok,
            final(self).x64_wrote(*old(self), seq![ld_inst(adapt_mem(*op, arch.apx), stack_top()), sp_adjust(8i32)]),
    {
        let o = MemArgAdapter::new(*op, arch).concrete_mem_kind();
        let sp = reg_arg(2);
        let top = stack_top_arg();
        let cfg = self.riscv_cfg;
        let ghost w0 = self.inner;
        let _ = self.inner.ld(ctx, cfg, &o, &top);
        let ghost w1 = self.inner;
        let _ = self.inner.addi(ctx, cfg, &sp, &sp, 8);
        proof {
            lemma_chain(w0, w1, self.inner, seq![ld_inst(o, top)], seq![sp_adjust(8i32)]);
            assert(seq![ld_inst(o, top)] + seq![sp_adjust(8i32)] =~= seq![ld_inst(o, top), sp_adjust(8i32)]);
        }
        Ok(())
    }

    /// x86-64 `PUSHF`: RISC-V has no flags register, so a zero is pushed.
    pub fn pushf<C>(&mut self, ctx: &mut C, _arch: X64Arch) -> (r: Result<(), Infallible>)
        requires
            old(self).writer().wf(),
        ensures
            r is Ok,
            final(self).x64_wrote(*old(self), seq![sp_adjust(-8i32), sd_inst(reg_operand(0), stack_top())]),
    {
        let zero = reg_arg(0);
        let sp = reg_arg(2);
        let top = stack_top_arg();
        let cfg = self.riscv_cfg;
        let ghost w0 = self.inner;
        let _ = self.inner.addi(ctx, cfg, &sp, &sp, -8);
        let ghost w1 = self.inner;
        let _ = self.inner.sd(ctx, cfg, &zero, &top);
        proof {
            lemma_chain(w0, w1, self.inner, seq![sp_adjust(-8i32)], seq![sd_inst(zero, top)]);
            assert(seq![sp_adjust(-8i32)] + seq![sd_inst(zero, top)] =~= seq![sp_adjust(-8i32), sd_inst(zero, top)]);
        }
        Ok(())
    }

    /// x86-64 `POPF`: the pushed slot is dropped (`ADDI sp, sp, 8`).
    pub fn popf<C>(&mut self, ctx: &mut C, _arch: X64Arch) -> (r: Result<(), Infallible>)
        requires
            old(self).writer().wf(),
        ensures
            r is Ok,
            final(self).x64_wrote(*old(self), seq![sp_adjust(8i32)]),
    {
        let sp = reg_arg(2);
        let cfg = self.riscv_cfg;
        let _ = self.inner.addi(ctx, cfg, &sp, &sp, 8);
        Ok(())
    }
}


impl<L> X64ToRiscV64Shim<RvAsmWriter<L>> {
    /// x86-64 `CALL op`: `JALR ra, 0(op)`.
    pub fn call<C>(&mut self, ctx: &mut C, arch: X64Arch, op: &X64MemArgKind) -> (r: Result<(), Infallible>)
        requires
            old(self).writer().wf(),
        ensures
            r is Ok,
            final(self).x64_wrote(*old(self), seq![RvInst::Jalr { dest: 1, base: reg_of(adapt_mem(*op, arch.apx)), offset: 0 }]),
    {
        let o = MemArgAdapter::new(*op, arch).concrete_mem_kind();
        let cfg = self.riscv_cfg;
        let _ = self.inner.call(ctx, cfg, &o);
        Ok(())
    }

    /// x86-64 `JMP op`: `J` to the literal byte offset `op`.
    pub fn jmp<C>(&mut self, ctx: &mut C, arch: X64Arch, op: &X64MemArgKind) -> (r: Result<(), Infallible>)
        requires
            old(self).writer().wf(),
        ensures
            r is Ok,
            final(self).x64_wrote(*old(self), seq![RvInst::Jal { dest: 0, offset: lit_imm(adapt_mem(*op, arch.apx)) }]),
    {
        let o = MemArgAdapter::new(*op, arch).concrete_mem_kind();
        let cfg = self.riscv_cfg;
        let _ = self.inner.j(ctx, cfg, &o);
        Ok(())
    }

    /// x86-64 `CMP a, b`: the difference goes to `t6` (`SUB t6, a, b`),
    /// where a later conditional jump tests it.
    pub fn compare<C>(&mut self, ctx: &mut C, arch: X64Arch, a: &X64MemArgKind, b: &X64MemArgKind) -> (r: Result<(), Infallible>)
        requires
            old(self).writer().wf(),
        ensures
            r is Ok,
            final(self).x64_wrote(*old(self), seq![RvInst::Op {
                op: AluOp::Sub,
                dest: 31,
                src1: reg_of(adapt_mem(*a, arch.apx)),
                src2: reg_of(adapt_mem(*b, arch.apx)),
            }]),
    {
        let ma = MemArgAdapter::new(*a, arch).concrete_mem_kind();
        let mb = MemArgAdapter::new(*b, arch).concrete_mem_kind();
        let t6 = reg_arg(31);
        let cfg = self.riscv_cfg;
        let _ = self.inner.sub(ctx, cfg, &t6, &ma, &mb);
        Ok(())
    }

    /// x86-64 `CMP op, 0`: `SUB t6, op, zero`.
    pub fn compare0<C>(&mut self, ctx: &mut C, arch: X64Arch, op: &X64MemArgKind) -> (r: Result<(), Infallible>)
        requires
            old(self).writer().wf(),
        ensures
            r is Ok,
            final(self).x64_wrote(*old(self), seq![RvInst::Op {
                op: AluOp::Sub,
                dest: 31,
                src1: reg_of(adapt_mem(*op, arch.apx)),
                src2: 0,
            }]),
    {
        let o = MemArgAdapter::new(*op, arch).concrete_mem_kind();
        let t6 = reg_arg(31);
        let zero = reg_arg(0);
        let cfg = self.riscv_cfg;
        let _ = self.inner.sub(ctx, cfg, &t6, &o, &zero);
        Ok(())
    }

    /// x86-64 `CMOVcc op, val`: the shim takes a label of its own for the
    /// skip and writes `MV op, val`; the move is not made conditional.
    pub fn cmovcc64<C>(
        &mut self,
        ctx: &mut C,
        arch: X64Arch,
        cond: X64ConditionCode,
        op: &X64MemArgKind,
        val: &X64MemArgKind,
    ) -> (r: Result<(), Infallible>)
        requires
            old(self).writer().wf(),
            old(self).counter() < usize::MAX,
        ensures
            r is Ok,
            final(self).writer().emitted(old(self).writer(), mv_inst(adapt_mem(*op, arch.apx), adapt_mem(*val, arch.apx))),
            final(self).counter() == old(self).counter() + 1,
            final(self).config() == old(self).config(),
    {
        let _skip = self.next_shim_label();
        let _c = translate_condition(cond);
        let o = MemArgAdapter::new(*op, arch).concrete_mem_kind();
        let v = MemArgAdapter::new(*val, arch).concrete_mem_kind();
        let cfg = self.riscv_cfg;
        let _ = self.inner.mv(ctx, cfg, &o, &v);
        Ok(())
    }

    /// x86-64 `Jcc op`: a branch on the comparison result in `t6` against
    /// `zero`, chosen by the translated condition (see [`jcc_branch`]), to
    /// the literal byte offset `op`.
    pub fn jcc<C>(&mut self, ctx: &mut C, arch: X64Arch, cond: X64ConditionCode, op: &X64MemArgKind) -> (r: Result<(), Infallible>)
        requires
            old(self).writer().wf(),
        ensures
            r is Ok,
            final(self).x64_wrote(*old(self), seq![RvInst::Branch {
                op: jcc_branch(riscv_cond_for(cond)),
                src1: 31,
                src2: 0,
                offset: lit_imm(adapt_mem(*op, arch.apx)),
            }]),
    {
        let t6 = reg_arg(31);
        let zero = reg_arg(0);
        let o = MemArgAdapter::new(*op, arch).concrete_mem_kind();
        let c = translate_condition(cond);
        let cfg = self.riscv_cfg;
        let _ = match c {
            ConditionCode::EQ => self.inner.beq(ctx, cfg, &t6, &zero, &o),
            ConditionCode::NE => self.inner.bne(ctx, cfg, &t6, &zero, &o),
            ConditionCode::LT => self.inner.blt(ctx, cfg, &t6, &zero, &o),
            ConditionCode::GE => self.inner.bge(ctx, cfg, &t6, &zero, &o),
            ConditionCode::LTU => self.inner.bltu(ctx, cfg, &t6, &zero, &o),
            ConditionCode::GEU => self.inner.bgeu(ctx, cfg, &t6, &zero, &o),
            _ => self.inner.bne(ctx, cfg, &t6, &zero, &o),
        };
        Ok(())
    }

    fn li_then_alu<C>(&mut self, ctx: &mut C, arch: X64Arch, op: &X64MemArgKind, mask: u64, alu: AluOp) -> (r: Result<(), Infallible>)
        requires
            old(self).writer().wf(),
            alu is And || alu is Xor,
        ensures
            r is Ok,
            final(self).x64_wrote(*old(self), li_seq(30, mask) + seq![alu_inst(alu, adapt_mem(*op, arch.apx), reg_operand(30))]),
    {
        let o = MemArgAdapter::new(*op, arch).concrete_mem_kind();
        let t5 = reg_arg(30);
        let cfg = self.riscv_cfg;
        let ghost w0 = self.inner;
        let _ = self.inner.li(ctx, cfg, &t5, mask);
        let ghost w1 = self.inner;
        let _ = match alu {
            AluOp::And => self.inner.and(ctx, cfg, &o, &o, &t5),
            _ => self.inner.xor(ctx, cfg, &o, &o, &t5),
        };
        proof { lemma_chain(w0, w1, self.inner, li_seq(30, mask), seq![alu_inst(alu, o, t5)]); }
        Ok(())
    }

    /// x86-64 zero-extension of the low 32 bits of `op`: `LI t5, 0xFFFF_FFFF`
    /// then `AND op, op, t5`.
    pub fn u32<C>(&mut self, ctx: &mut C, arch: X64Arch, op: &X64MemArgKind) -> (r: Result<(), Infallible>)
        requires
            old(self).writer().wf(),
        ensures
            r is Ok,
            final(self).x64_wrote(
                *old(self),
                li_seq(30, 0xFFFF_FFFF) + seq![alu_inst(AluOp::And, adapt_mem(*op, arch.apx), reg_operand(30))],
            ),
    {
        self.li_then_alu(ctx, arch, op, 0xFFFF_FFFF, AluOp::And)
    }

    /// x86-64 `NOT op`: `LI t5, -1` then `XOR op, op, t5`.
    pub fn not<C>(&mut self, ctx: &mut C, arch: X64Arch, op: &X64MemArgKind) -> (r: Result<(), Infallible>)
        requires
            old(self).writer().wf(),
        ensures
            r is Ok,
            final(self).x64_wrote(
                *old(self),
                li_seq(30, u64::MAX) + seq![alu_inst(AluOp::Xor, adapt_mem(*op, arch.apx), reg_operand(30))],
            ),
    {
        self.li_then_alu(ctx, arch, op, u64::MAX, AluOp::Xor)
    }

    /// The current instruction's address into `ra`: `AUIPC ra, 0`.
    pub fn get_ip<C>(&mut self, ctx: &mut C, _arch: X64Arch) -> (r: Result<(), Infallible>)
        requires
            old(self).writer().wf(),
        ensures
            r is Ok,
            final(self).x64_wrote(*old(self), seq![RvInst::Auipc { dest: 1, uimm: 0 }]),
    {
        let ra = reg_arg(1);
        let cfg = self.riscv_cfg;
        let _ = self.inner.auipc(ctx, cfg, &ra, 0);
        assert(0u32 << 12u32 == 0u32) by (bit_vector);
        Ok(())
    }

    /// x86-64 `RET`: `RET` (`JALR zero, 0(ra)`).
    pub fn ret<C>(&mut self, ctx: &mut C, _arch: X64Arch) -> (r: Result<(), Infallible>)
        requires
            old(self).writer().wf(),
        ensures
            r is Ok,
            final(self).x64_wrote(*old(self), seq![RvInst::Jalr { dest: 0, base: 1, offset: 0 }]),
    {
        let cfg = self.riscv_cfg;
        let _ = self.inner.ret(ctx, cfg);
        Ok(())
    }

    /// x86-64 `MOV r, imm64`: `LI r, val`.
    pub fn mov64<C>(&mut self, ctx: &mut C, arch: X64Arch, r: &X64MemArgKind, val: u64) -> (res: Result<(), Infallible>)
        requires
            old(self).writer().wf(),
        ensures
            res is Ok,
            final(self).x64_wrote(*old(self), li_seq(reg_of(adapt_mem(*r, arch.apx)), val)),
    {
        let o = MemArgAdapter::new(*r, arch).concrete_mem_kind();
        let cfg = self.riscv_cfg;
        let _ = self.inner.li(ctx, cfg, &o, val);
        Ok(())
    }
}


impl<L: Ord> X64ToRiscV64Shim<RvAsmWriter<L>> {
    /// Defines label `s` at the writer's current offset.
    pub fn set_label<C>(&mut self, ctx: &mut C, _arch: X64Arch, s: L) -> (r: Result<(), Infallible>)
        requires
            old(self).writer().wf(),
            lawful_label::<L>(),
            resolvable(old(self).writer().pending(), s, old(self).writer().bytes().len() as usize),
        ensures
            r is Ok,
            final(self).writer().label_set(old(self).writer(), s),
            final(self).counter() == old(self).counter(),
            final(self).config() == old(self).config(),
    {
        let cfg = self.riscv_cfg;
        self.inner.set_label(ctx, cfg, s)
    }

    /// x86-64 `LEA dest, [label]`: `JAL zero, label` (the destination is
    /// not written).
    pub fn lea_label<C>(&mut self, ctx: &mut C, _arch: X64Arch, _dest: &X64MemArgKind, label: L) -> (r: Result<(), Infallible>)
        requires
            old(self).writer().wf(),
            lawful_label::<L>(),
        ensures
            r is Ok,
            final(self).writer().referenced(old(self).writer(), label, RvFixupKind::Jal { rd: 0 }),
            final(self).counter() == old(self).counter(),
            final(self).config() == old(self).config(),
    {
        let cfg = self.riscv_cfg;
        let zero = reg_arg(0);
        self.inner.jal_label(ctx, cfg, &zero, label)
    }
}


/// After x86-64 `CMP a, b` (`t6 = a - b`), the RISC-V branch that `Jcc`
/// becomes, on `t6` against `zero`, is taken exactly when the x86-64
/// condition holds, for the conditions that read only the zero and sign
/// flags: `E`, `NE`, `S`, `NS`.
pub proof fn law_jcc_after_compare(cc: X64ConditionCode, a: u64, b: u64)
    requires
        cc is E || cc is NE || cc is S || cc is NS,
    ensures
        branch_taken(
            crate::riscv64::encode::branch_funct3(jcc_branch(riscv_cond_for(cc))),
            crate::x86_64::diff(a, b),
            0,
        ) == x64_cond_holds(cc, a, b),
{
    let d = crate::x86_64::diff(a, b);
    assert((d as i64) < 0i64 <==> d >= 0x8000_0000_0000_0000) by (bit_vector);
}

} // verus!
