//! Rules of the x86-64 to AArch64 translation shim: how x86-64 registers
//! and conditions map to AArch64 ones, and the shim's own label numbering.

use vstd::prelude::*;
use core::convert::Infallible;
use crate::common::{rel, MemorySize, Reg};
use crate::aarch64::bin::{fixup_word, lawful_label, lemma_words_bytes_concat, lemma_words_bytes_push, words_bytes, AArch64Fixup, AArch64FixupKind, AArch64Writer};
use crate::aarch64::encode::{
    mov_imm_words, opc_and, opc_eor, opc_fadd, opc_fdiv, opc_fmul, opc_fsub, opc_mul, opc_orr, opc_sdiv,
    opc_udiv, w_adr, w_add, w_b, w_bcond, w_brk, w_compare, w_csel, w_fmov, w_ldst, w_mov, w_mrs_nzcv,
    w_msr_nzcv, w_mvn, w_ret, w_rrr, w_shift, w_sub, w_sxt, w_uxt, ShiftKind,
};
use crate::aarch64::regalloc::{frame_slot, reg_operand};
use crate::aarch64::{AArch64Arch, ConditionCode, RegisterClass};
use crate::aarch64::arg::{AddressingMode, ArgKind, MemArgKind};
use crate::x86_64::{
    ArgKind as X64ArgKind, MemArgKind as X64MemArgKind, RegisterClass as X64RegisterClass,
};
use crate::x86_64::{ConditionCode as X64ConditionCode, ShimLabel, X64Arch, flags_after_compare, x64_cond_holds};

verus! {

/// The AArch64 register that holds x86-64 register `r`:
/// `rax, rcx, rdx` → `x0-x2`; `rbx` → `x19`; `rsp` → `sp` (31); `rbp` → `x29`;
/// `rsi, rdi` → `x3, x4`; `r8-r15` → `x5-x12`; with APX, `r16-r23` →
/// `x20-x27` and `r24` and up → `x28` (their base pointer); any other
/// register number is kept.
pub open spec fn aarch64_reg_for(r: u8, apx: bool) -> u8 {
    if apx && 16 <= r <= 23 {
        (20 + (r - 16)) as u8
    } else if apx && r >= 24 {
        28
    } else if r == 0 { 0 }
    else if r == 1 { 1 }
    else if r == 2 { 2 }
    else if r == 3 { 19 }
    else if r == 4 { 31 }
    else if r == 5 { 29 }
    else if r == 6 { 3 }
    else if r == 7 { 4 }
    else if 8 <= r <= 15 { (r - 3) as u8 }
    else { r }
}

/// Maps an x86-64 register to the AArch64 register that stands for it.
pub fn map_x64_register_to_aarch64(reg: Reg, arch: X64Arch) -> (r: Reg)
    ensures
        r.0 == aarch64_reg_for(reg.0, arch.apx),
{
    if arch.apx {
        let r = reg.0;
        if 16 <= r && r <= 23 {
            return Reg(20 + (r - 16));
        }
        if r >= 24 {
            return Reg(28);
        }
    }
    match reg.0 {
        0 => Reg(0),
        1 => Reg(1),
        2 => Reg(2),
        3 => Reg(19),
        4 => Reg(31),
        5 => Reg(29),
        6 => Reg(3),
        7 => Reg(4),
        8 => Reg(5),
        9 => Reg(6),
        10 => Reg(7),
        11 => Reg(8),
        12 => Reg(9),
        13 => Reg(10),
        14 => Reg(11),
        15 => Reg(12),
        n => Reg(n),
    }
}

/// The sixteen x86-64 general-purpose registers go to sixteen distinct
/// AArch64 registers, none of them the link register `x30`; `rsp` goes to
/// `sp` and `rbp` to the frame pointer `x29`; with APX, `r16-r23` get
/// registers of their own.
pub proof fn law_register_map_injective(a: u8, b: u8, apx: bool)
    requires
        a < 24,
        b < 24,
        a < 16 || apx,
        b < 16 || apx,
    ensures
        a != b ==> aarch64_reg_for(a, apx) != aarch64_reg_for(b, apx),
        aarch64_reg_for(a, apx) != 30,
        aarch64_reg_for(4, apx) == 31,
        aarch64_reg_for(5, apx) == 29,
{
}

/// The AArch64 operand that stands for an x86-64 operand: registers are
/// mapped, sizes and literals kept.
pub open spec fn adapt_arg(arg: X64ArgKind, apx: bool) -> ArgKind {
    match arg {
        X64ArgKind::Reg { reg, size } => ArgKind::Reg { reg: Reg(aarch64_reg_for(reg.0, apx)), size },
        X64ArgKind::Lit(v) => ArgKind::Lit(v),
    }
}

/// The AArch64 register class of an x86-64 one: XMM registers are SIMD
/// registers.
pub open spec fn adapt_class(c: X64RegisterClass) -> RegisterClass {
    match c {
        X64RegisterClass::Gpr => RegisterClass::Gpr,
        X64RegisterClass::Xmm => RegisterClass::Simd,
    }
}

/// The register of an APX operand beyond `r23`: it lives in memory, in an
/// 8-byte slot at `x28`.
pub open spec fn apx_spilled(arg: X64ArgKind, apx: bool) -> bool {
    &&& apx
    &&& (arg matches X64ArgKind::Reg { reg, .. } && reg.0 >= 24)
}

/// The byte offset, from `x28`, of the slot of APX register `r` (`r >= 24`).
pub open spec fn apx_slot(r: u8) -> int {
    (r - 24) * 8
}

/// The base pointer `x28` as a 64-bit register operand.
pub open spec fn apx_base() -> ArgKind {
    ArgKind::Reg { reg: Reg(28), size: MemorySize::_64 }
}

/// The AArch64 operand that stands for an x86-64 direct operand or memory
/// reference.  Registers are mapped, sizes and literals kept, the
/// displacement is read as a signed 32-bit value, and a memory reference
/// uses plain offset addressing.  With APX, a register beyond `r23` lives in
/// its slot at `x28`: as a direct operand it becomes the 64-bit memory
/// operand `[x28 + slot]`; as a memory base it is replaced by `x28` with its
/// slot offset added to the displacement; as an index it is folded into the
/// displacement (its slot offset times the scale) and dropped.  The
/// displacement arithmetic wraps around in 32 bits.
pub open spec fn adapt_mem(m: X64MemArgKind, apx: bool) -> MemArgKind {
    match m {
        X64MemArgKind::NoMem(a) => if apx_spilled(a, apx) {
            MemArgKind::Mem {
                base: apx_base(),
                offset: None,
                disp: apx_slot(a->reg.0) as i32,
                size: MemorySize::_64,
                reg_class: RegisterClass::Gpr,
                mode: AddressingMode::Offset,
            }
        } else {
            MemArgKind::NoMem(adapt_arg(a, apx))
        },
        X64MemArgKind::Mem { base, offset, disp, size, reg_class } => {
            let d0 = disp as i32;
            let d1 = if apx_spilled(base, apx) { (d0 + apx_slot(base->reg.0)) as i32 } else { d0 };
            let (off, d2) = match offset {
                Some((o, scale)) => if apx_spilled(o, apx) {
                    (None, (d1 + apx_slot(o->reg.0) * (scale as i32)) as i32)
                } else {
                    (Some((adapt_arg(o, apx), scale)), d1)
                },
                None => (None, d1),
            };
            MemArgKind::Mem {
                base: if apx_spilled(base, apx) { apx_base() } else { adapt_arg(base, apx) },
                offset: off,
                disp: d2,
                size,
                reg_class: adapt_class(reg_class),
                mode: AddressingMode::Offset,
            }
        },
    }
}

/// Converts an x86-64 operand to the AArch64 operand that stands for it.
pub fn convert_arg_kind(arg: X64ArgKind, arch: X64Arch) -> (r: ArgKind)
    ensures
        r == adapt_arg(arg, arch.apx),
{
    match arg {
        X64ArgKind::Reg { reg, size } => ArgKind::Reg { reg: map_x64_register_to_aarch64(reg, arch), size },
        X64ArgKind::Lit(v) => ArgKind::Lit(v),
    }
}

/// Converts an x86-64 register class to the AArch64 one.
pub fn convert_register_class(c: X64RegisterClass) -> (r: RegisterClass)
    ensures
        r == adapt_class(c),
{
    match c {
        X64RegisterClass::Gpr => RegisterClass::Gpr,
        X64RegisterClass::Xmm => RegisterClass::Simd,
    }
}

/// How an operand that names an APX register beyond `r23` is reached
/// through the base pointer `x28`.
#[derive(Clone, Copy, PartialEq, Eq, Debug, Structural)]
pub enum APXAccess {
    /// No special access: the operand maps to AArch64 registers directly.
    Direct,
    /// The register lives at `[base + offset_bytes]`.
    RegOffset { base: Reg, offset_bytes: i32 },
    /// The memory base is replaced by `base`, with `added_disp` added.
    MemBaseOffset { base: Reg, added_disp: i32 },
    /// The memory index is slot `index` at `base`, with its scale.
    MemIndex { base: Reg, index: u32, scale: u32 },
}

/// An x86-64 operand seen as an AArch64 one.
#[derive(Clone, Copy, PartialEq, Eq, Debug, Hash)]
pub struct MemArgAdapter {
    /// The x86-64 operand.
    pub inner: X64MemArgKind,
    /// The x86-64 configuration it comes from.
    pub arch: X64Arch,
}

/// How an APX operand is reached (see [`APXAccess`]): only with APX, for a
/// register `r24` or above, directly (slot `r - 24` of 8 bytes), as a memory
/// base (its slot offset added to the displacement), or as a memory index.
pub open spec fn apx_access_of(m: X64MemArgKind, apx: bool) -> APXAccess {
    if !apx {
        APXAccess::Direct
    } else {
        match m {
            X64MemArgKind::NoMem(X64ArgKind::Reg { reg, .. }) => if reg.0 >= 24 {
                APXAccess::RegOffset { base: Reg(28), offset_bytes: ((reg.0 - 24) * 8) as i32 }
            } else {
                APXAccess::Direct
            },
            X64MemArgKind::NoMem(_) => APXAccess::Direct,
            X64MemArgKind::Mem { base, offset, .. } => {
                if base matches X64ArgKind::Reg { reg, .. } && reg.0 >= 24 {
                    APXAccess::MemBaseOffset { base: Reg(28), added_disp: ((base->reg.0 - 24) * 8) as i32 }
                } else {
                    match offset {
                        Some((X64ArgKind::Reg { reg, .. }, scale)) => if reg.0 >= 24 {
                            APXAccess::MemIndex { base: Reg(28), index: (reg.0 - 24) as u32, scale }
                        } else {
                            APXAccess::Direct
                        },
                        _ => APXAccess::Direct,
                    }
                }
            },
        }
    }
}

impl MemArgAdapter {
    /// Wraps an x86-64 operand of the given configuration.
    pub fn new(inner: X64MemArgKind, arch: X64Arch) -> (a: Self)
        ensures
            a.inner == inner,
            a.arch == arch,
    {
        MemArgAdapter { inner, arch }
    }

    /// The AArch64 operand that stands for the wrapped one (see [`adapt_mem`]).
    pub fn concrete_mem_kind(&self) -> (m: MemArgKind)
        ensures
            m == adapt_mem(self.inner, self.arch.apx),
    {
        let apx = self.arch.apx;
        match self.inner {
            X64MemArgKind::NoMem(a) => {
                if let X64ArgKind::Reg { reg, .. } = a {
                    if apx && reg.0 >= 24 {
                        return MemArgKind::Mem {
                            base: ArgKind::Reg { reg: Reg(28), size: MemorySize::_64 },
                            offset: None,
                            disp: ((reg.0 - 24) as i32) * 8,
                            size: MemorySize::_64,
                            reg_class: RegisterClass::Gpr,
                            mode: AddressingMode::Offset,
                        };
                    }
                }
                MemArgKind::NoMem(convert_arg_kind(a, self.arch))
            },
            X64MemArgKind::Mem { base, offset, disp, size, reg_class } => {
                let mut d: i32 = disp as i32;
                let mut b = convert_arg_kind(base, self.arch);
                if let X64ArgKind::Reg { reg, .. } = base {
                    if apx && reg.0 >= 24 {
                        let added: i32 = ((reg.0 - 24) as i32) * 8;
                        d = (d as i64 + added as i64) as i32;
                        b = ArgKind::Reg { reg: Reg(28), size: MemorySize::_64 };
                    }
                }
                let off = match offset {
                    Some((o, scale)) => {
                        let mut folded = false;
                        if let X64ArgKind::Reg { reg, .. } = o {
                            if apx && reg.0 >= 24 {
                                let added: i64 = ((reg.0 - 24) as i64) * 8;
                                let sc: i32 = scale as i32;
                                assert(-0x1_0000_0000_0000 <= added * (sc as i64) <= 0x1_0000_0000_0000) by (nonlinear_arith)
                                    requires
                                        0 <= added <= 2048,
                                        -0x8000_0000 <= sc < 0x8000_0000,
                                ;
                                d = (d as i64 + added * (sc as i64)) as i32;
                                folded = true;
                            }
                        }
                        if folded {
                            None
                        } else {
                            Some((convert_arg_kind(o, self.arch), scale))
                        }
                    },
                    None => None,
                };
                MemArgKind::Mem {
                    base: b,
                    offset: off,
                    disp: d,
                    size,
                    reg_class: convert_register_class(reg_class),
                    mode: AddressingMode::Offset,
                }
            },
        }
    }

    /// How the wrapped operand is reached when it names an APX register
    /// beyond `r23`.
    pub fn apx_access(&self) -> (r: APXAccess)
        ensures
            r == apx_access_of(self.inner, self.arch.apx),
    {
        if !self.arch.apx {
            return APXAccess::Direct;
        }
        match self.inner {
            X64MemArgKind::NoMem(X64ArgKind::Reg { reg, .. }) => {
                let r = reg.0;
                if r >= 24 {
                    APXAccess::RegOffset { base: Reg(28), offset_bytes: ((r - 24) as i32) * 8 }
                } else {
                    APXAccess::Direct
                }
            },
            X64MemArgKind::NoMem(_) => APXAccess::Direct,
            X64MemArgKind::Mem { base, offset, .. } => {
                if let X64ArgKind::Reg { reg, .. } = base {
                    let r = reg.0;
                    if r >= 24 {
                        return APXAccess::MemBaseOffset { base: Reg(28), added_disp: ((r - 24) as i32) * 8 };
                    }
                }
                if let Some((X64ArgKind::Reg { reg, .. }, scale)) = offset {
                    let r = reg.0;
                    if r >= 24 {
                        return APXAccess::MemIndex { base: Reg(28), index: (r - 24) as u32, scale };
                    }
                }
                APXAccess::Direct
            },
        }
    }
}

/// The AArch64 condition that stands for an x86-64 condition.
pub open spec fn aarch64_cond_for(cc: X64ConditionCode) -> ConditionCode {
    match cc {
        X64ConditionCode::E => ConditionCode::EQ,
        X64ConditionCode::NE => ConditionCode::NE,
        X64ConditionCode::B => ConditionCode::LO,
        X64ConditionCode::NB => ConditionCode::HS,
        X64ConditionCode::A => ConditionCode::HI,
        X64ConditionCode::NA => ConditionCode::LS,
        X64ConditionCode::L => ConditionCode::LT,
        X64ConditionCode::NL => ConditionCode::GE,
        X64ConditionCode::G => ConditionCode::GT,
        X64ConditionCode::NG => ConditionCode::LE,
        X64ConditionCode::O => ConditionCode::VS,
        X64ConditionCode::NO => ConditionCode::VC,
        X64ConditionCode::S => ConditionCode::MI,
        X64ConditionCode::NS => ConditionCode::PL,
        X64ConditionCode::P => ConditionCode::AL,
        X64ConditionCode::NP => ConditionCode::AL,
    }
}

/// Translates an x86-64 condition to an AArch64 condition.  Parity has no
/// AArch64 counterpart and becomes "always".
pub fn translate_condition(cc: X64ConditionCode) -> (c: ConditionCode)
    ensures
        c == aarch64_cond_for(cc),
{
    match cc {
        X64ConditionCode::E => ConditionCode::EQ,
        X64ConditionCode::NE => ConditionCode::NE,
        X64ConditionCode::B => ConditionCode::LO,
        X64ConditionCode::NB => ConditionCode::HS,
        X64ConditionCode::A => ConditionCode::HI,
        X64ConditionCode::NA => ConditionCode::LS,
        X64ConditionCode::L => ConditionCode::LT,
        X64ConditionCode::NL => ConditionCode::GE,
        X64ConditionCode::G => ConditionCode::GT,
        X64ConditionCode::NG => ConditionCode::LE,
        X64ConditionCode::O => ConditionCode::VS,
        X64ConditionCode::NO => ConditionCode::VC,
        X64ConditionCode::S => ConditionCode::MI,
        X64ConditionCode::NS => ConditionCode::PL,
        X64ConditionCode::P => ConditionCode::AL,
        X64ConditionCode::NP => ConditionCode::AL,
    }
}

/// Whether an AArch64 condition holds for the flags `N`, `Z`, `C`, `V`.
pub open spec fn a64_cond_holds(c: ConditionCode, n: bool, z: bool, carry: bool, v: bool) -> bool {
    match c {
        ConditionCode::EQ => z,
        ConditionCode::NE => !z,
        ConditionCode::HS => carry,
        ConditionCode::LO => !carry,
        ConditionCode::MI => n,
        ConditionCode::PL => !n,
        ConditionCode::VS => v,
        ConditionCode::VC => !v,
        ConditionCode::HI => carry && !z,
        ConditionCode::LS => !carry || z,
        ConditionCode::GE => n == v,
        ConditionCode::LT => n != v,
        ConditionCode::GT => !z && n == v,
        ConditionCode::LE => z || n != v,
        ConditionCode::AL => true,
        ConditionCode::NV => true,
    }
}

/// Whether an AArch64 condition holds after `CMP a, b`: `N` and `V` are the
/// sign and signed overflow of `a - b`, `Z` is equality, and the carry is
/// set when the subtraction does not borrow.
pub open spec fn a64_cond_after_compare(c: ConditionCode, a: u64, b: u64) -> bool {
    let f = flags_after_compare(a, b);
    a64_cond_holds(c, f.sf, f.zf, !f.cf, f.of)
}

/// Every x86-64 condition but the two parity ones translates exactly: after
/// a comparison of the same operands, the AArch64 condition holds exactly
/// when the x86-64 one does.
pub proof fn law_condition_translation_exact(cc: X64ConditionCode, a: u64, b: u64)
    requires
        !(cc is P || cc is NP),
    ensures
        a64_cond_after_compare(aarch64_cond_for(cc), a, b) == x64_cond_holds(cc, a, b),
{
}

/// A translation shim around an AArch64 writer `W`: it holds the writer,
/// the AArch64 configuration, and a counter that numbers its own labels.
pub struct X64ToAArch64Shim<W> {
    /// The underlying AArch64 writer.
    pub inner: W,
    /// AArch64 architecture configuration.
    pub aarch64_cfg: AArch64Arch,
    shim_counter: usize,
}

impl<W> X64ToAArch64Shim<W> {
    /// The number of labels the shim has made so far (the next label's number).
    pub closed spec fn counter(&self) -> usize {
        self.shim_counter
    }

    /// The wrapped writer.
    pub closed spec fn writer(&self) -> W {
        self.inner
    }

    /// The AArch64 configuration.
    pub closed spec fn config(&self) -> AArch64Arch {
        self.aarch64_cfg
    }

    /// A shim around `inner` with the default configuration.
    pub fn new(inner: W) -> (s: Self)
        ensures
            s.writer() == inner,
            s.config() == (AArch64Arch {}),
            s.counter() == 0,
    {
        X64ToAArch64Shim { inner, aarch64_cfg: AArch64Arch::default(), shim_counter: 0 }
    }

    /// A shim around `inner` for the given configuration.
    pub fn with_config(inner: W, aarch64_cfg: AArch64Arch) -> (s: Self)
        ensures
            s.writer() == inner,
            s.config() == aarch64_cfg,
            s.counter() == 0,
    {
        X64ToAArch64Shim { inner, aarch64_cfg, shim_counter: 0 }
    }

    /// `self` is `before` after handing out label `l`: the label carries
    /// the counter, which moves on by one.
    pub open spec fn took_label(self, before: Self, l: ShimLabel) -> bool {
        &&& l == ShimLabel(before.counter())
        &&& self.counter() == before.counter() + 1
        &&& self.writer() == before.writer()
        &&& self.config() == before.config()
    }

    /// A label the shim has not handed out before.
    pub fn next_shim_label(&mut self) -> (l: ShimLabel)
        requires
            old(self).counter() < usize::MAX,
        ensures
            final(self).took_label(*old(self), l),
    {
        let label = ShimLabel(self.shim_counter);
        self.shim_counter = self.shim_counter + 1;
        label
    }
}


// ── instruction translation ─────────────────────────────────────────────────

/// The scratch registers of the translation: `x16` and `x17` (IP0, IP1).
pub open spec fn t16() -> MemArgKind {
    reg_operand(16)
}

/// See [`t16`].
pub open spec fn t17() -> MemArgKind {
    reg_operand(17)
}

/// `[sp, #-8]!`: a push slot.
pub open spec fn push_slot() -> MemArgKind {
    frame_slot(31, -8i32, RegisterClass::Gpr, AddressingMode::PreIndex)
}

/// `[sp], #8`: a pop slot.
pub open spec fn pop_slot() -> MemArgKind {
    frame_slot(31, 8i32, RegisterClass::Gpr, AddressingMode::PostIndex)
}

/// The operand is a memory reference.
pub open spec fn is_mem(m: MemArgKind) -> bool {
    m is Mem
}

/// The three-operand AArch64 operations the shim lowers two-operand x86-64
/// arithmetic to.
#[derive(Clone, Copy, PartialEq, Eq, Debug, Structural)]
pub enum ShimOp {
    Add,
    Sub,
    Mul,
    Udiv,
    Sdiv,
    And,
    Orr,
    Eor,
    Lsl,
    Lsr,
    Fadd,
    Fsub,
}

/// The word of `op dest, a, b`.
pub open spec fn op_word(op: ShimOp, dest: MemArgKind, a: MemArgKind, b: MemArgKind) -> u32 {
    match op {
        ShimOp::Add => w_add(dest, a, b),
        ShimOp::Sub => w_sub(dest, a, b),
        ShimOp::Mul => w_rrr(opc_mul(), dest, a, b),
        ShimOp::Udiv => w_rrr(opc_udiv(), dest, a, b),
        ShimOp::Sdiv => w_rrr(opc_sdiv(), dest, a, b),
        ShimOp::And => w_rrr(opc_and(), dest, a, b),
        ShimOp::Orr => w_rrr(opc_orr(), dest, a, b),
        ShimOp::Eor => w_rrr(opc_eor(), dest, a, b),
        ShimOp::Lsl => w_shift(ShiftKind::Lsl, dest, a, b),
        ShimOp::Lsr => w_shift(ShiftKind::Lsr, dest, a, b),
        ShimOp::Fadd => w_rrr(opc_fadd(), dest, a, b),
        ShimOp::Fsub => w_rrr(opc_fsub(), dest, a, b),
    }
}

/// x86-64 `op a, b` (`a = a op b`): directly on registers; a memory `a` is
/// loaded into `x16`, computed and stored back; a memory `b` is loaded into
/// `x17`.
pub open spec fn two_operand_words(op: ShimOp, a: MemArgKind, b: MemArgKind) -> Seq<u32> {
    if !is_mem(a) && !is_mem(b) {
        seq![op_word(op, a, a, b)]
    } else if is_mem(a) && !is_mem(b) {
        seq![w_ldst(true, t16(), a), op_word(op, t16(), t16(), b), w_ldst(false, t16(), a)]
    } else if !is_mem(a) {
        seq![w_ldst(true, t17(), b), op_word(op, a, a, t17())]
    } else {
        seq![
            w_ldst(true, t16(), a),
            w_ldst(true, t17(), b),
            op_word(op, t16(), t16(), t17()),
            w_ldst(false, t16(), a),
        ]
    }
}

/// The AArch64 operation each shim operation decodes to.
pub open spec fn shim_a64_op(op: ShimOp) -> crate::aarch64::decode::A64Op {
    match op {
        ShimOp::Add => crate::aarch64::decode::A64Op::Add,
        ShimOp::Sub => crate::aarch64::decode::A64Op::Sub,
        ShimOp::Mul => crate::aarch64::decode::A64Op::Mul,
        ShimOp::Udiv => crate::aarch64::decode::A64Op::Udiv,
        ShimOp::Sdiv => crate::aarch64::decode::A64Op::Sdiv,
        ShimOp::And => crate::aarch64::decode::A64Op::And,
        ShimOp::Orr => crate::aarch64::decode::A64Op::Orr,
        ShimOp::Eor => crate::aarch64::decode::A64Op::Eor,
        ShimOp::Lsl => crate::aarch64::decode::A64Op::Lslv,
        ShimOp::Lsr => crate::aarch64::decode::A64Op::Lsrv,
        ShimOp::Fadd => crate::aarch64::decode::A64Op::Fadd,
        ShimOp::Fsub => crate::aarch64::decode::A64Op::Fsub,
    }
}

/// x86-64 `op a, b` on two registers computes `a := a op b`: it is one
/// word that decodes to the operation, writes `a`'s register, and takes its
/// first source from `a` and its second from `b`; for the integer
/// operations, the value it writes for source values `x` (of `a`) and `y`
/// (of `b`) is `x op y`.
pub proof fn law_two_operand_registers(op: ShimOp, a: MemArgKind, b: MemArgKind, x: u64, y: u64)
    requires
        a matches MemArgKind::NoMem(ArgKind::Reg { .. }),
        b matches MemArgKind::NoMem(ArgKind::Reg { .. }),
        crate::aarch64::encode::reg_of(a) < 32,
        crate::aarch64::encode::reg_of(b) < 32,
    ensures
        two_operand_words(op, a, b).len() == 1,
        crate::aarch64::decode::rrr_op(two_operand_words(op, a, b)[0]) == Some(shim_a64_op(op)),
        crate::aarch64::decode::fields_are(two_operand_words(op, a, b)[0], a, a, b),
        crate::aarch64::decode::rrr_result(two_operand_words(op, a, b)[0], x, y)
            == crate::aarch64::decode::int_result(shim_a64_op(op), x, y),
{
    crate::aarch64::decode::law_logical_words(a, a, b, x, y);
    crate::aarch64::decode::law_arith_words(a, a, b, x, y);
    assert(two_operand_words(op, a, b) == seq![op_word(op, a, a, b)]);
}

/// x86-64 `MOV dest, src`: a register move, a load, a store, or a load into
/// `x16` and a store for memory to memory.
pub open spec fn mov_words(dest: MemArgKind, src: MemArgKind) -> Seq<u32> {
    if !is_mem(dest) && !is_mem(src) {
        seq![w_mov(dest, src)]
    } else if !is_mem(dest) {
        seq![w_ldst(true, dest, src)]
    } else if !is_mem(src) {
        seq![w_ldst(false, src, dest)]
    } else {
        seq![w_ldst(true, t16(), src), w_ldst(false, t16(), dest)]
    }
}

/// x86-64 `MOVSX`/`MOVZX dest, src`: the extension (`SXT`/`UXT`), through
/// `x16` and `x17` for memory operands.
pub open spec fn extend_words(signed: bool, dest: MemArgKind, src: MemArgKind) -> Seq<u32> {
    let ext = |d: MemArgKind, s: MemArgKind| if signed { w_sxt(d, s) } else { w_uxt(d, s) };
    if !is_mem(src) {
        if !is_mem(dest) {
            seq![ext(dest, src)]
        } else {
            seq![ext(t16(), src), w_ldst(false, t16(), dest)]
        }
    } else {
        let head = seq![w_ldst(true, t16(), src), ext(t17(), t16())];
        if !is_mem(dest) {
            head.push(w_mov(dest, t17()))
        } else {
            head.push(w_ldst(false, t17(), dest))
        }
    }
}

/// x86-64 `CMP a, b`: through `x16` for a memory `a` and `x17` for a memory `b`.
pub open spec fn compare_words(a: MemArgKind, b: MemArgKind) -> Seq<u32> {
    if !is_mem(a) && !is_mem(b) {
        seq![w_compare(a, b)]
    } else if is_mem(a) {
        if is_mem(b) {
            seq![w_ldst(true, t16(), a), w_ldst(true, t17(), b), w_compare(t16(), t17())]
        } else {
            seq![w_ldst(true, t16(), a), w_compare(t16(), b)]
        }
    } else {
        seq![w_ldst(true, t17(), b), w_compare(a, t17())]
    }
}

/// x86-64 `CMOVcc op, val`: `CSEL op, val, op, cond`, through `x16` (and a
/// store back) for a memory `op` and `x17` for a memory `val`.
pub open spec fn cmov_words(cond: ConditionCode, op: MemArgKind, val: MemArgKind) -> Seq<u32> {
    if !is_mem(op) && !is_mem(val) {
        seq![w_csel(cond, op, val, op)]
    } else if is_mem(op) && !is_mem(val) {
        seq![w_ldst(true, t16(), op), w_csel(cond, t16(), val, t16()), w_ldst(false, t16(), op)]
    } else if !is_mem(op) {
        seq![w_ldst(true, t17(), val), w_csel(cond, op, t17(), op)]
    } else {
        seq![
            w_ldst(true, t16(), op),
            w_ldst(true, t17(), val),
            w_csel(cond, t16(), t17(), t16()),
            w_ldst(false, t16(), op),
        ]
    }
}

/// x86-64 `NOT op`: `MVN`, through `x16` for memory.
pub open spec fn not_words(op: MemArgKind) -> Seq<u32> {
    if !is_mem(op) {
        seq![w_mvn(op, op)]
    } else {
        seq![w_ldst(true, t16(), op), w_mvn(t16(), t16()), w_ldst(false, t16(), op)]
    }
}

/// The literal operand `v`.
pub open spec fn lit_operand(v: u64) -> MemArgKind {
    MemArgKind::NoMem(ArgKind::Lit(v))
}

/// x86-64 zero-extension of the low 32 bits of `op`: `AND` with
/// `0xFFFF_FFFF` loaded into `x16`, through `x17` for memory.
pub open spec fn u32_words(op: MemArgKind) -> Seq<u32> {
    let mask = mov_imm_words(16, 0xFFFF_FFFF);
    if !is_mem(op) {
        mask + seq![w_rrr(opc_and(), op, op, t16())]
    } else {
        mask + seq![w_ldst(true, t17(), op), w_rrr(opc_and(), t17(), t17(), t16()), w_ldst(false, t17(), op)]
    }
}

proof fn lemma_words2(w1: u32, w2: u32)
    ensures
        words_bytes(seq![w1, w2]) == le_bytes_of(w1) + le_bytes_of(w2),
{
    lemma_words_bytes_push(Seq::empty(), w1);
    assert(Seq::<u32>::empty().push(w1) =~= seq![w1]);
    lemma_words_bytes_push(seq![w1], w2);
    assert(seq![w1].push(w2) =~= seq![w1, w2]);
}

proof fn lemma_words3(w1: u32, w2: u32, w3: u32)
    ensures
        words_bytes(seq![w1, w2, w3]) == le_bytes_of(w1) + le_bytes_of(w2) + le_bytes_of(w3),
{
    lemma_words2(w1, w2);
    lemma_words_bytes_push(seq![w1, w2], w3);
    assert(seq![w1, w2].push(w3) =~= seq![w1, w2, w3]);
}

proof fn lemma_words4(w1: u32, w2: u32, w3: u32, w4: u32)
    ensures
        words_bytes(seq![w1, w2, w3, w4]) == le_bytes_of(w1) + le_bytes_of(w2) + le_bytes_of(w3)
            + le_bytes_of(w4),
{
    lemma_words3(w1, w2, w3);
    lemma_words_bytes_push(seq![w1, w2, w3], w4);
    assert(seq![w1, w2, w3].push(w4) =~= seq![w1, w2, w3, w4]);
}

/// The little-endian bytes of a word.
pub open spec fn le_bytes_of(w: u32) -> Seq<u8> {
    crate::common::le_bytes(w)
}

fn reg_arg(r: u8) -> (a: MemArgKind)
    ensures
        a == reg_operand(r),
{
    MemArgKind::NoMem(ArgKind::Reg { reg: Reg(r), size: MemorySize::_64 })
}

fn sp_slot(push: bool) -> (m: MemArgKind)
    ensures
        m == if push { push_slot() } else { pop_slot() },
{
    MemArgKind::Mem {
        base: ArgKind::Reg { reg: Reg(31), size: MemorySize::_64 },
        offset: None,
        disp: if push { -8 } else { 8 },
        size: MemorySize::_64,
        reg_class: RegisterClass::Gpr,
        mode: if push { AddressingMode::PreIndex } else { AddressingMode::PostIndex },
    }
}

fn is_mem_exec(m: &MemArgKind) -> (b: bool)
    ensures
        b == is_mem(*m),
{
    match m {
        MemArgKind::Mem { .. } => true,
        MemArgKind::NoMem(_) => false,
    }
}

impl<L> X64ToAArch64Shim<AArch64Writer<L>> {
    /// `self` is `before` with the words `ws` appended to its writer.
    pub open spec fn x64_wrote(self, before: Self, ws: Seq<u32>) -> bool {
        &&& self.writer().emitted_all(before.writer(), ws)
        &&& self.counter() == before.counter()
        &&& self.config() == before.config()
    }

    fn op_emit<C>(&mut self, ctx: &mut C, op: ShimOp, d: &MemArgKind, a: &MemArgKind, b: &MemArgKind)
        requires
            old(self).writer().wf(),
        ensures
            final(self).writer().emitted(old(self).writer(), op_word(op, *d, *a, *b)),
            final(self).counter() == old(self).counter(),
            final(self).config() == old(self).config(),
    {
        let cfg = self.aarch64_cfg;
        let _ = match op {
            ShimOp::Add => self.inner.add(ctx, cfg, d, a, b),
            ShimOp::Sub => self.inner.sub(ctx, cfg, d, a, b),
            ShimOp::Mul => self.inner.mul(ctx, cfg, d, a, b),
            ShimOp::Udiv => self.inner.udiv(ctx, cfg, d, a, b),
            ShimOp::Sdiv => self.inner.sdiv(ctx, cfg, d, a, b),
            ShimOp::And => self.inner.and(ctx, cfg, d, a, b),
            ShimOp::Orr => self.inner.orr(ctx, cfg, d, a, b),
            ShimOp::Eor => self.inner.eor(ctx, cfg, d, a, b),
            ShimOp::Lsl => self.inner.lsl(ctx, cfg, d, a, b),
            ShimOp::Lsr => self.inner.lsr(ctx, cfg, d, a, b),
            ShimOp::Fadd => self.inner.fadd(ctx, cfg, d, a, b),
            ShimOp::Fsub => self.inner.fsub(ctx, cfg, d, a, b),
        };
    }

    /// x86-64 `op a, b` (`a = a op b`), see [`two_operand_words`].
    pub fn two_operand<C>(&mut self, ctx: &mut C, arch: X64Arch, a: &X64MemArgKind, b: &X64MemArgKind, op: ShimOp) -> (r: Result<(), Infallible>)
        requires
            old(self).writer().wf(),
        ensures
            r is Ok,
            final(self).x64_wrote(*old(self), two_operand_words(op, adapt_mem(*a, arch.apx), adapt_mem(*b, arch.apx))),
    {
        let ghost b0 = self.inner.bytes();
        let ma = MemArgAdapter::new(*a, arch).concrete_mem_kind();
        let mb = MemArgAdapter::new(*b, arch).concrete_mem_kind();
        let cfg = self.aarch64_cfg;
        let t16 = reg_arg(16);
        let t17 = reg_arg(17);
        let am = is_mem_exec(&ma);
        let bm = is_mem_exec(&mb);
        if !am && !bm {
            self.op_emit(ctx, op, &ma, &ma, &mb);
            proof { lemma_words_bytes_push(Seq::empty(), op_word(op, ma, ma, mb)); }
        } else if am && !bm {
            let _ = self.inner.ldr(ctx, cfg, &t16, &ma);
            self.op_emit(ctx, op, &t16, &t16, &mb);
            let _ = self.inner.str(ctx, cfg, &t16, &ma);
            proof { lemma_words3(w_ldst(true, t16, ma), op_word(op, t16, t16, mb), w_ldst(false, t16, ma)); }
        } else if !am {
            let _ = self.inner.ldr(ctx, cfg, &t17, &mb);
            self.op_emit(ctx, op, &ma, &ma, &t17);
            proof { lemma_words2(w_ldst(true, t17, mb), op_word(op, ma, ma, t17)); }
        } else {
            let _ = self.inner.ldr(ctx, cfg, &t16, &ma);
            let _ = self.inner.ldr(ctx, cfg, &t17, &mb);
            self.op_emit(ctx, op, &t16, &t16, &t17);
            let _ = self.inner.str(ctx, cfg, &t16, &ma);
            proof {
                lemma_words4(w_ldst(true, t16, ma), w_ldst(true, t17, mb), op_word(op, t16, t16, t17), w_ldst(false, t16, ma));
            }
        }
        assert(self.inner.bytes() =~= b0 + words_bytes(two_operand_words(op, ma, mb)));
        Ok(())
    }

    /// x86-64 `HLT`: `BRK #0`.
    pub fn hlt<C>(&mut self, ctx: &mut C, _arch: X64Arch) -> (r: Result<(), Infallible>)
        requires
            old(self).writer().wf(),
        ensures
            r is Ok,
            final(self).x64_wrote(*old(self), seq![w_brk(0)]),
    {
        let cfg = self.aarch64_cfg;
        let _ = self.inner.brk(ctx, cfg, 0);
        proof { lemma_words_bytes_push(Seq::empty(), w_brk(0)); }
        Ok(())
    }

    /// x86-64 `XCHG dest, src`: three moves through `x16`.
    pub fn xchg<C>(&mut self, ctx: &mut C, arch: X64Arch, dest: &X64MemArgKind, src: &X64MemArgKind) -> (r: Result<(), Infallible>)
        requires
            old(self).writer().wf(),
        ensures
            r is Ok,
            final(self).x64_wrote(*old(self), {
                let d = adapt_mem(*dest, arch.apx);
                let s = adapt_mem(*src, arch.apx);
                seq![w_mov(t16(), d), w_mov(d, s), w_mov(s, t16())]
            }),
    {
        let ghost b0 = self.inner.bytes();
        let d = MemArgAdapter::new(*dest, arch).concrete_mem_kind();
        let sv = MemArgAdapter::new(*src, arch).concrete_mem_kind();
        let t16 = reg_arg(16);
        let cfg = self.aarch64_cfg;
        let _ = self.inner.mov(ctx, cfg, &t16, &d);
        let _ = self.inner.mov(ctx, cfg, &d, &sv);
        let _ = self.inner.mov(ctx, cfg, &sv, &t16);
        proof {
            lemma_words3(w_mov(t16, d), w_mov(d, sv), w_mov(sv, t16));
            assert(self.inner.bytes() =~= b0 + words_bytes(seq![w_mov(t16, d), w_mov(d, sv), w_mov(sv, t16)]));
        }
        Ok(())
    }

    /// x86-64 `MOV dest, src`, see [`mov_words`].
    pub fn mov<C>(&mut self, ctx: &mut C, arch: X64Arch, dest: &X64MemArgKind, src: &X64MemArgKind) -> (r: Result<(), Infallible>)
        requires
            old(self).writer().wf(),
        ensures
            r is Ok,
            final(self).x64_wrote(*old(self), mov_words(adapt_mem(*dest, arch.apx), adapt_mem(*src, arch.apx))),
    {
        let ghost b0 = self.inner.bytes();
        let d = MemArgAdapter::new(*dest, arch).concrete_mem_kind();
        let sv = MemArgAdapter::new(*src, arch).concrete_mem_kind();
        let t16 = reg_arg(16);
        let cfg = self.aarch64_cfg;
        let dm = is_mem_exec(&d);
        let sm = is_mem_exec(&sv);
        if !dm && !sm {
            let _ = self.inner.mov(ctx, cfg, &d, &sv);
            proof { lemma_words_bytes_push(Seq::empty(), w_mov(d, sv)); }
        } else if !dm {
            let _ = self.inner.ldr(ctx, cfg, &d, &sv);
            proof { lemma_words_bytes_push(Seq::empty(), w_ldst(true, d, sv)); }
        } else if !sm {
            let _ = self.inner.str(ctx, cfg, &sv, &d);
            proof { lemma_words_bytes_push(Seq::empty(), w_ldst(false, sv, d)); }
        } else {
            let _ = self.inner.ldr(ctx, cfg, &t16, &sv);
            let _ = self.inner.str(ctx, cfg, &t16, &d);
            proof { lemma_words2(w_ldst(true, t16, sv), w_ldst(false, t16, d)); }
        }
        assert(self.inner.bytes() =~= b0 + words_bytes(mov_words(d, sv)));
        Ok(())
    }

    fn extend<C>(&mut self, ctx: &mut C, arch: X64Arch, signed: bool, dest: &X64MemArgKind, src: &X64MemArgKind) -> (r: Result<(), Infallible>)
        requires
            old(self).writer().wf(),
        ensures
            r is Ok,
            final(self).x64_wrote(*old(self), extend_words(signed, adapt_mem(*dest, arch.apx), adapt_mem(*src, arch.apx))),
    {
        let ghost b0 = self.inner.bytes();
        let d = MemArgAdapter::new(*dest, arch).concrete_mem_kind();
        let sv = MemArgAdapter::new(*src, arch).concrete_mem_kind();
        let t16 = reg_arg(16);
        let t17 = reg_arg(17);
        let cfg = self.aarch64_cfg;
        let ghost ext = |dd: MemArgKind, ss: MemArgKind| if signed { w_sxt(dd, ss) } else { w_uxt(dd, ss) };
        if !is_mem_exec(&sv) {
            if !is_mem_exec(&d) {
                let _ = if signed { self.inner.sxt(ctx, cfg, &d, &sv) } else { self.inner.uxt(ctx, cfg, &d, &sv) };
                proof { lemma_words_bytes_push(Seq::empty(), ext(d, sv)); }
            } else {
                let _ = if signed { self.inner.sxt(ctx, cfg, &t16, &sv) } else { self.inner.uxt(ctx, cfg, &t16, &sv) };
                let _ = self.inner.str(ctx, cfg, &t16, &d);
                proof { lemma_words2(ext(t16, sv), w_ldst(false, t16, d)); }
            }
        } else {
            let _ = self.inner.ldr(ctx, cfg, &t16, &sv);
            let _ = if signed { self.inner.sxt(ctx, cfg, &t17, &t16) } else { self.inner.uxt(ctx, cfg, &t17, &t16) };
            if !is_mem_exec(&d) {
                let _ = self.inner.mov(ctx, cfg, &d, &t17);
                proof {
                    lemma_words3(w_ldst(true, t16, sv), ext(t17, t16), w_mov(d, t17));
                    assert(seq![w_ldst(true, t16, sv), ext(t17, t16)].push(w_mov(d, t17)) =~= seq![w_ldst(true, t16, sv), ext(t17, t16), w_mov(d, t17)]);
                }
            } else {
                let _ = self.inner.str(ctx, cfg, &t17, &d);
                proof {
                    lemma_words3(w_ldst(true, t16, sv), ext(t17, t16), w_ldst(false, t17, d));
                    assert(seq![w_ldst(true, t16, sv), ext(t17, t16)].push(w_ldst(false, t17, d)) =~= seq![w_ldst(true, t16, sv), ext(t17, t16), w_ldst(false, t17, d)]);
                }
            }
        }
        assert(self.inner.bytes() =~= b0 + words_bytes(extend_words(signed, d, sv)));
        Ok(())
    }

    /// x86-64 `MOVSX dest, src`, see [`extend_words`].
    pub fn movsx<C>(&mut self, ctx: &mut C, arch: X64Arch, dest: &X64MemArgKind, src: &X64MemArgKind) -> (r: Result<(), Infallible>)
        requires
            old(self).writer().wf(),
        ensures
            r is Ok,
            final(self).x64_wrote(*old(self), extend_words(true, adapt_mem(*dest, arch.apx), adapt_mem(*src, arch.apx))),
    {
        self.extend(ctx, arch, true, dest, src)
    }

    /// x86-64 `MOVZX dest, src`, see [`extend_words`].
    pub fn movzx<C>(&mut self, ctx: &mut C, arch: X64Arch, dest: &X64MemArgKind, src: &X64MemArgKind) -> (r: Result<(), Infallible>)
        requires
            old(self).writer().wf(),
        ensures
            r is Ok,
            final(self).x64_wrote(*old(self), extend_words(false, adapt_mem(*dest, arch.apx), adapt_mem(*src, arch.apx))),
    {
        self.extend(ctx, arch, false, dest, src)
    }

    /// x86-64 `PUSH op`: `STR op, [sp, #-8]!`.
    pub fn push<C>(&mut self, ctx: &mut C, arch: X64Arch, op: &X64MemArgKind) -> (r: Result<(), Infallible>)
        requires
            old(self).writer().wf(),
        ensures
            r is Ok,
            final(self).x64_wrote(*old(self), seq![w_ldst(false, adapt_mem(*op, arch.apx), push_slot())]),
    {
        let o = MemArgAdapter::new(*op, arch).concrete_mem_kind();
        let cfg = self.aarch64_cfg;
        let _ = self.inner.str(ctx, cfg, &o, &sp_slot(true));
        proof { lemma_words_bytes_push(Seq::empty(), w_ldst(false, o, push_slot())); }
        Ok(())
    }

    /// x86-64 `POP op`: `LDR op, [sp], #8`.
    pub fn pop<C>(&mut self, ctx: &mut C, arch: X64Arch, op: &X64MemArgKind) -> (r: Result<(), Infallible>)
        requires
            old(self).writer().wf(),
        ensures
            r is Ok,
            final(self).x64_wrote(*old(self), seq![w_ldst(true, adapt_mem(*op, arch.apx), pop_slot())]),
    {
        let o = MemArgAdapter::new(*op, arch).concrete_mem_kind();
        let cfg = self.aarch64_cfg;
        let _ = self.inner.ldr(ctx, cfg, &o, &sp_slot(false));
        proof { lemma_words_bytes_push(Seq::empty(), w_ldst(true, o, pop_slot())); }
        Ok(())
    }

    /// x86-64 `PUSHF`: `MRS x16, NZCV` and a push of `x16`.
    pub fn pushf<C>(&mut self, ctx: &mut C, _arch: X64Arch) -> (r: Result<(), Infallible>)
        requires
            old(self).writer().wf(),
        ensures
            r is Ok,
            final(self).x64_wrote(*old(self), seq![w_mrs_nzcv(t16()), w_ldst(false, t16(), push_slot())]),
    {
        let ghost b0 = self.inner.bytes();
        let t16 = reg_arg(16);
        let cfg = self.aarch64_cfg;
        let _ = self.inner.mrs_nzcv(ctx, cfg, &t16);
        let _ = self.inner.str(ctx, cfg, &t16, &sp_slot(true));
        proof { lemma_words2(w_mrs_nzcv(t16), w_ldst(false, t16, push_slot())); }
        assert(self.inner.bytes() =~= b0 + words_bytes(seq![w_mrs_nzcv(t16), w_ldst(false, t16, push_slot())]));
        Ok(())
    }

    /// x86-64 `POPF`: a pop into `x16` and `MSR NZCV, x16`.
    pub fn popf<C>(&mut self, ctx: &mut C, _arch: X64Arch) -> (r: Result<(), Infallible>)
        requires
            old(self).writer().wf(),
        ensures
            r is Ok,
            final(self).x64_wrote(*old(self), seq![w_ldst(true, t16(), pop_slot()), w_msr_nzcv(t16())]),
    {
        let ghost b0 = self.inner.bytes();
        let t16 = reg_arg(16);
        let cfg = self.aarch64_cfg;
        let _ = self.inner.ldr(ctx, cfg, &t16, &sp_slot(false));
        let _ = self.inner.msr_nzcv(ctx, cfg, &t16);
        proof { lemma_words2(w_ldst(true, t16, pop_slot()), w_msr_nzcv(t16)); }
        assert(self.inner.bytes() =~= b0 + words_bytes(seq![w_ldst(true, t16, pop_slot()), w_msr_nzcv(t16)]));
        Ok(())
    }

    /// x86-64 `JMP op`: `B` to a literal offset, `BR` to a register.
    pub fn jmp<C>(&mut self, ctx: &mut C, arch: X64Arch, op: &X64MemArgKind) -> (r: Result<(), Infallible>)
        requires
            old(self).writer().wf(),
        ensures
            r is Ok,
            final(self).x64_wrote(*old(self), seq![w_b(adapt_mem(*op, arch.apx))]),
    {
        let o = MemArgAdapter::new(*op, arch).concrete_mem_kind();
        let cfg = self.aarch64_cfg;
        let _ = self.inner.b(ctx, cfg, &o);
        proof { lemma_words_bytes_push(Seq::empty(), w_b(o)); }
        Ok(())
    }

    /// x86-64 `CMP a, b`, see [`compare_words`].
    pub fn compare<C>(&mut self, ctx: &mut C, arch: X64Arch, a: &X64MemArgKind, b: &X64MemArgKind) -> (r: Result<(), Infallible>)
        requires
            old(self).writer().wf(),
        ensures
            r is Ok,
            final(self).x64_wrote(*old(self), compare_words(adapt_mem(*a, arch.apx), adapt_mem(*b, arch.apx))),
    {
        let ghost b0 = self.inner.bytes();
        let ma = MemArgAdapter::new(*a, arch).concrete_mem_kind();
        let mb = MemArgAdapter::new(*b, arch).concrete_mem_kind();
        let t16 = reg_arg(16);
        let t17 = reg_arg(17);
        let cfg = self.aarch64_cfg;
        if !is_mem_exec(&ma) && !is_mem_exec(&mb) {
            let _ = self.inner.compare(ctx, cfg, &ma, &mb);
            proof { lemma_words_bytes_push(Seq::empty(), w_compare(ma, mb)); }
        } else if is_mem_exec(&ma) {
            let _ = self.inner.ldr(ctx, cfg, &t16, &ma);
            if is_mem_exec(&mb) {
                let _ = self.inner.ldr(ctx, cfg, &t17, &mb);
                let _ = self.inner.compare(ctx, cfg, &t16, &t17);
                proof { lemma_words3(w_ldst(true, t16, ma), w_ldst(true, t17, mb), w_compare(t16, t17)); }
            } else {
                let _ = self.inner.compare(ctx, cfg, &t16, &mb);
                proof { lemma_words2(w_ldst(true, t16, ma), w_compare(t16, mb)); }
            }
        } else {
            let _ = self.inner.ldr(ctx, cfg, &t17, &mb);
            let _ = self.inner.compare(ctx, cfg, &ma, &t17);
            proof { lemma_words2(w_ldst(true, t17, mb), w_compare(ma, t17)); }
        }
        assert(self.inner.bytes() =~= b0 + words_bytes(compare_words(ma, mb)));
        Ok(())
    }

    /// x86-64 `CMP op, 0`: `CMP op, #0`, through `x16` for memory.
    pub fn compare0<C>(&mut self, ctx: &mut C, arch: X64Arch, op: &X64MemArgKind) -> (r: Result<(), Infallible>)
        requires
            old(self).writer().wf(),
        ensures
            r is Ok,
            final(self).x64_wrote(*old(self), {
                let o = adapt_mem(*op, arch.apx);
                if !is_mem(o) {
                    seq![w_compare(o, lit_operand(0))]
                } else {
                    seq![w_ldst(true, t16(), o), w_compare(t16(), lit_operand(0))]
                }
            }),
    {
        let ghost b0 = self.inner.bytes();
        let o = MemArgAdapter::new(*op, arch).concrete_mem_kind();
        let t16 = reg_arg(16);
        let zero = MemArgKind::NoMem(ArgKind::Lit(0));
        let cfg = self.aarch64_cfg;
        if !is_mem_exec(&o) {
            let _ = self.inner.compare(ctx, cfg, &o, &zero);
            proof { lemma_words_bytes_push(Seq::empty(), w_compare(o, zero)); }
        } else {
            let _ = self.inner.ldr(ctx, cfg, &t16, &o);
            let _ = self.inner.compare(ctx, cfg, &t16, &zero);
            proof {
                lemma_words2(w_ldst(true, t16, o), w_compare(t16, zero));
                assert(self.inner.bytes() =~= b0 + words_bytes(seq![w_ldst(true, t16, o), w_compare(t16, zero)]));
            }
        }
        Ok(())
    }

    /// x86-64 `CMOVcc op, val`, see [`cmov_words`].
    pub fn cmovcc64<C>(&mut self, ctx: &mut C, arch: X64Arch, cond: X64ConditionCode, op: &X64MemArgKind, val: &X64MemArgKind) -> (r: Result<(), Infallible>)
        requires
            old(self).writer().wf(),
        ensures
            r is Ok,
            final(self).x64_wrote(
                *old(self),
                cmov_words(aarch64_cond_for(cond), adapt_mem(*op, arch.apx), adapt_mem(*val, arch.apx)),
            ),
    {
        let ghost b0 = self.inner.bytes();
        let c = translate_condition(cond);
        let mo = MemArgAdapter::new(*op, arch).concrete_mem_kind();
        let mv = MemArgAdapter::new(*val, arch).concrete_mem_kind();
        let t16 = reg_arg(16);
        let t17 = reg_arg(17);
        let cfg = self.aarch64_cfg;
        let om = is_mem_exec(&mo);
        let vm = is_mem_exec(&mv);
        if !om && !vm {
            let _ = self.inner.csel(ctx, cfg, c, &mo, &mv, &mo);
            proof { lemma_words_bytes_push(Seq::empty(), w_csel(c, mo, mv, mo)); }
        } else if om && !vm {
            let _ = self.inner.ldr(ctx, cfg, &t16, &mo);
            let _ = self.inner.csel(ctx, cfg, c, &t16, &mv, &t16);
            let _ = self.inner.str(ctx, cfg, &t16, &mo);
            proof { lemma_words3(w_ldst(true, t16, mo), w_csel(c, t16, mv, t16), w_ldst(false, t16, mo)); }
        } else if !om {
            let _ = self.inner.ldr(ctx, cfg, &t17, &mv);
            let _ = self.inner.csel(ctx, cfg, c, &mo, &t17, &mo);
            proof { lemma_words2(w_ldst(true, t17, mv), w_csel(c, mo, t17, mo)); }
        } else {
            let _ = self.inner.ldr(ctx, cfg, &t16, &mo);
            let _ = self.inner.ldr(ctx, cfg, &t17, &mv);
            let _ = self.inner.csel(ctx, cfg, c, &t16, &t17, &t16);
            let _ = self.inner.str(ctx, cfg, &t16, &mo);
            proof {
                lemma_words4(w_ldst(true, t16, mo), w_ldst(true, t17, mv), w_csel(c, t16, t17, t16), w_ldst(false, t16, mo));
            }
        }
        assert(self.inner.bytes() =~= b0 + words_bytes(cmov_words(c, mo, mv)));
        Ok(())
    }

    /// x86-64 `Jcc op`: `B.cond` with the translated condition.
    pub fn jcc<C>(&mut self, ctx: &mut C, arch: X64Arch, cond: X64ConditionCode, op: &X64MemArgKind) -> (r: Result<(), Infallible>)
        requires
            old(self).writer().wf(),
        ensures
            r is Ok,
            final(self).x64_wrote(*old(self), seq![w_bcond(aarch64_cond_for(cond), adapt_mem(*op, arch.apx))]),
    {
        let c = translate_condition(cond);
        let o = MemArgAdapter::new(*op, arch).concrete_mem_kind();
        let cfg = self.aarch64_cfg;
        let _ = self.inner.bcond(ctx, cfg, c, &o);
        proof { lemma_words_bytes_push(Seq::empty(), w_bcond(c, o)); }
        Ok(())
    }

    /// x86-64 zero-extension of `op`'s low 32 bits, see [`u32_words`].
    pub fn u32<C>(&mut self, ctx: &mut C, arch: X64Arch, op: &X64MemArgKind) -> (r: Result<(), Infallible>)
        requires
            old(self).writer().wf(),
        ensures
            r is Ok,
            final(self).x64_wrote(*old(self), u32_words(adapt_mem(*op, arch.apx))),
    {
        let ghost b0 = self.inner.bytes();
        let o = MemArgAdapter::new(*op, arch).concrete_mem_kind();
        let t16 = reg_arg(16);
        let t17 = reg_arg(17);
        let cfg = self.aarch64_cfg;
        let _ = self.inner.mov_imm(ctx, cfg, &t16, 0xFFFF_FFFF);
        let ghost mask = mov_imm_words(16, 0xFFFF_FFFF);
        if !is_mem_exec(&o) {
            let _ = self.inner.and(ctx, cfg, &o, &o, &t16);
            proof {
                let tail = seq![w_rrr(opc_and(), o, o, t16)];
                lemma_words_bytes_push(Seq::empty(), tail[0]);
                lemma_words_bytes_concat(mask, tail);
            }
        } else {
            let _ = self.inner.ldr(ctx, cfg, &t17, &o);
            let _ = self.inner.and(ctx, cfg, &t17, &t17, &t16);
            let _ = self.inner.str(ctx, cfg, &t17, &o);
            proof {
                let tail = seq![w_ldst(true, t17, o), w_rrr(opc_and(), t17, t17, t16), w_ldst(false, t17, o)];
                lemma_words3(tail[0], tail[1], tail[2]);
                lemma_words_bytes_concat(mask, tail);
            }
        }
        assert(self.inner.bytes() =~= b0 + words_bytes(u32_words(o)));
        Ok(())
    }

    /// x86-64 `NOT op`, see [`not_words`].
    pub fn not<C>(&mut self, ctx: &mut C, arch: X64Arch, op: &X64MemArgKind) -> (r: Result<(), Infallible>)
        requires
            old(self).writer().wf(),
        ensures
            r is Ok,
            final(self).x64_wrote(*old(self), not_words(adapt_mem(*op, arch.apx))),
    {
        let ghost b0 = self.inner.bytes();
        let o = MemArgAdapter::new(*op, arch).concrete_mem_kind();
        let t16 = reg_arg(16);
        let cfg = self.aarch64_cfg;
        if !is_mem_exec(&o) {
            let _ = self.inner.mvn(ctx, cfg, &o, &o);
            proof { lemma_words_bytes_push(Seq::empty(), w_mvn(o, o)); }
        } else {
            let _ = self.inner.ldr(ctx, cfg, &t16, &o);
            let _ = self.inner.mvn(ctx, cfg, &t16, &t16);
            let _ = self.inner.str(ctx, cfg, &t16, &o);
            proof {
                lemma_words3(w_ldst(true, t16, o), w_mvn(t16, t16), w_ldst(false, t16, o));
                assert(self.inner.bytes() =~= b0 + words_bytes(seq![w_ldst(true, t16, o), w_mvn(t16, t16), w_ldst(false, t16, o)]));
            }
        }
        Ok(())
    }

    /// x86-64 `LEA dest, src`: `ADR dest, src`.
    pub fn lea<C>(&mut self, ctx: &mut C, arch: X64Arch, dest: &X64MemArgKind, src: &X64MemArgKind) -> (r: Result<(), Infallible>)
        requires
            old(self).writer().wf(),
        ensures
            r is Ok,
            final(self).x64_wrote(*old(self), seq![w_adr(adapt_mem(*dest, arch.apx), adapt_mem(*src, arch.apx))]),
    {
        let d = MemArgAdapter::new(*dest, arch).concrete_mem_kind();
        let sv = MemArgAdapter::new(*src, arch).concrete_mem_kind();
        let cfg = self.aarch64_cfg;
        let _ = self.inner.adr(ctx, cfg, &d, &sv);
        proof { lemma_words_bytes_push(Seq::empty(), w_adr(d, sv)); }
        Ok(())
    }

    /// Reading the instruction pointer: `ADR x30, #0`.
    pub fn get_ip<C>(&mut self, ctx: &mut C, _arch: X64Arch) -> (r: Result<(), Infallible>)
        requires
            old(self).writer().wf(),
        ensures
            r is Ok,
            final(self).x64_wrote(*old(self), seq![w_adr(reg_operand(30), lit_operand(0))]),
    {
        let lr = reg_arg(30);
        let zero = MemArgKind::NoMem(ArgKind::Lit(0));
        let cfg = self.aarch64_cfg;
        let _ = self.inner.adr(ctx, cfg, &lr, &zero);
        proof { lemma_words_bytes_push(Seq::empty(), w_adr(lr, zero)); }
        Ok(())
    }

    /// x86-64 `RET`: pop the return address into `x30`, then `RET`.
    pub fn ret<C>(&mut self, ctx: &mut C, _arch: X64Arch) -> (r: Result<(), Infallible>)
        requires
            old(self).writer().wf(),
        ensures
            r is Ok,
            final(self).x64_wrote(*old(self), seq![w_ldst(true, reg_operand(30), pop_slot()), w_ret()]),
    {
        let ghost b0 = self.inner.bytes();
        let lr = reg_arg(30);
        let cfg = self.aarch64_cfg;
        let _ = self.inner.ldr(ctx, cfg, &lr, &sp_slot(false));
        let _ = self.inner.ret(ctx, cfg);
        proof { lemma_words2(w_ldst(true, lr, pop_slot()), w_ret()); }
        assert(self.inner.bytes() =~= b0 + words_bytes(seq![w_ldst(true, lr, pop_slot()), w_ret()]));
        Ok(())
    }

    /// x86-64 `MOV r, imm64`: the `MOVZ`/`MOVK` sequence.
    pub fn mov64<C>(&mut self, ctx: &mut C, arch: X64Arch, r: &X64MemArgKind, val: u64) -> (res: Result<(), Infallible>)
        requires
            old(self).writer().wf(),
        ensures
            res is Ok,
            final(self).x64_wrote(*old(self), mov_imm_words(crate::aarch64::encode::reg_of(adapt_mem(*r, arch.apx)), val)),
    {
        let o = MemArgAdapter::new(*r, arch).concrete_mem_kind();
        let cfg = self.aarch64_cfg;
        let _ = self.inner.mov_imm(ctx, cfg, &o, val);
        Ok(())
    }

    /// x86-64 `ADD a, b`.
    pub fn add<C>(&mut self, ctx: &mut C, arch: X64Arch, a: &X64MemArgKind, b: &X64MemArgKind) -> (r: Result<(), Infallible>)
        requires
            old(self).writer().wf(),
        ensures
            r is Ok,
            final(self).x64_wrote(*old(self), two_operand_words(ShimOp::Add, adapt_mem(*a, arch.apx), adapt_mem(*b, arch.apx))),
    {
        self.two_operand(ctx, arch, a, b, ShimOp::Add)
    }

    /// x86-64 `SUB a, b`.
    pub fn sub<C>(&mut self, ctx: &mut C, arch: X64Arch, a: &X64MemArgKind, b: &X64MemArgKind) -> (r: Result<(), Infallible>)
        requires
            old(self).writer().wf(),
        ensures
            r is Ok,
            final(self).x64_wrote(*old(self), two_operand_words(ShimOp::Sub, adapt_mem(*a, arch.apx), adapt_mem(*b, arch.apx))),
    {
        self.two_operand(ctx, arch, a, b, ShimOp::Sub)
    }

    /// x86-64 `MUL a, b` (as `MUL a, a, b`).
    pub fn mul<C>(&mut self, ctx: &mut C, arch: X64Arch, a: &X64MemArgKind, b: &X64MemArgKind) -> (r: Result<(), Infallible>)
        requires
            old(self).writer().wf(),
        ensures
            r is Ok,
            final(self).x64_wrote(*old(self), two_operand_words(ShimOp::Mul, adapt_mem(*a, arch.apx), adapt_mem(*b, arch.apx))),
    {
        self.two_operand(ctx, arch, a, b, ShimOp::Mul)
    }

    /// x86-64 `DIV a, b` (as `UDIV`).
    pub fn div<C>(&mut self, ctx: &mut C, arch: X64Arch, a: &X64MemArgKind, b: &X64MemArgKind) -> (r: Result<(), Infallible>)
        requires
            old(self).writer().wf(),
        ensures
            r is Ok,
            final(self).x64_wrote(*old(self), two_operand_words(ShimOp::Udiv, adapt_mem(*a, arch.apx), adapt_mem(*b, arch.apx))),
    {
        self.two_operand(ctx, arch, a, b, ShimOp::Udiv)
    }

    /// x86-64 `IDIV a, b` (as `SDIV`).
    pub fn idiv<C>(&mut self, ctx: &mut C, arch: X64Arch, a: &X64MemArgKind, b: &X64MemArgKind) -> (r: Result<(), Infallible>)
        requires
            old(self).writer().wf(),
        ensures
            r is Ok,
            final(self).x64_wrote(*old(self), two_operand_words(ShimOp::Sdiv, adapt_mem(*a, arch.apx), adapt_mem(*b, arch.apx))),
    {
        self.two_operand(ctx, arch, a, b, ShimOp::Sdiv)
    }

    /// x86-64 `AND a, b`.
    pub fn and<C>(&mut self, ctx: &mut C, arch: X64Arch, a: &X64MemArgKind, b: &X64MemArgKind) -> (r: Result<(), Infallible>)
        requires
            old(self).writer().wf(),
        ensures
            r is Ok,
            final(self).x64_wrote(*old(self), two_operand_words(ShimOp::And, adapt_mem(*a, arch.apx), adapt_mem(*b, arch.apx))),
    {
        self.two_operand(ctx, arch, a, b, ShimOp::And)
    }

    /// x86-64 `OR a, b` (as `ORR`).
    pub fn or<C>(&mut self, ctx: &mut C, arch: X64Arch, a: &X64MemArgKind, b: &X64MemArgKind) -> (r: Result<(), Infallible>)
        requires
            old(self).writer().wf(),
        ensures
            r is Ok,
            final(self).x64_wrote(*old(self), two_operand_words(ShimOp::Orr, adapt_mem(*a, arch.apx), adapt_mem(*b, arch.apx))),
    {
        self.two_operand(ctx, arch, a, b, ShimOp::Orr)
    }

    /// x86-64 `XOR a, b` (as `EOR`).
    pub fn eor<C>(&mut self, ctx: &mut C, arch: X64Arch, a: &X64MemArgKind, b: &X64MemArgKind) -> (r: Result<(), Infallible>)
        requires
            old(self).writer().wf(),
        ensures
            r is Ok,
            final(self).x64_wrote(*old(self), two_operand_words(ShimOp::Eor, adapt_mem(*a, arch.apx), adapt_mem(*b, arch.apx))),
    {
        self.two_operand(ctx, arch, a, b, ShimOp::Eor)
    }

    /// x86-64 `SHL a, b` (as `LSL`).
    pub fn shl<C>(&mut self, ctx: &mut C, arch: X64Arch, a: &X64MemArgKind, b: &X64MemArgKind) -> (r: Result<(), Infallible>)
        requires
            old(self).writer().wf(),
        ensures
            r is Ok,
            final(self).x64_wrote(*old(self), two_operand_words(ShimOp::Lsl, adapt_mem(*a, arch.apx), adapt_mem(*b, arch.apx))),
    {
        self.two_operand(ctx, arch, a, b, ShimOp::Lsl)
    }

    /// x86-64 `SHR a, b` (as `LSR`).
    pub fn shr<C>(&mut self, ctx: &mut C, arch: X64Arch, a: &X64MemArgKind, b: &X64MemArgKind) -> (r: Result<(), Infallible>)
        requires
            old(self).writer().wf(),
        ensures
            r is Ok,
            final(self).x64_wrote(*old(self), two_operand_words(ShimOp::Lsr, adapt_mem(*a, arch.apx), adapt_mem(*b, arch.apx))),
    {
        self.two_operand(ctx, arch, a, b, ShimOp::Lsr)
    }

    /// x86-64 `ADDSD a, b` (as `FADD`).
    pub fn fadd<C>(&mut self, ctx: &mut C, arch: X64Arch, a: &X64MemArgKind, b: &X64MemArgKind) -> (r: Result<(), Infallible>)
        requires
            old(self).writer().wf(),
        ensures
            r is Ok,
            final(self).x64_wrote(*old(self), two_operand_words(ShimOp::Fadd, adapt_mem(*a, arch.apx), adapt_mem(*b, arch.apx))),
    {
        self.two_operand(ctx, arch, a, b, ShimOp::Fadd)
    }

    /// x86-64 `SUBSD a, b` (as `FSUB`).
    pub fn fsub<C>(&mut self, ctx: &mut C, arch: X64Arch, a: &X64MemArgKind, b: &X64MemArgKind) -> (r: Result<(), Infallible>)
        requires
            old(self).writer().wf(),
        ensures
            r is Ok,
            final(self).x64_wrote(*old(self), two_operand_words(ShimOp::Fsub, adapt_mem(*a, arch.apx), adapt_mem(*b, arch.apx))),
    {
        self.two_operand(ctx, arch, a, b, ShimOp::Fsub)
    }

    /// x86-64 `MULSD dest, src`: `FMUL dest, dest, src`.
    pub fn fmul<C>(&mut self, ctx: &mut C, arch: X64Arch, dest: &X64MemArgKind, src: &X64MemArgKind) -> (r: Result<(), Infallible>)
        requires
            old(self).writer().wf(),
        ensures
            r is Ok,
            final(self).x64_wrote(*old(self), {
                let d = adapt_mem(*dest, arch.apx);
                seq![w_rrr(opc_fmul(), d, d, adapt_mem(*src, arch.apx))]
            }),
    {
        let d = MemArgAdapter::new(*dest, arch).concrete_mem_kind();
        let sv = MemArgAdapter::new(*src, arch).concrete_mem_kind();
        let cfg = self.aarch64_cfg;
        let _ = self.inner.fmul(ctx, cfg, &d, &d, &sv);
        proof { lemma_words_bytes_push(Seq::empty(), w_rrr(opc_fmul(), d, d, sv)); }
        Ok(())
    }

    /// x86-64 `DIVSD dest, src`: `FDIV dest, dest, src`.
    pub fn fdiv<C>(&mut self, ctx: &mut C, arch: X64Arch, dest: &X64MemArgKind, src: &X64MemArgKind) -> (r: Result<(), Infallible>)
        requires
            old(self).writer().wf(),
        ensures
            r is Ok,
            final(self).x64_wrote(*old(self), {
                let d = adapt_mem(*dest, arch.apx);
                seq![w_rrr(opc_fdiv(), d, d, adapt_mem(*src, arch.apx))]
            }),
    {
        let d = MemArgAdapter::new(*dest, arch).concrete_mem_kind();
        let sv = MemArgAdapter::new(*src, arch).concrete_mem_kind();
        let cfg = self.aarch64_cfg;
        let _ = self.inner.fdiv(ctx, cfg, &d, &d, &sv);
        proof { lemma_words_bytes_push(Seq::empty(), w_rrr(opc_fdiv(), d, d, sv)); }
        Ok(())
    }

    /// x86-64 `MOVSD dest, src`: `FMOV dest, src`.
    pub fn fmov<C>(&mut self, ctx: &mut C, arch: X64Arch, dest: &X64MemArgKind, src: &X64MemArgKind) -> (r: Result<(), Infallible>)
        requires
            old(self).writer().wf(),
        ensures
            r is Ok,
            final(self).x64_wrote(*old(self), seq![w_fmov(adapt_mem(*dest, arch.apx), adapt_mem(*src, arch.apx))]),
    {
        let d = MemArgAdapter::new(*dest, arch).concrete_mem_kind();
        let sv = MemArgAdapter::new(*src, arch).concrete_mem_kind();
        let cfg = self.aarch64_cfg;
        let _ = self.inner.fmov(ctx, cfg, &d, &sv);
        proof { lemma_words_bytes_push(Seq::empty(), w_fmov(d, sv)); }
        Ok(())
    }
}

/// A shim never hands out a label twice: a label taken after another one
/// (at a counter no lower than where the first left it) differs from it.
pub proof fn law_shim_labels_unique<W>(
    s0: X64ToAArch64Shim<W>,
    s1: X64ToAArch64Shim<W>,
    l1: ShimLabel,
    s2: X64ToAArch64Shim<W>,
    s3: X64ToAArch64Shim<W>,
    l3: ShimLabel,
)
    requires
        s1.took_label(s0, l1),
        s3.took_label(s2, l3),
        s1.counter() <= s2.counter(),
    ensures
        l1 != l3,
{
}


impl<L: Ord> X64ToAArch64Shim<AArch64Writer<L>> {
    /// Defines label `s` at the writer's current offset.
    pub fn set_label<C>(&mut self, ctx: &mut C, _arch: X64Arch, s: L) -> (r: Result<(), Infallible>)
        requires
            old(self).writer().wf(),
            lawful_label::<L>(),
        ensures
            r is Ok,
            final(self).writer().label_set(old(self).writer(), s),
            final(self).counter() == old(self).counter(),
            final(self).config() == old(self).config(),
    {
        let cfg = self.aarch64_cfg;
        self.inner.set_label(ctx, cfg, s)
    }

    /// x86-64 `LEA dest, [label]`: `ADR dest, label`.
    pub fn lea_label<C>(&mut self, ctx: &mut C, arch: X64Arch, dest: &X64MemArgKind, label: L) -> (r: Result<(), Infallible>)
        requires
            old(self).writer().wf(),
            lawful_label::<L>(),
        ensures
            r is Ok,
            final(self).writer().referenced(old(self).writer(), label, AArch64FixupKind::Adr {
                rd: crate::aarch64::encode::reg_of(adapt_mem(*dest, arch.apx)),
            }),
            final(self).counter() == old(self).counter(),
            final(self).config() == old(self).config(),
    {
        let d = MemArgAdapter::new(*dest, arch).concrete_mem_kind();
        let cfg = self.aarch64_cfg;
        self.inner.adr_label(ctx, cfg, &d, label)
    }
}


impl<L> AArch64Writer<L> {
    /// Loads `src` into the register `dest`: `MOV` from a register or
    /// literal, `LDR` from memory.
    pub fn load_to_reg<C>(&mut self, ctx: &mut C, cfg: AArch64Arch, dest: &Reg, src: &MemArgKind) -> (r: Result<(), Infallible>)
        requires
            old(self).wf(),
        ensures
            r is Ok,
            final(self).emitted(*old(self), if src is NoMem {
                w_mov(reg_operand(dest.0), *src)
            } else {
                w_ldst(true, reg_operand(dest.0), *src)
            }),
    {
        let d = reg_arg(dest.0);
        if is_mem_exec(src) {
            self.ldr(ctx, cfg, &d, src)
        } else {
            self.mov(ctx, cfg, &d, src)
        }
    }

    /// Stores the register `src` into `dest`: `MOV` to a register, `STR`
    /// to memory.
    pub fn store_from_reg<C>(&mut self, ctx: &mut C, cfg: AArch64Arch, dest: &MemArgKind, src: &Reg) -> (r: Result<(), Infallible>)
        requires
            old(self).wf(),
        ensures
            r is Ok,
            final(self).emitted(*old(self), if dest is NoMem {
                w_mov(*dest, reg_operand(src.0))
            } else {
                w_ldst(false, reg_operand(src.0), *dest)
            }),
    {
        let s = reg_arg(src.0);
        if is_mem_exec(dest) {
            self.str(ctx, cfg, &s, dest)
        } else {
            self.mov(ctx, cfg, dest, &s)
        }
    }
}


/// The shim's next two labels, the numbers of `ShimLabel(c)` and
/// `ShimLabel(c + 1)`, are neither set in `w` nor named by a pending
/// reference.
pub open spec fn shim_labels_fresh(w: AArch64Writer<usize>, c: usize) -> bool {
    &&& !w.labels().contains_key(c)
    &&& !w.labels().contains_key((c + 1) as usize)
    &&& forall|k: int|
        0 <= k < w.pending().len() ==> #[trigger] w.pending()[k].label != c && w.pending()[k].label
            != (c + 1) as usize
}

/// The words of x86-64 `CALL op` when the shim's labels are fresh: `B` over
/// the next two words, the call shim (`STR x30, [sp, #-8]!` and `B op`),
/// then `BL` back to the shim.
pub open spec fn call_words(op: MemArgKind) -> Seq<u32> {
    seq![
        fixup_word(AArch64FixupKind::B, 12i32),
        w_ldst(false, reg_operand(30), push_slot()),
        w_b(op),
        fixup_word(AArch64FixupKind::Bl, -8i32),
    ]
}

/// The writer steps of x86-64 `CALL op` with shim counter `c`, from `w0` to
/// `w6`, with each shim label keyed by its number: `B` to `ShimLabel(c + 1)`,
/// `ShimLabel(c)` set, `STR x30, [sp, #-8]!`, `B op`, `ShimLabel(c + 1)` set,
/// then `BL` to `ShimLabel(c)`.
pub open spec fn call_steps(
    w0: AArch64Writer<usize>,
    w1: AArch64Writer<usize>,
    w2: AArch64Writer<usize>,
    w3: AArch64Writer<usize>,
    w4: AArch64Writer<usize>,
    w5: AArch64Writer<usize>,
    w6: AArch64Writer<usize>,
    c: usize,
    op: MemArgKind,
) -> bool {
    &&& w1.referenced(w0, (c + 1) as usize, AArch64FixupKind::B)
    &&& w2.label_set(w1, c)
    &&& w3.emitted(w2, w_ldst(false, reg_operand(30), push_slot()))
    &&& w4.emitted(w3, w_b(op))
    &&& w5.label_set(w4, (c + 1) as usize)
    &&& w6.referenced(w5, c, AArch64FixupKind::Bl)
}

impl X64ToAArch64Shim<AArch64Writer<usize>> {
    /// x86-64 `CALL op`: an inline call shim that pushes the link register
    /// and branches to `op`, jumped over and then reached with `BL`, so that
    /// the return address is on the stack as x86-64 expects.  It takes two
    /// shim labels: the shim's and the one after it, which the writer keys by
    /// their numbers.
    pub fn call<C>(&mut self, ctx: &mut C, arch: X64Arch, op: &X64MemArgKind) -> (r: Result<(), Infallible>)
        requires
            old(self).writer().wf(),
            old(self).counter() < usize::MAX - 1,
            old(self).writer().bytes().len() + 16 <= usize::MAX,
        ensures
            r is Ok,
            final(self).writer().wf(),
            final(self).counter() == old(self).counter() + 2,
            final(self).config() == old(self).config(),
            final(self).writer().labels() == old(self).writer().labels().insert(
                old(self).counter(),
                (old(self).writer().bytes().len() + 4) as usize,
            ).insert((old(self).counter() + 1) as usize, (old(self).writer().bytes().len() + 12) as usize),
            exists|w1: AArch64Writer<usize>, w2: AArch64Writer<usize>, w3: AArch64Writer<usize>,
                w4: AArch64Writer<usize>, w5: AArch64Writer<usize>|
                #[trigger] call_steps(
                    old(self).writer(), w1, w2, w3, w4, w5, final(self).writer(), old(self).counter(),
                    adapt_mem(*op, arch.apx),
                ),
            shim_labels_fresh(old(self).writer(), old(self).counter()) ==> {
                &&& final(self).writer().bytes() == old(self).writer().bytes() + words_bytes(call_words(adapt_mem(*op, arch.apx)))
                &&& final(self).writer().pending() == old(self).writer().pending()
            },
    {
        let ghost c = self.shim_counter;
        let shim = self.next_shim_label().0;
        let skip = self.next_shim_label().0;
        proof { crate::aarch64::bin::lemma_integer_labels_lawful(); }
        let cfg = self.aarch64_cfg;
        let ghost w0 = self.inner;
        let ghost n = w0.bytes().len();
        let _ = self.inner.b_label(ctx, cfg, skip);
        let ghost w1 = self.inner;
        let _ = self.inner.set_label(ctx, cfg, shim);
        let ghost w2 = self.inner;
        let lr = reg_arg(30);
        let _ = self.inner.str(ctx, cfg, &lr, &sp_slot(true));
        let ghost w3 = self.inner;
        let o = MemArgAdapter::new(*op, arch).concrete_mem_kind();
        let _ = self.inner.b(ctx, cfg, &o);
        let ghost w4 = self.inner;
        let _ = self.inner.set_label(ctx, cfg, skip);
        let ghost w5 = self.inner;
        let _ = self.inner.bl_label(ctx, cfg, shim);
        proof {
            assert(w1.bytes().len() == n + 4);
            assert(w4.bytes().len() == n + 12);
            assert(w5.labels().contains_key(shim));
            assert(call_steps(w0, w1, w2, w3, w4, w5, self.inner, c, o));
            if shim_labels_fresh(w0, c) {
                let f = AArch64Fixup { instr_offset: n as usize, label: skip, kind: AArch64FixupKind::B };
                assert(w1.pending() == w0.pending().push(f));
                assert forall|k: int| 0 <= k < w1.pending().len() implies #[trigger] w1.pending()[k].label != shim by {
                    if k < w0.pending().len() {
                        assert(w1.pending()[k] == w0.pending()[k]);
                    }
                }
                AArch64Writer::<usize>::lemma_set_unreferenced(w1, w2, shim);
                assert(w4.pending() == w1.pending());
                assert forall|k: int| 0 <= k < w4.pending().len() - 1 implies #[trigger] w4.pending()[k].label != skip by {
                    assert(w4.pending()[k] == w0.pending()[k]);
                }
                AArch64Writer::<usize>::lemma_set_last_referenced(w4, w5, skip);
                assert(w5.pending() =~= w0.pending());
                assert(rel((n + 12) as usize, n as usize) == 12i32);
                assert(rel((n + 4) as usize, (n + 12) as usize) == -8i32);
                let ws = call_words(o);
                lemma_words_bytes_push(Seq::empty(), ws[0]);
                assert(Seq::<u32>::empty().push(ws[0]) =~= seq![ws[0]]);
                lemma_words_bytes_push(seq![ws[0]], ws[1]);
                assert(seq![ws[0]].push(ws[1]) =~= seq![ws[0], ws[1]]);
                lemma_words_bytes_push(seq![ws[0], ws[1]], ws[2]);
                assert(seq![ws[0], ws[1]].push(ws[2]) =~= seq![ws[0], ws[1], ws[2]]);
                lemma_words_bytes_push(seq![ws[0], ws[1], ws[2]], ws[3]);
                assert(seq![ws[0], ws[1], ws[2]].push(ws[3]) =~= ws);
                assert(w5.bytes() =~= w0.bytes() + le_bytes_of(ws[0]) + le_bytes_of(ws[1]) + le_bytes_of(ws[2]));
                assert(self.inner.bytes() =~= w0.bytes() + words_bytes(ws));
            }
        }
        Ok(())
    }
}

} // verus!
