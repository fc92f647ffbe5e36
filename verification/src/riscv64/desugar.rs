//! Desugaring of operands that RISC-V instructions cannot take directly.
//!
//! RISC-V addresses memory only as `disp(base)` with a 12-bit signed
//! displacement, and its arithmetic takes registers only.  The
//! [`DesugaringWriter`] wraps a binary writer and lowers richer operands
//! first: a scaled index is shifted and added into a temporary, a large
//! displacement is loaded and added, a literal base or index is loaded, and
//! a memory or literal operand of an arithmetic or branch instruction is
//! loaded into a temporary register.
//!
//! Temporaries come from three configured registers; a temporary that
//! collides with an operand register is avoided where possible, and, if
//! configured, saved in a stack spill area around its use.

use vstd::prelude::*;
use core::convert::Infallible;
use crate::common::{MemorySize, Reg};
use crate::riscv64::{ConditionCode, RegisterClass, RiscV64Arch};
use crate::riscv64::arg::{ArgKind, MemArgKind};
use crate::riscv64::bin::{bcond_kind, lemma_insts_bytes_concat, resolvable, RvAsmWriter, RvFixupKind};
use crate::aarch64::bin::lawful_label;
use crate::riscv64::encode::{AluOp, BranchOp, RvInst, LoadOp, StoreOp};
use crate::riscv64::li::{li_seq, to_reg};
use crate::riscv64::sem::{lemma_run_concat, lemma_run_li, lemma_run_one, modeled, rd, run};
use vstd::arithmetic::power2::pow2;

verus! {

/// Settings of the desugaring writer.
#[derive(Clone, Copy, Debug)]
pub struct DesugarConfig {
    /// First-choice temporary register (default `t6`, x31).
    pub temp_reg: Reg,
    /// Second-choice temporary register (default `t3`, x28).
    pub temp_reg2: Reg,
    /// Third-choice temporary register, also the one that holds a large
    /// immediate (default `t4`, x29).
    pub temp_reg3: Reg,
    /// Whether a temporary that collides with every candidate is saved to
    /// the stack around its use (default `false`).
    pub save_to_stack_on_conflict: bool,
    /// Size in bytes of one spill slot (default 8).
    pub stack_save_offset: i32,
}

/// The default settings: temporaries `t6`, `t3`, `t4`, no spilling, 8-byte slots.
pub open spec fn default_config() -> DesugarConfig {
    DesugarConfig {
        temp_reg: Reg(31),
        temp_reg2: Reg(28),
        temp_reg3: Reg(29),
        save_to_stack_on_conflict: false,
        stack_save_offset: 8,
    }
}

impl Default for DesugarConfig {
    fn default() -> (c: Self)
        ensures
            c == default_config(),
    {
        DesugarConfig {
            temp_reg: Reg(31),
            temp_reg2: Reg(28),
            temp_reg3: Reg(29),
            save_to_stack_on_conflict: false,
            stack_save_offset: 8,
        }
    }
}

/// The spill slot size keeps every slot offset, and the size of the
/// reserved area, within `i32`.
pub open spec fn slot_ok(slot: int) -> bool {
    -0x03FF_F000 <= slot <= 0x03FF_F000
}

// ── the spill area ──────────────────────────────────────────────────────────

/// State of the stack spill area: how many slots are reserved below `sp`
/// (0 when none is), and the registers saved in it, oldest first (the
/// `k`-th in slot `k`).
pub struct SpillModel {
    pub reserved: int,
    pub saved: Seq<u8>,
}

/// Instructions and the spill state after them.
pub struct Step {
    pub insts: Seq<RvInst>,
    pub spill: SpillModel,
}

/// `ADDI sp, sp, imm`.
pub open spec fn sp_addi(imm: int) -> RvInst {
    RvInst::Addi { dest: 2, src1: 2, imm: imm as i32 }
}

/// `SD r, off(sp)`.
pub open spec fn sd_slot(r: u8, off: int) -> RvInst {
    RvInst::Store { op: StoreOp::Sd, src: r, base: 2, offset: off as i32 }
}

/// `LD r, off(sp)`.
pub open spec fn ld_slot(r: u8, off: int) -> RvInst {
    RvInst::Load { op: LoadOp::Ld, dest: r, base: 2, offset: off as i32 }
}

/// The position, in slots above `sp`, of the `k`-th saved register while
/// `reserved` slots are reserved.  Slots are reserved four at a time, each
/// new batch below the last one: the `k`-th register lies in batch `k / 4`,
/// `k % 4` slots above that batch's lowest slot.
pub open spec fn slot_index(reserved: int, k: int) -> int {
    reserved - 4 * (k / 4 + 1) + k % 4
}

/// Saving `r`: when every reserved slot is in use (as on first use), reserve
/// four more below them (`ADDI sp, sp, -4*slot`); then store `r` in the
/// next free slot.
pub open spec fn save_spec(slot: int, m: SpillModel, r: u8) -> Step {
    let grow = m.saved.len() == m.reserved;
    let pre = if grow { seq![sp_addi(-(4 * slot))] } else { Seq::<RvInst>::empty() };
    let reserved = if grow { m.reserved + 4 } else { m.reserved };
    Step {
        insts: pre.push(sd_slot(r, slot_index(reserved, m.saved.len() as int) * slot)),
        spill: SpillModel { reserved, saved: m.saved.push(r) },
    }
}

/// Restoring into `r`: with nothing saved, nothing; otherwise the last
/// slot is loaded into `r` (whichever register was saved there) and freed,
/// and the whole reserved area is given back once no slot is in use.
pub open spec fn restore_spec(slot: int, m: SpillModel, r: u8) -> Step {
    if m.saved.len() == 0 {
        Step { insts: Seq::empty(), spill: m }
    } else {
        let n = m.saved.len() - 1;
        let ld = ld_slot(r, slot_index(m.reserved, n) * slot);
        if n == 0 && m.reserved > 0 {
            Step {
                insts: seq![ld, sp_addi(m.reserved * slot)],
                spill: SpillModel { reserved: 0, saved: Seq::empty() },
            }
        } else {
            Step { insts: seq![ld], spill: SpillModel { reserved: m.reserved, saved: m.saved.drop_last() } }
        }
    }
}

/// Loads of every saved register from its slot, the last saved first.
pub open spec fn reload_all(slot: int, reserved: int, saved: Seq<u8>) -> Seq<RvInst>
    decreases saved.len(),
{
    if saved.len() == 0 {
        Seq::empty()
    } else {
        seq![ld_slot(saved.last(), slot_index(reserved, saved.len() - 1) * slot)] + reload_all(
            slot,
            reserved,
            saved.drop_last(),
        )
    }
}

/// Flushing the spill area: if any is reserved, every saved register is
/// reloaded and the area given back.
pub open spec fn flush_spec(slot: int, m: SpillModel) -> Step {
    if m.reserved == 0 {
        Step { insts: Seq::empty(), spill: m }
    } else {
        Step {
            insts: reload_all(slot, m.reserved, m.saved).push(sp_addi(m.reserved * slot)),
            spill: SpillModel { reserved: 0, saved: Seq::empty() },
        }
    }
}

/// A spill area in use: as many slots reserved as whole batches of four
/// hold the saved registers, at most 32, and none without a saved register.
pub open spec fn area_ok(m: SpillModel) -> bool {
    &&& m.reserved % 4 == 0
    &&& m.saved.len() <= m.reserved <= 32
    &&& (m.reserved == 0) == (m.saved.len() == 0)
}

/// Every register saved in a spill area has a slot of its own inside the
/// reserved area: saving one more register (up to 32) stores it in a slot
/// inside the area that results, different from the slots of the registers
/// saved before it, and the area stays well formed.
pub proof fn law_spill_slots_in_area(m: SpillModel, slot: int, r: u8)
    requires
        area_ok(m),
        m.saved.len() < 32,
    ensures
        ({
            let after = save_spec(slot, m, r).spill;
            let k = m.saved.len() as int;
            &&& area_ok(after)
            &&& 0 <= slot_index(after.reserved, k) < after.reserved
            &&& forall|j: int| 0 <= j < k ==> #[trigger] slot_index(after.reserved, j) != slot_index(after.reserved, k)
            &&& forall|j: int| 0 <= j < k ==> 0 <= #[trigger] slot_index(after.reserved, j) < after.reserved
        }),
{
    let after = save_spec(slot, m, r).spill;
    let k = m.saved.len() as int;
    lemma_slot_index_range(after.reserved, k);
    assert forall|j: int| 0 <= j < k implies #[trigger] slot_index(after.reserved, j) != slot_index(after.reserved, k)
        && 0 <= slot_index(after.reserved, j) < after.reserved by {
        lemma_slot_index_range(after.reserved, j);
        lemma_slot_index_distinct(after.reserved, j, k);
    }
}

/// A register saved in a whole batch lies inside the reserved area.
proof fn lemma_slot_index_range(reserved: int, k: int)
    requires
        0 <= k < reserved,
        reserved % 4 == 0,
    ensures
        0 <= slot_index(reserved, k) < reserved,
{
    assert(4 * (k / 4 + 1) <= reserved) by {
        assert(k == 4 * (k / 4) + k % 4);
        assert(reserved == 4 * (reserved / 4));
    }
}

/// Two saved registers never share a slot.
proof fn lemma_slot_index_distinct(reserved: int, j: int, k: int)
    requires
        0 <= j < k,
    ensures
        slot_index(reserved, j) != slot_index(reserved, k),
{
    assert(j == 4 * (j / 4) + j % 4);
    assert(k == 4 * (k / 4) + k % 4);
    assert(0 <= j % 4 < 4 && 0 <= k % 4 < 4);
}

struct StackSpillManager {
    reserved_slots: i32,
    used_slots: i32,
    slot_size: i32,
    saved_regs: Vec<u8>,
}

fn sp_mem(off: i32) -> (m: MemArgKind)
    ensures
        m == (MemArgKind::Mem {
            base: ArgKind::Reg { reg: Reg(2), size: MemorySize::_64 },
            offset: None,
            disp: off,
            size: MemorySize::_64,
            reg_class: RegisterClass::Gpr,
        }),
{
    MemArgKind::Mem {
        base: ArgKind::Reg { reg: Reg(2), size: MemorySize::_64 },
        offset: None,
        disp: off,
        size: MemorySize::_64,
        reg_class: RegisterClass::Gpr,
    }
}

fn reg_arg(r: u8) -> (a: MemArgKind)
    ensures
        a == reg_operand(r),
{
    MemArgKind::NoMem(ArgKind::Reg { reg: Reg(r), size: MemorySize::_64 })
}

/// The 64-bit register operand `x<r>`.
pub open spec fn reg_operand(r: u8) -> MemArgKind {
    MemArgKind::NoMem(ArgKind::Reg { reg: Reg(r), size: MemorySize::_64 })
}

/// Writing `a` and then `b` writes `a + b`.
proof fn lemma_chain<L>(w0: RvAsmWriter<L>, w1: RvAsmWriter<L>, w2: RvAsmWriter<L>, a: Seq<RvInst>, b: Seq<RvInst>)
    requires
        w1.emitted_all(w0, a),
        w2.emitted_all(w1, b),
    ensures
        w2.emitted_all(w0, a + b),
{
    lemma_insts_bytes_concat(a, b);
    assert(w2.bytes() =~= w0.bytes() + crate::riscv64::bin::insts_bytes(a + b));
}

/// Writing nothing.
proof fn lemma_nothing<L>(w: RvAsmWriter<L>)
    requires
        w.wf(),
    ensures
        w.emitted_all(w, Seq::empty()),
{
    reveal_with_fuel(crate::riscv64::bin::insts_bytes, 1);
    assert(w.bytes() =~= w.bytes() + crate::riscv64::bin::insts_bytes(Seq::empty()));
}

proof fn lemma_slot_mul(n: int, slot: int)
    by (nonlinear_arith)
    requires
        0 <= n <= 32,
        slot_ok(slot),
    ensures
        -0x7FFE_0000 <= n * slot <= 0x7FFE_0000,
{
}

impl StackSpillManager {
    spec fn model(&self) -> SpillModel {
        SpillModel { reserved: self.reserved_slots as int, saved: self.saved_regs@ }
    }

    spec fn inv(&self) -> bool {
        &&& self.used_slots == self.saved_regs@.len()
        &&& area_ok(self.model())
        &&& self.saved_regs@.len() > 0 ==> slot_ok(self.slot_size as int)
    }

    fn new(slot_size: i32) -> (m: Self)
        ensures
            m.inv(),
            m.model() == (SpillModel { reserved: 0, saved: Seq::empty() }),
            m.slot_size == slot_size,
    {
        StackSpillManager { reserved_slots: 0, used_slots: 0, slot_size, saved_regs: Vec::new() }
    }

    /// The position of the `k`-th saved register (see [`slot_index`]).
    fn slot_of(reserved: i32, k: i32) -> (i: i32)
        requires
            0 <= k < reserved <= 32,
            reserved % 4 == 0,
        ensures
            i == slot_index(reserved as int, k as int),
            0 <= i < reserved,
    {
        proof { lemma_slot_index_range(reserved as int, k as int); }
        reserved - 4 * (k / 4 + 1) + k % 4
    }

    fn save_reg<L, C>(&mut self, w: &mut RvAsmWriter<L>, arch: RiscV64Arch, ctx: &mut C, reg: u8)
        requires
            old(self).inv(),
            old(self).saved_regs@.len() < 32,
            slot_ok(old(self).slot_size as int),
            old(w).wf(),
        ensures
            final(self).inv(),
            final(self).slot_size == old(self).slot_size,
            final(w).emitted_all(*old(w), save_spec(old(self).slot_size as int, old(self).model(), reg).insts),
            final(self).model() == save_spec(old(self).slot_size as int, old(self).model(), reg).spill,
    {
        let ghost w0 = *w;
        let ghost m0 = self.model();
        let ghost slot = self.slot_size as int;
        let sp = reg_arg(2);
        if self.used_slots == self.reserved_slots {
            proof { lemma_slot_mul(4, slot); }
            let total = 4 * self.slot_size;
            let _ = w.addi(ctx, arch, &sp, &sp, -total);
            self.reserved_slots = self.reserved_slots + 4;
        } else {
            proof { lemma_nothing(*w); }
        }
        let ghost w1 = *w;
        let ghost pre = if m0.saved.len() == m0.reserved { seq![sp_addi(-(4 * slot))] } else { Seq::<RvInst>::empty() };
        assert(w1.emitted_all(w0, pre));
        let idx = Self::slot_of(self.reserved_slots, self.used_slots);
        proof { lemma_slot_mul(idx as int, self.slot_size as int); }
        let offset = idx * self.slot_size;
        let mem = sp_mem(offset);
        let _ = w.sd(ctx, arch, &reg_arg(reg), &mem);
        proof {
            let st = sd_slot(reg, slot_index(self.reserved_slots as int, self.saved_regs@.len() as int) * slot);
            lemma_chain(w0, w1, *w, pre, seq![st]);
            assert(pre + seq![st] =~= pre.push(st));
        }
        self.saved_regs.push(reg);
        self.used_slots = self.used_slots + 1;
    }

    fn restore_reg<L, C>(&mut self, w: &mut RvAsmWriter<L>, arch: RiscV64Arch, ctx: &mut C, reg: u8)
        requires
            old(self).inv(),
            old(w).wf(),
        ensures
            final(self).inv(),
            final(self).slot_size == old(self).slot_size,
            final(w).emitted_all(*old(w), restore_spec(old(self).slot_size as int, old(self).model(), reg).insts),
            final(self).model() == restore_spec(old(self).slot_size as int, old(self).model(), reg).spill,
    {
        if self.used_slots == 0 {
            proof { lemma_nothing(*w); }
            return;
        }
        let ghost w0 = *w;
        let ghost slot = self.slot_size as int;
        let _ = self.saved_regs.pop();
        self.used_slots = self.used_slots - 1;
        let idx = Self::slot_of(self.reserved_slots, self.used_slots);
        proof { lemma_slot_mul(idx as int, self.slot_size as int); }
        let offset = idx * self.slot_size;
        let mem = sp_mem(offset);
        let _ = w.ld(ctx, arch, &reg_arg(reg), &mem);
        if self.used_slots == 0 && self.reserved_slots > 0 {
            let ghost w1 = *w;
            proof { lemma_slot_mul(self.reserved_slots as int, self.slot_size as int); }
            let total = self.reserved_slots * self.slot_size;
            let sp = reg_arg(2);
            let _ = w.addi(ctx, arch, &sp, &sp, total);
            let ghost ld = ld_slot(reg, slot_index(self.reserved_slots as int, 0) * slot);
            let ghost add = sp_addi(self.reserved_slots as int * slot);
            self.reserved_slots = 0;
            self.saved_regs = Vec::new();
            proof {
                lemma_chain(w0, w1, *w, seq![ld], seq![add]);
                assert(seq![ld] + seq![add] =~= seq![ld, add]);
            }
        }
    }

    fn flush_all<L, C>(&mut self, w: &mut RvAsmWriter<L>, arch: RiscV64Arch, ctx: &mut C)
        requires
            old(self).inv(),
            old(w).wf(),
        ensures
            final(self).inv(),
            final(self).slot_size == old(self).slot_size,
            final(w).emitted_all(*old(w), flush_spec(old(self).slot_size as int, old(self).model()).insts),
            final(self).model() == flush_spec(old(self).slot_size as int, old(self).model()).spill,
    {
        if self.reserved_slots == 0 {
            proof { lemma_nothing(*w); }
            return;
        }
        let ghost w0 = *w;
        let ghost all = self.saved_regs@;
        let ghost slot = self.slot_size as int;
        let ghost res = self.reserved_slots as int;
        proof {
            lemma_nothing(*w);
            assert(all.take(all.len() as int) =~= all);
        }
        while self.used_slots > 0
            invariant
                self.used_slots == self.saved_regs@.len(),
                self.saved_regs@.len() <= all.len(),
                all.len() <= res,
                res % 4 == 0,
                0 < res <= 32,
                slot_ok(self.slot_size as int),
                self.slot_size as int == slot,
                self.reserved_slots == res,
                self.saved_regs@ == all.take(self.saved_regs@.len() as int),
                w.wf(),
                w.emitted_all(w0, reload_all(slot, res, all).take(reload_all(slot, res, all).len() - reload_all(slot, res, self.saved_regs@).len())),
                reload_all(slot, res, all) == reload_all(slot, res, all).take(reload_all(slot, res, all).len() - reload_all(slot, res, self.saved_regs@).len()) + reload_all(slot, res, self.saved_regs@),
            decreases self.used_slots,
        {
            let ghost w1 = *w;
            let ghost cur = self.saved_regs@;
            self.used_slots = self.used_slots - 1;
            let idx = Self::slot_of(self.reserved_slots, self.used_slots);
            proof { lemma_slot_mul(idx as int, self.slot_size as int); }
            let offset = idx * self.slot_size;
            let mem = sp_mem(offset);
            let reg = self.saved_regs.pop().unwrap();
            let _ = w.ld(ctx, arch, &reg_arg(reg), &mem);
            proof {
                let whole = reload_all(slot, res, all);
                let done = whole.take(whole.len() - reload_all(slot, res, cur).len());
                let ld = ld_slot(reg, slot_index(res, cur.len() - 1) * slot);
                assert(reload_all(slot, res, cur) == seq![ld] + reload_all(slot, res, cur.drop_last()));
                assert(cur.drop_last() =~= self.saved_regs@);
                lemma_chain(w0, w1, *w, done, seq![ld]);
                let done2 = whole.take(whole.len() - reload_all(slot, res, self.saved_regs@).len());
                assert(done2 =~= done + seq![ld]);
                assert(whole =~= done2 + reload_all(slot, res, self.saved_regs@));
                assert(self.saved_regs@ =~= all.take(self.saved_regs@.len() as int));
            }
        }
        let ghost w2 = *w;
        proof { lemma_slot_mul(self.reserved_slots as int, self.slot_size as int); }
        let total = self.reserved_slots * self.slot_size;
        let sp = reg_arg(2);
        let _ = w.addi(ctx, arch, &sp, &sp, total);
        self.reserved_slots = 0;
        proof {
            assert(self.saved_regs@ =~= Seq::<u8>::empty());
            let whole = reload_all(slot, res, all);
            assert(reload_all(slot, res, self.saved_regs@) =~= Seq::<RvInst>::empty());
            assert(whole.take(whole.len() - 0) =~= whole);
            lemma_chain(w0, w2, *w, whole, seq![sp_addi(res * slot)]);
            assert(whole + seq![sp_addi(res * slot)] =~= whole.push(sp_addi(res * slot)));
        }
    }
}


// ── temporaries ─────────────────────────────────────────────────────────────

/// How often `r` occurs in `s`.
pub open spec fn count_reg(s: Seq<u8>, r: u8) -> int
    decreases s.len(),
{
    if s.len() == 0 {
        0
    } else {
        count_reg(s.drop_last(), r) + if s.last() == r { 1int } else { 0int }
    }
}

/// The temporary chosen while avoiding the registers `avoid`, and whether
/// it must be saved around its use: the first configured temporary not in
/// `avoid`; if all three are, the one that occurs least often in `avoid`
/// (the earliest on a tie), saved if the configuration asks for it.
pub open spec fn select_spec(c: DesugarConfig, avoid: Seq<u8>) -> (u8, bool) {
    let t1 = c.temp_reg.0;
    let t2 = c.temp_reg2.0;
    let t3 = c.temp_reg3.0;
    if !avoid.contains(t1) {
        (t1, false)
    } else if !avoid.contains(t2) {
        (t2, false)
    } else if !avoid.contains(t3) {
        (t3, false)
    } else {
        let s1 = count_reg(avoid, t1);
        let s2 = count_reg(avoid, t2);
        let s3 = count_reg(avoid, t3);
        let (b12, sc12) = if s2 < s1 { (t2, s2) } else { (t1, s1) };
        (if s3 < sc12 { t3 } else { b12 }, c.save_to_stack_on_conflict)
    }
}

fn contains_reg(avoid: &Vec<u8>, r: u8) -> (b: bool)
    ensures
        b == avoid@.contains(r),
{
    let mut i: usize = 0;
    while i < avoid.len()
        invariant
            i <= avoid@.len(),
            forall|k: int| 0 <= k < i ==> avoid@[k] != r,
        decreases avoid@.len() - i,
    {
        if avoid[i] == r {
            return true;
        }
        i = i + 1;
    }
    false
}

fn count_in(avoid: &Vec<u8>, r: u8) -> (n: i32)
    requires
        avoid@.len() <= 64,
    ensures
        n == count_reg(avoid@, r),
{
    let mut i: usize = 0;
    let mut n: i32 = 0;
    while i < avoid.len()
        invariant
            i <= avoid@.len() <= 64,
            n == count_reg(avoid@.take(i as int), r),
            0 <= n <= i,
        decreases avoid@.len() - i,
    {
        proof {
            assert(avoid@.take(i + 1).drop_last() =~= avoid@.take(i as int));
        }
        if avoid[i] == r {
            n = n + 1;
        }
        i = i + 1;
    }
    assert(avoid@.take(i as int) =~= avoid@);
    n
}

/// The 32-entry avoid list of the address computation: `regs`, then `x0`
/// in every remaining entry.
pub open spec fn padded(regs: Seq<u8>) -> Seq<u8> {
    Seq::new(32, |i: int| if i < regs.len() { regs[i] } else { 0u8 })
}

fn padded_vec(regs: &Vec<u8>) -> (v: Vec<u8>)
    requires
        regs@.len() <= 32,
    ensures
        v@ == padded(regs@),
{
    let mut v: Vec<u8> = Vec::new();
    let mut i: usize = 0;
    while i < 32
        invariant
            i <= 32,
            regs@.len() <= 32,
            v@.len() == i,
            forall|k: int| 0 <= k < i ==> v@[k] == (if k < regs@.len() { regs@[k] } else { 0u8 }),
        decreases 32 - i,
    {
        if i < regs.len() {
            v.push(regs[i]);
        } else {
            v.push(0);
        }
        i = i + 1;
    }
    assert(v@ =~= padded(regs@));
    v
}

// ── the writer ──────────────────────────────────────────────────────────────

/// A writer that desugars operands before handing instructions to an
/// underlying RISC-V binary writer.
pub struct DesugaringWriter<L> {
    writer: RvAsmWriter<L>,
    config: DesugarConfig,
    spill_manager: StackSpillManager,
}

/// Nothing is written and the spill state is kept.
pub open spec fn no_step(m: SpillModel) -> Step {
    Step { insts: Seq::empty(), spill: m }
}

/// Saving `r` if `needed`.
pub open spec fn save_if(c: DesugarConfig, m: SpillModel, needed: bool, r: u8) -> Step {
    if needed { save_spec(c.stack_save_offset as int, m, r) } else { no_step(m) }
}

/// Restoring into `r` if `needed`.
pub open spec fn restore_if(c: DesugarConfig, m: SpillModel, needed: bool, r: u8) -> Step {
    if needed { restore_spec(c.stack_save_offset as int, m, r) } else { no_step(m) }
}

/// The spill state holds no reservation without a saved register.
pub open spec fn calm(m: SpillModel) -> bool {
    m.saved.len() == 0 ==> m.reserved == 0
}

/// `after` has no more saved registers than `before`, and is calm if
/// `before` is.
pub open spec fn settles(before: SpillModel, after: SpillModel) -> bool {
    &&& after.saved.len() <= before.saved.len()
    &&& calm(before) ==> calm(after)
}

/// Two steps in a row are one step.
proof fn lemma_did_chain<L>(d0: DesugaringWriter<L>, d1: DesugaringWriter<L>, d2: DesugaringWriter<L>, a: Step, b: Step)
    requires
        d1.did(d0, a),
        d2.did(d1, b),
    ensures
        d2.did(d0, Step { insts: a.insts + b.insts, spill: b.spill }),
{
    lemma_chain(d0.writer(), d1.writer(), d2.writer(), a.insts, b.insts);
}

impl<L> DesugaringWriter<L> {
    /// The underlying writer.
    pub closed spec fn writer(&self) -> RvAsmWriter<L> {
        self.writer
    }

    /// The settings.
    pub closed spec fn config(&self) -> DesugarConfig {
        self.config
    }

    /// The state of the spill area.
    pub closed spec fn spill(&self) -> SpillModel {
        self.spill_manager.model()
    }

    /// Invariant inside an operation: the writer is well formed and the
    /// spill area is consistent with the settings.
    pub closed spec fn inner_ok(&self) -> bool {
        &&& self.writer.wf()
        &&& self.spill_manager.inv()
        &&& self.spill_manager.slot_size == self.config.stack_save_offset
        &&& self.config.save_to_stack_on_conflict ==> slot_ok(self.config.stack_save_offset as int)
    }

    /// Invariant between operations: as [`Self::inner_ok`], with no spill
    /// slot reserved.
    pub open spec fn wf(&self) -> bool {
        &&& self.inner_ok()
        &&& self.spill() == (SpillModel { reserved: 0, saved: Seq::empty() })
    }

    /// `self` is `before` after the step `st`: its writer has the step's
    /// instructions appended and its spill area is in the step's state.
    pub open spec fn did(self, before: Self, st: Step) -> bool {
        &&& self.inner_ok()
        &&& self.writer().emitted_all(before.writer(), st.insts)
        &&& self.spill() == st.spill
        &&& self.config() == before.config()
    }

    /// A desugaring writer around `writer` with the default settings.
    pub fn new(writer: RvAsmWriter<L>) -> (d: Self)
        requires
            writer.wf(),
        ensures
            d.wf(),
            d.writer() == writer,
            d.config() == default_config(),
    {
        let config = DesugarConfig::default();
        DesugaringWriter { writer, config, spill_manager: StackSpillManager::new(config.stack_save_offset) }
    }

    /// A desugaring writer around `writer` with the given settings.
    pub fn with_config(writer: RvAsmWriter<L>, config: DesugarConfig) -> (d: Self)
        requires
            writer.wf(),
            config.save_to_stack_on_conflict ==> slot_ok(config.stack_save_offset as int),
        ensures
            d.wf(),
            d.writer() == writer,
            d.config() == config,
    {
        DesugaringWriter { writer, config, spill_manager: StackSpillManager::new(config.stack_save_offset) }
    }

    /// The underlying writer.
    pub fn into_inner(self) -> (w: RvAsmWriter<L>)
        ensures
            w == self.writer(),
    {
        self.writer
    }

    fn select_temp_reg(&self, avoid: &Vec<u8>) -> (r: (u8, bool))
        requires
            avoid@.len() <= 64,
        ensures
            r == select_spec(self.config, avoid@),
    {
        let t1 = self.config.temp_reg.0;
        let t2 = self.config.temp_reg2.0;
        let t3 = self.config.temp_reg3.0;
        if !contains_reg(avoid, t1) {
            return (t1, false);
        }
        if !contains_reg(avoid, t2) {
            return (t2, false);
        }
        if !contains_reg(avoid, t3) {
            return (t3, false);
        }
        let mut best = t1;
        let mut best_score = count_in(avoid, t1);
        let s2 = count_in(avoid, t2);
        if s2 < best_score {
            best = t2;
            best_score = s2;
        }
        let s3 = count_in(avoid, t3);
        if s3 < best_score {
            best = t3;
        }
        (best, self.config.save_to_stack_on_conflict)
    }

    fn save_if<C>(&mut self, ctx: &mut C, arch: RiscV64Arch, needed: bool, r: u8)
        requires
            old(self).inner_ok(),
            old(self).spill().saved.len() < 32,
            needed ==> old(self).config().save_to_stack_on_conflict,
        ensures
            final(self).did(*old(self), save_if(old(self).config(), old(self).spill(), needed, r)),
            needed ==> final(self).spill().saved.len() == old(self).spill().saved.len() + 1,
            !needed ==> final(self).spill() == old(self).spill(),
    {
        if needed {
            self.spill_manager.save_reg(&mut self.writer, arch, ctx, r);
        } else {
            proof { lemma_nothing(self.writer); }
        }
    }

    fn restore_if<C>(&mut self, ctx: &mut C, arch: RiscV64Arch, needed: bool, r: u8)
        requires
            old(self).inner_ok(),
        ensures
            final(self).did(*old(self), restore_if(old(self).config(), old(self).spill(), needed, r)),
            final(self).spill().saved.len() <= old(self).spill().saved.len(),
            final(self).spill().saved.len() >= old(self).spill().saved.len() - 1,
            calm(old(self).spill()) ==> calm(final(self).spill()),
            old(self).spill().saved.len() > 0 && needed ==> final(self).spill().saved.len()
                == old(self).spill().saved.len() - 1,
    {
        if needed {
            self.spill_manager.restore_reg(&mut self.writer, arch, ctx, r);
        } else {
            proof { lemma_nothing(self.writer); }
        }
    }
}


// ── memory operands ─────────────────────────────────────────────────────────

/// `a` followed by `b`.
pub open spec fn then(a: Step, b: Step) -> Step {
    Step { insts: a.insts + b.insts, spill: b.spill }
}

/// The instructions `insts`, with the spill state `m` kept.
pub open spec fn emit(m: SpillModel, insts: Seq<RvInst>) -> Step {
    Step { insts, spill: m }
}

/// `body`, with the temporary `t` saved around it if `needed`.
pub open spec fn bracket(c: DesugarConfig, m: SpillModel, needed: bool, t: u8, body: Seq<RvInst>) -> Step {
    let sv = save_if(c, m, needed, t);
    then(then(sv, emit(sv.spill, body)), restore_if(c, sv.spill, needed, t))
}

/// The displacement fits a signed 12-bit immediate.
pub open spec fn fits12_i32(v: i32) -> bool {
    -2048 <= v < 2048
}

/// `op dest, a, b` on registers.
pub open spec fn op_inst(op: AluOp, dest: u8, a: u8, b: u8) -> RvInst {
    RvInst::Op { op, dest, src1: a, src2: b }
}

/// The register that holds the shift amount while `off << scale` is computed
/// into `r`: the first temporary that is neither in `regs` nor `r`, or, when
/// all three are taken, `r` itself (the shift reads its amount before it
/// writes its result, so no operand register is clobbered).
pub open spec fn shift_temp(c: DesugarConfig, regs: Seq<u8>, r: u8) -> u8 {
    let avoid = regs.push(r);
    if avoid.contains(c.temp_reg.0) && avoid.contains(c.temp_reg2.0) && avoid.contains(c.temp_reg3.0) {
        r
    } else {
        select_spec(c, avoid).0
    }
}

/// The scaled index `off << scale` computed into a temporary `R` chosen
/// away from `regs`: the shift amount goes into [`shift_temp`].
pub open spec fn scale_spec(c: DesugarConfig, m: SpillModel, regs: Seq<u8>, off: u8, scale: u32) -> Step {
    let (r, ns) = select_spec(c, padded(regs));
    let sv = save_if(c, m, ns, r);
    let sh = shift_temp(c, regs, r);
    let body = li_seq(sh, scale as u64).push(op_inst(AluOp::Sll, r, off, sh));
    then(then(sv, emit(sv.spill, body)), restore_if(c, sv.spill, ns, r))
}

/// The base of a memory operand in a register: a literal base is loaded
/// into a temporary.
pub open spec fn base_stage(c: DesugarConfig, m0: SpillModel, base: ArgKind) -> (Step, u8) {
    match base {
        ArgKind::Reg { reg, .. } => (emit(m0, Seq::empty()), reg.0),
        ArgKind::Lit(v) => {
            let (t, ns) = select_spec(c, padded(Seq::empty()));
            (bracket(c, m0, ns, t, li_seq(t, v)), t)
        },
    }
}

/// The index of a memory operand in a register: a literal index is
/// loaded into a temporary chosen away from the base register.
pub open spec fn index_reg_stage(c: DesugarConfig, m: SpillModel, base_reg: u8, oarg: ArgKind) -> (Step, u8) {
    match oarg {
        ArgKind::Reg { reg, .. } => (emit(m, Seq::empty()), reg.0),
        ArgKind::Lit(v) => {
            let (t, ns) = select_spec(c, padded(seq![base_reg]));
            (bracket(c, m, ns, t, li_seq(t, v)), t)
        },
    }
}

/// The index shifted by a non-zero scale (see [`scale_spec`]), or the
/// index register itself.
pub open spec fn scaled_stage(c: DesugarConfig, m: SpillModel, regs2: Seq<u8>, off_reg: u8, scale: u32) -> (Step, u8) {
    if scale > 0 {
        (scale_spec(c, m, regs2, off_reg, scale), select_spec(c, padded(regs2)).0)
    } else {
        (emit(m, Seq::empty()), off_reg)
    }
}

/// The base plus the scaled index in a temporary (the base alone if there
/// is no index): the index in a register ([`index_reg_stage`]), shifted
/// ([`scaled_stage`]) and added to the base in a temporary chosen away from
/// the base and index registers.
pub open spec fn index_stage(c: DesugarConfig, m: SpillModel, base_reg: u8, offset: Option<(ArgKind, u32)>) -> (Step, u8) {
    match offset {
        None => (emit(m, Seq::empty()), base_reg),
        Some((oarg, scale)) => {
            let (s_o, off_reg) = index_reg_stage(c, m, base_reg, oarg);
            let regs2 = seq![base_reg, off_reg];
            let (s_sc, scaled) = scaled_stage(c, s_o.spill, regs2, off_reg, scale);
            let (r, ns) = select_spec(c, padded(regs2));
            let s_add = bracket(c, s_sc.spill, ns, r, seq![op_inst(AluOp::Add, r, base_reg, scaled)]);
            (then(then(s_o, s_sc), s_add), r)
        },
    }
}

/// The instructions that bring a memory operand to `disp(base)` form, with
/// the base register and displacement that result: the base and the
/// scaled index are combined as [`base_stage`] and [`index_stage`] say; a
/// displacement outside the 12-bit range is then loaded and added into a
/// temporary chosen away from that register, leaving 0.
pub open spec fn mem_operand_spec(c: DesugarConfig, m0: SpillModel, mem: MemArgKind) -> (Step, u8, i32) {
    match mem {
        MemArgKind::Mem { base, offset, disp, .. } => {
            let (sb, base_reg) = base_stage(c, m0, base);
            let (so, eff) = index_stage(c, sb.spill, base_reg, offset);
            let s_ab = then(sb, so);
            if fits12_i32(disp) {
                (s_ab, eff, disp)
            } else {
                let (t, ns) = select_spec(c, seq![eff]);
                let body = li_seq(t, (disp as i64) as u64).push(op_inst(AluOp::Add, t, eff, t));
                (then(s_ab, bracket(c, s_ab.spill, ns, t, body)), t, 0i32)
            }
        },
        MemArgKind::NoMem(_) => (emit(m0, Seq::empty()), 0u8, 0i32),
    }
}

impl<L> DesugaringWriter<L> {
    fn emit_li<C>(&mut self, ctx: &mut C, arch: RiscV64Arch, t: u8, v: u64)
        requires
            old(self).inner_ok(),
        ensures
            final(self).did(*old(self), emit(old(self).spill(), li_seq(t, v))),
    {
        let _ = self.writer.li(ctx, arch, &reg_arg(t), v);
    }

    fn emit_op<C>(&mut self, ctx: &mut C, arch: RiscV64Arch, op: AluOp, d: u8, a: u8, b: u8)
        requires
            old(self).inner_ok(),
            op is Add || op is Sll,
        ensures
            final(self).did(*old(self), emit(old(self).spill(), seq![op_inst(op, d, a, b)])),
    {
        let _ = match op {
            AluOp::Add => self.writer.add(ctx, arch, &reg_arg(d), &reg_arg(a), &reg_arg(b)),
            _ => self.writer.sll(ctx, arch, &reg_arg(d), &reg_arg(a), &reg_arg(b)),
        };
    }

    /// `LI t, v`, with `t` saved around it if `needed`.
    fn li_temp<C>(&mut self, ctx: &mut C, arch: RiscV64Arch, t: u8, needed: bool, v: u64)
        requires
            needed ==> old(self).config().save_to_stack_on_conflict,
            old(self).inner_ok(),
            old(self).spill().saved.len() < 32,
        ensures
            final(self).did(*old(self), bracket(old(self).config(), old(self).spill(), needed, t, li_seq(t, v))),
            settles(old(self).spill(), final(self).spill()),
    {
        let ghost d0 = *self;
        self.save_if(ctx, arch, needed, t);
        let ghost d1 = *self;
        self.emit_li(ctx, arch, t, v);
        let ghost d2 = *self;
        self.restore_if(ctx, arch, needed, t);
        proof {
            let sv = save_if(d0.config(), d0.spill(), needed, t);
            lemma_did_chain(d0, d1, d2, sv, emit(sv.spill, li_seq(t, v)));
            lemma_did_chain(d0, d2, *self, then(sv, emit(sv.spill, li_seq(t, v))), restore_if(d0.config(), sv.spill, needed, t));
        }
    }
}


impl<L> DesugaringWriter<L> {
    fn shift_reg(&self, regs: &Vec<u8>, r: u8) -> (sh: u8)
        requires
            regs@.len() == 2,
        ensures
            sh == shift_temp(self.config(), regs@, r),
    {
        let c = self.config;
        let mut avoid: Vec<u8> = Vec::new();
        avoid.push(regs[0]);
        avoid.push(regs[1]);
        avoid.push(r);
        assert(avoid@ =~= regs@.push(r));
        if contains_reg(&avoid, c.temp_reg.0) && contains_reg(&avoid, c.temp_reg2.0) && contains_reg(&avoid, c.temp_reg3.0) {
            r
        } else {
            self.select_temp_reg(&avoid).0
        }
    }

    fn scale_offset<C>(&mut self, ctx: &mut C, arch: RiscV64Arch, regs: &Vec<u8>, off: u8, scale: u32) -> (r: u8)
        requires
            old(self).inner_ok(),
            old(self).spill().saved.len() < 32,
            regs@.len() == 2,
        ensures
            final(self).did(*old(self), scale_spec(old(self).config(), old(self).spill(), regs@, off, scale)),
            r == select_spec(old(self).config(), padded(regs@)).0,
            settles(old(self).spill(), final(self).spill()),
    {
        let ghost d0 = *self;
        let ghost c = self.config;
        let pv = padded_vec(regs);
        let (r, ns) = self.select_temp_reg(&pv);
        self.save_if(ctx, arch, ns, r);
        let ghost d1 = *self;
        let sh = self.shift_reg(regs, r);
        self.emit_li(ctx, arch, sh, scale as u64);
        let ghost d2 = *self;
        self.emit_op(ctx, arch, AluOp::Sll, r, off, sh);
        let ghost d3 = *self;
        self.restore_if(ctx, arch, ns, r);
        proof {
            let sv = save_if(c, d0.spill(), ns, r);
            let sll = op_inst(AluOp::Sll, r, off, sh);
            let body = li_seq(sh, scale as u64).push(sll);
            lemma_did_chain(d1, d2, d3, emit(sv.spill, li_seq(sh, scale as u64)), emit(sv.spill, seq![sll]));
            assert(li_seq(sh, scale as u64) + seq![sll] =~= body);
            lemma_did_chain(d0, d1, d3, sv, emit(sv.spill, body));
            lemma_did_chain(d0, d3, *self, then(sv, emit(sv.spill, body)), restore_if(c, sv.spill, ns, r));
        }
        r
    }

    fn bracket_add<C>(&mut self, ctx: &mut C, arch: RiscV64Arch, t: u8, needed: bool, a: u8, b: u8)
        requires
            needed ==> old(self).config().save_to_stack_on_conflict,
            old(self).inner_ok(),
            old(self).spill().saved.len() < 32,
        ensures
            final(self).did(
                *old(self),
                bracket(old(self).config(), old(self).spill(), needed, t, seq![op_inst(AluOp::Add, t, a, b)]),
            ),
            settles(old(self).spill(), final(self).spill()),
    {
        let ghost d0 = *self;
        self.save_if(ctx, arch, needed, t);
        let ghost d1 = *self;
        self.emit_op(ctx, arch, AluOp::Add, t, a, b);
        let ghost d2 = *self;
        self.restore_if(ctx, arch, needed, t);
        proof {
            let sv = save_if(d0.config(), d0.spill(), needed, t);
            let body = seq![op_inst(AluOp::Add, t, a, b)];
            lemma_did_chain(d0, d1, d2, sv, emit(sv.spill, body));
            lemma_did_chain(d0, d2, *self, then(sv, emit(sv.spill, body)), restore_if(d0.config(), sv.spill, needed, t));
        }
    }

    fn bracket_li_add<C>(&mut self, ctx: &mut C, arch: RiscV64Arch, t: u8, needed: bool, v: u64, eff: u8)
        requires
            needed ==> old(self).config().save_to_stack_on_conflict,
            old(self).inner_ok(),
            old(self).spill().saved.len() < 32,
        ensures
            final(self).did(
                *old(self),
                bracket(old(self).config(), old(self).spill(), needed, t,
                    li_seq(t, v).push(op_inst(AluOp::Add, t, eff, t))),
            ),
            settles(old(self).spill(), final(self).spill()),
    {
        let ghost d0 = *self;
        self.save_if(ctx, arch, needed, t);
        let ghost d1 = *self;
        self.emit_li(ctx, arch, t, v);
        let ghost d2 = *self;
        self.emit_op(ctx, arch, AluOp::Add, t, eff, t);
        let ghost d3 = *self;
        self.restore_if(ctx, arch, needed, t);
        proof {
            let sv = save_if(d0.config(), d0.spill(), needed, t);
            let add = op_inst(AluOp::Add, t, eff, t);
            let body = li_seq(t, v).push(add);
            lemma_did_chain(d1, d2, d3, emit(sv.spill, li_seq(t, v)), emit(sv.spill, seq![add]));
            assert(li_seq(t, v) + seq![add] =~= body);
            lemma_did_chain(d0, d1, d3, sv, emit(sv.spill, body));
            lemma_did_chain(d0, d3, *self, then(sv, emit(sv.spill, body)), restore_if(d0.config(), sv.spill, needed, t));
        }
    }
}


impl<L> DesugaringWriter<L> {
    proof fn lemma_stay(&self)
        requires
            self.inner_ok(),
        ensures
            self.did(*self, emit(self.spill(), Seq::empty())),
    {
        lemma_nothing(self.writer);
    }

    #[verifier::spinoff_prover]
    #[verifier::rlimit(40)]
    fn desugar_mem_operand<C>(&mut self, ctx: &mut C, arch: RiscV64Arch, mem: &MemArgKind) -> (r: (u8, i32, MemorySize, RegisterClass))
        requires
            old(self).inner_ok(),
            old(self).spill().saved.len() < 32,
            mem is Mem,
        ensures
            final(self).did(*old(self), mem_operand_spec(old(self).config(), old(self).spill(), *mem).0),
            r.0 == mem_operand_spec(old(self).config(), old(self).spill(), *mem).1,
            r.1 == mem_operand_spec(old(self).config(), old(self).spill(), *mem).2,
            r.2 == mem->size,
            r.3 == mem->reg_class,
            settles(old(self).spill(), final(self).spill()),
    {
        let ghost d0 = *self;
        let ghost c = self.config;
        let ghost m0 = self.spill();
        match mem {
            MemArgKind::Mem { base, offset, disp, size, reg_class } => {
                let ghost sb: Step;
                let base_reg: u8 = match base {
                    ArgKind::Reg { reg, .. } => {
                        proof {
                            self.lemma_stay();
                            sb = emit(m0, Seq::empty());
                        }
                        reg.0
                    },
                    ArgKind::Lit(v) => {
                        let empty: Vec<u8> = Vec::new();
                        let pv = padded_vec(&empty);
                        let (t, ns) = self.select_temp_reg(&pv);
                        self.li_temp(ctx, arch, t, ns, *v);
                        proof {
                            assert(empty@ =~= Seq::<u8>::empty());
                            sb = bracket(c, m0, ns, t, li_seq(t, *v));
                        }
                        t
                    },
                };
                let ghost d1 = *self;
                assert(self.did(d0, sb));
                let ghost so: Step;
                let eff: u8 = match offset {
                    None => {
                        proof {
                            self.lemma_stay();
                            so = emit(sb.spill, Seq::empty());
                        }
                        base_reg
                    },
                    Some((oarg, scale)) => {
                        let ghost s_o: Step;
                        let off_reg: u8 = match oarg {
                            ArgKind::Reg { reg, .. } => {
                                proof {
                                    self.lemma_stay();
                                    s_o = emit(sb.spill, Seq::empty());
                                }
                                reg.0
                            },
                            ArgKind::Lit(v) => {
                                let mut one: Vec<u8> = Vec::new();
                                one.push(base_reg);
                                let pv = padded_vec(&one);
                                let (t, ns) = self.select_temp_reg(&pv);
                                self.li_temp(ctx, arch, t, ns, *v);
                                proof {
                                    assert(one@ =~= seq![base_reg]);
                                    s_o = bracket(c, sb.spill, ns, t, li_seq(t, *v));
                                }
                                t
                            },
                        };
                        let ghost d2 = *self;
                        let mut regs: Vec<u8> = Vec::new();
                        regs.push(base_reg);
                        regs.push(off_reg);
                        assert(regs@ =~= seq![base_reg, off_reg]);
                        let ghost s_sc: Step;
                        let scaled: u8 = if *scale > 0 {
                            let sr = self.scale_offset(ctx, arch, &regs, off_reg, *scale);
                            proof { s_sc = scale_spec(c, s_o.spill, regs@, off_reg, *scale); }
                            sr
                        } else {
                            proof {
                                self.lemma_stay();
                                s_sc = emit(s_o.spill, Seq::empty());
                            }
                            off_reg
                        };
                        let ghost d3 = *self;
                        let pv2 = padded_vec(&regs);
                        let (r, ns) = self.select_temp_reg(&pv2);
                        self.bracket_add(ctx, arch, r, ns, base_reg, scaled);
                        proof {
                            let s_add = bracket(c, s_sc.spill, ns, r, seq![op_inst(AluOp::Add, r, base_reg, scaled)]);
                            lemma_did_chain(d1, d2, d3, s_o, s_sc);
                            lemma_did_chain(d1, d3, *self, then(s_o, s_sc), s_add);
                            so = then(then(s_o, s_sc), s_add);
                        }
                        r
                    },
                };
                let ghost d4 = *self;
                proof { lemma_did_chain(d0, d1, d4, sb, so); }
                if -2048 <= *disp && *disp < 2048 {
                    (eff, *disp, *size, *reg_class)
                } else {
                    let mut one: Vec<u8> = Vec::new();
                    one.push(eff);
                    assert(one@ =~= seq![eff]);
                    let (t, ns) = self.select_temp_reg(&one);
                    self.bracket_li_add(ctx, arch, t, ns, (*disp as i64) as u64, eff);
                    proof {
                        let s_ab = then(sb, so);
                        let body = li_seq(t, (*disp as i64) as u64).push(op_inst(AluOp::Add, t, eff, t));
                        lemma_did_chain(d0, d4, *self, s_ab, bracket(c, s_ab.spill, ns, t, body));
                    }
                    (t, 0, *size, *reg_class)
                }
            },
            MemArgKind::NoMem(_) => {
                proof { assert(false); }
                (0, 0, MemorySize::_64, RegisterClass::Gpr)
            },
        }
    }
}


// ── operands ────────────────────────────────────────────────────────────────

/// `disp(base)` with the given access size and class.
pub open spec fn simple_mem(base: u8, disp: i32, size: MemorySize, rc: RegisterClass) -> MemArgKind {
    MemArgKind::Mem { base: ArgKind::Reg { reg: Reg(base), size }, offset: None, disp, size, reg_class: rc }
}

/// A memory operand based on `sp` while spill slots are reserved: its
/// displacement moves past the reserved area.
pub open spec fn adjust_spec(slot: int, m: SpillModel, mem: MemArgKind) -> MemArgKind {
    match mem {
        MemArgKind::Mem { base: ArgKind::Reg { reg, size }, offset, disp, size: msize, reg_class } => {
            if reg.0 == 2 && m.reserved > 0 {
                MemArgKind::Mem {
                    base: ArgKind::Reg { reg, size },
                    offset,
                    disp: (disp + m.reserved * slot) as i32,
                    size: msize,
                    reg_class,
                }
            } else {
                mem
            }
        },
        _ => mem,
    }
}

/// A memory operand that is not already `disp(base)` with a register base
/// and a 12-bit displacement.
pub open spec fn needs_desugar(mem: MemArgKind) -> bool {
    match mem {
        MemArgKind::Mem { base, offset, disp, .. } => offset is Some || !fits12_i32(disp) || base is Lit,
        MemArgKind::NoMem(_) => false,
    }
}

/// A memory argument desugared to `disp(base)` form (other operands are
/// kept), and moved past a reserved spill area if it is based on `sp`.
pub open spec fn mem_arg_spec(c: DesugarConfig, m0: SpillModel, mem: MemArgKind) -> (Step, MemArgKind) {
    if needs_desugar(mem) {
        let (st, b, d) = mem_operand_spec(c, m0, mem);
        (st, adjust_spec(c.stack_save_offset as int, st.spill, simple_mem(b, d, mem->size, mem->reg_class)))
    } else {
        (emit(m0, Seq::empty()), adjust_spec(c.stack_save_offset as int, m0, mem))
    }
}

/// The load of the given width into `t` from the memory operand `mm`.
pub open spec fn load_inst(size: MemorySize, t: u8, mm: MemArgKind) -> RvInst {
    let op = match size {
        MemorySize::_8 => LoadOp::Lb,
        MemorySize::_16 => LoadOp::Lh,
        MemorySize::_32 => LoadOp::Lw,
        MemorySize::_64 => LoadOp::Ld,
    };
    RvInst::Load {
        op,
        dest: t,
        base: crate::riscv64::encode::base_offset(mm).0,
        offset: crate::riscv64::encode::base_offset(mm).1,
    }
}

/// An operand brought into a register, using a temporary chosen away from
/// `avoid`: a register is kept; a literal is loaded (`LI`); a memory
/// operand is desugared and loaded with the load of its width.
pub open spec fn operand_spec(c: DesugarConfig, m0: SpillModel, opd: MemArgKind, avoid: Seq<u8>) -> (Step, MemArgKind) {
    match opd {
        MemArgKind::NoMem(ArgKind::Reg { .. }) => (emit(m0, Seq::empty()), opd),
        MemArgKind::NoMem(ArgKind::Lit(v)) => {
            let (t, ns) = select_spec(c, avoid);
            (bracket(c, m0, ns, t, li_seq(t, v)), reg_operand(t))
        },
        MemArgKind::Mem { size, .. } => {
            let (t, ns) = select_spec(c, avoid);
            let sv = save_if(c, m0, ns, t);
            let (sm, mm) = mem_arg_spec(c, sv.spill, opd);
            let ld = emit(sm.spill, seq![load_inst(size, t, mm)]);
            let rs = restore_if(c, sm.spill, ns, t);
            (then(then(then(sv, sm), ld), rs), MemArgKind::NoMem(ArgKind::Reg { reg: Reg(t), size }))
        },
    }
}

/// One of the operands is `sp` itself (as a register, not as a base).
pub open spec fn uses_sp(args: Seq<MemArgKind>) -> bool {
    exists|i: int| 0 <= i < args.len() && (#[trigger] args[i] matches MemArgKind::NoMem(ArgKind::Reg { reg, .. }) && reg.0 == 2)
}

/// Before an instruction that reads or writes `sp` as a register, the
/// spill area is flushed.
pub open spec fn flush_sp_spec(c: DesugarConfig, m: SpillModel, args: Seq<MemArgKind>) -> Step {
    if uses_sp(args) { flush_spec(c.stack_save_offset as int, m) } else { emit(m, Seq::empty()) }
}

fn is_sp_reg(a: &MemArgKind) -> (b: bool)
    ensures
        b == (*a matches MemArgKind::NoMem(ArgKind::Reg { reg, .. }) && reg.0 == 2),
{
    match a {
        MemArgKind::NoMem(ArgKind::Reg { reg, .. }) => reg.0 == 2,
        _ => false,
    }
}

impl<L> DesugaringWriter<L> {
    fn adjust_sp_mem_kind(&self, m: MemArgKind) -> (r: MemArgKind)
        requires
            self.inner_ok(),
            m matches MemArgKind::Mem { base: ArgKind::Reg { .. }, disp, .. } ==> fits12_i32(disp),
        ensures
            r == adjust_spec(self.config.stack_save_offset as int, self.spill(), m),
    {
        match m {
            MemArgKind::Mem { base: ArgKind::Reg { reg, size }, offset, disp, size: msize, reg_class } => {
                if reg.0 == 2 && self.spill_manager.reserved_slots > 0 {
                    proof { lemma_slot_mul(self.spill_manager.reserved_slots as int, self.spill_manager.slot_size as int); }
                    let total = self.spill_manager.reserved_slots * self.spill_manager.slot_size;
                    MemArgKind::Mem { base: ArgKind::Reg { reg, size }, offset, disp: disp + total, size: msize, reg_class }
                } else {
                    m
                }
            },
            _ => m,
        }
    }

    fn desugar_mem_arg<C>(&mut self, ctx: &mut C, arch: RiscV64Arch, mem: &MemArgKind) -> (r: MemArgKind)
        requires
            old(self).inner_ok(),
            old(self).spill().saved.len() < 32,
        ensures
            final(self).did(*old(self), mem_arg_spec(old(self).config(), old(self).spill(), *mem).0),
            r == mem_arg_spec(old(self).config(), old(self).spill(), *mem).1,
            settles(old(self).spill(), final(self).spill()),
    {
        let nd = match mem {
            MemArgKind::Mem { base, offset, disp, .. } => {
                offset.is_some() || !(-2048 <= *disp && *disp < 2048) || match base {
                    ArgKind::Lit(_) => true,
                    _ => false,
                }
            },
            MemArgKind::NoMem(_) => false,
        };
        if nd {
            let (b, d, size, rc) = self.desugar_mem_operand(ctx, arch, mem);
            let sm = MemArgKind::Mem { base: ArgKind::Reg { reg: Reg(b), size }, offset: None, disp: d, size, reg_class: rc };
            self.adjust_sp_mem_kind(sm)
        } else {
            proof { self.lemma_stay(); }
            self.adjust_sp_mem_kind(*mem)
        }
    }

    fn desugar_operand_with_avoid<C>(&mut self, ctx: &mut C, arch: RiscV64Arch, opd: &MemArgKind, avoid: &Vec<u8>) -> (r: MemArgKind)
        requires
            old(self).inner_ok(),
            old(self).spill().saved.len() < 31,
            avoid@.len() <= 64,
        ensures
            final(self).did(*old(self), operand_spec(old(self).config(), old(self).spill(), *opd, avoid@).0),
            r == operand_spec(old(self).config(), old(self).spill(), *opd, avoid@).1,
            settles(old(self).spill(), final(self).spill()),
    {
        let ghost d0 = *self;
        let ghost c = self.config;
        match opd {
            MemArgKind::NoMem(ArgKind::Reg { .. }) => {
                proof { self.lemma_stay(); }
                *opd
            },
            MemArgKind::NoMem(ArgKind::Lit(v)) => {
                let (t, ns) = self.select_temp_reg(avoid);
                self.li_temp(ctx, arch, t, ns, *v);
                reg_arg(t)
            },
            MemArgKind::Mem { size, .. } => {
                let (t, ns) = self.select_temp_reg(avoid);
                self.save_if(ctx, arch, ns, t);
                let ghost d1 = *self;
                let mm = self.desugar_mem_arg(ctx, arch, opd);
                let ghost d2 = *self;
                let ghost m2 = self.spill();
                let td = reg_arg(t);
                let _ = match size {
                    MemorySize::_8 => self.writer.lb(ctx, arch, &td, &mm),
                    MemorySize::_16 => self.writer.lh(ctx, arch, &td, &mm),
                    MemorySize::_32 => self.writer.lw(ctx, arch, &td, &mm),
                    MemorySize::_64 => self.writer.ld(ctx, arch, &td, &mm),
                };
                let ghost d3 = *self;
                assert(d3.did(d2, emit(m2, seq![load_inst(*size, t, mm)])));
                self.restore_if(ctx, arch, ns, t);
                proof {
                    let sv = save_if(c, d0.spill(), ns, t);
                    let (sm, mm2) = mem_arg_spec(c, sv.spill, *opd);
                    lemma_did_chain(d0, d1, d2, sv, sm);
                    lemma_did_chain(d0, d2, d3, then(sv, sm), emit(sm.spill, seq![load_inst(*size, t, mm)]));
                    lemma_did_chain(d0, d3, *self, then(then(sv, sm), emit(sm.spill, seq![load_inst(*size, t, mm)])), restore_if(c, sm.spill, ns, t));
                }
                MemArgKind::NoMem(ArgKind::Reg { reg: Reg(t), size: *size })
            },
        }
    }

    fn flush_sp_if_needed<C>(&mut self, ctx: &mut C, arch: RiscV64Arch, args: &Vec<MemArgKind>)
        requires
            old(self).inner_ok(),
        ensures
            final(self).did(*old(self), flush_sp_spec(old(self).config(), old(self).spill(), args@)),
            settles(old(self).spill(), final(self).spill()),
            final(self).spill().saved.len() == 0 || final(self).spill() == old(self).spill(),
    {
        let mut i: usize = 0;
        while i < args.len()
            invariant
                i <= args@.len(),
                *self == *old(self),
                self.inner_ok(),
                forall|k: int| 0 <= k < i ==> !(#[trigger] args@[k] matches MemArgKind::NoMem(ArgKind::Reg { reg, .. }) && reg.0 == 2),
            decreases args@.len() - i,
        {
            if is_sp_reg(&args[i]) {
                assert(args@[i as int] matches MemArgKind::NoMem(ArgKind::Reg { reg, .. }) && reg.0 == 2);
                assert(uses_sp(args@));
                self.spill_manager.flush_all(&mut self.writer, arch, ctx);
                return;
            }
            i = i + 1;
        }
        proof { self.lemma_stay(); }
    }
}


// ── two-operand instructions ────────────────────────────────────────────────

/// The two source operands of an instruction brought into registers: an
/// operand that is not a register is brought in (see [`operand_spec`]);
/// when both are memory operands, each is loaded into its own temporary
/// (both saved around the loads if needed); otherwise the second one
/// avoids the register that the first one ended up in.
pub open spec fn prepare_pair_spec(c: DesugarConfig, m0: SpillModel, a: MemArgKind, b: MemArgKind) -> (Step, MemArgKind, MemArgKind) {
    let ra = a matches MemArgKind::NoMem(ArgKind::Reg { .. });
    let rb = b matches MemArgKind::NoMem(ArgKind::Reg { .. });
    if ra && rb {
        (emit(m0, Seq::empty()), a, b)
    } else if !ra && rb {
        let (sa, a2) = operand_spec(c, m0, a, Seq::empty());
        (sa, a2, b)
    } else if ra && !rb {
        let (sb, b2) = operand_spec(c, m0, b, Seq::empty());
        (sb, a, b2)
    } else if a is Mem && b is Mem {
        let (ta, ans) = select_spec(c, Seq::empty());
        let (tb, bns) = select_spec(c, seq![ta]);
        let s1 = save_if(c, m0, ans, ta);
        let s2 = save_if(c, s1.spill, bns, tb);
        let (sa, ma) = mem_arg_spec(c, s2.spill, a);
        let la = emit(sa.spill, seq![load_inst(a->size, ta, ma)]);
        let (sb, mb) = mem_arg_spec(c, sa.spill, b);
        let lb = emit(sb.spill, seq![load_inst(b->size, tb, mb)]);
        let r1 = restore_if(c, sb.spill, bns, tb);
        let r2 = restore_if(c, r1.spill, ans, ta);
        (
            then(then(then(then(then(then(then(s1, s2), sa), la), sb), lb), r1), r2),
            MemArgKind::NoMem(ArgKind::Reg { reg: Reg(ta), size: a->size }),
            MemArgKind::NoMem(ArgKind::Reg { reg: Reg(tb), size: b->size }),
        )
    } else {
        let (sa, a2) = operand_spec(c, m0, a, Seq::empty());
        let (sb, b2) = operand_spec(c, sa.spill, b, seq![crate::riscv64::encode::reg_of(a2)]);
        (then(sa, sb), a2, b2)
    }
}

/// `op dest, a, b` with its sources brought into registers, after a flush
/// of the spill area if any operand is `sp`.
pub open spec fn binary_op_spec(
    c: DesugarConfig,
    m0: SpillModel,
    dest: MemArgKind,
    a: MemArgKind,
    b: MemArgKind,
    op: AluOp,
) -> Step {
    let (p, a2, b2) = prepare_pair_spec(c, m0, a, b);
    let f = flush_sp_spec(c, p.spill, seq![dest, a2, b2]);
    let reg_of = |x: MemArgKind| crate::riscv64::encode::reg_of(x);
    then(then(p, f), emit(f.spill, seq![op_inst(op, reg_of(dest), reg_of(a2), reg_of(b2))]))
}

/// A branch on `a` and `b` to the literal offset `target`, with its
/// operands brought into registers, after a flush of the spill area if
/// any operand is `sp`.
pub open spec fn branch_spec(
    c: DesugarConfig,
    m0: SpillModel,
    a: MemArgKind,
    b: MemArgKind,
    target: MemArgKind,
    op: BranchOp,
) -> Step {
    let (p, a2, b2) = prepare_pair_spec(c, m0, a, b);
    let f = flush_sp_spec(c, p.spill, seq![a2, b2, target]);
    let reg_of = |x: MemArgKind| crate::riscv64::encode::reg_of(x);
    then(then(p, f), emit(f.spill, seq![RvInst::Branch {
        op,
        src1: reg_of(a2),
        src2: reg_of(b2),
        offset: crate::riscv64::encode::lit_imm(target),
    }]))
}

fn is_reg_operand(a: &MemArgKind) -> (b: bool)
    ensures
        b == (*a matches MemArgKind::NoMem(ArgKind::Reg { .. })),
{
    match a {
        MemArgKind::NoMem(ArgKind::Reg { .. }) => true,
        _ => false,
    }
}

fn is_mem_operand(a: &MemArgKind) -> (b: bool)
    ensures
        b == (*a is Mem),
{
    match a {
        MemArgKind::Mem { .. } => true,
        _ => false,
    }
}

impl<L> DesugaringWriter<L> {
    fn load_sized<C>(&mut self, ctx: &mut C, arch: RiscV64Arch, size: MemorySize, t: u8, mm: &MemArgKind)
        requires
            old(self).inner_ok(),
        ensures
            final(self).did(*old(self), emit(old(self).spill(), seq![load_inst(size, t, *mm)])),
    {
        let td = reg_arg(t);
        let _ = match size {
            MemorySize::_8 => self.writer.lb(ctx, arch, &td, mm),
            MemorySize::_16 => self.writer.lh(ctx, arch, &td, mm),
            MemorySize::_32 => self.writer.lw(ctx, arch, &td, mm),
            MemorySize::_64 => self.writer.ld(ctx, arch, &td, mm),
        };
    }

    fn prepare_pair<C>(&mut self, ctx: &mut C, arch: RiscV64Arch, a: &MemArgKind, b: &MemArgKind) -> (r: (MemArgKind, MemArgKind))
        requires
            old(self).inner_ok(),
            old(self).spill().saved.len() < 30,
        ensures
            final(self).did(*old(self), prepare_pair_spec(old(self).config(), old(self).spill(), *a, *b).0),
            r.0 == prepare_pair_spec(old(self).config(), old(self).spill(), *a, *b).1,
            r.1 == prepare_pair_spec(old(self).config(), old(self).spill(), *a, *b).2,
            settles(old(self).spill(), final(self).spill()),
    {
        let ghost d0 = *self;
        let ghost c = self.config;
        let ra = is_reg_operand(a);
        let rb = is_reg_operand(b);
        let empty: Vec<u8> = Vec::new();
        assert(empty@ =~= Seq::<u8>::empty());
        if ra && rb {
            proof { self.lemma_stay(); }
            (*a, *b)
        } else if !ra && rb {
            let a2 = self.desugar_operand_with_avoid(ctx, arch, a, &empty);
            (a2, *b)
        } else if ra && !rb {
            let b2 = self.desugar_operand_with_avoid(ctx, arch, b, &empty);
            (*a, b2)
        } else if is_mem_operand(a) && is_mem_operand(b) {
            let (ta, ans) = self.select_temp_reg(&empty);
            let mut one: Vec<u8> = Vec::new();
            one.push(ta);
            assert(one@ =~= seq![ta]);
            let (tb, bns) = self.select_temp_reg(&one);
            self.save_if(ctx, arch, ans, ta);
            let ghost d1 = *self;
            self.save_if(ctx, arch, bns, tb);
            let ghost d2 = *self;
            let ma = self.desugar_mem_arg(ctx, arch, a);
            let ghost d3 = *self;
            let a_size = match a {
                MemArgKind::Mem { size, .. } => *size,
                _ => MemorySize::_64,
            };
            self.load_sized(ctx, arch, a_size, ta, &ma);
            let ghost d4 = *self;
            let mb = self.desugar_mem_arg(ctx, arch, b);
            let ghost d5 = *self;
            let b_size = match b {
                MemArgKind::Mem { size, .. } => *size,
                _ => MemorySize::_64,
            };
            self.load_sized(ctx, arch, b_size, tb, &mb);
            let ghost d6 = *self;
            self.restore_if(ctx, arch, bns, tb);
            let ghost d7 = *self;
            self.restore_if(ctx, arch, ans, ta);
            proof {
                let s1 = save_if(c, d0.spill(), ans, ta);
                let s2 = save_if(c, s1.spill, bns, tb);
                let (sa, ma2) = mem_arg_spec(c, s2.spill, *a);
                let la = emit(sa.spill, seq![load_inst(a_size, ta, ma)]);
                let (sb, mb2) = mem_arg_spec(c, sa.spill, *b);
                let lb = emit(sb.spill, seq![load_inst(b_size, tb, mb)]);
                let r1 = restore_if(c, sb.spill, bns, tb);
                let r2 = restore_if(c, r1.spill, ans, ta);
                lemma_did_chain(d0, d1, d2, s1, s2);
                lemma_did_chain(d0, d2, d3, then(s1, s2), sa);
                lemma_did_chain(d0, d3, d4, then(then(s1, s2), sa), la);
                lemma_did_chain(d0, d4, d5, then(then(then(s1, s2), sa), la), sb);
                lemma_did_chain(d0, d5, d6, then(then(then(then(s1, s2), sa), la), sb), lb);
                lemma_did_chain(d0, d6, d7, then(then(then(then(then(s1, s2), sa), la), sb), lb), r1);
                lemma_did_chain(d0, d7, *self, then(then(then(then(then(then(s1, s2), sa), la), sb), lb), r1), r2);
            }
            (MemArgKind::NoMem(ArgKind::Reg { reg: Reg(ta), size: a_size }), MemArgKind::NoMem(ArgKind::Reg { reg: Reg(tb), size: b_size }))
        } else {
            let a2 = self.desugar_operand_with_avoid(ctx, arch, a, &empty);
            let ghost d1 = *self;
            let a_reg = crate::riscv64::encode::to_reg(&a2);
            let mut one: Vec<u8> = Vec::new();
            one.push(a_reg);
            assert(one@ =~= seq![a_reg]);
            let b2 = self.desugar_operand_with_avoid(ctx, arch, b, &one);
            proof {
                let (sa, x) = operand_spec(c, d0.spill(), *a, Seq::empty());
                let (sb, y) = operand_spec(c, sa.spill, *b, seq![a_reg]);
                lemma_did_chain(d0, d1, *self, sa, sb);
            }
            (a2, b2)
        }
    }
}


// ── the instructions ────────────────────────────────────────────────────────

/// The spill area with nothing reserved.
pub open spec fn idle() -> SpillModel {
    SpillModel { reserved: 0, saved: Seq::empty() }
}

/// `LD`/`LW`/`LH`/`LB` into `d` from the simple memory operand `mm`.
pub open spec fn load_op(op: LoadOp, d: MemArgKind, mm: MemArgKind) -> RvInst {
    RvInst::Load {
        op,
        dest: crate::riscv64::encode::reg_of(d),
        base: crate::riscv64::encode::base_offset(mm).0,
        offset: crate::riscv64::encode::base_offset(mm).1,
    }
}

/// `SD`/`SW`/`SH`/`SB` of `s` to the simple memory operand `mm`.
pub open spec fn store_op(op: StoreOp, s: MemArgKind, mm: MemArgKind) -> RvInst {
    RvInst::Store {
        op,
        src: crate::riscv64::encode::reg_of(s),
        base: crate::riscv64::encode::base_offset(mm).0,
        offset: crate::riscv64::encode::base_offset(mm).1,
    }
}

/// A load or store through a desugared memory operand.
pub open spec fn mem_access_spec(c: DesugarConfig, mem: MemArgKind, inst: spec_fn(MemArgKind) -> RvInst) -> Step {
    let (s, mm) = mem_arg_spec(c, idle(), mem);
    then(s, emit(s.spill, seq![inst(mm)]))
}

/// A unary instruction whose source is brought into a register first:
/// `inst` of the register operand, after a flush of the spill area if `dest`
/// or the source is `sp`.
pub open spec fn unary_spec(c: DesugarConfig, dest: MemArgKind, src: MemArgKind, inst: spec_fn(MemArgKind) -> RvInst) -> Step {
    let (s, src2) = operand_spec(c, idle(), src, Seq::empty());
    let f = flush_sp_spec(c, s.spill, seq![dest, src2]);
    then(then(s, f), emit(f.spill, seq![inst(src2)]))
}

/// `MV dest, src`: a literal source is loaded with `LI` (after a flush if
/// `dest` is `sp`); any other source is brought into a register and moved.
pub open spec fn mv_spec(c: DesugarConfig, dest: MemArgKind, src: MemArgKind) -> Step {
    let reg_of = |x: MemArgKind| crate::riscv64::encode::reg_of(x);
    match src {
        MemArgKind::NoMem(ArgKind::Lit(v)) => {
            let f = flush_sp_spec(c, idle(), seq![dest, src]);
            then(f, emit(f.spill, li_seq(reg_of(dest), v)))
        },
        _ => unary_spec(c, dest, src, |s2: MemArgKind| RvInst::Addi { dest: reg_of(dest), src1: reg_of(s2), imm: 0 }),
    }
}

/// An immediate outside the 12-bit range is first loaded into the third
/// temporary; then `tail` runs on the source brought into a register.
pub open spec fn large_imm_spec(
    c: DesugarConfig,
    dest: MemArgKind,
    src: MemArgKind,
    imm: i32,
    tail: spec_fn(MemArgKind) -> Seq<RvInst>,
) -> Step {
    let t = c.temp_reg3.0;
    let (s, src2) = operand_spec(c, idle(), src, Seq::empty());
    let f = flush_sp_spec(c, s.spill, seq![dest, src2, reg_operand(t)]);
    then(then(then(emit(idle(), li_seq(t, imm as u64)), s), f), emit(f.spill, tail(src2)))
}

impl<L> DesugaringWriter<L> {
    /// `self` is `before` after the instructions of `st`: well formed, with
    /// nothing left in the spill area.
    pub open spec fn wrote(self, before: Self, st: Step) -> bool {
        &&& self.wf()
        &&& self.writer().emitted_all(before.writer(), st.insts)
        &&& self.config() == before.config()
    }

    proof fn lemma_settled(&self, before: Self, st: Step)
        requires
            self.did(before, st),
            before.wf(),
            settles(before.spill(), self.spill()),
        ensures
            self.wrote(before, st),
    {
        assert(self.spill().saved =~= Seq::<u8>::empty());
    }

    fn emit_alu<C>(&mut self, ctx: &mut C, arch: RiscV64Arch, op: AluOp, d: &MemArgKind, a: &MemArgKind, b: &MemArgKind)
        requires
            old(self).inner_ok(),
        ensures
            final(self).did(*old(self), emit(old(self).spill(), seq![op_inst(
                op,
                crate::riscv64::encode::reg_of(*d),
                crate::riscv64::encode::reg_of(*a),
                crate::riscv64::encode::reg_of(*b),
            )])),
    {
        let _ = match op {
            AluOp::Add => self.writer.add(ctx, arch, d, a, b),
            AluOp::Sub => self.writer.sub(ctx, arch, d, a, b),
            AluOp::Sll => self.writer.sll(ctx, arch, d, a, b),
            AluOp::Slt => self.writer.slt(ctx, arch, d, a, b),
            AluOp::Sltu => self.writer.sltu(ctx, arch, d, a, b),
            AluOp::Xor => self.writer.xor(ctx, arch, d, a, b),
            AluOp::Srl => self.writer.srl(ctx, arch, d, a, b),
            AluOp::Sra => self.writer.sra(ctx, arch, d, a, b),
            AluOp::Or => self.writer.or(ctx, arch, d, a, b),
            AluOp::And => self.writer.and(ctx, arch, d, a, b),
            AluOp::Mul => self.writer.mul(ctx, arch, d, a, b),
            AluOp::Mulh => self.writer.mulh(ctx, arch, d, a, b),
            AluOp::Div => self.writer.div(ctx, arch, d, a, b),
            AluOp::Divu => self.writer.divu(ctx, arch, d, a, b),
            AluOp::Rem => self.writer.rem(ctx, arch, d, a, b),
            AluOp::Remu => self.writer.remu(ctx, arch, d, a, b),
        };
    }

    fn emit_branch<C>(&mut self, ctx: &mut C, arch: RiscV64Arch, op: BranchOp, a: &MemArgKind, b: &MemArgKind, t: &MemArgKind)
        requires
            old(self).inner_ok(),
        ensures
            final(self).did(*old(self), emit(old(self).spill(), seq![RvInst::Branch {
                op,
                src1: crate::riscv64::encode::reg_of(*a),
                src2: crate::riscv64::encode::reg_of(*b),
                offset: crate::riscv64::encode::lit_imm(*t),
            }])),
    {
        let _ = match op {
            BranchOp::Beq => self.writer.beq(ctx, arch, a, b, t),
            BranchOp::Bne => self.writer.bne(ctx, arch, a, b, t),
            BranchOp::Blt => self.writer.blt(ctx, arch, a, b, t),
            BranchOp::Bge => self.writer.bge(ctx, arch, a, b, t),
            BranchOp::Bltu => self.writer.bltu(ctx, arch, a, b, t),
            BranchOp::Bgeu => self.writer.bgeu(ctx, arch, a, b, t),
        };
    }

    #[verifier::spinoff_prover]
    #[verifier::rlimit(100)]
    fn binary_op<C>(&mut self, ctx: &mut C, arch: RiscV64Arch, op: AluOp, dest: &MemArgKind, a: &MemArgKind, b: &MemArgKind) -> (r: Result<(), Infallible>)
        requires
            old(self).wf(),
        ensures
            r is Ok,
            final(self).wrote(*old(self), binary_op_spec(old(self).config(), idle(), *dest, *a, *b, op)),
    {
        let ghost d0 = *self;
        let ghost c = self.config;
        let (a2, b2) = self.prepare_pair(ctx, arch, a, b);
        let ghost d1 = *self;
        let mut args: Vec<MemArgKind> = Vec::new();
        args.push(*dest);
        args.push(a2);
        args.push(b2);
        assert(args@ =~= seq![*dest, a2, b2]);
        self.flush_sp_if_needed(ctx, arch, &args);
        let ghost d2 = *self;
        self.emit_alu(ctx, arch, op, dest, &a2, &b2);
        proof {
            let (p, x, y) = prepare_pair_spec(c, idle(), *a, *b);
            let f = flush_sp_spec(c, p.spill, seq![*dest, a2, b2]);
            lemma_did_chain(d0, d1, d2, p, f);
            lemma_did_chain(d0, d2, *self, then(p, f), emit(f.spill, seq![op_inst(
                op,
                crate::riscv64::encode::reg_of(*dest),
                crate::riscv64::encode::reg_of(a2),
                crate::riscv64::encode::reg_of(b2),
            )]));
            self.lemma_settled(d0, binary_op_spec(c, idle(), *dest, *a, *b, op));
        }
        Ok(())
    }

    #[verifier::spinoff_prover]
    #[verifier::rlimit(100)]
    fn branch_op<C>(&mut self, ctx: &mut C, arch: RiscV64Arch, op: BranchOp, a: &MemArgKind, b: &MemArgKind, target: &MemArgKind) -> (r: Result<(), Infallible>)
        requires
            old(self).wf(),
        ensures
            r is Ok,
            final(self).wrote(*old(self), branch_spec(old(self).config(), idle(), *a, *b, *target, op)),
    {
        let ghost d0 = *self;
        let ghost c = self.config;
        let (a2, b2) = self.prepare_pair(ctx, arch, a, b);
        let ghost d1 = *self;
        let mut args: Vec<MemArgKind> = Vec::new();
        args.push(a2);
        args.push(b2);
        args.push(*target);
        assert(args@ =~= seq![a2, b2, *target]);
        self.flush_sp_if_needed(ctx, arch, &args);
        let ghost d2 = *self;
        self.emit_branch(ctx, arch, op, &a2, &b2, target);
        proof {
            let (p, x, y) = prepare_pair_spec(c, idle(), *a, *b);
            let f = flush_sp_spec(c, p.spill, seq![a2, b2, *target]);
            lemma_did_chain(d0, d1, d2, p, f);
            lemma_did_chain(d0, d2, *self, then(p, f), emit(f.spill, seq![RvInst::Branch {
                op,
                src1: crate::riscv64::encode::reg_of(a2),
                src2: crate::riscv64::encode::reg_of(b2),
                offset: crate::riscv64::encode::lit_imm(*target),
            }]));
            self.lemma_settled(d0, branch_spec(c, idle(), *a, *b, *target, op));
        }
        Ok(())
    }
}


impl<L> DesugaringWriter<L> {
    fn load_access<C>(&mut self, ctx: &mut C, arch: RiscV64Arch, op: LoadOp, dest: &MemArgKind, mem: &MemArgKind) -> (r: Result<(), Infallible>)
        requires
            old(self).wf(),
        ensures
            r is Ok,
            final(self).wrote(*old(self), mem_access_spec(old(self).config(), *mem, (|mm: MemArgKind| load_op(op, *dest, mm)))),
    {
        let ghost d0 = *self;
        let mm = self.desugar_mem_arg(ctx, arch, mem);
        let ghost d1 = *self;
        let _ = match op {
            LoadOp::Lb => self.writer.lb(ctx, arch, dest, &mm),
            LoadOp::Lh => self.writer.lh(ctx, arch, dest, &mm),
            LoadOp::Lw => self.writer.lw(ctx, arch, dest, &mm),
            LoadOp::Ld => self.writer.ld(ctx, arch, dest, &mm),
        };
        proof {
            let (s, mm2) = mem_arg_spec(d0.config(), idle(), *mem);
            lemma_did_chain(d0, d1, *self, s, emit(s.spill, seq![load_op(op, *dest, mm)]));
            self.lemma_settled(d0, mem_access_spec(d0.config(), *mem, (|x: MemArgKind| load_op(op, *dest, x))));
        }
        Ok(())
    }

    fn store_access<C>(&mut self, ctx: &mut C, arch: RiscV64Arch, op: StoreOp, src: &MemArgKind, mem: &MemArgKind) -> (r: Result<(), Infallible>)
        requires
            old(self).wf(),
        ensures
            r is Ok,
            final(self).wrote(*old(self), mem_access_spec(old(self).config(), *mem, (|mm: MemArgKind| store_op(op, *src, mm)))),
    {
        let ghost d0 = *self;
        let mm = self.desugar_mem_arg(ctx, arch, mem);
        let ghost d1 = *self;
        let _ = match op {
            StoreOp::Sb => self.writer.sb(ctx, arch, src, &mm),
            StoreOp::Sh => self.writer.sh(ctx, arch, src, &mm),
            StoreOp::Sw => self.writer.sw(ctx, arch, src, &mm),
            StoreOp::Sd => self.writer.sd(ctx, arch, src, &mm),
        };
        proof {
            let (s, mm2) = mem_arg_spec(d0.config(), idle(), *mem);
            lemma_did_chain(d0, d1, *self, s, emit(s.spill, seq![store_op(op, *src, mm)]));
            self.lemma_settled(d0, mem_access_spec(d0.config(), *mem, (|x: MemArgKind| store_op(op, *src, x))));
        }
        Ok(())
    }

    /// `LD dest, mem`, with `mem` desugared to `disp(base)` form.
    pub fn ld<C>(&mut self, ctx: &mut C, arch: RiscV64Arch, dest: &MemArgKind, mem: &MemArgKind) -> (r: Result<(), Infallible>)
        requires
            old(self).wf(),
        ensures
            r is Ok,
            final(self).wrote(*old(self), mem_access_spec(old(self).config(), *mem, (|mm: MemArgKind| load_op(LoadOp::Ld, *dest, mm)))),
    {
        self.load_access(ctx, arch, LoadOp::Ld, dest, mem)
    }

    /// `LW dest, mem`, with `mem` desugared to `disp(base)` form.
    pub fn lw<C>(&mut self, ctx: &mut C, arch: RiscV64Arch, dest: &MemArgKind, mem: &MemArgKind) -> (r: Result<(), Infallible>)
        requires
            old(self).wf(),
        ensures
            r is Ok,
            final(self).wrote(*old(self), mem_access_spec(old(self).config(), *mem, (|mm: MemArgKind| load_op(LoadOp::Lw, *dest, mm)))),
    {
        self.load_access(ctx, arch, LoadOp::Lw, dest, mem)
    }

    /// `LH dest, mem`, with `mem` desugared to `disp(base)` form.
    pub fn lh<C>(&mut self, ctx: &mut C, arch: RiscV64Arch, dest: &MemArgKind, mem: &MemArgKind) -> (r: Result<(), Infallible>)
        requires
            old(self).wf(),
        ensures
            r is Ok,
            final(self).wrote(*old(self), mem_access_spec(old(self).config(), *mem, (|mm: MemArgKind| load_op(LoadOp::Lh, *dest, mm)))),
    {
        self.load_access(ctx, arch, LoadOp::Lh, dest, mem)
    }

    /// `LB dest, mem`, with `mem` desugared to `disp(base)` form.
    pub fn lb<C>(&mut self, ctx: &mut C, arch: RiscV64Arch, dest: &MemArgKind, mem: &MemArgKind) -> (r: Result<(), Infallible>)
        requires
            old(self).wf(),
        ensures
            r is Ok,
            final(self).wrote(*old(self), mem_access_spec(old(self).config(), *mem, (|mm: MemArgKind| load_op(LoadOp::Lb, *dest, mm)))),
    {
        self.load_access(ctx, arch, LoadOp::Lb, dest, mem)
    }

    /// `SD src, mem`, with `mem` desugared to `disp(base)` form.
    pub fn sd<C>(&mut self, ctx: &mut C, arch: RiscV64Arch, src: &MemArgKind, mem: &MemArgKind) -> (r: Result<(), Infallible>)
        requires
            old(self).wf(),
        ensures
            r is Ok,
            final(self).wrote(*old(self), mem_access_spec(old(self).config(), *mem, (|mm: MemArgKind| store_op(StoreOp::Sd, *src, mm)))),
    {
        self.store_access(ctx, arch, StoreOp::Sd, src, mem)
    }

    /// `SW src, mem`, with `mem` desugared to `disp(base)` form.
    pub fn sw<C>(&mut self, ctx: &mut C, arch: RiscV64Arch, src: &MemArgKind, mem: &MemArgKind) -> (r: Result<(), Infallible>)
        requires
            old(self).wf(),
        ensures
            r is Ok,
            final(self).wrote(*old(self), mem_access_spec(old(self).config(), *mem, (|mm: MemArgKind| store_op(StoreOp::Sw, *src, mm)))),
    {
        self.store_access(ctx, arch, StoreOp::Sw, src, mem)
    }

    /// `SH src, mem`, with `mem` desugared to `disp(base)` form.
    pub fn sh<C>(&mut self, ctx: &mut C, arch: RiscV64Arch, src: &MemArgKind, mem: &MemArgKind) -> (r: Result<(), Infallible>)
        requires
            old(self).wf(),
        ensures
            r is Ok,
            final(self).wrote(*old(self), mem_access_spec(old(self).config(), *mem, (|mm: MemArgKind| store_op(StoreOp::Sh, *src, mm)))),
    {
        self.store_access(ctx, arch, StoreOp::Sh, src, mem)
    }

    /// `SB src, mem`, with `mem` desugared to `disp(base)` form.
    pub fn sb<C>(&mut self, ctx: &mut C, arch: RiscV64Arch, src: &MemArgKind, mem: &MemArgKind) -> (r: Result<(), Infallible>)
        requires
            old(self).wf(),
        ensures
            r is Ok,
            final(self).wrote(*old(self), mem_access_spec(old(self).config(), *mem, (|mm: MemArgKind| store_op(StoreOp::Sb, *src, mm)))),
    {
        self.store_access(ctx, arch, StoreOp::Sb, src, mem)
    }

    /// `ADD dest, a, b`, with `a` and `b` brought into registers.
    pub fn add<C>(&mut self, ctx: &mut C, arch: RiscV64Arch, dest: &MemArgKind, a: &MemArgKind, b: &MemArgKind) -> (r: Result<(), Infallible>)
        requires
            old(self).wf(),
        ensures
            r is Ok,
            final(self).wrote(*old(self), binary_op_spec(old(self).config(), idle(), *dest, *a, *b, AluOp::Add)),
    {
        self.binary_op(ctx, arch, AluOp::Add, dest, a, b)
    }

    /// `SUB dest, a, b`, with `a` and `b` brought into registers.
    pub fn sub<C>(&mut self, ctx: &mut C, arch: RiscV64Arch, dest: &MemArgKind, a: &MemArgKind, b: &MemArgKind) -> (r: Result<(), Infallible>)
        requires
            old(self).wf(),
        ensures
            r is Ok,
            final(self).wrote(*old(self), binary_op_spec(old(self).config(), idle(), *dest, *a, *b, AluOp::Sub)),
    {
        self.binary_op(ctx, arch, AluOp::Sub, dest, a, b)
    }

    /// `SLL dest, a, b`, with `a` and `b` brought into registers.
    pub fn sll<C>(&mut self, ctx: &mut C, arch: RiscV64Arch, dest: &MemArgKind, a: &MemArgKind, b: &MemArgKind) -> (r: Result<(), Infallible>)
        requires
            old(self).wf(),
        ensures
            r is Ok,
            final(self).wrote(*old(self), binary_op_spec(old(self).config(), idle(), *dest, *a, *b, AluOp::Sll)),
    {
        self.binary_op(ctx, arch, AluOp::Sll, dest, a, b)
    }

    /// `SLT dest, a, b`, with `a` and `b` brought into registers.
    pub fn slt<C>(&mut self, ctx: &mut C, arch: RiscV64Arch, dest: &MemArgKind, a: &MemArgKind, b: &MemArgKind) -> (r: Result<(), Infallible>)
        requires
            old(self).wf(),
        ensures
            r is Ok,
            final(self).wrote(*old(self), binary_op_spec(old(self).config(), idle(), *dest, *a, *b, AluOp::Slt)),
    {
        self.binary_op(ctx, arch, AluOp::Slt, dest, a, b)
    }

    /// `SLTU dest, a, b`, with `a` and `b` brought into registers.
    pub fn sltu<C>(&mut self, ctx: &mut C, arch: RiscV64Arch, dest: &MemArgKind, a: &MemArgKind, b: &MemArgKind) -> (r: Result<(), Infallible>)
        requires
            old(self).wf(),
        ensures
            r is Ok,
            final(self).wrote(*old(self), binary_op_spec(old(self).config(), idle(), *dest, *a, *b, AluOp::Sltu)),
    {
        self.binary_op(ctx, arch, AluOp::Sltu, dest, a, b)
    }

    /// `XOR dest, a, b`, with `a` and `b` brought into registers.
    pub fn xor<C>(&mut self, ctx: &mut C, arch: RiscV64Arch, dest: &MemArgKind, a: &MemArgKind, b: &MemArgKind) -> (r: Result<(), Infallible>)
        requires
            old(self).wf(),
        ensures
            r is Ok,
            final(self).wrote(*old(self), binary_op_spec(old(self).config(), idle(), *dest, *a, *b, AluOp::Xor)),
    {
        self.binary_op(ctx, arch, AluOp::Xor, dest, a, b)
    }

    /// `SRL dest, a, b`, with `a` and `b` brought into registers.
    pub fn srl<C>(&mut self, ctx: &mut C, arch: RiscV64Arch, dest: &MemArgKind, a: &MemArgKind, b: &MemArgKind) -> (r: Result<(), Infallible>)
        requires
            old(self).wf(),
        ensures
            r is Ok,
            final(self).wrote(*old(self), binary_op_spec(old(self).config(), idle(), *dest, *a, *b, AluOp::Srl)),
    {
        self.binary_op(ctx, arch, AluOp::Srl, dest, a, b)
    }

    /// `SRA dest, a, b`, with `a` and `b` brought into registers.
    pub fn sra<C>(&mut self, ctx: &mut C, arch: RiscV64Arch, dest: &MemArgKind, a: &MemArgKind, b: &MemArgKind) -> (r: Result<(), Infallible>)
        requires
            old(self).wf(),
        ensures
            r is Ok,
            final(self).wrote(*old(self), binary_op_spec(old(self).config(), idle(), *dest, *a, *b, AluOp::Sra)),
    {
        self.binary_op(ctx, arch, AluOp::Sra, dest, a, b)
    }

    /// `OR dest, a, b`, with `a` and `b` brought into registers.
    pub fn or<C>(&mut self, ctx: &mut C, arch: RiscV64Arch, dest: &MemArgKind, a: &MemArgKind, b: &MemArgKind) -> (r: Result<(), Infallible>)
        requires
            old(self).wf(),
        ensures
            r is Ok,
            final(self).wrote(*old(self), binary_op_spec(old(self).config(), idle(), *dest, *a, *b, AluOp::Or)),
    {
        self.binary_op(ctx, arch, AluOp::Or, dest, a, b)
    }

    /// `AND dest, a, b`, with `a` and `b` brought into registers.
    pub fn and<C>(&mut self, ctx: &mut C, arch: RiscV64Arch, dest: &MemArgKind, a: &MemArgKind, b: &MemArgKind) -> (r: Result<(), Infallible>)
        requires
            old(self).wf(),
        ensures
            r is Ok,
            final(self).wrote(*old(self), binary_op_spec(old(self).config(), idle(), *dest, *a, *b, AluOp::And)),
    {
        self.binary_op(ctx, arch, AluOp::And, dest, a, b)
    }

    /// `MUL dest, a, b`, with `a` and `b` brought into registers.
    pub fn mul<C>(&mut self, ctx: &mut C, arch: RiscV64Arch, dest: &MemArgKind, a: &MemArgKind, b: &MemArgKind) -> (r: Result<(), Infallible>)
        requires
            old(self).wf(),
        ensures
            r is Ok,
            final(self).wrote(*old(self), binary_op_spec(old(self).config(), idle(), *dest, *a, *b, AluOp::Mul)),
    {
        self.binary_op(ctx, arch, AluOp::Mul, dest, a, b)
    }

    /// `MULH dest, a, b`, with `a` and `b` brought into registers.
    pub fn mulh<C>(&mut self, ctx: &mut C, arch: RiscV64Arch, dest: &MemArgKind, a: &MemArgKind, b: &MemArgKind) -> (r: Result<(), Infallible>)
        requires
            old(self).wf(),
        ensures
            r is Ok,
            final(self).wrote(*old(self), binary_op_spec(old(self).config(), idle(), *dest, *a, *b, AluOp::Mulh)),
    {
        self.binary_op(ctx, arch, AluOp::Mulh, dest, a, b)
    }

    /// `DIV dest, a, b`, with `a` and `b` brought into registers.
    pub fn div<C>(&mut self, ctx: &mut C, arch: RiscV64Arch, dest: &MemArgKind, a: &MemArgKind, b: &MemArgKind) -> (r: Result<(), Infallible>)
        requires
            old(self).wf(),
        ensures
            r is Ok,
            final(self).wrote(*old(self), binary_op_spec(old(self).config(), idle(), *dest, *a, *b, AluOp::Div)),
    {
        self.binary_op(ctx, arch, AluOp::Div, dest, a, b)
    }

    /// `DIVU dest, a, b`, with `a` and `b` brought into registers.
    pub fn divu<C>(&mut self, ctx: &mut C, arch: RiscV64Arch, dest: &MemArgKind, a: &MemArgKind, b: &MemArgKind) -> (r: Result<(), Infallible>)
        requires
            old(self).wf(),
        ensures
            r is Ok,
            final(self).wrote(*old(self), binary_op_spec(old(self).config(), idle(), *dest, *a, *b, AluOp::Divu)),
    {
        self.binary_op(ctx, arch, AluOp::Divu, dest, a, b)
    }

    /// `REM dest, a, b`, with `a` and `b` brought into registers.
    pub fn rem<C>(&mut self, ctx: &mut C, arch: RiscV64Arch, dest: &MemArgKind, a: &MemArgKind, b: &MemArgKind) -> (r: Result<(), Infallible>)
        requires
            old(self).wf(),
        ensures
            r is Ok,
            final(self).wrote(*old(self), binary_op_spec(old(self).config(), idle(), *dest, *a, *b, AluOp::Rem)),
    {
        self.binary_op(ctx, arch, AluOp::Rem, dest, a, b)
    }

    /// `REMU dest, a, b`, with `a` and `b` brought into registers.
    pub fn remu<C>(&mut self, ctx: &mut C, arch: RiscV64Arch, dest: &MemArgKind, a: &MemArgKind, b: &MemArgKind) -> (r: Result<(), Infallible>)
        requires
            old(self).wf(),
        ensures
            r is Ok,
            final(self).wrote(*old(self), binary_op_spec(old(self).config(), idle(), *dest, *a, *b, AluOp::Remu)),
    {
        self.binary_op(ctx, arch, AluOp::Remu, dest, a, b)
    }

    /// `BEQ a, b, target`, with `a` and `b` brought into registers.
    pub fn beq<C>(&mut self, ctx: &mut C, arch: RiscV64Arch, a: &MemArgKind, b: &MemArgKind, target: &MemArgKind) -> (r: Result<(), Infallible>)
        requires
            old(self).wf(),
        ensures
            r is Ok,
            final(self).wrote(*old(self), branch_spec(old(self).config(), idle(), *a, *b, *target, BranchOp::Beq)),
    {
        self.branch_op(ctx, arch, BranchOp::Beq, a, b, target)
    }

    /// `BNE a, b, target`, with `a` and `b` brought into registers.
    pub fn bne<C>(&mut self, ctx: &mut C, arch: RiscV64Arch, a: &MemArgKind, b: &MemArgKind, target: &MemArgKind) -> (r: Result<(), Infallible>)
        requires
            old(self).wf(),
        ensures
            r is Ok,
            final(self).wrote(*old(self), branch_spec(old(self).config(), idle(), *a, *b, *target, BranchOp::Bne)),
    {
        self.branch_op(ctx, arch, BranchOp::Bne, a, b, target)
    }

    /// `BLT a, b, target`, with `a` and `b` brought into registers.
    pub fn blt<C>(&mut self, ctx: &mut C, arch: RiscV64Arch, a: &MemArgKind, b: &MemArgKind, target: &MemArgKind) -> (r: Result<(), Infallible>)
        requires
            old(self).wf(),
        ensures
            r is Ok,
            final(self).wrote(*old(self), branch_spec(old(self).config(), idle(), *a, *b, *target, BranchOp::Blt)),
    {
        self.branch_op(ctx, arch, BranchOp::Blt, a, b, target)
    }

    /// `BGE a, b, target`, with `a` and `b` brought into registers.
    pub fn bge<C>(&mut self, ctx: &mut C, arch: RiscV64Arch, a: &MemArgKind, b: &MemArgKind, target: &MemArgKind) -> (r: Result<(), Infallible>)
        requires
            old(self).wf(),
        ensures
            r is Ok,
            final(self).wrote(*old(self), branch_spec(old(self).config(), idle(), *a, *b, *target, BranchOp::Bge)),
    {
        self.branch_op(ctx, arch, BranchOp::Bge, a, b, target)
    }

    /// `BLTU a, b, target`, with `a` and `b` brought into registers.
    pub fn bltu<C>(&mut self, ctx: &mut C, arch: RiscV64Arch, a: &MemArgKind, b: &MemArgKind, target: &MemArgKind) -> (r: Result<(), Infallible>)
        requires
            old(self).wf(),
        ensures
            r is Ok,
            final(self).wrote(*old(self), branch_spec(old(self).config(), idle(), *a, *b, *target, BranchOp::Bltu)),
    {
        self.branch_op(ctx, arch, BranchOp::Bltu, a, b, target)
    }

    /// `BGEU a, b, target`, with `a` and `b` brought into registers.
    pub fn bgeu<C>(&mut self, ctx: &mut C, arch: RiscV64Arch, a: &MemArgKind, b: &MemArgKind, target: &MemArgKind) -> (r: Result<(), Infallible>)
        requires
            old(self).wf(),
        ensures
            r is Ok,
            final(self).wrote(*old(self), branch_spec(old(self).config(), idle(), *a, *b, *target, BranchOp::Bgeu)),
    {
        self.branch_op(ctx, arch, BranchOp::Bgeu, a, b, target)
    }
}


/// The 12-bit-immediate form applies.
pub open spec fn small_imm(imm: i32) -> bool {
    fits12_i32(imm)
}

impl<L> DesugaringWriter<L> {
    fn unary_prep<C>(&mut self, ctx: &mut C, arch: RiscV64Arch, dest: &MemArgKind, src: &MemArgKind) -> (r: MemArgKind)
        requires
            old(self).wf(),
        ensures
            ({
                let (s, src2) = operand_spec(old(self).config(), idle(), *src, Seq::empty());
                let f = flush_sp_spec(old(self).config(), s.spill, seq![*dest, src2]);
                &&& final(self).did(*old(self), then(s, f))
                &&& r == src2
                &&& settles(idle(), final(self).spill())
            }),
    {
        let ghost d0 = *self;
        let empty: Vec<u8> = Vec::new();
        assert(empty@ =~= Seq::<u8>::empty());
        let src2 = self.desugar_operand_with_avoid(ctx, arch, src, &empty);
        let ghost d1 = *self;
        let mut args: Vec<MemArgKind> = Vec::new();
        args.push(*dest);
        args.push(src2);
        assert(args@ =~= seq![*dest, src2]);
        self.flush_sp_if_needed(ctx, arch, &args);
        proof {
            let (s, x) = operand_spec(d0.config(), idle(), *src, Seq::empty());
            lemma_did_chain(d0, d1, *self, s, flush_sp_spec(d0.config(), s.spill, seq![*dest, src2]));
        }
        src2
    }

    /// `MV dest, src`, see [`mv_spec`].
    pub fn mv<C>(&mut self, ctx: &mut C, arch: RiscV64Arch, dest: &MemArgKind, src: &MemArgKind) -> (r: Result<(), Infallible>)
        requires
            old(self).wf(),
        ensures
            r is Ok,
            final(self).wrote(*old(self), mv_spec(old(self).config(), *dest, *src)),
    {
        let ghost d0 = *self;
        let ghost c = self.config;
        match src {
            MemArgKind::NoMem(ArgKind::Lit(v)) => {
                let mut args: Vec<MemArgKind> = Vec::new();
                args.push(*dest);
                args.push(*src);
                assert(args@ =~= seq![*dest, *src]);
                self.flush_sp_if_needed(ctx, arch, &args);
                let ghost d1 = *self;
                let _ = self.writer.li(ctx, arch, dest, *v);
                proof {
                    let f = flush_sp_spec(c, idle(), seq![*dest, *src]);
                    lemma_did_chain(d0, d1, *self, f, emit(f.spill, li_seq(crate::riscv64::encode::reg_of(*dest), *v)));
                    self.lemma_settled(d0, mv_spec(c, *dest, *src));
                }
            },
            _ => {
                let src2 = self.unary_prep(ctx, arch, dest, src);
                let ghost d1 = *self;
                let _ = self.writer.mv(ctx, arch, dest, &src2);
                proof {
                    let (s, x) = operand_spec(c, idle(), *src, Seq::empty());
                    let f = flush_sp_spec(c, s.spill, seq![*dest, src2]);
                    let inst = RvInst::Addi {
                        dest: crate::riscv64::encode::reg_of(*dest),
                        src1: crate::riscv64::encode::reg_of(src2),
                        imm: 0,
                    };
                    lemma_did_chain(d0, d1, *self, then(s, f), emit(f.spill, seq![inst]));
                    self.lemma_settled(d0, mv_spec(c, *dest, *src));
                }
            },
        }
        Ok(())
    }

    /// `JAL dest, target`, with `target` brought into a register first (a
    /// register target then encodes offset 0).
    pub fn jal<C>(&mut self, ctx: &mut C, arch: RiscV64Arch, dest: &MemArgKind, target: &MemArgKind) -> (r: Result<(), Infallible>)
        requires
            old(self).wf(),
        ensures
            r is Ok,
            final(self).wrote(*old(self), unary_spec(old(self).config(), *dest, *target, (|t2: MemArgKind| RvInst::Jal {
                dest: crate::riscv64::encode::reg_of(*dest),
                offset: crate::riscv64::encode::lit_imm(t2),
            }))),
    {
        let ghost d0 = *self;
        let ghost c = self.config;
        let t2 = self.unary_prep(ctx, arch, dest, target);
        let ghost d1 = *self;
        let _ = self.writer.jal(ctx, arch, dest, &t2);
        proof {
            let (s, x) = operand_spec(c, idle(), *target, Seq::empty());
            let f = flush_sp_spec(c, s.spill, seq![*dest, t2]);
            let inst = RvInst::Jal { dest: crate::riscv64::encode::reg_of(*dest), offset: crate::riscv64::encode::lit_imm(t2) };
            lemma_did_chain(d0, d1, *self, then(s, f), emit(f.spill, seq![inst]));
            self.lemma_settled(d0, unary_spec(c, *dest, *target, (|t: MemArgKind| RvInst::Jal {
                dest: crate::riscv64::encode::reg_of(*dest),
                offset: crate::riscv64::encode::lit_imm(t),
            })));
        }
        Ok(())
    }

    fn large_imm_prep<C>(&mut self, ctx: &mut C, arch: RiscV64Arch, dest: &MemArgKind, src: &MemArgKind, imm: i32) -> (r: MemArgKind)
        requires
            old(self).wf(),
        ensures
            ({
                let t = old(self).config().temp_reg3.0;
                let (s, src2) = operand_spec(old(self).config(), idle(), *src, Seq::empty());
                let f = flush_sp_spec(old(self).config(), s.spill, seq![*dest, src2, reg_operand(t)]);
                &&& final(self).did(*old(self), then(then(emit(idle(), li_seq(t, imm as u64)), s), f))
                &&& r == src2
                &&& settles(idle(), final(self).spill())
            }),
    {
        let ghost d0 = *self;
        let ghost c = self.config;
        let t = self.config.temp_reg3.0;
        self.emit_li(ctx, arch, t, imm as u64);
        let ghost d1 = *self;
        let empty: Vec<u8> = Vec::new();
        assert(empty@ =~= Seq::<u8>::empty());
        let src2 = self.desugar_operand_with_avoid(ctx, arch, src, &empty);
        let ghost d2 = *self;
        let mut args: Vec<MemArgKind> = Vec::new();
        args.push(*dest);
        args.push(src2);
        args.push(reg_arg(t));
        assert(args@ =~= seq![*dest, src2, reg_operand(t)]);
        self.flush_sp_if_needed(ctx, arch, &args);
        proof {
            let (s, x) = operand_spec(c, idle(), *src, Seq::empty());
            let li = emit(idle(), li_seq(t, imm as u64));
            lemma_did_chain(d0, d1, d2, li, s);
            lemma_did_chain(d0, d2, *self, then(li, s), flush_sp_spec(c, s.spill, seq![*dest, src2, reg_operand(t)]));
        }
        src2
    }

    /// `ADDI dest, src, imm`; an immediate outside the 12-bit range is
    /// loaded into the third temporary and added with `ADD`.
    pub fn addi<C>(&mut self, ctx: &mut C, arch: RiscV64Arch, dest: &MemArgKind, src: &MemArgKind, imm: i32) -> (r: Result<(), Infallible>)
        requires
            old(self).wf(),
        ensures
            r is Ok,
            final(self).wrote(*old(self), if small_imm(imm) {
                unary_spec(old(self).config(), *dest, *src, (|s2: MemArgKind| RvInst::Addi {
                    dest: crate::riscv64::encode::reg_of(*dest),
                    src1: crate::riscv64::encode::reg_of(s2),
                    imm,
                }))
            } else {
                large_imm_spec(old(self).config(), *dest, *src, imm, (|s2: MemArgKind| seq![op_inst(
                    AluOp::Add,
                    crate::riscv64::encode::reg_of(*dest),
                    crate::riscv64::encode::reg_of(s2),
                    old(self).config().temp_reg3.0,
                )]))
            }),
    {
        let ghost d0 = *self;
        let ghost c = self.config;
        if -2048 <= imm && imm < 2048 {
            let s2 = self.unary_prep(ctx, arch, dest, src);
            let ghost d1 = *self;
            let _ = self.writer.addi(ctx, arch, dest, &s2, imm);
            proof {
                let (s, x) = operand_spec(c, idle(), *src, Seq::empty());
                let f = flush_sp_spec(c, s.spill, seq![*dest, s2]);
                let inst = RvInst::Addi { dest: crate::riscv64::encode::reg_of(*dest), src1: crate::riscv64::encode::reg_of(s2), imm };
                lemma_did_chain(d0, d1, *self, then(s, f), emit(f.spill, seq![inst]));
                self.lemma_settled(d0, unary_spec(c, *dest, *src, (|y: MemArgKind| RvInst::Addi {
                    dest: crate::riscv64::encode::reg_of(*dest),
                    src1: crate::riscv64::encode::reg_of(y),
                    imm,
                })));
            }
        } else {
            let s2 = self.large_imm_prep(ctx, arch, dest, src, imm);
            let ghost d1 = *self;
            let t = self.config.temp_reg3.0;
            self.emit_alu(ctx, arch, AluOp::Add, dest, &s2, &reg_arg(t));
            proof {
                let (s, x) = operand_spec(c, idle(), *src, Seq::empty());
                let f = flush_sp_spec(c, s.spill, seq![*dest, s2, reg_operand(t)]);
                let pre = then(then(emit(idle(), li_seq(t, imm as u64)), s), f);
                let inst = op_inst(AluOp::Add, crate::riscv64::encode::reg_of(*dest), crate::riscv64::encode::reg_of(s2), t);
                lemma_did_chain(d0, d1, *self, pre, emit(f.spill, seq![inst]));
                self.lemma_settled(d0, large_imm_spec(c, *dest, *src, imm, (|y: MemArgKind| seq![op_inst(
                    AluOp::Add,
                    crate::riscv64::encode::reg_of(*dest),
                    crate::riscv64::encode::reg_of(y),
                    t,
                )])));
            }
        }
        Ok(())
    }

    /// `JALR dest, offset(base)`; an offset outside the 12-bit range is
    /// loaded into the third temporary, added to the base, and jumped
    /// through with offset 0.
    pub fn jalr<C>(&mut self, ctx: &mut C, arch: RiscV64Arch, dest: &MemArgKind, base: &MemArgKind, offset: i32) -> (r: Result<(), Infallible>)
        requires
            old(self).wf(),
        ensures
            r is Ok,
            final(self).wrote(*old(self), if small_imm(offset) {
                unary_spec(old(self).config(), *dest, *base, (|b2: MemArgKind| RvInst::Jalr {
                    dest: crate::riscv64::encode::reg_of(*dest),
                    base: crate::riscv64::encode::reg_of(b2),
                    offset,
                }))
            } else {
                large_imm_spec(old(self).config(), *dest, *base, offset, (|b2: MemArgKind| seq![
                    op_inst(AluOp::Add, old(self).config().temp_reg3.0, crate::riscv64::encode::reg_of(b2), old(self).config().temp_reg3.0),
                    RvInst::Jalr { dest: crate::riscv64::encode::reg_of(*dest), base: old(self).config().temp_reg3.0, offset: 0 },
                ]))
            }),
    {
        let ghost d0 = *self;
        let ghost c = self.config;
        if -2048 <= offset && offset < 2048 {
            let b2 = self.unary_prep(ctx, arch, dest, base);
            let ghost d1 = *self;
            let _ = self.writer.jalr(ctx, arch, dest, &b2, offset);
            proof {
                let (s, x) = operand_spec(c, idle(), *base, Seq::empty());
                let f = flush_sp_spec(c, s.spill, seq![*dest, b2]);
                let inst = RvInst::Jalr { dest: crate::riscv64::encode::reg_of(*dest), base: crate::riscv64::encode::reg_of(b2), offset };
                lemma_did_chain(d0, d1, *self, then(s, f), emit(f.spill, seq![inst]));
                self.lemma_settled(d0, unary_spec(c, *dest, *base, (|y: MemArgKind| RvInst::Jalr {
                    dest: crate::riscv64::encode::reg_of(*dest),
                    base: crate::riscv64::encode::reg_of(y),
                    offset,
                })));
            }
        } else {
            let b2 = self.large_imm_prep(ctx, arch, dest, base, offset);
            let ghost d1 = *self;
            let t = self.config.temp_reg3.0;
            let tr = reg_arg(t);
            self.emit_alu(ctx, arch, AluOp::Add, &tr, &b2, &tr);
            let ghost d2 = *self;
            let _ = self.writer.jalr(ctx, arch, dest, &tr, 0);
            proof {
                let (s, x) = operand_spec(c, idle(), *base, Seq::empty());
                let f = flush_sp_spec(c, s.spill, seq![*dest, b2, reg_operand(t)]);
                let pre = then(then(emit(idle(), li_seq(t, offset as u64)), s), f);
                let add = op_inst(AluOp::Add, t, crate::riscv64::encode::reg_of(b2), t);
                let jr = RvInst::Jalr { dest: crate::riscv64::encode::reg_of(*dest), base: t, offset: 0 };
                lemma_did_chain(d1, d2, *self, emit(f.spill, seq![add]), emit(f.spill, seq![jr]));
                assert(seq![add] + seq![jr] =~= seq![add, jr]);
                lemma_did_chain(d0, d1, *self, pre, emit(f.spill, seq![add, jr]));
                self.lemma_settled(d0, large_imm_spec(c, *dest, *base, offset, (|y: MemArgKind| seq![
                    op_inst(AluOp::Add, t, crate::riscv64::encode::reg_of(y), t),
                    RvInst::Jalr { dest: crate::riscv64::encode::reg_of(*dest), base: t, offset: 0 },
                ])));
            }
        }
        Ok(())
    }
}


/// An operand brought into a register, then `inst` of it (no flush).
pub open spec fn through_reg_spec(c: DesugarConfig, target: MemArgKind, inst: spec_fn(MemArgKind) -> RvInst) -> Step {
    let (s, t2) = operand_spec(c, idle(), target, Seq::empty());
    then(s, emit(s.spill, seq![inst(t2)]))
}

impl<L> DesugaringWriter<L> {
    fn forward_one(&mut self, before: Ghost<Self>, inst: Ghost<RvInst>)
        requires
            old(self).inner_ok(),
            before@.wf(),
            old(self).spill() == idle(),
            old(self).config() == before@.config(),
            old(self).writer().emitted(before@.writer(), inst@),
        ensures
            *final(self) == *old(self),
            final(self).wrote(before@, emit(idle(), seq![inst@])),
    {
        assert(self.spill().saved =~= Seq::<u8>::empty());
    }

    /// `EBREAK`.
    pub fn ebreak<C>(&mut self, ctx: &mut C, arch: RiscV64Arch) -> (r: Result<(), Infallible>)
        requires
            old(self).wf(),
        ensures
            r is Ok,
            final(self).wrote(*old(self), emit(idle(), seq![RvInst::Ebreak])),
    {
        let ghost d0 = *self;
        let _ = self.writer.ebreak(ctx, arch);
        self.forward_one(Ghost(d0), Ghost(RvInst::Ebreak));
        Ok(())
    }

    /// `RET`.
    pub fn ret<C>(&mut self, ctx: &mut C, arch: RiscV64Arch) -> (r: Result<(), Infallible>)
        requires
            old(self).wf(),
        ensures
            r is Ok,
            final(self).wrote(*old(self), emit(idle(), seq![RvInst::Jalr { dest: 0, base: 1, offset: 0 }])),
    {
        let ghost d0 = *self;
        let _ = self.writer.ret(ctx, arch);
        self.forward_one(Ghost(d0), Ghost(RvInst::Jalr { dest: 0, base: 1, offset: 0 }));
        Ok(())
    }

    /// `LUI dest, imm`.
    pub fn lui<C>(&mut self, ctx: &mut C, arch: RiscV64Arch, dest: &MemArgKind, imm: u32) -> (r: Result<(), Infallible>)
        requires
            old(self).wf(),
        ensures
            r is Ok,
            final(self).wrote(*old(self), emit(idle(), seq![RvInst::Lui { dest: crate::riscv64::encode::reg_of(*dest), uimm: imm << 12 }])),
    {
        let ghost d0 = *self;
        let _ = self.writer.lui(ctx, arch, dest, imm);
        self.forward_one(Ghost(d0), Ghost(RvInst::Lui { dest: crate::riscv64::encode::reg_of(*dest), uimm: imm << 12 }));
        Ok(())
    }

    /// `AUIPC dest, imm`.
    pub fn auipc<C>(&mut self, ctx: &mut C, arch: RiscV64Arch, dest: &MemArgKind, imm: u32) -> (r: Result<(), Infallible>)
        requires
            old(self).wf(),
        ensures
            r is Ok,
            final(self).wrote(*old(self), emit(idle(), seq![RvInst::Auipc { dest: crate::riscv64::encode::reg_of(*dest), uimm: imm << 12 }])),
    {
        let ghost d0 = *self;
        let _ = self.writer.auipc(ctx, arch, dest, imm);
        self.forward_one(Ghost(d0), Ghost(RvInst::Auipc { dest: crate::riscv64::encode::reg_of(*dest), uimm: imm << 12 }));
        Ok(())
    }

    /// `LI dest, val`.
    pub fn li<C>(&mut self, ctx: &mut C, arch: RiscV64Arch, dest: &MemArgKind, val: u64) -> (r: Result<(), Infallible>)
        requires
            old(self).wf(),
        ensures
            r is Ok,
            final(self).wrote(*old(self), emit(idle(), li_seq(crate::riscv64::encode::reg_of(*dest), val))),
    {
        let _ = self.writer.li(ctx, arch, dest, val);
        assert(self.spill().saved =~= Seq::<u8>::empty());
        Ok(())
    }

    /// `CALL target` (`JALR ra, 0(target)`), with `target` brought into a
    /// register first.
    pub fn call<C>(&mut self, ctx: &mut C, arch: RiscV64Arch, target: &MemArgKind) -> (r: Result<(), Infallible>)
        requires
            old(self).wf(),
        ensures
            r is Ok,
            final(self).wrote(*old(self), through_reg_spec(old(self).config(), *target, (|t2: MemArgKind| RvInst::Jalr {
                dest: 1,
                base: crate::riscv64::encode::reg_of(t2),
                offset: 0,
            }))),
    {
        let ghost d0 = *self;
        let empty: Vec<u8> = Vec::new();
        assert(empty@ =~= Seq::<u8>::empty());
        let t2 = self.desugar_operand_with_avoid(ctx, arch, target, &empty);
        let ghost d1 = *self;
        let _ = self.writer.call(ctx, arch, &t2);
        proof {
            let (s, x) = operand_spec(d0.config(), idle(), *target, Seq::empty());
            let inst = RvInst::Jalr { dest: 1, base: crate::riscv64::encode::reg_of(t2), offset: 0 };
            lemma_did_chain(d0, d1, *self, s, emit(s.spill, seq![inst]));
            self.lemma_settled(d0, through_reg_spec(d0.config(), *target, (|y: MemArgKind| RvInst::Jalr {
                dest: 1,
                base: crate::riscv64::encode::reg_of(y),
                offset: 0,
            })));
        }
        Ok(())
    }

    /// `J target` (`JAL zero, target`), with `target` brought into a
    /// register first (a register target then encodes offset 0).
    pub fn j<C>(&mut self, ctx: &mut C, arch: RiscV64Arch, target: &MemArgKind) -> (r: Result<(), Infallible>)
        requires
            old(self).wf(),
        ensures
            r is Ok,
            final(self).wrote(*old(self), through_reg_spec(old(self).config(), *target, (|t2: MemArgKind| RvInst::Jal {
                dest: 0,
                offset: crate::riscv64::encode::lit_imm(t2),
            }))),
    {
        let ghost d0 = *self;
        let empty: Vec<u8> = Vec::new();
        assert(empty@ =~= Seq::<u8>::empty());
        let t2 = self.desugar_operand_with_avoid(ctx, arch, target, &empty);
        let ghost d1 = *self;
        let _ = self.writer.j(ctx, arch, &t2);
        proof {
            let (s, x) = operand_spec(d0.config(), idle(), *target, Seq::empty());
            let inst = RvInst::Jal { dest: 0, offset: crate::riscv64::encode::lit_imm(t2) };
            lemma_did_chain(d0, d1, *self, s, emit(s.spill, seq![inst]));
            self.lemma_settled(d0, through_reg_spec(d0.config(), *target, (|y: MemArgKind| RvInst::Jal {
                dest: 0,
                offset: crate::riscv64::encode::lit_imm(y),
            })));
        }
        Ok(())
    }
}

impl<L: Ord> DesugaringWriter<L> {
    /// Defines `s` at the current offset (see the writer's `set_label`).
    pub fn set_label<C>(&mut self, ctx: &mut C, arch: RiscV64Arch, s: L) -> (r: Result<(), Infallible>)
        requires
            old(self).wf(),
            lawful_label::<L>(),
            resolvable(old(self).writer().pending(), s, old(self).writer().bytes().len() as usize),
        ensures
            r is Ok,
            final(self).wf(),
            final(self).config() == old(self).config(),
            final(self).writer().label_set(old(self).writer(), s),
    {
        self.writer.set_label(ctx, arch, s)
    }

    /// `JAL dest, label` (see the writer's `jal_label`).
    pub fn jal_label<C>(&mut self, ctx: &mut C, arch: RiscV64Arch, dest: &MemArgKind, label: L) -> (r: Result<(), Infallible>)
        requires
            old(self).wf(),
            lawful_label::<L>(),
        ensures
            r is Ok,
            final(self).wf(),
            final(self).config() == old(self).config(),
            final(self).writer().referenced(old(self).writer(), label, RvFixupKind::Jal {
                rd: crate::riscv64::encode::reg_of(*dest) as u32,
            }),
    {
        self.writer.jal_label(ctx, arch, dest, label)
    }

    /// A conditional branch to `label` (see the writer's `bcond_label`).
    pub fn bcond_label<C>(
        &mut self,
        ctx: &mut C,
        arch: RiscV64Arch,
        cond: ConditionCode,
        a: &MemArgKind,
        b: &MemArgKind,
        label: L,
    ) -> (r: Result<(), Infallible>)
        requires
            old(self).wf(),
            lawful_label::<L>(),
        ensures
            r is Ok,
            final(self).wf(),
            final(self).config() == old(self).config(),
            final(self).writer().referenced(
                old(self).writer(),
                label,
                bcond_kind(cond, crate::riscv64::encode::reg_of(*a), crate::riscv64::encode::reg_of(*b)),
            ),
    {
        self.writer.bcond_label(ctx, arch, cond, a, b, label)
    }
}


// ── laws ────────────────────────────────────────────────────────────────────

proof fn lemma_bracket_idle(c: DesugarConfig, ns: bool, t: u8, body: Seq<RvInst>)
    ensures
        bracket(c, idle(), ns, t, body).spill == idle(),
{
    if ns {
        let sv = save_spec(c.stack_save_offset as int, idle(), t);
        assert(sv.spill.saved =~= seq![t]);
        assert(restore_spec(c.stack_save_offset as int, sv.spill, t).spill.saved =~= Seq::<u8>::empty());
    }
}

proof fn lemma_scale_idle(c: DesugarConfig, regs: Seq<u8>, off: u8, scale: u32)
    ensures
        scale_spec(c, idle(), regs, off, scale).spill == idle(),
{
    let (r, ns) = select_spec(c, padded(regs));
    if ns {
        let sv = save_spec(c.stack_save_offset as int, idle(), r);
        assert(sv.spill.saved =~= seq![r]);
        assert(restore_spec(c.stack_save_offset as int, sv.spill, r).spill.saved =~= Seq::<u8>::empty());
    }
}

proof fn lemma_mem_operand_idle(c: DesugarConfig, mem: MemArgKind)
    ensures
        mem_operand_spec(c, idle(), mem).0.spill == idle(),
        fits12_i32(mem_operand_spec(c, idle(), mem).2),
{
    match mem {
        MemArgKind::Mem { base, offset, disp, .. } => {
            let base_reg = match base {
                ArgKind::Reg { reg, .. } => reg.0,
                ArgKind::Lit(v) => {
                    let (t, ns) = select_spec(c, padded(Seq::empty()));
                    lemma_bracket_idle(c, ns, t, li_seq(t, v));
                    t
                },
            };
            let eff = match offset {
                Some((oarg, scale)) => {
                    let off_reg = match oarg {
                        ArgKind::Reg { reg, .. } => reg.0,
                        ArgKind::Lit(v) => {
                            let (t, ns) = select_spec(c, padded(seq![base_reg]));
                            lemma_bracket_idle(c, ns, t, li_seq(t, v));
                            t
                        },
                    };
                    let regs2 = seq![base_reg, off_reg];
                    lemma_scale_idle(c, regs2, off_reg, scale);
                    let (r, ns) = select_spec(c, padded(regs2));
                    let scaled = if scale > 0 { r } else { off_reg };
                    lemma_bracket_idle(c, ns, r, seq![op_inst(AluOp::Add, r, base_reg, scaled)]);
                    r
                },
                None => base_reg,
            };
            if !fits12_i32(disp) {
                let (t, ns) = select_spec(c, seq![eff]);
                lemma_bracket_idle(c, ns, t, li_seq(t, (disp as i64) as u64).push(op_inst(AluOp::Add, t, eff, t)));
            }
        },
        MemArgKind::NoMem(_) => {},
    }
}

/// After desugaring (with no spill slot reserved), a memory operand is
/// simple: `disp(base)` with a register base, no index, and a displacement
/// in the signed 12-bit range; and no spill slot is left reserved.
pub proof fn law_desugared_operand_is_simple(c: DesugarConfig, mem: MemArgKind)
    requires
        mem is Mem,
    ensures
        mem_arg_spec(c, idle(), mem).0.spill == idle(),
        mem_arg_spec(c, idle(), mem).1 matches MemArgKind::Mem { base: ArgKind::Reg { .. }, offset: None, disp, .. }
            && fits12_i32(disp),
{
    if needs_desugar(mem) {
        lemma_mem_operand_idle(c, mem);
    }
}


/// The three configured temporaries are distinct and none is `x0`.
pub open spec fn temps_ok(c: DesugarConfig) -> bool {
    let t1 = c.temp_reg.0;
    let t2 = c.temp_reg2.0;
    let t3 = c.temp_reg3.0;
    t1 != 0 && t2 != 0 && t3 != 0 && t1 != t2 && t1 != t3 && t2 != t3
}

/// `r` is one of the configured temporaries.
pub open spec fn is_temp(c: DesugarConfig, r: u8) -> bool {
    r == c.temp_reg.0 || r == c.temp_reg2.0 || r == c.temp_reg3.0
}

/// A register operand is not one of the temporaries.
pub open spec fn clear_arg(c: DesugarConfig, a: ArgKind) -> bool {
    a matches ArgKind::Reg { reg, .. } ==> !is_temp(c, reg.0)
}

/// The registers a memory operand reads are none of the temporaries.
pub open spec fn clear_mem(c: DesugarConfig, m: MemArgKind) -> bool {
    match m {
        MemArgKind::Mem { base, offset, .. } => clear_arg(c, base) && match offset {
            Some((o, _)) => clear_arg(c, o),
            None => true,
        },
        MemArgKind::NoMem(a) => clear_arg(c, a),
    }
}

/// The value of an operand: a register's contents, or a literal.
pub open spec fn arg_value(regs: spec_fn(u8) -> u64, a: ArgKind) -> int {
    match a {
        ArgKind::Reg { reg, .. } => rd(regs, reg.0) as int,
        ArgKind::Lit(v) => v as int,
    }
}

/// The address a memory operand names: base, plus the index shifted left
/// by the scale (its low six bits), plus the displacement, modulo 2^64.
pub open spec fn effective_address(regs: spec_fn(u8) -> u64, m: MemArgKind) -> u64 {
    match m {
        MemArgKind::Mem { base, offset, disp, .. } => to_reg(
            arg_value(regs, base) + match offset {
                Some((o, scale)) => arg_value(regs, o) * pow2((scale % 64) as nat),
                None => 0,
            } + disp,
        ),
        MemArgKind::NoMem(_) => 0,
    }
}

/// Every instruction of the sequence is one the register model covers.
pub open spec fn all_modeled(s: Seq<RvInst>) -> bool {
    forall|i: int| 0 <= i < s.len() ==> modeled(#[trigger] s[i])
}

proof fn lemma_modeled_concat(a: Seq<RvInst>, b: Seq<RvInst>)
    requires
        all_modeled(a),
        all_modeled(b),
    ensures
        all_modeled(a + b),
{
    assert forall|i: int| 0 <= i < (a + b).len() implies modeled(#[trigger] (a + b)[i]) by {
        if i >= a.len() {
            assert((a + b)[i] == b[i - a.len()]);
        }
    }
}

proof fn lemma_padded_contains(s: Seq<u8>, t: u8)
    requires
        t != 0,
        s.len() <= 32,
    ensures
        padded(s).contains(t) == s.contains(t),
{
    if s.contains(t) {
        let i = choose|i: int| 0 <= i < s.len() && s[i] == t;
        assert(padded(s)[i] == t);
    }
    if padded(s).contains(t) {
        let i = choose|i: int| 0 <= i < padded(s).len() && padded(s)[i] == t;
        assert(s[i] == t);
    }
}

proof fn lemma_bracket_free(c: DesugarConfig, m: SpillModel, t: u8, body: Seq<RvInst>)
    ensures
        bracket(c, m, false, t, body).insts == body,
        bracket(c, m, false, t, body).spill == m,
{
    assert(bracket(c, m, false, t, body).insts =~= body);
}

proof fn lemma_to_reg_add(x: int, y: int)
    ensures
        to_reg(to_reg(x) + y) == to_reg(x + y),
        to_reg(x + to_reg(y)) == to_reg(x + y),
{
    let m: int = 0x1_0000_0000_0000_0000;
    vstd::arithmetic::div_mod::lemma_add_mod_noop(x, y, m);
    vstd::arithmetic::div_mod::lemma_add_mod_noop(x % m, y, m);
    vstd::arithmetic::div_mod::lemma_add_mod_noop(x, y % m, m);
    vstd::arithmetic::div_mod::lemma_mod_twice(x, m);
    vstd::arithmetic::div_mod::lemma_mod_twice(y, m);
}

proof fn lemma_to_reg_mul(x: int, k: int)
    ensures
        to_reg(to_reg(x) * k) == to_reg(x * k),
{
    let m: int = 0x1_0000_0000_0000_0000;
    vstd::arithmetic::div_mod::lemma_mul_mod_noop_left(x, k, m);
}

proof fn lemma_to_reg_small(x: u64)
    ensures
        to_reg(x as int) == x,
{
    vstd::arithmetic::div_mod::lemma_small_mod(x as nat, 0x1_0000_0000_0000_0000nat);
}

proof fn lemma_disp_value(disp: i32)
    ensures
        to_reg(((disp as i64) as u64) as int) == to_reg(disp as int),
{
    let u = (disp as i64) as u64;
    assert(disp < 0 ==> u as int == disp as int + 0x1_0000_0000_0000_0000) by (bit_vector)
        requires
            u == (disp as i64) as u64,
    ;
    assert(disp >= 0 ==> u as int == disp as int) by (bit_vector)
        requires
            u == (disp as i64) as u64,
    ;
    if disp < 0 {
        lemma_to_reg_add(disp as int, 0x1_0000_0000_0000_0000);
        vstd::arithmetic::div_mod::lemma_mod_self_0(0x1_0000_0000_0000_0000int);
        lemma_to_reg_add(0x1_0000_0000_0000_0000, disp as int);
    }
}

proof fn lemma_run_op(regs: spec_fn(u8) -> u64, op: AluOp, d: u8, a: u8, b: u8)
    requires
        op is Add || op is Sll,
    ensures
        forall|x: u8| #[trigger] run(regs, seq![op_inst(op, d, a, b)])(x) == if x == d {
            if op is Add {
                to_reg(rd(regs, a) + rd(regs, b))
            } else {
                to_reg(rd(regs, a) * pow2((rd(regs, b) % 64) as nat))
            }
        } else {
            regs(x)
        },
        all_modeled(seq![op_inst(op, d, a, b)]),
{
    lemma_run_one(regs, op_inst(op, d, a, b));
}


proof fn lemma_seq_contains(a: u8, b: u8, r: u8, x: u8)
    ensures
        seq![a].contains(x) == (x == a),
        seq![a, b].contains(x) == (x == a || x == b),
        seq![a, b].push(r).contains(x) == (x == a || x == b || x == r),
{
    assert(seq![a][0] == a);
    assert(seq![a, b][0] == a && seq![a, b][1] == b);
    let s3 = seq![a, b].push(r);
    assert(s3[0] == a && s3[1] == b && s3[2] == r);
    if s3.contains(x) {
        let i = choose|i: int| 0 <= i < s3.len() && s3[i] == x;
        assert(i == 0 || i == 1 || i == 2);
    }
    if seq![a, b].contains(x) {
        let i = choose|i: int| 0 <= i < 2 && seq![a, b][i] == x;
        assert(i == 0 || i == 1);
    }
}

/// The first temporary not in `avoid` (at least one is not), not saved.
proof fn lemma_select_free(c: DesugarConfig, avoid: Seq<u8>)
    requires
        temps_ok(c),
        !avoid.contains(c.temp_reg.0) || !avoid.contains(c.temp_reg2.0) || !avoid.contains(c.temp_reg3.0),
    ensures
        !select_spec(c, avoid).1,
        is_temp(c, select_spec(c, avoid).0),
        !avoid.contains(select_spec(c, avoid).0),
        select_spec(c, avoid).0 != 0,
{
}

proof fn lemma_base_stage(c: DesugarConfig, base: ArgKind, regs: spec_fn(u8) -> u64)
    requires
        temps_ok(c),
        clear_arg(c, base),
    ensures
        ({
            let (sb, b) = base_stage(c, idle(), base);
            let after = run(regs, sb.insts);
            &&& sb.spill == idle()
            &&& all_modeled(sb.insts)
            &&& rd(after, b) == to_reg(arg_value(regs, base))
            &&& forall|x: u8| !is_temp(c, x) ==> #[trigger] after(x) == regs(x)
            &&& (b == c.temp_reg.0 || !is_temp(c, b))
        }),
{
    match base {
        ArgKind::Reg { reg, .. } => {
            lemma_to_reg_small(rd(regs, reg.0));
            assert(all_modeled(Seq::<RvInst>::empty()));
        },
        ArgKind::Lit(v) => {
            lemma_padded_contains(Seq::empty(), c.temp_reg.0);
            lemma_select_free(c, padded(Seq::empty()));
            let t = c.temp_reg.0;
            lemma_bracket_free(c, idle(), t, li_seq(t, v));
            lemma_run_li(regs, t, v);
            lemma_to_reg_small(v);
        },
    }
}

proof fn lemma_index_reg_stage(c: DesugarConfig, b: u8, oarg: ArgKind, regs: spec_fn(u8) -> u64)
    requires
        temps_ok(c),
        b == c.temp_reg.0 || !is_temp(c, b),
        clear_arg(c, oarg),
    ensures
        ({
            let (s_o, off) = index_reg_stage(c, idle(), b, oarg);
            let after = run(regs, s_o.insts);
            &&& s_o.spill == idle()
            &&& all_modeled(s_o.insts)
            &&& rd(after, off) == to_reg(arg_value(regs, oarg))
            &&& rd(after, b) == rd(regs, b)
            &&& forall|x: u8| !is_temp(c, x) ==> #[trigger] after(x) == regs(x)
            &&& off != b || !is_temp(c, b)
            &&& (is_temp(c, off) ==> oarg is Lit && off == (if b == c.temp_reg.0 { c.temp_reg2.0 } else { c.temp_reg.0 }))
        }),
{
    let t1 = c.temp_reg.0;
    let t2 = c.temp_reg2.0;
    let t3 = c.temp_reg3.0;
    match oarg {
        ArgKind::Reg { reg, .. } => {
            lemma_to_reg_small(rd(regs, reg.0));
            assert(all_modeled(Seq::<RvInst>::empty()));
        },
        ArgKind::Lit(v) => {
            lemma_seq_contains(b, b, b, t1);
            lemma_seq_contains(b, b, b, t2);
            lemma_seq_contains(b, b, b, t3);
            lemma_padded_contains(seq![b], t1);
            lemma_padded_contains(seq![b], t2);
            lemma_padded_contains(seq![b], t3);
            lemma_select_free(c, padded(seq![b]));
            let t = select_spec(c, padded(seq![b])).0;
            lemma_bracket_free(c, idle(), t, li_seq(t, v));
            lemma_run_li(regs, t, v);
            lemma_to_reg_small(v);
        },
    }
}

#[verifier::spinoff_prover]
#[verifier::rlimit(40)]
proof fn lemma_scaled_stage(c: DesugarConfig, b: u8, off: u8, scale: u32, regs: spec_fn(u8) -> u64)
    requires
        temps_ok(c),
        b != off || !is_temp(c, b),
        b == c.temp_reg.0 || !is_temp(c, b),
        is_temp(c, off) ==> off == c.temp_reg.0 || off == c.temp_reg2.0,
    ensures
        ({
            let regs2 = seq![b, off];
            let (s_sc, sc) = scaled_stage(c, idle(), regs2, off, scale);
            let after = run(regs, s_sc.insts);
            let r = select_spec(c, padded(regs2)).0;
            &&& s_sc.spill == idle()
            &&& all_modeled(s_sc.insts)
            &&& !select_spec(c, padded(regs2)).1
            &&& is_temp(c, r) && r != b && r != off
            &&& rd(after, sc) == to_reg(rd(regs, off) * pow2((scale % 64) as nat))
            &&& rd(after, b) == rd(regs, b)
            &&& forall|x: u8| !is_temp(c, x) ==> #[trigger] after(x) == regs(x)
        }),
{
    let t1 = c.temp_reg.0;
    let t2 = c.temp_reg2.0;
    let t3 = c.temp_reg3.0;
    let regs2 = seq![b, off];
    lemma_seq_contains(b, off, b, t1);
    lemma_seq_contains(b, off, b, t2);
    lemma_seq_contains(b, off, b, t3);
    lemma_padded_contains(regs2, t1);
    lemma_padded_contains(regs2, t2);
    lemma_padded_contains(regs2, t3);
    lemma_select_free(c, padded(regs2));
    let r = select_spec(c, padded(regs2)).0;
    let p = pow2((scale % 64) as nat);
    if scale > 0 {
        lemma_seq_contains(b, off, r, t1);
        lemma_seq_contains(b, off, r, t2);
        lemma_seq_contains(b, off, r, t3);
        if !(regs2.push(r).contains(t1) && regs2.push(r).contains(t2) && regs2.push(r).contains(t3)) {
            lemma_select_free(c, regs2.push(r));
        }
        let sh = shift_temp(c, regs2, r);
        assert(sh == r || (sh != b && sh != off && sh != r));
        let sll = op_inst(AluOp::Sll, r, off, sh);
        let s_sc = scaled_stage(c, idle(), regs2, off, scale).0;
        assert(s_sc.insts =~= li_seq(sh, scale as u64) + seq![sll]);
        lemma_run_li(regs, sh, scale as u64);
        let ra = run(regs, li_seq(sh, scale as u64));
        lemma_run_op(ra, AluOp::Sll, r, off, sh);
        lemma_run_concat(regs, li_seq(sh, scale as u64), seq![sll]);
        lemma_modeled_concat(li_seq(sh, scale as u64), seq![sll]);
        assert(rd(ra, sh) == scale as u64);
        assert(off != sh);
        assert(rd(ra, off) == rd(regs, off));
        assert(rd(ra, b) == rd(regs, b) || b == sh);
        assert(run(regs, s_sc.insts) == run(ra, seq![sll]));
        assert((scale as u64) % 64 == scale % 64);
        let after = run(ra, seq![sll]);
        assert(after(r) == to_reg(rd(ra, off) * pow2((rd(ra, sh) % 64) as nat)));
        assert(after(r) == to_reg(rd(regs, off) * p));
        assert(rd(after, r) == after(r));
        assert(scaled_stage(c, idle(), regs2, off, scale).1 == r);
        assert(rd(run(regs, s_sc.insts), r) == to_reg(rd(regs, off) * pow2((scale % 64) as nat)));
    } else {
        vstd::arithmetic::power2::lemma2_to64();
        lemma_to_reg_small(rd(regs, off));
        assert(all_modeled(Seq::<RvInst>::empty()));
        let s_sc = scaled_stage(c, idle(), regs2, off, scale).0;
        assert(s_sc.insts =~= Seq::<RvInst>::empty());
        assert(run(regs, s_sc.insts) == regs);
        assert(((scale % 64) as nat) == 0nat);
        assert(pow2(0nat) == 1);
        assert(rd(regs, off) * pow2((scale % 64) as nat) == rd(regs, off) as int);
        assert(rd(regs, off) == to_reg(rd(regs, off) * pow2((scale % 64) as nat)));
    }
}

#[verifier::rlimit(40)]
proof fn lemma_index_stage(c: DesugarConfig, b: u8, offset: Option<(ArgKind, u32)>, regs: spec_fn(u8) -> u64)
    requires
        temps_ok(c),
        b == c.temp_reg.0 || !is_temp(c, b),
        match offset {
            Some((o, _)) => clear_arg(c, o),
            None => true,
        },
    ensures
        ({
            let (so, eff) = index_stage(c, idle(), b, offset);
            let after = run(regs, so.insts);
            &&& so.spill == idle()
            &&& all_modeled(so.insts)
            &&& rd(after, eff) == match offset {
                Some((o, scale)) => to_reg(rd(regs, b) + to_reg(arg_value(regs, o)) * pow2((scale % 64) as nat)),
                None => rd(regs, b),
            }
            &&& forall|x: u8| !is_temp(c, x) ==> #[trigger] after(x) == regs(x)
        }),
{
    match offset {
        None => {
            assert(all_modeled(Seq::<RvInst>::empty()));
        },
        Some((oarg, scale)) => {
            lemma_index_reg_stage(c, b, oarg, regs);
            let (s_o, off) = index_reg_stage(c, idle(), b, oarg);
            let r1 = run(regs, s_o.insts);
            lemma_scaled_stage(c, b, off, scale, r1);
            let regs2 = seq![b, off];
            let (s_sc, sc) = scaled_stage(c, idle(), regs2, off, scale);
            let r2 = run(r1, s_sc.insts);
            let r = select_spec(c, padded(regs2)).0;
            let add = op_inst(AluOp::Add, r, b, sc);
            lemma_bracket_free(c, idle(), r, seq![add]);
            lemma_run_op(r2, AluOp::Add, r, b, sc);
            let so = index_stage(c, idle(), b, offset).0;
            assert(so.insts =~= s_o.insts + s_sc.insts + seq![add]);
            lemma_run_concat(regs, s_o.insts, s_sc.insts);
            assert(run(regs, s_o.insts + s_sc.insts) == r2);
            lemma_run_concat(regs, s_o.insts + s_sc.insts, seq![add]);
            assert(run(regs, so.insts) == run(r2, seq![add]));
            lemma_modeled_concat(s_o.insts, s_sc.insts);
            lemma_modeled_concat(s_o.insts + s_sc.insts, seq![add]);
            let pw = pow2((scale % 64) as nat) as int;
            let a = to_reg(arg_value(regs, oarg));
            assert(rd(r2, sc) == to_reg(a * pw));
            assert(rd(r2, b) == rd(regs, b));
            lemma_to_reg_add(rd(regs, b) as int, a * pw);
            assert(rd(run(r2, seq![add]), r) == to_reg(rd(regs, b) + a * pw));
        },
    }
}


proof fn lemma_disp_stage(c: DesugarConfig, eff: u8, disp: i32, regs: spec_fn(u8) -> u64)
    requires
        temps_ok(c),
        !fits12_i32(disp),
    ensures
        ({
            let (t, ns) = select_spec(c, seq![eff]);
            let body = li_seq(t, (disp as i64) as u64).push(op_inst(AluOp::Add, t, eff, t));
            let st = bracket(c, idle(), ns, t, body);
            let after = run(regs, st.insts);
            &&& st.spill == idle()
            &&& all_modeled(st.insts)
            &&& rd(after, t) == to_reg(rd(regs, eff) + disp)
            &&& forall|x: u8| !is_temp(c, x) ==> #[trigger] after(x) == regs(x)
        }),
{
    let t1 = c.temp_reg.0;
    let t2 = c.temp_reg2.0;
    let t3 = c.temp_reg3.0;
    lemma_seq_contains(eff, eff, eff, t1);
    lemma_seq_contains(eff, eff, eff, t2);
    lemma_seq_contains(eff, eff, eff, t3);
    lemma_select_free(c, seq![eff]);
    let t = select_spec(c, seq![eff]).0;
    let dv = (disp as i64) as u64;
    let add = op_inst(AluOp::Add, t, eff, t);
    let body = li_seq(t, dv).push(add);
    lemma_bracket_free(c, idle(), t, body);
    assert(body =~= li_seq(t, dv) + seq![add]);
    lemma_run_li(regs, t, dv);
    let ra = run(regs, li_seq(t, dv));
    lemma_run_op(ra, AluOp::Add, t, eff, t);
    lemma_run_concat(regs, li_seq(t, dv), seq![add]);
    lemma_modeled_concat(li_seq(t, dv), seq![add]);
    assert(rd(ra, eff) == rd(regs, eff));
    assert(rd(ra, t) == dv);
    lemma_disp_value(disp);
    lemma_to_reg_add(rd(regs, eff) as int, dv as int);
    lemma_to_reg_add(rd(regs, eff) as int, disp as int);
}

/// The desugared memory operand names the same address: when the three
/// temporaries are distinct and not `x0` and the operand's registers are not
/// temporaries, the instructions of the desugaring, run on any register
/// file, leave a base register and a 12-bit displacement whose sum is the
/// operand's address in the register file they started from; they change no
/// register but the temporaries, and the register model covers each of
/// them.
pub proof fn law_desugared_address_matches(c: DesugarConfig, mem: MemArgKind, regs: spec_fn(u8) -> u64)
    requires
        mem is Mem,
        temps_ok(c),
        clear_mem(c, mem),
    ensures
        ({
            let (st, b, d) = mem_operand_spec(c, idle(), mem);
            let after = run(regs, st.insts);
            &&& all_modeled(st.insts)
            &&& fits12_i32(d)
            &&& to_reg(rd(after, b) + d) == effective_address(regs, mem)
            &&& forall|x: u8| !is_temp(c, x) ==> #[trigger] after(x) == regs(x)
        }),
{
    match mem {
        MemArgKind::Mem { base, offset, disp, .. } => {
            lemma_base_stage(c, base, regs);
            let (sb, b) = base_stage(c, idle(), base);
            let r1 = run(regs, sb.insts);
            lemma_index_stage(c, b, offset, r1);
            let (so, eff) = index_stage(c, idle(), b, offset);
            let r2 = run(r1, so.insts);
            lemma_run_concat(regs, sb.insts, so.insts);
            lemma_modeled_concat(sb.insts, so.insts);
            let a = arg_value(regs, base);
            let idx: int = match offset {
                Some((o, scale)) => arg_value(regs, o) * pow2((scale % 64) as nat),
                None => 0,
            };
            assert(rd(r2, eff) == to_reg(a + idx)) by {
                match offset {
                    Some((o, scale)) => {
                        let pw = pow2((scale % 64) as nat) as int;
                        assert(arg_value(r1, o) == arg_value(regs, o));
                        lemma_to_reg_mul(arg_value(regs, o), pw);
                        lemma_to_reg_add(rd(r1, b) as int, to_reg(arg_value(regs, o)) * pw);
                        lemma_to_reg_add(rd(r1, b) as int, arg_value(regs, o) * pw);
                        lemma_to_reg_add(a, arg_value(regs, o) * pw);
                    },
                    None => {},
                }
            }
            let s_ab = then(sb, so);
            assert(s_ab.insts == sb.insts + so.insts);
            lemma_to_reg_add(a + idx, disp as int);
            if fits12_i32(disp) {
                assert(to_reg(rd(r2, eff) + disp) == to_reg(a + idx + disp));
            } else {
                lemma_disp_stage(c, eff, disp, r2);
                let (t, ns) = select_spec(c, seq![eff]);
                let body = li_seq(t, (disp as i64) as u64).push(op_inst(AluOp::Add, t, eff, t));
                let sd = bracket(c, idle(), ns, t, body);
                lemma_run_concat(regs, s_ab.insts, sd.insts);
                lemma_modeled_concat(s_ab.insts, sd.insts);
                let r3 = run(r2, sd.insts);
                lemma_to_reg_small(rd(r3, t));
                assert(to_reg(rd(r3, t) + 0) == to_reg(a + idx + disp));
            }
        },
        MemArgKind::NoMem(_) => {},
    }
}


/// `ADDI dest, src, imm` through the desugaring writer adds: on a register
/// source other than the third temporary (and with that temporary not
/// `x0`), the instructions written leave `src + imm` (modulo 2^64) in
/// `dest`, whatever the size of the immediate.
pub proof fn law_addi_adds(c: DesugarConfig, d: u8, s: u8, imm: i32, regs: spec_fn(u8) -> u64)
    requires
        s != c.temp_reg3.0,
        c.temp_reg3.0 != 0,
    ensures
        ({
            let st = if small_imm(imm) {
                unary_spec(c, reg_operand(d), reg_operand(s), (|s2: MemArgKind| RvInst::Addi {
                    dest: crate::riscv64::encode::reg_of(reg_operand(d)),
                    src1: crate::riscv64::encode::reg_of(s2),
                    imm,
                }))
            } else {
                large_imm_spec(c, reg_operand(d), reg_operand(s), imm, (|s2: MemArgKind| seq![op_inst(
                    AluOp::Add,
                    crate::riscv64::encode::reg_of(reg_operand(d)),
                    crate::riscv64::encode::reg_of(s2),
                    c.temp_reg3.0,
                )]))
            };
            &&& all_modeled(st.insts)
            &&& run(regs, st.insts)(d) == to_reg(rd(regs, s) + imm)
        }),
{
    let t = c.temp_reg3.0;
    let rs = reg_operand(s);
    let rdst = reg_operand(d);
    assert(flush_sp_spec(c, idle(), seq![rdst, rs]).insts =~= Seq::<RvInst>::empty());
    assert(flush_sp_spec(c, idle(), seq![rdst, rs, reg_operand(t)]).insts =~= Seq::<RvInst>::empty());
    if small_imm(imm) {
        let i = RvInst::Addi { dest: d, src1: s, imm };
        let st = unary_spec(c, rdst, rs, (|s2: MemArgKind| RvInst::Addi {
            dest: crate::riscv64::encode::reg_of(rdst),
            src1: crate::riscv64::encode::reg_of(s2),
            imm,
        }));
        assert(st.insts =~= seq![i]);
        lemma_run_one(regs, i);
    } else {
        let v = imm as u64;
        let add = op_inst(AluOp::Add, d, s, t);
        let st = large_imm_spec(c, rdst, rs, imm, (|s2: MemArgKind| seq![op_inst(
            AluOp::Add,
            crate::riscv64::encode::reg_of(rdst),
            crate::riscv64::encode::reg_of(s2),
            t,
        )]));
        assert(st.insts =~= li_seq(t, v) + seq![add]);
        lemma_run_li(regs, t, v);
        let r1 = run(regs, li_seq(t, v));
        lemma_run_op(r1, AluOp::Add, d, s, t);
        lemma_run_concat(regs, li_seq(t, v), seq![add]);
        lemma_modeled_concat(li_seq(t, v), seq![add]);
        assert(rd(r1, s) == rd(regs, s));
        assert(rd(r1, t) == v);
        assert(to_reg(v as int) == to_reg(imm as int)) by {
            lemma_disp_value(imm);
            assert(v == (imm as i64) as u64) by (bit_vector)
                requires
                    v == imm as u64,
            ;
        }
        lemma_to_reg_add(rd(regs, s) as int, v as int);
        lemma_to_reg_add(rd(regs, s) as int, imm as int);
    }
}

} // verus!
