//! Binary assembler for RISC-V 64: every instruction is one 32-bit word,
//! appended little-endian.  Jumps, branches and `LA` may name a label; a
//! reference to a label not yet defined is emitted as a placeholder and
//! patched when the label is set.

use vstd::prelude::*;
use vstd::laws_eq::obeys_concrete_eq;
use std::collections::BTreeMap;
use core::convert::Infallible;
use crate::common::{le_bytes, push_word, rel, rel_exec};
use crate::aarch64::bin::lawful_label;
use crate::riscv64::{ConditionCode, RiscV64Arch};
use crate::riscv64::arg::MemArgKind;
use crate::riscv64::encode::{
    base_offset, branch_word, cond_funct3, encode, encode_branch, encode_jal, encode_la, funct3_for_cond,
    jal_word, la_addi, la_auipc, la_reaches, lit_as_imm, lit_imm, mem_base_offset, reg_of, rv_word, to_reg,
    AluOp, BranchOp, LoadOp, RvInst, StoreOp,
};
use crate::riscv64::li::{li_insts, li_seq};

verus! {

broadcast use vstd::std_specs::btree::group_btree_axioms;

/// Label type of a writer that never tracks labels: it holds an
/// [`Infallible`], so it has no values and its label map is always empty.
#[derive(Clone, Copy, PartialEq, Eq, PartialOrd, Ord, Debug)]
pub struct NoLabel(Infallible);

/// The bytes of a sequence of instructions, in order.
pub open spec fn insts_bytes(insts: Seq<RvInst>) -> Seq<u8>
    decreases insts.len(),
{
    if insts.len() == 0 {
        Seq::empty()
    } else {
        insts_bytes(insts.drop_last()) + le_bytes(rv_word(insts.last()))
    }
}

/// Appending one instruction appends its word's bytes.
pub proof fn lemma_insts_bytes_push(insts: Seq<RvInst>, i: RvInst)
    ensures
        insts_bytes(insts.push(i)) == insts_bytes(insts) + le_bytes(rv_word(i)),
        insts_bytes(seq![i]) == le_bytes(rv_word(i)),
{
    assert(insts.push(i).drop_last() =~= insts);
    assert(seq![i].drop_last() =~= Seq::<RvInst>::empty());
    assert(insts_bytes(Seq::<RvInst>::empty()) + le_bytes(rv_word(i)) =~= le_bytes(rv_word(i)));
}

/// The bytes of two instruction sequences in a row are the bytes of the
/// first followed by those of the second.
pub proof fn lemma_insts_bytes_concat(a: Seq<RvInst>, b: Seq<RvInst>)
    ensures
        insts_bytes(a + b) == insts_bytes(a) + insts_bytes(b),
    decreases b.len(),
{
    if b.len() == 0 {
        assert(a + b =~= a);
        assert(insts_bytes(a) + insts_bytes(b) =~= insts_bytes(a));
    } else {
        lemma_insts_bytes_concat(a, b.drop_last());
        assert((a + b).drop_last() =~= a + b.drop_last());
        assert((a + b).last() == b.last());
        assert(insts_bytes(a + b) =~= insts_bytes(a) + insts_bytes(b));
    }
}

// ── fixups ───────────────────────────────────────────────────────────────────

/// What a pending label reference re-encodes once its label is set.
#[derive(Clone, Copy, PartialEq, Eq, Debug, Structural)]
pub enum RvFixupKind {
    /// `JAL rd, label` (4 bytes).
    Jal { rd: u32 },
    /// `LA rd, label`: `AUIPC rd, hi` then `ADDI rd, rd, lo` (8 bytes).
    La { rd: u32 },
    /// A conditional branch (4 bytes); the registers are in emission order,
    /// already swapped for a reversed condition.
    BCond { rs1: u32, rs2: u32, funct3: u32 },
}

/// The number of bytes a reference of the given kind occupies.
pub open spec fn fixup_size(kind: RvFixupKind) -> int {
    match kind {
        RvFixupKind::La { .. } => 8,
        _ => 4,
    }
}

/// The bytes of a label reference of the given kind at byte distance `delta`.
pub open spec fn fixup_bytes(kind: RvFixupKind, delta: i32) -> Seq<u8> {
    match kind {
        RvFixupKind::Jal { rd } => le_bytes(jal_word(rd, delta)),
        RvFixupKind::La { rd } => le_bytes(la_auipc(rd, delta)) + le_bytes(la_addi(rd, delta)),
        RvFixupKind::BCond { rs1, rs2, funct3 } => le_bytes(branch_word(rs1, rs2, funct3, delta)),
    }
}

/// A label reference of the given kind can be resolved at distance `delta`.
pub open spec fn fixup_reaches(kind: RvFixupKind, delta: i32) -> bool {
    match kind {
        RvFixupKind::La { .. } => la_reaches(delta),
        _ => true,
    }
}

/// `bytes` with `patch` written at `off`.
pub open spec fn put_bytes(bytes: Seq<u8>, off: int, patch: Seq<u8>) -> Seq<u8> {
    Seq::new(bytes.len(), |i: int| if off <= i < off + patch.len() { patch[i - off] } else { bytes[i] })
}

fn fixup_push(buf: &mut Vec<u8>, kind: RvFixupKind, delta: i32)
    requires
        fixup_reaches(kind, delta),
    ensures
        final(buf)@ == old(buf)@ + fixup_bytes(kind, delta),
{
    match kind {
        RvFixupKind::Jal { rd } => push_word(buf, encode_jal(rd, delta)),
        RvFixupKind::La { rd } => {
            let (a, b) = encode_la(rd, delta);
            push_word(buf, a);
            push_word(buf, b);
            assert(final(buf)@ =~= old(buf)@ + fixup_bytes(kind, delta));
        },
        RvFixupKind::BCond { rs1, rs2, funct3 } => push_word(buf, encode_branch(rs1, rs2, funct3, delta)),
    }
}

fn set_word(buf: &mut Vec<u8>, off: usize, w: u32)
    requires
        off + 4 <= old(buf)@.len(),
    ensures
        final(buf)@ == put_bytes(old(buf)@, off as int, le_bytes(w)),
{
    let n = buf.len();
    buf.set(off, (w & 0xFF) as u8);
    buf.set(off + 1, ((w >> 8) & 0xFF) as u8);
    buf.set(off + 2, ((w >> 16) & 0xFF) as u8);
    buf.set(off + 3, ((w >> 24) & 0xFF) as u8);
    assert(final(buf)@ =~= put_bytes(old(buf)@, off as int, le_bytes(w)));
}

/// A reference to a label not yet defined: the instruction(s) at
/// `instr_offset` are rewritten once the label is set.
pub struct RvFixup<L> {
    /// Byte offset of the instruction to patch.
    pub instr_offset: usize,
    /// The label it refers to.
    pub label: L,
    /// How to re-encode it.
    pub kind: RvFixupKind,
}

impl<L> RvFixup<L> {
    /// Rewrite the instruction(s) at this fixup's offset in `buf` so that
    /// they refer to byte offset `target`.
    pub fn apply(&self, buf: &mut Vec<u8>, target: usize)
        requires
            self.instr_offset + fixup_size(self.kind) <= old(buf)@.len(),
            fixup_reaches(self.kind, rel(target, self.instr_offset)),
        ensures
            final(buf)@ == put_bytes(
                old(buf)@,
                self.instr_offset as int,
                fixup_bytes(self.kind, rel(target, self.instr_offset)),
            ),
    {
        let n = buf.len();
        let delta = rel_exec(target, self.instr_offset);
        let off = self.instr_offset;
        match self.kind {
            RvFixupKind::Jal { rd } => set_word(buf, off, encode_jal(rd, delta)),
            RvFixupKind::La { rd } => {
                let (a, b) = encode_la(rd, delta);
                let ghost b0 = buf@;
                set_word(buf, off, a);
                set_word(buf, off + 4, b);
                assert(buf@ =~= put_bytes(b0, off as int, fixup_bytes(self.kind, delta)));
            },
            RvFixupKind::BCond { rs1, rs2, funct3 } => set_word(buf, off, encode_branch(rs1, rs2, funct3, delta)),
        }
    }
}

// ── resolution of a label ────────────────────────────────────────────────────

/// `bytes` after patching, in order, every fixup of `fs` that refers to
/// label `s`, for a label defined at `target`.
pub open spec fn patch_all<L>(bytes: Seq<u8>, fs: Seq<RvFixup<L>>, s: L, target: usize) -> Seq<u8>
    decreases fs.len(),
{
    if fs.len() == 0 {
        bytes
    } else {
        let b = patch_all(bytes, fs.drop_last(), s, target);
        let f = fs.last();
        if f.label == s {
            put_bytes(b, f.instr_offset as int, fixup_bytes(f.kind, rel(target, f.instr_offset)))
        } else {
            b
        }
    }
}

/// The fixups of `fs` that do not refer to label `s`, in order.
pub open spec fn keep_other<L>(fs: Seq<RvFixup<L>>, s: L) -> Seq<RvFixup<L>>
    decreases fs.len(),
{
    if fs.len() == 0 {
        fs
    } else {
        let r = keep_other(fs.drop_last(), s);
        if fs.last().label == s {
            r
        } else {
            r.push(fs.last())
        }
    }
}

/// Fixups do not overlap, come in increasing order, and end by `bound`.
pub open spec fn spaced<L>(fs: Seq<RvFixup<L>>, bound: int) -> bool {
    &&& forall|i: int, j: int|
        0 <= i < j < fs.len() ==> #[trigger] fs[i].instr_offset + fixup_size(fs[i].kind)
            <= #[trigger] fs[j].instr_offset
    &&& forall|i: int| 0 <= i < fs.len() ==> #[trigger] fs[i].instr_offset + fixup_size(fs[i].kind) <= bound
}

/// Every fixup of `fs` that refers to `s` can be resolved at `target`.
pub open spec fn resolvable<L>(fs: Seq<RvFixup<L>>, s: L, target: usize) -> bool {
    forall|k: int|
        0 <= k < fs.len() && fs[k].label == s ==> fixup_reaches(
            #[trigger] fs[k].kind,
            rel(target, fs[k].instr_offset),
        )
}

proof fn lemma_patch_len<L>(bytes: Seq<u8>, fs: Seq<RvFixup<L>>, s: L, target: usize)
    ensures
        patch_all(bytes, fs, s, target).len() == bytes.len(),
    decreases fs.len(),
{
    if fs.len() > 0 {
        lemma_patch_len(bytes, fs.drop_last(), s, target);
    }
}

proof fn lemma_fixup_bytes_len(kind: RvFixupKind, delta: i32)
    ensures
        fixup_bytes(kind, delta).len() == fixup_size(kind),
{
}

/// Outside the fixups that refer to `s`, patching changes nothing; inside
/// one of them it writes that fixup's bytes.
proof fn lemma_patch_at<L>(bytes: Seq<u8>, fs: Seq<RvFixup<L>>, s: L, target: usize)
    requires
        spaced(fs, bytes.len() as int),
    ensures
        forall|k: int|
            0 <= k < fs.len() && fs[k].label == s ==> (#[trigger] patch_all(bytes, fs, s, target).subrange(
                fs[k].instr_offset as int,
                fs[k].instr_offset + fixup_size(fs[k].kind),
            )) == fixup_bytes(fs[k].kind, rel(target, fs[k].instr_offset)),
    decreases fs.len(),
{
    lemma_patch_len(bytes, fs, s, target);
    if fs.len() > 0 {
        let init = fs.drop_last();
        assert(spaced(init, bytes.len() as int));
        lemma_patch_at(bytes, init, s, target);
        lemma_patch_len(bytes, init, s, target);
        let b = patch_all(bytes, init, s, target);
        let f = fs.last();
        let n = fs.len() - 1;
        lemma_fixup_bytes_len(f.kind, rel(target, f.instr_offset));
        assert forall|k: int|
            0 <= k < fs.len() && fs[k].label == s implies (#[trigger] patch_all(bytes, fs, s, target).subrange(
                fs[k].instr_offset as int,
                fs[k].instr_offset + fixup_size(fs[k].kind),
            )) == fixup_bytes(fs[k].kind, rel(target, fs[k].instr_offset)) by {
            lemma_fixup_bytes_len(fs[k].kind, rel(target, fs[k].instr_offset));
            if k == n {
                assert(patch_all(bytes, fs, s, target).subrange(
                    fs[k].instr_offset as int,
                    fs[k].instr_offset + fixup_size(fs[k].kind),
                ) =~= fixup_bytes(fs[k].kind, rel(target, fs[k].instr_offset)));
            } else {
                assert(init[k] == fs[k]);
                assert(fs[k].instr_offset + fixup_size(fs[k].kind) <= fs[n].instr_offset);
                let sub = b.subrange(fs[k].instr_offset as int, fs[k].instr_offset + fixup_size(fs[k].kind));
                assert(patch_all(bytes, fs, s, target).subrange(
                    fs[k].instr_offset as int,
                    fs[k].instr_offset + fixup_size(fs[k].kind),
                ) =~= sub);
            }
        }
    }
}

proof fn lemma_keep_other<L>(fs: Seq<RvFixup<L>>, s: L, bound: int)
    requires
        spaced(fs, bound),
    ensures
        spaced(keep_other(fs, s), bound),
        forall|k: int|
            #![trigger keep_other(fs, s)[k]]
            0 <= k < keep_other(fs, s).len() ==> keep_other(fs, s)[k].label != s
                && fs.contains(keep_other(fs, s)[k]),
        forall|k: int|
            #![trigger keep_other(fs, s)[k]]
            0 <= k < keep_other(fs, s).len() && fs.len() > 0 ==> keep_other(fs, s)[k].instr_offset
                <= fs.last().instr_offset,
    decreases fs.len(),
{
    if fs.len() > 0 {
        let init = fs.drop_last();
        assert(spaced(init, bound));
        lemma_keep_other(init, s, bound);
        let r = keep_other(init, s);
        assert forall|k: int| 0 <= k < r.len() implies #[trigger] r[k].instr_offset + fixup_size(r[k].kind)
            <= fs.last().instr_offset by {
            assert(r[k] == keep_other(init, s)[k]);
            assert(init.contains(r[k]));
            let j = choose|j: int| 0 <= j < init.len() && init[j] == r[k];
            assert(fs[j] == init[j]);
        }
        let kept = keep_other(fs, s);
        assert forall|k: int| 0 <= k < kept.len() implies #[trigger] kept[k].label != s && fs.contains(kept[k]) by {
            if k < r.len() {
                assert(kept[k] == r[k]);
                assert(r[k] == keep_other(init, s)[k]);
                let j = choose|j: int| 0 <= j < init.len() && init[j] == r[k];
                assert(fs[j] == init[j]);
            } else {
                assert(kept[k] == fs[fs.len() - 1]);
            }
        }
        assert forall|k: int| 0 <= k < kept.len() implies #[trigger] kept[k].instr_offset <= fs.last().instr_offset by {
            if k < r.len() {
                assert(kept[k] == r[k]);
                assert(r[k] == keep_other(init, s)[k]);
            }
        }
    }
}

// ── the writer ───────────────────────────────────────────────────────────────

/// Binary assembler for RISC-V 64.
///
/// Holds the assembled bytes, the byte offset of each label set so far, and
/// the label references still waiting for their label.  With the default
/// label type [`NoLabel`] no label can be named, so no label is tracked.
pub struct RvAsmWriter<L = NoLabel> {
    buf: Vec<u8>,
    labels: BTreeMap<L, usize>,
    pending_fixups: Vec<RvFixup<L>>,
}

impl<L> RvAsmWriter<L> {
    /// The bytes assembled so far.
    pub closed spec fn bytes(&self) -> Seq<u8> {
        self.buf@
    }

    /// The byte offset of each label set so far.
    pub closed spec fn labels(&self) -> Map<L, usize> {
        self.labels@
    }

    /// Label references still waiting for their label, oldest first.
    pub closed spec fn pending(&self) -> Seq<RvFixup<L>> {
        self.pending_fixups@
    }

    /// The writer's invariant: pending references cover whole instructions
    /// inside the buffer, in increasing order, and refer to labels not yet
    /// set; every label lies inside the buffer.
    pub closed spec fn wf(&self) -> bool {
        &&& spaced(self.pending_fixups@, self.buf@.len() as int)
        &&& forall|k: int|
            0 <= k < self.pending_fixups@.len() ==> !self.labels@.contains_key(
                #[trigger] self.pending_fixups@[k].label,
            )
        &&& forall|l: L| #[trigger] self.labels@.contains_key(l) ==> self.labels@[l] <= self.buf@.len()
        &&& self.buf@.len() % 4 == 0
    }

    /// Instructions are whole 32-bit words: a well-formed writer's offset is
    /// always a multiple of 4.
    pub proof fn law_offset_word_aligned(self)
        requires
            self.wf(),
        ensures
            self.bytes().len() % 4 == 0,
    {
    }

    /// `self` is `before` with the words of `insts` appended.
    pub open spec fn emitted_all(self, before: Self, insts: Seq<RvInst>) -> bool {
        &&& self.wf()
        &&& self.bytes() == before.bytes() + insts_bytes(insts)
        &&& self.labels() == before.labels()
        &&& self.pending() == before.pending()
    }

    /// `self` is `before` with the word of `inst` appended.
    pub open spec fn emitted(self, before: Self, inst: RvInst) -> bool {
        self.emitted_all(before, seq![inst])
    }

    /// An empty writer.
    pub fn new() -> (w: Self)
        ensures
            w.wf(),
            w.bytes() == Seq::<u8>::empty(),
            w.labels() == Map::<L, usize>::empty(),
            w.pending() == Seq::<RvFixup<L>>::empty(),
    {
        RvAsmWriter { buf: Vec::new(), labels: BTreeMap::new(), pending_fixups: Vec::new() }
    }

    /// The assembled bytes; label offsets are dropped.
    pub fn into_bytes(self) -> (b: Vec<u8>)
        ensures
            b@ == self.bytes(),
    {
        self.buf
    }

    /// The assembled bytes and the offset of each label.
    pub fn into_parts(self) -> (r: (Vec<u8>, BTreeMap<L, usize>))
        ensures
            r.0@ == self.bytes(),
            r.1@ == self.labels(),
    {
        (self.buf, self.labels)
    }

    /// Number of bytes assembled so far.
    pub fn offset(&self) -> (n: usize)
        ensures
            n == self.bytes().len(),
    {
        self.buf.len()
    }

    /// Append one instruction.
    pub fn emit(&mut self, inst: RvInst)
        requires
            old(self).wf(),
        ensures
            final(self).emitted(*old(self), inst),
            final(self).bytes() == old(self).bytes() + le_bytes(rv_word(inst)),
    {
        let w = encode(&inst);
        push_word(&mut self.buf, w);
        proof {
            let s = seq![inst];
            assert(s.drop_last() =~= Seq::<RvInst>::empty());
            assert(insts_bytes(s.drop_last()) =~= Seq::<u8>::empty());
            assert(self.buf@ =~= old(self).buf@ + insts_bytes(s));
        }
    }

    /// Append a sequence of instructions.
    fn emit_all(&mut self, insts: &Vec<RvInst>)
        requires
            old(self).wf(),
        ensures
            final(self).emitted_all(*old(self), insts@),
    {
        let mut i: usize = 0;
        assert(insts@.take(0) =~= Seq::<RvInst>::empty());
        assert(self.buf@ =~= old(self).buf@ + insts_bytes(insts@.take(0)));
        while i < insts.len()
            invariant
                i <= insts@.len(),
                self.emitted_all(*old(self), insts@.take(i as int)),
            decreases insts@.len() - i,
        {
            let inst = insts[i];
            self.emit(inst);
            proof {
                assert(insts@.take(i + 1).drop_last() =~= insts@.take(i as int));
                assert(insts@.take(i + 1).last() == inst);
                assert(self.buf@ =~= old(self).buf@ + insts_bytes(insts@.take(i + 1)));
            }
            i = i + 1;
        }
        assert(insts@.take(i as int) =~= insts@);
    }
}

impl<L> Default for RvAsmWriter<L> {
    fn default() -> (w: Self)
        ensures
            w.wf(),
            w.bytes() == Seq::<u8>::empty(),
            w.labels() == Map::<L, usize>::empty(),
            w.pending() == Seq::<RvFixup<L>>::empty(),
    {
        Self::new()
    }
}

impl<L> RvAsmWriter<L> {
    /// `EBREAK`.
    pub fn ebreak<C>(&mut self, _ctx: &mut C, _cfg: RiscV64Arch) -> (r: Result<(), Infallible>)
        requires
            old(self).wf(),
        ensures
            r is Ok,
            final(self).emitted(*old(self), RvInst::Ebreak),
    {
        self.emit(RvInst::Ebreak);
        Ok(())
    }

    /// `MV dest, src` (`ADDI dest, src, 0`).
    pub fn mv<C>(&mut self, _ctx: &mut C, _cfg: RiscV64Arch, dest: &MemArgKind, src: &MemArgKind) -> (r: Result<(), Infallible>)
        requires
            old(self).wf(),
        ensures
            r is Ok,
            final(self).emitted(*old(self), (RvInst::Addi { dest: reg_of(*dest), src1: reg_of(*src), imm: 0 })),
    {
        self.emit(RvInst::Addi { dest: to_reg(dest), src1: to_reg(src), imm: 0 });
        Ok(())
    }

    /// `SD src, disp(base)`.
    pub fn sd<C>(&mut self, _ctx: &mut C, _cfg: RiscV64Arch, src: &MemArgKind, mem: &MemArgKind) -> (r: Result<(), Infallible>)
        requires
            old(self).wf(),
        ensures
            r is Ok,
            final(self).emitted(*old(self), (RvInst::Store { op: StoreOp::Sd, src: reg_of(*src), base: base_offset(*mem).0, offset: base_offset(*mem).1 })),
    {
        let (base, offset) = mem_base_offset(mem);
        self.emit(RvInst::Store { op: StoreOp::Sd, src: to_reg(src), base, offset });
        Ok(())
    }

    /// `LD dest, disp(base)`.
    pub fn ld<C>(&mut self, _ctx: &mut C, _cfg: RiscV64Arch, dest: &MemArgKind, mem: &MemArgKind) -> (r: Result<(), Infallible>)
        requires
            old(self).wf(),
        ensures
            r is Ok,
            final(self).emitted(*old(self), (RvInst::Load { op: LoadOp::Ld, dest: reg_of(*dest), base: base_offset(*mem).0, offset: base_offset(*mem).1 })),
    {
        let (base, offset) = mem_base_offset(mem);
        self.emit(RvInst::Load { op: LoadOp::Ld, dest: to_reg(dest), base, offset });
        Ok(())
    }

    /// `LW dest, disp(base)`.
    pub fn lw<C>(&mut self, _ctx: &mut C, _cfg: RiscV64Arch, dest: &MemArgKind, mem: &MemArgKind) -> (r: Result<(), Infallible>)
        requires
            old(self).wf(),
        ensures
            r is Ok,
            final(self).emitted(*old(self), (RvInst::Load { op: LoadOp::Lw, dest: reg_of(*dest), base: base_offset(*mem).0, offset: base_offset(*mem).1 })),
    {
        let (base, offset) = mem_base_offset(mem);
        self.emit(RvInst::Load { op: LoadOp::Lw, dest: to_reg(dest), base, offset });
        Ok(())
    }

    /// `SW src, disp(base)`.
    pub fn sw<C>(&mut self, _ctx: &mut C, _cfg: RiscV64Arch, src: &MemArgKind, mem: &MemArgKind) -> (r: Result<(), Infallible>)
        requires
            old(self).wf(),
        ensures
            r is Ok,
            final(self).emitted(*old(self), (RvInst::Store { op: StoreOp::Sw, src: reg_of(*src), base: base_offset(*mem).0, offset: base_offset(*mem).1 })),
    {
        let (base, offset) = mem_base_offset(mem);
        self.emit(RvInst::Store { op: StoreOp::Sw, src: to_reg(src), base, offset });
        Ok(())
    }

    /// `LB dest, disp(base)`.
    pub fn lb<C>(&mut self, _ctx: &mut C, _cfg: RiscV64Arch, dest: &MemArgKind, mem: &MemArgKind) -> (r: Result<(), Infallible>)
        requires
            old(self).wf(),
        ensures
            r is Ok,
            final(self).emitted(*old(self), (RvInst::Load { op: LoadOp::Lb, dest: reg_of(*dest), base: base_offset(*mem).0, offset: base_offset(*mem).1 })),
    {
        let (base, offset) = mem_base_offset(mem);
        self.emit(RvInst::Load { op: LoadOp::Lb, dest: to_reg(dest), base, offset });
        Ok(())
    }

    /// `SB src, disp(base)`.
    pub fn sb<C>(&mut self, _ctx: &mut C, _cfg: RiscV64Arch, src: &MemArgKind, mem: &MemArgKind) -> (r: Result<(), Infallible>)
        requires
            old(self).wf(),
        ensures
            r is Ok,
            final(self).emitted(*old(self), (RvInst::Store { op: StoreOp::Sb, src: reg_of(*src), base: base_offset(*mem).0, offset: base_offset(*mem).1 })),
    {
        let (base, offset) = mem_base_offset(mem);
        self.emit(RvInst::Store { op: StoreOp::Sb, src: to_reg(src), base, offset });
        Ok(())
    }

    /// `LH dest, disp(base)`.
    pub fn lh<C>(&mut self, _ctx: &mut C, _cfg: RiscV64Arch, dest: &MemArgKind, mem: &MemArgKind) -> (r: Result<(), Infallible>)
        requires
            old(self).wf(),
        ensures
            r is Ok,
            final(self).emitted(*old(self), (RvInst::Load { op: LoadOp::Lh, dest: reg_of(*dest), base: base_offset(*mem).0, offset: base_offset(*mem).1 })),
    {
        let (base, offset) = mem_base_offset(mem);
        self.emit(RvInst::Load { op: LoadOp::Lh, dest: to_reg(dest), base, offset });
        Ok(())
    }

    /// `SH src, disp(base)`.
    pub fn sh<C>(&mut self, _ctx: &mut C, _cfg: RiscV64Arch, src: &MemArgKind, mem: &MemArgKind) -> (r: Result<(), Infallible>)
        requires
            old(self).wf(),
        ensures
            r is Ok,
            final(self).emitted(*old(self), (RvInst::Store { op: StoreOp::Sh, src: reg_of(*src), base: base_offset(*mem).0, offset: base_offset(*mem).1 })),
    {
        let (base, offset) = mem_base_offset(mem);
        self.emit(RvInst::Store { op: StoreOp::Sh, src: to_reg(src), base, offset });
        Ok(())
    }

    /// `JALR dest, offset(base)`.
    pub fn jalr<C>(&mut self, _ctx: &mut C, _cfg: RiscV64Arch, dest: &MemArgKind, base: &MemArgKind, offset: i32) -> (r: Result<(), Infallible>)
        requires
            old(self).wf(),
        ensures
            r is Ok,
            final(self).emitted(*old(self), (RvInst::Jalr { dest: reg_of(*dest), base: reg_of(*base), offset })),
    {
        self.emit(RvInst::Jalr { dest: to_reg(dest), base: to_reg(base), offset });
        Ok(())
    }

    /// `JAL dest, offset` to a literal byte offset.
    pub fn jal<C>(&mut self, _ctx: &mut C, _cfg: RiscV64Arch, dest: &MemArgKind, target: &MemArgKind) -> (r: Result<(), Infallible>)
        requires
            old(self).wf(),
        ensures
            r is Ok,
            final(self).emitted(*old(self), (RvInst::Jal { dest: reg_of(*dest), offset: lit_imm(*target) })),
    {
        self.emit(RvInst::Jal { dest: to_reg(dest), offset: lit_as_imm(target) });
        Ok(())
    }

    /// `BEQ a, b, offset` to a literal byte offset.
    pub fn beq<C>(&mut self, _ctx: &mut C, _cfg: RiscV64Arch, a: &MemArgKind, b: &MemArgKind, target: &MemArgKind) -> (r: Result<(), Infallible>)
        requires
            old(self).wf(),
        ensures
            r is Ok,
            final(self).emitted(*old(self), (RvInst::Branch { op: BranchOp::Beq, src1: reg_of(*a), src2: reg_of(*b), offset: lit_imm(*target) })),
    {
        self.emit(RvInst::Branch { op: BranchOp::Beq, src1: to_reg(a), src2: to_reg(b), offset: lit_as_imm(target) });
        Ok(())
    }

    /// `BNE a, b, offset` to a literal byte offset.
    pub fn bne<C>(&mut self, _ctx: &mut C, _cfg: RiscV64Arch, a: &MemArgKind, b: &MemArgKind, target: &MemArgKind) -> (r: Result<(), Infallible>)
        requires
            old(self).wf(),
        ensures
            r is Ok,
            final(self).emitted(*old(self), (RvInst::Branch { op: BranchOp::Bne, src1: reg_of(*a), src2: reg_of(*b), offset: lit_imm(*target) })),
    {
        self.emit(RvInst::Branch { op: BranchOp::Bne, src1: to_reg(a), src2: to_reg(b), offset: lit_as_imm(target) });
        Ok(())
    }

    /// `BLT a, b, offset` to a literal byte offset.
    pub fn blt<C>(&mut self, _ctx: &mut C, _cfg: RiscV64Arch, a: &MemArgKind, b: &MemArgKind, target: &MemArgKind) -> (r: Result<(), Infallible>)
        requires
            old(self).wf(),
        ensures
            r is Ok,
            final(self).emitted(*old(self), (RvInst::Branch { op: BranchOp::Blt, src1: reg_of(*a), src2: reg_of(*b), offset: lit_imm(*target) })),
    {
        self.emit(RvInst::Branch { op: BranchOp::Blt, src1: to_reg(a), src2: to_reg(b), offset: lit_as_imm(target) });
        Ok(())
    }

    /// `BGE a, b, offset` to a literal byte offset.
    pub fn bge<C>(&mut self, _ctx: &mut C, _cfg: RiscV64Arch, a: &MemArgKind, b: &MemArgKind, target: &MemArgKind) -> (r: Result<(), Infallible>)
        requires
            old(self).wf(),
        ensures
            r is Ok,
            final(self).emitted(*old(self), (RvInst::Branch { op: BranchOp::Bge, src1: reg_of(*a), src2: reg_of(*b), offset: lit_imm(*target) })),
    {
        self.emit(RvInst::Branch { op: BranchOp::Bge, src1: to_reg(a), src2: to_reg(b), offset: lit_as_imm(target) });
        Ok(())
    }

    /// `BLTU a, b, offset` to a literal byte offset.
    pub fn bltu<C>(&mut self, _ctx: &mut C, _cfg: RiscV64Arch, a: &MemArgKind, b: &MemArgKind, target: &MemArgKind) -> (r: Result<(), Infallible>)
        requires
            old(self).wf(),
        ensures
            r is Ok,
            final(self).emitted(*old(self), (RvInst::Branch { op: BranchOp::Bltu, src1: reg_of(*a), src2: reg_of(*b), offset: lit_imm(*target) })),
    {
        self.emit(RvInst::Branch { op: BranchOp::Bltu, src1: to_reg(a), src2: to_reg(b), offset: lit_as_imm(target) });
        Ok(())
    }

    /// `BGEU a, b, offset` to a literal byte offset.
    pub fn bgeu<C>(&mut self, _ctx: &mut C, _cfg: RiscV64Arch, a: &MemArgKind, b: &MemArgKind, target: &MemArgKind) -> (r: Result<(), Infallible>)
        requires
            old(self).wf(),
        ensures
            r is Ok,
            final(self).emitted(*old(self), (RvInst::Branch { op: BranchOp::Bgeu, src1: reg_of(*a), src2: reg_of(*b), offset: lit_imm(*target) })),
    {
        self.emit(RvInst::Branch { op: BranchOp::Bgeu, src1: to_reg(a), src2: to_reg(b), offset: lit_as_imm(target) });
        Ok(())
    }

    /// `ADD dest, a, b`.
    pub fn add<C>(&mut self, _ctx: &mut C, _cfg: RiscV64Arch, dest: &MemArgKind, a: &MemArgKind, b: &MemArgKind) -> (r: Result<(), Infallible>)
        requires
            old(self).wf(),
        ensures
            r is Ok,
            final(self).emitted(*old(self), (RvInst::Op { op: AluOp::Add, dest: reg_of(*dest), src1: reg_of(*a), src2: reg_of(*b) })),
    {
        self.emit(RvInst::Op { op: AluOp::Add, dest: to_reg(dest), src1: to_reg(a), src2: to_reg(b) });
        Ok(())
    }

    /// `SUB dest, a, b`.
    pub fn sub<C>(&mut self, _ctx: &mut C, _cfg: RiscV64Arch, dest: &MemArgKind, a: &MemArgKind, b: &MemArgKind) -> (r: Result<(), Infallible>)
        requires
            old(self).wf(),
        ensures
            r is Ok,
            final(self).emitted(*old(self), (RvInst::Op { op: AluOp::Sub, dest: reg_of(*dest), src1: reg_of(*a), src2: reg_of(*b) })),
    {
        self.emit(RvInst::Op { op: AluOp::Sub, dest: to_reg(dest), src1: to_reg(a), src2: to_reg(b) });
        Ok(())
    }

    /// `AND dest, a, b`.
    pub fn and<C>(&mut self, _ctx: &mut C, _cfg: RiscV64Arch, dest: &MemArgKind, a: &MemArgKind, b: &MemArgKind) -> (r: Result<(), Infallible>)
        requires
            old(self).wf(),
        ensures
            r is Ok,
            final(self).emitted(*old(self), (RvInst::Op { op: AluOp::And, dest: reg_of(*dest), src1: reg_of(*a), src2: reg_of(*b) })),
    {
        self.emit(RvInst::Op { op: AluOp::And, dest: to_reg(dest), src1: to_reg(a), src2: to_reg(b) });
        Ok(())
    }

    /// `OR dest, a, b`.
    pub fn or<C>(&mut self, _ctx: &mut C, _cfg: RiscV64Arch, dest: &MemArgKind, a: &MemArgKind, b: &MemArgKind) -> (r: Result<(), Infallible>)
        requires
            old(self).wf(),
        ensures
            r is Ok,
            final(self).emitted(*old(self), (RvInst::Op { op: AluOp::Or, dest: reg_of(*dest), src1: reg_of(*a), src2: reg_of(*b) })),
    {
        self.emit(RvInst::Op { op: AluOp::Or, dest: to_reg(dest), src1: to_reg(a), src2: to_reg(b) });
        Ok(())
    }

    /// `XOR dest, a, b`.
    pub fn xor<C>(&mut self, _ctx: &mut C, _cfg: RiscV64Arch, dest: &MemArgKind, a: &MemArgKind, b: &MemArgKind) -> (r: Result<(), Infallible>)
        requires
            old(self).wf(),
        ensures
            r is Ok,
            final(self).emitted(*old(self), (RvInst::Op { op: AluOp::Xor, dest: reg_of(*dest), src1: reg_of(*a), src2: reg_of(*b) })),
    {
        self.emit(RvInst::Op { op: AluOp::Xor, dest: to_reg(dest), src1: to_reg(a), src2: to_reg(b) });
        Ok(())
    }

    /// `SLL dest, a, b`.
    pub fn sll<C>(&mut self, _ctx: &mut C, _cfg: RiscV64Arch, dest: &MemArgKind, a: &MemArgKind, b: &MemArgKind) -> (r: Result<(), Infallible>)
        requires
            old(self).wf(),
        ensures
            r is Ok,
            final(self).emitted(*old(self), (RvInst::Op { op: AluOp::Sll, dest: reg_of(*dest), src1: reg_of(*a), src2: reg_of(*b) })),
    {
        self.emit(RvInst::Op { op: AluOp::Sll, dest: to_reg(dest), src1: to_reg(a), src2: to_reg(b) });
        Ok(())
    }

    /// `SRL dest, a, b`.
    pub fn srl<C>(&mut self, _ctx: &mut C, _cfg: RiscV64Arch, dest: &MemArgKind, a: &MemArgKind, b: &MemArgKind) -> (r: Result<(), Infallible>)
        requires
            old(self).wf(),
        ensures
            r is Ok,
            final(self).emitted(*old(self), (RvInst::Op { op: AluOp::Srl, dest: reg_of(*dest), src1: reg_of(*a), src2: reg_of(*b) })),
    {
        self.emit(RvInst::Op { op: AluOp::Srl, dest: to_reg(dest), src1: to_reg(a), src2: to_reg(b) });
        Ok(())
    }

    /// `SRA dest, a, b`.
    pub fn sra<C>(&mut self, _ctx: &mut C, _cfg: RiscV64Arch, dest: &MemArgKind, a: &MemArgKind, b: &MemArgKind) -> (r: Result<(), Infallible>)
        requires
            old(self).wf(),
        ensures
            r is Ok,
            final(self).emitted(*old(self), (RvInst::Op { op: AluOp::Sra, dest: reg_of(*dest), src1: reg_of(*a), src2: reg_of(*b) })),
    {
        self.emit(RvInst::Op { op: AluOp::Sra, dest: to_reg(dest), src1: to_reg(a), src2: to_reg(b) });
        Ok(())
    }

    /// `SLT dest, a, b`.
    pub fn slt<C>(&mut self, _ctx: &mut C, _cfg: RiscV64Arch, dest: &MemArgKind, a: &MemArgKind, b: &MemArgKind) -> (r: Result<(), Infallible>)
        requires
            old(self).wf(),
        ensures
            r is Ok,
            final(self).emitted(*old(self), (RvInst::Op { op: AluOp::Slt, dest: reg_of(*dest), src1: reg_of(*a), src2: reg_of(*b) })),
    {
        self.emit(RvInst::Op { op: AluOp::Slt, dest: to_reg(dest), src1: to_reg(a), src2: to_reg(b) });
        Ok(())
    }

    /// `SLTU dest, a, b`.
    pub fn sltu<C>(&mut self, _ctx: &mut C, _cfg: RiscV64Arch, dest: &MemArgKind, a: &MemArgKind, b: &MemArgKind) -> (r: Result<(), Infallible>)
        requires
            old(self).wf(),
        ensures
            r is Ok,
            final(self).emitted(*old(self), (RvInst::Op { op: AluOp::Sltu, dest: reg_of(*dest), src1: reg_of(*a), src2: reg_of(*b) })),
    {
        self.emit(RvInst::Op { op: AluOp::Sltu, dest: to_reg(dest), src1: to_reg(a), src2: to_reg(b) });
        Ok(())
    }

    /// `MUL dest, a, b`.
    pub fn mul<C>(&mut self, _ctx: &mut C, _cfg: RiscV64Arch, dest: &MemArgKind, a: &MemArgKind, b: &MemArgKind) -> (r: Result<(), Infallible>)
        requires
            old(self).wf(),
        ensures
            r is Ok,
            final(self).emitted(*old(self), (RvInst::Op { op: AluOp::Mul, dest: reg_of(*dest), src1: reg_of(*a), src2: reg_of(*b) })),
    {
        self.emit(RvInst::Op { op: AluOp::Mul, dest: to_reg(dest), src1: to_reg(a), src2: to_reg(b) });
        Ok(())
    }

    /// `MULH dest, a, b`.
    pub fn mulh<C>(&mut self, _ctx: &mut C, _cfg: RiscV64Arch, dest: &MemArgKind, a: &MemArgKind, b: &MemArgKind) -> (r: Result<(), Infallible>)
        requires
            old(self).wf(),
        ensures
            r is Ok,
            final(self).emitted(*old(self), (RvInst::Op { op: AluOp::Mulh, dest: reg_of(*dest), src1: reg_of(*a), src2: reg_of(*b) })),
    {
        self.emit(RvInst::Op { op: AluOp::Mulh, dest: to_reg(dest), src1: to_reg(a), src2: to_reg(b) });
        Ok(())
    }

    /// `DIV dest, a, b`.
    pub fn div<C>(&mut self, _ctx: &mut C, _cfg: RiscV64Arch, dest: &MemArgKind, a: &MemArgKind, b: &MemArgKind) -> (r: Result<(), Infallible>)
        requires
            old(self).wf(),
        ensures
            r is Ok,
            final(self).emitted(*old(self), (RvInst::Op { op: AluOp::Div, dest: reg_of(*dest), src1: reg_of(*a), src2: reg_of(*b) })),
    {
        self.emit(RvInst::Op { op: AluOp::Div, dest: to_reg(dest), src1: to_reg(a), src2: to_reg(b) });
        Ok(())
    }

    /// `DIVU dest, a, b`.
    pub fn divu<C>(&mut self, _ctx: &mut C, _cfg: RiscV64Arch, dest: &MemArgKind, a: &MemArgKind, b: &MemArgKind) -> (r: Result<(), Infallible>)
        requires
            old(self).wf(),
        ensures
            r is Ok,
            final(self).emitted(*old(self), (RvInst::Op { op: AluOp::Divu, dest: reg_of(*dest), src1: reg_of(*a), src2: reg_of(*b) })),
    {
        self.emit(RvInst::Op { op: AluOp::Divu, dest: to_reg(dest), src1: to_reg(a), src2: to_reg(b) });
        Ok(())
    }

    /// `REM dest, a, b`.
    pub fn rem<C>(&mut self, _ctx: &mut C, _cfg: RiscV64Arch, dest: &MemArgKind, a: &MemArgKind, b: &MemArgKind) -> (r: Result<(), Infallible>)
        requires
            old(self).wf(),
        ensures
            r is Ok,
            final(self).emitted(*old(self), (RvInst::Op { op: AluOp::Rem, dest: reg_of(*dest), src1: reg_of(*a), src2: reg_of(*b) })),
    {
        self.emit(RvInst::Op { op: AluOp::Rem, dest: to_reg(dest), src1: to_reg(a), src2: to_reg(b) });
        Ok(())
    }

    /// `REMU dest, a, b`.
    pub fn remu<C>(&mut self, _ctx: &mut C, _cfg: RiscV64Arch, dest: &MemArgKind, a: &MemArgKind, b: &MemArgKind) -> (r: Result<(), Infallible>)
        requires
            old(self).wf(),
        ensures
            r is Ok,
            final(self).emitted(*old(self), (RvInst::Op { op: AluOp::Remu, dest: reg_of(*dest), src1: reg_of(*a), src2: reg_of(*b) })),
    {
        self.emit(RvInst::Op { op: AluOp::Remu, dest: to_reg(dest), src1: to_reg(a), src2: to_reg(b) });
        Ok(())
    }

    /// `ADDI dest, src, imm`.
    pub fn addi<C>(&mut self, _ctx: &mut C, _cfg: RiscV64Arch, dest: &MemArgKind, src: &MemArgKind, imm: i32) -> (r: Result<(), Infallible>)
        requires
            old(self).wf(),
        ensures
            r is Ok,
            final(self).emitted(*old(self), (RvInst::Addi { dest: reg_of(*dest), src1: reg_of(*src), imm })),
    {
        self.emit(RvInst::Addi { dest: to_reg(dest), src1: to_reg(src), imm });
        Ok(())
    }

    /// `LUI dest, imm` (`imm` is the upper 20 bits).
    pub fn lui<C>(&mut self, _ctx: &mut C, _cfg: RiscV64Arch, dest: &MemArgKind, imm: u32) -> (r: Result<(), Infallible>)
        requires
            old(self).wf(),
        ensures
            r is Ok,
            final(self).emitted(*old(self), (RvInst::Lui { dest: reg_of(*dest), uimm: imm << 12 })),
    {
        self.emit(RvInst::Lui { dest: to_reg(dest), uimm: imm << 12 });
        Ok(())
    }

    /// `AUIPC dest, imm` (`imm` is the upper 20 bits).
    pub fn auipc<C>(&mut self, _ctx: &mut C, _cfg: RiscV64Arch, dest: &MemArgKind, imm: u32) -> (r: Result<(), Infallible>)
        requires
            old(self).wf(),
        ensures
            r is Ok,
            final(self).emitted(*old(self), (RvInst::Auipc { dest: reg_of(*dest), uimm: imm << 12 })),
    {
        self.emit(RvInst::Auipc { dest: to_reg(dest), uimm: imm << 12 });
        Ok(())
    }

    /// `RET` (`JALR x0, 0(ra)`).
    pub fn ret<C>(&mut self, _ctx: &mut C, _cfg: RiscV64Arch) -> (r: Result<(), Infallible>)
        requires
            old(self).wf(),
        ensures
            r is Ok,
            final(self).emitted(*old(self), (RvInst::Jalr { dest: 0, base: 1, offset: 0 })),
    {
        self.emit(RvInst::Jalr { dest: 0, base: 1, offset: 0 });
        Ok(())
    }

    /// `CALL` through a register (`JALR ra, 0(target)`).
    pub fn call<C>(&mut self, _ctx: &mut C, _cfg: RiscV64Arch, target: &MemArgKind) -> (r: Result<(), Infallible>)
        requires
            old(self).wf(),
        ensures
            r is Ok,
            final(self).emitted(*old(self), (RvInst::Jalr { dest: 1, base: reg_of(*target), offset: 0 })),
    {
        self.emit(RvInst::Jalr { dest: 1, base: to_reg(target), offset: 0 });
        Ok(())
    }

    /// `J offset` (`JAL x0, offset`) to a literal byte offset.
    pub fn j<C>(&mut self, _ctx: &mut C, _cfg: RiscV64Arch, target: &MemArgKind) -> (r: Result<(), Infallible>)
        requires
            old(self).wf(),
        ensures
            r is Ok,
            final(self).emitted(*old(self), (RvInst::Jal { dest: 0, offset: lit_imm(*target) })),
    {
        self.emit(RvInst::Jal { dest: 0, offset: lit_as_imm(target) });
        Ok(())
    }

    /// `LI dest, val`: load a 64-bit constant (see [`li_seq`]).
    pub fn li<C>(&mut self, _ctx: &mut C, _cfg: RiscV64Arch, dest: &MemArgKind, val: u64) -> (r: Result<(), Infallible>)
        requires
            old(self).wf(),
        ensures
            r is Ok,
            final(self).emitted_all(*old(self), li_seq(reg_of(*dest), val)),
    {
        let insts = li_insts(to_reg(dest), val);
        self.emit_all(&insts);
        Ok(())
    }
}

/// The fixup kind of a conditional branch on `a` and `b`: the condition's
/// `funct3`, with the operands swapped for a reversed condition.
pub open spec fn bcond_kind(cond: ConditionCode, a: u8, b: u8) -> RvFixupKind {
    let (funct3, swap) = cond_funct3(cond);
    if swap {
        RvFixupKind::BCond { rs1: b as u32, rs2: a as u32, funct3 }
    } else {
        RvFixupKind::BCond { rs1: a as u32, rs2: b as u32, funct3 }
    }
}

impl<L: Ord> RvAsmWriter<L> {
    /// A reference of the given kind to `label`, emitted at the end of
    /// `self`, can be encoded if `label` is already set.
    pub open spec fn can_refer(self, label: L, kind: RvFixupKind) -> bool {
        self.labels().contains_key(label) ==> fixup_reaches(
            kind,
            rel(self.labels()[label], self.bytes().len() as usize),
        )
    }

    /// `self` is `before` after a reference of the given kind to `label`:
    /// to a label already set, the resolved instruction(s); otherwise a
    /// placeholder, recorded as pending.
    pub open spec fn referenced(self, before: Self, label: L, kind: RvFixupKind) -> bool {
        let off = before.bytes().len() as usize;
        &&& self.wf()
        &&& self.labels() == before.labels()
        &&& if before.labels().contains_key(label) {
            &&& self.bytes() == before.bytes() + fixup_bytes(kind, rel(before.labels()[label], off))
            &&& self.pending() == before.pending()
        } else {
            &&& self.bytes() == before.bytes() + fixup_bytes(kind, 0)
            &&& self.pending() == before.pending().push((RvFixup { instr_offset: off, label, kind }))
        }
    }

    /// `self` is `before` after label `s` is set at the end of its bytes:
    /// each pending reference to `s` is patched to refer to that offset and
    /// dropped from the pending list.
    pub open spec fn label_set(self, before: Self, s: L) -> bool {
        let target = before.bytes().len() as usize;
        &&& self.wf()
        &&& self.bytes().len() == before.bytes().len()
        &&& self.bytes() == patch_all(before.bytes(), before.pending(), s, target)
        &&& self.labels() == before.labels().insert(s, target)
        &&& self.pending() == keep_other(before.pending(), s)
        &&& forall|k: int|
            0 <= k < before.pending().len() && before.pending()[k].label == s
                ==> #[trigger] self.bytes().subrange(
                before.pending()[k].instr_offset as int,
                before.pending()[k].instr_offset + fixup_size(before.pending()[k].kind),
            ) == fixup_bytes(before.pending()[k].kind, rel(target, before.pending()[k].instr_offset))
    }

    fn emit_ref(&mut self, label: L, kind: RvFixupKind)
        requires
            old(self).wf(),
            lawful_label::<L>(),
            old(self).can_refer(label, kind),
        ensures
            final(self).referenced(*old(self), label, kind),
    {
        let instr_offset = self.buf.len();
        match self.labels.get(&label) {
            Some(target) => {
                let delta = rel_exec(*target, instr_offset);
                fixup_push(&mut self.buf, kind, delta);
            },
            None => {
                fixup_push(&mut self.buf, kind, 0);
                self.pending_fixups.push(RvFixup { instr_offset, label, kind });
                assert(self.wf());
            },
        }
    }

    /// Define `s` at the current offset, patching every pending reference
    /// to it.
    pub fn set_label<C>(&mut self, _ctx: &mut C, _cfg: RiscV64Arch, s: L) -> (r: Result<(), Infallible>)
        requires
            old(self).wf(),
            lawful_label::<L>(),
            resolvable(old(self).pending(), s, old(self).bytes().len() as usize),
        ensures
            r is Ok,
            final(self).label_set(*old(self), s),
    {
        let target = self.buf.len();
        let ghost orig = self.pending_fixups@;
        let ghost bytes0 = self.buf@;
        let ghost mut j: int = 0;
        let mut i: usize = 0;
        proof {
            reveal(obeys_concrete_eq);
            assert(orig.take(0) =~= Seq::<RvFixup<L>>::empty());
            assert(orig.skip(0) =~= orig);
            assert(keep_other(orig.take(0), s) + orig.skip(0) =~= orig);
        }
        while i < self.pending_fixups.len()
            invariant
                lawful_label::<L>(),
                0 <= j <= orig.len(),
                target == bytes0.len(),
                spaced(orig, bytes0.len() as int),
                resolvable(orig, s, target),
                self.pending_fixups@ == keep_other(orig.take(j), s) + orig.skip(j),
                i == keep_other(orig.take(j), s).len(),
                self.buf@ == patch_all(bytes0, orig.take(j), s, target),
                self.labels@ == old(self).labels@,
            decreases orig.len() - j,
        {
            proof {
                reveal(obeys_concrete_eq);
                lemma_patch_len(bytes0, orig.take(j), s, target);
                assert(orig.take(j + 1).drop_last() =~= orig.take(j));
                assert(orig.take(j + 1).last() == orig[j]);
                assert(orig.skip(j)[0] == orig[j]);
            }
            if self.pending_fixups[i].label == s {
                let fix = self.pending_fixups.remove(i);
                fix.apply(&mut self.buf, target);
                proof {
                    assert(orig.skip(j).drop_first() =~= orig.skip(j + 1));
                    assert(self.pending_fixups@ =~= keep_other(orig.take(j + 1), s) + orig.skip(j + 1));
                    j = j + 1;
                }
            } else {
                i = i + 1;
                proof {
                    assert(keep_other(orig.take(j + 1), s) == keep_other(orig.take(j), s).push(orig[j]));
                    assert(self.pending_fixups@ =~= keep_other(orig.take(j + 1), s) + orig.skip(j + 1));
                    j = j + 1;
                }
            }
        }
        proof {
            assert(orig.take(j) =~= orig);
            assert(orig.skip(j) =~= Seq::<RvFixup<L>>::empty());
            assert(self.pending_fixups@ =~= keep_other(orig, s));
            lemma_patch_len(bytes0, orig, s, target);
            lemma_patch_at(bytes0, orig, s, target);
            lemma_keep_other(orig, s, bytes0.len() as int);
        }
        self.labels.insert(s, target);
        proof {
            let kept = keep_other(orig, s);
            assert forall|k: int| 0 <= k < kept.len() implies !self.labels@.contains_key(#[trigger] kept[k].label) by {
                assert(kept[k] == keep_other(orig, s)[k]);
                let idx = choose|idx: int| 0 <= idx < orig.len() && orig[idx] == kept[k];
                assert(!old(self).labels@.contains_key(orig[idx].label));
            }
        }
        Ok(())
    }

    /// `JAL dest, label`.
    pub fn jal_label<C>(&mut self, _ctx: &mut C, _cfg: RiscV64Arch, dest: &MemArgKind, label: L) -> (r: Result<(), Infallible>)
        requires
            old(self).wf(),
            lawful_label::<L>(),
        ensures
            r is Ok,
            final(self).referenced(*old(self), label, RvFixupKind::Jal { rd: reg_of(*dest) as u32 }),
    {
        let rd = to_reg(dest) as u32;
        self.emit_ref(label, RvFixupKind::Jal { rd });
        Ok(())
    }

    /// `LA dest, label`: the address of `label` (`AUIPC` + `ADDI`).
    pub fn la_label<C>(&mut self, _ctx: &mut C, _cfg: RiscV64Arch, dest: &MemArgKind, label: L) -> (r: Result<(), Infallible>)
        requires
            old(self).wf(),
            lawful_label::<L>(),
            old(self).can_refer(label, RvFixupKind::La { rd: reg_of(*dest) as u32 }),
        ensures
            r is Ok,
            final(self).referenced(*old(self), label, RvFixupKind::La { rd: reg_of(*dest) as u32 }),
    {
        let rd = to_reg(dest) as u32;
        self.emit_ref(label, RvFixupKind::La { rd });
        Ok(())
    }

    /// Branch to `label` if `cond` holds of `a` and `b`.
    pub fn bcond_label<C>(
        &mut self,
        _ctx: &mut C,
        _cfg: RiscV64Arch,
        cond: ConditionCode,
        a: &MemArgKind,
        b: &MemArgKind,
        label: L,
    ) -> (r: Result<(), Infallible>)
        requires
            old(self).wf(),
            lawful_label::<L>(),
        ensures
            r is Ok,
            final(self).referenced(*old(self), label, bcond_kind(cond, reg_of(*a), reg_of(*b))),
    {
        let (funct3, swap) = funct3_for_cond(cond);
        let rs1_arg = to_reg(a) as u32;
        let rs2_arg = to_reg(b) as u32;
        let (rs1, rs2) = if swap { (rs2_arg, rs1_arg) } else { (rs1_arg, rs2_arg) };
        self.emit_ref(label, RvFixupKind::BCond { rs1, rs2, funct3 });
        Ok(())
    }
}

/// A reference to a label that is not yet defined, once the label is set
/// right after it, holds the same instruction(s) as a reference made after
/// the label: the one for the distance from the reference to the label.
pub proof fn law_forward_reference_resolves<L: Ord>(
    w0: RvAsmWriter<L>,
    w1: RvAsmWriter<L>,
    w2: RvAsmWriter<L>,
    label: L,
    kind: RvFixupKind,
)
    requires
        w0.wf(),
        !w0.labels().contains_key(label),
        w1.referenced(w0, label, kind),
        w2.label_set(w1, label),
    ensures
        w2.labels()[label] == w1.bytes().len() as usize,
        ({
            let off = w0.bytes().len() as usize;
            w2.bytes().subrange(off as int, off + fixup_size(kind)) == fixup_bytes(
                kind,
                rel(w2.labels()[label], off),
            )
        }),
{
    let k = w1.pending().len() - 1;
    assert(w1.pending()[k].label == label);
    assert(w2.bytes().subrange(
        w1.pending()[k].instr_offset as int,
        w1.pending()[k].instr_offset + fixup_size(w1.pending()[k].kind),
    ) == fixup_bytes(w1.pending()[k].kind, rel(w1.bytes().len() as usize, w1.pending()[k].instr_offset)));
}


/// A reference to a label that is not yet defined, with any instructions
/// emitted after it, once the label is set holds the instructions for the
/// distance from the reference to the label's offset: the writer's offset
/// when the label is set.
pub proof fn law_forward_reference_resolves_later<L: Ord>(
    w0: RvAsmWriter<L>,
    w1: RvAsmWriter<L>,
    w2: RvAsmWriter<L>,
    w3: RvAsmWriter<L>,
    insts: Seq<RvInst>,
    label: L,
    kind: RvFixupKind,
)
    requires
        w0.wf(),
        !w0.labels().contains_key(label),
        w1.referenced(w0, label, kind),
        w2.emitted_all(w1, insts),
        w3.label_set(w2, label),
    ensures
        w3.labels()[label] == w2.bytes().len() as usize,
        ({
            let off = w0.bytes().len() as usize;
            w3.bytes().subrange(off as int, off + fixup_size(kind)) == fixup_bytes(
                kind,
                rel(w3.labels()[label], off),
            )
        }),
{
    let k = w1.pending().len() - 1;
    assert(w2.pending()[k].label == label);
    assert(w3.bytes().subrange(
        w2.pending()[k].instr_offset as int,
        w2.pending()[k].instr_offset + fixup_size(w2.pending()[k].kind),
    ) == fixup_bytes(w2.pending()[k].kind, rel(w2.bytes().len() as usize, w2.pending()[k].instr_offset)));
}

} // verus!
