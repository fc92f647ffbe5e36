//! Binary assembler for AArch64: every instruction is one 32-bit word,
//! appended little-endian to a byte buffer.  Branches and `ADR` may name a
//! label; a reference to a label that is not yet defined is emitted as a
//! placeholder and patched when the label is set.

use vstd::prelude::*;
use vstd::laws_cmp::obeys_cmp;
use vstd::laws_eq::obeys_concrete_eq;
use std::collections::BTreeMap;
use core::convert::Infallible;
use crate::common::{le_bytes, push_word, put_word, rel, rel_exec};
use crate::aarch64::{AArch64Arch, ConditionCode};
use crate::aarch64::arg::MemArgKind;
use crate::aarch64::encode::{
    word_mov_wide,
    adr_to, b_to, bl_to, bcond_to, mov_imm_words, reg_of, to_reg, w_adr, w_add, w_b, w_bcond, w_bl,
    w_br, w_brk, w_compare, w_csel, w_fmov, w_ldst, w_ldstp, w_mov, w_movk, w_movz, w_mrs_nzcv,
    w_msr_nzcv, w_mvn, w_ret, w_rrr, w_shift, w_sub, w_sxt, w_uxt, opc_and, opc_orr, opc_eor,
    opc_mul, opc_udiv, opc_sdiv, opc_fadd, opc_fsub, opc_fmul, opc_fdiv, ShiftKind, word_adr,
    word_adr_to, word_add_sub, word_b_to, word_bcond, word_bcond_to, word_branch, word_compare,
    word_ext, word_ldst, word_ldstp, word_mov, word_rrr, word_shift,
};

verus! {

broadcast use vstd::std_specs::btree::group_btree_axioms;

/// Label type of a writer that never tracks labels: it holds an
/// [`Infallible`], so it has no values and its label map is always empty.
#[derive(Clone, Copy, PartialEq, Eq, PartialOrd, Ord, Debug)]
pub struct NoLabel(Infallible);

// ── fixups ───────────────────────────────────────────────────────────────────

/// What a pending label reference re-encodes once its label is set.
#[derive(Clone, Copy, PartialEq, Eq, Debug, Structural)]
pub enum AArch64FixupKind {
    /// `ADR Xd, label`: keeps the destination register.
    Adr { rd: u32 },
    /// `B label`.
    B,
    /// `BL label`.
    Bl,
    /// `B.cond label`: keeps the condition.
    BCond { cond: ConditionCode },
}

/// The word of a label reference of the given kind at byte distance `delta`.
pub open spec fn fixup_word(kind: AArch64FixupKind, delta: i32) -> u32 {
    match kind {
        AArch64FixupKind::Adr { rd } => adr_to(rd, delta),
        AArch64FixupKind::B => b_to(delta),
        AArch64FixupKind::Bl => bl_to(delta),
        AArch64FixupKind::BCond { cond } => bcond_to(cond, delta),
    }
}

/// The placeholder word emitted for a reference to a label not yet defined.
pub open spec fn placeholder_word(kind: AArch64FixupKind) -> u32 {
    fixup_word(kind, 0)
}

fn fixup_word_exec(kind: AArch64FixupKind, delta: i32) -> (w: u32)
    ensures
        w == fixup_word(kind, delta),
{
    match kind {
        AArch64FixupKind::Adr { rd } => word_adr_to(rd, delta),
        AArch64FixupKind::B => word_b_to(delta, false),
        AArch64FixupKind::Bl => word_b_to(delta, true),
        AArch64FixupKind::BCond { cond } => word_bcond_to(cond, delta),
    }
}

/// A reference to a label not yet defined: the instruction at
/// `instr_offset` is rewritten once the label is set.
pub struct AArch64Fixup<L> {
    /// Byte offset of the instruction to patch.
    pub instr_offset: usize,
    /// The label it refers to.
    pub label: L,
    /// How to re-encode it.
    pub kind: AArch64FixupKind,
}

impl<L> AArch64Fixup<L> {
    /// Rewrite the instruction at this fixup's offset in `buf` so that it
    /// refers to byte offset `target`.
    pub fn apply(&self, buf: &mut Vec<u8>, target: usize)
        requires
            self.instr_offset + 4 <= old(buf)@.len(),
        ensures
            final(buf)@ == put_word(
                old(buf)@,
                self.instr_offset as int,
                fixup_word(self.kind, rel(target, self.instr_offset)),
            ),
    {
        let n = buf.len();
        let delta = rel_exec(target, self.instr_offset);
        let word = fixup_word_exec(self.kind, delta);
        let off = self.instr_offset;
        buf.set(off, (word & 0xFF) as u8);
        buf.set(off + 1, ((word >> 8) & 0xFF) as u8);
        buf.set(off + 2, ((word >> 16) & 0xFF) as u8);
        buf.set(off + 3, ((word >> 24) & 0xFF) as u8);
        assert(final(buf)@ =~= put_word(old(buf)@, off as int, word));
    }
}

// ── resolution of a label ────────────────────────────────────────────────────

/// `bytes` after patching, in order, every fixup of `fs` that refers to
/// label `s`, for a label defined at `target`.
pub open spec fn patch_all<L>(bytes: Seq<u8>, fs: Seq<AArch64Fixup<L>>, s: L, target: usize) -> Seq<u8>
    decreases fs.len(),
{
    if fs.len() == 0 {
        bytes
    } else {
        let b = patch_all(bytes, fs.drop_last(), s, target);
        let f = fs.last();
        if f.label == s {
            put_word(b, f.instr_offset as int, fixup_word(f.kind, rel(target, f.instr_offset)))
        } else {
            b
        }
    }
}

/// The fixups of `fs` that do not refer to label `s`, in order.
pub open spec fn keep_other<L>(fs: Seq<AArch64Fixup<L>>, s: L) -> Seq<AArch64Fixup<L>>
    decreases fs.len(),
{
    if fs.len() == 0 {
        fs
    } else {
        let r = keep_other(fs.drop_last(), s);
        if fs.last().label == s {
            r
        } else {
            r.push(fs.last())
        }
    }
}

/// Fixup offsets are increasing, four bytes apart at least, and below `bound`.
pub open spec fn spaced<L>(fs: Seq<AArch64Fixup<L>>, bound: int) -> bool {
    &&& forall|i: int, j: int|
        0 <= i < j < fs.len() ==> #[trigger] fs[i].instr_offset + 4 <= #[trigger] fs[j].instr_offset
    &&& forall|i: int| 0 <= i < fs.len() ==> #[trigger] fs[i].instr_offset + 4 <= bound
}

proof fn lemma_patch_len<L>(bytes: Seq<u8>, fs: Seq<AArch64Fixup<L>>, s: L, target: usize)
    ensures
        patch_all(bytes, fs, s, target).len() == bytes.len(),
    decreases fs.len(),
{
    if fs.len() > 0 {
        lemma_patch_len(bytes, fs.drop_last(), s, target);
    }
}

/// Outside the fixups that refer to `s`, patching changes nothing; inside
/// one of them it writes that fixup's word.
proof fn lemma_patch_at<L>(bytes: Seq<u8>, fs: Seq<AArch64Fixup<L>>, s: L, target: usize)
    requires
        spaced(fs, bytes.len() as int),
    ensures
        forall|k: int|
            0 <= k < fs.len() && fs[k].label == s ==> (#[trigger] patch_all(bytes, fs, s, target).subrange(
                fs[k].instr_offset as int,
                fs[k].instr_offset + 4,
            )) == le_bytes(fixup_word(fs[k].kind, rel(target, fs[k].instr_offset))),
        forall|i: int|
            0 <= i < bytes.len() && (forall|k: int|
                0 <= k < fs.len() && fs[k].label == s ==> !(fs[k].instr_offset <= i
                    < fs[k].instr_offset + 4)) ==> #[trigger] patch_all(bytes, fs, s, target)[i]
                == bytes[i],
    decreases fs.len(),
{
    lemma_patch_len(bytes, fs, s, target);
    if fs.len() > 0 {
        let init = fs.drop_last();
        assert(spaced(init, bytes.len() as int));
        lemma_patch_at(bytes, init, s, target);
        lemma_patch_len(bytes, init, s, target);
        let b = patch_all(bytes, init, s, target);
        let f = fs.last();
        let n = fs.len() - 1;
        assert forall|k: int|
            0 <= k < fs.len() && fs[k].label == s implies (#[trigger] patch_all(bytes, fs, s, target).subrange(
                fs[k].instr_offset as int,
                fs[k].instr_offset + 4,
            )) == le_bytes(fixup_word(fs[k].kind, rel(target, fs[k].instr_offset))) by {
            if k == n {
                assert(patch_all(bytes, fs, s, target).subrange(
                    fs[k].instr_offset as int,
                    fs[k].instr_offset + 4,
                ) =~= le_bytes(fixup_word(fs[k].kind, rel(target, fs[k].instr_offset))));
            } else {
                assert(init[k] == fs[k]);
                assert(fs[k].instr_offset + 4 <= fs[n].instr_offset);
                let sub = b.subrange(fs[k].instr_offset as int, fs[k].instr_offset + 4);
                assert(patch_all(bytes, fs, s, target).subrange(
                    fs[k].instr_offset as int,
                    fs[k].instr_offset + 4,
                ) =~= sub);
            }
        }
        assert forall|i: int|
            0 <= i < bytes.len() && (forall|k: int|
                0 <= k < fs.len() && fs[k].label == s ==> !(fs[k].instr_offset <= i
                    < fs[k].instr_offset + 4)) implies #[trigger] patch_all(bytes, fs, s, target)[i]
            == bytes[i] by {
            assert forall|k: int|
                0 <= k < init.len() && init[k].label == s implies !(init[k].instr_offset <= i
                < init[k].instr_offset + 4) by {
                assert(init[k] == fs[k]);
            }
            if f.label == s {
                assert(!(fs[n].instr_offset <= i < fs[n].instr_offset + 4));
            }
        }
    }
}

/// Every fixup that survives `keep_other` comes from `fs` and does not refer
/// to `s`; the survivors stay spaced.
proof fn lemma_keep_other<L>(fs: Seq<AArch64Fixup<L>>, s: L, bound: int)
    requires
        spaced(fs, bound),
    ensures
        spaced(keep_other(fs, s), bound),
        forall|k: int|
            #![trigger keep_other(fs, s)[k]]
            0 <= k < keep_other(fs, s).len() ==> keep_other(fs, s)[k].label != s
                && fs.contains(keep_other(fs, s)[k]),
        forall|k: int|
            #![trigger keep_other(fs, s)[k]]
            0 <= k < keep_other(fs, s).len() && fs.len() > 0 ==> keep_other(fs, s)[k].instr_offset
                <= fs.last().instr_offset,
    decreases fs.len(),
{
    if fs.len() > 0 {
        let init = fs.drop_last();
        assert(spaced(init, bound));
        lemma_keep_other(init, s, bound);
        let r = keep_other(init, s);
        assert forall|k: int| 0 <= k < r.len() implies #[trigger] r[k].instr_offset + 4 <= fs.last().instr_offset by {
            assert(r[k] == keep_other(init, s)[k]);
            assert(init.contains(r[k]));
            let j = choose|j: int| 0 <= j < init.len() && init[j] == r[k];
            assert(fs[j] == init[j]);
        }
        let kept = keep_other(fs, s);
        assert forall|k: int| 0 <= k < kept.len() implies #[trigger] kept[k].label != s && fs.contains(kept[k]) by {
            if k < r.len() {
                assert(kept[k] == r[k]);
                let j = choose|j: int| 0 <= j < init.len() && init[j] == r[k];
                assert(fs[j] == init[j]);
            } else {
                assert(kept[k] == fs[fs.len() - 1]);
            }
        }
        assert forall|k: int| 0 <= k < kept.len() implies #[trigger] kept[k].instr_offset <= fs.last().instr_offset by {
            if k < r.len() {
                assert(kept[k] == r[k]);
            }
        }
    }
}

// ── the writer ───────────────────────────────────────────────────────────────

/// Binary assembler for AArch64.
///
/// Holds the assembled bytes, the byte offset of each label set so far, and
/// the label references still waiting for their label.  With the default
/// label type [`NoLabel`] no label can be named, so no label is tracked.
pub struct AArch64Writer<L = NoLabel> {
    buf: Vec<u8>,
    labels: BTreeMap<L, usize>,
    pending_fixups: Vec<AArch64Fixup<L>>,
}

impl<L> AArch64Writer<L> {
    /// The bytes assembled so far.
    pub closed spec fn bytes(&self) -> Seq<u8> {
        self.buf@
    }

    /// The byte offset of each label set so far.
    pub closed spec fn labels(&self) -> Map<L, usize> {
        self.labels@
    }

    /// Label references still waiting for their label, oldest first.
    pub closed spec fn pending(&self) -> Seq<AArch64Fixup<L>> {
        self.pending_fixups@
    }

    /// The writer's invariant: pending references point at whole
    /// instructions inside the buffer, in increasing order, and refer to
    /// labels not yet set; every label lies inside the buffer.
    pub closed spec fn wf(&self) -> bool {
        &&& spaced(self.pending_fixups@, self.buf@.len() as int)
        &&& forall|k: int|
            0 <= k < self.pending_fixups@.len() ==> !self.labels@.contains_key(
                #[trigger] self.pending_fixups@[k].label,
            )
        &&& forall|l: L| #[trigger] self.labels@.contains_key(l) ==> self.labels@[l] <= self.buf@.len()
        &&& self.buf@.len() % 4 == 0
    }

    /// Instructions are whole 32-bit words: a well-formed writer's offset is
    /// always a multiple of 4.
    pub proof fn law_offset_word_aligned(self)
        requires
            self.wf(),
        ensures
            self.bytes().len() % 4 == 0,
    {
    }

    /// An empty writer.
    pub fn new() -> (w: Self)
        ensures
            w.wf(),
            w.bytes() == Seq::<u8>::empty(),
            w.labels() == Map::<L, usize>::empty(),
            w.pending() == Seq::<AArch64Fixup<L>>::empty(),
    {
        AArch64Writer { buf: Vec::new(), labels: BTreeMap::new(), pending_fixups: Vec::new() }
    }

    /// The assembled bytes; label offsets are dropped.
    pub fn into_bytes(self) -> (b: Vec<u8>)
        ensures
            b@ == self.bytes(),
    {
        self.buf
    }

    /// The assembled bytes and the offset of each label.
    pub fn into_parts(self) -> (r: (Vec<u8>, BTreeMap<L, usize>))
        ensures
            r.0@ == self.bytes(),
            r.1@ == self.labels(),
    {
        (self.buf, self.labels)
    }

    /// Number of bytes assembled so far.
    pub fn offset(&self) -> (n: usize)
        ensures
            n == self.bytes().len(),
    {
        self.buf.len()
    }

    /// Append one instruction word, little-endian.
    pub fn emit(&mut self, word: u32)
        requires
            old(self).wf(),
        ensures
            final(self).wf(),
            final(self).bytes() == old(self).bytes() + le_bytes(word),
            final(self).labels() == old(self).labels(),
            final(self).pending() == old(self).pending(),
    {
        push_word(&mut self.buf, word);
    }
}


/// The bytes of a sequence of words, each little-endian, in order.
pub open spec fn words_bytes(ws: Seq<u32>) -> Seq<u8>
    decreases ws.len(),
{
    if ws.len() == 0 {
        Seq::empty()
    } else {
        words_bytes(ws.drop_last()) + le_bytes(ws.last())
    }
}

/// Labels whose `==` and ordering are lawful, so that a label compares
/// equal exactly to itself.
pub open spec fn lawful_label<L: Ord>() -> bool {
    obeys_cmp::<L>() && obeys_concrete_eq::<L>()
}

/// Integer labels compare and order lawfully.
pub proof fn lemma_integer_labels_lawful()
    ensures
        lawful_label::<usize>(),
        lawful_label::<u32>(),
        lawful_label::<u64>(),
{
    broadcast use vstd::laws_cmp::group_laws_cmp, vstd::laws_eq::group_laws_eq;

}

/// Appending one word appends its bytes.
pub proof fn lemma_words_bytes_push(ws: Seq<u32>, w: u32)
    ensures
        words_bytes(ws.push(w)) == words_bytes(ws) + le_bytes(w),
        words_bytes(seq![w]) == le_bytes(w),
{
    assert(ws.push(w).drop_last() =~= ws);
    assert(seq![w].drop_last() =~= Seq::<u32>::empty());
    assert(words_bytes(Seq::<u32>::empty()) + le_bytes(w) =~= le_bytes(w));
}

/// The bytes of two sequences of words, one after the other.
pub proof fn lemma_words_bytes_concat(a: Seq<u32>, b: Seq<u32>)
    ensures
        words_bytes(a + b) == words_bytes(a) + words_bytes(b),
    decreases b.len(),
{
    if b.len() == 0 {
        assert(a + b =~= a);
        assert(words_bytes(a) + words_bytes(b) =~= words_bytes(a));
    } else {
        lemma_words_bytes_concat(a, b.drop_last());
        assert((a + b).drop_last() =~= a + b.drop_last());
        assert((a + b).last() == b.last());
        assert(words_bytes(a) + words_bytes(b) =~= words_bytes(a) + words_bytes(b.drop_last()) + le_bytes(b.last()));
    }
}

impl<L> AArch64Writer<L> {
    /// `self` is `before` with the words `ws` appended.
    pub open spec fn emitted_all(self, before: Self, ws: Seq<u32>) -> bool {
        &&& self.wf()
        &&& self.bytes() == before.bytes() + words_bytes(ws)
        &&& self.labels() == before.labels()
        &&& self.pending() == before.pending()
    }

    /// `self` is `before` with the one word `word` appended.
    pub open spec fn emitted(self, before: Self, word: u32) -> bool {
        &&& self.wf()
        &&& self.bytes() == before.bytes() + le_bytes(word)
        &&& self.labels() == before.labels()
        &&& self.pending() == before.pending()
    }

    /// `BRK #imm`.
    pub fn brk<C>(&mut self, _ctx: &mut C, _cfg: AArch64Arch, imm: u16) -> (r: Result<(), Infallible>)
        requires
            old(self).wf(),
        ensures
            r is Ok,
            final(self).emitted(*old(self), w_brk(imm)),
    {
        self.emit(0xD420_0000 | ((imm as u32) << 5));
        Ok(())
    }

    /// `RET`.
    pub fn ret<C>(&mut self, _ctx: &mut C, _cfg: AArch64Arch) -> (r: Result<(), Infallible>)
        requires
            old(self).wf(),
        ensures
            r is Ok,
            final(self).emitted(*old(self), w_ret()),
    {
        self.emit(0xD65F_03C0);
        Ok(())
    }

    /// `MOV dest, src` (register move, or `MOVZ` of a literal's low 16 bits).
    pub fn mov<C>(&mut self, _ctx: &mut C, _cfg: AArch64Arch, dest: &MemArgKind, src: &MemArgKind) -> (r: Result<(), Infallible>)
        requires
            old(self).wf(),
        ensures
            r is Ok,
            final(self).emitted(*old(self), w_mov(*dest, *src)),
    {
        let w = word_mov(dest, src);
        self.emit(w);
        Ok(())
    }

    /// Load a 64-bit literal: `MOVZ` of its low 16 bits, then a `MOVK` for
    /// each higher 16-bit chunk up to the highest non-zero one.
    pub fn mov_imm<C>(&mut self, _ctx: &mut C, _cfg: AArch64Arch, dest: &MemArgKind, val: u64) -> (r: Result<(), Infallible>)
        requires
            old(self).wf(),
        ensures
            r is Ok,
            final(self).wf(),
            final(self).bytes() == old(self).bytes() + words_bytes(mov_imm_words(reg_of(*dest), val)),
            final(self).labels() == old(self).labels(),
            final(self).pending() == old(self).pending(),
    {
        let rd = to_reg(dest);
        let ghost b0 = self.bytes();
        let ghost ws0 = seq![w_movz(rd, 0, val)];
        let w = word_mov_wide(false, rd, 0, val);
        self.emit(w);
        assert(ws0.drop_last() =~= Seq::<u32>::empty());
        assert(words_bytes(ws0.drop_last()) =~= Seq::<u8>::empty());
        assert(self.bytes() =~= b0 + words_bytes(ws0));
        let ghost mut ws = ws0;
        if val > 0xFFFF {
            let w = word_mov_wide(true, rd, 1, val >> 16);
            self.emit(w);
            proof {
                assert(ws.push(w).drop_last() =~= ws);
                ws = ws.push(w);
                assert(self.bytes() =~= b0 + words_bytes(ws));
            }
        }
        if val > 0xFFFF_FFFF {
            let w = word_mov_wide(true, rd, 2, val >> 32);
            self.emit(w);
            proof {
                assert(ws.push(w).drop_last() =~= ws);
                ws = ws.push(w);
                assert(self.bytes() =~= b0 + words_bytes(ws));
            }
        }
        if val > 0xFFFF_FFFF_FFFF {
            let w = word_mov_wide(true, rd, 3, val >> 48);
            self.emit(w);
            proof {
                assert(ws.push(w).drop_last() =~= ws);
                ws = ws.push(w);
                assert(self.bytes() =~= b0 + words_bytes(ws));
            }
        }
        assert(ws == mov_imm_words(rd, val));
        Ok(())
    }

    /// `ADD dest, a, b` (`b` a register or a 12-bit literal).
    pub fn add<C>(&mut self, _ctx: &mut C, _cfg: AArch64Arch, dest: &MemArgKind, a: &MemArgKind, b: &MemArgKind) -> (r: Result<(), Infallible>)
        requires
            old(self).wf(),
        ensures
            r is Ok,
            final(self).emitted(*old(self), w_add(*dest, *a, *b)),
    {
        let w = word_add_sub(dest, a, b, false);
        self.emit(w);
        Ok(())
    }

    /// `SUB dest, a, b` (`b` a register or a 12-bit literal).
    pub fn sub<C>(&mut self, _ctx: &mut C, _cfg: AArch64Arch, dest: &MemArgKind, a: &MemArgKind, b: &MemArgKind) -> (r: Result<(), Infallible>)
        requires
            old(self).wf(),
        ensures
            r is Ok,
            final(self).emitted(*old(self), w_sub(*dest, *a, *b)),
    {
        let w = word_add_sub(dest, a, b, true);
        self.emit(w);
        Ok(())
    }

    /// `AND dest, a, b`.
    pub fn and<C>(&mut self, _ctx: &mut C, _cfg: AArch64Arch, dest: &MemArgKind, a: &MemArgKind, b: &MemArgKind) -> (r: Result<(), Infallible>)
        requires
            old(self).wf(),
        ensures
            r is Ok,
            final(self).emitted(*old(self), w_rrr(opc_and(), *dest, *a, *b)),
    {
        let w = word_rrr(0x8A00_0000, dest, a, b);
        self.emit(w);
        Ok(())
    }

    /// `ORR dest, a, b`.
    pub fn orr<C>(&mut self, _ctx: &mut C, _cfg: AArch64Arch, dest: &MemArgKind, a: &MemArgKind, b: &MemArgKind) -> (r: Result<(), Infallible>)
        requires
            old(self).wf(),
        ensures
            r is Ok,
            final(self).emitted(*old(self), w_rrr(opc_orr(), *dest, *a, *b)),
    {
        let w = word_rrr(0xAA00_0000, dest, a, b);
        self.emit(w);
        Ok(())
    }

    /// `EOR dest, a, b`.
    pub fn eor<C>(&mut self, _ctx: &mut C, _cfg: AArch64Arch, dest: &MemArgKind, a: &MemArgKind, b: &MemArgKind) -> (r: Result<(), Infallible>)
        requires
            old(self).wf(),
        ensures
            r is Ok,
            final(self).emitted(*old(self), w_rrr(opc_eor(), *dest, *a, *b)),
    {
        let w = word_rrr(0xCA00_0000, dest, a, b);
        self.emit(w);
        Ok(())
    }

    /// `LSL dest, a, b` (`b` a register or a literal shift).
    pub fn lsl<C>(&mut self, _ctx: &mut C, _cfg: AArch64Arch, dest: &MemArgKind, a: &MemArgKind, b: &MemArgKind) -> (r: Result<(), Infallible>)
        requires
            old(self).wf(),
        ensures
            r is Ok,
            final(self).emitted(*old(self), w_shift(ShiftKind::Lsl, *dest, *a, *b)),
    {
        let w = word_shift(ShiftKind::Lsl, dest, a, b);
        self.emit(w);
        Ok(())
    }

    /// `LSR dest, a, b` (`b` a register or a literal shift).
    pub fn lsr<C>(&mut self, _ctx: &mut C, _cfg: AArch64Arch, dest: &MemArgKind, a: &MemArgKind, b: &MemArgKind) -> (r: Result<(), Infallible>)
        requires
            old(self).wf(),
        ensures
            r is Ok,
            final(self).emitted(*old(self), w_shift(ShiftKind::Lsr, *dest, *a, *b)),
    {
        let w = word_shift(ShiftKind::Lsr, dest, a, b);
        self.emit(w);
        Ok(())
    }

    /// `ASR dest, a, b` (`b` a register or a literal shift).
    pub fn asr<C>(&mut self, _ctx: &mut C, _cfg: AArch64Arch, dest: &MemArgKind, a: &MemArgKind, b: &MemArgKind) -> (r: Result<(), Infallible>)
        requires
            old(self).wf(),
        ensures
            r is Ok,
            final(self).emitted(*old(self), w_shift(ShiftKind::Asr, *dest, *a, *b)),
    {
        let w = word_shift(ShiftKind::Asr, dest, a, b);
        self.emit(w);
        Ok(())
    }

    /// `MVN dest, src`.
    pub fn mvn<C>(&mut self, _ctx: &mut C, _cfg: AArch64Arch, dest: &MemArgKind, src: &MemArgKind) -> (r: Result<(), Infallible>)
        requires
            old(self).wf(),
        ensures
            r is Ok,
            final(self).emitted(*old(self), w_mvn(*dest, *src)),
    {
        let rd = to_reg(dest);
        let rm = to_reg(src);
        self.emit(0xAA20_03E0 | (rm << 16) | rd);
        Ok(())
    }

    /// `MUL dest, a, b`.
    pub fn mul<C>(&mut self, _ctx: &mut C, _cfg: AArch64Arch, dest: &MemArgKind, a: &MemArgKind, b: &MemArgKind) -> (r: Result<(), Infallible>)
        requires
            old(self).wf(),
        ensures
            r is Ok,
            final(self).emitted(*old(self), w_rrr(opc_mul(), *dest, *a, *b)),
    {
        let w = word_rrr(0x9B00_7C00, dest, a, b);
        self.emit(w);
        Ok(())
    }

    /// `UDIV dest, a, b`.
    pub fn udiv<C>(&mut self, _ctx: &mut C, _cfg: AArch64Arch, dest: &MemArgKind, a: &MemArgKind, b: &MemArgKind) -> (r: Result<(), Infallible>)
        requires
            old(self).wf(),
        ensures
            r is Ok,
            final(self).emitted(*old(self), w_rrr(opc_udiv(), *dest, *a, *b)),
    {
        let w = word_rrr(0x9AC0_0800, dest, a, b);
        self.emit(w);
        Ok(())
    }

    /// `SDIV dest, a, b`.
    pub fn sdiv<C>(&mut self, _ctx: &mut C, _cfg: AArch64Arch, dest: &MemArgKind, a: &MemArgKind, b: &MemArgKind) -> (r: Result<(), Infallible>)
        requires
            old(self).wf(),
        ensures
            r is Ok,
            final(self).emitted(*old(self), w_rrr(opc_sdiv(), *dest, *a, *b)),
    {
        let w = word_rrr(0x9AC0_0C00, dest, a, b);
        self.emit(w);
        Ok(())
    }

    /// `CMP a, b` (`b` a register or a 12-bit literal).
    pub fn compare<C>(&mut self, _ctx: &mut C, _cfg: AArch64Arch, a: &MemArgKind, b: &MemArgKind) -> (r: Result<(), Infallible>)
        requires
            old(self).wf(),
        ensures
            r is Ok,
            final(self).emitted(*old(self), w_compare(*a, *b)),
    {
        let w = word_compare(a, b);
        self.emit(w);
        Ok(())
    }

    /// `CSEL dest, true_val, false_val, cond`.
    pub fn csel<C>(&mut self, _ctx: &mut C, _cfg: AArch64Arch, cond: ConditionCode, dest: &MemArgKind, true_val: &MemArgKind, false_val: &MemArgKind) -> (r: Result<(), Infallible>)
        requires
            old(self).wf(),
        ensures
            r is Ok,
            final(self).emitted(*old(self), w_csel(cond, *dest, *true_val, *false_val)),
    {
        let rd = to_reg(dest);
        let rn = to_reg(true_val);
        let rm = to_reg(false_val);
        self.emit(0x9A80_0000 | (rm << 16) | (cond.bits() << 12) | (rn << 5) | rd);
        Ok(())
    }

    /// Sign-extend `src` (by its size) into `dest`.
    pub fn sxt<C>(&mut self, _ctx: &mut C, _cfg: AArch64Arch, dest: &MemArgKind, src: &MemArgKind) -> (r: Result<(), Infallible>)
        requires
            old(self).wf(),
        ensures
            r is Ok,
            final(self).emitted(*old(self), w_sxt(*dest, *src)),
    {
        let w = word_ext(dest, src, true);
        self.emit(w);
        Ok(())
    }

    /// Zero-extend `src` (by its size) into `dest`.
    pub fn uxt<C>(&mut self, _ctx: &mut C, _cfg: AArch64Arch, dest: &MemArgKind, src: &MemArgKind) -> (r: Result<(), Infallible>)
        requires
            old(self).wf(),
        ensures
            r is Ok,
            final(self).emitted(*old(self), w_uxt(*dest, *src)),
    {
        let w = word_ext(dest, src, false);
        self.emit(w);
        Ok(())
    }

    /// `LDR dest, [mem]`.
    pub fn ldr<C>(&mut self, _ctx: &mut C, _cfg: AArch64Arch, dest: &MemArgKind, mem: &MemArgKind) -> (r: Result<(), Infallible>)
        requires
            old(self).wf(),
        ensures
            r is Ok,
            final(self).emitted(*old(self), w_ldst(true, *dest, *mem)),
    {
        let w = word_ldst(true, dest, mem);
        self.emit(w);
        Ok(())
    }

    /// `STR src, [mem]`.
    pub fn str<C>(&mut self, _ctx: &mut C, _cfg: AArch64Arch, src: &MemArgKind, mem: &MemArgKind) -> (r: Result<(), Infallible>)
        requires
            old(self).wf(),
        ensures
            r is Ok,
            final(self).emitted(*old(self), w_ldst(false, *src, *mem)),
    {
        let w = word_ldst(false, src, mem);
        self.emit(w);
        Ok(())
    }

    /// `LDP dest1, dest2, [mem]`.
    pub fn ldp<C>(&mut self, _ctx: &mut C, _cfg: AArch64Arch, dest1: &MemArgKind, dest2: &MemArgKind, mem: &MemArgKind) -> (r: Result<(), Infallible>)
        requires
            old(self).wf(),
        ensures
            r is Ok,
            final(self).emitted(*old(self), w_ldstp(true, *dest1, *dest2, *mem)),
    {
        let w = word_ldstp(true, dest1, dest2, mem);
        self.emit(w);
        Ok(())
    }

    /// `STP src1, src2, [mem]`.
    pub fn stp<C>(&mut self, _ctx: &mut C, _cfg: AArch64Arch, src1: &MemArgKind, src2: &MemArgKind, mem: &MemArgKind) -> (r: Result<(), Infallible>)
        requires
            old(self).wf(),
        ensures
            r is Ok,
            final(self).emitted(*old(self), w_ldstp(false, *src1, *src2, *mem)),
    {
        let w = word_ldstp(false, src1, src2, mem);
        self.emit(w);
        Ok(())
    }

    /// `BL` to a literal byte offset, or `BLR` to a register.
    pub fn bl<C>(&mut self, _ctx: &mut C, _cfg: AArch64Arch, target: &MemArgKind) -> (r: Result<(), Infallible>)
        requires
            old(self).wf(),
        ensures
            r is Ok,
            final(self).emitted(*old(self), w_bl(*target)),
    {
        let w = word_branch(target, true);
        self.emit(w);
        Ok(())
    }

    /// `BR target`.
    pub fn br<C>(&mut self, _ctx: &mut C, _cfg: AArch64Arch, target: &MemArgKind) -> (r: Result<(), Infallible>)
        requires
            old(self).wf(),
        ensures
            r is Ok,
            final(self).emitted(*old(self), w_br(*target)),
    {
        let rn = to_reg(target);
        self.emit(0xD61F_0000 | (rn << 5));
        Ok(())
    }

    /// `B` to a literal byte offset, or `BR` to a register.
    pub fn b<C>(&mut self, _ctx: &mut C, _cfg: AArch64Arch, target: &MemArgKind) -> (r: Result<(), Infallible>)
        requires
            old(self).wf(),
        ensures
            r is Ok,
            final(self).emitted(*old(self), w_b(*target)),
    {
        let w = word_branch(target, false);
        self.emit(w);
        Ok(())
    }

    /// `B.cond` to a literal byte offset.
    pub fn bcond<C>(&mut self, _ctx: &mut C, _cfg: AArch64Arch, cond: ConditionCode, target: &MemArgKind) -> (r: Result<(), Infallible>)
        requires
            old(self).wf(),
        ensures
            r is Ok,
            final(self).emitted(*old(self), w_bcond(cond, *target)),
    {
        let w = word_bcond(cond, target);
        self.emit(w);
        Ok(())
    }

    /// `ADR dest, #src` with a literal byte offset.
    pub fn adr<C>(&mut self, _ctx: &mut C, _cfg: AArch64Arch, dest: &MemArgKind, src: &MemArgKind) -> (r: Result<(), Infallible>)
        requires
            old(self).wf(),
        ensures
            r is Ok,
            final(self).emitted(*old(self), w_adr(*dest, *src)),
    {
        let w = word_adr(dest, src);
        self.emit(w);
        Ok(())
    }

    /// `MRS dest, NZCV`.
    pub fn mrs_nzcv<C>(&mut self, _ctx: &mut C, _cfg: AArch64Arch, dest: &MemArgKind) -> (r: Result<(), Infallible>)
        requires
            old(self).wf(),
        ensures
            r is Ok,
            final(self).emitted(*old(self), w_mrs_nzcv(*dest)),
    {
        let rd = to_reg(dest);
        self.emit(0xD53B_4200 | rd);
        Ok(())
    }

    /// `MSR NZCV, src`.
    pub fn msr_nzcv<C>(&mut self, _ctx: &mut C, _cfg: AArch64Arch, src: &MemArgKind) -> (r: Result<(), Infallible>)
        requires
            old(self).wf(),
        ensures
            r is Ok,
            final(self).emitted(*old(self), w_msr_nzcv(*src)),
    {
        let rn = to_reg(src);
        self.emit(0xD51B_4200 | rn);
        Ok(())
    }

    /// `FADD dest, a, b` (double precision).
    pub fn fadd<C>(&mut self, _ctx: &mut C, _cfg: AArch64Arch, dest: &MemArgKind, a: &MemArgKind, b: &MemArgKind) -> (r: Result<(), Infallible>)
        requires
            old(self).wf(),
        ensures
            r is Ok,
            final(self).emitted(*old(self), w_rrr(opc_fadd(), *dest, *a, *b)),
    {
        let w = word_rrr(0x1E60_2800, dest, a, b);
        self.emit(w);
        Ok(())
    }

    /// `FSUB dest, a, b` (double precision).
    pub fn fsub<C>(&mut self, _ctx: &mut C, _cfg: AArch64Arch, dest: &MemArgKind, a: &MemArgKind, b: &MemArgKind) -> (r: Result<(), Infallible>)
        requires
            old(self).wf(),
        ensures
            r is Ok,
            final(self).emitted(*old(self), w_rrr(opc_fsub(), *dest, *a, *b)),
    {
        let w = word_rrr(0x1E60_3800, dest, a, b);
        self.emit(w);
        Ok(())
    }

    /// `FMUL dest, a, b` (double precision).
    pub fn fmul<C>(&mut self, _ctx: &mut C, _cfg: AArch64Arch, dest: &MemArgKind, a: &MemArgKind, b: &MemArgKind) -> (r: Result<(), Infallible>)
        requires
            old(self).wf(),
        ensures
            r is Ok,
            final(self).emitted(*old(self), w_rrr(opc_fmul(), *dest, *a, *b)),
    {
        let w = word_rrr(0x1E60_0800, dest, a, b);
        self.emit(w);
        Ok(())
    }

    /// `FDIV dest, a, b` (double precision).
    pub fn fdiv<C>(&mut self, _ctx: &mut C, _cfg: AArch64Arch, dest: &MemArgKind, a: &MemArgKind, b: &MemArgKind) -> (r: Result<(), Infallible>)
        requires
            old(self).wf(),
        ensures
            r is Ok,
            final(self).emitted(*old(self), w_rrr(opc_fdiv(), *dest, *a, *b)),
    {
        let w = word_rrr(0x1E60_1800, dest, a, b);
        self.emit(w);
        Ok(())
    }

    /// `FMOV dest, src` (double precision).
    pub fn fmov<C>(&mut self, _ctx: &mut C, _cfg: AArch64Arch, dest: &MemArgKind, src: &MemArgKind) -> (r: Result<(), Infallible>)
        requires
            old(self).wf(),
        ensures
            r is Ok,
            final(self).emitted(*old(self), w_fmov(*dest, *src)),
    {
        let fd = to_reg(dest);
        let fs = to_reg(src);
        self.emit(0x1E60_4000 | (fs << 5) | fd);
        Ok(())
    }
}


impl<L: Ord> AArch64Writer<L> {
    /// `self` is `before` after a reference of the given kind to `label`:
    /// to a label already set, the resolved instruction; otherwise a
    /// placeholder, recorded as pending.
    pub open spec fn referenced(self, before: Self, label: L, kind: AArch64FixupKind) -> bool {
        let off = before.bytes().len() as usize;
        &&& self.wf()
        &&& self.labels() == before.labels()
        &&& if before.labels().contains_key(label) {
            &&& self.bytes() == before.bytes() + le_bytes(
                fixup_word(kind, rel(before.labels()[label], off)),
            )
            &&& self.pending() == before.pending()
        } else {
            &&& self.bytes() == before.bytes() + le_bytes(placeholder_word(kind))
            &&& self.pending() == before.pending().push(
                (AArch64Fixup { instr_offset: off, label, kind }),
            )
        }
    }

    fn emit_ref(&mut self, label: L, kind: AArch64FixupKind)
        requires
            old(self).wf(),
            lawful_label::<L>(),
        ensures
            final(self).referenced(*old(self), label, kind),
    {
        let instr_offset = self.buf.len();
        match self.labels.get(&label) {
            Some(target) => {
                let delta = rel_exec(*target, instr_offset);
                let w = fixup_word_exec(kind, delta);
                self.emit(w);
            },
            None => {
                let w = fixup_word_exec(kind, 0);
                self.emit(w);
                self.pending_fixups.push(AArch64Fixup { instr_offset, label, kind });
                assert(self.wf());
            },
        }
    }

    /// `self` is `before` after label `s` is set at the end of its bytes:
    /// each pending reference to `s` is patched to refer to that offset and
    /// dropped from the pending list.
    pub open spec fn label_set(self, before: Self, s: L) -> bool {
        let target = before.bytes().len() as usize;
        &&& self.wf()
        &&& self.bytes().len() == before.bytes().len()
        &&& self.bytes() == patch_all(before.bytes(), before.pending(), s, target)
        &&& self.labels() == before.labels().insert(s, target)
        &&& self.pending() == keep_other(before.pending(), s)
        &&& forall|k: int|
            0 <= k < before.pending().len() && before.pending()[k].label == s
                ==> #[trigger] self.bytes().subrange(
                before.pending()[k].instr_offset as int,
                before.pending()[k].instr_offset + 4,
            ) == le_bytes(
                fixup_word(before.pending()[k].kind, rel(target, before.pending()[k].instr_offset)),
            )
    }

    /// Define `s` at the current offset, patching every pending reference
    /// to it.
    pub fn set_label<C>(&mut self, _ctx: &mut C, _cfg: AArch64Arch, s: L) -> (r: Result<(), Infallible>)
        requires
            old(self).wf(),
            lawful_label::<L>(),
        ensures
            r is Ok,
            final(self).label_set(*old(self), s),
    {
        let target = self.buf.len();
        let ghost orig = self.pending_fixups@;
        let ghost bytes0 = self.buf@;
        let ghost mut j: int = 0;
        let mut i: usize = 0;
        proof {
            reveal(obeys_concrete_eq);
            assert(orig.take(0) =~= Seq::<AArch64Fixup<L>>::empty());
            assert(orig.skip(0) =~= orig);
            assert(keep_other(orig.take(0), s) + orig.skip(0) =~= orig);
        }
        while i < self.pending_fixups.len()
            invariant
                lawful_label::<L>(),
                0 <= j <= orig.len(),
                target == bytes0.len(),
                spaced(orig, bytes0.len() as int),
                self.pending_fixups@ == keep_other(orig.take(j), s) + orig.skip(j),
                i == keep_other(orig.take(j), s).len(),
                self.buf@ == patch_all(bytes0, orig.take(j), s, target),
                self.labels@ == old(self).labels@,
            decreases orig.len() - j,
        {
            proof {
                reveal(obeys_concrete_eq);
                lemma_patch_len(bytes0, orig.take(j), s, target);
                assert(orig.take(j + 1).drop_last() =~= orig.take(j));
                assert(orig.take(j + 1).last() == orig[j]);
                assert(orig.skip(j)[0] == orig[j]);
            }
            if self.pending_fixups[i].label == s {
                let fix = self.pending_fixups.remove(i);
                fix.apply(&mut self.buf, target);
                proof {
                    assert(orig.skip(j).drop_first() =~= orig.skip(j + 1));
                    assert(self.pending_fixups@ =~= keep_other(orig.take(j + 1), s) + orig.skip(j + 1));
                    j = j + 1;
                }
            } else {
                i = i + 1;
                proof {
                    assert(keep_other(orig.take(j + 1), s) == keep_other(orig.take(j), s).push(orig[j]));
                    assert(self.pending_fixups@ =~= keep_other(orig.take(j + 1), s) + orig.skip(j + 1));
                    j = j + 1;
                }
            }
        }
        proof {
            assert(orig.take(j) =~= orig);
            assert(orig.skip(j) =~= Seq::<AArch64Fixup<L>>::empty());
            assert(self.pending_fixups@ =~= keep_other(orig, s));
            lemma_patch_len(bytes0, orig, s, target);
            lemma_patch_at(bytes0, orig, s, target);
            lemma_keep_other(orig, s, bytes0.len() as int);
        }
        self.labels.insert(s, target);
        proof {
            let kept = keep_other(orig, s);
            assert forall|k: int| 0 <= k < kept.len() implies !self.labels@.contains_key(#[trigger] kept[k].label) by {
                assert(kept[k] == keep_other(orig, s)[k]);
                let idx = choose|idx: int| 0 <= idx < orig.len() && orig[idx] == kept[k];
                assert(!old(self).labels@.contains_key(orig[idx].label));
            }
        }
        Ok(())
    }

    /// `ADR dest, label`.
    pub fn adr_label<C>(&mut self, _ctx: &mut C, _cfg: AArch64Arch, dest: &MemArgKind, label: L) -> (r: Result<(), Infallible>)
        requires
            old(self).wf(),
            lawful_label::<L>(),
        ensures
            r is Ok,
            final(self).referenced(*old(self), label, AArch64FixupKind::Adr { rd: reg_of(*dest) }),
    {
        let rd = to_reg(dest);
        self.emit_ref(label, AArch64FixupKind::Adr { rd });
        Ok(())
    }

    /// `B label`.
    pub fn b_label<C>(&mut self, _ctx: &mut C, _cfg: AArch64Arch, label: L) -> (r: Result<(), Infallible>)
        requires
            old(self).wf(),
            lawful_label::<L>(),
        ensures
            r is Ok,
            final(self).referenced(*old(self), label, AArch64FixupKind::B),
    {
        self.emit_ref(label, AArch64FixupKind::B);
        Ok(())
    }

    /// `B.cond label`.
    pub fn bcond_label<C>(&mut self, _ctx: &mut C, _cfg: AArch64Arch, cond: ConditionCode, label: L) -> (r: Result<(), Infallible>)
        requires
            old(self).wf(),
            lawful_label::<L>(),
        ensures
            r is Ok,
            final(self).referenced(*old(self), label, AArch64FixupKind::BCond { cond }),
    {
        self.emit_ref(label, AArch64FixupKind::BCond { cond });
        Ok(())
    }

    /// `BL label`.
    pub fn bl_label<C>(&mut self, _ctx: &mut C, _cfg: AArch64Arch, label: L) -> (r: Result<(), Infallible>)
        requires
            old(self).wf(),
            lawful_label::<L>(),
        ensures
            r is Ok,
            final(self).referenced(*old(self), label, AArch64FixupKind::Bl),
    {
        self.emit_ref(label, AArch64FixupKind::Bl);
        Ok(())
    }
}

/// A reference to a label that is not yet defined, once the label is set
/// right after it, holds the same instruction as a reference made after
/// the label: the one for the distance from the reference to the label.
pub proof fn law_forward_reference_resolves<L: Ord>(
    w0: AArch64Writer<L>,
    w1: AArch64Writer<L>,
    w2: AArch64Writer<L>,
    label: L,
    kind: AArch64FixupKind,
)
    requires
        w0.wf(),
        !w0.labels().contains_key(label),
        w1.referenced(w0, label, kind),
        w2.label_set(w1, label),
    ensures
        w2.labels()[label] == w1.bytes().len() as usize,
        ({
            let off = w0.bytes().len() as usize;
            w2.bytes().subrange(off as int, off + 4) == le_bytes(
                fixup_word(kind, rel(w2.labels()[label], off)),
            )
        }),
{
    let k = w1.pending().len() - 1;
    assert(w1.pending()[k].label == label);
    assert(w2.bytes().subrange(w1.pending()[k].instr_offset as int, w1.pending()[k].instr_offset + 4)
        == le_bytes(fixup_word(w1.pending()[k].kind, rel(w1.bytes().len() as usize, w1.pending()[k].instr_offset))));
}

/// A reference to a label that is not yet defined, with any instructions
/// emitted after it, once the label is set holds the instruction for the
/// distance from the reference to the label's offset: the writer's offset
/// when the label is set.
pub proof fn law_forward_reference_resolves_later<L: Ord>(
    w0: AArch64Writer<L>,
    w1: AArch64Writer<L>,
    w2: AArch64Writer<L>,
    w3: AArch64Writer<L>,
    ws: Seq<u32>,
    label: L,
    kind: AArch64FixupKind,
)
    requires
        w0.wf(),
        !w0.labels().contains_key(label),
        w1.referenced(w0, label, kind),
        w2.emitted_all(w1, ws),
        w3.label_set(w2, label),
    ensures
        w3.labels()[label] == w2.bytes().len() as usize,
        w3.bytes().len() == w2.bytes().len(),
        ({
            let off = w0.bytes().len() as usize;
            w3.bytes().subrange(off as int, off + 4) == le_bytes(fixup_word(kind, rel(w3.labels()[label], off)))
        }),
{
    let k = w1.pending().len() - 1;
    assert(w2.pending()[k].label == label);
    assert(w3.bytes().subrange(w2.pending()[k].instr_offset as int, w2.pending()[k].instr_offset + 4)
        == le_bytes(fixup_word(w2.pending()[k].kind, rel(w2.bytes().len() as usize, w2.pending()[k].instr_offset))));
}

impl<L> Default for AArch64Writer<L> {
    fn default() -> (w: Self)
        ensures
            w.wf(),
            w.bytes() == Seq::<u8>::empty(),
            w.labels() == Map::<L, usize>::empty(),
            w.pending() == Seq::<AArch64Fixup<L>>::empty(),
    {
        Self::new()
    }
}


proof fn lemma_patch_none<L>(bytes: Seq<u8>, fs: Seq<AArch64Fixup<L>>, s: L, target: usize)
    requires
        forall|k: int| 0 <= k < fs.len() ==> #[trigger] fs[k].label != s,
    ensures
        patch_all(bytes, fs, s, target) == bytes,
        keep_other(fs, s) == fs,
    decreases fs.len(),
{
    if fs.len() > 0 {
        assert forall|k: int| 0 <= k < fs.drop_last().len() implies #[trigger] fs.drop_last()[k].label != s by {
            assert(fs.drop_last()[k] == fs[k]);
        }
        lemma_patch_none(bytes, fs.drop_last(), s, target);
        assert(fs.last().label != s);
        assert(fs.drop_last().push(fs.last()) =~= fs);
    }
}

impl<L: Ord> AArch64Writer<L> {
    /// Setting a label that no pending reference names changes no byte and
    /// no pending reference.
    pub proof fn lemma_set_unreferenced(w0: Self, w1: Self, s: L)
        requires
            w1.label_set(w0, s),
            forall|k: int| 0 <= k < w0.pending().len() ==> #[trigger] w0.pending()[k].label != s,
        ensures
            w1.bytes() == w0.bytes(),
            w1.pending() == w0.pending(),
    {
        lemma_patch_none(w0.bytes(), w0.pending(), s, w0.bytes().len() as usize);
    }

    /// Setting a label that only the last pending reference names patches
    /// exactly that reference's word and drops it from the pending list.
    pub proof fn lemma_set_last_referenced(w0: Self, w1: Self, s: L)
        requires
            w1.label_set(w0, s),
            w0.pending().len() > 0,
            w0.pending().last().label == s,
            forall|k: int| 0 <= k < w0.pending().len() - 1 ==> #[trigger] w0.pending()[k].label != s,
        ensures
            ({
                let f = w0.pending().last();
                w1.bytes() == put_word(
                    w0.bytes(),
                    f.instr_offset as int,
                    fixup_word(f.kind, rel(w0.bytes().len() as usize, f.instr_offset)),
                )
            }),
            w1.pending() == w0.pending().drop_last(),
    {
        let fs = w0.pending();
        assert forall|k: int| 0 <= k < fs.drop_last().len() implies #[trigger] fs.drop_last()[k].label != s by {
            assert(fs.drop_last()[k] == fs[k]);
        }
        lemma_patch_none(w0.bytes(), fs.drop_last(), s, w0.bytes().len() as usize);
    }
}

} // verus!
