//! What the encoded words mean: the fields a processor reads back from
//! them, and the laws that the encoder puts each operand where it is read.

use vstd::prelude::*;
use crate::aarch64::{ConditionCode, cond_bits};
use crate::aarch64::encode::{
    adr_to, b_to, bcond_to, bl_to, lit_of, mov_imm_words, opc_and, opc_eor, opc_fadd, opc_fdiv, opc_fmul, opc_fsub,
    opc_mul, opc_orr, opc_sdiv, opc_udiv, reg_of, rrr, size_of, tdiv, w_add, w_bcond, w_csel, w_ldst, w_movk, w_movz,
    w_rrr, w_shift, w_sub, base_disp_mode, ShiftKind,
};
use crate::aarch64::arg::{AddressingMode, MemArgKind};
use crate::common::{size_bytes, MemorySize};

verus! {

// ── move-wide (MOVZ / MOVK) ─────────────────────────────────────────────────

/// The word is a 64-bit move-wide instruction (`MOVN`, `MOVZ` or `MOVK`).
pub open spec fn is_mov_wide64(w: u32) -> bool {
    (w >> 31) == 1 && ((w >> 23) & 0x3F) == 0x25
}

/// The destination register field (bits 0..5).
pub open spec fn rd_field(w: u32) -> u32 {
    w & 0x1F
}

/// The value a 64-bit register holds after a `MOVZ` or `MOVK` word runs,
/// given the value it held before; other words leave it unchanged.
pub open spec fn run_mov_wide(prev: u64, w: u32) -> u64 {
    let opc = (w >> 29) & 3;
    let shift = (((w >> 21) & 3) * 16) as u64;
    let imm = ((w >> 5) & 0xFFFF) as u64;
    if !is_mov_wide64(w) {
        prev
    } else if opc == 2 {
        imm << shift
    } else if opc == 3 {
        (prev & !(0xFFFFu64 << shift)) | (imm << shift)
    } else {
        prev
    }
}

/// The value a register holds after the words `ws` run in order.
pub open spec fn run_mov_wides(ws: Seq<u32>, init: u64) -> u64
    decreases ws.len(),
{
    if ws.len() == 0 {
        init
    } else {
        run_mov_wide(run_mov_wides(ws.drop_last(), init), ws.last())
    }
}

proof fn lemma_movz_runs(rd: u32, hw: u32, imm: u64, prev: u64)
    requires
        rd < 32,
        hw < 4,
    ensures
        is_mov_wide64(w_movz(rd, hw, imm)),
        rd_field(w_movz(rd, hw, imm)) == rd,
        run_mov_wide(prev, w_movz(rd, hw, imm)) == (imm & 0xFFFF) << ((hw * 16) as u64),
{
    let w = w_movz(rd, hw, imm);
    assert((w >> 31) == 1 && ((w >> 23) & 0x3F) == 0x25 && w & 0x1F == rd && (w >> 29) & 3 == 2
        && (w >> 21) & 3 == hw && ((w >> 5) & 0xFFFF) as u64 == imm & 0xFFFF) by (bit_vector)
        requires
            w == (0xD280_0000u32 | (hw << 21)) | (((imm & 0xFFFF) as u32) << 5) | rd,
            rd < 32,
            hw < 4,
    ;
}

proof fn lemma_movk_runs(rd: u32, hw: u32, imm: u64, prev: u64)
    requires
        rd < 32,
        hw < 4,
    ensures
        is_mov_wide64(w_movk(rd, hw, imm)),
        rd_field(w_movk(rd, hw, imm)) == rd,
        run_mov_wide(prev, w_movk(rd, hw, imm)) == (prev & !(0xFFFFu64 << ((hw * 16) as u64))) | ((
        imm & 0xFFFF) << ((hw * 16) as u64)),
{
    let w = w_movk(rd, hw, imm);
    assert((w >> 31) == 1 && ((w >> 23) & 0x3F) == 0x25 && w & 0x1F == rd && (w >> 29) & 3 == 3
        && (w >> 21) & 3 == hw && ((w >> 5) & 0xFFFF) as u64 == imm & 0xFFFF) by (bit_vector)
        requires
            w == (0xF280_0000u32 | (hw << 21)) | (((imm & 0xFFFF) as u32) << 5) | rd,
            rd < 32,
            hw < 4,
    ;
}

/// The words that `mov_imm` emits load exactly the literal into the
/// destination register, whatever it held before, and write no other
/// register.
pub proof fn law_mov_imm_loads_value(rd: u32, val: u64, init: u64)
    requires
        rd < 32,
    ensures
        forall|i: int|
            0 <= i < mov_imm_words(rd, val).len() ==> is_mov_wide64(#[trigger] mov_imm_words(rd, val)[i])
                && rd_field(mov_imm_words(rd, val)[i]) == rd,
        run_mov_wides(mov_imm_words(rd, val), init) == val,
{
    let ws = mov_imm_words(rd, val);
    let w0 = w_movz(rd, 0, val);
    let w1 = w_movk(rd, 1, val >> 16);
    let w2 = w_movk(rd, 2, val >> 32);
    let w3 = w_movk(rd, 3, val >> 48);
    lemma_movz_runs(rd, 0, val, init);
    let v0 = run_mov_wide(init, w0);
    assert(v0 == val & 0xFFFF) by (bit_vector)
        requires
            v0 == (val & 0xFFFF) << ((0u32 * 16) as u64),
    ;
    let s0 = seq![w0];
    assert(s0.drop_last() =~= Seq::<u32>::empty());
    assert(run_mov_wides(s0.drop_last(), init) == init);
    assert(s0.last() == w0);
    assert(run_mov_wides(s0, init) == v0);
    if val <= 0xFFFF {
        assert(ws =~= s0);
        assert(v0 == val) by (bit_vector)
            requires
                v0 == val & 0xFFFF,
                val <= 0xFFFF,
        ;
    } else {
        lemma_movk_runs(rd, 1, val >> 16, v0);
        let v1 = run_mov_wide(v0, w1);
        assert(v1 == val & 0xFFFF_FFFF) by (bit_vector)
            requires
                v0 == val & 0xFFFF,
                v1 == (v0 & !(0xFFFFu64 << ((1u32 * 16) as u64))) | (((val >> 16) & 0xFFFF) << ((1u32
                    * 16) as u64)),
        ;
        let s1 = s0.push(w1);
        assert(s1.drop_last() =~= s0);
        assert(run_mov_wides(s1, init) == v1);
        if val <= 0xFFFF_FFFF {
            assert(ws =~= s1);
            assert(v1 == val) by (bit_vector)
                requires
                    v1 == val & 0xFFFF_FFFF,
                    val <= 0xFFFF_FFFF,
            ;
        } else {
            lemma_movk_runs(rd, 2, val >> 32, v1);
            let v2 = run_mov_wide(v1, w2);
            assert(v2 == val & 0xFFFF_FFFF_FFFF) by (bit_vector)
                requires
                    v1 == val & 0xFFFF_FFFF,
                    v2 == (v1 & !(0xFFFFu64 << ((2u32 * 16) as u64))) | (((val >> 32) & 0xFFFF) << ((
                    2u32 * 16) as u64)),
            ;
            let s2 = s1.push(w2);
            assert(s2.drop_last() =~= s1);
            assert(run_mov_wides(s2, init) == v2);
            if val <= 0xFFFF_FFFF_FFFF {
                assert(ws =~= s2);
                assert(v2 == val) by (bit_vector)
                    requires
                        v2 == val & 0xFFFF_FFFF_FFFF,
                        val <= 0xFFFF_FFFF_FFFF,
                ;
            } else {
                lemma_movk_runs(rd, 3, val >> 48, v2);
                let v3 = run_mov_wide(v2, w3);
                assert(v3 == val) by (bit_vector)
                    requires
                        v2 == val & 0xFFFF_FFFF_FFFF,
                        v3 == (v2 & !(0xFFFFu64 << ((3u32 * 16) as u64))) | (((val >> 48) & 0xFFFF)
                            << ((3u32 * 16) as u64)),
                ;
                let s3 = s2.push(w3);
                assert(s3.drop_last() =~= s2);
                assert(ws =~= s3);
            }
        }
    }
}

// ── PC-relative immediates ──────────────────────────────────────────────────

/// The byte offset a `B` or `BL` word branches by: its 26-bit immediate,
/// sign-extended, times four.
pub open spec fn b_offset(w: u32) -> int {
    (((((w & 0x3FF_FFFF) << 6) as i32) >> 6) as int) * 4
}

/// The byte offset a `B.cond` word branches by: its 19-bit immediate
/// (bits 5..24), sign-extended, times four.
pub open spec fn bcond_offset(w: u32) -> int {
    ((((((w >> 5) & 0x7_FFFF) << 13) as i32) >> 13) as int) * 4
}

/// The byte offset an `ADR` word adds to the PC: `immhi:immlo`,
/// sign-extended from 21 bits.
pub open spec fn adr_offset(w: u32) -> int {
    (((((((w >> 5) & 0x7_FFFF) << 2) | ((w >> 29) & 3)) << 11) as i32) >> 11) as int
}

proof fn lemma_quarter(delta: i32) -> (q: i32)
    requires
        delta % 4 == 0,
    ensures
        tdiv(delta as int, 4) == q,
        delta == 4 * q,
{
    let q = (delta as int / 4) as i32;
    assert(delta == 4 * q);
    q
}

/// A branch to a byte distance that is a multiple of four and within
/// ±128 MiB branches by exactly that distance: `B` and `BL` keep their
/// opcodes and their immediates read back as the distance.
pub proof fn law_branch_offset_round_trip(delta: i32)
    requires
        delta % 4 == 0,
        -0x800_0000 <= delta < 0x800_0000,
    ensures
        b_offset(b_to(delta)) == delta,
        b_offset(bl_to(delta)) == delta,
        b_to(delta) >> 26 == 0x05,
        bl_to(delta) >> 26 == 0x25,
{
    let q = lemma_quarter(delta);
    let wb = b_to(delta);
    let wl = bl_to(delta);
    assert(wb == 0x1400_0000u32 | ((q as u32) & 0x3FF_FFFF));
    assert(wl == 0x9400_0000u32 | ((q as u32) & 0x3FF_FFFF));
    assert((((((wb & 0x3FF_FFFF) << 6) as i32) >> 6) == q) && (((((wl & 0x3FF_FFFF) << 6) as i32)
        >> 6) == q) && wb >> 26 == 0x05 && wl >> 26 == 0x25) by (bit_vector)
        requires
            wb == 0x1400_0000u32 | ((q as u32) & 0x3FF_FFFF),
            wl == 0x9400_0000u32 | ((q as u32) & 0x3FF_FFFF),
            -0x200_0000 <= q < 0x200_0000,
    ;
}

/// A conditional branch to a byte distance that is a multiple of four and
/// within ±1 MiB branches by exactly that distance, under its condition.
pub proof fn law_bcond_offset_round_trip(cond: ConditionCode, delta: i32)
    requires
        delta % 4 == 0,
        -0x10_0000 <= delta < 0x10_0000,
    ensures
        bcond_offset(bcond_to(cond, delta)) == delta,
        bcond_to(cond, delta) & 0xF == cond_bits(cond),
        bcond_to(cond, delta) >> 24 == 0x54,
{
    let q = lemma_quarter(delta);
    let c = cond_bits(cond);
    let w = bcond_to(cond, delta);
    assert(w == 0x5400_0000u32 | (((q as u32) & 0x7_FFFF) << 5) | c);
    assert(((((((w >> 5) & 0x7_FFFF) << 13) as i32) >> 13) == q) && w & 0xF == c && w >> 24 == 0x54)
        by (bit_vector)
        requires
            w == 0x5400_0000u32 | (((q as u32) & 0x7_FFFF) << 5) | c,
            c < 16,
            -0x4_0000 <= q < 0x4_0000,
    ;
}

/// An `ADR` to a byte distance within ±1 MiB adds exactly that distance,
/// into its destination register.
pub proof fn law_adr_offset_round_trip(rd: u32, delta: i32)
    requires
        rd < 32,
        -0x10_0000 <= delta < 0x10_0000,
    ensures
        adr_offset(adr_to(rd, delta)) == delta,
        adr_to(rd, delta) & 0x1F == rd,
        adr_to(rd, delta) & 0x9F00_0000 == 0x1000_0000,
{
    let w = adr_to(rd, delta);
    let imm21 = delta as u32;
    assert(w == 0x1000_0000u32 | ((imm21 & 0x3) << 29) | (((imm21 >> 2) & 0x7_FFFF) << 5) | rd);
    assert(((((((((w >> 5) & 0x7_FFFF) << 2) | ((w >> 29) & 3)) << 11) as i32) >> 11) == delta)
        && w & 0x1F == rd && w & 0x9F00_0000 == 0x1000_0000) by (bit_vector)
        requires
            w == 0x1000_0000u32 | ((imm21 & 0x3) << 29) | (((imm21 >> 2) & 0x7_FFFF) << 5) | rd,
            imm21 == delta as u32,
            rd < 32,
            -0x10_0000 <= delta < 0x10_0000,
    ;
}


// ── three-register data processing ──────────────────────────────────────────

/// The operations of the three-register data-processing words: 64-bit
/// integer ones and double-precision floating-point ones.
#[derive(Clone, Copy, PartialEq, Eq, Debug, Structural)]
pub enum A64Op {
    Add,
    Sub,
    And,
    Orr,
    Eor,
    Mul,
    Udiv,
    Sdiv,
    Lslv,
    Lsrv,
    Asrv,
    Fadd,
    Fsub,
    Fmul,
    Fdiv,
}

/// The first source register field (bits 5..10).
pub open spec fn rn_field(w: u32) -> u32 {
    (w >> 5) & 0x1F
}

/// The second source register field (bits 16..21).
pub open spec fn rm_field(w: u32) -> u32 {
    (w >> 16) & 0x1F
}

/// The operation a three-register word performs, read from the bits the
/// architecture fixes for it (register fields masked off, shift amount and
/// shift type zero); `None` for any other word.  `ADD`/`SUB`/`AND`/`ORR`/
/// `EOR` are the shifted-register forms, `MUL` is `MADD` with `XZR`, the
/// variable shifts are `LSLV`/`LSRV`/`ASRV`.
pub open spec fn rrr_op(w: u32) -> Option<A64Op> {
    let k = w & 0xFFE0_FC00;
    if k == 0x8B00_0000 {
        Some(A64Op::Add)
    } else if k == 0xCB00_0000 {
        Some(A64Op::Sub)
    } else if k == 0x8A00_0000 {
        Some(A64Op::And)
    } else if k == 0xAA00_0000 {
        Some(A64Op::Orr)
    } else if k == 0xCA00_0000 {
        Some(A64Op::Eor)
    } else if k == 0x9B00_7C00 {
        Some(A64Op::Mul)
    } else if k == 0x9AC0_0800 {
        Some(A64Op::Udiv)
    } else if k == 0x9AC0_0C00 {
        Some(A64Op::Sdiv)
    } else if k == 0x9AC0_2000 {
        Some(A64Op::Lslv)
    } else if k == 0x9AC0_2400 {
        Some(A64Op::Lsrv)
    } else if k == 0x9AC0_2800 {
        Some(A64Op::Asrv)
    } else if k == 0x1E60_2800 {
        Some(A64Op::Fadd)
    } else if k == 0x1E60_3800 {
        Some(A64Op::Fsub)
    } else if k == 0x1E60_0800 {
        Some(A64Op::Fmul)
    } else if k == 0x1E60_1800 {
        Some(A64Op::Fdiv)
    } else {
        None
    }
}

/// What a 64-bit integer operation leaves in the destination for source
/// values `x` (from `Rn`) and `y` (from `Rm`): arithmetic wraps modulo
/// 2^64, an unsigned division by zero gives zero, a variable shift uses the
/// amount modulo 64.  `None` for the operations not described here.
pub open spec fn int_result(op: A64Op, x: u64, y: u64) -> Option<u64> {
    let m: int = 0x1_0000_0000_0000_0000;
    match op {
        A64Op::Add => Some(((x + y) % m) as u64),
        A64Op::Sub => Some(((x - y) % m) as u64),
        A64Op::And => Some(x & y),
        A64Op::Orr => Some(x | y),
        A64Op::Eor => Some(x ^ y),
        A64Op::Mul => Some(((x * y) % m) as u64),
        A64Op::Udiv => Some(if y == 0 { 0 } else { x / y }),
        A64Op::Lslv => Some(x << (y % 64)),
        A64Op::Lsrv => Some(x >> (y % 64)),
        _ => None,
    }
}

/// What a three-register word leaves in its destination for source values
/// `x` and `y`, by the operation it decodes to.
pub open spec fn rrr_result(w: u32, x: u64, y: u64) -> Option<u64> {
    match rrr_op(w) {
        Some(op) => int_result(op, x, y),
        None => None,
    }
}

/// The three fields of a three-register word, and its fixed bits.
proof fn lemma_rrr_fields(opc: u32, rd: u32, rn: u32, rm: u32)
    requires
        opc == 0x8B00_0000 || opc == 0xCB00_0000 || opc == 0x8A00_0000 || opc == 0xAA00_0000
            || opc == 0xCA00_0000 || opc == 0x9B00_7C00 || opc == 0x9AC0_0800 || opc == 0x9AC0_0C00
            || opc == 0x9AC0_2000 || opc == 0x9AC0_2400 || opc == 0x9AC0_2800 || opc == 0x1E60_2800
            || opc == 0x1E60_3800 || opc == 0x1E60_0800 || opc == 0x1E60_1800,
        rd < 32,
        rn < 32,
        rm < 32,
    ensures
        rrr(opc, rd, rn, rm) & 0xFFE0_FC00 == opc,
        rd_field(rrr(opc, rd, rn, rm)) == rd,
        rn_field(rrr(opc, rd, rn, rm)) == rn,
        rm_field(rrr(opc, rd, rn, rm)) == rm,
{
    let w = rrr(opc, rd, rn, rm);
    assert(w & 0xFFE0_FC00 == opc && w & 0x1F == rd && (w >> 5) & 0x1F == rn && (w >> 16) & 0x1F == rm)
        by (bit_vector)
        requires
            w == opc | (rm << 16) | (rn << 5) | rd,
            opc == 0x8B00_0000 || opc == 0xCB00_0000 || opc == 0x8A00_0000 || opc == 0xAA00_0000
            || opc == 0xCA00_0000 || opc == 0x9B00_7C00 || opc == 0x9AC0_0800 || opc == 0x9AC0_0C00
            || opc == 0x9AC0_2000 || opc == 0x9AC0_2400 || opc == 0x9AC0_2800 || opc == 0x1E60_2800
            || opc == 0x1E60_3800 || opc == 0x1E60_0800 || opc == 0x1E60_1800,
            rd < 32,
            rn < 32,
            rm < 32,
    ;
}

/// Register operands whose numbers fit the 5-bit register fields.
pub open spec fn regs_fit(d: MemArgKind, a: MemArgKind, b: MemArgKind) -> bool {
    reg_of(d) < 32 && reg_of(a) < 32 && reg_of(b) < 32
}

/// The word reads `Rn` from `a`, `Rm` from `b` and writes `Rd` of `d`.
pub open spec fn fields_are(w: u32, d: MemArgKind, a: MemArgKind, b: MemArgKind) -> bool {
    &&& rd_field(w) == reg_of(d)
    &&& rn_field(w) == reg_of(a)
    &&& rm_field(w) == reg_of(b)
}

/// The logical words that the writer's `and`, `orr` and `eor` emit compute
/// the bitwise AND, OR and exclusive OR of their two source registers into
/// their destination, and name the registers they were given.
pub proof fn law_logical_words(d: MemArgKind, a: MemArgKind, b: MemArgKind, x: u64, y: u64)
    requires
        regs_fit(d, a, b),
    ensures
        rrr_result(w_rrr(opc_and(), d, a, b), x, y) == Some(x & y),
        rrr_result(w_rrr(opc_orr(), d, a, b), x, y) == Some(x | y),
        rrr_result(w_rrr(opc_eor(), d, a, b), x, y) == Some(x ^ y),
        rrr_op(w_rrr(opc_and(), d, a, b)) == Some(A64Op::And),
        rrr_op(w_rrr(opc_orr(), d, a, b)) == Some(A64Op::Orr),
        rrr_op(w_rrr(opc_eor(), d, a, b)) == Some(A64Op::Eor),
        fields_are(w_rrr(opc_and(), d, a, b), d, a, b),
        fields_are(w_rrr(opc_orr(), d, a, b), d, a, b),
        fields_are(w_rrr(opc_eor(), d, a, b), d, a, b),
{

    lemma_rrr_fields(opc_and(), reg_of(d), reg_of(a), reg_of(b));

    lemma_rrr_fields(opc_orr(), reg_of(d), reg_of(a), reg_of(b));

    lemma_rrr_fields(opc_eor(), reg_of(d), reg_of(a), reg_of(b));
}

/// The arithmetic words that the writer's `add`, `sub` (with a register
/// second operand), `mul`, `udiv`, `lsl` and `lsr` (with a register shift
/// amount) emit compute the wrapping sum, difference and product, the
/// unsigned quotient and the variable shifts of their sources, first source
/// first, and name the registers they were given; `sdiv`, `asr` and the
/// floating-point words decode to their operations with those registers.
pub proof fn law_arith_words(d: MemArgKind, a: MemArgKind, b: MemArgKind, x: u64, y: u64)
    requires
        regs_fit(d, a, b),
        lit_of(b) is None,
    ensures
        rrr_result(w_add(d, a, b), x, y) == Some(((x + y) % 0x1_0000_0000_0000_0000) as u64),
        rrr_result(w_sub(d, a, b), x, y) == Some(((x - y) % 0x1_0000_0000_0000_0000) as u64),
        rrr_result(w_rrr(opc_mul(), d, a, b), x, y) == Some(((x * y) % 0x1_0000_0000_0000_0000) as u64),
        rrr_result(w_rrr(opc_udiv(), d, a, b), x, y) == Some(if y == 0 { 0 } else { x / y }),
        rrr_result(w_shift(ShiftKind::Lsl, d, a, b), x, y) == Some(x << (y % 64)),
        rrr_result(w_shift(ShiftKind::Lsr, d, a, b), x, y) == Some(x >> (y % 64)),
        rrr_op(w_add(d, a, b)) == Some(A64Op::Add),
        rrr_op(w_sub(d, a, b)) == Some(A64Op::Sub),
        rrr_op(w_rrr(opc_mul(), d, a, b)) == Some(A64Op::Mul),
        rrr_op(w_rrr(opc_udiv(), d, a, b)) == Some(A64Op::Udiv),
        rrr_op(w_shift(ShiftKind::Lsl, d, a, b)) == Some(A64Op::Lslv),
        rrr_op(w_shift(ShiftKind::Lsr, d, a, b)) == Some(A64Op::Lsrv),
        rrr_op(w_rrr(opc_sdiv(), d, a, b)) == Some(A64Op::Sdiv),
        rrr_op(w_shift(ShiftKind::Asr, d, a, b)) == Some(A64Op::Asrv),
        rrr_op(w_rrr(opc_fadd(), d, a, b)) == Some(A64Op::Fadd),
        rrr_op(w_rrr(opc_fsub(), d, a, b)) == Some(A64Op::Fsub),
        rrr_op(w_rrr(opc_fmul(), d, a, b)) == Some(A64Op::Fmul),
        rrr_op(w_rrr(opc_fdiv(), d, a, b)) == Some(A64Op::Fdiv),
        fields_are(w_add(d, a, b), d, a, b),
        fields_are(w_sub(d, a, b), d, a, b),
        fields_are(w_rrr(opc_mul(), d, a, b), d, a, b),
        fields_are(w_rrr(opc_udiv(), d, a, b), d, a, b),
        fields_are(w_rrr(opc_sdiv(), d, a, b), d, a, b),
        fields_are(w_shift(ShiftKind::Lsl, d, a, b), d, a, b),
        fields_are(w_shift(ShiftKind::Lsr, d, a, b), d, a, b),
        fields_are(w_shift(ShiftKind::Asr, d, a, b), d, a, b),
        fields_are(w_rrr(opc_fadd(), d, a, b), d, a, b),
        fields_are(w_rrr(opc_fsub(), d, a, b), d, a, b),
        fields_are(w_rrr(opc_fmul(), d, a, b), d, a, b),
        fields_are(w_rrr(opc_fdiv(), d, a, b), d, a, b),
{
    let (rd, rn, rm) = (reg_of(d), reg_of(a), reg_of(b));

    lemma_rrr_fields(0x8B00_0000, rd, rn, rm);

    lemma_rrr_fields(0xCB00_0000, rd, rn, rm);

    lemma_rrr_fields(opc_mul(), rd, rn, rm);

    lemma_rrr_fields(opc_udiv(), rd, rn, rm);

    lemma_rrr_fields(opc_sdiv(), rd, rn, rm);

    lemma_rrr_fields(0x9AC0_2000, rd, rn, rm);

    lemma_rrr_fields(0x9AC0_2400, rd, rn, rm);

    lemma_rrr_fields(0x9AC0_2800, rd, rn, rm);

    lemma_rrr_fields(opc_fadd(), rd, rn, rm);

    lemma_rrr_fields(opc_fsub(), rd, rn, rm);

    lemma_rrr_fields(opc_fmul(), rd, rn, rm);

    lemma_rrr_fields(opc_fdiv(), rd, rn, rm);
}

// ── conditions ──────────────────────────────────────────────────────────────

/// Whether the condition in a 4-bit condition field holds for the flags
/// `N`, `Z`, `C`, `V`, as the architecture reads the field: its upper three
/// bits (`field / 2`) pick the test (`Z`; `C`; `N`; `V`; `C && !Z`; `N == V`; `N == V && !Z`;
/// always) and its low bit (`field % 2`) negates it, except in `0b1111`,
/// which also always holds.
pub open spec fn cond_field_holds(field: u32, n: bool, z: bool, c: bool, v: bool) -> bool {
    let base = match field / 2 {
        0 => z,
        1 => c,
        2 => n,
        3 => v,
        4 => c && !z,
        5 => n == v,
        6 => n == v && !z,
        _ => true,
    };
    if field % 2 == 1 && field != 15 {
        !base
    } else {
        base
    }
}

/// The word is a conditional branch (`B.cond`).
pub open spec fn is_bcond(w: u32) -> bool {
    w & 0xFF00_0010 == 0x5400_0000
}

/// The word is a 64-bit conditional select (`CSEL`).
pub open spec fn is_csel64(w: u32) -> bool {
    w & 0xFFE0_0C00 == 0x9A80_0000
}

/// The condition field of every condition tests exactly that condition:
/// for all flag values, the architecture's reading of `cond_bits(c)` holds
/// exactly when `c` does.  So the `B.cond` and `CSEL` words the writer
/// emits for `c` branch or select exactly when `c` holds.
pub proof fn law_condition_fields(
    c: ConditionCode,
    target: MemArgKind,
    d: MemArgKind,
    t: MemArgKind,
    f: MemArgKind,
    n: bool,
    z: bool,
    carry: bool,
    v: bool,
)
    requires
        regs_fit(d, t, f),
    ensures
        cond_field_holds(cond_bits(c), n, z, carry, v) == crate::aarch64::shim::a64_cond_holds(c, n, z, carry, v),
        is_bcond(w_bcond(c, target)),
        cond_field_holds(w_bcond(c, target) & 0xF, n, z, carry, v) == crate::aarch64::shim::a64_cond_holds(
            c,
            n,
            z,
            carry,
            v,
        ),
        is_csel64(w_csel(c, d, t, f)),
        fields_are(w_csel(c, d, t, f), d, t, f),
        cond_field_holds((w_csel(c, d, t, f) >> 12) & 0xF, n, z, carry, v)
            == crate::aarch64::shim::a64_cond_holds(c, n, z, carry, v),
{
    let cb = cond_bits(c);
    assert(cb < 16);
    let raw: u32 = match lit_of(target) {
        Some(val) => ((val as i64) >> 2) as u32,
        None => 0,
    };
    let imm19: u32 = match lit_of(target) {
        Some(val) => raw & 0x7_FFFF,
        None => 0,
    };
    let wb = w_bcond(c, target);
    assert(wb == 0x5400_0000u32 | (imm19 << 5) | cb);
    assert(wb & 0xFF00_0010 == 0x5400_0000 && wb & 0xF == cb) by (bit_vector)
        requires
            wb == 0x5400_0000u32 | (imm19 << 5) | cb,
            imm19 == raw & 0x7_FFFF || imm19 == 0,
            cb < 16,
    ;
    let (rd, rn, rm) = (reg_of(d), reg_of(t), reg_of(f));
    let wc = w_csel(c, d, t, f);
    assert(wc & 0xFFE0_0C00 == 0x9A80_0000 && (wc >> 12) & 0xF == cb && wc & 0x1F == rd && (wc >> 5) & 0x1F == rn
        && (wc >> 16) & 0x1F == rm) by (bit_vector)
        requires
            wc == 0x9A80_0000u32 | (rm << 16) | (cb << 12) | (rn << 5) | rd,
            cb < 16,
            rd < 32,
            rn < 32,
            rm < 32,
    ;
}

// ── loads and stores ────────────────────────────────────────────────────────

/// The word is a single-register load or store with an unsigned scaled
/// 12-bit offset (`LDR`/`STR (immediate, unsigned offset)`).
pub open spec fn is_ldst_unsigned(w: u32) -> bool {
    w & 0x3F80_0000 == 0x3900_0000 || w & 0x3FC0_0000 == 0x3940_0000
}

/// The access size in bytes of a load/store word: `2^size` for its size
/// field (bits 30..32).
pub open spec fn access_bytes(w: u32) -> nat {
    match w >> 30 {
        0 => 1,
        1 => 2,
        2 => 4,
        _ => 8,
    }
}

/// The byte offset an unsigned-offset load/store word adds to its base:
/// its 12-bit immediate times the access size.
pub open spec fn unsigned_offset(w: u32) -> int {
    ((w >> 10) & 0xFFF) * access_bytes(w)
}

/// An `LDR`/`STR` with a non-negative displacement that is a multiple of
/// the register's size (and within the scaled 12-bit range) accesses
/// exactly `base + disp` with the register's size: the word is an
/// unsigned-offset load (or store), its access size is the size of the
/// register operand, its offset field times that size is the displacement,
/// and it names the base and data registers it was given.
pub proof fn law_load_store_address(load: bool, reg: MemArgKind, mem: MemArgKind)
    requires
        base_disp_mode(mem).2 == AddressingMode::Offset,
        base_disp_mode(mem).1 >= 0,
        (base_disp_mode(mem).1 as int) % (size_bytes(size_of(reg)) as int) == 0,
        (base_disp_mode(mem).1 as int) / (size_bytes(size_of(reg)) as int) < 4096,
        reg_of(reg) < 32,
        base_disp_mode(mem).0 < 32,
    ensures
        is_ldst_unsigned(w_ldst(load, reg, mem)),
        ((w_ldst(load, reg, mem) >> 22) & 1 == 1) == load,
        access_bytes(w_ldst(load, reg, mem)) == size_bytes(size_of(reg)),
        unsigned_offset(w_ldst(load, reg, mem)) == base_disp_mode(mem).1,
        rn_field(w_ldst(load, reg, mem)) == base_disp_mode(mem).0,
        rd_field(w_ldst(load, reg, mem)) == reg_of(reg),
{
    let w = w_ldst(load, reg, mem);
    let rt = reg_of(reg);
    let (rn, disp, mode) = base_disp_mode(mem);
    let bytes = size_bytes(size_of(reg)) as int;
    let imm: u32 = ((disp as int) / bytes) as u32;
    assert(tdiv(disp as int, bytes) == (disp as int) / bytes);
    assert(imm * bytes == disp);
    let opc: u32 = crate::aarch64::encode::ldst_size_opc(load, size_of(reg));
    assert(w == (opc | 0x0100_0000) | ((imm & 0xFFF) << 10) | (rn << 5) | rt);
    let lbit: u32 = if load { 1 } else { 0 };
    let sz: u32 = match size_of(reg) {
        MemorySize::_8 => 0,
        MemorySize::_16 => 1,
        MemorySize::_32 => 2,
        MemorySize::_64 => 3,
    };
    let base: u32 = match size_of(reg) {
        MemorySize::_64 => 0xF800_0000,
        MemorySize::_32 => 0xB800_0000,
        MemorySize::_16 => 0x7800_0000,
        MemorySize::_8 => 0x3800_0000,
    };
    assert(opc == if lbit == 1 { base | 0x0040_0000 } else { base });
    assert(w >> 30 == sz && (w >> 22) & 1 == lbit && (w >> 10) & 0xFFF == imm && (w >> 5) & 0x1F == rn
        && w & 0x1F == rt && (w & 0x3F80_0000 == 0x3900_0000 || w & 0x3FC0_0000 == 0x3940_0000)) by (bit_vector)
        requires
            w == (opc | 0x0100_0000) | ((imm & 0xFFF) << 10) | (rn << 5) | rt,
            opc == if lbit == 1 { base | 0x0040_0000u32 } else { base },
            (sz == 3 && base == 0xF800_0000u32) || (sz == 2 && base == 0xB800_0000u32) || (sz == 1 && base
                == 0x7800_0000u32) || (sz == 0 && base == 0x3800_0000u32),
            lbit < 2,
            imm < 4096,
            rn < 32,
            rt < 32,
    ;
}

} // verus!
