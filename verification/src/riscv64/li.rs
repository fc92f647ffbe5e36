//! Loading a 64-bit constant (`LI`): the instruction sequence, and the law
//! that it leaves exactly the constant in the destination register.
//!
//! A value that is a sign-extended 12-bit immediate is one `ADDI`; one that
//! is a sign-extended 32-bit value below `0x7FFF_F800` is `LUI` plus an
//! `ADDI` of the rest;
//! anything else is split into balanced base-4096 digits, loaded from the
//! most significant non-zero digit down with `SLLI 12` / `ADDI` steps.

use vstd::prelude::*;
use vstd::arithmetic::div_mod::{lemma_add_mod_noop_right, lemma_mul_mod_noop_left, lemma_small_mod};
use crate::riscv64::encode::RvInst;

verus! {

/// The value fits a sign-extended 12-bit immediate.
pub open spec fn fits12(v: i64) -> bool {
    -2048 <= v <= 2047
}

/// The value is a sign-extended 32-bit value whose `LUI`/`ADDI` split does
/// not overflow: `0x7FFF_F800..=0x7FFF_FFFF` round up past the largest
/// `LUI`, and are loaded digit by digit instead.
pub open spec fn lui_fits(v: i64) -> bool {
    i32::MIN <= v < 0x7FFF_F800
}

/// The balanced base-4096 digit of `r`: `r mod 4096`, taken in `-2048..2048`.
pub open spec fn bdigit(r: int) -> int {
    let low = r % 4096;
    if low >= 2048 {
        low - 4096
    } else {
        low
    }
}

/// What is left of `r` above its balanced digit.
pub open spec fn brest(r: int) -> int {
    (r - bdigit(r)) / 4096
}

/// `r` after its `i` lowest balanced digits are taken off.
pub open spec fn li_rest(r: int, i: nat) -> int
    decreases i,
{
    if i == 0 {
        r
    } else {
        brest(li_rest(r, (i - 1) as nat))
    }
}

/// Digit `i` of the six that `LI` loads: five balanced 12-bit digits, then
/// what is left (at most 16).
pub open spec fn li_chunk(val: u64, i: int) -> int {
    if i < 5 {
        bdigit(li_rest(val as int, i as nat))
    } else {
        li_rest(val as int, 5)
    }
}

/// The index of the most significant non-zero digit at or below `k`
/// (0 if there is none).
pub open spec fn li_top(val: u64, k: int) -> int
    decreases k,
{
    if k <= 0 || li_chunk(val, k) != 0 {
        k
    } else {
        li_top(val, k - 1)
    }
}

/// The steps after the first digit: for each lower digit, from `k - 1`
/// down to 0, a shift by 12 and, for a non-zero digit, an `ADDI` of it.
pub open spec fn li_steps(rd: u8, val: u64, k: int) -> Seq<RvInst>
    decreases k,
{
    if k <= 0 {
        Seq::empty()
    } else {
        let shift = seq![RvInst::Slli { dest: rd, src1: rd, imm: 12 }];
        let add = if li_chunk(val, k - 1) != 0 {
            seq![RvInst::Addi { dest: rd, src1: rd, imm: li_chunk(val, k - 1) as i32 }]
        } else {
            Seq::empty()
        };
        shift + add + li_steps(rd, val, k - 1)
    }
}

/// The upper part that `LUI` loads for a 32-bit value, rounded so the
/// rest fits a signed 12-bit `ADDI`.
pub open spec fn li_hi(v: i64) -> i32 {
    ((v + 0x800) as i32) >> 12
}

/// The rest that `ADDI` adds after `LUI`.
pub open spec fn li_lo(v: i64) -> i32 {
    (v - li_hi(v) * 4096) as i32
}

/// The instructions that load `val` into `rd`.
pub open spec fn li_seq(rd: u8, val: u64) -> Seq<RvInst> {
    let v = val as i64;
    if fits12(v) {
        seq![RvInst::Addi { dest: rd, src1: 0, imm: v as i32 }]
    } else if lui_fits(v) {
        let lui = seq![RvInst::Lui { dest: rd, uimm: (li_hi(v) as u32) << 12 }];
        if li_lo(v) != 0 {
            lui.push(RvInst::Addi { dest: rd, src1: rd, imm: li_lo(v) })
        } else {
            lui
        }
    } else {
        let top = li_top(val, 5);
        seq![RvInst::Addi { dest: rd, src1: 0, imm: li_chunk(val, top) as i32 }] + li_steps(rd, val, top)
    }
}

proof fn lemma_bdigit(r: int)
    ensures
        -2048 <= bdigit(r) < 2048,
        r == bdigit(r) + 4096 * brest(r),
{
}

proof fn lemma_li_rest_range(val: u64, i: nat)
    requires
        i <= 5,
    ensures
        0 <= li_rest(val as int, i) <= (val as int) / pow4096(i) + 1,
    decreases i,
{
    if i > 0 {
        lemma_li_rest_range(val, (i - 1) as nat);
        let p = li_rest(val as int, (i - 1) as nat);
        lemma_bdigit(p);
        assert(pow4096(i) == pow4096((i - 1) as nat) * 4096);
        assert(li_rest(val as int, i) == brest(p));
        lemma_pow4096_pos((i - 1) as nat);
        lemma_div_div(val as int, pow4096((i - 1) as nat));
    }
}

/// `4096^i`.
pub open spec fn pow4096(i: nat) -> int
    decreases i,
{
    if i == 0 {
        1
    } else {
        4096 * pow4096((i - 1) as nat)
    }
}

proof fn lemma_pow4096_pos(i: nat)
    ensures
        pow4096(i) >= 1,
    decreases i,
{
    if i > 0 {
        lemma_pow4096_pos((i - 1) as nat);
    }
}

proof fn lemma_div_div(v: int, p: int)
    requires
        v >= 0,
        p >= 1,
    ensures
        (v / p) / 4096 == v / (p * 4096),
{
    vstd::arithmetic::div_mod::lemma_div_denominator(v, p, 4096);
}

/// The digits that `LI` computes for a value that is not a sign-extended
/// 32-bit value.
fn li_chunks(val: u64) -> (c: Vec<i32>)
    ensures
        c@.len() == 6,
        forall|i: int| 0 <= i < 6 ==> c@[i] as int == #[trigger] li_chunk(val, i),
{
    let mut c: Vec<i32> = Vec::new();
    let mut r: u64 = val;
    let mut i: usize = 0;
    while i < 5
        invariant
            i <= 5,
            c@.len() == i,
            r as int == li_rest(val as int, i as nat),
            forall|j: int| 0 <= j < i ==> c@[j] as int == #[trigger] li_chunk(val, j),
        decreases 5 - i,
    {
        proof {
            lemma_li_rest_range(val, i as nat);
            lemma_bdigit(r as int);
        }
        let low = r & 0xFFF;
        assert(low == r % 4096 && r >> 12 == r / 4096) by (bit_vector)
            requires
                low == r & 0xFFF,
        ;
        if low >= 0x800 {
            c.push(low as i32 - 0x1000);
            assert(r / 4096 < u64::MAX);
            r = (r >> 12) + 1;
        } else {
            c.push(low as i32);
            r = r >> 12;
        }
        i = i + 1;
    }
    proof {
        lemma_li_rest_range(val, 5);
        reveal_with_fuel(pow4096, 6);
        assert(pow4096(5) == 0x1000_0000_0000_0000);
        assert((val as int) / 0x1000_0000_0000_0000 <= 15);
        assert(r <= 16);
    }
    c.push(r as i32);
    assert(c@[5] as int == li_chunk(val, 5));
    c
}

/// The instructions that load `val` into `rd`.
pub fn li_insts(rd: u8, val: u64) -> (v: Vec<RvInst>)
    ensures
        v@ == li_seq(rd, val),
{
    let v64 = val as i64;
    let mut out: Vec<RvInst> = Vec::new();
    if -2048 <= v64 && v64 <= 2047 {
        out.push(RvInst::Addi { dest: rd, src1: 0, imm: v64 as i32 });
        assert(out@ =~= li_seq(rd, val));
        return out;
    }
    if -0x8000_0000 <= v64 && v64 < 0x7FFF_F800 {
        let x: i32 = (v64 as i32) + 0x800;
        let h: i32 = x >> 12;
        assert(-0x8_0000 <= h < 0x8_0000 && 0 <= x - h * 4096 < 4096) by (bit_vector)
            requires
                h == x >> 12,
        ;
        let lo: i32 = v64 as i32 - h * 4096;
        out.push(RvInst::Lui { dest: rd, uimm: (h as u32) << 12 });
        if lo != 0 {
            out.push(RvInst::Addi { dest: rd, src1: rd, imm: lo });
        }
        assert(out@ =~= li_seq(rd, val));
        return out;
    }
    let chunks = li_chunks(val);
    let mut top: usize = 5;
    while top > 0 && chunks[top] == 0
        invariant
            top <= 5,
            chunks@.len() == 6,
            forall|i: int| 0 <= i < 6 ==> chunks@[i] as int == #[trigger] li_chunk(val, i),
            li_top(val, 5) == li_top(val, top as int),
        decreases top,
    {
        assert(li_chunk(val, top as int) == 0);
        top = top - 1;
    }
    assert(li_chunk(val, top as int) == chunks@[top as int] as int);
    assert(li_top(val, top as int) == top);
    out.push(RvInst::Addi { dest: rd, src1: 0, imm: chunks[top] });
    let ghost head = out@;
    let mut i: usize = top;
    assert(out@ + li_steps(rd, val, i as int) =~= head + li_steps(rd, val, top as int));
    while i > 0
        invariant
            i <= top <= 5,
            chunks@.len() == 6,
            forall|j: int| 0 <= j < 6 ==> chunks@[j] as int == #[trigger] li_chunk(val, j),
            out@ + li_steps(rd, val, i as int) == head + li_steps(rd, val, top as int),
        decreases i,
    {
        let ghost before = out@;
        i = i - 1;
        assert(chunks@[i as int] as int == li_chunk(val, i as int));
        out.push(RvInst::Slli { dest: rd, src1: rd, imm: 12 });
        if chunks[i] != 0 {
            out.push(RvInst::Addi { dest: rd, src1: rd, imm: chunks[i] });
        }
        assert(out@ + li_steps(rd, val, i as int) =~= before + li_steps(rd, val, i + 1));
    }
    assert(out@ =~= head + li_steps(rd, val, top as int));
    assert(head =~= seq![RvInst::Addi { dest: rd, src1: 0, imm: li_chunk(val, top as int) as i32 }]);
    out
}

// ── what the sequence computes ──────────────────────────────────────────────

/// A 64-bit register value for an integer: the integer modulo 2^64.
pub open spec fn to_reg(x: int) -> u64 {
    (x % 0x1_0000_0000_0000_0000) as u64
}

/// The value of `LUI`'s immediate as the register receives it: the upper
/// 20 bits in place, sign-extended from 32 bits.
pub open spec fn lui_value(uimm: u32) -> int {
    let u = uimm & 0xFFFF_F000;
    if u >= 0x8000_0000 {
        u - 0x1_0000_0000
    } else {
        u as int
    }
}

/// The value register `rd` holds after `inst` runs, when it held `cur`:
/// `ADDI` adds its sign-extended immediate to `x0` (zero) or to `rd`,
/// `SLLI` shifts `rd` left, `LUI` loads its immediate; anything else
/// leaves `rd` as it was.
pub open spec fn li_step(rd: u8, cur: u64, inst: RvInst) -> u64 {
    match inst {
        RvInst::Addi { dest, src1, imm } => if dest == rd && src1 == 0 {
            to_reg(imm as int)
        } else if dest == rd && src1 == rd {
            to_reg(cur + imm)
        } else {
            cur
        },
        RvInst::Slli { dest, src1, imm } => if dest == rd && src1 == rd && 0 <= imm {
            to_reg(cur * vstd::arithmetic::power2::pow2(imm as nat))
        } else {
            cur
        },
        RvInst::Lui { dest, uimm } => if dest == rd {
            to_reg(lui_value(uimm))
        } else {
            cur
        },
        _ => cur,
    }
}

/// The value `rd` holds after `insts` run in order from `cur`.
pub open spec fn li_run(rd: u8, insts: Seq<RvInst>, cur: u64) -> u64
    decreases insts.len(),
{
    if insts.len() == 0 {
        cur
    } else {
        li_run(rd, insts.drop_first(), li_step(rd, cur, insts[0]))
    }
}

/// The instruction writes `rd` and reads nothing but `rd` and `x0`.
pub open spec fn only_rd(rd: u8, inst: RvInst) -> bool {
    match inst {
        RvInst::Addi { dest, src1, .. } => dest == rd && (src1 == 0 || src1 == rd),
        RvInst::Slli { dest, src1, .. } => dest == rd && src1 == rd,
        RvInst::Lui { dest, .. } => dest == rd,
        _ => false,
    }
}

proof fn lemma_run_concat(rd: u8, a: Seq<RvInst>, b: Seq<RvInst>, cur: u64)
    ensures
        li_run(rd, a + b, cur) == li_run(rd, b, li_run(rd, a, cur)),
    decreases a.len(),
{
    if a.len() > 0 {
        assert((a + b).drop_first() =~= a.drop_first() + b);
        assert((a + b)[0] == a[0]);
        lemma_run_concat(rd, a.drop_first(), b, li_step(rd, cur, a[0]));
    } else {
        assert(a + b =~= b);
    }
}

proof fn lemma_run_one(rd: u8, i: RvInst, cur: u64)
    ensures
        li_run(rd, seq![i], cur) == li_step(rd, cur, i),
{
    assert(seq![i].drop_first() =~= Seq::<RvInst>::empty());
    reveal_with_fuel(li_run, 2);
}

proof fn lemma_to_reg_i64(val: u64)
    ensures
        to_reg((val as i64) as int) == val,
{
    let v = val as i64;
    assert(v < 0 ==> val as int == v as int + 0x1_0000_0000_0000_0000) by (bit_vector)
        requires
            v == val as i64,
    ;
    assert(v >= 0 ==> v as u64 == val) by (bit_vector)
        requires
            v == val as i64,
    ;
    if v < 0 {
        assert(((v as int) % 0x1_0000_0000_0000_0000) == val as int);
    }
}

proof fn lemma_rest_steps(val: u64, i: nat)
    requires
        i < 5,
    ensures
        li_rest(val as int, i) == li_chunk(val, i as int) + 4096 * li_rest(val as int, i + 1),
{
    lemma_bdigit(li_rest(val as int, i));
    assert(li_rest(val as int, i + 1) == brest(li_rest(val as int, i)));
}

proof fn lemma_chunk_range(val: u64, i: int)
    requires
        0 <= i <= 5,
    ensures
        i < 5 ==> -2048 <= li_chunk(val, i) < 2048,
        i == 5 ==> 0 <= li_chunk(val, i) <= 16,
{
    if i < 5 {
        lemma_bdigit(li_rest(val as int, i as nat));
    } else {
        lemma_li_rest_range(val, 5);
        reveal_with_fuel(pow4096, 6);
        assert(pow4096(5) == 0x1000_0000_0000_0000);
        assert((val as int) / 0x1000_0000_0000_0000 <= 15);
    }
}

/// Above the top digit, what is left is zero.
proof fn lemma_rest_above_top(val: u64, k: int)
    requires
        0 <= k <= 5,
        forall|j: int| k < j <= 5 ==> li_chunk(val, j) == 0,
    ensures
        li_rest(val as int, k as nat) == li_chunk(val, k),
    decreases 5 - k,
{
    if k < 5 {
        lemma_rest_above_top(val, k + 1);
        lemma_rest_steps(val, k as nat);
    }
}

proof fn lemma_top(val: u64, k: int)
    requires
        0 <= k <= 5,
        forall|j: int| k < j <= 5 ==> li_chunk(val, j) == 0,
    ensures
        0 <= li_top(val, k) <= k,
        forall|j: int| li_top(val, k) < j <= 5 ==> li_chunk(val, j) == 0,
    decreases k,
{
    if k > 0 && li_chunk(val, k) == 0 {
        lemma_top(val, k - 1);
    }
}

proof fn lemma_steps_run(rd: u8, val: u64, k: int)
    requires
        rd != 0,
        0 <= k <= 5,
    ensures
        li_run(rd, li_steps(rd, val, k), to_reg(li_rest(val as int, k as nat))) == to_reg(val as int),
        forall|i: int| 0 <= i < li_steps(rd, val, k).len() ==> only_rd(rd, #[trigger] li_steps(rd, val, k)[i]),
    decreases k,
{
    if k == 0 {
    } else {
        let m: int = 0x1_0000_0000_0000_0000;
        let c = li_chunk(val, k - 1);
        lemma_chunk_range(val, k - 1);
        lemma_rest_steps(val, (k - 1) as nat);
        let rk = li_rest(val as int, k as nat);
        let shift = seq![RvInst::Slli { dest: rd, src1: rd, imm: 12 }];
        let add = if c != 0 {
            seq![RvInst::Addi { dest: rd, src1: rd, imm: c as i32 }]
        } else {
            Seq::empty()
        };
        let rest = li_steps(rd, val, k - 1);
        assert(li_steps(rd, val, k) == shift + add + rest);
        lemma_steps_run(rd, val, k - 1);
        lemma_run_concat(rd, shift + add, rest, to_reg(rk));
        lemma_run_concat(rd, shift, add, to_reg(rk));
        lemma_run_one(rd, shift[0], to_reg(rk));
        vstd::arithmetic::power2::lemma2_to64();
        let after_shift = to_reg((to_reg(rk) as int) * 4096);
        assert(li_step(rd, to_reg(rk), shift[0]) == after_shift);
        lemma_mul_mod_noop_left(rk, 4096, m);
        assert(after_shift == to_reg(rk * 4096));
        if c != 0 {
            lemma_run_one(rd, add[0], after_shift);
            lemma_add_mod_noop_right(c, rk * 4096, m);
            assert(to_reg(after_shift + c) == to_reg(rk * 4096 + c));
        } else {
            assert(li_run(rd, add, after_shift) == after_shift);
        }
        assert(li_rest(val as int, (k - 1) as nat) == c + 4096 * rk);
        assert forall|i: int| 0 <= i < li_steps(rd, val, k).len() implies only_rd(rd, #[trigger] li_steps(rd, val, k)[i]) by {
            if i >= (shift + add).len() {
                assert(li_steps(rd, val, k)[i] == rest[i - (shift + add).len()]);
            }
        }
    }
}

/// The instructions of `LI rd, val` write only `rd` and read only `rd`
/// and `x0`, and leave exactly `val` in `rd`, whatever it held before.
pub proof fn law_li_loads_value(rd: u8, val: u64, init: u64)
    requires
        rd != 0,
    ensures
        forall|i: int| 0 <= i < li_seq(rd, val).len() ==> only_rd(rd, #[trigger] li_seq(rd, val)[i]),
        li_run(rd, li_seq(rd, val), init) == val,
{
    let m: int = 0x1_0000_0000_0000_0000;
    let v = val as i64;
    lemma_to_reg_i64(val);
    if fits12(v) {
        lemma_run_one(rd, li_seq(rd, val)[0], init);
        assert(li_seq(rd, val) =~= seq![li_seq(rd, val)[0]]);
    } else if lui_fits(v) {
        let x: i32 = (v + 0x800) as i32;
        let h: i32 = x >> 12;
        assert(h == li_hi(v));
        assert(-0x8_0000 <= h < 0x8_0000 && 0 <= x - h * 4096 < 4096) by (bit_vector)
            requires
                h == x >> 12,
        ;
        let u: u32 = (h as u32) << 12;
        assert((u & 0xFFFF_F000) == u && (u >= 0x8000_0000 ==> (u as int) - 0x1_0000_0000 == (h as int)
            * 4096) && (u < 0x8000_0000 ==> (u as int) == (h as int) * 4096)) by (bit_vector)
            requires
                u == (h as u32) << 12,
                -0x8_0000 <= h < 0x8_0000,
        ;
        assert(lui_value(u) == h * 4096);
        let lo = li_lo(v);
        assert(lo == v - h * 4096);
        let lui = RvInst::Lui { dest: rd, uimm: u };
        let s = li_seq(rd, val);
        lemma_run_one(rd, lui, init);
        if lo != 0 {
            let add = RvInst::Addi { dest: rd, src1: rd, imm: lo };
            assert(s =~= seq![lui] + seq![add]);
            lemma_run_concat(rd, seq![lui], seq![add], init);
            lemma_run_one(rd, add, to_reg(h * 4096));
            lemma_add_mod_noop_right(lo as int, h * 4096, m);
            assert(to_reg(to_reg(h * 4096) + lo) == to_reg(v as int));
        } else {
            assert(s =~= seq![lui]);
        }
    } else {
        lemma_top(val, 5);
        let top = li_top(val, 5);
        lemma_rest_above_top(val, top);
        lemma_chunk_range(val, top);
        let c = li_chunk(val, top);
        let head = seq![RvInst::Addi { dest: rd, src1: 0, imm: c as i32 }];
        let s = li_seq(rd, val);
        assert(s == head + li_steps(rd, val, top));
        lemma_run_concat(rd, head, li_steps(rd, val, top), init);
        lemma_run_one(rd, head[0], init);
        assert(li_run(rd, head, init) == to_reg(li_rest(val as int, top as nat)));
        lemma_steps_run(rd, val, top);
        assert(li_rest(val as int, 0) == val as int);
        lemma_small_mod(val as nat, m as nat);
        assert forall|i: int| 0 <= i < s.len() implies only_rd(rd, #[trigger] s[i]) by {
            if i > 0 {
                assert(s[i] == li_steps(rd, val, top)[i - 1]);
            }
        }
    }
}

} // verus!
