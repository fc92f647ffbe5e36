//! Register names and the context block that registers are loaded from.

use vstd::prelude::*;
use crate::riscv64::{RegFormatOpts, RegisterClass, RiscV64Arch};
use crate::riscv64::arg::{ArgKind, MemArgKind};
use crate::riscv64::bin::RvAsmWriter;
use crate::riscv64::encode::{LoadOp, RvInst};
use crate::common::{MemorySize, Reg};
use core::convert::Infallible;

verus! {

/// General-purpose register names (ABI names), the same at every size.
pub open spec fn gpr_name(i: u8) -> Seq<char> {
    match i {
        0 => "zero"@,
        1 => "ra"@,
        2 => "sp"@,
        3 => "gp"@,
        4 => "tp"@,
        5 => "t0"@,
        6 => "t1"@,
        7 => "t2"@,
        8 => "s0"@,
        9 => "s1"@,
        10 => "a0"@,
        11 => "a1"@,
        12 => "a2"@,
        13 => "a3"@,
        14 => "a4"@,
        15 => "a5"@,
        16 => "a6"@,
        17 => "a7"@,
        18 => "s2"@,
        19 => "s3"@,
        20 => "s4"@,
        21 => "s5"@,
        22 => "s6"@,
        23 => "s7"@,
        24 => "s8"@,
        25 => "s9"@,
        26 => "s10"@,
        27 => "s11"@,
        28 => "t3"@,
        29 => "t4"@,
        30 => "t5"@,
        _ => "t6"@,
    }
}

/// Floating-point register names (ABI names).
pub open spec fn fpr_name(i: u8) -> Seq<char> {
    match i {
        0 => "ft0"@,
        1 => "ft1"@,
        2 => "ft2"@,
        3 => "ft3"@,
        4 => "ft4"@,
        5 => "ft5"@,
        6 => "ft6"@,
        7 => "ft7"@,
        8 => "fs0"@,
        9 => "fs1"@,
        10 => "fa0"@,
        11 => "fa1"@,
        12 => "fa2"@,
        13 => "fa3"@,
        14 => "fa4"@,
        15 => "fa5"@,
        16 => "fa6"@,
        17 => "fa7"@,
        18 => "fs2"@,
        19 => "fs3"@,
        20 => "fs4"@,
        21 => "fs5"@,
        22 => "fs6"@,
        23 => "fs7"@,
        24 => "fs8"@,
        25 => "fs9"@,
        26 => "fs10"@,
        27 => "fs11"@,
        28 => "ft8"@,
        29 => "ft9"@,
        30 => "ft10"@,
        _ => "ft11"@,
    }
}

/// The name of register `r` under the given options: the register number
/// is taken modulo 32 and named by its class's ABI name.
pub open spec fn reg_name_spec(r: u8, class: RegisterClass) -> Seq<char> {
    match class {
        RegisterClass::Fp => fpr_name(r % 32),
        RegisterClass::Gpr => gpr_name(r % 32),
    }
}

fn gpr_str(i: u8) -> (s: &'static str)
    requires
        i < 32,
    ensures
        s@ == gpr_name(i),
{
    match i {
        0 => "zero",
        1 => "ra",
        2 => "sp",
        3 => "gp",
        4 => "tp",
        5 => "t0",
        6 => "t1",
        7 => "t2",
        8 => "s0",
        9 => "s1",
        10 => "a0",
        11 => "a1",
        12 => "a2",
        13 => "a3",
        14 => "a4",
        15 => "a5",
        16 => "a6",
        17 => "a7",
        18 => "s2",
        19 => "s3",
        20 => "s4",
        21 => "s5",
        22 => "s6",
        23 => "s7",
        24 => "s8",
        25 => "s9",
        26 => "s10",
        27 => "s11",
        28 => "t3",
        29 => "t4",
        30 => "t5",
        _ => "t6",
    }
}

fn fpr_str(i: u8) -> (s: &'static str)
    requires
        i < 32,
    ensures
        s@ == fpr_name(i),
{
    match i {
        0 => "ft0",
        1 => "ft1",
        2 => "ft2",
        3 => "ft3",
        4 => "ft4",
        5 => "ft5",
        6 => "ft6",
        7 => "ft7",
        8 => "fs0",
        9 => "fs1",
        10 => "fa0",
        11 => "fa1",
        12 => "fa2",
        13 => "fa3",
        14 => "fa4",
        15 => "fa5",
        16 => "fa6",
        17 => "fa7",
        18 => "fs2",
        19 => "fs3",
        20 => "fs4",
        21 => "fs5",
        22 => "fs6",
        23 => "fs7",
        24 => "fs8",
        25 => "fs9",
        26 => "fs10",
        27 => "fs11",
        28 => "ft8",
        29 => "ft9",
        30 => "ft10",
        _ => "ft11",
    }
}

/// The name of a register under the given options (see [`reg_name_spec`]).
pub fn reg_name(reg: &Reg, opts: &RegFormatOpts) -> (s: String)
    ensures
        s@ == reg_name_spec(reg.0, opts.reg_class),
{
    let i = reg.0 % 32;
    let name = match opts.reg_class {
        RegisterClass::Fp => fpr_str(i),
        RegisterClass::Gpr => gpr_str(i),
    };
    name.to_owned()
}

/// Where a register's saved value lives: the context block is addressed
/// through `s1` (x9); `0x28` is the block's own offset, and the register's
/// slot is at `8 * (r mod 32) + 78`.
pub fn context_handle(reg: &Reg, _arch: &RiscV64Arch) -> (h: (Reg, u32, u32))
    ensures
        h == (Reg(9), 0x28u32, ((reg.0 % 32) * 8 + 78) as u32),
{
    (Reg(9), 0x28, (reg.0 as u32 % 32) * 8 + 78)
}

/// `LD r, disp(s1)`.
pub open spec fn context_load(r: u8, disp: i32) -> RvInst {
    RvInst::Load { op: LoadOp::Ld, dest: r, base: 9, offset: disp }
}

fn context_slot(disp: i32) -> (m: MemArgKind)
    ensures
        m == (MemArgKind::Mem {
            base: ArgKind::Reg { reg: Reg(9), size: MemorySize::_64 },
            offset: None,
            disp,
            size: MemorySize::_64,
            reg_class: RegisterClass::Gpr,
        }),
{
    MemArgKind::Mem {
        base: ArgKind::Reg { reg: Reg(9), size: MemorySize::_64 },
        offset: None,
        disp,
        size: MemorySize::_64,
        reg_class: RegisterClass::Gpr,
    }
}

impl<L> RvAsmWriter<L> {
    /// Loads register `reg` from the context block: `LD reg, 0x28(s1)` then
    /// `LD reg, slot(s1)` (the same two loads whether or not `xchg` is asked
    /// for).
    pub fn load_from_context<C>(&mut self, ctx: &mut C, arch: &RiscV64Arch, reg: &Reg, xchg: bool) -> (r: Result<(), Infallible>)
        requires
            old(self).wf(),
        ensures
            r is Ok,
            final(self).emitted_all(*old(self), seq![
                context_load(reg.0, 0x28),
                context_load(reg.0, ((reg.0 % 32) * 8 + 78) as i32),
            ]),
    {
        let ghost w0 = *self;
        let (_, b, c) = context_handle(reg, arch);
        let d = MemArgKind::NoMem(ArgKind::Reg { reg: *reg, size: MemorySize::_64 });
        let _ = self.ld(ctx, *arch, &d, &context_slot(b as i32));
        let ghost w1 = *self;
        let _ = if xchg {
            self.ld(ctx, *arch, &d, &context_slot(c as i32))
        } else {
            self.ld(ctx, *arch, &d, &context_slot(c as i32))
        };
        proof {
            let i1 = context_load(reg.0, 0x28);
            let i2 = context_load(reg.0, c as i32);
            crate::riscv64::bin::lemma_insts_bytes_concat(seq![i1], seq![i2]);
            assert(seq![i1] + seq![i2] =~= seq![i1, i2]);
            assert(self.bytes() =~= w0.bytes() + crate::riscv64::bin::insts_bytes(seq![i1, i2]));
        }
        Ok(())
    }
}


// ── the ABI names ───────────────────────────────────────────────────────────

/// The decimal digit `d` (0..=9) as a character.
pub open spec fn dec_digit(d: int) -> char {
    (48 + d) as char
}

/// The value of a decimal digit character.
pub open spec fn dec_value(c: char) -> int {
    c as int - 48
}

/// `prefix` followed by the decimal numeral of `n` (0..=99).
pub open spec fn numbered(prefix: Seq<char>, n: int) -> Seq<char> {
    if n < 10 {
        prefix.push(dec_digit(n))
    } else {
        prefix.push(dec_digit(n / 10)).push(dec_digit(n % 10))
    }
}

/// The standard RISC-V ABI name of integer register `x<r>`: `zero`, `ra`,
/// `sp`, `gp`, `tp`; temporaries `t0`..`t2` (`x5`..`x7`) and `t3`..`t6`
/// (`x28`..`x31`); saved registers `s0`, `s1` (`x8`, `x9`) and `s2`..`s11`
/// (`x18`..`x27`); arguments `a0`..`a7` (`x10`..`x17`).
pub open spec fn abi_gpr(r: int) -> Seq<char> {
    if r == 0 {
        seq!['z', 'e', 'r', 'o']
    } else if r == 1 {
        seq!['r', 'a']
    } else if r == 2 {
        seq!['s', 'p']
    } else if r == 3 {
        seq!['g', 'p']
    } else if r == 4 {
        seq!['t', 'p']
    } else if r < 8 {
        numbered(seq!['t'], r - 5)
    } else if r < 10 {
        numbered(seq!['s'], r - 8)
    } else if r < 18 {
        numbered(seq!['a'], r - 10)
    } else if r < 28 {
        numbered(seq!['s'], r - 16)
    } else {
        numbered(seq!['t'], r - 25)
    }
}

/// The standard RISC-V ABI name of floating-point register `f<r>`:
/// temporaries `ft0`..`ft7` (`f0`..`f7`) and `ft8`..`ft11` (`f28`..`f31`);
/// saved `fs0`, `fs1` (`f8`, `f9`) and `fs2`..`fs11` (`f18`..`f27`);
/// arguments `fa0`..`fa7` (`f10`..`f17`).
pub open spec fn abi_fpr(r: int) -> Seq<char> {
    if r < 8 {
        numbered(seq!['f', 't'], r)
    } else if r < 10 {
        numbered(seq!['f', 's'], r - 8)
    } else if r < 18 {
        numbered(seq!['f', 'a'], r - 10)
    } else if r < 28 {
        numbered(seq!['f', 's'], r - 16)
    } else {
        numbered(seq!['f', 't'], r - 20)
    }
}

/// Every register is named by its standard ABI name: for example `x10` to
/// `x17` are `a0` to `a7`, the argument register number following the `a`.
pub proof fn law_abi_names(r: u8)
    requires
        r < 32,
    ensures
        gpr_name(r) == abi_gpr(r as int),
        fpr_name(r) == abi_fpr(r as int),
{
    reveal_strlit("zero");
    reveal_strlit("ra");
    reveal_strlit("sp");
    reveal_strlit("gp");
    reveal_strlit("tp");
    reveal_strlit("t0");
    reveal_strlit("t1");
    reveal_strlit("t2");
    reveal_strlit("s0");
    reveal_strlit("s1");
    reveal_strlit("a0");
    reveal_strlit("a1");
    reveal_strlit("a2");
    reveal_strlit("a3");
    reveal_strlit("a4");
    reveal_strlit("a5");
    reveal_strlit("a6");
    reveal_strlit("a7");
    reveal_strlit("s2");
    reveal_strlit("s3");
    reveal_strlit("s4");
    reveal_strlit("s5");
    reveal_strlit("s6");
    reveal_strlit("s7");
    reveal_strlit("s8");
    reveal_strlit("s9");
    reveal_strlit("s10");
    reveal_strlit("s11");
    reveal_strlit("t3");
    reveal_strlit("t4");
    reveal_strlit("t5");
    reveal_strlit("t6");
    reveal_strlit("ft0");
    reveal_strlit("ft1");
    reveal_strlit("ft2");
    reveal_strlit("ft3");
    reveal_strlit("ft4");
    reveal_strlit("ft5");
    reveal_strlit("ft6");
    reveal_strlit("ft7");
    reveal_strlit("fs0");
    reveal_strlit("fs1");
    reveal_strlit("fa0");
    reveal_strlit("fa1");
    reveal_strlit("fa2");
    reveal_strlit("fa3");
    reveal_strlit("fa4");
    reveal_strlit("fa5");
    reveal_strlit("fa6");
    reveal_strlit("fa7");
    reveal_strlit("fs2");
    reveal_strlit("fs3");
    reveal_strlit("fs4");
    reveal_strlit("fs5");
    reveal_strlit("fs6");
    reveal_strlit("fs7");
    reveal_strlit("fs8");
    reveal_strlit("fs9");
    reveal_strlit("fs10");
    reveal_strlit("fs11");
    reveal_strlit("ft8");
    reveal_strlit("ft9");
    reveal_strlit("ft10");
    reveal_strlit("ft11");
    if r == 0 {
        assert(gpr_name(r) =~= abi_gpr(0));
        assert(fpr_name(r) =~= abi_fpr(0));
    } else if r == 1 {
        assert(gpr_name(r) =~= abi_gpr(1));
        assert(fpr_name(r) =~= abi_fpr(1));
    } else if r == 2 {
        assert(gpr_name(r) =~= abi_gpr(2));
        assert(fpr_name(r) =~= abi_fpr(2));
    } else if r == 3 {
        assert(gpr_name(r) =~= abi_gpr(3));
        assert(fpr_name(r) =~= abi_fpr(3));
    } else if r == 4 {
        assert(gpr_name(r) =~= abi_gpr(4));
        assert(fpr_name(r) =~= abi_fpr(4));
    } else if r == 5 {
        assert(gpr_name(r) =~= abi_gpr(5));
        assert(fpr_name(r) =~= abi_fpr(5));
    } else if r == 6 {
        assert(gpr_name(r) =~= abi_gpr(6));
        assert(fpr_name(r) =~= abi_fpr(6));
    } else if r == 7 {
        assert(gpr_name(r) =~= abi_gpr(7));
        assert(fpr_name(r) =~= abi_fpr(7));
    } else if r == 8 {
        assert(gpr_name(r) =~= abi_gpr(8));
        assert(fpr_name(r) =~= abi_fpr(8));
    } else if r == 9 {
        assert(gpr_name(r) =~= abi_gpr(9));
        assert(fpr_name(r) =~= abi_fpr(9));
    } else if r == 10 {
        assert(gpr_name(r) =~= abi_gpr(10));
        assert(fpr_name(r) =~= abi_fpr(10));
    } else if r == 11 {
        assert(gpr_name(r) =~= abi_gpr(11));
        assert(fpr_name(r) =~= abi_fpr(11));
    } else if r == 12 {
        assert(gpr_name(r) =~= abi_gpr(12));
        assert(fpr_name(r) =~= abi_fpr(12));
    } else if r == 13 {
        assert(gpr_name(r) =~= abi_gpr(13));
        assert(fpr_name(r) =~= abi_fpr(13));
    } else if r == 14 {
        assert(gpr_name(r) =~= abi_gpr(14));
        assert(fpr_name(r) =~= abi_fpr(14));
    } else if r == 15 {
        assert(gpr_name(r) =~= abi_gpr(15));
        assert(fpr_name(r) =~= abi_fpr(15));
    } else if r == 16 {
        assert(gpr_name(r) =~= abi_gpr(16));
        assert(fpr_name(r) =~= abi_fpr(16));
    } else if r == 17 {
        assert(gpr_name(r) =~= abi_gpr(17));
        assert(fpr_name(r) =~= abi_fpr(17));
    } else if r == 18 {
        assert(gpr_name(r) =~= abi_gpr(18));
        assert(fpr_name(r) =~= abi_fpr(18));
    } else if r == 19 {
        assert(gpr_name(r) =~= abi_gpr(19));
        assert(fpr_name(r) =~= abi_fpr(19));
    } else if r == 20 {
        assert(gpr_name(r) =~= abi_gpr(20));
        assert(fpr_name(r) =~= abi_fpr(20));
    } else if r == 21 {
        assert(gpr_name(r) =~= abi_gpr(21));
        assert(fpr_name(r) =~= abi_fpr(21));
    } else if r == 22 {
        assert(gpr_name(r) =~= abi_gpr(22));
        assert(fpr_name(r) =~= abi_fpr(22));
    } else if r == 23 {
        assert(gpr_name(r) =~= abi_gpr(23));
        assert(fpr_name(r) =~= abi_fpr(23));
    } else if r == 24 {
        assert(gpr_name(r) =~= abi_gpr(24));
        assert(fpr_name(r) =~= abi_fpr(24));
    } else if r == 25 {
        assert(gpr_name(r) =~= abi_gpr(25));
        assert(fpr_name(r) =~= abi_fpr(25));
    } else if r == 26 {
        assert(gpr_name(r) =~= abi_gpr(26));
        assert(fpr_name(r) =~= abi_fpr(26));
    } else if r == 27 {
        assert(gpr_name(r) =~= abi_gpr(27));
        assert(fpr_name(r) =~= abi_fpr(27));
    } else if r == 28 {
        assert(gpr_name(r) =~= abi_gpr(28));
        assert(fpr_name(r) =~= abi_fpr(28));
    } else if r == 29 {
        assert(gpr_name(r) =~= abi_gpr(29));
        assert(fpr_name(r) =~= abi_fpr(29));
    } else if r == 30 {
        assert(gpr_name(r) =~= abi_gpr(30));
        assert(fpr_name(r) =~= abi_fpr(30));
    } else if r == 31 {
        assert(gpr_name(r) =~= abi_gpr(31));
        assert(fpr_name(r) =~= abi_fpr(31));
    }
}

/// The register number an ABI integer register name stands for.
pub open spec fn gpr_number(s: Seq<char>) -> int {
    if s[0] == 'z' {
        0
    } else if s[0] == 'r' {
        1
    } else if s[0] == 'g' {
        3
    } else if s[1] == 'p' {
        if s[0] == 's' { 2 } else { 4 }
    } else {
        let n = if s.len() == 2 { dec_value(s[1]) } else { dec_value(s[1]) * 10 + dec_value(s[2]) };
        if s[0] == 'a' {
            10 + n
        } else if s[0] == 's' {
            if n < 2 { 8 + n } else { 16 + n }
        } else {
            if n < 3 { 5 + n } else { 25 + n }
        }
    }
}

/// The register number an ABI floating-point register name stands for.
pub open spec fn fpr_number(s: Seq<char>) -> int {
    let n = if s.len() == 3 { dec_value(s[2]) } else { dec_value(s[2]) * 10 + dec_value(s[3]) };
    if s[1] == 'a' {
        10 + n
    } else if s[1] == 's' {
        if n < 2 { 8 + n } else { 16 + n }
    } else {
        if n < 8 { n } else { 20 + n }
    }
}

proof fn lemma_digits()
    ensures
        forall|d: int| 0 <= d <= 9 ==> #[trigger] dec_value(dec_digit(d)) == d,
{
    assert forall|d: int| 0 <= d <= 9 implies #[trigger] dec_value(dec_digit(d)) == d by {
        assert(((48 + d) as char) as int == 48 + d);
    }
}

/// Distinct registers have distinct names: each name gives back its
/// register's number.
pub proof fn law_names_distinct(r1: u8, r2: u8)
    requires
        r1 < 32,
        r2 < 32,
        r1 != r2,
    ensures
        gpr_name(r1) != gpr_name(r2),
        fpr_name(r1) != fpr_name(r2),
{
    lemma_names_number(r1);
    lemma_names_number(r2);
}

proof fn lemma_names_number(r: u8)
    requires
        r < 32,
    ensures
        gpr_number(gpr_name(r)) == r,
        fpr_number(fpr_name(r)) == r,
{
    law_abi_names(r);
    lemma_digits();
    let n = r as int;
    if n >= 5 {
        let k: int = if n < 8 { n - 5 } else if n < 10 { n - 8 } else if n < 18 { n - 10 } else if n < 28 { n - 16 } else { n - 25 };
        assert(dec_value(dec_digit(k % 10)) == k % 10);
        assert(dec_value(dec_digit(k / 10)) == k / 10 || k < 10);
    }
    let k: int = if n < 8 { n } else if n < 10 { n - 8 } else if n < 18 { n - 10 } else if n < 28 { n - 16 } else { n - 20 };
    assert(dec_value(dec_digit(k % 10)) == k % 10);
    assert(dec_value(dec_digit(k / 10)) == k / 10 || k < 10);
}

} // verus!
