use asm_arch::common::{MemorySize, Reg};
use asm_arch::riscv64::arg::{ArgKind, MemArgKind};
use asm_arch::riscv64::bin::RvAsmWriter;
use asm_arch::riscv64::desugar::{DesugarConfig, DesugaringWriter};
use asm_arch::riscv64::{RegisterClass, RiscV64Arch};
use rv_asm::{Inst, Xlen};

fn reg(r: u8) -> MemArgKind {
    MemArgKind::NoMem(ArgKind::Reg { reg: Reg(r), size: MemorySize::_64 })
}

fn lit(v: u64) -> MemArgKind {
    MemArgKind::NoMem(ArgKind::Lit(v))
}

fn decode(bytes: &[u8]) -> Vec<Inst> {
    bytes
        .chunks(4)
        .map(|c| Inst::decode_normal(u32::from_le_bytes([c[0], c[1], c[2], c[3]]), Xlen::Rv64).unwrap())
        .collect()
}

/// The emitted instructions as assembly text, one per line.
fn listing(d: DesugaringWriter<u32>) -> String {
    let mut out = String::new();
    for i in decode(&d.into_inner().into_bytes()) {
        out.push_str(&format!("{}\n", i));
    }
    out
}

/// The emitted instructions as assembly text, one per line, with each
/// constant load written as the `li` pseudo-instruction, as an assembly
/// writer prints it: a `LUI` and the `ADDI` that completes the same register
/// are one `li` of their sum.
fn listing_li(d: DesugaringWriter<u32>) -> String {
    let insts = decode(&d.into_inner().into_bytes());
    let mut out = String::new();
    let mut i = 0;
    while i < insts.len() {
        if let Inst::Lui { uimm, dest } = insts[i] {
            let mut value = uimm.as_i32() as i64;
            if let Some(Inst::Addi { imm, dest: d2, src1 }) = insts.get(i + 1).copied() {
                if d2 == dest && src1 == dest {
                    value += imm.as_i32() as i64;
                    i += 1;
                }
            }
            out.push_str(&format!("li {}, {}\n", dest, value));
        } else {
            out.push_str(&format!("{}\n", insts[i]));
        }
        i += 1;
    }
    out
}

fn fresh() -> DesugaringWriter<u32> {
    DesugaringWriter::new(RvAsmWriter::new())
}

fn mem_full(base: ArgKind, offset: Option<(ArgKind, u32)>, disp: i32, size: MemorySize, reg_class: RegisterClass) -> MemArgKind {
    MemArgKind::Mem { base, offset, disp, size, reg_class }
}

fn r64(r: u8) -> ArgKind {
    ArgKind::Reg { reg: Reg(r), size: MemorySize::_64 }
}

#[test]
fn test_desugar_scaled_offset() {
    let cfg = RiscV64Arch::default();
    let mut ctx = ();
    let mut desugar = fresh();
    let dest = reg(10);
    let mem = mem_full(r64(5), Some((r64(6), 3)), 8, MemorySize::_64, RegisterClass::Gpr);
    let _ = desugar.ld(&mut ctx, cfg, &dest, &mem);
    let output = listing(desugar);
    assert!(output.contains("sll") || output.contains("slli"));
    assert!(output.contains("add"));
    assert!(output.contains("ld"));
}

#[test]
fn desugar_test_desugar_literal_operand_in_add() {
    let cfg = RiscV64Arch::default();
    let mut ctx = ();
    let mut desugar = fresh();
    let _ = desugar.add(&mut ctx, cfg, &reg(10), &reg(5), &lit(42));
    let output = listing(desugar);
    assert!(output.contains("li"));
    assert!(output.contains("add"));
}

#[test]
fn test_desugar_literal_operand_in_mv() {
    let cfg = RiscV64Arch::default();
    let mut ctx = ();
    let mut desugar = fresh();
    let _ = desugar.mv(&mut ctx, cfg, &reg(10), &lit(123));
    let output = listing(desugar);
    assert!(output.contains("li"));
    assert!(!output.contains("mv"));
}

#[test]
fn test_power_of_two_scale() {
    let cfg = RiscV64Arch::default();
    let mut ctx = ();
    let mut desugar = fresh();
    let mem = mem_full(r64(5), Some((r64(6), 2)), 8, MemorySize::_64, RegisterClass::Gpr);
    let _ = desugar.ld(&mut ctx, cfg, &reg(10), &mem);
    let output = listing(desugar);
    assert!(output.contains("sll") || output.contains("slli"));
}

#[test]
fn test_non_power_of_two_scale() {
    let cfg = RiscV64Arch::default();
    let mut ctx = ();
    let mut desugar = fresh();
    let mem = mem_full(r64(5), Some((r64(6), 3)), 8, MemorySize::_64, RegisterClass::Gpr);
    let _ = desugar.ld(&mut ctx, cfg, &reg(10), &mem);
    let output = listing(desugar);
    assert!(output.contains("sll") || output.contains("slli"));
}

#[test]
fn test_temp_conflict_avoidance() {
    let cfg = RiscV64Arch::default();
    let mut ctx = ();
    let config = DesugarConfig {
        temp_reg: Reg(5),
        temp_reg2: Reg(28),
        temp_reg3: Reg(29),
        save_to_stack_on_conflict: false,
        stack_save_offset: 8,
    };
    let mut desugar = DesugaringWriter::with_config(RvAsmWriter::<u32>::new(), config);
    let mem = mem_full(r64(5), Some((ArgKind::Lit(42), 1)), 8, MemorySize::_64, RegisterClass::Gpr);
    let _ = desugar.ld(&mut ctx, cfg, &reg(10), &mem);
    let output = listing(desugar);
    assert!(output.contains("li") || output.contains("sll") || output.contains("add"));
}

#[test]
fn test_mem_to_mem_operation() {
    let cfg = RiscV64Arch::default();
    let mut ctx = ();
    let mut desugar = fresh();
    let mem_a = mem_full(r64(5), None, 8, MemorySize::_64, RegisterClass::Gpr);
    let mem_b = mem_full(r64(6), None, 16, MemorySize::_64, RegisterClass::Gpr);
    let _ = desugar.add(&mut ctx, cfg, &reg(10), &mem_a, &mem_b);
    let output = listing(desugar);
    let load_count = output.matches("ld").count();
    assert!(load_count >= 2, "Expected at least 2 load instructions for mem→mem operation");
    assert!(output.contains("add"));
}

#[test]
fn test_stack_save_on_conflict() {
    let cfg = RiscV64Arch::default();
    let mut ctx = ();
    let config = DesugarConfig {
        temp_reg: Reg(5),
        temp_reg2: Reg(5),
        temp_reg3: Reg(5),
        save_to_stack_on_conflict: true,
        stack_save_offset: 8,
    };
    let mut desugar = DesugaringWriter::with_config(RvAsmWriter::<u32>::new(), config);
    let mem = mem_full(r64(5), Some((ArgKind::Lit(42), 1)), 8, MemorySize::_64, RegisterClass::Gpr);
    let _ = desugar.ld(&mut ctx, cfg, &reg(10), &mem);
    let output = listing(desugar);
    assert!(output.contains("sd") || output.contains("ld"));
}

#[test]
fn test_preserve_memory_size() {
    let cfg = RiscV64Arch::default();
    for (size, expected_load) in [
        (MemorySize::_8, "lb"),
        (MemorySize::_16, "lh"),
        (MemorySize::_32, "lw"),
        (MemorySize::_64, "ld"),
    ] {
        let mut ctx = ();
        let mut desugar = fresh();
        let mem = mem_full(ArgKind::Reg { reg: Reg(5), size }, None, 8, size, RegisterClass::Gpr);
        let _ = desugar.add(&mut ctx, cfg, &reg(10), &mem, &reg(6));
        let output = listing(desugar);
        assert!(output.contains(expected_load), "Expected {} for size {:?}", expected_load, size);
    }
}

#[test]
fn test_preserve_reg_class() {
    let cfg = RiscV64Arch::default();
    let mut ctx = ();
    let mut desugar = fresh();
    let mem = mem_full(r64(5), None, 8, MemorySize::_64, RegisterClass::Fp);
    let _ = desugar.ld(&mut ctx, cfg, &reg(10), &mem);
    let output = listing(desugar);
    assert!(!output.is_empty());
}

#[test]
fn test_complex_addressing_with_all_features() {
    let cfg = RiscV64Arch::default();
    let mut ctx = ();
    let mut desugar = fresh();
    let mem = mem_full(ArgKind::Lit(0x1000), Some((ArgKind::Lit(42), 3)), 5000, MemorySize::_64, RegisterClass::Gpr);
    let _ = desugar.ld(&mut ctx, cfg, &reg(10), &mem);
    let output = listing(desugar);
    assert!(output.contains("li"));
    assert!(output.contains("sll") || output.contains("add"));
}

// ── exact instruction sequences ─────────────────────────────────────────────

fn insts(d: DesugaringWriter<u32>) -> Vec<Inst> {
    decode(&d.into_inner().into_bytes())
}

#[test]
fn scaled_index_sequence() {
    let cfg = RiscV64Arch::default();
    let mut ctx = ();
    let mut d = fresh();
    let mem = mem_full(r64(5), Some((r64(6), 3)), 100, MemorySize::_64, RegisterClass::Gpr);
    d.ld(&mut ctx, cfg, &reg(10), &mem).unwrap();
    let got = insts(d);
    assert_eq!(got.len(), 4);
    // li t3, 3 ; sll t6, x6, t3 ; add t6, x5, t6 ; ld a0, 100(t6)
    assert_eq!(format!("{}", got[0]), "li t3, 3");
    assert_eq!(format!("{}", got[1]), "sll t6, t1, t3");
    assert_eq!(format!("{}", got[2]), "add t6, t0, t6");
    assert_eq!(format!("{}", got[3]), "ld a0, 100(t6)");
}

#[test]
fn large_displacement_sequence() {
    let cfg = RiscV64Arch::default();
    let mut ctx = ();
    let mut d = fresh();
    let mem = mem_full(r64(5), None, 4096, MemorySize::_64, RegisterClass::Gpr);
    d.ld(&mut ctx, cfg, &reg(10), &mem).unwrap();
    let got: Vec<String> = insts(d).iter().map(|i| format!("{}", i)).collect();
    assert_eq!(got, vec!["lui t6, 1", "add t6, t0, t6", "ld a0, 0(t6)"]);
}

#[test]
fn literal_base_sequence() {
    let cfg = RiscV64Arch::default();
    let mut ctx = ();
    let mut d = fresh();
    let mem = mem_full(ArgKind::Lit(0x1000), None, 8, MemorySize::_64, RegisterClass::Gpr);
    d.ld(&mut ctx, cfg, &reg(10), &mem).unwrap();
    let got: Vec<String> = insts(d).iter().map(|i| format!("{}", i)).collect();
    assert_eq!(got, vec!["lui t6, 1", "ld a0, 8(t6)"]);
}

#[test]
fn large_immediates_go_through_t4() {
    let cfg = RiscV64Arch::default();
    let mut ctx = ();
    let mut d = fresh();
    d.addi(&mut ctx, cfg, &reg(10), &reg(15), 5000).unwrap();
    let got: Vec<String> = insts(d).iter().map(|i| format!("{}", i)).collect();
    assert_eq!(got, vec!["lui t4, 1", "addi t4, t4, 904", "add a0, a5, t4"]);

    let mut d = fresh();
    d.jalr(&mut ctx, cfg, &reg(1), &reg(15), 3000).unwrap();
    let got: Vec<String> = insts(d).iter().map(|i| format!("{}", i)).collect();
    assert_eq!(got, vec!["lui t4, 1", "addi t4, t4, -1096", "add t4, a5, t4", "jalr ra, 0(t4)"]);

    let mut d = fresh();
    d.addi(&mut ctx, cfg, &reg(10), &reg(15), 7).unwrap();
    d.jalr(&mut ctx, cfg, &reg(1), &reg(15), 8).unwrap();
    let got: Vec<String> = insts(d).iter().map(|i| format!("{}", i)).collect();
    assert_eq!(got, vec!["addi a0, a5, 7", "jalr ra, 8(a5)"]);
}

#[test]
fn memory_and_literal_sources_are_loaded() {
    let cfg = RiscV64Arch::default();
    let mut ctx = ();
    let mut d = fresh();
    let m = mem_full(r64(11), None, -16, MemorySize::_32, RegisterClass::Gpr);
    d.sub(&mut ctx, cfg, &reg(10), &m, &lit(9)).unwrap();
    let got: Vec<String> = insts(d).iter().map(|i| format!("{}", i)).collect();
    // the memory operand goes to t6, the literal to the next free temporary (t3)
    assert_eq!(got, vec!["lw t6, -16(a1)", "li t3, 9", "sub a0, t6, t3"]);

    let mut d = fresh();
    let a = mem_full(r64(5), None, 8, MemorySize::_64, RegisterClass::Gpr);
    let b = mem_full(r64(6), None, 16, MemorySize::_8, RegisterClass::Gpr);
    d.bltu(&mut ctx, cfg, &a, &b, &lit(32)).unwrap();
    let got: Vec<String> = insts(d).iter().map(|i| format!("{}", i)).collect();
    assert_eq!(got, vec!["ld t6, 8(t0)", "lb t3, 16(t1)", "bltu t6, t3, 32"]);
}

#[test]
fn register_operands_pass_through() {
    let cfg = RiscV64Arch::default();
    let mut ctx = ();
    let mut d = fresh();
    d.xor(&mut ctx, cfg, &reg(10), &reg(11), &reg(12)).unwrap();
    d.mv(&mut ctx, cfg, &reg(13), &reg(14)).unwrap();
    d.sd(&mut ctx, cfg, &reg(5), &mem_full(r64(2), None, 24, MemorySize::_64, RegisterClass::Gpr)).unwrap();
    d.beq(&mut ctx, cfg, &reg(5), &reg(6), &lit(16)).unwrap();
    d.ebreak(&mut ctx, cfg).unwrap();
    d.ret(&mut ctx, cfg).unwrap();
    let got: Vec<String> = insts(d).iter().map(|i| format!("{}", i)).collect();
    assert_eq!(got, vec!["xor a0, a1, a2", "mv a3, a4", "sd t0, 24(sp)", "beq t0, t1, 16", "ebreak", "ret"]);
}

#[test]
fn spilled_temporary_is_saved_and_restored() {
    let cfg = RiscV64Arch::default();
    let mut ctx = ();
    let config = DesugarConfig {
        temp_reg: Reg(5),
        temp_reg2: Reg(5),
        temp_reg3: Reg(5),
        save_to_stack_on_conflict: true,
        stack_save_offset: 8,
    };
    let mut d = DesugaringWriter::with_config(RvAsmWriter::<u32>::new(), config);
    // the base t0 is the only temporary: the literal index goes through a saved t0
    let mem = mem_full(r64(5), Some((ArgKind::Lit(42), 0)), 8, MemorySize::_64, RegisterClass::Gpr);
    d.ld(&mut ctx, cfg, &reg(10), &mem).unwrap();
    let got: Vec<String> = insts(d).iter().map(|i| format!("{}", i)).collect();
    assert_eq!(
        got,
        vec![
            "addi sp, sp, -32",
            "sd t0, 0(sp)",
            "li t0, 42",
            "ld t0, 0(sp)",
            "addi sp, sp, 32",
            "addi sp, sp, -32",
            "sd t0, 0(sp)",
            "add t0, t0, t0",
            "ld t0, 0(sp)",
            "addi sp, sp, 32",
            "ld a0, 8(t0)",
        ]
    );
}

// ── running the emitted instructions ────────────────────────────────────────

/// Runs the integer instructions of `insts` on `regs`; returns the address
/// of the final load.
fn run_to_load(insts: &[Inst], regs: &mut [u64; 32]) -> u64 {
    let mut addr = None;
    for i in insts {
        let rd = |r: rv_asm::Reg, regs: &[u64; 32]| if r.0 == 0 { 0 } else { regs[r.0 as usize] };
        match *i {
            Inst::Addi { imm, dest, src1 } => regs[dest.0 as usize] = rd(src1, regs).wrapping_add(imm.as_i64() as u64),
            Inst::Lui { uimm, dest } => regs[dest.0 as usize] = uimm.as_i32() as i64 as u64,
            Inst::Slli { imm, dest, src1 } => regs[dest.0 as usize] = rd(src1, regs) << (imm.as_u32() & 63),
            Inst::Add { dest, src1, src2 } => regs[dest.0 as usize] = rd(src1, regs).wrapping_add(rd(src2, regs)),
            Inst::Sll { dest, src1, src2 } => regs[dest.0 as usize] = rd(src1, regs) << (rd(src2, regs) & 63),
            Inst::Ld { offset, base, .. } => addr = Some(rd(base, regs).wrapping_add(offset.as_i64() as u64)),
            ref other => panic!("unexpected instruction {}", other),
        }
    }
    addr.unwrap()
}

#[test]
fn desugared_address_is_the_operand_address() {
    let cfg = RiscV64Arch::default();
    let mut ctx = ();
    let cases: Vec<(ArgKind, Option<(ArgKind, u32)>, i32)> = vec![
        (r64(5), Some((r64(6), 3)), 100),
        (r64(5), Some((r64(6), 0)), -4000),
        (r64(5), None, 100000),
        (ArgKind::Lit(0x1234_5678_9ABC), Some((r64(6), 2)), 12),
        (r64(5), Some((ArgKind::Lit(7), 4)), -3),
        (ArgKind::Lit(0x1000), Some((ArgKind::Lit(42), 0)), 5000),
    ];
    for (base, offset, disp) in cases {
        let mut regs = [0u64; 32];
        regs[5] = 0xFFFF_FFFF_0000_1000;
        regs[6] = 0x321;
        let value = |a: ArgKind, regs: &[u64; 32]| match a {
            ArgKind::Reg { reg, .. } => regs[reg.0 as usize],
            ArgKind::Lit(v) => v,
        };
        let expected = value(base, &regs)
            .wrapping_add(match offset {
                Some((o, scale)) => value(o, &regs) << (scale % 64),
                None => 0,
            })
            .wrapping_add(disp as i64 as u64);
        let mut d = fresh();
        d.ld(&mut ctx, cfg, &reg(10), &mem_full(base, offset, disp, MemorySize::_64, RegisterClass::Gpr)).unwrap();
        let got = run_to_load(&insts(d), &mut regs);
        assert_eq!(got, expected, "{:?} {:?} {}", base, offset, disp);
        // only temporaries were written
        assert_eq!(regs[5], 0xFFFF_FFFF_0000_1000);
        assert_eq!(regs[6], 0x321);
    }
}

#[test]
fn desugared_addi_adds() {
    let cfg = RiscV64Arch::default();
    let mut ctx = ();
    for imm in [5000i32, -5000, 2047, -2048, 0x7FFF_0000, i32::MIN] {
        let mut d = fresh();
        d.addi(&mut ctx, cfg, &reg(10), &reg(15), imm).unwrap();
        let mut regs = [0u64; 32];
        regs[15] = 0x1_0000_0000;
        let mut all = insts(d);
        // a trailing load of 0(a0) exposes the result
        all.push(Inst::Ld { offset: rv_asm::Imm::new_i32(0), dest: rv_asm::Reg(11), base: rv_asm::Reg(10) });
        assert_eq!(run_to_load(&all, &mut regs), 0x1_0000_0000u64.wrapping_add(imm as i64 as u64), "{}", imm);
    }
}

#[test]
fn test_desugar_large_displacement() {
    let cfg = RiscV64Arch::default();
    let mut ctx = ();
    let mut desugar = fresh();
    // memory operand with a displacement too large for 12 bits
    let mem = mem_full(r64(5), None, 4096, MemorySize::_64, RegisterClass::Gpr);
    let _ = desugar.ld(&mut ctx, cfg, &reg(10), &mem);
    let output = listing_li(desugar);
    assert!(output.contains("li") || output.contains("addi"));
}

#[test]
fn test_desugar_literal_base() {
    let cfg = RiscV64Arch::default();
    let mut ctx = ();
    let mut desugar = fresh();
    let mem = mem_full(ArgKind::Lit(0x1000), None, 8, MemorySize::_64, RegisterClass::Gpr);
    let _ = desugar.ld(&mut ctx, cfg, &reg(10), &mem);
    let output = listing_li(desugar);
    assert!(output.contains("li"));
    assert!(output.contains("ld"));
}

#[test]
fn test_desugar_large_addi_immediate() {
    let cfg = RiscV64Arch::default();
    let mut ctx = ();
    let mut desugar = fresh();
    // 5000 does not fit in 12 bits: li + add
    let _ = desugar.addi(&mut ctx, cfg, &reg(10), &reg(5), 5000);
    let output = listing_li(desugar);
    assert!(output.contains("li"));
    assert!(output.contains("add"));
    assert!(!output.contains("addi"));
}

#[test]
fn test_desugar_large_jalr_offset() {
    let cfg = RiscV64Arch::default();
    let mut ctx = ();
    let mut desugar = fresh();
    // 3000 does not fit in 12 bits: li + add + jalr
    let _ = desugar.jalr(&mut ctx, cfg, &reg(1), &reg(5), 3000);
    let output = listing_li(desugar);
    assert!(output.contains("li"));
    assert!(output.contains("add"));
    assert!(output.contains("jalr"));
}

#[test]
fn test_very_large_displacement() {
    let cfg = RiscV64Arch::default();
    let mut ctx = ();
    let mut desugar = fresh();
    let mem = mem_full(r64(5), None, 100000, MemorySize::_64, RegisterClass::Gpr);
    let _ = desugar.ld(&mut ctx, cfg, &reg(10), &mem);
    let output = listing_li(desugar);
    assert!(output.contains("li"));
    assert!(output.contains("add"));
}

#[test]
fn literal_base_and_scaled_literal_index_address() {
    // base 0x1000, index 2 << 1, displacement 8: address 0x100c
    let cfg = RiscV64Arch::default();
    let mut ctx = ();
    let mut desugar = fresh();
    let mem = mem_full(ArgKind::Lit(0x1000), Some((ArgKind::Lit(2), 1)), 8, MemorySize::_64, RegisterClass::Gpr);
    let _ = desugar.ld(&mut ctx, cfg, &reg(10), &mem);
    let output = listing(desugar);
    // the shift amount goes into the result register, not the base's
    assert_eq!(output, "lui t6, 1\nli t3, 2\nli t4, 1\nsll t4, t3, t4\nadd t4, t6, t4\nld a0, 8(t4)\n");
}
