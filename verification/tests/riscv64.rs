use asm_arch::riscv64::reg::{context_handle, reg_name};
use asm_arch::riscv64::RegFormatOpts;
use asm_arch::common::{MemorySize, Reg};
use asm_arch::regalloc::{Cmd, RegAllocFrame, Target};
use asm_arch::riscv64::arg::{ArgKind, MemArgKind};
use asm_arch::riscv64::bin::RvAsmWriter;
use asm_arch::riscv64::encode::{encode, encode_branch, encode_jal, encode_la, funct3_for_cond, AluOp, BranchOp, LoadOp, RvInst, StoreOp};
use asm_arch::riscv64::li::li_insts;
use asm_arch::riscv64::regalloc::{init_regalloc, map_index_to_kind, process_cmd, RegKind};
use asm_arch::riscv64::shim::{convert_register_class, map_x64_register_to_riscv, translate_condition, MemArgAdapter, X64ToRiscV64Shim};
use asm_arch::riscv64::{ConditionCode, DisplayOpts, RegisterClass, RiscV64Arch};
use asm_arch::x86_64::{ArgKind as X64ArgKind, ConditionCode as X64CC, MemArgKind as X64MemArgKind, RegisterClass as X64RegisterClass, ShimLabel, X64Arch};
use rv_asm::{Imm, Inst, Reg as RvReg, Xlen};

fn reg(r: u8) -> MemArgKind {
    MemArgKind::NoMem(ArgKind::Reg { reg: Reg(r), size: MemorySize::_64 })
}

fn lit(v: u64) -> MemArgKind {
    MemArgKind::NoMem(ArgKind::Lit(v))
}

fn mem(base: u8, disp: i32) -> MemArgKind {
    MemArgKind::Mem {
        base: ArgKind::Reg { reg: Reg(base), size: MemorySize::_64 },
        offset: None,
        disp,
        size: MemorySize::_64,
        reg_class: RegisterClass::Gpr,
    }
}

fn words(bytes: &[u8]) -> Vec<u32> {
    bytes.chunks(4).map(|c| u32::from_le_bytes([c[0], c[1], c[2], c[3]])).collect()
}

fn rv(inst: Inst) -> u32 {
    inst.encode_normal(Xlen::Rv64)
}

#[test]
fn rv_asm_backend_set_label_records_byte_offset() {
    let arch = RiscV64Arch::default();
    let mut ctx = ();
    let mut w: RvAsmWriter<u32> = RvAsmWriter::new();

    // Emit two 4-byte instructions (EBREAK)
    w.emit(RvInst::Ebreak);
    w.emit(RvInst::Ebreak);
    assert_eq!(w.offset(), 8);

    // Record label 7 at offset 8
    w.set_label(&mut ctx, arch, 7u32).unwrap();

    // Emit one more instruction
    w.emit(RvInst::Ebreak);

    let (bytes, labels) = w.into_parts();
    assert_eq!(bytes.len(), 12);
    assert_eq!(labels[&7u32], 8);
}

#[test]
fn condition_names() {
    assert_eq!(ConditionCode::EQ.to_string(), "eq");
    assert_eq!(ConditionCode::LTU.to_string(), "ltu");
    assert_eq!(ConditionCode::GEU.to_string(), "geu");
    assert_eq!(ConditionCode::LEU.to_string(), "leu");
}

#[test]
fn arch_presets_and_display_opts() {
    let g = RiscV64Arch::rv64gc();
    assert!(g.m_extension && g.a_extension && g.f_extension && g.d_extension && g.c_extension);
    let i = RiscV64Arch::rv64imfd();
    assert!(i.m_extension && !i.a_extension && i.f_extension && i.d_extension && !i.c_extension);
    let d = RiscV64Arch::default();
    assert!(!d.m_extension && !d.c_extension);
    assert_eq!(DisplayOpts::new(i).reg_class, RegisterClass::Gpr);
    assert_eq!(DisplayOpts::with_reg_class(i, RegisterClass::Fp).reg_class, RegisterClass::Fp);
}

#[test]
fn encoder_matches_rv_asm() {
    let r = RvReg;
    let cases: Vec<(RvInst, Inst)> = vec![
        (RvInst::Ebreak, Inst::Ebreak),
        (RvInst::Lui { dest: 5, uimm: 0x12345 << 12 }, Inst::Lui { dest: r(5), uimm: Imm::new_u32(0x12345 << 12) }),
        (RvInst::Auipc { dest: 7, uimm: 0xFFFFF << 12 }, Inst::Auipc { dest: r(7), uimm: Imm::new_u32(0xFFFFF << 12) }),
        (RvInst::Jal { dest: 1, offset: -2048 }, Inst::Jal { dest: r(1), offset: Imm::new_i32(-2048) }),
        (RvInst::Jal { dest: 0, offset: 0x7FFFE }, Inst::Jal { dest: r(0), offset: Imm::new_i32(0x7FFFE) }),
        (RvInst::Jalr { dest: 0, base: 1, offset: 0 }, Inst::Jalr { dest: r(0), base: r(1), offset: Imm::new_i32(0) }),
        (RvInst::Jalr { dest: 1, base: 6, offset: -4 }, Inst::Jalr { dest: r(1), base: r(6), offset: Imm::new_i32(-4) }),
        (RvInst::Branch { op: BranchOp::Beq, src1: 10, src2: 11, offset: 16 }, Inst::Beq { src1: r(10), src2: r(11), offset: Imm::new_i32(16) }),
        (RvInst::Branch { op: BranchOp::Bne, src1: 1, src2: 2, offset: -8 }, Inst::Bne { src1: r(1), src2: r(2), offset: Imm::new_i32(-8) }),
        (RvInst::Branch { op: BranchOp::Blt, src1: 3, src2: 4, offset: 4094 }, Inst::Blt { src1: r(3), src2: r(4), offset: Imm::new_i32(4094) }),
        (RvInst::Branch { op: BranchOp::Bge, src1: 3, src2: 4, offset: -4096 }, Inst::Bge { src1: r(3), src2: r(4), offset: Imm::new_i32(-4096) }),
        (RvInst::Branch { op: BranchOp::Bltu, src1: 5, src2: 6, offset: 2 }, Inst::Bltu { src1: r(5), src2: r(6), offset: Imm::new_i32(2) }),
        (RvInst::Branch { op: BranchOp::Bgeu, src1: 5, src2: 6, offset: 100 }, Inst::Bgeu { src1: r(5), src2: r(6), offset: Imm::new_i32(100) }),
        (RvInst::Load { op: LoadOp::Lb, dest: 8, base: 2, offset: -1 }, Inst::Lb { dest: r(8), base: r(2), offset: Imm::new_i32(-1) }),
        (RvInst::Load { op: LoadOp::Lh, dest: 8, base: 2, offset: 2 }, Inst::Lh { dest: r(8), base: r(2), offset: Imm::new_i32(2) }),
        (RvInst::Load { op: LoadOp::Lw, dest: 8, base: 2, offset: 2047 }, Inst::Lw { dest: r(8), base: r(2), offset: Imm::new_i32(2047) }),
        (RvInst::Load { op: LoadOp::Ld, dest: 31, base: 8, offset: -2048 }, Inst::Ld { dest: r(31), base: r(8), offset: Imm::new_i32(-2048) }),
        (RvInst::Store { op: StoreOp::Sb, src: 9, base: 2, offset: 7 }, Inst::Sb { src: r(9), base: r(2), offset: Imm::new_i32(7) }),
        (RvInst::Store { op: StoreOp::Sh, src: 9, base: 2, offset: -2 }, Inst::Sh { src: r(9), base: r(2), offset: Imm::new_i32(-2) }),
        (RvInst::Store { op: StoreOp::Sw, src: 9, base: 2, offset: 40 }, Inst::Sw { src: r(9), base: r(2), offset: Imm::new_i32(40) }),
        (RvInst::Store { op: StoreOp::Sd, src: 1, base: 2, offset: -16 }, Inst::Sd { src: r(1), base: r(2), offset: Imm::new_i32(-16) }),
        (RvInst::Addi { dest: 2, src1: 2, imm: -8 }, Inst::Addi { dest: r(2), src1: r(2), imm: Imm::new_i32(-8) }),
        (RvInst::Slli { dest: 5, src1: 5, imm: 12 }, Inst::Slli { dest: r(5), src1: r(5), imm: Imm::new_i32(12) }),
    ];
    for (mine, theirs) in cases {
        assert_eq!(encode(&mine), rv(theirs), "{:?}", mine);
    }
    let ops: Vec<(AluOp, fn(RvReg, RvReg, RvReg) -> Inst)> = vec![
        (AluOp::Add, |dest, src1, src2| Inst::Add { dest, src1, src2 }),
        (AluOp::Sub, |dest, src1, src2| Inst::Sub { dest, src1, src2 }),
        (AluOp::Sll, |dest, src1, src2| Inst::Sll { dest, src1, src2 }),
        (AluOp::Slt, |dest, src1, src2| Inst::Slt { dest, src1, src2 }),
        (AluOp::Sltu, |dest, src1, src2| Inst::Sltu { dest, src1, src2 }),
        (AluOp::Xor, |dest, src1, src2| Inst::Xor { dest, src1, src2 }),
        (AluOp::Srl, |dest, src1, src2| Inst::Srl { dest, src1, src2 }),
        (AluOp::Sra, |dest, src1, src2| Inst::Sra { dest, src1, src2 }),
        (AluOp::Or, |dest, src1, src2| Inst::Or { dest, src1, src2 }),
        (AluOp::And, |dest, src1, src2| Inst::And { dest, src1, src2 }),
        (AluOp::Mul, |dest, src1, src2| Inst::Mul { dest, src1, src2 }),
        (AluOp::Mulh, |dest, src1, src2| Inst::Mulh { dest, src1, src2 }),
        (AluOp::Div, |dest, src1, src2| Inst::Div { dest, src1, src2 }),
        (AluOp::Divu, |dest, src1, src2| Inst::Divu { dest, src1, src2 }),
        (AluOp::Rem, |dest, src1, src2| Inst::Rem { dest, src1, src2 }),
        (AluOp::Remu, |dest, src1, src2| Inst::Remu { dest, src1, src2 }),
    ];
    for (op, make) in ops {
        let mine = RvInst::Op { op, dest: 10, src1: 11, src2: 31 };
        assert_eq!(encode(&mine), rv(make(RvReg(10), RvReg(11), RvReg(31))), "{:?}", mine);
    }
}

#[test]
fn own_jal_branch_and_la_encodings() {
    assert_eq!(encode_jal(1, 8), rv(Inst::Jal { dest: RvReg(1), offset: Imm::new_i32(8) }));
    assert_eq!(encode_jal(0, -4), 0xFFDF_F06F);
    assert_eq!(encode_branch(10, 11, 0, 8), rv(Inst::Beq { src1: RvReg(10), src2: RvReg(11), offset: Imm::new_i32(8) }));
    assert_eq!(encode_branch(11, 10, 4, -12), rv(Inst::Blt { src1: RvReg(11), src2: RvReg(10), offset: Imm::new_i32(-12) }));
    // LA to +0x1804: AUIPC hi = 2, ADDI lo = -0x7FC
    let (auipc, addi) = encode_la(5, 0x1804);
    assert_eq!(auipc, rv(Inst::Auipc { dest: RvReg(5), uimm: Imm::new_u32(2 << 12) }));
    assert_eq!(addi, rv(Inst::Addi { dest: RvReg(5), src1: RvReg(5), imm: Imm::new_i32(-0x7FC) }));
    assert_eq!(funct3_for_cond(ConditionCode::GT), (0b100, true));
    assert_eq!(funct3_for_cond(ConditionCode::GEU), (0b111, false));
}

#[test]
fn writer_instructions() {
    let arch = RiscV64Arch::rv64imfd();
    let mut ctx = ();
    let mut w: RvAsmWriter = RvAsmWriter::new();
    w.ebreak(&mut ctx, arch).unwrap();
    w.mv(&mut ctx, arch, &reg(10), &reg(11)).unwrap();
    w.sd(&mut ctx, arch, &reg(1), &mem(2, 8)).unwrap();
    w.ld(&mut ctx, arch, &reg(1), &mem(2, 8)).unwrap();
    w.add(&mut ctx, arch, &reg(10), &reg(11), &reg(12)).unwrap();
    w.addi(&mut ctx, arch, &reg(2), &reg(2), -16).unwrap();
    w.beq(&mut ctx, arch, &reg(10), &reg(0), &lit(8)).unwrap();
    w.j(&mut ctx, arch, &lit((-8i64) as u64)).unwrap();
    w.ret(&mut ctx, arch).unwrap();
    w.call(&mut ctx, arch, &reg(6)).unwrap();
    w.lui(&mut ctx, arch, &reg(5), 0x12345).unwrap();
    w.mul(&mut ctx, arch, &reg(10), &reg(11), &reg(12)).unwrap();
    let ws = words(&w.into_bytes());
    let r = RvReg;
    assert_eq!(
        ws,
        vec![
            0x0010_0073,
            rv(Inst::Addi { dest: r(10), src1: r(11), imm: Imm::new_i32(0) }),
            rv(Inst::Sd { src: r(1), base: r(2), offset: Imm::new_i32(8) }),
            rv(Inst::Ld { dest: r(1), base: r(2), offset: Imm::new_i32(8) }),
            rv(Inst::Add { dest: r(10), src1: r(11), src2: r(12) }),
            rv(Inst::Addi { dest: r(2), src1: r(2), imm: Imm::new_i32(-16) }),
            rv(Inst::Beq { src1: r(10), src2: r(0), offset: Imm::new_i32(8) }),
            rv(Inst::Jal { dest: r(0), offset: Imm::new_i32(-8) }),
            0x0000_8067,
            rv(Inst::Jalr { dest: r(1), base: r(6), offset: Imm::new_i32(0) }),
            0x1234_52B7,
            rv(Inst::Mul { dest: r(10), src1: r(11), src2: r(12) }),
        ]
    );
}

/// Runs a load-constant sequence on register `rd` (started at `init`).
fn run_li(insts: &[RvInst], rd: u8, init: u64) -> u64 {
    let mut x = init;
    for inst in insts {
        match *inst {
            RvInst::Addi { dest, src1, imm } => {
                assert_eq!(dest, rd);
                let base = if src1 == 0 { 0 } else { assert_eq!(src1, rd); x };
                x = base.wrapping_add(imm as i64 as u64);
            }
            RvInst::Slli { dest, src1, imm } => {
                assert_eq!((dest, src1), (rd, rd));
                x <<= imm;
            }
            RvInst::Lui { dest, uimm } => {
                assert_eq!(dest, rd);
                x = (uimm & 0xFFFF_F000) as i32 as i64 as u64;
            }
            _ => panic!("unexpected instruction {:?}", inst),
        }
    }
    x
}

#[test]
fn li_sequences_load_the_value() {
    assert_eq!(li_insts(10, 5), vec![RvInst::Addi { dest: 10, src1: 0, imm: 5 }]);
    assert_eq!(li_insts(10, (-1i64) as u64), vec![RvInst::Addi { dest: 10, src1: 0, imm: -1 }]);
    assert_eq!(
        li_insts(10, 0x1800),
        vec![RvInst::Lui { dest: 10, uimm: 0x2000 }, RvInst::Addi { dest: 10, src1: 10, imm: -0x800 }]
    );
    assert_eq!(li_insts(10, 0x1000), vec![RvInst::Lui { dest: 10, uimm: 0x1000 }]);
    let values: [u64; 15] = [
        0, 2047, 2048, (-2048i64) as u64, 0x7FFF_F7FF, 0x7FFF_F800, 0x7FFF_FABC, 0x7FFF_FFFF, 0x8000_0000, 0xFFFF_FFFF, 0x1_0000_0000,
        0x1234_5678_9ABC_DEF0, u64::MAX - 1, 0x8000_0000_0000_0000, 0xFFF0_0000_0000_0FFF,
    ];
    for &v in &values {
        let insts = li_insts(13, v);
        assert!(insts.len() <= 11);
        assert_eq!(run_li(&insts, 13, 0xDEAD_BEEF), v, "value {:#x}", v);
    }
}

#[test]
fn li_through_writer() {
    let arch = RiscV64Arch::rv64imfd();
    let mut ctx = ();
    let mut w: RvAsmWriter = RvAsmWriter::new();
    w.li(&mut ctx, arch, &reg(10), 0x1234_5678_9ABC_DEF0).unwrap();
    let n = li_insts(10, 0x1234_5678_9ABC_DEF0).len();
    assert_eq!(w.offset(), 4 * n);
}

#[test]
fn labels_resolve_both_ways() {
    let arch = RiscV64Arch::rv64imfd();
    let mut ctx = ();
    let mut w: RvAsmWriter<u32> = RvAsmWriter::new();
    w.jal_label(&mut ctx, arch, &reg(0), 1).unwrap(); // 0: forward
    w.bcond_label(&mut ctx, arch, ConditionCode::GT, &reg(10), &reg(11), 1).unwrap(); // 4: forward, swapped
    w.la_label(&mut ctx, arch, &reg(5), 1).unwrap(); // 8..16: forward
    w.set_label(&mut ctx, arch, 1).unwrap(); // label at 16
    w.jal_label(&mut ctx, arch, &reg(1), 1).unwrap(); // 16: backward, distance 0
    w.bcond_label(&mut ctx, arch, ConditionCode::EQ, &reg(10), &reg(0), 1).unwrap(); // 20: backward -4
    let (bytes, labels) = w.into_parts();
    let ws = words(&bytes);
    let r = RvReg;
    assert_eq!(labels[&1], 16);
    assert_eq!(ws[0], rv(Inst::Jal { dest: r(0), offset: Imm::new_i32(16) }));
    assert_eq!(ws[1], rv(Inst::Blt { src1: r(11), src2: r(10), offset: Imm::new_i32(12) }));
    assert_eq!(ws[2], rv(Inst::Auipc { dest: r(5), uimm: Imm::new_u32(0) }));
    assert_eq!(ws[3], rv(Inst::Addi { dest: r(5), src1: r(5), imm: Imm::new_i32(8) }));
    assert_eq!(ws[4], rv(Inst::Jal { dest: r(1), offset: Imm::new_i32(0) }));
    assert_eq!(ws[5], rv(Inst::Beq { src1: r(10), src2: r(0), offset: Imm::new_i32(-4) }));
}

#[test]
fn regalloc_commands() {
    let arch = RiscV64Arch::rv64imfd();
    let mut ctx = ();
    let mut w: RvAsmWriter = RvAsmWriter::new();
    let t = Target { reg: 9, kind: 0 };
    process_cmd(&mut w, &mut ctx, arch, &Cmd::Push(t)).unwrap();
    process_cmd(&mut w, &mut ctx, arch, &Cmd::Pop(t)).unwrap();
    process_cmd(&mut w, &mut ctx, arch, &Cmd::GetLocal { dest: t, local: 2 }).unwrap();
    process_cmd(&mut w, &mut ctx, arch, &Cmd::SetLocal { src: t, local: 0 }).unwrap();
    let r = RvReg;
    assert_eq!(
        words(&w.into_bytes()),
        vec![
            rv(Inst::Addi { dest: r(2), src1: r(2), imm: Imm::new_i32(-8) }),
            rv(Inst::Sd { src: r(9), base: r(2), offset: Imm::new_i32(0) }),
            rv(Inst::Ld { dest: r(9), base: r(2), offset: Imm::new_i32(0) }),
            rv(Inst::Addi { dest: r(2), src1: r(2), imm: Imm::new_i32(8) }),
            rv(Inst::Ld { dest: r(9), base: r(8), offset: Imm::new_i32(-24) }),
            rv(Inst::Sd { src: r(9), base: r(8), offset: Imm::new_i32(-8) }),
        ]
    );
    assert_eq!(map_index_to_kind(0, true), RegKind::Float);
    assert_eq!(RegKind::try_from_index(0), Ok(RegKind::Int));
    let ra = init_regalloc::<32>(arch);
    let f = ra.frames();
    for i in 0..32 {
        let reserved = i <= 4 || i == 8;
        assert_eq!(f[0][i] == RegAllocFrame::Reserved, reserved, "x{}", i);
        assert_eq!(f[1][i], RegAllocFrame::Empty);
    }
}

#[test]
fn shim_rules() {
    let plain = X64Arch::default();
    assert_eq!(map_x64_register_to_riscv(Reg(0), plain), Reg(10));
    assert_eq!(map_x64_register_to_riscv(Reg(4), plain), Reg(2));
    assert_eq!(map_x64_register_to_riscv(Reg(5), plain), Reg(8));
    assert_eq!(map_x64_register_to_riscv(Reg(15), plain), Reg(29));
    assert_eq!(map_x64_register_to_riscv(Reg(16), plain), Reg(16));
    assert_eq!(map_x64_register_to_riscv(Reg(29), X64Arch { apx: true }), Reg(21));
    assert_eq!(translate_condition(X64CC::B), ConditionCode::LTU);
    assert_eq!(translate_condition(X64CC::NG), ConditionCode::LE);
    assert_eq!(translate_condition(X64CC::P), ConditionCode::EQ);
    assert_eq!(convert_register_class(X64RegisterClass::Xmm), RegisterClass::Fp);
    assert_eq!(convert_register_class(X64RegisterClass::Gpr), RegisterClass::Gpr);
    let m = X64MemArgKind::Mem {
        base: X64ArgKind::Reg { reg: Reg(4), size: MemorySize::_64 },
        offset: Some((X64ArgKind::Reg { reg: Reg(1), size: MemorySize::_64 }, 3)),
        disp: 0xFFFF_FFF8,
        size: MemorySize::_32,
        reg_class: X64RegisterClass::Gpr,
    };
    assert_eq!(
        MemArgAdapter::new(m, plain).concrete_mem_kind(),
        MemArgKind::Mem {
            base: ArgKind::Reg { reg: Reg(2), size: MemorySize::_64 },
            offset: Some((ArgKind::Reg { reg: Reg(11), size: MemorySize::_64 }, 3)),
            disp: -8,
            size: MemorySize::_32,
            reg_class: RegisterClass::Gpr,
        }
    );
    let mut shim = X64ToRiscV64Shim::with_config(RvAsmWriter::<u32>::new(), RiscV64Arch::rv64gc());
    assert_eq!(shim.next_shim_label(), ShimLabel(0));
    assert_eq!(shim.next_shim_label(), ShimLabel(1));
    assert!(shim.riscv_cfg.c_extension);
    let s2 = X64ToRiscV64Shim::new(RvAsmWriter::<u32>::new());
    assert!(!s2.riscv_cfg.c_extension && s2.riscv_cfg.m_extension);
}

fn x64r(r: u8) -> X64MemArgKind {
    X64MemArgKind::NoMem(X64ArgKind::Reg { reg: Reg(r), size: MemorySize::_64 })
}

fn x64m(base: u8, disp: u32) -> X64MemArgKind {
    X64MemArgKind::Mem {
        base: X64ArgKind::Reg { reg: Reg(base), size: MemorySize::_64 },
        offset: None,
        disp,
        size: MemorySize::_64,
        reg_class: X64RegisterClass::Gpr,
    }
}

fn shim_listing(s: X64ToRiscV64Shim<RvAsmWriter<u32>>) -> Vec<String> {
    words(&s.inner.into_bytes())
        .into_iter()
        .map(|w| format!("{}", Inst::decode_normal(w, Xlen::Rv64).unwrap()))
        .collect()
}

#[test]
fn shim_translations() {
    let a = X64Arch::default();
    let mut ctx = ();
    let mut s = X64ToRiscV64Shim::new(RvAsmWriter::<u32>::new());
    s.hlt(&mut ctx, a).unwrap();
    s.mov(&mut ctx, a, &x64r(0), &x64r(3)).unwrap();
    s.mov(&mut ctx, a, &x64r(0), &x64m(5, 16)).unwrap();
    s.mov(&mut ctx, a, &x64m(5, 8), &x64r(1)).unwrap();
    s.mov(&mut ctx, a, &x64m(5, 8), &x64m(7, 0)).unwrap();
    s.xchg(&mut ctx, a, &x64r(0), &x64r(1)).unwrap();
    s.add(&mut ctx, a, &x64r(0), &x64r(1)).unwrap();
    s.idiv(&mut ctx, a, &x64r(0), &x64r(1)).unwrap();
    s.shr(&mut ctx, a, &x64r(0), &x64r(1)).unwrap();
    s.push(&mut ctx, a, &x64r(3)).unwrap();
    s.pop(&mut ctx, a, &x64r(3)).unwrap();
    s.compare(&mut ctx, a, &x64r(0), &x64r(1)).unwrap();
    s.jcc(&mut ctx, a, X64CC::L, &X64MemArgKind::NoMem(X64ArgKind::Lit(12))).unwrap();
    s.jcc(&mut ctx, a, X64CC::G, &X64MemArgKind::NoMem(X64ArgKind::Lit(8))).unwrap();
    s.ret(&mut ctx, a).unwrap();
    assert_eq!(
        shim_listing(s),
        vec![
            "ebreak",
            "mv a0, s2",
            "ld a0, 16(s0)",
            "sd a1, 8(s0)",
            "ld t5, 0(a4)",
            "sd t5, 8(s0)",
            "mv t5, a0",
            "mv a0, a1",
            "mv a1, t5",
            "add a0, a0, a1",
            "div a0, a0, a1",
            "srl a0, a0, a1",
            "addi sp, sp, -8",
            "sd s2, 0(sp)",
            "ld s2, 0(sp)",
            "addi sp, sp, 8",
            "sub t6, a0, a1",
            "blt t6, zero, 12",
            "bne t6, zero, 8",
            "ret",
        ]
    );
}

#[test]
fn shim_masks_and_constants() {
    let a = X64Arch::default();
    let mut ctx = ();
    let mut s = X64ToRiscV64Shim::new(RvAsmWriter::<u32>::new());
    s.not(&mut ctx, a, &x64r(0)).unwrap();
    s.mov64(&mut ctx, a, &x64r(1), 42).unwrap();
    s.get_ip(&mut ctx, a).unwrap();
    s.pushf(&mut ctx, a).unwrap();
    s.popf(&mut ctx, a).unwrap();
    s.cmovcc64(&mut ctx, a, X64CC::E, &x64r(0), &x64r(1)).unwrap();
    assert_eq!(s.next_shim_label(), ShimLabel(1));
    assert_eq!(
        shim_listing(s),
        vec![
            "li t5, -1",
            "xor a0, a0, t5",
            "li a1, 42",
            "auipc ra, 0",
            "addi sp, sp, -8",
            "sd zero, 0(sp)",
            "addi sp, sp, 8",
            "mv a0, a1",
        ]
    );
    let mut s = X64ToRiscV64Shim::new(RvAsmWriter::<u32>::new());
    s.u32(&mut ctx, a, &x64r(0)).unwrap();
    let got = shim_listing(s);
    // 0xFFFF_FFFF takes more than LUI/ADDI: the last instruction is the AND
    assert_eq!(got.last().unwrap(), "and a0, a0, t5");
    assert!(got.len() > 2);
}

#[test]
fn lib_test_register_display() {
    let cfg = RiscV64Arch::default();
    let reg0 = Reg(0);
    let reg1 = Reg(1);
    let reg2 = Reg(2);
    let reg10 = Reg(10);

    // Test GPR display (64-bit)
    let gpr_opts = RegFormatOpts::default_with_arch(cfg);
    let zero = reg_name(&reg0, &gpr_opts);
    let ra = reg_name(&reg1, &gpr_opts);
    let sp = reg_name(&reg2, &gpr_opts);
    let a0 = reg_name(&reg10, &gpr_opts);

    assert_eq!(zero, "zero");
    assert_eq!(ra, "ra");
    assert_eq!(sp, "sp");
    assert_eq!(a0, "a0");

    // Test FP display
    let fp_opts = RegFormatOpts::with_reg_class(cfg, MemorySize::_64, RegisterClass::Fp);
    let ft0 = reg_name(&reg0, &fp_opts);
    let fa0 = reg_name(&reg10, &fp_opts);

    assert_eq!(ft0, "ft0");
    assert_eq!(fa0, "fa0");
}

#[test]
fn context_loads() {
    let cfg = RiscV64Arch::default();
    assert_eq!(context_handle(&Reg(10), &cfg), (Reg(9), 0x28, 158));
    let mut w = RvAsmWriter::<u32>::new();
    let mut ctx = ();
    w.load_from_context(&mut ctx, &cfg, &Reg(10), true).unwrap();
    let got: Vec<String> = words(&w.into_bytes())
        .into_iter()
        .map(|x| format!("{}", Inst::decode_normal(x, Xlen::Rv64).unwrap()))
        .collect();
    assert_eq!(got, vec!["ld a0, 40(s1)", "ld a0, 158(s1)"]);
}

#[test]
fn shim_label_forwarding() {
    let a = X64Arch::default();
    let mut ctx = ();
    let mut s = X64ToRiscV64Shim::new(RvAsmWriter::<u32>::new());
    s.lea_label(&mut ctx, a, &x64r(0), 9).unwrap();
    s.hlt(&mut ctx, a).unwrap();
    s.set_label(&mut ctx, a, 9).unwrap();
    // JAL zero, +8 once the label is set
    assert_eq!(shim_listing(s), vec!["j 8", "ebreak"]);
    let m = MemArgKind::Mem {
        base: ArgKind::Lit(4),
        offset: Some((ArgKind::Reg { reg: Reg(6), size: MemorySize::_64 }, 1)),
        disp: 0,
        size: MemorySize::_64,
        reg_class: RegisterClass::Gpr,
    };
    assert_eq!(m.mem_regs(), vec![Reg(6)]);
}
