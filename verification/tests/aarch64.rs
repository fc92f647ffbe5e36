use asm_arch::aarch64::reg::{context_handle, reg_name};
use asm_arch::aarch64::RegFormatOpts;
use asm_arch::aarch64::arg::{AddressingMode, ArgKind, MemArgKind};
use asm_arch::aarch64::bin::AArch64Writer;
use asm_arch::aarch64::regalloc::{init_regalloc, map_index_to_kind, process_cmd, RegKind};
use asm_arch::aarch64::shim::{map_x64_register_to_aarch64, translate_condition, APXAccess, MemArgAdapter, X64ToAArch64Shim};
use asm_arch::aarch64::{AArch64Arch, ConditionCode, DisplayOpts, RegisterClass};
use asm_arch::common::{MemorySize, Reg};
use asm_arch::regalloc::{Cmd, RegAllocFrame, Target};
use asm_arch::x86_64::{ArgKind as X64ArgKind, ConditionCode as X64CC, MemArgKind as X64MemArgKind, RegisterClass as X64RegisterClass, ShimLabel, X64Arch};

fn reg(r: u8) -> MemArgKind {
    MemArgKind::NoMem(ArgKind::Reg { reg: Reg(r), size: MemorySize::_64 })
}

fn reg32(r: u8) -> MemArgKind {
    MemArgKind::NoMem(ArgKind::Reg { reg: Reg(r), size: MemorySize::_32 })
}

fn lit(v: u64) -> MemArgKind {
    MemArgKind::NoMem(ArgKind::Lit(v))
}

fn mem(base: u8, disp: i32, mode: AddressingMode) -> MemArgKind {
    MemArgKind::Mem {
        base: ArgKind::Reg { reg: Reg(base), size: MemorySize::_64 },
        offset: None,
        disp,
        size: MemorySize::_64,
        reg_class: RegisterClass::Gpr,
        mode,
    }
}

fn words(bytes: &[u8]) -> Vec<u32> {
    bytes.chunks(4).map(|c| u32::from_le_bytes([c[0], c[1], c[2], c[3]])).collect()
}

/// Names the A64 instructions among `ws` that the shim tests look for
/// (BRK, RET, LDR with post-index), by their fixed encoding bits.
fn listing(ws: &[u32]) -> String {
    let mut out = String::new();
    for &w in ws {
        let name = if w & 0xFFE0_001F == 0xD420_0000 {
            "brk"
        } else if w & 0xFFFF_FC1F == 0xD65F_0000 {
            "ret"
        } else if w & 0xFFE0_0C00 == 0xF840_0400 {
            "ldr"
        } else {
            "?"
        };
        out.push_str(name);
        out.push('\n');
    }
    out
}

#[test]
fn test_shim_basic_operations() {
    let mut ctx = ();
    let cfg = X64Arch::default();

    // HLT
    let mut shim = X64ToAArch64Shim::new(AArch64Writer::<ShimLabel>::new());
    shim.hlt(&mut ctx, cfg).unwrap();
    let output = listing(&words(&shim.inner.into_bytes()));
    assert!(output.contains("brk"));

    // RET
    let mut shim = X64ToAArch64Shim::new(AArch64Writer::<ShimLabel>::new());
    shim.ret(&mut ctx, cfg).unwrap();
    let output = listing(&words(&shim.inner.into_bytes()));
    assert!(output.contains("ret"));
}

#[test]
fn test_condition_codes() {
    assert_eq!(ConditionCode::EQ.to_string(), "eq");
    assert_eq!(ConditionCode::NE.to_string(), "ne");
    assert_eq!(ConditionCode::HI.to_string(), "hi");
    assert_eq!(ConditionCode::LS.to_string(), "ls");
    assert_eq!(ConditionCode::GE.to_string(), "ge");
    assert_eq!(ConditionCode::LT.to_string(), "lt");
    assert_eq!(ConditionCode::GT.to_string(), "gt");
    assert_eq!(ConditionCode::LE.to_string(), "le");
}

#[test]
fn bin_set_label_records_byte_offset() {
    let arch = AArch64Arch::default();
    let mut ctx = ();
    let mut w: AArch64Writer<u32> = AArch64Writer::new();

    // Emit two 4-byte instructions (RET = 0xD65F03C0)
    w.emit(0xD65F_03C0);
    w.emit(0xD65F_03C0);
    assert_eq!(w.offset(), 8);

    // Record label 42 at offset 8
    w.set_label(&mut ctx, arch, 42u32).unwrap();

    // Emit one more instruction
    w.emit(0xD420_0000);

    let (bytes, labels) = w.into_parts();
    assert_eq!(bytes.len(), 12);
    assert_eq!(labels[&42u32], 8);
}

#[test]
fn test_condition_translation() {
    assert_eq!(translate_condition(X64CC::E), ConditionCode::EQ);
    assert_eq!(translate_condition(X64CC::NE), ConditionCode::NE);
    assert_eq!(translate_condition(X64CC::B), ConditionCode::LO);
    assert_eq!(translate_condition(X64CC::A), ConditionCode::HI);
    assert_eq!(translate_condition(X64CC::L), ConditionCode::LT);
    assert_eq!(translate_condition(X64CC::G), ConditionCode::GT);
}

#[test]
fn condition_bits_and_remaining_names() {
    assert_eq!(ConditionCode::EQ.bits(), 0);
    assert_eq!(ConditionCode::LE.bits(), 13);
    assert_eq!(ConditionCode::NV.bits(), 15);
    assert_eq!(ConditionCode::HS.to_string(), "hs");
    assert_eq!(ConditionCode::AL.to_string(), "al");
}

#[test]
fn display_opts_constructors() {
    let arch = AArch64Arch::default();
    assert_eq!(DisplayOpts::new(arch).reg_class, RegisterClass::Gpr);
    assert_eq!(DisplayOpts::with_reg_class(arch, RegisterClass::Simd).reg_class, RegisterClass::Simd);
    assert_eq!(DisplayOpts::default().reg_class, RegisterClass::Gpr);
}

#[test]
fn simple_instruction_words() {
    let arch = AArch64Arch::default();
    let mut ctx = ();
    let mut w: AArch64Writer = AArch64Writer::new();
    w.brk(&mut ctx, arch, 0).unwrap();
    w.brk(&mut ctx, arch, 1).unwrap();
    w.ret(&mut ctx, arch).unwrap();
    w.mov(&mut ctx, arch, &reg(0), &reg(1)).unwrap();
    w.mov(&mut ctx, arch, &reg(31), &reg(1)).unwrap();
    w.mov(&mut ctx, arch, &reg32(2), &lit(5)).unwrap();
    w.add(&mut ctx, arch, &reg(0), &reg(1), &reg(2)).unwrap();
    w.add(&mut ctx, arch, &reg(0), &reg(1), &lit(16)).unwrap();
    w.sub(&mut ctx, arch, &reg(31), &reg(31), &lit(16)).unwrap();
    w.mul(&mut ctx, arch, &reg(0), &reg(1), &reg(2)).unwrap();
    w.compare(&mut ctx, arch, &reg(0), &lit(1)).unwrap();
    w.csel(&mut ctx, arch, ConditionCode::NE, &reg(0), &reg(1), &reg(2)).unwrap();
    w.lsl(&mut ctx, arch, &reg(0), &reg(1), &lit(4)).unwrap();
    w.lsr(&mut ctx, arch, &reg(0), &reg(1), &lit(4)).unwrap();
    w.mvn(&mut ctx, arch, &reg(0), &reg(1)).unwrap();
    w.br(&mut ctx, arch, &reg(16)).unwrap();
    let ws = words(&w.into_bytes());
    assert_eq!(
        ws,
        vec![
            0xD420_0000, // brk #0
            0xD420_0020, // brk #1
            0xD65F_03C0, // ret
            0xAA01_03E0, // mov x0, x1
            0x9100_003F, // mov sp, x1
            0x5280_00A2, // mov w2, #5
            0x8B02_0020, // add x0, x1, x2
            0x9100_4020, // add x0, x1, #16
            0xD100_43FF, // sub sp, sp, #16
            0x9B02_7C20, // mul x0, x1, x2
            0xF100_041F, // cmp x0, #1
            0x9A82_1020, // csel x0, x1, x2, ne
            0xD37C_EC20, // lsl x0, x1, #4
            0xD344_FC20, // lsr x0, x1, #4
            0xAA21_03E0, // mvn x0, x1
            0xD61F_0200, // br x16
        ]
    );
}

#[test]
fn load_and_store_words() {
    let arch = AArch64Arch::default();
    let mut ctx = ();
    let mut w: AArch64Writer = AArch64Writer::new();
    w.ldr(&mut ctx, arch, &reg(0), &mem(1, 16, AddressingMode::Offset)).unwrap();
    w.str(&mut ctx, arch, &reg(0), &mem(29, -8, AddressingMode::Offset)).unwrap();
    w.str(&mut ctx, arch, &reg(0), &mem(31, -8, AddressingMode::PreIndex)).unwrap();
    w.ldr(&mut ctx, arch, &reg(0), &mem(31, 8, AddressingMode::PostIndex)).unwrap();
    w.stp(&mut ctx, arch, &reg(29), &reg(30), &mem(31, -16, AddressingMode::PreIndex)).unwrap();
    w.ldp(&mut ctx, arch, &reg(29), &reg(30), &mem(31, 16, AddressingMode::PostIndex)).unwrap();
    let ws = words(&w.into_bytes());
    assert_eq!(
        ws,
        vec![
            0xF940_0820, // ldr x0, [x1, #16]
            0xF81F_83A0, // stur x0, [x29, #-8]
            0xF81F_8FE0, // str x0, [sp, #-8]!
            0xF840_87E0, // ldr x0, [sp], #8
            0xA9BF_7BFD, // stp x29, x30, [sp, #-16]!
            0xA8C1_7BFD, // ldp x29, x30, [sp], #16
        ]
    );
}

#[test]
fn mov_imm_loads_by_chunks() {
    let arch = AArch64Arch::default();
    let mut ctx = ();
    let mut w: AArch64Writer = AArch64Writer::new();
    w.mov_imm(&mut ctx, arch, &reg(3), 0x1234).unwrap();
    assert_eq!(w.offset(), 4);
    w.mov_imm(&mut ctx, arch, &reg(3), 0x1234_5678_9ABC_DEF0).unwrap();
    let ws = words(&w.into_bytes());
    assert_eq!(
        ws,
        vec![
            0xD282_4683, // movz x3, #0x1234
            0xD29B_DE03, // movz x3, #0xdef0
            0xF2B3_5783, // movk x3, #0x9abc, lsl #16
            0xF2CA_CF03, // movk x3, #0x5678, lsl #32
            0xF2E2_4683, // movk x3, #0x1234, lsl #48
        ]
    );
    // Run the words on a 64-bit register: MOVZ sets, MOVK inserts.
    let mut x: u64 = 0xFFFF_FFFF_FFFF_FFFF;
    for word in &ws[1..] {
        let imm = ((word >> 5) & 0xFFFF) as u64;
        let shift = ((word >> 21) & 3) * 16;
        if (word >> 29) & 3 == 2 {
            x = imm << shift;
        } else {
            x = (x & !(0xFFFFu64 << shift)) | (imm << shift);
        }
    }
    assert_eq!(x, 0x1234_5678_9ABC_DEF0);
}

#[test]
fn backward_and_forward_branches_agree() {
    let arch = AArch64Arch::default();
    let mut ctx = ();
    let mut w: AArch64Writer<u32> = AArch64Writer::new();
    // forward reference at 0, label 1 set at 8
    w.b_label(&mut ctx, arch, 1).unwrap();
    w.emit(0xD503_201F);
    w.set_label(&mut ctx, arch, 1).unwrap();
    // backward reference at 8 to label 1 (offset 8): distance 0
    w.b_label(&mut ctx, arch, 1).unwrap();
    // conditional forward reference at 12, to label 2 set at 20
    w.bcond_label(&mut ctx, arch, ConditionCode::EQ, 2).unwrap();
    w.bl_label(&mut ctx, arch, 2).unwrap();
    w.set_label(&mut ctx, arch, 2).unwrap();
    w.adr_label(&mut ctx, arch, &reg(5), 1).unwrap();
    let (bytes, labels) = w.into_parts();
    let ws = words(&bytes);
    assert_eq!(labels[&1], 8);
    assert_eq!(labels[&2], 20);
    assert_eq!(ws[0], 0x1400_0002); // b +8
    assert_eq!(ws[2], 0x1400_0000); // b +0
    assert_eq!(ws[3], 0x5400_0040); // b.eq +8
    assert_eq!(ws[4], 0x9400_0001); // bl +4
    assert_eq!(ws[5], 0x10FF_FFA5); // adr x5, -12
}

#[test]
fn label_left_pending_keeps_placeholder() {
    let arch = AArch64Arch::default();
    let mut ctx = ();
    let mut w: AArch64Writer<u32> = AArch64Writer::new();
    w.b_label(&mut ctx, arch, 9).unwrap();
    w.set_label(&mut ctx, arch, 3).unwrap();
    let (bytes, labels) = w.into_parts();
    assert_eq!(words(&bytes), vec![0x1400_0000]);
    assert_eq!(labels[&3], 4);
    assert!(!labels.contains_key(&9));
}

#[test]
fn regalloc_commands_become_loads_and_stores() {
    let arch = AArch64Arch::default();
    let mut ctx = ();
    let mut w: AArch64Writer = AArch64Writer::new();
    let t = Target { reg: 3, kind: 0 };
    process_cmd(&mut w, &mut ctx, arch, &Cmd::Push(t)).unwrap();
    process_cmd(&mut w, &mut ctx, arch, &Cmd::Pop(t)).unwrap();
    process_cmd(&mut w, &mut ctx, arch, &Cmd::GetLocal { dest: t, local: 0 }).unwrap();
    process_cmd(&mut w, &mut ctx, arch, &Cmd::SetLocal { src: t, local: 1 }).unwrap();
    assert_eq!(
        words(&w.into_bytes()),
        vec![
            0xF81F_8FE3, // str x3, [sp, #-8]!
            0xF840_87E3, // ldr x3, [sp], #8
            0xF85F_83A3, // ldur x3, [x29, #-8]
            0xF81F_03A3, // stur x3, [x29, #-16]
        ]
    );
}

#[test]
fn regalloc_kinds_and_initial_frames() {
    assert_eq!(map_index_to_kind(3, true), RegKind::Float);
    assert_eq!(map_index_to_kind(3, false), RegKind::Int);
    assert_eq!(RegKind::try_from_index(1), Ok(RegKind::Float));
    assert_eq!(RegKind::try_from_index(2), Err(()));
    assert_eq!(RegKind::Float.index(), 1);
    let ra = init_regalloc::<32>(AArch64Arch::default());
    let f = ra.frames();
    assert_eq!(f.len(), 2);
    assert_eq!(f[0][28], RegAllocFrame::Empty);
    assert_eq!(f[0][29], RegAllocFrame::Reserved);
    assert_eq!(f[0][31], RegAllocFrame::Reserved);
    assert_eq!(f[1][31], RegAllocFrame::Empty);
    assert_eq!(ra.tos(), None);
}

#[test]
fn register_map_and_shim_labels() {
    let plain = X64Arch::default();
    let apx = X64Arch { apx: true };
    assert_eq!(map_x64_register_to_aarch64(Reg(0), plain), Reg(0));
    assert_eq!(map_x64_register_to_aarch64(Reg(4), plain), Reg(31));
    assert_eq!(map_x64_register_to_aarch64(Reg(5), plain), Reg(29));
    assert_eq!(map_x64_register_to_aarch64(Reg(15), plain), Reg(12));
    assert_eq!(map_x64_register_to_aarch64(Reg(17), apx), Reg(21));
    assert_eq!(map_x64_register_to_aarch64(Reg(30), apx), Reg(28));
    assert_eq!(map_x64_register_to_aarch64(Reg(17), plain), Reg(17));
    assert_eq!(translate_condition(X64CC::O), ConditionCode::VS);
    assert_eq!(translate_condition(X64CC::P), ConditionCode::AL);
    let mut shim = X64ToAArch64Shim::new(AArch64Writer::<u32>::new());
    assert_eq!(shim.next_shim_label(), ShimLabel(0));
    assert_eq!(shim.next_shim_label(), ShimLabel(1));
}

#[test]
fn memarg_adapter_maps_operands() {
    let plain = X64Arch::default();
    let apx = X64Arch { apx: true };
    let r0 = X64MemArgKind::NoMem(X64ArgKind::Reg { reg: Reg(0), size: MemorySize::_64 });
    match MemArgAdapter::new(r0, plain).concrete_mem_kind() {
        MemArgKind::NoMem(ArgKind::Reg { reg, .. }) => assert_eq!(reg.0, 0),
        other => panic!("Expected NoMem variant, got {:?}", other),
    }
    let m = X64MemArgKind::Mem {
        base: X64ArgKind::Reg { reg: Reg(5), size: MemorySize::_64 },
        offset: None,
        disp: 16,
        size: MemorySize::_64,
        reg_class: X64RegisterClass::Xmm,
    };
    assert_eq!(
        MemArgAdapter::new(m, plain).concrete_mem_kind(),
        MemArgKind::Mem {
            base: ArgKind::Reg { reg: Reg(29), size: MemorySize::_64 },
            offset: None,
            disp: 16,
            size: MemorySize::_64,
            reg_class: RegisterClass::Simd,
            mode: AddressingMode::Offset,
        }
    );
    let r26 = X64MemArgKind::NoMem(X64ArgKind::Reg { reg: Reg(26), size: MemorySize::_64 });
    assert_eq!(MemArgAdapter::new(r26, apx).apx_access(), APXAccess::RegOffset { base: Reg(28), offset_bytes: 16 });
    assert_eq!(MemArgAdapter::new(r26, plain).apx_access(), APXAccess::Direct);
    let r20 = X64MemArgKind::NoMem(X64ArgKind::Reg { reg: Reg(20), size: MemorySize::_64 });
    assert_eq!(MemArgAdapter::new(r20, apx).apx_access(), APXAccess::Direct);
    let idx = X64MemArgKind::Mem {
        base: X64ArgKind::Reg { reg: Reg(3), size: MemorySize::_64 },
        offset: Some((X64ArgKind::Reg { reg: Reg(25), size: MemorySize::_64 }, 2)),
        disp: 0,
        size: MemorySize::_64,
        reg_class: X64RegisterClass::Gpr,
    };
    assert_eq!(MemArgAdapter::new(idx, apx).apx_access(), APXAccess::MemIndex { base: Reg(28), index: 1, scale: 2 });
    let based = X64MemArgKind::Mem {
        base: X64ArgKind::Reg { reg: Reg(24), size: MemorySize::_64 },
        offset: None,
        disp: 0,
        size: MemorySize::_64,
        reg_class: X64RegisterClass::Gpr,
    };
    assert_eq!(MemArgAdapter::new(based, apx).apx_access(), APXAccess::MemBaseOffset { base: Reg(28), added_disp: 0 });
}

#[test]
fn test_memarg_adapter() {
    // Test with a simple register
    let x64_reg = X64MemArgKind::NoMem(X64ArgKind::Reg { reg: Reg(0), size: MemorySize::_64 });
    let adapter = MemArgAdapter::new(x64_reg, X64Arch::default());
    let kind = adapter.concrete_mem_kind();
    // Should convert to a NoMem variant
    match kind {
        MemArgKind::NoMem(arg) => match arg {
            ArgKind::Reg { reg, .. } => {
                assert_eq!(reg.0, 0);
            }
            _ => panic!("Expected register argument"),
        },
        _ => panic!("Expected NoMem variant"),
    }
}

#[test]
fn test_register_display() {
    let cfg = AArch64Arch::default();
    let reg0 = Reg(0);
    let reg1 = Reg(1);
    let reg30 = Reg(30);
    let reg31 = Reg(31);

    // Test GPR display (64-bit)
    let gpr_opts = RegFormatOpts::default_with_arch(cfg);
    let x0 = reg_name(&reg0, &gpr_opts);
    let x1 = reg_name(&reg1, &gpr_opts);
    let x30 = reg_name(&reg30, &gpr_opts);
    let sp = reg_name(&reg31, &gpr_opts);

    assert_eq!(x0, "x0");
    assert_eq!(x1, "x1");
    assert_eq!(x30, "x30");
    assert_eq!(sp, "sp");

    // Test GPR display (32-bit)
    let gpr32_opts = RegFormatOpts::default_with_arch_and_size(cfg, MemorySize::_32);
    let w0 = reg_name(&reg0, &gpr32_opts);
    let w1 = reg_name(&reg1, &gpr32_opts);

    assert_eq!(w0, "w0");
    assert_eq!(w1, "w1");

    // Test SIMD display
    let simd_opts = RegFormatOpts::with_reg_class(cfg, MemorySize::_64, RegisterClass::Simd);
    let v0 = reg_name(&reg0, &simd_opts);
    let v1 = reg_name(&reg1, &simd_opts);

    assert_eq!(v0, "v0.d");
    assert_eq!(v1, "v1.d");
}

#[test]
fn context_loads_and_more_register_names() {
    let cfg = AArch64Arch::default();
    assert_eq!(context_handle(&Reg(3), &cfg), (Reg(9), 0x28, 102));
    assert_eq!(context_handle(&Reg(35), &cfg), (Reg(9), 0x28, 102));
    let mut w = AArch64Writer::<u32>::new();
    let mut ctx = ();
    w.load_from_context(&mut ctx, &cfg, &Reg(3), false).unwrap();
    // LDR x3, [x9, #0x28] and LDR x3, [x9, #102] (unscaled: 102 is not a multiple of 8)
    assert_eq!(words(&w.into_bytes()).len(), 2);
    let simd8 = RegFormatOpts::with_reg_class(cfg, MemorySize::_8, RegisterClass::Simd);
    assert_eq!(reg_name(&Reg(33), &simd8), "v1.b");
    let w32 = RegFormatOpts::default_with_arch_and_size(cfg, MemorySize::_32);
    assert_eq!(reg_name(&Reg(31), &w32), "wsp");
}

#[test]
fn call_goes_through_an_inline_shim() {
    let a = X64Arch::default();
    let mut ctx = ();
    let mut shim = X64ToAArch64Shim::new(AArch64Writer::<usize>::new());
    shim.call(&mut ctx, a, &X64MemArgKind::NoMem(X64ArgKind::Lit(16))).unwrap();
    // the next labels are taken
    assert_eq!(shim.next_shim_label(), ShimLabel(2));
    let (bytes, labels) = shim.inner.into_parts();
    assert_eq!(labels[&0], 4);
    assert_eq!(labels[&1], 12);
    assert_eq!(
        words(&bytes),
        vec![
            0x1400_0003, // b +12 (over the shim)
            0xF81F_8FFE, // str x30, [sp, #-8]!
            0x1400_0004, // b +16 (the target)
            0x97FF_FFFE, // bl -8 (to the shim)
        ]
    );
}

#[test]
fn shim_labels_and_register_moves() {
    let a = X64Arch::default();
    let mut ctx = ();
    let mut shim = X64ToAArch64Shim::new(AArch64Writer::<u32>::new());
    shim.lea_label(&mut ctx, a, &X64MemArgKind::NoMem(X64ArgKind::Reg { reg: Reg(0), size: MemorySize::_64 }), 5).unwrap();
    shim.hlt(&mut ctx, a).unwrap();
    shim.set_label(&mut ctx, a, 5).unwrap();
    let (bytes, labels) = shim.inner.into_parts();
    assert_eq!(labels[&5], 8);
    let ws = words(&bytes);
    // adr x0, +8 once the label is set
    assert_eq!(ws[0], 0x1000_0040);
    assert_eq!(ws[1], 0xD420_0000);

    let mut w = AArch64Writer::<u32>::new();
    w.load_to_reg(&mut ctx, AArch64Arch::default(), &Reg(1), &reg(2)).unwrap();
    w.load_to_reg(&mut ctx, AArch64Arch::default(), &Reg(1), &mem(2, 8, AddressingMode::Offset)).unwrap();
    w.store_from_reg(&mut ctx, AArch64Arch::default(), &mem(2, 8, AddressingMode::Offset), &Reg(1)).unwrap();
    w.store_from_reg(&mut ctx, AArch64Arch::default(), &reg(3), &Reg(1)).unwrap();
    let ws = words(&w.into_bytes());
    assert_eq!(ws, vec![0xAA02_03E1, 0xF940_0441, 0xF900_0441, 0xAA01_03E3]);
}

#[test]
fn operand_registers() {
    let m = MemArgKind::Mem {
        base: ArgKind::Reg { reg: Reg(5), size: MemorySize::_64 },
        offset: Some((ArgKind::Reg { reg: Reg(6), size: MemorySize::_64 }, 3)),
        disp: 8,
        size: MemorySize::_64,
        reg_class: RegisterClass::Gpr,
        mode: AddressingMode::Offset,
    };
    assert_eq!(m.mem_regs(), vec![Reg(5), Reg(6)]);
    assert_eq!(lit(3).mem_regs(), Vec::<Reg>::new());
    assert_eq!(reg(7).mem_regs(), vec![Reg(7)]);
    assert_eq!(ArgKind::Lit(1).regs(), Vec::<Reg>::new());
}

#[test]
fn apx_registers_are_folded_into_their_slots() {
    let arch = X64Arch { apx: true };
    let x28 = ArgKind::Reg { reg: Reg(28), size: MemorySize::_64 };
    // a memory base r26: x28 with its slot offset (16) added to the displacement
    let m1 = X64MemArgKind::Mem {
        base: X64ArgKind::Reg { reg: Reg(26), size: MemorySize::_64 },
        offset: None,
        disp: 4,
        size: MemorySize::_32,
        reg_class: X64RegisterClass::Gpr,
    };
    assert_eq!(
        MemArgAdapter::new(m1, arch).concrete_mem_kind(),
        MemArgKind::Mem { base: x28, offset: None, disp: 20, size: MemorySize::_32, reg_class: RegisterClass::Gpr, mode: AddressingMode::Offset }
    );
    // a direct operand r25: the 64-bit memory operand [x28, #8]
    let r = X64MemArgKind::NoMem(X64ArgKind::Reg { reg: Reg(25), size: MemorySize::_64 });
    assert_eq!(
        MemArgAdapter::new(r, arch).concrete_mem_kind(),
        MemArgKind::Mem { base: x28, offset: None, disp: 8, size: MemorySize::_64, reg_class: RegisterClass::Gpr, mode: AddressingMode::Offset }
    );
    // an index r25 with scale 2: folded into the displacement (8 * 2) and dropped
    let m2 = X64MemArgKind::Mem {
        base: X64ArgKind::Reg { reg: Reg(3), size: MemorySize::_64 },
        offset: Some((X64ArgKind::Reg { reg: Reg(25), size: MemorySize::_64 }, 2)),
        disp: 0,
        size: MemorySize::_64,
        reg_class: X64RegisterClass::Gpr,
    };
    assert_eq!(
        MemArgAdapter::new(m2, arch).concrete_mem_kind(),
        MemArgKind::Mem {
            base: ArgKind::Reg { reg: Reg(19), size: MemorySize::_64 },
            offset: None,
            disp: 16,
            size: MemorySize::_64,
            reg_class: RegisterClass::Gpr,
            mode: AddressingMode::Offset,
        }
    );
    // without APX nothing is folded
    let plain = X64Arch { apx: false };
    assert!(matches!(MemArgAdapter::new(r, plain).concrete_mem_kind(), MemArgKind::NoMem(_)));
}
