//! Assembly target types, binary encoders and a register allocator for
//! AArch64 and RISC-V 64.

pub mod common;
pub mod regalloc;
pub mod aarch64;
pub mod riscv64;
pub mod x86_64;
pub mod semantics;
