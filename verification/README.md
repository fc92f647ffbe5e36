# asm-arch

Binary assemblers for AArch64 and RISC-V 64, with a stack-based register
allocator, an operand desugaring layer for RISC-V, and shims that lower
x86-64 instructions to either target. Every function is verified with Verus
against a contract stated over mathematical models (instruction words as
spec functions, written bytes as sequences, label maps, register files).

Layout of `src/`:

- `common.rs` — registers, operand sizes, little-endian words.
- `regalloc.rs` — the register allocator (push/pop of virtual stack values,
  locals, eviction and flushing to the native stack).
- `semantics.rs` — data types for the semantics of assembly operations
  (arguments, value trees, computed values).
- `x86_64.rs` — the x86-64 side of the shims: operands, condition codes and
  the status flags a comparison sets.
- `aarch64/` — configuration and condition codes (`mod.rs`), operands
  (`arg.rs`), instruction words (`encode.rs`), the binary writer with labels
  (`bin.rs`), what the words decode to (`decode.rs`), register names and the
  context block (`reg.rs`), allocator integration (`regalloc.rs`), and the
  x86-64 shim (`shim.rs`).
- `riscv64/` — the same for RISC-V 64, plus constant loading (`li.rs`), a
  register-file model of the integer instructions (`sem.rs`) and the operand
  desugaring writer (`desugar.rs`).

The laws of the library are public proof functions named `law_*`.
