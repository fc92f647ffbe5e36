//! Register and operand-size types shared by every target, and the
//! little-endian byte layout of instruction words.

use vstd::prelude::*;

verus! {

/// A machine register, named by its number.
#[derive(Clone, Copy, PartialEq, Eq, Debug, Hash, Structural)]
pub struct Reg(pub u8);

/// Size of an operand or of a memory access.
#[derive(Clone, Copy, PartialEq, Eq, Debug, Hash, Structural)]
pub enum MemorySize {
    /// One byte.
    _8,
    /// Two bytes.
    _16,
    /// Four bytes.
    _32,
    /// Eight bytes.
    _64,
}

/// Number of bytes that a size spans.
pub open spec fn size_bytes(s: MemorySize) -> nat {
    match s {
        MemorySize::_8 => 1,
        MemorySize::_16 => 2,
        MemorySize::_32 => 4,
        MemorySize::_64 => 8,
    }
}

impl Default for MemorySize {
    /// Operands are 64 bits wide unless stated otherwise.
    fn default() -> (r: Self)
        ensures
            r == MemorySize::_64,
    {
        MemorySize::_64
    }
}

impl MemorySize {
    /// The number of bytes of this size.
    pub fn bytes(&self) -> (r: u32)
        ensures
            r == size_bytes(*self),
    {
        match self {
            MemorySize::_8 => 1,
            MemorySize::_16 => 2,
            MemorySize::_32 => 4,
            MemorySize::_64 => 8,
        }
    }
}

// ── bytes ────────────────────────────────────────────────────────────────────

/// The four little-endian bytes of a word.
pub open spec fn le_bytes(w: u32) -> Seq<u8> {
    seq![(w & 0xFF) as u8, ((w >> 8) & 0xFF) as u8, ((w >> 16) & 0xFF) as u8, ((w >> 24) & 0xFF) as u8]
}

/// `bytes` with the four bytes at `off` replaced by the word `w`.
pub open spec fn put_word(bytes: Seq<u8>, off: int, w: u32) -> Seq<u8> {
    Seq::new(bytes.len(), |i: int| if off <= i < off + 4 { le_bytes(w)[i - off] } else { bytes[i] })
}

/// The distance from `off` to `target`, truncated to 32 bits.
pub open spec fn rel(target: usize, off: usize) -> i32 {
    (target - off) as i32
}

/// The distance from `off` to `target`, truncated to 32 bits.
pub(crate) fn rel_exec(target: usize, off: usize) -> (d: i32)
    ensures
        d == rel(target, off),
{
    let t = target as u32;
    let o = off as u32;
    let d = t.wrapping_sub(o);
    proof {
        if t - o < 0 {
            assert(((t - o + 0x1_0000_0000) as u32) as i32 == (target - off) as i32) by (bit_vector)
                requires
                    t == target as u32,
                    o == off as u32,
                    t - o < 0,
            ;
        } else {
            assert(((t - o) as u32) as i32 == (target - off) as i32) by (bit_vector)
                requires
                    t == target as u32,
                    o == off as u32,
                    t - o >= 0,
            ;
        }
    }
    d as i32
}

/// Append the four little-endian bytes of `w`.
pub(crate) fn push_word(buf: &mut Vec<u8>, w: u32)
    ensures
        final(buf)@ == old(buf)@ + le_bytes(w),
{
    buf.push((w & 0xFF) as u8);
    buf.push(((w >> 8) & 0xFF) as u8);
    buf.push(((w >> 16) & 0xFF) as u8);
    buf.push(((w >> 24) & 0xFF) as u8);
    assert(final(buf)@ =~= old(buf)@ + le_bytes(w));
}

} // verus!
