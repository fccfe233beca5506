//! How a byte buffer crosses the boundary between host and query program:
//! its address and its length travel together in one `u64`, one in each
//! 32-bit half.
//!
//! - The host answers its host functions (`host_call`, `return_ty`) with the
//!   length in the higher half and the address in the lower half.
//! - A program returns its result to the host with the address in the
//!   higher half and the length in the lower half.
use vstd::prelude::*;

verus! {

/// The `u64` whose upper 32 bits are `hi` and whose lower 32 bits are `lo`.
pub open spec fn packed(hi: u32, lo: u32) -> u64 {
    (hi as int * 0x1_0000_0000 + lo as int) as u64
}

/// The word by which the host answers a host function with a buffer of
/// `len` bytes at `ptr`: the length high, the address low.
pub open spec fn host_answer_word(ptr: u32, len: u32) -> u64 {
    packed(len, ptr)
}

/// The word by which a program returns a buffer of `len` bytes at `ptr` to
/// the host: the address high, the length low.
pub open spec fn program_result_word(ptr: u32, len: u32) -> u64 {
    packed(ptr, len)
}

/// Packs two halves into one `u64`, `hi` in the upper 32 bits.
pub fn pack_halves(hi: u32, lo: u32) -> (r: u64)
    ensures
        r == packed(hi, lo),
        r as int == hi as int * 0x1_0000_0000 + lo as int,
{
    let r = ((hi as u64) << 32) | (lo as u64);
    assert(((hi as u64) << 32) | (lo as u64) == hi as int * 0x1_0000_0000 + lo as int)
        by (bit_vector);
    r
}

/// Splits a `u64` into its upper and its lower 32 bits.
pub fn unpack_halves(r: u64) -> (res: (u32, u32))
    ensures
        res.0 as int == r as int / 0x1_0000_0000,
        res.1 as int == r as int % 0x1_0000_0000,
{
    let hi = (r >> 32) as u32;
    let lo = (r & 0xffff_ffff) as u32;
    assert((r >> 32) as u32 == r as int / 0x1_0000_0000) by (bit_vector);
    assert((r & 0xffff_ffff) as u32 == r as int % 0x1_0000_0000) by (bit_vector);
    (hi, lo)
}

/// Law: unpacking gives back what was packed.
pub proof fn law_unpack_pack(hi: u32, lo: u32)
    ensures
        packed(hi, lo) as int / 0x1_0000_0000 == hi as int,
        packed(hi, lo) as int % 0x1_0000_0000 == lo as int,
{
    let v = hi as int * 0x1_0000_0000 + lo as int;
    assert(0 <= v <= u64::MAX) by (nonlinear_arith)
        requires
            v == hi as int * 0x1_0000_0000 + lo as int,
            0 <= hi <= u32::MAX,
            0 <= lo <= u32::MAX,
    ;
    assert(v / 0x1_0000_0000 == hi as int && v % 0x1_0000_0000 == lo as int) by (nonlinear_arith)
        requires
            v == hi as int * 0x1_0000_0000 + lo as int,
            0 <= lo < 0x1_0000_0000,
            0 <= hi,
    ;
}

/// Law: every `u64` is the packing of its two halves.
pub proof fn law_pack_unpack(r: u64)
    ensures
        packed((r as int / 0x1_0000_0000) as u32, (r as int % 0x1_0000_0000) as u32) == r,
{
    let hi = r as int / 0x1_0000_0000;
    let lo = r as int % 0x1_0000_0000;
    assert(0 <= hi <= u32::MAX && 0 <= lo <= u32::MAX && hi * 0x1_0000_0000 + lo == r as int)
        by (nonlinear_arith)
        requires
            hi == r as int / 0x1_0000_0000,
            lo == r as int % 0x1_0000_0000,
            0 <= r <= u64::MAX,
    ;
}

} // verus!
