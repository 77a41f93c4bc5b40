//! Bit-field insertion helpers for ARM64 instruction words.

use vstd::prelude::*;

verus! {

/// The mask selecting bits `[hi:lo]` of a word.
pub open spec fn field_mask(hi: u32, lo: u32) -> u32 {
    (((1u32 << ((hi - lo + 1) as u32)) - 1) as u32) << lo
}

/// The value held in bits `[hi:lo]` of `x`.
pub open spec fn get_field(x: u32, hi: u32, lo: u32) -> u32 {
    (x >> lo) & (((1u32 << ((hi - lo + 1) as u32)) - 1) as u32)
}

/// `inst` with bits `[hi:lo]` replaced by `value`.
pub open spec fn spec_set_field(inst: u32, hi: u32, lo: u32, value: u32) -> u32 {
    (inst & !field_mask(hi, lo)) | ((value << lo) & field_mask(hi, lo))
}

/// A field `[hi:lo]` that the helpers accept: inside the word and narrower than 32 bits.
pub open spec fn valid_field(hi: u32, lo: u32) -> bool {
    lo <= hi && hi < 32 && hi - lo < 31
}

/// Set bits `[hi:lo]` of `inst` to `value`.
pub fn set_field(inst: u32, hi: u32, lo: u32, value: u32) -> (r: u32)
    requires
        valid_field(hi, lo),
        value < (1u32 << ((hi - lo + 1) as u32)),
    ensures
        r == spec_set_field(inst, hi, lo, value),
{
    let width = hi - lo + 1;
    let mask = ((1u32 << width) - 1) << lo;
    (inst & !mask) | ((value << lo) & mask)
}

/// Writing a field and reading it back gives the written value, and leaves every bit
/// outside the field as it was.
pub proof fn lemma_set_field_get(inst: u32, hi: u32, lo: u32, value: u32)
    requires
        valid_field(hi, lo),
        value < (1u32 << ((hi - lo + 1) as u32)),
    ensures
        get_field(spec_set_field(inst, hi, lo, value), hi, lo) == value,
        spec_set_field(inst, hi, lo, value) & !field_mask(hi, lo) == inst & !field_mask(hi, lo),
{
    assert(get_field(spec_set_field(inst, hi, lo, value), hi, lo) == value
        && spec_set_field(inst, hi, lo, value) & !field_mask(hi, lo) == inst & !field_mask(hi, lo)) by (bit_vector)
        requires
            lo <= hi && hi < 32 && hi - lo < 31,
            value < (1u32 << ((hi - lo + 1) as u32)),
    ;
}

/// Values of `1 << w` for the field widths the encoders use.
pub proof fn lemma_field_limits()
    ensures
        (1u32 << 1u32) == 2u32,
        (1u32 << 2u32) == 4u32,
        (1u32 << 3u32) == 8u32,
        (1u32 << 4u32) == 16u32,
        (1u32 << 5u32) == 32u32,
        (1u32 << 6u32) == 64u32,
        (1u32 << 7u32) == 128u32,
        (1u32 << 8u32) == 256u32,
        (1u32 << 9u32) == 512u32,
        (1u32 << 10u32) == 1024u32,
        (1u32 << 11u32) == 2048u32,
        (1u32 << 12u32) == 4096u32,
        (1u32 << 13u32) == 8192u32,
        (1u32 << 14u32) == 16384u32,
        (1u32 << 15u32) == 32768u32,
        (1u32 << 16u32) == 65536u32,
        (1u32 << 17u32) == 131072u32,
        (1u32 << 18u32) == 262144u32,
        (1u32 << 19u32) == 524288u32,
        (1u32 << 20u32) == 1048576u32,
        (1u32 << 21u32) == 2097152u32,
        (1u32 << 22u32) == 4194304u32,
        (1u32 << 23u32) == 8388608u32,
        (1u32 << 24u32) == 16777216u32,
        (1u32 << 25u32) == 33554432u32,
        (1u32 << 26u32) == 67108864u32,
        (1u32 << 27u32) == 134217728u32,
        (1u32 << 28u32) == 268435456u32,
        (1u32 << 29u32) == 536870912u32,
        (1u32 << 30u32) == 1073741824u32,
        (1u32 << 31u32) == 2147483648u32,
{
    assert(
        (1u32 << 1u32) == 2u32 &&
        (1u32 << 2u32) == 4u32 &&
        (1u32 << 3u32) == 8u32 &&
        (1u32 << 4u32) == 16u32 &&
        (1u32 << 5u32) == 32u32 &&
        (1u32 << 6u32) == 64u32 &&
        (1u32 << 7u32) == 128u32 &&
        (1u32 << 8u32) == 256u32 &&
        (1u32 << 9u32) == 512u32 &&
        (1u32 << 10u32) == 1024u32 &&
        (1u32 << 11u32) == 2048u32 &&
        (1u32 << 12u32) == 4096u32 &&
        (1u32 << 13u32) == 8192u32 &&
        (1u32 << 14u32) == 16384u32 &&
        (1u32 << 15u32) == 32768u32 &&
        (1u32 << 16u32) == 65536u32 &&
        (1u32 << 17u32) == 131072u32 &&
        (1u32 << 18u32) == 262144u32 &&
        (1u32 << 19u32) == 524288u32 &&
        (1u32 << 20u32) == 1048576u32 &&
        (1u32 << 21u32) == 2097152u32 &&
        (1u32 << 22u32) == 4194304u32 &&
        (1u32 << 23u32) == 8388608u32 &&
        (1u32 << 24u32) == 16777216u32 &&
        (1u32 << 25u32) == 33554432u32 &&
        (1u32 << 26u32) == 67108864u32 &&
        (1u32 << 27u32) == 134217728u32 &&
        (1u32 << 28u32) == 268435456u32 &&
        (1u32 << 29u32) == 536870912u32 &&
        (1u32 << 30u32) == 1073741824u32 &&
        (1u32 << 31u32) == 2147483648u32
    ) by (bit_vector);
}

/// Set Rd field (bits [4:0]).
pub fn set_rd(inst: u32, rd: u8) -> (r: u32)
    requires
        rd < 32,
    ensures
        r == spec_set_field(inst, 4, 0, rd as u32),
{
    proof { lemma_field_limits(); }
    set_field(inst, 4, 0, rd as u32)
}

/// Set Rn field (bits [9:5]).
pub fn set_rn(inst: u32, rn: u8) -> (r: u32)
    requires
        rn < 32,
    ensures
        r == spec_set_field(inst, 9, 5, rn as u32),
{
    proof { lemma_field_limits(); }
    set_field(inst, 9, 5, rn as u32)
}

/// Set Rm field (bits [20:16]).
pub fn set_rm(inst: u32, rm: u8) -> (r: u32)
    requires
        rm < 32,
    ensures
        r == spec_set_field(inst, 20, 16, rm as u32),
{
    proof { lemma_field_limits(); }
    set_field(inst, 20, 16, rm as u32)
}

/// `inst` with the sf bit (bit 31) set for 64-bit and cleared for 32-bit operation.
pub open spec fn spec_set_sf(inst: u32, is_64: bool) -> u32 {
    if is_64 { inst | 0x8000_0000 } else { inst & 0x7FFF_FFFF }
}

/// Set sf bit (bit 31) — 1 for 64-bit, 0 for 32-bit.
pub fn set_sf(inst: u32, is_64: bool) -> (r: u32)
    ensures
        r == spec_set_sf(inst, is_64),
{
    assert(inst | (1u32 << 31u32) == inst | 0x8000_0000 && inst & !(1u32 << 31u32) == inst & 0x7FFF_FFFF) by (bit_vector);
    if is_64 {
        inst | (1u32 << 31u32)
    } else {
        inst & !(1u32 << 31u32)
    }
}

/// Set Rt field (bits [4:0]) — same position as Rd, used for load/store.
pub fn set_rt(inst: u32, rt: u8) -> (r: u32)
    requires
        rt < 32,
    ensures
        r == spec_set_field(inst, 4, 0, rt as u32),
{
    set_rd(inst, rt)
}

/// Set Rt2 field (bits [14:10]) — second register for LDP/STP.
pub fn set_rt2(inst: u32, rt2: u8) -> (r: u32)
    requires
        rt2 < 32,
    ensures
        r == spec_set_field(inst, 14, 10, rt2 as u32),
{
    proof { lemma_field_limits(); }
    set_field(inst, 14, 10, rt2 as u32)
}

/// The low `width` bits of a signed value, as an unsigned field value.
pub open spec fn spec_truncate_imm(value: i64, width: u32) -> u32 {
    (value as u32) & (((1u32 << width) - 1) as u32)
}

/// Truncate a signed value to `width` bits (mask off upper bits).
pub fn truncate_imm(value: i64, width: u32) -> (r: u32)
    requires
        1 <= width < 32,
    ensures
        r == spec_truncate_imm(value, width),
        r < (1u32 << width),
{
    assert(1u32 << width >= 1 && (value as u32) & (((1u32 << width) - 1) as u32) < (1u32 << width)) by (bit_vector)
        requires 1 <= width < 32;
    (#[verifier::truncate] (value as u32)) & ((1u32 << width) - 1)
}

} // verus!
