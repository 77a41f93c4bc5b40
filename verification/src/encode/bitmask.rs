//! Logical ("bitmask") immediates: a rotated run of ones, replicated across the register.

use vstd::prelude::*;
use vstd::std_specs::bits::{axiom_u64_trailing_ones, u64_trailing_ones};

verus! {

/// The element sizes a logical immediate may repeat with.
pub open spec fn is_element_size(e: u32) -> bool {
    e == 2 || e == 4 || e == 8 || e == 16 || e == 32 || e == 64
}

/// The register width in bits.
pub open spec fn reg_bits(is_64: bool) -> u32 {
    if is_64 { 64 } else { 32 }
}

/// The value as the register sees it: a 32-bit register keeps the low 32 bits.
pub open spec fn reg_value(value: u64, is_64: bool) -> u64 {
    if is_64 { value } else { value & 0xFFFF_FFFF }
}

/// All ones across the register.
pub open spec fn full_mask(is_64: bool) -> u64 {
    if is_64 { 0xFFFF_FFFF_FFFF_FFFF } else { 0xFFFF_FFFF }
}

/// The low `width` bits set.
pub open spec fn low_mask(width: u64) -> u64 {
    if width >= 64 { 0xFFFF_FFFF_FFFF_FFFF } else { ((1u64 << width) - 1) as u64 }
}

/// `x` rotated right by `amount` within a field of `width` bits.
pub open spec fn rotate_within(x: u64, amount: u64, width: u64) -> u64 {
    if amount == 0 { x } else { ((x >> amount) | (x << ((width - amount) as u64))) & low_mask(width) }
}

/// `r` is a non-empty run of ones that starts at bit 0.
pub open spec fn is_low_run(r: u64) -> bool {
    r != 0 && (r >> (u64_trailing_ones(r) as u64)) == 0
}

/// The register value repeats with period `e`.
pub open spec fn is_periodic(v: u64, e: u32, reg: u32) -> bool {
    e == reg || rotate_within(v, e as u64, reg as u64) == v
}

/// The element of size `e` rotated right by `rot`.
pub open spec fn rotated_element(value: u64, is_64: bool, e: u32, rot: u32) -> u64 {
    rotate_within(reg_value(value, is_64) & low_mask(e as u64), rot as u64, e as u64)
}

/// Element size `e` and rotation `rot` describe the value: it repeats with period `e`, and
/// its element rotated right by `rot` is a run of ones at bit 0.
pub open spec fn fits(value: u64, is_64: bool, e: u32, rot: u32) -> bool {
    &&& is_element_size(e)
    &&& e <= reg_bits(is_64)
    &&& rot < e
    &&& is_periodic(reg_value(value, is_64), e, reg_bits(is_64))
    &&& is_low_run(rotated_element(value, is_64, e, rot))
}

/// `(e, rot)` fits, and no pair with a smaller element size, or the same size and a smaller
/// rotation, does.
pub open spec fn first_fit(value: u64, is_64: bool, e: u32, rot: u32) -> bool {
    &&& fits(value, is_64, e, rot)
    &&& forall|e2: u32, r2: u32| (e2 < e || (e2 == e && r2 < rot)) ==> !#[trigger] fits(value, is_64, e2, r2)
}

/// The `(N, immr, imms)` fields for element size `e`, a run of `ones` ones rotated right by
/// `rot` to sit at bit 0: `immr` rotates the run back, `(e - rot) mod e`, and below 64 bits
/// `imms` carries the element size as the prefix `!(2e - 1)`.
pub open spec fn bitmask_fields(e: u32, rot: u32, ones: u32) -> (u32, u32, u32) {
    let immr: u32 = if rot == 0 { 0 } else { (e - rot) as u32 };
    if e == 64 {
        (1, immr, (ones - 1) as u32)
    } else {
        (0, immr, ((!((2 * e - 1) as u32) & 0x3F) | ((ones - 1) as u32)) & 0x3F)
    }
}

/// The logical-immediate fields of `value`, when it has any: the first fitting element size and
/// rotation. Zero and all ones have none.
pub open spec fn spec_encode_bitmask(value: u64, is_64: bool) -> Option<(u32, u32, u32)> {
    let v = reg_value(value, is_64);
    if v == 0 || v == full_mask(is_64) || !(exists|e: u32, rot: u32| fits(value, is_64, e, rot)) {
        None
    } else {
        let (e, rot) = choose|e: u32, rot: u32| first_fit(value, is_64, e, rot);
        Some(bitmask_fields(e, rot, u64_trailing_ones(rotated_element(value, is_64, e, rot))))
    }
}

fn low_mask_exec(width: u64) -> (r: u64)
    requires
        width <= 64,
    ensures
        r == low_mask(width),
{
    if width >= 64 {
        0xFFFF_FFFF_FFFF_FFFF
    } else {
        assert(1u64 << width >= 1) by (bit_vector)
            requires width < 64;
        (1u64 << width) - 1
    }
}

fn rotate_within_exec(x: u64, amount: u64, width: u64) -> (r: u64)
    requires
        amount < width <= 64,
    ensures
        r == rotate_within(x, amount, width),
{
    if amount == 0 {
        x
    } else {
        ((x >> amount) | (x << (width - amount))) & low_mask_exec(width)
    }
}

proof fn lemma_rotate_not_full(v: u64, rot: u64)
    requires
        v != 0xFFFF_FFFF_FFFF_FFFFu64,
        rot < 64,
    ensures
        rotate_within(v, rot, 64) != 0xFFFF_FFFF_FFFF_FFFFu64,
{
    if rot != 0 {
        assert(((v >> rot) | (v << ((64 - rot) as u64))) & 0xFFFF_FFFF_FFFF_FFFFu64 != 0xFFFF_FFFF_FFFF_FFFFu64)
            by (bit_vector)
            requires v != 0xFFFF_FFFF_FFFF_FFFFu64, 0 < rot < 64;
    }
}

proof fn lemma_rotate_below_mask(x: u64, rot: u64, width: u64)
    requires
        rot < width < 64,
        x & low_mask(width) == x,
    ensures
        rotate_within(x, rot, width) & low_mask(width) == rotate_within(x, rot, width),
        rotate_within(x, rot, width) != 0xFFFF_FFFF_FFFF_FFFFu64,
{
    let m = low_mask(width);
    assert(m == ((1u64 << width) - 1) as u64);
    assert(((1u64 << width) - 1) as u64 != 0xFFFF_FFFF_FFFF_FFFFu64) by (bit_vector)
        requires width < 64;
    if rot != 0 {
        let y = ((x >> rot) | (x << ((width - rot) as u64))) & m;
        assert(y & m == y && y != 0xFFFF_FFFF_FFFF_FFFFu64) by (bit_vector)
            requires y == ((x >> rot) | (x << ((width - rot) as u64))) & m, m != 0xFFFF_FFFF_FFFF_FFFFu64;
    } else {
        assert(x != 0xFFFF_FFFF_FFFF_FFFFu64) by (bit_vector)
            requires x & m == x, m != 0xFFFF_FFFF_FFFF_FFFFu64;
    }
}

/// Encode a 64-bit value as an ARM64 logical immediate (N, immr, imms).
///
/// Returns `None` if the value cannot be represented as a logical immediate.
pub fn encode_bitmask_imm(value: u64, is_64: bool) -> (r: Option<(u32, u32, u32)>)
    ensures
        r == spec_encode_bitmask(value, is_64),
        r matches Some((n, immr, imms)) ==> n < 2 && immr < 64 && imms < 64,
{
    let v = if is_64 { value } else { value & 0xFFFF_FFFF };
    if v == 0 {
        return None;
    }
    let full: u64 = if is_64 { 0xFFFF_FFFF_FFFF_FFFF } else { 0xFFFF_FFFF };
    if v == full {
        return None;
    }
    let reg_size: u32 = if is_64 { 64 } else { 32 };
    let ghost v0 = value;
    let mut element_size: u32 = 2;
    while element_size <= reg_size
        invariant
            v0 == value,
            v == reg_value(v0, is_64),
            v != 0,
            v != full_mask(is_64),
            reg_size == reg_bits(is_64),
            element_size == 2 || element_size == 4 || element_size == 8 || element_size == 16
                || element_size == 32 || element_size == 64 || element_size == 128,
            forall|e2: u32, r2: u32| e2 < element_size ==> !#[trigger] fits(v0, is_64, e2, r2),
        decreases 128 - element_size,
    {
        let mask = low_mask_exec(element_size as u64);
        let element = v & mask;
        let periodic = element_size == reg_size || rotate_within_exec(v, element_size as u64, reg_size as u64) == v;
        if periodic {
            let mut rotation: u32 = 0;
            while rotation < element_size
                invariant
                    v0 == value,
                    v == reg_value(v0, is_64),
                    v != 0,
                    v != full_mask(is_64),
                    reg_size == reg_bits(is_64),
                    is_element_size(element_size),
                    element_size <= reg_size,
                    mask == low_mask(element_size as u64),
                    element == v & mask,
                    is_periodic(v, element_size, reg_size),
                    rotation <= element_size,
                    forall|e2: u32, r2: u32| e2 < element_size ==> !#[trigger] fits(v0, is_64, e2, r2),
                    forall|r2: u32| r2 < rotation ==> !#[trigger] fits(v0, is_64, element_size, r2),
                decreases element_size - rotation,
            {
                let rotated = rotate_within_exec(element, rotation as u64, element_size as u64);
                assert(rotated == rotated_element(v0, is_64, element_size, rotation));
                if rotated != 0 {
                    proof {
                        if element_size == 64 {
                            assert(is_64);
                            assert(mask == 0xFFFF_FFFF_FFFF_FFFFu64);
                            assert(element == v) by (bit_vector)
                                requires element == v & mask, mask == 0xFFFF_FFFF_FFFF_FFFFu64;
                            lemma_rotate_not_full(element, rotation as u64);
                        } else {
                            assert(element & mask == element) by (bit_vector)
                                requires element == v & mask;
                            lemma_rotate_below_mask(element, rotation as u64, element_size as u64);
                        }
                        axiom_u64_trailing_ones(rotated);
                    }
                    let ones = rotated.trailing_ones();
                    assert(ones < 64);
                    let remaining = (rotated >> (ones as u64)) & (mask >> (ones as u64));
                    proof {
                        let o = ones as u64;
                        if element_size == 64 {
                            assert(rotated & mask == rotated) by (bit_vector)
                                requires mask == 0xFFFF_FFFF_FFFF_FFFFu64;
                        } else {
                            lemma_rotate_below_mask(element, rotation as u64, element_size as u64);
                        }
                        assert(remaining == 0 <==> (rotated >> o) == 0) by (bit_vector)
                            requires
                                rotated & mask == rotated,
                                remaining == (rotated >> o) & (mask >> o),
                                o < 64;
                    }
                    if remaining == 0 {
                        proof {
                            let o = ones as u64;
                            if ones == 0 {
                                assert(rotated >> 0u64 == rotated) by (bit_vector);
                            }
                            assert(fits(v0, is_64, element_size, rotation));
                            assert(first_fit(v0, is_64, element_size, rotation));
                            let (ce, cr) = choose|e: u32, rot: u32| first_fit(v0, is_64, e, rot);
                            assert(first_fit(v0, is_64, ce, cr));
                            if ce < element_size || (ce == element_size && cr < rotation) {
                                assert(!fits(v0, is_64, ce, cr));
                            }
                            if element_size < ce || (element_size == ce && rotation < cr) {
                                assert(!fits(v0, is_64, element_size, rotation));
                            }
                            assert(ce == element_size && cr == rotation);
                        }
                        let (n, imms) = if element_size == 64 {
                            (1u32, ones - 1)
                        } else {
                            let size_encoding = (!(2 * element_size - 1)) & 0x3F;
                            (0u32, (size_encoding | (ones - 1)) & 0x3F)
                        };
                        assert(imms < 64) by (bit_vector)
                            requires
                                element_size != 64 ==> imms == ((!((2 * element_size - 1) as u32) & 0x3F) | ((ones - 1) as u32)) & 0x3F,
                                element_size == 64 ==> imms == ones - 1,
                                1 <= ones < 64;
                        let immr = if rotation == 0 { 0 } else { element_size - rotation };
                        return Some((n, immr, imms));
                    }
                }
                rotation += 1;
            }
        }
        proof {
            assert forall|e2: u32, r2: u32| e2 < element_size * 2 implies !#[trigger] fits(v0, is_64, e2, r2) by {
                if e2 == element_size && fits(v0, is_64, e2, r2) {
                    assert(!fits(v0, is_64, element_size, r2));
                }
            }
        }
        element_size = element_size * 2;
    }
    proof {
        assert forall|e: u32, rot: u32| !fits(v0, is_64, e, rot) by {
            if fits(v0, is_64, e, rot) {
                assert(e < element_size);
            }
        }
    }
    None
}

/// The element size that ARM's DecodeBitMasks reads from `N` and `imms`: 64 when `N` is set,
/// else 2^k for the highest clear bit k of `imms` (bits 5 to 1); 0 for a reserved encoding.
pub open spec fn decoded_element_size(n: u32, imms: u32) -> u32 {
    if n == 1 {
        64
    } else if imms & 0x20 == 0 {
        32
    } else if imms & 0x10 == 0 {
        16
    } else if imms & 0x08 == 0 {
        8
    } else if imms & 0x04 == 0 {
        4
    } else if imms & 0x02 == 0 {
        2
    } else {
        0
    }
}

/// The element `p` of `e` bits repeated until it fills `width` bits.
pub open spec fn replicate(p: u64, e: u64, width: u64) -> u64
    decreases 128 - e,
{
    if e == 0 || e >= width || e >= 64 {
        p
    } else {
        replicate(p | (p << e), (2 * e) as u64, width)
    }
}

/// ARM's DecodeBitMasks for a logical immediate: `imms` gives the element size and a run of
/// `S + 1` ones, `immr` rotates the run right within the element, and the element is repeated
/// across the register. `None` for a reserved encoding (no element size, one wider than the
/// register, or a run that fills the element).
pub open spec fn decode_bitmask(n: u32, immr: u32, imms: u32, is_64: bool) -> Option<u64> {
    let e = decoded_element_size(n, imms);
    if e == 0 || e > reg_bits(is_64) {
        None
    } else {
        let s = imms & ((e - 1) as u32);
        let r = immr & ((e - 1) as u32);
        if s == e - 1 {
            None
        } else {
            Some(replicate(rotate_within(low_mask((s + 1) as u64), r as u64, e as u64), e as u64, reg_bits(is_64) as u64))
        }
    }
}

/// The fields for element size `e`, rotation `rot` and a run of `ones` ones decode to that
/// element size, run and rotation back.
proof fn lemma_fields_decode(e: u32, rot: u32, ones: u32, n: u32, immr: u32, imms: u32)
    by (bit_vector)
    requires
        e == 2 || e == 4 || e == 8 || e == 16 || e == 32 || e == 64,
        rot < e,
        1 <= ones < e,
        n == (if e == 64 { 1u32 } else { 0u32 }),
        immr == (if rot == 0 { 0u32 } else { (e - rot) as u32 }),
        imms == (if e == 64 { (ones - 1) as u32 } else { ((!((2 * e - 1) as u32) & 0x3F) | ((ones - 1) as u32)) & 0x3F }),
    ensures
        decoded_element_size(n, imms) == e,
        imms & ((e - 1) as u32) == (ones - 1) as u32,
        immr & ((e - 1) as u32) == immr,
{
}

/// An element that, rotated right by `rot`, is a run of `t` ones at bit 0: the run fills the
/// element, or rotating the run right by `(e - rot) mod e` gives the element back.
proof fn lemma_element_from_run(v: u64, rot: u64, e: u64, r: u64, t: u64)
    by (bit_vector)
    requires
        e == 2 || e == 4 || e == 8 || e == 16 || e == 32 || e == 64,
        rot < e,
        r == rotate_within(v & low_mask(e), rot, e),
        r != 0,
        r >> t == 0,
        (!r) << ((64 - t) as u64) == 0,
        t <= 64,
    ensures
        1 <= t,
        t < e ==> rotate_within(low_mask(t), if rot == 0 { 0u64 } else { (e - rot) as u64 }, e) == v & low_mask(e),
        t >= e ==> v & low_mask(e) == low_mask(e),
{
}

/// A value of `reg` bits that repeats with period `e` is its low `2e` bits' element doubled,
/// and repeats with period `2e`; the register masks leave register values as they are.
proof fn lemma_periodic_step(v: u64, e: u64, reg: u64)
    by (bit_vector)
    requires
        e == 2 || e == 4 || e == 8 || e == 16 || e == 32 || e == 64,
        reg == 32 || reg == 64,
    ensures
        v & low_mask(64) == v,
        (v & 0xFFFF_FFFFu64) & low_mask(32) == v & 0xFFFF_FFFFu64,
        low_mask(32) == 0xFFFF_FFFFu64,
        (e < reg && v & low_mask(reg) == v && rotate_within(v, e, reg) == v) ==> {
            &&& ((v & low_mask(e)) | ((v & low_mask(e)) << e)) == v & low_mask((2 * e) as u64)
            &&& (2 * e == reg || rotate_within(v, (2 * e) as u64, reg) == v)
            &&& (low_mask(e) | (low_mask(e) << e)) == low_mask((2 * e) as u64)
        },
{
}

/// A value of `reg` bits that repeats with period `e` is its low element replicated; when that
/// element is all ones, so is the value.
proof fn lemma_replicate_periodic(v: u64, e: u64, reg: u64)
    requires
        e == 2 || e == 4 || e == 8 || e == 16 || e == 32 || e == 64,
        reg == 32 || reg == 64,
        e <= reg,
        v & low_mask(reg) == v,
        e == reg || rotate_within(v, e, reg) == v,
    ensures
        replicate(v & low_mask(e), e, reg) == v,
        v & low_mask(e) == low_mask(e) ==> v == low_mask(reg),
    decreases reg - e,
{
    lemma_periodic_step(v, e, reg);
    if e < reg {
        lemma_replicate_periodic(v, (2 * e) as u64, reg);
    }
}

/// Some fitting element size and rotation is a first one.
proof fn lemma_first_fit_exists(value: u64, is_64: bool, e0: u32, r0: u32)
    requires
        fits(value, is_64, e0, r0),
    ensures
        exists|e: u32, rot: u32| first_fit(value, is_64, e, rot),
    decreases e0, r0,
{
    if !first_fit(value, is_64, e0, r0) {
        let (e2, r2) = choose|e2: u32, r2: u32| (e2 < e0 || (e2 == e0 && r2 < r0)) && #[trigger] fits(value, is_64, e2, r2);
        lemma_first_fit_exists(value, is_64, e2, r2);
    }
}

/// Encoding inverts ARM's DecodeBitMasks: the fields a value encodes to decode to the value as
/// the register holds it.
pub proof fn law_bitmask_decodes(value: u64, is_64: bool)
    requires
        spec_encode_bitmask(value, is_64) is Some,
    ensures
        ({
            let (n, immr, imms) = spec_encode_bitmask(value, is_64)->0;
            decode_bitmask(n, immr, imms, is_64) == Some(reg_value(value, is_64))
        }),
{
    let v = reg_value(value, is_64);
    let reg = reg_bits(is_64);
    let (e0, r0) = choose|e: u32, rot: u32| fits(value, is_64, e, rot);
    lemma_first_fit_exists(value, is_64, e0, r0);
    let (e, rot) = choose|e: u32, rot: u32| first_fit(value, is_64, e, rot);
    assert(fits(value, is_64, e, rot));
    let r = rotated_element(value, is_64, e, rot);
    let t = u64_trailing_ones(r);
    axiom_u64_trailing_ones(r);
    lemma_periodic_step(value, 2, 64);
    assert(v & low_mask(reg as u64) == v);
    lemma_element_from_run(v, rot as u64, e as u64, r, t as u64);
    lemma_replicate_periodic(v, e as u64, reg as u64);
    if t >= e {
        assert(v == full_mask(is_64));
    }
    let (n, immr, imms) = bitmask_fields(e, rot, t);
    lemma_fields_decode(e, rot, t, n, immr, imms);
}

/// Doubling an element of `e` bits keeps it within `2e` bits; a value whose low `2e` bits are
/// that doubled element, and which repeats with period `2e`, repeats with period `e` and has
/// the element as its low `e` bits.
#[verifier::rlimit(100)]
proof fn lemma_replicate_step(q: u64, x: u64, e: u64, reg: u64)
    by (bit_vector)
    requires
        e == 2 || e == 4 || e == 8 || e == 16 || e == 32 || e == 64,
        reg == 32 || reg == 64,
    ensures
        (e < reg && q & low_mask(e) == q) ==> (q | (q << e)) & low_mask((2 * e) as u64) == (q | (q << e)),
        (e < reg && q & low_mask(e) == q && x & low_mask(reg) == x
            && x & low_mask((2 * e) as u64) == (q | (q << e))
            && (2 * e == reg || rotate_within(x, (2 * e) as u64, reg) == x))
            ==> (rotate_within(x, e, reg) == x && x & low_mask(e) == q),
{
}

/// An element of `e` bits replicated across `reg` bits stays within the register, keeps the
/// element as its low bits, and repeats with period `e`.
proof fn lemma_replicate_shape(q: u64, e: u64, reg: u64)
    requires
        e == 2 || e == 4 || e == 8 || e == 16 || e == 32 || e == 64,
        reg == 32 || reg == 64,
        e <= reg,
        q & low_mask(e) == q,
    ensures
        replicate(q, e, reg) & low_mask(reg) == replicate(q, e, reg),
        replicate(q, e, reg) & low_mask(e) == q,
        e == reg || rotate_within(replicate(q, e, reg), e, reg) == replicate(q, e, reg),
    decreases reg - e,
{
    let x = replicate(q, e, reg);
    lemma_replicate_step(q, x, e, reg);
    if e < reg {
        let q2 = q | (q << e);
        lemma_replicate_shape(q2, (2 * e) as u64, reg);
        assert(x == replicate(q2, (2 * e) as u64, reg));
        lemma_replicate_step(q, x, e, reg);
    }
}

/// The decoded fields and the run of `t` ones they describe: the element, the run rotated right
/// by `r`, is a non-empty value below `e` bits that is not all ones, rotating it right by
/// `(e - r) mod e` gives the run back, and the run's bits are what counting trailing ones needs.
#[verifier::rlimit(100)]
proof fn lemma_run_element(t: u64, r: u64, e: u64, rot: u64, tz: u64, reg: u64, e32: u32, imms: u32, immr: u32)
    by (bit_vector)
    requires
        e == 2 || e == 4 || e == 8 || e == 16 || e == 32 || e == 64,
        e32 == 2 || e32 == 4 || e32 == 8 || e32 == 16 || e32 == 32 || e32 == 64,
        reg == 32 || reg == 64,
        e <= reg,
    ensures
        imms & ((e32 - 1) as u32) <= e32 - 1,
        immr & ((e32 - 1) as u32) < e32,
        low_mask(reg) & low_mask(e) == low_mask(e),
        0u64 & low_mask(e) == 0,
        (1 <= t < e && r < e && rot == (if r == 0 { 0u64 } else { (e - r) as u64 })) ==> {
            &&& rotate_within(low_mask(t), r, e) & low_mask(e) == rotate_within(low_mask(t), r, e)
            &&& rotate_within(low_mask(t), r, e) != 0
            &&& rotate_within(low_mask(t), r, e) != low_mask(e)
            &&& rotate_within(rotate_within(low_mask(t), r, e), rot, e) == low_mask(t)
            &&& low_mask(t) != 0
            &&& low_mask(t) >> t == 0
            &&& (low_mask(t) >> t) & 1u64 == 0
            &&& (tz < t ==> (low_mask(t) >> tz) & 1u64 == 1)
        },
{
}

/// A value that some fields decode to has fields: every logical immediate that DecodeBitMasks
/// can produce is encoded.
pub proof fn law_bitmask_complete(value: u64, is_64: bool, n: u32, immr: u32, imms: u32)
    requires
        decode_bitmask(n, immr, imms, is_64) == Some(reg_value(value, is_64)),
    ensures
        spec_encode_bitmask(value, is_64) is Some,
{
    let v = reg_value(value, is_64);
    let reg = reg_bits(is_64);
    let e = decoded_element_size(n, imms);
    let s = imms & ((e - 1) as u32);
    let r = immr & ((e - 1) as u32);
    let t = (s + 1) as u64;
    let rot: u32 = if r == 0 { 0 } else { (e - r) as u32 };
    let p = rotate_within(low_mask(t), r as u64, e as u64);
    let tz = u64_trailing_ones(low_mask(t));
    axiom_u64_trailing_ones(low_mask(t));
    lemma_run_element(t, r as u64, e as u64, rot as u64, tz as u64, reg as u64, e, imms, immr);
    assert(v == replicate(p, e as u64, reg as u64));
    lemma_replicate_shape(p, e as u64, reg as u64);
    lemma_periodic_step(value, 2, 64);
    if (tz as u64) < t {
        assert((low_mask(t) >> (tz as u64)) & 1u64 == 1);
    }
    if (tz as u64) > t {
        assert((low_mask(t) >> t) & 1u64 == 1u64);
    }
    assert(tz as u64 == t);
    assert(rotated_element(value, is_64, e, rot) == low_mask(t));
    assert(fits(value, is_64, e, rot));
    assert(v != full_mask(is_64));
    assert(v != 0);
}

} // verus!
