use vstd::prelude::*;

use crate::constants::AUDIO_BLOCK_SAMPLES;

verus! {

/// `v` clamped to the 16-bit signed range.
pub open spec fn sat16(v: int) -> i16 {
    if v > 32767 {
        32767i16
    } else if v < -32768 {
        -32768i16
    } else {
        v as i16
    }
}

/// `x` scaled by a gain in fixed point with `shift` fractional bits, rounded toward minus
/// infinity, then clamped: `sat16(floor(x * gain / 2^shift))`.
pub open spec fn scaled(x: int, gain: int, shift: nat) -> i16 {
    sat16((x * gain) / (pow2(shift) as int))
}

/// `2^n`.
pub open spec fn pow2(n: nat) -> nat
    decreases n,
{
    if n == 0 {
        1
    } else {
        2 * pow2((n - 1) as nat)
    }
}

/// Arithmetic right shift by 15 rounds toward minus infinity.
pub proof fn lemma_shr15(x: i32)
    ensures
        (x >> 15u32) as int == x as int / 32768,
{
    if x >= 0 {
        assert(x >= 0 ==> (x >> 15u32) == x / 32768i32) by (bit_vector);
    } else {
        assert(x < 0 ==> x >> 15u32 == !((!x) >> 15u32)) by (bit_vector);
        assert(!x == -1i32 - x) by (bit_vector);
        let y = !x;
        assert(y >= 0 ==> (y >> 15u32) == y / 32768i32) by (bit_vector);
        let q = y >> 15u32;
        assert(!q == -1i32 - q) by (bit_vector);
    }
}

/// Arithmetic right shift by 16 rounds toward minus infinity.
pub proof fn lemma_shr16(x: i64)
    ensures
        (x >> 16u64) as int == x as int / 65536,
{
    if x >= 0 {
        assert(x >= 0 ==> (x >> 16u64) == x / 65536i64) by (bit_vector);
    } else {
        assert(x < 0 ==> x >> 16u64 == !((!x) >> 16u64)) by (bit_vector);
        assert(!x == -1i64 - x) by (bit_vector);
        let y = !x;
        assert(y >= 0 ==> (y >> 16u64) == y / 65536i64) by (bit_vector);
        let q = y >> 16u64;
        assert(!q == -1i64 - q) by (bit_vector);
    }
}

/// `val` shifted right arithmetically by `RSHIFT`, then clamped to the signed range of
/// `BITS` bits, `-(2^(BITS-1))..=2^(BITS-1) - 1`.
pub fn signed_saturate_rshift<const BITS: u32, const RSHIFT: u32>(val: i32) -> (r: i32)
    requires
        1 <= BITS <= 31,
        RSHIFT < 32,
    ensures
        ({
            let shifted = val >> RSHIFT;
            let max = ((1i32 << (BITS - 1) as u32) - 1) as i32;
            let min = (-(1i32 << (BITS - 1) as u32)) as i32;
            r == if shifted > max {
                max
            } else if shifted < min {
                min
            } else {
                shifted
            }
        }),
{
    let k: u32 = BITS - 1;
    proof {
        assert(k < 31 ==> 1i32 <= (1i32 << k) && (1i32 << k) <= 0x4000_0000i32) by (bit_vector);
    }
    let shifted = val >> RSHIFT;
    let max = (1i32 << k) - 1;
    let min = -(1i32 << k);
    if shifted > max {
        max
    } else if shifted < min {
        min
    } else {
        shifted
    }
}

/// Clamp an `i32` to the `i16` range.
pub fn saturate16(val: i32) -> (r: i16)
    ensures
        r == sat16(val as int),
{
    if val > 32767 {
        32767
    } else if val < -32768 {
        -32768
    } else {
        val as i16
    }
}

/// Saturating multiply of two Q15 values: `(a * b) >> 15`, clamped.
pub fn saturating_multiply_q15(a: i16, b: i16) -> (r: i16)
    ensures
        r == scaled(a as int, b as int, 15),
{
    proof {
        assert(-32768 * 32768 <= (a as int) * (b as int) <= 32768 * 32768) by (nonlinear_arith)
            requires
                -32768 <= a <= 32767,
                -32768 <= b <= 32767,
        ;
    }
    let p = a as i32 * b as i32;
    proof {
        lemma_shr15(p);
        reveal_with_fuel(pow2, 16);
    }
    saturate16(p >> 15u32)
}

/// Saturating addition of two Q15 values.
pub fn saturating_add_q15(a: i16, b: i16) -> (r: i16)
    ensures
        r == sat16(a + b),
{
    saturate16(a as i32 + b as i32)
}

/// `x * gain` scaled by `2^-16` and clamped, computed in 64 bits.
pub fn gain_q16(x: i16, gain: i32) -> (r: i16)
    ensures
        r == scaled(x as int, gain as int, 16),
{
    proof {
        assert(-2147483648 * 32768 <= (x as int) * (gain as int) <= 2147483648 * 32768) by (nonlinear_arith)
            requires
                -32768 <= x <= 32767,
                -2147483648 <= gain <= 2147483647,
        ;
    }
    let p = (x as i64) * (gain as i64);
    proof {
        lemma_shr16(p);
        reveal_with_fuel(pow2, 17);
        assert(p / 65536 <= i32::MAX && p / 65536 >= i32::MIN);
    }
    let v = p >> 16u64;
    saturate16(v as i32)
}

/// Multiply every sample by a Q15 gain, clamping: `saturate16((sample * gain) >> 15)`.
pub fn block_multiply(block: &mut [i16; AUDIO_BLOCK_SAMPLES], gain: i32)
    requires
        forall|i: int|
            0 <= i < AUDIO_BLOCK_SAMPLES ==> i32::MIN <= #[trigger] old(block)@[i] * gain <= i32::MAX,
    ensures
        forall|i: int|
            0 <= i < AUDIO_BLOCK_SAMPLES ==> #[trigger] final(block)@[i] == scaled(
                old(block)@[i] as int,
                gain as int,
                15,
            ),
{
    let mut i: usize = 0;
    while i < AUDIO_BLOCK_SAMPLES
        invariant
            i <= AUDIO_BLOCK_SAMPLES,
            forall|k: int|
                0 <= k < AUDIO_BLOCK_SAMPLES ==> i32::MIN <= #[trigger] old(block)@[k] * gain
                    <= i32::MAX,
            forall|k: int| i <= k < AUDIO_BLOCK_SAMPLES ==> #[trigger] block@[k] == old(block)@[k],
            forall|k: int|
                0 <= k < i ==> #[trigger] block@[k] == scaled(old(block)@[k] as int, gain as int, 15),
        decreases AUDIO_BLOCK_SAMPLES - i,
    {
        let p = block[i] as i32 * gain;
        proof {
            lemma_shr15(p);
            reveal_with_fuel(pow2, 16);
        }
        block[i] = saturate16(p >> 15u32);
        i = i + 1;
    }
}

/// Saturating-add `src` into `dst`, sample by sample.
pub fn block_accumulate(dst: &mut [i16; AUDIO_BLOCK_SAMPLES], src: &[i16; AUDIO_BLOCK_SAMPLES])
    ensures
        forall|i: int|
            0 <= i < AUDIO_BLOCK_SAMPLES ==> #[trigger] final(dst)@[i] == sat16(
                old(dst)@[i] + src@[i],
            ),
{
    let mut i: usize = 0;
    while i < AUDIO_BLOCK_SAMPLES
        invariant
            i <= AUDIO_BLOCK_SAMPLES,
            forall|k: int| i <= k < AUDIO_BLOCK_SAMPLES ==> #[trigger] dst@[k] == old(dst)@[k],
            forall|k: int| 0 <= k < i ==> #[trigger] dst@[k] == sat16(old(dst)@[k] + src@[k]),
        decreases AUDIO_BLOCK_SAMPLES - i,
    {
        dst[i] = saturate16(dst[i] as i32 + src[i] as i32);
        i = i + 1;
    }
}

/// The lower 16-bit lane of a word, as a signed sample.
pub open spec fn lo16(x: u32) -> i16 {
    x as i16
}

/// The upper 16-bit lane of a word, as a signed sample.
pub open spec fn hi16(x: u32) -> i16 {
    (x >> 16u32) as i16
}

/// A word of two 16-bit lanes.
pub open spec fn lanes(hi: i16, lo: i16) -> u32 {
    (((hi as u16) as u32) << 16u32) | ((lo as u16) as u32)
}

/// Arithmetic right shift by 32 rounds toward minus infinity.
pub proof fn lemma_shr32(x: i64)
    ensures
        (x >> 32u64) as int == x as int / 0x1_0000_0000,
{
    if x >= 0 {
        assert(x >= 0 ==> (x >> 32u64) == x / 0x1_0000_0000i64) by (bit_vector);
    } else {
        assert(x < 0 ==> x >> 32u64 == !((!x) >> 32u64)) by (bit_vector);
        assert(!x == -1i64 - x) by (bit_vector);
        let y = !x;
        assert(y >= 0 ==> (y >> 32u64) == y / 0x1_0000_0000i64) by (bit_vector);
        let q = y >> 32u64;
        assert(!q == -1i64 - q) by (bit_vector);
    }
}

proof fn lemma_mul_bounds(a: int, b: int, ma: int, mb: int)
    requires
        -ma <= a <= ma,
        -mb <= b <= mb,
        ma >= 0,
        mb >= 0,
    ensures
        -(ma * mb) <= a * b <= ma * mb,
{
    assert(-(ma * mb) <= a * b <= ma * mb) by (nonlinear_arith)
        requires
            -ma <= a <= ma,
            -mb <= b <= mb,
            ma >= 0,
            mb >= 0,
    ;
}

/// `(a * b) >> 16` with `b` the signed lower lane of `b`.
pub fn mul_32x16b(a: i32, b: u32) -> (r: i32)
    ensures
        r == (a as int * lo16(b) as int) / 65536,
{
    let x = b as i16 as i64;
    proof {
        lemma_mul_bounds(a as int, x as int, 0x8000_0000, 0x8000);
    }
    let p = a as i64 * x;
    proof {
        lemma_shr16(p);
    }
    (p >> 16u64) as i32
}

/// `(a * b) >> 16` with `b` the signed upper lane of `b`.
pub fn mul_32x16t(a: i32, b: u32) -> (r: i32)
    ensures
        r == (a as int * hi16(b) as int) / 65536,
{
    let x = (b >> 16u32) as i16 as i64;
    proof {
        lemma_mul_bounds(a as int, x as int, 0x8000_0000, 0x8000);
    }
    let p = a as i64 * x;
    proof {
        lemma_shr16(p);
    }
    (p >> 16u64) as i32
}

/// `(a * b) >> 32`: the upper word of the 64-bit product.
pub fn mul_32x32_rshift32(a: i32, b: i32) -> (r: i32)
    ensures
        r == (a as int * b as int) / 0x1_0000_0000,
{
    proof {
        lemma_mul_bounds(a as int, b as int, 0x8000_0000, 0x8000_0000);
    }
    let p = a as i64 * b as i64;
    proof {
        lemma_shr32(p);
    }
    (p >> 32u64) as i32
}

/// `(a * b + 2^31) >> 32`: the upper word of the product, rounded to nearest.
pub fn mul_32x32_rshift32_rounded(a: i32, b: i32) -> (r: i32)
    ensures
        r == (a as int * b as int + 0x8000_0000) / 0x1_0000_0000,
{
    proof {
        lemma_mul_bounds(a as int, b as int, 0x8000_0000, 0x8000_0000);
    }
    let p = a as i64 * b as i64 + 0x8000_0000i64;
    proof {
        lemma_shr32(p);
    }
    (p >> 32u64) as i32
}

/// `sum` plus the rounded upper word of `a * b`.
pub fn multiply_accumulate_32x32_rshift32_rounded(sum: i32, a: i32, b: i32) -> (r: i32)
    requires
        i32::MIN <= sum + (a as int * b as int + 0x8000_0000) / 0x1_0000_0000 <= i32::MAX,
    ensures
        r == sum + (a as int * b as int + 0x8000_0000) / 0x1_0000_0000,
{
    sum + mul_32x32_rshift32_rounded(a, b)
}

/// `sum` minus the rounded upper word of `a * b`.
pub fn multiply_subtract_32x32_rshift32_rounded(sum: i32, a: i32, b: i32) -> (r: i32)
    requires
        i32::MIN <= sum - (a as int * b as int + 0x8000_0000) / 0x1_0000_0000 <= i32::MAX,
    ensures
        r == sum - (a as int * b as int + 0x8000_0000) / 0x1_0000_0000,
{
    sum - mul_32x32_rshift32_rounded(a, b)
}

/// The lower half of `a` above the lower half of `b`.
pub fn pack_16b_16b(a: i32, b: i32) -> (r: u32)
    ensures
        r == ((a as u32) << 16u32) | ((b as u32) & 0xFFFFu32),
{
    ((a as u32) << 16u32) | ((b as u32) & 0xFFFFu32)
}

/// The upper half of `a` above the lower half of `b`.
pub fn pack_16t_16b(a: i32, b: i32) -> (r: u32)
    ensures
        r == ((a as u32) & 0xFFFF_0000u32) | ((b as u32) & 0xFFFFu32),
{
    ((a as u32) & 0xFFFF_0000u32) | ((b as u32) & 0xFFFFu32)
}

/// The upper half of `a` above the upper half of `b`.
pub fn pack_16t_16t(a: i32, b: i32) -> (r: u32)
    ensures
        r == ((a as u32) & 0xFFFF_0000u32) | ((b as u32) >> 16u32),
{
    ((a as u32) & 0xFFFF_0000u32) | ((b as u32) >> 16u32)
}

/// Lane-wise saturating addition of two pairs of 16-bit samples.
pub fn qadd16(a: u32, b: u32) -> (r: u32)
    ensures
        r == lanes(sat16(hi16(a) + hi16(b)), sat16(lo16(a) + lo16(b))),
{
    let lo = saturate16(a as i16 as i32 + b as i16 as i32);
    let hi = saturate16((a >> 16u32) as i16 as i32 + (b >> 16u32) as i16 as i32);
    ((hi as u16 as u32) << 16u32) | (lo as u16 as u32)
}

/// Lane-wise saturating subtraction of two pairs of 16-bit samples.
pub fn qsub16(a: u32, b: u32) -> (r: u32)
    ensures
        r == lanes(sat16(hi16(a) - hi16(b)), sat16(lo16(a) - lo16(b))),
{
    let lo = saturate16(a as i16 as i32 - b as i16 as i32);
    let hi = saturate16((a >> 16u32) as i16 as i32 - (b >> 16u32) as i16 as i32);
    ((hi as u16 as u32) << 16u32) | (lo as u16 as u32)
}

/// Product of the lower lanes.
pub fn mul_16bx16b(a: u32, b: u32) -> (r: i32)
    ensures
        r == lo16(a) * lo16(b),
{
    proof {
        lemma_mul_bounds(lo16(a) as int, lo16(b) as int, 0x8000, 0x8000);
    }
    (a as i16 as i32) * (b as i16 as i32)
}

/// Product of the lower lane of `a` and the upper lane of `b`.
pub fn mul_16bx16t(a: u32, b: u32) -> (r: i32)
    ensures
        r == lo16(a) * hi16(b),
{
    proof {
        lemma_mul_bounds(lo16(a) as int, hi16(b) as int, 0x8000, 0x8000);
    }
    (a as i16 as i32) * ((b >> 16u32) as i16 as i32)
}

/// Product of the upper lane of `a` and the lower lane of `b`.
pub fn mul_16tx16b(a: u32, b: u32) -> (r: i32)
    ensures
        r == hi16(a) * lo16(b),
{
    proof {
        lemma_mul_bounds(hi16(a) as int, lo16(b) as int, 0x8000, 0x8000);
    }
    ((a >> 16u32) as i16 as i32) * (b as i16 as i32)
}

/// Product of the upper lanes.
pub fn mul_16tx16t(a: u32, b: u32) -> (r: i32)
    ensures
        r == hi16(a) * hi16(b),
{
    proof {
        lemma_mul_bounds(hi16(a) as int, hi16(b) as int, 0x8000, 0x8000);
    }
    ((a >> 16u32) as i16 as i32) * ((b >> 16u32) as i16 as i32)
}

/// `sum + mul_32x16b(a, b)`.
pub fn multiply_accumulate_32x16b(sum: i32, a: i32, b: u32) -> (r: i32)
    requires
        i32::MIN <= sum + (a as int * lo16(b) as int) / 65536 <= i32::MAX,
    ensures
        r == sum + (a as int * lo16(b) as int) / 65536,
{
    sum + mul_32x16b(a, b)
}

/// `sum + mul_32x16t(a, b)`.
pub fn multiply_accumulate_32x16t(sum: i32, a: i32, b: u32) -> (r: i32)
    requires
        i32::MIN <= sum + (a as int * hi16(b) as int) / 65536 <= i32::MAX,
    ensures
        r == sum + (a as int * hi16(b) as int) / 65536,
{
    sum + mul_32x16t(a, b)
}

} // verus!
