use vstd::prelude::*;

verus! {

/// A sample placed in the upper 16 bits of a 32-bit transfer word, the lower bits zero.
pub open spec fn msb_word(s: i16) -> u32 {
    ((s as u16) as u32) << 16u32
}

/// The sample carried in the upper 16 bits of a transfer word.
pub open spec fn msb_sample(w: u32) -> i16 {
    (w >> 16u32) as i16
}

/// A sample survives being placed in a word and read back.
pub proof fn lemma_msb_round_trip(s: i16)
    ensures
        msb_sample(msb_word(s)) == s,
{
    let u = (s as u16) as u32;
    assert(u < 65536 ==> (u << 16u32) >> 16u32 == u) by (bit_vector);
    assert((((s as u16) as u32) as i16) == s) by (bit_vector);
}

/// Interleave left and right samples into the two-words-per-frame transfer format:
/// word `2i` carries `left[i]`, word `2i + 1` carries `right[i]`.
pub fn interleave_lr(dest: &mut [u32], left: &[i16], right: &[i16])
    requires
        old(dest)@.len() == 2 * left@.len(),
        left@.len() == right@.len(),
    ensures
        final(dest)@.len() == old(dest)@.len(),
        forall|i: int|
            0 <= i < left@.len() ==> final(dest)@[2 * i] == msb_word(left@[i]) && final(dest)@[2 * i
                + 1] == msb_word(right@[i]),
{
    let n = left.len();
    let _m = dest.len();
    let mut i: usize = 0;
    while i < n
        invariant
            n == left@.len(),
            n == right@.len(),
            i <= n,
            dest@.len() == 2 * n,
            2 * n <= usize::MAX,
            forall|k: int|
                0 <= k < i ==> dest@[2 * k] == msb_word(left@[k]) && dest@[2 * k + 1] == msb_word(
                    right@[k],
                ),
        decreases n - i,
    {
        dest[i * 2] = (left[i] as u16 as u32) << 16u32;
        dest[i * 2 + 1] = (right[i] as u16 as u32) << 16u32;
        i = i + 1;
    }
}

/// Interleave the left channel only; every right word is zero.
pub fn interleave_l(dest: &mut [u32], left: &[i16])
    requires
        old(dest)@.len() == 2 * left@.len(),
    ensures
        final(dest)@.len() == old(dest)@.len(),
        forall|i: int|
            0 <= i < left@.len() ==> final(dest)@[2 * i] == msb_word(left@[i]) && final(dest)@[2 * i
                + 1] == 0,
{
    let n = left.len();
    let _m = dest.len();
    let mut i: usize = 0;
    while i < n
        invariant
            n == left@.len(),
            i <= n,
            dest@.len() == 2 * n,
            2 * n <= usize::MAX,
            forall|k: int|
                0 <= k < i ==> dest@[2 * k] == msb_word(left@[k]) && dest@[2 * k + 1] == 0,
        decreases n - i,
    {
        let w = (left[i] as u16 as u32) << 16u32;
        assert(w == msb_word(left@[i as int]));
        dest[i * 2] = w;
        dest[i * 2 + 1] = 0;
        i = i + 1;
    }
}

/// Interleave the right channel only; every left word is zero.
pub fn interleave_r(dest: &mut [u32], right: &[i16])
    requires
        old(dest)@.len() == 2 * right@.len(),
    ensures
        final(dest)@.len() == old(dest)@.len(),
        forall|i: int|
            0 <= i < right@.len() ==> final(dest)@[2 * i + 1] == msb_word(right@[i])
                && final(dest)@[2 * i] == 0,
{
    let n = right.len();
    let _m = dest.len();
    let mut i: usize = 0;
    while i < n
        invariant
            n == right@.len(),
            i <= n,
            dest@.len() == 2 * n,
            2 * n <= usize::MAX,
            forall|k: int|
                0 <= k < i ==> dest@[2 * k + 1] == msb_word(right@[k]) && dest@[2 * k] == 0,
        decreases n - i,
    {
        let w = (right[i] as u16 as u32) << 16u32;
        let ghost before = dest@;
        dest[i * 2] = 0;
        dest[i * 2 + 1] = w;
        i = i + 1;
    }
}

/// Split a two-words-per-frame transfer buffer into left and right samples.
pub fn deinterleave(src: &[u32], left: &mut [i16], right: &mut [i16])
    requires
        src@.len() == 2 * old(left)@.len(),
        old(left)@.len() == old(right)@.len(),
    ensures
        final(left)@.len() == old(left)@.len(),
        final(right)@.len() == old(right)@.len(),
        forall|i: int|
            0 <= i < old(left)@.len() ==> final(left)@[i] == msb_sample(src@[2 * i])
                && final(right)@[i] == msb_sample(src@[2 * i + 1]),
{
    let n = left.len();
    let _m = src.len();
    let mut i: usize = 0;
    while i < n
        invariant
            n == left@.len(),
            n == right@.len(),
            i <= n,
            src@.len() == 2 * n,
            2 * n <= usize::MAX,
            forall|k: int|
                0 <= k < i ==> left@[k] == msb_sample(src@[2 * k]) && right@[k] == msb_sample(
                    src@[2 * k + 1],
                ),
        decreases n - i,
    {
        left[i] = (src[i * 2] >> 16u32) as i16;
        right[i] = (src[i * 2 + 1] >> 16u32) as i16;
        i = i + 1;
    }
}

/// Fill a region of the transfer buffer with silence.
pub fn silence(dest: &mut [u32])
    ensures
        final(dest)@.len() == old(dest)@.len(),
        forall|i: int| 0 <= i < old(dest)@.len() ==> final(dest)@[i] == 0,
{
    let n = dest.len();
    let mut i: usize = 0;
    while i < n
        invariant
            n == dest@.len(),
            i <= n,
            forall|k: int| 0 <= k < i ==> dest@[k] == 0,
        decreases n - i,
    {
        dest[i] = 0;
        i = i + 1;
    }
}

} // verus!
