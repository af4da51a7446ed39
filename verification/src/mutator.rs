//! Mutation operators over a byte buffer with a logical length.
//!
//! Every operator takes the buffer, the current logical length and the
//! generator.  An operator whose structural precondition on the length is
//! unmet leaves the buffer, the length and the generator unchanged: the
//! mutation path never signals an error.  Each operator's exact effect —
//! which bytes change, to what, and how the generator state evolves — is
//! stated by a spec-level model, so a fixed seed pins the whole computation.

use vstd::prelude::*;

use crate::chain_rng::ChainRng;
use crate::chain_rng::draw_next;
use crate::chain_rng::draw_out;
use crate::chain_rng::ri;

verus! {

/// Bound of the delta used by the arithmetic operators.
pub const ARITH_MAX: u32 = 35;

/// Hard cap on the logical length: growth is refused beyond it.
pub const MAX_STR_LEN: usize = 1024 * 1024;

/// Small block size tier.
pub const HAVOC_BLK_SMALL: usize = 32;

/// Medium block size tier.
pub const HAVOC_BLK_MEDIUM: usize = 128;

/// Large block size tier.
pub const HAVOC_BLK_LARGE: usize = 1500;

/// Extra large block size tier; also the largest block any operator inserts.
pub const HAVOC_BLK_XL: usize = 32768;

/// Largest logical length the operators accept: one growth step may carry a
/// buffer that started at the cap past it by at most one extra-large block.
pub const MAX_MUTATION_LEN: usize = MAX_STR_LEN + HAVOC_BLK_XL;

/// The model of one mutation step: the buffer's bytes, the logical length,
/// and the generator state.
pub ghost struct MutView {
    pub bytes: Seq<u8>,
    pub len: usize,
    pub state: u64,
}

/// The minimum of two numbers.
pub fn min(a: u32, b: u32) -> (r: u32)
    ensures
        r == if a < b { a } else { b },
{
    if a < b {
        a
    } else {
        b
    }
}

/// The 16-bit value with its two bytes exchanged.
pub open spec fn swap16_spec(x: u16) -> u16 {
    ((x % 256) * 256 + x / 256) as u16
}

/// Swap the byte order of a 16-bit integer.
pub fn swap16(x: u16) -> (r: u16)
    ensures
        r == swap16_spec(x),
{
    let r = (x << 8) | (x >> 8);
    assert(((x << 8u16) | (x >> 8u16)) == swap16_spec(x)) by (bit_vector);
    r
}

/// The 32-bit value with its four bytes reversed.
pub open spec fn swap32_spec(x: u32) -> u32 {
    ((x % 256) * 0x1000000 + (x / 256 % 256) * 0x10000 + (x / 0x10000 % 256) * 256 + x
        / 0x1000000) as u32
}

/// Swap the byte order of a 32-bit integer.
pub fn swap32(x: u32) -> (r: u32)
    ensures
        r == swap32_spec(x),
{
    let r = ((x << 24) | (x >> 24)) | ((x << 8) & 0x00FF0000) | ((x >> 8) & 0x0000FF00);
    assert((((x << 24u32) | (x >> 24u32)) | ((x << 8u32) & 0x00FF0000) | ((x >> 8u32)
        & 0x0000FF00)) == swap32_spec(x)) by (bit_vector);
    r
}

/// The table of interesting 8-bit values: boundary constants likely to
/// trigger edge-case behavior when substituted into input.
pub open spec fn intersting_8(i: int) -> i8 {
    if i == 0 {
        -128i8
    } else if i == 1 {
        -1i8
    } else if i == 2 {
        0i8
    } else if i == 3 {
        1i8
    } else if i == 4 {
        16i8
    } else if i == 5 {
        32i8
    } else if i == 6 {
        64i8
    } else if i == 7 {
        100i8
    } else {
        127i8
    }
}

/// Number of entries in the 8-bit table.
pub const INTERSTING_8_LEN: u32 = 9;

fn intersting_8_at(i: u32) -> (r: i8)
    requires
        i < INTERSTING_8_LEN,
    ensures
        r == intersting_8(i as int),
{
    match i {
        0 => -128,
        1 => -1,
        2 => 0,
        3 => 1,
        4 => 16,
        5 => 32,
        6 => 64,
        7 => 100,
        _ => 127,
    }
}

/// The table of interesting 16-bit values.
pub open spec fn intersting_16(i: int) -> i16 {
    if i == 0 {
        -32768i16
    } else if i == 1 {
        -129i16
    } else if i == 2 {
        -128i16
    } else if i == 3 {
        -1i16
    } else if i == 4 {
        0i16
    } else if i == 5 {
        1i16
    } else if i == 6 {
        16i16
    } else if i == 7 {
        32i16
    } else if i == 8 {
        64i16
    } else if i == 9 {
        100i16
    } else if i == 10 {
        127i16
    } else if i == 11 {
        128i16
    } else if i == 12 {
        255i16
    } else if i == 13 {
        256i16
    } else if i == 14 {
        512i16
    } else if i == 15 {
        1000i16
    } else if i == 16 {
        1024i16
    } else if i == 17 {
        4096i16
    } else {
        32767i16
    }
}

/// Number of entries in the 16-bit table.
pub const INTERSTING_16_LEN: u32 = 19;

fn intersting_16_at(i: u32) -> (r: i16)
    requires
        i < INTERSTING_16_LEN,
    ensures
        r == intersting_16(i as int),
{
    match i {
        0 => -32768,
        1 => -129,
        2 => -128,
        3 => -1,
        4 => 0,
        5 => 1,
        6 => 16,
        7 => 32,
        8 => 64,
        9 => 100,
        10 => 127,
        11 => 128,
        12 => 255,
        13 => 256,
        14 => 512,
        15 => 1000,
        16 => 1024,
        17 => 4096,
        _ => 32767,
    }
}

/// The table of interesting 32-bit values.
pub open spec fn intersting_32(i: int) -> i32 {
    if i == 0 {
        -2147483648i32
    } else if i == 1 {
        -1006630464i32
    } else if i == 2 {
        -32769i32
    } else if i == 3 {
        -32768i32
    } else if i == 4 {
        -129i32
    } else if i == 5 {
        -128i32
    } else if i == 6 {
        -1i32
    } else if i == 7 {
        0i32
    } else if i == 8 {
        1i32
    } else if i == 9 {
        16i32
    } else if i == 10 {
        32i32
    } else if i == 11 {
        64i32
    } else if i == 12 {
        100i32
    } else if i == 13 {
        127i32
    } else if i == 14 {
        128i32
    } else if i == 15 {
        255i32
    } else if i == 16 {
        256i32
    } else if i == 17 {
        512i32
    } else if i == 18 {
        1000i32
    } else if i == 19 {
        1024i32
    } else if i == 20 {
        4096i32
    } else if i == 21 {
        32767i32
    } else if i == 22 {
        32768i32
    } else if i == 23 {
        65535i32
    } else if i == 24 {
        65536i32
    } else if i == 25 {
        100663045i32
    } else {
        2147483647i32
    }
}

/// Number of entries in the 32-bit table.
pub const INTERSTING_32_LEN: u32 = 27;

fn intersting_32_at(i: u32) -> (r: i32)
    requires
        i < INTERSTING_32_LEN,
    ensures
        r == intersting_32(i as int),
{
    match i {
        0 => -2147483648,
        1 => -1006630464,
        2 => -32769,
        3 => -32768,
        4 => -129,
        5 => -128,
        6 => -1,
        7 => 0,
        8 => 1,
        9 => 16,
        10 => 32,
        11 => 64,
        12 => 100,
        13 => 127,
        14 => 128,
        15 => 255,
        16 => 256,
        17 => 512,
        18 => 1000,
        19 => 1024,
        20 => 4096,
        21 => 32767,
        22 => 32768,
        23 => 65535,
        24 => 65536,
        25 => 100663045,
        _ => 2147483647,
    }
}

/// Finish a block-length choice once a size tier `[mn0, mx]` is fixed: if
/// the tier's minimum does not fall below `limit` it is reset to one, and
/// the result is drawn from the tier clipped to `limit`.
pub open spec fn cbl_finish(s: u64, mn0: u32, mx: u32, limit: u32) -> (u32, u64) {
    let mn = if mn0 >= limit {
        1u32
    } else {
        mn0
    };
    let lo = if mx < limit {
        mx
    } else {
        limit
    };
    let width = (lo - mn + 1) as u32;
    ((mn + draw_out(s, width)) as u32, draw_next(s, width))
}

/// Result and final state of `choose_block_len`: a size tier is picked by
/// one draw (the top tier splits again, nine to one, into large and extra
/// large), then the length is drawn from the tier clipped to `limit`.
pub open spec fn choose_block_len_spec(s: u64, limit: u32) -> (u32, u64) {
    let t = draw_out(s, 3);
    let s1 = draw_next(s, 3);
    if t == 0 {
        cbl_finish(s1, 1, HAVOC_BLK_SMALL as u32, limit)
    } else if t == 1 {
        cbl_finish(s1, HAVOC_BLK_SMALL as u32, HAVOC_BLK_MEDIUM as u32, limit)
    } else {
        let g = draw_out(s1, 10);
        let s2 = draw_next(s1, 10);
        if g != 0 {
            cbl_finish(s2, HAVOC_BLK_MEDIUM as u32, HAVOC_BLK_LARGE as u32, limit)
        } else {
            cbl_finish(s2, HAVOC_BLK_LARGE as u32, HAVOC_BLK_XL as u32, limit)
        }
    }
}

/// Choose a random block length for the block operators: a value in
/// `[1, limit]`, skewed toward small blocks with occasional large ones, and
/// never above the extra large tier.
pub fn choose_block_len(rng: &mut ChainRng, limit: u32) -> (r: u32)
    requires
        limit >= 1,
    ensures
        r == choose_block_len_spec(old(rng).state, limit).0,
        final(rng).state == choose_block_len_spec(old(rng).state, limit).1,
        1 <= r <= limit,
        r <= HAVOC_BLK_XL as u32,
{
    let mut min_value: u32;
    let max_value: u32;
    match ri(rng, 3) {
        0 => {
            min_value = 1;
            max_value = HAVOC_BLK_SMALL as u32;
        },
        1 => {
            min_value = HAVOC_BLK_SMALL as u32;
            max_value = HAVOC_BLK_MEDIUM as u32;
        },
        _ => {
            if ri(rng, 10) != 0 {
                min_value = HAVOC_BLK_MEDIUM as u32;
                max_value = HAVOC_BLK_LARGE as u32;
            } else {
                min_value = HAVOC_BLK_LARGE as u32;
                max_value = HAVOC_BLK_XL as u32;
            }
        },
    }
    if min_value >= limit {
        min_value = 1;
    }
    min_value + ri(rng, min(max_value, limit) - min_value + 1)
}

/// Effect of `bitflip_1`: when the length allows it, one pseudo-randomly
/// chosen bit in the bit-range `[0, 8 * len)` is flipped.
pub open spec fn bitflip1_spec(b: Seq<u8>, len: usize, s: u64) -> MutView {
    if len == 0 {
        MutView { bytes: b, len, state: s }
    } else {
        let p = draw_out(s, (8 * len) as u32) as int;
        let i = p / 8;
        let m = 128u8 >> ((p % 8) as usize);
        MutView {
            bytes: b.update(i, b[i] ^ m),
            len,
            state: draw_next(s, (8 * len) as u32),
        }
    }
}

/// Randomly flip a single bit within the logical length of the byte array.
/// A no-op on an empty buffer.
pub fn bitflip_1(ar: &mut Vec<u8>, len: usize, rng: &mut ChainRng)
    requires
        len <= old(ar).len(),
        len <= MAX_MUTATION_LEN,
    ensures
        final(ar)@ == bitflip1_spec(old(ar)@, len, old(rng).state).bytes,
        final(rng).state == bitflip1_spec(old(ar)@, len, old(rng).state).state,
        final(ar)@.len() == old(ar)@.len(),
        len == 0 ==> final(ar)@ == old(ar)@ && *final(rng) == *old(rng),
{
    if len == 0 {
        return;
    }
    let p = ri(rng, (8 * len) as u32) as usize;
    let i = p / 8;
    let m: u8 = 128u8 >> (p % 8);
    let b = ar[i];
    ar[i] = b ^ m;
}

/// Effect of `byte_intersting`: one randomly chosen byte within the logical
/// length is overwritten with an entry of the 8-bit interesting table.
pub open spec fn byte_intersting_spec(b: Seq<u8>, len: usize, s: u64) -> MutView {
    if len == 0 {
        MutView { bytes: b, len, state: s }
    } else {
        let p = draw_out(s, len as u32) as int;
        let s1 = draw_next(s, len as u32);
        let j = draw_out(s1, INTERSTING_8_LEN);
        let s2 = draw_next(s1, INTERSTING_8_LEN);
        MutView { bytes: b.update(p, intersting_8(j as int) as u8), len, state: s2 }
    }
}

/// Set a random byte of the buffer to an interesting 8-bit value.  A no-op
/// on an empty buffer.
pub fn byte_intersting(ar: &mut Vec<u8>, len: usize, rng: &mut ChainRng)
    requires
        len <= old(ar).len(),
        len <= MAX_MUTATION_LEN,
    ensures
        final(ar)@ == byte_intersting_spec(old(ar)@, len, old(rng).state).bytes,
        final(rng).state == byte_intersting_spec(old(ar)@, len, old(rng).state).state,
        final(ar)@.len() == old(ar)@.len(),
        len == 0 ==> final(ar)@ == old(ar)@ && *final(rng) == *old(rng),
{
    if len == 0 {
        return;
    }
    let p = ri(rng, len as u32) as usize;
    let j = ri(rng, INTERSTING_8_LEN);
    let n = intersting_8_at(j);
    ar[p] = #[verifier::truncate] (n as u8);
}

/// The 16-bit value stored in little-endian order at position `p`.
pub open spec fn le16_at(b: Seq<u8>, p: int) -> u16 {
    (b[p] + 256 * b[p + 1]) as u16
}

/// The buffer with the 16-bit value `v` stored in little-endian order at
/// position `p`.
pub open spec fn le16_store(b: Seq<u8>, p: int, v: u16) -> Seq<u8> {
    b.update(p, (v % 256) as u8).update(p + 1, (v / 256) as u8)
}

/// The 32-bit value stored in little-endian order at position `p`.
pub open spec fn le32_at(b: Seq<u8>, p: int) -> u32 {
    (b[p] + 256 * b[p + 1] + 0x10000 * b[p + 2] + 0x1000000 * b[p + 3]) as u32
}

/// The buffer with the 32-bit value `v` stored in little-endian order at
/// position `p`.
pub open spec fn le32_store(b: Seq<u8>, p: int, v: u32) -> Seq<u8> {
    b.update(p, (v % 256) as u8).update(p + 1, (v / 256 % 256) as u8).update(
        p + 2,
        (v / 0x10000 % 256) as u8,
    ).update(p + 3, (v / 0x1000000) as u8)
}

/// Read a 16-bit little-endian value at position `p`.
pub fn load_u16_le(ar: &Vec<u8>, p: usize) -> (r: u16)
    requires
        p + 2 <= ar.len(),
    ensures
        r == le16_at(ar@, p as int),
{
    (ar[p] as u16) + 256 * (ar[p + 1] as u16)
}

/// Write a 16-bit value at position `p` in little-endian order.
pub fn store_u16_le(ar: &mut Vec<u8>, p: usize, v: u16)
    requires
        p + 2 <= old(ar).len(),
    ensures
        final(ar)@ == le16_store(old(ar)@, p as int, v),
        final(ar)@.len() == old(ar)@.len(),
{
    ar[p] = (v % 256) as u8;
    ar[p + 1] = (v / 256) as u8;
}

/// Read a 32-bit little-endian value at position `p`.
pub fn load_u32_le(ar: &Vec<u8>, p: usize) -> (r: u32)
    requires
        p + 4 <= ar.len(),
    ensures
        r == le32_at(ar@, p as int),
{
    (ar[p] as u32) + 256 * (ar[p + 1] as u32) + 0x10000 * (ar[p + 2] as u32) + 0x1000000 * (ar[p
        + 3] as u32)
}

/// Write a 32-bit value at position `p` in little-endian order.
pub fn store_u32_le(ar: &mut Vec<u8>, p: usize, v: u32)
    requires
        p + 4 <= old(ar).len(),
    ensures
        final(ar)@ == le32_store(old(ar)@, p as int, v),
        final(ar)@.len() == old(ar)@.len(),
{
    ar[p] = (v % 256) as u8;
    ar[p + 1] = (v / 256 % 256) as u8;
    ar[p + 2] = (v / 0x10000 % 256) as u8;
    ar[p + 3] = (v / 0x1000000) as u8;
}

/// Effect of `word_intersting`: a randomly positioned 2-byte span within the
/// logical length is overwritten with an entry of the 16-bit interesting
/// table, in native byte order half of the time and byte-swapped otherwise.
pub open spec fn word_intersting_spec(b: Seq<u8>, len: usize, s: u64) -> MutView {
    if len < 2 {
        MutView { bytes: b, len, state: s }
    } else {
        let p = draw_out(s, (len - 1) as u32) as int;
        let s1 = draw_next(s, (len - 1) as u32);
        let j = draw_out(s1, INTERSTING_16_LEN);
        let s2 = draw_next(s1, INTERSTING_16_LEN);
        let c = draw_out(s2, 2);
        let s3 = draw_next(s2, 2);
        let n0 = intersting_16(j as int) as u16;
        let n = if c != 0 {
            n0
        } else {
            swap16_spec(n0)
        };
        MutView { bytes: le16_store(b, p, n), len, state: s3 }
    }
}

/// Set a random 2-byte span of the buffer to an interesting 16-bit value.
/// A no-op when the logical length is below two.
pub fn word_intersting(ar: &mut Vec<u8>, len: usize, rng: &mut ChainRng)
    requires
        len <= old(ar).len(),
        len <= MAX_MUTATION_LEN,
    ensures
        final(ar)@ == word_intersting_spec(old(ar)@, len, old(rng).state).bytes,
        final(rng).state == word_intersting_spec(old(ar)@, len, old(rng).state).state,
        final(ar)@.len() == old(ar)@.len(),
        len < 2 ==> final(ar)@ == old(ar)@ && *final(rng) == *old(rng),
{
    if len < 2 {
        return;
    }
    let p = ri(rng, (len - 1) as u32) as usize;
    let j = ri(rng, INTERSTING_16_LEN);
    let n0 = #[verifier::truncate] (intersting_16_at(j) as u16);
    let n = if ri(rng, 2) != 0 {
        n0
    } else {
        swap16(n0)
    };
    store_u16_le(ar, p, n);
}

/// Effect of `dword_intersting`: a randomly positioned 4-byte span within
/// the logical length is overwritten with an entry of the 32-bit interesting
/// table, in native byte order half of the time and byte-swapped otherwise.
pub open spec fn dword_intersting_spec(b: Seq<u8>, len: usize, s: u64) -> MutView {
    if len < 4 {
        MutView { bytes: b, len, state: s }
    } else {
        let p = draw_out(s, (len - 3) as u32) as int;
        let s1 = draw_next(s, (len - 3) as u32);
        let j = draw_out(s1, INTERSTING_32_LEN);
        let s2 = draw_next(s1, INTERSTING_32_LEN);
        let c = draw_out(s2, 2);
        let s3 = draw_next(s2, 2);
        let n0 = intersting_32(j as int) as u32;
        let n = if c != 0 {
            n0
        } else {
            swap32_spec(n0)
        };
        MutView { bytes: le32_store(b, p, n), len, state: s3 }
    }
}

/// Set a random 4-byte span of the buffer to an interesting 32-bit value.
/// A no-op when the logical length is below four.
pub fn dword_intersting(ar: &mut Vec<u8>, len: usize, rng: &mut ChainRng)
    requires
        len <= old(ar).len(),
        len <= MAX_MUTATION_LEN,
    ensures
        final(ar)@ == dword_intersting_spec(old(ar)@, len, old(rng).state).bytes,
        final(rng).state == dword_intersting_spec(old(ar)@, len, old(rng).state).state,
        final(ar)@.len() == old(ar)@.len(),
        len < 4 ==> final(ar)@ == old(ar)@ && *final(rng) == *old(rng),
{
    if len < 4 {
        return;
    }
    let p = ri(rng, (len - 3) as u32) as usize;
    let j = ri(rng, INTERSTING_32_LEN);
    let n0 = #[verifier::truncate] (intersting_32_at(j) as u32);
    let n = if ri(rng, 2) != 0 {
        n0
    } else {
        swap32(n0)
    };
    store_u32_le(ar, p, n);
}

/// Effect of `byte_arith`: a delta in `[1, ARITH_MAX]` is subtracted from or
/// added to (50/50) one randomly chosen byte, with wraparound.
pub open spec fn byte_arith_spec(b: Seq<u8>, len: usize, s: u64) -> MutView {
    if len == 0 {
        MutView { bytes: b, len, state: s }
    } else {
        let p = draw_out(s, len as u32) as int;
        let s1 = draw_next(s, len as u32);
        let c = draw_out(s1, 2);
        let s2 = draw_next(s1, 2);
        let d = draw_out(s2, ARITH_MAX);
        let s3 = draw_next(s2, ARITH_MAX);
        let v = if c != 0 {
            b[p].wrapping_sub((1 + d) as u8)
        } else {
            b[p].wrapping_add((1 + d) as u8)
        };
        MutView { bytes: b.update(p, v), len, state: s3 }
    }
}

/// Add or subtract a small delta on a random byte, with wraparound.  A no-op
/// on an empty buffer.
pub fn byte_arith(ar: &mut Vec<u8>, len: usize, rng: &mut ChainRng)
    requires
        len <= old(ar).len(),
        len <= MAX_MUTATION_LEN,
    ensures
        final(ar)@ == byte_arith_spec(old(ar)@, len, old(rng).state).bytes,
        final(rng).state == byte_arith_spec(old(ar)@, len, old(rng).state).state,
        final(ar)@.len() == old(ar)@.len(),
        len == 0 ==> final(ar)@ == old(ar)@ && *final(rng) == *old(rng),
{
    if len == 0 {
        return;
    }
    let p = ri(rng, len as u32) as usize;
    let b = ar[p];
    if ri(rng, 2) != 0 {
        let d = (1 + ri(rng, ARITH_MAX)) as u8;
        ar[p] = b.wrapping_sub(d);
    } else {
        let d = (1 + ri(rng, ARITH_MAX)) as u8;
        ar[p] = b.wrapping_add(d);
    }
}

/// Effect of `byte_random`: one randomly chosen byte is XORed with a nonzero
/// random value in `[1, 255]`.
pub open spec fn byte_random_spec(b: Seq<u8>, len: usize, s: u64) -> MutView {
    if len == 0 {
        MutView { bytes: b, len, state: s }
    } else {
        let p = draw_out(s, len as u32) as int;
        let s1 = draw_next(s, len as u32);
        let v = draw_out(s1, 255);
        let s2 = draw_next(s1, 255);
        MutView { bytes: b.update(p, b[p] ^ ((1 + v) as u8)), len, state: s2 }
    }
}

/// XOR a random byte with a nonzero random value.  A no-op on an empty
/// buffer.
pub fn byte_random(ar: &mut Vec<u8>, len: usize, rng: &mut ChainRng)
    requires
        len <= old(ar).len(),
        len <= MAX_MUTATION_LEN,
    ensures
        final(ar)@ == byte_random_spec(old(ar)@, len, old(rng).state).bytes,
        final(rng).state == byte_random_spec(old(ar)@, len, old(rng).state).state,
        final(ar)@.len() == old(ar)@.len(),
        len == 0 ==> final(ar)@ == old(ar)@ && *final(rng) == *old(rng),
{
    if len == 0 {
        return;
    }
    let p = ri(rng, len as u32) as usize;
    let v = (1 + ri(rng, 255)) as u8;
    let b = ar[p];
    ar[p] = b ^ v;
}

/// Effect of `word_arith`: a delta in `[1, ARITH_MAX]` is subtracted from or
/// added to (50/50) a random 2-byte span read as a native-endian integer,
/// with wraparound; half of the time the arithmetic is performed in the
/// byte-swapped domain instead.
pub open spec fn word_arith_spec(b: Seq<u8>, len: usize, s: u64) -> MutView {
    if len < 2 {
        MutView { bytes: b, len, state: s }
    } else {
        let p = draw_out(s, (len - 1) as u32) as int;
        let s1 = draw_next(s, (len - 1) as u32);
        let d = draw_out(s1, ARITH_MAX);
        let s2 = draw_next(s1, ARITH_MAX);
        let c1 = draw_out(s2, 2);
        let s3 = draw_next(s2, 2);
        let c2 = draw_out(s3, 2);
        let s4 = draw_next(s3, 2);
        let n = (1 + d) as u16;
        let val = le16_at(b, p);
        let mutated = if c1 != 0 {
            if c2 != 0 {
                val.wrapping_sub(n)
            } else {
                swap16_spec(swap16_spec(val).wrapping_sub(n))
            }
        } else {
            if c2 != 0 {
                val.wrapping_add(n)
            } else {
                swap16_spec(swap16_spec(val).wrapping_add(n))
            }
        };
        MutView { bytes: le16_store(b, p, mutated), len, state: s4 }
    }
}

/// Perform wraparound arithmetic on a random 2-byte span, in the native or
/// the byte-swapped domain.  A no-op when the logical length is below two.
pub fn word_arith(ar: &mut Vec<u8>, len: usize, rng: &mut ChainRng)
    requires
        len <= old(ar).len(),
        len <= MAX_MUTATION_LEN,
    ensures
        final(ar)@ == word_arith_spec(old(ar)@, len, old(rng).state).bytes,
        final(rng).state == word_arith_spec(old(ar)@, len, old(rng).state).state,
        final(ar)@.len() == old(ar)@.len(),
        len < 2 ==> final(ar)@ == old(ar)@ && *final(rng) == *old(rng),
{
    if len < 2 {
        return;
    }
    let p = ri(rng, (len - 1) as u32) as usize;
    let n = (1 + ri(rng, ARITH_MAX)) as u16;
    let val = load_u16_le(ar, p);
    let mutated: u16;
    if ri(rng, 2) != 0 {
        if ri(rng, 2) != 0 {
            mutated = val.wrapping_sub(n);
        } else {
            mutated = swap16(swap16(val).wrapping_sub(n));
        }
    } else {
        if ri(rng, 2) != 0 {
            mutated = val.wrapping_add(n);
        } else {
            mutated = swap16(swap16(val).wrapping_add(n));
        }
    }
    store_u16_le(ar, p, mutated);
}

/// Effect of `dword_arith`: a delta in `[1, ARITH_MAX]` is subtracted from
/// or added to (50/50) a random 4-byte span read as a native-endian integer,
/// with wraparound; half of the time the arithmetic is performed in the
/// byte-swapped domain instead.
pub open spec fn dword_arith_spec(b: Seq<u8>, len: usize, s: u64) -> MutView {
    if len < 4 {
        MutView { bytes: b, len, state: s }
    } else {
        let p = draw_out(s, (len - 3) as u32) as int;
        let s1 = draw_next(s, (len - 3) as u32);
        let d = draw_out(s1, ARITH_MAX);
        let s2 = draw_next(s1, ARITH_MAX);
        let c1 = draw_out(s2, 2);
        let s3 = draw_next(s2, 2);
        let c2 = draw_out(s3, 2);
        let s4 = draw_next(s3, 2);
        let n = (1 + d) as u32;
        let val = le32_at(b, p);
        let mutated = if c1 != 0 {
            if c2 != 0 {
                val.wrapping_sub(n)
            } else {
                swap32_spec(swap32_spec(val).wrapping_sub(n))
            }
        } else {
            if c2 != 0 {
                val.wrapping_add(n)
            } else {
                swap32_spec(swap32_spec(val).wrapping_add(n))
            }
        };
        MutView { bytes: le32_store(b, p, mutated), len, state: s4 }
    }
}

/// Perform wraparound arithmetic on a random 4-byte span, in the native or
/// the byte-swapped domain.  A no-op when the logical length is below four.
pub fn dword_arith(ar: &mut Vec<u8>, len: usize, rng: &mut ChainRng)
    requires
        len <= old(ar).len(),
        len <= MAX_MUTATION_LEN,
    ensures
        final(ar)@ == dword_arith_spec(old(ar)@, len, old(rng).state).bytes,
        final(rng).state == dword_arith_spec(old(ar)@, len, old(rng).state).state,
        final(ar)@.len() == old(ar)@.len(),
        len < 4 ==> final(ar)@ == old(ar)@ && *final(rng) == *old(rng),
{
    if len < 4 {
        return;
    }
    let p = ri(rng, (len - 3) as u32) as usize;
    let n = (1 + ri(rng, ARITH_MAX)) as u32;
    let val = load_u32_le(ar, p);
    let mutated: u32;
    if ri(rng, 2) != 0 {
        if ri(rng, 2) != 0 {
            mutated = val.wrapping_sub(n);
        } else {
            mutated = swap32(swap32(val).wrapping_sub(n));
        }
    } else {
        if ri(rng, 2) != 0 {
            mutated = val.wrapping_add(n);
        } else {
            mutated = swap32(swap32(val).wrapping_add(n));
        }
    }
    store_u32_le(ar, p, mutated);
}

/// Effect of `bytes_random`: a block length in `[1, len - 1]` is chosen,
/// then a source and a destination offset at which the block fits.  With
/// three-to-one odds the block is copied from source to destination with
/// move semantics (a no-op when the offsets coincide); otherwise the block
/// at the destination is overwritten with a constant fill byte — a fresh
/// random byte half of the time, else a byte sampled from the buffer.
pub open spec fn bytes_random_spec(b: Seq<u8>, len: usize, s: u64) -> MutView {
    if len < 2 {
        MutView { bytes: b, len, state: s }
    } else {
        let cl = choose_block_len_spec(s, (len - 1) as u32).0 as int;
        let s1 = choose_block_len_spec(s, (len - 1) as u32).1;
        let w = (len - cl + 1) as u32;
        let cf = draw_out(s1, w) as int;
        let s2 = draw_next(s1, w);
        let ct = draw_out(s2, w) as int;
        let s3 = draw_next(s2, w);
        let c = draw_out(s3, 4);
        let s4 = draw_next(s3, 4);
        if c != 0 {
            if cf != ct {
                MutView {
                    bytes: Seq::new(
                        b.len(),
                        |i: int|
                            if ct <= i < ct + cl {
                                b[cf + (i - ct)]
                            } else {
                                b[i]
                            },
                    ),
                    len,
                    state: s4,
                }
            } else {
                MutView { bytes: b, len, state: s4 }
            }
        } else {
            let fc = draw_out(s4, 2);
            let s5 = draw_next(s4, 2);
            let fill = if fc != 0 {
                draw_out(s5, 255) as u8
            } else {
                b[draw_out(s5, len as u32) as int]
            };
            let s6 = draw_next(
                s5,
                if fc != 0 {
                    255
                } else {
                    len as u32
                },
            );
            MutView {
                bytes: Seq::new(
                    b.len(),
                    |i: int|
                        if ct <= i < ct + cl {
                            fill
                        } else {
                            b[i]
                        },
                ),
                len,
                state: s6,
            }
        }
    }
}

/// Randomly copy or overwrite a block of bytes inside the logical length.
/// A no-op when the logical length is below two.
pub fn bytes_random(ar: &mut Vec<u8>, len: usize, rng: &mut ChainRng)
    requires
        len <= old(ar).len(),
        len <= MAX_MUTATION_LEN,
    ensures
        final(ar)@ == bytes_random_spec(old(ar)@, len, old(rng).state).bytes,
        final(rng).state == bytes_random_spec(old(ar)@, len, old(rng).state).state,
        final(ar)@.len() == old(ar)@.len(),
        len < 2 ==> final(ar)@ == old(ar)@ && *final(rng) == *old(rng),
{
    if len < 2 {
        return;
    }
    let ghost b0 = ar@;
    let ghost s0 = rng.state;
    let copy_len = choose_block_len(rng, (len - 1) as u32) as usize;
    let copy_from = ri(rng, (len - copy_len + 1) as u32) as usize;
    let copy_to = ri(rng, (len - copy_len + 1) as u32) as usize;
    if ri(rng, 4) != 0 {
        if copy_from != copy_to {
            let mut tmp: Vec<u8> = Vec::new();
            let mut k: usize = 0;
            while k < copy_len
                invariant
                    k <= copy_len,
                    copy_from + copy_len <= len <= ar.len(),
                    ar@ == b0,
                    tmp@ == b0.subrange(copy_from as int, copy_from + k),
                decreases copy_len - k,
            {
                let v = ar[copy_from + k];
                tmp.push(v);
                assert(tmp@ =~= b0.subrange(copy_from as int, copy_from + k + 1));
                k = k + 1;
            }
            let mut k2: usize = 0;
            while k2 < copy_len
                invariant
                    k2 <= copy_len,
                    copy_to + copy_len <= len <= ar.len(),
                    copy_from + copy_len <= len,
                    ar@.len() == b0.len(),
                    tmp@.len() == copy_len,
                    tmp@ == b0.subrange(copy_from as int, copy_from + copy_len),
                    forall|i: int|
                        0 <= i < b0.len() ==> ar@[i] == (if copy_to <= i < copy_to + k2 {
                            b0[copy_from + (i - copy_to)]
                        } else {
                            b0[i]
                        }),
                decreases copy_len - k2,
            {
                let v = tmp[k2];
                ar[copy_to + k2] = v;
                k2 = k2 + 1;
            }
            assert(ar@ =~= bytes_random_spec(b0, len, s0).bytes);
        }
    } else {
        let fill_byte: u8 = if ri(rng, 2) != 0 {
            ri(rng, 255) as u8
        } else {
            ar[ri(rng, len as u32) as usize]
        };
        let mut k: usize = 0;
        while k < copy_len
            invariant
                k <= copy_len,
                copy_to + copy_len <= len <= ar.len(),
                ar@.len() == b0.len(),
                forall|i: int|
                    0 <= i < b0.len() ==> ar@[i] == (if copy_to <= i < copy_to + k {
                        fill_byte
                    } else {
                        b0[i]
                    }),
            decreases copy_len - k,
        {
            ar[copy_to + k] = fill_byte;
            k = k + 1;
        }
        assert(ar@ =~= bytes_random_spec(b0, len, s0).bytes);
    }
}

/// Effect of `random_delete_bytes`: a deletion length in `[0, len - 2]` and
/// a start offset at which the deleted span fits are chosen; the trailing
/// bytes shift left to close the gap and the logical length shrinks by the
/// deleted amount.  The buffer's allocation keeps its size: bytes past the
/// new logical length are stale.
pub open spec fn random_delete_bytes_spec(b: Seq<u8>, len: usize, s: u64) -> MutView {
    if len < 2 {
        MutView { bytes: b, len, state: s }
    } else {
        let dl = draw_out(s, (len - 1) as u32) as int;
        let s1 = draw_next(s, (len - 1) as u32);
        let df = draw_out(s1, (len - dl) as u32) as int;
        let s2 = draw_next(s1, (len - dl) as u32);
        MutView {
            bytes: Seq::new(
                b.len(),
                |i: int|
                    if df <= i < len - dl {
                        b[i + dl]
                    } else {
                        b[i]
                    },
            ),
            len: (len - dl) as usize,
            state: s2,
        }
    }
}

/// Randomly delete a block of bytes, shrinking the logical length.  A no-op
/// when the logical length is below two; the drawn deletion length may be
/// zero, in which case the length stays.
pub fn random_delete_bytes(ar: &mut Vec<u8>, len: &mut usize, rng: &mut ChainRng)
    requires
        *old(len) <= old(ar).len(),
        *old(len) <= MAX_MUTATION_LEN,
    ensures
        final(ar)@ == random_delete_bytes_spec(old(ar)@, *old(len), old(rng).state).bytes,
        *final(len) == random_delete_bytes_spec(old(ar)@, *old(len), old(rng).state).len,
        final(rng).state == random_delete_bytes_spec(old(ar)@, *old(len), old(rng).state).state,
        final(ar)@.len() == old(ar)@.len(),
        *final(len) <= *old(len),
        *old(len) < 2 ==> final(ar)@ == old(ar)@ && *final(len) == *old(len) && *final(rng)
            == *old(rng),
        *old(len) >= 2 && draw_out(old(rng).state, (*old(len) - 1) as u32) > 0 ==> *final(len)
            < *old(len),
{
    if *len < 2 {
        return;
    }
    let ghost b0 = ar@;
    let ghost s0 = rng.state;
    let ghost l0 = *len;
    let del_len = ri(rng, (*len - 1) as u32) as usize;
    let del_from = ri(rng, (*len - del_len) as u32) as usize;
    let count = *len - del_from - del_len;
    let mut k: usize = 0;
    while k < count
        invariant
            k <= count,
            *len == l0,
            del_from + del_len + count == l0,
            l0 <= ar.len(),
            ar@.len() == b0.len(),
            forall|i: int|
                0 <= i < b0.len() ==> ar@[i] == (if del_from <= i < del_from + k {
                    b0[i + del_len]
                } else {
                    b0[i]
                }),
        decreases count - k,
    {
        let v = ar[del_from + del_len + k];
        ar[del_from + k] = v;
        k = k + 1;
    }
    *len = *len - del_len;
    assert(ar@ =~= random_delete_bytes_spec(b0, l0, s0).bytes);
}

/// Effect of `random_grow_bytes`: with three-to-one odds the inserted block
/// clones an existing span (its length bounded by the logical length),
/// otherwise it is a run of one constant fill byte — fresh half of the time,
/// else sampled from the buffer — with its length drawn from the unclipped
/// tiers.  The block is inserted at a random offset, one terminator byte is
/// appended past the new logical length, and the length grows by the block's
/// size.  A no-op on an empty buffer or when the length already exceeds the
/// cap.
pub open spec fn random_grow_bytes_spec(b: Seq<u8>, len: usize, s: u64) -> MutView {
    if len == 0 || len > MAX_STR_LEN {
        MutView { bytes: b, len, state: s }
    } else {
        let c = draw_out(s, 4);
        let s1 = draw_next(s, 4);
        let gl = if c != 0 {
            choose_block_len_spec(s1, len as u32).0 as int
        } else {
            choose_block_len_spec(s1, HAVOC_BLK_XL as u32).0 as int
        };
        let s2 = if c != 0 {
            choose_block_len_spec(s1, len as u32).1
        } else {
            choose_block_len_spec(s1, HAVOC_BLK_XL as u32).1
        };
        let gf = if c != 0 {
            draw_out(s2, (len - gl + 1) as u32) as int
        } else {
            0
        };
        let s3 = if c != 0 {
            draw_next(s2, (len - gl + 1) as u32)
        } else {
            s2
        };
        let gt = draw_out(s3, len as u32) as int;
        let s4 = draw_next(s3, len as u32);
        if c != 0 {
            MutView {
                bytes: b.subrange(0, gt) + b.subrange(gf, gf + gl) + b.subrange(gt, len as int)
                    + seq![0u8],
                len: (len + gl) as usize,
                state: s4,
            }
        } else {
            let fc = draw_out(s4, 2);
            let s5 = draw_next(s4, 2);
            let fill = if fc != 0 {
                draw_out(s5, 256) as u8
            } else {
                b[draw_out(s5, len as u32) as int]
            };
            let s6 = draw_next(
                s5,
                if fc != 0 {
                    256
                } else {
                    len as u32
                },
            );
            MutView {
                bytes: b.subrange(0, gt) + Seq::new(gl as nat, |i: int| fill) + b.subrange(
                    gt,
                    len as int,
                ) + seq![0u8],
                len: (len + gl) as usize,
                state: s6,
            }
        }
    }
}

/// Randomly grow the buffer by inserting or cloning a block of bytes.  The
/// result is a freshly built buffer: prefix, inserted block, suffix, and one
/// terminator byte past the new logical length.
pub fn random_grow_bytes(ar: &mut Vec<u8>, len: &mut usize, rng: &mut ChainRng)
    requires
        *old(len) <= old(ar).len(),
        *old(len) <= MAX_MUTATION_LEN,
    ensures
        final(ar)@ == random_grow_bytes_spec(old(ar)@, *old(len), old(rng).state).bytes,
        *final(len) == random_grow_bytes_spec(old(ar)@, *old(len), old(rng).state).len,
        final(rng).state == random_grow_bytes_spec(old(ar)@, *old(len), old(rng).state).state,
        *final(len) <= final(ar).len(),
        *final(len) <= *old(len) + HAVOC_BLK_XL,
        0 < *old(len) <= MAX_STR_LEN ==> *final(len) > *old(len),
        *old(len) == 0 || *old(len) > MAX_STR_LEN ==> final(ar)@ == old(ar)@ && *final(len)
            == *old(len) && *final(rng) == *old(rng),
{
    if *len == 0 || *len > MAX_STR_LEN {
        return;
    }
    let ghost b0 = ar@;
    let ghost s0 = rng.state;
    let ghost l0 = *len;
    let clone_or_insert = ri(rng, 4);
    let growth_len: usize;
    let growth_from: usize;
    if clone_or_insert != 0 {
        growth_len = choose_block_len(rng, *len as u32) as usize;
        growth_from = ri(rng, (*len - growth_len + 1) as u32) as usize;
    } else {
        growth_len = choose_block_len(rng, HAVOC_BLK_XL as u32) as usize;
        growth_from = 0;
    }
    let growth_to = ri(rng, *len as u32) as usize;
    let mut new_buf: Vec<u8> = Vec::new();
    let mut k: usize = 0;
    while k < growth_to
        invariant
            k <= growth_to,
            growth_to < l0 <= ar.len(),
            ar@ == b0,
            new_buf@ == b0.subrange(0, k as int),
        decreases growth_to - k,
    {
        let v = ar[k];
        new_buf.push(v);
        assert(new_buf@ =~= b0.subrange(0, k + 1));
        k = k + 1;
    }
    if clone_or_insert != 0 {
        let mut j: usize = 0;
        while j < growth_len
            invariant
                j <= growth_len,
                growth_from + growth_len <= l0 <= ar.len(),
                growth_to < l0,
                ar@ == b0,
                new_buf@ == b0.subrange(0, growth_to as int) + b0.subrange(
                    growth_from as int,
                    growth_from + j,
                ),
            decreases growth_len - j,
        {
            let v = ar[growth_from + j];
            new_buf.push(v);
            assert(new_buf@ =~= b0.subrange(0, growth_to as int) + b0.subrange(
                growth_from as int,
                growth_from + j + 1,
            ));
            j = j + 1;
        }
    } else {
        let fill_byte: u8 = if ri(rng, 2) != 0 {
            ri(rng, 256) as u8
        } else {
            ar[ri(rng, *len as u32) as usize]
        };
        let mut j: usize = 0;
        while j < growth_len
            invariant
                j <= growth_len,
                growth_to < l0 <= ar.len(),
                ar@ == b0,
                new_buf@ == b0.subrange(0, growth_to as int) + Seq::new(j as nat, |i: int| fill_byte),
            decreases growth_len - j,
        {
            new_buf.push(fill_byte);
            assert(new_buf@ =~= b0.subrange(0, growth_to as int) + Seq::new(
                (j + 1) as nat,
                |i: int| fill_byte,
            ));
            j = j + 1;
        }
    }
    let ghost mid = new_buf@;
    let mut k2: usize = growth_to;
    while k2 < *len
        invariant
            growth_to <= k2 <= *len,
            *len == l0,
            l0 <= ar.len(),
            ar@ == b0,
            new_buf@ == mid + b0.subrange(growth_to as int, k2 as int),
        decreases *len - k2,
    {
        let v = ar[k2];
        new_buf.push(v);
        assert(new_buf@ =~= mid + b0.subrange(growth_to as int, k2 + 1));
        k2 = k2 + 1;
    }
    new_buf.push(0);
    *len = *len + growth_len;
    *ar = new_buf;
    assert(ar@ =~= random_grow_bytes_spec(b0, l0, s0).bytes);
}

/// Apply the operator with id `op` to the model.  Ids nine and ten (delete
/// and grow) act only in growable mode; any other unmatched id leaves the
/// model unchanged.
pub open spec fn apply_op(v: MutView, op: u32, is_str: bool) -> MutView {
    if op == 0 {
        bitflip1_spec(v.bytes, v.len, v.state)
    } else if op == 1 {
        byte_intersting_spec(v.bytes, v.len, v.state)
    } else if op == 2 {
        word_intersting_spec(v.bytes, v.len, v.state)
    } else if op == 3 {
        dword_intersting_spec(v.bytes, v.len, v.state)
    } else if op == 4 {
        byte_arith_spec(v.bytes, v.len, v.state)
    } else if op == 5 {
        word_arith_spec(v.bytes, v.len, v.state)
    } else if op == 6 {
        dword_arith_spec(v.bytes, v.len, v.state)
    } else if op == 7 {
        byte_random_spec(v.bytes, v.len, v.state)
    } else if op == 8 {
        bytes_random_spec(v.bytes, v.len, v.state)
    } else if op == 9 {
        if is_str {
            random_delete_bytes_spec(v.bytes, v.len, v.state)
        } else {
            v
        }
    } else if op == 10 {
        if is_str {
            random_grow_bytes_spec(v.bytes, v.len, v.state)
        } else {
            v
        }
    } else {
        v
    }
}

/// One havoc iteration: an operator id is drawn uniformly from eleven
/// choices in growable mode, nine otherwise, and the chosen operator is
/// applied.
pub open spec fn havoc_step(v: MutView, is_str: bool) -> MutView {
    let nops: u32 = if is_str {
        11
    } else {
        9
    };
    let op = draw_out(v.state, nops);
    apply_op(MutView { bytes: v.bytes, len: v.len, state: draw_next(v.state, nops) }, op, is_str)
}

/// The model after `k` havoc iterations.
pub open spec fn havoc_iter(v: MutView, k: nat, is_str: bool) -> MutView
    decreases k,
{
    if k == 0 {
        v
    } else {
        havoc_step(havoc_iter(v, (k - 1) as nat, is_str), is_str)
    }
}

/// Effect of `havoc`: a stacking count of two to the power `1 + draw(7)` is
/// chosen — a power of two between two and one hundred twenty-eight, uniform
/// over the exponent — and that many havoc iterations run in sequence.
pub open spec fn havoc_spec(v: MutView, is_str: bool) -> MutView {
    let sh = (1 + draw_out(v.state, 7)) as u32;
    havoc_iter(
        MutView { bytes: v.bytes, len: v.len, state: draw_next(v.state, 7) },
        (1u32 << sh) as nat,
        is_str,
    )
}

/// Perform a randomized stacked sequence of mutations on the byte array.
/// In growable mode the delete and grow operators join the catalog and the
/// logical length may change; otherwise it stays.  Failure is impossible by
/// construction: every operator degrades to a no-op rather than erring.
pub fn havoc(ar: &mut Vec<u8>, len: &mut usize, is_str: bool, rng: &mut ChainRng)
    requires
        *old(len) <= old(ar).len(),
        *old(len) <= MAX_STR_LEN,
    ensures
        ({
            let m = havoc_spec(
                MutView { bytes: old(ar)@, len: *old(len), state: old(rng).state },
                is_str,
            );
            final(ar)@ == m.bytes && *final(len) == m.len && final(rng).state == m.state
        }),
        *final(len) <= final(ar).len(),
        *final(len) <= MAX_MUTATION_LEN,
        !is_str ==> *final(len) == *old(len),
{
    let ghost v0 = MutView { bytes: ar@, len: *len, state: rng.state };
    let e = ri(rng, 7);
    let sh = 1 + e;
    let use_stacking: u32 = 1u32 << sh;
    let ghost v1 = MutView { bytes: ar@, len: *len, state: rng.state };
    let mut it: u32 = 0;
    while it < use_stacking
        invariant
            it <= use_stacking,
            ar@ == havoc_iter(v1, it as nat, is_str).bytes,
            *len == havoc_iter(v1, it as nat, is_str).len,
            rng.state == havoc_iter(v1, it as nat, is_str).state,
            *len <= ar.len(),
            *len <= MAX_MUTATION_LEN,
            !is_str ==> *len == v1.len,
        decreases use_stacking - it,
    {
        let ghost vc = MutView { bytes: ar@, len: *len, state: rng.state };
        let op = if is_str {
            ri(rng, 11)
        } else {
            ri(rng, 9)
        };
        match op {
            0 => bitflip_1(ar, *len, rng),
            1 => byte_intersting(ar, *len, rng),
            2 => word_intersting(ar, *len, rng),
            3 => dword_intersting(ar, *len, rng),
            4 => byte_arith(ar, *len, rng),
            5 => word_arith(ar, *len, rng),
            6 => dword_arith(ar, *len, rng),
            7 => byte_random(ar, *len, rng),
            8 => bytes_random(ar, *len, rng),
            9 => {
                if is_str {
                    random_delete_bytes(ar, len, rng);
                }
            },
            10 => {
                if is_str {
                    random_grow_bytes(ar, len, rng);
                }
            },
            _ => {},
        }
        proof {
            assert(MutView { bytes: ar@, len: *len, state: rng.state } == havoc_step(
                vc,
                is_str,
            ));
            assert(havoc_iter(v1, (it + 1) as nat, is_str) == havoc_step(
                havoc_iter(v1, it as nat, is_str),
                is_str,
            ));
        }
        it = it + 1;
    }
}

} // verus!
