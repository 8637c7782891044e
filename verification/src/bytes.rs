//! Big-endian byte access used by the register files and memories.
use vstd::prelude::*;
use vstd::arithmetic::power2::{pow2, lemma2_to64};
use vstd::bits::{low_bits_mask, lemma_usize_low_bits_mask_is_mod};

verus! {

/// The big-endian 16-bit value of two bytes.
pub open spec fn word16(high: u8, low: u8) -> int {
    high as int * 0x100 + low as int
}

/// The big-endian 32-bit value of four bytes.
pub open spec fn word32(b0: u8, b1: u8, b2: u8, b3: u8) -> int {
    b0 as int * 0x100_0000 + b1 as int * 0x1_0000 + b2 as int * 0x100 + b3 as int
}

/// The big-endian 16-bit word stored at `offset` of `s`.
pub open spec fn be16_at(s: Seq<u8>, offset: int) -> u16 {
    word16(s[offset], s[offset + 1]) as u16
}

/// The big-endian 32-bit word stored at `offset` of `s`.
pub open spec fn be32_at(s: Seq<u8>, offset: int) -> u32 {
    word32(s[offset], s[offset + 1], s[offset + 2], s[offset + 3]) as u32
}

/// The big-endian 16-bit word at `offset` of a buffer whose length is a power
/// of two, each byte address wrapping around the buffer.
pub open spec fn be16_wrapped_at(s: Seq<u8>, offset: int) -> u16 {
    word16(s[offset % s.len() as int], s[(offset + 1) % s.len() as int]) as u16
}

/// The big-endian 32-bit word at `offset` of a buffer, each byte address
/// wrapping around the buffer.
pub open spec fn be32_wrapped_at(s: Seq<u8>, offset: int) -> u32 {
    let n = s.len() as int;
    word32(s[offset % n], s[(offset + 1) % n], s[(offset + 2) % n], s[(offset + 3) % n]) as u32
}

/// Byte `k` (0 = most significant) of the big-endian encoding of `v`.
pub open spec fn be32_byte(v: u32, k: int) -> u8 {
    ((v as int / pow256(3 - k)) % 0x100) as u8
}

/// Byte `k` (0 = most significant) of the big-endian encoding of a 16-bit value.
pub open spec fn be16_byte(v: u16, k: int) -> u8 {
    ((v as int / pow256(1 - k)) % 0x100) as u8
}

pub open spec fn pow256(e: int) -> int
    decreases e,
{
    if e <= 0 {
        1
    } else {
        0x100 * pow256(e - 1)
    }
}

/// `s` with the big-endian encoding of `v` written at `offset`.
pub open spec fn with_be16(s: Seq<u8>, offset: int, v: u16) -> Seq<u8> {
    s.update(offset, be16_byte(v, 0)).update(offset + 1, be16_byte(v, 1))
}

/// `s` with the big-endian encoding of `v` written at `offset`.
pub open spec fn with_be32(s: Seq<u8>, offset: int, v: u32) -> Seq<u8> {
    s.update(offset, be32_byte(v, 0)).update(offset + 1, be32_byte(v, 1)).update(
        offset + 2,
        be32_byte(v, 2),
    ).update(offset + 3, be32_byte(v, 3))
}

pub proof fn lemma_word16(high: u8, low: u8)
    ensures
        ((high as u16) << 8u16) | (low as u16) == word16(high, low),
        0 <= word16(high, low) <= 0xffff,
{
    assert(((high as u16) << 8u16) | (low as u16) == (high as u16) * 256 + (low as u16))
        by (bit_vector);
}

pub proof fn lemma_word32(b0: u8, b1: u8, b2: u8, b3: u8)
    ensures
        ((b0 as u32) << 24u32) | ((b1 as u32) << 16u32) | ((b2 as u32) << 8u32) | (b3 as u32)
            == word32(b0, b1, b2, b3),
        0 <= word32(b0, b1, b2, b3) <= 0xffff_ffff,
{
    assert(((b0 as u32) << 24u32) | ((b1 as u32) << 16u32) | ((b2 as u32) << 8u32) | (b3 as u32)
        == (b0 as u32) * 0x100_0000 + (b1 as u32) * 0x1_0000 + (b2 as u32) * 0x100 + (b3 as u32))
        by (bit_vector);
}

/// Masking an index by `len - 1` equals taking it modulo `len` when `len`
/// is a power of two no larger than 2^32.
pub open spec fn is_pow2(n: int) -> bool {
    n == 1 || n == 2 || n == 4 || n == 8 || n == 0x10 || n == 0x20 || n == 0x40 || n == 0x80
        || n == 0x100 || n == 0x200 || n == 0x400 || n == 0x800 || n == 0x1000 || n == 0x2000
        || n == 0x4000 || n == 0x8000 || n == 0x1_0000 || n == 0x2_0000 || n == 0x4_0000
        || n == 0x8_0000 || n == 0x10_0000 || n == 0x20_0000 || n == 0x40_0000 || n == 0x80_0000
        || n == 0x100_0000
}

/// `x & (n - 1) == x % n` for a power of two `n`.
pub proof fn lemma_mask_mod(x: usize, n: usize)
    requires
        is_pow2(n as int),
    ensures
        x & ((n - 1) as usize) == x % n,
        x % n < n,
{
    lemma2_to64();
    if n == 0x1 {
        lemma_usize_low_bits_mask_is_mod(x, 0);
    }
    if n == 0x2 {
        lemma_usize_low_bits_mask_is_mod(x, 1);
    }
    if n == 0x4 {
        lemma_usize_low_bits_mask_is_mod(x, 2);
    }
    if n == 0x8 {
        lemma_usize_low_bits_mask_is_mod(x, 3);
    }
    if n == 0x10 {
        lemma_usize_low_bits_mask_is_mod(x, 4);
    }
    if n == 0x20 {
        lemma_usize_low_bits_mask_is_mod(x, 5);
    }
    if n == 0x40 {
        lemma_usize_low_bits_mask_is_mod(x, 6);
    }
    if n == 0x80 {
        lemma_usize_low_bits_mask_is_mod(x, 7);
    }
    if n == 0x100 {
        lemma_usize_low_bits_mask_is_mod(x, 8);
    }
    if n == 0x200 {
        lemma_usize_low_bits_mask_is_mod(x, 9);
    }
    if n == 0x400 {
        lemma_usize_low_bits_mask_is_mod(x, 10);
    }
    if n == 0x800 {
        lemma_usize_low_bits_mask_is_mod(x, 11);
    }
    if n == 0x1000 {
        lemma_usize_low_bits_mask_is_mod(x, 12);
    }
    if n == 0x2000 {
        lemma_usize_low_bits_mask_is_mod(x, 13);
    }
    if n == 0x4000 {
        lemma_usize_low_bits_mask_is_mod(x, 14);
    }
    if n == 0x8000 {
        lemma_usize_low_bits_mask_is_mod(x, 15);
    }
    if n == 0x10000 {
        lemma_usize_low_bits_mask_is_mod(x, 16);
    }
    if n == 0x20000 {
        lemma_usize_low_bits_mask_is_mod(x, 17);
    }
    if n == 0x40000 {
        lemma_usize_low_bits_mask_is_mod(x, 18);
    }
    if n == 0x80000 {
        lemma_usize_low_bits_mask_is_mod(x, 19);
    }
    if n == 0x100000 {
        lemma_usize_low_bits_mask_is_mod(x, 20);
    }
    if n == 0x200000 {
        lemma_usize_low_bits_mask_is_mod(x, 21);
    }
    if n == 0x400000 {
        lemma_usize_low_bits_mask_is_mod(x, 22);
    }
    if n == 0x800000 {
        lemma_usize_low_bits_mask_is_mod(x, 23);
    }
    if n == 0x1000000 {
        lemma_usize_low_bits_mask_is_mod(x, 24);
    }
}

/// Reads the big-endian word at `offset`.
pub fn be16(bytes: &[u8], offset: usize) -> (r: u16)
    requires
        offset + 1 < bytes@.len(),
    ensures
        r == be16_at(bytes@, offset as int),
{
    proof {
        lemma_word16(bytes@[offset as int], bytes@[offset + 1]);
    }
    ((bytes[offset] as u16) << 8u16) | (bytes[offset + 1] as u16)
}

/// Reads the big-endian long word at `offset`.
pub fn be32(bytes: &[u8], offset: usize) -> (r: u32)
    requires
        offset + 3 < bytes@.len(),
    ensures
        r == be32_at(bytes@, offset as int),
{
    proof {
        lemma_word32(
            bytes@[offset as int],
            bytes@[offset + 1],
            bytes@[offset + 2],
            bytes@[offset + 3],
        );
    }
    ((bytes[offset] as u32) << 24u32) | ((bytes[offset + 1] as u32) << 16u32) | ((bytes[offset
        + 2] as u32) << 8u32) | (bytes[offset + 3] as u32)
}

/// Reads the big-endian word at `offset` of a power-of-two sized buffer,
/// wrapping each byte address around the buffer.
pub fn be16_wrapped(bytes: &[u8], offset: usize) -> (r: u16)
    requires
        is_pow2(bytes@.len() as int),
        offset < usize::MAX,
    ensures
        r == be16_wrapped_at(bytes@, offset as int),
{
    let mask = bytes.len() - 1;
    proof {
        lemma_mask_mod(offset, bytes@.len() as usize);
        lemma_mask_mod((offset + 1) as usize, bytes@.len() as usize);
    }
    let high = bytes[offset & mask];
    let low = bytes[(offset + 1) & mask];
    proof {
        lemma_word16(high, low);
    }
    ((high as u16) << 8u16) | (low as u16)
}

/// Reads the big-endian long word at `offset` of a power-of-two sized buffer,
/// wrapping each byte address around the buffer.
pub fn be32_wrapped(bytes: &[u8], offset: usize) -> (r: u32)
    requires
        is_pow2(bytes@.len() as int),
        offset < usize::MAX - 3,
    ensures
        r == be32_wrapped_at(bytes@, offset as int),
{
    let mask = bytes.len() - 1;
    proof {
        lemma_mask_mod(offset, bytes@.len() as usize);
        lemma_mask_mod((offset + 1) as usize, bytes@.len() as usize);
        lemma_mask_mod((offset + 2) as usize, bytes@.len() as usize);
        lemma_mask_mod((offset + 3) as usize, bytes@.len() as usize);
    }
    let b0 = bytes[offset & mask];
    let b1 = bytes[(offset + 1) & mask];
    let b2 = bytes[(offset + 2) & mask];
    let b3 = bytes[(offset + 3) & mask];
    proof {
        lemma_word32(b0, b1, b2, b3);
    }
    ((b0 as u32) << 24u32) | ((b1 as u32) << 16u32) | ((b2 as u32) << 8u32) | (b3 as u32)
}

/// Writes the big-endian encoding of `value` at `offset`.
pub fn put_be16(bytes: &mut [u8], offset: usize, value: u16)
    requires
        offset + 1 < old(bytes)@.len(),
    ensures
        final(bytes)@ == with_be16(old(bytes)@, offset as int, value),
        be16_at(final(bytes)@, offset as int) == value,
{
    proof {
        reveal_with_fuel(pow256, 2);
    }
    bytes[offset] = (value / 0x100) as u8;
    bytes[offset + 1] = (value % 0x100) as u8;
}

/// Writes the big-endian encoding of `value` at `offset`.
pub fn put_be32(bytes: &mut [u8], offset: usize, value: u32)
    requires
        offset + 3 < old(bytes)@.len(),
    ensures
        final(bytes)@ == with_be32(old(bytes)@, offset as int, value),
        be32_at(final(bytes)@, offset as int) == value,
{
    proof {
        reveal_with_fuel(pow256, 4);
    }
    bytes[offset] = (value / 0x100_0000) as u8;
    bytes[offset + 1] = (value / 0x1_0000 % 0x100) as u8;
    bytes[offset + 2] = (value / 0x100 % 0x100) as u8;
    bytes[offset + 3] = (value % 0x100) as u8;
}


/// Byte `k` (0 = most significant) of the big-endian encoding of `value`.
pub fn be32_byte_of(value: u32, k: usize) -> (r: u8)
    requires
        k < 4,
    ensures
        r == be32_byte(value, k as int),
{
    proof {
        reveal_with_fuel(pow256, 4);
    }
    if k == 0 {
        (value / 0x100_0000) as u8
    } else if k == 1 {
        (value / 0x1_0000 % 0x100) as u8
    } else if k == 2 {
        (value / 0x100 % 0x100) as u8
    } else {
        (value % 0x100) as u8
    }
}

} // verus!
