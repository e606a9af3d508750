//! Bit-level primitives for the 128-bit ASTC block: a fixed array of four
//! little-endian words into which unaligned bit fields are ORed.

use vstd::prelude::*;

verus! {

/// The all-zero 128-bit block.
pub open spec fn spec_zero_block() -> Seq<u32> {
    seq![0u32, 0u32, 0u32, 0u32]
}

/// A bit field ORed into the block at bit position `pos`: the four words are
/// a 128-bit little-endian value and the field's lowest bit lands at `pos`.
/// Field bits shifted beyond bit 127 are discarded.
pub open spec fn spec_set_bits(data: Seq<u32>, pos: int, value: u32) -> Seq<u32>
    recommends
        data.len() == 4,
        0 <= pos < 128,
{
    let w = pos / 32;
    let v = (value as u64) << ((pos % 32) as u64);
    let low = (v & 0xFFFF_FFFF) as u32;
    let high = (v >> 32) as u32;
    let d = data.update(w, data[w] | low);
    if w < 3 {
        d.update(w + 1, (d[w + 1] | high))
    } else {
        d
    }
}

/// Word-wise OR of two blocks.
pub open spec fn spec_or_words(a: Seq<u32>, b: Seq<u32>) -> Seq<u32>
    recommends
        a.len() == 4,
        b.len() == 4,
{
    Seq::new(4, |i: int| a[i] | b[i])
}

/// The block with every bit at position `end` or above forced to zero.
pub open spec fn spec_mask_from(data: Seq<u32>, end: int) -> Seq<u32>
    recommends
        data.len() == 4,
        0 < end < 128,
{
    Seq::new(
        4,
        |i: int|
            if 32 * (i + 1) <= end {
                data[i]
            } else if 32 * i >= end {
                0u32
            } else {
                data[i] & (((1u32 << ((end - 32 * i) as u32)) - 1) as u32)
            },
    )
}

/// The word with its bit order reversed, bit 0 exchanged with bit 31: the
/// value of `acc` after folding the lowest `i` bits of `x` in from the left.
pub open spec fn spec_reverse_acc(x: u32, i: int) -> u32
    decreases i,
{
    if i <= 0 {
        0u32
    } else {
        (spec_reverse_acc(x, i - 1) << 1u32) | ((x >> ((i - 1) as u32)) & 1u32)
    }
}

pub open spec fn spec_reverse_u32(x: u32) -> u32 {
    spec_reverse_acc(x, 32)
}

/// ORs `value`, left-shifted to bit position `pos`, into the 128-bit block,
/// then advances `pos` by `bits`.
pub(crate) fn set_bits(data: &mut [u32; 4], pos: &mut usize, bits: usize, value: u32)
    requires
        1 <= bits <= 25,
        *old(pos) + bits <= 128,
    ensures
        final(data)@ == spec_set_bits(old(data)@, *old(pos) as int, value),
        *final(pos) == *old(pos) + bits,
{
    let w: usize = *pos / 32;
    let sh: u32 = (*pos % 32) as u32;
    let v: u64 = (value as u64) << sh;
    data[w] = data[w] | ((v & 0xFFFF_FFFF) as u32);
    if w < 3 {
        data[w + 1] = data[w + 1] | ((v >> 32) as u32);
    }
    *pos = *pos + bits;
}

/// Reverses the bit order of a word.
pub(crate) fn reverse_u32(x: u32) -> (r: u32)
    ensures
        r == spec_reverse_u32(x),
{
    let mut r: u32 = 0;
    let mut i: usize = 0;
    while i < 32
        invariant
            i <= 32,
            r == spec_reverse_acc(x, i as int),
        decreases 32 - i,
    {
        r = (r << 1u32) | ((x >> (i as u32)) & 1u32);
        i = i + 1;
    }
    r
}

} // verus!
