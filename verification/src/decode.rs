//! Fixed-layout CPU decoders for the BC1 to BC5 block formats, and the
//! helper that expands a whole compressed surface back into RGBA bytes.

use vstd::prelude::*;

use vstd::slice::slice_subrange;

use crate::CompressionVariant;

verus! {

/// The 16-bit little-endian color word at byte `i` of a block.
pub open spec fn spec_u16_at(block: Seq<u8>, i: int) -> u32 {
    ((block[i] as u32) + 256 * (block[i + 1] as u32)) as u32
}

/// A 5-bit channel expanded to 8 bits: shifted up with its own high bits
/// repeated below.
pub open spec fn spec_expand5(v: u32) -> u32 {
    ((v & 31) << 3u32) | ((v & 31) >> 2u32)
}

/// A 6-bit channel expanded to 8 bits.
pub open spec fn spec_expand6(v: u32) -> u32 {
    ((v & 63) << 2u32) | ((v & 63) >> 4u32)
}

/// The red, green and blue channels of a 5:6:5 color word, expanded to 8
/// bits each.
pub open spec fn spec_color565(c: u32) -> (u32, u32, u32) {
    (spec_expand5((c >> 11u32) & 31), spec_expand6((c >> 5u32) & 63), spec_expand5(c & 31))
}

/// One entry of the four-color BC1 palette: the two endpoint colors, then
/// their thirds-interpolations when the first color word is the larger, or
/// the midpoint and transparent black when it is not.
pub open spec fn spec_bc1_palette(c0: u32, c1: u32, idx: u32) -> Seq<u8> {
    let (r0, g0, b0) = spec_color565(c0);
    let (r1, g1, b1) = spec_color565(c1);
    if idx == 0 {
        seq![r0 as u8, g0 as u8, b0 as u8, 255u8]
    } else if idx == 1 {
        seq![r1 as u8, g1 as u8, b1 as u8, 255u8]
    } else if c0 > c1 {
        if idx == 2 {
            seq![
                ((2 * r0 + r1) / 3) as u8,
                ((2 * g0 + g1) / 3) as u8,
                ((2 * b0 + b1) / 3) as u8,
                255u8,
            ]
        } else {
            seq![
                ((r0 + 2 * r1) / 3) as u8,
                ((g0 + 2 * g1) / 3) as u8,
                ((b0 + 2 * b1) / 3) as u8,
                255u8,
            ]
        }
    } else if idx == 2 {
        seq![((r0 + r1) / 2) as u8, ((g0 + g1) / 2) as u8, ((b0 + b1) / 2) as u8, 255u8]
    } else {
        seq![0u8, 0u8, 0u8, 0u8]
    }
}

/// The 2-bit palette index of the texel at `(x, y)`: one index byte per row.
pub open spec fn spec_bc1_index(block: Seq<u8>, base: int, x: int, y: int) -> u32 {
    ((block[base + 4 + y] as u32) >> ((2 * x) as u32)) & 3
}

/// The RGBA bytes of the texel at `(x, y)` of a BC1 color block starting at
/// byte `base`.
pub open spec fn spec_bc1_rgba_at(block: Seq<u8>, base: int, x: int, y: int) -> Seq<u8> {
    spec_bc1_palette(
        spec_u16_at(block, base),
        spec_u16_at(block, base + 2),
        spec_bc1_index(block, base, x, y),
    )
}

/// The RGBA bytes of the texel at `(x, y)` of an 8-byte BC1 block.
pub open spec fn spec_bc1_rgba(block: Seq<u8>, x: int, y: int) -> Seq<u8> {
    spec_bc1_rgba_at(block, 0, x, y)
}

/// One entry of the eight-value interpolated alpha palette shared by BC3,
/// BC4 and BC5: the two endpoints, then sevenths-interpolations when the
/// first endpoint is the larger, or fifths-interpolations bracketed by 0 and
/// 255 when it is not.
pub open spec fn spec_alpha_palette(a0: u32, a1: u32, idx: u32) -> u8 {
    if idx == 0 {
        a0 as u8
    } else if idx == 1 {
        a1 as u8
    } else if a0 > a1 {
        (((8 - idx) * a0 + (idx - 1) * a1) / 7) as u8
    } else if idx < 6 {
        (((6 - idx) * a0 + (idx - 1) * a1) / 5) as u8
    } else if idx == 6 {
        0u8
    } else {
        255u8
    }
}

/// The 3-bit alpha index of texel `(x, y)`: the 48 index bits of the block
/// read as one little-endian value.
pub open spec fn spec_alpha_index(block: Seq<u8>, base: int, x: int, y: int) -> u32 {
    let bits = (block[base + 2] as u64) | ((block[base + 3] as u64) << 8u64) | ((block[base + 4]
        as u64) << 16u64) | ((block[base + 5] as u64) << 24u64) | ((block[base + 6] as u64)
        << 32u64) | ((block[base + 7] as u64) << 40u64);
    ((bits >> ((3 * (4 * y + x)) as u64)) & 7) as u32
}

/// The decoded alpha value of texel `(x, y)` of an 8-byte interpolated-alpha
/// block starting at byte `base`.
pub open spec fn spec_alpha_value(block: Seq<u8>, base: int, x: int, y: int) -> u8 {
    spec_alpha_palette(
        block[base] as u32,
        block[base + 1] as u32,
        spec_alpha_index(block, base, x, y),
    )
}

/// The 4-bit sharp alpha of texel `(x, y)` of a BC2 block, expanded to 8
/// bits by repetition.
pub open spec fn spec_sharp_alpha(block: Seq<u8>, x: int, y: int) -> u8 {
    let t = 4 * y + x;
    let nibble = ((block[t / 2] as u32) >> ((4 * (t % 2)) as u32)) & 15;
    (nibble * 17) as u8
}

/// A byte offset that falls inside the 4x16-byte output window of one
/// decoded block, relative to the window's first byte.
pub open spec fn spec_in_window(d: int, pitch: int) -> bool {
    &&& 0 <= d
    &&& d / pitch < 4
    &&& d % pitch < 16
}

/// Writes the 64 RGBA bytes of one decoded block into the output at its
/// window: four rows of 16 bytes, each row `pitch` bytes after the last.
fn write_decoded_block(decompressed: &mut [u8], base: usize, pitch: usize, pixels: &[u8; 64])
    requires
        pitch >= 16,
        base + 3 * pitch + 16 <= old(decompressed)@.len(),
    ensures
        final(decompressed)@.len() == old(decompressed)@.len(),
        forall|j: int|
            0 <= j < old(decompressed)@.len() ==> final(decompressed)@[j] == (if spec_in_window(
                j - base,
                pitch as int,
            ) {
                pixels@[((j - base) / (pitch as int)) * 16 + (j - base) % (pitch as int)]
            } else {
                old(decompressed)@[j]
            }),
{
    let n = decompressed.len();
    let ghost len = decompressed@.len() as int;
    let mut y: usize = 0;
    while y < 4
        invariant
            y <= 4,
            pitch >= 16,
            base + 3 * pitch + 16 <= len,
            len <= usize::MAX,
            decompressed@.len() == len,
            forall|j: int|
                0 <= j < len ==> decompressed@[j] == (if spec_in_window(j - base, pitch as int) && (
                j - base) / (pitch as int) < y {
                    pixels@[((j - base) / (pitch as int)) * 16 + (j - base) % (pitch as int)]
                } else {
                    old(decompressed)@[j]
                }),
        decreases 4 - y,
    {
        proof {
            assert(y * pitch <= 3 * pitch) by (nonlinear_arith)
                requires
                    y <= 3,
                    pitch >= 0,
            ;
        }
        let row_base = base + y * pitch;
        let mut c: usize = 0;
        while c < 16
            invariant
                c <= 16,
                y < 4,
                pitch >= 16,
                base + 3 * pitch + 16 <= len,
                len <= usize::MAX,
                row_base == base + y * pitch,
                row_base + 16 <= len,
                decompressed@.len() == len,
                forall|j: int|
                    0 <= j < len ==> decompressed@[j] == (if spec_in_window(j - base, pitch as int)
                        && ((j - base) / (pitch as int) < y || ((j - base) / (pitch as int) == y && (
                    j - base) % (pitch as int) < c)) {
                        pixels@[((j - base) / (pitch as int)) * 16 + (j - base) % (pitch as int)]
                    } else {
                        old(decompressed)@[j]
                    }),
            decreases 16 - c,
        {
            let ghost prev = decompressed@;
            decompressed[row_base + c] = pixels[y * 16 + c];
            proof {
                let d = (row_base + c) - base;
                assert(d == y * (pitch as int) + c);
                vstd::arithmetic::div_mod::lemma_fundamental_div_mod_converse_div(
                    d,
                    pitch as int,
                    y as int,
                    c as int,
                );
                vstd::arithmetic::div_mod::lemma_fundamental_div_mod_converse_mod(
                    d,
                    pitch as int,
                    y as int,
                    c as int,
                );
                assert forall|j: int| 0 <= j < len implies decompressed@[j] == (if spec_in_window(
                    j - base,
                    pitch as int,
                ) && ((j - base) / (pitch as int) < y || ((j - base) / (pitch as int) == y && (j
                    - base) % (pitch as int) < c + 1)) {
                    pixels@[((j - base) / (pitch as int)) * 16 + (j - base) % (pitch as int)]
                } else {
                    old(decompressed)@[j]
                }) by {
                    vstd::arithmetic::div_mod::lemma_fundamental_div_mod(j - base, pitch as int);
                    let q = (j - base) / (pitch as int);
                    let r = (j - base) % (pitch as int);
                    assert((pitch as int) * q == q * (pitch as int)) by (nonlinear_arith);
                    if j == row_base + c {
                        assert(q == y && r == c);
                        assert(decompressed@[j] == pixels@[y * 16 + c]);
                    } else {
                        assert(decompressed@[j] == prev[j]);
                        if 0 <= j - base && q == y && r == c {
                            assert(j - base == (pitch as int) * q + r);
                            assert(j == row_base + c);
                        }
                    }
                }
            }
            c = c + 1;
        }
        y = y + 1;
    }
}

fn bc1_palette_entry(c0: u32, c1: u32, idx: u32) -> (r: [u8; 4])
    requires
        c0 < 65536,
        c1 < 65536,
        idx < 4,
    ensures
        r@ == spec_bc1_palette(c0, c1, idx),
{
    proof {
        assert(forall|v: u32| (((#[trigger] (v & 31)) << 3u32) | ((v & 31) >> 2u32)) < 256)
            by (bit_vector);
        assert(forall|v: u32| (((#[trigger] (v & 63)) << 2u32) | ((v & 63) >> 4u32)) < 256)
            by (bit_vector);
    }
    let r0 = ((c0 >> 11u32) & 31);
    let g0 = ((c0 >> 5u32) & 63);
    let b0 = (c0 & 31);
    let r1 = ((c1 >> 11u32) & 31);
    let g1 = ((c1 >> 5u32) & 63);
    let b1 = (c1 & 31);
    let r0 = ((r0 & 31) << 3u32) | ((r0 & 31) >> 2u32);
    let g0 = ((g0 & 63) << 2u32) | ((g0 & 63) >> 4u32);
    let b0 = ((b0 & 31) << 3u32) | ((b0 & 31) >> 2u32);
    let r1 = ((r1 & 31) << 3u32) | ((r1 & 31) >> 2u32);
    let g1 = ((g1 & 63) << 2u32) | ((g1 & 63) >> 4u32);
    let b1 = ((b1 & 31) << 3u32) | ((b1 & 31) >> 2u32);
    let e: [u8; 4] = if idx == 0 {
        [r0 as u8, g0 as u8, b0 as u8, 255]
    } else if idx == 1 {
        [r1 as u8, g1 as u8, b1 as u8, 255]
    } else if c0 > c1 {
        if idx == 2 {
            [((2 * r0 + r1) / 3) as u8, ((2 * g0 + g1) / 3) as u8, ((2 * b0 + b1) / 3) as u8, 255]
        } else {
            [((r0 + 2 * r1) / 3) as u8, ((g0 + 2 * g1) / 3) as u8, ((b0 + 2 * b1) / 3) as u8, 255]
        }
    } else if idx == 2 {
        [((r0 + r1) / 2) as u8, ((g0 + g1) / 2) as u8, ((b0 + b1) / 2) as u8, 255]
    } else {
        [0, 0, 0, 0]
    };
    proof {
        assert(e@ =~= spec_bc1_palette(c0, c1, idx));
    }
    e
}

/// The two 16-bit color words of a BC1-style color half starting at `base`.
fn color_words(compressed: &[u8], base: usize) -> (r: (u32, u32))
    requires
        base + 4 <= compressed@.len(),
    ensures
        r.0 == spec_u16_at(compressed@, base as int),
        r.1 == spec_u16_at(compressed@, base as int + 2),
        r.0 < 65536,
        r.1 < 65536,
{
    let n = compressed.len();
    let c0 = compressed[base] as u32 + 256 * (compressed[base + 1] as u32);
    let c1 = compressed[base + 2] as u32 + 256 * (compressed[base + 3] as u32);
    (c0, c1)
}

fn bc1_color_pixel(compressed: &[u8], base: usize, x: usize, y: usize) -> (r: [u8; 4])
    requires
        base + 8 <= compressed@.len(),
        x < 4,
        y < 4,
    ensures
        r@ == spec_bc1_rgba_at(compressed@, base as int, x as int, y as int),
{
    let n = compressed.len();
    let (c0, c1) = color_words(compressed, base);
    let idx = ((compressed[base + 4 + y] as u32) >> ((2 * x) as u32)) & 3;
    proof {
        assert(forall|v: u32| (#[trigger] (v & 3)) < 4) by (bit_vector);
    }
    bc1_palette_entry(c0, c1, idx)
}

/// The interpolated alpha value of one texel of an 8-byte alpha half
/// starting at `base`.
fn alpha_pixel(compressed: &[u8], base: usize, x: usize, y: usize) -> (r: u8)
    requires
        base + 8 <= compressed@.len(),
        x < 4,
        y < 4,
    ensures
        r == spec_alpha_value(compressed@, base as int, x as int, y as int),
{
    let n = compressed.len();
    let a0 = compressed[base] as u32;
    let a1 = compressed[base + 1] as u32;
    let bits: u64 = (compressed[base + 2] as u64) | ((compressed[base + 3] as u64) << 8u64) | ((
    compressed[base + 4] as u64) << 16u64) | ((compressed[base + 5] as u64) << 24u64) | ((
    compressed[base + 6] as u64) << 32u64) | ((compressed[base + 7] as u64) << 40u64);
    let shift: u64 = (3 * (4 * y + x)) as u64;
    let idx = ((bits >> shift) & 7) as u32;
    proof {
        assert(forall|v: u64| (#[trigger] (v & 7)) < 8) by (bit_vector);
        assert(2 <= idx <= 7 ==> ((8 - idx) * a0 + (idx - 1) * a1) / 7 < 256) by (nonlinear_arith)
            requires
                a0 < 256,
                a1 < 256,
                idx < 8,
        ;
        assert(2 <= idx <= 5 ==> ((6 - idx) * a0 + (idx - 1) * a1) / 5 < 256) by (nonlinear_arith)
            requires
                a0 < 256,
                a1 < 256,
                idx < 8,
        ;
    }
    if idx == 0 {
        a0 as u8
    } else if idx == 1 {
        a1 as u8
    } else if a0 > a1 {
        (((8 - idx) * a0 + (idx - 1) * a1) / 7) as u8
    } else if idx < 6 {
        (((6 - idx) * a0 + (idx - 1) * a1) / 5) as u8
    } else if idx == 6 {
        0
    } else {
        255
    }
}

/// Decodes one 8-byte BC1 block into RGBA bytes at its output window.
pub fn decode_block_bc1(compressed: &[u8], decompressed: &mut [u8], base: usize, pitch: usize)
    requires
        compressed@.len() >= 8,
        pitch >= 16,
        base + 3 * pitch + 16 <= old(decompressed)@.len(),
    ensures
        final(decompressed)@.len() == old(decompressed)@.len(),
        forall|j: int|
            0 <= j < old(decompressed)@.len() ==> final(decompressed)@[j] == (if spec_in_window(
                j - base,
                pitch as int,
            ) {
                spec_bc1_rgba(
                    compressed@,
                    ((j - base) % (pitch as int)) / 4,
                    (j - base) / (pitch as int),
                )[((j - base) % (pitch as int)) % 4]
            } else {
                old(decompressed)@[j]
            }),
{
    let mut pixels: [u8; 64] = [0; 64];
    let mut t: usize = 0;
    while t < 16
        invariant
            t <= 16,
            compressed@.len() >= 8,
            forall|k: int|
                0 <= k < 4 * t ==> pixels@[k] == spec_bc1_rgba(compressed@, (k % 16) / 4, k / 16)[k
                    % 4],
        decreases 16 - t,
    {
        let px = bc1_color_pixel(compressed, 0, t % 4, t / 4);
        pixels[4 * t] = px[0];
        pixels[4 * t + 1] = px[1];
        pixels[4 * t + 2] = px[2];
        pixels[4 * t + 3] = px[3];
        proof {
            lemma_pixel_slots(t as int);
        }
        t = t + 1;
    }
    write_decoded_block(decompressed, base, pitch, &pixels);
    proof {
        lemma_window_pixels();
    }
}

/// Each filled slot of the flat pixel array maps back to its texel: slot
/// `4t + ch` holds channel `ch` of texel `(t % 4, t / 4)`.
proof fn lemma_pixel_slots(t: int)
    requires
        0 <= t < 16,
    ensures
        forall|k: int|
            4 * t <= k < 4 * t + 4 ==> ((#[trigger] (k % 16)) / 4 == (t % 4) && k / 16 == t / 4 && k
                % 4 == k - 4 * t),
{
    assert forall|k: int|
        4 * t <= k < 4 * t + 4 implies ((#[trigger] (k % 16)) / 4 == (t % 4) && k / 16 == t / 4 && k
        % 4 == k - 4 * t) by {
        let ch = k - 4 * t;
        vstd::arithmetic::div_mod::lemma_fundamental_div_mod_converse_div(
            k,
            16,
            t / 4,
            (t % 4) * 4 + ch,
        );
        vstd::arithmetic::div_mod::lemma_fundamental_div_mod_converse_mod(
            k,
            16,
            t / 4,
            (t % 4) * 4 + ch,
        );
        vstd::arithmetic::div_mod::lemma_fundamental_div_mod_converse_div(k % 16, 4, t % 4, ch);
        vstd::arithmetic::div_mod::lemma_fundamental_div_mod_converse_mod(k % 16, 4, t % 4, ch);
        vstd::arithmetic::div_mod::lemma_fundamental_div_mod_converse_div(k, 4, t, ch);
        vstd::arithmetic::div_mod::lemma_fundamental_div_mod_converse_mod(k, 4, t, ch);
    }
}

/// One entry of the four-color palette that BC2 and BC3 color halves always
/// use: both thirds-interpolations apply whatever the order of the two
/// color words.
pub open spec fn spec_color4_rgb(c0: u32, c1: u32, idx: u32) -> Seq<u8> {
    let (r0, g0, b0) = spec_color565(c0);
    let (r1, g1, b1) = spec_color565(c1);
    if idx == 0 {
        seq![r0 as u8, g0 as u8, b0 as u8]
    } else if idx == 1 {
        seq![r1 as u8, g1 as u8, b1 as u8]
    } else if idx == 2 {
        seq![((2 * r0 + r1) / 3) as u8, ((2 * g0 + g1) / 3) as u8, ((2 * b0 + b1) / 3) as u8]
    } else {
        seq![((r0 + 2 * r1) / 3) as u8, ((g0 + 2 * g1) / 3) as u8, ((b0 + 2 * b1) / 3) as u8]
    }
}

/// The RGBA bytes of texel `(x, y)` of a 16-byte BC2 block: four-color RGB
/// from the second half, 4-bit sharp alpha from the first.
pub open spec fn spec_bc2_rgba(block: Seq<u8>, x: int, y: int) -> Seq<u8> {
    spec_color4_rgb(
        spec_u16_at(block, 8),
        spec_u16_at(block, 10),
        spec_bc1_index(block, 8, x, y),
    ).push(spec_sharp_alpha(block, x, y))
}

/// The RGBA bytes of texel `(x, y)` of a 16-byte BC3 block: four-color RGB
/// from the second half, interpolated alpha from the first.
pub open spec fn spec_bc3_rgba(block: Seq<u8>, x: int, y: int) -> Seq<u8> {
    spec_color4_rgb(
        spec_u16_at(block, 8),
        spec_u16_at(block, 10),
        spec_bc1_index(block, 8, x, y),
    ).push(spec_alpha_value(block, 0, x, y))
}

/// The RGBA bytes of texel `(x, y)` of an 8-byte BC4 block: the decoded
/// single channel in red.
pub open spec fn spec_bc4_rgba(block: Seq<u8>, x: int, y: int) -> Seq<u8> {
    seq![spec_alpha_value(block, 0, x, y), 0u8, 0u8, 0u8]
}

/// The RGBA bytes of texel `(x, y)` of a 16-byte BC5 block: the two decoded
/// channels in red and green.
pub open spec fn spec_bc5_rgba(block: Seq<u8>, x: int, y: int) -> Seq<u8> {
    seq![spec_alpha_value(block, 0, x, y), spec_alpha_value(block, 8, x, y), 0u8, 0u8]
}

fn color4_pixel(compressed: &[u8], base: usize, x: usize, y: usize) -> (r: [u8; 3])
    requires
        base + 8 <= compressed@.len(),
        x < 4,
        y < 4,
    ensures
        r@ == spec_color4_rgb(
            spec_u16_at(compressed@, base as int),
            spec_u16_at(compressed@, base as int + 2),
            spec_bc1_index(compressed@, base as int, x as int, y as int),
        ),
{
    proof {
        assert(forall|v: u32| (((#[trigger] (v & 31)) << 3u32) | ((v & 31) >> 2u32)) < 256)
            by (bit_vector);
        assert(forall|v: u32| (((#[trigger] (v & 63)) << 2u32) | ((v & 63) >> 4u32)) < 256)
            by (bit_vector);
        assert(forall|v: u32| (#[trigger] (v & 3)) < 4) by (bit_vector);
    }
    let n = compressed.len();
    let (c0, c1) = color_words(compressed, base);
    let idx = ((compressed[base + 4 + y] as u32) >> ((2 * x) as u32)) & 3;
    let r0 = ((c0 >> 11u32) & 31);
    let g0 = ((c0 >> 5u32) & 63);
    let b0 = (c0 & 31);
    let r1 = ((c1 >> 11u32) & 31);
    let g1 = ((c1 >> 5u32) & 63);
    let b1 = (c1 & 31);
    let r0 = ((r0 & 31) << 3u32) | ((r0 & 31) >> 2u32);
    let g0 = ((g0 & 63) << 2u32) | ((g0 & 63) >> 4u32);
    let b0 = ((b0 & 31) << 3u32) | ((b0 & 31) >> 2u32);
    let r1 = ((r1 & 31) << 3u32) | ((r1 & 31) >> 2u32);
    let g1 = ((g1 & 63) << 2u32) | ((g1 & 63) >> 4u32);
    let b1 = ((b1 & 31) << 3u32) | ((b1 & 31) >> 2u32);
    let e: [u8; 3] = if idx == 0 {
        [r0 as u8, g0 as u8, b0 as u8]
    } else if idx == 1 {
        [r1 as u8, g1 as u8, b1 as u8]
    } else if idx == 2 {
        [((2 * r0 + r1) / 3) as u8, ((2 * g0 + g1) / 3) as u8, ((2 * b0 + b1) / 3) as u8]
    } else {
        [((r0 + 2 * r1) / 3) as u8, ((g0 + 2 * g1) / 3) as u8, ((b0 + 2 * b1) / 3) as u8]
    };
    proof {
        assert(e@ =~= spec_color4_rgb(
            c0,
            c1,
            spec_bc1_index(compressed@, base as int, x as int, y as int),
        ));
    }
    e
}

fn sharp_alpha_pixel(compressed: &[u8], x: usize, y: usize) -> (r: u8)
    requires
        compressed@.len() >= 8,
        x < 4,
        y < 4,
    ensures
        r == spec_sharp_alpha(compressed@, x as int, y as int),
{
    let n = compressed.len();
    let t = 4 * y + x;
    let nibble = ((compressed[t / 2] as u32) >> ((4 * (t % 2)) as u32)) & 15;
    proof {
        assert(forall|v: u32| (#[trigger] (v & 15)) < 16) by (bit_vector);
    }
    (nibble * 17) as u8
}

/// Decodes one 16-byte BC2 block into RGBA bytes at its output window.
pub fn decode_block_bc2(compressed: &[u8], decompressed: &mut [u8], base: usize, pitch: usize)
    requires
        compressed@.len() >= 16,
        pitch >= 16,
        base + 3 * pitch + 16 <= old(decompressed)@.len(),
    ensures
        final(decompressed)@.len() == old(decompressed)@.len(),
        forall|j: int|
            0 <= j < old(decompressed)@.len() ==> final(decompressed)@[j] == (if spec_in_window(
                j - base,
                pitch as int,
            ) {
                spec_bc2_rgba(
                    compressed@,
                    ((j - base) % (pitch as int)) / 4,
                    (j - base) / (pitch as int),
                )[((j - base) % (pitch as int)) % 4]
            } else {
                old(decompressed)@[j]
            }),
{
    let mut pixels: [u8; 64] = [0; 64];
    let mut t: usize = 0;
    while t < 16
        invariant
            t <= 16,
            compressed@.len() >= 16,
            forall|k: int|
                0 <= k < 4 * t ==> pixels@[k] == spec_bc2_rgba(compressed@, (k % 16) / 4, k / 16)[k
                    % 4],
        decreases 16 - t,
    {
        let rgb = color4_pixel(compressed, 8, t % 4, t / 4);
        let alpha = sharp_alpha_pixel(compressed, t % 4, t / 4);
        pixels[4 * t] = rgb[0];
        pixels[4 * t + 1] = rgb[1];
        pixels[4 * t + 2] = rgb[2];
        pixels[4 * t + 3] = alpha;
        proof {
            lemma_pixel_slots(t as int);
        }
        t = t + 1;
    }
    write_decoded_block(decompressed, base, pitch, &pixels);
    proof {
        lemma_window_pixels();
    }
}

/// Decodes one 16-byte BC3 block into RGBA bytes at its output window.
pub fn decode_block_bc3(compressed: &[u8], decompressed: &mut [u8], base: usize, pitch: usize)
    requires
        compressed@.len() >= 16,
        pitch >= 16,
        base + 3 * pitch + 16 <= old(decompressed)@.len(),
    ensures
        final(decompressed)@.len() == old(decompressed)@.len(),
        forall|j: int|
            0 <= j < old(decompressed)@.len() ==> final(decompressed)@[j] == (if spec_in_window(
                j - base,
                pitch as int,
            ) {
                spec_bc3_rgba(
                    compressed@,
                    ((j - base) % (pitch as int)) / 4,
                    (j - base) / (pitch as int),
                )[((j - base) % (pitch as int)) % 4]
            } else {
                old(decompressed)@[j]
            }),
{
    let mut pixels: [u8; 64] = [0; 64];
    let mut t: usize = 0;
    while t < 16
        invariant
            t <= 16,
            compressed@.len() >= 16,
            forall|k: int|
                0 <= k < 4 * t ==> pixels@[k] == spec_bc3_rgba(compressed@, (k % 16) / 4, k / 16)[k
                    % 4],
        decreases 16 - t,
    {
        let rgb = color4_pixel(compressed, 8, t % 4, t / 4);
        let alpha = alpha_pixel(compressed, 0, t % 4, t / 4);
        pixels[4 * t] = rgb[0];
        pixels[4 * t + 1] = rgb[1];
        pixels[4 * t + 2] = rgb[2];
        pixels[4 * t + 3] = alpha;
        proof {
            lemma_pixel_slots(t as int);
        }
        t = t + 1;
    }
    write_decoded_block(decompressed, base, pitch, &pixels);
    proof {
        lemma_window_pixels();
    }
}

/// Decodes one 8-byte BC4 block into RGBA bytes at its output window, the
/// single channel in red and the others zero.
pub fn decode_block_bc4(compressed: &[u8], decompressed: &mut [u8], base: usize, pitch: usize)
    requires
        compressed@.len() >= 8,
        pitch >= 16,
        base + 3 * pitch + 16 <= old(decompressed)@.len(),
    ensures
        final(decompressed)@.len() == old(decompressed)@.len(),
        forall|j: int|
            0 <= j < old(decompressed)@.len() ==> final(decompressed)@[j] == (if spec_in_window(
                j - base,
                pitch as int,
            ) {
                spec_bc4_rgba(
                    compressed@,
                    ((j - base) % (pitch as int)) / 4,
                    (j - base) / (pitch as int),
                )[((j - base) % (pitch as int)) % 4]
            } else {
                old(decompressed)@[j]
            }),
{
    let mut pixels: [u8; 64] = [0; 64];
    let mut t: usize = 0;
    while t < 16
        invariant
            t <= 16,
            compressed@.len() >= 8,
            forall|k: int|
                0 <= k < 4 * t ==> pixels@[k] == spec_bc4_rgba(compressed@, (k % 16) / 4, k / 16)[k
                    % 4],
        decreases 16 - t,
    {
        let red = alpha_pixel(compressed, 0, t % 4, t / 4);
        pixels[4 * t] = red;
        pixels[4 * t + 1] = 0;
        pixels[4 * t + 2] = 0;
        pixels[4 * t + 3] = 0;
        proof {
            lemma_pixel_slots(t as int);
        }
        t = t + 1;
    }
    write_decoded_block(decompressed, base, pitch, &pixels);
    proof {
        lemma_window_pixels();
    }
}

/// Decodes one 16-byte BC5 block into RGBA bytes at its output window, the
/// two channels in red and green and the others zero.
pub fn decode_block_bc5(compressed: &[u8], decompressed: &mut [u8], base: usize, pitch: usize)
    requires
        compressed@.len() >= 16,
        pitch >= 16,
        base + 3 * pitch + 16 <= old(decompressed)@.len(),
    ensures
        final(decompressed)@.len() == old(decompressed)@.len(),
        forall|j: int|
            0 <= j < old(decompressed)@.len() ==> final(decompressed)@[j] == (if spec_in_window(
                j - base,
                pitch as int,
            ) {
                spec_bc5_rgba(
                    compressed@,
                    ((j - base) % (pitch as int)) / 4,
                    (j - base) / (pitch as int),
                )[((j - base) % (pitch as int)) % 4]
            } else {
                old(decompressed)@[j]
            }),
{
    let mut pixels: [u8; 64] = [0; 64];
    let mut t: usize = 0;
    while t < 16
        invariant
            t <= 16,
            compressed@.len() >= 16,
            forall|k: int|
                0 <= k < 4 * t ==> pixels@[k] == spec_bc5_rgba(compressed@, (k % 16) / 4, k / 16)[k
                    % 4],
        decreases 16 - t,
    {
        let red = alpha_pixel(compressed, 0, t % 4, t / 4);
        let green = alpha_pixel(compressed, 8, t % 4, t / 4);
        pixels[4 * t] = red;
        pixels[4 * t + 1] = green;
        pixels[4 * t + 2] = 0;
        pixels[4 * t + 3] = 0;
        proof {
            lemma_pixel_slots(t as int);
        }
        t = t + 1;
    }
    write_decoded_block(decompressed, base, pitch, &pixels);
    proof {
        lemma_window_pixels();
    }
}

/// The RGBA bytes of texel `(x, y)` of one compressed block of the variant.
pub open spec fn spec_block_rgba(
    variant: CompressionVariant,
    block: Seq<u8>,
    x: int,
    y: int,
) -> Seq<u8> {
    match variant {
        CompressionVariant::BC1 => spec_bc1_rgba(block, x, y),
        CompressionVariant::BC2 => spec_bc2_rgba(block, x, y),
        CompressionVariant::BC3 => spec_bc3_rgba(block, x, y),
        CompressionVariant::BC4 => spec_bc4_rgba(block, x, y),
        _ => spec_bc5_rgba(block, x, y),
    }
}

/// One byte of the decompressed RGBA image: the byte at `j` belongs to the
/// texel at column `(j % pitch) / 4` and row `j / pitch`, which the block
/// grid maps to one block and one texel within it.
pub open spec fn spec_decoded_byte(
    variant: CompressionVariant,
    data: Seq<u8>,
    width: int,
    j: int,
) -> u8 {
    let pitch = 4 * width;
    let row = j / pitch;
    let col = j % pitch;
    let bsize = variant.spec_block_byte_size() as int;
    let off = ((row / 4) * (width / 4) + col / 16) * bsize;
    spec_block_rgba(
        variant,
        data.subrange(off, off + bsize),
        (col % 16) / 4,
        row % 4,
    )[col % 4]
}

/// A byte offset falls in the output window of the block at `(by, bx)`
/// exactly when the block grid maps it there, and its in-window coordinates
/// are its row and column within that block.
proof fn lemma_block_window(j: int, base: int, pitch: int, by: int, bx: int)
    requires
        pitch >= 16,
        0 <= j,
        0 <= by,
        0 <= bx,
        base == 4 * by * pitch + 16 * bx,
        16 * bx + 16 <= pitch,
    ensures
        spec_in_window(j - base, pitch) <==> ((j / pitch) / 4 == by && (j % pitch) / 16 == bx),
        spec_in_window(j - base, pitch) ==> (j - base) / pitch == (j / pitch) % 4 && (j - base)
            % pitch == (j % pitch) % 16,
{
    let row = j / pitch;
    let col = j % pitch;
    vstd::arithmetic::div_mod::lemma_fundamental_div_mod(j, pitch);
    if spec_in_window(j - base, pitch) {
        let d = j - base;
        let r = d / pitch;
        let cc = d % pitch;
        vstd::arithmetic::div_mod::lemma_fundamental_div_mod(d, pitch);
        assert((4 * by + r) * pitch == 4 * by * pitch + r * pitch && pitch * r == r * pitch)
            by (nonlinear_arith);
        assert(j == (4 * by + r) * pitch + (16 * bx + cc));
        vstd::arithmetic::div_mod::lemma_fundamental_div_mod_converse_div(
            j,
            pitch,
            4 * by + r,
            16 * bx + cc,
        );
        vstd::arithmetic::div_mod::lemma_fundamental_div_mod_converse_mod(
            j,
            pitch,
            4 * by + r,
            16 * bx + cc,
        );
        vstd::arithmetic::div_mod::lemma_fundamental_div_mod_converse_div(row, 4, by, r);
        vstd::arithmetic::div_mod::lemma_fundamental_div_mod_converse_mod(row, 4, by, r);
        vstd::arithmetic::div_mod::lemma_fundamental_div_mod_converse_div(col, 16, bx, cc);
        vstd::arithmetic::div_mod::lemma_fundamental_div_mod_converse_mod(col, 16, bx, cc);
    }
    if row / 4 == by && col / 16 == bx {
        let r = row % 4;
        let cc = col % 16;
        assert(row == 4 * by + r && col == 16 * bx + cc);
        let d = j - base;
        assert(pitch * (4 * by + r) == 4 * by * pitch + r * pitch && pitch * r == r * pitch)
            by (nonlinear_arith);
        assert(d == r * pitch + cc);
        vstd::arithmetic::div_mod::lemma_fundamental_div_mod_converse_div(d, pitch, r, cc);
        vstd::arithmetic::div_mod::lemma_fundamental_div_mod_converse_mod(d, pitch, r, cc);
        assert(spec_in_window(d, pitch));
    }
}

/// A byte position below `pitch * height` lies in a block row below
/// `height / 4` and a block column below `width / 4`.
proof fn lemma_byte_in_grid(j: int, width: int, height: int)
    requires
        width >= 4,
        height >= 4,
        width % 4 == 0,
        height % 4 == 0,
        0 <= j < 4 * width * height,
    ensures
        0 <= (j / (4 * width)) / 4 < height / 4,
        0 <= (j % (4 * width)) / 16 < width / 4,
{
    let pitch = 4 * width;
    vstd::arithmetic::div_mod::lemma_fundamental_div_mod(j, pitch);
    let row = j / pitch;
    let col = j % pitch;
    assert(0 <= row && 0 <= col < pitch) by {
        vstd::arithmetic::div_mod::lemma_div_pos_is_pos(j, pitch);
    }
    assert(row < height) by {
        if row >= height {
            assert(pitch * row >= pitch * height) by (nonlinear_arith)
                requires
                    row >= height,
                    pitch >= 0,
            ;
            assert(4 * width * height == pitch * height);
        }
    }
    assert(row / 4 < height / 4 && col / 16 < width / 4);
}

/// Expands compressed block data back into RGBA bytes: the blocks lie
/// row-major over the block grid, and each one decodes into its 4x4 texel
/// window of the image.
pub fn decompress_blocks_as_rgba(
    variant: CompressionVariant,
    width: u32,
    height: u32,
    blocks_data: &[u8],
    rgba_data: &mut [u8],
)
    requires
        variant is BC1 || variant is BC2 || variant is BC3 || variant is BC4 || variant is BC5,
        width >= 4,
        height >= 4,
        width % 4 == 0,
        height % 4 == 0,
        blocks_data@.len() == variant.spec_blocks_byte_size(width, height),
        old(rgba_data)@.len() == 4 * width * height,
    ensures
        final(rgba_data)@.len() == old(rgba_data)@.len(),
        forall|j: int|
            0 <= j < old(rgba_data)@.len() ==> final(rgba_data)@[j] == spec_decoded_byte(
                variant,
                blocks_data@,
                width as int,
                j,
            ),
{
    let rgba_len = rgba_data.len();
    let blocks_len = blocks_data.len();
    let ghost len = rgba_data@.len() as int;
    proof {
        assert(4 * width * height <= usize::MAX);
        assert(4 * (width as int) <= 4 * (width as int) * (height as int)) by (nonlinear_arith)
            requires
                width >= 0,
                height >= 1,
        ;
        assert((width as int + 3) / 4 == width as int / 4 && (height as int + 3) / 4 == height
            as int / 4);
    }
    let blocks_x = (width / 4) as usize;
    let blocks_y = (height / 4) as usize;
    let pitch = 4 * width as usize;
    let block_size = variant.block_byte_size() as usize;
    let ghost wint = width as int;
    proof {
        assert((height as int / 4) * (wint / 4) * (block_size as int) == (wint / 4) * (height
            as int / 4) * (block_size as int)) by (nonlinear_arith);
        assert(blocks_data@.len() == (height as int / 4) * (wint / 4) * (block_size as int));
        assert(4 * 0 * (pitch as int) == 0 && 0 * (blocks_x as int) * (block_size as int) == 0)
            by (nonlinear_arith);
    }

    let mut by: usize = 0;
    let mut y_base: usize = 0;
    let mut off: usize = 0;
    while by < blocks_y
        invariant
            by <= blocks_y,
            blocks_x == wint / 4,
            blocks_y == height as int / 4,
            pitch == 4 * wint,
            wint == width,
            width >= 4 && width % 4 == 0,
            height >= 4 && height % 4 == 0,
            block_size == variant.spec_block_byte_size(),
            variant is BC1 || variant is BC2 || variant is BC3 || variant is BC4 || variant
                is BC5,
            y_base == 4 * by * pitch,
            off == by * blocks_x * block_size,
            len == rgba_data@.len() == 4 * wint * height,
            len <= usize::MAX,
            blocks_data@.len() == blocks_y * blocks_x * block_size,
            blocks_data@.len() <= usize::MAX,
            forall|j: int|
                0 <= j < len ==> rgba_data@[j] == (if (j / (pitch as int)) / 4 < by {
                    spec_decoded_byte(variant, blocks_data@, wint, j)
                } else {
                    old(rgba_data)@[j]
                }),
        decreases blocks_y - by,
    {
        proof {
            assert((4 * by + 4) * pitch <= 4 * (blocks_y as int) * pitch && (4 * by + 4) * pitch
                == 4 * by * pitch + 4 * pitch && 4 * (blocks_y as int) * pitch == 4 * (blocks_y
                as int) * 4 * wint) by (nonlinear_arith)
                requires
                    by + 1 <= blocks_y,
                    pitch == 4 * wint,
                    wint >= 0,
            ;
            assert(4 * (blocks_y as int) * 4 * wint == 4 * wint * height) by (nonlinear_arith)
                requires
                    4 * (blocks_y as int) == height,
            ;
            assert((by + 1) * (blocks_x as int) * block_size <= (blocks_y as int) * (blocks_x
                as int) * block_size && (by + 1) * (blocks_x as int) * block_size == by * (blocks_x
                as int) * block_size + (blocks_x as int) * block_size) by (nonlinear_arith)
                requires
                    by + 1 <= blocks_y,
                    blocks_x >= 0,
                    block_size >= 0,
            ;
        }
        let mut bx: usize = 0;
        while bx < blocks_x
            invariant
                bx <= blocks_x,
                by < blocks_y,
                blocks_x == wint / 4,
                blocks_y == height as int / 4,
                pitch == 4 * wint,
                wint == width,
                width >= 4 && width % 4 == 0,
                height >= 4 && height % 4 == 0,
                block_size == variant.spec_block_byte_size(),
                variant is BC1 || variant is BC2 || variant is BC3 || variant is BC4 || variant
                    is BC5,
                y_base == 4 * by * pitch,
                y_base + 4 * pitch <= len,
                off == (by * blocks_x + bx) * block_size,
                off + (blocks_x - bx) * block_size <= blocks_data@.len(),
                len == rgba_data@.len() == 4 * wint * height,
                len <= usize::MAX,
                blocks_data@.len() == blocks_y * blocks_x * block_size,
                blocks_data@.len() <= usize::MAX,
                forall|j: int|
                    0 <= j < len ==> rgba_data@[j] == (if (j / (pitch as int)) / 4 < by || ((j / (
                    pitch as int)) / 4 == by && (j % (pitch as int)) / 16 < bx) {
                        spec_decoded_byte(variant, blocks_data@, wint, j)
                    } else {
                        old(rgba_data)@[j]
                    }),
            decreases blocks_x - bx,
        {
            proof {
                assert((bx + 1) * block_size == bx * block_size + block_size && (blocks_x - bx)
                    * block_size >= block_size && (by * (blocks_x as int) + bx + 1) * block_size
                    == (by * (blocks_x as int) + bx) * block_size + block_size)
                    by (nonlinear_arith)
                    requires
                        bx + 1 <= blocks_x,
                        block_size >= 0,
                        0 <= by,
                ;
                assert(16 * bx + 16 <= pitch) by (nonlinear_arith)
                    requires
                        bx + 1 <= blocks_x,
                        blocks_x == wint / 4,
                        wint % 4 == 0,
                        pitch == 4 * wint,
                        wint >= 4,
                ;
            }
            let base = y_base + 16 * bx;
            let ghost prev = rgba_data@;
            let block = slice_subrange(blocks_data, off, off + block_size);
            match variant {
                CompressionVariant::BC1 => decode_block_bc1(block, rgba_data, base, pitch),
                CompressionVariant::BC2 => decode_block_bc2(block, rgba_data, base, pitch),
                CompressionVariant::BC3 => decode_block_bc3(block, rgba_data, base, pitch),
                CompressionVariant::BC4 => decode_block_bc4(block, rgba_data, base, pitch),
                _ => decode_block_bc5(block, rgba_data, base, pitch),
            }
            proof {
                assert forall|j: int| 0 <= j < len implies rgba_data@[j] == (if (j / (pitch
                    as int)) / 4 < by || ((j / (pitch as int)) / 4 == by && (j % (pitch as int))
                    / 16 < bx + 1) {
                    spec_decoded_byte(variant, blocks_data@, wint, j)
                } else {
                    old(rgba_data)@[j]
                }) by {
                    lemma_block_window(j, base as int, pitch as int, by as int, bx as int);
                    if spec_in_window(j - base, pitch as int) {
                        assert(((j / (pitch as int)) / 4 * (wint / 4) + (j % (pitch as int)) / 16)
                            * block_size == off) by (nonlinear_arith)
                            requires
                                (j / (pitch as int)) / 4 == by,
                                (j % (pitch as int)) / 16 == bx,
                                off == (by * (blocks_x as int) + bx) * block_size,
                                blocks_x == wint / 4,
                        ;
                        assert(rgba_data@[j] == spec_decoded_byte(variant, blocks_data@, wint, j));
                    } else {
                        assert(rgba_data@[j] == prev[j]);
                    }
                }
            }
            off = off + block_size;
            bx = bx + 1;
        }
        y_base = y_base + 4 * pitch;
        by = by + 1;
        proof {
            assert forall|j: int| 0 <= j < len implies rgba_data@[j] == (if (j / (pitch as int))
                / 4 < by {
                spec_decoded_byte(variant, blocks_data@, wint, j)
            } else {
                old(rgba_data)@[j]
            }) by {
                if 0 <= j < len {
                    lemma_byte_in_grid(j, wint, height as int);
                }
            }
        }
    }
    proof {
        assert forall|j: int| 0 <= j < len implies rgba_data@[j] == spec_decoded_byte(
            variant,
            blocks_data@,
            wint,
            j,
        ) by {
            lemma_byte_in_grid(j, wint, height as int);
        }
    }
}

/// Inside a block's output window, the flat pixel slot of a byte offset
/// decomposes into its row, texel column and channel.
proof fn lemma_window_pixels()
    ensures
        forall|y: int, c: int|
            0 <= y < 4 && 0 <= c < 16 ==> #[trigger] (y * 16 + c) % 16 == c && (y * 16 + c) / 16
                == y && (y * 16 + c) % 4 == c % 4 && ((y * 16 + c) % 16) / 4 == c / 4,
{
    assert forall|y: int, c: int| 0 <= y < 4 && 0 <= c < 16 implies #[trigger] (y * 16 + c) % 16
        == c && (y * 16 + c) / 16 == y && (y * 16 + c) % 4 == c % 4 && ((y * 16 + c) % 16) / 4 == c
        / 4 by {
        vstd::arithmetic::div_mod::lemma_fundamental_div_mod_converse_div(y * 16 + c, 16, y, c);
        vstd::arithmetic::div_mod::lemma_fundamental_div_mod_converse_mod(y * 16 + c, 16, y, c);
        vstd::arithmetic::div_mod::lemma_fundamental_div_mod_converse_mod(
            y * 16 + c,
            4,
            y * 4 + c / 4,
            c % 4,
        );
    }
}

} // verus!
