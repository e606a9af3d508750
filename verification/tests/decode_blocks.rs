//! Exact expected values for the BC block decoders and the surface-level
//! decompressor.

use block_compression::{
    decode_block_bc1, decode_block_bc4, decompress_blocks_as_rgba, CompressionVariant,
};

// Color words: 0xF800 is pure red, 0x001F pure blue in 5:6:5.
const RED: [u8; 2] = [0x00, 0xF8];
const BLUE: [u8; 2] = [0x1F, 0x00];

#[test]
fn bc1_palette_and_indices() {
    // First row selects palette entries 0, 1, 2, 3; other rows entry 0.
    let block: [u8; 8] = [RED[0], RED[1], BLUE[0], BLUE[1], 0xE4, 0, 0, 0];
    let mut out = vec![0u8; 64];
    decode_block_bc1(&block, &mut out, 0, 16);

    let red = [255, 0, 0, 255];
    let blue = [0, 0, 255, 255];
    // Two-thirds red one-third blue, rounded down.
    let two_thirds = [170, 0, 85, 255];
    let one_third = [85, 0, 170, 255];

    assert_eq!(&out[0..4], &red);
    assert_eq!(&out[4..8], &blue);
    assert_eq!(&out[8..12], &two_thirds);
    assert_eq!(&out[12..16], &one_third);
    for y in 1..4 {
        for x in 0..4 {
            assert_eq!(&out[y * 16 + x * 4..y * 16 + x * 4 + 4], &red);
        }
    }
}

#[test]
fn bc1_three_color_mode() {
    // The first word not larger: midpoint and transparent black.
    let block: [u8; 8] = [BLUE[0], BLUE[1], RED[0], RED[1], 0xE4, 0, 0, 0];
    let mut out = vec![0u8; 64];
    decode_block_bc1(&block, &mut out, 0, 16);

    assert_eq!(&out[0..4], &[0, 0, 255, 255]);
    assert_eq!(&out[4..8], &[255, 0, 0, 255]);
    // Midpoint of red and blue.
    assert_eq!(&out[8..12], &[127, 0, 127, 255]);
    // Transparent black.
    assert_eq!(&out[12..16], &[0, 0, 0, 0]);
}

#[test]
fn bc4_interpolated_values() {
    // First endpoint larger: sevenths interpolation. The first row selects
    // indices 0, 1, 2, 7.
    let index_bits: u64 = 0 | (1 << 3) | (2 << 6) | (7 << 9);
    let bits = index_bits.to_le_bytes();
    let block: [u8; 8] = [240, 16, bits[0], bits[1], 0, 0, 0, 0];
    let mut out = vec![0u8; 64];
    decode_block_bc4(&block, &mut out, 0, 16);

    assert_eq!(&out[0..4], &[240, 0, 0, 0]);
    assert_eq!(&out[4..8], &[16, 0, 0, 0]);
    // (6*240 + 16) / 7 = 208.
    assert_eq!(&out[8..12], &[208, 0, 0, 0]);
    // (240 + 6*16) / 7 = 48.
    assert_eq!(&out[12..16], &[48, 0, 0, 0]);
}

#[test]
fn decompress_bc1_places_blocks_on_the_grid() {
    // An 8x4 image: two BC1 blocks side by side, one red, one blue.
    let mut blocks = Vec::new();
    blocks.extend_from_slice(&[RED[0], RED[1], RED[0], RED[1], 0, 0, 0, 0]);
    blocks.extend_from_slice(&[BLUE[0], BLUE[1], BLUE[0], BLUE[1], 0, 0, 0, 0]);
    assert_eq!(blocks.len(), CompressionVariant::BC1.blocks_byte_size(8, 4));

    let mut rgba = vec![0u8; 8 * 4 * 4];
    decompress_blocks_as_rgba(CompressionVariant::BC1, 8, 4, &blocks, &mut rgba);

    for y in 0..4 {
        for x in 0..8 {
            let px = &rgba[(y * 8 + x) * 4..(y * 8 + x) * 4 + 4];
            if x < 4 {
                assert_eq!(px, &[255, 0, 0, 255], "pixel {x} {y}");
            } else {
                assert_eq!(px, &[0, 0, 255, 255], "pixel {x} {y}");
            }
        }
    }
}

#[test]
fn decompress_bc2_sharp_alpha() {
    // One BC2 block: red color, alphas 0 and 17 in the first two texels and
    // 255 everywhere else.
    let mut block = vec![0x10u8, 0xFF, 0xFF, 0xFF, 0xFF, 0xFF, 0xFF, 0xFF];
    block.extend_from_slice(&[RED[0], RED[1], RED[0], RED[1], 0, 0, 0, 0]);
    assert_eq!(block.len(), CompressionVariant::BC2.blocks_byte_size(4, 4));

    let mut rgba = vec![0u8; 64];
    decompress_blocks_as_rgba(CompressionVariant::BC2, 4, 4, &block, &mut rgba);

    assert_eq!(&rgba[0..4], &[255, 0, 0, 0]);
    assert_eq!(&rgba[4..8], &[255, 0, 0, 17]);
    assert_eq!(&rgba[8..12], &[255, 0, 0, 255]);
    assert_eq!(&rgba[60..64], &[255, 0, 0, 255]);
}

#[test]
fn decompress_bc5_two_channels() {
    // One BC5 block: constant 100 in red, constant 200 in green.
    let mut block = vec![100u8, 200, 0, 0, 0, 0, 0, 0];
    block.extend_from_slice(&[200, 100, 0, 0, 0, 0, 0, 0]);
    assert_eq!(block.len(), CompressionVariant::BC5.blocks_byte_size(4, 4));

    let mut rgba = vec![0u8; 64];
    decompress_blocks_as_rgba(CompressionVariant::BC5, 4, 4, &block, &mut rgba);

    for t in 0..16 {
        assert_eq!(&rgba[t * 4..t * 4 + 4], &[100, 200, 0, 0]);
    }
}
