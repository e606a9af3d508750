//! Output-size accounting for every compression variant: block byte sizes,
//! rounded-up block grids, and row sizes.

use block_compression::{ASTCBlockSize, ASTCSettings, BC6HSettings, BC7Settings, CompressionVariant};

#[test]
fn block_byte_sizes() {
    assert_eq!(CompressionVariant::BC1.block_byte_size(), 8);
    assert_eq!(CompressionVariant::BC2.block_byte_size(), 16);
    assert_eq!(CompressionVariant::BC3.block_byte_size(), 16);
    assert_eq!(CompressionVariant::BC4.block_byte_size(), 8);
    assert_eq!(CompressionVariant::BC5.block_byte_size(), 16);
    assert_eq!(CompressionVariant::BC6H(BC6HSettings::basic()).block_byte_size(), 16);
    assert_eq!(CompressionVariant::BC7(BC7Settings::opaque_basic()).block_byte_size(), 16);
    let astc = ASTCSettings::opaque_fast(ASTCBlockSize::_4x4);
    assert_eq!(CompressionVariant::ASTC(astc).block_byte_size(), 16);
}

#[test]
fn blocks_byte_size_exact() {
    // 256x256 pixels: 64x64 blocks of 4x4.
    assert_eq!(CompressionVariant::BC1.blocks_byte_size(256, 256), 64 * 64 * 8);
    assert_eq!(CompressionVariant::BC3.blocks_byte_size(256, 256), 64 * 64 * 16);
    // Dimensions round up to whole blocks.
    assert_eq!(CompressionVariant::BC1.blocks_byte_size(1, 1), 8);
    assert_eq!(CompressionVariant::BC1.blocks_byte_size(5, 9), 2 * 3 * 8);
    assert_eq!(CompressionVariant::BC4.blocks_byte_size(17, 4), 5 * 8);
}

#[test]
fn blocks_byte_size_astc_footprints() {
    let astc_5x5 = CompressionVariant::ASTC(ASTCSettings::alpha_fast(ASTCBlockSize::_5x5));
    // 10x10 pixels in 5x5 blocks: a 2x2 grid of 16-byte blocks.
    assert_eq!(astc_5x5.blocks_byte_size(10, 10), 2 * 2 * 16);
    // 11x6 pixels in 5x5 blocks: a 3x2 grid.
    assert_eq!(astc_5x5.blocks_byte_size(11, 6), 3 * 2 * 16);
    let astc_8x6 = CompressionVariant::ASTC(ASTCSettings::alpha_fast(ASTCBlockSize::_8x6));
    assert_eq!(astc_8x6.blocks_byte_size(16, 12), 2 * 2 * 16);
}

#[test]
fn bytes_per_row_exact() {
    assert_eq!(CompressionVariant::BC1.bytes_per_row(256), 64 * 8);
    assert_eq!(CompressionVariant::BC7(BC7Settings::alpha_slow()).bytes_per_row(256), 64 * 16);
    // Width rounds up to a whole 4-pixel block.
    assert_eq!(CompressionVariant::BC1.bytes_per_row(1), 8);
    assert_eq!(CompressionVariant::BC1.bytes_per_row(5), 2 * 8);
}

#[test]
fn names_and_entry_points() {
    assert_eq!(CompressionVariant::BC1.name(), "bc1");
    assert_eq!(CompressionVariant::BC5.name(), "bc5");
    assert_eq!(CompressionVariant::BC6H(BC6HSettings::very_fast()).name(), "bc6h");
    assert_eq!(CompressionVariant::BC1.entry_point(), "compress_bc1");
    assert_eq!(CompressionVariant::BC7(BC7Settings::alpha_fast()).entry_point(), "compress_bc7");
    let astc = ASTCSettings::alpha_fast(ASTCBlockSize::_6x6);
    assert_eq!(CompressionVariant::ASTC(astc).entry_point(), "compress_astc");
}

#[test]
fn variant_equality_is_by_tag() {
    // Different settings values still select the same pipeline.
    assert_eq!(
        CompressionVariant::BC7(BC7Settings::opaque_ultra_fast()),
        CompressionVariant::BC7(BC7Settings::alpha_slow())
    );
    assert_eq!(
        CompressionVariant::BC6H(BC6HSettings::very_fast()),
        CompressionVariant::BC6H(BC6HSettings::very_slow())
    );
    assert!(CompressionVariant::BC1 != CompressionVariant::BC2);
    let a = CompressionVariant::ASTC(ASTCSettings::opaque_fast(ASTCBlockSize::_4x4));
    let b = CompressionVariant::ASTC(ASTCSettings::alpha_slow(ASTCBlockSize::_8x8));
    assert_eq!(a, b);
}

#[test]
fn astc_block_sizes() {
    assert_eq!(ASTCBlockSize::_4x4.block_size(), (4, 4));
    assert_eq!(ASTCBlockSize::_5x4.block_size(), (5, 4));
    assert_eq!(ASTCBlockSize::_5x5.block_size(), (5, 5));
    assert_eq!(ASTCBlockSize::_6x5.block_size(), (6, 5));
    assert_eq!(ASTCBlockSize::_6x6.block_size(), (6, 6));
    assert_eq!(ASTCBlockSize::_8x5.block_size(), (8, 5));
    assert_eq!(ASTCBlockSize::_8x6.block_size(), (8, 6));
    assert_eq!(ASTCBlockSize::_8x8.block_size(), (8, 8));
}
