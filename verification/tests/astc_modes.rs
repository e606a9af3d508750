//! Block-mode header derivation and the decoding of packed candidate-mode
//! words into per-block encode state.

use block_compression::{ASTCBlockSize, ASTCSettings, AstcBlock, BlockCompressorASTC};

fn plain_block(width: i32, height: i32, dual_plane: u8, weight_range: i32) -> AstcBlock {
    AstcBlock {
        width,
        height,
        dual_plane,
        weight_range,
        weights: [0; 64],
        color_component_selector: 0,
        partitions: 1,
        partition_id: 0,
        color_endpoint_pairs: 3,
        channels: 4,
        color_endpoint_modes: [8, 0, 0, 0],
        endpoint_range: 19,
        endpoints: [0; 18],
    }
}

#[test]
fn block_mode_header_for_4x4() {
    // 4x4, single plane, weight range 8: the width-4-based shape encoding;
    // the low 11 bits of the first reference vector.
    let block = plain_block(4, 4, 0, 8);
    assert_eq!(block.pack_block_mode(), 0x242);
}

#[test]
fn block_mode_header_for_dual_plane_3x3() {
    // 3x3 dual-plane, weight range 5, as in the third reference vector.
    let block = plain_block(3, 3, 1, 5);
    assert_eq!(block.pack_block_mode(), 0x5BF);
}

#[test]
fn block_mode_header_for_6x6() {
    // 6x6 single plane with a low weight range takes the 6x6-anchored
    // encoding with bit 8 set.
    let block = plain_block(6, 6, 0, 2);
    let mode = block.pack_block_mode();
    assert_eq!(mode & 0x100, 0x100);
}

#[test]
fn mode_parameters_round_trip_through_packed_word() {
    // Pack the fields of a candidate-mode word by hand and decode them.
    let weight_range: u32 = 8;
    let color_component_selector: u32 = 2;
    let cem_index: u32 = 1;
    let endpoint_range: u32 = 19;
    let width_code: u32 = 2;
    let height_code: u32 = 2;
    let dual_plane: u32 = 0;
    let packed = weight_range
        | (color_component_selector << 4)
        | (cem_index << 6)
        | (endpoint_range << 8)
        | (width_code << 13)
        | (height_code << 16)
        | (dual_plane << 19);

    let block = AstcBlock::from_mode_parameters(packed, 4);
    assert_eq!(block.width, 4);
    assert_eq!(block.height, 4);
    assert_eq!(block.dual_plane, 0);
    assert_eq!(block.weight_range, 8);
    assert_eq!(block.color_component_selector, 2);
    assert_eq!(block.endpoint_range, 19);
    // CEM index 1 selects endpoint mode 8, which needs 3 endpoint pairs.
    assert_eq!(block.color_endpoint_modes[0], 8);
    assert_eq!(block.color_endpoint_pairs, 3);
    assert_eq!(block.partitions, 1);
    assert_eq!(block.channels, 4);
}

#[test]
fn compressor_parameters_from_packed_word() {
    let packed = 6u32 | (0 << 6) | (18 << 8) | (3 << 13) | (2 << 16) | (1 << 19);
    let settings = ASTCSettings::alpha_fast(ASTCBlockSize::_5x4);
    let compressor = BlockCompressorASTC::new(packed, settings);
    assert_eq!(compressor.width, 5);
    assert_eq!(compressor.height, 4);
    assert_eq!(compressor.dual_plane, 1);
    assert_eq!(compressor.partitions, 1);
    // CEM index 0 selects endpoint mode 6: two endpoint pairs, three
    // channels.
    assert_eq!(compressor.color_endpoint_pairs, 2);
    assert_eq!(compressor.channels, 3);
    assert_eq!(compressor.settings.block_width, 5);
}

#[test]
fn bit_budget_accounts_for_all_128_bits() {
    // The 4x4 reference block: 16 weights at range 8 need 64 bits, the
    // single-partition header 17, leaving 47 for endpoints; 6 endpoint
    // values at range 19 need 46 bits and range 20 would need 48.
    let weight_bits = block_compression::sequence_bits(16, 8);
    assert_eq!(weight_bits, 64);
    let config_bits = 17;
    let endpoint_allotment = 128 - config_bits - weight_bits;
    assert_eq!(endpoint_allotment, 47);
    assert_eq!(block_compression::sequence_bits(6, 19), 46);
    assert!(block_compression::sequence_bits(6, 19) <= endpoint_allotment);
    assert!(block_compression::sequence_bits(6, 20) > endpoint_allotment);
    assert_eq!(config_bits + weight_bits + endpoint_allotment, 128);
}

#[test]
fn pack_is_deterministic() {
    let block = AstcBlock {
        width: 4,
        height: 4,
        dual_plane: 0,
        weight_range: 8,
        weights: [1; 64],
        color_component_selector: 0,
        partitions: 1,
        partition_id: 0,
        color_endpoint_pairs: 3,
        channels: 4,
        color_endpoint_modes: [8, 0, 0, 0],
        endpoint_range: 19,
        endpoints: [7; 18],
    };
    let mut first: [u32; 4] = [0; 4];
    let mut second: [u32; 4] = [0xFFFF_FFFF; 4];
    block.pack(&mut first);
    block.pack(&mut second);
    assert_eq!(first, second);
    assert_ne!(first, [0, 0, 0, 0]);
}
