//! Reference vectors for the ASTC block packer: known block states and the
//! exact 128-bit outputs they must produce.

use block_compression::AstcBlock;

#[test]
fn pack_block_4x4_0() {
    let input_block = AstcBlock {
        width: 4,
        height: 4,
        dual_plane: 0,
        weight_range: 8,
        weights: [
            1, 8, 14, 13, 3, 9, 9, 8, 0, 7, 7, 2, 1, 2, 5, 5, 0, 0, 0, 0, 0, 0, 0, 0, 0, 0, 0, 0,
            0, 0, 0, 0, 0, 0, 0, 0, 0, 0, 0, 0, 0, 0, 0, 0, 0, 0, 0, 0, 0, 0, 0, 0, 0, 0, 0, 0, 0,
            0, 0, 0, 0, 0, 0, 0,
        ],
        color_component_selector: 0,
        partitions: 1,
        partition_id: 0,
        color_endpoint_pairs: 3,
        channels: 0,
        color_endpoint_modes: [8, 0, 0, 0],
        endpoint_range: 19,
        endpoints: [
            115, 107, 48, 178, 32, 96, 0, 0, 0, 0, 0, 0, 0, 0, 0, 0, 0, 0,
        ],
    };
    let expected_output: [u32; 4] = [0xD6E70242, 0x3020B260, 0xEE484AA, 0x817BC991];

    let mut data: [u32; 4] = [0; 4];
    input_block.pack(&mut data);

    assert_eq!(data, expected_output)
}

#[test]
fn pack_block_4x4_1() {
    let input_block = AstcBlock {
        width: 4,
        height: 4,
        dual_plane: 0,
        weight_range: 7,
        weights: [
            7, 9, 10, 4, 1, 5, 3, 8, 1, 1, 11, 10, 5, 5, 5, 7, 4, 3, 2, 3, 4, 1, 3, 1, 0, 0, 0, 0,
            0, 0, 0, 0, 0, 0, 0, 0, 48, 0, 0, 0, 16, 0, 0, 0, 0, 0, 0, 0, 21, 0, 0, 0, 64, 0, 0, 0,
            21, 0, 0, 0, 21, 0, 0, 0,
        ],
        color_component_selector: 0,
        partitions: 1,
        partition_id: 0,
        color_endpoint_pairs: 3,
        channels: 21,
        color_endpoint_modes: [8, 21, 0, 21],
        endpoint_range: 20,
        endpoints: [
            226, 202, 117, 106, 58, 54, 127, 127, 0, 0, 0, 0, 21, 0, 0, 0, 21, 0,
        ],
    };

    let expected_output: [u32; 4] = [0x95C50251, 0x6C74D4EB, 0x4D5B5780, 0xEB452F84];

    let mut data: [u32; 4] = [0; 4];
    input_block.pack(&mut data);

    assert_eq!(data, expected_output)
}

#[test]
fn pack_block_4x4_2() {
    let input_block = AstcBlock {
        width: 3,
        height: 3,
        dual_plane: 1,
        weight_range: 5,
        weights: [
            4, 4, 0, 1, 0, 0, 7, 5, 3, 7, 4, 6, 7, 5, 2, 2, 3, 5, 2, 4, 2, 4, 1, 2, 16, 0, 0, 0,
            16, 0, 0, 0, 0, 0, 0, 0, 32, 0, 0, 0, 0, 0, 0, 0, 32, 0, 0, 0, 21, 0, 0, 0, 64, 0, 0,
            0, 21, 0, 0, 0, 21, 0, 0, 0,
        ],
        color_component_selector: 0,
        partitions: 1,
        partition_id: 0,
        color_endpoint_pairs: 3,
        channels: 21,
        color_endpoint_modes: [8, 21, 0, 21],
        endpoint_range: 20,
        endpoints: [
            239, 222, 121, 115, 57, 55, 255, 0, 0, 0, 0, 0, 21, 0, 0, 0, 21, 0,
        ],
    };

    let expected_output: [u32; 4] = [0xBDDF05BF, 0x6E72E6F3, 0xBF52D400, 0x24403DDC];

    let mut data: [u32; 4] = [0; 4];
    input_block.pack(&mut data);

    assert_eq!(data, expected_output)
}

#[test]
fn pack_block_4x4_3() {
    let input_block = AstcBlock {
        width: 3,
        height: 4,
        dual_plane: 1,
        weight_range: 4,
        weights: [
            1, 1, 3, 5, 3, 5, 3, 1, 5, 3, 5, 3, 3, 1, 4, 4, 4, 1, 5, 5, 0, 0, 0, 4, 38, 0, 0, 0, 0,
            0, 0, 0, 26, 0, 0, 0, 38, 0, 0, 0, 26, 0, 0, 0, 13, 0, 0, 0, 0, 0, 0, 0, 0, 0, 0, 0, 0,
            0, 0, 0, 0, 0, 0, 0,
        ],
        color_component_selector: 0,
        partitions: 1,
        partition_id: 0,
        color_endpoint_pairs: 3,
        channels: 0,
        color_endpoint_modes: [8, 0, 0, 0],
        endpoint_range: 19,
        endpoints: [
            147, 155, 186, 118, 160, 28, 255, 0, 0, 0, 0, 0, 0, 0, 0, 0, 0, 0,
        ],
    };

    let expected_output: [u32; 4] = [0xB72705CF, 0xE60F675, 0xF85F6002, 0x93BDD5EE];

    let mut data: [u32; 4] = [0; 4];
    input_block.pack(&mut data);

    assert_eq!(data, expected_output)
}

#[test]
fn pack_block_4x4_4() {
    let input_block = AstcBlock {
        width: 4,
        height: 4,
        dual_plane: 0,
        weight_range: 6,
        weights: [
            0, 8, 2, 6, 9, 9, 9, 4, 1, 7, 8, 8, 8, 7, 9, 3, 5, 0, 4, 4, 4, 1, 4, 1, 26, 0, 0, 0,
            64, 0, 0, 0, 0, 0, 0, 0, 51, 0, 0, 0, 38, 0, 0, 0, 64, 0, 0, 0, 64, 0, 0, 0, 64, 0, 0,
            0, 0, 0, 0, 0, 21, 0, 0, 0,
        ],
        color_component_selector: 0,
        partitions: 1,
        partition_id: 0,
        color_endpoint_pairs: 3,
        channels: 64,
        color_endpoint_modes: [8, 0, 43, 21],
        endpoint_range: 20,
        endpoints: [
            148, 157, 90, 92, 59, 58, 191, 191, 43, 0, 0, 0, 64, 0, 0, 0, 21, 0,
        ],
    };

    let expected_output: [u32; 4] = [0x3B290241, 0x7476B8B5, 0xDA3FB000, 0x509FE933];

    let mut data: [u32; 4] = [0; 4];
    input_block.pack(&mut data);

    assert_eq!(data, expected_output)
}
