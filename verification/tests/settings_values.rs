//! The preset encoder settings carry exactly their documented values.

use block_compression::{ASTCBlockSize, ASTCSettings, BC6HSettings, BC7Settings};

#[test]
fn astc_presets() {
    let s = ASTCSettings::opaque_fast(ASTCBlockSize::_6x5);
    assert_eq!(s.block_width, 6);
    assert_eq!(s.block_height, 5);
    assert_eq!(s.channels, 3);
    assert_eq!(s.fast_skip_threshold, 5);
    assert_eq!(s.refine_iterations, 2);

    let s = ASTCSettings::opaque_slow(ASTCBlockSize::_4x4);
    assert_eq!(s.channels, 3);
    assert_eq!(s.fast_skip_threshold, 64);

    let s = ASTCSettings::alpha_fast(ASTCBlockSize::_8x8);
    assert_eq!(s.block_width, 8);
    assert_eq!(s.block_height, 8);
    assert_eq!(s.channels, 4);
    assert_eq!(s.fast_skip_threshold, 5);

    let s = ASTCSettings::alpha_slow(ASTCBlockSize::_8x5);
    assert_eq!(s.block_width, 8);
    assert_eq!(s.block_height, 5);
    assert_eq!(s.channels, 4);
    assert_eq!(s.fast_skip_threshold, 64);
}

#[test]
fn bc6h_presets() {
    let s = BC6HSettings::very_fast();
    assert_eq!(s.slow_mode, 0);
    assert_eq!(s.fast_mode, 1);
    assert_eq!(s.fast_skip_threshold, 0);
    assert_eq!(s.refine_iterations_1p, 0);
    assert_eq!(s.refine_iterations_2p, 0);

    let s = BC6HSettings::fast();
    assert_eq!(s.fast_skip_threshold, 2);
    assert_eq!(s.refine_iterations_2p, 1);

    let s = BC6HSettings::basic();
    assert_eq!(s.slow_mode, 0);
    assert_eq!(s.fast_mode, 0);
    assert_eq!(s.fast_skip_threshold, 4);
    assert_eq!(s.refine_iterations_1p, 2);

    let s = BC6HSettings::slow();
    assert_eq!(s.slow_mode, 1);
    assert_eq!(s.fast_skip_threshold, 10);

    let s = BC6HSettings::very_slow();
    assert_eq!(s.slow_mode, 1);
    assert_eq!(s.fast_skip_threshold, 32);
}

#[test]
fn bc7_opaque_presets() {
    let s = BC7Settings::opaque_ultra_fast();
    assert_eq!(s.channels, 3);
    assert_eq!(s.mode_selection, [0, 0, 0, 1]);
    assert_eq!(s.skip_mode2, 1);
    assert_eq!(s.fast_skip_threshold_mode1, 3);
    assert_eq!(s.fast_skip_threshold_mode3, 1);
    assert_eq!(s.fast_skip_threshold_mode7, 0);
    assert_eq!(s.refine_iterations, [2, 2, 2, 1, 2, 2, 1, 0]);

    let s = BC7Settings::opaque_very_fast();
    assert_eq!(s.mode_selection, [0, 1, 0, 1]);

    let s = BC7Settings::opaque_fast();
    assert_eq!(s.fast_skip_threshold_mode1, 12);
    assert_eq!(s.fast_skip_threshold_mode3, 4);
    assert_eq!(s.refine_iterations, [2, 2, 2, 1, 2, 2, 2, 0]);

    let s = BC7Settings::opaque_basic();
    assert_eq!(s.mode_selection, [1, 1, 1, 1]);
    assert_eq!(s.refine_iterations_channel, 2);

    let s = BC7Settings::opaque_slow();
    assert_eq!(s.skip_mode2, 0);
    assert_eq!(s.fast_skip_threshold_mode1, 64);
    assert_eq!(s.refine_iterations, [4, 4, 4, 4, 4, 4, 4, 0]);
}

#[test]
fn bc7_alpha_presets() {
    let s = BC7Settings::alpha_ultrafast();
    assert_eq!(s.channels, 4);
    assert_eq!(s.mode_selection, [0, 0, 1, 1]);
    assert_eq!(s.fast_skip_threshold_mode7, 4);
    assert_eq!(s.mode45_channel0, 3);
    assert_eq!(s.refine_iterations, [2, 1, 2, 1, 1, 1, 2, 2]);

    let s = BC7Settings::alpha_very_fast();
    assert_eq!(s.mode_selection, [0, 1, 1, 1]);
    assert_eq!(s.refine_iterations_channel, 2);

    let s = BC7Settings::alpha_fast();
    assert_eq!(s.fast_skip_threshold_mode1, 4);
    assert_eq!(s.fast_skip_threshold_mode7, 8);

    let s = BC7Settings::alpha_basic();
    assert_eq!(s.mode_selection, [1, 1, 1, 1]);
    assert_eq!(s.mode45_channel0, 0);
    assert_eq!(s.refine_iterations, [2, 2, 2, 2, 2, 2, 2, 2]);

    let s = BC7Settings::alpha_slow();
    assert_eq!(s.skip_mode2, 0);
    assert_eq!(s.fast_skip_threshold_mode7, 64);
    assert_eq!(s.refine_iterations_channel, 4);
    assert_eq!(s.refine_iterations, [4, 4, 4, 4, 4, 4, 4, 4]);
}
