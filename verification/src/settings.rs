use vstd::prelude::*;

verus! {

/// Encoding settings for ASTC.
#[derive(Copy, Clone, Debug)]
pub struct ASTCSettings {
    pub block_width: u32,
    pub block_height: u32,
    pub channels: u32,
    pub fast_skip_threshold: u32,
    pub refine_iterations: u32,
}

/// The block sizes ASTC can use when encoding.
#[derive(Copy, Clone, Debug, PartialEq, Eq, Structural)]
pub enum ASTCBlockSize {
    _4x4,
    _5x4,
    _5x5,
    _6x5,
    _6x6,
    _8x5,
    _8x6,
    _8x8,
}

impl ASTCBlockSize {
    /// The width in pixels of a block of this size.
    pub open spec fn spec_width(self) -> u32 {
        match self {
            ASTCBlockSize::_4x4 => 4,
            ASTCBlockSize::_5x4 => 5,
            ASTCBlockSize::_5x5 => 5,
            ASTCBlockSize::_6x5 => 6,
            ASTCBlockSize::_6x6 => 6,
            ASTCBlockSize::_8x5 => 8,
            ASTCBlockSize::_8x6 => 8,
            ASTCBlockSize::_8x8 => 8,
        }
    }

    /// The height in pixels of a block of this size.
    pub open spec fn spec_height(self) -> u32 {
        match self {
            ASTCBlockSize::_4x4 => 4,
            ASTCBlockSize::_5x4 => 4,
            ASTCBlockSize::_5x5 => 5,
            ASTCBlockSize::_6x5 => 5,
            ASTCBlockSize::_6x6 => 6,
            ASTCBlockSize::_8x5 => 5,
            ASTCBlockSize::_8x6 => 6,
            ASTCBlockSize::_8x8 => 8,
        }
    }

    /// Returns the size of a block as width and height in pixels.
    pub fn block_size(self) -> (r: (u32, u32))
        ensures
            r.0 == self.spec_width(),
            r.1 == self.spec_height(),
    {
        match self {
            ASTCBlockSize::_4x4 => (4, 4),
            ASTCBlockSize::_5x4 => (5, 4),
            ASTCBlockSize::_5x5 => (5, 5),
            ASTCBlockSize::_6x5 => (6, 5),
            ASTCBlockSize::_6x6 => (6, 6),
            ASTCBlockSize::_8x5 => (8, 5),
            ASTCBlockSize::_8x6 => (8, 6),
            ASTCBlockSize::_8x8 => (8, 8),
        }
    }
}

impl ASTCSettings {
    /// The settings describe a real ASTC block footprint.
    pub open spec fn wf(self) -> bool {
        &&& 2 <= self.block_width <= 8
        &&& 2 <= self.block_height <= 8
        &&& (self.channels == 3 || self.channels == 4)
        &&& 1 <= self.fast_skip_threshold <= 64
    }

    /// Opaque fast settings.
    pub fn opaque_fast(block_size: ASTCBlockSize) -> (r: Self)
        ensures
            r == (ASTCSettings {
                block_width: block_size.spec_width(),
                block_height: block_size.spec_height(),
                channels: 3,
                fast_skip_threshold: 5,
                refine_iterations: 2,
            }),
            r.wf(),
    {
        let (block_width, block_height) = block_size.block_size();
        Self { block_width, block_height, channels: 3, fast_skip_threshold: 5, refine_iterations: 2 }
    }

    /// Opaque slow settings.
    pub fn opaque_slow(block_size: ASTCBlockSize) -> (r: Self)
        ensures
            r == (ASTCSettings {
                block_width: block_size.spec_width(),
                block_height: block_size.spec_height(),
                channels: 3,
                fast_skip_threshold: 64,
                refine_iterations: 2,
            }),
            r.wf(),
    {
        let (block_width, block_height) = block_size.block_size();
        Self { block_width, block_height, channels: 3, fast_skip_threshold: 64, refine_iterations: 2 }
    }

    /// Alpha fast settings.
    pub fn alpha_fast(block_size: ASTCBlockSize) -> (r: Self)
        ensures
            r == (ASTCSettings {
                block_width: block_size.spec_width(),
                block_height: block_size.spec_height(),
                channels: 4,
                fast_skip_threshold: 5,
                refine_iterations: 2,
            }),
            r.wf(),
    {
        let (block_width, block_height) = block_size.block_size();
        Self { block_width, block_height, channels: 4, fast_skip_threshold: 5, refine_iterations: 2 }
    }

    /// Alpha slow settings.
    pub fn alpha_slow(block_size: ASTCBlockSize) -> (r: Self)
        ensures
            r == (ASTCSettings {
                block_width: block_size.spec_width(),
                block_height: block_size.spec_height(),
                channels: 4,
                fast_skip_threshold: 64,
                refine_iterations: 2,
            }),
            r.wf(),
    {
        let (block_width, block_height) = block_size.block_size();
        Self { block_width, block_height, channels: 4, fast_skip_threshold: 64, refine_iterations: 2 }
    }
}

/// Encoding settings for BC6H.
#[derive(Copy, Clone, Debug)]
pub struct BC6HSettings {
    pub slow_mode: u32,
    pub fast_mode: u32,
    pub refine_iterations_1p: u32,
    pub refine_iterations_2p: u32,
    pub fast_skip_threshold: u32,
}

impl BC6HSettings {
    /// Very fast settings.
    pub fn very_fast() -> (r: Self)
        ensures
            r == (BC6HSettings {
                slow_mode: 0,
                fast_mode: 1,
                refine_iterations_1p: 0,
                refine_iterations_2p: 0,
                fast_skip_threshold: 0,
            }),
    {
        Self {
            slow_mode: 0,
            fast_mode: 1,
            fast_skip_threshold: 0,
            refine_iterations_1p: 0,
            refine_iterations_2p: 0,
        }
    }

    /// Fast settings.
    pub fn fast() -> (r: Self)
        ensures
            r == (BC6HSettings {
                slow_mode: 0,
                fast_mode: 1,
                refine_iterations_1p: 0,
                refine_iterations_2p: 1,
                fast_skip_threshold: 2,
            }),
    {
        Self {
            slow_mode: 0,
            fast_mode: 1,
            fast_skip_threshold: 2,
            refine_iterations_1p: 0,
            refine_iterations_2p: 1,
        }
    }

    /// Basic settings.
    pub fn basic() -> (r: Self)
        ensures
            r == (BC6HSettings {
                slow_mode: 0,
                fast_mode: 0,
                refine_iterations_1p: 2,
                refine_iterations_2p: 2,
                fast_skip_threshold: 4,
            }),
    {
        Self {
            slow_mode: 0,
            fast_mode: 0,
            fast_skip_threshold: 4,
            refine_iterations_1p: 2,
            refine_iterations_2p: 2,
        }
    }

    /// Slow settings.
    pub fn slow() -> (r: Self)
        ensures
            r == (BC6HSettings {
                slow_mode: 1,
                fast_mode: 0,
                refine_iterations_1p: 2,
                refine_iterations_2p: 2,
                fast_skip_threshold: 10,
            }),
    {
        Self {
            slow_mode: 1,
            fast_mode: 0,
            fast_skip_threshold: 10,
            refine_iterations_1p: 2,
            refine_iterations_2p: 2,
        }
    }

    /// Very slow settings.
    pub fn very_slow() -> (r: Self)
        ensures
            r == (BC6HSettings {
                slow_mode: 1,
                fast_mode: 0,
                refine_iterations_1p: 2,
                refine_iterations_2p: 2,
                fast_skip_threshold: 32,
            }),
    {
        Self {
            slow_mode: 1,
            fast_mode: 0,
            fast_skip_threshold: 32,
            refine_iterations_1p: 2,
            refine_iterations_2p: 2,
        }
    }
}

/// Encoding settings for BC7.
#[derive(Copy, Clone, Debug)]
pub struct BC7Settings {
    pub refine_iterations: [u32; 8],
    pub mode_selection: [u32; 4],
    pub skip_mode2: u32,
    pub fast_skip_threshold_mode1: u32,
    pub fast_skip_threshold_mode3: u32,
    pub fast_skip_threshold_mode7: u32,
    pub mode45_channel0: u32,
    pub refine_iterations_channel: u32,
    pub channels: u32,
}

impl BC7Settings {
    /// Opaque ultra fast settings.
    pub fn opaque_ultra_fast() -> (r: Self)
        ensures
            r.channels == 3,
            r.mode_selection@ == seq![0u32, 0u32, 0u32, 1u32],
            r.skip_mode2 == 1,
            r.fast_skip_threshold_mode1 == 3,
            r.fast_skip_threshold_mode3 == 1,
            r.fast_skip_threshold_mode7 == 0,
            r.mode45_channel0 == 0,
            r.refine_iterations_channel == 0,
            r.refine_iterations@ == seq![2u32, 2u32, 2u32, 1u32, 2u32, 2u32, 1u32, 0u32],
    {
        let r = Self {
            channels: 3,
            mode_selection: [0, 0, 0, 1],
            skip_mode2: 1,
            fast_skip_threshold_mode1: 3,
            fast_skip_threshold_mode3: 1,
            fast_skip_threshold_mode7: 0,
            mode45_channel0: 0,
            refine_iterations_channel: 0,
            refine_iterations: [2, 2, 2, 1, 2, 2, 1, 0],
        };
        proof {
            assert(r.mode_selection@ =~= seq![0u32, 0u32, 0u32, 1u32]);
            assert(r.refine_iterations@ =~= seq![2u32, 2u32, 2u32, 1u32, 2u32, 2u32, 1u32, 0u32]);
        }
        r
    }

    /// Opaque very fast settings.
    pub fn opaque_very_fast() -> (r: Self)
        ensures
            r.channels == 3,
            r.mode_selection@ == seq![0u32, 1u32, 0u32, 1u32],
            r.skip_mode2 == 1,
            r.fast_skip_threshold_mode1 == 3,
            r.fast_skip_threshold_mode3 == 1,
            r.fast_skip_threshold_mode7 == 0,
            r.mode45_channel0 == 0,
            r.refine_iterations_channel == 0,
            r.refine_iterations@ == seq![2u32, 2u32, 2u32, 1u32, 2u32, 2u32, 1u32, 0u32],
    {
        let r = Self {
            channels: 3,
            mode_selection: [0, 1, 0, 1],
            skip_mode2: 1,
            fast_skip_threshold_mode1: 3,
            fast_skip_threshold_mode3: 1,
            fast_skip_threshold_mode7: 0,
            mode45_channel0: 0,
            refine_iterations_channel: 0,
            refine_iterations: [2, 2, 2, 1, 2, 2, 1, 0],
        };
        proof {
            assert(r.mode_selection@ =~= seq![0u32, 1u32, 0u32, 1u32]);
            assert(r.refine_iterations@ =~= seq![2u32, 2u32, 2u32, 1u32, 2u32, 2u32, 1u32, 0u32]);
        }
        r
    }

    /// Opaque fast settings.
    pub fn opaque_fast() -> (r: Self)
        ensures
            r.channels == 3,
            r.mode_selection@ == seq![0u32, 1u32, 0u32, 1u32],
            r.skip_mode2 == 1,
            r.fast_skip_threshold_mode1 == 12,
            r.fast_skip_threshold_mode3 == 4,
            r.fast_skip_threshold_mode7 == 0,
            r.mode45_channel0 == 0,
            r.refine_iterations_channel == 0,
            r.refine_iterations@ == seq![2u32, 2u32, 2u32, 1u32, 2u32, 2u32, 2u32, 0u32],
    {
        let r = Self {
            channels: 3,
            mode_selection: [0, 1, 0, 1],
            skip_mode2: 1,
            fast_skip_threshold_mode1: 12,
            fast_skip_threshold_mode3: 4,
            fast_skip_threshold_mode7: 0,
            mode45_channel0: 0,
            refine_iterations_channel: 0,
            refine_iterations: [2, 2, 2, 1, 2, 2, 2, 0],
        };
        proof {
            assert(r.mode_selection@ =~= seq![0u32, 1u32, 0u32, 1u32]);
            assert(r.refine_iterations@ =~= seq![2u32, 2u32, 2u32, 1u32, 2u32, 2u32, 2u32, 0u32]);
        }
        r
    }

    /// Opaque basic settings.
    pub fn opaque_basic() -> (r: Self)
        ensures
            r.channels == 3,
            r.mode_selection@ == seq![1u32, 1u32, 1u32, 1u32],
            r.skip_mode2 == 1,
            r.fast_skip_threshold_mode1 == 12,
            r.fast_skip_threshold_mode3 == 8,
            r.fast_skip_threshold_mode7 == 0,
            r.mode45_channel0 == 0,
            r.refine_iterations_channel == 2,
            r.refine_iterations@ == seq![2u32, 2u32, 2u32, 2u32, 2u32, 2u32, 2u32, 0u32],
    {
        let r = Self {
            channels: 3,
            mode_selection: [1, 1, 1, 1],
            skip_mode2: 1,
            fast_skip_threshold_mode1: 12,
            fast_skip_threshold_mode3: 8,
            fast_skip_threshold_mode7: 0,
            mode45_channel0: 0,
            refine_iterations_channel: 2,
            refine_iterations: [2, 2, 2, 2, 2, 2, 2, 0],
        };
        proof {
            assert(r.mode_selection@ =~= seq![1u32, 1u32, 1u32, 1u32]);
            assert(r.refine_iterations@ =~= seq![2u32, 2u32, 2u32, 2u32, 2u32, 2u32, 2u32, 0u32]);
        }
        r
    }

    /// Opaque slow settings.
    pub fn opaque_slow() -> (r: Self)
        ensures
            r.channels == 3,
            r.mode_selection@ == seq![1u32, 1u32, 1u32, 1u32],
            r.skip_mode2 == 0,
            r.fast_skip_threshold_mode1 == 64,
            r.fast_skip_threshold_mode3 == 64,
            r.fast_skip_threshold_mode7 == 0,
            r.mode45_channel0 == 0,
            r.refine_iterations_channel == 4,
            r.refine_iterations@ == seq![4u32, 4u32, 4u32, 4u32, 4u32, 4u32, 4u32, 0u32],
    {
        let r = Self {
            channels: 3,
            mode_selection: [1, 1, 1, 1],
            skip_mode2: 0,
            fast_skip_threshold_mode1: 64,
            fast_skip_threshold_mode3: 64,
            fast_skip_threshold_mode7: 0,
            mode45_channel0: 0,
            refine_iterations_channel: 4,
            refine_iterations: [4, 4, 4, 4, 4, 4, 4, 0],
        };
        proof {
            assert(r.mode_selection@ =~= seq![1u32, 1u32, 1u32, 1u32]);
            assert(r.refine_iterations@ =~= seq![4u32, 4u32, 4u32, 4u32, 4u32, 4u32, 4u32, 0u32]);
        }
        r
    }

    /// Alpha ultra fast settings.
    pub fn alpha_ultrafast() -> (r: Self)
        ensures
            r.channels == 4,
            r.mode_selection@ == seq![0u32, 0u32, 1u32, 1u32],
            r.skip_mode2 == 1,
            r.fast_skip_threshold_mode1 == 0,
            r.fast_skip_threshold_mode3 == 0,
            r.fast_skip_threshold_mode7 == 4,
            r.mode45_channel0 == 3,
            r.refine_iterations_channel == 1,
            r.refine_iterations@ == seq![2u32, 1u32, 2u32, 1u32, 1u32, 1u32, 2u32, 2u32],
    {
        let r = Self {
            channels: 4,
            mode_selection: [0, 0, 1, 1],
            skip_mode2: 1,
            fast_skip_threshold_mode1: 0,
            fast_skip_threshold_mode3: 0,
            fast_skip_threshold_mode7: 4,
            mode45_channel0: 3,
            refine_iterations_channel: 1,
            refine_iterations: [2, 1, 2, 1, 1, 1, 2, 2],
        };
        proof {
            assert(r.mode_selection@ =~= seq![0u32, 0u32, 1u32, 1u32]);
            assert(r.refine_iterations@ =~= seq![2u32, 1u32, 2u32, 1u32, 1u32, 1u32, 2u32, 2u32]);
        }
        r
    }

    /// Alpha very fast settings.
    pub fn alpha_very_fast() -> (r: Self)
        ensures
            r.channels == 4,
            r.mode_selection@ == seq![0u32, 1u32, 1u32, 1u32],
            r.skip_mode2 == 1,
            r.fast_skip_threshold_mode1 == 0,
            r.fast_skip_threshold_mode3 == 0,
            r.fast_skip_threshold_mode7 == 4,
            r.mode45_channel0 == 3,
            r.refine_iterations_channel == 2,
            r.refine_iterations@ == seq![2u32, 1u32, 2u32, 1u32, 2u32, 2u32, 2u32, 2u32],
    {
        let r = Self {
            channels: 4,
            mode_selection: [0, 1, 1, 1],
            skip_mode2: 1,
            fast_skip_threshold_mode1: 0,
            fast_skip_threshold_mode3: 0,
            fast_skip_threshold_mode7: 4,
            mode45_channel0: 3,
            refine_iterations_channel: 2,
            refine_iterations: [2, 1, 2, 1, 2, 2, 2, 2],
        };
        proof {
            assert(r.mode_selection@ =~= seq![0u32, 1u32, 1u32, 1u32]);
            assert(r.refine_iterations@ =~= seq![2u32, 1u32, 2u32, 1u32, 2u32, 2u32, 2u32, 2u32]);
        }
        r
    }

    /// Alpha fast settings.
    pub fn alpha_fast() -> (r: Self)
        ensures
            r.channels == 4,
            r.mode_selection@ == seq![0u32, 1u32, 1u32, 1u32],
            r.skip_mode2 == 1,
            r.fast_skip_threshold_mode1 == 4,
            r.fast_skip_threshold_mode3 == 4,
            r.fast_skip_threshold_mode7 == 8,
            r.mode45_channel0 == 3,
            r.refine_iterations_channel == 2,
            r.refine_iterations@ == seq![2u32, 1u32, 2u32, 1u32, 2u32, 2u32, 2u32, 2u32],
    {
        let r = Self {
            channels: 4,
            mode_selection: [0, 1, 1, 1],
            skip_mode2: 1,
            fast_skip_threshold_mode1: 4,
            fast_skip_threshold_mode3: 4,
            fast_skip_threshold_mode7: 8,
            mode45_channel0: 3,
            refine_iterations_channel: 2,
            refine_iterations: [2, 1, 2, 1, 2, 2, 2, 2],
        };
        proof {
            assert(r.mode_selection@ =~= seq![0u32, 1u32, 1u32, 1u32]);
            assert(r.refine_iterations@ =~= seq![2u32, 1u32, 2u32, 1u32, 2u32, 2u32, 2u32, 2u32]);
        }
        r
    }

    /// Alpha basic settings.
    pub fn alpha_basic() -> (r: Self)
        ensures
            r.channels == 4,
            r.mode_selection@ == seq![1u32, 1u32, 1u32, 1u32],
            r.skip_mode2 == 1,
            r.fast_skip_threshold_mode1 == 12,
            r.fast_skip_threshold_mode3 == 8,
            r.fast_skip_threshold_mode7 == 8,
            r.mode45_channel0 == 0,
            r.refine_iterations_channel == 2,
            r.refine_iterations@ == seq![2u32, 2u32, 2u32, 2u32, 2u32, 2u32, 2u32, 2u32],
    {
        let r = Self {
            channels: 4,
            mode_selection: [1, 1, 1, 1],
            skip_mode2: 1,
            fast_skip_threshold_mode1: 12,
            fast_skip_threshold_mode3: 8,
            fast_skip_threshold_mode7: 8,
            mode45_channel0: 0,
            refine_iterations_channel: 2,
            refine_iterations: [2, 2, 2, 2, 2, 2, 2, 2],
        };
        proof {
            assert(r.mode_selection@ =~= seq![1u32, 1u32, 1u32, 1u32]);
            assert(r.refine_iterations@ =~= seq![2u32, 2u32, 2u32, 2u32, 2u32, 2u32, 2u32, 2u32]);
        }
        r
    }

    /// Alpha slow settings.
    pub fn alpha_slow() -> (r: Self)
        ensures
            r.channels == 4,
            r.mode_selection@ == seq![1u32, 1u32, 1u32, 1u32],
            r.skip_mode2 == 0,
            r.fast_skip_threshold_mode1 == 64,
            r.fast_skip_threshold_mode3 == 64,
            r.fast_skip_threshold_mode7 == 64,
            r.mode45_channel0 == 0,
            r.refine_iterations_channel == 4,
            r.refine_iterations@ == seq![4u32, 4u32, 4u32, 4u32, 4u32, 4u32, 4u32, 4u32],
    {
        let r = Self {
            channels: 4,
            mode_selection: [1, 1, 1, 1],
            skip_mode2: 0,
            fast_skip_threshold_mode1: 64,
            fast_skip_threshold_mode3: 64,
            fast_skip_threshold_mode7: 64,
            mode45_channel0: 0,
            refine_iterations_channel: 4,
            refine_iterations: [4, 4, 4, 4, 4, 4, 4, 4],
        };
        proof {
            assert(r.mode_selection@ =~= seq![1u32, 1u32, 1u32, 1u32]);
            assert(r.refine_iterations@ =~= seq![4u32, 4u32, 4u32, 4u32, 4u32, 4u32, 4u32, 4u32]);
        }
        r
    }
}

} // verus!
