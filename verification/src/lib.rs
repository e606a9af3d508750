//! Texture block compression support library.
//!
//! Verified CPU-side core of a GPU block compressor: the compression-variant
//! descriptions with their exact output-size accounting, the ASTC
//! integer-sequence codec and 128-bit block packer, candidate-mode selection,
//! and the task scheduler's buffer-layout and dispatch planning.

use vstd::prelude::*;

mod bits;
mod ise;
mod astc;
mod rank;
mod decode;
mod scheduler;
mod settings;

pub use astc::AstcBlock;
pub use astc::BlockCompressorASTC;
pub use astc::lemma_bit_budget;
pub use decode::decode_block_bc1;
pub use decode::decode_block_bc2;
pub use decode::decode_block_bc3;
pub use decode::decode_block_bc4;
pub use decode::decode_block_bc5;
pub use decode::decompress_blocks_as_rgba;
pub use ise::sequence_bits;
pub use rank::CandidateMode;
pub use rank::select_best_modes;
pub use scheduler::CompressionTask;
pub use scheduler::DispatchStep;
pub use scheduler::FlushPlan;
pub use scheduler::GpuTaskScheduler;
pub use scheduler::TaskError;
pub use settings::ASTCBlockSize;
pub use settings::ASTCSettings;
pub use settings::BC6HSettings;
pub use settings::BC7Settings;

verus! {

/// Block compression variants supported by this crate.
#[derive(Copy, Clone, Debug)]
pub enum CompressionVariant {
    /// ASTC compression (flexible)
    ASTC(ASTCSettings),
    /// BC1 compression (RGB)
    BC1,
    /// BC2 compression with sharp alpha (RGBA)
    BC2,
    /// BC3 compression with smooth alpha (RGBA)
    BC3,
    /// BC4 compression (R)
    BC4,
    /// BC5 compression (RG)
    BC5,
    /// BC6H compression (RGB)
    BC6H(BC6HSettings),
    /// BC7 compression with smooth alpha (RGBA)
    BC7(BC7Settings),
}

impl CompressionVariant {
    /// Identity of a variant is its tag alone: parameterized variants with
    /// different settings still select the same pipeline and layouts.
    pub open spec fn tag(self) -> int {
        match self {
            CompressionVariant::ASTC(_) => 0,
            CompressionVariant::BC1 => 1,
            CompressionVariant::BC2 => 2,
            CompressionVariant::BC3 => 3,
            CompressionVariant::BC4 => 4,
            CompressionVariant::BC5 => 5,
            CompressionVariant::BC6H(_) => 6,
            CompressionVariant::BC7(_) => 7,
        }
    }

    /// The variant's settings are meaningful for its block layout.
    pub open spec fn wf(self) -> bool {
        match self {
            CompressionVariant::ASTC(settings) => settings.wf(),
            _ => true,
        }
    }

    /// Width in pixels of one compressed block.
    pub open spec fn spec_block_width(self) -> u32 {
        match self {
            CompressionVariant::ASTC(settings) => settings.block_width,
            _ => 4,
        }
    }

    /// Height in pixels of one compressed block.
    pub open spec fn spec_block_height(self) -> u32 {
        match self {
            CompressionVariant::ASTC(settings) => settings.block_height,
            _ => 4,
        }
    }

    /// Size in bytes of one compressed block.
    pub open spec fn spec_block_byte_size(self) -> u32 {
        match self {
            CompressionVariant::ASTC(_) => 16,
            CompressionVariant::BC1 | CompressionVariant::BC4 => 8,
            _ => 16,
        }
    }

    /// Number of blocks along one axis: the axis length divided by the block
    /// length, rounded up.
    pub open spec fn spec_block_count(length: u32, block_length: u32) -> int
        recommends
            block_length >= 1,
    {
        (length + block_length - 1) / (block_length as int)
    }

    /// Exact size in bytes of the compressed output for an image of the given
    /// dimensions: one fixed-size block per block-grid cell, the grid covering
    /// the image with both axes rounded up to whole blocks.
    pub open spec fn spec_blocks_byte_size(self, width: u32, height: u32) -> int {
        Self::spec_block_count(width, self.spec_block_width())
            * Self::spec_block_count(height, self.spec_block_height())
            * self.spec_block_byte_size()
    }

    fn block_width(self) -> (r: u32)
        requires
            self.wf(),
        ensures
            r == self.spec_block_width(),
            2 <= r <= 8,
    {
        match self {
            CompressionVariant::ASTC(settings) => settings.block_width,
            _ => 4,
        }
    }

    fn block_height(self) -> (r: u32)
        requires
            self.wf(),
        ensures
            r == self.spec_block_height(),
            2 <= r <= 8,
    {
        match self {
            CompressionVariant::ASTC(settings) => settings.block_height,
            _ => 4,
        }
    }

    pub fn block_byte_size(self) -> (r: u32)
        ensures
            r == self.spec_block_byte_size(),
    {
        match self {
            CompressionVariant::ASTC(_) => 16,
            CompressionVariant::BC1 | CompressionVariant::BC4 => 8,
            CompressionVariant::BC2 | CompressionVariant::BC3 | CompressionVariant::BC5 => 16,
            CompressionVariant::BC6H(_) => 16,
            CompressionVariant::BC7(_) => 16,
        }
    }

    /// Returns the bytes per row for the given width.
    ///
    /// The width is used to calculate how many blocks are needed per row,
    /// which is then multiplied by the block size.
    /// Width is rounded up to the nearest multiple of 4.
    pub fn bytes_per_row(self, width: u32) -> (r: u32)
        requires
            ((width + 3) / 4) * self.spec_block_byte_size() <= u32::MAX,
        ensures
            r == ((width + 3) / 4) * self.spec_block_byte_size(),
    {
        let blocks_per_row = width / 4 + if width % 4 != 0 { 1 } else { 0 };
        assert(blocks_per_row == (width + 3) / 4);
        blocks_per_row * self.block_byte_size()
    }

    /// Returns the byte size required for storing compressed blocks for the given dimensions.
    ///
    /// The size is calculated based on the block compression format and rounded up dimensions.
    /// Width and height are rounded up to the nearest multiple of the block size.
    pub fn blocks_byte_size(self, width: u32, height: u32) -> (r: usize)
        requires
            self.wf(),
            self.spec_blocks_byte_size(width, height) <= usize::MAX,
        ensures
            r == self.spec_blocks_byte_size(width, height),
    {
        let block_width = self.block_width() as u64;
        let block_height = self.block_height() as u64;
        let block_count_width = (width as u64 + (block_width - 1)) / block_width;
        let block_count_height = (height as u64 + (block_height - 1)) / block_height;
        assert(block_count_width <= 0x8000_0004u64 && block_count_height <= 0x8000_0004u64)
            by (nonlinear_arith)
            requires
                2 <= block_width <= 8,
                2 <= block_height <= 8,
                block_count_width == (width as u64 + (block_width - 1)) as int / (block_width as int),
                block_count_height == (height as u64 + (block_height - 1)) as int / (block_height
                    as int),
                width <= 0xFFFF_FFFFu64,
                height <= 0xFFFF_FFFFu64,
        ;
        assert(block_count_width * block_count_height <= 0x8000_0004u64 * 0x8000_0004u64)
            by (nonlinear_arith)
            requires
                block_count_width <= 0x8000_0004u64,
                block_count_height <= 0x8000_0004u64,
        ;
        let block_count = block_count_width * block_count_height;
        let block_size = self.block_byte_size() as u64;
        assert(block_count * block_size == self.spec_blocks_byte_size(width, height));
        (block_count * block_size) as usize
    }

    /// Short lower-case name of the variant's format.
    pub open spec fn spec_name(self) -> Seq<char> {
        match self {
            CompressionVariant::ASTC(_) => "astc"@,
            CompressionVariant::BC1 => "bc1"@,
            CompressionVariant::BC2 => "bc2"@,
            CompressionVariant::BC3 => "bc3"@,
            CompressionVariant::BC4 => "bc4"@,
            CompressionVariant::BC5 => "bc5"@,
            CompressionVariant::BC6H(_) => "bc6h"@,
            CompressionVariant::BC7(_) => "bc7"@,
        }
    }

    pub fn name(self) -> (r: &'static str)
        ensures
            r@ == self.spec_name(),
    {
        match self {
            CompressionVariant::ASTC(_) => "astc",
            CompressionVariant::BC1 => "bc1",
            CompressionVariant::BC2 => "bc2",
            CompressionVariant::BC3 => "bc3",
            CompressionVariant::BC4 => "bc4",
            CompressionVariant::BC5 => "bc5",
            CompressionVariant::BC6H(_) => "bc6h",
            CompressionVariant::BC7(_) => "bc7",
        }
    }

    /// Name of the compute-shader entry point that compresses this variant.
    pub open spec fn spec_entry_point(self) -> Seq<char> {
        match self {
            CompressionVariant::ASTC(_) => "compress_astc"@,
            CompressionVariant::BC1 => "compress_bc1"@,
            CompressionVariant::BC2 => "compress_bc2"@,
            CompressionVariant::BC3 => "compress_bc3"@,
            CompressionVariant::BC4 => "compress_bc4"@,
            CompressionVariant::BC5 => "compress_bc5"@,
            CompressionVariant::BC6H(_) => "compress_bc6h"@,
            CompressionVariant::BC7(_) => "compress_bc7"@,
        }
    }

    pub fn entry_point(self) -> (r: &'static str)
        ensures
            r@ == self.spec_entry_point(),
    {
        match self {
            CompressionVariant::ASTC(_) => "compress_astc",
            CompressionVariant::BC1 => "compress_bc1",
            CompressionVariant::BC2 => "compress_bc2",
            CompressionVariant::BC3 => "compress_bc3",
            CompressionVariant::BC4 => "compress_bc4",
            CompressionVariant::BC5 => "compress_bc5",
            CompressionVariant::BC6H(_) => "compress_bc6h",
            CompressionVariant::BC7(_) => "compress_bc7",
        }
    }
}

impl PartialEq for CompressionVariant {
    /// Equality is by tag only: pipelines and layouts are shared per tag, not
    /// per settings value.
    fn eq(&self, other: &Self) -> (r: bool) {
        match self {
            CompressionVariant::ASTC(_) => matches!(other, CompressionVariant::ASTC(_)),
            CompressionVariant::BC1 => matches!(other, CompressionVariant::BC1),
            CompressionVariant::BC2 => matches!(other, CompressionVariant::BC2),
            CompressionVariant::BC3 => matches!(other, CompressionVariant::BC3),
            CompressionVariant::BC4 => matches!(other, CompressionVariant::BC4),
            CompressionVariant::BC5 => matches!(other, CompressionVariant::BC5),
            CompressionVariant::BC6H(_) => matches!(other, CompressionVariant::BC6H(_)),
            CompressionVariant::BC7(_) => matches!(other, CompressionVariant::BC7(_)),
        }
    }
}

impl vstd::std_specs::cmp::PartialEqSpecImpl for CompressionVariant {
    open spec fn obeys_eq_spec() -> bool {
        true
    }

    open spec fn eq_spec(&self, other: &Self) -> bool {
        self.tag() == other.tag()
    }
}

} // verus!
