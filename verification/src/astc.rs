//! The ASTC 128-bit block packer: assembles the block-mode header, partition
//! and color-endpoint-mode fields, encoded endpoints and the bit-reversed
//! weight grid into one 128-bit block of four little-endian words.

use vstd::prelude::*;

use crate::settings::ASTCSettings;

use crate::bits::reverse_u32;
use crate::bits::set_bits;
use crate::bits::spec_or_words;
use crate::bits::spec_reverse_u32;
use crate::bits::spec_set_bits;
use crate::bits::spec_zero_block;
use crate::ise::lemma_padded_bits_close;
use crate::ise::lemma_range_info_bounds;
use crate::ise::pack_integer_sequence;
use crate::ise::sequence_bits;
use crate::ise::spec_get_field;
use crate::ise::spec_levels;
use crate::ise::spec_map_vals;
use crate::ise::spec_padded_bits;
use crate::ise::spec_range_info;
use crate::ise::spec_sequence_bits;
use crate::ise::spec_ise_words;

verus! {

/// Per-block encode state for the ASTC packer: the block footprint, the
/// weight grid with its quantization range, and the color endpoints with
/// theirs.
pub struct AstcBlock {
    pub width: i32,
    pub height: i32,
    pub dual_plane: u8,
    pub weight_range: i32,
    pub weights: [u8; 64],
    pub color_component_selector: i32,
    pub partitions: i32,
    pub partition_id: i32,
    pub color_endpoint_pairs: i32,
    pub channels: i32,
    pub color_endpoint_modes: [i32; 4],
    pub endpoint_range: i32,
    pub endpoints: [u8; 18],
}

/// Whether a field value fits in the given number of bits.
pub open spec fn spec_can_store(value: int, bits: int) -> bool {
    0 <= value < (if bits == 0 {
        1int
    } else if bits == 1 {
        2
    } else if bits == 2 {
        4
    } else {
        8
    })
}

fn can_store(value: i32, bits: i32) -> (r: bool)
    requires
        0 <= bits <= 3,
    ensures
        r == spec_can_store(value as int, bits as int),
{
    if value < 0 {
        return false;
    }
    let limit: i32 = if bits == 0 {
        1
    } else if bits == 1 {
        2
    } else if bits == 2 {
        4
    } else {
        8
    };
    value < limit
}

impl AstcBlock {
    /// Number of weight-grid values in the block: one per texel, doubled by
    /// the second plane.
    pub open spec fn spec_num_weights(self) -> int {
        self.width * self.height * (if self.dual_plane != 0 {
            2int
        } else {
            1
        })
    }

    /// Bits of the encoded weight grid.
    pub open spec fn spec_weight_bits(self) -> int {
        spec_sequence_bits(self.spec_num_weights(), self.weight_range as int)
    }

    /// Color endpoint pairs demanded by the block's single endpoint mode.
    pub open spec fn spec_cem_pairs(self) -> int {
        1 + self.color_endpoint_modes[0] / 4
    }

    /// Bits of configuration data: the 11-bit mode header, 2 partition bits
    /// and the 4-bit endpoint mode growing up from bit 0, plus the 2-bit
    /// color component selector packed down from the top for dual-plane
    /// blocks.
    pub open spec fn spec_config_bits(self) -> int {
        17 + (if self.dual_plane != 0 {
            2int
        } else {
            0
        })
    }

    /// Bits between the configuration data and the weight grid: the span
    /// available to the encoded endpoints.
    pub open spec fn spec_endpoint_allotment(self) -> int {
        128 - self.spec_config_bits() - self.spec_weight_bits()
    }

    /// A packable block: a real ASTC footprint, a single partition, every
    /// quantized value inside its declared range, a weight grid within the
    /// format's 24 to 96 bit budget, and the endpoint range the largest one
    /// whose encoding still fits between the configuration bits and the
    /// weights.
    pub open spec fn wf(self) -> bool {
        &&& 2 <= self.width <= 8
        &&& 2 <= self.height <= 8
        &&& self.dual_plane <= 1
        &&& 0 <= self.weight_range <= 11
        &&& self.partitions == 1
        &&& 0 <= self.color_endpoint_modes[0] <= 15
        &&& 0 <= self.color_component_selector <= 3
        &&& self.spec_num_weights() <= 64
        &&& 24 <= self.spec_weight_bits() <= 96
        &&& 4 <= self.endpoint_range <= 20
        &&& spec_sequence_bits(2 * self.spec_cem_pairs(), self.endpoint_range as int)
            <= self.spec_endpoint_allotment()
        &&& (self.endpoint_range == 20 || spec_sequence_bits(
            2 * self.spec_cem_pairs(),
            self.endpoint_range + 1,
        ) > self.spec_endpoint_allotment())
        &&& forall|i: int|
            0 <= i < self.spec_num_weights() ==> (self.weights[i] as int) < spec_levels(
                self.weight_range as int,
            )
        &&& forall|i: int|
            0 <= i < 2 * self.spec_cem_pairs() ==> (self.endpoints[i] as int) < spec_levels(
                self.endpoint_range as int,
            )
    }

    /// The 11-bit block-mode header word: the five mutually exclusive shape
    /// encodings are tested in a fixed order and the last match wins, with a
    /// 6x6-anchored form for single-plane low-range blocks.
    pub open spec fn spec_pack_block_mode(self) -> u32 {
        let d = self.dual_plane as int;
        let h: int = if self.weight_range >= 6 {
            1
        } else {
            0
        };
        let dh = (d * 2 + h) as u32;
        let r0 = self.weight_range + 2 - (if h == 1 {
            6int
        } else {
            0
        });
        let r = (r0 / 2 + (r0 % 2) * 4) as u32;
        let m0: u32 = 0;
        let m1: u32 = if spec_can_store(self.width - 4, 2) && spec_can_store(self.height - 2, 2) {
            (dh << 9u32) | (((self.width - 4) as u32) << 7u32) | (((self.height - 2) as u32)
                << 5u32) | ((r & 4) << 2u32) | (r & 3)
        } else {
            m0
        };
        let m2: u32 = if spec_can_store(self.width - 8, 2) && spec_can_store(self.height - 2, 2) {
            (dh << 9u32) | (((self.width - 8) as u32) << 7u32) | (((self.height - 2) as u32)
                << 5u32) | ((r & 4) << 2u32) | 4 | (r & 3)
        } else {
            m1
        };
        let m3: u32 = if spec_can_store(self.width - 2, 2) && spec_can_store(self.height - 8, 2) {
            (dh << 9u32) | (((self.height - 8) as u32) << 7u32) | (((self.width - 2) as u32)
                << 5u32) | ((r & 4) << 2u32) | 8 | (r & 3)
        } else {
            m2
        };
        let m4: u32 = if spec_can_store(self.width - 2, 2) && spec_can_store(self.height - 6, 1) {
            (dh << 9u32) | (((self.height - 6) as u32) << 7u32) | (((self.width - 2) as u32)
                << 5u32) | ((r & 4) << 2u32) | 12 | (r & 3)
        } else {
            m3
        };
        let m5: u32 = if spec_can_store(self.width - 2, 1) && spec_can_store(self.height - 2, 2) {
            (dh << 9u32) | ((self.width as u32) << 7u32) | (((self.height - 2) as u32) << 5u32) | (
            (r & 4) << 2u32) | 12 | (r & 3)
        } else {
            m4
        };
        if dh == 0 && spec_can_store(self.width - 6, 2) && spec_can_store(self.height - 6, 2) {
            (((self.height - 6) as u32) << 9u32) | 256 | (((self.width - 6) as u32) << 5u32) | (r
                << 2u32)
        } else {
            m5
        }
    }

    /// Derives the 11-bit block-mode header from the block's shape, plane
    /// count and weight-quantization range.
    pub fn pack_block_mode(&self) -> (r: u32)
        requires
            2 <= self.width <= 8,
            2 <= self.height <= 8,
            self.dual_plane <= 1,
            0 <= self.weight_range <= 11,
        ensures
            r == self.spec_pack_block_mode(),
    {
        let mut block_mode: u32 = 0;
        let d: i32 = self.dual_plane as i32;
        let h: i32 = if self.weight_range >= 6 {
            1
        } else {
            0
        };
        let dh: u32 = (d * 2 + h) as u32;
        let mut r: i32 = self.weight_range + 2 - (if h == 1 {
            6
        } else {
            0
        });
        r = r / 2 + (r % 2) * 4;
        let ru: u32 = r as u32;

        if can_store(self.width - 4, 2) && can_store(self.height - 2, 2) {
            let b = (self.width - 4) as u32;
            let a = (self.height - 2) as u32;
            block_mode = (dh << 9u32) | (b << 7u32) | (a << 5u32) | ((ru & 4) << 2u32) | (ru & 3);
        }

        if can_store(self.width - 8, 2) && can_store(self.height - 2, 2) {
            let b = (self.width - 8) as u32;
            let a = (self.height - 2) as u32;
            block_mode = (dh << 9u32) | (b << 7u32) | (a << 5u32) | ((ru & 4) << 2u32) | 4 | (ru
                & 3);
        }

        if can_store(self.width - 2, 2) && can_store(self.height - 8, 2) {
            let a = (self.width - 2) as u32;
            let b = (self.height - 8) as u32;
            block_mode = (dh << 9u32) | (b << 7u32) | (a << 5u32) | ((ru & 4) << 2u32) | 8 | (ru
                & 3);
        }

        if can_store(self.width - 2, 2) && can_store(self.height - 6, 1) {
            let a = (self.width - 2) as u32;
            let b = (self.height - 6) as u32;
            block_mode = (dh << 9u32) | (b << 7u32) | (a << 5u32) | ((ru & 4) << 2u32) | 12 | (ru
                & 3);
        }

        if can_store(self.width - 2, 1) && can_store(self.height - 2, 2) {
            let b = self.width as u32;
            let a = (self.height - 2) as u32;
            block_mode = (dh << 9u32) | (b << 7u32) | (a << 5u32) | ((ru & 4) << 2u32) | 12 | (ru
                & 3);
        }

        if dh == 0 && can_store(self.width - 6, 2) && can_store(self.height - 6, 2) {
            let a = (self.width - 6) as u32;
            let b = (self.height - 6) as u32;
            block_mode = (b << 9u32) | 256 | (a << 5u32) | (ru << 2u32);
        }

        block_mode
    }

    /// Per-block encode state reconstructed from a packed candidate-mode
    /// word, as the mode ranker emits them: shape in bits 13 to 19, weight
    /// and endpoint ranges and the endpoint-mode selector in the low bits.
    pub fn from_mode_parameters(packed_mode: u32, channels: u32) -> (r: Self)
        requires
            channels <= 4,
        ensures
            r.width == 2 + spec_get_field(packed_mode, 15, 13),
            r.height == 2 + spec_get_field(packed_mode, 18, 16),
            r.dual_plane == spec_get_field(packed_mode, 19, 19),
            r.weight_range == spec_get_field(packed_mode, 3, 0),
            r.color_component_selector == spec_get_field(packed_mode, 5, 4),
            r.endpoint_range == spec_get_field(packed_mode, 12, 8),
            r.color_endpoint_modes[0] == spec_get_field(packed_mode, 7, 6) * 2 + 6,
            r.color_endpoint_pairs == 1 + r.color_endpoint_modes[0] / 4,
            r.partitions == 1,
            r.partition_id == 0,
            r.channels == channels,
            forall|i: int| 0 <= i < 64 ==> r.weights[i] == 0,
            forall|i: int| 0 <= i < 18 ==> r.endpoints[i] == 0,
    {
        let cem0: i32 = (get_bits(packed_mode, 6, 7) * 2 + 6) as i32;
        AstcBlock {
            width: 2 + get_bits(packed_mode, 13, 15) as i32,
            height: 2 + get_bits(packed_mode, 16, 18) as i32,
            dual_plane: get_bits(packed_mode, 19, 19) as u8,
            weight_range: get_bits(packed_mode, 0, 3) as i32,
            weights: [0; 64],
            color_component_selector: get_bits(packed_mode, 4, 5) as i32,
            partitions: 1,
            partition_id: 0,
            color_endpoint_pairs: 1 + cem0 / 4,
            channels: channels as i32,
            color_endpoint_modes: [cem0, 0, 0, 0],
            endpoint_range: get_bits(packed_mode, 8, 12) as i32,
            endpoints: [0; 18],
        }
    }

    /// The finished 128-bit block: mode header at bit 0, partition count,
    /// the single endpoint mode, the dual-plane component selector packed
    /// down from bit 128 above the weights, the encoded endpoints after the
    /// header, and the weight grid bit-reversed so that it grows downward
    /// from bit 127.
    pub open spec fn spec_pack(self) -> Seq<u32> {
        let d0 = spec_set_bits(spec_zero_block(), 0, self.spec_pack_block_mode());
        let d1 = spec_set_bits(d0, 11, (self.partitions - 1) as u32);
        let d2 = spec_set_bits(d1, 13, self.color_endpoint_modes[0] as u32);
        let d3 = if self.dual_plane != 0 {
            spec_set_bits(
                d2,
                128 - self.spec_weight_bits() - 2,
                self.color_component_selector as u32,
            )
        } else {
            d2
        };
        let d4 = spec_or_words(
            d3,
            spec_ise_words(
                spec_map_vals(self.endpoints@, 2 * self.spec_cem_pairs()),
                17,
                2 * self.spec_cem_pairs(),
                self.endpoint_range as int,
            ),
        );
        let wdata = spec_ise_words(
            spec_map_vals(self.weights@, self.spec_num_weights()),
            0,
            self.spec_num_weights(),
            self.weight_range as int,
        );
        Seq::new(4, |i: int| d4[i] | spec_reverse_u32(wdata[3 - i]))
    }

    /// Produces the final 128-bit block, as four little-endian words, from
    /// the block's fields alone.
    pub fn pack(&self, data: &mut [u32; 4])
        requires
            self.wf(),
        ensures
            final(data)@ == self.spec_pack(),
    {
        *data = [0; 4];
        assert(data@ =~= spec_zero_block());

        let mut pos: usize = 0;
        let mode = self.pack_block_mode();
        set_bits(data, &mut pos, 11, mode);

        let ghost planes: int = if self.dual_plane != 0 {
            2int
        } else {
            1
        };
        proof {
            assert(4 <= self.width * self.height * planes && self.width * self.height * planes
                <= 8 * 8 * 2) by (nonlinear_arith)
                requires
                    2 <= self.width <= 8,
                    2 <= self.height <= 8,
                    planes == 1 || planes == 2,
            ;
        }
        let num_weights: usize = (self.width * self.height * (if self.dual_plane != 0 {
            2
        } else {
            1
        })) as usize;
        let weight_bits: usize = sequence_bits(num_weights, self.weight_range as usize);

        set_bits(data, &mut pos, 2, (self.partitions - 1) as u32);
        set_bits(data, &mut pos, 4, self.color_endpoint_modes[0] as u32);

        if self.dual_plane != 0 {
            let mut pos2: usize = 128 - weight_bits - 2;
            set_bits(data, &mut pos2, 2, self.color_component_selector as u32);
        }

        let num_cem_pairs: usize = (1 + self.color_endpoint_modes[0] / 4) as usize;
        proof {
            lemma_endpoint_padded(2 * num_cem_pairs as int, self.endpoint_range as int);
        }
        pack_integer_sequence(
            data,
            self.endpoints.as_slice(),
            pos,
            2 * num_cem_pairs,
            self.endpoint_range as usize,
        );

        proof {
            lemma_padded_bits_close(num_weights as int, self.weight_range as int);
            lemma_range_info_bounds(self.weight_range as int);
        }
        let mut rdata: [u32; 4] = [0; 4];
        assert(rdata@ =~= spec_zero_block());
        pack_integer_sequence(
            &mut rdata,
            self.weights.as_slice(),
            0,
            num_weights,
            self.weight_range as usize,
        );
        proof {
            assert(forall|x: u32| #[trigger] (0u32 | x) == x) by (bit_vector);
            assert(rdata@ =~= spec_ise_words(
                spec_map_vals(self.weights@, self.spec_num_weights()),
                0,
                self.spec_num_weights(),
                self.weight_range as int,
            ));
        }

        let ghost mid = data@;
        let mut i: usize = 0;
        while i < 4
            invariant
                i <= 4,
                rdata@ == spec_ise_words(
                    spec_map_vals(self.weights@, self.spec_num_weights()),
                    0,
                    self.spec_num_weights(),
                    self.weight_range as int,
                ),
                forall|k: int| 0 <= k < i ==> data@[k] == (mid[k] | spec_reverse_u32(rdata@[3 - k])),
                forall|k: int| i <= k < 4 ==> data@[k] == mid[k],
            decreases 4 - i,
        {
            let rev = reverse_u32(rdata[3 - i]);
            data[i] = data[i] | rev;
            i = i + 1;
        }
        assert(data@ =~= self.spec_pack());
    }
}

/// Shape and endpoint-mode parameters of one ASTC compression pass, decoded
/// from a packed candidate-mode word.
pub struct BlockCompressorASTC {
    pub width: u32,
    pub height: u32,
    pub dual_plane: u32,
    pub partitions: u32,
    pub color_endpoint_pairs: u32,
    pub channels: u32,
    pub settings: ASTCSettings,
}

impl BlockCompressorASTC {
    /// Decodes the block footprint, plane count and endpoint-mode demands
    /// from a packed candidate-mode word.
    pub fn new(mode: u32, settings: ASTCSettings) -> (r: Self)
        ensures
            r.width == 2 + spec_get_field(mode, 15, 13),
            r.height == 2 + spec_get_field(mode, 18, 16),
            r.dual_plane == spec_get_field(mode, 19, 19),
            r.partitions == 1,
            r.color_endpoint_pairs == 1 + (spec_get_field(mode, 7, 6) * 2 + 6) / 4,
            r.channels == (if spec_get_field(mode, 7, 6) * 2 + 6 > 8 {
                4u32
            } else {
                3u32
            }),
            r.settings == settings,
    {
        let width = 2 + get_bits(mode, 13, 15);
        let height = 2 + get_bits(mode, 16, 18);
        let dual_plane = get_bits(mode, 19, 19);
        let color_endpoint_modes0 = get_bits(mode, 6, 7) * 2 + 6;
        let color_endpoint_pairs = 1 + (color_endpoint_modes0 / 4);
        let channels = if color_endpoint_modes0 > 8 {
            4
        } else {
            3
        };

        Self { width, height, dual_plane, partitions: 1, color_endpoint_pairs, channels, settings }
    }
}

fn get_bits(value: u32, from: u32, to: u32) -> (r: u32)
    requires
        from <= to <= 31,
        to - from <= 7,
    ensures
        r == spec_get_field(value, to, from),
        r <= 255,
{
    proof {
        assert(1u32 << ((to - from + 1) as u32) >= 1 && (1u32 << ((to - from + 1) as u32)) - 1
            <= 255) by (bit_vector)
            requires
                1 <= to - from + 1 <= 8,
        ;
        assert(((value >> from) & (((1u32 << ((to - from + 1) as u32)) - 1) as u32)) <= (((1u32 << (
        (to - from + 1) as u32)) - 1) as u32)) by (bit_vector);
    }
    (value >> from) & ((1u32 << (to + 1 - from)) - 1)
}

/// The whole radix groups of a short sequence stay well inside the block.
proof fn lemma_endpoint_padded(count: int, range: int)
    requires
        1 <= count <= 8,
        0 <= range <= 20,
    ensures
        spec_padded_bits(count, range) <= 76,
{
    let (bits, trits, quints) = spec_range_info(range);
    lemma_range_info_bounds(range);
    if trits == 1 {
        let q = (count + 4) / 5;
        assert(q <= 2);
        assert(q * (8 + 5 * bits) <= 2 * (8 + 5 * bits)) by (nonlinear_arith)
            requires
                q <= 2,
                bits >= 0,
        ;
    } else if quints == 1 {
        let q = (count + 2) / 3;
        assert(q <= 3);
        assert(q * (7 + 3 * bits) <= 3 * (7 + 3 * bits)) by (nonlinear_arith)
            requires
                q <= 3,
                bits >= 0,
        ;
    } else {
        assert(count * bits <= 8 * 8) by (nonlinear_arith)
            requires
                count <= 8,
                0 <= bits <= 8,
        ;
    }
}

/// Bit-budget invariant: for every packable block, the configuration bits,
/// the weight bits and the endpoint allotment account for the 128 bits of
/// the block exactly, and the encoded endpoints fit inside their allotment.
pub proof fn lemma_bit_budget(b: AstcBlock)
    requires
        b.wf(),
    ensures
        b.spec_config_bits() + b.spec_weight_bits() + b.spec_endpoint_allotment() == 128,
        spec_sequence_bits(2 * b.spec_cem_pairs(), b.endpoint_range as int)
            <= b.spec_endpoint_allotment(),
        b.spec_config_bits() + b.spec_weight_bits() + spec_sequence_bits(
            2 * b.spec_cem_pairs(),
            b.endpoint_range as int,
        ) <= 128,
{
}

} // verus!
