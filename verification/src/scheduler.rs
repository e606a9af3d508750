//! The GPU task scheduler's decision core: task validation and queueing,
//! alignment-aware buffer sizing with grow-only capacities, the packed byte
//! images uploaded to the per-task uniform and per-variant settings buffers,
//! and the per-task bind-group offsets and dispatch sizes. The surrounding
//! GPU backend executes the plan; everything it needs is computed here.

use vstd::prelude::*;

use crate::settings::ASTCSettings;
use crate::settings::BC6HSettings;
use crate::settings::BC7Settings;
use crate::CompressionVariant;

verus! {

/// Bytes of one packed per-task uniform record: width, height, row offset
/// and destination word offset.
pub const UNIFORMS_SIZE: usize = 16;

/// Bytes of one packed BC6H settings record.
pub const BC6H_SETTINGS_SIZE: usize = 20;

/// Bytes of one packed BC7 settings record.
pub const BC7_SETTINGS_SIZE: usize = 76;

/// Bytes of one packed ASTC settings record.
pub const ASTC_SETTINGS_SIZE: usize = 20;

/// One queued compression task: the variant, the source view and
/// destination buffer (as caller-chosen handles), the source dimensions, the
/// row offset into the source and the byte offset into the destination.
#[derive(Clone, Copy, Debug)]
pub struct CompressionTask {
    pub variant: CompressionVariant,
    pub texture_id: u32,
    pub buffer_id: u32,
    pub width: u32,
    pub height: u32,
    pub texture_y_offset: u32,
    pub blocks_offset: u32,
}

/// Why a task submission was rejected.
#[derive(Clone, Copy, Debug, PartialEq, Eq, Structural)]
pub enum TaskError {
    MisalignedHeight,
    MisalignedWidth,
    MisalignedRowOffset,
    NotStorageBuffer,
    BufferTooSmall,
}

/// One recorded dispatch: which pipeline to bind, the dynamic offsets of the
/// task's uniform and settings records, and the workgroup grid covering the
/// task's block grid.
#[derive(Clone, Copy, Debug)]
pub struct DispatchStep {
    pub variant: CompressionVariant,
    pub texture_id: u32,
    pub buffer_id: u32,
    pub uniform_offset: u32,
    pub settings_offset: Option<u32>,
    pub workgroups_x: u32,
    pub workgroups_y: u32,
    pub workgroups_z: u32,
}

/// Everything one flush asks of the GPU backend: the capacities the buffers
/// must have grown to, the byte images to upload, and the dispatches to
/// record, in submission order.
pub struct FlushPlan {
    pub uniforms_capacity: u64,
    pub bc6h_capacity: u64,
    pub bc7_capacity: u64,
    pub astc_capacity: u64,
    pub uniforms_data: Vec<u8>,
    pub bc6h_data: Vec<u8>,
    pub bc7_data: Vec<u8>,
    pub astc_data: Vec<u8>,
    pub steps: Vec<DispatchStep>,
}

/// Accepts compression tasks and, on flush, plans the batched upload and the
/// dispatches. Buffer capacities only ever grow: a flush enlarges them to
/// its exact need and never shrinks them back.
pub struct GpuTaskScheduler {
    pub tasks: Vec<CompressionTask>,
    pub uniforms_aligned_size: usize,
    pub bc6h_aligned_size: usize,
    pub bc7_aligned_size: usize,
    pub astc_aligned_size: usize,
    pub uniforms_capacity: u64,
    pub bc6h_capacity: u64,
    pub bc7_capacity: u64,
    pub astc_capacity: u64,
}

/// The least multiple of `alignment` that holds `size` bytes.
pub open spec fn spec_align_up(size: int, alignment: int) -> int {
    ((size + alignment - 1) / alignment) * alignment
}

fn align_up(size: usize, alignment: usize) -> (r: usize)
    requires
        1 <= size <= 128,
        1 <= alignment <= 4096,
    ensures
        r == spec_align_up(size as int, alignment as int),
        size <= r < size + alignment,
        r <= 8192,
{
    let q = (size + alignment - 1) / alignment;
    proof {
        assert(q * alignment == spec_align_up(size as int, alignment as int));
        assert(size <= q * alignment && q * alignment <= size + alignment - 1) by (nonlinear_arith)
            requires
                q == (size + alignment - 1) as int / (alignment as int),
                1 <= alignment,
                1 <= size,
        ;
    }
    q * alignment
}

/// The little-endian bytes of a word.
pub open spec fn spec_u32_le(v: u32) -> Seq<u8> {
    seq![
        (v & 0xFF) as u8,
        ((v >> 8u32) & 0xFF) as u8,
        ((v >> 16u32) & 0xFF) as u8,
        ((v >> 24u32) & 0xFF) as u8,
    ]
}

fn push_u32_le(data: &mut Vec<u8>, v: u32)
    ensures
        final(data)@ == old(data)@ + spec_u32_le(v),
{
    proof {
        assert(forall|x: u32| #[trigger] (x & 0xFF) < 256) by (bit_vector);
    }
    data.push((v & 0xFF) as u8);
    data.push(((v >> 8u32) & 0xFF) as u8);
    data.push(((v >> 16u32) & 0xFF) as u8);
    data.push(((v >> 24u32) & 0xFF) as u8);
    assert(data@ =~= old(data)@ + spec_u32_le(v));
}

/// A run of zero padding bytes.
pub open spec fn spec_zero_pad(n: int) -> Seq<u8> {
    Seq::new(n as nat, |i: int| 0u8)
}

fn push_zero_pad(data: &mut Vec<u8>, n: usize)
    ensures
        final(data)@ == old(data)@ + spec_zero_pad(n as int),
{
    let mut i: usize = 0;
    while i < n
        invariant
            i <= n,
            data@ == old(data)@ + spec_zero_pad(i as int),
        decreases n - i,
    {
        data.push(0);
        proof {
            assert(old(data)@ + spec_zero_pad(i + 1) =~= (old(data)@ + spec_zero_pad(i as int)).push(
                0u8,
            ));
        }
        i = i + 1;
    }
}

/// The fixed-layout uniform record of one task: source width and height,
/// source row offset, and the destination offset in words.
pub open spec fn spec_uniform_record(t: CompressionTask) -> Seq<u8> {
    spec_u32_le(t.width) + spec_u32_le(t.height) + spec_u32_le(t.texture_y_offset) + spec_u32_le(
        t.blocks_offset / 4,
    )
}

/// The packed BC6H settings record, fields in declaration order.
pub open spec fn spec_bc6h_record(s: BC6HSettings) -> Seq<u8> {
    spec_u32_le(s.slow_mode) + spec_u32_le(s.fast_mode) + spec_u32_le(s.refine_iterations_1p)
        + spec_u32_le(s.refine_iterations_2p) + spec_u32_le(s.fast_skip_threshold)
}

/// The packed BC7 settings record, fields in declaration order.
pub open spec fn spec_bc7_record(s: BC7Settings) -> Seq<u8> {
    spec_u32_le(s.refine_iterations[0]) + spec_u32_le(s.refine_iterations[1]) + spec_u32_le(
        s.refine_iterations[2],
    ) + spec_u32_le(s.refine_iterations[3]) + spec_u32_le(s.refine_iterations[4]) + spec_u32_le(
        s.refine_iterations[5],
    ) + spec_u32_le(s.refine_iterations[6]) + spec_u32_le(s.refine_iterations[7]) + spec_u32_le(
        s.mode_selection[0],
    ) + spec_u32_le(s.mode_selection[1]) + spec_u32_le(s.mode_selection[2]) + spec_u32_le(
        s.mode_selection[3],
    ) + spec_u32_le(s.skip_mode2) + spec_u32_le(s.fast_skip_threshold_mode1) + spec_u32_le(
        s.fast_skip_threshold_mode3,
    ) + spec_u32_le(s.fast_skip_threshold_mode7) + spec_u32_le(s.mode45_channel0) + spec_u32_le(
        s.refine_iterations_channel,
    ) + spec_u32_le(s.channels)
}

/// The packed ASTC settings record, fields in declaration order.
pub open spec fn spec_astc_record(s: ASTCSettings) -> Seq<u8> {
    spec_u32_le(s.block_width) + spec_u32_le(s.block_height) + spec_u32_le(s.channels)
        + spec_u32_le(s.fast_skip_threshold) + spec_u32_le(s.refine_iterations)
}

fn push_uniform_record(data: &mut Vec<u8>, t: CompressionTask)
    ensures
        final(data)@ == old(data)@ + spec_uniform_record(t),
{
    push_u32_le(data, t.width);
    push_u32_le(data, t.height);
    push_u32_le(data, t.texture_y_offset);
    push_u32_le(data, t.blocks_offset / 4);
    assert(data@ =~= old(data)@ + spec_uniform_record(t));
}

fn push_bc6h_record(data: &mut Vec<u8>, s: BC6HSettings)
    ensures
        final(data)@ == old(data)@ + spec_bc6h_record(s),
{
    push_u32_le(data, s.slow_mode);
    push_u32_le(data, s.fast_mode);
    push_u32_le(data, s.refine_iterations_1p);
    push_u32_le(data, s.refine_iterations_2p);
    push_u32_le(data, s.fast_skip_threshold);
    assert(data@ =~= old(data)@ + spec_bc6h_record(s));
}

fn push_bc7_record(data: &mut Vec<u8>, s: BC7Settings)
    ensures
        final(data)@ == old(data)@ + spec_bc7_record(s),
{
    push_u32_le(data, s.refine_iterations[0]);
    push_u32_le(data, s.refine_iterations[1]);
    push_u32_le(data, s.refine_iterations[2]);
    push_u32_le(data, s.refine_iterations[3]);
    push_u32_le(data, s.refine_iterations[4]);
    push_u32_le(data, s.refine_iterations[5]);
    push_u32_le(data, s.refine_iterations[6]);
    push_u32_le(data, s.refine_iterations[7]);
    push_u32_le(data, s.mode_selection[0]);
    push_u32_le(data, s.mode_selection[1]);
    push_u32_le(data, s.mode_selection[2]);
    push_u32_le(data, s.mode_selection[3]);
    push_u32_le(data, s.skip_mode2);
    push_u32_le(data, s.fast_skip_threshold_mode1);
    push_u32_le(data, s.fast_skip_threshold_mode3);
    push_u32_le(data, s.fast_skip_threshold_mode7);
    push_u32_le(data, s.mode45_channel0);
    push_u32_le(data, s.refine_iterations_channel);
    push_u32_le(data, s.channels);
    assert(data@ =~= old(data)@ + spec_bc7_record(s));
}

fn push_astc_record(data: &mut Vec<u8>, s: ASTCSettings)
    ensures
        final(data)@ == old(data)@ + spec_astc_record(s),
{
    push_u32_le(data, s.block_width);
    push_u32_le(data, s.block_height);
    push_u32_le(data, s.channels);
    push_u32_le(data, s.fast_skip_threshold);
    push_u32_le(data, s.refine_iterations);
    assert(data@ =~= old(data)@ + spec_astc_record(s));
}

/// How many of the queued tasks use the given variant tag.
pub open spec fn spec_tag_count(tasks: Seq<CompressionTask>, tag: int) -> int
    decreases tasks.len(),
{
    if tasks.len() == 0 {
        0
    } else {
        spec_tag_count(tasks.drop_last(), tag) + (if tasks.last().variant.tag() == tag {
            1int
        } else {
            0
        })
    }
}

/// The byte image of the uniforms upload: one aligned record per task, in
/// submission order, padded with zeros to the aligned record size.
pub open spec fn spec_uniforms_image(tasks: Seq<CompressionTask>, aligned: int) -> Seq<u8>
    decreases tasks.len(),
{
    if tasks.len() == 0 {
        Seq::empty()
    } else {
        spec_uniforms_image(tasks.drop_last(), aligned) + spec_uniform_record(tasks.last())
            + spec_zero_pad(aligned - 16)
    }
}

/// The byte image of the BC6H settings upload: one aligned record per BC6H
/// task, in submission order.
pub open spec fn spec_bc6h_image(tasks: Seq<CompressionTask>, aligned: int) -> Seq<u8>
    decreases tasks.len(),
{
    if tasks.len() == 0 {
        Seq::empty()
    } else {
        spec_bc6h_image(tasks.drop_last(), aligned) + (match tasks.last().variant {
            CompressionVariant::BC6H(s) => spec_bc6h_record(s) + spec_zero_pad(aligned - 20),
            _ => Seq::empty(),
        })
    }
}

/// The byte image of the BC7 settings upload: one aligned record per BC7
/// task, in submission order.
pub open spec fn spec_bc7_image(tasks: Seq<CompressionTask>, aligned: int) -> Seq<u8>
    decreases tasks.len(),
{
    if tasks.len() == 0 {
        Seq::empty()
    } else {
        spec_bc7_image(tasks.drop_last(), aligned) + (match tasks.last().variant {
            CompressionVariant::BC7(s) => spec_bc7_record(s) + spec_zero_pad(aligned - 76),
            _ => Seq::empty(),
        })
    }
}

/// The byte image of the ASTC settings upload: one aligned record per ASTC
/// task, in submission order.
pub open spec fn spec_astc_image(tasks: Seq<CompressionTask>, aligned: int) -> Seq<u8>
    decreases tasks.len(),
{
    if tasks.len() == 0 {
        Seq::empty()
    } else {
        spec_astc_image(tasks.drop_last(), aligned) + (match tasks.last().variant {
            CompressionVariant::ASTC(s) => spec_astc_record(s) + spec_zero_pad(aligned - 20),
            _ => Seq::empty(),
        })
    }
}

/// A capacity grown to meet a requirement: enlarged exactly when the
/// requirement exceeds it, never shrunk.
pub open spec fn spec_grown(capacity: u64, required: int) -> int {
    if required > capacity {
        required
    } else {
        capacity as int
    }
}

/// Workgroups along one axis: the axis is split into 4-texel blocks and the
/// blocks into groups of 8, both divisions rounding up.
pub open spec fn spec_workgroups(len: u32) -> int {
    ((len + 3) / 4 + 7) / 8
}

/// The dynamic settings-buffer offset a task binds, if its variant carries
/// settings: its record's slot among the earlier tasks of the same tag.
pub open spec fn spec_settings_offset(
    tasks: Seq<CompressionTask>,
    i: int,
    a6: int,
    a7: int,
    aa: int,
) -> Option<u32> {
    match tasks[i].variant {
        CompressionVariant::BC6H(_) => Some((spec_tag_count(tasks.take(i), 6) * a6) as u32),
        CompressionVariant::BC7(_) => Some((spec_tag_count(tasks.take(i), 7) * a7) as u32),
        CompressionVariant::ASTC(_) => Some((spec_tag_count(tasks.take(i), 0) * aa) as u32),
        _ => None,
    }
}

/// The validation applied to one submitted task, in order: dimensions and
/// row offset must be whole multiples of the variant's block size, the
/// destination must be a storage buffer, and it must have room for the
/// compressed blocks at the given offset.
pub open spec fn spec_validate_task(
    variant: CompressionVariant,
    width: u32,
    height: u32,
    texture_y_offset: u32,
    blocks_offset: u32,
    buffer_size: u64,
    buffer_is_storage: bool,
) -> Result<(), TaskError> {
    if height % variant.spec_block_height() != 0 {
        Err(TaskError::MisalignedHeight)
    } else if width % variant.spec_block_width() != 0 {
        Err(TaskError::MisalignedWidth)
    } else if texture_y_offset % variant.spec_block_height() != 0 {
        Err(TaskError::MisalignedRowOffset)
    } else if !buffer_is_storage {
        Err(TaskError::NotStorageBuffer)
    } else if (buffer_size as int) < blocks_offset + variant.spec_blocks_byte_size(width, height) {
        Err(TaskError::BufferTooSmall)
    } else {
        Ok(())
    }
}

impl GpuTaskScheduler {
    /// Aligned record sizes are in place and small enough that record
    /// offsets stay in range.
    pub open spec fn wf(self) -> bool {
        &&& 16 <= self.uniforms_aligned_size <= 8192
        &&& 20 <= self.bc6h_aligned_size <= 8192
        &&& 76 <= self.bc7_aligned_size <= 8192
        &&& 20 <= self.astc_aligned_size <= 8192
    }

    /// Creates a scheduler for a device with the given minimum uniform- and
    /// storage-buffer offset alignments. Buffers start with room for 16
    /// records each.
    pub fn new(uniform_alignment: usize, storage_alignment: usize) -> (r: Self)
        requires
            1 <= uniform_alignment <= 4096,
            1 <= storage_alignment <= 4096,
        ensures
            r.wf(),
            r.tasks@.len() == 0,
            r.uniforms_aligned_size == spec_align_up(16, uniform_alignment as int),
            r.bc6h_aligned_size == spec_align_up(20, storage_alignment as int),
            r.bc7_aligned_size == spec_align_up(76, storage_alignment as int),
            r.astc_aligned_size == spec_align_up(20, storage_alignment as int),
            r.uniforms_capacity == r.uniforms_aligned_size * 16,
            r.bc6h_capacity == r.bc6h_aligned_size * 16,
            r.bc7_capacity == r.bc7_aligned_size * 16,
            r.astc_capacity == r.astc_aligned_size * 16,
    {
        let uniforms_aligned_size = align_up(UNIFORMS_SIZE, uniform_alignment);
        let bc6h_aligned_size = align_up(BC6H_SETTINGS_SIZE, storage_alignment);
        let bc7_aligned_size = align_up(BC7_SETTINGS_SIZE, storage_alignment);
        let astc_aligned_size = align_up(ASTC_SETTINGS_SIZE, storage_alignment);
        GpuTaskScheduler {
            tasks: Vec::new(),
            uniforms_aligned_size,
            bc6h_aligned_size,
            bc7_aligned_size,
            astc_aligned_size,
            uniforms_capacity: (uniforms_aligned_size * 16) as u64,
            bc6h_capacity: (bc6h_aligned_size * 16) as u64,
            bc7_capacity: (bc7_aligned_size * 16) as u64,
            astc_capacity: (astc_aligned_size * 16) as u64,
        }
    }

    /// Adds a texture compression task to the queue, or rejects it: the
    /// dimensions and row offset must be multiples of the variant's block
    /// size, and the destination buffer must be a writable storage buffer
    /// with room for the compressed blocks at the given offset. A rejected
    /// task is not queued.
    pub fn add_compression_task(
        &mut self,
        variant: CompressionVariant,
        texture_id: u32,
        width: u32,
        height: u32,
        buffer_id: u32,
        buffer_size: u64,
        buffer_is_storage: bool,
        texture_y_offset: Option<u32>,
        blocks_offset: Option<u32>,
    ) -> (r: Result<(), TaskError>)
        requires
            variant.wf(),
            variant.spec_blocks_byte_size(width, height) <= usize::MAX,
        ensures
            ({
                let y_off = if texture_y_offset is Some {
                    texture_y_offset->0
                } else {
                    0
                };
                let b_off = if blocks_offset is Some {
                    blocks_offset->0
                } else {
                    0
                };
                let check = spec_validate_task(
                    variant,
                    width,
                    height,
                    y_off,
                    b_off,
                    buffer_size,
                    buffer_is_storage,
                );
                &&& r == check
                &&& (r is Ok ==> final(self).tasks@ == old(self).tasks@.push(
                    CompressionTask {
                        variant,
                        texture_id,
                        buffer_id,
                        width,
                        height,
                        texture_y_offset: y_off,
                        blocks_offset: b_off,
                    },
                ))
                &&& (r is Err ==> final(self).tasks@ == old(self).tasks@)
            }),
            final(self).uniforms_aligned_size == old(self).uniforms_aligned_size,
            final(self).bc6h_aligned_size == old(self).bc6h_aligned_size,
            final(self).bc7_aligned_size == old(self).bc7_aligned_size,
            final(self).astc_aligned_size == old(self).astc_aligned_size,
            final(self).uniforms_capacity == old(self).uniforms_capacity,
            final(self).bc6h_capacity == old(self).bc6h_capacity,
            final(self).bc7_capacity == old(self).bc7_capacity,
            final(self).astc_capacity == old(self).astc_capacity,
    {
        let y_off = match texture_y_offset {
            Some(v) => v,
            None => 0,
        };
        let b_off = match blocks_offset {
            Some(v) => v,
            None => 0,
        };
        let block_width = match variant {
            CompressionVariant::ASTC(s) => s.block_width,
            _ => 4,
        };
        let block_height = match variant {
            CompressionVariant::ASTC(s) => s.block_height,
            _ => 4,
        };
        if height % block_height != 0 {
            return Err(TaskError::MisalignedHeight);
        }
        if width % block_width != 0 {
            return Err(TaskError::MisalignedWidth);
        }
        if y_off % block_height != 0 {
            return Err(TaskError::MisalignedRowOffset);
        }
        if !buffer_is_storage {
            return Err(TaskError::NotStorageBuffer);
        }
        let required_size = variant.blocks_byte_size(width, height);
        let required_size_u64 = required_size as u64;
        let b_off_u64 = b_off as u64;
        if buffer_size < required_size_u64 || buffer_size - required_size_u64 < b_off_u64 {
            return Err(TaskError::BufferTooSmall);
        }
        self.tasks.push(
            CompressionTask {
                variant,
                texture_id,
                buffer_id,
                width,
                height,
                texture_y_offset: y_off,
                blocks_offset: b_off,
            },
        );
        Ok(())
    }

    /// Plans one flush of all queued tasks: grows the buffer capacities to
    /// this flush's exact requirement (never shrinking), packs every task's
    /// uniform record and every settings-bearing task's settings record at
    /// its aligned slot, and lays out one dispatch per task in submission
    /// order, each sized to cover the task's block grid. The queue is left
    /// empty.
    #[verifier::rlimit(60)]
    pub fn flush(&mut self) -> (plan: FlushPlan)
        requires
            old(self).wf(),
            old(self).tasks@.len() <= 0x0007_FFFF,
        ensures
            final(self).wf(),
            final(self).tasks@.len() == 0,
            final(self).uniforms_aligned_size == old(self).uniforms_aligned_size,
            final(self).bc6h_aligned_size == old(self).bc6h_aligned_size,
            final(self).bc7_aligned_size == old(self).bc7_aligned_size,
            final(self).astc_aligned_size == old(self).astc_aligned_size,
            final(self).uniforms_capacity == spec_grown(
                old(self).uniforms_capacity,
                old(self).tasks@.len() * old(self).uniforms_aligned_size,
            ),
            final(self).bc6h_capacity == spec_grown(
                old(self).bc6h_capacity,
                spec_tag_count(old(self).tasks@, 6) * old(self).bc6h_aligned_size,
            ),
            final(self).bc7_capacity == spec_grown(
                old(self).bc7_capacity,
                spec_tag_count(old(self).tasks@, 7) * old(self).bc7_aligned_size,
            ),
            final(self).astc_capacity == spec_grown(
                old(self).astc_capacity,
                spec_tag_count(old(self).tasks@, 0) * old(self).astc_aligned_size,
            ),
            final(self).uniforms_capacity >= old(self).uniforms_capacity,
            final(self).bc6h_capacity >= old(self).bc6h_capacity,
            final(self).bc7_capacity >= old(self).bc7_capacity,
            final(self).astc_capacity >= old(self).astc_capacity,
            plan.uniforms_capacity == final(self).uniforms_capacity,
            plan.bc6h_capacity == final(self).bc6h_capacity,
            plan.bc7_capacity == final(self).bc7_capacity,
            plan.astc_capacity == final(self).astc_capacity,
            plan.uniforms_data@ == spec_uniforms_image(
                old(self).tasks@,
                old(self).uniforms_aligned_size as int,
            ),
            plan.bc6h_data@ == spec_bc6h_image(
                old(self).tasks@,
                old(self).bc6h_aligned_size as int,
            ),
            plan.bc7_data@ == spec_bc7_image(old(self).tasks@, old(self).bc7_aligned_size as int),
            plan.astc_data@ == spec_astc_image(
                old(self).tasks@,
                old(self).astc_aligned_size as int,
            ),
            plan.steps@.len() == old(self).tasks@.len(),
            forall|i: int|
                0 <= i < old(self).tasks@.len() ==> {
                    let t = old(self).tasks@[i];
                    let step = #[trigger] plan.steps@[i];
                    &&& step.variant == t.variant
                    &&& step.texture_id == t.texture_id
                    &&& step.buffer_id == t.buffer_id
                    &&& step.uniform_offset == i * old(self).uniforms_aligned_size
                    &&& step.settings_offset == spec_settings_offset(
                        old(self).tasks@,
                        i,
                        old(self).bc6h_aligned_size as int,
                        old(self).bc7_aligned_size as int,
                        old(self).astc_aligned_size as int,
                    )
                    &&& step.workgroups_x == spec_workgroups(t.width)
                    &&& step.workgroups_y == spec_workgroups(t.height)
                    &&& step.workgroups_z == 1
                },
    {
        let n = self.tasks.len();
        let ghost tasks0 = self.tasks@;

        let mut uniforms_data: Vec<u8> = Vec::new();
        let mut bc6h_data: Vec<u8> = Vec::new();
        let mut bc7_data: Vec<u8> = Vec::new();
        let mut astc_data: Vec<u8> = Vec::new();
        let mut steps: Vec<DispatchStep> = Vec::new();

        let mut uniform_offset: usize = 0;
        let mut count6: usize = 0;
        let mut count7: usize = 0;
        let mut counta: usize = 0;

        let ua = self.uniforms_aligned_size;
        let a6 = self.bc6h_aligned_size;
        let a7 = self.bc7_aligned_size;
        let aa = self.astc_aligned_size;

        let mut i: usize = 0;
        while i < n
            invariant
                self == old(self),
                self.wf(),
                tasks0 == self.tasks@,
                n == tasks0.len() <= 0x0007_FFFF,
                ua == self.uniforms_aligned_size,
                a6 == self.bc6h_aligned_size,
                a7 == self.bc7_aligned_size,
                aa == self.astc_aligned_size,
                i <= n,
                uniform_offset == i * ua,
                count6 == spec_tag_count(tasks0.take(i as int), 6),
                count7 == spec_tag_count(tasks0.take(i as int), 7),
                counta == spec_tag_count(tasks0.take(i as int), 0),
                count6 <= i,
                count7 <= i,
                counta <= i,
                uniforms_data@ == spec_uniforms_image(tasks0.take(i as int), ua as int),
                bc6h_data@ == spec_bc6h_image(tasks0.take(i as int), a6 as int),
                bc7_data@ == spec_bc7_image(tasks0.take(i as int), a7 as int),
                astc_data@ == spec_astc_image(tasks0.take(i as int), aa as int),
                steps@.len() == i,
                forall|j: int|
                    0 <= j < i ==> {
                        let t = tasks0[j];
                        let step = #[trigger] steps@[j];
                        &&& step.variant == t.variant
                        &&& step.texture_id == t.texture_id
                        &&& step.buffer_id == t.buffer_id
                        &&& step.uniform_offset == j * ua
                        &&& step.settings_offset == spec_settings_offset(
                            tasks0,
                            j,
                            a6 as int,
                            a7 as int,
                            aa as int,
                        )
                        &&& step.workgroups_x == spec_workgroups(t.width)
                        &&& step.workgroups_y == spec_workgroups(t.height)
                        &&& step.workgroups_z == 1
                    },
            decreases n - i,
        {
            let task = self.tasks[i];
            proof {
                assert(tasks0.take(i + 1).drop_last() =~= tasks0.take(i as int));
                assert(tasks0.take(i + 1).last() == tasks0[i as int]);
                assert((i + 1) * ua == i * ua + ua) by (nonlinear_arith);
                assert((i + 1) * ua <= 0x0007_FFFF * 8192) by (nonlinear_arith)
                    requires
                        i + 1 <= 0x0007_FFFF,
                        0 <= ua <= 8192,
                ;
                assert(count6 * a6 <= 0x0007_FFFF * 8192) by (nonlinear_arith)
                    requires
                        count6 <= 0x0007_FFFF,
                        0 <= a6 <= 8192,
                ;
                assert(count7 * a7 <= 0x0007_FFFF * 8192) by (nonlinear_arith)
                    requires
                        count7 <= 0x0007_FFFF,
                        0 <= a7 <= 8192,
                ;
                assert(counta * aa <= 0x0007_FFFF * 8192) by (nonlinear_arith)
                    requires
                        counta <= 0x0007_FFFF,
                        0 <= aa <= 8192,
                ;
                assert((count6 + 1) * a6 == count6 * a6 + a6) by (nonlinear_arith);
                assert((count7 + 1) * a7 == count7 * a7 + a7) by (nonlinear_arith);
                assert((counta + 1) * aa == counta * aa + aa) by (nonlinear_arith);
            }

            push_uniform_record(&mut uniforms_data, task);
            push_zero_pad(&mut uniforms_data, ua - 16);
            proof {
                assert(uniforms_data@ =~= spec_uniforms_image(tasks0.take(i + 1), ua as int));
            }

            let settings_offset: Option<u32> = match task.variant {
                CompressionVariant::BC6H(s) => {
                    let off = (count6 * a6) as u32;
                    push_bc6h_record(&mut bc6h_data, s);
                    push_zero_pad(&mut bc6h_data, a6 - 20);
                    count6 = count6 + 1;
                    Some(off)
                },
                CompressionVariant::BC7(s) => {
                    let off = (count7 * a7) as u32;
                    push_bc7_record(&mut bc7_data, s);
                    push_zero_pad(&mut bc7_data, a7 - 76);
                    count7 = count7 + 1;
                    Some(off)
                },
                CompressionVariant::ASTC(s) => {
                    let off = (counta * aa) as u32;
                    push_astc_record(&mut astc_data, s);
                    push_zero_pad(&mut astc_data, aa - 20);
                    counta = counta + 1;
                    Some(off)
                },
                _ => None,
            };
            proof {
                assert(bc6h_data@ =~= spec_bc6h_image(tasks0.take(i + 1), a6 as int));
                assert(bc7_data@ =~= spec_bc7_image(tasks0.take(i + 1), a7 as int));
                assert(astc_data@ =~= spec_astc_image(tasks0.take(i + 1), aa as int));
            }

            let block_width = task.width / 4 + if task.width % 4 != 0 {
                1
            } else {
                0
            };
            let block_height = task.height / 4 + if task.height % 4 != 0 {
                1
            } else {
                0
            };
            let workgroups_x = block_width / 8 + if block_width % 8 != 0 {
                1
            } else {
                0
            };
            let workgroups_y = block_height / 8 + if block_height % 8 != 0 {
                1
            } else {
                0
            };

            steps.push(
                DispatchStep {
                    variant: task.variant,
                    texture_id: task.texture_id,
                    buffer_id: task.buffer_id,
                    uniform_offset: uniform_offset as u32,
                    settings_offset,
                    workgroups_x,
                    workgroups_y,
                    workgroups_z: 1,
                },
            );
            proof {
                assert(tasks0.take(i as int) =~= tasks0.take(i + 1).take(i as int));
            }
            uniform_offset = uniform_offset + ua;
            i = i + 1;
        }
        proof {
            assert(tasks0.take(n as int) =~= tasks0);
        }

        proof {
            assert(n * ua <= 0x0007_FFFF * 8192) by (nonlinear_arith)
                requires
                    n <= 0x0007_FFFF,
                    0 <= ua <= 8192,
            ;
            assert(count6 * a6 <= 0x0007_FFFF * 8192) by (nonlinear_arith)
                requires
                    count6 <= 0x0007_FFFF,
                    0 <= a6 <= 8192,
            ;
            assert(count7 * a7 <= 0x0007_FFFF * 8192) by (nonlinear_arith)
                requires
                    count7 <= 0x0007_FFFF,
                    0 <= a7 <= 8192,
            ;
            assert(counta * aa <= 0x0007_FFFF * 8192) by (nonlinear_arith)
                requires
                    counta <= 0x0007_FFFF,
                    0 <= aa <= 8192,
            ;
        }
        let required_u = (n * ua) as u64;
        let required_6 = (count6 * a6) as u64;
        let required_7 = (count7 * a7) as u64;
        let required_a = (counta * aa) as u64;
        if required_u > self.uniforms_capacity {
            self.uniforms_capacity = required_u;
        }
        if required_6 > self.bc6h_capacity {
            self.bc6h_capacity = required_6;
        }
        if required_7 > self.bc7_capacity {
            self.bc7_capacity = required_7;
        }
        if required_a > self.astc_capacity {
            self.astc_capacity = required_a;
        }
        self.tasks.clear();

        FlushPlan {
            uniforms_capacity: self.uniforms_capacity,
            bc6h_capacity: self.bc6h_capacity,
            bc7_capacity: self.bc7_capacity,
            astc_capacity: self.astc_capacity,
            uniforms_data,
            bc6h_data,
            bc7_data,
            astc_data,
            steps,
        }
    }
}

} // verus!
