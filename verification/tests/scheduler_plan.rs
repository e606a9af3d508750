//! Scheduler behavior: task validation, buffer growth across flushes, and
//! the planned uploads and dispatches for a batch of tasks.

use block_compression::{
    ASTCBlockSize, ASTCSettings, BC7Settings, CompressionVariant, GpuTaskScheduler, TaskError,
};

fn add_bc1_task(scheduler: &mut GpuTaskScheduler, texture_id: u32, blocks_offset: Option<u32>) {
    let r = scheduler.add_compression_task(
        CompressionVariant::BC1,
        texture_id,
        64,
        64,
        7,
        1 << 20,
        true,
        None,
        blocks_offset,
    );
    assert!(r.is_ok());
}

#[test]
fn rejects_misaligned_and_undersized_tasks() {
    let mut scheduler = GpuTaskScheduler::new(256, 256);

    let r = scheduler.add_compression_task(
        CompressionVariant::BC1,
        0,
        64,
        63,
        0,
        1 << 20,
        true,
        None,
        None,
    );
    assert_eq!(r, Err(TaskError::MisalignedHeight));

    let r = scheduler.add_compression_task(
        CompressionVariant::BC1,
        0,
        63,
        64,
        0,
        1 << 20,
        true,
        None,
        None,
    );
    assert_eq!(r, Err(TaskError::MisalignedWidth));

    let r = scheduler.add_compression_task(
        CompressionVariant::BC1,
        0,
        64,
        64,
        0,
        1 << 20,
        true,
        Some(2),
        None,
    );
    assert_eq!(r, Err(TaskError::MisalignedRowOffset));

    let r = scheduler.add_compression_task(
        CompressionVariant::BC1,
        0,
        64,
        64,
        0,
        1 << 20,
        false,
        None,
        None,
    );
    assert_eq!(r, Err(TaskError::NotStorageBuffer));

    // 64x64 BC1 output needs 2048 bytes; offset 1024 into a 2048-byte buffer
    // leaves too little room.
    let r = scheduler.add_compression_task(
        CompressionVariant::BC1,
        0,
        64,
        64,
        0,
        2048,
        true,
        None,
        Some(1024),
    );
    assert_eq!(r, Err(TaskError::BufferTooSmall));

    // Nothing was queued.
    assert_eq!(scheduler.tasks.len(), 0);
}

#[test]
fn astc_tasks_validate_against_their_block_footprint() {
    let mut scheduler = GpuTaskScheduler::new(256, 256);
    let astc = CompressionVariant::ASTC(ASTCSettings::alpha_fast(ASTCBlockSize::_5x5));

    let r = scheduler.add_compression_task(astc, 0, 10, 10, 0, 1 << 20, true, None, None);
    assert!(r.is_ok());

    let r = scheduler.add_compression_task(astc, 0, 9, 10, 0, 1 << 20, true, None, None);
    assert_eq!(r, Err(TaskError::MisalignedWidth));

    let r = scheduler.add_compression_task(astc, 0, 10, 12, 0, 1 << 20, true, None, None);
    assert_eq!(r, Err(TaskError::MisalignedHeight));
}

#[test]
fn buffer_capacities_grow_and_never_shrink() {
    let mut scheduler = GpuTaskScheduler::new(256, 256);
    assert_eq!(scheduler.uniforms_aligned_size, 256);
    // Initial room for 16 records.
    assert_eq!(scheduler.uniforms_capacity, 4096);

    // A flush that fits the initial capacity leaves it unchanged.
    for i in 0..10 {
        add_bc1_task(&mut scheduler, i, None);
    }
    let plan = scheduler.flush();
    assert_eq!(plan.uniforms_capacity, 4096);
    assert!(plan.uniforms_capacity >= 10 * 256);
    assert_eq!(scheduler.tasks.len(), 0);

    // A larger flush grows the capacity to its exact need.
    for i in 0..20 {
        add_bc1_task(&mut scheduler, i, None);
    }
    let plan = scheduler.flush();
    assert_eq!(plan.uniforms_capacity, 20 * 256);
    assert_eq!(scheduler.uniforms_capacity, 5120);

    // A smaller flush never shrinks it back.
    for i in 0..2 {
        add_bc1_task(&mut scheduler, i, None);
    }
    let plan = scheduler.flush();
    assert_eq!(plan.uniforms_capacity, 5120);
    assert!(plan.uniforms_capacity >= 2 * 256);
}

#[test]
fn two_task_flush_plans_contiguous_destinations() {
    let mut scheduler = GpuTaskScheduler::new(256, 256);

    // Two sources into one destination buffer at contiguous offsets computed
    // from the exact compressed size.
    let size = CompressionVariant::BC1.blocks_byte_size(64, 64) as u32;
    assert_eq!(size, 2048);
    add_bc1_task(&mut scheduler, 1, None);
    add_bc1_task(&mut scheduler, 2, Some(size));

    let plan = scheduler.flush();
    assert_eq!(plan.steps.len(), 2);

    // Dispatches come in submission order with their own dynamic offsets.
    assert_eq!(plan.steps[0].texture_id, 1);
    assert_eq!(plan.steps[1].texture_id, 2);
    assert_eq!(plan.steps[0].uniform_offset, 0);
    assert_eq!(plan.steps[1].uniform_offset, 256);
    assert_eq!(plan.steps[0].settings_offset, None);
    assert_eq!(plan.steps[1].settings_offset, None);

    // 64 pixels: 16 blocks of 4, in 2 workgroups of 8.
    assert_eq!(plan.steps[0].workgroups_x, 2);
    assert_eq!(plan.steps[0].workgroups_y, 2);
    assert_eq!(plan.steps[0].workgroups_z, 1);

    // One aligned uniform record per task.
    assert_eq!(plan.uniforms_data.len(), 512);
    // First record: width 64, height 64, row offset 0, word offset 0.
    assert_eq!(&plan.uniforms_data[0..4], &[64, 0, 0, 0]);
    assert_eq!(&plan.uniforms_data[4..8], &[64, 0, 0, 0]);
    assert_eq!(&plan.uniforms_data[8..12], &[0, 0, 0, 0]);
    assert_eq!(&plan.uniforms_data[12..16], &[0, 0, 0, 0]);
    // Second record at its aligned slot: word offset 2048 / 4 = 512.
    assert_eq!(&plan.uniforms_data[256..260], &[64, 0, 0, 0]);
    assert_eq!(&plan.uniforms_data[268..272], &[0, 2, 0, 0]);
    // No settings-bearing tasks: empty settings uploads.
    assert_eq!(plan.bc6h_data.len(), 0);
    assert_eq!(plan.bc7_data.len(), 0);
    assert_eq!(plan.astc_data.len(), 0);
}

#[test]
fn settings_records_pack_at_their_slots() {
    let mut scheduler = GpuTaskScheduler::new(256, 256);
    let bc7 = CompressionVariant::BC7(BC7Settings::opaque_ultra_fast());

    let r = scheduler.add_compression_task(bc7, 0, 16, 16, 0, 1 << 20, true, None, None);
    assert!(r.is_ok());
    add_bc1_task(&mut scheduler, 1, None);
    let r = scheduler.add_compression_task(bc7, 2, 16, 16, 0, 1 << 20, true, None, None);
    assert!(r.is_ok());

    let plan = scheduler.flush();
    assert_eq!(plan.steps.len(), 3);
    // Settings slots are assigned per settings-bearing task, in order.
    assert_eq!(plan.steps[0].settings_offset, Some(0));
    assert_eq!(plan.steps[1].settings_offset, None);
    assert_eq!(plan.steps[2].settings_offset, Some(256));

    assert_eq!(plan.bc7_data.len(), 512);
    // refine_iterations of opaque_ultra_fast start 2, 2, 2, 1.
    assert_eq!(&plan.bc7_data[0..4], &[2, 0, 0, 0]);
    assert_eq!(&plan.bc7_data[12..16], &[1, 0, 0, 0]);
    // mode_selection [0, 0, 0, 1] follows at byte 32.
    assert_eq!(&plan.bc7_data[32..36], &[0, 0, 0, 0]);
    assert_eq!(&plan.bc7_data[44..48], &[1, 0, 0, 0]);
    // skip_mode2 = 1 at byte 48; channels = 3 at byte 72.
    assert_eq!(&plan.bc7_data[48..52], &[1, 0, 0, 0]);
    assert_eq!(&plan.bc7_data[72..76], &[3, 0, 0, 0]);
    // The second BC7 record sits at the next aligned slot.
    assert_eq!(&plan.bc7_data[256..260], &[2, 0, 0, 0]);
    assert_eq!(plan.bc6h_data.len(), 0);
}

#[test]
fn astc_and_bc6h_settings_records() {
    let mut scheduler = GpuTaskScheduler::new(64, 64);
    assert_eq!(scheduler.bc6h_aligned_size, 64);
    assert_eq!(scheduler.astc_aligned_size, 64);

    let astc = CompressionVariant::ASTC(ASTCSettings::opaque_fast(ASTCBlockSize::_6x6));
    let r = scheduler.add_compression_task(astc, 0, 12, 12, 0, 1 << 20, true, None, None);
    assert!(r.is_ok());
    let bc6h = CompressionVariant::BC6H(block_compression::BC6HSettings::slow());
    let r = scheduler.add_compression_task(bc6h, 1, 16, 16, 0, 1 << 20, true, None, None);
    assert!(r.is_ok());

    let plan = scheduler.flush();
    assert_eq!(plan.steps[0].settings_offset, Some(0));
    assert_eq!(plan.steps[1].settings_offset, Some(0));

    // ASTC record: block width 6, height 6, 3 channels, skip threshold 5,
    // 2 refine iterations.
    assert_eq!(plan.astc_data.len(), 64);
    assert_eq!(&plan.astc_data[0..4], &[6, 0, 0, 0]);
    assert_eq!(&plan.astc_data[4..8], &[6, 0, 0, 0]);
    assert_eq!(&plan.astc_data[8..12], &[3, 0, 0, 0]);
    assert_eq!(&plan.astc_data[12..16], &[5, 0, 0, 0]);
    assert_eq!(&plan.astc_data[16..20], &[2, 0, 0, 0]);

    // BC6H slow record: slow_mode 1, fast_mode 0, both refine iteration
    // counts 2, skip threshold 10.
    assert_eq!(plan.bc6h_data.len(), 64);
    assert_eq!(&plan.bc6h_data[0..4], &[1, 0, 0, 0]);
    assert_eq!(&plan.bc6h_data[4..8], &[0, 0, 0, 0]);
    assert_eq!(&plan.bc6h_data[8..12], &[2, 0, 0, 0]);
    assert_eq!(&plan.bc6h_data[12..16], &[2, 0, 0, 0]);
    assert_eq!(&plan.bc6h_data[16..20], &[10, 0, 0, 0]);

    // The ASTC dispatch still covers its 12x12 source in 4-texel blocks.
    assert_eq!(plan.steps[0].workgroups_x, 1);
    assert_eq!(plan.steps[0].workgroups_y, 1);
}
