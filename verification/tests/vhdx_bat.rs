//! The block allocation table.

use vm_devices::vhdx::bat::{
    ceil_div, chunk_block_count, Bat, BatState, BlockType, InternalBlockMapping, BAT_TAG,
    TRIM_SENTINEL,
};
use vm_devices::vhdx::bat_load::SpaceMark;
use vm_devices::vhdx::bat_page::{entry_position, read_bat_entry_raw};
use vm_devices::vhdx::error::{CorruptionType, VhdxError};
use vm_devices::vhdx::format::{BatEntry, BatEntryState, DEFAULT_BLOCK_SIZE, GB1, MB1};
use vm_devices::vhdx::refcount::{BatGuard, IoRefcounts};

#[test]
fn chunk_ratio_default_params() {
    // 2 MiB blocks, 512-byte sectors → chunk_ratio = 2048
    let bat = Bat::new(
        GB1,
        DEFAULT_BLOCK_SIZE,
        512,
        false,
        MB1 as u32,
    )
    .unwrap();
    assert_eq!(bat.chunk_ratio, 2048);
}

#[test]
fn chunk_ratio_various_sizes() {
    // 1 MiB blocks, 512 sectors
    let bat = Bat::new(GB1, MB1 as u32, 512, false, MB1 as u32).unwrap();
    assert_eq!(bat.chunk_ratio, 4096);

    // 4 MiB blocks, 512 sectors
    let bat = Bat::new(GB1, 4 * MB1 as u32, 512, false, MB1 as u32).unwrap();
    assert_eq!(bat.chunk_ratio, 1024);

    // 32 MiB blocks, 512 sectors
    let bat = Bat::new(GB1, 32 * MB1 as u32, 512, false, MB1 as u32).unwrap();
    assert_eq!(bat.chunk_ratio, 128);

    // 256 MiB blocks, 512 sectors
    let bat = Bat::new(GB1, 256 * MB1 as u32, 512, false, MB1 as u32).unwrap();
    assert_eq!(bat.chunk_ratio, 16);

    // 2 MiB blocks, 4096 sectors: sectors_per_block = 512, chunk_ratio = 8388608 / 512 = 16384
    let bat = Bat::new(
        GB1,
        DEFAULT_BLOCK_SIZE,
        4096,
        false,
        MB1 as u32,
    )
    .unwrap();
    assert_eq!(bat.chunk_ratio, 16384);

    // 1 MiB blocks, 4096 sectors: sectors_per_block = 256, chunk_ratio = 8388608 / 256 = 32768
    let bat = Bat::new(GB1, MB1 as u32, 4096, false, MB1 as u32).unwrap();
    assert_eq!(bat.chunk_ratio, 32768);
}

fn default_bat(has_parent: bool) -> Bat {
    Bat::new(
        GB1,
        DEFAULT_BLOCK_SIZE,
        512,
        has_parent,
        MB1 as u32,
    )
    .unwrap()
}

#[test]
fn payload_entry_index_calculations() {
    let bat = default_bat(false);
    // chunk_ratio = 2048
    assert_eq!(bat.payload_entry_index(0), 0);
    assert_eq!(bat.payload_entry_index(1), 1);
    assert_eq!(
        bat.payload_entry_index(bat.chunk_ratio - 1),
        bat.chunk_ratio - 1
    );
    // At chunk_ratio, we skip one SBM slot.
    assert_eq!(
        bat.payload_entry_index(bat.chunk_ratio),
        bat.chunk_ratio + 1
    );
    assert_eq!(
        bat.payload_entry_index(bat.chunk_ratio + 1),
        bat.chunk_ratio + 2
    );
    // At 2 * chunk_ratio, skip another.
    assert_eq!(
        bat.payload_entry_index(2 * bat.chunk_ratio),
        2 * bat.chunk_ratio + 2
    );
}

#[test]
fn sector_bitmap_entry_index_calculations() {
    let bat = default_bat(true);
    // SBM entry 0 is at position chunk_ratio.
    assert_eq!(bat.sector_bitmap_entry_index(0), bat.chunk_ratio);
    // SBM entry 1 is at position 2*chunk_ratio + 1.
    assert_eq!(bat.sector_bitmap_entry_index(1), 2 * bat.chunk_ratio + 1);
}

#[test]
fn validate_bat_size_ok() {
    // For 1 GiB / 2 MiB = 512 data blocks, chunk_ratio = 2048.
    // entries = 512 + ((512-1)/2048) = 512 + 0 = 512
    // 512 * 8 = 4096 bytes. Any bat_length >= 4096 is fine.
    Bat::new(
        GB1,
        DEFAULT_BLOCK_SIZE,
        512,
        false,
        MB1 as u32,
    )
    .unwrap();
    Bat::new(GB1, DEFAULT_BLOCK_SIZE, 512, false, 4096).unwrap();
}

#[test]
fn validate_bat_size_too_small() {
    // 512 entries * 8 bytes = 4096 bytes needed.
    let result = Bat::new(GB1, DEFAULT_BLOCK_SIZE, 512, false, 4095);
    assert!(matches!(
        result,
        Err(VhdxError::Corrupt(CorruptionType::BatTooSmall))
    ));
}

#[test]
fn offset_to_block_calculations() {
    let bat = default_bat(false);
    assert_eq!(bat.offset_to_block(0), 0);
    assert_eq!(
        bat.offset_to_block(DEFAULT_BLOCK_SIZE as u64 - 1),
        0
    );
    assert_eq!(bat.offset_to_block(DEFAULT_BLOCK_SIZE as u64), 1);
    assert_eq!(
        bat.offset_to_block(DEFAULT_BLOCK_SIZE as u64 * 10 + 42),
        10
    );
}

#[test]
fn offset_within_block_calculations() {
    let bat = default_bat(false);
    assert_eq!(bat.offset_within_block(0), 0);
    assert_eq!(bat.offset_within_block(512), 512);
    assert_eq!(
        bat.offset_within_block(DEFAULT_BLOCK_SIZE as u64),
        0
    );
    assert_eq!(
        bat.offset_within_block(DEFAULT_BLOCK_SIZE as u64 + 1024),
        1024
    );
}

#[test]
fn internal_mapping_roundtrip() {
    let mapping = InternalBlockMapping::new()
        .with_state(BatEntryState::FullyPresent.to_raw())
        .with_transitioning_to_fully_present(true)
        .with_file_megabyte(12345);
    let raw = u32::from(mapping);
    let restored = InternalBlockMapping::from(raw);
    assert_eq!(restored.state(), BatEntryState::FullyPresent.to_raw());
    assert!(restored.transitioning_to_fully_present());
    assert_eq!(restored.file_megabyte(), 12345);
    assert_eq!(raw, 6 + 8 + 16 * 12345);
}

#[test]
fn internal_mapping_max_file_megabyte() {
    let max_mb: u32 = (1 << 28) - 1; // 268435455
    let mapping = InternalBlockMapping::new()
        .with_state(BatEntryState::FullyPresent.to_raw())
        .with_file_megabyte(max_mb);
    assert_eq!(mapping.file_megabyte(), max_mb);
    assert_eq!(mapping.file_offset(), max_mb as u64 * MB1);
}

#[test]
fn internal_mapping_tfp_flag() {
    let with_tfp = InternalBlockMapping::new()
        .with_state(BatEntryState::NotPresent.to_raw())
        .with_transitioning_to_fully_present(true);
    assert!(with_tfp.transitioning_to_fully_present());

    let without_tfp = InternalBlockMapping::new()
        .with_state(BatEntryState::FullyPresent.to_raw())
        .with_transitioning_to_fully_present(false);
    assert!(!without_tfp.transitioning_to_fully_present());

    // TFP is independent of state.
    assert_eq!(with_tfp.state(), BatEntryState::NotPresent.to_raw());
    assert_eq!(without_tfp.state(), BatEntryState::FullyPresent.to_raw());
}

#[test]
fn internal_mapping_from_bat_entry() {
    let entry = BatEntry::new()
        .with_state(BatEntryState::FullyPresent.to_raw())
        .with_file_offset_mb(100);
    let internal = InternalBlockMapping::from_bat_entry(entry, false);
    assert_eq!(internal.state(), BatEntryState::FullyPresent.to_raw());
    assert_eq!(internal.file_megabyte(), 100);
    assert!(!internal.transitioning_to_fully_present());
}

#[test]
fn entry_number_to_block_id_payload() {
    // Non-differencing: all entries are payload.
    let bat = default_bat(false);
    // chunk_ratio = 2048, data_block_count = 512
    for i in 0..bat.data_block_count {
        let entry_index = bat.payload_entry_index(i);
        let result = bat.entry_number_to_block_id(entry_index);
        assert_eq!(result, Some((BlockType::Payload, i)), "block {i}");
    }
}

#[test]
fn entry_number_to_block_id_with_sbm() {
    // Differencing disk with SBM entries.
    // Use 256 MiB blocks, 512 sectors → chunk_ratio = 16.
    let bat = Bat::new(GB1, 256 * MB1 as u32, 512, true, MB1 as u32).unwrap();
    assert_eq!(bat.chunk_ratio, 16);
    // data_block_count = 4, sector_bitmap_block_count = 1

    // Payload entries for group 0: positions 0..15 → blocks 0..3
    for i in 0..bat.data_block_count {
        let entry_index = bat.payload_entry_index(i);
        let result = bat.entry_number_to_block_id(entry_index);
        assert_eq!(result, Some((BlockType::Payload, i)), "payload block {i}");
    }

    // SBM entry for chunk 0 at position chunk_ratio = 16
    let sbm_index = bat.sector_bitmap_entry_index(0);
    assert_eq!(
        bat.entry_number_to_block_id(sbm_index),
        Some((BlockType::SectorBitmap, 0))
    );
}

#[test]
fn entry_number_to_block_id_beyond_end() {
    let bat = default_bat(false);
    // Entry beyond all data blocks should return None.
    let beyond = bat.payload_entry_index(bat.data_block_count);
    assert_eq!(bat.entry_number_to_block_id(beyond), None);
}

#[test]
fn bat_state_allocated_count_tracking() {
    let bat = Bat::new(4 * MB1, DEFAULT_BLOCK_SIZE, 512, false, MB1 as u32).unwrap();
    // 2 blocks
    let mut state = BatState {
        payload_mappings: vec![InternalBlockMapping::new(); bat.data_block_count as usize],
        sector_bitmap_mappings: vec![],
        allocated_block_count: 0,
    };

    // Allocate block 0.
    let mapping = InternalBlockMapping::new()
        .with_state(BatEntryState::FullyPresent.to_raw())
        .with_file_megabyte(100);
    state.set_payload_mapping(&bat, 0, mapping);
    assert_eq!(state.allocated_block_count, 1);

    // Allocate block 1.
    let mapping2 = InternalBlockMapping::new()
        .with_state(BatEntryState::FullyPresent.to_raw())
        .with_file_megabyte(102);
    state.set_payload_mapping(&bat, 1, mapping2);
    assert_eq!(state.allocated_block_count, 2);

    // Deallocate block 0 → NotPresent.
    let dealloc = InternalBlockMapping::new().with_state(BatEntryState::NotPresent.to_raw());
    state.set_payload_mapping(&bat, 0, dealloc);
    assert_eq!(state.allocated_block_count, 1);
    assert_eq!(state.get_payload_mapping(1), mapping2);
}

#[test]
fn bat_geometry_of_a_differencing_disk() {
    // 1 GiB in 256 MiB blocks: 4 blocks in one chunk of 16, and its bitmap.
    let bat = Bat::new(GB1, 256 * MB1 as u32, 512, true, 17 * 8).unwrap();
    assert_eq!(bat.data_block_count, 4);
    assert_eq!(bat.sector_bitmap_block_count, 1);
    assert!(bat.has_parent);
    let short = Bat::new(GB1, 256 * MB1 as u32, 512, true, 17 * 8 - 1);
    assert!(matches!(
        short,
        Err(VhdxError::Corrupt(CorruptionType::BatTooSmall))
    ));
}

#[test]
fn bat_without_whole_sectors_per_block_is_invalid() {
    for (block_size, sector) in [(0, 512), (256, 512), (512, 0)] {
        let result = Bat::new(GB1, block_size, sector, false, u32::MAX);
        assert!(matches!(
            result,
            Err(VhdxError::Corrupt(CorruptionType::InvalidBlockSize))
        ));
    }
    assert_eq!(chunk_block_count(0x20_0000, 512), 2048);
    assert_eq!(ceil_div(10, 4), 3);
    assert_eq!(ceil_div(u64::MAX, 1), u64::MAX);
    assert_eq!(ceil_div(0, 7), 0);
}

#[test]
fn unused_bitmap_slot_describes_no_block() {
    // Without a parent the slot behind a chunk is not used for a bitmap.
    let bat = Bat::new(
        64 * 256 * MB1,
        256 * MB1 as u32,
        512,
        false,
        MB1 as u32,
    )
    .unwrap();
    assert_eq!(bat.chunk_ratio, 16);
    assert_eq!(
        bat.entry_number_to_block_id(15),
        Some((BlockType::Payload, 15))
    );
    assert_eq!(bat.entry_number_to_block_id(16), None);
    assert_eq!(bat.payload_entry_index(16), 17);
    assert_eq!(
        bat.entry_number_to_block_id(17),
        Some((BlockType::Payload, 16))
    );
}

#[test]
fn partially_present_is_normalized_on_load() {
    let entry = BatEntry::new().with_state(7).with_file_offset_mb(3);
    assert_eq!(InternalBlockMapping::from_bat_entry(entry, true).state(), 7);
    assert_eq!(InternalBlockMapping::from_bat_entry(entry, false).state(), 6);
    assert_eq!(InternalBlockMapping::from_sbm_bat_entry(entry).state(), 6);
    assert_eq!(
        InternalBlockMapping::from_sbm_bat_entry(entry).bat_state(),
        BatEntryState::FullyPresent
    );
}

fn entry(state: u8, mb: u64) -> BatEntry {
    BatEntry::new().with_state(state).with_file_offset_mb(mb)
}

#[test]
fn load_marks_the_space_of_blocks() {
    let bat = Bat::new(5 * MB1, MB1 as u32, 512, true, MB1 as u32).unwrap();
    let payload = [
        entry(6, 10),
        entry(0, 11),
        entry(3, 12),
        entry(7, 0),
        entry(1, 14),
    ];
    let bitmaps = [entry(6, 20)];
    let mut marks = Vec::new();
    let state = bat
        .load_bat_state(&payload, &bitmaps, &mut marks)
        .unwrap();
    assert_eq!(state.allocated_block_count, 2);
    assert_eq!(state.payload_mappings.len(), 5);
    assert_eq!(state.get_payload_mapping(2).file_megabyte(), 12);
    assert_eq!(state.get_sbm_mapping(0).file_megabyte(), 20);
    let length = MB1 as u32;
    assert_eq!(
        marks,
        [
            SpaceMark::InUse {
                file_offset: 10 * MB1,
                length
            },
            SpaceMark::Trimmed {
                block_number: 2,
                file_offset: 12 * MB1,
                length
            },
            SpaceMark::Trimmed {
                block_number: 4,
                file_offset: 14 * MB1,
                length
            },
            SpaceMark::InUse {
                file_offset: 20 * MB1,
                length
            },
        ]
    );
}

#[test]
fn load_stops_at_an_unknown_state() {
    let bat = Bat::new(3 * MB1, MB1 as u32, 512, false, MB1 as u32).unwrap();
    let payload = [entry(6, 10), entry(5, 11), entry(6, 12)];
    let mut marks = Vec::new();
    let result = bat.load_bat_state(&payload, &[], &mut marks);
    assert!(matches!(
        result,
        Err(VhdxError::Corrupt(CorruptionType::InvalidBlockState))
    ));
    assert_eq!(marks.len(), 1);
    let bat = Bat::new(MB1, MB1 as u32, 512, true, MB1 as u32).unwrap();
    let mut marks = Vec::new();
    let result = bat.load_bat_state(&[entry(0, 0)], &[entry(4, 1)], &mut marks);
    assert!(matches!(
        result,
        Err(VhdxError::Corrupt(CorruptionType::InvalidBlockState))
    ));
}

#[test]
fn produced_page_masks_uncommitted_space() {
    let bat = Bat::new(3 * MB1, MB1 as u32, 512, true, MB1 as u32).unwrap();
    let settled = InternalBlockMapping::new()
        .with_state(6)
        .with_file_megabyte(9);
    let moving = InternalBlockMapping::new()
        .with_state(0)
        .with_transitioning_to_fully_present(true)
        .with_file_megabyte(8);
    let state = BatState {
        payload_mappings: vec![settled, moving, InternalBlockMapping::new()],
        sector_bitmap_mappings: vec![settled],
        allocated_block_count: 1,
    };
    let page = bat.produce_page(&state, 0);
    assert_eq!(page.len(), 4096);
    assert_eq!(read_bat_entry_raw(&page, 0), entry(6, 9));
    assert_eq!(read_bat_entry_raw(&page, 1), entry(0, 0));
    assert_eq!(read_bat_entry_raw(&page, 3), BatEntry::new());
    // The bitmap entry is behind 4096 payload entries, in the ninth page.
    let position = entry_position(bat.sector_bitmap_entry_index(0));
    assert_eq!(position.page_number, 8);
    assert_eq!(position.page_key.offset, 8 * 4096);
    assert_eq!(position.page_key.tag, BAT_TAG);
    assert_eq!(position.byte_offset, 0);
    let page = bat.produce_page(&state, 8);
    assert_eq!(read_bat_entry_raw(&page, 4096), entry(6, 9));
    // The last page whose entry numbers have 32 bits.
    assert_eq!(bat.produce_page(&state, 0x7f_ffff), vec![0; 4096]);
}

#[test]
fn unused_bitmap_slot_is_zero_in_a_produced_page() {
    let bat = Bat::new(32 * 256 * MB1, 256 * MB1 as u32, 512, false, MB1 as u32).unwrap();
    let mapping = InternalBlockMapping::new()
        .with_state(6)
        .with_file_megabyte(256);
    let state = BatState {
        payload_mappings: vec![mapping; 32],
        sector_bitmap_mappings: vec![],
        allocated_block_count: 32,
    };
    let page = bat.produce_page(&state, 0);
    assert_eq!(read_bat_entry_raw(&page, 15), entry(6, 256));
    assert_eq!(read_bat_entry_raw(&page, 16), BatEntry::new());
    assert_eq!(read_bat_entry_raw(&page, 17), entry(6, 256));
    assert_eq!(read_bat_entry_raw(&page, 32), entry(6, 256));
    assert_eq!(read_bat_entry_raw(&page, 33), BatEntry::new());
}

#[test]
fn cached_page_is_patched_and_missing_page_is_built() {
    let bat = Bat::new(3 * MB1, MB1 as u32, 512, false, MB1 as u32).unwrap();
    let mapping = InternalBlockMapping::new()
        .with_state(6)
        .with_file_megabyte(5);
    let state = BatState {
        payload_mappings: vec![InternalBlockMapping::new(), mapping, InternalBlockMapping::new()],
        sector_bitmap_mappings: vec![],
        allocated_block_count: 1,
    };
    let mut cached = vec![0xeeu8; 4096];
    bat.write_block_mapping(&state, &mut cached, false, BlockType::Payload, 1, mapping);
    assert_eq!(read_bat_entry_raw(&cached, 1), entry(6, 5));
    assert!(cached[..8].iter().all(|&b| b == 0xee));
    assert!(cached[16..].iter().all(|&b| b == 0xee));
    let mut missing = vec![0u8; 4096];
    bat.write_block_mapping(&state, &mut missing, true, BlockType::Payload, 1, mapping);
    assert_eq!(read_bat_entry_raw(&missing, 1), entry(6, 5));
    assert_eq!(missing, bat.produce_page(&state, 0));
    assert_eq!(bat.bat_page_key_for_block(1).offset, 0);
}

#[test]
fn refcounts_are_acquired_together_or_not_at_all() {
    let mut counts = IoRefcounts::new(4);
    let guard = counts.acquire_io_refcounts(1, 2).unwrap();
    assert_eq!(counts.io_refcount(1), 1);
    assert_eq!(counts.io_refcount(3), 0);
    assert!(counts.claim_for_trim(2).is_none());
    let claim = counts.claim_for_trim(3).unwrap();
    assert_eq!(counts.io_refcount(3), TRIM_SENTINEL);
    assert!(!counts.try_increment_io_refcount(3));
    // Block 3 is claimed: nothing of the range is kept.
    assert_eq!(counts.acquire_io_refcounts(0, 4), None);
    assert_eq!(counts.io_refcount(0), 0);
    assert_eq!(counts.io_refcount(1), 1);
    counts.release_trim_claim(claim);
    let second = counts.acquire_io_refcounts(2, 2).unwrap();
    assert!(counts.release(guard));
    assert_eq!(counts.io_refcount(2), 1);
    assert!(counts.release(second));
    assert_eq!(counts.io_refcount(2), 0);
    assert_eq!(BatGuard::empty().block_count, 0);
    assert!(!counts.release(BatGuard::empty()));
    assert!(counts.try_increment_io_refcount(0));
    assert_eq!(counts.decrement_io_refcount(0), 1);
}
