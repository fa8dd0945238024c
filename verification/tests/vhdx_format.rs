//! On-disk structures and checksums.

use std::mem::size_of;

use vm_devices::bytes::{get_u16, get_u32, get_u64, get_u64_be, put_bytes};
use vm_devices::vhdx::format::{
    compute_checksum, validate_checksum, BatEntry, BatEntryState, FileIdentifier,
    FileParametersFlags, Header, LogDataDescriptor, LogDataSector, LogEntryHeader,
    LogZeroDescriptor, MetadataTableEntry, MetadataTableEntryFlags, MetadataTableHeader,
    ParentLocatorEntry, ParentLocatorHeader, RegionTableEntry, RegionTableEntryFlags,
    RegionTableHeader, BAT_REGION_GUID, ENTRIES_PER_BAT_PAGE, FILE_IDENTIFIER_SIGNATURE,
    HEADER_SIGNATURE, HEADER_SIZE, KB4, LOG_DATA_SECTOR_SIGNATURE, LOG_DESCRIPTOR_DATA_SIGNATURE,
    LOG_DESCRIPTOR_ZERO_SIGNATURE, LOG_ENTRY_HEADER_SIGNATURE, MB1, METADATA_ENTRY_MAX_COUNT,
    METADATA_SYSTEM_ENTRY_MAX_COUNT, METADATA_TABLE_SIGNATURE, METADATA_USER_ENTRY_MAX_COUNT,
    REGION_TABLE_MAX_ENTRY_COUNT, REGION_TABLE_SIGNATURE, TB1, VERSION_1,
};
use vm_devices::vhdx::guid::{get_guid, push_guid};

#[test]
fn layout_sizes_match_vhdx_format() {
    assert_eq!(size_of::<FileIdentifier>(), 520);
    assert_eq!(size_of::<Header>(), 80);
    assert_eq!(size_of::<RegionTableHeader>(), 16);
    assert_eq!(size_of::<RegionTableEntry>(), 32);
    assert_eq!(size_of::<MetadataTableHeader>(), 32);
    assert_eq!(size_of::<MetadataTableEntry>(), 32);
    assert_eq!(size_of::<LogEntryHeader>(), 64);
    assert_eq!(size_of::<LogDataDescriptor>(), 32);
    assert_eq!(size_of::<LogZeroDescriptor>(), 32);
    assert_eq!(size_of::<LogDataSector>(), KB4 as usize);
}

#[test]
fn signatures_match_expected_bytes() {
    assert_eq!(FILE_IDENTIFIER_SIGNATURE.to_le_bytes(), *b"vhdxfile");
    assert_eq!(HEADER_SIGNATURE.to_le_bytes(), *b"head");
    assert_eq!(REGION_TABLE_SIGNATURE.to_le_bytes(), *b"regi");
    assert_eq!(METADATA_TABLE_SIGNATURE.to_le_bytes(), *b"metadata");
    assert_eq!(LOG_ENTRY_HEADER_SIGNATURE.to_le_bytes(), *b"loge");
    assert_eq!(LOG_DESCRIPTOR_DATA_SIGNATURE.to_le_bytes(), *b"desc");
    assert_eq!(LOG_DESCRIPTOR_ZERO_SIGNATURE.to_le_bytes(), *b"zero");
    assert_eq!(LOG_DATA_SECTOR_SIGNATURE.to_le_bytes(), *b"data");
}

#[test]
fn bat_entry_accessors() {
    let entry = BatEntry::new().with_state(6).with_file_offset_mb(2);
    assert_eq!(entry.state(), 6);
    assert_eq!(entry.file_offset_mb(), 2);
    assert_eq!(entry.file_offset(), 2 * MB1);
}

#[test]
fn bat_entry_state_roundtrip() {
    for &(raw, expected) in &[
        (0, BatEntryState::NotPresent),
        (1, BatEntryState::Undefined),
        (2, BatEntryState::Zero),
        (3, BatEntryState::Unmapped),
        (6, BatEntryState::FullyPresent),
        (7, BatEntryState::PartiallyPresent),
    ] {
        assert_eq!(BatEntryState::from_raw(raw), Some(expected));
    }
    assert_eq!(BatEntryState::from_raw(4), None);
    assert_eq!(BatEntryState::from_raw(5), None);
}

#[test]
fn checksum_roundtrip() {
    let mut data = vec![0u8; HEADER_SIZE as usize];
    data[0..4].copy_from_slice(&HEADER_SIGNATURE.to_le_bytes());
    let checksum_offset = 4;
    let crc = compute_checksum(&data, checksum_offset);
    data[checksum_offset..checksum_offset + 4].copy_from_slice(&crc.to_le_bytes());
    assert!(validate_checksum(&data, checksum_offset));
    data[16] ^= 0xff;
    assert!(!validate_checksum(&data, checksum_offset));
}

#[test]
fn validate_checksum_rejects_short_input() {
    assert!(!validate_checksum(&[0, 1, 2], 0));
}

#[test]
fn zero_copy_roundtrip_header() {
    let mut header = Header::new_zeroed();
    header.signature = HEADER_SIGNATURE;
    header.version = VERSION_1;
    header.sequence_number = 42;

    let bytes = header.as_bytes();
    let parsed = Header::read_from_bytes(&bytes).unwrap();
    assert_eq!(parsed.signature, HEADER_SIGNATURE);
    assert_eq!(parsed.version, VERSION_1);
    assert_eq!(parsed.sequence_number, 42);
}

#[test]
fn zero_copy_roundtrip_bat_entry() {
    let entry = BatEntry::new().with_state(6).with_file_offset_mb(100);
    let bytes = entry.as_bytes();
    let parsed = BatEntry::read_from_bytes(&bytes).unwrap();
    assert_eq!(parsed.state(), 6);
    assert_eq!(parsed.file_offset_mb(), 100);
}

#[test]
fn crc32c_of_known_text() {
    // The checksum field lies behind the text and counts as four zeros.
    let mut data = b"123456789".to_vec();
    data.extend_from_slice(&[0xaa, 0xbb, 0xcc, 0xdd]);
    let mut zeroed = b"123456789".to_vec();
    zeroed.extend_from_slice(&[0; 4]);
    assert_eq!(crc32c::crc32c(b"123456789"), 0xe306_9283);
    assert_eq!(compute_checksum(&data, 9), crc32c::crc32c(&zeroed));
    assert_ne!(compute_checksum(&data, 9), crc32c::crc32c(&data));
}

#[test]
fn every_changed_byte_invalidates_the_checksum() {
    let mut data: Vec<u8> = (0..200).map(|i| (i * 7) as u8).collect();
    let crc = compute_checksum(&data, 32);
    data[32..36].copy_from_slice(&crc.to_le_bytes());
    assert!(validate_checksum(&data, 32));
    for i in (0..32).chain(36..200) {
        for flip in 1..=255 {
            data[i] ^= flip;
            assert!(!validate_checksum(&data, 32));
            data[i] ^= flip;
        }
    }
    assert!(validate_checksum(&data, 32));
}

#[test]
fn checksum_ignores_its_own_field() {
    let mut data = vec![7u8; 64];
    let crc = compute_checksum(&data, 20);
    put_bytes(&mut data, 20, &[1, 2, 3, 4]);
    assert_eq!(compute_checksum(&data, 20), crc);
    let mut zeroed = data.clone();
    put_bytes(&mut zeroed, 20, &[0, 0, 0, 0]);
    assert_eq!(crc, crc32c::crc32c(&zeroed));
}

#[test]
fn checksum_offset_out_of_range_is_invalid() {
    assert!(!validate_checksum(&[0; 8], 5));
    assert!(!validate_checksum(&[0; 8], usize::MAX - 1));
}

#[test]
fn entry_counts_follow_from_sizes() {
    assert_eq!(REGION_TABLE_MAX_ENTRY_COUNT, 2047);
    assert_eq!(METADATA_ENTRY_MAX_COUNT, 2047);
    assert_eq!(
        METADATA_SYSTEM_ENTRY_MAX_COUNT + METADATA_USER_ENTRY_MAX_COUNT,
        METADATA_ENTRY_MAX_COUNT
    );
    assert_eq!(ENTRIES_PER_BAT_PAGE, 512);
    assert_eq!(TB1, 1 << 40);
}

#[test]
fn guid_is_stored_mixed_endian() {
    let mut buf = vec![9u8];
    push_guid(&mut buf, BAT_REGION_GUID);
    assert_eq!(
        buf,
        [
            9, 0x66, 0x77, 0xc2, 0x2d, 0x23, 0xf6, 0x00, 0x42, 0x9d, 0x64, 0x11, 0x5e, 0x9b, 0xfd,
            0x4a, 0x08
        ]
    );
    assert_eq!(get_guid(&buf, 1), BAT_REGION_GUID);
}

#[test]
fn integers_are_read_at_offsets() {
    let data = [0xff, 1, 2, 3, 4, 5, 6, 7, 8];
    assert_eq!(get_u16(&data, 1), 0x0201);
    assert_eq!(get_u32(&data, 1), 0x0403_0201);
    assert_eq!(get_u64(&data, 1), 0x0807_0605_0403_0201);
    assert_eq!(get_u64_be(&data, 1), 0x0102_0304_0506_0708);
}

#[test]
fn header_layout_has_fixed_offsets() {
    let mut header = Header::new_zeroed();
    header.signature = HEADER_SIGNATURE;
    header.checksum = 0x0102_0304;
    header.sequence_number = 5;
    header.log_guid = BAT_REGION_GUID;
    header.log_version = 6;
    header.version = 7;
    header.log_length = 8;
    header.log_offset = 9;
    let bytes = header.as_bytes();
    assert_eq!(bytes.len(), 80);
    assert_eq!(&bytes[0..4], b"head");
    assert_eq!(&bytes[4..8], &[4, 3, 2, 1]);
    assert_eq!(get_u64(&bytes, 8), 5);
    assert_eq!(get_guid(&bytes, 48), BAT_REGION_GUID);
    assert_eq!(get_u16(&bytes, 64), 6);
    assert_eq!(get_u16(&bytes, 66), 7);
    assert_eq!(get_u32(&bytes, 68), 8);
    assert_eq!(get_u64(&bytes, 72), 9);
    assert!(Header::read_from_bytes(&bytes[..79]).is_none());
    assert!(Header::read_from_prefix(&bytes[..79]).is_none());
}

#[test]
fn file_identifier_needs_520_bytes() {
    let mut bytes = vec![0u8; 520];
    bytes[..8].copy_from_slice(b"vhdxfile");
    bytes[8] = b'x';
    let ident = FileIdentifier::read_from_bytes(&bytes).unwrap();
    assert_eq!(ident.signature, FILE_IDENTIFIER_SIGNATURE);
    assert_eq!(ident.creator[0], b'x' as u16);
    assert_eq!(ident.creator[255], 0);
    assert!(FileIdentifier::read_from_bytes(&bytes[..519]).is_none());
}

#[test]
fn locator_structures_round_trip() {
    let header = ParentLocatorHeader {
        locator_type: BAT_REGION_GUID,
        reserved: 1,
        key_value_count: 2,
    };
    let bytes = header.as_bytes();
    assert_eq!(bytes.len(), 20);
    let parsed = ParentLocatorHeader::read_from_prefix(&bytes).unwrap();
    assert_eq!(parsed.locator_type, BAT_REGION_GUID);
    assert_eq!(parsed.key_value_count, 2);
    let entry = ParentLocatorEntry {
        key_offset: 1,
        value_offset: 2,
        key_length: 3,
        value_length: 4,
    };
    let bytes = entry.as_bytes();
    assert_eq!(bytes, [1, 0, 0, 0, 2, 0, 0, 0, 3, 0, 4, 0]);
    assert_eq!(ParentLocatorEntry::read_at(&bytes, 0).value_offset, 2);
}

#[test]
fn flags_are_independent_bits() {
    let flags = MetadataTableEntryFlags::new()
        .with_is_user(true)
        .with_is_required(true);
    assert!(flags.is_user());
    assert!(!flags.is_virtual_disk());
    assert!(flags.is_required());
    assert_eq!(flags.raw, 5);
    assert_eq!(flags.with_is_virtual_disk(true).with_is_user(false).raw, 6);
    assert_eq!(RegionTableEntryFlags::new().with_required(true).raw, 1);
    assert!(RegionTableEntryFlags { raw: 0xffff_ffff }.required());
    let file = FileParametersFlags::new().with_has_parent(true);
    assert!(file.has_parent());
    assert!(!file.leave_blocks_allocated());
    assert_eq!(file.with_leave_blocks_allocated(true).raw, 3);
}

#[test]
fn block_states_that_are_backed_by_space() {
    for raw in 0..8u8 {
        if let Some(state) = BatEntryState::from_raw(raw) {
            assert_eq!(state.to_raw(), raw);
            assert_eq!(state.is_allocated(), raw == 6 || raw == 7);
        }
    }
}
