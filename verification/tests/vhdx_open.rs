//! Headers, opening, and the write-back of the table.

use vm_devices::vhdx::bat::{BatState, BlockType, InternalBlockMapping};
use vm_devices::vhdx::bat_page::read_bat_entry_raw;
use vm_devices::vhdx::error::{CorruptionType, IoErrorKind, VhdxError};
use vm_devices::vhdx::format::{
    BatEntry, BatEntryState, Header, GB1, HEADER_AREA_SIZE, HEADER_OFFSET_1, HEADER_OFFSET_2,
    HEADER_SIGNATURE, LOG_VERSION, MB1, PARENT_LOCATOR_VHDX_TYPE_GUID, REGION_ALIGNMENT, VERSION_1,
};
use vm_devices::vhdx::header::{
    encode_header, header_update, parse_headers, validate_header, ParsedHeader,
};
use vm_devices::vhdx::locator::build_locator;
use vm_devices::vhdx::open::{
    after_replay, open_headers, validate_file_identifier, DirtyBatPages, EntryWrite, KnownMetadata,
    OpenStep, VhdxFile, WriteMode, WriteState,
};

const FILE_LENGTH: u64 = 8 * MB1;

fn header(sequence_number: u64) -> Header {
    let mut header = Header::new_zeroed();
    header.signature = HEADER_SIGNATURE;
    header.sequence_number = sequence_number;
    header.file_write_guid = 10;
    header.data_write_guid = 20;
    header.log_version = LOG_VERSION;
    header.version = VERSION_1;
    header.log_length = MB1 as u32;
    header.log_offset = MB1;
    header
}

fn corrupt(header: &Header) -> Vec<u8> {
    let mut bytes = encode_header(header);
    bytes[10] ^= 0xff;
    bytes
}

fn parse(header1: &[u8], header2: &[u8]) -> Result<ParsedHeader, VhdxError> {
    parse_headers(header1, header2, FILE_LENGTH)
}

fn fault(h: Header) -> CorruptionType {
    match parse(&encode_header(&h), &[]) {
        Err(VhdxError::Corrupt(fault)) => fault,
        other => panic!("expected a refusal, got {other:?}"),
    }
}

#[test]
fn parse_valid_dual_headers() {
    let parsed = parse(&encode_header(&header(0)), &encode_header(&header(1))).unwrap();
    assert_eq!(parsed.sequence_number, 1);
    assert!(!parsed.first_header_current);
    assert_eq!(parsed.version, VERSION_1);
    assert_eq!(parsed.log_guid, 0);
    assert_eq!(parsed.file_write_guid, 10);
    assert_eq!(parsed.data_write_guid, 20);
    // Of two headers with the same number the first one counts.
    let parsed = parse(&encode_header(&header(3)), &encode_header(&header(3))).unwrap();
    assert!(parsed.first_header_current);
}

#[test]
fn parse_higher_sequence_wins() {
    let parsed = parse(&corrupt(&header(0)), &encode_header(&header(1))).unwrap();
    assert!(!parsed.first_header_current);
    assert_eq!(parsed.sequence_number, 1);
}

#[test]
fn parse_both_headers_corrupt() {
    assert!(matches!(
        parse(&corrupt(&header(0)), &corrupt(&header(1))),
        Err(VhdxError::Corrupt(CorruptionType::NoValidHeaders))
    ));
}

#[test]
fn parse_one_valid_header() {
    let parsed = parse(&encode_header(&header(0)), &corrupt(&header(1))).unwrap();
    assert!(parsed.first_header_current);
    assert_eq!(parsed.sequence_number, 0);
}

#[test]
fn parse_log_validation() {
    let mut misaligned = header(100);
    misaligned.log_offset = 12345;
    misaligned.log_length = REGION_ALIGNMENT as u32;
    assert_eq!(fault(misaligned), CorruptionType::InvalidLogOffsetOrLength);
    let mut misaligned = header(100);
    misaligned.log_length = 4096;
    assert_eq!(fault(misaligned), CorruptionType::InvalidLogOffsetOrLength);
    let mut early = header(100);
    early.log_offset = 0;
    assert_eq!(fault(early), CorruptionType::InvalidLogOffset);
    let mut late = header(100);
    late.log_offset = FILE_LENGTH;
    assert_eq!(fault(late), CorruptionType::LogBeyondEndOfFile);
    let mut overflow = header(100);
    overflow.log_offset = u64::MAX - (MB1 - 1);
    assert_eq!(fault(overflow), CorruptionType::LogBeyondEndOfFile);
    let mut missing = header(100);
    missing.log_length = 0;
    missing.log_guid = 5;
    assert_eq!(fault(missing), CorruptionType::MissingLogHasGuid);
    let mut none = header(100);
    none.log_length = 0;
    let parsed = parse(&encode_header(&none), &[]).unwrap();
    assert_eq!(parsed.log_offset, 0);
    assert_eq!(parsed.log_length, 0);
}

#[test]
fn parse_unknown_versions() {
    let text = |h: Header| match parse(&encode_header(&h), &[]) {
        Err(VhdxError::Io(e)) => {
            assert_eq!(e.kind, IoErrorKind::InvalidData);
            e.message
        }
        other => panic!("expected an I/O error, got {other:?}"),
    };
    let mut version = header(1);
    version.version = 2;
    assert_eq!(text(version), "unsupported VHDX version");
    let mut log_version = header(1);
    log_version.log_version = 1;
    log_version.log_guid = 4;
    assert_eq!(text(log_version), "unsupported VHDX log version");
    // Without a log its version does not matter.
    log_version.log_guid = 0;
    assert!(parse(&encode_header(&log_version), &[]).is_ok());
}

#[test]
fn encoded_header_reads_back() {
    let bytes = encode_header(&header(7));
    assert_eq!(bytes.len(), 4096);
    let read = validate_header(&bytes).unwrap();
    assert_eq!(read.sequence_number, 7);
    assert_eq!(read.log_offset, MB1);
    let mut zeroed = bytes.clone();
    zeroed[4..8].copy_from_slice(&[0; 4]);
    assert_eq!(read.checksum, crc32c::crc32c(&zeroed));
    assert!(validate_header(&bytes[..4095]).is_none());
    assert!(validate_header(&bytes[..40]).is_none());
    let mut unsigned = header(7);
    unsigned.signature = 0;
    assert!(validate_header(&encode_header(&unsigned)).is_none());
}

#[test]
fn header_update_goes_to_the_other_slot() {
    let write = header_update(9, 1, 2, 3, MB1, MB1 as u32, true);
    assert_eq!(write.offset, HEADER_OFFSET_2);
    assert_eq!(validate_header(&write.bytes).unwrap().log_guid, 3);
    assert_eq!(
        header_update(9, 1, 2, 3, MB1, MB1 as u32, false).offset,
        HEADER_OFFSET_1
    );
    // Until the update is written whole, the old header stays active.
    let old = encode_header(&header(8));
    let mut torn = write.bytes.clone();
    torn[100] = 1;
    assert_eq!(parse(&old, &torn).unwrap().sequence_number, 8);
    assert_eq!(parse(&old, &write.bytes).unwrap().sequence_number, 9);
}

fn identifier() -> Vec<u8> {
    let mut ident = vec![0; 520];
    ident[..8].copy_from_slice(b"vhdxfile");
    ident
}

#[test]
fn open_invalid_file_identifier() {
    let mut ident = identifier();
    assert!(validate_file_identifier(&ident).is_ok());
    ident[0] = b'x';
    for bytes in [&ident[..], &identifier()[..519]] {
        assert!(matches!(
            validate_file_identifier(bytes),
            Err(VhdxError::Corrupt(CorruptionType::InvalidFileIdentifier))
        ));
        assert!(matches!(
            open_headers(FILE_LENGTH, bytes, &encode_header(&header(1)), &[], true),
            Err(VhdxError::Corrupt(CorruptionType::InvalidFileIdentifier))
        ));
    }
}

#[test]
fn open_empty_file() {
    assert!(matches!(
        open_headers(0, &[], &[], &[], true),
        Err(VhdxError::Corrupt(CorruptionType::EmptyFile))
    ));
    assert!(matches!(
        open_headers(
            HEADER_AREA_SIZE - 1,
            &identifier(),
            &encode_header(&header(1)),
            &[],
            true
        ),
        Err(VhdxError::Corrupt(CorruptionType::EmptyFile))
    ));
}

#[test]
fn open_clean_and_dirty_files() {
    let open = |h: &Header, read_only| {
        open_headers(FILE_LENGTH, &identifier(), &encode_header(h), &[], read_only)
    };
    assert!(matches!(open(&header(1), true), Ok(OpenStep::Ready(_))));
    assert!(matches!(open(&header(1), false), Ok(OpenStep::Ready(_))));
    let mut dirty = header(1);
    dirty.log_guid = 77;
    assert!(matches!(
        open(&dirty, true),
        Err(VhdxError::Corrupt(CorruptionType::LogReplayRequired))
    ));
    let Ok(OpenStep::Replay(parsed)) = open(&dirty, false) else {
        panic!("expected a replay");
    };
    assert_eq!(parsed.log_guid, 77);
    // Nothing was replayed: the header stays.
    let (same, write) = after_replay(parsed, false);
    assert_eq!(same.log_guid, 77);
    assert!(write.is_none());
    // Entries were replayed: the file opens clean the next time.
    let (clean, write) = after_replay(parsed, true);
    assert_eq!(clean.log_guid, 0);
    assert_eq!(clean.sequence_number, 2);
    assert!(!clean.first_header_current);
    let write = write.unwrap();
    assert_eq!(write.offset, HEADER_OFFSET_2);
    assert!(matches!(
        open_headers(
            FILE_LENGTH,
            &identifier(),
            &encode_header(&dirty),
            &write.bytes,
            true
        ),
        Ok(OpenStep::Ready(h)) if h.sequence_number == 2
    ));
}

fn open(disk_size: u64, has_parent: bool) -> (VhdxFile, WriteState) {
    let parsed = parse(&encode_header(&header(4)), &[]).unwrap();
    let known = KnownMetadata {
        disk_size,
        block_size: MB1 as u32,
        logical_sector_size: 512,
        physical_sector_size: 4096,
        has_parent,
        leave_blocks_allocated: true,
        page_83_data: 8,
    };
    VhdxFile::new(&parsed, &known, MB1 as u32, false).unwrap()
}

#[test]
fn open_file_says_what_the_metadata_says() {
    let (file, state) = open(GB1, true);
    assert_eq!(file.disk_size(), GB1);
    assert_eq!(file.block_size(), MB1 as u32);
    assert_eq!(file.logical_sector_size(), 512);
    assert_eq!(file.physical_sector_size(), 4096);
    assert!(file.has_parent());
    assert!(file.is_fully_allocated());
    assert!(!file.is_read_only());
    assert_eq!(state.data_write_guid(), 20);
    assert_eq!(state.log_guid, 0);
    assert_eq!(state.write_mode, None);
    assert_eq!(file.bat.data_block_count, 1024);
}

#[test]
fn open_with_a_bad_table_fails() {
    let parsed = parse(&encode_header(&header(4)), &[]).unwrap();
    let mut known = KnownMetadata {
        disk_size: GB1,
        block_size: MB1 as u32,
        logical_sector_size: 512,
        physical_sector_size: 512,
        has_parent: false,
        leave_blocks_allocated: false,
        page_83_data: 0,
    };
    assert!(matches!(
        VhdxFile::new(&parsed, &known, 8191, true),
        Err(VhdxError::Corrupt(CorruptionType::BatTooSmall))
    ));
    known.block_size = 0;
    assert!(matches!(
        VhdxFile::new(&parsed, &known, 8192, true),
        Err(VhdxError::Corrupt(CorruptionType::InvalidBlockSize))
    ));
}

#[test]
fn first_write_updates_header() {
    let (file, mut state) = open(GB1, false);
    let write = state
        .prepare_write_mode(&file, WriteMode::DataWritable, 100, 200)
        .unwrap();
    assert_eq!(write.offset, HEADER_OFFSET_2);
    assert_eq!(state.data_write_guid(), 200);
    assert_eq!(state.sequence_number, 5);
    assert_eq!(state.write_mode, None);
    state.commit_write_mode(WriteMode::DataWritable);
    assert_eq!(state.write_mode, Some(WriteMode::DataWritable));
    assert!(!state.first_header_current);
    let found = parse(&encode_header(&header(4)), &write.bytes).unwrap();
    assert_eq!(found.data_write_guid, 200);
    assert_eq!(found.file_write_guid, 100);
    assert_eq!(found.log_offset, file.log_offset);
    assert!(!found.first_header_current);
}

#[test]
fn second_write_no_header_update() {
    let (file, mut state) = open(GB1, false);
    state.prepare_write_mode(&file, WriteMode::DataWritable, 100, 200);
    state.commit_write_mode(WriteMode::DataWritable);
    for mode in [WriteMode::DataWritable, WriteMode::FileWritable] {
        assert!(state.prepare_write_mode(&file, mode, 101, 201).is_none());
    }
    assert_eq!(state.data_write_guid(), 200);
}

#[test]
fn file_writable_only_does_not_change_data_guid() {
    let (file, mut state) = open(GB1, false);
    assert!(state
        .prepare_write_mode(&file, WriteMode::FileWritable, 100, 200)
        .is_some());
    state.commit_write_mode(WriteMode::FileWritable);
    assert_eq!(state.data_write_guid(), 20);
    assert_eq!(state.file_write_guid, 100);
    assert_eq!(state.write_mode, Some(WriteMode::FileWritable));
    // Writing data asks for more.
    let write = state
        .prepare_write_mode(&file, WriteMode::DataWritable, 101, 201)
        .unwrap();
    assert_eq!(write.offset, HEADER_OFFSET_1);
    assert_eq!(state.data_write_guid(), 201);
}

#[test]
fn log_is_named_in_the_header_before_it_is_used() {
    let (file, mut state) = open(GB1, false);
    let write = state.prepare_log(&file, 55);
    assert_eq!(state.log_guid, 0);
    let found = validate_header(&write.bytes).unwrap();
    assert_eq!(found.log_guid, 55);
    assert_eq!(found.sequence_number, 5);
    state.commit_log(55);
    assert_eq!(state.log_guid, 55);
    assert!(!state.first_header_current);
    // Later headers keep it.
    let write = state
        .prepare_write_mode(&file, WriteMode::FileWritable, 1, 2)
        .unwrap();
    assert_eq!(validate_header(&write.bytes).unwrap().log_guid, 55);
}

fn table(file: &VhdxFile) -> BatState {
    let moving = InternalBlockMapping::new()
        .with_state(0)
        .with_transitioning_to_fully_present(true)
        .with_file_megabyte(3);
    let mut mappings = vec![InternalBlockMapping::new(); file.bat.data_block_count as usize];
    mappings[1] = moving;
    mappings[600] = InternalBlockMapping::new()
        .with_state(6)
        .with_file_megabyte(30);
    BatState {
        payload_mappings: mappings,
        sector_bitmap_mappings: vec![
            InternalBlockMapping::new();
            file.bat.sector_bitmap_block_count as usize
        ],
        allocated_block_count: 1,
    }
}

#[test]
fn open_bat_block_lookup() {
    let (file, _) = open(GB1, true);
    let state = table(&file);
    let mapping = file.get_block_mapping(&state, 600);
    assert_eq!(mapping.state, BatEntryState::FullyPresent);
    assert_eq!(mapping.file_offset, 30 * MB1);
    let mapping = file.get_block_mapping(&state, 0);
    assert_eq!(mapping.state, BatEntryState::NotPresent);
    assert_eq!(mapping.file_offset, 0);
    let mapping = file.get_sector_bitmap_mapping(&state, 0);
    assert_eq!(mapping.state, BatEntryState::NotPresent);
}

#[test]
fn clean_page_gets_one_entry() {
    let (file, _) = open(GB1, false);
    let state = table(&file);
    let mut dirty = DirtyBatPages::new(2);
    let write = dirty.write_bat_entry_to_cache(
        &file,
        &state,
        BlockType::Payload,
        600,
        state.get_payload_mapping(600),
    );
    let EntryWrite::Patch {
        key,
        byte_offset,
        entry,
    } = write
    else {
        panic!("expected one entry");
    };
    assert_eq!(key.offset, 4096);
    assert_eq!(byte_offset, (600 - 512) * 8);
    assert_eq!(
        entry,
        BatEntry::new().with_state(6).with_file_offset_mb(30)
    );
}

#[test]
fn dirty_page_is_rebuilt_and_clean_then() {
    let (file, _) = open(GB1, false);
    let state = table(&file);
    let mut dirty = DirtyBatPages::new(2);
    dirty.mark_dirty(1);
    assert!(dirty.is_dirty(1));
    assert!(!dirty.is_dirty(0));
    assert!(!dirty.is_dirty(2));
    let write = dirty.write_bat_entry_to_cache(
        &file,
        &state,
        BlockType::Payload,
        600,
        state.get_payload_mapping(600),
    );
    let EntryWrite::Replace { key, page } = write else {
        panic!("expected a page");
    };
    assert_eq!(key.offset, 4096);
    assert_eq!(page, file.produce_bat_page(&state, 1));
    assert!(!dirty.is_dirty(1));
}

#[test]
fn flush_takes_every_dirty_page() {
    let (file, _) = open(GB1, false);
    let state = table(&file);
    let mut dirty = DirtyBatPages::new(2);
    dirty.mark_dirty(0);
    dirty.mark_dirty(1);
    let pages = dirty.flush_dirty_bat_pages(&file, &state);
    assert_eq!(pages.len(), 2);
    assert_eq!(pages[0].0, 0);
    assert_eq!(
        read_bat_entry_raw(&pages[0].1, 1),
        BatEntry::new().with_state(0).with_file_offset_mb(3)
    );
    assert_eq!(
        read_bat_entry_raw(&pages[1].1, 600),
        BatEntry::new().with_state(6).with_file_offset_mb(30)
    );
    assert!(dirty.flush_dirty_bat_pages(&file, &state).is_empty());
    dirty.mark_dirty(1);
    dirty.clear_dirty(1);
    assert!(dirty.flush_dirty_bat_pages(&file, &state).is_empty());
}

#[test]
fn non_differencing_no_locator() {
    let (file, _) = open(GB1, false);
    assert!(file.parent_locator(&[]).unwrap().is_none());
}

#[test]
fn differencing_has_locator() {
    let (file, _) = open(GB1, true);
    let item = build_locator(
        PARENT_LOCATOR_VHDX_TYPE_GUID,
        &[("relative_path", "..\\base.vhdx")],
    );
    let locator = file.parent_locator(&item).unwrap().unwrap();
    assert_eq!(locator.find("relative_path"), Some("..\\base.vhdx"));
    assert!(matches!(
        file.parent_locator(&[]),
        Err(VhdxError::Corrupt(CorruptionType::LocatorTooSmallForHeader))
    ));
}
