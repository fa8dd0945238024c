//! Requests on the virtual disk, run against a file in memory.

use std::collections::BTreeMap;

use vm_devices::vhdx::bat::{BatState, BlockType, InternalBlockMapping};
use vm_devices::vhdx::bat_load::SpaceMark;
use vm_devices::vhdx::complete::{
    CompletionAction, CompletionEvent, CompletionOutcome, WriteCompletion,
};
use vm_devices::vhdx::error::{io_error, CorruptionType, IoErrorKind, VhdxError};
use vm_devices::vhdx::format::{BatEntry, BatEntryState, DEFAULT_BLOCK_SIZE, GB1, MB1};
use vm_devices::vhdx::header::ParsedHeader;
use vm_devices::vhdx::io::{FlushAction, FlushEvent, ReadRange, ReadStep, WriteRange};
use vm_devices::vhdx::io_guard::{ReadIoGuard, WriteIoGuard};
use vm_devices::vhdx::open::{KnownMetadata, VhdxFile};
use vm_devices::vhdx::refcount::BatGuard;
use vm_devices::vhdx::rollback::{AbortOutcome, WriteCompletionRecords};
use vm_devices::vhdx::segment::{split_request, Segment};
use vm_devices::vhdx::write::{
    is_soft_anchored, SpaceRelease, SpaceState, WriteAction, WriteEvent, WriteOp,
};

struct Setup {
    disk_size: u64,
    block_size: u32,
    sector: u32,
    has_parent: bool,
    read_only: bool,
}

const PLAIN: Setup = Setup {
    disk_size: GB1,
    block_size: DEFAULT_BLOCK_SIZE,
    sector: 512,
    has_parent: false,
    read_only: false,
};

/// A disk with its table and its file.
struct Sim {
    disk: VhdxFile,
    state: BatState,
    /// The file, by sector.
    file: BTreeMap<u64, [u8; 512]>,
    end: u64,
    /// Space to hand out before the file is extended.
    pool: Vec<(u64, SpaceState)>,
    reclaim: bool,
    /// The number of allocations that succeed.
    allocations: usize,
    persisted: Vec<(BlockType, u32, InternalBlockMapping)>,
    bitmap: Vec<(u64, u32)>,
    flushes: usize,
    /// What the last write has recorded.
    records: WriteCompletionRecords,
}

impl Sim {
    fn new(setup: Setup, entries: &[(usize, u8, u64)]) -> Sim {
        let header = ParsedHeader {
            sequence_number: 1,
            file_write_guid: 2,
            data_write_guid: 3,
            log_guid: 0,
            log_offset: MB1,
            log_length: MB1 as u32,
            version: 1,
            first_header_current: true,
        };
        let known = KnownMetadata {
            disk_size: setup.disk_size,
            block_size: setup.block_size,
            logical_sector_size: setup.sector,
            physical_sector_size: 4096,
            has_parent: setup.has_parent,
            leave_blocks_allocated: false,
            page_83_data: 9,
        };
        let (disk, _) = VhdxFile::new(&header, &known, MB1 as u32, setup.read_only).unwrap();
        let mut payload = vec![BatEntry::new(); disk.bat.data_block_count as usize];
        for &(block, state, mb) in entries {
            payload[block] = BatEntry::new().with_state(state).with_file_offset_mb(mb);
        }
        let bitmaps = vec![BatEntry::new(); disk.bat.sector_bitmap_block_count as usize];
        let mut marks: Vec<SpaceMark> = Vec::new();
        let state = disk
            .bat
            .load_bat_state(&payload, &bitmaps, &mut marks)
            .unwrap();
        Sim {
            disk,
            state,
            file: BTreeMap::new(),
            end: 200 * MB1,
            pool: Vec::new(),
            reclaim: true,
            allocations: usize::MAX,
            persisted: Vec::new(),
            bitmap: Vec::new(),
            flushes: 0,
            records: WriteCompletionRecords {
                tfp_records: Vec::new(),
            },
        }
    }

    fn read(&self, offset: u64, len: u32) -> Result<Vec<ReadStep>, VhdxError> {
        let mut steps = Vec::new();
        self.disk
            .resolve_read(&self.state, offset, len, &mut steps)?;
        Ok(steps)
    }

    fn allocate(&mut self, length: u32) -> Option<(u64, SpaceState)> {
        if self.allocations == 0 {
            return None;
        }
        self.allocations -= 1;
        if let Some(space) = self.pool.pop() {
            return Some(space);
        }
        let at = self.end;
        self.end += length as u64;
        Some((at, SpaceState::Zero))
    }

    /// Resolves a write, to its end or to where it fails or has to wait.
    fn drive(&mut self, op: &mut WriteOp) -> Result<Option<u32>, VhdxError> {
        let mut event = WriteEvent::Continue;
        loop {
            let action = self.disk.resolve_write(op, &mut self.state, event);
            event = match action {
                WriteAction::Again => WriteEvent::Continue,
                WriteAction::WaitForBlock(block) => return Ok(Some(block)),
                WriteAction::Lock => WriteEvent::Locked,
                WriteAction::UnlockAndWait => return Ok(Some(u32::MAX)),
                WriteAction::Reclaim { .. } => WriteEvent::Reclaimed(self.reclaim),
                WriteAction::Allocate { length } => match self.allocate(length) {
                    Some((file_offset, state)) => WriteEvent::Space { file_offset, state },
                    None => return Err(io_error(IoErrorKind::Other, "no space")),
                },
                WriteAction::AllocateBitmap { length, .. } => match self.allocate(length) {
                    Some((file_offset, _)) => WriteEvent::BitmapSpace { file_offset },
                    None => return Err(io_error(IoErrorKind::Other, "no space")),
                },
                WriteAction::Persist {
                    block_type,
                    number,
                    mapping,
                } => {
                    self.persisted.push((block_type, number, mapping));
                    WriteEvent::Persisted
                }
                WriteAction::RequireFlush(_) => {
                    self.flushes += 1;
                    WriteEvent::Continue
                }
                WriteAction::Finished => return Ok(None),
            };
        }
    }

    fn resolve(&mut self, offset: u64, len: u32) -> Result<(Vec<WriteRange>, bool), VhdxError> {
        let Some(mut op) = self.disk.begin_write(offset, len)? else {
            return Ok((Vec::new(), false));
        };
        match self.drive(&mut op) {
            Ok(None) => {
                let (ranges, flush, records) = op.finish();
                self.records = records;
                Ok((ranges, flush))
            }
            Ok(Some(block)) => panic!("the write waits for block {block}"),
            Err(e) => {
                op.fail(&self.disk, &mut self.state);
                Err(e)
            }
        }
    }

    fn abort(&mut self) -> AbortOutcome {
        self.disk.abort_write_sync(&mut self.state, &self.records)
    }

    fn settle(&mut self, offset: u64, len: u32, flush: bool, fail: bool) -> CompletionOutcome {
        let mut op: WriteCompletion = self.disk.begin_completion(offset, len, flush).unwrap();
        let mut event = CompletionEvent::Continue;
        loop {
            let action = self
                .disk
                .complete_write_inner(&mut op, &mut self.state, event);
            event = match action {
                CompletionAction::Again => CompletionEvent::Continue,
                CompletionAction::Persist {
                    block_number,
                    mapping,
                } => {
                    self.persisted
                        .push((BlockType::Payload, block_number, mapping));
                    CompletionEvent::Persisted(if fail {
                        Err(io_error(IoErrorKind::Other, "cache"))
                    } else {
                        Ok(())
                    })
                }
                CompletionAction::SetBitmapBits {
                    virtual_offset,
                    length,
                } => {
                    self.bitmap.push((virtual_offset, length));
                    CompletionEvent::BitmapSet(if fail {
                        Err(io_error(IoErrorKind::Other, "bitmap"))
                    } else {
                        Ok(())
                    })
                }
                CompletionAction::RequireFlush(_) => {
                    self.flushes += 1;
                    CompletionEvent::Continue
                }
                CompletionAction::Finished => return op.finish(),
            };
        }
    }

    fn put(&mut self, offset: u64, data: &[u8]) {
        assert_eq!(offset % 512, 0);
        for (i, sector) in data.chunks(512).enumerate() {
            let mut bytes = [0; 512];
            bytes.copy_from_slice(sector);
            self.file.insert(offset + 512 * i as u64, bytes);
        }
    }

    fn get(&self, offset: u64, len: u32) -> Vec<u8> {
        let mut data = Vec::new();
        for at in (offset..offset + len as u64).step_by(512) {
            data.extend_from_slice(self.file.get(&at).unwrap_or(&[0; 512]));
        }
        data
    }

    fn write_data(&mut self, offset: u64, data: &[u8]) {
        let len = data.len() as u32;
        let (ranges, flush) = self.resolve(offset, len).unwrap();
        for range in ranges {
            match range {
                WriteRange::Data {
                    guest_offset,
                    length,
                    file_offset,
                } => {
                    let from = (guest_offset - offset) as usize;
                    self.put(file_offset, &data[from..from + length as usize]);
                }
                WriteRange::Zero {
                    file_offset,
                    length,
                } => self.put(file_offset, &vec![0; length as usize]),
            }
        }
        let outcome = self.settle(offset, len, flush, false);
        assert!(outcome.result.is_ok());
    }

    fn read_data(&self, offset: u64, len: u32) -> Vec<u8> {
        let mut data = Vec::new();
        for step in self.read(offset, len).unwrap() {
            match step {
                ReadStep::Range(ReadRange::Data {
                    length,
                    file_offset,
                    ..
                }) => data.extend(self.get(file_offset, length)),
                ReadStep::Range(ReadRange::Zero { length, .. }) => {
                    data.extend(vec![0; length as usize])
                }
                other => panic!("unexpected {other:?}"),
            }
        }
        data
    }
}

fn zero(guest_offset: u64, length: u32) -> ReadStep {
    ReadStep::Range(ReadRange::Zero {
        guest_offset,
        length,
    })
}

fn data_of(ranges: &[WriteRange]) -> Vec<(u64, u32)> {
    ranges
        .iter()
        .filter_map(|range| match *range {
            WriteRange::Data {
                guest_offset,
                length,
                ..
            } => Some((guest_offset, length)),
            WriteRange::Zero { .. } => None,
        })
        .collect()
}

#[test]
fn read_empty_disk_returns_zero() {
    let sim = Sim::new(PLAIN, &[]);
    assert_eq!(sim.read(0, 4096).unwrap(), [zero(0, 4096)]);
}

#[test]
fn read_zero_length() {
    let sim = Sim::new(PLAIN, &[]);
    assert!(sim.read(0, 0).unwrap().is_empty());
    let mut steps = Vec::new();
    let guard = sim.disk.resolve_read(&sim.state, 0, 0, &mut steps).unwrap();
    assert_eq!(guard, BatGuard::empty());
}

#[test]
fn read_beyond_end_of_disk() {
    let sim = Sim::new(PLAIN, &[]);
    assert!(matches!(
        sim.read(GB1 - 512, 1024),
        Err(VhdxError::Corrupt(CorruptionType::ReadBeyondEndOfDisk))
    ));
    assert!(matches!(
        sim.read(u64::MAX - 511, 512),
        Err(VhdxError::Corrupt(CorruptionType::ReadBeyondEndOfDisk))
    ));
}

#[test]
fn read_at_disk_end_exact() {
    let sim = Sim::new(PLAIN, &[]);
    assert_eq!(
        sim.read(GB1 - 4096, 4096).unwrap(),
        [zero(GB1 - 4096, 4096)]
    );
}

#[test]
fn read_fully_present_block() {
    let sim = Sim::new(PLAIN, &[(0, 6, 4)]);
    assert_eq!(
        sim.read(0, 4096).unwrap(),
        [ReadStep::Range(ReadRange::Data {
            guest_offset: 0,
            length: 4096,
            file_offset: 4 * MB1,
        })]
    );
}

#[test]
fn read_spanning_two_blocks() {
    let sim = Sim::new(PLAIN, &[]);
    let block_size = sim.disk.block_size() as u64;
    assert_eq!(
        sim.read(block_size - 512, 1024).unwrap(),
        [zero(block_size - 512, 512), zero(block_size, 512)]
    );
}

#[test]
fn read_spanning_multiple_blocks() {
    let sim = Sim::new(
        Setup {
            disk_size: 4 * MB1,
            block_size: MB1 as u32,
            ..PLAIN
        },
        &[],
    );
    let half = (MB1 / 2) as u32;
    assert_eq!(
        sim.read(MB1 / 2, 2 * MB1 as u32).unwrap(),
        [
            zero(MB1 / 2, half),
            zero(MB1, MB1 as u32),
            zero(2 * MB1, half)
        ]
    );
    assert_eq!(
        sim.disk.request_blocks(MB1 / 2, 2 * MB1 as u32),
        BatGuard {
            start_block: 0,
            block_count: 3
        }
    );
}

#[test]
fn read_unaligned_within_block() {
    let sim = Sim::new(PLAIN, &[(0, 6, 4)]);
    assert_eq!(
        sim.read(5120, 512).unwrap(),
        [ReadStep::Range(ReadRange::Data {
            guest_offset: 5120,
            length: 512,
            file_offset: 4 * MB1 + 5120,
        })]
    );
}

#[test]
fn read_differencing_not_present() {
    let sim = Sim::new(
        Setup {
            has_parent: true,
            ..PLAIN
        },
        &[(1, 7, 5)],
    );
    assert_eq!(
        sim.read(0, 4096).unwrap(),
        [ReadStep::Range(ReadRange::Unmapped {
            guest_offset: 0,
            length: 4096,
        })]
    );
    let block_size = sim.disk.block_size() as u64;
    assert_eq!(
        sim.read(block_size + 512, 512).unwrap(),
        [ReadStep::PartialBlock {
            block_file_offset: 5 * MB1,
            guest_offset: block_size + 512,
            length: 512,
        }]
    );
}

#[test]
fn read_of_blocks_without_data_is_zero() {
    for state in [1, 2, 3] {
        let sim = Sim::new(PLAIN, &[(0, state, 0)]);
        assert_eq!(sim.read(0, 4096).unwrap(), [zero(0, 4096)]);
    }
}

#[test]
fn read_entire_disk() {
    let disk_size = 4 * MB1;
    let sim = Sim::new(Setup { disk_size, ..PLAIN }, &[]);
    assert_eq!(
        sim.read(0, disk_size as u32).unwrap(),
        [
            zero(0, DEFAULT_BLOCK_SIZE),
            zero(DEFAULT_BLOCK_SIZE as u64, DEFAULT_BLOCK_SIZE)
        ]
    );
}

#[test]
fn read_4k_sector_disk() {
    let sim = Sim::new(
        Setup {
            sector: 4096,
            ..PLAIN
        },
        &[],
    );
    assert_eq!(sim.read(0, 4096).unwrap(), [zero(0, 4096)]);
    assert!(matches!(
        sim.read(512, 4096),
        Err(VhdxError::Corrupt(CorruptionType::UnalignedIo))
    ));
    assert!(matches!(
        sim.read(0, 512),
        Err(VhdxError::Corrupt(CorruptionType::UnalignedIo))
    ));
}

#[test]
fn write_to_empty_block() {
    let mut sim = Sim::new(PLAIN, &[]);
    let (ranges, flush) = sim.resolve(0, 4096).unwrap();
    assert_eq!(
        ranges,
        [WriteRange::Data {
            guest_offset: 0,
            length: 4096,
            file_offset: 200 * MB1,
        }]
    );
    assert!(!flush);
    let mapping = sim.state.get_payload_mapping(0);
    assert_eq!(sim.persisted, [(BlockType::Payload, 0, mapping)]);
    assert_eq!(mapping.file_megabyte(), 200);
}

#[test]
fn write_to_fully_present_block() {
    let mut sim = Sim::new(PLAIN, &[(0, 6, 4)]);
    let (ranges, _) = sim.resolve(0, 4096).unwrap();
    assert_eq!(
        ranges,
        [WriteRange::Data {
            guest_offset: 0,
            length: 4096,
            file_offset: 4 * MB1,
        }]
    );
    assert_eq!(sim.end, 200 * MB1);
    assert!(sim.persisted.is_empty());
}

#[test]
fn write_spanning_two_blocks() {
    let mut sim = Sim::new(PLAIN, &[]);
    let block_size = sim.disk.block_size() as u64;
    let (ranges, _) = sim.resolve(block_size - 512, 1024).unwrap();
    assert_eq!(data_of(&ranges), [(block_size - 512, 512), (block_size, 512)]);
}

#[test]
fn write_then_read_roundtrip() {
    let mut sim = Sim::new(PLAIN, &[]);
    let pattern: Vec<u8> = (0..512u16).map(|i| (i % 256) as u8).collect();
    sim.write_data(0, &pattern);
    assert_eq!(sim.read_data(0, 512), pattern);
    assert!(matches!(
        sim.read(0, 512).unwrap()[0],
        ReadStep::Range(ReadRange::Data { length: 512, .. })
    ));
}

#[test]
fn write_partial_block() {
    let mut sim = Sim::new(PLAIN, &[]);
    let (ranges, _) = sim.resolve(4096, 512).unwrap();
    assert_eq!(data_of(&ranges), [(4096, 512)]);
}

#[test]
fn write_full_block() {
    let mut sim = Sim::new(PLAIN, &[]);
    let (ranges, _) = sim.resolve(0, DEFAULT_BLOCK_SIZE).unwrap();
    assert_eq!(
        ranges,
        [WriteRange::Data {
            guest_offset: 0,
            length: DEFAULT_BLOCK_SIZE,
            file_offset: 200 * MB1,
        }]
    );
}

#[test]
fn write_zero_length() {
    let mut sim = Sim::new(PLAIN, &[]);
    assert!(sim.resolve(0, 0).unwrap().0.is_empty());
    assert!(sim.disk.begin_completion(0, 0, false).is_none());
    let outcome = sim.abort();
    assert!(outcome.releases.is_empty());
    assert!(!outcome.notify);
}

#[test]
fn write_beyond_end_of_disk() {
    let mut sim = Sim::new(PLAIN, &[]);
    assert!(matches!(
        sim.resolve(GB1 - 512, 1024),
        Err(VhdxError::Corrupt(CorruptionType::ReadBeyondEndOfDisk))
    ));
    assert!(matches!(
        sim.resolve(1, 512),
        Err(VhdxError::Corrupt(CorruptionType::UnalignedIo))
    ));
}

#[test]
fn write_read_only() {
    let mut sim = Sim::new(
        Setup {
            read_only: true,
            ..PLAIN
        },
        &[],
    );
    assert!(matches!(sim.resolve(0, 4096), Err(VhdxError::ReadOnly)));
    // Even a write of nothing.
    assert!(matches!(sim.resolve(0, 0), Err(VhdxError::ReadOnly)));
    assert!(matches!(
        sim.disk.flush(FlushEvent::Start),
        Err(VhdxError::ReadOnly)
    ));
}

#[test]
fn write_large_spanning_many_blocks() {
    let mut sim = Sim::new(
        Setup {
            disk_size: 4 * MB1,
            block_size: MB1 as u32,
            ..PLAIN
        },
        &[],
    );
    let half = MB1 / 2;
    let (ranges, _) = sim.resolve(half, 3 * MB1 as u32).unwrap();
    assert_eq!(
        data_of(&ranges),
        [
            (half, half as u32),
            (MB1, MB1 as u32),
            (2 * MB1, MB1 as u32),
            (3 * MB1, half as u32)
        ]
    );
}

#[test]
fn resolve_write_sets_tfp_on_full_block() {
    let mut sim = Sim::new(PLAIN, &[]);
    sim.resolve(0, DEFAULT_BLOCK_SIZE).unwrap();
    let mapping = sim.state.get_payload_mapping(0);
    assert!(mapping.transitioning_to_fully_present());
    assert_eq!(mapping.file_megabyte(), 200);
    assert_eq!(mapping.bat_state(), BatEntryState::NotPresent);
    // Nothing is written to the table before the data is.
    assert!(sim.persisted.is_empty());
    // The data is not there yet.
    assert_eq!(sim.read(0, 512).unwrap(), [zero(0, 512)]);
}

#[test]
fn resolve_write_no_tfp_on_partial_block() {
    let mut sim = Sim::new(PLAIN, &[]);
    sim.resolve(0, 512).unwrap();
    let mapping = sim.state.get_payload_mapping(0);
    assert!(!mapping.transitioning_to_fully_present());
    assert_eq!(mapping.bat_state(), BatEntryState::FullyPresent);
}

#[test]
fn write_read_roundtrip_multi_block() {
    let mut sim = Sim::new(
        Setup {
            disk_size: 4 * MB1,
            block_size: MB1 as u32,
            ..PLAIN
        },
        &[],
    );
    let pattern: Vec<u8> = (0..2 * MB1).map(|i| (i % 251) as u8).collect();
    sim.write_data(0, &pattern);
    assert_eq!(sim.read_data(0, 2 * MB1 as u32), pattern);
    // Across block boundaries, and over what is there.
    let other: Vec<u8> = (0..MB1 + 1024).map(|i| (i % 241) as u8).collect();
    sim.write_data(MB1 / 2, &other);
    assert_eq!(sim.read_data(MB1 / 2, MB1 as u32 + 1024), other);
    assert_eq!(sim.read_data(0, 512), pattern[..512]);
    assert_eq!(sim.read_data(3 * MB1, 512), vec![0; 512]);
}

#[test]
fn complete_write_clears_tfp() {
    let mut sim = Sim::new(PLAIN, &[]);
    sim.resolve(0, DEFAULT_BLOCK_SIZE).unwrap();
    let outcome = sim.settle(0, DEFAULT_BLOCK_SIZE, false, false);
    assert!(outcome.notify);
    assert!(outcome.result.is_ok());
    let mapping = sim.state.get_payload_mapping(0);
    assert!(!mapping.transitioning_to_fully_present());
    assert_eq!(mapping.bat_state(), BatEntryState::FullyPresent);
    assert_eq!(mapping.file_megabyte(), 200);
    assert_eq!(sim.persisted, [(BlockType::Payload, 0, mapping)]);
    assert_eq!(sim.flushes, 0);
}

#[test]
fn completion_settles_every_block_after_a_failure() {
    let mut sim = Sim::new(PLAIN, &[]);
    let len = 3 * DEFAULT_BLOCK_SIZE;
    sim.resolve(0, len).unwrap();
    let outcome = sim.settle(0, len, true, true);
    assert!(outcome.notify);
    assert!(matches!(outcome.result, Err(VhdxError::Io(e)) if e.message == "cache"));
    // Only the first mapping was written; no block is left transitioning.
    assert_eq!(sim.persisted.len(), 1);
    assert_eq!(sim.flushes, 0);
    for block in 0..3 {
        let mapping = sim.state.get_payload_mapping(block);
        assert!(!mapping.transitioning_to_fully_present());
        assert_eq!(mapping.bat_state(), BatEntryState::FullyPresent);
    }
}

#[test]
fn completion_requires_a_flush_for_each_unsafe_block() {
    let mut sim = Sim::new(PLAIN, &[]);
    sim.pool = vec![(50 * MB1, SpaceState::CrossStale)];
    let len = 2 * DEFAULT_BLOCK_SIZE;
    let (_, flush) = sim.resolve(0, len).unwrap();
    assert!(flush);
    let outcome = sim.settle(0, len, flush, false);
    assert!(outcome.result.is_ok());
    assert_eq!(sim.flushes, 2);
}

#[test]
fn abort_write_reverts_bat() {
    let mut sim = Sim::new(PLAIN, &[]);
    let len = 2 * DEFAULT_BLOCK_SIZE;
    sim.resolve(0, len).unwrap();
    assert!(sim
        .state
        .get_payload_mapping(1)
        .transitioning_to_fully_present());
    let outcome = sim.abort();
    assert!(outcome.notify);
    assert_eq!(
        outcome.releases,
        [
            SpaceRelease {
                file_offset: 200 * MB1,
                length: DEFAULT_BLOCK_SIZE
            },
            SpaceRelease {
                file_offset: 202 * MB1,
                length: DEFAULT_BLOCK_SIZE
            }
        ]
    );
    assert_eq!(outcome.dirty_pages, [0, 0]);
    for block in 0..2 {
        let mapping = sim.state.get_payload_mapping(block);
        assert_eq!(mapping.bat_state(), BatEntryState::NotPresent);
        assert_eq!(mapping.file_megabyte(), 0);
        assert!(!mapping.transitioning_to_fully_present());
    }
}

#[test]
fn abort_keeps_the_space_of_a_partial_block() {
    let mut sim = Sim::new(
        Setup {
            has_parent: true,
            ..PLAIN
        },
        &[(0, 7, 5)],
    );
    let before = sim.state.get_payload_mapping(0);
    let (ranges, _) = sim.resolve(0, DEFAULT_BLOCK_SIZE).unwrap();
    assert_eq!(
        ranges,
        [WriteRange::Data {
            guest_offset: 0,
            length: DEFAULT_BLOCK_SIZE,
            file_offset: 5 * MB1
        }]
    );
    assert!(sim
        .state
        .get_payload_mapping(0)
        .transitioning_to_fully_present());
    let outcome = sim.abort();
    assert!(outcome.releases.is_empty());
    assert_eq!(sim.state.get_payload_mapping(0), before);
    assert_eq!(outcome.dirty_pages, [0]);
    // There is nothing left to abort.
    let outcome = sim.abort();
    assert!(outcome.dirty_pages.is_empty());
    assert!(!outcome.notify);
}

#[test]
fn abort_gives_a_trimmed_block_its_space_back() {
    let mut sim = Sim::new(
        Setup {
            disk_size: 2 * GB1,
            ..PLAIN
        },
        &[(600, 3, 7)],
    );
    let before = sim.state.get_payload_mapping(600);
    let offset = 600 * DEFAULT_BLOCK_SIZE as u64;
    let (ranges, _) = sim.resolve(offset, DEFAULT_BLOCK_SIZE).unwrap();
    assert_eq!(data_of(&ranges), [(offset, DEFAULT_BLOCK_SIZE)]);
    assert_ne!(sim.state.get_payload_mapping(600), before);
    let outcome = sim.abort();
    assert_eq!(sim.state.get_payload_mapping(600), before);
    assert!(outcome.releases.is_empty());
    assert_eq!(outcome.dirty_pages, [1]);
    assert!(outcome.notify);
    // Space that it got instead is released.
    sim.reclaim = false;
    sim.resolve(offset, DEFAULT_BLOCK_SIZE).unwrap();
    let outcome = sim.abort();
    assert_eq!(sim.state.get_payload_mapping(600), before);
    assert_eq!(
        outcome.releases,
        [SpaceRelease {
            file_offset: 200 * MB1,
            length: DEFAULT_BLOCK_SIZE
        }]
    );
}

#[test]
fn failed_write_keeps_the_space_of_a_trimmed_block() {
    let mut sim = Sim::new(PLAIN, &[(0, 3, 7)]);
    let before = sim.state.get_payload_mapping(0);
    sim.allocations = 0;
    let mut op = sim
        .disk
        .begin_write(0, 2 * DEFAULT_BLOCK_SIZE)
        .unwrap()
        .unwrap();
    assert!(sim.drive(&mut op).is_err());
    assert!(op.fail(&sim.disk, &mut sim.state).is_empty());
    assert_eq!(sim.state.get_payload_mapping(0), before);
}

#[test]
fn failed_bitmap_update_leaves_no_block_transitioning() {
    let mut sim = Sim::new(
        Setup {
            has_parent: true,
            ..PLAIN
        },
        &[(0, 7, 5)],
    );
    // A partial block, and then one that is covered as a whole.
    let offset = DEFAULT_BLOCK_SIZE as u64 - 512;
    let len = DEFAULT_BLOCK_SIZE + 512;
    sim.resolve(offset, len).unwrap();
    assert!(sim
        .state
        .get_payload_mapping(1)
        .transitioning_to_fully_present());
    sim.persisted.clear();
    let outcome = sim.settle(offset, len, false, true);
    assert!(matches!(outcome.result, Err(VhdxError::Io(e)) if e.message == "bitmap"));
    assert!(outcome.notify);
    let mapping = sim.state.get_payload_mapping(1);
    assert!(!mapping.transitioning_to_fully_present());
    assert_eq!(mapping.bat_state(), BatEntryState::FullyPresent);
    // Nothing is written to the table after the failure.
    assert!(sim.persisted.is_empty());
}

#[test]
fn abort_write_allows_subsequent_write() {
    let mut sim = Sim::new(PLAIN, &[]);
    sim.resolve(0, DEFAULT_BLOCK_SIZE).unwrap();
    sim.abort();
    sim.resolve(0, DEFAULT_BLOCK_SIZE).unwrap();
    sim.settle(0, DEFAULT_BLOCK_SIZE, false, false);
    assert_eq!(
        sim.state.get_payload_mapping(0).bat_state(),
        BatEntryState::FullyPresent
    );
}

#[test]
fn resolve_write_error_reverts_tfp() {
    let mut sim = Sim::new(PLAIN, &[]);
    sim.allocations = 1;
    let len = 2 * DEFAULT_BLOCK_SIZE;
    let mut op = sim.disk.begin_write(0, len).unwrap().unwrap();
    assert!(sim.drive(&mut op).is_err());
    assert!(sim
        .state
        .get_payload_mapping(0)
        .transitioning_to_fully_present());
    let releases = op.fail(&sim.disk, &mut sim.state);
    assert_eq!(
        releases,
        [SpaceRelease {
            file_offset: 200 * MB1,
            length: DEFAULT_BLOCK_SIZE
        }]
    );
    assert_eq!(
        sim.state.get_payload_mapping(0),
        InternalBlockMapping::new()
    );
    sim.allocations = usize::MAX;
    sim.resolve(0, len).unwrap();
}

#[test]
fn safe_data_skips_zero_padding() {
    let mut sim = Sim::new(PLAIN, &[]);
    let block_size = DEFAULT_BLOCK_SIZE;
    let (ranges, _) = sim.resolve(0, 512).unwrap();
    assert_eq!(ranges.len(), 1);
    // Space that was used before is padded, and its page is flushed first.
    sim.pool = vec![(50 * MB1, SpaceState::CrossStale)];
    let (ranges, flush) = sim.resolve(block_size as u64 + 1024, 512).unwrap();
    assert_eq!(
        ranges,
        [
            WriteRange::Zero {
                file_offset: 50 * MB1,
                length: 1024
            },
            WriteRange::Data {
                guest_offset: block_size as u64 + 1024,
                length: 512,
                file_offset: 50 * MB1 + 1024
            },
            WriteRange::Zero {
                file_offset: 50 * MB1 + 1536,
                length: block_size - 1536
            }
        ]
    );
    assert!(!flush);
    assert_eq!(sim.flushes, 1);
}

#[test]
fn trimmed_block_takes_its_space_back() {
    let mut sim = Sim::new(PLAIN, &[(0, 3, 7), (1, 3, 9)]);
    assert!(is_soft_anchored(sim.state.get_payload_mapping(0)));
    let (ranges, _) = sim.resolve(0, 512).unwrap();
    assert_eq!(
        ranges,
        [
            WriteRange::Data {
                guest_offset: 0,
                length: 512,
                file_offset: 7 * MB1
            },
            WriteRange::Zero {
                file_offset: 7 * MB1 + 512,
                length: DEFAULT_BLOCK_SIZE - 512
            }
        ]
    );
    // Its own old data needs no flush.
    assert_eq!(sim.flushes, 0);
    // If it is gone, other space is allocated.
    sim.reclaim = false;
    let (ranges, _) = sim.resolve(DEFAULT_BLOCK_SIZE as u64, 512).unwrap();
    assert_eq!(
        ranges,
        [WriteRange::Data {
            guest_offset: DEFAULT_BLOCK_SIZE as u64,
            length: 512,
            file_offset: 200 * MB1
        }]
    );
}

#[test]
fn partial_write_of_a_differencing_disk_needs_its_bitmap() {
    let mut sim = Sim::new(
        Setup {
            has_parent: true,
            ..PLAIN
        },
        &[],
    );
    let (ranges, _) = sim.resolve(512, 512).unwrap();
    assert_eq!(
        ranges,
        [WriteRange::Data {
            guest_offset: 512,
            length: 512,
            file_offset: 200 * MB1 + 512
        }]
    );
    let bitmap = sim.state.get_sbm_mapping(0);
    assert_eq!(bitmap.bat_state(), BatEntryState::FullyPresent);
    assert_eq!(bitmap.file_megabyte(), 202);
    let mapping = sim.state.get_payload_mapping(0);
    assert_eq!(mapping.bat_state(), BatEntryState::PartiallyPresent);
    // The bitmap block comes first in the table.
    assert_eq!(
        sim.persisted,
        [
            (BlockType::SectorBitmap, 0, bitmap),
            (BlockType::Payload, 0, mapping)
        ]
    );
    let outcome = sim.settle(512, 512, false, false);
    assert!(!outcome.notify);
    assert!(outcome.result.is_ok());
    assert_eq!(sim.bitmap, [(512, 512)]);
    // The next block of the chunk finds the bitmap block there.
    sim.persisted.clear();
    sim.resolve(DEFAULT_BLOCK_SIZE as u64, 512).unwrap();
    assert_eq!(sim.persisted.len(), 1);
    // A failure to set the bits is reported.
    let outcome = sim.settle(512, 512, false, true);
    assert!(matches!(outcome.result, Err(VhdxError::Io(e)) if e.message == "bitmap"));
}

#[test]
fn partial_writes_of_one_block_share_its_space() {
    let mut sim = Sim::new(
        Setup {
            has_parent: true,
            ..PLAIN
        },
        &[],
    );
    // Both writes have scanned the block before one of them allocates it.
    let mut first = sim.disk.begin_write(0, 512).unwrap().unwrap();
    let mut second = sim.disk.begin_write(1024, 512).unwrap().unwrap();
    for op in [&mut first, &mut second] {
        let action = sim
            .disk
            .resolve_write(op, &mut sim.state, WriteEvent::Continue);
        assert_eq!(action, WriteAction::Lock);
        let action = sim
            .disk
            .resolve_write(op, &mut sim.state, WriteEvent::Locked);
        assert_eq!(action, WriteAction::Again);
    }
    assert_eq!(sim.drive(&mut first).unwrap(), None);
    let mapping = sim.state.get_payload_mapping(0);
    assert_eq!(mapping.bat_state(), BatEntryState::PartiallyPresent);
    assert_eq!(sim.drive(&mut second).unwrap(), None);
    assert_eq!(sim.state.get_payload_mapping(0), mapping);
    assert_eq!(
        second.finish().0,
        [WriteRange::Data {
            guest_offset: 1024,
            length: 512,
            file_offset: mapping.file_offset() + 1024
        }]
    );
    // Each completion marks its own sectors.
    sim.settle(0, 512, false, false);
    sim.settle(1024, 512, false, false);
    assert_eq!(sim.bitmap, [(0, 512), (1024, 512)]);
}

#[test]
fn overlapping_writes_wait_for_each_other() {
    let mut sim = Sim::new(PLAIN, &[]);
    let len = DEFAULT_BLOCK_SIZE;
    // Both writes have scanned the block before one of them allocates it.
    let mut first = sim.disk.begin_write(0, len).unwrap().unwrap();
    let mut second = sim.disk.begin_write(0, len).unwrap().unwrap();
    let action = sim
        .disk
        .resolve_write(&mut first, &mut sim.state, WriteEvent::Continue);
    assert_eq!(action, WriteAction::Lock);
    let action = sim
        .disk
        .resolve_write(&mut second, &mut sim.state, WriteEvent::Continue);
    assert_eq!(action, WriteAction::Lock);
    let mut event = WriteEvent::Locked;
    while event != WriteEvent::Persisted {
        event = match sim.disk.resolve_write(&mut first, &mut sim.state, event) {
            WriteAction::Again => WriteEvent::Continue,
            WriteAction::Allocate { .. } => WriteEvent::Space {
                file_offset: 60 * MB1,
                state: SpaceState::Zero,
            },
            WriteAction::Finished => break,
            other => panic!("unexpected {other:?}"),
        };
    }
    let action = sim
        .disk
        .resolve_write(&mut second, &mut sim.state, WriteEvent::Locked);
    assert_eq!(action, WriteAction::UnlockAndWait);
    // A third one does not even get through the scan.
    let mut third = sim.disk.begin_write(0, 512).unwrap().unwrap();
    assert_eq!(sim.drive(&mut third).unwrap(), Some(0));
    sim.settle(0, len, false, false);
    let action = sim
        .disk
        .resolve_write(&mut second, &mut sim.state, WriteEvent::Locked);
    assert_eq!(action, WriteAction::Again);
    assert_eq!(sim.drive(&mut second).unwrap(), None);
    let there = WriteRange::Data {
        guest_offset: 0,
        length: len,
        file_offset: 60 * MB1,
    };
    assert_eq!(first.finish().0, [there]);
    assert_eq!(second.finish().0, [there]);
    assert_eq!(sim.drive(&mut third).unwrap(), None);
    assert_eq!(data_of(&third.finish().0), [(0, 512)]);
}

#[test]
fn flush_waits_for_the_log() {
    let disk = Sim::new(PLAIN, &[]).disk;
    let step = |event| disk.flush(event).unwrap();
    assert_eq!(step(FlushEvent::Start), FlushAction::Commit);
    assert_eq!(step(FlushEvent::Committed(7)), FlushAction::WaitLogged(7));
    assert_eq!(step(FlushEvent::Logged), FlushAction::Flush);
    assert_eq!(step(FlushEvent::Flushed), FlushAction::Done);
}

#[test]
fn requests_split_at_block_boundaries() {
    let part = |block_number, block_offset, block_length, virtual_offset| Segment {
        block_number,
        block_offset,
        block_length,
        virtual_offset,
    };
    assert_eq!(
        split_request(1000, 900, 1300),
        [
            part(0, 900, 100, 900),
            part(1, 0, 1000, 1000),
            part(2, 0, 200, 2000)
        ]
    );
    assert_eq!(split_request(1000, 2000, 10), [part(2, 0, 10, 2000)]);
}

#[test]
fn guards_say_what_to_do_at_their_end() {
    let blocks = BatGuard {
        start_block: 3,
        block_count: 2,
    };
    let records = || WriteCompletionRecords {
        tfp_records: Vec::new(),
    };
    let mut guard = WriteIoGuard::new(blocks, 10, 20, true, records());
    assert!(guard.needs_flush_before_log);
    let end = guard.end();
    assert!(end.abort.is_some());
    assert_eq!(end.release, blocks);
    assert!(guard.end().abort.is_none());
    let mut guard = WriteIoGuard::new(blocks, 10, 20, true, records());
    guard.complete();
    assert!(guard.end().abort.is_none());
    assert!(WriteIoGuard::new_no_alloc(blocks, 10, 20)
        .end()
        .abort
        .is_none());
    assert_eq!(
        WriteIoGuard::new_completed().end().release,
        BatGuard::empty()
    );
    assert_eq!(ReadIoGuard::new(blocks).bat_guard, blocks);
    assert_eq!(ReadIoGuard::empty().bat_guard.block_count, 0);
}
