//! Open VHDX files: the way from the headers to an open file, the header
//! updates that mark it as written, and the write-back of the block
//! allocation table.

use vstd::prelude::*;

use crate::bytes::{le32, le64};
use super::bat::{
    chunk_ratio_of, data_blocks, entry_count, entry_index, quotient_up, Bat, BatState,
    BlockType, InternalBlockMapping,
};
use super::bat_page::{
    entry_of_mapping, entry_position, is_table_page, position_of, serialize_page,
};
use super::cache::PageKey;
use super::error::{CorruptionType, VhdxError};
use super::format::{
    file_identifier_signature, BatEntry, FileIdentifier, ENTRIES_PER_BAT_PAGE,
    FILE_IDENTIFIER_SIGNATURE, HEADER_AREA_SIZE,
};
use super::guid::{Guid, GUID_ZERO};
use super::header::{
    active_header, header_for, header_update, headers_parse_to, is_header_image,
    law_header_update_is_atomic, law_written_header_is_valid, parse_headers, parsed_of, spare_slot,
    valid_header, HeaderWrite, ParsedHeader,
};

verus! {

/// What is known of an open file and does not change while it is open.
#[derive(Debug, Clone, Copy)]
pub struct VhdxFile {
    /// Geometry of the block allocation table.
    pub bat: Bat,
    /// Virtual disk size in bytes.
    pub disk_size: u64,
    /// Block size in bytes.
    pub block_size: u32,
    /// Logical sector size in bytes.
    pub logical_sector_size: u32,
    /// Physical sector size in bytes.
    pub physical_sector_size: u32,
    /// Whether the disk has a parent.
    pub has_parent: bool,
    /// Whether the disk was created with all blocks allocated.
    pub is_fully_allocated: bool,
    /// Page 83 data of the disk.
    pub page_83_data: Guid,
    /// File offset of the log region.
    pub log_offset: u64,
    /// Length of the log region.
    pub log_length: u32,
    /// Whether the file was opened read-only.
    pub read_only: bool,
}

/// What the metadata items of a file say.
#[derive(Debug, Clone, Copy)]
pub struct KnownMetadata {
    /// Virtual disk size in bytes.
    pub disk_size: u64,
    /// Block size in bytes.
    pub block_size: u32,
    /// Logical sector size in bytes.
    pub logical_sector_size: u32,
    /// Physical sector size in bytes.
    pub physical_sector_size: u32,
    /// Whether the disk has a parent.
    pub has_parent: bool,
    /// Whether blocks are left allocated.
    pub leave_blocks_allocated: bool,
    /// Page 83 data of the disk.
    pub page_83_data: Guid,
}

/// What a modification changes. Decides which GUIDs are new in the header
/// before the first write.
#[derive(Debug, Clone, Copy, PartialEq, Eq, PartialOrd, Ord, Structural)]
pub enum WriteMode {
    /// The file: its GUID is new.
    FileWritable,
    /// The data of the virtual disk: its GUID is new too.
    DataWritable,
}

impl WriteMode {
    /// Whether writing in this mode allows what `mode` asks for.
    pub open spec fn satisfies(self, mode: WriteMode) -> bool {
        self == WriteMode::DataWritable || mode == WriteMode::FileWritable
    }
}

/// State of the headers, which changes as the file is written.
#[derive(Debug, Clone, Copy)]
pub struct WriteState {
    /// The mode in which the file is written, if it is.
    pub write_mode: Option<WriteMode>,
    /// Sequence number of the active header.
    pub sequence_number: u64,
    /// GUID changed by every write to the file.
    pub file_write_guid: Guid,
    /// GUID changed by every write to the virtual disk.
    pub data_write_guid: Guid,
    /// GUID of the active log, zero if no log is used.
    pub log_guid: Guid,
    /// Whether the first header is the active one.
    pub first_header_current: bool,
}

/// How to go on after the headers are read.
#[derive(Debug, Clone, Copy)]
pub enum OpenStep {
    /// The file is clean.
    Ready(ParsedHeader),
    /// The log has to be replayed first.
    Replay(ParsedHeader),
}

/// Whether the first 520 bytes of a file identify it.
pub open spec fn identifies(ident: Seq<u8>) -> bool {
    ident.len() == 520 && file_identifier_signature(ident) == FILE_IDENTIFIER_SIGNATURE
}

/// Checks the file identifier.
pub fn validate_file_identifier(ident: &[u8]) -> (r: Result<(), VhdxError>)
    ensures
        r == (if identifies(ident@) {
            Ok::<(), VhdxError>(())
        } else {
            Err::<(), VhdxError>(VhdxError::Corrupt(CorruptionType::InvalidFileIdentifier))
        }),
{
    match FileIdentifier::read_from_bytes(ident) {
        Some(identifier) => {
            if identifier.signature != FILE_IDENTIFIER_SIGNATURE {
                return Err(VhdxError::Corrupt(CorruptionType::InvalidFileIdentifier));
            }
            Ok(())
        },
        None => Err(VhdxError::Corrupt(CorruptionType::InvalidFileIdentifier)),
    }
}

/// How an open file goes on from its parsed headers.
pub open spec fn step_after_headers(header: ParsedHeader, read_only: bool) -> Result<
    OpenStep,
    VhdxError,
> {
    if header.log_guid == GUID_ZERO {
        Ok(OpenStep::Ready(header))
    } else if read_only {
        Err(VhdxError::Corrupt(CorruptionType::LogReplayRequired))
    } else {
        Ok(OpenStep::Replay(header))
    }
}

/// Opens a file of the given length by its identifier and its two headers. A
/// dirty log asks for a replay, which a read-only file cannot have. Of a file
/// that is too short nothing else is looked at.
pub fn open_headers(
    file_length: u64,
    ident: &[u8],
    header1: &[u8],
    header2: &[u8],
    read_only: bool,
) -> (r: Result<OpenStep, VhdxError>)
    ensures
        if file_length < HEADER_AREA_SIZE {
            r == Err::<OpenStep, VhdxError>(VhdxError::Corrupt(CorruptionType::EmptyFile))
        } else if !identifies(ident@) {
            r == Err::<OpenStep, VhdxError>(
                VhdxError::Corrupt(CorruptionType::InvalidFileIdentifier),
            )
        } else {
            exists|parsed: Result<ParsedHeader, VhdxError>|
                #[trigger] headers_parse_to(header1@, header2@, file_length as int, parsed) && (
                match parsed {
                    Ok(header) => r == step_after_headers(header, read_only),
                    Err(e) => r == Err::<OpenStep, VhdxError>(e),
                })
        },
{
    if file_length < HEADER_AREA_SIZE {
        return Err(VhdxError::Corrupt(CorruptionType::EmptyFile));
    }
    match validate_file_identifier(ident) {
        Ok(()) => {},
        Err(e) => {
            return Err(e);
        },
    }
    let parsed = parse_headers(header1, header2, file_length);
    let ghost witness = parsed;
    let r = match parsed {
        Err(e) => Err(e),
        Ok(header) => {
            if header.log_guid == GUID_ZERO {
                Ok(OpenStep::Ready(header))
            } else if read_only {
                Err(VhdxError::Corrupt(CorruptionType::LogReplayRequired))
            } else {
                Ok(OpenStep::Replay(header))
            }
        },
    };
    assert(headers_parse_to(header1@, header2@, file_length as int, witness));
    r
}

/// The header state of a file whose log was replayed.
pub open spec fn clean_header(header: ParsedHeader) -> ParsedHeader {
    ParsedHeader {
        sequence_number: (header.sequence_number + 1) as u64,
        log_guid: GUID_ZERO,
        first_header_current: !header.first_header_current,
        ..header
    }
}

/// Takes the outcome of a log replay. If entries were replayed, the file gets
/// a header without a log: the caller writes and flushes it before it goes
/// on.
pub fn after_replay(header: ParsedHeader, replayed: bool) -> (r: (
    ParsedHeader,
    Option<HeaderWrite>,
))
    requires
        replayed ==> header.sequence_number < u64::MAX,
    ensures
        if replayed {
            &&& r.0 == clean_header(header)
            &&& r.1 matches Some(write) && {
                &&& write.offset == spare_slot(header.first_header_current)
                &&& is_header_image(
                    write.bytes@,
                    header_for(
                        (header.sequence_number + 1) as u64,
                        header.file_write_guid,
                        header.data_write_guid,
                        GUID_ZERO,
                        header.log_offset,
                        header.log_length,
                    ),
                )
            }
        } else {
            r.0 == header && r.1 is None
        },
{
    if !replayed {
        return (header, None);
    }
    let sequence_number: u64 = header.sequence_number + 1;
    let write = header_update(
        sequence_number,
        header.file_write_guid,
        header.data_write_guid,
        GUID_ZERO,
        header.log_offset,
        header.log_length,
        header.first_header_current,
    );
    let mut clean: ParsedHeader = header;
    clean.sequence_number = sequence_number;
    clean.log_guid = GUID_ZERO;
    clean.first_header_current = !header.first_header_current;
    (clean, Some(write))
}

impl VhdxFile {
    /// The table has a block for every byte of the disk.
    pub open spec fn wf(self) -> bool {
        &&& self.bat.wf()
        &&& self.bat.block_size == self.block_size
        &&& self.bat.has_parent == self.has_parent
        &&& self.logical_sector_size > 0
        &&& self.bat.data_block_count == quotient_up(self.disk_size as int, self.block_size as int)
    }

    /// An open file, by its header, its metadata and the length of its BAT
    /// region.
    pub fn new(header: &ParsedHeader, known: &KnownMetadata, bat_length: u32, read_only: bool) -> (r:
        Result<(VhdxFile, WriteState), VhdxError>)
        requires
            known.block_size > 0 ==> quotient_up(known.disk_size as int, known.block_size as int)
                <= u32::MAX,
        ensures
            ({
                let ratio = chunk_ratio_of(
                    known.block_size as int,
                    known.logical_sector_size as int,
                );
                let data = data_blocks(known.disk_size as int, known.block_size as int);
                if ratio == 0 {
                    r == Err::<(VhdxFile, WriteState), VhdxError>(
                        VhdxError::Corrupt(CorruptionType::InvalidBlockSize),
                    )
                } else if 8 * entry_count(data, ratio, known.has_parent) > bat_length {
                    r == Err::<(VhdxFile, WriteState), VhdxError>(
                        VhdxError::Corrupt(CorruptionType::BatTooSmall),
                    )
                } else {
                    r matches Ok((file, state)) && {
                        &&& file.wf()
                        &&& file.bat.chunk_ratio == ratio
                        &&& file.disk_size == known.disk_size
                        &&& file.block_size == known.block_size
                        &&& file.logical_sector_size == known.logical_sector_size
                        &&& file.physical_sector_size == known.physical_sector_size
                        &&& file.has_parent == known.has_parent
                        &&& file.is_fully_allocated == known.leave_blocks_allocated
                        &&& file.page_83_data == known.page_83_data
                        &&& file.log_offset == header.log_offset
                        &&& file.log_length == header.log_length
                        &&& file.read_only == read_only
                        &&& state == (WriteState {
                            write_mode: None,
                            sequence_number: header.sequence_number,
                            file_write_guid: header.file_write_guid,
                            data_write_guid: header.data_write_guid,
                            log_guid: GUID_ZERO,
                            first_header_current: header.first_header_current,
                        })
                    }
                }
            }),
    {
        let bat = match Bat::new(
            known.disk_size,
            known.block_size,
            known.logical_sector_size,
            known.has_parent,
            bat_length,
        ) {
            Ok(bat) => bat,
            Err(e) => {
                return Err(e);
            },
        };
        proof {
            super::bat::lemma_quotient_up_bounds(known.disk_size as int, known.block_size as int);
        }
        let file = VhdxFile {
            bat,
            disk_size: known.disk_size,
            block_size: known.block_size,
            logical_sector_size: known.logical_sector_size,
            physical_sector_size: known.physical_sector_size,
            has_parent: known.has_parent,
            is_fully_allocated: known.leave_blocks_allocated,
            page_83_data: known.page_83_data,
            log_offset: header.log_offset,
            log_length: header.log_length,
            read_only,
        };
        let state = WriteState {
            write_mode: None,
            sequence_number: header.sequence_number,
            file_write_guid: header.file_write_guid,
            data_write_guid: header.data_write_guid,
            log_guid: GUID_ZERO,
            first_header_current: header.first_header_current,
        };
        Ok((file, state))
    }

    /// Virtual disk size in bytes.
    pub fn disk_size(&self) -> (r: u64)
        ensures
            r == self.disk_size,
    {
        self.disk_size
    }

    /// Block size in bytes.
    pub fn block_size(&self) -> (r: u32)
        ensures
            r == self.block_size,
    {
        self.block_size
    }

    /// Logical sector size in bytes.
    pub fn logical_sector_size(&self) -> (r: u32)
        ensures
            r == self.logical_sector_size,
    {
        self.logical_sector_size
    }

    /// Physical sector size in bytes.
    pub fn physical_sector_size(&self) -> (r: u32)
        ensures
            r == self.physical_sector_size,
    {
        self.physical_sector_size
    }

    /// Whether the disk has a parent.
    pub fn has_parent(&self) -> (r: bool)
        ensures
            r == self.has_parent,
    {
        self.has_parent
    }

    /// Whether the disk was created with all blocks allocated.
    pub fn is_fully_allocated(&self) -> (r: bool)
        ensures
            r == self.is_fully_allocated,
    {
        self.is_fully_allocated
    }

    /// Whether the file was opened read-only.
    pub fn is_read_only(&self) -> (r: bool)
        ensures
            r == self.read_only,
    {
        self.read_only
    }

    /// Serializes a page of the table with the mappings as they are in
    /// memory. Entries beyond the end of the disk are zero.
    pub fn produce_bat_page(&self, state: &BatState, page_index: usize) -> (r: Vec<u8>)
        requires
            self.wf(),
            state.matches_bat(self.bat),
            page_index * ENTRIES_PER_BAT_PAGE + (ENTRIES_PER_BAT_PAGE - 1) <= u32::MAX,
        ensures
            is_table_page(self.bat, *state, page_index as int, r@, false),
    {
        serialize_page(&self.bat, state, page_index, false)
    }
}

impl WriteState {
    /// GUID changed by every write to the virtual disk.
    pub fn data_write_guid(&self) -> (r: Guid)
        ensures
            r == self.data_write_guid,
    {
        self.data_write_guid
    }

    /// Whether the file is already written in a mode that allows what `mode`
    /// asks for.
    pub open spec fn enabled(self, mode: WriteMode) -> bool {
        self.write_mode matches Some(current) && current.satisfies(mode)
    }

    /// The header of the file in this state.
    pub open spec fn header(self, file: VhdxFile) -> super::format::Header {
        header_for(
            self.sequence_number,
            self.file_write_guid,
            self.data_write_guid,
            self.log_guid,
            file.log_offset,
            file.log_length,
        )
    }

    /// Prepares the file to be written in a mode. If it is not yet, the state
    /// gets new GUIDs and the next sequence number, and the header to write
    /// over the one that is not active is returned: the caller writes and
    /// flushes it, and then commits the mode.
    pub fn prepare_write_mode(
        &mut self,
        file: &VhdxFile,
        mode: WriteMode,
        new_file_guid: Guid,
        new_data_guid: Guid,
    ) -> (r: Option<HeaderWrite>)
        requires
            !old(self).enabled(mode) ==> old(self).sequence_number < u64::MAX,
        ensures
            if old(self).enabled(mode) {
                r is None && *final(self) == *old(self)
            } else {
                &&& *final(self) == (WriteState {
                    sequence_number: (old(self).sequence_number + 1) as u64,
                    file_write_guid: new_file_guid,
                    data_write_guid: if mode == WriteMode::DataWritable {
                        new_data_guid
                    } else {
                        old(self).data_write_guid
                    },
                    ..*old(self)
                })
                &&& r matches Some(write) && {
                    &&& write.offset == spare_slot(old(self).first_header_current)
                    &&& is_header_image(write.bytes@, final(self).header(*file))
                }
            },
    {
        let enabled = match self.write_mode {
            Some(WriteMode::DataWritable) => true,
            Some(WriteMode::FileWritable) => mode == WriteMode::FileWritable,
            None => false,
        };
        if enabled {
            return None;
        }
        self.file_write_guid = new_file_guid;
        if mode == WriteMode::DataWritable {
            self.data_write_guid = new_data_guid;
        }
        self.sequence_number = self.sequence_number + 1;
        Some(
            header_update(
                self.sequence_number,
                self.file_write_guid,
                self.data_write_guid,
                self.log_guid,
                file.log_offset,
                file.log_length,
                self.first_header_current,
            ),
        )
    }

    /// Commits a mode once its header is written and flushed.
    pub fn commit_write_mode(&mut self, mode: WriteMode)
        ensures
            *final(self) == (WriteState {
                write_mode: Some(mode),
                first_header_current: !old(self).first_header_current,
                ..*old(self)
            }),
    {
        self.first_header_current = !self.first_header_current;
        self.write_mode = Some(mode);
    }

    /// Prepares the use of a log: takes the next sequence number and returns
    /// the header that marks the file as dirty. The caller writes and flushes
    /// it before the first log entry, and then commits the log.
    pub fn prepare_log(&mut self, file: &VhdxFile, log_guid: Guid) -> (r: HeaderWrite)
        requires
            old(self).sequence_number < u64::MAX,
        ensures
            *final(self) == (WriteState {
                sequence_number: (old(self).sequence_number + 1) as u64,
                ..*old(self)
            }),
            r.offset == spare_slot(old(self).first_header_current),
            is_header_image(
                r.bytes@,
                (WriteState { log_guid, ..*final(self) }).header(*file),
            ),
    {
        self.sequence_number = self.sequence_number + 1;
        header_update(
            self.sequence_number,
            self.file_write_guid,
            self.data_write_guid,
            log_guid,
            file.log_offset,
            file.log_length,
            self.first_header_current,
        )
    }

    /// Commits the use of a log once its header is written and flushed.
    pub fn commit_log(&mut self, log_guid: Guid)
        ensures
            *final(self) == (WriteState {
                log_guid,
                first_header_current: !old(self).first_header_current,
                ..*old(self)
            }),
    {
        self.first_header_current = !self.first_header_current;
        self.log_guid = log_guid;
    }
}

/// The pages of the table that differ from what is on disk.
#[derive(Debug)]
pub struct DirtyBatPages {
    flags: Vec<bool>,
}

/// How one entry of the table is written.
#[derive(Debug)]
pub enum EntryWrite {
    /// Put the entry into the page.
    Patch {
        /// The page.
        key: PageKey,
        /// Byte offset of the entry in the page.
        byte_offset: usize,
        /// The entry.
        entry: BatEntry,
    },
    /// Replace the page.
    Replace {
        /// The page.
        key: PageKey,
        /// Its bytes.
        page: Vec<u8>,
    },
}

impl DirtyBatPages {
    /// Which pages are dirty.
    pub closed spec fn view(&self) -> Seq<bool> {
        self.flags@
    }

    /// The pages of a table, none of them dirty.
    pub fn new(page_count: usize) -> (r: DirtyBatPages)
        ensures
            r@ == Seq::new(page_count as nat, |i: int| false),
    {
        let mut flags: Vec<bool> = Vec::new();
        let mut i: usize = 0;
        while i < page_count
            invariant
                i <= page_count,
                flags@ == Seq::new(i as nat, |k: int| false),
            decreases page_count - i,
        {
            flags.push(false);
            i += 1;
        }
        DirtyBatPages { flags }
    }

    /// Marks a page as dirty.
    pub fn mark_dirty(&mut self, page: usize)
        requires
            page < old(self)@.len(),
        ensures
            final(self)@ == old(self)@.update(page as int, true),
    {
        self.flags.set(page, true);
    }

    /// Marks a page as clean.
    pub fn clear_dirty(&mut self, page: usize)
        requires
            page < old(self)@.len(),
        ensures
            final(self)@ == old(self)@.update(page as int, false),
    {
        self.flags.set(page, false);
    }

    /// Whether a page is dirty. Pages beyond the table are not.
    pub fn is_dirty(&self, page: usize) -> (r: bool)
        ensures
            r == (page < self@.len() && self@[page as int]),
    {
        page < self.flags.len() && self.flags[page]
    }

    /// Writes the entry of a block. On a clean page only the entry is
    /// replaced; a dirty page is rebuilt from memory and becomes clean.
    pub fn write_bat_entry_to_cache(
        &mut self,
        file: &VhdxFile,
        state: &BatState,
        block_type: BlockType,
        block_number: u32,
        mapping: InternalBlockMapping,
    ) -> (r: EntryWrite)
        requires
            file.wf(),
            state.matches_bat(file.bat),
            block_number < file.bat.block_count(block_type),
        ensures
            ({
                let at = position_of(entry_index(file.bat, block_type, block_number as int));
                let dirty = at.page_number < old(self)@.len()
                    && old(self)@[at.page_number as int];
                if dirty {
                    &&& r matches EntryWrite::Replace { key, page } && key == at.page_key
                        && is_table_page(
                        file.bat,
                        *state,
                        at.page_number as int,
                        page@,
                        false,
                    )
                    &&& final(self)@ == old(self)@.update(at.page_number as int, false)
                } else {
                    &&& r == (EntryWrite::Patch {
                        key: at.page_key,
                        byte_offset: at.byte_offset,
                        entry: entry_of_mapping(mapping, false),
                    })
                    &&& final(self)@ == old(self)@
                }
            }),
    {
        let position = entry_position(file.bat.block_entry_index(block_type, block_number));
        if self.is_dirty(position.page_number) {
            let page = file.produce_bat_page(state, position.page_number);
            self.clear_dirty(position.page_number);
            EntryWrite::Replace { key: position.page_key, page }
        } else {
            EntryWrite::Patch {
                key: position.page_key,
                byte_offset: position.byte_offset,
                entry: BatEntry::new().with_state(mapping.state()).with_file_offset_mb(
                    mapping.file_megabyte() as u64,
                ),
            }
        }
    }

    /// Takes every dirty page, in order, as it is to be written, and marks
    /// all pages as clean.
    pub fn flush_dirty_bat_pages(&mut self, file: &VhdxFile, state: &BatState) -> (r: Vec<
        (usize, Vec<u8>),
    >)
        requires
            file.wf(),
            state.matches_bat(file.bat),
            old(self)@.len() * ENTRIES_PER_BAT_PAGE <= 0x1_0000_0000,
        ensures
            final(self)@ == Seq::new(old(self)@.len(), |i: int| false),
            r@.len() == dirty_indices(old(self)@).len(),
            forall|k: int|
                0 <= k < r@.len() ==> {
                    &&& (#[trigger] r@[k]).0 == dirty_indices(old(self)@)[k]
                    &&& is_table_page(file.bat, *state, r@[k].0 as int, r@[k].1@, false)
                },
    {
        let ghost before = self@;
        let mut pages: Vec<(usize, Vec<u8>)> = Vec::new();
        let mut i: usize = 0;
        assert(before.subrange(0, 0) == Seq::<bool>::empty());
        while i < self.flags.len()
            invariant
                i <= self@.len(),
                self@ == Seq::new(
                    before.len(),
                    |k: int|
                        if k < i {
                            false
                        } else {
                            before[k]
                        },
                ),
                file.wf(),
                state.matches_bat(file.bat),
                before.len() * ENTRIES_PER_BAT_PAGE <= 0x1_0000_0000,
                pages@.len() == dirty_indices(before.subrange(0, i as int)).len(),
                forall|k: int|
                    0 <= k < pages@.len() ==> {
                        &&& (#[trigger] pages@[k]).0 == dirty_indices(
                            before.subrange(0, i as int),
                        )[k]
                        &&& is_table_page(file.bat, *state, pages@[k].0 as int, pages@[k].1@, false)
                    },
            decreases before.len() - i,
        {
            proof {
                let more = before.subrange(0, i + 1);
                assert(more.drop_last() == before.subrange(0, i as int));
                assert(more.last() == before[i as int]);
            }
            if self.flags[i] {
                assert(ENTRIES_PER_BAT_PAGE == 512);
                let page = file.produce_bat_page(state, i);
                self.clear_dirty(i);
                pages.push((i, page));
            }
            i += 1;
        }
        assert(before.subrange(0, i as int) == before);
        pages
    }
}

/// The indices of the dirty pages, in order.
pub open spec fn dirty_indices(flags: Seq<bool>) -> Seq<int>
    decreases flags.len(),
{
    if flags.len() == 0 {
        Seq::empty()
    } else {
        let before = dirty_indices(flags.drop_last());
        if flags.last() {
            before.push(flags.len() - 1)
        } else {
            before
        }
    }
}

/// Once a prepared header is written, opening the file again finds it: the
/// active header is the one that was written, over the header that was not
/// active before, and it says what the state says.
pub proof fn law_written_state_is_found_again(
    file: VhdxFile,
    before: WriteState,
    after: WriteState,
    current: Seq<u8>,
    written: Seq<u8>,
)
    requires
        valid_header(current) matches Some(h) && h.sequence_number == before.sequence_number,
        after.sequence_number == before.sequence_number + 1,
        is_header_image(written, after.header(file)),
    ensures
        ({
            let (buf1, buf2) = if before.first_header_current {
                (current, written)
            } else {
                (written, current)
            };
            active_header(valid_header(buf1), valid_header(buf2)) matches Some((h, first)) && {
                &&& first == !before.first_header_current
                &&& h.sequence_number == after.sequence_number
                &&& h.file_write_guid == after.file_write_guid
                &&& h.data_write_guid == after.data_write_guid
                &&& h.log_guid == after.log_guid
                &&& h.log_offset == file.log_offset
                &&& h.log_length == file.log_length
            }
        }),
{
    law_written_header_is_valid(written, after.header(file));
    law_header_update_is_atomic(
        valid_header(current)->0,
        before.first_header_current,
        valid_header(written),
    );
}

/// A file whose log was replayed opens clean: the header written after the
/// replay is the active one and names no log.
pub proof fn law_replayed_file_opens_clean(
    header: ParsedHeader,
    current: Seq<u8>,
    written: Seq<u8>,
)
    requires
        valid_header(current) matches Some(h) && h.sequence_number == header.sequence_number,
        header.sequence_number < u64::MAX,
        is_header_image(
            written,
            header_for(
                (header.sequence_number + 1) as u64,
                header.file_write_guid,
                header.data_write_guid,
                GUID_ZERO,
                header.log_offset,
                header.log_length,
            ),
        ),
    ensures
        ({
            let (buf1, buf2) = if header.first_header_current {
                (current, written)
            } else {
                (written, current)
            };
            active_header(valid_header(buf1), valid_header(buf2)) matches Some((h, first)) && {
                &&& first == clean_header(header).first_header_current
                &&& h.sequence_number == clean_header(header).sequence_number
                &&& h.log_guid == GUID_ZERO
                &&& forall|read_only: bool|
                    #[trigger] step_after_headers(parsed_of(h, first), read_only) == Ok::<
                        OpenStep,
                        VhdxError,
                    >(OpenStep::Ready(parsed_of(h, first)))
            }
        }),
{
    let new = header_for(
        (header.sequence_number + 1) as u64,
        header.file_write_guid,
        header.data_write_guid,
        GUID_ZERO,
        header.log_offset,
        header.log_length,
    );
    law_written_header_is_valid(written, new);
    law_header_update_is_atomic(
        valid_header(current)->0,
        header.first_header_current,
        valid_header(written),
    );
}

/// A file with a log is replayed before it is used, and not opened at all if
/// it cannot be written; a file without one is ready as it is.
pub proof fn law_log_is_replayed_first(header: ParsedHeader, read_only: bool)
    ensures
        match step_after_headers(header, read_only) {
            Ok(OpenStep::Ready(h)) => h == header && header.log_guid == 0,
            Ok(OpenStep::Replay(h)) => h == header && header.log_guid != 0 && !read_only,
            Err(e) => header.log_guid != 0 && read_only && e == VhdxError::Corrupt(
                CorruptionType::LogReplayRequired,
            ),
        },
{
}

/// A replayed log leaves the header as it was, but one later, in the other
/// slot and without a log.
pub proof fn law_clean_header_is_later_and_has_no_log(header: ParsedHeader)
    requires
        header.sequence_number < u64::MAX,
    ensures
        clean_header(header) == (ParsedHeader {
            sequence_number: clean_header(header).sequence_number,
            log_guid: 0,
            first_header_current: !header.first_header_current,
            ..header
        }),
        clean_header(header).sequence_number == header.sequence_number + 1,
{
}

/// Once the data of a disk may be written its file may be as well, but not the
/// other way round. Before either nothing may be.
pub proof fn law_data_mode_allows_file_mode(state: WriteState)
    ensures
        state.enabled(WriteMode::FileWritable) <==> state.write_mode is Some,
        state.enabled(WriteMode::DataWritable) <==> state.write_mode == Some(
            WriteMode::DataWritable,
        ),
{
}

/// A header that a write state gives holds what the state holds, and the place
/// of the log.
pub proof fn law_state_header_holds_the_state(state: WriteState, file: VhdxFile)
    ensures
        ({
            let h = state.header(file);
            &&& h.signature == 0x6461_6568
            &&& h.version == 1
            &&& h.log_version == 0
            &&& h.sequence_number == state.sequence_number
            &&& h.file_write_guid == state.file_write_guid
            &&& h.data_write_guid == state.data_write_guid
            &&& h.log_guid == state.log_guid
            &&& h.log_offset == file.log_offset
            &&& h.log_length == file.log_length
        }),
{
}

/// The dirty pages are listed in order, each once, and none is left out.
pub proof fn law_dirty_pages_are_listed(flags: Seq<bool>, page: int)
    ensures
        dirty_indices(flags).contains(page) <==> 0 <= page < flags.len() && flags[page],
        forall|i: int, j: int|
            0 <= i < j < dirty_indices(flags).len() ==> #[trigger] dirty_indices(flags)[i]
                < #[trigger] dirty_indices(flags)[j],
        forall|i: int|
            0 <= i < dirty_indices(flags).len() ==> 0 <= #[trigger] dirty_indices(flags)[i]
                < flags.len(),
    decreases flags.len(),
{
    if flags.len() > 0 {
        let rest = flags.drop_last();
        law_dirty_pages_are_listed(rest, page);
        let before = dirty_indices(rest);
        let all = dirty_indices(flags);
        if flags.last() {
            assert(all == before.push(flags.len() - 1));
            assert(all[before.len() as int] == flags.len() - 1);
            if before.contains(page) {
                let i = choose|i: int| 0 <= i < before.len() && before[i] == page;
                assert(all[i] == page);
            }
            if all.contains(page) && page != flags.len() - 1 {
                let i = choose|i: int| 0 <= i < all.len() && all[i] == page;
                assert(before[i] == page);
            }
        }
    }
}

/// A file is recognized exactly by its first 520 bytes, which start with the
/// letters "vhdxfile".
pub proof fn law_file_is_recognized_by_its_letters(ident: Seq<u8>)
    requires
        ident.len() == 520,
    ensures
        identifies(ident) <==> {
            &&& ident[0] == 0x76 && ident[1] == 0x68 && ident[2] == 0x64 && ident[3] == 0x78
            &&& ident[4] == 0x66 && ident[5] == 0x69 && ident[6] == 0x6c && ident[7] == 0x65
        },
{
    let (low, high) = (le32(ident, 0), le32(ident, 4));
    assert(low == 0x7864_6876 <==> ident[0] == 0x76 && ident[1] == 0x68 && ident[2] == 0x64
        && ident[3] == 0x78);
    assert(high == 0x656c_6966 <==> ident[4] == 0x66 && ident[5] == 0x69 && ident[6] == 0x6c
        && ident[7] == 0x65);
    assert(le64(ident, 0) == low + 0x1_0000_0000 * high);
}

/// A file is opened with the latest of its valid headers, if that has no
/// fault. One that is too short, is not recognized or has no valid header is
/// refused, in this order.
pub proof fn law_file_is_opened_with_its_latest_header(
    file_length: u64,
    ident: &[u8],
    header1: &[u8],
    header2: &[u8],
    read_only: bool,
    r: Result<OpenStep, VhdxError>,
)
    requires
        call_ensures(open_headers, (file_length, ident, header1, header2, read_only), r),
    ensures
        file_length < 0x10_0000 ==> r == Err::<OpenStep, VhdxError>(
            VhdxError::Corrupt(CorruptionType::EmptyFile),
        ),
        file_length >= 0x10_0000 && !identifies(ident@) ==> r == Err::<OpenStep, VhdxError>(
            VhdxError::Corrupt(CorruptionType::InvalidFileIdentifier),
        ),
        file_length >= 0x10_0000 && identifies(ident@) && valid_header(header1@) is None
            && valid_header(header2@) is None ==> r == Err::<OpenStep, VhdxError>(
            VhdxError::Corrupt(CorruptionType::NoValidHeaders),
        ),
        r matches Ok(step) ==> {
            let parsed = match step {
                OpenStep::Ready(p) => p,
                OpenStep::Replay(p) => p,
            };
            let (own, other) = if parsed.first_header_current {
                (valid_header(header1@), valid_header(header2@))
            } else {
                (valid_header(header2@), valid_header(header1@))
            };
            &&& step is Ready <==> parsed.log_guid == 0
            &&& step is Replay ==> !read_only
            &&& own matches Some(h) && {
                &&& parsed.sequence_number == h.sequence_number
                &&& parsed.file_write_guid == h.file_write_guid
                &&& parsed.data_write_guid == h.data_write_guid
                &&& parsed.log_guid == h.log_guid
                &&& parsed.log_length == h.log_length
                &&& h.log_length != 0 ==> parsed.log_offset == h.log_offset
                &&& h.version == 1
                &&& other matches Some(o) ==> o.sequence_number <= h.sequence_number
            }
        },
{
}

/// The first write renews the identity of the file, and that of its data if
/// data is to be written: the state gets the new GUIDs and the next sequence
/// number, and a header that says so is written to the slot that is not in
/// use. Where the mode is enabled already nothing is done.
pub proof fn law_first_write_renews_the_identity(
    state: &mut WriteState,
    file: VhdxFile,
    mode: WriteMode,
    new_file_guid: Guid,
    new_data_guid: Guid,
    r: Option<HeaderWrite>,
)
    requires
        old(state).sequence_number < u64::MAX,
        call_ensures(
            WriteState::prepare_write_mode,
            (state, &file, mode, new_file_guid, new_data_guid),
            r,
        ),
    ensures
        r is None <==> old(state).write_mode == Some(WriteMode::DataWritable) || (
        old(state).write_mode is Some && mode == WriteMode::FileWritable),
        r is None ==> *final(state) == *old(state),
        r matches Some(write) ==> {
            &&& final(state).sequence_number == old(state).sequence_number + 1
            &&& final(state).file_write_guid == new_file_guid
            &&& mode is DataWritable ==> final(state).data_write_guid == new_data_guid
            &&& mode is FileWritable ==> final(state).data_write_guid == old(state).data_write_guid
            &&& final(state).write_mode == old(state).write_mode
            &&& final(state).log_guid == old(state).log_guid
            &&& final(state).first_header_current == old(state).first_header_current
            &&& write.offset == (if old(state).first_header_current {
                0x2_0000u64
            } else {
                0x1_0000u64
            })
            &&& valid_header(write.bytes@) matches Some(h) && {
                &&& h.sequence_number == final(state).sequence_number
                &&& h.file_write_guid == final(state).file_write_guid
                &&& h.data_write_guid == final(state).data_write_guid
                &&& h.log_guid == old(state).log_guid
                &&& h.log_offset == file.log_offset
                &&& h.log_length == file.log_length
            }
        },
{
    if let Some(write) = r {
        law_written_header_is_valid(write.bytes@, final(state).header(file));
    }
}

/// A mode that is committed is enabled, and the header that was written for it
/// is in use. Nothing else changes.
pub proof fn law_committed_mode_is_enabled(state: &mut WriteState, mode: WriteMode)
    requires
        call_ensures(WriteState::commit_write_mode, (state, mode), ()),
    ensures
        final(state).enabled(mode),
        final(state).write_mode == Some(mode),
        final(state).first_header_current != old(state).first_header_current,
        final(state).sequence_number == old(state).sequence_number,
        final(state).file_write_guid == old(state).file_write_guid,
        final(state).data_write_guid == old(state).data_write_guid,
        final(state).log_guid == old(state).log_guid,
{
}

/// Before a log is used a header with its GUID and the next sequence number is
/// written to the slot that is not in use.
pub proof fn law_log_is_announced_before_its_use(
    state: &mut WriteState,
    file: VhdxFile,
    log_guid: Guid,
    r: HeaderWrite,
)
    requires
        old(state).sequence_number < u64::MAX,
        call_ensures(WriteState::prepare_log, (state, &file, log_guid), r),
    ensures
        *final(state) == (WriteState {
            sequence_number: final(state).sequence_number,
            ..*old(state)
        }),
        final(state).sequence_number == old(state).sequence_number + 1,
        r.offset == (if old(state).first_header_current {
            0x2_0000u64
        } else {
            0x1_0000u64
        }),
        valid_header(r.bytes@) matches Some(h) && {
            &&& h.sequence_number == old(state).sequence_number + 1
            &&& h.file_write_guid == old(state).file_write_guid
            &&& h.data_write_guid == old(state).data_write_guid
            &&& h.log_guid == log_guid
            &&& h.log_offset == file.log_offset
            &&& h.log_length == file.log_length
        },
{
    law_written_header_is_valid(
        r.bytes@,
        (WriteState { log_guid, ..*final(state) }).header(file),
    );
}

/// A log that is committed is the one in use, and so is the header that was
/// written for it. Nothing else changes.
pub proof fn law_committed_log_is_in_use(state: &mut WriteState, log_guid: Guid)
    requires
        call_ensures(WriteState::commit_log, (state, log_guid), ()),
    ensures
        final(state).log_guid == log_guid,
        final(state).first_header_current != old(state).first_header_current,
        final(state).write_mode == old(state).write_mode,
        final(state).sequence_number == old(state).sequence_number,
        final(state).file_write_guid == old(state).file_write_guid,
        final(state).data_write_guid == old(state).data_write_guid,
{
}

/// A disk is opened exactly if a block is no smaller than a sector and small
/// enough for a bitmap, and if the table has room for the entries of all
/// blocks. It is then what its metadata says.
pub proof fn law_opened_disk_is_what_its_metadata_says(
    header: ParsedHeader,
    known: KnownMetadata,
    bat_length: u32,
    read_only: bool,
    r: Result<(VhdxFile, WriteState), VhdxError>,
)
    requires
        known.block_size > 0 ==> quotient_up(known.disk_size as int, known.block_size as int)
            <= u32::MAX,
        call_ensures(VhdxFile::new, (&header, &known, bat_length, read_only), r),
    ensures
        r matches Err(e) ==> e == VhdxError::Corrupt(CorruptionType::InvalidBlockSize) || e
            == VhdxError::Corrupt(CorruptionType::BatTooSmall),
        known.logical_sector_size > 0 ==> (r == Err::<(VhdxFile, WriteState), VhdxError>(
            VhdxError::Corrupt(CorruptionType::InvalidBlockSize),
        ) <==> known.block_size < known.logical_sector_size || known.block_size as int
            / known.logical_sector_size as int > 0x80_0000),
        r matches Ok((file, state)) ==> {
            &&& file.disk_size == known.disk_size
            &&& file.block_size == known.block_size
            &&& file.logical_sector_size == known.logical_sector_size
            &&& file.physical_sector_size == known.physical_sector_size
            &&& file.has_parent == known.has_parent
            &&& file.is_fully_allocated == known.leave_blocks_allocated
            &&& file.page_83_data == known.page_83_data
            &&& file.log_offset == header.log_offset
            &&& file.log_length == header.log_length
            &&& file.read_only == read_only
            &&& file.bat.data_block_count * file.block_size >= known.disk_size
            &&& (file.bat.data_block_count - 1) * file.block_size < known.disk_size
            &&& state.write_mode is None
            &&& state.sequence_number == header.sequence_number
            &&& state.file_write_guid == header.file_write_guid
            &&& state.data_write_guid == header.data_write_guid
            &&& state.log_guid == 0
            &&& state.first_header_current == header.first_header_current
        },
{
    if known.logical_sector_size > 0 {
        super::bat::law_chunk_fills_its_bitmap(
            known.block_size as int,
            known.logical_sector_size as int,
        );
    }
    if r is Ok {
        super::bat::lemma_rounded_up(known.disk_size as int, known.block_size as int);
    }
}

/// A mapping is written to its eight bytes of the table: alone if the page
/// that they are in is clean, and otherwise with the whole page as it is in
/// memory, which is clean then.
pub proof fn law_mapping_is_written_to_its_entry(
    dirty: &mut DirtyBatPages,
    file: VhdxFile,
    state: BatState,
    block_number: u32,
    mapping: InternalBlockMapping,
    r: EntryWrite,
)
    requires
        file.wf(),
        state.matches_bat(file.bat),
        block_number < file.bat.data_block_count,
        call_ensures(
            DirtyBatPages::write_bat_entry_to_cache,
            (dirty, &file, &state, BlockType::Payload, block_number, mapping),
            r,
        ),
    ensures
        ({
            let at = 8 * (block_number + block_number as int / file.bat.chunk_ratio as int);
            let page = at / 4096;
            let raw = state.payload_mappings@[block_number as int].raw;
            match r {
                EntryWrite::Patch { key, byte_offset, entry } => {
                    &&& key.tag == 0
                    &&& key.offset + byte_offset == at
                    &&& byte_offset < 4096
                    &&& entry.raw == mapping.raw % 8 + 0x10_0000 * (mapping.raw as int / 16)
                    &&& page < old(dirty)@.len() ==> !old(dirty)@[page]
                    &&& final(dirty)@ == old(dirty)@
                },
                EntryWrite::Replace { key, page: bytes } => {
                    &&& key.tag == 0
                    &&& key.offset == 4096 * page
                    &&& bytes@.len() == 4096
                    &&& le64(bytes@, at % 4096) == raw % 8 + 0x10_0000 * (raw as int / 16)
                    &&& page < old(dirty)@.len() && old(dirty)@[page]
                    &&& final(dirty)@ == old(dirty)@.update(page, false)
                },
            }
        }),
{
    super::bat::law_indices_are_within_the_table(file.bat, BlockType::Payload, block_number);
    let n = super::bat::payload_index(file.bat, block_number as int);
    super::bat_page::law_position_is_that_of_the_entry(n as u32);
    let at = 8 * n;
    assert(position_of(n).page_number == at / 4096);
    if let EntryWrite::Replace { key, page: bytes } = r {
        super::bat_page::law_page_holds_block_state_and_place(
            file.bat,
            state,
            at / 4096,
            bytes@,
            false,
            block_number,
            at % 4096,
        );
    }
}

} // verus!
