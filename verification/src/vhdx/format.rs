//! On-disk structures, constants and checksums of the VHDX format.

use vstd::prelude::*;

use crate::bytes::{
    get_u16, get_u32, get_u64, le16, le32, le64, overlay, push_u16, push_u32, push_u64,
};
use super::guid::{get_guid, guid_at, push_guid, Guid};

verus! {

/// 4 KiB.
pub const KB4: u64 = 4096;

/// 64 KiB.
pub const KB64: u64 = 65536;

/// 1 MiB.
pub const MB1: u64 = 1024 * 1024;

/// 1 GiB.
pub const GB1: u64 = 1024 * MB1;

/// 1 TiB.
pub const TB1: u64 = 1024 * GB1;

/// Size of a log sector.
pub const LOG_SECTOR_SIZE: u64 = KB4;

/// Size of a large sector.
pub const LARGE_SECTOR_SIZE: u64 = KB64;

/// Alignment of the regions of a file.
pub const REGION_ALIGNMENT: u64 = MB1;

/// Size of a sector bitmap block.
pub const SECTOR_BITMAP_BLOCK_SIZE: u64 = MB1;

/// Number of sectors described by one sector bitmap block.
pub const SECTORS_PER_CHUNK: u64 = SECTOR_BITMAP_BLOCK_SIZE * 8;

/// Lowest file offset that log replay may cover.
pub const LOGGABLE_OFFSET: u64 = REGION_TABLE_OFFSET;

/// Size of the header area.
pub const HEADER_AREA_SIZE: u64 = MB1;

/// On-disk size of one header.
pub const HEADER_SIZE: u64 = KB4;

/// File offset of the first header.
pub const HEADER_OFFSET_1: u64 = LARGE_SECTOR_SIZE;

/// File offset of the second header.
pub const HEADER_OFFSET_2: u64 = LARGE_SECTOR_SIZE * 2;

/// Signature of a [`Header`]: the bytes `head`.
pub const HEADER_SIGNATURE: u32 = 0x6461_6568;

/// The format version.
pub const VERSION_1: u16 = 1;

/// The log format version.
pub const LOG_VERSION: u16 = 0;

/// Size of a region table.
pub const REGION_TABLE_SIZE: u64 = LARGE_SECTOR_SIZE;

/// File offset of the primary region table.
pub const REGION_TABLE_OFFSET: u64 = LARGE_SECTOR_SIZE * 3;

/// File offset of the alternate region table.
pub const ALT_REGION_TABLE_OFFSET: u64 = LARGE_SECTOR_SIZE * 4;

/// Signature of a [`RegionTableHeader`]: the bytes `regi`.
pub const REGION_TABLE_SIGNATURE: u32 = 0x6967_6572;

/// Largest number of entries in a region table: the table less its 16-byte
/// header, in entries of 32 bytes.
pub const REGION_TABLE_MAX_ENTRY_COUNT: u64 = (REGION_TABLE_SIZE - 16) / 32;

/// GUID of the BAT region.
pub const BAT_REGION_GUID: Guid = 0x2dc27766_f623_4200_9d64_115e9bfd4a08;

/// Largest BAT size in bytes.
pub const MAXIMUM_BAT_SIZE: u64 = 513 * MB1;

/// Largest number of BAT entries, of 8 bytes each.
pub const MAXIMUM_BAT_ENTRY_COUNT: u64 = MAXIMUM_BAT_SIZE / 8;

/// Absolute limit on the number of BAT entries.
pub const ABSOLUTE_MAXIMUM_BAT_ENTRY_COUNT: u64 = 0x4000_0000;

/// Largest block size.
pub const MAXIMUM_BLOCK_SIZE: u64 = 256 * MB1;

/// Largest virtual disk size.
pub const MAXIMUM_DISK_SIZE: u64 = 64 * TB1;

/// GUID of the metadata region.
pub const METADATA_REGION_GUID: Guid = 0x8b7ca206_4790_4b9a_b8fe_575f050f886e;

/// Signature of a [`MetadataTableHeader`]: the bytes `metadata`.
pub const METADATA_TABLE_SIGNATURE: u64 = 0x6174_6164_6174_656d;

/// Size of the metadata table.
pub const METADATA_TABLE_SIZE: u64 = LARGE_SECTOR_SIZE;

/// Largest number of metadata table entries: the table less its 32-byte
/// header, in entries of 32 bytes.
pub const METADATA_ENTRY_MAX_COUNT: u64 = (METADATA_TABLE_SIZE - 32) / 32;

/// Largest number of system metadata entries.
pub const METADATA_SYSTEM_ENTRY_MAX_COUNT: u64 = 1023;

/// Largest number of user metadata entries.
pub const METADATA_USER_ENTRY_MAX_COUNT: u64 = 1024;

/// Largest size of the metadata region.
pub const MAXIMUM_METADATA_REGION_SIZE: u64 = 128 * MB1;

/// Largest total metadata size of one category.
pub const MAXIMUM_TOTAL_METADATA_SIZE_PER_CATEGORY: u64 = 40 * MB1;

/// Largest size of one metadata item.
pub const MAXIMUM_METADATA_ITEM_SIZE: u64 = MB1;

/// GUID of the file parameters item.
pub const FILE_PARAMETERS_ITEM_GUID: Guid = 0xcaa16737_fa36_4d43_b3b6_33f0aa44e76b;

/// GUID of the virtual disk size item.
pub const VIRTUAL_DISK_SIZE_ITEM_GUID: Guid = 0x2fa54224_cd1b_4876_b211_5dbed83bf4b8;

/// GUID of the page 83 item.
pub const PAGE_83_ITEM_GUID: Guid = 0xbeca12ab_b2e6_4523_93ef_c309e000c746;

/// GUID of the CHS parameters item.
pub const CHS_PARAMETERS_ITEM_GUID: Guid = 0xda02d7bc_3d3a_423c_ac88_2a36ab21479b;

/// GUID of the logical sector size item.
pub const LOGICAL_SECTOR_SIZE_ITEM_GUID: Guid = 0x8141bf1d_a96f_4709_ba47_f233a8faab5f;

/// GUID of the physical sector size item.
pub const PHYSICAL_SECTOR_SIZE_ITEM_GUID: Guid = 0xcda348c7_445d_4471_9cc9_e9885251c556;

/// GUID of the incomplete file item.
pub const INCOMPLETE_FILE_ITEM_GUID: Guid = 0x71cc85f0_1b69_4e28_9558_c3bf83ae75d3;

/// GUID of the parent locator item.
pub const PARENT_LOCATOR_ITEM_GUID: Guid = 0xa8d35f2d_b30b_454d_abf7_d3d84834ab0c;

/// Type GUID of a parent locator that refers to a VHDX file.
pub const PARENT_LOCATOR_VHDX_TYPE_GUID: Guid = 0xb04aefb7_d19e_4a81_b789_25b8e9445913;

/// Largest number of key-value pairs in a parent locator.
pub const PARENT_LOCATOR_MAXIMUM_KEY_VALUE_COUNT: u16 = 256;

/// GUID of the PMEM label storage area item.
pub const PMEM_LABEL_STORAGE_AREA_ITEM_GUID: Guid = 0x10e1ae8a_4b7e_4169_a40f_cd70de928393;

/// Version of the PMEM label storage area header.
pub const PMEM_LABEL_STORAGE_AREA_VERSION_1: u16 = 1;

/// Signature of a [`LogEntryHeader`]: the bytes `loge`.
pub const LOG_ENTRY_HEADER_SIGNATURE: u32 = 0x6567_6f6c;

/// Signature of a [`LogDataDescriptor`]: the bytes `desc`.
pub const LOG_DESCRIPTOR_DATA_SIGNATURE: u32 = 0x6373_6564;

/// Signature of a [`LogZeroDescriptor`]: the bytes `zero`.
pub const LOG_DESCRIPTOR_ZERO_SIGNATURE: u32 = 0x6f72_657a;

/// Signature of a [`LogDataSector`]: the bytes `data`.
pub const LOG_DATA_SECTOR_SIGNATURE: u32 = 0x6174_6164;

/// Default block size: 2 MiB.
pub const DEFAULT_BLOCK_SIZE: u32 = 0x20_0000;

/// Default logical and physical sector size.
pub const DEFAULT_SECTOR_SIZE: u32 = 512;

/// Default size of the metadata region: 1 MiB.
pub const DEFAULT_METADATA_REGION_SIZE: u32 = 0x10_0000;

/// Default size of the log region: 1 MiB.
pub const DEFAULT_LOG_SIZE: u32 = 0x10_0000;

/// Size of a cache page.
pub const CACHE_PAGE_SIZE: u64 = KB4;

/// Number of BAT entries, of 8 bytes each, in a cache page.
pub const ENTRIES_PER_BAT_PAGE: u64 = CACHE_PAGE_SIZE / 8;

/// Largest sector size of the storage that holds the file.
pub const MAX_HOSTING_SECTOR_SIZE: u64 = KB64;

/// Signature of a [`FileIdentifier`]: the bytes `vhdxfile`.
pub const FILE_IDENTIFIER_SIGNATURE: u64 = 0x656c_6966_7864_6876;

/// Key of the parent linkage.
pub const PARENT_LOCATOR_KEY_PARENT_LINKAGE: &'static str = "parent_linkage";

/// Alternative key of the parent linkage.
pub const PARENT_LOCATOR_KEY_ALT_PARENT_LINKAGE: &'static str = "parent_linkage2";

/// Key of the relative path.
pub const PARENT_LOCATOR_KEY_RELATIVE_PATH: &'static str = "relative_path";

/// Key of the absolute Win32 path.
pub const PARENT_LOCATOR_KEY_ABSOLUTE_PATH: &'static str = "absolute_win32_path";

/// Key of the volume path.
pub const PARENT_LOCATOR_KEY_VOLUME_PATH: &'static str = "volume_path";

/// File identifier, at the start of the file.
#[derive(Debug, Clone, Copy)]
pub struct FileIdentifier {
    /// Must be [`FILE_IDENTIFIER_SIGNATURE`].
    pub signature: u64,
    /// Creator string in UTF-16.
    pub creator: [u16; 256],
}

/// File header.
#[derive(Debug, Clone, Copy)]
pub struct Header {
    /// Must be [`HEADER_SIGNATURE`].
    pub signature: u32,
    /// CRC-32C of the 4 KiB header with this field zero.
    pub checksum: u32,
    /// Number that grows with every header update.
    pub sequence_number: u64,
    /// GUID changed by every write to the file.
    pub file_write_guid: Guid,
    /// GUID changed by every write to the virtual disk.
    pub data_write_guid: Guid,
    /// GUID of the active log.
    pub log_guid: Guid,
    /// Log format version.
    pub log_version: u16,
    /// File format version.
    pub version: u16,
    /// Length of the log region.
    pub log_length: u32,
    /// File offset of the log region.
    pub log_offset: u64,
}

/// Region table header.
#[derive(Debug, Clone, Copy)]
pub struct RegionTableHeader {
    /// Must be [`REGION_TABLE_SIGNATURE`].
    pub signature: u32,
    /// CRC-32C of the 64 KiB table.
    pub checksum: u32,
    /// Number of entries that follow.
    pub entry_count: u32,
    /// Reserved, zero.
    pub reserved: u32,
}

/// Region table entry.
#[derive(Debug, Clone, Copy)]
pub struct RegionTableEntry {
    /// GUID of the region.
    pub guid: Guid,
    /// File offset of the region.
    pub file_offset: u64,
    /// Length of the region in bytes.
    pub length: u32,
    /// Flags of the entry.
    pub flags: RegionTableEntryFlags,
}

/// Metadata table header.
#[derive(Debug, Clone, Copy)]
pub struct MetadataTableHeader {
    /// Must be [`METADATA_TABLE_SIGNATURE`].
    pub signature: u64,
    /// Reserved, zero.
    pub reserved: u16,
    /// Number of entries that follow.
    pub entry_count: u16,
    /// Reserved, zero.
    pub reserved2: [u32; 5],
}

/// Metadata table entry.
#[derive(Debug, Clone, Copy)]
pub struct MetadataTableEntry {
    /// GUID of the item.
    pub item_id: Guid,
    /// Offset of the item in the metadata region.
    pub offset: u32,
    /// Length of the item in bytes.
    pub length: u32,
    /// Flags of the entry.
    pub flags: MetadataTableEntryFlags,
    /// Reserved, zero.
    pub reserved2: u32,
}

/// File parameters item.
#[derive(Debug, Clone, Copy)]
pub struct FileParameters {
    /// Block size in bytes.
    pub block_size: u32,
    /// Flags.
    pub flags: FileParametersFlags,
}

/// CHS parameters item.
#[derive(Debug, Clone, Copy)]
pub struct ChsParameters {
    /// Heads per cylinder.
    pub heads_per_cylinder: u32,
    /// Sectors per track.
    pub sectors_per_track: u32,
}

/// Parent locator header.
#[derive(Debug, Clone, Copy)]
pub struct ParentLocatorHeader {
    /// GUID of the locator type.
    pub locator_type: Guid,
    /// Reserved, zero.
    pub reserved: u16,
    /// Number of key-value entries that follow.
    pub key_value_count: u16,
}

/// Key-value entry of a parent locator.
#[derive(Debug, Clone, Copy)]
pub struct ParentLocatorEntry {
    /// Byte offset of the key.
    pub key_offset: u32,
    /// Byte offset of the value.
    pub value_offset: u32,
    /// Length of the key in bytes.
    pub key_length: u16,
    /// Length of the value in bytes.
    pub value_length: u16,
}

/// Log entry header.
#[derive(Debug, Clone, Copy)]
pub struct LogEntryHeader {
    /// Must be [`LOG_ENTRY_HEADER_SIGNATURE`].
    pub signature: u32,
    /// CRC-32C of the log entry with this field zero.
    pub checksum: u32,
    /// Length of the log entry in bytes.
    pub entry_length: u32,
    /// Byte offset of the oldest active log entry.
    pub tail: u32,
    /// Sequence number of the entry.
    pub sequence_number: u64,
    /// Number of descriptors.
    pub descriptor_count: u32,
    /// Reserved, zero.
    pub reserved: u32,
    /// Must be the log GUID of the active header.
    pub log_guid: Guid,
    /// File size once all entries up to this one are applied.
    pub flushed_file_offset: u64,
    /// File size needed to write the data of this entry.
    pub last_file_offset: u64,
}

/// Log data descriptor.
#[derive(Debug, Clone, Copy)]
pub struct LogDataDescriptor {
    /// Must be [`LOG_DESCRIPTOR_DATA_SIGNATURE`].
    pub signature: u32,
    /// Last bytes of the sector.
    pub trailing_bytes: u32,
    /// First bytes of the sector.
    pub leading_bytes: u64,
    /// File offset at which the data belongs.
    pub file_offset: u64,
    /// Sequence number.
    pub sequence_number: u64,
}

/// Log zero descriptor.
#[derive(Debug, Clone, Copy)]
pub struct LogZeroDescriptor {
    /// Must be [`LOG_DESCRIPTOR_ZERO_SIGNATURE`].
    pub signature: u32,
    /// Reserved, zero.
    pub reserved: u32,
    /// Length of the zero range in bytes.
    pub length: u64,
    /// File offset of the zero range.
    pub file_offset: u64,
    /// Sequence number.
    pub sequence_number: u64,
}

/// One 4 KiB data sector of a log entry.
#[derive(Debug, Clone, Copy)]
pub struct LogDataSector {
    /// Must be [`LOG_DATA_SECTOR_SIGNATURE`].
    pub signature: u32,
    /// High half of the sequence number.
    pub sequence_high: u32,
    /// Payload.
    pub data: [u8; 4084],
    /// Low half of the sequence number.
    pub sequence_low: u32,
}

/// PMEM label storage area header.
#[derive(Debug, Clone, Copy)]
pub struct PmemLabelStorageAreaHeader {
    /// Version of the header.
    pub version: u16,
    /// Reserved, zero.
    pub reserved: u16,
    /// GUID of the address abstraction type.
    pub address_abstraction_type: Guid,
    /// Byte offset of the label data.
    pub data_offset: u32,
    /// Length of the label data in bytes.
    pub data_length: u32,
}

/// Whether the bit `bit` is set.
pub open spec fn has_bit(raw: u32, bit: u32) -> bool {
    raw & bit != 0
}

/// `raw` with the bit `bit` set or cleared.
pub open spec fn with_bit(raw: u32, bit: u32, on: bool) -> u32 {
    if on {
        raw | bit
    } else {
        raw & !bit
    }
}

fn set_bit(raw: u32, bit: u32, on: bool) -> (r: u32)
    requires
        bit != 0,
    ensures
        r == with_bit(raw, bit, on),
        has_bit(r, bit) == on,
{
    assert((raw | bit) & bit != 0) by (bit_vector)
        requires
            bit != 0,
    ;
    assert((raw & !bit) & bit == 0) by (bit_vector);
    if on {
        raw | bit
    } else {
        raw & !bit
    }
}

/// Flags of a [`RegionTableEntry`].
#[derive(Debug, Clone, Copy, PartialEq, Eq, Structural)]
pub struct RegionTableEntryFlags {
    /// The flags as stored.
    pub raw: u32,
}

impl RegionTableEntryFlags {
    /// No flag set.
    pub fn new() -> (r: Self)
        ensures
            r.raw == 0,
    {
        RegionTableEntryFlags { raw: 0 }
    }

    /// Whether the region is required for the file to be valid.
    pub fn required(&self) -> (r: bool)
        ensures
            r == has_bit(self.raw, 1),
    {
        self.raw & 1 != 0
    }

    /// The flags with `required` replaced.
    pub fn with_required(self, on: bool) -> (r: Self)
        ensures
            r.raw == with_bit(self.raw, 1, on),
            has_bit(r.raw, 1) == on,
    {
        RegionTableEntryFlags { raw: set_bit(self.raw, 1, on) }
    }
}

/// Flags of a [`MetadataTableEntry`].
#[derive(Debug, Clone, Copy, PartialEq, Eq, Structural)]
pub struct MetadataTableEntryFlags {
    /// The flags as stored.
    pub raw: u32,
}

impl MetadataTableEntryFlags {
    /// No flag set.
    pub fn new() -> (r: Self)
        ensures
            r.raw == 0,
    {
        MetadataTableEntryFlags { raw: 0 }
    }

    /// Whether the entry belongs to the user.
    pub fn is_user(&self) -> (r: bool)
        ensures
            r == has_bit(self.raw, 1),
    {
        self.raw & 1 != 0
    }

    /// Whether the entry describes the virtual disk.
    pub fn is_virtual_disk(&self) -> (r: bool)
        ensures
            r == has_bit(self.raw, 2),
    {
        self.raw & 2 != 0
    }

    /// Whether the entry is required.
    pub fn is_required(&self) -> (r: bool)
        ensures
            r == has_bit(self.raw, 4),
    {
        self.raw & 4 != 0
    }

    /// The flags with `is_user` replaced.
    pub fn with_is_user(self, on: bool) -> (r: Self)
        ensures
            r.raw == with_bit(self.raw, 1, on),
            has_bit(r.raw, 1) == on,
    {
        MetadataTableEntryFlags { raw: set_bit(self.raw, 1, on) }
    }

    /// The flags with `is_virtual_disk` replaced.
    pub fn with_is_virtual_disk(self, on: bool) -> (r: Self)
        ensures
            r.raw == with_bit(self.raw, 2, on),
            has_bit(r.raw, 2) == on,
    {
        MetadataTableEntryFlags { raw: set_bit(self.raw, 2, on) }
    }

    /// The flags with `is_required` replaced.
    pub fn with_is_required(self, on: bool) -> (r: Self)
        ensures
            r.raw == with_bit(self.raw, 4, on),
            has_bit(r.raw, 4) == on,
    {
        MetadataTableEntryFlags { raw: set_bit(self.raw, 4, on) }
    }
}

/// Flags of [`FileParameters`].
#[derive(Debug, Clone, Copy, PartialEq, Eq, Structural)]
pub struct FileParametersFlags {
    /// The flags as stored.
    pub raw: u32,
}

impl FileParametersFlags {
    /// No flag set.
    pub fn new() -> (r: Self)
        ensures
            r.raw == 0,
    {
        FileParametersFlags { raw: 0 }
    }

    /// Whether blocks are left allocated.
    pub fn leave_blocks_allocated(&self) -> (r: bool)
        ensures
            r == has_bit(self.raw, 1),
    {
        self.raw & 1 != 0
    }

    /// Whether the disk has a parent.
    pub fn has_parent(&self) -> (r: bool)
        ensures
            r == has_bit(self.raw, 2),
    {
        self.raw & 2 != 0
    }

    /// The flags with `leave_blocks_allocated` replaced.
    pub fn with_leave_blocks_allocated(self, on: bool) -> (r: Self)
        ensures
            r.raw == with_bit(self.raw, 1, on),
            has_bit(r.raw, 1) == on,
    {
        FileParametersFlags { raw: set_bit(self.raw, 1, on) }
    }

    /// The flags with `has_parent` replaced.
    pub fn with_has_parent(self, on: bool) -> (r: Self)
        ensures
            r.raw == with_bit(self.raw, 2, on),
            has_bit(r.raw, 2) == on,
    {
        FileParametersFlags { raw: set_bit(self.raw, 2, on) }
    }
}

/// Setting or clearing a bit decides that bit and leaves every other bit as
/// it is.
pub proof fn law_flag_bits_are_independent(raw: u32, bit: u32, other: u32, on: bool)
    requires
        bit != 0,
        bit & other == 0,
    ensures
        has_bit(with_bit(raw, bit, on), bit) == on,
        with_bit(raw, bit, on) & other == raw & other,
{
    assert((raw | bit) & bit != 0) by (bit_vector)
        requires
            bit != 0,
    ;
    assert((raw & !bit) & bit == 0) by (bit_vector);
    assert((raw | bit) & other == raw & other && (raw & !bit) & other == raw & other) by (bit_vector)
        requires
            bit & other == 0,
    ;
}

/// An entry of the block allocation table: the block state in bits 0 to 2,
/// the file offset in MiB in bits 20 to 63.
#[derive(Debug, Clone, Copy, PartialEq, Eq, Structural)]
pub struct BatEntry {
    /// The entry as stored.
    pub raw: u64,
}

impl BatEntry {
    /// The block state.
    pub open spec fn spec_state(self) -> u8 {
        (self.raw % 8) as u8
    }

    /// The file offset in MiB.
    pub open spec fn spec_file_offset_mb(self) -> u64 {
        self.raw / 0x10_0000
    }

    /// The entry with the given state and offset and nothing else set.
    pub open spec fn of(state: u8, mb: u64) -> BatEntry {
        BatEntry { raw: (state + 0x10_0000 * mb) as u64 }
    }

    /// The all-zero entry.
    pub fn new() -> (r: Self)
        ensures
            r.raw == 0,
    {
        BatEntry { raw: 0 }
    }

    /// The block state.
    pub fn state(&self) -> (r: u8)
        ensures
            r == self.spec_state(),
            r < 8,
    {
        (self.raw % 8) as u8
    }

    /// The file offset in MiB.
    pub fn file_offset_mb(&self) -> (r: u64)
        ensures
            r == self.spec_file_offset_mb(),
            r < 0x1000_0000_0000,
    {
        self.raw / 0x10_0000
    }

    /// The file offset in bytes.
    pub fn file_offset(&self) -> (r: u64)
        ensures
            r == self.spec_file_offset_mb() * MB1,
    {
        self.raw / 0x10_0000 * 0x10_0000
    }

    /// The entry with the state replaced.
    pub fn with_state(self, state: u8) -> (r: Self)
        requires
            state < 8,
        ensures
            r.spec_state() == state,
            r.raw / 8 == self.raw / 8,
            r.spec_file_offset_mb() == self.spec_file_offset_mb(),
    {
        BatEntry { raw: self.raw - self.raw % 8 + state as u64 }
    }

    /// The entry with the file offset replaced.
    pub fn with_file_offset_mb(self, mb: u64) -> (r: Self)
        requires
            mb < 0x1000_0000_0000,
        ensures
            r.spec_file_offset_mb() == mb,
            r.raw % 0x10_0000 == self.raw % 0x10_0000,
            r.spec_state() == self.spec_state(),
    {
        BatEntry { raw: self.raw % 0x10_0000 + mb * 0x10_0000 }
    }

    /// The eight bytes of the entry.
    pub fn as_bytes(&self) -> (r: Vec<u8>)
        ensures
            r@.len() == 8,
            le64(r@, 0) == self.raw,
    {
        let mut buf: Vec<u8> = Vec::new();
        push_u64(&mut buf, self.raw);
        buf
    }

    /// Reads an entry from exactly eight bytes.
    pub fn read_from_bytes(data: &[u8]) -> (r: Option<Self>)
        ensures
            r == (if data@.len() == 8 {
                Some(BatEntry { raw: le64(data@, 0) })
            } else {
                None
            }),
    {
        if data.len() != 8 {
            return None;
        }
        Some(BatEntry { raw: get_u64(data, 0) })
    }
}

/// State of a block.
#[derive(Debug, Clone, Copy, PartialEq, Eq, Structural)]
pub enum BatEntryState {
    /// The block is not present.
    NotPresent,
    /// The content of the block is undefined.
    Undefined,
    /// The block is zero.
    Zero,
    /// The block is unmapped.
    Unmapped,
    /// The block is fully present in the file.
    FullyPresent,
    /// The block is partially present in the file.
    PartiallyPresent,
}

impl BatEntryState {
    /// The number that stands for the state.
    pub open spec fn raw(self) -> u8 {
        match self {
            BatEntryState::NotPresent => 0,
            BatEntryState::Undefined => 1,
            BatEntryState::Zero => 2,
            BatEntryState::Unmapped => 3,
            BatEntryState::FullyPresent => 6,
            BatEntryState::PartiallyPresent => 7,
        }
    }

    /// The state that a number stands for.
    pub open spec fn of_raw(value: u8) -> Option<BatEntryState> {
        if value == 0 {
            Some(BatEntryState::NotPresent)
        } else if value == 1 {
            Some(BatEntryState::Undefined)
        } else if value == 2 {
            Some(BatEntryState::Zero)
        } else if value == 3 {
            Some(BatEntryState::Unmapped)
        } else if value == 6 {
            Some(BatEntryState::FullyPresent)
        } else if value == 7 {
            Some(BatEntryState::PartiallyPresent)
        } else {
            None
        }
    }

    /// The number that stands for the state.
    pub fn to_raw(self) -> (r: u8)
        ensures
            r == self.raw(),
            r < 8,
    {
        match self {
            BatEntryState::NotPresent => 0,
            BatEntryState::Undefined => 1,
            BatEntryState::Zero => 2,
            BatEntryState::Unmapped => 3,
            BatEntryState::FullyPresent => 6,
            BatEntryState::PartiallyPresent => 7,
        }
    }

    /// The state that a number stands for, if any.
    pub fn from_raw(value: u8) -> (r: Option<Self>)
        ensures
            r == Self::of_raw(value),
    {
        match value {
            0 => Some(BatEntryState::NotPresent),
            1 => Some(BatEntryState::Undefined),
            2 => Some(BatEntryState::Zero),
            3 => Some(BatEntryState::Unmapped),
            6 => Some(BatEntryState::FullyPresent),
            7 => Some(BatEntryState::PartiallyPresent),
            _ => None,
        }
    }

    /// Whether the block is backed by file space.
    pub fn is_allocated(self) -> (r: bool)
        ensures
            r == (self == BatEntryState::FullyPresent || self == BatEntryState::PartiallyPresent),
    {
        matches!(self, BatEntryState::FullyPresent | BatEntryState::PartiallyPresent)
    }
}

/// Every state is recovered from its number, and a number that stands for a
/// state is the number of that state.
pub proof fn law_block_state_round_trip(state: BatEntryState, value: u8)
    ensures
        BatEntryState::of_raw(state.raw()) == Some(state),
        BatEntryState::of_raw(value) matches Some(s) ==> s.raw() == value,
{
}

/// The file identifier held by 520 bytes.
pub open spec fn file_identifier_signature(s: Seq<u8>) -> u64 {
    le64(s, 0)
}

impl FileIdentifier {
    /// Reads a file identifier from exactly 520 bytes.
    pub fn read_from_bytes(data: &[u8]) -> (r: Option<Self>)
        ensures
            r is Some <==> data@.len() == 520,
            r matches Some(ident) ==> {
                &&& ident.signature == file_identifier_signature(data@)
                &&& forall|i: int|
                    0 <= i < 256 ==> #[trigger] ident.creator@[i] == le16(data@, 8 + 2 * i)
            },
    {
        if data.len() != 520 {
            return None;
        }
        let mut creator: [u16; 256] = [0u16; 256];
        let mut i: usize = 0;
        while i < 256
            invariant
                i <= 256,
                data.len() == 520,
                forall|k: int| 0 <= k < i ==> #[trigger] creator@[k] == le16(data@, 8 + 2 * k),
            decreases 256 - i,
        {
            creator[i] = get_u16(data, 8 + 2 * i);
            i += 1;
        }
        Some(FileIdentifier { signature: get_u64(data, 0), creator })
    }
}

/// The header held by the first 80 bytes.
pub open spec fn header_of(s: Seq<u8>) -> Header {
    Header {
        signature: le32(s, 0),
        checksum: le32(s, 4),
        sequence_number: le64(s, 8),
        file_write_guid: guid_at(s, 16),
        data_write_guid: guid_at(s, 32),
        log_guid: guid_at(s, 48),
        log_version: le16(s, 64),
        version: le16(s, 66),
        log_length: le32(s, 68),
        log_offset: le64(s, 72),
    }
}

impl Header {
    /// A header with every field zero.
    pub fn new_zeroed() -> (r: Header)
        ensures
            r == (Header {
                signature: 0,
                checksum: 0,
                sequence_number: 0,
                file_write_guid: 0,
                data_write_guid: 0,
                log_guid: 0,
                log_version: 0,
                version: 0,
                log_length: 0,
                log_offset: 0,
            }),
    {
        Header {
            signature: 0,
            checksum: 0,
            sequence_number: 0,
            file_write_guid: 0,
            data_write_guid: 0,
            log_guid: 0,
            log_version: 0,
            version: 0,
            log_length: 0,
            log_offset: 0,
        }
    }

    /// The 80 bytes of the header.
    pub fn as_bytes(&self) -> (r: Vec<u8>)
        ensures
            r@.len() == 80,
            header_of(r@) == *self,
    {
        let mut buf: Vec<u8> = Vec::new();
        push_u32(&mut buf, self.signature);
        push_u32(&mut buf, self.checksum);
        push_u64(&mut buf, self.sequence_number);
        push_guid(&mut buf, self.file_write_guid);
        push_guid(&mut buf, self.data_write_guid);
        push_guid(&mut buf, self.log_guid);
        push_u16(&mut buf, self.log_version);
        push_u16(&mut buf, self.version);
        push_u32(&mut buf, self.log_length);
        push_u64(&mut buf, self.log_offset);
        buf
    }

    /// Reads a header from the first 80 bytes, if there are as many.
    pub fn read_from_prefix(data: &[u8]) -> (r: Option<Header>)
        ensures
            r == (if data@.len() >= 80 {
                Some(header_of(data@))
            } else {
                None
            }),
    {
        if data.len() < 80 {
            return None;
        }
        Some(
            Header {
                signature: get_u32(data, 0),
                checksum: get_u32(data, 4),
                sequence_number: get_u64(data, 8),
                file_write_guid: get_guid(data, 16),
                data_write_guid: get_guid(data, 32),
                log_guid: get_guid(data, 48),
                log_version: get_u16(data, 64),
                version: get_u16(data, 66),
                log_length: get_u32(data, 68),
                log_offset: get_u64(data, 72),
            },
        )
    }

    /// Reads a header from exactly 80 bytes.
    pub fn read_from_bytes(data: &[u8]) -> (r: Option<Header>)
        ensures
            r == (if data@.len() == 80 {
                Some(header_of(data@))
            } else {
                None
            }),
    {
        if data.len() != 80 {
            return None;
        }
        Self::read_from_prefix(data)
    }
}

/// The parent locator header held by the first 20 bytes.
pub open spec fn locator_header_of(s: Seq<u8>) -> ParentLocatorHeader {
    ParentLocatorHeader {
        locator_type: guid_at(s, 0),
        reserved: le16(s, 16),
        key_value_count: le16(s, 18),
    }
}

impl ParentLocatorHeader {
    /// The 20 bytes of the header.
    pub fn as_bytes(&self) -> (r: Vec<u8>)
        ensures
            r@.len() == 20,
            locator_header_of(r@) == *self,
    {
        let mut buf: Vec<u8> = Vec::new();
        push_guid(&mut buf, self.locator_type);
        push_u16(&mut buf, self.reserved);
        push_u16(&mut buf, self.key_value_count);
        buf
    }

    /// Reads a header from the first 20 bytes, if there are as many.
    pub fn read_from_prefix(data: &[u8]) -> (r: Option<ParentLocatorHeader>)
        ensures
            r == (if data@.len() >= 20 {
                Some(locator_header_of(data@))
            } else {
                None
            }),
    {
        if data.len() < 20 {
            return None;
        }
        Some(
            ParentLocatorHeader {
                locator_type: get_guid(data, 0),
                reserved: get_u16(data, 16),
                key_value_count: get_u16(data, 18),
            },
        )
    }
}

/// The parent locator entry held by the 12 bytes at `at`.
pub open spec fn locator_entry_at(s: Seq<u8>, at: int) -> ParentLocatorEntry {
    ParentLocatorEntry {
        key_offset: le32(s, at),
        value_offset: le32(s, at + 4),
        key_length: le16(s, at + 8),
        value_length: le16(s, at + 10),
    }
}

impl ParentLocatorEntry {
    /// The 12 bytes of the entry.
    pub fn as_bytes(&self) -> (r: Vec<u8>)
        ensures
            r@.len() == 12,
            locator_entry_at(r@, 0) == *self,
    {
        let mut buf: Vec<u8> = Vec::new();
        push_u32(&mut buf, self.key_offset);
        push_u32(&mut buf, self.value_offset);
        push_u16(&mut buf, self.key_length);
        push_u16(&mut buf, self.value_length);
        buf
    }

    /// Reads the entry at `at`.
    pub fn read_at(data: &[u8], at: usize) -> (r: ParentLocatorEntry)
        requires
            at + 12 <= data.len(),
        ensures
            r == locator_entry_at(data@, at as int),
    {
        ParentLocatorEntry {
            key_offset: get_u32(data, at),
            value_offset: get_u32(data, at + 4),
            key_length: get_u16(data, at + 8),
            value_length: get_u16(data, at + 10),
        }
    }
}

/// What `crc32c::crc32c_append` returns: the CRC-32C of `data`, continued from
/// the CRC `crc` of what came before.
pub uninterp spec fn crc32c_append_value(crc: u32, data: Seq<u8>) -> u32;

/// The bytes are as many, and differ in exactly one place.
pub open spec fn one_byte_apart(a: Seq<u8>, b: Seq<u8>) -> bool {
    &&& a.len() == b.len()
    &&& exists|i: int| 0 <= i < a.len() && #[trigger] a[i] != b[i] && b == a.update(i, b[i])
}

/// `crc32c::crc32c_append` computes the CRC of the data starting from a
/// previous CRC value. So if the previous value is itself the CRC of some
/// bytes, the result is that of those bytes followed by the data.
///
/// It also differs from the CRC of bytes that are other in one place. For each
/// byte is added to the low bits of the CRC, which is then shifted eight times
/// by one bit, with the polynomial 0x82F63B78 added where a one was shifted
/// out; the highest bit of the polynomial is set, so a shift can be undone,
/// and different values of the CRC or of the byte stay different.
pub assume_specification[ crc32c::crc32c_append ](crc: u32, data: &[u8]) -> (r: u32)
    ensures
        r == crc32c_append_value(crc, data@),
        forall|start: u32, before: Seq<u8>|
            crc == #[trigger] crc32c_append_value(start, before) ==> r == crc32c_append_value(
                start,
                before + data@,
            ),
        forall|start: u32, before: Seq<u8>, other: Seq<u8>|
            crc == #[trigger] crc32c_append_value(start, before) && one_byte_apart(
                before + data@,
                other,
            ) ==> r != #[trigger] crc32c_append_value(start, other),
;

/// `crc32c::crc32c` is `crc32c::crc32c_append` started from zero.
pub assume_specification[ crc32c::crc32c ](data: &[u8]) -> (r: u32)
    ensures
        r == crc32c_append_value(0, data@),
;

/// The CRC-32C of `data` with the four bytes at `checksum_offset` zero.
pub open spec fn checksum_of(data: Seq<u8>, checksum_offset: int) -> u32 {
    crc32c_append_value(0, overlay(data, checksum_offset, seq![0u8, 0u8, 0u8, 0u8]))
}

/// Whether the checksum stored at `checksum_offset` is that of the data.
pub open spec fn checksum_valid(data: Seq<u8>, checksum_offset: int) -> bool {
    &&& checksum_offset + 4 <= data.len()
    &&& le32(data, checksum_offset) == checksum_of(data, checksum_offset)
}

/// The data with one byte changed, which is not one of the stored checksum.
pub open spec fn changed_outside(data: Seq<u8>, other: Seq<u8>, checksum_offset: int) -> bool {
    &&& one_byte_apart(data, other)
    &&& forall|i: int|
        checksum_offset <= i < checksum_offset + 4 ==> #[trigger] other[i] == data[i]
}

proof fn lemma_changed_outside(data: Seq<u8>, other: Seq<u8>, checksum_offset: int)
    requires
        0 <= checksum_offset,
        checksum_offset + 4 <= data.len(),
        changed_outside(data, other, checksum_offset),
    ensures
        one_byte_apart(
            overlay(data, checksum_offset, seq![0u8, 0u8, 0u8, 0u8]),
            overlay(other, checksum_offset, seq![0u8, 0u8, 0u8, 0u8]),
        ),
{
    let zeros = seq![0u8, 0u8, 0u8, 0u8];
    let (a, b) = (overlay(data, checksum_offset, zeros), overlay(other, checksum_offset, zeros));
    let i = choose|i: int|
        0 <= i < data.len() && #[trigger] data[i] != other[i] && other == data.update(i, other[i]);
    assert(!(checksum_offset <= i < checksum_offset + 4));
    assert(a[i] != b[i]);
    assert(b =~= a.update(i, b[i]));
}

/// Computes the CRC-32C of `data`, taking the four bytes at
/// `checksum_offset` as zero. It is another one if any other byte is.
pub fn compute_checksum(data: &[u8], checksum_offset: usize) -> (r: u32)
    requires
        checksum_offset + 4 <= data.len(),
    ensures
        r == checksum_of(data@, checksum_offset as int),
        forall|other: Seq<u8>| #[trigger]
            changed_outside(data@, other, checksum_offset as int) ==> checksum_of(
                other,
                checksum_offset as int,
            ) != r,
{
    let zeros: [u8; 4] = [0, 0, 0, 0];
    let head = &data[0..checksum_offset];
    let tail = &data[checksum_offset + 4..data.len()];
    let crc: u32 = crc32c::crc32c(head);
    let crc: u32 = crc32c::crc32c_append(crc, &zeros);
    let crc: u32 = crc32c::crc32c_append(crc, tail);
    assert(head@ + zeros@ + tail@ == overlay(
        data@,
        checksum_offset as int,
        seq![0u8, 0u8, 0u8, 0u8],
    ));
    assert forall|other: Seq<u8>| #[trigger]
        changed_outside(data@, other, checksum_offset as int) implies checksum_of(
        other,
        checksum_offset as int,
    ) != crc by {
        lemma_changed_outside(data@, other, checksum_offset as int);
    }
    crc
}

/// Whether the checksum stored at `checksum_offset` is that of the data. If it
/// is, it is not that of the data with any other byte changed.
pub fn validate_checksum(data: &[u8], checksum_offset: usize) -> (r: bool)
    ensures
        r == checksum_valid(data@, checksum_offset as int),
        r ==> forall|other: Seq<u8>| #[trigger]
            changed_outside(data@, other, checksum_offset as int) ==> !checksum_valid(
                other,
                checksum_offset as int,
            ),
{
    match checksum_offset.checked_add(4) {
        None => {
            assert(data.len() <= usize::MAX);
            false
        },
        Some(checksum_end) => {
            if checksum_end > data.len() {
                return false;
            }
            let stored: u32 = get_u32(data, checksum_offset);
            let computed: u32 = compute_checksum(data, checksum_offset);
            assert forall|other: Seq<u8>| stored == computed && #[trigger]
                changed_outside(data@, other, checksum_offset as int) implies !checksum_valid(
                other,
                checksum_offset as int,
            ) by {
                assert(le32(other, checksum_offset as int) == stored);
            }
            stored == computed
        },
    }
}

/// Storing the computed checksum makes the data valid, whatever was stored
/// before, and does not change the checksum.
pub proof fn law_stored_checksum_is_valid(data: Seq<u8>, checksum_offset: int, part: Seq<u8>)
    requires
        0 <= checksum_offset,
        checksum_offset + 4 <= data.len(),
        part.len() == 4,
        le32(part, 0) == checksum_of(data, checksum_offset),
    ensures
        checksum_valid(overlay(data, checksum_offset, part), checksum_offset),
        checksum_of(overlay(data, checksum_offset, part), checksum_offset) == checksum_of(
            data,
            checksum_offset,
        ),
{
    let stored = overlay(data, checksum_offset, part);
    let zeros = seq![0u8, 0u8, 0u8, 0u8];
    assert(overlay(stored, checksum_offset, zeros) == overlay(data, checksum_offset, zeros));
}

/// The flags are in their places: the lowest bit of a region entry says that
/// it is required; the lowest three of a metadata entry say that it is the
/// user's, belongs to the virtual disk and is required; the lowest two of the
/// file parameters say that blocks stay allocated and that there is a parent.
pub proof fn law_flags_are_in_their_places(
    raw: u32,
    required: bool,
    user: bool,
    virtual_disk: bool,
    metadata_required: bool,
    leave_allocated: bool,
    has_parent: bool,
)
    requires
        call_ensures(
            RegionTableEntryFlags::required,
            (&RegionTableEntryFlags { raw },),
            required,
        ),
        call_ensures(MetadataTableEntryFlags::is_user, (&MetadataTableEntryFlags { raw },), user),
        call_ensures(
            MetadataTableEntryFlags::is_virtual_disk,
            (&MetadataTableEntryFlags { raw },),
            virtual_disk,
        ),
        call_ensures(
            MetadataTableEntryFlags::is_required,
            (&MetadataTableEntryFlags { raw },),
            metadata_required,
        ),
        call_ensures(
            FileParametersFlags::leave_blocks_allocated,
            (&FileParametersFlags { raw },),
            leave_allocated,
        ),
        call_ensures(
            FileParametersFlags::has_parent,
            (&FileParametersFlags { raw },),
            has_parent,
        ),
    ensures
        required <==> raw % 2 == 1,
        user <==> raw % 2 == 1,
        virtual_disk <==> raw / 2 % 2 == 1,
        metadata_required <==> raw / 4 % 2 == 1,
        leave_allocated <==> raw % 2 == 1,
        has_parent <==> raw / 2 % 2 == 1,
{
    assert(raw & 1 != 0 <==> raw % 2 == 1) by (bit_vector);
    assert(raw & 2 != 0 <==> raw / 2 % 2 == 1) by (bit_vector);
    assert(raw & 4 != 0 <==> raw / 4 % 2 == 1) by (bit_vector);
}

/// A checksum does not depend on the four bytes that it is stored in, and it
/// is that of the bytes as they are if those four are zero.
pub proof fn law_checksum_leaves_its_own_bytes_out(
    data: Seq<u8>,
    other: Seq<u8>,
    checksum_offset: int,
)
    requires
        0 <= checksum_offset,
        checksum_offset + 4 <= data.len(),
        other.len() == data.len(),
        forall|i: int|
            0 <= i < data.len() && !(checksum_offset <= i < checksum_offset + 4)
                ==> #[trigger] other[i] == data[i],
    ensures
        checksum_of(other, checksum_offset) == checksum_of(data, checksum_offset),
        (forall|i: int| checksum_offset <= i < checksum_offset + 4 ==> #[trigger] other[i] == 0)
            ==> checksum_of(data, checksum_offset) == crc32c_append_value(0, other),
{
    let zeros = seq![0u8, 0u8, 0u8, 0u8];
    assert(overlay(other, checksum_offset, zeros) =~= overlay(data, checksum_offset, zeros));
    if forall|i: int| checksum_offset <= i < checksum_offset + 4 ==> #[trigger] other[i] == 0 {
        assert(overlay(other, checksum_offset, zeros) =~= other);
    }
}

/// An entry of the table holds the state of a block in its lowest three bits
/// and the megabyte that it is in from bit twenty on, and gives them back.
pub proof fn law_table_entry_bits(state: u8, mb: u64, entry: BatEntry, offset: u64)
    requires
        state < 8,
        mb < 0x1000_0000_0000,
        call_ensures(BatEntry::file_offset, (&entry,), offset),
    ensures
        BatEntry::of(state, mb).raw % 8 == state,
        BatEntry::of(state, mb).raw / 0x10_0000 == mb,
        BatEntry::of(state, mb).spec_state() == state,
        BatEntry::of(state, mb).spec_file_offset_mb() == mb,
        offset == entry.raw - entry.raw % 0x10_0000,
{
}

} // verus!
