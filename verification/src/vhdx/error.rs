//! Error types of the VHDX parser.

use vstd::prelude::*;

verus! {

/// What kind of input or output failure occurred.
#[derive(Debug, Clone, Copy, PartialEq, Eq, Structural)]
pub enum IoErrorKind {
    /// The data that was read is not valid.
    InvalidData,
    /// Any other failure.
    Other,
}

/// An input or output failure.
#[derive(Debug)]
pub struct IoError {
    /// The kind of failure.
    pub kind: IoErrorKind,
    /// What went wrong.
    pub message: String,
}

/// Errors returned by VHDX operations.
#[derive(Debug)]
pub enum VhdxError {
    /// Reading or writing the file failed.
    Io(IoError),
    /// The file is corrupt.
    Corrupt(CorruptionType),
    /// A parameter is not valid.
    InvalidFormat(InvalidFormatReason),
    /// The file was opened read-only.
    ReadOnly,
}

/// Reasons why creation parameters are not valid.
#[derive(Debug, Clone, Copy, PartialEq, Eq, Structural)]
pub enum InvalidFormatReason {
    /// The logical sector size is not 512 or 4096.
    InvalidLogicalSectorSize,
    /// The physical sector size is not 512 or 4096.
    InvalidPhysicalSectorSize,
    /// The disk size is zero.
    DiskSizeZero,
    /// The disk size is not a multiple of the logical sector size.
    DiskSizeNotAligned,
    /// The disk size exceeds the maximum (64 TiB).
    DiskSizeTooLarge,
    /// The block size is not a multiple of 1 MiB.
    BlockSizeNotAligned,
    /// The block size exceeds the maximum (256 MiB).
    BlockSizeTooLarge,
    /// The block alignment is not a power of 2.
    BlockAlignmentNotPowerOfTwo,
    /// The block size / logical sector size combination is invalid (chunk ratio is zero).
    InvalidChunkRatio,
    /// The computed BAT entry count exceeds the absolute maximum.
    BatEntryCountTooLarge,
    /// The computed BAT size exceeds the maximum.
    BatSizeTooLarge,
}

/// Reasons why a file counts as corrupt.
#[derive(Debug, Clone, Copy, PartialEq, Eq, Structural)]
pub enum CorruptionType {
    /// Unspecified corruption.
    Other,
    /// A sector bitmap block is referenced but its BAT entry is not allocated.
    UnallocatedSectorBitmapBlock,
    /// A user metadata entry is marked as required, which is invalid.
    MetadataUserRequired,
    /// The BAT region is too small to cover all blocks and sector bitmaps.
    BatTooSmall,
    /// Neither header has a valid checksum.
    NoValidHeaders,
    /// The log offset or length in the header is invalid (misaligned or zero when GUID is set).
    InvalidLogOffsetOrLength,
    /// The log region offset is not properly aligned.
    InvalidLogOffset,
    /// The log region extends beyond the end of the file.
    LogBeyondEndOfFile,
    /// The parent locator metadata item is too small to contain its header.
    LocatorTooSmallForHeader,
    /// The parent locator metadata item is too small for the declared entries.
    LocatorTooSmallForEntries,
    /// A parent locator entry references a key outside the item bounds.
    InvalidLocatorEntryKey,
    /// A parent locator entry has an empty key.
    EmptyLocatorEntryKey,
    /// A parent locator entry has an empty value.
    EmptyLocatorEntryValue,
    /// The parent locator metadata item is incorrectly flagged as a virtual disk item.
    ParentLocatorIsVirtualDisk,
    /// The metadata table header has an invalid signature.
    InvalidMetadataTableSignature,
    /// The metadata table entry count exceeds the maximum allowed.
    MetadataTableEntryCountTooHigh,
    /// Two or more metadata entries share the same item GUID.
    MetadataDuplicateGuid,
    /// Two or more metadata entries have overlapping data ranges.
    MetadataOverlapping,
    /// The number of user metadata entries exceeds the maximum allowed.
    MetadataUserCountExceeded,
    /// The file is empty or truncated before the minimum valid size.
    EmptyFile,
    /// The file parameters metadata item has an invalid size.
    InvalidFileParameterSize,
    /// The file parameters metadata item is incorrectly flagged as virtual disk metadata.
    FileParametersMarkedVirtual,
    /// The block size is invalid (not a power of two, or out of range).
    InvalidBlockSize,
    /// The logical sector size is invalid (not 512 or 4096).
    InvalidLogicalSectorSize,
    /// The logical sector size metadata item is incorrectly flagged as virtual disk metadata.
    LogicalSectorSizeMarkedVirtual,
    /// The physical sector size is invalid.
    InvalidSectorSize,
    /// The logical sector size metadata item has an invalid data length.
    InvalidLogicalSectorSizeSize,
    /// The virtual disk size metadata item is incorrectly flagged as virtual disk metadata.
    DiskMarkedVirtual,
    /// The virtual disk size is invalid (zero, not aligned, or exceeds maximum).
    InvalidDiskSize,
    /// Both copies of the region table are corrupt.
    RegionTablesBothCorrupt,
    /// The entry count in a region table header is invalid.
    InvalidEntryCountInRegionTable,
    /// Two region table entries have the same GUID.
    DuplicateRegionEntry,
    /// A region table entry has an invalid offset or length (misaligned or overlapping headers).
    OffsetOrLengthInRegionTable,
    /// A required region has an unrecognized GUID.
    UnknownRequiredRegion,
    /// The BAT or metadata region is missing from the region table.
    MissingBatOrMetadataRegion,
    /// A log entry failed validation during replay.
    BadLogEntryOnReplay,
    /// The log contains no valid entries but requires replay.
    NoValidLogEntries,
    /// The VHDX file has been truncated below the required size.
    VhdTruncated,
    /// A BAT entry references a file range beyond the end of the file.
    RangeBeyondEof,
    /// Two or more BAT entries reference overlapping file ranges.
    RangeCollision,
    /// A BAT entry contains an invalid block state value.
    InvalidBlockState,
    /// A trimmed range collides with an allocated range.
    TrimmedRangeCollision,
    /// A required metadata item has an unrecognized GUID.
    UnknownRequiredMetadata,
    /// The file is marked as incompletely created.
    IncompleteFile,
    /// A required metadata item is missing from the metadata table.
    MissingRequiredMetadata,
    /// The log GUID in the header is non-zero but no log region exists.
    MissingLogHasGuid,
    /// A metadata table entry has an invalid offset (below minimum or misaligned).
    InvalidMetadataEntryOffset,
    /// The metadata region exceeds the maximum allowed size.
    MetadataRegionTooLarge,
    /// A single metadata item exceeds the maximum allowed size.
    MetadataItemTooLarge,
    /// The total size of all metadata items in one category exceeds the limit.
    TotalMetadataSizeExceeded,
    /// A metadata table entry has a zero item GUID.
    ZeroMetadataItemId,
    /// The file identifier at offset 0 has an invalid signature.
    InvalidFileIdentifier,
    /// The parent locator has an invalid key-value count.
    InvalidLocatorKeyValueCount,
    /// The file is unreasonably large (exceeds implementation limits).
    HugeFile,
    /// The log GUID is not zero, so the log has to be replayed before use.
    LogReplayRequired,
    /// A read or write request extends beyond the end of the virtual disk.
    ReadBeyondEndOfDisk,
    /// A read or write request is not aligned to the logical sector size.
    UnalignedIo,
}

/// An I/O error of kind `kind` with the given text.
pub fn io_error(kind: IoErrorKind, text: &str) -> (r: VhdxError)
    ensures
        r matches VhdxError::Io(e) && e.kind == kind && e.message@ == text@,
{
    VhdxError::Io(IoError { kind, message: text.to_string() })
}

} // verus!
