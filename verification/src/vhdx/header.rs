//! The two headers of a file.
//!
//! A file holds two headers. The active one is the valid one with the higher
//! sequence number. An update is written over the other one, so that a valid
//! header remains whatever happens to the write.

use vstd::prelude::*;

use crate::bytes::{le16, le32, le64, push_u32, put_bytes, zero_bytes};
use super::error::{io_error, CorruptionType, IoErrorKind, VhdxError};
use super::format::{
    checksum_valid, compute_checksum, header_of, law_stored_checksum_is_valid,
    validate_checksum, Header, HEADER_AREA_SIZE, HEADER_OFFSET_1, HEADER_OFFSET_2,
    HEADER_SIGNATURE, HEADER_SIZE, LOG_VERSION, REGION_ALIGNMENT, VERSION_1,
};
use super::guid::{guid_at, Guid, GUID_ZERO};

verus! {

/// What is taken from the active header.
#[derive(Debug, Clone, Copy)]
pub struct ParsedHeader {
    /// Sequence number.
    pub sequence_number: u64,
    /// GUID changed by every write to the file.
    pub file_write_guid: Guid,
    /// GUID changed by every write to the virtual disk.
    pub data_write_guid: Guid,
    /// GUID of the active log, zero if there is none.
    pub log_guid: Guid,
    /// File offset of the log region.
    pub log_offset: u64,
    /// Length of the log region.
    pub log_length: u32,
    /// File format version.
    pub version: u16,
    /// Whether the first header is the active one.
    pub first_header_current: bool,
}

/// A header to write.
#[derive(Debug)]
pub struct HeaderWrite {
    /// File offset of the header.
    pub offset: u64,
    /// Its 4 KiB.
    pub bytes: Vec<u8>,
}

/// The header that a buffer holds, if its signature and checksum are right.
pub open spec fn valid_header(buf: Seq<u8>) -> Option<Header> {
    if buf.len() >= 80 && header_of(buf).signature == HEADER_SIGNATURE && checksum_valid(buf, 4) {
        Some(header_of(buf))
    } else {
        None
    }
}

/// The active one of two headers, and whether it is the first.
pub open spec fn active_header(header1: Option<Header>, header2: Option<Header>) -> Option<
    (Header, bool),
> {
    match (header1, header2) {
        (Some(h1), Some(h2)) => if h1.sequence_number >= h2.sequence_number {
            Some((h1, true))
        } else {
            Some((h2, false))
        },
        (Some(h1), None) => Some((h1, true)),
        (None, Some(h2)) => Some((h2, false)),
        (None, None) => None,
    }
}

/// What is taken from the header `h`.
pub open spec fn parsed_of(h: Header, first: bool) -> ParsedHeader {
    ParsedHeader {
        sequence_number: h.sequence_number,
        file_write_guid: h.file_write_guid,
        data_write_guid: h.data_write_guid,
        log_guid: h.log_guid,
        log_offset: if h.log_length == 0 {
            0
        } else {
            h.log_offset
        },
        log_length: h.log_length,
        version: h.version,
        first_header_current: first,
    }
}

/// Why the active header is refused.
pub enum HeaderFault {
    /// The format version is not known.
    Version,
    /// The log version is not known.
    LogVersion,
    /// The file is corrupt.
    Corrupt(CorruptionType),
}

/// Why a header is refused, in a file of the given length.
pub open spec fn header_fault(h: Header, file_length: int) -> Option<HeaderFault> {
    if h.version != VERSION_1 {
        Some(HeaderFault::Version)
    } else if h.log_guid != GUID_ZERO && h.log_version != LOG_VERSION {
        Some(HeaderFault::LogVersion)
    } else if h.log_offset % REGION_ALIGNMENT != 0 || h.log_length as u64 % REGION_ALIGNMENT != 0 {
        Some(HeaderFault::Corrupt(CorruptionType::InvalidLogOffsetOrLength))
    } else if h.log_length == 0 {
        if h.log_guid != GUID_ZERO {
            Some(HeaderFault::Corrupt(CorruptionType::MissingLogHasGuid))
        } else {
            None
        }
    } else if h.log_offset < HEADER_AREA_SIZE {
        Some(HeaderFault::Corrupt(CorruptionType::InvalidLogOffset))
    } else if h.log_offset + h.log_length > file_length {
        Some(HeaderFault::Corrupt(CorruptionType::LogBeyondEndOfFile))
    } else {
        None
    }
}

/// The result is the I/O error with this text.
pub open spec fn is_invalid_data<T>(r: Result<T, VhdxError>, text: Seq<char>) -> bool {
    r matches Err(VhdxError::Io(e)) && e.kind == IoErrorKind::InvalidData && e.message@ == text
}

/// What two header buffers of a file of the given length parse to.
pub open spec fn headers_parse_to(
    buf1: Seq<u8>,
    buf2: Seq<u8>,
    file_length: int,
    r: Result<ParsedHeader, VhdxError>,
) -> bool {
    match active_header(valid_header(buf1), valid_header(buf2)) {
        None => r == Err::<ParsedHeader, VhdxError>(
            VhdxError::Corrupt(CorruptionType::NoValidHeaders),
        ),
        Some((h, first)) => match header_fault(h, file_length) {
            None => r == Ok::<ParsedHeader, VhdxError>(parsed_of(h, first)),
            Some(HeaderFault::Version) => is_invalid_data(r, "unsupported VHDX version"@),
            Some(HeaderFault::LogVersion) => is_invalid_data(r, "unsupported VHDX log version"@),
            Some(HeaderFault::Corrupt(c)) => r == Err::<ParsedHeader, VhdxError>(
                VhdxError::Corrupt(c),
            ),
        },
    }
}

/// The header that a buffer holds, if its signature and checksum are right.
pub fn validate_header(buf: &[u8]) -> (r: Option<Header>)
    ensures
        r == valid_header(buf@),
{
    let header = match Header::read_from_prefix(buf) {
        Some(h) => h,
        None => {
            return None;
        },
    };
    if header.signature != HEADER_SIGNATURE {
        return None;
    }
    if !validate_checksum(buf, 4) {
        return None;
    }
    Some(header)
}

/// Parses the two headers of a file: picks the active one and checks its
/// version and its log region.
pub fn parse_headers(buf1: &[u8], buf2: &[u8], file_length: u64) -> (r: Result<
    ParsedHeader,
    VhdxError,
>)
    ensures
        headers_parse_to(buf1@, buf2@, file_length as int, r),
{
    let header1 = validate_header(buf1);
    let header2 = validate_header(buf2);
    let (header, first_header_current) = match (header1, header2) {
        (Some(h1), Some(h2)) => if h1.sequence_number >= h2.sequence_number {
            (h1, true)
        } else {
            (h2, false)
        },
        (Some(h1), None) => (h1, true),
        (None, Some(h2)) => (h2, false),
        (None, None) => {
            return Err(VhdxError::Corrupt(CorruptionType::NoValidHeaders));
        },
    };
    if header.version != VERSION_1 {
        return Err(io_error(IoErrorKind::InvalidData, "unsupported VHDX version"));
    }
    if header.log_guid != GUID_ZERO && header.log_version != LOG_VERSION {
        return Err(io_error(IoErrorKind::InvalidData, "unsupported VHDX log version"));
    }
    if header.log_offset % REGION_ALIGNMENT != 0 || header.log_length as u64 % REGION_ALIGNMENT
        != 0 {
        return Err(VhdxError::Corrupt(CorruptionType::InvalidLogOffsetOrLength));
    }
    let log_offset: u64 = if header.log_length == 0 {
        if header.log_guid != GUID_ZERO {
            return Err(VhdxError::Corrupt(CorruptionType::MissingLogHasGuid));
        }
        0
    } else {
        if header.log_offset < HEADER_AREA_SIZE {
            return Err(VhdxError::Corrupt(CorruptionType::InvalidLogOffset));
        }
        match header.log_offset.checked_add(header.log_length as u64) {
            Some(end) => {
                if end > file_length {
                    return Err(VhdxError::Corrupt(CorruptionType::LogBeyondEndOfFile));
                }
            },
            None => {
                return Err(VhdxError::Corrupt(CorruptionType::LogBeyondEndOfFile));
            },
        }
        header.log_offset
    };
    Ok(
        ParsedHeader {
            sequence_number: header.sequence_number,
            file_write_guid: header.file_write_guid,
            data_write_guid: header.data_write_guid,
            log_guid: header.log_guid,
            log_offset,
            log_length: header.log_length,
            version: header.version,
            first_header_current,
        },
    )
}

/// The buffer is the 4 KiB form of the header `h` with its checksum filled
/// in: the header, and zeros behind it.
pub open spec fn is_header_image(buf: Seq<u8>, h: Header) -> bool {
    &&& buf.len() == HEADER_SIZE
    &&& header_of(buf) == (Header { checksum: le32(buf, 4), ..h })
    &&& forall|i: int| 80 <= i < HEADER_SIZE ==> #[trigger] buf[i] == 0
    &&& checksum_valid(buf, 4)
}

/// The 4 KiB form of a header, with its checksum filled in.
pub fn encode_header(header: &Header) -> (r: Vec<u8>)
    ensures
        is_header_image(r@, *header),
{
    let mut zeroed: Header = *header;
    zeroed.checksum = 0;
    let mut buf = zero_bytes(4096);
    let bytes = zeroed.as_bytes();
    put_bytes(&mut buf, 0, &bytes);
    let ghost plain = buf@;
    let crc: u32 = compute_checksum(&buf, 4);
    let mut part: Vec<u8> = Vec::new();
    push_u32(&mut part, crc);
    put_bytes(&mut buf, 4, &part);
    proof {
        law_stored_checksum_is_valid(plain, 4, part@);
        assert(forall|i: int| 0 <= i < 80 ==> plain[i] == bytes@[i]);
        assert(forall|i: int| 0 <= i < 4096 && !(4 <= i < 8) ==> buf@[i] == plain[i]);
        lemma_header_fields(bytes@, buf@);
    }
    buf
}

/// Buffers that agree but for the checksum hold the same header but for the
/// checksum.
proof fn lemma_header_fields(a: Seq<u8>, b: Seq<u8>)
    requires
        a.len() >= 80,
        b.len() >= 80,
        forall|i: int| 0 <= i < 80 && !(4 <= i < 8) ==> b[i] == a[i],
    ensures
        header_of(b) == (Header { checksum: le32(b, 4), ..header_of(a) }),
{
}

/// The header of a file with the given identity.
pub open spec fn header_for(
    sequence_number: u64,
    file_write_guid: Guid,
    data_write_guid: Guid,
    log_guid: Guid,
    log_offset: u64,
    log_length: u32,
) -> Header {
    Header {
        signature: HEADER_SIGNATURE,
        checksum: 0,
        sequence_number,
        file_write_guid,
        data_write_guid,
        log_guid,
        log_version: LOG_VERSION,
        version: VERSION_1,
        log_length,
        log_offset,
    }
}

/// File offset of the header that is not the active one.
pub open spec fn spare_slot(first_header_current: bool) -> u64 {
    if first_header_current {
        HEADER_OFFSET_2
    } else {
        HEADER_OFFSET_1
    }
}

/// The header with the given identity, to be written over the header that is
/// not the active one.
pub fn header_update(
    sequence_number: u64,
    file_write_guid: Guid,
    data_write_guid: Guid,
    log_guid: Guid,
    log_offset: u64,
    log_length: u32,
    first_header_current: bool,
) -> (r: HeaderWrite)
    ensures
        r.offset == spare_slot(first_header_current),
        is_header_image(
            r.bytes@,
            header_for(
                sequence_number,
                file_write_guid,
                data_write_guid,
                log_guid,
                log_offset,
                log_length,
            ),
        ),
{
    let mut header = Header::new_zeroed();
    header.signature = HEADER_SIGNATURE;
    header.sequence_number = sequence_number;
    header.file_write_guid = file_write_guid;
    header.data_write_guid = data_write_guid;
    header.log_guid = log_guid;
    header.log_version = LOG_VERSION;
    header.version = VERSION_1;
    header.log_length = log_length;
    header.log_offset = log_offset;
    HeaderWrite {
        offset: if first_header_current {
            HEADER_OFFSET_2
        } else {
            HEADER_OFFSET_1
        },
        bytes: encode_header(&header),
    }
}

/// A header image is a valid header, and reads back as the header that was
/// written but for the checksum.
pub proof fn law_written_header_is_valid(buf: Seq<u8>, h: Header)
    requires
        is_header_image(buf, h),
        h.signature == HEADER_SIGNATURE,
    ensures
        valid_header(buf) == Some(Header { checksum: le32(buf, 4), ..h }),
{
}

/// Once an update with the next sequence number is written over the header
/// that is not active, it is the active one; and while it is not valid there,
/// the old one still is.
pub proof fn law_header_update_is_atomic(
    current: Header,
    first_header_current: bool,
    other: Option<Header>,
)
    requires
        other matches Some(h) ==> h.sequence_number == current.sequence_number + 1,
    ensures
        ({
            let active = if first_header_current {
                active_header(Some(current), other)
            } else {
                active_header(other, Some(current))
            };
            match other {
                Some(h) => active == Some((h, !first_header_current)),
                None => active == Some((current, first_header_current)),
            }
        }),
{
}

/// A header is taken for valid exactly if it starts with the letters "head"
/// and its checksum is right, and its fields are where they are on disk.
pub proof fn law_valid_header_fields(buf: Seq<u8>)
    requires
        buf.len() == 4096,
    ensures
        valid_header(buf) is Some <==> buf[0] == 0x68 && buf[1] == 0x65 && buf[2] == 0x61 && buf[3]
            == 0x64 && checksum_valid(buf, 4),
        valid_header(buf) matches Some(h) ==> {
            &&& h.sequence_number == le64(buf, 8)
            &&& h.file_write_guid == guid_at(buf, 16)
            &&& h.data_write_guid == guid_at(buf, 32)
            &&& h.log_guid == guid_at(buf, 48)
            &&& h.log_version == le16(buf, 64)
            &&& h.version == le16(buf, 66)
            &&& h.log_length == le32(buf, 68)
            &&& h.log_offset == le64(buf, 72)
        },
{
    lemma_head(buf);
}

proof fn lemma_head(buf: Seq<u8>)
    ensures
        le32(buf, 0) == HEADER_SIGNATURE <==> buf[0] == 0x68 && buf[1] == 0x65 && buf[2] == 0x61
            && buf[3] == 0x64,
{
}

/// The active header is a valid one, and no valid one is later. Of two that
/// are as late as each other it is the first.
pub proof fn law_active_header_is_the_latest(header1: Option<Header>, header2: Option<Header>)
    ensures
        active_header(header1, header2) is None <==> header1 is None && header2 is None,
        active_header(header1, header2) matches Some((h, first)) ==> {
            &&& (if first {
                header1
            } else {
                header2
            }) == Some(h)
            &&& header1 matches Some(h1) ==> h1.sequence_number <= h.sequence_number
            &&& header2 matches Some(h2) ==> h2.sequence_number <= h.sequence_number
            &&& !first ==> (header1 matches Some(h1) ==> h1.sequence_number < h.sequence_number)
        },
{
}

/// A header that has no fault is of the first version, and its log, if it has
/// one, is of the only version there is, in whole megabytes behind the first
/// of the file and within the file. A header without a log says so. Every such
/// header has no fault.
pub proof fn law_header_without_fault(h: Header, file_length: int)
    ensures
        header_fault(h, file_length) is None <==> {
            &&& h.version == 1
            &&& h.log_guid == 0 || h.log_version == 0
            &&& h.log_offset % 0x10_0000 == 0
            &&& h.log_length % 0x10_0000 == 0
            &&& h.log_length == 0 ==> h.log_guid == 0
            &&& h.log_length != 0 ==> 0x10_0000 <= h.log_offset && h.log_offset + h.log_length
                <= file_length
        },
{
}

/// What a fault says is so.
pub proof fn law_header_fault_names_the_fault(h: Header, file_length: int)
    ensures
        match header_fault(h, file_length) {
            None => true,
            Some(HeaderFault::Version) => h.version != 1,
            Some(HeaderFault::LogVersion) => h.version == 1 && h.log_guid != 0 && h.log_version
                != 0,
            Some(HeaderFault::Corrupt(CorruptionType::InvalidLogOffsetOrLength)) => h.log_offset
                % 0x10_0000 != 0 || h.log_length % 0x10_0000 != 0,
            Some(HeaderFault::Corrupt(CorruptionType::MissingLogHasGuid)) => h.log_length == 0
                && h.log_guid != 0,
            Some(HeaderFault::Corrupt(CorruptionType::InvalidLogOffset)) => h.log_length != 0
                && h.log_offset < 0x10_0000,
            Some(HeaderFault::Corrupt(CorruptionType::LogBeyondEndOfFile)) => h.log_length != 0
                && h.log_offset + h.log_length > file_length,
            Some(HeaderFault::Corrupt(_)) => false,
        },
{
}

/// What is taken from a header is what it holds; only a log of no length has
/// no place.
pub proof fn law_parsed_header_is_the_header(h: Header, first: bool)
    ensures
        ({
            let p = parsed_of(h, first);
            &&& p.sequence_number == h.sequence_number
            &&& p.file_write_guid == h.file_write_guid
            &&& p.data_write_guid == h.data_write_guid
            &&& p.log_guid == h.log_guid
            &&& p.log_length == h.log_length
            &&& p.log_offset == if h.log_length == 0 { 0 } else { h.log_offset }
            &&& p.version == h.version
            &&& p.first_header_current == first
        }),
{
}

/// A header is written to the slot that does not hold the active one: the
/// slots start 64 KiB and 128 KiB into the file, and do not overlap.
pub proof fn law_header_is_written_to_the_other_slot(first_header_current: bool)
    ensures
        spare_slot(first_header_current) == (if first_header_current {
            0x2_0000u64
        } else {
            0x1_0000u64
        }),
        spare_slot(first_header_current) != spare_slot(!first_header_current),
{
}

/// What a new header says, read back from its image, is what it was made of.
pub proof fn law_new_header_says_what_it_is_made_of(
    buf: Seq<u8>,
    sequence_number: u64,
    file_write_guid: Guid,
    data_write_guid: Guid,
    log_guid: Guid,
    log_offset: u64,
    log_length: u32,
    file_length: int,
)
    requires
        is_header_image(
            buf,
            header_for(
                sequence_number,
                file_write_guid,
                data_write_guid,
                log_guid,
                log_offset,
                log_length,
            ),
        ),
    ensures
        valid_header(buf) matches Some(h) && {
            &&& h.sequence_number == sequence_number
            &&& h.file_write_guid == file_write_guid
            &&& h.data_write_guid == data_write_guid
            &&& h.log_guid == log_guid
            &&& h.log_offset == log_offset
            &&& h.log_length == log_length
            &&& log_offset % 0x10_0000 == 0 && log_length % 0x10_0000 == 0 && 0x10_0000
                <= log_offset && log_length > 0 && log_offset + log_length <= file_length
                ==> header_fault(h, file_length) is None
        },
{
}

} // verus!
