//! Parent locators.

use vm_devices::vhdx::error::{CorruptionType, VhdxError};
use vm_devices::vhdx::format::{
    ParentLocatorEntry, ParentLocatorHeader, PARENT_LOCATOR_VHDX_TYPE_GUID,
};
use vm_devices::vhdx::locator::{build_locator, ParentLocator};
use vm_devices::vhdx::utf16::{decode_utf16le, encode_utf16le, has_embedded_null};

const HEADER_BYTES: usize = 20;
const ENTRY_BYTES: usize = 12;

#[test]
fn parse_valid_locator() {
    let data = build_locator(
        PARENT_LOCATOR_VHDX_TYPE_GUID,
        &[
            ("parent_linkage", "guid-value-here"),
            ("relative_path", "..\\parent.vhdx"),
            ("absolute_win32_path", "C:\\vms\\parent.vhdx"),
        ],
    );

    let locator = ParentLocator::parse(&data).unwrap();
    assert_eq!(locator.locator_type, PARENT_LOCATOR_VHDX_TYPE_GUID);
    assert_eq!(locator.entries.len(), 3);
    assert_eq!(locator.entries[0].key, "parent_linkage");
    assert_eq!(locator.entries[0].value, "guid-value-here");
    assert_eq!(locator.entries[1].key, "relative_path");
    assert_eq!(locator.entries[1].value, "..\\parent.vhdx");
    assert_eq!(locator.entries[2].key, "absolute_win32_path");
    assert_eq!(locator.entries[2].value, "C:\\vms\\parent.vhdx");
}

#[test]
fn find_by_key() {
    let data = build_locator(
        PARENT_LOCATOR_VHDX_TYPE_GUID,
        &[
            ("parent_linkage", "link-val"),
            ("relative_path", "rel-val"),
        ],
    );

    let locator = ParentLocator::parse(&data).unwrap();
    assert_eq!(locator.find("parent_linkage"), Some("link-val"));
    assert_eq!(locator.find("relative_path"), Some("rel-val"));
    assert_eq!(locator.find("nonexistent"), None);
}

#[test]
fn parse_empty_locator() {
    // Build a header with 0 entries.
    let header = ParentLocatorHeader {
        locator_type: PARENT_LOCATOR_VHDX_TYPE_GUID,
        reserved: 0,
        key_value_count: 0,
    };
    let data = header.as_bytes();
    let result = ParentLocator::parse(&data);
    assert!(matches!(
        result,
        Err(VhdxError::Corrupt(CorruptionType::InvalidLocatorKeyValueCount))
    ));
}

fn one_entry(key_data: &[u8], value_data: &[u8]) -> Vec<u8> {
    let string_start = HEADER_BYTES + ENTRY_BYTES;
    let mut buf = ParentLocatorHeader {
        locator_type: PARENT_LOCATOR_VHDX_TYPE_GUID,
        reserved: 0,
        key_value_count: 1,
    }
    .as_bytes();
    buf.extend_from_slice(
        &ParentLocatorEntry {
            key_offset: string_start as u32,
            value_offset: (string_start + key_data.len()) as u32,
            key_length: key_data.len() as u16,
            value_length: value_data.len() as u16,
        }
        .as_bytes(),
    );
    buf.extend_from_slice(key_data);
    buf.extend_from_slice(value_data);
    buf
}

#[test]
fn parse_invalid_utf16() {
    // Build a locator where key has odd byte length.
    let buf = one_entry(&[0; 3], &[0; 2]);
    let result = ParentLocator::parse(&buf);
    assert!(matches!(
        result,
        Err(VhdxError::Corrupt(CorruptionType::InvalidLocatorEntryKey))
    ));
}

#[test]
fn parse_embedded_null() {
    // Key: "a\0b" in UTF-16LE = [0x61, 0x00, 0x00, 0x00, 0x62, 0x00] (6 bytes)
    let key_data: Vec<u8> = vec![0x61, 0x00, 0x00, 0x00, 0x62, 0x00];
    let value_data = encode_utf16le("val");
    let buf = one_entry(&key_data, &value_data);
    let result = ParentLocator::parse(&buf);
    assert!(matches!(
        result,
        Err(VhdxError::Corrupt(CorruptionType::InvalidLocatorEntryKey))
    ));
}

#[test]
fn parse_truncated_locator() {
    // Header claims 5 entries but buffer only holds header.
    let header = ParentLocatorHeader {
        locator_type: PARENT_LOCATOR_VHDX_TYPE_GUID,
        reserved: 0,
        key_value_count: 5,
    };
    let data = header.as_bytes();

    let result = ParentLocator::parse(&data);
    assert!(matches!(
        result,
        Err(VhdxError::Corrupt(CorruptionType::LocatorTooSmallForEntries))
    ));
}

fn fault(data: &[u8]) -> CorruptionType {
    match ParentLocator::parse(data) {
        Err(VhdxError::Corrupt(fault)) => fault,
        other => panic!("expected a refusal, got {other:?}"),
    }
}

#[test]
fn each_locator_fault_has_its_reason() {
    assert_eq!(fault(&[0; 19]), CorruptionType::LocatorTooSmallForHeader);
    assert_eq!(
        fault(&one_entry(&[], &encode_utf16le("v"))),
        CorruptionType::EmptyLocatorEntryKey
    );
    assert_eq!(
        fault(&one_entry(&encode_utf16le("k"), &[])),
        CorruptionType::EmptyLocatorEntryValue
    );
    // A bad key counts before an empty value.
    assert_eq!(
        fault(&one_entry(&[1, 2, 3], &[])),
        CorruptionType::InvalidLocatorEntryKey
    );
    // A lone surrogate is no text.
    assert_eq!(
        fault(&one_entry(&[0x00, 0xd8], &encode_utf16le("v"))),
        CorruptionType::InvalidLocatorEntryKey
    );
    // A value that ends beyond the item.
    let mut short = one_entry(&encode_utf16le("k"), &encode_utf16le("value"));
    short.pop();
    short.pop();
    assert_eq!(fault(&short), CorruptionType::InvalidLocatorEntryKey);
    // An odd offset.
    let mut odd = one_entry(&encode_utf16le("k"), &encode_utf16le("value"));
    odd[HEADER_BYTES] += 1;
    assert_eq!(fault(&odd), CorruptionType::InvalidLocatorEntryKey);
    // Too many entries.
    let many = ParentLocatorHeader {
        locator_type: 0,
        reserved: 0,
        key_value_count: 257,
    }
    .as_bytes();
    assert_eq!(fault(&many), CorruptionType::InvalidLocatorKeyValueCount);
}

#[test]
fn utf16_text_round_trips() {
    for text in ["", "a", "parent_linkage", "\u{e9}\u{4e2d}", "\u{1f600}x"] {
        let bytes = encode_utf16le(text);
        assert_eq!(decode_utf16le(&bytes).unwrap(), text);
    }
    // Outside the basic plane a character takes a surrogate pair.
    assert_eq!(encode_utf16le("\u{1f600}"), [0x3d, 0xd8, 0x00, 0xde]);
    assert_eq!(encode_utf16le("ab"), [0x61, 0, 0x62, 0]);
    assert!(decode_utf16le(&[0x61]).is_err());
    assert!(decode_utf16le(&[0x00, 0xdc]).is_err());
    assert!(!has_embedded_null(&[0, 1, 1, 0]));
    assert!(has_embedded_null(&[1, 0, 0, 0]));
}

#[test]
fn built_locator_parses_back() {
    let pairs = [("k1", "v1"), ("\u{1f600}", "C:\\x"), ("k1", "shadowed")];
    let data = build_locator(7, &pairs);
    let locator = ParentLocator::parse(&data).unwrap();
    assert_eq!(locator.locator_type, 7);
    for (entry, (key, value)) in locator.entries.iter().zip(pairs) {
        assert_eq!(entry.key, key);
        assert_eq!(entry.value, value);
    }
    assert_eq!(locator.find("k1"), Some("v1"));
}
