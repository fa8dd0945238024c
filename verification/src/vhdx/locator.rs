//! The parent locator: a table of key-value pairs that says where the parent
//! of a differencing disk is.

use vstd::prelude::*;

use crate::bytes::{le16, le32, push_u16, push_u32};
use crate::text::text_eq;
use super::error::{CorruptionType, VhdxError};
use super::format::{
    locator_entry_at, locator_header_of, ParentLocatorEntry, ParentLocatorHeader,
    PARENT_LOCATOR_MAXIMUM_KEY_VALUE_COUNT,
};
use super::guid::{push_guid, Guid};
use super::open::VhdxFile;
use super::utf16::{
    decode_utf16le, embedded_null, encode_utf16le, has_embedded_null, law_utf16_round_trip,
    lemma_utf16_has_no_null, units_of, utf16_decode, utf16_encode,
};

verus! {

/// A key-value pair.
#[derive(Debug)]
pub struct LocatorKeyValue {
    /// The key.
    pub key: String,
    /// The value.
    pub value: String,
}

/// A parsed parent locator.
#[derive(Debug)]
pub struct ParentLocator {
    /// GUID of the locator type.
    pub locator_type: Guid,
    /// The key-value pairs.
    pub entries: Vec<LocatorKeyValue>,
}

impl LocatorKeyValue {
    /// The two texts.
    pub open spec fn view(&self) -> (Seq<char>, Seq<char>) {
        (self.key@, self.value@)
    }
}

impl ParentLocator {
    /// The texts of the pairs.
    pub open spec fn pairs(&self) -> Seq<(Seq<char>, Seq<char>)> {
        self.entries@.map_values(|e: LocatorKeyValue| e@)
    }
}

/// Why the string at `offset` is refused. An empty one has a reason of its
/// own.
pub open spec fn string_fault(
    data: Seq<u8>,
    offset: int,
    length: int,
    empty: CorruptionType,
) -> Option<CorruptionType> {
    if length == 0 {
        Some(empty)
    } else if length % 2 != 0 || offset % 2 != 0 || offset + length > data.len() || embedded_null(
        data.subrange(offset, offset + length),
    ) {
        Some(CorruptionType::InvalidLocatorEntryKey)
    } else {
        None
    }
}

/// The text of the string at `offset`.
pub open spec fn string_text(data: Seq<u8>, offset: int, length: int) -> Option<Seq<char>> {
    utf16_decode(units_of(data.subrange(offset, offset + length)))
}

/// The pair that an entry stands for, or why it is refused: its key is
/// checked first, then its value, then the text of both.
pub open spec fn entry_pair(data: Seq<u8>, e: ParentLocatorEntry) -> Result<
    (Seq<char>, Seq<char>),
    CorruptionType,
> {
    match string_fault(
        data,
        e.key_offset as int,
        e.key_length as int,
        CorruptionType::EmptyLocatorEntryKey,
    ) {
        Some(fault) => Err(fault),
        None => match string_fault(
            data,
            e.value_offset as int,
            e.value_length as int,
            CorruptionType::EmptyLocatorEntryValue,
        ) {
            Some(fault) => Err(fault),
            None => match (
                string_text(data, e.key_offset as int, e.key_length as int),
                string_text(data, e.value_offset as int, e.value_length as int),
            ) {
                (Some(key), Some(value)) => Ok((key, value)),
                _ => Err(CorruptionType::InvalidLocatorEntryKey),
            },
        },
    }
}

/// The pairs of the first `n` entries, or why the first bad one is refused.
pub open spec fn entry_pairs(data: Seq<u8>, n: int) -> Result<
    Seq<(Seq<char>, Seq<char>)>,
    CorruptionType,
>
    decreases n,
{
    if n <= 0 {
        Ok(Seq::empty())
    } else {
        match entry_pairs(data, n - 1) {
            Err(fault) => Err(fault),
            Ok(pairs) => match entry_pair(data, locator_entry_at(data, 20 + 12 * (n - 1))) {
                Err(fault) => Err(fault),
                Ok(pair) => Ok(pairs.push(pair)),
            },
        }
    }
}

/// The pairs that a locator item holds, or why it is refused.
pub open spec fn locator_pairs(data: Seq<u8>) -> Result<
    Seq<(Seq<char>, Seq<char>)>,
    CorruptionType,
> {
    let count = locator_header_of(data).key_value_count;
    if data.len() < 20 {
        Err(CorruptionType::LocatorTooSmallForHeader)
    } else if count == 0 || count > PARENT_LOCATOR_MAXIMUM_KEY_VALUE_COUNT {
        Err(CorruptionType::InvalidLocatorKeyValueCount)
    } else if data.len() < 20 + 12 * count {
        Err(CorruptionType::LocatorTooSmallForEntries)
    } else {
        entry_pairs(data, count as int)
    }
}

proof fn lemma_entry_pairs_fault(data: Seq<u8>, n: int, m: int)
    requires
        0 <= n <= m,
        entry_pairs(data, n) is Err,
    ensures
        entry_pairs(data, m) == entry_pairs(data, n),
    decreases m,
{
    if n < m {
        lemma_entry_pairs_fault(data, n, m - 1);
    }
}

fn check_string<'a>(data: &'a [u8], offset: u32, length: u16, empty: CorruptionType) -> (r: Result<
    &'a [u8],
    CorruptionType,
>)
    ensures
        match string_fault(data@, offset as int, length as int, empty) {
            Some(fault) => r == Err::<&[u8], CorruptionType>(fault),
            None => r matches Ok(part) && offset + length <= data@.len() && part@
                == data@.subrange(offset as int, offset + length),
        },
{
    if length == 0 {
        return Err(empty);
    }
    if length % 2 != 0 || offset % 2 != 0 {
        return Err(CorruptionType::InvalidLocatorEntryKey);
    }
    if offset as u64 + length as u64 > data.len() as u64 {
        return Err(CorruptionType::InvalidLocatorEntryKey);
    }
    let part = &data[offset as usize..offset as usize + length as usize];
    if has_embedded_null(part) {
        return Err(CorruptionType::InvalidLocatorEntryKey);
    }
    Ok(part)
}

fn parse_entry(data: &[u8], entry: ParentLocatorEntry) -> (r: Result<LocatorKeyValue, VhdxError>)
    ensures
        match entry_pair(data@, entry) {
            Ok(pair) => r matches Ok(kv) && kv@ == pair,
            Err(fault) => r == Err::<LocatorKeyValue, VhdxError>(VhdxError::Corrupt(fault)),
        },
{
    let key_data = match check_string(
        data,
        entry.key_offset,
        entry.key_length,
        CorruptionType::EmptyLocatorEntryKey,
    ) {
        Ok(part) => part,
        Err(fault) => {
            return Err(VhdxError::Corrupt(fault));
        },
    };
    let value_data = match check_string(
        data,
        entry.value_offset,
        entry.value_length,
        CorruptionType::EmptyLocatorEntryValue,
    ) {
        Ok(part) => part,
        Err(fault) => {
            return Err(VhdxError::Corrupt(fault));
        },
    };
    let key = match decode_utf16le(key_data) {
        Ok(key) => key,
        Err(e) => {
            return Err(e);
        },
    };
    let value = match decode_utf16le(value_data) {
        Ok(value) => value,
        Err(e) => {
            return Err(e);
        },
    };
    Ok(LocatorKeyValue { key, value })
}

impl ParentLocator {
    /// Parses a locator item.
    pub fn parse(data: &[u8]) -> (r: Result<ParentLocator, VhdxError>)
        ensures
            match locator_pairs(data@) {
                Ok(pairs) => r matches Ok(locator) && {
                    &&& locator.locator_type == locator_header_of(data@).locator_type
                    &&& locator.pairs() == pairs
                },
                Err(fault) => r == Err::<ParentLocator, VhdxError>(VhdxError::Corrupt(fault)),
            },
    {
        let header = match ParentLocatorHeader::read_from_prefix(data) {
            Some(header) => header,
            None => {
                return Err(VhdxError::Corrupt(CorruptionType::LocatorTooSmallForHeader));
            },
        };
        let count: u16 = header.key_value_count;
        if count == 0 || count > PARENT_LOCATOR_MAXIMUM_KEY_VALUE_COUNT {
            return Err(VhdxError::Corrupt(CorruptionType::InvalidLocatorKeyValueCount));
        }
        let entries_end: usize = 20 + count as usize * 12;
        if data.len() < entries_end {
            return Err(VhdxError::Corrupt(CorruptionType::LocatorTooSmallForEntries));
        }
        let mut entries: Vec<LocatorKeyValue> = Vec::new();
        let mut i: usize = 0;
        assert(entries@.map_values(|e: LocatorKeyValue| e@) =~= Seq::empty());
        while i < count as usize
            invariant
                i <= count,
                0 < count <= PARENT_LOCATOR_MAXIMUM_KEY_VALUE_COUNT,
                20 + 12 * count <= data.len(),
                header == locator_header_of(data@),
                count == header.key_value_count,
                entry_pairs(data@, i as int) == Ok::<Seq<(Seq<char>, Seq<char>)>, CorruptionType>(
                    entries@.map_values(|e: LocatorKeyValue| e@),
                ),
            decreases count - i,
        {
            let entry = ParentLocatorEntry::read_at(data, 20 + i * 12);
            match parse_entry(data, entry) {
                Err(e) => {
                    proof {
                        lemma_entry_pairs_fault(data@, i + 1, count as int);
                    }
                    return Err(e);
                },
                Ok(kv) => {
                    let ghost before = entries@;
                    entries.push(kv);
                    assert(entries@.map_values(|e: LocatorKeyValue| e@) =~= before.map_values(
                        |e: LocatorKeyValue| e@,
                    ).push(kv@));
                },
            }
            i += 1;
        }
        Ok(ParentLocator { locator_type: header.locator_type, entries })
    }

    /// The value of the first pair with the given key.
    pub fn find(&self, key: &str) -> (r: Option<&str>)
        ensures
            match r {
                Some(value) => exists|i: int|
                    0 <= i < self.pairs().len() && #[trigger] self.pairs()[i] == (key@, value@) && (
                    forall|k: int| 0 <= k < i ==> (#[trigger] self.pairs()[k]).0 != key@),
                None => forall|k: int|
                    0 <= k < self.pairs().len() ==> (#[trigger] self.pairs()[k]).0 != key@,
            },
    {
        let mut i: usize = 0;
        while i < self.entries.len()
            invariant
                i <= self.entries@.len(),
                forall|k: int| 0 <= k < i ==> (#[trigger] self.pairs()[k]).0 != key@,
            decreases self.entries@.len() - i,
        {
            if text_eq(self.entries[i].key.as_str(), key) {
                let value = self.entries[i].value.as_str();
                assert(self.pairs()[i as int] == (key@, value@));
                return Some(value);
            }
            i += 1;
        }
        None
    }
}

impl VhdxFile {
    /// The parent locator of a disk, from its metadata item. A disk without a
    /// parent has none, whatever the item holds.
    pub fn parent_locator(&self, item: &[u8]) -> (r: Result<Option<ParentLocator>, VhdxError>)
        ensures
            if !self.has_parent {
                r == Ok::<Option<ParentLocator>, VhdxError>(None)
            } else {
                match locator_pairs(item@) {
                    Ok(pairs) => r matches Ok(Some(locator)) && {
                        &&& locator.locator_type == locator_header_of(item@).locator_type
                        &&& locator.pairs() == pairs
                    },
                    Err(fault) => r == Err::<Option<ParentLocator>, VhdxError>(
                        VhdxError::Corrupt(fault),
                    ),
                }
            },
    {
        if !self.has_parent {
            return Ok(None);
        }
        match ParentLocator::parse(item) {
            Ok(locator) => Ok(Some(locator)),
            Err(e) => Err(e),
        }
    }
}

/// Length in bytes of a text in UTF-16.
pub open spec fn text_len(text: Seq<char>) -> int {
    2 * (utf16_encode(text).len() as int)
}

/// Length in bytes of the strings of the first `n` pairs.
pub open spec fn strings_len(pairs: Seq<(Seq<char>, Seq<char>)>, n: int) -> int
    decreases n,
{
    if n <= 0 {
        0
    } else {
        strings_len(pairs, n - 1) + text_len(pairs[n - 1].0) + text_len(pairs[n - 1].1)
    }
}

/// Byte offset of the strings of pair `i`.
pub open spec fn strings_at(pairs: Seq<(Seq<char>, Seq<char>)>, i: int) -> int {
    20 + 12 * pairs.len() + strings_len(pairs, i)
}

/// The buffer holds the text at `offset`.
pub open spec fn holds_text(buf: Seq<u8>, offset: int, text: Seq<char>) -> bool {
    &&& offset + text_len(text) <= buf.len()
    &&& units_of(buf.subrange(offset, offset + text_len(text))) == utf16_encode(text)
}

/// The buffer is a locator item with the given pairs: a header, an entry per
/// pair, and then the strings, key before value.
pub open spec fn is_locator_image(
    buf: Seq<u8>,
    locator_type: Guid,
    pairs: Seq<(Seq<char>, Seq<char>)>,
) -> bool {
    &&& buf.len() == strings_at(pairs, pairs.len() as int)
    &&& locator_header_of(buf) == (ParentLocatorHeader {
        locator_type,
        reserved: 0,
        key_value_count: pairs.len() as u16,
    })
    &&& forall|i: int|
        0 <= i < pairs.len() ==> #[trigger] locator_entry_at(buf, 20 + 12 * i) == entry_for(
            pairs,
            i,
        )
    &&& forall|i: int|
        0 <= i < pairs.len() ==> {
            &&& holds_text(buf, strings_at(pairs, i), (#[trigger] pairs[i]).0)
            &&& holds_text(buf, strings_at(pairs, i) + text_len(pairs[i].0), pairs[i].1)
        }
}

/// The entry of pair `i`.
pub open spec fn entry_for(pairs: Seq<(Seq<char>, Seq<char>)>, i: int) -> ParentLocatorEntry {
    ParentLocatorEntry {
        key_offset: strings_at(pairs, i) as u32,
        value_offset: (strings_at(pairs, i) + text_len(pairs[i].0)) as u32,
        key_length: text_len(pairs[i].0) as u16,
        value_length: text_len(pairs[i].1) as u16,
    }
}

/// The pairs fit a locator item: the counts and lengths fit its fields.
pub open spec fn pairs_fit(pairs: Seq<(Seq<char>, Seq<char>)>) -> bool {
    &&& pairs.len() <= 0xffff
    &&& strings_at(pairs, pairs.len() as int) <= u32::MAX
    &&& forall|i: int|
        0 <= i < pairs.len() ==> text_len((#[trigger] pairs[i]).0) <= 0xffff && text_len(pairs[i].1)
            <= 0xffff
}

/// Whether a locator item with these pairs is accepted: there is a pair and
/// not too many, and no string is empty or holds a null.
pub open spec fn pairs_acceptable(pairs: Seq<(Seq<char>, Seq<char>)>) -> bool {
    &&& 0 < pairs.len() <= PARENT_LOCATOR_MAXIMUM_KEY_VALUE_COUNT
    &&& forall|i: int|
        0 <= i < pairs.len() ==> {
            &&& text_acceptable((#[trigger] pairs[i]).0)
            &&& text_acceptable(pairs[i].1)
        }
}

pub open spec fn text_acceptable(text: Seq<char>) -> bool {
    text.len() > 0 && forall|k: int| 0 <= k < text.len() ==> #[trigger] text[k] != '\0'
}

proof fn lemma_strings_len_monotonic(pairs: Seq<(Seq<char>, Seq<char>)>, i: int, j: int)
    requires
        0 <= i <= j <= pairs.len(),
    ensures
        0 <= strings_len(pairs, i) <= strings_len(pairs, j),
        strings_len(pairs, j) % 2 == 0,
    decreases j,
{
    if i < j {
        lemma_strings_len_monotonic(pairs, i, j - 1);
    } else if j > 0 {
        lemma_strings_len_monotonic(pairs, i - 1, j - 1);
    }
}

proof fn lemma_held_string(buf: Seq<u8>, offset: int, text: Seq<char>, empty: CorruptionType)
    requires
        0 <= offset,
        offset % 2 == 0,
        holds_text(buf, offset, text),
        text_acceptable(text),
    ensures
        string_fault(buf, offset, text_len(text), empty) is None,
        string_text(buf, offset, text_len(text)) == Some(text),
{
    let part = buf.subrange(offset, offset + text_len(text));
    let units = units_of(part);
    lemma_utf16_has_no_null(text);
    law_utf16_round_trip(text);
    assert(!embedded_null(part)) by {
        if embedded_null(part) {
            let i = choose|i: int| 0 <= i < part.len() / 2 && #[trigger] le16(part, 2 * i) == 0;
            assert(units[i] == le16(part, 2 * i));
            assert(utf16_encode(text)[i] != 0);
        }
    }
}

proof fn lemma_entry_pair(buf: Seq<u8>, pairs: Seq<(Seq<char>, Seq<char>)>, i: int)
    requires
        pairs_fit(pairs),
        0 <= i < pairs.len(),
        text_acceptable(pairs[i].0),
        text_acceptable(pairs[i].1),
        holds_text(buf, strings_at(pairs, i), pairs[i].0),
        holds_text(buf, strings_at(pairs, i) + text_len(pairs[i].0), pairs[i].1),
    ensures
        entry_pair(buf, entry_for(pairs, i)) == Ok::<(Seq<char>, Seq<char>), CorruptionType>(
            pairs[i],
        ),
{
    let (key, value) = pairs[i];
    lemma_strings_len_monotonic(pairs, 0, i);
    lemma_strings_len_monotonic(pairs, i + 1, pairs.len() as int);
    assert(strings_len(pairs, i + 1) == strings_len(pairs, i) + text_len(key) + text_len(value));
    lemma_held_string(buf, strings_at(pairs, i), key, CorruptionType::EmptyLocatorEntryKey);
    lemma_held_string(
        buf,
        strings_at(pairs, i) + text_len(key),
        value,
        CorruptionType::EmptyLocatorEntryValue,
    );
}

proof fn lemma_image_entries(buf: Seq<u8>, pairs: Seq<(Seq<char>, Seq<char>)>, n: int)
    requires
        forall|i: int|
            0 <= i < pairs.len() ==> #[trigger] locator_entry_at(buf, 20 + 12 * i) == entry_for(
                pairs,
                i,
            ),
        forall|i: int|
            0 <= i < pairs.len() ==> entry_pair(buf, #[trigger] entry_for(pairs, i)) == Ok::<
                (Seq<char>, Seq<char>),
                CorruptionType,
            >(pairs[i]),
        0 <= n <= pairs.len(),
    ensures
        entry_pairs(buf, n) == Ok::<Seq<(Seq<char>, Seq<char>)>, CorruptionType>(
            pairs.subrange(0, n),
        ),
    decreases n,
{
    if n == 0 {
        assert(pairs.subrange(0, 0) =~= Seq::empty());
    } else {
        lemma_image_entries(buf, pairs, n - 1);
        assert(locator_entry_at(buf, 20 + 12 * (n - 1)) == entry_for(pairs, n - 1));
        assert(pairs.subrange(0, n) =~= pairs.subrange(0, n - 1).push(pairs[n - 1]));
    }
}

/// Parsing a locator item that was built gives back the pairs that it was
/// built from.
pub proof fn law_parse_undoes_build(
    buf: Seq<u8>,
    locator_type: Guid,
    pairs: Seq<(Seq<char>, Seq<char>)>,
)
    requires
        is_locator_image(buf, locator_type, pairs),
        pairs_fit(pairs),
        pairs_acceptable(pairs),
    ensures
        locator_pairs(buf) == Ok::<Seq<(Seq<char>, Seq<char>)>, CorruptionType>(pairs),
        locator_header_of(buf).locator_type == locator_type,
{
    assert forall|i: int| 0 <= i < pairs.len() implies entry_pair(
        buf,
        #[trigger] entry_for(pairs, i),
    ) == Ok::<(Seq<char>, Seq<char>), CorruptionType>(pairs[i]) by {
        assert(text_acceptable(pairs[i].0));
        lemma_entry_pair(buf, pairs, i);
    }
    lemma_image_entries(buf, pairs, pairs.len() as int);
    lemma_strings_len_monotonic(pairs, 0, pairs.len() as int);
    assert(pairs.subrange(0, pairs.len() as int) =~= pairs);
}

/// The texts of key-value pairs.
pub open spec fn texts_of(kvs: Seq<(&str, &str)>) -> Seq<(Seq<char>, Seq<char>)> {
    kvs.map_values(|kv: (&str, &str)| (kv.0@, kv.1@))
}

/// Appends bytes.
fn push_bytes(buf: &mut Vec<u8>, part: &Vec<u8>)
    ensures
        final(buf)@ == old(buf)@ + part@,
{
    let mut i: usize = 0;
    let ghost before = buf@;
    while i < part.len()
        invariant
            i <= part@.len(),
            buf@ == before + part@.subrange(0, i as int),
        decreases part@.len() - i,
    {
        buf.push(part[i]);
        i += 1;
    }
    assert(part@.subrange(0, i as int) =~= part@);
}

proof fn lemma_prefix_kept(a: Seq<u8>, b: Seq<u8>, offset: int, text: Seq<char>)
    requires
        0 <= offset,
        a.len() <= b.len(),
        b.subrange(0, a.len() as int) == a,
        holds_text(a, offset, text),
    ensures
        holds_text(b, offset, text),
{
    let end = offset + text_len(text);
    assert(b.subrange(offset, end) =~= a.subrange(offset, end)) by {
        assert forall|i: int| offset <= i < end implies a[i] == b[i] by {
            assert(b.subrange(0, a.len() as int)[i] == b[i]);
        }
    }
}

/// The strings of pair `i` are appended.
proof fn lemma_pair_appended(
    before: Seq<u8>,
    key_bytes: Seq<u8>,
    value_bytes: Seq<u8>,
    pairs: Seq<(Seq<char>, Seq<char>)>,
    i: int,
)
    requires
        0 <= i < pairs.len(),
        before.len() == strings_at(pairs, i),
        key_bytes.len() == text_len(pairs[i].0),
        units_of(key_bytes) == utf16_encode(pairs[i].0),
        value_bytes.len() == text_len(pairs[i].1),
        units_of(value_bytes) == utf16_encode(pairs[i].1),
        forall|k: int|
            0 <= k < i ==> {
                &&& holds_text(before, strings_at(pairs, k), (#[trigger] pairs[k]).0)
                &&& holds_text(before, strings_at(pairs, k) + text_len(pairs[k].0), pairs[k].1)
            },
    ensures
        ({
            let after = before + key_bytes + value_bytes;
            &&& after.len() == strings_at(pairs, i + 1)
            &&& forall|k: int|
                0 <= k < i + 1 ==> {
                    &&& holds_text(after, strings_at(pairs, k), (#[trigger] pairs[k]).0)
                    &&& holds_text(after, strings_at(pairs, k) + text_len(pairs[k].0), pairs[k].1)
                }
        }),
{
    let middle = before + key_bytes;
    let after = middle + value_bytes;
    let (key, value) = pairs[i];
    let at = strings_at(pairs, i);
    lemma_strings_len_monotonic(pairs, 0, i);
    assert(middle.subrange(at, at + text_len(key)) =~= key_bytes);
    assert(after.subrange(at + text_len(key), at + text_len(key) + text_len(value))
        =~= value_bytes);
    assert(after.subrange(0, middle.len() as int) =~= middle);
    lemma_prefix_kept(middle, after, at, key);
    assert forall|k: int| 0 <= k < i + 1 implies {
        &&& holds_text(after, strings_at(pairs, k), (#[trigger] pairs[k]).0)
        &&& holds_text(after, strings_at(pairs, k) + text_len(pairs[k].0), pairs[k].1)
    } by {
        if k < i {
            lemma_strings_len_monotonic(pairs, 0, k);
            assert(after.subrange(0, before.len() as int) =~= before);
            lemma_prefix_kept(before, after, strings_at(pairs, k), pairs[k].0);
            lemma_prefix_kept(
                before,
                after,
                strings_at(pairs, k) + text_len(pairs[k].0),
                pairs[k].1,
            );
        }
    }
}

/// Builds a locator item from key-value pairs.
#[verifier::spinoff_prover]
pub fn build_locator(locator_type: Guid, kvs: &[(&str, &str)]) -> (r: Vec<u8>)
    requires
        pairs_fit(texts_of(kvs@)),
    ensures
        is_locator_image(r@, locator_type, texts_of(kvs@)),
{
    let ghost pairs = texts_of(kvs@);
    let count: usize = kvs.len();
    let mut encoded: Vec<(Vec<u8>, Vec<u8>)> = Vec::new();
    let mut i: usize = 0;
    while i < count
        invariant
            i <= count == kvs@.len() == pairs.len(),
            pairs == texts_of(kvs@),
            encoded@.len() == i,
            forall|k: int|
                0 <= k < i ==> {
                    &&& units_of((#[trigger] encoded@[k]).0@) == utf16_encode(pairs[k].0)
                    &&& encoded@[k].0@.len() == text_len(pairs[k].0)
                    &&& units_of(encoded@[k].1@) == utf16_encode(pairs[k].1)
                    &&& encoded@[k].1@.len() == text_len(pairs[k].1)
                },
        decreases count - i,
    {
        let (key, value) = kvs[i];
        encoded.push((encode_utf16le(key), encode_utf16le(value)));
        i += 1;
    }
    let mut buf: Vec<u8> = Vec::new();
    push_guid(&mut buf, locator_type);
    push_u16(&mut buf, 0);
    push_u16(&mut buf, count as u16);
    let mut string_offset: u32 = 20 + 12 * count as u32;
    let mut i: usize = 0;
    while i < count
        invariant
            i <= count == kvs@.len() == pairs.len(),
            pairs_fit(pairs),
            encoded@.len() == count,
            forall|k: int|
                0 <= k < count ==> {
                    &&& (#[trigger] encoded@[k]).0@.len() == text_len(pairs[k].0)
                    &&& encoded@[k].1@.len() == text_len(pairs[k].1)
                },
            string_offset == strings_at(pairs, i as int),
            buf@.len() == 20 + 12 * i,
            locator_header_of(buf@) == (ParentLocatorHeader {
                locator_type,
                reserved: 0,
                key_value_count: count as u16,
            }),
            forall|k: int|
                0 <= k < i ==> #[trigger] locator_entry_at(buf@, 20 + 12 * k) == entry_for(
                    pairs,
                    k,
                ),
        decreases count - i,
    {
        proof {
            lemma_strings_len_monotonic(pairs, i + 1, pairs.len() as int);
            assert(text_len(pairs[i as int].0) <= 0xffff);
        }
        let key_length: u32 = encoded[i].0.len() as u32;
        let value_length: u32 = encoded[i].1.len() as u32;
        let ghost before = buf@;
        push_u32(&mut buf, string_offset);
        push_u32(&mut buf, string_offset + key_length);
        push_u16(&mut buf, key_length as u16);
        push_u16(&mut buf, value_length as u16);
        proof {
            assert(forall|j: int| 0 <= j < before.len() ==> buf@[j] == before[j]);
            assert forall|k: int| 0 <= k < i + 1 implies #[trigger] locator_entry_at(
                buf@,
                20 + 12 * k,
            ) == entry_for(pairs, k) by {
                if k < i {
                    assert(locator_entry_at(before, 20 + 12 * k) == entry_for(pairs, k));
                }
            }
        }
        string_offset += key_length + value_length;
        i += 1;
    }
    let ghost table = buf@;
    let mut i: usize = 0;
    while i < count
        invariant
            i <= count == pairs.len(),
            encoded@.len() == count,
            forall|k: int|
                0 <= k < count ==> {
                    &&& units_of((#[trigger] encoded@[k]).0@) == utf16_encode(pairs[k].0)
                    &&& encoded@[k].0@.len() == text_len(pairs[k].0)
                    &&& units_of(encoded@[k].1@) == utf16_encode(pairs[k].1)
                    &&& encoded@[k].1@.len() == text_len(pairs[k].1)
                },
            table.len() == 20 + 12 * count,
            buf@.len() == strings_at(pairs, i as int),
            forall|j: int| 0 <= j < table.len() ==> #[trigger] buf@[j] == table[j],
            table.len() <= buf@.len(),
            forall|k: int|
                0 <= k < i ==> {
                    &&& holds_text(buf@, strings_at(pairs, k), (#[trigger] pairs[k]).0)
                    &&& holds_text(buf@, strings_at(pairs, k) + text_len(pairs[k].0), pairs[k].1)
                },
        decreases count - i,
    {
        let ghost before = buf@;
        push_bytes(&mut buf, &encoded[i].0);
        push_bytes(&mut buf, &encoded[i].1);
        proof {
            lemma_pair_appended(
                before,
                encoded@[i as int].0@,
                encoded@[i as int].1@,
                pairs,
                i as int,
            );
        }
        i += 1;
    }
    proof {
        assert forall|k: int| 0 <= k < pairs.len() implies #[trigger] locator_entry_at(
            buf@,
            20 + 12 * k,
        ) == entry_for(pairs, k) by {
            assert(locator_entry_at(table, 20 + 12 * k) == entry_for(pairs, k));
        }
    }
    buf
}

/// A string that has no fault is there: it is not empty, it is made of whole
/// units at an even offset within the data, and none of them is zero. Every
/// such string has no fault.
pub proof fn law_string_without_fault(
    data: Seq<u8>,
    offset: int,
    length: int,
    empty: CorruptionType,
)
    requires
        offset >= 0,
        length >= 0,
    ensures
        string_fault(data, offset, length, empty) is None <==> {
            &&& length > 0
            &&& length % 2 == 0
            &&& offset % 2 == 0
            &&& offset + length <= data.len()
            &&& forall|i: int|
                0 <= i < length / 2 ==> #[trigger] le16(
                    data.subrange(offset, offset + length),
                    2 * i,
                ) != 0
        },
        string_fault(data, offset, length, empty) is Some ==> string_fault(
            data,
            offset,
            length,
            empty,
        ) == Some(
            if length == 0 {
                empty
            } else {
                CorruptionType::InvalidLocatorEntryKey
            },
        ),
{
}

/// The text of a string is the one whose UTF-16 form the bytes hold.
proof fn lemma_string_text(data: Seq<u8>, offset: int, length: int)
    requires
        string_text(data, offset, length) is Some,
    ensures
        utf16_encode(string_text(data, offset, length)->0) == units_of(
            data.subrange(offset, offset + length),
        ),
{
}

/// An accepted locator says what its bytes hold: it has from one to 256
/// entries, they follow the header of 20 bytes and take 12 each, and the key
/// and the value of each entry are the texts in the places that it names.
pub proof fn law_accepted_locator_holds_its_pairs(data: Seq<u8>, i: int)
    requires
        locator_pairs(data) is Ok,
        0 <= i < locator_header_of(data).key_value_count,
    ensures
        ({
            let count = locator_header_of(data).key_value_count;
            let pairs = locator_pairs(data)->Ok_0;
            let at = 20 + 12 * i;
            let (key, key_len) = (le32(data, at) as int, le16(data, at + 8) as int);
            let (value, value_len) = (le32(data, at + 4) as int, le16(data, at + 10) as int);
            &&& count == le16(data, 18)
            &&& 1 <= count <= 256
            &&& 20 + 12 * count <= data.len()
            &&& pairs.len() == count
            &&& 0 < key_len && key + key_len <= data.len()
            &&& 0 < value_len && value + value_len <= data.len()
            &&& utf16_encode(pairs[i].0) == units_of(data.subrange(key, key + key_len))
            &&& utf16_encode(pairs[i].1) == units_of(data.subrange(value, value + value_len))
        }),
{
    let count = locator_header_of(data).key_value_count as int;
    lemma_pairs_of_entries(data, count, i);
    let e = locator_entry_at(data, 20 + 12 * i);
    lemma_string_text(data, e.key_offset as int, e.key_length as int);
    lemma_string_text(data, e.value_offset as int, e.value_length as int);
}

proof fn lemma_pairs_of_entries(data: Seq<u8>, n: int, i: int)
    requires
        entry_pairs(data, n) is Ok,
        0 <= i < n,
    ensures
        entry_pairs(data, n)->Ok_0.len() == n,
        entry_pair(data, locator_entry_at(data, 20 + 12 * i)) == Ok::<
            (Seq<char>, Seq<char>),
            CorruptionType,
        >(entry_pairs(data, n)->Ok_0[i]),
    decreases n,
{
    if n > 1 {
        lemma_pairs_of_entries(data, n - 1, if i < n - 1 {
            i
        } else {
            0
        });
    } else {
        assert(entry_pairs(data, 0) == Ok::<Seq<(Seq<char>, Seq<char>)>, CorruptionType>(
            Seq::empty(),
        ));
    }
}

/// A locator that is too short for its header, has no entries or more than 256
/// of them, or is too short for them, is refused for that reason.
pub proof fn law_malformed_locator_is_refused(data: Seq<u8>)
    ensures
        data.len() < 20 ==> locator_pairs(data) == Err::<
            Seq<(Seq<char>, Seq<char>)>,
            CorruptionType,
        >(CorruptionType::LocatorTooSmallForHeader),
        data.len() >= 20 && (le16(data, 18) == 0 || le16(data, 18) > 256) ==> locator_pairs(data)
            == Err::<Seq<(Seq<char>, Seq<char>)>, CorruptionType>(
            CorruptionType::InvalidLocatorKeyValueCount,
        ),
        data.len() >= 20 && 1 <= le16(data, 18) <= 256 && data.len() < 20 + 12 * le16(data, 18)
            ==> locator_pairs(data) == Err::<Seq<(Seq<char>, Seq<char>)>, CorruptionType>(
            CorruptionType::LocatorTooSmallForEntries,
        ),
{
}

/// The first entry that cannot be used decides why a locator is refused.
pub proof fn law_first_bad_entry_decides(data: Seq<u8>, n: int, i: int, fault: CorruptionType)
    requires
        0 <= i < n,
        entry_pairs(data, i) is Ok,
        entry_pair(data, locator_entry_at(data, 20 + 12 * i)) == Err::<
            (Seq<char>, Seq<char>),
            CorruptionType,
        >(fault),
    ensures
        entry_pairs(data, n) == Err::<Seq<(Seq<char>, Seq<char>)>, CorruptionType>(fault),
    decreases n,
{
    if i < n - 1 {
        law_first_bad_entry_decides(data, n - 1, i, fault);
    }
}

/// An entry is refused for its key before its value, and accepted if both
/// strings have no fault and are text.
pub proof fn law_entry_is_refused_for_its_key_first(data: Seq<u8>, e: ParentLocatorEntry)
    ensures
        e.key_length == 0 ==> entry_pair(data, e) == Err::<(Seq<char>, Seq<char>), CorruptionType>(
            CorruptionType::EmptyLocatorEntryKey,
        ),
        entry_pair(data, e) is Ok <==> {
            &&& string_fault(
                data,
                e.key_offset as int,
                e.key_length as int,
                CorruptionType::EmptyLocatorEntryKey,
            ) is None
            &&& string_fault(
                data,
                e.value_offset as int,
                e.value_length as int,
                CorruptionType::EmptyLocatorEntryValue,
            ) is None
            &&& string_text(data, e.key_offset as int, e.key_length as int) is Some
            &&& string_text(data, e.value_offset as int, e.value_length as int) is Some
        },
        string_fault(
            data,
            e.key_offset as int,
            e.key_length as int,
            CorruptionType::EmptyLocatorEntryKey,
        ) is None && e.value_length == 0 ==> entry_pair(data, e) == Err::<
            (Seq<char>, Seq<char>),
            CorruptionType,
        >(CorruptionType::EmptyLocatorEntryValue),
{
}

} // verus!
