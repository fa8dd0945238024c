//! UTF-16 text in little-endian byte order.

use vstd::prelude::*;

use crate::bytes::{get_u16, le16, push_u16};
use super::error::{CorruptionType, VhdxError};

verus! {

/// The UTF-16 code units of a character: itself in the basic multilingual
/// plane, a surrogate pair above it.
pub open spec fn utf16_of_char(c: char) -> Seq<u16> {
    let code = c as u32;
    if code < 0x1_0000 {
        seq![code as u16]
    } else {
        seq![
            (0xd800 + (code - 0x1_0000) / 0x400) as u16,
            (0xdc00 + (code - 0x1_0000) % 0x400) as u16,
        ]
    }
}

/// The UTF-16 code units of a text.
pub open spec fn utf16_encode(text: Seq<char>) -> Seq<u16>
    decreases text.len(),
{
    if text.len() == 0 {
        Seq::empty()
    } else {
        utf16_of_char(text[0]) + utf16_encode(text.skip(1))
    }
}

/// The text that code units stand for, if they are valid.
pub open spec fn utf16_decode(units: Seq<u16>) -> Option<Seq<char>> {
    if exists|text: Seq<char>| utf16_encode(text) == units {
        Some(choose|text: Seq<char>| utf16_encode(text) == units)
    } else {
        None
    }
}

/// A character is known by its code units, and has the code unit zero only
/// if it is the null character.
proof fn lemma_utf16_of_char(c: char, d: char)
    ensures
        utf16_of_char(c)[0] == utf16_of_char(d)[0] ==> utf16_of_char(c).len() == utf16_of_char(
            d,
        ).len(),
        utf16_of_char(c) == utf16_of_char(d) ==> c == d,
        c != '\0' ==> utf16_of_char(c)[0] != 0 && (utf16_of_char(c).len() == 2 ==> utf16_of_char(
            c,
        )[1] != 0),
{
    let (x, y) = (c as u32, d as u32);
    assert(x <= 0x10_ffff && !(0xd800 <= x <= 0xdfff));
    assert(y <= 0x10_ffff && !(0xd800 <= y <= 0xdfff));
    if x >= 0x1_0000 {
        assert(0xd800 <= utf16_of_char(c)[0] <= 0xdbff);
        assert(0xdc00 <= utf16_of_char(c)[1] <= 0xdfff);
    } else {
        assert(utf16_of_char(c)[0] == x);
    }
    if y >= 0x1_0000 {
        assert(0xd800 <= utf16_of_char(d)[0] <= 0xdbff);
        assert(0xdc00 <= utf16_of_char(d)[1] <= 0xdfff);
    } else {
        assert(utf16_of_char(d)[0] == y);
    }
    if utf16_of_char(c) == utf16_of_char(d) {
        assert(x == y);
    }
}

/// Different texts have different code units.
pub proof fn law_utf16_is_unambiguous(a: Seq<char>, b: Seq<char>)
    requires
        utf16_encode(a) == utf16_encode(b),
    ensures
        a == b,
    decreases a.len(),
{
    let (ea, eb) = (utf16_encode(a), utf16_encode(b));
    if a.len() == 0 || b.len() == 0 {
        assert(a =~= b);
    } else {
        let (ua, ub) = (utf16_of_char(a[0]), utf16_of_char(b[0]));
        assert(ea[0] == ua[0] && eb[0] == ub[0]);
        lemma_utf16_of_char(a[0], b[0]);
        if ua.len() == 2 {
            assert(ea[1] == ua[1] && eb[1] == ub[1]);
        }
        assert(ua =~= ub);
        assert(a[0] == b[0]);
        let (ta, tb) = (utf16_encode(a.skip(1)), utf16_encode(b.skip(1)));
        assert(ta =~= ea.skip(ua.len() as int));
        assert(tb =~= eb.skip(ub.len() as int));
        law_utf16_is_unambiguous(a.skip(1), b.skip(1));
        assert(a =~= seq![a[0]] + a.skip(1));
        assert(b =~= seq![b[0]] + b.skip(1));
    }
}

/// Decoding what was encoded gives the text back.
pub proof fn law_utf16_round_trip(text: Seq<char>)
    ensures
        utf16_decode(utf16_encode(text)) == Some(text),
{
    let units = utf16_encode(text);
    let found = choose|t: Seq<char>| utf16_encode(t) == units;
    assert(utf16_encode(text) == units);
    law_utf16_is_unambiguous(found, text);
}

/// Text of which every character has code units other than zero has no code
/// unit zero.
pub(crate) proof fn lemma_utf16_has_no_null(text: Seq<char>)
    requires
        forall|i: int| 0 <= i < text.len() ==> #[trigger] text[i] != '\0',
    ensures
        forall|i: int| 0 <= i < utf16_encode(text).len() ==> #[trigger] utf16_encode(text)[i] != 0,
        utf16_encode(text).len() >= text.len(),
    decreases text.len(),
{
    if text.len() > 0 {
        let rest = text.skip(1);
        assert forall|i: int| 0 <= i < rest.len() implies #[trigger] rest[i] != '\0' by {
            assert(rest[i] == text[i + 1]);
        }
        lemma_utf16_has_no_null(rest);
        let first = utf16_of_char(text[0]);
        assert(text[0] != '\0');
        lemma_utf16_of_char(text[0], text[0]);
        assert forall|i: int| 0 <= i < utf16_encode(text).len() implies #[trigger] utf16_encode(
            text,
        )[i] != 0 by {
            if i >= first.len() {
                assert(utf16_encode(text)[i] == utf16_encode(rest)[i - first.len()]);
            }
        }
    }
}

/// The code units that bytes hold.
pub open spec fn units_of(data: Seq<u8>) -> Seq<u16> {
    Seq::new((data.len() / 2) as nat, |i: int| le16(data, 2 * i))
}

/// `String::from_utf16`: the text that the code units encode, or an error if
/// they hold invalid data, which is if they encode no text.
#[verifier::external_body]
fn string_from_utf16(units: &[u16]) -> (r: Option<String>)
    ensures
        match r {
            Some(text) => utf16_encode(text@) == units@,
            None => forall|text: Seq<char>| utf16_encode(text) != units@,
        },
{
    String::from_utf16(units).ok()
}

/// `str::encode_utf16`: the code units of the text.
#[verifier::external_body]
fn utf16_units(text: &str) -> (r: Vec<u16>)
    ensures
        r@ == utf16_encode(text@),
{
    text.encode_utf16().collect()
}

/// Decodes UTF-16LE bytes. An odd length and invalid code units are errors.
pub fn decode_utf16le(data: &[u8]) -> (r: Result<String, VhdxError>)
    ensures
        if data@.len() % 2 == 0 && utf16_decode(units_of(data@)) is Some {
            r matches Ok(s) && Some(s@) == utf16_decode(units_of(data@))
        } else {
            r == Err::<String, VhdxError>(
                VhdxError::Corrupt(CorruptionType::InvalidLocatorEntryKey),
            )
        },
{
    if data.len() % 2 != 0 {
        return Err(VhdxError::Corrupt(CorruptionType::InvalidLocatorEntryKey));
    }
    let count: usize = data.len() / 2;
    let mut units: Vec<u16> = Vec::new();
    let mut i: usize = 0;
    while i < count
        invariant
            i <= count == data@.len() / 2,
            2 * count <= data.len(),
            units@ == units_of(data@).subrange(0, i as int),
        decreases count - i,
    {
        units.push(get_u16(data, 2 * i));
        i += 1;
    }
    assert(units@ =~= units_of(data@));
    match string_from_utf16(&units) {
        Some(text) => {
            proof {
                law_utf16_round_trip(text@);
            }
            Ok(text)
        },
        None => Err(VhdxError::Corrupt(CorruptionType::InvalidLocatorEntryKey)),
    }
}

/// Whether a code unit of the bytes is zero.
pub open spec fn embedded_null(data: Seq<u8>) -> bool {
    exists|i: int| 0 <= i < data.len() / 2 && #[trigger] le16(data, 2 * i) == 0
}

/// Whether a code unit of the bytes is zero.
pub fn has_embedded_null(data: &[u8]) -> (r: bool)
    ensures
        r == embedded_null(data@),
{
    let count: usize = data.len() / 2;
    let mut i: usize = 0;
    while i < count
        invariant
            i <= count == data@.len() / 2,
            2 * count <= data.len(),
            forall|k: int| 0 <= k < i ==> #[trigger] le16(data@, 2 * k) != 0,
        decreases count - i,
    {
        if get_u16(data, 2 * i) == 0 {
            return true;
        }
        i += 1;
    }
    false
}

/// Encodes text as UTF-16LE bytes.
pub fn encode_utf16le(text: &str) -> (r: Vec<u8>)
    ensures
        r@.len() == 2 * utf16_encode(text@).len(),
        units_of(r@) == utf16_encode(text@),
{
    let units = utf16_units(text);
    let mut bytes: Vec<u8> = Vec::new();
    let mut i: usize = 0;
    while i < units.len()
        invariant
            i <= units@.len(),
            bytes@.len() == 2 * i,
            forall|k: int| 0 <= k < i ==> #[trigger] le16(bytes@, 2 * k) == units@[k],
        decreases units@.len() - i,
    {
        let ghost before = bytes@;
        push_u16(&mut bytes, units[i]);
        assert forall|k: int| 0 <= k < i + 1 implies #[trigger] le16(bytes@, 2 * k)
            == units@[k] by {
            if k < i {
                assert(le16(before, 2 * k) == units@[k]);
                assert(bytes@[2 * k] == before[2 * k] && bytes@[2 * k + 1] == before[2 * k + 1]);
            }
        }
        i += 1;
    }
    assert(units_of(bytes@) =~= units@);
    bytes
}

/// A character below the supplementary planes is one unit, itself; another is
/// two, a high and a low surrogate, that hold it between them.
pub proof fn law_character_is_one_unit_or_a_pair(c: char)
    ensures
        c as u32 <= 0xffff ==> utf16_of_char(c) == seq![c as u16],
        c as u32 > 0xffff ==> {
            let units = utf16_of_char(c);
            &&& units.len() == 2
            &&& 0xd800 <= units[0] <= 0xdbff
            &&& 0xdc00 <= units[1] <= 0xdfff
            &&& c as u32 == 0x1_0000 + 0x400 * (units[0] - 0xd800) + (units[1] - 0xdc00)
        },
{
}

/// The form of two texts, one after the other, is that of the first and then
/// that of the second.
pub proof fn law_utf16_is_character_by_character(a: Seq<char>, b: Seq<char>)
    ensures
        utf16_encode(a + b) == utf16_encode(a) + utf16_encode(b),
    decreases a.len(),
{
    if a.len() == 0 {
        assert(a + b =~= b);
        assert(utf16_encode(a) + utf16_encode(b) =~= utf16_encode(b));
    } else {
        law_utf16_is_character_by_character(a.skip(1), b);
        assert((a + b).skip(1) =~= a.skip(1) + b);
        assert(utf16_encode(a + b) =~= utf16_encode(a) + utf16_encode(b));
    }
}

/// The units of bytes are read in pairs, the lower byte first.
pub proof fn law_units_are_pairs_of_bytes(data: Seq<u8>, i: int)
    requires
        0 <= i < data.len() / 2,
    ensures
        units_of(data).len() == data.len() / 2,
        units_of(data)[i] == data[2 * i] + 0x100 * data[2 * i + 1],
        data[2 * i] == 0 && data[2 * i + 1] == 0 ==> embedded_null(data),
{
    assert(le16(data, 2 * i) == data[2 * i] + 0x100 * data[2 * i + 1]);
}

/// A text that is encoded and decoded again is the same text.
pub proof fn law_text_survives_encoding(
    text: &str,
    bytes: Vec<u8>,
    data: &[u8],
    r: Result<String, VhdxError>,
)
    requires
        call_ensures(encode_utf16le, (text,), bytes),
        data@ == bytes@,
        call_ensures(decode_utf16le, (data,), r),
    ensures
        r matches Ok(decoded) && decoded@ == text@,
{
    law_utf16_round_trip(text@);
}

} // verus!
