//! The names of archive entries: two reserved names, and frame numbers.

use vstd::prelude::*;

verus! {

/// What an archive entry holds, as its name tells.
#[derive(Clone, Copy, Debug, PartialEq, Eq, Structural)]
pub enum EntryKind {
    /// The audio track.
    Audio,
    /// The description of the recording, which holds the frame interval.
    Metadata,
    /// The frame with this number.
    Frame(usize),
}

/// The name of the audio entry: `audio`.
pub const AUDIO_STEM: [u8; 5] = [97, 117, 100, 105, 111];

/// The name of the metadata entry: `metadata`.
pub const METADATA_STEM: [u8; 8] = [109, 101, 116, 97, 100, 97, 116, 97];

/// The name of the audio entry as a sequence of bytes.
pub open spec fn audio_stem() -> Seq<u8> {
    AUDIO_STEM@
}

/// The name of the metadata entry as a sequence of bytes.
pub open spec fn metadata_stem() -> Seq<u8> {
    METADATA_STEM@
}

/// An ASCII decimal digit.
pub open spec fn is_digit(byte: u8) -> bool {
    48 <= byte <= 57
}

/// Every byte is a decimal digit.
pub open spec fn all_digits(bytes: Seq<u8>) -> bool {
    forall|i: int| 0 <= i < bytes.len() ==> is_digit(#[trigger] bytes[i])
}

/// The number that decimal digits write.
pub open spec fn digits_value(digits: Seq<u8>) -> nat
    decreases digits.len(),
{
    if digits.len() == 0 {
        0
    } else {
        (digits_value(digits.drop_last()) * 10 + (digits.last() - 48)) as nat
    }
}

/// A frame name without the plus sign that may stand before its digits.
pub open spec fn unsigned_part(stem: Seq<u8>) -> Seq<u8> {
    if stem.len() > 0 && stem[0] == 43u8 {
        stem.skip(1)
    } else {
        stem
    }
}

/// The number that a frame name writes: an optional plus sign, then one or
/// more decimal digits and nothing else, for a number that fits in `usize`.
pub open spec fn frame_number(stem: Seq<u8>) -> Option<nat> {
    let digits = unsigned_part(stem);
    if digits.len() > 0 && all_digits(digits) && digits_value(digits) <= usize::MAX {
        Some(digits_value(digits))
    } else {
        None
    }
}

/// What the entry with this name holds, if the name is one that an archive
/// may have. The reserved names come first: neither is a number.
pub open spec fn kind_of(stem: Seq<u8>) -> Option<EntryKind> {
    if stem == audio_stem() {
        Some(EntryKind::Audio)
    } else if stem == metadata_stem() {
        Some(EntryKind::Metadata)
    } else {
        match frame_number(stem) {
            Some(number) => Some(EntryKind::Frame(number as usize)),
            None => None,
        }
    }
}

/// Digits that go on after some of them write a number that is no smaller.
proof fn longer_digits_write_more(digits: Seq<u8>, count: int)
    requires
        all_digits(digits),
        0 <= count <= digits.len(),
    ensures
        digits_value(digits.take(count)) <= digits_value(digits),
    decreases digits.len() - count,
{
    if count == digits.len() {
        assert(digits.take(count) == digits);
    } else {
        longer_digits_write_more(digits, count + 1);
        assert(digits.take(count + 1).drop_last() == digits.take(count));
        assert(is_digit(digits[count]));
    }
}

/// Reads a frame number from the name of an entry.
pub fn parse_frame_number(stem: &Vec<u8>) -> (r: Option<usize>)
    ensures
        match r {
            Some(number) => frame_number(stem@) == Some(number as nat),
            None => frame_number(stem@) is None,
        },
{
    let start: usize = if stem.len() > 0 && stem[0] == 43u8 {
        1
    } else {
        0
    };
    let ghost digits = unsigned_part(stem@);
    if start >= stem.len() {
        return None;
    }
    assert(digits == stem@.skip(start as int)) by {
        if start == 0 {
            assert(stem@.skip(0) == stem@);
        }
    }
    let mut value: usize = 0;
    let mut i: usize = start;
    while i < stem.len()
        invariant
            start <= i <= stem.len(),
            digits == unsigned_part(stem@),
            digits == stem@.skip(start as int),
            all_digits(digits.take(i - start)),
            value == digits_value(digits.take(i - start)),
        decreases stem.len() - i,
    {
        let byte = stem[i];
        assert(digits[i - start] == byte);
        if byte < 48u8 || byte > 57u8 {
            return None;
        }
        let ghost longer = digits.take(i - start + 1);
        assert(longer.drop_last() == digits.take(i - start));
        assert(all_digits(longer)) by {
            assert forall|j: int| 0 <= j < longer.len() implies is_digit(#[trigger] longer[j]) by {
                if j < i - start {
                    assert(longer[j] == digits.take(i - start)[j]);
                }
            }
        }
        let next = match value.checked_mul(10) {
            Some(tens) => tens.checked_add((byte - 48u8) as usize),
            None => None,
        };
        match next {
            Some(total) => {
                value = total;
            },
            None => {
                proof {
                    if all_digits(digits) {
                        longer_digits_write_more(digits, i - start + 1);
                    }
                }
                return None;
            },
        }
        i = i + 1;
    }
    assert(digits.take(i - start) == digits);
    Some(value)
}

/// Whether a name is made of exactly these bytes.
fn is_name(stem: &Vec<u8>, name: &[u8]) -> (r: bool)
    ensures
        r == (stem@ == name@),
{
    if stem.len() != name.len() {
        return false;
    }
    let mut i: usize = 0;
    while i < stem.len()
        invariant
            i <= stem.len(),
            stem.len() == name.len(),
            stem@.take(i as int) == name@.take(i as int),
        decreases stem.len() - i,
    {
        if stem[i] != name[i] {
            return false;
        }
        assert(stem@.take(i + 1) == stem@.take(i as int).push(stem@[i as int]));
        assert(name@.take(i + 1) == name@.take(i as int).push(name@[i as int]));
        i = i + 1;
    }
    assert(stem@.take(i as int) == stem@);
    assert(name@.take(i as int) == name@);
    true
}

/// Tells what an entry holds from its name.
pub fn classify(stem: &Vec<u8>) -> (r: Option<EntryKind>)
    ensures
        r == kind_of(stem@),
{
    if is_name(stem, AUDIO_STEM.as_slice()) {
        Some(EntryKind::Audio)
    } else if is_name(stem, METADATA_STEM.as_slice()) {
        Some(EntryKind::Metadata)
    } else {
        match parse_frame_number(stem) {
            Some(number) => Some(EntryKind::Frame(number)),
            None => None,
        }
    }
}

} // verus!
