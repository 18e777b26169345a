//! Names as the table stores them: UTF-16 code units, lowest byte first.
use crate::bytes::{field_u16, has_bytes, in_bounds, u16_at};
use crate::error::{fails_with, value_read_failure, Error};
use vstd::prelude::*;
use vstd::utf8::is_scalar;

verus! {

/// `char::from_u32` gives the character with the scalar value `i`, and
/// nothing where `i` is a surrogate or lies above the last code point.
pub assume_specification[ char::from_u32 ](i: u32) -> (r: Option<char>)
    ensures
        is_scalar(i) ==> r == Some(i as char),
        !is_scalar(i) ==> r is None,
;

/// The character that takes the place of a code unit without a partner.
pub const REPLACEMENT: char = '\u{FFFD}';

/// True for the first code unit of a surrogate pair.
pub open spec fn is_high_surrogate(unit: u16) -> bool {
    0xD800 <= unit <= 0xDBFF
}

/// True for the second code unit of a surrogate pair.
pub open spec fn is_low_surrogate(unit: u16) -> bool {
    0xDC00 <= unit <= 0xDFFF
}

/// The scalar value that a surrogate pair stands for.
pub open spec fn pair_value(high: u16, low: u16) -> u32
    recommends
        is_high_surrogate(high),
        is_low_surrogate(low),
{
    (0x1_0000 + (high - 0xD800) * 0x400 + (low - 0xDC00)) as u32
}

/// True when `units` begins with a complete surrogate pair.
pub open spec fn starts_with_pair(units: Seq<u16>) -> bool {
    units.len() >= 2 && is_high_surrogate(units[0]) && is_low_surrogate(units[1])
}

/// The text that the code units spell. A surrogate pair gives one character,
/// a surrogate without its partner gives the replacement character, and any
/// other unit gives the character of that value.
pub open spec fn decode_utf16(units: Seq<u16>) -> Seq<char>
    decreases units.len(),
{
    if units.len() == 0 {
        Seq::empty()
    } else if starts_with_pair(units) {
        seq![pair_value(units[0], units[1]) as char] + decode_utf16(units.skip(2))
    } else if is_high_surrogate(units[0]) || is_low_surrogate(units[0]) {
        seq![REPLACEMENT] + decode_utf16(units.skip(1))
    } else {
        seq![units[0] as char] + decode_utf16(units.skip(1))
    }
}

/// The `count` code units that `b` holds from position `at` on.
pub open spec fn units_at(b: Seq<u8>, at: int, count: int) -> Seq<u16>
    recommends
        has_bytes(b, at, 2 * count),
{
    Seq::new(count as nat, |i: int| u16_at(b, at + 2 * i))
}

/// The name of `count` code units that `b` holds at position `at`.
pub open spec fn name_at(b: Seq<u8>, at: int, count: int) -> Seq<char> {
    decode_utf16(units_at(b, at, count))
}

/// The character with the scalar value `value`, or the replacement character.
fn scalar(value: u32) -> (c: char)
    ensures
        is_scalar(value) ==> c == value as char,
        !is_scalar(value) ==> c == REPLACEMENT,
{
    match char::from_u32(value) {
        Some(c) => c,
        None => REPLACEMENT,
    }
}

/// Spells out the text of a sequence of code units.
pub fn decode(units: &Vec<u16>) -> (text: String)
    ensures
        text@ == decode_utf16(units@),
{
    let mut text = String::new();
    let mut i: usize = 0;
    assert(units@.skip(0) == units@);
    assert(text@ + decode_utf16(units@) == decode_utf16(units@));
    while i < units.len()
        invariant
            i <= units.len(),
            text@ + decode_utf16(units@.skip(i as int)) == decode_utf16(units@),
        decreases units.len() - i,
    {
        let ghost rest = units@.skip(i as int);
        let ghost before = text@;
        let unit: u16 = units[i];
        assert(rest[0] == unit);
        if 0xD800 <= unit && unit <= 0xDBFF && i + 1 < units.len() && 0xDC00 <= units[i + 1]
            && units[i + 1] <= 0xDFFF {
            let low: u16 = units[i + 1];
            assert(rest[1] == low);
            let value: u32 = 0x1_0000 + (unit as u32 - 0xD800) * 0x400 + (low as u32 - 0xDC00);
            text.push(scalar(value));
            i = i + 2;
            assert(rest.skip(2) == units@.skip(i as int));
            assert(text@ + decode_utf16(rest.skip(2)) == before + decode_utf16(rest));
        } else if 0xD800 <= unit && unit <= 0xDFFF {
            text.push(REPLACEMENT);
            i = i + 1;
            assert(rest.skip(1) == units@.skip(i as int));
            assert(text@ + decode_utf16(rest.skip(1)) == before + decode_utf16(rest));
        } else {
            text.push(scalar(unit as u32));
            i = i + 1;
            assert(rest.skip(1) == units@.skip(i as int));
            assert(text@ + decode_utf16(rest.skip(1)) == before + decode_utf16(rest));
        }
    }
    assert(units@.skip(i as int).len() == 0);
    text
}

/// Reads the name of `count` code units at position `at`. This succeeds when
/// the buffer holds all of them.
pub fn read_name(buf: &[u8], at: u64, count: u8) -> (r: Result<String, Error>)
    ensures
        has_bytes(buf@, at as int, 2 * count) ==> r is Ok && r->Ok_0@ == name_at(
            buf@,
            at as int,
            count as int,
        ),
        !has_bytes(buf@, at as int, 2 * count) ==> fails_with(
            r,
            value_read_failure("name_char"@, "read_u16"@),
        ),
{
    if !in_bounds(buf, at, 2 * (count as u64)) {
        return Err(Error::value_read("name_char", "read_u16"));
    }
    let mut units: Vec<u16> = Vec::new();
    let mut i: u8 = 0;
    while i < count
        invariant
            i <= count,
            has_bytes(buf@, at as int, 2 * count),
            buf@.len() <= usize::MAX,
            units@ == units_at(buf@, at as int, i as int),
        decreases count - i,
    {
        let unit = field_u16(buf, at + 2 * (i as u64), "name_char")?;
        units.push(unit);
        i = i + 1;
    }
    Ok(decode(&units))
}

} // verus!
