//! UTF-16: text as sequences of 16-bit code units.

use vstd::prelude::*;

use crate::text::{chars_of, string_of};

verus! {

/// `char::from_u32` yields the character with the given code point, and nothing
/// for a surrogate or a number above the last code point.
pub assume_specification[ char::from_u32 ](i: u32) -> (c: Option<char>)
    ensures
        c is Some <==> (i < 0xD800 || 0xE000 <= i <= 0x10FFFF),
        c matches Some(c) ==> c as u32 == i,
;

/// A unit that opens a surrogate pair.
pub open spec fn is_high(unit: u16) -> bool {
    0xD800 <= unit <= 0xDBFF
}

/// A unit that closes a surrogate pair.
pub open spec fn is_low(unit: u16) -> bool {
    0xDC00 <= unit <= 0xDFFF
}

/// What stands for a surrogate outside a pair.
pub open spec fn replacement() -> char {
    '\u{FFFD}'
}

/// The units of one character: itself, or a surrogate pair above 0xFFFF.
pub open spec fn char_units(c: char) -> Seq<u16> {
    let n = c as u32 as int;
    if n < 0x10000 {
        seq![n as u16]
    } else {
        seq![(0xD800 + (n - 0x10000) / 0x400) as u16, (0xDC00 + (n - 0x10000) % 0x400) as u16]
    }
}

/// The character of a surrogate pair.
pub open spec fn pair_char(high: u16, low: u16) -> char {
    (0x10000 + (high - 0xD800) * 0x400 + (low - 0xDC00)) as char
}

/// Text in UTF-16.
pub open spec fn encoded(text: Seq<char>) -> Seq<u16>
    decreases text.len(),
{
    if text.len() == 0 {
        Seq::empty()
    } else {
        char_units(text[0]) + encoded(text.skip(1))
    }
}

/// UTF-16 read as text, with the replacement character for each surrogate that
/// is not part of a pair.
pub open spec fn decoded(units: Seq<u16>) -> Seq<char>
    decreases units.len(),
{
    if units.len() == 0 {
        Seq::empty()
    } else if units.len() >= 2 && is_high(units[0]) && is_low(units[1]) {
        seq![pair_char(units[0], units[1])] + decoded(units.skip(2))
    } else if is_high(units[0]) || is_low(units[0]) {
        seq![replacement()] + decoded(units.skip(1))
    } else {
        seq![units[0] as char] + decoded(units.skip(1))
    }
}

proof fn char_units_read_back(c: char)
    ensures
        char_units(c).len() == 1 ==> {
            let unit = char_units(c)[0];
            !is_high(unit) && !is_low(unit) && unit as char == c
        },
        char_units(c).len() == 2 ==> {
            let high = char_units(c)[0];
            let low = char_units(c)[1];
            is_high(high) && is_low(low) && pair_char(high, low) == c
        },
{
}

/// Text survives UTF-16: what was encoded is read back unchanged.
pub proof fn encoded_then_decoded(text: Seq<char>)
    ensures
        decoded(encoded(text)) == text,
    decreases text.len(),
{
    if text.len() > 0 {
        let units = encoded(text);
        let head = char_units(text[0]);
        let rest = encoded(text.skip(1));
        encoded_then_decoded(text.skip(1));
        assert(units.skip(head.len() as int) == rest);
        assert(seq![text[0]] + text.skip(1) == text);
        assert(units[0] == head[0]);
        if head.len() == 2 {
            assert(units[1] == head[1]);
        }
        char_units_read_back(text[0]);
    }
}

/// The UTF-16 form of a text.
pub fn encode_utf16(text: &str) -> (units: Vec<u16>)
    ensures
        units@ == encoded(text@),
{
    let chars = chars_of(text);
    let mut units: Vec<u16> = Vec::new();
    assert(text@.skip(0) == text@);
    for i in 0..chars.len()
        invariant
            chars@ == text@,
            units@ + encoded(text@.skip(i as int)) == encoded(text@),
    {
        let n: u32 = chars[i] as u32;
        let ghost before = units@;
        if n < 0x10000 {
            units.push(n as u16);
        } else {
            units.push((0xD800 + (n - 0x10000) / 0x400) as u16);
            units.push((0xDC00 + (n - 0x10000) % 0x400) as u16);
        }
        proof {
            let rest = text@.skip(i as int);
            assert(rest.skip(1) == text@.skip(i + 1));
            assert(units@ == before + char_units(rest[0]));
            assert(units@ + encoded(text@.skip(i + 1)) == before + encoded(rest));
        }
    }
    assert(text@.skip(chars@.len() as int).len() == 0);
    assert(units@ == encoded(text@));
    units
}

fn char_at(n: u32) -> (c: char)
    requires
        n < 0xD800 || 0xE000 <= n <= 0x10FFFF,
    ensures
        c as u32 == n,
{
    match char::from_u32(n) {
        Some(c) => c,
        None => '\u{FFFD}',
    }
}

/// The text that UTF-16 stands for; an unpaired surrogate is replaced.
pub fn decode_utf16_lossy(units: &[u16]) -> (text: String)
    ensures
        text@ == decoded(units@),
{
    let mut chars: Vec<char> = Vec::new();
    let mut i: usize = 0;
    assert(units@.skip(0) == units@);
    while i < units.len()
        invariant
            i <= units@.len(),
            chars@ + decoded(units@.skip(i as int)) == decoded(units@),
        decreases units@.len() - i,
    {
        let ghost before = chars@;
        let ghost rest = units@.skip(i as int);
        let unit = units[i];
        if 0xD800 <= unit && unit <= 0xDFFF {
            if unit <= 0xDBFF && i + 1 < units.len() && 0xDC00 <= units[i + 1] && units[i + 1]
                <= 0xDFFF {
                let low = units[i + 1];
                let n: u32 = 0x10000 + (unit as u32 - 0xD800) * 0x400 + (low as u32 - 0xDC00);
                chars.push(char_at(n));
                proof {
                    assert(rest.skip(2) == units@.skip(i + 2));
                    assert(chars@ + decoded(rest.skip(2)) == before + decoded(rest));
                }
                i = i + 2;
                continue ;
            }
            chars.push('\u{FFFD}');
        } else {
            chars.push(char_at(unit as u32));
        }
        proof {
            assert(rest.skip(1) == units@.skip(i + 1));
            assert(chars@ + decoded(rest.skip(1)) == before + decoded(rest));
        }
        i = i + 1;
    }
    assert(units@.skip(i as int).len() == 0);
    assert(chars@ == decoded(units@));
    string_of(chars.as_slice())
}

/// Text is encoded character by character: up to 0xFFFF as the number of the
/// character, above it as a high and a low surrogate that make up its number.
pub proof fn encoding_goes_character_by_character(text: Seq<char>, c: char)
    ensures
        encoded(Seq::empty()) == Seq::<u16>::empty(),
        c as int <= 0xFFFF ==> encoded(seq![c] + text) == seq![c as u16] + encoded(text),
        c as int > 0xFFFF ==> {
            let all = encoded(seq![c] + text);
            &&& all.len() == encoded(text).len() + 2
            &&& all.skip(2) == encoded(text)
            &&& 0xD800 <= all[0] <= 0xDBFF
            &&& 0xDC00 <= all[1] <= 0xDFFF
            &&& c as int == 0x10000 + (all[0] - 0xD800) * 0x400 + (all[1] - 0xDC00)
        },
{
    let all = seq![c] + text;
    assert(all.skip(1) =~= text);
    assert(all[0] == c);
    if c as int > 0xFFFF {
        assert(encoded(all).skip(2) =~= encoded(text));
    }
}

/// Units are read one by one: a surrogate pair is the character that it makes
/// up, any other surrogate the replacement character, and any other unit the
/// character with its number.
pub proof fn decoding_goes_unit_by_unit(units: Seq<u16>, a: u16, b: u16)
    ensures
        decoded(Seq::empty()) == Seq::<char>::empty(),
        !(0xD800 <= a <= 0xDFFF) ==> {
            let all = decoded(seq![a] + units);
            all.len() == decoded(units).len() + 1 && all[0] as int == a && all.skip(1) == decoded(
                units,
            )
        },
        0xD800 <= a <= 0xDBFF && 0xDC00 <= b <= 0xDFFF ==> {
            let all = decoded(seq![a, b] + units);
            &&& all.len() == decoded(units).len() + 1
            &&& all[0] as int == 0x10000 + (a - 0xD800) * 0x400 + (b - 0xDC00)
            &&& all.skip(1) == decoded(units)
        },
        0xDC00 <= a <= 0xDFFF || (0xD800 <= a <= 0xDBFF && !(units.len() > 0 && 0xDC00 <= units[0]
            <= 0xDFFF)) ==> decoded(seq![a] + units) == seq!['\u{FFFD}'] + decoded(units),
{
    let one = seq![a] + units;
    let two = seq![a, b] + units;
    assert(one.skip(1) =~= units);
    assert(two.skip(2) =~= units);
    assert(one[0] == a && two[0] == a && two[1] == b);
    if units.len() > 0 {
        assert(one[1] == units[0]);
    }
    unit_is_char(a);
    pair_is_char(a, b);
    if !(0xD800 <= a <= 0xDFFF) {
        assert(decoded(one) == seq![a as char] + decoded(units));
        assert(decoded(one).skip(1) =~= decoded(units));
    }
    if 0xD800 <= a <= 0xDBFF && 0xDC00 <= b <= 0xDFFF {
        assert(decoded(two) == seq![pair_char(a, b)] + decoded(units));
        assert(decoded(two).skip(1) =~= decoded(units));
    }
}

proof fn unit_is_char(a: u16)
    ensures
        !(0xD800 <= a <= 0xDFFF) ==> (a as char) as int == a,
{
}

proof fn pair_is_char(a: u16, b: u16)
    ensures
        0xD800 <= a <= 0xDBFF && 0xDC00 <= b <= 0xDFFF ==> pair_char(a, b) as int == 0x10000 + (a
            - 0xD800) * 0x400 + (b - 0xDC00),
{
}

} // verus!
