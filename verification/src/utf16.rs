//! UTF-16, in which Windows holds text.

use crate::chars::chars_of;
use vstd::prelude::*;
use vstd::utf8::is_scalar;

verus! {

/// `char::from_u32` gives the character of a Unicode scalar value, and none for
/// another number.
pub assume_specification[ std::char::from_u32 ](i: u32) -> (c: Option<char>)
    ensures
        c is Some <==> is_scalar(i),
        c is Some ==> c->0 as u32 == i,
;

/// The units that encode a character: itself, or a pair of surrogates.
pub open spec fn units_of(c: char) -> Seq<u16> {
    let v = c as u32;
    if v < 0x1_0000 {
        seq![v as u16]
    } else {
        seq![
            (0xd800 + (v - 0x1_0000) / 0x400) as u16,
            (0xdc00 + (v - 0x1_0000) % 0x400) as u16,
        ]
    }
}

/// The units that encode a text.
pub open spec fn encoded(text: Seq<char>) -> Seq<u16>
    decreases text.len(),
{
    if text.len() == 0 {
        Seq::empty()
    } else {
        units_of(text[0]) + encoded(text.skip(1))
    }
}

pub open spec fn high_surrogate(unit: u16) -> bool {
    0xd800 <= unit < 0xdc00
}

pub open spec fn low_surrogate(unit: u16) -> bool {
    0xdc00 <= unit < 0xe000
}

/// The character of a pair of surrogates.
pub open spec fn pair_char(high: u16, low: u16) -> char {
    ((0x1_0000 + (high - 0xd800) * 0x400 + (low - 0xdc00)) as u32) as char
}

/// The text that units encode, with the replacement character for each surrogate that
/// is not one of a pair, as `String::from_utf16_lossy` decodes it.
pub open spec fn decoded_lossy(units: Seq<u16>) -> Seq<char>
    decreases units.len(),
{
    if units.len() == 0 {
        Seq::empty()
    } else if !high_surrogate(units[0]) && !low_surrogate(units[0]) {
        seq![(units[0] as u32) as char] + decoded_lossy(units.skip(1))
    } else if high_surrogate(units[0]) && units.len() > 1 && low_surrogate(units[1]) {
        seq![pair_char(units[0], units[1])] + decoded_lossy(units.skip(2))
    } else {
        seq!['\u{fffd}'] + decoded_lossy(units.skip(1))
    }
}

/// The units that encode a text.
pub fn encode_utf16(text: &str) -> (units: Vec<u16>)
    ensures
        units@ == encoded(text@),
{
    let chars = chars_of(text);
    let mut units: Vec<u16> = Vec::new();
    let mut i: usize = 0;
    assert(chars@.skip(0) =~= chars@);
    assert(units@ + encoded(chars@) =~= encoded(chars@));
    while i < chars.len()
        invariant
            i <= chars.len(),
            chars@ == text@,
            units@ + encoded(chars@.skip(i as int)) == encoded(text@),
        decreases chars.len() - i,
    {
        let ghost before = units@;
        let v = chars[i] as u32;
        if v < 0x1_0000 {
            units.push(v as u16);
        } else {
            units.push((0xd800 + (v - 0x1_0000) / 0x400) as u16);
            units.push((0xdc00 + (v - 0x1_0000) % 0x400) as u16);
        }
        assert(units@ =~= before + units_of(chars@[i as int]));
        assert(chars@.skip(i as int).skip(1) =~= chars@.skip(i + 1));
        i = i + 1;
        assert(units@ + encoded(chars@.skip(i as int)) =~= before + encoded(chars@.skip(i - 1)));
    }
    assert(units@ + encoded(chars@.skip(i as int)) =~= units@);
    units
}

/// The units of a character stand for it.
proof fn lemma_units_of(c: char)
    ensures
        (c as u32) < 0x1_0000 ==> {
            &&& units_of(c).len() == 1
            &&& !high_surrogate(units_of(c)[0])
            &&& !low_surrogate(units_of(c)[0])
            &&& (units_of(c)[0] as u32) as char == c
            &&& units_of(c)[0] == c as u32
        },
        (c as u32) >= 0x1_0000 ==> {
            &&& units_of(c).len() == 2
            &&& high_surrogate(units_of(c)[0])
            &&& low_surrogate(units_of(c)[1])
            &&& pair_char(units_of(c)[0], units_of(c)[1]) == c
        },
{
    let v = c as u32;
    vstd::utf8::char_is_scalar(c);
    vstd::utf8::char_u32_cast(c, v);
    if v >= 0x1_0000 {
        let high = (0xd800 + (v - 0x1_0000) / 0x400) as u16;
        let low = (0xdc00 + (v - 0x1_0000) % 0x400) as u16;
        assert(0x1_0000 + (high - 0xd800) * 0x400 + (low - 0xdc00) == v);
    }
}

proof fn lemma_not_zero(c: char)
    requires
        c != '\0',
    ensures
        c as u32 != 0,
{
    vstd::utf8::char_u32_cast(c, c as u32);
}

proof fn lemma_char_of(c: char, value: u32)
    requires
        c as u32 == value,
    ensures
        c == value as char,
{
    vstd::utf8::char_u32_cast(c, value);
}

fn char_of(value: u32) -> (c: char)
    requires
        is_scalar(value),
    ensures
        c == value as char,
{
    match std::char::from_u32(value) {
        Some(c) => {
            proof {
                lemma_char_of(c, value);
            }
            c
        },
        None => ' ',
    }
}

/// The text that the units `units[..end]` encode, with the replacement character for
/// each surrogate that is not one of a pair.
pub fn decode_utf16_lossy(units: &[u16], end: usize) -> (text: String)
    requires
        end <= units.len(),
    ensures
        text@ == decoded_lossy(units@.take(end as int)),
{
    let ghost all = units@.take(end as int);
    let mut text = String::new();
    let mut i: usize = 0;
    assert(all.skip(0) =~= all);
    assert(text@ + decoded_lossy(all) =~= decoded_lossy(all));
    while i < end
        invariant
            i <= end <= units.len(),
            all == units@.take(end as int),
            text@ + decoded_lossy(all.skip(i as int)) == decoded_lossy(all),
        decreases end - i,
    {
        let ghost before = text@;
        let ghost rest = all.skip(i as int);
        let unit = units[i];
        assert(rest[0] == unit);
        if unit < 0xd800 || 0xe000 <= unit {
            let c = char_of(unit as u32);
            text.push(c);
            assert(rest.skip(1) =~= all.skip(i + 1));
            i = i + 1;
        } else if unit < 0xdc00 && i + 1 < end && 0xdc00 <= units[i + 1] && units[i + 1] < 0xe000 {
            assert(rest[1] == units@[i + 1]);
            let c = char_of(
                0x1_0000 + (unit as u32 - 0xd800) * 0x400 + (units[i + 1] as u32 - 0xdc00),
            );
            text.push(c);
            assert(rest.skip(2) =~= all.skip(i + 2));
            i = i + 2;
        } else {
            assert(i + 1 < end ==> rest[1] == units@[i + 1]);
            text.push('\u{fffd}');
            assert(rest.skip(1) =~= all.skip(i + 1));
            i = i + 1;
        }
        assert(text@ + decoded_lossy(all.skip(i as int)) =~= before + decoded_lossy(rest));
    }
    assert(text@ + decoded_lossy(all.skip(i as int)) =~= text@);
    text
}

/// What was encoded decodes to the same text, and holds a zero only where the text
/// does.
pub proof fn law_utf16_round_trip(text: Seq<char>)
    ensures
        decoded_lossy(encoded(text)) == text,
        !text.contains('\0') ==> !encoded(text).contains(0),
    decreases text.len(),
{
    if text.len() > 0 {
        let rest = text.skip(1);
        let c = text[0];
        law_utf16_round_trip(rest);
        let units = encoded(text);
        lemma_units_of(c);
        assert(units.skip(units_of(c).len() as int) =~= encoded(rest));
        assert(units[0] == units_of(c)[0]);
        assert(units_of(c).len() == 2 ==> units[1] == units_of(c)[1]);
        assert(text =~= seq![c] + rest);
        if !text.contains('\0') {
            assert(text[0] != '\0');
            lemma_not_zero(c);
            assert(!rest.contains('\0')) by {
                if rest.contains('\0') {
                    let i = rest.index_of('\0');
                    assert(text[i + 1] == '\0');
                }
            }
            assert forall|i: int| 0 <= i < units.len() implies units[i] != 0 by {
                let first = units_of(c);
                if i < first.len() {
                    assert(units[i] == first[i]);
                } else {
                    assert(units[i] == encoded(rest)[i - first.len()]);
                }
            }
        }
    } else {
        assert(decoded_lossy(encoded(text)) =~= text);
    }
}

/// A character below 0x10000 is encoded as itself. Any other is encoded as two surrogates, the
/// high one first: the first holds the upper ten bits of what the character exceeds 0x10000 by,
/// the second the lower ten.
pub proof fn law_characters_are_one_unit_or_a_pair(c: char)
    ensures
        (c as u32) < 0x1_0000 ==> units_of(c) == seq![c as u16],
        (c as u32) >= 0x1_0000 ==> units_of(c).len() == 2 && 0xd800 <= units_of(c)[0] <= 0xdbff
            && 0xdc00 <= units_of(c)[1] <= 0xdfff && (units_of(c)[0] - 0xd800) * 0x400 + (
        units_of(c)[1] - 0xdc00) + 0x1_0000 == c as u32,
{
    lemma_units_of(c);
    vstd::utf8::char_is_scalar(c);
    vstd::utf8::char_u32_cast(c, c as u32);
    if (c as u32) < 0x1_0000 {
        assert(units_of(c) =~= seq![c as u16]);
    } else {
        let v = c as u32;
        assert(0x1_0000 + (units_of(c)[0] - 0xd800) * 0x400 + (units_of(c)[1] - 0xdc00) == v);
    }
}

/// Texts are encoded character by character, in their order.
pub proof fn law_texts_are_encoded_in_order(first: Seq<char>, c: char, second: Seq<char>)
    ensures
        encoded(seq![c]) == units_of(c),
        encoded(first + second) == encoded(first) + encoded(second),
    decreases first.len(),
{
    assert(seq![c].skip(1) =~= Seq::empty());
    assert(encoded(seq![c].skip(1)) =~= Seq::empty());
    assert(encoded(seq![c]) =~= units_of(c));
    if first.len() == 0 {
        assert(first + second =~= second);
        assert(encoded(first + second) =~= encoded(first) + encoded(second));
    } else {
        let rest = first.skip(1);
        law_texts_are_encoded_in_order(rest, c, second);
        assert((first + second).skip(1) =~= rest + second);
        assert(encoded(first + second) =~= encoded(first) + encoded(second));
    }
}

/// Whatever comes behind an encoded text, the text is decoded as it was. A surrogate that is not
/// one of a pair gives one replacement character, and what comes behind it is decoded as if it
/// stood alone.
pub proof fn law_damage_stays_where_it_is(text: Seq<char>, unit: u16, rest: Seq<u16>)
    requires
        0xd800 <= unit <= 0xdfff,
        unit <= 0xdbff ==> rest.len() == 0 || !(0xdc00 <= rest[0] <= 0xdfff),
    ensures
        decoded_lossy(encoded(text) + rest) == text + decoded_lossy(rest),
        decoded_lossy(seq![unit] + rest) == seq!['\u{fffd}'] + decoded_lossy(rest),
    decreases text.len(),
{
    assert((seq![unit] + rest).skip(1) =~= rest);
    if text.len() == 0 {
        assert(encoded(text) + rest =~= rest);
        assert(text + decoded_lossy(rest) =~= decoded_lossy(rest));
    } else {
        let more = text.skip(1);
        let first = units_of(text[0]);
        let units = encoded(text) + rest;
        law_damage_stays_where_it_is(more, unit, rest);
        lemma_units_of(text[0]);
        assert(units.skip(first.len() as int) =~= encoded(more) + rest);
        assert(units[0] == first[0]);
        assert(first.len() == 2 ==> units[1] == first[1]);
        assert(text + decoded_lossy(rest) =~= seq![text[0]] + (more + decoded_lossy(rest)));
    }
}

} // verus!
