//! Text as a sequence of characters: lines, trimming, joining, decimal numbers.

use itertools::Itertools;
use vstd::prelude::*;
use vstd::utf8::{decode_utf8, encode_utf8, is_char_boundary, valid_utf8};

verus! {

/// `String::push` appends one character.
pub assume_specification[ String::push ](text: &mut String, c: char)
    ensures
        final(text)@ == old(text)@.push(c),
;

/// `std::str::from_utf8` gives the text that bytes encode, if they are UTF-8.
#[verifier::external_body]
fn utf8_text(bytes: &[u8]) -> (text: Option<&str>)
    ensures
        text is Some <==> valid_utf8(bytes@),
        text is Some ==> encode_utf8(text->0@) == bytes@,
{
    std::str::from_utf8(bytes).ok()
}

/// The text that bytes encode, if they are UTF-8.
pub fn decode_text(bytes: &[u8]) -> (text: Option<&str>)
    ensures
        text is Some <==> valid_utf8(bytes@),
        text is Some ==> text->0@ == decode_utf8(bytes@),
{
    let text = utf8_text(bytes);
    proof {
        if text is Some {
            vstd::utf8::encode_utf8_decode_utf8(text->0@);
        }
    }
    text
}

/// The UTF-8 bytes of a text.
pub fn encode_text(text: &str) -> (bytes: Vec<u8>)
    ensures
        bytes@ == encode_utf8(text@),
{
    vstd::slice::slice_to_vec(text.as_bytes())
}

/// The characters of a string.
pub fn chars_of(text: &str) -> (chars: Vec<char>)
    ensures
        chars@ == text@,
{
    let mut chars: Vec<char> = Vec::new();
    for c in it: text.chars()
        invariant
            chars@ == it.seq().take(it.index() as int),
            it.seq() == text@,
    {
        chars.push(c);
        assert(it.seq().take(it.index() as int + 1) =~= it.seq().take(it.index() as int).push(c));
    }
    assert(text@.take(text@.len() as int) =~= text@);
    chars
}

/// The string that holds `chars[from..to]`.
pub fn string_of(chars: &Vec<char>, from: usize, to: usize) -> (text: String)
    requires
        from <= to <= chars.len(),
    ensures
        text@ == chars@.subrange(from as int, to as int),
{
    let mut text = String::new();
    let mut i = from;
    while i < to
        invariant
            from <= i <= to <= chars.len(),
            text@ == chars@.subrange(from as int, i as int),
        decreases to - i,
    {
        text.push(chars[i]);
        i = i + 1;
        assert(chars@.subrange(from as int, i as int) =~= chars@.subrange(
            from as int,
            i - 1 as int,
        ).push(chars@[i - 1]));
    }
    text
}

/// Whether two strings hold the same characters.
pub fn same_text(a: &str, b: &str) -> (same: bool)
    ensures
        same == (a@ == b@),
{
    let left = chars_of(a);
    let right = chars_of(b);
    if left.len() != right.len() {
        return false;
    }
    let mut i: usize = 0;
    while i < left.len()
        invariant
            i <= left.len(),
            left.len() == right.len(),
            left@ == a@,
            right@ == b@,
            forall|k: int| 0 <= k < i ==> left@[k] == right@[k],
        decreases left.len() - i,
    {
        if left[i] != right[i] {
            return false;
        }
        i = i + 1;
    }
    assert(left@ =~= right@);
    true
}

// ---------------------------------------------------------------------------
// Parts of a text by bytes

/// A place where a text may be cut, seen from a place before it where it was cut.
pub proof fn lemma_boundary_after(bytes: Seq<u8>, from: int, at: int)
    requires
        valid_utf8(bytes),
        is_char_boundary(bytes, from),
        is_char_boundary(bytes, at),
        0 <= from <= at <= bytes.len(),
    ensures
        valid_utf8(bytes.subrange(from, bytes.len() as int)),
        is_char_boundary(bytes.subrange(from, bytes.len() as int), at - from),
{
    let rest = bytes.subrange(from, bytes.len() as int);
    vstd::utf8::valid_utf8_split(bytes, from);
    if at == bytes.len() {
        vstd::utf8::is_char_boundary_start_end_of_seq(rest);
    } else {
        vstd::utf8::is_char_boundary_iff_not_is_continuation_byte(bytes, at);
        vstd::utf8::is_char_boundary_iff_not_is_continuation_byte(rest, at - from);
        assert(rest[at - from] == bytes[at]);
    }
}

/// The characters of the bytes `from..to` of a text.
pub open spec fn byte_slice(text: Seq<char>, from: int, to: int) -> Seq<char> {
    decode_utf8(encode_utf8(text).subrange(from, to))
}

/// Whether a text may be cut at a place.
pub open spec fn cut_at(text: Seq<char>, at: int) -> bool {
    0 <= at <= encode_utf8(text).len() && is_char_boundary(encode_utf8(text), at)
}

/// Two parts of a text that follow each other make up the part that holds both.
pub proof fn lemma_byte_slice_split(text: Seq<char>, at: int, to: int)
    requires
        0 <= at <= to,
        cut_at(text, at),
        cut_at(text, to),
    ensures
        byte_slice(text, 0, to) == byte_slice(text, 0, at) + byte_slice(text, at, to),
{
    let bytes = encode_utf8(text);
    let front = bytes.subrange(0, to);
    vstd::utf8::encode_utf8_valid_utf8(text);
    vstd::utf8::valid_utf8_split(bytes, to);
    if at == to {
        vstd::utf8::is_char_boundary_start_end_of_seq(front);
    } else {
        vstd::utf8::is_char_boundary_iff_not_is_continuation_byte(bytes, at);
        vstd::utf8::is_char_boundary_iff_not_is_continuation_byte(front, at);
        assert(front[at] == bytes[at]);
    }
    vstd::utf8::decode_utf8_split(front, at);
    assert(front.subrange(0, at) =~= bytes.subrange(0, at));
    assert(front.subrange(at, front.len() as int) =~= bytes.subrange(at, to));
}

/// The part of a text from one byte to another.
pub fn text_slice(text: &str, from: usize, to: usize) -> (part: &str)
    requires
        from <= to,
        cut_at(text@, from as int),
        cut_at(text@, to as int),
    ensures
        part@ == byte_slice(text@, from as int, to as int),
{
    let ghost bytes = encode_utf8(text@);
    proof {
        vstd::utf8::encode_utf8_valid_utf8(text@);
        lemma_boundary_after(bytes, from as int, to as int);
    }
    let rest = text.split_at(from).1;
    assert(encode_utf8(rest@) =~= bytes.subrange(from as int, bytes.len() as int));
    let part = rest.split_at(to - from).0;
    assert(encode_utf8(part@) =~= bytes.subrange(from as int, to as int));
    proof {
        vstd::utf8::encode_utf8_decode_utf8(part@);
    }
    part
}

// ---------------------------------------------------------------------------
// Lines

/// Position of the first `c` in `s`, or the length of `s` where there is none.
pub open spec fn first_index(s: Seq<char>, c: char) -> int
    decreases s.len(),
{
    if s.len() == 0 || s[0] == c {
        0
    } else {
        1 + first_index(s.skip(1), c)
    }
}

/// `s` without one carriage return at its end.
pub open spec fn without_cr(s: Seq<char>) -> Seq<char> {
    if s.len() > 0 && s.last() == '\r' {
        s.drop_last()
    } else {
        s
    }
}

/// The lines of a text, as `str::lines` gives them: a line ends at a line feed
/// or at a carriage return and a line feed, and neither belongs to it. The
/// ending of the last line is optional, and a carriage return that no line feed
/// follows is part of its line.
pub open spec fn lines_of(s: Seq<char>) -> Seq<Seq<char>>
    decreases s.len(),
{
    let end = first_index(s, '\n');
    if s.len() == 0 {
        Seq::empty()
    } else if end < 0 || end >= s.len() {
        seq![s]
    } else {
        seq![without_cr(s.take(end))] + lines_of(s.skip(end + 1))
    }
}

/// The characters of each string of a list.
pub open spec fn texts(list: Seq<String>) -> Seq<Seq<char>> {
    list.map_values(|s: String| s@)
}

pub proof fn lemma_first_index(s: Seq<char>, c: char)
    ensures
        0 <= first_index(s, c) <= s.len(),
        forall|i: int| 0 <= i < first_index(s, c) ==> s[i] != c,
        first_index(s, c) < s.len() ==> s[first_index(s, c)] == c,
    decreases s.len(),
{
    if s.len() > 0 && s[0] != c {
        lemma_first_index(s.skip(1), c);
        assert forall|i: int| 0 <= i < first_index(s, c) implies s[i] != c by {
            if i > 0 {
                assert(s[i] == s.skip(1)[i - 1]);
            }
        }
    }
}

pub proof fn lemma_first_index_unique(s: Seq<char>, c: char, at: int)
    requires
        0 <= at <= s.len(),
        forall|i: int| 0 <= i < at ==> s[i] != c,
        at < s.len() ==> s[at] == c,
    ensures
        first_index(s, c) == at,
{
    lemma_first_index(s, c);
}

/// A line that ends in a line feed is the first line, and what follows the line
/// feed gives the others.
pub proof fn lemma_lines_of_prefix(line: Seq<char>, rest: Seq<char>)
    requires
        !line.contains('\n'),
    ensures
        lines_of(line + seq!['\n'] + rest) == seq![without_cr(line)] + lines_of(rest),
{
    let s = line + seq!['\n'] + rest;
    lemma_first_index_unique(s, '\n', line.len() as int);
    assert(s.take(line.len() as int) =~= line);
    assert(s.skip(line.len() as int + 1) =~= rest);
}

/// Text with no line feed in it is one line, unless it is empty.
pub proof fn lemma_lines_of_single(line: Seq<char>)
    requires
        !line.contains('\n'),
        line.len() > 0,
    ensures
        lines_of(line) == seq![line],
{
    lemma_first_index_unique(line, '\n', line.len() as int);
}

/// The lines of a text.
pub fn lines(text: &str) -> (list: Vec<String>)
    ensures
        texts(list@) == lines_of(text@),
{
    let chars = chars_of(text);
    let mut list: Vec<String> = Vec::new();
    let mut start: usize = 0;
    assert(chars@.skip(0) =~= chars@);
    assert(texts(list@) + lines_of(chars@) =~= lines_of(chars@));
    while start < chars.len()
        invariant
            start <= chars.len(),
            chars@ == text@,
            texts(list@) + lines_of(chars@.skip(start as int)) == lines_of(text@),
        decreases chars.len() - start,
    {
        let ghost rest = chars@.skip(start as int);
        let mut end: usize = start;
        while end < chars.len() && chars[end] != '\n'
            invariant
                start <= end <= chars.len(),
                forall|i: int| start <= i < end ==> chars@[i] != '\n',
            decreases chars.len() - end,
        {
            end = end + 1;
        }
        proof {
            lemma_first_index_unique(rest, '\n', end - start);
        }
        let ghost before = list@;
        if end == chars.len() {
            let line = string_of(&chars, start, end);
            assert(line@ =~= rest);
            list.push(line);
            start = end;
        } else {
            assert(rest.take(end - start) =~= chars@.subrange(start as int, end as int));
            let stop = if end > start && chars[end - 1] == '\r' {
                end - 1
            } else {
                end
            };
            let line = string_of(&chars, start, stop);
            assert(line@ =~= without_cr(rest.take(end - start)));
            list.push(line);
            assert(rest.skip(end - start + 1) =~= chars@.skip(end + 1));
            start = end + 1;
        }
        assert(texts(list@) =~= texts(before).push(list@.last()@));
        assert(lines_of(rest) == seq![list@.last()@] + lines_of(chars@.skip(start as int)));
        assert(texts(list@) + lines_of(chars@.skip(start as int)) =~= texts(before) + lines_of(
            rest,
        ));
    }
    assert(texts(list@) + lines_of(chars@.skip(start as int)) =~= texts(list@));
    list
}

// ---------------------------------------------------------------------------
// Splitting

/// The pieces of a text between the occurrences of a character, empty ones among
/// them, as `str::split` gives them. There is always one.
pub open spec fn split_at(s: Seq<char>, sep: char) -> Seq<Seq<char>>
    decreases s.len(),
{
    let end = first_index(s, sep);
    if end < 0 || end >= s.len() {
        seq![s]
    } else {
        seq![s.take(end)] + split_at(s.skip(end + 1), sep)
    }
}

/// The pieces of a text between the occurrences of a character.
pub fn split(text: &str, sep: char) -> (pieces: Vec<String>)
    ensures
        texts(pieces@) == split_at(text@, sep),
{
    let chars = chars_of(text);
    let mut pieces: Vec<String> = Vec::new();
    let mut start: usize = 0;
    assert(chars@.skip(0) =~= chars@);
    assert(texts(pieces@) + split_at(chars@, sep) =~= split_at(chars@, sep));
    loop
        invariant
            start <= chars.len(),
            chars@ == text@,
            texts(pieces@) + split_at(chars@.skip(start as int), sep) == split_at(text@, sep),
        decreases chars.len() - start,
    {
        let ghost rest = chars@.skip(start as int);
        let mut end: usize = start;
        while end < chars.len() && chars[end] != sep
            invariant
                start <= end <= chars.len(),
                forall|i: int| start <= i < end ==> chars@[i] != sep,
            decreases chars.len() - end,
        {
            end = end + 1;
        }
        proof {
            lemma_first_index_unique(rest, sep, end - start);
        }
        let ghost before = pieces@;
        let piece = string_of(&chars, start, end);
        assert(piece@ =~= rest.take(end - start));
        pieces.push(piece);
        assert(texts(pieces@) =~= texts(before).push(piece@));
        if end == chars.len() {
            assert(rest.take(end - start) =~= rest);
            assert(texts(pieces@) =~= texts(before) + split_at(rest, sep));
            return pieces;
        }
        assert(rest.skip(end - start + 1) =~= chars@.skip(end + 1));
        start = end + 1;
        assert(texts(pieces@) + split_at(chars@.skip(start as int), sep) =~= texts(before)
            + split_at(rest, sep));
    }
}

/// Parts that were joined by a character that none of them holds come apart again.
pub proof fn lemma_split_joined(parts: Seq<Seq<char>>, sep: char)
    requires
        parts.len() > 0,
        forall|i: int| 0 <= i < parts.len() ==> !(#[trigger] parts[i]).contains(sep),
    ensures
        split_at(joined(parts, seq![sep]), sep) == parts,
    decreases parts.len(),
{
    let first = parts[0];
    assert(!parts[0].contains(sep));
    assert forall|i: int| 0 <= i < first.len() implies first[i] != sep by {}
    if parts.len() == 1 {
        lemma_first_index_unique(first, sep, first.len() as int);
        assert(parts =~= seq![first]);
    } else {
        let rest = parts.skip(1);
        assert forall|i: int| 0 <= i < rest.len() implies !(#[trigger] rest[i]).contains(sep) by {
            assert(rest[i] == parts[i + 1]);
        }
        lemma_split_joined(rest, sep);
        lemma_joined_front(parts, seq![sep]);
        let whole = first + seq![sep] + joined(rest, seq![sep]);
        lemma_first_index_unique(whole, sep, first.len() as int);
        assert(whole.take(first.len() as int) =~= first);
        assert(whole.skip(first.len() as int + 1) =~= joined(rest, seq![sep]));
        assert(parts =~= seq![first] + rest);
    }
}

// ---------------------------------------------------------------------------
// Decimal numbers

pub open spec fn digit_char(d: nat) -> char {
    ('0' as u32 + d) as char
}

/// A number in decimal digits, without leading zeros.
pub open spec fn decimal(n: nat) -> Seq<char>
    decreases n,
{
    if n < 10 {
        seq![digit_char(n)]
    } else {
        decimal(n / 10).push(digit_char(n % 10))
    }
}

fn decimal_chars(n: u64) -> (chars: Vec<char>)
    ensures
        chars@ == decimal(n as nat),
    decreases n,
{
    let mut chars: Vec<char> = if n < 10 {
        Vec::new()
    } else {
        decimal_chars(n / 10)
    };
    let digit: u8 = (n % 10) as u8;
    chars.push((48 + digit) as char);
    chars
}

/// `n` in decimal digits.
pub fn decimal_string(n: u64) -> (text: String)
    ensures
        text@ == decimal(n as nat),
{
    let chars = decimal_chars(n);
    let text = string_of(&chars, 0, chars.len());
    assert(chars@.subrange(0, chars@.len() as int) =~= chars@);
    text
}

pub open spec fn is_digit(c: char) -> bool {
    '0' <= c <= '9'
}

pub open spec fn all_digits(s: Seq<char>) -> bool {
    forall|i: int| 0 <= i < s.len() ==> is_digit(#[trigger] s[i])
}

/// The number that decimal digits write.
pub open spec fn digits_value(s: Seq<char>) -> nat
    decreases s.len(),
{
    if s.len() == 0 {
        0
    } else {
        digits_value(s.drop_last()) * 10 + (s.last() as nat - '0' as nat) as nat
    }
}

/// `s` without one plus sign in front.
pub open spec fn without_plus(s: Seq<char>) -> Seq<char> {
    if s.len() > 0 && s[0] == '+' {
        s.skip(1)
    } else {
        s
    }
}

/// What `str::parse::<u64>` reads: an optional plus sign, then digits only, at
/// least one of them, for a number that fits.
pub open spec fn parsed_u64(s: Seq<char>) -> Option<u64> {
    let digits = without_plus(s);
    if digits.len() > 0 && all_digits(digits) && digits_value(digits) <= u64::MAX {
        Some(digits_value(digits) as u64)
    } else {
        None
    }
}

proof fn lemma_digits_value_prefix(s: Seq<char>, n: int)
    requires
        all_digits(s),
        0 <= n <= s.len(),
    ensures
        digits_value(s.take(n)) <= digits_value(s),
    decreases s.len() - n,
{
    if n == s.len() {
        assert(s.take(n) =~= s);
    } else {
        lemma_digits_value_prefix(s, n + 1);
        assert(s.take(n + 1).drop_last() =~= s.take(n));
        assert(is_digit(s[n]));
    }
}

/// Reads an unsigned number in decimal digits.
pub fn parse_u64(text: &str) -> (number: Option<u64>)
    ensures
        number == parsed_u64(text@),
{
    let chars = chars_of(text);
    let start: usize = if chars.len() > 0 && chars[0] == '+' {
        1
    } else {
        0
    };
    let ghost digits = without_plus(text@);
    assert(digits =~= chars@.skip(start as int));
    if start == chars.len() {
        return None;
    }
    let mut value: u64 = 0;
    let mut i: usize = start;
    while i < chars.len()
        invariant
            start <= i <= chars.len(),
            start < chars.len(),
            digits == without_plus(text@),
            digits == chars@.skip(start as int),
            all_digits(digits.take(i - start)),
            value == digits_value(digits.take(i - start)),
        decreases chars.len() - i,
    {
        let c = chars[i];
        assert(digits[i - start] == c);
        if !('0' <= c && c <= '9') {
            assert(!is_digit(digits[i - start]));
            return None;
        }
        let digit: u64 = (c as u32 - 48) as u64;
        let ghost next = digits.take(i - start + 1);
        proof {
            assert(next.drop_last() =~= digits.take(i - start));
            assert(next.last() == c);
            assert(digits_value(next) == digits_value(digits.take(i - start)) * 10 + digit);
            if all_digits(digits) {
                lemma_digits_value_prefix(digits, i - start + 1);
            }
        }
        if value > (u64::MAX - digit) / 10 {
            return None;
        }
        value = value * 10 + digit;
        i = i + 1;
        assert forall|k: int| 0 <= k < next.len() implies is_digit(#[trigger] next[k]) by {
            if k < next.len() - 1 {
                assert(next[k] == digits.take(i - 1 - start)[k]);
            }
        }
    }
    assert(digits.take(i - start) =~= digits);
    Some(value)
}

/// Digits written by [`decimal_string`] read back as the number.
pub proof fn lemma_decimal_reads_back(n: u64)
    ensures
        parsed_u64(decimal(n as nat)) == Some(n),
{
    lemma_decimal_value(n as nat);
    assert(is_digit(decimal(n as nat)[0]));
}

pub proof fn lemma_decimal_value(n: nat)
    ensures
        decimal(n).len() > 0,
        all_digits(decimal(n)),
        digits_value(decimal(n)) == n,
    decreases n,
{
    if n < 10 {
        assert(decimal(n).drop_last() =~= Seq::empty());
        assert(digits_value(Seq::empty()) == 0);
    } else {
        lemma_decimal_value(n / 10);
        assert(decimal(n).drop_last() =~= decimal(n / 10));
        let shorter = decimal(n / 10);
        assert forall|k: int| 0 <= k < decimal(n).len() implies is_digit(
            #[trigger] decimal(n)[k],
        ) by {
            if k < shorter.len() {
                assert(is_digit(shorter[k]));
            }
        }
    }
}

// ---------------------------------------------------------------------------
// Trimming and comparing

/// Whether a character has the Unicode property White_Space.
pub open spec fn white_space(c: char) -> bool {
    ||| '\u{9}' <= c <= '\u{d}'
    ||| c == ' '
    ||| c == '\u{85}'
    ||| c == '\u{a0}'
    ||| c == '\u{1680}'
    ||| '\u{2000}' <= c <= '\u{200a}'
    ||| c == '\u{2028}'
    ||| c == '\u{2029}'
    ||| c == '\u{202f}'
    ||| c == '\u{205f}'
    ||| c == '\u{3000}'
}

fn is_white_space(c: char) -> (white: bool)
    ensures
        white == white_space(c),
{
    ('\u{9}' <= c && c <= '\u{d}') || c == ' ' || c == '\u{85}' || c == '\u{a0}' || c == '\u{1680}'
        || ('\u{2000}' <= c && c <= '\u{200a}') || c == '\u{2028}' || c == '\u{2029}' || c
        == '\u{202f}' || c == '\u{205f}' || c == '\u{3000}'
}

pub open spec fn trimmed_start(s: Seq<char>) -> Seq<char>
    decreases s.len(),
{
    if s.len() > 0 && white_space(s[0]) {
        trimmed_start(s.skip(1))
    } else {
        s
    }
}

pub open spec fn trimmed_end(s: Seq<char>) -> Seq<char>
    decreases s.len(),
{
    if s.len() > 0 && white_space(s.last()) {
        trimmed_end(s.drop_last())
    } else {
        s
    }
}

/// `s` without the white space at its two ends.
pub open spec fn trimmed(s: Seq<char>) -> Seq<char> {
    trimmed_end(trimmed_start(s))
}

/// A text without the white space at its two ends.
pub fn trim(text: &str) -> (inner: String)
    ensures
        inner@ == trimmed(text@),
{
    let chars = chars_of(text);
    let mut from: usize = 0;
    assert(chars@.skip(0) =~= chars@);
    while from < chars.len() && is_white_space(chars[from])
        invariant
            from <= chars.len(),
            chars@ == text@,
            trimmed_start(chars@.skip(from as int)) == trimmed_start(text@),
        decreases chars.len() - from,
    {
        assert(chars@.skip(from as int).skip(1) =~= chars@.skip(from + 1));
        from = from + 1;
    }
    let mut to: usize = chars.len();
    assert(chars@.subrange(from as int, to as int) =~= chars@.skip(from as int));
    while from < to && is_white_space(chars[to - 1])
        invariant
            from <= to <= chars.len(),
            chars@ == text@,
            trimmed_end(chars@.subrange(from as int, to as int)) == trimmed(text@),
        decreases to,
    {
        assert(chars@.subrange(from as int, to as int).drop_last() =~= chars@.subrange(
            from as int,
            to - 1,
        ));
        to = to - 1;
    }
    string_of(&chars, from, to)
}

/// An ASCII capital letter in lower case; any other character as it is.
pub open spec fn ascii_lower(c: char) -> char {
    if 'A' <= c <= 'Z' {
        (c as u32 + 32) as char
    } else {
        c
    }
}

pub open spec fn ascii_lowered(s: Seq<char>) -> Seq<char> {
    s.map_values(|c: char| ascii_lower(c))
}

fn to_ascii_lower(c: char) -> (lower: char)
    ensures
        lower == ascii_lower(c),
{
    if 'A' <= c && c <= 'Z' {
        (c as u8 + 32) as char
    } else {
        c
    }
}

/// Whether two texts are the same but for the case of ASCII letters.
pub fn same_ignoring_ascii_case(a: &str, b: &str) -> (same: bool)
    ensures
        same == (ascii_lowered(a@) == ascii_lowered(b@)),
{
    let left = chars_of(a);
    let right = chars_of(b);
    if left.len() != right.len() {
        assert(ascii_lowered(a@).len() != ascii_lowered(b@).len());
        return false;
    }
    let mut i: usize = 0;
    while i < left.len()
        invariant
            i <= left.len(),
            left.len() == right.len(),
            left@ == a@,
            right@ == b@,
            forall|k: int| 0 <= k < i ==> ascii_lower(left@[k]) == ascii_lower(right@[k]),
        decreases left.len() - i,
    {
        if to_ascii_lower(left[i]) != to_ascii_lower(right[i]) {
            assert(ascii_lowered(a@)[i as int] != ascii_lowered(b@)[i as int]);
            return false;
        }
        i = i + 1;
    }
    assert(ascii_lowered(a@) =~= ascii_lowered(b@));
    true
}

// ---------------------------------------------------------------------------
// Joining

/// The parts in order, with `sep` between each two of them.
pub open spec fn joined(parts: Seq<Seq<char>>, sep: Seq<char>) -> Seq<char>
    decreases parts.len(),
{
    if parts.len() == 0 {
        Seq::empty()
    } else if parts.len() == 1 {
        parts[0]
    } else {
        joined(parts.drop_last(), sep) + sep + parts.last()
    }
}

/// Joining can be read from the front as well: the first part, then `sep` and
/// the others joined.
pub proof fn lemma_joined_front(parts: Seq<Seq<char>>, sep: Seq<char>)
    requires
        parts.len() > 1,
    ensures
        joined(parts, sep) == parts[0] + sep + joined(parts.skip(1), sep),
    decreases parts.len(),
{
    if parts.len() == 2 {
        assert(joined(parts.drop_last(), sep) == parts[0]);
        assert(joined(parts.skip(1), sep) == parts[1]);
    } else {
        lemma_joined_front(parts.drop_last(), sep);
        assert(parts.drop_last().skip(1) =~= parts.skip(1).drop_last());
        assert(parts.skip(1).last() == parts.last());
        assert(joined(parts, sep) =~= parts[0] + sep + (joined(parts.skip(1).drop_last(), sep) + sep
            + parts.last()));
    }
}

/// `itertools::Itertools::join` writes every item of the iterator, in order,
/// with the separator between each two of them.
#[verifier::external_body]
pub(crate) fn join(parts: &Vec<String>, sep: &str) -> (text: String)
    ensures
        text@ == joined(texts(parts@), sep@),
{
    Itertools::join(&mut parts.iter(), sep)
}

/// Trimming takes the white space at both ends of a text, all of it and nothing else.
pub proof fn law_trimming_takes_white_space_only(
    before: Seq<char>,
    word: Seq<char>,
    behind: Seq<char>,
)
    requires
        forall|i: int| 0 <= i < before.len() ==> white_space(#[trigger] before[i]),
        forall|i: int| 0 <= i < behind.len() ==> white_space(#[trigger] behind[i]),
        word.len() > 0 ==> !white_space(word[0]) && !white_space(word.last()),
    ensures
        trimmed(before + word + behind) == word,
    decreases before.len() + behind.len(),
{
    let whole = before + word + behind;
    if word.len() == 0 {
        assert forall|i: int| 0 <= i < whole.len() implies white_space(#[trigger] whole[i]) by {
            if i >= before.len() {
                assert(whole[i] == behind[i - before.len()]);
            } else {
                assert(whole[i] == before[i]);
            }
        }
        lemma_all_white(whole);
        assert(trimmed(whole) =~= word);
    } else {
        lemma_trimmed_start(before, word + behind);
        assert(whole =~= before + (word + behind));
        lemma_trimmed_end(word, behind);
    }
}

proof fn lemma_all_white(s: Seq<char>)
    requires
        forall|i: int| 0 <= i < s.len() ==> white_space(#[trigger] s[i]),
    ensures
        trimmed_start(s) == Seq::<char>::empty(),
    decreases s.len(),
{
    if s.len() > 0 {
        assert(white_space(s[0]));
        let rest = s.skip(1);
        assert forall|i: int| 0 <= i < rest.len() implies white_space(#[trigger] rest[i]) by {
            assert(rest[i] == s[i + 1]);
        }
        lemma_all_white(rest);
    } else {
        assert(trimmed_start(s) =~= Seq::<char>::empty());
    }
}

proof fn lemma_trimmed_start(before: Seq<char>, rest: Seq<char>)
    requires
        forall|i: int| 0 <= i < before.len() ==> white_space(#[trigger] before[i]),
        rest.len() > 0,
        !white_space(rest[0]),
    ensures
        trimmed_start(before + rest) == rest,
    decreases before.len(),
{
    let whole = before + rest;
    if before.len() == 0 {
        assert(whole =~= rest);
    } else {
        let less = before.skip(1);
        assert(whole[0] == before[0]);
        assert forall|i: int| 0 <= i < less.len() implies white_space(#[trigger] less[i]) by {
            assert(less[i] == before[i + 1]);
        }
        lemma_trimmed_start(less, rest);
        assert(whole.skip(1) =~= less + rest);
    }
}

proof fn lemma_trimmed_end(word: Seq<char>, behind: Seq<char>)
    requires
        forall|i: int| 0 <= i < behind.len() ==> white_space(#[trigger] behind[i]),
        word.len() > 0,
        !white_space(word.last()),
    ensures
        trimmed_end(word + behind) == word,
    decreases behind.len(),
{
    let whole = word + behind;
    if behind.len() == 0 {
        assert(whole =~= word);
    } else {
        assert(whole.last() == behind[behind.len() - 1]);
        lemma_trimmed_end(word, behind.drop_last());
        assert(whole.drop_last() =~= word + behind.drop_last());
    }
}

/// Every text is a word with white space around it, and the word is what trimming leaves: its
/// own ends are not white space.
pub proof fn law_trimmed_texts_have_no_white_space_around(s: Seq<char>)
    ensures
        trimmed(s).len() > 0 ==> !white_space(trimmed(s)[0]) && !white_space(trimmed(s).last()),
        trimmed(s).len() <= s.len(),
        trimmed(trimmed(s)) == trimmed(s),
{
    lemma_trimmed_start_ends(s);
    lemma_trimmed_end_ends(trimmed_start(s));
    let word = trimmed(s);
    let none = Seq::<char>::empty();
    law_trimming_takes_white_space_only(none, word, none);
    assert(none + word + none =~= word);
}

proof fn lemma_trimmed_start_ends(s: Seq<char>)
    ensures
        trimmed_start(s).len() <= s.len(),
        trimmed_start(s).len() > 0 ==> !white_space(trimmed_start(s)[0]),
    decreases s.len(),
{
    if s.len() > 0 && white_space(s[0]) {
        lemma_trimmed_start_ends(s.skip(1));
    }
}

proof fn lemma_trimmed_end_ends(s: Seq<char>)
    ensures
        trimmed_end(s).len() <= s.len(),
        trimmed_end(s).len() > 0 ==> !white_space(trimmed_end(s).last()) && trimmed_end(s)[0]
            == s[0],
    decreases s.len(),
{
    if s.len() > 0 && white_space(s.last()) {
        lemma_trimmed_end_ends(s.drop_last());
    }
}

/// A line ends at a line feed, with or without a carriage return before it, neither of which
/// belongs to the line. The last line needs no ending; without one, a carriage return at its end
/// belongs to it. Nothing is no line.
pub proof fn law_lines_end_at_line_feeds(line: Seq<char>, rest: Seq<char>)
    requires
        !line.contains('\n'),
    ensures
        lines_of(line + seq!['\r', '\n'] + rest) == seq![line] + lines_of(rest),
        line.len() == 0 || line.last() != '\r' ==> lines_of(line + seq!['\n'] + rest) == seq![line]
            + lines_of(rest),
        line.len() > 0 ==> lines_of(line) == seq![line],
        lines_of(Seq::<char>::empty()).len() == 0,
{
    let longer = line.push('\r');
    assert(!longer.contains('\n')) by {
        assert forall|i: int| 0 <= i < longer.len() implies longer[i] != '\n' by {
            if i < line.len() {
                assert(longer[i] == line[i]);
            }
        }
    }
    lemma_lines_of_prefix(longer, rest);
    assert(longer + seq!['\n'] + rest =~= line + seq!['\r', '\n'] + rest);
    assert(longer.drop_last() =~= line);
    lemma_lines_of_prefix(line, rest);
    if line.len() > 0 {
        lemma_lines_of_single(line);
    }
}

/// The pieces of a text hold no separator, and joined by it they are the text again.
pub proof fn law_pieces_joined_are_the_text(s: Seq<char>, sep: char)
    ensures
        split_at(s, sep).len() > 0,
        joined(split_at(s, sep), seq![sep]) == s,
        forall|i: int|
            0 <= i < split_at(s, sep).len() ==> !(#[trigger] split_at(s, sep)[i]).contains(sep),
    decreases s.len(),
{
    let end = first_index(s, sep);
    let pieces = split_at(s, sep);
    lemma_first_index(s, sep);
    if end < s.len() {
        let rest = s.skip(end + 1);
        law_pieces_joined_are_the_text(rest, sep);
        let others = split_at(rest, sep);
        assert(pieces.skip(1) =~= others);
        lemma_joined_front(pieces, seq![sep]);
        assert(s =~= s.take(end) + seq![sep] + rest);
        assert forall|i: int| 0 <= i < pieces.len() implies !(#[trigger] pieces[i]).contains(
            sep,
        ) by {
            if i > 0 {
                assert(pieces[i] == others[i - 1]);
            }
        }
    } else {
        assert(!s.contains(sep)) by {
            assert forall|i: int| 0 <= i < s.len() implies s[i] != sep by {}
        }
    }
}

/// Joined parts come in their order, with the separator between each two of them and nowhere
/// else.
pub proof fn law_joined_parts_have_the_separator_between(
    parts: Seq<Seq<char>>,
    part: Seq<char>,
    sep: Seq<char>,
)
    ensures
        joined(Seq::<Seq<char>>::empty(), sep).len() == 0,
        joined(seq![part], sep) == part,
        parts.len() > 0 ==> joined(parts.push(part), sep) == joined(parts, sep) + sep + part,
        parts.len() > 0 ==> joined(seq![part] + parts, sep) == part + sep + joined(parts, sep),
{
    assert(parts.push(part).drop_last() =~= parts);
    if parts.len() > 0 {
        let all = seq![part] + parts;
        lemma_joined_front(all, sep);
        assert(all.skip(1) =~= parts);
    }
}

/// A number is written from its most significant digit to its least significant one: ten times a
/// number and a digit is written as the number and then the digit, and a digit as itself. No
/// number but zero begins with a zero.
pub proof fn law_numbers_are_written_digit_by_digit(n: nat, digit: nat)
    requires
        digit < 10,
    ensures
        decimal(digit) == seq![digit_char(digit)],
        n > 0 ==> decimal(n * 10 + digit) == decimal(n).push(digit_char(digit)),
        decimal(n)[0] == '0' <==> n == 0,
        digit_char(digit) as int == '0' as int + digit,
    decreases n,
{
    if n > 0 {
        assert((n * 10 + digit) / 10 == n && (n * 10 + digit) % 10 == digit);
    }
    if n >= 10 {
        law_numbers_are_written_digit_by_digit(n / 10, digit);
        lemma_decimal_value(n / 10);
        assert(decimal(n)[0] == decimal(n / 10)[0]);
    }
}

/// A number is read from its digits, with a plus sign before them or without, and with any number
/// of zeros before them. Nothing else is a number, and neither is what is too large.
pub proof fn law_numbers_are_read_from_their_digits(n: u64, s: Seq<char>)
    ensures
        parsed_u64(decimal(n as nat)) == Some(n),
        parsed_u64(seq!['+'] + decimal(n as nat)) == Some(n),
        all_digits(s) && s.len() > 0 ==> parsed_u64(seq!['0'] + s) == parsed_u64(s),
        all_digits(s) && s.len() > 0 ==> parsed_u64(seq!['+'] + s) == parsed_u64(s),
        parsed_u64(s) is Some ==> s.len() > 0 && (s[0] == '+' || is_digit(s[0])) && forall|i: int|
            0 < i < s.len() ==> is_digit(#[trigger] s[i]),
        parsed_u64(s) is Some ==> s.len() > 1 || is_digit(s[0]),
        parsed_u64(decimal(n as nat + 0x1_0000_0000_0000_0000)) is None,
{
    lemma_decimal_reads_back(n);
    lemma_decimal_value(n as nat);
    lemma_decimal_value(n as nat + 0x1_0000_0000_0000_0000);
    let signed = seq!['+'] + decimal(n as nat);
    assert(signed.skip(1) =~= decimal(n as nat));
    let large = decimal(n as nat + 0x1_0000_0000_0000_0000);
    assert(is_digit(large[0]));
    if all_digits(s) && s.len() > 0 {
        let padded = seq!['0'] + s;
        assert((seq!['+'] + s).skip(1) =~= s);
        assert(is_digit(s[0]));
        assert forall|i: int| 0 <= i < padded.len() implies is_digit(#[trigger] padded[i]) by {
            if i > 0 {
                assert(padded[i] == s[i - 1]);
            }
        }
        lemma_leading_zero(s);
    }
    if parsed_u64(s) is Some {
        let digits = without_plus(s);
        assert(is_digit(digits[0]));
        assert forall|i: int| 0 < i < s.len() implies is_digit(#[trigger] s[i]) by {
            if s[0] == '+' {
                assert(digits[i - 1] == s[i]);
            } else {
                assert(digits[i] == s[i]);
            }
        }
    }
}

proof fn lemma_leading_zero(s: Seq<char>)
    ensures
        digits_value(seq!['0'] + s) == digits_value(s),
    decreases s.len(),
{
    let padded = seq!['0'] + s;
    if s.len() == 0 {
        assert(padded.drop_last() =~= Seq::empty());
        assert(digits_value(padded.drop_last()) == 0);
    } else {
        lemma_leading_zero(s.drop_last());
        assert(padded.drop_last() =~= seq!['0'] + s.drop_last());
    }
}

/// Lower case changes the capital letters of ASCII to the letters 32 places further on, and
/// nothing else.
pub proof fn law_lower_case_changes_capital_letters_only(s: Seq<char>, i: int)
    requires
        0 <= i < s.len(),
    ensures
        ascii_lowered(s).len() == s.len(),
        'A' <= s[i] <= 'Z' ==> ascii_lowered(s)[i] as int == s[i] as int + 32,
        !('A' <= s[i] <= 'Z') ==> ascii_lowered(s)[i] == s[i],
{
}

/// Of the characters of ASCII, the space and those that move on along the line or to another one
/// are white space, and no other is; no printing character is. Beyond ASCII there are the spaces
/// that do not break and those of other widths.
pub proof fn law_white_space_is_what_prints_nothing(c: char)
    ensures
        c <= '\u{7f}' ==> (white_space(c) <==> c == ' ' || c == '\t' || c == '\n' || c == '\u{b}'
            || c == '\u{c}' || c == '\r'),
        '\u{2000}' <= c <= '\u{200a}' || c == '\u{a0}' || c == '\u{202f}' || c == '\u{3000}'
            ==> white_space(c),
        c == '\u{85}' || c == '\u{2028}' || c == '\u{2029}' ==> white_space(c),
        c > '\u{3000}' ==> !white_space(c),
{
}

} // verus!
