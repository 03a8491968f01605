//! Text as sequences of characters: conversion to and from strings, and the
//! few operations on them that the calendar's parsers need.

use vstd::prelude::*;

verus! {

/// The characters of `s`, in order.
pub fn chars_of(s: &str) -> (chars: Vec<char>)
    ensures
        chars@ == s@,
{
    let mut chars: Vec<char> = Vec::new();
    for c in it: s.chars()
        invariant
            it.seq() == s@,
            chars@ == it.seq().take(it.index() as int),
    {
        chars.push(c);
    }
    chars
}

/// What `str::to_lowercase` returns for a text: its lowercase form under the
/// Unicode case mapping.
pub uninterp spec fn lowercase_of(text: Seq<char>) -> Seq<char>;

/// Whether a character beyond U+007F has the Unicode property `White_Space`.
pub uninterp spec fn wide_white_space(c: char) -> bool;

/// Whether a character has the Unicode property `White_Space`. Up to U+007F
/// these are the space and the characters U+0009 to U+000D: tabulator, line
/// feed, vertical tabulator, form feed and carriage return.
pub open spec fn white_space(c: char) -> bool {
    if c <= '\u{7f}' {
        c == ' ' || '\u{9}' <= c <= '\u{d}'
    } else {
        wide_white_space(c)
    }
}

/// Whether a character is alphabetic or numeric under Unicode.
pub uninterp spec fn alphanumeric(c: char) -> bool;

/// `String::push` appends one character to the end of the string.
pub assume_specification[ String::push ](s: &mut String, c: char)
    ensures
        final(s)@ == old(s)@.push(c),
;

/// `str::to_lowercase` returns the lowercase form of the text; the result
/// depends on the characters alone.
pub assume_specification[ str::to_lowercase ](s: &str) -> (lowered: String)
    ensures
        lowered@ == lowercase_of(s@),
;

/// `char::is_whitespace` tells whether the character has the property
/// `White_Space` of the Unicode character database. The contract writes the
/// property out for the characters up to U+007F, where it holds of the space
/// and of U+0009 to U+000D, and names it for the others.
pub assume_specification[ char::is_whitespace ](c: char) -> (white: bool)
    ensures
        white == (if c <= '\u{7f}' {
            c == ' ' || '\u{9}' <= c <= '\u{d}'
        } else {
            wide_white_space(c)
        }),
;

/// `char::is_alphanumeric` tells whether the character is alphabetic or
/// numeric.
pub assume_specification[ char::is_alphanumeric ](c: char) -> (found: bool)
    ensures
        found == alphanumeric(c),
;

/// The string made of `chars`, in order.
pub fn string_of(chars: &Vec<char>) -> (s: String)
    ensures
        s@ == chars@,
{
    let mut s = String::new();
    let mut i: usize = 0;
    while i < chars.len()
        invariant
            i <= chars.len(),
            s@ == chars@.take(i as int),
        decreases chars.len() - i,
    {
        s.push(chars[i]);
        i += 1;
        assert(chars@.take(i as int) == chars@.take(i - 1).push(chars@[i - 1]));
    }
    assert(chars@.take(chars.len() as int) == chars@);
    s
}

/// `text` without the white space at its start.
pub open spec fn trim_start(text: Seq<char>) -> Seq<char>
    decreases text.len(),
{
    if text.len() > 0 && white_space(text[0]) {
        trim_start(text.drop_first())
    } else {
        text
    }
}

/// `text` without the white space at its end.
pub open spec fn trim_end(text: Seq<char>) -> Seq<char>
    decreases text.len(),
{
    if text.len() > 0 && white_space(text.last()) {
        trim_end(text.drop_last())
    } else {
        text
    }
}

/// `text` without the white space at either end.
pub open spec fn trimmed(text: Seq<char>) -> Seq<char> {
    trim_end(trim_start(text))
}

/// A text that neither begins nor ends with white space stays as it is when
/// it is trimmed.
pub proof fn lemma_trimmed_unchanged(text: Seq<char>)
    requires
        text.len() > 0 ==> !white_space(text[0]) && !white_space(text.last()),
    ensures
        trimmed(text) == text,
{
}

/// The characters of `text` from `from` up to `to`.
pub fn slice_of(text: &Vec<char>, from: usize, to: usize) -> (part: Vec<char>)
    requires
        from <= to <= text.len(),
    ensures
        part@ == text@.subrange(from as int, to as int),
{
    let mut part: Vec<char> = Vec::new();
    let mut i: usize = from;
    while i < to
        invariant
            from <= i <= to <= text.len(),
            part@ == text@.subrange(from as int, i as int),
        decreases to - i,
    {
        part.push(text[i]);
        i += 1;
        assert(text@.subrange(from as int, i as int) == text@.subrange(from as int, i - 1).push(
            text@[i - 1],
        ));
    }
    part
}

/// `text` without the white space at either end.
pub fn trim(text: &Vec<char>) -> (inner: Vec<char>)
    ensures
        inner@ == trimmed(text@),
{
    let mut from: usize = 0;
    assert(text@.skip(0) == text@);
    while from < text.len() && text[from].is_whitespace()
        invariant
            from <= text.len(),
            trim_start(text@) == trim_start(text@.skip(from as int)),
        decreases text.len() - from,
    {
        assert(text@.skip(from as int).drop_first() == text@.skip(from + 1));
        from += 1;
    }
    assert(text@.skip(from as int) == text@.subrange(from as int, text.len() as int));
    let mut to: usize = text.len();
    while to > from && text[to - 1].is_whitespace()
        invariant
            from <= to <= text.len(),
            trimmed(text@) == trim_end(text@.subrange(from as int, to as int)),
        decreases to,
    {
        assert(text@.subrange(from as int, to as int).drop_last() == text@.subrange(
            from as int,
            to - 1,
        ));
        to -= 1;
    }
    slice_of(text, from, to)
}

/// `text` without the run of `c` at its start.
pub open spec fn without_leading(text: Seq<char>, c: char) -> Seq<char>
    decreases text.len(),
{
    if text.len() > 0 && text[0] == c {
        without_leading(text.drop_first(), c)
    } else {
        text
    }
}

/// `text` without the run of `c` at its end.
pub open spec fn without_trailing(text: Seq<char>, c: char) -> Seq<char>
    decreases text.len(),
{
    if text.len() > 0 && text.last() == c {
        without_trailing(text.drop_last(), c)
    } else {
        text
    }
}

/// `text` without the runs of `c` at its start and at its end.
pub fn strip_char(text: &Vec<char>, c: char) -> (inner: Vec<char>)
    ensures
        inner@ == without_trailing(without_leading(text@, c), c),
{
    let mut from: usize = 0;
    assert(text@.skip(0) == text@);
    while from < text.len() && text[from] == c
        invariant
            from <= text.len(),
            without_leading(text@, c) == without_leading(text@.skip(from as int), c),
        decreases text.len() - from,
    {
        assert(text@.skip(from as int).drop_first() == text@.skip(from + 1));
        from += 1;
    }
    assert(text@.skip(from as int) == text@.subrange(from as int, text.len() as int));
    let mut to: usize = text.len();
    while to > from && text[to - 1] == c
        invariant
            from <= to <= text.len(),
            without_trailing(without_leading(text@, c), c) == without_trailing(
                text@.subrange(from as int, to as int),
                c,
            ),
        decreases to,
    {
        assert(text@.subrange(from as int, to as int).drop_last() == text@.subrange(
            from as int,
            to - 1,
        ));
        to -= 1;
    }
    slice_of(text, from, to)
}

/// `text` with each run of `c` reduced to a single `c`: a `c` is left out
/// where the character before it is `c` too.
pub open spec fn collapsed(text: Seq<char>, c: char) -> Seq<char>
    decreases text.len(),
{
    if text.len() == 0 {
        text
    } else if text.last() == c && text.len() >= 2 && text[text.len() - 2] == c {
        collapsed(text.drop_last(), c)
    } else {
        collapsed(text.drop_last(), c).push(text.last())
    }
}

/// `text` with each run of `c` reduced to a single `c`.
pub fn collapse_runs(text: &Vec<char>, c: char) -> (short: Vec<char>)
    ensures
        short@ == collapsed(text@, c),
{
    let mut short: Vec<char> = Vec::new();
    let mut i: usize = 0;
    assert(text@.take(0) =~= Seq::<char>::empty());
    while i < text.len()
        invariant
            i <= text.len(),
            short@ == collapsed(text@.take(i as int), c),
        decreases text.len() - i,
    {
        let ghost next = text@.take(i + 1);
        assert(next.drop_last() == text@.take(i as int));
        assert(next.last() == text@[i as int]);
        if !(text[i] == c && i > 0 && text[i - 1] == c) {
            short.push(text[i]);
        }
        i += 1;
    }
    assert(text@.take(text.len() as int) == text@);
    short
}

/// The number of bytes that a character takes in UTF-8.
pub open spec fn utf8_length(c: char) -> int {
    if (c as u32) < 0x80 {
        1
    } else if (c as u32) < 0x800 {
        2
    } else if (c as u32) < 0x10000 {
        3
    } else {
        4
    }
}

/// The number of bytes that a text takes in UTF-8.
pub open spec fn utf8_size(text: Seq<char>) -> int
    decreases text.len(),
{
    if text.len() == 0 {
        0
    } else {
        utf8_size(text.drop_last()) + utf8_length(text.last())
    }
}

/// A text with one more character is encoded as the text followed by the
/// character.
proof fn lemma_encode_push(text: Seq<char>, c: char)
    ensures
        vstd::utf8::encode_utf8(text.push(c)) == vstd::utf8::encode_utf8(text)
            + vstd::utf8::encode_scalar(c as u32),
    decreases text.len(),
{
    reveal_with_fuel(vstd::utf8::encode_utf8, 2);
    if text.len() == 0 {
        let one = text.push(c);
        assert(one.len() == 1 && one[0] == c);
        assert(one.drop_first() =~= Seq::<char>::empty());
        assert(vstd::utf8::encode_utf8(one.drop_first()) =~= Seq::<u8>::empty());
        assert(vstd::utf8::encode_utf8(one) =~= vstd::utf8::encode_scalar(c as u32));
        assert(vstd::utf8::encode_utf8(text) =~= Seq::<u8>::empty());
    } else {
        assert(text.push(c).drop_first() =~= text.drop_first().push(c));
        lemma_encode_push(text.drop_first(), c);
        assert(vstd::utf8::encode_utf8(text.push(c)) =~= vstd::utf8::encode_utf8(text)
            + vstd::utf8::encode_scalar(c as u32));
    }
}

/// The number of bytes counted for a text is the length of its UTF-8
/// encoding.
pub proof fn lemma_utf8_size_is_encoded_length(text: Seq<char>)
    ensures
        utf8_size(text) == vstd::utf8::encode_utf8(text).len(),
    decreases text.len(),
{
    if text.len() > 0 {
        lemma_utf8_size_is_encoded_length(text.drop_last());
        lemma_encode_push(text.drop_last(), text.last());
        assert(text.drop_last().push(text.last()) =~= text);
        vstd::utf8::char_is_scalar(text.last());
    }
}

/// The longest prefix of `text` that takes no more than `max_bytes` bytes in
/// UTF-8.
pub open spec fn limited(text: Seq<char>, max_bytes: int) -> Seq<char>
    decreases text.len(),
{
    if text.len() == 0 || utf8_size(text) <= max_bytes {
        text
    } else {
        limited(text.drop_last(), max_bytes)
    }
}

/// A prefix that fits, and that the next character would overfill, is the
/// longest prefix that fits.
pub proof fn lemma_limited(text: Seq<char>, max_bytes: int, k: int)
    requires
        0 <= k <= text.len(),
        utf8_size(text.take(k)) <= max_bytes,
        k < text.len() ==> utf8_size(text.take(k + 1)) > max_bytes,
    ensures
        limited(text, max_bytes) == text.take(k),
    decreases text.len(),
{
    if k == text.len() {
        assert(text.take(k) == text);
    } else {
        lemma_utf8_size_grows(text, k + 1);
        assert(text.drop_last().take(k) == text.take(k));
        if k + 1 < text.len() {
            assert(text.drop_last().take(k + 1) == text.take(k + 1));
        } else {
            assert(text.drop_last() == text.take(k));
            assert(text.drop_last().take(k) == text.drop_last());
        }
        lemma_limited(text.drop_last(), max_bytes, k);
    }
}

/// A text takes at least as many bytes as any of its prefixes.
pub proof fn lemma_utf8_size_grows(text: Seq<char>, k: int)
    requires
        0 <= k <= text.len(),
    ensures
        0 <= utf8_size(text.take(k)) <= utf8_size(text),
    decreases text.len() - k,
{
    if k == text.len() {
        assert(text.take(k) == text);
        lemma_utf8_size_nonnegative(text);
    } else {
        lemma_utf8_size_grows(text, k + 1);
        assert(text.take(k + 1).drop_last() == text.take(k));
        lemma_utf8_size_nonnegative(text.take(k));
    }
}

/// A text takes no fewer than zero bytes.
pub proof fn lemma_utf8_size_nonnegative(text: Seq<char>)
    ensures
        0 <= utf8_size(text),
    decreases text.len(),
{
    if text.len() > 0 {
        lemma_utf8_size_nonnegative(text.drop_last());
    }
}

/// The longest prefix of `text` that takes no more than `max_bytes` bytes in
/// UTF-8.
pub fn limit_bytes(text: &Vec<char>, max_bytes: usize) -> (prefix: Vec<char>)
    ensures
        prefix@ == limited(text@, max_bytes as int),
{
    let mut size: usize = 0;
    let mut k: usize = 0;
    assert(text@.take(0) =~= Seq::<char>::empty());
    while k < text.len()
        invariant
            k <= text.len(),
            size == utf8_size(text@.take(k as int)),
            size <= max_bytes,
        decreases text.len() - k,
    {
        let code: u32 = text[k] as u32;
        let width: usize = if code < 0x80 {
            1
        } else if code < 0x800 {
            2
        } else if code < 0x10000 {
            3
        } else {
            4
        };
        assert(text@.take(k + 1).drop_last() == text@.take(k as int));
        assert(text@.take(k + 1).last() == text@[k as int]);
        if width > max_bytes - size {
            proof {
                lemma_limited(text@, max_bytes as int, k as int);
            }
            return slice_of_prefix(text, k);
        }
        size += width;
        k += 1;
    }
    proof {
        lemma_limited(text@, max_bytes as int, k as int);
    }
    slice_of_prefix(text, k)
}

/// The first `k` characters of `text`.
pub fn slice_of_prefix(text: &Vec<char>, k: usize) -> (prefix: Vec<char>)
    requires
        k <= text.len(),
    ensures
        prefix@ == text@.take(k as int),
{
    slice_of(text, 0, k)
}

/// The index of the first `c` in `text`, or the length of `text` where it
/// holds none.
pub open spec fn position_of(text: Seq<char>, c: char) -> int
    decreases text.len(),
{
    if text.len() == 0 || text[0] == c {
        0
    } else {
        1 + position_of(text.drop_first(), c)
    }
}

/// The parts of `text` between occurrences of `sep`: one more than there are
/// occurrences, empty parts included.
pub open spec fn fields(text: Seq<char>, sep: char) -> Seq<Seq<char>>
    decreases text.len(),
{
    let at = position_of(text, sep);
    if 0 <= at < text.len() {
        seq![text.take(at)] + fields(text.skip(at + 1), sep)
    } else {
        seq![text]
    }
}

/// A text has at least one part, whatever the separator.
pub proof fn lemma_fields_nonempty(text: Seq<char>, sep: char)
    ensures
        fields(text, sep).len() >= 1,
    decreases text.len(),
{
    let at = position_of(text, sep);
    if 0 <= at < text.len() {
        lemma_fields_nonempty(text.skip(at + 1), sep);
    }
}

/// The first index at or after `from` where `text` holds `c`, or the length
/// of `text`.
pub fn find_from(text: &Vec<char>, from: usize, c: char) -> (at: usize)
    requires
        from <= text.len(),
    ensures
        at == from + position_of(text@.skip(from as int), c),
        from <= at <= text.len(),
{
    let mut at: usize = from;
    while at < text.len() && text[at] != c
        invariant
            from <= at <= text.len(),
            from + position_of(text@.skip(from as int), c) == at + position_of(
                text@.skip(at as int),
                c,
            ),
        decreases text.len() - at,
    {
        assert(text@.skip(at as int).drop_first() == text@.skip(at + 1));
        at += 1;
    }
    at
}

/// The texts that a list of strings holds.
pub open spec fn string_views(list: Seq<String>) -> Seq<Seq<char>> {
    list.map_values(|text: String| text@)
}

/// The texts that a list of character vectors holds.
pub open spec fn texts(parts: Seq<Vec<char>>) -> Seq<Seq<char>> {
    parts.map_values(|part: Vec<char>| part@)
}

/// The parts of `text` between occurrences of `sep`.
pub fn split(text: &Vec<char>, sep: char) -> (parts: Vec<Vec<char>>)
    ensures
        texts(parts@) == fields(text@, sep),
{
    let mut parts: Vec<Vec<char>> = Vec::new();
    let mut start: usize = 0;
    assert(text@.skip(0) == text@);
    assert(texts(parts@) =~= Seq::<Seq<char>>::empty());
    loop
        invariant
            start <= text.len(),
            fields(text@, sep) == texts(parts@) + fields(text@.skip(start as int), sep),
        decreases text.len() - start,
    {
        let at: usize = find_from(text, start, sep);
        let part: Vec<char> = slice_of(text, start, at);
        let ghost before = texts(parts@);
        let ghost rest = text@.skip(start as int);
        parts.push(part);
        assert(texts(parts@) =~= before.push(part@));
        assert(rest.take(at - start) == part@);
        if at >= text.len() {
            assert(rest.take(at - start) == rest);
            assert(before + seq![rest] == before.push(rest));
            return parts;
        }
        assert(rest.skip(at - start + 1) == text@.skip(at + 1));
        assert(before + (seq![part@] + fields(text@.skip(at + 1), sep)) == before.push(part@)
            + fields(text@.skip(at + 1), sep));
        start = at + 1;
    }
}

/// Whether a character is one of the ten decimal digits.
pub open spec fn is_digit(c: char) -> bool {
    '0' <= c <= '9'
}

/// The number a decimal digit stands for.
pub open spec fn digit_value(c: char) -> int {
    c as int - '0' as int
}

/// Whether every character of `text` is a decimal digit.
pub open spec fn all_digits(text: Seq<char>) -> bool {
    forall|i: int| 0 <= i < text.len() ==> is_digit(#[trigger] text[i])
}

/// The number that a run of decimal digits writes.
pub open spec fn decimal_value(digits: Seq<char>) -> int
    decreases digits.len(),
{
    if digits.len() == 0 {
        0
    } else {
        10 * decimal_value(digits.drop_last()) + digit_value(digits.last())
    }
}

/// The unsigned number that `text` writes in decimal: digits only, at least
/// one, after an optional `+`, and no larger than a `u32` holds.
pub open spec fn parsed_u32(text: Seq<char>) -> Option<u32> {
    let digits = if text.len() > 0 && text[0] == '+' {
        text.drop_first()
    } else {
        text
    };
    if digits.len() > 0 && all_digits(digits) && decimal_value(digits) <= u32::MAX {
        Some(decimal_value(digits) as u32)
    } else {
        None
    }
}

/// A run of digits writes a number no smaller than any of its prefixes does.
pub proof fn lemma_decimal_value_grows(digits: Seq<char>, k: int)
    requires
        all_digits(digits),
        0 <= k <= digits.len(),
    ensures
        0 <= decimal_value(digits.take(k)) <= decimal_value(digits),
    decreases digits.len() - k,
{
    if k == digits.len() {
        assert(digits.take(k) == digits);
        lemma_decimal_value_nonnegative(digits);
    } else {
        lemma_decimal_value_grows(digits, k + 1);
        let longer = digits.take(k + 1);
        assert(longer.drop_last() == digits.take(k));
        assert(is_digit(digits[k]));
        lemma_decimal_value_nonnegative(digits.take(k));
    }
}

/// A run of digits writes a number that is not negative.
pub proof fn lemma_decimal_value_nonnegative(digits: Seq<char>)
    requires
        all_digits(digits),
    ensures
        0 <= decimal_value(digits),
    decreases digits.len(),
{
    if digits.len() > 0 {
        assert(is_digit(digits.last()));
        lemma_decimal_value_nonnegative(digits.drop_last());
    }
}

/// The unsigned number that `text` writes in decimal, if it writes one.
pub fn parse_u32(text: &Vec<char>) -> (number: Option<u32>)
    ensures
        number == parsed_u32(text@),
{
    let start: usize = if text.len() > 0 && text[0] == '+' {
        1
    } else {
        0
    };
    let ghost digits = text@.skip(start as int);
    assert(start == 1 ==> text@.drop_first() == digits);
    assert(start == 0 ==> text@ == digits);
    if start >= text.len() {
        return None;
    }
    let mut value: u64 = 0;
    let mut i: usize = start;
    assert(digits.take(0) == Seq::<char>::empty());
    while i < text.len()
        invariant
            start <= i <= text.len(),
            digits == text@.skip(start as int),
            digits.len() > 0,
            digits == if text@.len() > 0 && text@[0] == '+' {
                text@.drop_first()
            } else {
                text@
            },
            all_digits(digits.take(i - start)),
            value == decimal_value(digits.take(i - start)),
            value <= u32::MAX,
        decreases text.len() - i,
    {
        let c: char = text[i];
        assert(digits[i - start] == c);
        assert(digits.take(i - start + 1).drop_last() == digits.take(i - start));
        if c < '0' || c > '9' {
            assert(!is_digit(digits[i - start]));
            return None;
        }
        let digit: u64 = (c as u32 - '0' as u32) as u64;
        let next: u64 = value * 10 + digit;
        assert(all_digits(digits.take(i - start + 1))) by {
            assert forall|j: int| 0 <= j < i - start + 1 implies is_digit(
                #[trigger] digits.take(i - start + 1)[j],
            ) by {
                if j < i - start {
                    assert(digits.take(i - start + 1)[j] == digits.take(i - start)[j]);
                }
            }
        }
        assert(digits.take(i - start + 1).last() == c);
        assert(decimal_value(digits.take(i - start + 1)) == next);
        if next > 0xffff_ffff {
            proof {
                if all_digits(digits) {
                    lemma_decimal_value_grows(digits, i - start + 1);
                }
            }
            return None;
        }
        value = next;
        i += 1;
    }
    assert(digits.take(i - start) == digits);
    Some(value as u32)
}

/// The character that writes a digit below ten.
pub open spec fn digit_char(digit: int) -> char {
    ('0' as int + digit) as char
}

/// A number below one hundred written with exactly two digits.
pub open spec fn two_digits(number: int) -> Seq<char> {
    seq![digit_char(number / 10), digit_char(number % 10)]
}

/// Appends `number`, written with exactly two digits, to `out`.
pub fn push_two_digits(out: &mut Vec<char>, number: u32)
    requires
        number < 100,
    ensures
        final(out)@ == old(out)@ + two_digits(number as int),
{
    let tens: u8 = (number / 10) as u8;
    let ones: u8 = (number % 10) as u8;
    out.push((48u8 + tens) as char);
    out.push((48u8 + ones) as char);
    assert(out@ == old(out)@ + two_digits(number as int));
}

/// A number written in decimal, without leading zeros.
pub open spec fn decimal_text(number: nat) -> Seq<char>
    decreases number,
{
    if number < 10 {
        seq![digit_char(number as int)]
    } else {
        decimal_text(number / 10).push(digit_char((number % 10) as int))
    }
}

/// A number written in decimal with at least two digits: a leading zero is
/// added to a number below ten.
pub open spec fn padded_two(number: nat) -> Seq<char> {
    if number < 10 {
        seq!['0', digit_char(number as int)]
    } else {
        decimal_text(number)
    }
}

/// Appends `number`, written in decimal, to `out`.
pub fn push_decimal(out: &mut Vec<char>, number: u32)
    ensures
        final(out)@ == old(out)@ + decimal_text(number as nat),
    decreases number,
{
    if number >= 10 {
        push_decimal(out, number / 10);
    }
    let ones: u8 = (number % 10) as u8;
    out.push((48u8 + ones) as char);
    assert(out@ =~= old(out)@ + decimal_text(number as nat));
}

/// Appends `number`, written in decimal with at least two digits, to `out`.
pub fn push_padded_two(out: &mut Vec<char>, number: u32)
    ensures
        final(out)@ == old(out)@ + padded_two(number as nat),
{
    if number < 10 {
        out.push('0');
    }
    push_decimal(out, number);
    assert(out@ =~= old(out)@ + padded_two(number as nat));
}

/// Whether two texts hold the same characters.
pub fn same_text(first: &Vec<char>, second: &Vec<char>) -> (same: bool)
    ensures
        same == (first@ == second@),
{
    if first.len() != second.len() {
        return false;
    }
    let same = matches_at(first, second, 0);
    assert(first@.subrange(0, first@.len() as int) == first@);
    same
}

/// Whether `text` holds the characters of `word`.
pub fn is_word(text: &Vec<char>, word: &str) -> (same: bool)
    ensures
        same == (text@ == word@),
{
    let other = chars_of(word);
    same_text(text, &other)
}

/// Appends the characters of `more` to `out`.
pub fn push_all(out: &mut Vec<char>, more: &Vec<char>)
    ensures
        final(out)@ == old(out)@ + more@,
{
    let mut i: usize = 0;
    assert(more@.take(0) == Seq::<char>::empty());
    assert(out@ == old(out)@ + more@.take(0));
    while i < more.len()
        invariant
            i <= more.len(),
            out@ == old(out)@ + more@.take(i as int),
        decreases more.len() - i,
    {
        out.push(more[i]);
        i += 1;
        assert(more@.take(i as int) == more@.take(i - 1).push(more@[i - 1]));
    }
    assert(more@.take(more.len() as int) == more@);
}

/// Whether `needle` stands in `text` at index `at`.
pub open spec fn occurs_at(text: Seq<char>, needle: Seq<char>, at: int) -> bool {
    0 <= at && at + needle.len() <= text.len() && text.subrange(at, at + needle.len()) == needle
}

/// Whether `needle` stands somewhere in `text`; the empty text stands in
/// every text.
pub open spec fn has_infix(text: Seq<char>, needle: Seq<char>) -> bool {
    exists|at: int| occurs_at(text, needle, at)
}

/// Whether `needle` stands in `text` at index `at`.
pub fn matches_at(text: &Vec<char>, needle: &Vec<char>, at: usize) -> (found: bool)
    ensures
        found == occurs_at(text@, needle@, at as int),
{
    if needle.len() > text.len() || at > text.len() - needle.len() {
        return false;
    }
    let mut i: usize = 0;
    while i < needle.len()
        invariant
            i <= needle.len(),
            at + needle.len() <= text.len(),
            forall|j: int| 0 <= j < i ==> text@[at + j] == needle@[j],
        decreases needle.len() - i,
    {
        if text[at + i] != needle[i] {
            assert(text@.subrange(at as int, at + needle.len())[i as int] != needle@[i as int]);
            return false;
        }
        i += 1;
    }
    assert(text@.subrange(at as int, at + needle.len()) =~= needle@);
    true
}

/// The index of the first place where `needle` stands in `text`, or the
/// length of `text` where it stands nowhere.
pub open spec fn first_occurrence(text: Seq<char>, needle: Seq<char>) -> int
    decreases text.len(),
{
    if text.len() == 0 || occurs_at(text, needle, 0) {
        0
    } else {
        1 + first_occurrence(text.drop_first(), needle)
    }
}

/// The index of the first place at or after `from` where `needle` stands in
/// `text`, or the length of `text`.
pub fn find_text_from(text: &Vec<char>, from: usize, needle: &Vec<char>) -> (at: usize)
    requires
        from <= text.len(),
    ensures
        at == from + first_occurrence(text@.skip(from as int), needle@),
        from <= at <= text.len(),
{
    let mut at: usize = from;
    while at < text.len()
        invariant
            from <= at <= text.len(),
            from + first_occurrence(text@.skip(from as int), needle@) == at + first_occurrence(
                text@.skip(at as int),
                needle@,
            ),
        decreases text.len() - at,
    {
        let ghost rest = text@.skip(at as int);
        let here = matches_at(text, needle, at);
        proof {
            if at + needle@.len() <= text@.len() {
                assert(rest.subrange(0, needle@.len() as int) =~= text@.subrange(
                    at as int,
                    at + needle@.len(),
                ));
            }
        }
        if here {
            return at;
        }
        assert(rest.drop_first() == text@.skip(at + 1));
        at += 1;
    }
    at
}

/// Whether `text` begins with `prefix`.
pub fn starts_with(text: &Vec<char>, prefix: &Vec<char>) -> (found: bool)
    ensures
        found == prefix@.is_prefix_of(text@),
{
    let found = matches_at(text, prefix, 0);
    proof {
        if found {
            assert(text@.subrange(0, prefix@.len() as int) == prefix@);
            assert(prefix@.is_prefix_of(text@));
        }
        if prefix@.is_prefix_of(text@) {
            assert(text@.subrange(0, prefix@.len() as int) =~= prefix@);
        }
    }
    found
}

/// Whether `needle` stands somewhere in `text`.
pub fn contains(text: &Vec<char>, needle: &Vec<char>) -> (found: bool)
    ensures
        found == has_infix(text@, needle@),
{
    if needle.len() > text.len() {
        return false;
    }
    let last: usize = text.len() - needle.len();
    let mut at: usize = 0;
    loop
        invariant
            at <= last,
            last == text.len() - needle.len(),
            forall|k: int| 0 <= k < at ==> !occurs_at(text@, needle@, k),
        decreases last - at,
    {
        if matches_at(text, needle, at) {
            return true;
        }
        if at == last {
            return false;
        }
        at += 1;
    }
}

} // verus!
