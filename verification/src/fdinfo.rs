//! Reading the offset of a descriptor from what the kernel says of it.
//!
//! The kernel describes a descriptor in lines of text. The line that starts
//! with `pos:` holds, as its second field, the offset in decimal. Fields are
//! set apart by white space: the characters that Unicode counts as such, in
//! their UTF-8 form. A line that is not UTF-8 cannot be read.

use crate::failure::TeleError;
use crate::text::string_from_utf8;
use vstd::prelude::*;
use vstd::slice::{slice_subrange, slice_to_vec};
use vstd::utf8::*;

verus! {

/// Whether three bytes are the UTF-8 form of a white space character of
/// three bytes: U+1680, U+2000 to U+200A, U+2028, U+2029, U+202F, U+205F or
/// U+3000.
pub open spec fn is_wide_space(a: u8, b: u8, c: u8) -> bool {
    ||| (a == 0xe1 && b == 0x9a && c == 0x80)
    ||| (a == 0xe2 && b == 0x80 && ((0x80 <= c && c <= 0x8a) || c == 0xa8 || c == 0xa9 || c
        == 0xaf))
    ||| (a == 0xe2 && b == 0x81 && c == 0x9f)
    ||| (a == 0xe3 && b == 0x80 && c == 0x80)
}

/// The length in bytes of the white space character that starts at `i`: 1
/// for a space and for U+0009 to U+000D, 2 for U+0085 and U+00A0, 3 for the
/// wider ones; 0 where no white space starts at `i`.
pub open spec fn space_len(s: Seq<u8>, i: int) -> int {
    if i < 0 || i >= s.len() {
        0
    } else if s[i] == 0x20 || (0x09 <= s[i] && s[i] <= 0x0d) {
        1
    } else if i + 1 < s.len() && s[i] == 0xc2 && (s[i + 1] == 0x85 || s[i + 1] == 0xa0) {
        2
    } else if i + 2 < s.len() && is_wide_space(s[i], s[i + 1], s[i + 2]) {
        3
    } else {
        0
    }
}

/// Whether a byte is a decimal digit.
pub open spec fn is_digit(b: u8) -> bool {
    0x30 <= b && b <= 0x39
}

/// The first position at or after `i` where no white space starts; the
/// length where white space runs to the end.
pub open spec fn skip_spaces(s: Seq<u8>, i: int) -> int
    decreases s.len() - i,
{
    if i < 0 || i >= s.len() {
        s.len() as int
    } else if space_len(s, i) == 0 {
        i
    } else {
        skip_spaces(s, i + space_len(s, i))
    }
}

/// The first position at or after `i` where white space starts; the length
/// where there is none.
pub open spec fn skip_field(s: Seq<u8>, i: int) -> int
    decreases s.len() - i,
{
    if i < 0 || i >= s.len() {
        s.len() as int
    } else if space_len(s, i) > 0 {
        i
    } else {
        skip_field(s, i + 1)
    }
}

/// The first position at or after `i` that holds a line feed; the length
/// where there is none.
pub open spec fn line_end(s: Seq<u8>, i: int) -> int
    decreases s.len() - i,
{
    if i >= s.len() {
        s.len() as int
    } else if s[i] == 0x0a {
        i
    } else {
        line_end(s, i + 1)
    }
}

/// The number that a run of digits spells.
pub open spec fn decimal_value(digits: Seq<u8>) -> nat
    decreases digits.len(),
{
    if digits.len() == 0 {
        0
    } else {
        decimal_value(digits.drop_last()) * 10 + (digits.last() - 0x30) as nat
    }
}

/// Whether every byte is a decimal digit.
pub open spec fn all_digits(s: Seq<u8>) -> bool {
    forall|i: int| 0 <= i < s.len() ==> is_digit(#[trigger] s[i])
}

/// The number that a field spells: an optional plus sign, then one digit or
/// more, the whole no greater than the largest 64-bit number.
pub open spec fn spec_parse_u64(field: Seq<u8>) -> Option<u64> {
    let digits = if field.len() > 0 && field[0] == 0x2b {
        field.skip(1)
    } else {
        field
    };
    if digits.len() > 0 && all_digits(digits) && decimal_value(digits) <= u64::MAX {
        Some(decimal_value(digits) as u64)
    } else {
        None
    }
}

/// The second field of a line, if it has one.
pub open spec fn spec_second_field(line: Seq<u8>) -> Option<Seq<u8>> {
    let a = skip_spaces(line, 0);
    let b = skip_field(line, a);
    let c = skip_spaces(line, b);
    let d = skip_field(line, c);
    if c < line.len() {
        Some(line.subrange(c, d))
    } else {
        None
    }
}

/// Whether a line starts with `pos:`.
pub open spec fn starts_with_pos(line: Seq<u8>) -> bool {
    line.len() >= 4 && line[0] == 0x70 && line[1] == 0x6f && line[2] == 0x73 && line[3] == 0x3a
}

/// The offset that a line gives: the line starts with `pos:` and its second
/// field spells a number.
pub open spec fn spec_line_offset(line: Seq<u8>) -> Option<u64> {
    if starts_with_pos(line) {
        match spec_second_field(line) {
            Some(field) => spec_parse_u64(field),
            None => None,
        }
    } else {
        None
    }
}

/// The offset that the first line from position `i` on gives which gives
/// one; none where no line does. A line that is not UTF-8, met before a line
/// that gives an offset, is a failure.
pub open spec fn spec_offset_from(text: Seq<u8>, i: int) -> Result<Option<u64>, TeleError>
    decreases text.len() - i,
    via spec_offset_from_decreases
{
    if i < 0 || i >= text.len() {
        Ok(None)
    } else {
        let e = line_end(text, i);
        if !valid_utf8(text.subrange(i, e)) {
            Err(TeleError::BadText)
        } else {
            match spec_line_offset(text.subrange(i, e)) {
                Some(v) => Ok(Some(v)),
                None => if e < text.len() {
                    spec_offset_from(text, e + 1)
                } else {
                    Ok(None)
                },
            }
        }
    }
}

#[via_fn]
proof fn spec_offset_from_decreases(text: Seq<u8>, i: int) {
    if 0 <= i < text.len() {
        lemma_line_end(text, i);
    }
}

/// A line ends at or after its start, within the text, and holds no line
/// feed.
pub proof fn lemma_line_end(s: Seq<u8>, i: int)
    requires
        0 <= i <= s.len(),
    ensures
        i <= line_end(s, i) <= s.len(),
        line_end(s, i) < s.len() ==> s[line_end(s, i)] == 0x0a,
        forall|j: int| i <= j < line_end(s, i) ==> s[j] != 0x0a,
    decreases s.len() - i,
{
    if i < s.len() && s[i] != 0x0a {
        lemma_line_end(s, i + 1);
    }
}

/// The number that the first digits of a run spell is no greater than the
/// number that the whole run spells.
proof fn lemma_decimal_prefix(digits: Seq<u8>, k: int)
    requires
        0 <= k <= digits.len(),
        all_digits(digits),
    ensures
        decimal_value(digits.take(k)) <= decimal_value(digits),
    decreases digits.len() - k,
{
    if k < digits.len() {
        lemma_decimal_prefix(digits, k + 1);
        let longer = digits.take(k + 1);
        assert(longer.drop_last() =~= digits.take(k));
        assert(is_digit(digits[k]));
        assert(longer.last() == digits[k]);
    } else {
        assert(digits.take(k) =~= digits);
    }
}

/// The length of the white space character that starts at `i`.
fn space_len_at(line: &[u8], i: usize) -> (n: usize)
    requires
        i <= line@.len(),
    ensures
        n == space_len(line@, i as int),
        i + n <= line@.len(),
{
    let len = line.len();
    if i >= len {
        return 0;
    }
    let a = line[i];
    if a == 0x20 || (0x09 <= a && a <= 0x0d) {
        return 1;
    }
    if len - i >= 2 {
        let b = line[i + 1];
        if a == 0xc2 && (b == 0x85 || b == 0xa0) {
            return 2;
        }
        if len - i >= 3 {
            let c = line[i + 2];
            let wide = (a == 0xe1 && b == 0x9a && c == 0x80) || (a == 0xe2 && b == 0x80 && ((0x80
                <= c && c <= 0x8a) || c == 0xa8 || c == 0xa9 || c == 0xaf)) || (a == 0xe2 && b
                == 0x81 && c == 0x9f) || (a == 0xe3 && b == 0x80 && c == 0x80);
            if wide {
                return 3;
            }
        }
    }
    0
}

/// The end of the run of white space that starts at `i`.
fn skip_spaces_at(line: &[u8], i: usize) -> (j: usize)
    requires
        i <= line@.len(),
    ensures
        i <= j <= line@.len(),
        j == skip_spaces(line@, i as int),
{
    let len = line.len();
    let mut j = i;
    loop
        invariant
            i <= j <= len,
            len == line@.len(),
            skip_spaces(line@, i as int) == skip_spaces(line@, j as int),
        ensures
            i <= j <= line@.len(),
            j == skip_spaces(line@, i as int),
        decreases line@.len() - j,
    {
        let n = space_len_at(line, j);
        if n == 0 {
            break ;
        }
        j += n;
    }
    j
}

/// The end of the field that starts at `i`.
fn skip_field_at(line: &[u8], i: usize) -> (j: usize)
    requires
        i <= line@.len(),
    ensures
        i <= j <= line@.len(),
        j == skip_field(line@, i as int),
{
    let mut j = i;
    while j < line.len() && space_len_at(line, j) == 0
        invariant
            i <= j <= line@.len(),
            skip_field(line@, i as int) == skip_field(line@, j as int),
        decreases line@.len() - j,
    {
        j += 1;
    }
    j
}

/// Reads the number that the bytes from `start` to `end` spell.
fn parse_u64(s: &[u8], start: usize, end: usize) -> (r: Option<u64>)
    requires
        start <= end <= s@.len(),
    ensures
        r == spec_parse_u64(s@.subrange(start as int, end as int)),
{
    let ghost field = s@.subrange(start as int, end as int);
    let first = if start < end && s[start] == 0x2b {
        start + 1
    } else {
        start
    };
    let ghost digits = s@.subrange(first as int, end as int);
    proof {
        if first > start {
            assert(field[0] == s@[start as int]);
            assert(field.skip(1) =~= digits);
        } else {
            if field.len() > 0 {
                assert(field[0] == s@[start as int]);
            }
            assert(field =~= digits);
        }
        assert(digits == (if field.len() > 0 && field[0] == 0x2b {
            field.skip(1)
        } else {
            field
        }));
    }
    if first == end {
        return None;
    }
    let mut i = first;
    while i < end
        invariant
            first <= i <= end <= s@.len(),
            start <= end,
            field == s@.subrange(start as int, end as int),
            digits == s@.subrange(first as int, end as int),
            digits == (if field.len() > 0 && field[0] == 0x2b {
                field.skip(1)
            } else {
                field
            }),
            forall|j: int| 0 <= j < i - first ==> is_digit(#[trigger] digits[j]),
        decreases end - i,
    {
        let b = s[i];
        if !(0x30 <= b && b <= 0x39) {
            assert(digits[i - first] == b);
            assert(!is_digit(digits[i - first]));
            assert(!all_digits(digits));
            return None;
        }
        i += 1;
    }
    assert(all_digits(digits));
    let mut value: u64 = 0;
    let mut k = first;
    proof {
        assert(digits.take(0) =~= Seq::<u8>::empty());
    }
    while k < end
        invariant
            first <= k <= end <= s@.len(),
            first < end,
            start <= end,
            field == s@.subrange(start as int, end as int),
            digits == s@.subrange(first as int, end as int),
            digits == (if field.len() > 0 && field[0] == 0x2b {
                field.skip(1)
            } else {
                field
            }),
            all_digits(digits),
            value == decimal_value(digits.take(k - first)),
        decreases end - k,
    {
        assert(digits[k - first] == s@[k as int]);
        assert(is_digit(digits[k - first]));
        let d = (s[k] - 0x30) as u64;
        proof {
            let longer = digits.take(k - first + 1);
            assert(longer.drop_last() =~= digits.take(k - first));
            assert(longer.last() == s@[k as int]);
            assert(is_digit(digits[k - first]));
            assert(decimal_value(longer) == value * 10 + d);
            lemma_decimal_prefix(digits, k - first + 1);
        }
        if value > (u64::MAX - d) / 10 {
            assert(value * 10 + d > u64::MAX);
            return None;
        }
        value = value * 10 + d;
        k += 1;
    }
    assert(digits.take(k - first) =~= digits);
    Some(value)
}

/// Reads the offset that one line gives.
fn line_offset(line: &[u8]) -> (r: Option<u64>)
    ensures
        r == spec_line_offset(line@),
{
    if line.len() < 4 {
        return None;
    }
    if !(line[0] == 0x70 && line[1] == 0x6f && line[2] == 0x73 && line[3] == 0x3a) {
        return None;
    }
    let a = skip_spaces_at(line, 0);
    let b = skip_field_at(line, a);
    let c = skip_spaces_at(line, b);
    let d = skip_field_at(line, c);
    if c < line.len() {
        parse_u64(line, c, d)
    } else {
        None
    }
}

/// Reads the offset of a descriptor from the kernel's description of it:
/// the number in the second field of the first line that starts with `pos:`
/// and has a number there. None where no line has. A line that is not UTF-8
/// and comes before such a line is a failure.
pub fn get_fd_offset(fdinfo: &[u8]) -> (r: Result<Option<u64>, TeleError>)
    ensures
        r == spec_offset_from(fdinfo@, 0),
{
    let mut i: usize = 0;
    while i < fdinfo.len()
        invariant
            i <= fdinfo@.len(),
            spec_offset_from(fdinfo@, 0) == spec_offset_from(fdinfo@, i as int),
        decreases fdinfo.len() - i,
    {
        let mut e = i;
        while e < fdinfo.len() && fdinfo[e] != 0x0a
            invariant
                i <= e <= fdinfo@.len(),
                line_end(fdinfo@, i as int) == line_end(fdinfo@, e as int),
            decreases fdinfo.len() - e,
        {
            e += 1;
        }
        let line = slice_subrange(fdinfo, i, e);
        if string_from_utf8(slice_to_vec(line)).is_none() {
            return Err(TeleError::BadText);
        }
        match line_offset(line) {
            Some(v) => {
                return Ok(Some(v));
            },
            None => {},
        }
        if e == fdinfo.len() {
            return Ok(None);
        }
        i = e + 1;
    }
    Ok(None)
}

/// The line that is made of `pos:`, the given white space and the given
/// digits.
pub open spec fn pos_line(blank: Seq<u8>, digits: Seq<u8>) -> Seq<u8> {
    seq![0x70u8, 0x6f, 0x73, 0x3a] + blank + digits
}

/// The line `pos:`, white space of the plain kind (spaces and tabs) and a
/// decimal number that fits 64 bits gives that number.
pub proof fn lemma_pos_line(blank: Seq<u8>, digits: Seq<u8>)
    requires
        blank.len() > 0,
        forall|i: int| 0 <= i < blank.len() ==> #[trigger] blank[i] == 0x20 || blank[i] == 0x09,
        digits.len() > 0,
        all_digits(digits),
        decimal_value(digits) <= u64::MAX,
    ensures
        spec_line_offset(pos_line(blank, digits)) == Some(decimal_value(digits) as u64),
        pos_line(blank, digits).len() == 4 + blank.len() + digits.len(),
        forall|j: int|
            0 <= j < pos_line(blank, digits).len() ==> (#[trigger] pos_line(blank, digits)[j])
                < 0x80 && pos_line(blank, digits)[j] != 0x0a,
{
    let line = pos_line(blank, digits);
    let n = line.len() as int;
    let b = blank.len() as int;
    assert(n == 4 + b + digits.len());
    assert(line[0] == 0x70 && line[1] == 0x6f && line[2] == 0x73 && line[3] == 0x3a);
    assert forall|j: int| 4 <= j < 4 + b implies #[trigger] line[j] == blank[j - 4] by {}
    assert forall|j: int| 4 + b <= j < n implies #[trigger] line[j] == digits[j - 4 - b]
        && is_digit(line[j]) by {
        assert(is_digit(digits[j - 4 - b]));
    }
    assert forall|j: int| 0 <= j < 4 implies space_len(line, j) == 0 by {}
    assert forall|j: int| 4 <= j < 4 + b implies space_len(line, j) == 1 by {
        assert(line[j] == blank[j - 4]);
    }
    assert forall|j: int| 4 + b <= j < n implies space_len(line, j) == 0 by {
        assert(is_digit(line[j]));
    }
    assert(skip_spaces(line, 0) == 0);
    lemma_field_runs(line, 0, 4);
    lemma_spaces_run(line, 4, 4 + b);
    lemma_field_runs(line, 4 + b, n);
    assert(line.subrange(4 + b, n) =~= digits);
    assert(is_digit(digits[0]));
    assert forall|j: int| 0 <= j < n implies (#[trigger] line[j]) < 0x80 && line[j] != 0x0a by {
        if j >= 4 + b {
            assert(is_digit(line[j]));
        } else if j >= 4 {
            assert(line[j] == blank[j - 4]);
        }
    }
}

/// A description that opens with the line `pos:`, white space of the plain
/// kind (spaces and tabs), and a decimal number that fits 64 bits gives that
/// number as the offset, whatever follows the line.
pub proof fn lemma_pos_line_gives_offset(blank: Seq<u8>, digits: Seq<u8>, rest: Seq<u8>)
    requires
        blank.len() > 0,
        forall|i: int| 0 <= i < blank.len() ==> #[trigger] blank[i] == 0x20 || blank[i] == 0x09,
        digits.len() > 0,
        all_digits(digits),
        decimal_value(digits) <= u64::MAX,
    ensures
        spec_offset_from(pos_line(blank, digits) + seq![0x0au8] + rest, 0) == Ok::<
            Option<u64>,
            TeleError,
        >(Some(decimal_value(digits) as u64)),
{
    let line = pos_line(blank, digits);
    let text = line + seq![0x0au8] + rest;
    let n = line.len() as int;
    lemma_pos_line(blank, digits);
    assert forall|j: int| 0 <= j < n implies text[j] != 0x0a by {
        assert(text[j] == line[j]);
    }
    assert(text[n] == 0x0a);
    lemma_line_ends_at(text, 0, n);
    assert(text.subrange(0, n) =~= line);
    lemma_ascii_is_utf8(line);
}

/// The line that starts at `i` ends at `e` if a line feed stands there, or
/// the text ends there, and none stands before.
proof fn lemma_line_ends_at(s: Seq<u8>, i: int, e: int)
    requires
        0 <= i <= e <= s.len(),
        forall|j: int| i <= j < e ==> s[j] != 0x0a,
        e == s.len() || s[e] == 0x0a,
    ensures
        line_end(s, i) == e,
    decreases e - i,
{
    if i < e {
        lemma_line_ends_at(s, i + 1, e);
    }
}

/// Bytes among which no white space starts from `i` to `e`, where white
/// space starts or the text ends, are one field.
proof fn lemma_field_runs(s: Seq<u8>, i: int, e: int)
    requires
        0 <= i <= e <= s.len(),
        forall|j: int| i <= j < e ==> space_len(s, j) == 0,
        e == s.len() || space_len(s, e) > 0,
    ensures
        skip_field(s, i) == e,
    decreases e - i,
{
    if i < e {
        lemma_field_runs(s, i + 1, e);
    }
}

/// Plain white space from `i` to `e`, where no white space starts, is one
/// run.
proof fn lemma_spaces_run(s: Seq<u8>, i: int, e: int)
    requires
        0 <= i <= e <= s.len(),
        forall|j: int| i <= j < e ==> space_len(s, j) == 1,
        space_len(s, e) == 0,
    ensures
        skip_spaces(s, i) == e,
    decreases e - i,
{
    if i < e {
        lemma_spaces_run(s, i + 1, e);
    }
}

/// Bytes below 128 are UTF-8.
proof fn lemma_ascii_is_utf8(s: Seq<u8>)
    requires
        forall|i: int| 0 <= i < s.len() ==> #[trigger] s[i] < 0x80,
    ensures
        valid_utf8(s),
{
    assert forall|i: int| 0 <= i < s.len() implies #[trigger] is_leading_byte_width_1(s[i]) by {
        assert(s[i] < 0x80);
    }
    assert(s.subrange(0, 0) =~= Seq::<u8>::empty());
    assert(partial_valid_utf8(s, 0));
    partial_valid_utf8_extend_ascii_block(s, 0, s.len() as int);
    assert(s.subrange(0, s.len() as int) =~= s);
}

} // verus!
