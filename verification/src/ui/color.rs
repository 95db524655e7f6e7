//! Colours as the text that a user types and a settings file keeps.

use vstd::prelude::*;

use crate::number::{digit, digit_value};
use crate::text::{chars_of, is_space, trim, trim_back, trim_front, trimmed};

verus! {

/// A hexadecimal digit, small or capital.
pub open spec fn hex_char(n: int, capital: bool) -> char {
    if n < 10 {
        ((0x30 + n) as u8) as char
    } else if capital {
        ((0x41 + n - 10) as u8) as char
    } else {
        ((0x61 + n - 10) as u8) as char
    }
}

/// A colour as `#` and six hexadecimal digits.
pub open spec fn hex_text(red: u8, green: u8, blue: u8, capital: bool) -> Seq<char> {
    seq![
        '#',
        hex_char(red as int / 16, capital),
        hex_char(red as int % 16, capital),
        hex_char(green as int / 16, capital),
        hex_char(green as int % 16, capital),
        hex_char(blue as int / 16, capital),
        hex_char(blue as int % 16, capital),
    ]
}

fn hex_digit(n: u8, capital: bool) -> (r: char)
    requires
        n < 16,
    ensures
        r == hex_char(n as int, capital),
{
    if n < 10 {
        (0x30 + n) as char
    } else if capital {
        (0x41 + (n - 10)) as char
    } else {
        (0x61 + (n - 10)) as char
    }
}

fn write_hex(red: u8, green: u8, blue: u8, capital: bool) -> (r: String)
    ensures
        r@ == hex_text(red, green, blue, capital),
{
    let mut out = String::new();
    out.push('#');
    out.push(hex_digit(red / 16, capital));
    out.push(hex_digit(red % 16, capital));
    out.push(hex_digit(green / 16, capital));
    out.push(hex_digit(green % 16, capital));
    out.push(hex_digit(blue / 16, capital));
    out.push(hex_digit(blue % 16, capital));
    assert(out@ =~= hex_text(red, green, blue, capital));
    out
}

/// A colour as `#rrggbb`.
pub fn hex_of(red: u8, green: u8, blue: u8) -> (r: String)
    ensures
        r@ == hex_text(red, green, blue, false),
{
    write_hex(red, green, blue, false)
}

/// A colour as `#RRGGBB`, as the entry field shows it.
pub fn hex_entry_text(red: u8, green: u8, blue: u8) -> (r: String)
    ensures
        r@ == hex_text(red, green, blue, true),
{
    write_hex(red, green, blue, true)
}

/// A text without the `#` characters it begins with.
pub open spec fn without_hashes(s: Seq<char>) -> Seq<char>
    decreases s.len(),
{
    if s.len() > 0 && s[0] == '#' {
        without_hashes(s.drop_first())
    } else {
        s
    }
}

/// Whether a text is six hexadecimal digits.
pub open spec fn is_code(s: Seq<char>) -> bool {
    s.len() == 6 && forall|i: int| 0 <= i < 6 ==> (#[trigger] digit_value(s[i], 16)) is Some
}

/// The number that two digits of a code denote.
pub open spec fn byte_at(s: Seq<char>, i: int) -> u8 {
    (digit_value(s[i], 16)->0 * 16 + digit_value(s[i + 1], 16)->0) as u8
}

/// The colour a text stands for.
pub open spec fn color_of(text: Seq<char>) -> Option<(u8, u8, u8)> {
    let code = without_hashes(trimmed(text));
    if is_code(code) {
        Some((byte_at(code, 0), byte_at(code, 2), byte_at(code, 4)))
    } else {
        None
    }
}

/// The colour that six hexadecimal digits stand for, with or without `#` before them and
/// white space around them.
pub fn parse_hex(text: &str) -> (r: Option<(u8, u8, u8)>)
    ensures
        r == color_of(text@),
{
    let tight = trim(text);
    let v = chars_of(tight.as_str());
    let n: usize = v.len();
    let mut from: usize = 0;
    assert(v@.skip(0) =~= v@);
    while from < n && v[from] == '#'
        invariant
            n == v@.len(),
            from <= n,
            without_hashes(v@.skip(from as int)) == without_hashes(v@),
        decreases n - from,
    {
        assert(v@.skip(from as int)[0] == '#');
        assert(v@.skip(from as int).drop_first() =~= v@.skip(from + 1));
        from = from + 1;
    }
    let ghost code = v@.skip(from as int);
    assert(code.len() > 0 ==> code[0] == v@[from as int]);
    assert(without_hashes(trimmed(text@)) == code);
    if n - from != 6 {
        return None;
    }
    let mut digits: Vec<u8> = Vec::new();
    let mut i: usize = 0;
    while i < 6
        invariant
            i <= 6,
            n == v@.len(),
            n - from == 6,
            code == v@.skip(from as int),
            without_hashes(trimmed(text@)) == code,
            digits@.len() == i,
            forall|k: int|
                0 <= k < i ==> (#[trigger] digits@[k]) < 16 && digit_value(code[k], 16) == Some(
                    digits@[k] as nat,
                ),
        decreases 6 - i,
    {
        assert(code[i as int] == v@[from + i]);
        match digit(v[from + i], 16) {
            None => {
                assert(digit_value(code[i as int], 16) is None);
                return None;
            },
            Some(d) => {
                digits.push(d as u8);
            },
        }
        i = i + 1;
    }
    assert forall|k: int| 0 <= k < 6 implies (#[trigger] digit_value(code[k], 16)) is Some by {
        assert(digits@[k] < 16);
    }
    assert(digits@[0] < 16 && digits@[1] < 16 && digits@[2] < 16 && digits@[3] < 16 && digits@[4]
        < 16 && digits@[5] < 16);
    Some(
        (
            digits[0] * 16 + digits[1],
            digits[2] * 16 + digits[3],
            digits[4] * 16 + digits[5],
        ),
    )
}

proof fn lemma_hex_char(n: int, capital: bool)
    requires
        0 <= n < 16,
    ensures
        digit_value(hex_char(n, capital), 16) == Some(n as nat),
        hex_char(n, capital) != '#',
        !is_space(hex_char(n, capital)),
{
}

/// A colour that was written out reads back as itself, in either case.
pub proof fn law_written_color_reads_back(red: u8, green: u8, blue: u8, capital: bool)
    ensures
        color_of(hex_text(red, green, blue, capital)) == Some((red, green, blue)),
{
    let s = hex_text(red, green, blue, capital);
    lemma_hex_char(red as int / 16, capital);
    lemma_hex_char(red as int % 16, capital);
    lemma_hex_char(green as int / 16, capital);
    lemma_hex_char(green as int % 16, capital);
    lemma_hex_char(blue as int / 16, capital);
    lemma_hex_char(blue as int % 16, capital);
    assert(!is_space('#'));
    assert(trim_front(s) == s);
    assert(trim_back(s) == s);
    let code = s.drop_first();
    assert(code[0] != '#');
    assert(without_hashes(code) == code);
    assert(without_hashes(s) == code);
    assert(is_code(code)) by {
        assert forall|i: int| 0 <= i < 6 implies (#[trigger] digit_value(code[i], 16)) is Some by {
            assert(i == 0 || i == 1 || i == 2 || i == 3 || i == 4 || i == 5);
        }
    }
}

/// A colour is written red first, then green, then blue, each as the two digits of its value,
/// the higher one first.
pub proof fn law_colour_is_written_red_first(red: u8, green: u8, blue: u8, capital: bool)
    ensures
        ({
            let s = hex_text(red, green, blue, capital);
            &&& s.len() == 7
            &&& s[0] == '#'
            &&& crate::number::unsigned_value(s.subrange(1, 3), 16, 255) == Some(red as nat)
            &&& crate::number::unsigned_value(s.subrange(3, 5), 16, 255) == Some(green as nat)
            &&& crate::number::unsigned_value(s.subrange(5, 7), 16, 255) == Some(blue as nat)
        }),
{
    let s = hex_text(red, green, blue, capital);
    lemma_two_digits(s.subrange(1, 3), red, capital);
    lemma_two_digits(s.subrange(3, 5), green, capital);
    lemma_two_digits(s.subrange(5, 7), blue, capital);
}

proof fn lemma_two_digits(s: Seq<char>, n: u8, capital: bool)
    requires
        s.len() == 2,
        s[0] == hex_char(n as int / 16, capital),
        s[1] == hex_char(n as int % 16, capital),
    ensures
        crate::number::unsigned_value(s, 16, 255) == Some(n as nat),
{
    lemma_hex_char(n as int / 16, capital);
    lemma_hex_char(n as int % 16, capital);
    assert(s.drop_last().drop_last() =~= Seq::<char>::empty());
    assert(s.drop_last().last() == s[0]);
    reveal_with_fuel(crate::number::digits_value, 3);
}

/// The entry field shows capital letters and everything else small ones.
pub proof fn law_letters_are_in_the_case_asked_for(n: int)
    requires
        10 <= n < 16,
    ensures
        'A' <= hex_char(n, true) <= 'F',
        'a' <= hex_char(n, false) <= 'f',
{
}

/// Six digits are a colour, red first, with as many `#` before them as there are; anything
/// else is none.
pub proof fn law_six_digits_are_a_colour(code: Seq<char>)
    requires
        code.len() == 6,
        forall|i: int| 0 <= i < 6 ==> (#[trigger] digit_value(code[i], 16)) is Some,
    ensures
        color_of(code) is Some && color_of(seq!['#'] + code) == color_of(code),
        (color_of(code)->0).0 == 16 * digit_value(code[0], 16)->0 + digit_value(code[1], 16)->0,
        (color_of(code)->0).1 == 16 * digit_value(code[2], 16)->0 + digit_value(code[3], 16)->0,
        (color_of(code)->0).2 == 16 * digit_value(code[4], 16)->0 + digit_value(code[5], 16)->0,
{
    let s = seq!['#'] + code;
    assert(digit_value(code[0], 16) is Some && digit_value(code[1], 16) is Some);
    assert(digit_value(code[2], 16) is Some && digit_value(code[3], 16) is Some);
    assert(digit_value(code[4], 16) is Some && digit_value(code[5], 16) is Some);
    assert(code.last() == code[5] && s.last() == code[5]);
    assert(trim_front(code) == code && trim_back(code) == code);
    assert(trim_front(s) == s && trim_back(s) == s);
    assert(s.drop_first() =~= code);
    assert(without_hashes(code) == code);
    assert(without_hashes(s) == code);
}

/// A text of any other length behind its `#` is no colour.
pub proof fn law_other_lengths_are_no_colour(code: Seq<char>)
    requires
        code.len() > 0 && code[0] != '#',
        !is_space(code[0]) && !is_space(code.last()),
        code.len() != 6,
    ensures
        color_of(code) is None,
{
    assert(trim_front(code) == code && trim_back(code) == code);
}

} // verus!
