//! Numbers as text: what the kernel prints, what the helper accepts, and what the
//! records under the configuration directory hold.

use vstd::prelude::*;

use crate::text::chars_of;

verus! {

/// The value of one digit in bases up to sixteen, in either case.
pub open spec fn digit_value(c: char, radix: nat) -> Option<nat> {
    let n = c as u32;
    let d: int = if 0x30 <= n <= 0x39 {
        n - 0x30
    } else if 0x61 <= n <= 0x66 {
        n - 0x61 + 10
    } else if 0x41 <= n <= 0x46 {
        n - 0x41 + 10
    } else {
        16
    };
    if d < radix {
        Some(d as nat)
    } else {
        None
    }
}

/// The value of one digit.
pub fn digit(c: char, radix: u32) -> (r: Option<u32>)
    requires
        2 <= radix <= 16,
    ensures
        match r {
            Some(d) => digit_value(c, radix as nat) == Some(d as nat) && d < radix,
            None => digit_value(c, radix as nat) is None,
        },
{
    let n: u32 = c as u32;
    let d: u32 = if 0x30 <= n && n <= 0x39 {
        n - 0x30
    } else if 0x61 <= n && n <= 0x66 {
        n - 0x61 + 10
    } else if 0x41 <= n && n <= 0x46 {
        n - 0x41 + 10
    } else {
        16
    };
    if d < radix {
        Some(d)
    } else {
        None
    }
}

/// Whether every character is a digit of the base, with at least one of them.
pub open spec fn all_digits(s: Seq<char>, radix: nat) -> bool {
    s.len() > 0 && forall|i: int|
        0 <= i < s.len() ==> (#[trigger] digit_value(s[i], radix)) is Some
}

/// The number a sequence of digits denotes.
pub open spec fn digits_value(s: Seq<char>, radix: nat) -> nat
    decreases s.len(),
{
    if s.len() == 0 {
        0
    } else {
        digits_value(s.drop_last(), radix) * radix + digit_value(s.last(), radix).unwrap_or(0)
    }
}

/// Leading digits denote no more than all of them.
pub proof fn lemma_digits_value_grows(s: Seq<char>, i: int, radix: nat)
    requires
        radix >= 1,
        0 <= i <= s.len(),
    ensures
        digits_value(s.take(i), radix) <= digits_value(s, radix),
    decreases s.len() - i,
{
    if i == s.len() {
        assert(s.take(i) == s);
    } else {
        lemma_digits_value_grows(s, i + 1, radix);
        let t = s.take(i + 1);
        assert(t.drop_last() == s.take(i));
        let a = digits_value(s.take(i), radix);
        assert(a <= a * radix) by (nonlinear_arith)
            requires
                radix >= 1,
        ;
    }
}

/// What an unsigned number of at most `max` written in `s` denotes: an optional plus
/// sign, then digits.
pub open spec fn unsigned_value(s: Seq<char>, radix: nat, max: nat) -> Option<nat> {
    let body = if s.len() > 0 && s[0] == '+' {
        s.drop_first()
    } else {
        s
    };
    if all_digits(body, radix) && digits_value(body, radix) <= max {
        Some(digits_value(body, radix))
    } else {
        None
    }
}

fn digits_from(v: &Vec<char>, from: usize, radix: u32, max: u64) -> (r: Option<u64>)
    requires
        2 <= radix <= 16,
        from <= v@.len(),
    ensures
        match r {
            Some(n) => all_digits(v@.skip(from as int), radix as nat) && n == digits_value(
                v@.skip(from as int),
                radix as nat,
            ) && n <= max,
            None => !all_digits(v@.skip(from as int), radix as nat) || digits_value(
                v@.skip(from as int),
                radix as nat,
            ) > max,
        },
{
    let ghost s = v@.skip(from as int);
    if from == v.len() {
        return None;
    }
    let mut acc: u64 = 0;
    let mut i: usize = from;
    assert(s.take(0) == Seq::<char>::empty());
    while i < v.len()
        invariant
            2 <= radix <= 16,
            from <= i <= v@.len(),
            s == v@.skip(from as int),
            acc == digits_value(s.take(i - from), radix as nat),
            acc <= max,
            forall|k: int|
                0 <= k < i - from ==> (#[trigger] digit_value(s[k], radix as nat)) is Some,
        decreases v@.len() - i,
    {
        let c = v[i];
        assert(s[i - from] == c);
        let ghost t = s.take(i - from + 1);
        match digit(c, radix) {
            None => {
                return None;
            },
            Some(d) => {
                assert(t.drop_last() == s.take(i - from));
                assert(t.last() == c);
                assert(acc * radix <= 0xffff_ffff_ffff_ffff * 16) by (nonlinear_arith)
                    requires
                        acc <= 0xffff_ffff_ffff_ffff,
                        radix <= 16,
                ;
                let wide: u128 = (acc as u128) * (radix as u128) + (d as u128);
                assert(wide == digits_value(t, radix as nat));
                if wide > max as u128 {
                    proof {
                        lemma_digits_value_grows(s, i - from + 1, radix as nat);
                    }
                    return None;
                }
                acc = wide as u64;
            },
        }
        i = i + 1;
    }
    assert(s.take(i - from) == s);
    Some(acc)
}

/// Reads an unsigned number of at most `max`.
pub fn parse_unsigned(s: &str, radix: u32, max: u64) -> (r: Option<u64>)
    requires
        2 <= radix <= 16,
    ensures
        match r {
            Some(n) => unsigned_value(s@, radix as nat, max as nat) == Some(n as nat),
            None => unsigned_value(s@, radix as nat, max as nat) is None,
        },
        r is Some ==> r->0 <= max,
{
    let v = chars_of(s);
    if v.len() > 0 && v[0] == '+' {
        assert(v@.skip(1) == v@.drop_first());
        digits_from(&v, 1, radix, max)
    } else {
        assert(v@.skip(0) == v@);
        digits_from(&v, 0, radix, max)
    }
}

/// What a decimal number of at most `max` denotes.
pub open spec fn decimal_value(s: Seq<char>, max: nat) -> Option<nat> {
    unsigned_value(s, 10, max)
}

/// Reads a decimal byte.
pub fn parse_u8(s: &str) -> (r: Option<u8>)
    ensures
        match r {
            Some(n) => decimal_value(s@, 255) == Some(n as nat),
            None => decimal_value(s@, 255) is None,
        },
{
    match parse_unsigned(s, 10, 255) {
        Some(n) => Some(n as u8),
        None => None,
    }
}

/// Reads a decimal number of sixteen bits.
pub fn parse_u16_text(s: &str) -> (r: Option<u16>)
    ensures
        match r {
            Some(n) => decimal_value(s@, 0xffff) == Some(n as nat),
            None => decimal_value(s@, 0xffff) is None,
        },
{
    match parse_unsigned(s, 10, 0xffff) {
        Some(n) => Some(n as u16),
        None => None,
    }
}

/// Reads a decimal number of thirty-two bits.
pub fn parse_u32(s: &str) -> (r: Option<u32>)
    ensures
        match r {
            Some(n) => decimal_value(s@, 0xffff_ffff) == Some(n as nat),
            None => decimal_value(s@, 0xffff_ffff) is None,
        },
{
    match parse_unsigned(s, 10, 0xffff_ffff) {
        Some(n) => Some(n as u32),
        None => None,
    }
}

/// Reads a decimal number of sixty-four bits.
pub fn parse_u64(s: &str) -> (r: Option<u64>)
    ensures
        match r {
            Some(n) => decimal_value(s@, 0xffff_ffff_ffff_ffff) == Some(n as nat),
            None => decimal_value(s@, 0xffff_ffff_ffff_ffff) is None,
        },
{
    parse_unsigned(s, 10, 0xffff_ffff_ffff_ffff)
}

/// What a signed decimal number denotes, where its magnitude is at most `max`, or one more
/// below zero: an optional sign, then digits.
pub open spec fn signed_within(s: Seq<char>, max: nat) -> Option<int> {
    if s.len() > 0 && s[0] == '-' {
        let body = s.drop_first();
        if all_digits(body, 10) && digits_value(body, 10) <= max + 1 {
            Some(-(digits_value(body, 10) as int))
        } else {
            None
        }
    } else {
        match decimal_value(s, max) {
            Some(n) => Some(n as int),
            None => None,
        }
    }
}

/// What a signed decimal number of thirty-two bits denotes.
pub open spec fn signed_value(s: Seq<char>) -> Option<int> {
    signed_within(s, 0x7fff_ffff)
}

/// Reads a signed decimal number of sixty-four bits.
pub fn parse_i64(s: &str) -> (r: Option<i64>)
    ensures
        match r {
            Some(n) => signed_within(s@, 0x7fff_ffff_ffff_ffff) == Some(n as int),
            None => signed_within(s@, 0x7fff_ffff_ffff_ffff) is None,
        },
{
    let v = chars_of(s);
    if v.len() > 0 && v[0] == '-' {
        assert(v@.skip(1) == v@.drop_first());
        match digits_from(&v, 1, 10, 0x8000_0000_0000_0000) {
            Some(n) => if n == 0x8000_0000_0000_0000 {
                Some(-0x7fff_ffff_ffff_ffff - 1)
            } else {
                Some(-(n as i64))
            },
            None => None,
        }
    } else {
        match parse_unsigned(s, 10, 0x7fff_ffff_ffff_ffff) {
            Some(n) => Some(n as i64),
            None => None,
        }
    }
}

/// Reads a signed decimal number of thirty-two bits.
pub fn parse_i32(s: &str) -> (r: Option<i32>)
    ensures
        match r {
            Some(n) => signed_value(s@) == Some(n as int),
            None => signed_value(s@) is None,
        },
{
    let v = chars_of(s);
    if v.len() > 0 && v[0] == '-' {
        assert(v@.skip(1) == v@.drop_first());
        match digits_from(&v, 1, 10, 0x8000_0000) {
            Some(n) => Some((-(n as i64)) as i32),
            None => None,
        }
    } else {
        match parse_unsigned(s, 10, 0x7fff_ffff) {
            Some(n) => Some(n as i32),
            None => None,
        }
    }
}

// ---------------------------------------------------------------------------
// Why a number could not be read
// ---------------------------------------------------------------------------

/// Why the digits of a number cannot be read: the first of them that is no digit, or that
/// carries the number past `max`.
pub open spec fn digits_fault(s: Seq<char>, acc: nat, max: nat, overflow: Seq<char>) -> Seq<char>
    decreases s.len(),
{
    if s.len() == 0 {
        ""@
    } else {
        match digit_value(s[0], 10) {
            None => "invalid digit found in string"@,
            Some(d) => if acc * 10 + d > max {
                overflow
            } else {
                digits_fault(s.drop_first(), acc * 10 + d, max, overflow)
            },
        }
    }
}

/// Why a decimal number of at most `max` cannot be read from `s`. A minus sign is taken
/// where numbers are `signed`, which reach one further below zero.
pub open spec fn number_fault(s: Seq<char>, signed: bool, max: nat) -> Seq<char> {
    if s.len() == 0 {
        "cannot parse integer from empty string"@
    } else if s.len() == 1 && (s[0] == '+' || s[0] == '-') {
        "invalid digit found in string"@
    } else if s[0] == '+' {
        digits_fault(s.drop_first(), 0, max, "number too large to fit in target type"@)
    } else if signed && s[0] == '-' {
        digits_fault(s.drop_first(), 0, max + 1, "number too small to fit in target type"@)
    } else {
        digits_fault(s, 0, max, "number too large to fit in target type"@)
    }
}

fn digits_fault_from(v: &Vec<char>, from: usize, max: u64, overflow: &'static str) -> (r:
    &'static str)
    requires
        from <= v@.len(),
    ensures
        r@ == digits_fault(v@.skip(from as int), 0, max as nat, overflow@),
{
    let mut acc: u64 = 0;
    let mut i: usize = from;
    while i < v.len()
        invariant
            from <= i <= v@.len(),
            acc <= max,
            digits_fault(v@.skip(from as int), 0, max as nat, overflow@) == digits_fault(
                v@.skip(i as int),
                acc as nat,
                max as nat,
                overflow@,
            ),
        decreases v@.len() - i,
    {
        let ghost rest = v@.skip(i as int);
        assert(rest[0] == v@[i as int]);
        assert(rest.drop_first() == v@.skip(i + 1));
        match digit(v[i], 10) {
            None => {
                return "invalid digit found in string";
            },
            Some(d) => {
                let wide: u128 = (acc as u128) * 10 + (d as u128);
                if wide > max as u128 {
                    return overflow;
                }
                acc = wide as u64;
            },
        }
        i = i + 1;
    }
    ""
}

/// Why a decimal number of at most `max` cannot be read from `s`, in the words the
/// standard library uses for it.
pub fn number_error(s: &str, signed: bool, max: u64) -> (r: &'static str)
    requires
        max < 0xffff_ffff_ffff_ffff,
    ensures
        r@ == number_fault(s@, signed, max as nat),
{
    let v = chars_of(s);
    if v.len() == 0 {
        return "cannot parse integer from empty string";
    }
    if v.len() == 1 && (v[0] == '+' || v[0] == '-') {
        return "invalid digit found in string";
    }
    assert(v@.skip(1) == v@.drop_first());
    assert(v@.skip(0) == v@);
    if v[0] == '+' {
        digits_fault_from(&v, 1, max, "number too large to fit in target type")
    } else if signed && v[0] == '-' {
        digits_fault_from(&v, 1, max + 1, "number too small to fit in target type")
    } else {
        digits_fault_from(&v, 0, max, "number too large to fit in target type")
    }
}

// ---------------------------------------------------------------------------
// Printing
// ---------------------------------------------------------------------------

/// The character of a decimal digit.
pub open spec fn digit_char(d: nat) -> char {
    ((0x30 + d) as u8) as char
}

/// A number in decimal, without leading zeros.
pub open spec fn decimal_text(n: nat) -> Seq<char>
    decreases n,
{
    if n < 10 {
        seq![digit_char(n)]
    } else {
        decimal_text(n / 10).push(digit_char(n % 10))
    }
}

/// A number in decimal.
pub fn decimal(n: u64) -> (r: String)
    ensures
        r@ == decimal_text(n as nat),
    decreases n,
{
    let d: u8 = 0x30 + (n % 10) as u8;
    let c = d as char;
    if n < 10 {
        let mut out = String::new();
        out.push(c);
        assert(out@ == seq![digit_char(n as nat)]);
        out
    } else {
        let mut out = decimal(n / 10);
        out.push(c);
        out
    }
}

/// What `decimal` prints is digits alone, and they denote the number printed.
pub proof fn lemma_decimal_text(n: nat)
    ensures
        all_digits(decimal_text(n), 10),
        digits_value(decimal_text(n), 10) == n,
    decreases n,
{
    let c = digit_char(n % 10);
    assert(c as u32 == 0x30 + n % 10);
    if n < 10 {
        let t = decimal_text(n);
        assert(t.drop_last() == Seq::<char>::empty());
        assert(t.last() == c);
        assert(digits_value(t.drop_last(), 10) == 0);
        assert(digits_value(t, 10) == digit_value(c, 10).unwrap_or(0));
    } else {
        let head = decimal_text(n / 10);
        lemma_decimal_text(n / 10);
        let t = head.push(c);
        assert(t.drop_last() == head);
        assert forall|i: int| 0 <= i < t.len() implies (#[trigger] digit_value(t[i], 10)) is Some by {
            if i < head.len() {
                assert(t[i] == head[i]);
            }
        }
        assert(n == (n / 10) * 10 + n % 10);
    }
}

/// Reading back what was printed gives the number, wherever it fits.
pub proof fn law_decimal_round_trip(n: nat, max: nat)
    requires
        n <= max,
    ensures
        decimal_value(decimal_text(n), max) == Some(n),
{
    lemma_decimal_text(n);
    assert(digit_value(decimal_text(n)[0], 10) is Some);
}

/// A number in octal, without leading zeros.
pub open spec fn octal_text(n: nat) -> Seq<char>
    decreases n,
{
    if n < 8 {
        seq![digit_char(n)]
    } else {
        octal_text(n / 8).push(digit_char(n % 8))
    }
}

/// A number in octal.
pub fn octal(n: u32) -> (r: String)
    ensures
        r@ == octal_text(n as nat),
    decreases n,
{
    let d: u8 = 0x30 + (n % 8) as u8;
    let c = d as char;
    if n < 8 {
        let mut out = String::new();
        out.push(c);
        assert(out@ == seq![digit_char(n as nat)]);
        out
    } else {
        let mut out = octal(n / 8);
        out.push(c);
        out
    }
}

/// Digits are not white space.
pub proof fn lemma_digits_not_space(s: Seq<char>, radix: nat)
    requires
        all_digits(s, radix),
        radix <= 16,
    ensures
        forall|i: int| 0 <= i < s.len() ==> !crate::text::is_space(#[trigger] s[i]),
{
    assert forall|i: int| 0 <= i < s.len() implies !crate::text::is_space(#[trigger] s[i]) by {
        assert(digit_value(s[i], radix) is Some);
    }
}

/// Digits count up from zero, the letters go on from ten in either case, and no other
/// character is a digit. A radix knows the digits below it.
pub proof fn law_digits_count_up(c: char, radix: nat)
    requires
        radix <= 16,
    ensures
        ('0' as int) <= (c as int) <= ('9' as int) ==> (digit_value(c, radix) is Some <==> (c as int)
            - ('0' as int) < radix),
        ('a' as int) <= (c as int) <= ('f' as int) ==> (digit_value(c, radix) is Some <==> (c as int)
            - ('a' as int) + 10 < radix),
        ('A' as int) <= (c as int) <= ('F' as int) ==> (digit_value(c, radix) is Some <==> (c as int)
            - ('A' as int) + 10 < radix),
        digit_value(c, radix) is Some ==> {
            ||| (c as int) == ('0' as int) + digit_value(c, radix)->0
            ||| (c as int) + 10 == ('a' as int) + digit_value(c, radix)->0
            ||| (c as int) + 10 == ('A' as int) + digit_value(c, radix)->0
        },
{
}

/// A digit behind a number makes every digit before it count for one place more.
pub proof fn law_digits_count_by_place(s: Seq<char>, c: char, radix: nat, max: nat)
    requires
        2 <= radix <= 16,
        all_digits(s, radix),
        digit_value(c, radix) is Some,
        unsigned_value(s.push(c), radix, max) is Some,
    ensures
        unsigned_value(s, radix, max) is Some,
        unsigned_value(s.push(c), radix, max)->0 == radix * unsigned_value(s, radix, max)->0
            + digit_value(c, radix)->0,
{
    let t = s.push(c);
    assert(t.drop_last() == s);
    assert(t.last() == c);
    assert(digit_value(s[0], radix) is Some);
    assert(t[0] == s[0]);
    assert forall|i: int| 0 <= i < t.len() implies (#[trigger] digit_value(t[i], radix)) is Some by {
        if i < s.len() {
            assert(t[i] == s[i]);
        }
    }
    let v = digits_value(s, radix);
    assert(v <= v * radix) by (nonlinear_arith)
        requires
            radix >= 2,
    ;
    assert(v * radix == radix * v) by (nonlinear_arith);
}

/// A number that is read is the same under every limit that it keeps, and a plus sign before
/// it changes nothing.
pub proof fn law_limit_only_refuses(s: Seq<char>, radix: nat, max: nat, other: nat)
    requires
        2 <= radix <= 16,
        unsigned_value(s, radix, max) is Some,
    ensures
        unsigned_value(s, radix, max)->0 <= max,
        unsigned_value(s, radix, other) is Some <==> unsigned_value(s, radix, max)->0 <= other,
        unsigned_value(s, radix, other) is Some ==> unsigned_value(s, radix, other)
            == unsigned_value(s, radix, max),
        s.len() > 0,
        s[0] != '+' ==> unsigned_value(seq!['+'] + s, radix, max) == unsigned_value(
            s,
            radix,
            max,
        ),
{
    assert((seq!['+'] + s).drop_first() == s);
}

/// What holds a character that is no digit, but for one sign in front, is no number.
pub proof fn law_only_digits_are_read(s: Seq<char>, i: int, radix: nat, max: nat)
    requires
        0 <= i < s.len(),
        digit_value(s[i], radix) is None,
        i > 0 || s[i] != '+',
    ensures
        unsigned_value(s, radix, max) is None,
{
    if s[0] == '+' {
        assert(s.drop_first()[i - 1] == s[i]);
    }
}

/// A minus sign before a number turns it round, and without one it stands for itself.
pub proof fn law_signed_numbers_round_trip(n: nat, max: nat)
    ensures
        n <= max + 1 ==> signed_within(seq!['-'] + decimal_text(n), max) == Some(-(n as int)),
        n <= max ==> signed_within(decimal_text(n), max) == Some(n as int),
        n > max + 1 ==> signed_within(seq!['-'] + decimal_text(n), max) is None,
        n > max ==> signed_within(decimal_text(n), max) is None,
        signed_value(decimal_text(n)) is Some <==> n <= 0x7fff_ffff,
        signed_value(seq!['-'] + decimal_text(n)) is Some <==> n <= 0x8000_0000,
{
    lemma_decimal_text(n);
    assert((seq!['-'] + decimal_text(n)).drop_first() == decimal_text(n));
    assert(digit_value(decimal_text(n)[0], 10) is Some);
}

/// A number in decimal begins with a zero only where it is zero.
pub proof fn law_decimal_text_has_no_leading_zero(n: nat)
    ensures
        decimal_text(n).len() > 0,
        decimal_text(n)[0] == '0' <==> n == 0,
        decimal_text(n).len() == 1 <==> n < 10,
    decreases n,
{
    if n >= 10 {
        law_decimal_text_has_no_leading_zero(n / 10);
    }
}

/// A number in octal denotes itself, and begins with a zero only where it is zero.
pub proof fn law_octal_text_denotes_its_number(n: nat)
    ensures
        all_digits(octal_text(n), 8),
        digits_value(octal_text(n), 8) == n,
        octal_text(n)[0] == '0' <==> n == 0,
    decreases n,
{
    let c = digit_char(n % 8);
    assert(c as u32 == 0x30 + n % 8);
    let t = octal_text(n);
    if n < 8 {
        assert(t.drop_last() == Seq::<char>::empty());
        assert(t.last() == c);
        assert(digits_value(t.drop_last(), 8) == 0);
    } else {
        let head = octal_text(n / 8);
        law_octal_text_denotes_its_number(n / 8);
        assert(t.drop_last() == head);
        assert(t.last() == c);
        assert forall|i: int| 0 <= i < t.len() implies (#[trigger] digit_value(t[i], 8)) is Some by {
            if i < head.len() {
                assert(t[i] == head[i]);
            }
        }
    }
}

proof fn lemma_fault_of_digits(p: Seq<char>, s: Seq<char>, max: nat, overflow: Seq<char>)
    requires
        forall|i: int| 0 <= i < s.len() ==> (#[trigger] digit_value(s[i], 10)) is Some,
        digits_value(p, 10) <= max < digits_value(p + s, 10),
    ensures
        digits_fault(s, digits_value(p, 10), max, overflow) == overflow,
    decreases s.len(),
{
    if s.len() == 0 {
        assert(p + s == p);
    } else {
        assert(digit_value(s[0], 10) is Some);
        let q = p.push(s[0]);
        assert(q.drop_last() == p);
        assert(q.last() == s[0]);
        assert(q + s.drop_first() == p + s);
        if digits_value(q, 10) <= max {
            assert forall|i: int| 0 <= i < s.drop_first().len() implies (#[trigger] digit_value(
                s.drop_first()[i],
                10,
            )) is Some by {
                assert(s.drop_first()[i] == s[i + 1]);
            }
            lemma_fault_of_digits(q, s.drop_first(), max, overflow);
        }
    }
}

/// Digits that denote more than the limit are too large, and after a minus sign too small.
pub proof fn law_digits_over_the_limit_are_named(s: Seq<char>, max: nat)
    requires
        all_digits(s, 10),
    ensures
        digits_value(s, 10) > max ==> number_fault(s, false, max)
            == "number too large to fit in target type"@ && number_fault(s, true, max)
            == "number too large to fit in target type"@,
        digits_value(s, 10) > max + 1 ==> number_fault(seq!['-'] + s, true, max)
            == "number too small to fit in target type"@,
{
    assert(digit_value(s[0], 10) is Some);
    assert(Seq::<char>::empty() + s == s);
    assert(digits_value(Seq::<char>::empty(), 10) == 0);
    assert((seq!['-'] + s).drop_first() == s);
    if digits_value(s, 10) > max {
        lemma_fault_of_digits(
            Seq::empty(),
            s,
            max,
            "number too large to fit in target type"@,
        );
    }
    if digits_value(s, 10) > max + 1 {
        lemma_fault_of_digits(
            Seq::empty(),
            s,
            max + 1,
            "number too small to fit in target type"@,
        );
    }
}

/// What begins with a character that is neither a digit nor a sign is said to hold one that
/// is no digit, and so is a minus sign where numbers have none; nothing at all is said to be
/// empty.
pub proof fn law_other_characters_are_named(s: Seq<char>, signed: bool, max: nat)
    ensures
        s.len() == 0 ==> number_fault(s, signed, max)
            == "cannot parse integer from empty string"@,
        s.len() > 0 && digit_value(s[0], 10) is None && s[0] != '+' && s[0] != '-'
            ==> number_fault(s, signed, max) == "invalid digit found in string"@,
        s.len() > 0 && s[0] == '-' ==> number_fault(s, false, max)
            == "invalid digit found in string"@,
{
}

} // verus!
