//! Text as kernel attributes, configuration files and command lines carry it.
//!
//! Every function here speaks of a string through its sequence of characters,
//! so the contracts of the rest of the crate can say what a file or an argument
//! means without going through bytes.

use vstd::prelude::*;

verus! {

/// `std::string::String::push` appends one character and changes nothing else.
pub assume_specification[ String::push ](s: &mut String, c: char)
    ensures
        final(s)@ == old(s)@.push(c),
;

/// The character sequences of a list of strings.
pub open spec fn texts(list: Seq<String>) -> Seq<Seq<char>> {
    Seq::new(list.len(), |i: int| list[i]@)
}

/// The characters of an optional string.
pub open spec fn text_of(text: Option<String>) -> Option<Seq<char>> {
    match text {
        Some(t) => Some(t@),
        None => None,
    }
}

/// Whether two strings hold the same characters.
pub fn same(a: &str, b: &str) -> (r: bool)
    ensures
        r == (a@ == b@),
{
    a.to_owned() == b.to_owned()
}

/// The characters of a string, in order.
pub fn chars_of(s: &str) -> (r: Vec<char>)
    ensures
        r@ == s@,
{
    let mut out: Vec<char> = Vec::new();
    for c in it: s.chars()
        invariant
            out@ == it.seq().take(it.index() as int),
    {
        assert(it.seq().take(it.index() + 1) == it.seq().take(it.index() as int).push(c));
        out.push(c);
    }
    assert(out@ == s@);
    out
}

/// Two texts, one after the other.
pub fn cat2(a: &str, b: &str) -> (r: String)
    ensures
        r@ == a@ + b@,
{
    let mut out = a.to_owned();
    out.append(b);
    out
}

/// Three texts, one after the other.
pub fn cat3(a: &str, b: &str, c: &str) -> (r: String)
    ensures
        r@ == a@ + b@ + c@,
{
    let mut out = a.to_owned();
    out.append(b);
    out.append(c);
    out
}

/// Four texts, one after the other.
pub fn cat4(a: &str, b: &str, c: &str, d: &str) -> (r: String)
    ensures
        r@ == a@ + b@ + c@ + d@,
{
    let mut out = cat3(a, b, c);
    out.append(d);
    out
}

/// Five texts, one after the other.
pub fn cat5(a: &str, b: &str, c: &str, d: &str, e: &str) -> (r: String)
    ensures
        r@ == a@ + b@ + c@ + d@ + e@,
{
    let mut out = cat4(a, b, c, d);
    out.append(e);
    out
}

/// A result whose error is taken as text.
pub open spec fn outcome<T>(r: Result<T, String>) -> Result<T, Seq<char>> {
    match r {
        Ok(v) => Ok(v),
        Err(e) => Err(e@),
    }
}

/// A result that is text either way.
pub open spec fn reading(r: Result<String, String>) -> Result<Seq<char>, Seq<char>> {
    match r {
        Ok(v) => Ok(v@),
        Err(e) => Err(e@),
    }
}

/// An optional result that is text either way.
pub open spec fn optional_reading(r: Option<Result<String, String>>) -> Option<
    Result<Seq<char>, Seq<char>>,
> {
    match r {
        Some(v) => Some(reading(v)),
        None => None,
    }
}

/// The code point of a character.
pub fn code(c: char) -> (r: u32)
    ensures
        r == c as int,
{
    c as u32
}

/// The string made of `chars[from..to]`.
pub fn string_between(chars: &Vec<char>, from: usize, to: usize) -> (r: String)
    requires
        from <= to <= chars@.len(),
    ensures
        r@ == chars@.subrange(from as int, to as int),
{
    let mut out = String::new();
    let mut i: usize = from;
    while i < to
        invariant
            from <= i <= to <= chars@.len(),
            out@ == chars@.subrange(from as int, i as int),
        decreases to - i,
    {
        out.push(chars[i]);
        i = i + 1;
        assert(out@ == chars@.subrange(from as int, i as int));
    }
    out
}

// ---------------------------------------------------------------------------
// White space
// ---------------------------------------------------------------------------

/// The characters with Unicode's `White_Space` property.
pub open spec fn is_space(c: char) -> bool {
    let n = c as u32;
    ||| 0x9 <= n <= 0xd
    ||| n == 0x20
    ||| n == 0x85
    ||| n == 0xa0
    ||| n == 0x1680
    ||| 0x2000 <= n <= 0x200a
    ||| n == 0x2028
    ||| n == 0x2029
    ||| n == 0x202f
    ||| n == 0x205f
    ||| n == 0x3000
}

/// Whether a character is white space.
pub fn is_whitespace(c: char) -> (r: bool)
    ensures
        r == is_space(c),
{
    let n: u32 = c as u32;
    (0x9 <= n && n <= 0xd) || n == 0x20 || n == 0x85 || n == 0xa0 || n == 0x1680 || (0x2000 <= n
        && n <= 0x200a) || n == 0x2028 || n == 0x2029 || n == 0x202f || n == 0x205f || n == 0x3000
}

/// `s` without its leading white space.
pub open spec fn trim_front(s: Seq<char>) -> Seq<char>
    decreases s.len(),
{
    if s.len() > 0 && is_space(s[0]) {
        trim_front(s.drop_first())
    } else {
        s
    }
}

/// `s` without its trailing white space.
pub open spec fn trim_back(s: Seq<char>) -> Seq<char>
    decreases s.len(),
{
    if s.len() > 0 && is_space(s.last()) {
        trim_back(s.drop_last())
    } else {
        s
    }
}

/// `s` without the white space around it.
pub open spec fn trimmed(s: Seq<char>) -> Seq<char> {
    trim_back(trim_front(s))
}

/// A string without the white space around it.
pub fn trim(s: &str) -> (r: String)
    ensures
        r@ == trimmed(s@),
{
    let v = chars_of(s);
    let n: usize = v.len();
    let mut i: usize = 0;
    assert(v@.skip(0) == v@);
    while i < n && is_whitespace(v[i])
        invariant
            n == v@.len(),
            i <= n,
            trim_front(v@) == trim_front(v@.skip(i as int)),
        decreases n - i,
    {
        assert(v@.skip(i as int).drop_first() == v@.skip(i + 1));
        i = i + 1;
    }
    assert(trim_front(v@) == v@.skip(i as int));
    let mut j: usize = n;
    assert(v@.skip(i as int) == v@.subrange(i as int, n as int));
    while j > i && is_whitespace(v[j - 1])
        invariant
            n == v@.len(),
            i <= j <= n,
            trim_back(v@.subrange(i as int, n as int)) == trim_back(
                v@.subrange(i as int, j as int),
            ),
        decreases j,
    {
        assert(v@.subrange(i as int, j as int).last() == v@[j - 1]);
        assert(v@.subrange(i as int, j as int).drop_last() == v@.subrange(i as int, j - 1));
        j = j - 1;
    }
    proof {
        let t = v@.subrange(i as int, j as int);
        if t.len() > 0 {
            assert(t.last() == v@[j - 1]);
        }
        assert(trim_back(t) == t);
    }
    string_between(&v, i, j)
}

/// Trimming removes the line ending that a written attribute ends with.
pub proof fn lemma_trimmed_line(s: Seq<char>)
    requires
        s.len() > 0,
        !is_space(s[0]),
        !is_space(s.last()),
    ensures
        trimmed(s.push('\n')) == s,
{
    let t = s.push('\n');
    assert(t[0] == s[0]);
    assert(trim_front(t) == t);
    assert(t.last() == '\n');
    assert(t.drop_last() == s);
    assert(trim_back(s) == s);
}

/// The words of `cur` followed by `s`: the longest stretches without white space.
pub open spec fn words_from(cur: Seq<char>, s: Seq<char>) -> Seq<Seq<char>>
    decreases s.len(),
{
    if s.len() == 0 {
        if cur.len() == 0 {
            seq![]
        } else {
            seq![cur]
        }
    } else if !is_space(s[0]) {
        words_from(cur.push(s[0]), s.drop_first())
    } else if cur.len() == 0 {
        words_from(seq![], s.drop_first())
    } else {
        seq![cur] + words_from(seq![], s.drop_first())
    }
}

/// The words of `s`, separated by white space.
pub open spec fn words_of(s: Seq<char>) -> Seq<Seq<char>> {
    words_from(seq![], s)
}

/// The words of a string, in order.
pub fn words(s: &str) -> (r: Vec<String>)
    ensures
        texts(r@) == words_of(s@),
{
    let v = chars_of(s);
    let mut out: Vec<String> = Vec::new();
    let mut cur = String::new();
    let mut i: usize = 0;
    let ghost mut acc: Seq<Seq<char>> = seq![];
    assert(v@.skip(0) == v@);
    assert(cur@ == Seq::<char>::empty());
    assert(acc + words_from(cur@, v@) == words_of(v@));
    assert(texts(out@) == acc);
    while i < v.len()
        invariant
            i <= v@.len(),
            texts(out@) == acc,
            acc + words_from(cur@, v@.skip(i as int)) == words_of(v@),
        decreases v@.len() - i,
    {
        let c = v[i];
        let ghost rest = v@.skip(i as int);
        assert(rest[0] == c);
        assert(rest.drop_first() == v@.skip(i + 1));
        if !is_whitespace(c) {
            cur.push(c);
        } else if cur.as_str().is_empty() {
            assert(cur@ == Seq::<char>::empty());
        } else {
            let ghost tail = words_from(seq![], v@.skip(i + 1));
            assert(acc + (seq![cur@] + tail) == acc.push(cur@) + tail);
            proof {
                acc = acc.push(cur@);
            }
            out.push(cur);
            cur = String::new();
            assert(texts(out@) == acc);
        }
        i = i + 1;
    }
    assert(v@.skip(i as int) == Seq::<char>::empty());
    if !cur.as_str().is_empty() {
        assert(acc + seq![cur@] == acc.push(cur@));
        out.push(cur);
        assert(texts(out@) == acc.push(cur@));
    } else {
        assert(acc + seq![] == acc);
    }
    out
}

/// A word is one word.
pub proof fn lemma_words_of_word(cur: Seq<char>, w: Seq<char>, rest: Seq<char>)
    requires
        forall|i: int| 0 <= i < w.len() ==> !is_space(#[trigger] w[i]),
    ensures
        words_from(cur, w + rest) == words_from(cur + w, rest),
    decreases w.len(),
{
    if w.len() == 0 {
        assert(w + rest == rest);
        assert(cur + w == cur);
    } else {
        let s = w + rest;
        assert(s[0] == w[0]);
        assert(s.drop_first() == w.drop_first() + rest);
        assert forall|i: int| 0 <= i < w.drop_first().len() implies !is_space(
            #[trigger] w.drop_first()[i],
        ) by {
            assert(w.drop_first()[i] == w[i + 1]);
        }
        lemma_words_of_word(cur.push(w[0]), w.drop_first(), rest);
        assert(cur.push(w[0]) + w.drop_first() == cur + w);
    }
}

// ---------------------------------------------------------------------------
// Lines
// ---------------------------------------------------------------------------

/// `s` without one trailing carriage return.
pub open spec fn without_return(s: Seq<char>) -> Seq<char> {
    if s.len() > 0 && s.last() == '\r' {
        s.drop_last()
    } else {
        s
    }
}

/// The lines of `cur` followed by `s`.
pub open spec fn lines_from(cur: Seq<char>, s: Seq<char>) -> Seq<Seq<char>>
    decreases s.len(),
{
    if s.len() == 0 {
        if cur.len() == 0 {
            seq![]
        } else {
            seq![cur]
        }
    } else if s[0] == '\n' {
        seq![without_return(cur)] + lines_from(seq![], s.drop_first())
    } else {
        lines_from(cur.push(s[0]), s.drop_first())
    }
}

/// The lines of `s`: each ends at a line feed, which is not part of it, nor is a
/// carriage return just before it. The last line may have no ending.
pub open spec fn lines_of(s: Seq<char>) -> Seq<Seq<char>> {
    lines_from(seq![], s)
}

/// The lines of a string, in order.
pub fn lines(s: &str) -> (r: Vec<String>)
    ensures
        texts(r@) == lines_of(s@),
{
    let v = chars_of(s);
    let mut out: Vec<String> = Vec::new();
    let mut start: usize = 0;
    let mut i: usize = 0;
    let ghost mut acc: Seq<Seq<char>> = seq![];
    assert(v@.skip(0) == v@);
    assert(v@.subrange(0, 0) == Seq::<char>::empty());
    assert(acc + lines_from(seq![], v@) == lines_of(v@));
    assert(texts(out@) == acc);
    while i < v.len()
        invariant
            start <= i <= v@.len(),
            texts(out@) == acc,
            acc + lines_from(v@.subrange(start as int, i as int), v@.skip(i as int)) == lines_of(
                v@,
            ),
        decreases v@.len() - i,
    {
        let ghost cur = v@.subrange(start as int, i as int);
        let ghost rest = v@.skip(i as int);
        assert(rest[0] == v@[i as int]);
        assert(rest.drop_first() == v@.skip(i + 1));
        if v[i] == '\n' {
            let end: usize = if i > start && v[i - 1] == '\r' {
                i - 1
            } else {
                i
            };
            let line = string_between(&v, start, end);
            proof {
                if i > start {
                    assert(cur.last() == v@[i - 1]);
                }
                assert(line@ == without_return(cur));
                let tail = lines_from(seq![], v@.skip(i + 1));
                assert(acc + (seq![line@] + tail) == acc.push(line@) + tail);
                acc = acc.push(line@);
            }
            out.push(line);
            assert(texts(out@) == acc);
            start = i + 1;
            assert(v@.subrange(start as int, i + 1) == Seq::<char>::empty());
        } else {
            assert(cur.push(v@[i as int]) == v@.subrange(start as int, i + 1));
        }
        i = i + 1;
    }
    assert(v@.skip(i as int) == Seq::<char>::empty());
    if start < i {
        let line = string_between(&v, start, i);
        assert(acc + seq![line@] == acc.push(line@));
        out.push(line);
        assert(texts(out@) == acc.push(v@.subrange(start as int, i as int)));
    } else {
        assert(acc + seq![] == acc);
    }
    out
}

/// A line and its ending come off the front of a text.
pub proof fn lemma_lines_of_line(cur: Seq<char>, line: Seq<char>, rest: Seq<char>)
    requires
        forall|i: int| 0 <= i < line.len() ==> #[trigger] line[i] != '\n',
    ensures
        lines_from(cur, line + seq!['\n'] + rest) == seq![without_return(cur + line)] + lines_of(
            rest,
        ),
    decreases line.len(),
{
    let s = line + seq!['\n'] + rest;
    if line.len() == 0 {
        assert(s[0] == '\n');
        assert(s.drop_first() == rest);
        assert(cur + line == cur);
    } else {
        assert(s[0] == line[0]);
        assert(s.drop_first() == line.drop_first() + seq!['\n'] + rest);
        assert forall|i: int| 0 <= i < line.drop_first().len() implies #[trigger] line.drop_first()[i]
            != '\n' by {
            assert(line.drop_first()[i] == line[i + 1]);
        }
        lemma_lines_of_line(cur.push(line[0]), line.drop_first(), rest);
        assert(cur.push(line[0]) + line.drop_first() == cur + line);
    }
}

/// The fields of `cur` followed by `s`, separated by `sep`.
pub open spec fn fields_from(cur: Seq<char>, s: Seq<char>, sep: char) -> Seq<Seq<char>>
    decreases s.len(),
{
    if s.len() == 0 {
        seq![cur]
    } else if s[0] == sep {
        seq![cur] + fields_from(seq![], s.drop_first(), sep)
    } else {
        fields_from(cur.push(s[0]), s.drop_first(), sep)
    }
}

/// The fields of `s`, separated by `sep`; a text without it is one field.
pub open spec fn fields_of(s: Seq<char>, sep: char) -> Seq<Seq<char>> {
    fields_from(seq![], s, sep)
}

/// The fields of a string, in order.
pub fn split(s: &str, sep: char) -> (r: Vec<String>)
    ensures
        texts(r@) == fields_of(s@, sep),
{
    let v = chars_of(s);
    let mut out: Vec<String> = Vec::new();
    let mut start: usize = 0;
    let mut i: usize = 0;
    let ghost mut acc: Seq<Seq<char>> = seq![];
    assert(v@.skip(0) == v@);
    assert(v@.subrange(0, 0) == Seq::<char>::empty());
    assert(acc + fields_from(seq![], v@, sep) == fields_of(v@, sep));
    assert(texts(out@) == acc);
    while i < v.len()
        invariant
            start <= i <= v@.len(),
            texts(out@) == acc,
            acc + fields_from(v@.subrange(start as int, i as int), v@.skip(i as int), sep)
                == fields_of(v@, sep),
        decreases v@.len() - i,
    {
        let ghost cur = v@.subrange(start as int, i as int);
        let ghost rest = v@.skip(i as int);
        assert(rest[0] == v@[i as int]);
        assert(rest.drop_first() == v@.skip(i + 1));
        if v[i] == sep {
            let field = string_between(&v, start, i);
            proof {
                let tail = fields_from(seq![], v@.skip(i + 1), sep);
                assert(acc + (seq![field@] + tail) == acc.push(field@) + tail);
                acc = acc.push(field@);
            }
            out.push(field);
            assert(texts(out@) == acc);
            start = i + 1;
            assert(v@.subrange(start as int, i + 1) == Seq::<char>::empty());
        } else {
            assert(cur.push(v@[i as int]) == v@.subrange(start as int, i + 1));
        }
        i = i + 1;
    }
    assert(v@.skip(i as int) == Seq::<char>::empty());
    let field = string_between(&v, start, i);
    assert(acc + seq![field@] == acc.push(field@));
    out.push(field);
    assert(texts(out@) == acc.push(v@.subrange(start as int, i as int)));
    out
}

/// The parts joined with `sep` between them.
pub open spec fn joined(parts: Seq<Seq<char>>, sep: Seq<char>) -> Seq<char>
    decreases parts.len(),
{
    if parts.len() == 0 {
        seq![]
    } else if parts.len() == 1 {
        parts[0]
    } else {
        joined(parts.drop_last(), sep) + sep + parts.last()
    }
}

/// Joins the parts with `sep` between them.
pub fn join(parts: &Vec<String>, sep: &str) -> (r: String)
    ensures
        r@ == joined(texts(parts@), sep@),
{
    if parts.len() == 0 {
        return String::new();
    }
    let mut out = parts[0].clone();
    let mut i: usize = 1;
    let ghost t = texts(parts@);
    assert(t.take(1) == seq![t[0]]);
    while i < parts.len()
        invariant
            t == texts(parts@),
            1 <= i <= parts@.len(),
            out@ == joined(t.take(i as int), sep@),
        decreases parts@.len() - i,
    {
        out.append(sep);
        out.append(parts[i].as_str());
        assert(t.take(i + 1).drop_last() == t.take(i as int));
        assert(t.take(i + 1).last() == parts@[i as int]@);
        i = i + 1;
    }
    assert(t.take(i as int) == t);
    out
}

// ---------------------------------------------------------------------------
// Searching
// ---------------------------------------------------------------------------

/// Whether `needle` stands in `s` at position `at`.
pub open spec fn stands_at(s: Seq<char>, needle: Seq<char>, at: int) -> bool {
    0 <= at && at + needle.len() <= s.len() && s.subrange(at, at + needle.len()) == needle
}

/// Whether `needle` stands anywhere in `s`.
pub open spec fn occurs(s: Seq<char>, needle: Seq<char>) -> bool {
    exists|at: int| stands_at(s, needle, at)
}

fn stands_here(v: &Vec<char>, w: &Vec<char>, at: usize) -> (r: bool)
    requires
        at + w@.len() <= v@.len(),
    ensures
        r == stands_at(v@, w@, at as int),
{
    let n: usize = v.len();
    let mut j: usize = 0;
    while j < w.len()
        invariant
            at + w@.len() <= n == v@.len(),
            j <= w@.len(),
            forall|k: int| 0 <= k < j ==> v@[at + k] == w@[k],
        decreases w@.len() - j,
    {
        if v[at + j] != w[j] {
            assert(v@.subrange(at as int, at + w@.len())[j as int] == v@[at + j]);
            return false;
        }
        j = j + 1;
    }
    assert(v@.subrange(at as int, at + w@.len()) == w@);
    true
}

/// Whether `needle` stands anywhere in `s`.
pub fn contains(s: &str, needle: &str) -> (r: bool)
    ensures
        r == occurs(s@, needle@),
{
    let v = chars_of(s);
    let w = chars_of(needle);
    if w.len() > v.len() {
        return false;
    }
    let last: usize = v.len() - w.len();
    let mut i: usize = 0;
    while i <= last
        invariant
            last + w@.len() == v@.len(),
            i <= last + 1,
            v@ == s@,
            w@ == needle@,
            forall|at: int| 0 <= at < i ==> !stands_at(v@, w@, at),
        decreases last + 1 - i,
    {
        if stands_here(&v, &w, i) {
            return true;
        }
        if i == last {
            assert(forall|at: int| stands_at(v@, w@, at) ==> at <= last);
            return false;
        }
        i = i + 1;
    }
    false
}

/// Whether `s` starts with `prefix`.
pub fn starts_with(s: &str, prefix: &str) -> (r: bool)
    ensures
        r == stands_at(s@, prefix@, 0),
{
    let v = chars_of(s);
    let w = chars_of(prefix);
    w.len() <= v.len() && stands_here(&v, &w, 0)
}

/// Whether `s` ends with `suffix`.
pub fn ends_with(s: &str, suffix: &str) -> (r: bool)
    ensures
        r == stands_at(s@, suffix@, s@.len() - suffix@.len()),
{
    let v = chars_of(s);
    let w = chars_of(suffix);
    w.len() <= v.len() && stands_here(&v, &w, v.len() - w.len())
}

/// `s` with every `from` replaced by `to`.
pub open spec fn replaced(s: Seq<char>, from: char, to: char) -> Seq<char> {
    Seq::new(
        s.len(),
        |i: int|
            if s[i] == from {
                to
            } else {
                s[i]
            },
    )
}

/// A string with every `from` replaced by `to`.
pub fn replace(s: &str, from: char, to: char) -> (r: String)
    ensures
        r@ == replaced(s@, from, to),
{
    let v = chars_of(s);
    let mut out = String::new();
    let mut i: usize = 0;
    let ghost all = replaced(v@, from, to);
    assert(out@ == all.take(0));
    while i < v.len()
        invariant
            i <= v@.len(),
            all == replaced(v@, from, to),
            out@ == all.take(i as int),
        decreases v@.len() - i,
    {
        let c: char = if v[i] == from {
            to
        } else {
            v[i]
        };
        assert(all.take(i + 1) == all.take(i as int).push(c));
        out.push(c);
        i = i + 1;
    }
    assert(all.take(i as int) == all);
    out
}

/// What `str::to_lowercase` makes of a text.
pub uninterp spec fn lowercase(s: Seq<char>) -> Seq<char>;

/// Whether every character is an ASCII one.
pub open spec fn all_ascii(s: Seq<char>) -> bool {
    forall|i: int| 0 <= i < s.len() ==> (#[trigger] s[i] as u32) < 0x80
}

/// `str::to_lowercase` goes by the Unicode properties of the text and by nothing else. Of an
/// ASCII text it is the text in ASCII lower case.
pub assume_specification[ str::to_lowercase ](s: &str) -> (r: String)
    ensures
        r@ == lowercase(s@),
        all_ascii(s@) ==> r@ == lowered(s@),
;

/// A character in ASCII lower case.
pub open spec fn lower_char(c: char) -> char {
    if 0x41 <= c as int <= 0x5a {
        ((c as int + 0x20) as u8) as char
    } else {
        c
    }
}

/// A text in ASCII lower case.
pub open spec fn lowered(s: Seq<char>) -> Seq<char> {
    Seq::new(s.len(), |i: int| lower_char(s[i]))
}

fn to_lower(c: char) -> (r: char)
    ensures
        r == lower_char(c),
{
    let n: u32 = code(c);
    if 0x41 <= n && n <= 0x5a {
        (n as u8 + 0x20) as char
    } else {
        c
    }
}

/// A string in ASCII lower case.
pub fn to_ascii_lowercase(s: &str) -> (r: String)
    ensures
        r@ == lowered(s@),
{
    let v = chars_of(s);
    let mut out = String::new();
    let mut i: usize = 0;
    let ghost all = lowered(v@);
    assert(out@ == all.take(0));
    while i < v.len()
        invariant
            i <= v@.len(),
            all == lowered(v@),
            out@ == all.take(i as int),
        decreases v@.len() - i,
    {
        let c: char = to_lower(v[i]);
        assert(all.take(i + 1) == all.take(i as int).push(c));
        out.push(c);
        i = i + 1;
    }
    assert(all.take(i as int) == all);
    out
}

/// Whether the list holds a string with these characters.
pub fn list_has(list: &Vec<String>, s: &str) -> (r: bool)
    ensures
        r == texts(list@).contains(s@),
{
    let mut i: usize = 0;
    while i < list.len()
        invariant
            i <= list@.len(),
            forall|k: int| 0 <= k < i ==> list@[k]@ != s@,
        decreases list@.len() - i,
    {
        if same(list[i].as_str(), s) {
            assert(texts(list@)[i as int] == s@);
            return true;
        }
        i = i + 1;
    }
    assert forall|k: int| 0 <= k < texts(list@).len() implies texts(list@)[k] != s@ by {
        assert(texts(list@)[k] == list@[k]@);
    }
    false
}

/// Blanks, tabs and line ends are white space; no visible ASCII character is.
pub proof fn law_visible_characters_are_no_space(c: char)
    ensures
        c == ' ' || c == '\t' || c == '\n' || c == '\r' ==> is_space(c),
        ('!' as int) <= (c as int) <= ('~' as int) ==> !is_space(c),
{
}

proof fn lemma_trim_front_is_a_tail(s: Seq<char>) -> (n: int)
    ensures
        0 <= n <= s.len(),
        trim_front(s) == s.skip(n),
        forall|i: int| 0 <= i < n ==> is_space(#[trigger] s[i]),
        n < s.len() ==> !is_space(s[n]),
    decreases s.len(),
{
    if s.len() > 0 && is_space(s[0]) {
        let rest = s.drop_first();
        let k = lemma_trim_front_is_a_tail(rest);
        assert(rest.skip(k) == s.skip(k + 1));
        assert forall|i: int| 0 <= i < k + 1 implies is_space(#[trigger] s[i]) by {
            if i > 0 {
                assert(rest[i - 1] == s[i]);
            }
        }
        k + 1
    } else {
        assert(s.skip(0) == s);
        0
    }
}

proof fn lemma_trim_back_is_a_head(s: Seq<char>) -> (n: int)
    ensures
        0 <= n <= s.len(),
        trim_back(s) == s.take(n),
        forall|i: int| n <= i < s.len() ==> is_space(#[trigger] s[i]),
        n > 0 ==> !is_space(s[n - 1]),
    decreases s.len(),
{
    if s.len() > 0 && is_space(s.last()) {
        let rest = s.drop_last();
        let k = lemma_trim_back_is_a_head(rest);
        assert(rest.take(k) == s.take(k));
        assert forall|i: int| k <= i < s.len() implies is_space(#[trigger] s[i]) by {
            if i < rest.len() {
                assert(rest[i] == s[i]);
            }
        }
        k
    } else {
        assert(s.take(s.len() as int) == s);
        s.len() as int
    }
}

/// Trimming takes white space and nothing else from both ends, and leaves none there.
pub proof fn law_trimming_takes_the_space_around(s: Seq<char>)
    ensures
        exists|i: int, j: int|
            0 <= i <= j <= s.len() && trimmed(s) == #[trigger] s.subrange(i, j) && (forall|k: int|
                0 <= k < i || j <= k < s.len() ==> is_space(#[trigger] s[k])),
        trimmed(s).len() > 0 ==> !is_space(trimmed(s)[0]) && !is_space(trimmed(s).last()),
{
    let i = lemma_trim_front_is_a_tail(s);
    let t = s.skip(i);
    let n = lemma_trim_back_is_a_head(t);
    assert(t.take(n) == s.subrange(i, i + n));
    assert forall|k: int| 0 <= k < i || i + n <= k < s.len() implies is_space(#[trigger] s[k]) by {
        if i + n <= k {
            assert(t[k - i] == s[k]);
        }
    }
    if n > 0 {
        assert(t.take(n)[0] == s[i]);
        assert(t.take(n).last() == t[n - 1]);
    }
}

/// A word ends at white space or at the end of the text, and white space before a word is
/// nothing.
pub proof fn law_words_stand_between_spaces(word: Seq<char>, space: char, rest: Seq<char>)
    requires
        is_space(space),
        word.len() > 0,
        forall|i: int| 0 <= i < word.len() ==> !is_space(#[trigger] word[i]),
    ensures
        words_of(word + (seq![space] + rest)) == seq![word] + words_of(rest),
        words_of(word) == seq![word],
        words_of(seq![space] + rest) == words_of(rest),
        words_of(seq![]) == Seq::<Seq<char>>::empty(),
{
    let tail = seq![space] + rest;
    assert(tail[0] == space);
    assert(tail.drop_first() == rest);
    lemma_words_of_word(seq![], word, tail);
    lemma_words_of_word(seq![], word, seq![]);
    assert(Seq::<char>::empty() + word == word);
    assert(word + seq![] == word);
}

proof fn lemma_lines_of_end(cur: Seq<char>, line: Seq<char>)
    requires
        forall|i: int| 0 <= i < line.len() ==> #[trigger] line[i] != '\n',
        cur.len() + line.len() > 0,
    ensures
        lines_from(cur, line) == seq![cur + line],
    decreases line.len(),
{
    if line.len() == 0 {
        assert(cur + line == cur);
    } else {
        assert forall|i: int| 0 <= i < line.drop_first().len() implies #[trigger] line.drop_first()[i]
            != '\n' by {
            assert(line.drop_first()[i] == line[i + 1]);
        }
        lemma_lines_of_end(cur.push(line[0]), line.drop_first());
        assert(cur.push(line[0]) + line.drop_first() == cur + line);
    }
}

/// A line ends at a line feed, and a carriage return before that is no part of it; what
/// stands behind the last line feed is a line too, unless it is nothing.
pub proof fn law_lines_end_at_line_feeds(line: Seq<char>, rest: Seq<char>)
    requires
        forall|i: int| 0 <= i < line.len() ==> #[trigger] line[i] != '\n',
    ensures
        line.len() == 0 || line.last() != '\r' ==> lines_of(line + seq!['\n'] + rest) == seq![line]
            + lines_of(rest),
        lines_of(line + seq!['\r'] + seq!['\n'] + rest) == seq![line] + lines_of(rest),
        line.len() > 0 ==> lines_of(line) == seq![line],
        lines_of(seq![]) == Seq::<Seq<char>>::empty(),
{
    assert(Seq::<char>::empty() + line == line);
    let ended = line + seq!['\r'];
    assert(Seq::<char>::empty() + ended == ended);
    assert(ended.drop_last() == line);
    lemma_lines_of_line(seq![], line, rest);
    lemma_lines_of_line(seq![], ended, rest);
    if line.len() > 0 {
        lemma_lines_of_end(seq![], line);
    }
}

proof fn lemma_fields_of_field(cur: Seq<char>, field: Seq<char>, sep: char, rest: Seq<char>)
    requires
        forall|i: int| 0 <= i < field.len() ==> #[trigger] field[i] != sep,
    ensures
        fields_from(cur, field + (seq![sep] + rest), sep) == seq![cur + field] + fields_of(
            rest,
            sep,
        ),
        fields_from(cur, field, sep) == seq![cur + field],
    decreases field.len(),
{
    let s = field + (seq![sep] + rest);
    if field.len() == 0 {
        assert(s[0] == sep);
        assert(s.drop_first() == rest);
        assert(cur + field == cur);
    } else {
        assert(s[0] == field[0]);
        assert(s.drop_first() == field.drop_first() + (seq![sep] + rest));
        assert forall|i: int| 0 <= i < field.drop_first().len() implies #[trigger] field.drop_first()[i]
            != sep by {
            assert(field.drop_first()[i] == field[i + 1]);
        }
        lemma_fields_of_field(cur.push(field[0]), field.drop_first(), sep, rest);
        assert(cur.push(field[0]) + field.drop_first() == cur + field);
    }
}

/// A field ends at the separator or at the end of the text, and may be empty.
pub proof fn law_fields_stand_between_separators(field: Seq<char>, sep: char, rest: Seq<char>)
    requires
        forall|i: int| 0 <= i < field.len() ==> #[trigger] field[i] != sep,
    ensures
        fields_of(field + (seq![sep] + rest), sep) == seq![field] + fields_of(rest, sep),
        fields_of(field, sep) == seq![field],
{
    lemma_fields_of_field(seq![], field, sep, rest);
    assert(Seq::<char>::empty() + field == field);
}

proof fn lemma_joined_from_the_front(parts: Seq<Seq<char>>, sep: Seq<char>)
    requires
        parts.len() >= 2,
    ensures
        joined(parts, sep) == parts[0] + (sep + joined(parts.drop_first(), sep)),
    decreases parts.len(),
{
    let front = parts.drop_last();
    let rest = parts.drop_first();
    if parts.len() == 2 {
        assert(joined(front, sep) == parts[0]);
        assert(joined(rest, sep) == parts[1]);
        assert(parts[0] + sep + parts[1] == parts[0] + (sep + parts[1]));
    } else {
        lemma_joined_from_the_front(front, sep);
        assert(front.drop_first() == rest.drop_last());
        assert(rest.last() == parts.last());
        let middle = joined(rest.drop_last(), sep);
        assert(parts[0] + (sep + middle) + sep + parts.last() == parts[0] + (sep + (middle + sep
            + parts.last())));
    }
}

/// Parts that are joined come apart again at the separator, as they were.
pub proof fn law_joined_parts_come_apart(parts: Seq<Seq<char>>, sep: char)
    requires
        parts.len() > 0,
        forall|k: int, i: int|
            0 <= k < parts.len() && 0 <= i < parts[k].len() ==> #[trigger] parts[k][i] != sep,
    ensures
        fields_of(joined(parts, seq![sep]), sep) == parts,
    decreases parts.len(),
{
    let first = parts[0];
    assert forall|i: int| 0 <= i < first.len() implies #[trigger] first[i] != sep by {
        assert(parts[0][i] != sep);
    }
    if parts.len() == 1 {
        law_fields_stand_between_separators(first, sep, seq![]);
        assert(seq![first] == parts);
    } else {
        let rest = parts.drop_first();
        assert forall|k: int, i: int| 0 <= k < rest.len() && 0 <= i < rest[k].len() implies
            #[trigger] rest[k][i] != sep by {
            assert(parts[k + 1][i] != sep);
        }
        law_joined_parts_come_apart(rest, sep);
        lemma_joined_from_the_front(parts, seq![sep]);
        law_fields_stand_between_separators(first, sep, joined(rest, seq![sep]));
        assert(seq![first] + rest == parts);
    }
}

/// Replacing a character leaves none of it behind and touches no other.
pub proof fn law_replacing_leaves_none(s: Seq<char>, from: char, to: char, i: int)
    requires
        0 <= i < s.len(),
    ensures
        replaced(s, from, to).len() == s.len(),
        s[i] != from ==> replaced(s, from, to)[i] == s[i],
        s[i] == from ==> replaced(s, from, to)[i] == to,
        from != to ==> replaced(s, from, to)[i] != from,
{
}

/// Lower case moves the capital letters thirty-two places and leaves every other character
/// as it is, so that lowering twice is lowering once.
pub proof fn law_lower_case_is_lower_case(c: char)
    ensures
        ('A' as int) <= (c as int) <= ('Z' as int) ==> (lower_char(c) as int) == (c as int) - ('A' as int)
            + ('a' as int),
        !('A' as int <= (c as int) <= ('Z' as int)) ==> lower_char(c) == c,
        lower_char(lower_char(c)) == lower_char(c),
{
}

/// Taken as characters, a text is its characters, and what is not text stays what it is.
pub proof fn law_views_keep_the_text(text: String, v: u64, list: Seq<String>, i: int)
    ensures
        text_of(Some(text)) == Some(text@) && text_of(None) is None,
        outcome::<u64>(Ok(v)) == Ok::<u64, Seq<char>>(v),
        outcome::<u64>(Err(text)) == Err::<u64, Seq<char>>(text@),
        reading(Ok(text)) == Ok::<Seq<char>, Seq<char>>(text@),
        reading(Err(text)) == Err::<Seq<char>, Seq<char>>(text@),
        optional_reading(Some(Ok(text))) == Some(Ok::<Seq<char>, Seq<char>>(text@)),
        optional_reading(None) is None,
        texts(list).len() == list.len(),
        0 <= i < list.len() ==> texts(list)[i] == list[i]@,
{
}

} // verus!
