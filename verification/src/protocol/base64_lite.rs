//! Minimal RFC 4648 base64 (standard alphabet, padded): just enough to move a small
//! binary blob (the GRUB splash image) as one token without white space through the
//! helper's line-based wire protocol.

use vstd::prelude::*;

use crate::text::{chars_of, code};

verus! {

/// The character of six bits.
pub open spec fn sextet_char(n: int) -> char {
    if n < 26 {
        (0x41 + n) as u8 as char
    } else if n < 52 {
        (0x61 + n - 26) as u8 as char
    } else if n < 62 {
        (0x30 + n - 52) as u8 as char
    } else if n == 62 {
        '+'
    } else {
        '/'
    }
}

/// The four characters of three bytes.
pub open spec fn group_of(b0: u8, b1: u8, b2: u8) -> Seq<char> {
    seq![
        sextet_char(b0 as int / 4),
        sextet_char((b0 as int % 4) * 16 + b1 as int / 16),
        sextet_char((b1 as int % 16) * 4 + b2 as int / 64),
        sextet_char(b2 as int % 64),
    ]
}

/// The encoding of `data`: four characters for every three bytes, the last group
/// padded to four with `=`.
pub open spec fn encoding(data: Seq<u8>) -> Seq<char>
    decreases data.len(),
{
    if data.len() == 0 {
        seq![]
    } else if data.len() == 1 {
        seq![
            sextet_char(data[0] as int / 4),
            sextet_char((data[0] as int % 4) * 16),
            '=',
            '=',
        ]
    } else if data.len() == 2 {
        seq![
            sextet_char(data[0] as int / 4),
            sextet_char((data[0] as int % 4) * 16 + data[1] as int / 16),
            sextet_char((data[1] as int % 16) * 4),
            '=',
        ]
    } else {
        group_of(data[0], data[1], data[2]) + encoding(data.skip(3))
    }
}

fn sextet(n: u8) -> (r: char)
    requires
        n < 64,
    ensures
        r == sextet_char(n as int),
{
    if n < 26 {
        (0x41 + n) as char
    } else if n < 52 {
        (0x61 + (n - 26)) as char
    } else if n < 62 {
        (0x30 + (n - 52)) as char
    } else if n == 62 {
        '+'
    } else {
        '/'
    }
}

/// Encodes `data`.
pub fn encode(data: &[u8]) -> (r: String)
    ensures
        r@ == encoding(data@),
{
    let mut out = String::new();
    let mut i: usize = 0;
    let n: usize = data.len();
    assert(data@.skip(0) == data@);
    assert(out@ + encoding(data@) == encoding(data@));
    while n - i >= 3
        invariant
            i <= n == data@.len(),
            out@ + encoding(data@.skip(i as int)) == encoding(data@),
        decreases n - i,
    {
        let b0: u8 = data[i];
        let b1: u8 = data[i + 1];
        let b2: u8 = data[i + 2];
        let ghost before = out@;
        let ghost rest = data@.skip(i as int);
        out.push(sextet(b0 / 4));
        out.push(sextet((b0 % 4) * 16 + b1 / 16));
        out.push(sextet((b1 % 16) * 4 + b2 / 64));
        out.push(sextet(b2 % 64));
        proof {
            assert(rest.skip(3) == data@.skip(i + 3));
            assert(rest[0] == b0 && rest[1] == b1 && rest[2] == b2);
            assert(out@ == before + group_of(b0, b1, b2));
            let tail = encoding(data@.skip(i + 3));
            assert(before + (group_of(b0, b1, b2) + tail) == out@ + tail);
        }
        i = i + 3;
    }
    let ghost before = out@;
    let ghost rest = data@.skip(i as int);
    if n - i == 1 {
        let b0: u8 = data[i];
        out.push(sextet(b0 / 4));
        out.push(sextet((b0 % 4) * 16));
        out.push('=');
        out.push('=');
        assert(rest[0] == b0);
        assert(out@ == before + encoding(rest));
    } else if n - i == 2 {
        let b0: u8 = data[i];
        let b1: u8 = data[i + 1];
        out.push(sextet(b0 / 4));
        out.push(sextet((b0 % 4) * 16 + b1 / 16));
        out.push(sextet((b1 % 16) * 4));
        out.push('=');
        assert(rest[0] == b0 && rest[1] == b1);
        assert(out@ == before + encoding(rest));
    } else {
        assert(before + encoding(rest) == before);
    }
    out
}

/// The six bits a character of the alphabet stands for.
pub open spec fn sextet_of(c: char) -> Option<int> {
    let n = c as int;
    if 0x41 <= n <= 0x5a {
        Some(n - 0x41)
    } else if 0x61 <= n <= 0x7a {
        Some(n - 0x61 + 26)
    } else if 0x30 <= n <= 0x39 {
        Some(n - 0x30 + 52)
    } else if n == 0x2b {
        Some(62int)
    } else if n == 0x2f {
        Some(63int)
    } else {
        None
    }
}

proof fn lemma_sextet(n: int)
    requires
        0 <= n < 64,
    ensures
        sextet_of(sextet_char(n)) == Some(n),
        sextet_char(n) != '=',
{
}

proof fn lemma_sextet_back(c: char)
    requires
        sextet_of(c) is Some,
    ensures
        sextet_char(sextet_of(c).unwrap()) == c,
        0 <= sextet_of(c).unwrap() < 64,
{
}

/// The six bits a character of the alphabet stands for.
fn value(c: char) -> (r: Option<u8>)
    ensures
        match r {
            Some(v) => sextet_of(c) == Some(v as int) && v < 64,
            None => sextet_of(c) is None,
        },
{
    let n: u32 = code(c);
    if 0x41 <= n && n <= 0x5a {
        Some((n - 0x41) as u8)
    } else if 0x61 <= n && n <= 0x7a {
        Some((n - 0x61 + 26) as u8)
    } else if 0x30 <= n && n <= 0x39 {
        Some((n - 0x30 + 52) as u8)
    } else if n == 0x2b {
        Some(62)
    } else if n == 0x2f {
        Some(63)
    } else {
        None
    }
}

/// The first three bytes of an encoding are fixed by its first four characters.
proof fn lemma_first_group(data: Seq<u8>, text: Seq<char>)
    requires
        encoding(data) == text,
        text.len() > 0,
    ensures
        data.len() > 0,
        text.len() >= 4,
        sextet_of(text[0]) == Some(data[0] as int / 4),
        data.len() == 1 ==> text.len() == 4 && text[2] == '=' && text[3] == '=' && sextet_of(text[1])
            == Some((data[0] as int % 4) * 16),
        data.len() == 2 ==> text.len() == 4 && text[3] == '=' && sextet_of(text[1]) == Some(
            (data[0] as int % 4) * 16 + data[1] as int / 16,
        ) && sextet_of(text[2]) == Some((data[1] as int % 16) * 4),
        data.len() >= 3 ==> sextet_of(text[1]) == Some(
            (data[0] as int % 4) * 16 + data[1] as int / 16,
        ) && sextet_of(text[2]) == Some((data[1] as int % 16) * 4 + data[2] as int / 64)
            && sextet_of(text[3]) == Some(data[2] as int % 64) && encoding(data.skip(3))
            == text.skip(4),
{
    lemma_sextet(data[0] as int / 4);
    lemma_sextet((data[0] as int % 4) * 16);
    if data.len() >= 2 {
        lemma_sextet((data[0] as int % 4) * 16 + data[1] as int / 16);
        lemma_sextet((data[1] as int % 16) * 4);
    }
    if data.len() >= 3 {
        lemma_sextet((data[1] as int % 16) * 4 + data[2] as int / 64);
        lemma_sextet(data[2] as int % 64);
        let g = group_of(data[0], data[1], data[2]);
        assert((g + encoding(data.skip(3))).skip(4) == encoding(data.skip(3)));
        assert(text[0] == g[0] && text[1] == g[1] && text[2] == g[2] && text[3] == g[3]);
    }
}

/// No two blobs have the same encoding.
pub proof fn law_encodings_are_distinct(a: Seq<u8>, b: Seq<u8>)
    requires
        encoding(a) == encoding(b),
    ensures
        a == b,
    decreases a.len(),
{
    let text = encoding(a);
    if a.len() == 0 {
        if b.len() > 0 {
            assert(encoding(b).len() > 0);
        }
        assert(a == b);
    } else {
        assert(text.len() > 0);
        lemma_first_group(a, text);
        lemma_first_group(b, text);
        assert(sextet_of('=') is None);
        if a.len() >= 3 {
            law_encodings_are_distinct(a.skip(3), b.skip(3));
            assert(a == a.take(3) + a.skip(3));
            assert(b == b.take(3) + b.skip(3));
            assert(a.take(3) == b.take(3));
        } else {
            assert(a == b);
        }
    }
}

/// Whether `text` is the encoding of some bytes that follow `done`.
spec fn continues(done: Seq<u8>, text: Seq<char>, whole: Seq<char>) -> bool {
    forall|d: Seq<u8>| encoding(d) == whole ==> exists|e: Seq<u8>|
        d == done + e && #[trigger] encoding(e) == text
}

/// Extends a decoded prefix whose length is a multiple of three.
proof fn lemma_encoding_extends(done: Seq<u8>, e: Seq<u8>)
    requires
        done.len() % 3 == 0,
    ensures
        encoding(done + e) == encoding(done) + encoding(e),
    decreases done.len(),
{
    if done.len() == 0 {
        assert(done + e == e);
        assert(encoding(done) + encoding(e) == encoding(e));
    } else {
        let all = done + e;
        assert(all.skip(3) == done.skip(3) + e);
        lemma_encoding_extends(done.skip(3), e);
        let g = group_of(done[0], done[1], done[2]);
        assert(g + (encoding(done.skip(3)) + encoding(e)) == (g + encoding(done.skip(3)))
            + encoding(e));
    }
}

/// Takes one full group off the text still to be decoded.
proof fn lemma_continues(
    done: Seq<u8>,
    b0: u8,
    b1: u8,
    b2: u8,
    rest: Seq<char>,
    whole: Seq<char>,
)
    requires
        done.len() % 3 == 0,
        encoding(done) + rest == whole,
        continues(done, rest, whole),
        rest.len() >= 4,
        rest.take(4) == group_of(b0, b1, b2),
    ensures
        encoding(done + seq![b0, b1, b2]) + rest.skip(4) == whole,
        continues(done + seq![b0, b1, b2], rest.skip(4), whole),
{
    let e = seq![b0, b1, b2];
    let more = done + e;
    assert(e.skip(3) == Seq::<u8>::empty());
    assert(encoding(Seq::<u8>::empty()) == Seq::<char>::empty());
    assert(encoding(e) == group_of(b0, b1, b2) + encoding(e.skip(3)));
    assert(encoding(e) == rest.take(4));
    lemma_encoding_extends(done, e);
    assert(rest == rest.take(4) + rest.skip(4));
    assert(encoding(more) + rest.skip(4) == encoding(done) + rest);
    let g4 = group_of(b0, b1, b2);
    assert(rest[0] == g4[0] && rest[1] == g4[1] && rest[2] == g4[2] && rest[3] == g4[3]);
    lemma_sextet(b0 as int / 4);
    lemma_sextet((b0 as int % 4) * 16 + b1 as int / 16);
    lemma_sextet((b1 as int % 16) * 4 + b2 as int / 64);
    lemma_sextet(b2 as int % 64);
    assert(sextet_of('=') is None);
    assert forall|d: Seq<u8>| encoding(d) == whole implies exists|f: Seq<u8>|
        d == more + f && #[trigger] encoding(f) == rest.skip(4) by {
        let g = choose|g: Seq<u8>| d == done + g && #[trigger] encoding(g) == rest;
        lemma_first_group(g, rest);
        let f = g.skip(3);
        assert(g.take(3) == e);
        assert(g == g.take(3) + f);
        assert(d == more + f);
        assert(encoding(f) == rest.skip(4));
    }
}

/// Decodes `text`: `None` for anything that is not exactly the encoding of some
/// bytes, so a receiver across a privilege boundary rejects the whole of it on the
/// first irregularity.
pub fn decode(text: &str) -> (r: Option<Vec<u8>>)
    ensures
        match r {
            Some(data) => encoding(data@) == text@,
            None => forall|data: Seq<u8>| encoding(data) != text@,
        },
{
    let v = chars_of(text);
    let n: usize = v.len();
    let mut out: Vec<u8> = Vec::new();
    let mut i: usize = 0;
    assert(v@.skip(0) == v@);
    assert(encoding(out@) + v@ == v@);
    proof {
        assert forall|d: Seq<u8>| encoding(d) == v@ implies exists|e: Seq<u8>|
            d == out@ + e && #[trigger] encoding(e) == v@ by {
            assert(d == out@ + d);
        }
    }
    while i < n
        invariant
            i <= n == v@.len(),
            v@ == text@,
            out@.len() % 3 == 0,
            encoding(out@) + v@.skip(i as int) == v@,
            continues(out@, v@.skip(i as int), v@),
        decreases n - i,
    {
        let ghost rest = v@.skip(i as int);
        let ghost done = out@;
        proof {
            assert forall|e: Seq<u8>| #[trigger] encoding(e) == rest implies rest.len() >= 4
                && e.len() > 0 by {
                lemma_first_group(e, rest);
            }
        }
        if n - i < 4 {
            return None;
        }
        let c0: char = v[i];
        let c1: char = v[i + 1];
        let c2: char = v[i + 2];
        let c3: char = v[i + 3];
        assert(rest[0] == c0 && rest[1] == c1 && rest[2] == c2 && rest[3] == c3);
        proof {
            assert(sextet_of('=') is None);
            assert forall|e: Seq<u8>| #[trigger] encoding(e) == rest implies {
                &&& sextet_of(c0) is Some
                &&& sextet_of(c1) is Some
                &&& (c2 == '=' ==> e.len() == 1)
                &&& (c2 != '=' && c3 == '=' ==> e.len() == 2)
                &&& (c3 != '=' ==> e.len() >= 3 && encoding(e.skip(3)) == rest.skip(4))
            } by {
                lemma_first_group(e, rest);
            }
        }
        let (v0, v1) = match (value(c0), value(c1)) {
            (Some(v0), Some(v1)) => (v0, v1),
            _ => {
                return None;
            },
        };
        proof {
            lemma_sextet_back(c0);
            lemma_sextet_back(c1);
        }
        let b0: u8 = v0 * 4 + v1 / 16;
        assert(b0 as int / 4 == v0 && b0 as int % 4 == v1 as int / 16);
        if c3 == '=' {
            if n - i != 4 {
                proof {
                    assert forall|e: Seq<u8>| #[trigger] encoding(e) == rest implies false by {
                        lemma_first_group(e, rest);
                    }
                }
                return None;
            }
            if c2 == '=' {
                if v1 % 16 != 0 {
                    proof {
                        assert forall|e: Seq<u8>| #[trigger] encoding(e) == rest implies false by {
                            lemma_first_group(e, rest);
                        }
                    }
                    return None;
                }
                out.push(b0);
                proof {
                    let e = seq![b0];
                    assert(encoding(e) == rest);
                    lemma_encoding_extends(done, e);
                    assert(out@ == done + e);
                }
                return Some(out);
            }
            let v2: u8 = match value(c2) {
                Some(v2) => v2,
                None => {
                    proof {
                        assert forall|e: Seq<u8>| #[trigger] encoding(e) == rest implies false by {
                            lemma_first_group(e, rest);
                        }
                    }
                    return None;
                },
            };
            proof {
                lemma_sextet_back(c2);
            }
            if v2 % 4 != 0 {
                proof {
                    assert forall|e: Seq<u8>| #[trigger] encoding(e) == rest implies false by {
                        lemma_first_group(e, rest);
                    }
                }
                return None;
            }
            let b1: u8 = (v1 % 16) * 16 + v2 / 4;
            out.push(b0);
            out.push(b1);
            proof {
                let e = seq![b0, b1];
                assert(b1 as int / 16 == v1 as int % 16 && (b1 as int % 16) * 4 == v2);
                assert((b0 as int % 4) * 16 + b1 as int / 16 == v1);
                assert(encoding(e) == rest);
                lemma_encoding_extends(done, e);
                assert(out@ == done + e);
            }
            return Some(out);
        }
        let (v2, v3) = match (value(c2), value(c3)) {
            (Some(v2), Some(v3)) => (v2, v3),
            _ => {
                proof {
                    assert forall|e: Seq<u8>| #[trigger] encoding(e) == rest implies false by {
                        lemma_first_group(e, rest);
                    }
                }
                return None;
            },
        };
        proof {
            lemma_sextet_back(c2);
            lemma_sextet_back(c3);
        }
        let b1: u8 = (v1 % 16) * 16 + v2 / 4;
        let b2: u8 = (v2 % 4) * 64 + v3;
        out.push(b0);
        out.push(b1);
        out.push(b2);
        i = i + 4;
        proof {
            assert((b0 as int % 4) * 16 + b1 as int / 16 == v1);
            assert((b1 as int % 16) * 4 + b2 as int / 64 == v2);
            assert(b2 as int % 64 == v3);
            assert(rest.take(4) == group_of(b0, b1, b2));
            lemma_continues(done, b0, b1, b2, rest, v@);
            assert(out@ == done + seq![b0, b1, b2]);
            assert(rest.skip(4) == v@.skip(i as int));
        }
    }
    assert(encoding(out@) + v@.skip(i as int) == encoding(out@));
    Some(out)
}

/// What was encoded decodes to itself, and to nothing else: the only blob whose
/// encoding `text` is, is the one `decode` gives back.
pub proof fn law_decode_inverts_encode(data: Seq<u8>, decoded: Option<Seq<u8>>)
    requires
        match decoded {
            Some(d) => encoding(d) == encoding(data),
            None => forall|d: Seq<u8>| encoding(d) != encoding(data),
        },
    ensures
        decoded == Some(data),
{
    match decoded {
        Some(d) => {
            law_encodings_are_distinct(d, data);
        },
        None => {
            assert(encoding(data) == encoding(data));
        },
    }
}

/// The alphabet: capital letters, small letters, digits, plus and slash, in this order.
pub proof fn law_alphabet_is_in_order(c: char)
    ensures
        'A' <= c <= 'Z' ==> sextet_of(c) == Some((c as int) - ('A' as int)),
        'a' <= c <= 'z' ==> sextet_of(c) == Some((c as int) - ('a' as int) + 26),
        '0' <= c <= '9' ==> sextet_of(c) == Some((c as int) - ('0' as int) + 52),
        sextet_of('+') == Some(62int),
        sextet_of('/') == Some(63int),
        sextet_of(c) is Some ==> sextet_char(sextet_of(c)->0) == c,
        sextet_of('=') is None,
{
}

/// Four characters hold the twenty-four bits of three bytes, the first byte highest.
pub proof fn law_groups_hold_their_bits(b0: u8, b1: u8, b2: u8)
    ensures
        ({
            let g = group_of(b0, b1, b2);
            &&& g.len() == 4
            &&& sextet_of(g[0]) is Some && sextet_of(g[1]) is Some && sextet_of(g[2]) is Some
                && sextet_of(g[3]) is Some
            &&& ((sextet_of(g[0])->0 * 64 + sextet_of(g[1])->0) * 64 + sextet_of(g[2])->0) * 64
                + sextet_of(g[3])->0 == (b0 as int * 256 + b1) * 256 + b2
        }),
{
    lemma_sextet(b0 as int / 4);
    lemma_sextet((b0 as int % 4) * 16 + b1 as int / 16);
    lemma_sextet((b1 as int % 16) * 4 + b2 as int / 64);
    lemma_sextet(b2 as int % 64);
}

/// An encoding is four characters for every three bytes begun; one byte too few is one `=`
/// at its end, and two are two. Whole groups are encoded each for itself.
pub proof fn law_encoding_goes_by_groups(data: Seq<u8>, b0: u8, b1: u8, b2: u8)
    ensures
        encoding(data).len() == (data.len() + 2) / 3 * 4,
        encoding(seq![b0, b1, b2] + data) == group_of(b0, b1, b2) + encoding(data),
        encoding(seq![b0, b1]) == group_of(b0, b1, 0).take(3).push('='),
        encoding(seq![b0]) == group_of(b0, 0, 0).take(2).push('=').push('='),
    decreases data.len(),
{
    if data.len() >= 3 {
        law_encoding_goes_by_groups(data.skip(3), b0, b1, b2);
    }
    let whole = seq![b0, b1, b2] + data;
    assert(whole.skip(3) == data);
    assert(encoding(seq![b0, b1]) =~= group_of(b0, b1, 0).take(3).push('='));
    assert(encoding(seq![b0]) =~= group_of(b0, 0, 0).take(2).push('=').push('='));
    assert(encoding(whole) =~= group_of(b0, b1, b2) + encoding(data));
}

} // verus!
