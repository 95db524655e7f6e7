//! Paths: as text, and as the bytes that the system keeps them in.

use vstd::prelude::*;
use vstd::utf8::{
    encode_scalar, encode_utf8, has_width_1_encoding, last_continuation_byte, leading_byte_width_1,
    leading_byte_width_2, leading_byte_width_3, leading_byte_width_4,
};

use crate::text::{chars_of, fields_from, fields_of, same, split, texts};

verus! {

/// Whether a path starts at the root.
pub open spec fn is_absolute_path(path: Seq<char>) -> bool {
    path.len() > 0 && path[0] == '/'
}

/// Whether a path starts at the root.
pub fn is_absolute(path: &str) -> (r: bool)
    ensures
        r == is_absolute_path(path@),
{
    let v = chars_of(path);
    v.len() > 0 && v[0] == '/'
}

/// `below` taken relative to `base`: an absolute `below` stands for itself, and one
/// separator stands between the two otherwise.
pub open spec fn joined_path(base: Seq<char>, below: Seq<char>) -> Seq<char> {
    if is_absolute_path(below) || base.len() == 0 {
        below
    } else if base.last() == '/' {
        base + below
    } else {
        base + "/"@ + below
    }
}

/// `below` taken relative to `base`.
pub fn join_path(base: &str, below: &str) -> (r: String)
    ensures
        r@ == joined_path(base@, below@),
{
    let v = chars_of(base);
    if is_absolute(below) || v.len() == 0 {
        below.to_owned()
    } else {
        let mut out = base.to_owned();
        if v[v.len() - 1] != '/' {
            out.append("/");
        }
        out.append(below);
        out
    }
}

/// What stands between the separators of a path and names something: neither nothing at all
/// nor the directory itself.
pub open spec fn named_parts(fields: Seq<Seq<char>>) -> Seq<Seq<char>>
    decreases fields.len(),
{
    if fields.len() == 0 {
        seq![]
    } else {
        let before = named_parts(fields.drop_last());
        if fields.last().len() == 0 || fields.last() == "."@ {
            before
        } else {
            before.push(fields.last())
        }
    }
}

/// The components of a path behind its root. A path that begins with `.` keeps that one.
pub open spec fn components_of(path: Seq<char>) -> Seq<Seq<char>> {
    let fields = fields_of(path, '/');
    if fields[0] == "."@ {
        seq!["."@] + named_parts(fields)
    } else {
        named_parts(fields)
    }
}

/// Whether two paths are the same one, however many separators they are written with.
pub open spec fn same_place(a: Seq<char>, b: Seq<char>) -> bool {
    is_absolute_path(a) == is_absolute_path(b) && components_of(a) == components_of(b)
}

fn components(path: &str) -> (r: Vec<String>)
    ensures
        texts(r@) == components_of(path@),
{
    let fields = split(path, '/');
    let ghost all = texts(fields@);
    let mut out: Vec<String> = Vec::new();
    assert(fields@.len() > 0) by {
        lemma_fields(seq![], path@, '/');
        assert(all.len() == fields@.len());
    }
    assert(all[0] == fields@[0]@);
    if same(fields[0].as_str(), ".") {
        out.push(".".to_owned());
    }
    let ghost head = texts(out@);
    assert(head == (if all[0] == "."@ {
        seq!["."@]
    } else {
        seq![]
    }));
    let mut i: usize = 0;
    assert(head + named_parts(all.take(0)) =~= head);
    while i < fields.len()
        invariant
            i <= fields@.len(),
            all == texts(fields@),
            texts(out@) == head + named_parts(all.take(i as int)),
        decreases fields@.len() - i,
    {
        let ghost done = texts(out@);
        proof {
            reveal_strlit("");
            assert(all.take(i + 1).drop_last() =~= all.take(i as int));
            assert(all.take(i + 1).last() == fields@[i as int]@);
            if fields@[i as int]@.len() == 0 {
                assert(fields@[i as int]@ =~= ""@);
            }
        }
        if !same(fields[i].as_str(), "") && !same(fields[i].as_str(), ".") {
            out.push(fields[i].clone());
            assert(texts(out@) =~= done.push(fields@[i as int]@));
            assert(texts(out@) =~= head + named_parts(all.take(i + 1)));
        }
        i = i + 1;
    }
    assert(all.take(i as int) =~= all);
    assert(texts(out@) =~= components_of(path@));
    out
}

proof fn lemma_fields(cur: Seq<char>, s: Seq<char>, sep: char)
    ensures
        fields_from(cur, s, sep).len() > 0,
    decreases s.len(),
{
    if s.len() > 0 && s[0] != sep {
        lemma_fields(cur.push(s[0]), s.drop_first(), sep);
    }
}

/// Whether two paths are the same one, however many separators they are written with.
pub fn same_path(a: &str, b: &str) -> (r: bool)
    ensures
        r == same_place(a@, b@),
{
    if is_absolute(a) != is_absolute(b) {
        return false;
    }
    let left = components(a);
    let right = components(b);
    let ghost l = texts(left@);
    let ghost m = texts(right@);
    assert(l.len() == left@.len() && m.len() == right@.len());
    if left.len() != right.len() {
        return false;
    }
    let mut i: usize = 0;
    while i < left.len()
        invariant
            i <= left@.len(),
            left@.len() == right@.len(),
            l == texts(left@) && l == components_of(a@),
            m == texts(right@) && m == components_of(b@),
            forall|k: int| 0 <= k < i ==> #[trigger] l[k] == m[k],
        decreases left@.len() - i,
    {
        assert(l[i as int] == left@[i as int]@);
        assert(m[i as int] == right@[i as int]@);
        if !same(left[i].as_str(), right[i].as_str()) {
            return false;
        }
        i = i + 1;
    }
    assert(l =~= m);
    true
}

proof fn lemma_separator_ends_a_field(cur: Seq<char>, s: Seq<char>, sep: char)
    ensures
        fields_from(cur, s.push(sep), sep) == fields_from(cur, s, sep).push(seq![]),
    decreases s.len(),
{
    let t = s.push(sep);
    if s.len() == 0 {
        assert(t.drop_first() =~= Seq::<char>::empty());
        assert(fields_from(Seq::<char>::empty(), t.drop_first(), sep) =~= seq![
            Seq::<char>::empty(),
        ]);
        assert(fields_from(cur, t, sep) =~= fields_from(cur, s, sep).push(seq![]));
    } else {
        assert(t[0] == s[0]);
        assert(t.drop_first() =~= s.drop_first().push(sep));
        if s[0] == sep {
            lemma_separator_ends_a_field(seq![], s.drop_first(), sep);
            assert(fields_from(cur, t, sep) =~= fields_from(cur, s, sep).push(seq![]));
        } else {
            lemma_separator_ends_a_field(cur.push(s[0]), s.drop_first(), sep);
        }
    }
}

/// A separator at the end of a path names nothing else.
pub proof fn law_trailing_separator_is_nothing(path: Seq<char>)
    requires
        path.len() > 0,
    ensures
        same_place(path.push('/'), path),
{
    let before = fields_of(path, '/');
    let after = fields_of(path.push('/'), '/');
    lemma_separator_ends_a_field(seq![], path, '/');
    lemma_fields(seq![], path, '/');
    assert(after.drop_last() =~= before);
    assert(after[0] == before[0]);
}

// ---------------------------------------------------------------------------
// Paths as bytes
// ---------------------------------------------------------------------------

/// The separator, as the system keeps it.
pub const SEPARATOR: u8 = 0x2f;

/// Whether a path of bytes starts at the root.
pub open spec fn is_absolute_bytes(path: Seq<u8>) -> bool {
    path.len() > 0 && path[0] == SEPARATOR
}

/// Whether a path of bytes starts at the root.
pub fn starts_at_root(path: &[u8]) -> (r: bool)
    ensures
        r == is_absolute_bytes(path@),
{
    path.len() > 0 && path[0] == SEPARATOR
}

/// A path of bytes, where there is one.
pub open spec fn path_of(path: Option<Vec<u8>>) -> Option<Seq<u8>> {
    match path {
        Some(p) => Some(p@),
        None => None,
    }
}

/// `below` taken relative to `base`, as for paths of text.
pub open spec fn joined_bytes(base: Seq<u8>, below: Seq<u8>) -> Seq<u8> {
    if is_absolute_bytes(below) || base.len() == 0 {
        below
    } else if base.last() == SEPARATOR {
        base + below
    } else {
        base + seq![SEPARATOR] + below
    }
}

/// What a text names below a path of bytes.
pub open spec fn under(base: Seq<u8>, below: Seq<char>) -> Seq<u8> {
    joined_bytes(base, encode_utf8(below))
}

/// `below` taken relative to `base`. The bytes of `base` stay as they are, text or not.
pub fn join_bytes(base: &[u8], below: &str) -> (r: Vec<u8>)
    ensures
        r@ == under(base@, below@),
{
    let added: &[u8] = below.as_bytes();
    let mut out: Vec<u8> = Vec::new();
    if !starts_at_root(added) && base.len() > 0 {
        push_bytes(&mut out, base);
        if base[base.len() - 1] != SEPARATOR {
            out.push(SEPARATOR);
        }
    }
    push_bytes(&mut out, added);
    assert(out@ =~= under(base@, below@));
    out
}

fn push_bytes(out: &mut Vec<u8>, bytes: &[u8])
    ensures
        final(out)@ == old(out)@ + bytes@,
{
    let ghost before = out@;
    let mut i: usize = 0;
    assert(before + bytes@.take(0) =~= before);
    while i < bytes.len()
        invariant
            i <= bytes@.len(),
            out@ == before + bytes@.take(i as int),
        decreases bytes@.len() - i,
    {
        let ghost done = out@;
        out.push(bytes[i]);
        assert(out@ =~= before + bytes@.take(i + 1));
        i = i + 1;
    }
    assert(bytes@.take(i as int) =~= bytes@);
}

proof fn lemma_encoding_of_both(a: Seq<char>, b: Seq<char>)
    ensures
        encode_utf8(a + b) == encode_utf8(a) + encode_utf8(b),
    decreases a.len(),
{
    if a.len() == 0 {
        assert(a + b =~= b);
        assert(encode_utf8(a) + encode_utf8(b) =~= encode_utf8(b));
    } else {
        assert((a + b)[0] == a[0]);
        assert((a + b).drop_first() =~= a.drop_first() + b);
        lemma_encoding_of_both(a.drop_first(), b);
        assert(encode_utf8(a) + encode_utf8(b) =~= encode_scalar(a[0] as u32) + (encode_utf8(
            a.drop_first(),
        ) + encode_utf8(b)));
    }
}

proof fn lemma_encoding_of_one(c: char)
    ensures
        encode_utf8(seq![c]) == encode_scalar(c as u32),
{
    let one = seq![c];
    assert(one[0] == c);
    assert(one.drop_first() =~= Seq::<char>::empty());
    assert(encode_utf8(Seq::<char>::empty()) =~= Seq::<u8>::empty());
    assert(encode_utf8(one) =~= encode_scalar(c as u32));
}

/// A character's first byte is the separator where the character is, and so is its last.
proof fn lemma_separator_byte(c: char)
    ensures
        encode_scalar(c as u32).len() > 0,
        encode_scalar(c as u32)[0] == SEPARATOR <==> c == '/',
        encode_scalar(c as u32).last() == SEPARATOR <==> c == '/',
{
    let n = c as u32;
    if has_width_1_encoding(n) {
        assert(leading_byte_width_1(n) == n) by (bit_vector)
            requires
                n <= 0x7f,
        ;
    } else {
        assert(leading_byte_width_2(n) != 0x2f) by (bit_vector);
        assert(leading_byte_width_3(n) != 0x2f) by (bit_vector);
        assert(leading_byte_width_4(n) != 0x2f) by (bit_vector);
        assert(last_continuation_byte(n) != 0x2f) by (bit_vector);
    }
}

/// Text below text is the same path whether it is joined as text or as bytes.
pub proof fn law_text_paths_join_alike(base: Seq<char>, below: Seq<char>)
    ensures
        under(encode_utf8(base), below) == encode_utf8(joined_path(base, below)),
{
    let b = encode_utf8(base);
    let e = encode_utf8(below);
    if below.len() > 0 {
        lemma_separator_byte(below[0]);
        assert(e[0] == encode_scalar(below[0] as u32)[0]);
    }
    if base.len() > 0 {
        let front = base.drop_last();
        let tail = seq![base.last()];
        assert(base =~= front + tail);
        lemma_encoding_of_both(front, tail);
        lemma_separator_byte(base.last());
        lemma_encoding_of_one(base.last());
        assert(b.last() == encode_scalar(base.last() as u32).last());
    }
    reveal_strlit("/");
    assert("/"@ =~= seq!['/']);
    lemma_encoding_of_one('/');
    lemma_separator_byte('/');
    assert(encode_utf8("/"@) =~= seq![SEPARATOR]);
    lemma_encoding_of_both(base, below);
    lemma_encoding_of_both(base, "/"@);
    lemma_encoding_of_both(base + "/"@, below);
}

/// What stands below a directory begins with the directory and ends with its own name, with
/// exactly one separator more where the directory does not end with one; an absolute path
/// stands below nothing.
pub proof fn law_joined_paths_hold_both(base: Seq<char>, below: Seq<char>)
    requires
        base.len() > 0,
        below.len() > 0,
    ensures
        ({
            let path = joined_path(base, below);
            &&& below[0] == '/' ==> path == below
            &&& below[0] != '/' ==> path.take(base.len() as int) == base && path.skip(
                path.len() - below.len(),
            ) == below
            &&& below[0] != '/' && base.last() == '/' ==> path.len() == base.len() + below.len()
            &&& below[0] != '/' && base.last() != '/' ==> path.len() == base.len() + 1
                + below.len() && path[base.len() as int] == '/'
        }),
{
    reveal_strlit("/");
    let path = joined_path(base, below);
    if below[0] != '/' {
        assert(path.take(base.len() as int) =~= base);
        assert(path.skip(path.len() - below.len()) =~= below);
    }
}

/// A path from the root and a path from anywhere else are two places.
pub proof fn law_root_tells_places_apart(a: Seq<char>, b: Seq<char>)
    requires
        a.len() > 0 && a[0] == '/',
        b.len() == 0 || b[0] != '/',
    ensures
        !same_place(a, b) && !same_place(b, a),
{
}

proof fn lemma_fields_add(cur: Seq<char>, a: Seq<char>, b: Seq<char>, sep: char)
    ensures
        fields_from(cur, a + (seq![sep] + b), sep) == fields_from(cur, a, sep) + fields_of(b, sep),
    decreases a.len(),
{
    let s = a + (seq![sep] + b);
    if a.len() == 0 {
        assert(s[0] == sep);
        assert(s.drop_first() =~= b);
    } else {
        assert(s[0] == a[0]);
        assert(s.drop_first() =~= a.drop_first() + (seq![sep] + b));
        if a[0] == sep {
            lemma_fields_add(seq![], a.drop_first(), b, sep);
            assert(fields_from(cur, s, sep) =~= fields_from(cur, a, sep) + fields_of(b, sep));
        } else {
            lemma_fields_add(cur.push(a[0]), a.drop_first(), b, sep);
        }
    }
}

proof fn lemma_named_parts_add(a: Seq<Seq<char>>, b: Seq<Seq<char>>)
    ensures
        named_parts(a + b) == named_parts(a) + named_parts(b),
    decreases b.len(),
{
    if b.len() == 0 {
        assert(a + b =~= a);
        assert(named_parts(a) + named_parts(b) =~= named_parts(a));
    } else {
        assert((a + b).drop_last() =~= a + b.drop_last());
        assert((a + b).last() == b.last());
        lemma_named_parts_add(a, b.drop_last());
        assert(named_parts(a + b) =~= named_parts(a) + named_parts(b));
    }
}

/// Two separators in a row are as good as one, and different names are different places.
pub proof fn law_places_are_told_by_their_names(
    base: Seq<char>,
    below: Seq<char>,
    other: Seq<char>,
)
    requires
        base.len() > 0,
        below.len() > 0 && below != "."@,
        other.len() > 0 && other != "."@,
        forall|i: int| 0 <= i < below.len() ==> #[trigger] below[i] != '/',
        forall|i: int| 0 <= i < other.len() ==> #[trigger] other[i] != '/',
    ensures
        same_place(
            base + (seq!['/'] + (seq!['/'] + below)),
            base + (seq!['/'] + below),
        ),
        below != other ==> !same_place(
            base + (seq!['/'] + below),
            base + (seq!['/'] + other),
        ),
{
    crate::text::law_fields_stand_between_separators(below, '/', seq![]);
    crate::text::law_fields_stand_between_separators(other, '/', seq![]);
    crate::text::law_fields_stand_between_separators(seq![], '/', below);
    assert(Seq::<char>::empty() + (seq!['/'] + below) =~= seq!['/'] + below);
    lemma_fields_add(seq![], base, below, '/');
    lemma_fields_add(seq![], base, other, '/');
    lemma_fields_add(seq![], base, seq!['/'] + below, '/');
    lemma_fields(seq![], base, '/');
    let fields = fields_of(base, '/');
    let one = fields + seq![below];
    let two = fields + (seq![Seq::<char>::empty()] + seq![below]);
    let three = fields + seq![other];
    assert(one[0] == fields[0] && two[0] == fields[0] && three[0] == fields[0]);
    lemma_named_parts_add(fields, seq![below]);
    lemma_named_parts_add(fields, seq![other]);
    lemma_named_parts_add(fields, seq![Seq::<char>::empty()] + seq![below]);
    lemma_named_parts_add(seq![Seq::<char>::empty()], seq![below]);
    assert(seq![below].drop_last() =~= Seq::<Seq<char>>::empty());
    assert(seq![other].drop_last() =~= Seq::<Seq<char>>::empty());
    assert(seq![Seq::<char>::empty()].drop_last() =~= Seq::<Seq<char>>::empty());
    assert(named_parts(Seq::<Seq<char>>::empty()) =~= Seq::<Seq<char>>::empty());
    assert(named_parts(seq![below]) =~= seq![below]);
    assert(named_parts(seq![other]) =~= seq![other]);
    assert(named_parts(seq![Seq::<char>::empty()]) =~= Seq::<Seq<char>>::empty());
    assert(Seq::<Seq<char>>::empty() + seq![below] =~= seq![below]);
    let a = base + (seq!['/'] + below);
    let b = base + (seq!['/'] + (seq!['/'] + below));
    let c = base + (seq!['/'] + other);
    assert(a[0] == base[0] && b[0] == base[0] && c[0] == base[0]);
    if below != other {
        assert(components_of(a).last() == below);
        assert(components_of(c).last() == other);
    }
}

} // verus!
