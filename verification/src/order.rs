//! The order in which directory entries are taken: by their names, character by
//! character.

use vstd::prelude::*;

use crate::text::{chars_of, code, texts};

verus! {

/// `a` stands no later than `b`.
pub open spec fn text_le(a: Seq<char>, b: Seq<char>) -> bool
    decreases a.len(),
{
    if a.len() == 0 {
        true
    } else if b.len() == 0 {
        false
    } else if a[0] == b[0] {
        text_le(a.drop_first(), b.drop_first())
    } else {
        (a[0] as int) < (b[0] as int)
    }
}

/// Of two names one stands no later than the other.
pub proof fn lemma_text_le_total(a: Seq<char>, b: Seq<char>)
    ensures
        text_le(a, b) || text_le(b, a),
        text_le(a, b) && text_le(b, a) ==> a == b,
    decreases a.len(),
{
    if a.len() > 0 && b.len() > 0 {
        if a[0] == b[0] {
            lemma_text_le_total(a.drop_first(), b.drop_first());
            assert(seq![a[0]] + a.drop_first() == a);
            assert(seq![b[0]] + b.drop_first() == b);
        }
    } else if a.len() == 0 && b.len() == 0 {
        assert(a == b);
    }
}

/// The order of names is transitive.
pub proof fn lemma_text_le_trans(a: Seq<char>, b: Seq<char>, c: Seq<char>)
    requires
        text_le(a, b),
        text_le(b, c),
    ensures
        text_le(a, c),
    decreases a.len(),
{
    if a.len() > 0 && b.len() > 0 && c.len() > 0 {
        if a[0] == b[0] && b[0] == c[0] {
            lemma_text_le_trans(a.drop_first(), b.drop_first(), c.drop_first());
        }
    }
}

/// Whether `a` stands no later than `b`.
pub fn name_le(a: &str, b: &str) -> (r: bool)
    ensures
        r == text_le(a@, b@),
{
    let v = chars_of(a);
    let w = chars_of(b);
    let mut i: usize = 0;
    assert(v@.skip(0) == v@);
    assert(w@.skip(0) == w@);
    while i < v.len()
        invariant
            i <= v@.len(),
            i <= w@.len(),
            v@ == a@,
            w@ == b@,
            text_le(v@, w@) == text_le(v@.skip(i as int), w@.skip(i as int)),
        decreases v@.len() - i,
    {
        if i == w.len() {
            return false;
        }
        assert(v@.skip(i as int)[0] == v@[i as int]);
        assert(w@.skip(i as int)[0] == w@[i as int]);
        let x: char = v[i];
        let y: char = w[i];
        if x != y {
            return code(x) < code(y);
        }
        assert(v@.skip(i as int).drop_first() == v@.skip(i + 1));
        assert(w@.skip(i as int).drop_first() == w@.skip(i + 1));
        i = i + 1;
    }
    true
}

/// Whether the names stand in order.
pub open spec fn in_order(names: Seq<Seq<char>>) -> bool {
    forall|i: int, j: int| 0 <= i <= j < names.len() ==> text_le(#[trigger] names[i], #[trigger] names[j])
}

/// Puts one name into a list that stands in order.
fn insert_name(list: &mut Vec<String>, name: String)
    requires
        in_order(texts(old(list)@)),
    ensures
        in_order(texts(final(list)@)),
        exists|k: int|
            0 <= k <= old(list)@.len() && final(list)@ == #[trigger] old(list)@.insert(k, name),
{
    let ghost before = list@;
    let mut k: usize = 0;
    while k < list.len() && name_le(list[k].as_str(), name.as_str())
        invariant
            k <= list@.len(),
            list@ == before,
            forall|i: int| 0 <= i < k ==> text_le(#[trigger] list@[i]@, name@),
        decreases list@.len() - k,
    {
        k = k + 1;
    }
    let ghost n = name@;
    let ghost s = name;
    list.insert(k, name);
    proof {
        let a = texts(before);
        let b = texts(list@);
        assert(list@ == before.insert(k as int, s));
        assert forall|i: int, j: int| 0 <= i <= j < b.len() implies text_le(
            #[trigger] b[i],
            #[trigger] b[j],
        ) by {
            let ii = if i < k { i } else { i - 1 };
            let jj = if j < k { j } else { j - 1 };
            lemma_text_le_total(n, n);
            if i != k && j != k {
                assert(b[i] == a[ii]);
                assert(b[j] == a[jj]);
            } else if i == k && j != k {
                assert(b[j] == a[jj]);
                assert(text_le(a[k as int], a[jj]));
                lemma_text_le_total(before[k as int]@, n);
                assert(!text_le(before[k as int]@, n));
                lemma_text_le_trans(n, a[k as int], a[jj]);
            } else if i != k && j == k {
                assert(b[i] == before[i]@);
            }
        }
    }
}

/// The names in order. The result holds each name as often as the input does.
pub fn sort_names(names: Vec<String>) -> (r: Vec<String>)
    ensures
        in_order(texts(r@)),
        texts(r@).to_multiset() == texts(names@).to_multiset(),
{
    let mut out: Vec<String> = Vec::new();
    let mut i: usize = 0;
    assert(texts(names@.take(0)) == texts(out@));
    while i < names.len()
        invariant
            i <= names@.len(),
            in_order(texts(out@)),
            texts(out@).to_multiset() == texts(names@.take(i as int)).to_multiset(),
        decreases names@.len() - i,
    {
        let ghost before = out@;
        let name = names[i].clone();
        insert_name(&mut out, name);
        proof {
            let k = choose|k: int| 0 <= k <= before.len() && out@ == #[trigger] before.insert(k, name);
            vstd::seq_lib::to_multiset_insert(texts(before), k, name@);
            assert(texts(out@) == texts(before).insert(k, name@));
            let t = texts(names@.take(i as int));
            t.to_multiset_ensures();
            assert(texts(names@.take(i + 1)) == t.push(name@));
        }
        i = i + 1;
    }
    assert(names@.take(i as int) == names@);
    out
}

/// The first of the names in order, if there is any.
pub fn first_name(names: &Vec<String>) -> (r: Option<String>)
    ensures
        match r {
            Some(first) => texts(names@).contains(first@) && forall|i: int|
                0 <= i < names@.len() ==> text_le(first@, #[trigger] names@[i]@),
            None => names@.len() == 0,
        },
{
    if names.len() == 0 {
        return None;
    }
    let mut best: usize = 0;
    let mut i: usize = 1;
    proof {
        lemma_text_le_total(names@[0]@, names@[0]@);
    }
    while i < names.len()
        invariant
            best < names@.len(),
            1 <= i <= names@.len(),
            forall|k: int| 0 <= k < i ==> text_le(names@[best as int]@, #[trigger] names@[k]@),
        decreases names@.len() - i,
    {
        if !name_le(names[best].as_str(), names[i].as_str()) {
            proof {
                lemma_text_le_total(names@[best as int]@, names@[i as int]@);
                lemma_text_le_total(names@[i as int]@, names@[i as int]@);
                assert forall|k: int| 0 <= k < i + 1 implies text_le(
                    names@[i as int]@,
                    #[trigger] names@[k]@,
                ) by {
                    if k < i {
                        lemma_text_le_trans(names@[i as int]@, names@[best as int]@, names@[k]@);
                    }
                }
            }
            best = i;
        }
        i = i + 1;
    }
    assert(texts(names@)[best as int] == names@[best as int]@);
    Some(names[best].clone())
}

/// Of two names the one comes first whose first character that differs comes first, and a
/// name comes before those that begin with it.
pub proof fn law_first_difference_decides(
    head: Seq<char>,
    x: char,
    y: char,
    a: Seq<char>,
    b: Seq<char>,
)
    requires
        x != y,
    ensures
        text_le(head + (seq![x] + a), head + (seq![y] + b)) <==> (x as int) < (y as int),
        text_le(head, head + b),
        b.len() > 0 ==> !text_le(head + b, head),
    decreases head.len(),
{
    let left = head + (seq![x] + a);
    let right = head + (seq![y] + b);
    let longer = head + b;
    if head.len() == 0 {
        assert(left[0] == x && right[0] == y);
    } else {
        assert(left[0] == head[0] && right[0] == head[0] && longer[0] == head[0]);
        assert(left.drop_first() == head.drop_first() + (seq![x] + a));
        assert(right.drop_first() == head.drop_first() + (seq![y] + b));
        assert(longer.drop_first() == head.drop_first() + b);
        law_first_difference_decides(head.drop_first(), x, y, a, b);
    }
}

} // verus!
