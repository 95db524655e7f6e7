//! The mode key's cycles, as the kernel module takes them.

use vstd::prelude::*;

use crate::number::{decimal, decimal_text, decimal_value, parse_u8};
use crate::paths::{join_path, joined_path};
use crate::privileged::messages::{fail, fail_quoting, failure, quoting};
use crate::protocol::helper::OPTIONAL_VALUE_SKIP;
use crate::text::{cat4, fields_of, join, joined, same, split, texts, trim, trimmed};

verus! {

/// The indices that the fields of a list name, blank ones left out; the first that is no
/// index is an error.
pub open spec fn cycle_indices(fields: Seq<Seq<char>>) -> Result<Seq<Seq<char>>, Seq<char>>
    decreases fields.len(),
{
    if fields.len() == 0 {
        Ok(seq![])
    } else {
        match cycle_indices(fields.drop_last()) {
            Err(e) => Err(e),
            Ok(before) => {
                let field = trimmed(fields.last());
                if field.len() == 0 {
                    Ok(before)
                } else {
                    match decimal_value(field, 255) {
                        Some(n) => Ok(before.push(decimal_text(n))),
                        None => Err(
                            failure(
                                quoting(
                                    "mode-cycle: "@,
                                    fields.last(),
                                    " is not a profile index"@,
                                ),
                            ),
                        ),
                    }
                }
            },
        }
    }
}

/// What is written for a cycle: `None` leaves it alone, and an empty list clears it.
pub open spec fn cycle_value(value: Seq<char>) -> Result<Option<Seq<char>>, Seq<char>> {
    if value == OPTIONAL_VALUE_SKIP@ {
        Ok(None)
    } else {
        match cycle_indices(fields_of(value, ',')) {
            Ok(indices) => Ok(Some(joined(indices, ","@).push('\n'))),
            Err(e) => Err(e),
        }
    }
}

proof fn lemma_first_bad_field(fields: Seq<Seq<char>>, i: int)
    requires
        0 <= i <= fields.len(),
        cycle_indices(fields.take(i)) is Err,
    ensures
        cycle_indices(fields) == cycle_indices(fields.take(i)),
    decreases fields.len() - i,
{
    if i == fields.len() {
        assert(fields.take(i) == fields);
    } else {
        assert(fields.take(i + 1).drop_last() == fields.take(i));
        lemma_first_bad_field(fields, i + 1);
    }
}

/// A text that is written or left out, or an error, taken as characters.
pub open spec fn cycle_view(r: Result<Option<String>, String>) -> Result<
    Option<Seq<char>>,
    Seq<char>,
> {
    match r {
        Ok(value) => Ok(crate::text::text_of(value)),
        Err(e) => Err(e@),
    }
}

/// Works out what is written for a cycle. Every field is checked to be an index before
/// anything reaches the kernel.
pub fn mode_cycle_text(value: &str) -> (r: Result<Option<String>, String>)
    ensures
        cycle_view(r) == cycle_value(value@),
{
    if same(value, OPTIONAL_VALUE_SKIP) {
        return Ok(None);
    }
    let fields = split(value, ',');
    let mut indices: Vec<String> = Vec::new();
    let mut i: usize = 0;
    let ghost t = texts(fields@);
    assert(texts(indices@) == Seq::<Seq<char>>::empty());
    assert(t.take(0) == Seq::<Seq<char>>::empty());
    while i < fields.len()
        invariant
            i <= fields@.len(),
            t == texts(fields@),
            t == fields_of(value@, ','),
            value@ != OPTIONAL_VALUE_SKIP@,
            cycle_indices(t.take(i as int)) == Ok::<Seq<Seq<char>>, Seq<char>>(texts(indices@)),
        decreases fields@.len() - i,
    {
        let ghost u = t.take(i + 1);
        assert(u.drop_last() == t.take(i as int));
        assert(u.last() == fields@[i as int]@);
        let field = trim(fields[i].as_str());
        if !field.as_str().is_empty() {
            match parse_u8(field.as_str()) {
                Some(n) => {
                    let ghost before = texts(indices@);
                    let text = decimal(n as u64);
                    indices.push(text);
                    assert(texts(indices@) == before.push(text@));
                },
                None => {
                    proof {
                        lemma_first_bad_field(t, i + 1);
                    }
                    return Err(
                        fail_quoting(
                            "mode-cycle: ",
                            fields[i].as_str(),
                            " is not a profile index",
                        ),
                    );
                },
            }
        }
        i = i + 1;
    }
    assert(t.take(i as int) == t);
    let mut out = join(&indices, ",");
    out.push('\n');
    Ok(Some(out))
}

/// Where a cycle is written.
pub fn mode_cycle_path(sysfs: &str, attribute: &str) -> (r: String)
    ensures
        r@ == joined_path(joined_path(sysfs@, "devices/platform/acer-wmi"@), attribute@),
        sysfs@ == "/sys"@ && attribute@.len() > 0 && attribute@[0] != '/' ==> r@
            == "/sys/devices/platform/acer-wmi/"@ + attribute@,
{
    proof {
        reveal_strlit("/");
        reveal_strlit("/sys");
        reveal_strlit("devices/platform/acer-wmi");
        reveal_strlit("/sys/devices/platform/acer-wmi/");
        assert("/sys"@ + "/"@ + "devices/platform/acer-wmi"@ + "/"@
            =~= "/sys/devices/platform/acer-wmi/"@);
    }
    join_path(join_path(sysfs, "devices/platform/acer-wmi").as_str(), attribute)
}

/// The error for a cycle that could not be written.
pub fn mode_cycle_failed(path: &str, cause: &str) -> (r: String)
    ensures
        r@ == failure("mode-cycle: writing "@ + path@ + ": "@ + cause@),
{
    fail(cat4("mode-cycle: writing ", path, ": ", cause).as_str())
}

/// Whether a character may stand in what is written for a cycle.
pub open spec fn is_plain(c: char) -> bool {
    0x30 <= c as int <= 0x39 || c == ',' || c == '\n'
}

/// Whether every character of a text may stand in what is written for a cycle.
pub open spec fn all_plain(s: Seq<char>) -> bool {
    forall|i: int| 0 <= i < s.len() ==> is_plain(#[trigger] s[i])
}

proof fn lemma_decimal_is_plain(n: nat)
    ensures
        all_plain(decimal_text(n)),
    decreases n,
{
    if n >= 10 {
        lemma_decimal_is_plain(n / 10);
    }
}

proof fn lemma_indices_are_plain(fields: Seq<Seq<char>>, k: int)
    requires
        cycle_indices(fields) is Ok,
        0 <= k < cycle_indices(fields)->Ok_0.len(),
    ensures
        all_plain(cycle_indices(fields)->Ok_0[k]),
    decreases fields.len(),
{
    let before = cycle_indices(fields.drop_last())->Ok_0;
    if k < before.len() {
        lemma_indices_are_plain(fields.drop_last(), k);
    } else {
        lemma_decimal_is_plain(decimal_value(trimmed(fields.last()), 255)->0);
    }
}

proof fn lemma_joined_is_plain(parts: Seq<Seq<char>>)
    requires
        forall|k: int| 0 <= k < parts.len() ==> all_plain(#[trigger] parts[k]),
    ensures
        all_plain(joined(parts, ","@)),
    decreases parts.len(),
{
    reveal_strlit(",");
    if parts.len() > 1 {
        assert forall|k: int| 0 <= k < parts.drop_last().len() implies all_plain(
            #[trigger] parts.drop_last()[k],
        ) by {
            assert(parts.drop_last()[k] == parts[k]);
        }
        lemma_joined_is_plain(parts.drop_last());
    }
}

/// Whatever a cycle was asked to be, nothing but digits, commas and the line feed is ever
/// written for it.
pub proof fn law_only_indices_are_written(value: Seq<char>)
    ensures
        match cycle_value(value) {
            Ok(Some(text)) => all_plain(text),
            _ => true,
        },
{
    let fields = fields_of(value, ',');
    if cycle_indices(fields) is Ok {
        let parts = cycle_indices(fields)->Ok_0;
        assert forall|k: int| 0 <= k < parts.len() implies all_plain(#[trigger] parts[k]) by {
            lemma_indices_are_plain(fields, k);
        }
        lemma_joined_is_plain(parts);
    }
}

/// The texts of a list of indices.
pub open spec fn index_texts(indices: Seq<u8>) -> Seq<Seq<char>> {
    Seq::new(indices.len(), |i: int| decimal_text(indices[i] as nat))
}

proof fn lemma_indices_of_texts(indices: Seq<u8>)
    ensures
        cycle_indices(index_texts(indices)) == Ok::<Seq<Seq<char>>, Seq<char>>(
            index_texts(indices),
        ),
    decreases indices.len(),
{
    let fields = index_texts(indices);
    if indices.len() == 0 {
        assert(fields =~= Seq::<Seq<char>>::empty());
    } else {
        let n = indices.last();
        lemma_indices_of_texts(indices.drop_last());
        assert(fields.drop_last() =~= index_texts(indices.drop_last()));
        assert(fields.last() == decimal_text(n as nat));
        crate::number::lemma_decimal_text(n as nat);
        crate::number::lemma_digits_not_space(fields.last(), 10);
        crate::number::law_decimal_round_trip(n as nat, 255);
        assert(crate::text::trim_front(fields.last()) == fields.last());
        assert(crate::text::trim_back(fields.last()) == fields.last());
        assert(fields.drop_last().push(fields.last()) =~= fields);
    }
}

/// A cycle is written as it was asked for: its indices, in their order and with commas
/// between them, on one line.
pub proof fn law_cycle_is_written_as_asked(indices: Seq<u8>)
    requires
        indices.len() > 0,
    ensures
        cycle_value(joined(index_texts(indices), ","@)) == Ok::<Option<Seq<char>>, Seq<char>>(
            Some(joined(index_texts(indices), ","@).push('\n')),
        ),
{
    let parts = index_texts(indices);
    let value = joined(parts, ","@);
    reveal_strlit(",");
    reveal_strlit("skip");
    assert(","@ =~= seq![',']);
    assert forall|k: int, i: int| 0 <= k < parts.len() && 0 <= i < parts[k].len() implies
        #[trigger] parts[k][i] != ',' by {
        crate::number::lemma_decimal_text(indices[k] as nat);
        assert(crate::number::digit_value(parts[k][i], 10) is Some);
    }
    crate::text::law_joined_parts_come_apart(parts, ',');
    lemma_indices_of_texts(indices);
    assert forall|k: int| 0 <= k < parts.len() implies all_plain(#[trigger] parts[k]) by {
        lemma_decimal_is_plain(indices[k] as nat);
    }
    lemma_joined_is_plain(parts);
    if value == "skip"@ {
        assert("skip"@[0] == 's');
        assert(is_plain(value[0]));
    }
}

/// A cycle that is to be left alone is not written.
pub proof fn law_skipped_cycle_is_left_alone(value: Seq<char>)
    ensures
        cycle_value(value) == Ok::<Option<Seq<char>>, Seq<char>>(None) <==> value == "skip"@,
{
}

proof fn lemma_bad_field_is_refused(fields: Seq<Seq<char>>, i: int)
    requires
        0 <= i < fields.len(),
        trimmed(fields[i]).len() > 0,
        decimal_value(trimmed(fields[i]), 255) is None,
    ensures
        cycle_indices(fields) is Err,
    decreases fields.len(),
{
    if i < fields.len() - 1 {
        assert(fields.drop_last()[i] == fields[i]);
        lemma_bad_field_is_refused(fields.drop_last(), i);
    }
}

/// A list with a field that is neither blank nor an index is refused as a whole.
pub proof fn law_bad_field_refuses_the_list(value: Seq<char>, i: int)
    requires
        value != "skip"@,
        0 <= i < fields_of(value, ',').len(),
        trimmed(fields_of(value, ',')[i]).len() > 0,
        decimal_value(trimmed(fields_of(value, ',')[i]), 255) is None,
    ensures
        cycle_value(value) is Err,
{
    lemma_bad_field_is_refused(fields_of(value, ','), i);
}

} // verus!
