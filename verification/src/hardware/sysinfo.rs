//! What the machine says of itself, from the texts that the kernel and the distribution keep.

use vstd::prelude::*;

use crate::number::{decimal_value, parse_u32, parse_u64};
use crate::text::{
    chars_of, contains, fields_of, lines, lines_of, lowercase, lowered, occurs, same, split, stands_at,
    starts_with, string_between, text_of, texts, to_ascii_lowercase, trim, trimmed, words,
    words_of,
};

verus! {

/// Whether two texts are the same but for capital letters.
pub open spec fn same_letters(a: Seq<char>, b: Seq<char>) -> bool {
    lowered(a) == lowered(b)
}

fn equal_letters(a: &str, b: &str) -> (r: bool)
    ensures
        r == same_letters(a@, b@),
{
    same(to_ascii_lowercase(a).as_str(), to_ascii_lowercase(b).as_str())
}

/// Whether a list of models holds this word.
pub open spec fn names_model(word: Seq<char>, models: Seq<&str>) -> bool {
    exists|j: int| 0 <= j < models.len() && same_letters(word, #[trigger] models[j]@)
}

/// Whether one of the words of a product's name is one of the models.
pub open spec fn model_named(product_name: Seq<char>, models: Seq<&str>) -> bool {
    exists|i: int|
        0 <= i < words_of(product_name).len() && names_model(
            #[trigger] words_of(product_name)[i],
            models,
        )
}

/// Whether a product's name holds one of the models as a whole word: a longer code is
/// another chassis, whose firmware is not known to behave the same.
pub fn matches_model(product_name: &str, models: &[&str]) -> (r: bool)
    ensures
        r == model_named(product_name@, models@),
{
    let parts = words(product_name);
    let mut i: usize = 0;
    while i < parts.len()
        invariant
            i <= parts@.len(),
            texts(parts@) == words_of(product_name@),
            forall|k: int|
                0 <= k < i ==> !names_model(#[trigger] words_of(product_name@)[k], models@),
        decreases parts@.len() - i,
    {
        assert(texts(parts@)[i as int] == parts@[i as int]@);
        let mut j: usize = 0;
        while j < models.len()
            invariant
                i < parts@.len(),
                j <= models@.len(),
                texts(parts@) == words_of(product_name@),
                parts@[i as int]@ == words_of(product_name@)[i as int],
                forall|k: int|
                    0 <= k < j ==> !same_letters(parts@[i as int]@, #[trigger] models@[k]@),
            decreases models@.len() - j,
        {
            let model = models[j];
            if equal_letters(parts[i].as_str(), model) {
                assert(same_letters(words_of(product_name@)[i as int], models@[j as int]@));
                assert(names_model(words_of(product_name@)[i as int], models@));
                return true;
            }
            j = j + 1;
        }
        i = i + 1;
    }
    false
}

/// Whether this machine is one of the models: `forced` overrides the name that the firmware
/// gives, and a machine without either is none of them.
pub fn product_matches(forced: &Option<String>, product: &Option<String>, models: &[&str]) -> (r:
    bool)
    ensures
        r == (match (forced, product) {
            (Some(name), _) => model_named(name@, models@),
            (None, Some(name)) => model_named(trimmed(name@), models@),
            (None, None) => model_named(""@, models@),
        }),
        // What is forced counts whatever the firmware says.
        forced is Some ==> r == model_named(forced->0@, models@),
        forced is None && product is None ==> !r,
{
    proof {
        reveal_strlit("");
        assert(words_of(""@) == Seq::<Seq<char>>::empty());
    }
    match forced {
        Some(name) => matches_model(name.as_str(), models),
        None => match product {
            Some(name) => matches_model(trim(name.as_str()).as_str(), models),
            None => matches_model("", models),
        },
    }
}

/// Whether this machine is a Nitro, by the name that the firmware gives; `forced` overrides
/// it, so that either look can be seen on any machine.
pub fn is_nitro_brand(forced: &Option<String>, product: &Option<String>) -> (r: bool)
    ensures
        r == (match (forced, product) {
            (Some(brand), _) => same_letters(brand@, "nitro"@),
            (None, Some(name)) => occurs(lowercase(trimmed(name@)), "nitro"@),
            (None, None) => false,
        }),
        forced is Some ==> r == same_letters(forced->0@, "nitro"@),
        forced is None && product is None ==> !r,
{
    match forced {
        Some(brand) => equal_letters(brand.as_str(), "nitro"),
        None => match product {
            Some(name) => {
                let tight = trim(name.as_str());
                contains(tight.as_str().to_lowercase().as_str(), "nitro")
            },
            None => false,
        },
    }
}

/// What follows a prefix.
pub open spec fn after_prefix(s: Seq<char>, prefix: Seq<char>) -> Option<Seq<char>> {
    if stands_at(s, prefix, 0) {
        Some(s.skip(prefix.len() as int))
    } else {
        None
    }
}

fn strip_prefix(s: &str, prefix: &str) -> (r: Option<String>)
    ensures
        text_of(r) == after_prefix(s@, prefix@),
{
    if !starts_with(s, prefix) {
        return None;
    }
    let v = chars_of(s);
    let w = chars_of(prefix);
    let n: usize = v.len();
    let k: usize = w.len();
    assert(v@.subrange(k as int, n as int) =~= s@.skip(k as int));
    Some(string_between(&v, k, n))
}

/// A text without the quotation marks at its start.
pub open spec fn unquoted_front(s: Seq<char>) -> Seq<char>
    decreases s.len(),
{
    if s.len() > 0 && s[0] == '"' {
        unquoted_front(s.drop_first())
    } else {
        s
    }
}

/// A text without the quotation marks at its end.
pub open spec fn unquoted_back(s: Seq<char>) -> Seq<char>
    decreases s.len(),
{
    if s.len() > 0 && s.last() == '"' {
        unquoted_back(s.drop_last())
    } else {
        s
    }
}

fn unquote(s: &str) -> (r: String)
    ensures
        r@ == unquoted_back(unquoted_front(s@)),
{
    let v = chars_of(s);
    let n: usize = v.len();
    let mut from: usize = 0;
    assert(v@.skip(0) =~= v@);
    while from < n && v[from] == '"'
        invariant
            n == v@.len(),
            from <= n,
            v@ == s@,
            unquoted_front(v@.skip(from as int)) == unquoted_front(s@),
        decreases n - from,
    {
        assert(v@.skip(from as int)[0] == '"');
        assert(v@.skip(from as int).drop_first() =~= v@.skip(from + 1));
        from = from + 1;
    }
    let mut to: usize = n;
    assert(v@.subrange(from as int, n as int) =~= v@.skip(from as int));
    assert(from < n ==> v@.skip(from as int)[0] == v@[from as int]);
    while to > from && v[to - 1] == '"'
        invariant
            n == v@.len(),
            from <= to <= n,
            unquoted_back(v@.subrange(from as int, to as int)) == unquoted_back(
                v@.skip(from as int),
            ),
        decreases to - from,
    {
        let ghost part = v@.subrange(from as int, to as int);
        assert(part.last() == '"');
        assert(part.drop_last() =~= v@.subrange(from as int, to - 1));
        to = to - 1;
    }
    assert(to > from ==> v@.subrange(from as int, to as int).last() == v@[to - 1]);
    string_between(&v, from, to)
}

/// The value of the first line that begins with a key, if any.
pub open spec fn first_with_prefix(all: Seq<Seq<char>>, prefix: Seq<char>) -> Option<Seq<char>>
    decreases all.len(),
{
    if all.len() == 0 {
        None
    } else {
        match after_prefix(all[0], prefix) {
            Some(rest) => Some(rest),
            None => first_with_prefix(all.drop_first(), prefix),
        }
    }
}

/// The distribution's name of itself, from its release file; `Linux` where there is none.
pub open spec fn os_name(release: Option<Seq<char>>) -> Seq<char> {
    match release {
        None => "Linux"@,
        Some(text) => match first_with_prefix(lines_of(text), "PRETTY_NAME="@) {
            Some(rest) => unquoted_back(unquoted_front(rest)),
            None => "Linux"@,
        },
    }
}

/// The distribution's name of itself, from its release file.
pub fn read_os_pretty(release: &Option<String>) -> (r: String)
    ensures
        r@ == os_name(text_of(*release)),
{
    if let Some(text) = release {
        let all = lines(text.as_str());
        let ghost seen = texts(all@);
        let mut i: usize = 0;
        assert(seen.skip(0) =~= seen);
        while i < all.len()
            invariant
                i <= all@.len(),
                seen == texts(all@),
                seen == lines_of(text@),
                release is Some,
                release->0@ == text@,
                first_with_prefix(seen, "PRETTY_NAME="@) == first_with_prefix(
                    seen.skip(i as int),
                    "PRETTY_NAME="@,
                ),
            decreases all@.len() - i,
        {
            assert(seen.skip(i as int)[0] == all@[i as int]@);
            assert(seen.skip(i as int).drop_first() =~= seen.skip(i + 1));
            if let Some(rest) = strip_prefix(all[i].as_str(), "PRETTY_NAME=") {
                return unquote(rest.as_str());
            }
            i = i + 1;
        }
    }
    "Linux".to_owned()
}

/// What a line of the kernel's CPU listing says under a key: what stands between the first
/// colon after the key and the next.
pub open spec fn cpuinfo_field(line: Seq<char>, key: Seq<char>) -> Option<Seq<char>> {
    match after_prefix(line, key) {
        None => None,
        Some(rest) => {
            let fields = fields_of(rest, ':');
            if fields.len() > 1 {
                Some(trimmed(fields[1]))
            } else {
                None
            }
        },
    }
}

fn field_of(line: &str, key: &str) -> (r: Option<String>)
    ensures
        text_of(r) == cpuinfo_field(line@, key@),
{
    match strip_prefix(line, key) {
        None => None,
        Some(rest) => {
            let fields = split(rest.as_str(), ':');
            assert(texts(fields@).len() == fields@.len());
            if fields.len() > 1 {
                assert(texts(fields@)[1] == fields@[1]@);
                Some(trim(fields[1].as_str()))
            } else {
                None
            }
        },
    }
}

/// The first processor name in a CPU listing.
pub open spec fn first_model(all: Seq<Seq<char>>) -> Option<Seq<char>>
    decreases all.len(),
{
    if all.len() == 0 {
        None
    } else {
        match cpuinfo_field(all[0], "model name"@) {
            Some(name) => Some(name),
            None => first_model(all.drop_first()),
        }
    }
}

/// The processor's name.
pub open spec fn cpu_name(cpuinfo: Option<Seq<char>>) -> Seq<char> {
    match cpuinfo {
        None => "Unknown CPU"@,
        Some(text) => match first_model(lines_of(text)) {
            Some(name) => name,
            None => "Unknown CPU"@,
        },
    }
}

/// The processor's name, from the kernel's CPU listing.
pub fn read_cpu_model(cpuinfo: &Option<String>) -> (r: String)
    ensures
        r@ == cpu_name(text_of(*cpuinfo)),
{
    if let Some(text) = cpuinfo {
        let all = lines(text.as_str());
        let ghost seen = texts(all@);
        let mut i: usize = 0;
        assert(seen.skip(0) =~= seen);
        while i < all.len()
            invariant
                i <= all@.len(),
                seen == texts(all@),
                seen == lines_of(text@),
                cpuinfo is Some,
                cpuinfo->0@ == text@,
                first_model(seen) == first_model(seen.skip(i as int)),
            decreases all@.len() - i,
        {
            assert(seen.skip(i as int)[0] == all@[i as int]@);
            assert(seen.skip(i as int).drop_first() =~= seen.skip(i + 1));
            if let Some(name) = field_of(all[i].as_str(), "model name") {
                return name;
            }
            i = i + 1;
        }
    }
    "Unknown CPU".to_owned()
}

/// The number a line gives as the processor's cores.
pub open spec fn cores_in(line: Seq<char>) -> Option<nat> {
    match cpuinfo_field(line, "cpu cores"@) {
        Some(field) => decimal_value(field, u32::MAX as nat),
        None => None,
    }
}

/// The first number of cores in a CPU listing; none is zero.
pub open spec fn first_cores(all: Seq<Seq<char>>) -> nat
    decreases all.len(),
{
    if all.len() == 0 {
        0
    } else {
        match cores_in(all[0]) {
            Some(n) => n,
            None => first_cores(all.drop_first()),
        }
    }
}

/// The processor's cores, from the kernel's CPU listing; zero where it does not say.
pub fn read_cpu_cores(cpuinfo: &Option<String>) -> (r: u32)
    ensures
        r == (match cpuinfo {
            Some(text) => first_cores(lines_of(text@)),
            None => 0,
        }),
{
    if let Some(text) = cpuinfo {
        let all = lines(text.as_str());
        let ghost seen = texts(all@);
        let mut i: usize = 0;
        assert(seen.skip(0) =~= seen);
        while i < all.len()
            invariant
                i <= all@.len(),
                seen == texts(all@),
                seen == lines_of(text@),
                cpuinfo is Some,
                cpuinfo->0@ == text@,
                first_cores(seen) == first_cores(seen.skip(i as int)),
            decreases all@.len() - i,
        {
            assert(seen.skip(i as int)[0] == all@[i as int]@);
            assert(seen.skip(i as int).drop_first() =~= seen.skip(i + 1));
            if let Some(field) = field_of(all[i].as_str(), "cpu cores") {
                if let Some(n) = parse_u32(field.as_str()) {
                    return n;
                }
            }
            i = i + 1;
        }
    }
    0
}

/// The processor's highest frequency in MHz, from what cpufreq says in kHz; zero where it
/// does not.
pub fn read_cpu_max_freq(khz: &Option<String>) -> (r: u32)
    ensures
        r == (match khz {
            Some(text) => match decimal_value(trimmed(text@), u32::MAX as nat) {
                Some(n) => n / 1000,
                None => 0,
            },
            None => 0,
        }),
        // A megahertz is a thousand kilohertz; what is left over is dropped.
        match khz {
            Some(text) => match decimal_value(trimmed(text@), u32::MAX as nat) {
                Some(n) => 1000 * r <= n < 1000 * r + 1000,
                None => r == 0,
            },
            None => r == 0,
        },
{
    match khz {
        None => 0,
        Some(text) => match parse_u32(trim(text.as_str()).as_str()) {
            Some(n) => n / 1000,
            None => 0,
        },
    }
}

/// The amount of memory that a line gives, in KiB.
pub open spec fn memory_in(line: Seq<char>) -> Option<nat> {
    match after_prefix(line, "MemTotal:"@) {
        None => None,
        Some(rest) => if words_of(rest).len() > 0 {
            decimal_value(words_of(rest)[0], u64::MAX as nat)
        } else {
            None
        },
    }
}

/// The first amount of memory in a listing; none is zero.
pub open spec fn first_memory(all: Seq<Seq<char>>) -> nat
    decreases all.len(),
{
    if all.len() == 0 {
        0
    } else {
        match memory_in(all[0]) {
            Some(n) => n,
            None => first_memory(all.drop_first()),
        }
    }
}

/// The machine's memory in KiB, from the kernel's memory listing; zero where it does not say.
pub fn read_ram_total_kib(meminfo: &Option<String>) -> (r: u64)
    ensures
        r == (match meminfo {
            Some(text) => first_memory(lines_of(text@)),
            None => 0,
        }),
{
    if let Some(text) = meminfo {
        let all = lines(text.as_str());
        let ghost seen = texts(all@);
        let mut i: usize = 0;
        assert(seen.skip(0) =~= seen);
        while i < all.len()
            invariant
                i <= all@.len(),
                seen == texts(all@),
                seen == lines_of(text@),
                meminfo is Some,
                meminfo->0@ == text@,
                first_memory(seen) == first_memory(seen.skip(i as int)),
            decreases all@.len() - i,
        {
            assert(seen.skip(i as int)[0] == all@[i as int]@);
            assert(seen.skip(i as int).drop_first() =~= seen.skip(i + 1));
            if let Some(rest) = strip_prefix(all[i].as_str(), "MemTotal:") {
                let parts = words(rest.as_str());
                assert(texts(parts@).len() == parts@.len());
                if parts.len() > 0 {
                    assert(texts(parts@)[0] == parts@[0]@);
                    if let Some(n) = parse_u64(parts[0].as_str()) {
                        return n;
                    }
                }
            }
            i = i + 1;
        }
    }
    0
}

/// Capital letters make no difference between two texts, and every other one does.
pub proof fn law_only_capitals_are_overlooked(a: Seq<char>, b: Seq<char>)
    ensures
        same_letters(a, lowered(a)),
        same_letters(a, b) == same_letters(b, a),
        same_letters(a, b) ==> a.len() == b.len(),
        (forall|i: int|
            0 <= i < a.len() ==> crate::text::lower_char(#[trigger] a[i]) == a[i]) && (forall|
            i: int,
        |
            0 <= i < b.len() ==> crate::text::lower_char(#[trigger] b[i]) == b[i]) ==> (same_letters(
            a,
            b,
        ) <==> a == b),
{
    assert(lowered(lowered(a)) =~= lowered(a));
    assert(lowered(a).len() == a.len() && lowered(b).len() == b.len());
    if forall|i: int| 0 <= i < a.len() ==> crate::text::lower_char(#[trigger] a[i]) == a[i] {
        assert(lowered(a) =~= a);
    }
    if forall|i: int| 0 <= i < b.len() ==> crate::text::lower_char(#[trigger] b[i]) == b[i] {
        assert(lowered(b) =~= b);
    }
}

/// A product is one of the models where a whole word of its name is the model's, and a name
/// none of whose words is any model's is none of them.
pub proof fn law_models_are_whole_words(product_name: Seq<char>, models: Seq<&str>, i: int, j: int)
    ensures
        0 <= i < words_of(product_name).len() && 0 <= j < models.len() && words_of(product_name)[i]
            == models[j]@ ==> model_named(product_name, models),
        (forall|k: int, m: int|
            0 <= k < words_of(product_name).len() && 0 <= m < models.len() ==> lowered(
                #[trigger] words_of(product_name)[k],
            ) != lowered(#[trigger] models[m]@)) ==> !model_named(product_name, models),
{
    if 0 <= i < words_of(product_name).len() && 0 <= j < models.len()
        && words_of(product_name)[i] == models[j]@ {
        assert(same_letters(words_of(product_name)[i], models[j]@));
        assert(names_model(words_of(product_name)[i], models));
    }
}

proof fn lemma_line_begins(prefix: Seq<char>, rest: Seq<char>)
    ensures
        after_prefix(prefix + rest, prefix) == Some(rest),
{
    let line = prefix + rest;
    assert(line.subrange(0, prefix.len() as int) =~= prefix);
    assert(line.skip(prefix.len() as int) =~= rest);
}

/// The distribution's name is what stands in quotation marks behind its key, whatever lines
/// stand after it; without that line it is `Linux`.
pub proof fn law_distribution_is_named_by_its_key(name: Seq<char>, rest: Seq<char>)
    requires
        name.len() > 0,
        name[0] != '"' && name.last() != '"',
        forall|i: int| 0 <= i < name.len() ==> #[trigger] name[i] != '\n',
    ensures
        os_name(
            Some("PRETTY_NAME="@ + (seq!['"'] + name + seq!['"']) + seq!['\n'] + rest),
        ) == name,
        os_name(None) == "Linux"@,
{
    reveal_strlit("PRETTY_NAME=");
    let quoted = seq!['"'] + name + seq!['"'];
    let line = "PRETTY_NAME="@ + quoted;
    assert(line.last() == '"');
    assert forall|i: int| 0 <= i < line.len() implies #[trigger] line[i] != '\n' by {
        if i >= 12 {
            assert(line[i] == quoted[i - 12]);
            if 1 <= i - 12 <= name.len() {
                assert(quoted[i - 12] == name[i - 13]);
            }
        } else {
            assert(line[i] == "PRETTY_NAME="@[i]);
        }
    }
    crate::text::law_lines_end_at_line_feeds(line, rest);
    let all = lines_of(line + seq!['\n'] + rest);
    assert(all[0] == line);
    lemma_line_begins("PRETTY_NAME="@, quoted);
    let front = name + seq!['"'];
    assert(quoted[0] == '"');
    assert(quoted.drop_first() =~= front);
    assert(front[0] == name[0]);
    assert(unquoted_front(front) == front);
    assert(unquoted_front(quoted) == front);
    assert(front.last() == '"');
    assert(front.drop_last() =~= name);
    assert(unquoted_back(name) == name);
    assert(unquoted_back(front) == name);
}

/// A line that does not begin with the key says nothing, and the first that does decides.
pub proof fn law_first_line_with_the_key_decides(
    line: Seq<char>,
    all: Seq<Seq<char>>,
    key: Seq<char>,
    rest: Seq<char>,
)
    ensures
        first_with_prefix(seq![key + rest] + all, key) == Some(rest),
        !stands_at(line, key, 0) ==> first_with_prefix(seq![line] + all, key) == first_with_prefix(
            all,
            key,
        ),
        first_with_prefix(seq![], key) is None,
{
    lemma_line_begins(key, rest);
    assert((seq![key + rest] + all)[0] == key + rest);
    assert((seq![line] + all)[0] == line);
    assert((seq![line] + all).drop_first() =~= all);
}

/// What the CPU listing says under a key stands behind the colon, without the white space
/// around it.
pub proof fn law_listing_values_stand_behind_the_colon(
    key: Seq<char>,
    pad: Seq<char>,
    value: Seq<char>,
)
    requires
        forall|i: int| 0 <= i < pad.len() ==> #[trigger] pad[i] != ':',
        forall|i: int| 0 <= i < value.len() ==> #[trigger] value[i] != ':',
        value.len() > 0,
        !crate::text::is_space(value[0]),
        !crate::text::is_space(value.last()),
    ensures
        cpuinfo_field(key + (pad + (seq![':'] + (seq![' '] + value))), key) == Some(value),
{
    let rest = pad + (seq![':'] + (seq![' '] + value));
    let tail = seq![' '] + value;
    lemma_line_begins(key, rest);
    assert forall|i: int| 0 <= i < tail.len() implies #[trigger] tail[i] != ':' by {
        if i > 0 {
            assert(tail[i] == value[i - 1]);
        }
    }
    crate::text::law_fields_stand_between_separators(pad, ':', tail);
    crate::text::law_fields_stand_between_separators(tail, ':', seq![]);
    let fields = fields_of(rest, ':');
    assert(fields =~= seq![pad, tail]);
    assert(tail[0] == ' ');
    assert(tail.drop_first() =~= value);
    assert(crate::text::trim_front(value) == value);
    assert(crate::text::trim_front(tail) == value);
    assert(crate::text::trim_back(value) == value);
}

/// The number of cores and the amount of memory are the first that are given; lines that give
/// none are passed over.
pub proof fn law_first_amount_counts(line: Seq<char>, all: Seq<Seq<char>>)
    ensures
        cores_in(line) is Some ==> first_cores(seq![line] + all) == cores_in(line)->0,
        cores_in(line) is None ==> first_cores(seq![line] + all) == first_cores(all),
        memory_in(line) is Some ==> first_memory(seq![line] + all) == memory_in(line)->0,
        memory_in(line) is None ==> first_memory(seq![line] + all) == first_memory(all),
        cpuinfo_field(line, "model name"@) is Some ==> first_model(seq![line] + all)
            == cpuinfo_field(line, "model name"@),
        cpuinfo_field(line, "model name"@) is None ==> first_model(seq![line] + all)
            == first_model(all),
        first_cores(seq![]) == 0 && first_memory(seq![]) == 0 && first_model(seq![]) is None,
{
    assert((seq![line] + all)[0] == line);
    assert((seq![line] + all).drop_first() =~= all);
}

/// The memory is the number behind its key, whatever unit stands behind that.
pub proof fn law_memory_is_the_number_behind_its_key(kib: u64, unit: Seq<char>)
    ensures
        memory_in(
            "MemTotal:"@ + (seq![' '] + (crate::number::decimal_text(kib as nat) + (seq![' ']
                + unit))),
        ) == Some(kib as nat),
{
    let digits = crate::number::decimal_text(kib as nat);
    let behind = digits + (seq![' '] + unit);
    crate::number::lemma_decimal_text(kib as nat);
    crate::number::lemma_digits_not_space(digits, 10);
    crate::number::law_decimal_round_trip(kib as nat, u64::MAX as nat);
    lemma_line_begins("MemTotal:"@, seq![' '] + behind);
    crate::text::law_words_stand_between_spaces(digits, ' ', unit);
    crate::text::law_words_stand_between_spaces(digits, ' ', behind);
    assert(words_of(seq![' '] + behind)[0] == digits);
}

/// The cores are the number under their own key.
pub proof fn law_cores_are_the_number_under_their_key(cores: u32)
    ensures
        cores_in(
            "cpu cores"@ + (seq!['\t'] + (seq![':'] + (seq![' '] + crate::number::decimal_text(
                cores as nat,
            )))),
        ) == Some(cores as nat),
{
    let digits = crate::number::decimal_text(cores as nat);
    crate::number::lemma_decimal_text(cores as nat);
    crate::number::lemma_digits_not_space(digits, 10);
    crate::number::law_decimal_round_trip(cores as nat, u32::MAX as nat);
    assert forall|i: int| 0 <= i < digits.len() implies #[trigger] digits[i] != ':' by {
        assert(crate::number::digit_value(digits[i], 10) is Some);
    }
    law_listing_values_stand_behind_the_colon("cpu cores"@, seq!['\t'], digits);
}

} // verus!
