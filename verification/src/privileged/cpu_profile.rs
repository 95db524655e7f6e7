//! CPU profiles: a governor, an energy preference, the turbo switch and the performance
//! floor, applied together or not at all.

use vstd::prelude::*;

use crate::privileged::constants::{CPU_PERCENT_MAX, CPU_PERCENT_MIN};
use crate::privileged::job::{
    governor_value, parse_governor, parse_preference, preference_value,
};
use crate::privileged::messages::{
    fail, fail_quoting, failure, number_value, parse_u16, quoting, usage_error,
};
use crate::protocol::helper::{
    law_switch_round_trip, Action, CpuGovernor, EnergyPreference, Switch, OPTIONAL_VALUE_SKIP,
};
use crate::number::{all_digits, decimal_value, digit, digit_value, digits_value, parse_u32};
use crate::paths::{join_path, joined_path};
use crate::text::{
    cat2, cat3, chars_of, outcome, same, stands_at, starts_with, string_between, texts,
};

verus! {

/// What a CPU profile asks for. What is `None` is left alone.
#[derive(Debug, Clone, Copy, PartialEq, Eq, Structural)]
pub struct CpuProfileRequest {
    pub governor: CpuGovernor,
    pub epp: Option<EnergyPreference>,
    pub no_turbo: Option<bool>,
    pub min_perf_pct: Option<u16>,
}

/// An optional energy preference argument.
pub open spec fn optional_preference(value: Seq<char>) -> Result<
    Option<EnergyPreference>,
    Seq<char>,
> {
    if value == OPTIONAL_VALUE_SKIP@ {
        Ok(None)
    } else {
        match preference_value(value) {
            Ok(preference) => Ok(Some(preference)),
            Err(e) => Err(e),
        }
    }
}

/// An optional turbo argument: 1 switches turbo off.
pub open spec fn optional_no_turbo(value: Seq<char>) -> Result<Option<bool>, Seq<char>> {
    if value == OPTIONAL_VALUE_SKIP@ {
        Ok(None)
    } else {
        match Switch::named(value) {
            Some(switch) => Ok(Some(switch == Switch::Enabled)),
            None => Err(failure(quoting("invalid no_turbo value "@, value, ""@))),
        }
    }
}

/// An optional performance floor, in percent.
pub open spec fn optional_min_perf(value: Seq<char>) -> Result<Option<u16>, Seq<char>> {
    if value == OPTIONAL_VALUE_SKIP@ {
        Ok(None)
    } else {
        match number_value("min_perf_pct"@, value, CPU_PERCENT_MIN, CPU_PERCENT_MAX) {
            Ok(percent) => Ok(Some(percent)),
            Err(e) => Err(e),
        }
    }
}

impl CpuProfileRequest {
    /// What four arguments ask for; the first bad one is named.
    pub open spec fn meaning(args: Seq<Seq<char>>) -> Result<CpuProfileRequest, Seq<char>> {
        if args.len() != 4 {
            Err(usage_error(Action::ApplyCpuProfile))
        } else {
            match governor_value(args[0]) {
                Err(e) => Err(e),
                Ok(governor) => match optional_preference(args[1]) {
                    Err(e) => Err(e),
                    Ok(epp) => match optional_no_turbo(args[2]) {
                        Err(e) => Err(e),
                        Ok(no_turbo) => match optional_min_perf(args[3]) {
                            Err(e) => Err(e),
                            Ok(min_perf_pct) => Ok(
                                CpuProfileRequest { governor, epp, no_turbo, min_perf_pct },
                            ),
                        },
                    },
                },
            }
        }
    }

    /// Reads a profile's arguments.
    pub fn parse(arguments: &Vec<String>) -> (r: Result<Self, String>)
        ensures
            outcome(r) == CpuProfileRequest::meaning(texts(arguments@)),
    {
        if arguments.len() != 4 {
            return Err(fail(cat2("usage: ", Action::ApplyCpuProfile.usage()).as_str()));
        }
        let governor = match parse_governor(arguments[0].as_str()) {
            Ok(governor) => governor,
            Err(e) => {
                return Err(e);
            },
        };
        let epp = if same(arguments[1].as_str(), OPTIONAL_VALUE_SKIP) {
            None
        } else {
            match parse_preference(arguments[1].as_str()) {
                Ok(preference) => Some(preference),
                Err(e) => {
                    return Err(e);
                },
            }
        };
        let no_turbo = if same(arguments[2].as_str(), OPTIONAL_VALUE_SKIP) {
            None
        } else {
            match Switch::parse(arguments[2].as_str()) {
                Some(switch) => Some(switch == Switch::Enabled),
                None => {
                    return Err(fail_quoting("invalid no_turbo value ", arguments[2].as_str(), ""));
                },
            }
        };
        let min_perf_pct = if same(arguments[3].as_str(), OPTIONAL_VALUE_SKIP) {
            None
        } else {
            match parse_u16(
                "min_perf_pct",
                arguments[3].as_str(),
                CPU_PERCENT_MIN,
                CPU_PERCENT_MAX,
            ) {
                Ok(percent) => Some(percent),
                Err(e) => {
                    return Err(e);
                },
            }
        };
        Ok(CpuProfileRequest { governor, epp, no_turbo, min_perf_pct })
    }
}

pub const CPUFREQ_RELATIVE_DIR: &'static str = "devices/system/cpu/cpufreq";

pub const SCALING_DRIVER: &'static str = "scaling_driver";

pub const SCALING_GOVERNOR: &'static str = "scaling_governor";

pub const AVAILABLE_GOVERNORS: &'static str = "scaling_available_governors";

pub const CPUINFO_MIN_FREQ: &'static str = "cpuinfo_min_freq";

pub const CPUINFO_MAX_FREQ: &'static str = "cpuinfo_max_freq";

pub const ENERGY_PREFERENCE: &'static str = "energy_performance_preference";

pub const AVAILABLE_ENERGY_PREFERENCES: &'static str = "energy_performance_available_preferences";

pub const INTEL_PSTATE_STATUS: &'static str = "devices/system/cpu/intel_pstate/status";

pub const INTEL_PSTATE_NO_TURBO: &'static str = "devices/system/cpu/intel_pstate/no_turbo";

pub const INTEL_PSTATE_MIN_PERF: &'static str = "devices/system/cpu/intel_pstate/min_perf_pct";

/// How far the kernel's own performance floor may lie from the one estimated here.
pub const FLOOR_ESTIMATE_TOLERANCE_PCT: u16 = 2;

// ---------------------------------------------------------------------------
// Frequency policies
// ---------------------------------------------------------------------------

/// The digits behind `policy` in a policy's name; `None` for any other name.
pub open spec fn policy_digits(name: Seq<char>) -> Option<Seq<char>> {
    if stands_at(name, "policy"@, 0) && all_digits(name.skip(6), 10) {
        Some(name.skip(6))
    } else {
        None
    }
}

/// What policies are ordered by: their number, those beyond the range of thirty-two bits
/// last.
pub open spec fn policy_key(name: Seq<char>) -> nat {
    match policy_digits(name) {
        Some(digits) => if digits_value(digits, 10) <= 0xffff_ffff {
            digits_value(digits, 10)
        } else {
            0xffff_ffff
        },
        None => 0xffff_ffff,
    }
}

/// Puts a name behind every name whose number is no greater.
pub open spec fn placed(names: Seq<Seq<char>>, name: Seq<char>) -> Seq<Seq<char>>
    decreases names.len(),
{
    if names.len() == 0 || policy_key(names.last()) <= policy_key(name) {
        names.push(name)
    } else {
        placed(names.drop_last(), name).push(names.last())
    }
}

/// The policies among the names of a directory's subdirectories, by number; those with
/// the same number in the order they were listed.
pub open spec fn policies_among(names: Seq<Seq<char>>) -> Seq<Seq<char>>
    decreases names.len(),
{
    if names.len() == 0 {
        seq![]
    } else {
        let before = policies_among(names.drop_last());
        if policy_digits(names.last()) is Some {
            placed(before, names.last())
        } else {
            before
        }
    }
}

/// Whether names stand in the order of their numbers.
pub open spec fn by_number(names: Seq<Seq<char>>) -> bool {
    forall|i: int, j: int|
        0 <= i <= j < names.len() ==> policy_key(#[trigger] names[i]) <= policy_key(
            #[trigger] names[j],
        )
}

proof fn lemma_placed(names: Seq<Seq<char>>, name: Seq<char>)
    requires
        by_number(names),
    ensures
        by_number(placed(names, name)),
        placed(names, name).to_multiset() == names.to_multiset().insert(name),
        forall|x: Seq<char>|
            #[trigger] placed(names, name).contains(x) ==> names.contains(x) || x == name,
    decreases names.len(),
{
    if names.len() == 0 || policy_key(names.last()) <= policy_key(name) {
        names.to_multiset_ensures();
        assert forall|x: Seq<char>| #[trigger] names.push(name).contains(x) implies names.contains(
            x,
        ) || x == name by {
            let i = choose|i: int| 0 <= i < names.push(name).len() && names.push(name)[i] == x;
            if i < names.len() {
                assert(names[i] == x);
            }
        }
        assert forall|i: int, j: int|
            0 <= i <= j < names.push(name).len() implies policy_key(
            #[trigger] names.push(name)[i],
        ) <= policy_key(#[trigger] names.push(name)[j]) by {
            if j == names.len() && i < names.len() {
                assert(policy_key(names[i]) <= policy_key(names[names.len() - 1]));
            }
        }
    } else {
        let front = names.drop_last();
        let last = names.last();
        lemma_placed(front, name);
        let inner = placed(front, name);
        inner.to_multiset_ensures();
        front.to_multiset_ensures();
        assert(names == front.push(last));
        assert(inner.push(last).to_multiset() =~= names.to_multiset().insert(name));
        assert forall|x: Seq<char>| #[trigger] inner.push(last).contains(x) implies names.contains(
            x,
        ) || x == name by {
            let i = choose|i: int| 0 <= i < inner.push(last).len() && inner.push(last)[i] == x;
            if i < inner.len() {
                assert(inner[i] == x);
                assert(inner.contains(x));
                if front.contains(x) {
                    let j = choose|j: int| 0 <= j < front.len() && front[j] == x;
                    assert(names[j] == x);
                }
            } else {
                assert(names[names.len() - 1] == x);
            }
        }
        assert forall|i: int, j: int|
            0 <= i <= j < inner.push(last).len() implies policy_key(
            #[trigger] inner.push(last)[i],
        ) <= policy_key(#[trigger] inner.push(last)[j]) by {
            if j == inner.len() && i < inner.len() {
                let x = inner[i];
                assert(inner.contains(x));
                if front.contains(x) {
                    let k = choose|k: int| 0 <= k < front.len() && front[k] == x;
                    assert(names[k] == x);
                    assert(policy_key(names[k]) <= policy_key(names[names.len() - 1]));
                }
            }
        }
    }
}

/// Policies are taken in the order of their numbers, `policy2` before `policy10`.
pub proof fn law_policies_are_in_order(names: Seq<Seq<char>>)
    ensures
        by_number(policies_among(names)),
    decreases names.len(),
{
    if names.len() > 0 {
        law_policies_are_in_order(names.drop_last());
        if policy_digits(names.last()) is Some {
            lemma_placed(policies_among(names.drop_last()), names.last());
        }
    }
}

/// The policies' names among a directory's subdirectories.
pub open spec fn policy_names(names: Seq<Seq<char>>) -> Seq<Seq<char>>
    decreases names.len(),
{
    if names.len() == 0 {
        seq![]
    } else {
        let before = policy_names(names.drop_last());
        if policy_digits(names.last()) is Some {
            before.push(names.last())
        } else {
            before
        }
    }
}

/// Every policy is taken, each once, and nothing else is.
pub proof fn law_every_policy_is_taken(names: Seq<Seq<char>>)
    ensures
        policies_among(names).to_multiset() == policy_names(names).to_multiset(),
    decreases names.len(),
{
    if names.len() > 0 {
        law_every_policy_is_taken(names.drop_last());
        law_policies_are_in_order(names.drop_last());
        if policy_digits(names.last()) is Some {
            lemma_placed(policies_among(names.drop_last()), names.last());
            policy_names(names.drop_last()).to_multiset_ensures();
        }
    }
}

/// The number a policy's name ends in, as far as names are ordered by it.
fn policy_number(name: &str) -> (r: Option<u32>)
    ensures
        match r {
            Some(n) => policy_digits(name@) is Some && n == policy_key(name@),
            None => policy_digits(name@) is None,
        },
{
    if !starts_with(name, "policy") {
        return None;
    }
    proof {
        reveal_strlit("policy");
    }
    let v = chars_of(name);
    let digits = string_between(&v, 6, v.len());
    assert(digits@ == name@.skip(6));
    let w = chars_of(digits.as_str());
    let mut i: usize = 0;
    while i < w.len()
        invariant
            i <= w@.len(),
            w@ == name@.skip(6),
            forall|k: int| 0 <= k < i ==> (#[trigger] digit_value(w@[k], 10)) is Some,
        decreases w@.len() - i,
    {
        if digit(w[i], 10).is_none() {
            assert(digit_value(w@[i as int], 10) is None);
            return None;
        }
        i = i + 1;
    }
    if w.len() == 0 {
        return None;
    }
    assert(all_digits(w@, 10));
    assert(w@[0] != '+') by {
        assert(digit_value(w@[0], 10) is Some);
    }
    match parse_u32(digits.as_str()) {
        Some(n) => Some(n),
        None => Some(0xffff_ffff),
    }
}

/// The error for a machine without frequency policies.
pub open spec fn no_policies(base: Seq<char>) -> Seq<char> {
    failure("no CPU frequency policies found under "@ + base)
}

/// The directories of the frequency policies, by number, given the names of the
/// subdirectories of the policy directory (or why it cannot be listed).
pub open spec fn policy_dirs(
    sysfs: Seq<char>,
    listing: Result<Seq<Seq<char>>, Seq<char>>,
) -> Result<Seq<Seq<char>>, Seq<char>> {
    let base = joined_path(sysfs, CPUFREQ_RELATIVE_DIR@);
    match listing {
        Err(cause) => Err(no_policies(base + ": "@ + cause)),
        Ok(names) => {
            let policies = policies_among(names);
            if policies.len() == 0 {
                Err(no_policies(base))
            } else {
                Ok(Seq::new(policies.len(), |i: int| joined_path(base, policies[i])))
            }
        },
    }
}

/// A directory listing with its names taken as characters.
pub open spec fn listing_view(listing: Result<Vec<String>, String>) -> Result<
    Seq<Seq<char>>,
    Seq<char>,
> {
    match listing {
        Ok(names) => Ok(texts(names@)),
        Err(cause) => Err(cause@),
    }
}

fn place(names: &mut Vec<String>, keys: &mut Vec<u32>, name: String, key: u32)
    requires
        old(names)@.len() == old(keys)@.len(),
        forall|i: int|
            0 <= i < old(names)@.len() ==> old(keys)@[i] == policy_key(
                #[trigger] old(names)@[i]@,
            ),
        key == policy_key(name@),
    ensures
        texts(final(names)@) == placed(texts(old(names)@), name@),
        final(names)@.len() == final(keys)@.len(),
        forall|i: int|
            0 <= i < final(names)@.len() ==> final(keys)@[i] == policy_key(
                #[trigger] final(names)@[i]@,
            ),
{
    let ghost all = texts(names@);
    let ghost ks = keys@;
    let mut at: usize = names.len();
    let ghost mut tail: Seq<Seq<char>> = seq![];
    let ghost n = name@;
    assert(all.take(at as int) == all);
    assert(placed(all, n) + tail == placed(all, n));
    while at > 0 && keys[at - 1] > key
        invariant
            at <= names@.len(),
            all == texts(names@),
            ks == keys@,
            ks.len() == all.len(),
            forall|i: int| 0 <= i < all.len() ==> ks[i] == policy_key(#[trigger] all[i]),
            key == policy_key(n),
            tail == all.skip(at as int),
            placed(all, n) == placed(all.take(at as int), n) + tail,
        decreases at,
    {
        proof {
            let t = all.take(at as int);
            assert(t.last() == all[at - 1]);
            assert(t.drop_last() == all.take(at - 1));
            assert(placed(t, n) == placed(t.drop_last(), n).push(t.last()));
            assert(placed(t.drop_last(), n).push(t.last()) + tail == placed(t.drop_last(), n) + (
            seq![t.last()] + tail));
            assert(seq![t.last()] + tail == all.skip(at - 1));
            tail = all.skip(at - 1);
        }
        at = at - 1;
    }
    proof {
        let t = all.take(at as int);
        if t.len() > 0 {
            assert(t.last() == all[at - 1]);
        }
        assert(placed(t, n) == t.push(n));
    }
    let ghost before = names@;
    names.insert(at, name);
    keys.insert(at, key);
    proof {
        assert(texts(names@) == all.take(at as int).push(n) + all.skip(at as int));
        assert forall|i: int| 0 <= i < names@.len() implies keys@[i] == policy_key(
            #[trigger] names@[i]@,
        ) by {
            if i < at {
                assert(names@[i]@ == all[i]);
            } else if i > at {
                assert(names@[i]@ == all[i - 1]);
            }
        }
    }
}

/// The directories of the frequency policies, by number.
pub fn cpu_policy_dirs(sysfs: &str, listing: &Result<Vec<String>, String>) -> (r: Result<
    Vec<String>,
    String,
>)
    ensures
        listing_view(r) == policy_dirs(sysfs@, listing_view(*listing)),
{
    let base = join_path(sysfs, CPUFREQ_RELATIVE_DIR);
    let names: &Vec<String> = match listing {
        Ok(names) => names,
        Err(cause) => {
            let place = cat3(base.as_str(), ": ", cause.as_str());
            return Err(
                fail(cat2("no CPU frequency policies found under ", place.as_str()).as_str()),
            );
        },
    };
    let mut found: Vec<String> = Vec::new();
    let mut keys: Vec<u32> = Vec::new();
    let mut i: usize = 0;
    let ghost all = texts(names@);
    assert(texts(found@) == policies_among(all.take(0)));
    while i < names.len()
        invariant
            i <= names@.len(),
            all == texts(names@),
            found@.len() == keys@.len(),
            forall|k: int| 0 <= k < found@.len() ==> keys@[k] == policy_key(#[trigger] found@[k]@),
            texts(found@) == policies_among(all.take(i as int)),
        decreases names@.len() - i,
    {
        let ghost t = all.take(i + 1);
        assert(t.drop_last() == all.take(i as int));
        assert(t.last() == names@[i as int]@);
        match policy_number(names[i].as_str()) {
            Some(key) => {
                place(&mut found, &mut keys, names[i].clone(), key);
            },
            None => {},
        }
        i = i + 1;
    }
    assert(all.take(i as int) == all);
    if found.len() == 0 {
        return Err(fail(cat2("no CPU frequency policies found under ", base.as_str()).as_str()));
    }
    let mut out: Vec<String> = Vec::new();
    let mut j: usize = 0;
    let ghost policies = policies_among(all);
    while j < found.len()
        invariant
            j <= found@.len(),
            texts(found@) == policies,
            out@.len() == j,
            forall|k: int| 0 <= k < j ==> (#[trigger] out@[k])@ == joined_path(base@, policies[k]),
        decreases found@.len() - j,
    {
        assert(policies[j as int] == found@[j as int]@);
        out.push(join_path(base.as_str(), found[j].as_str()));
        j = j + 1;
    }
    assert(texts(out@) == Seq::new(policies.len(), |i: int| joined_path(base@, policies[i])));
    Ok(out)
}

/// Arguments that are accepted mean what they say: the governor and the preference of that
/// very name, `1` for turbo off and `0` for on, a percentage from 0 to 100; and `skip` leaves
/// alone what it stands for.
pub proof fn law_profile_arguments_mean_what_they_say(
    args: Seq<Seq<char>>,
    request: CpuProfileRequest,
)
    requires
        args.len() == 4,
        CpuProfileRequest::meaning(args) == Ok::<CpuProfileRequest, Seq<char>>(request),
    ensures
        request.governor.wire_name() == args[0],
        request.epp is None <==> args[1] == "skip"@,
        request.epp is Some ==> request.epp->0.wire_name() == args[1],
        request.no_turbo is None <==> args[2] == "skip"@,
        request.no_turbo == Some(true) <==> args[2] == "1"@,
        request.no_turbo == Some(false) <==> args[2] == "0"@,
        request.min_perf_pct is None <==> args[3] == "skip"@,
        request.min_perf_pct is Some ==> decimal_value(args[3], 0xffff) == Some(
            request.min_perf_pct->0 as nat,
        ) && request.min_perf_pct->0 <= 100,
{
    reveal_strlit("skip");
    reveal_strlit("0");
    reveal_strlit("1");
    assert("skip"@.len() == 4);
    assert("0"@[0] == '0' && "1"@[0] == '1' && "0"@.len() == 1);
    law_switch_round_trip(Switch::Enabled);
    law_switch_round_trip(Switch::Disabled);
    if args[2] != "skip"@ {
        assert(Switch::named(args[2])->0.wire_name() == args[2]);
    }
}

/// A policy with a smaller number comes before one with a greater.
pub proof fn law_smaller_number_comes_first(names: Seq<Seq<char>>, i: int, j: int)
    requires
        0 <= i < policies_among(names).len(),
        0 <= j < policies_among(names).len(),
        stands_at(policies_among(names)[i], "policy"@, 0),
        stands_at(policies_among(names)[j], "policy"@, 0),
        all_digits(policies_among(names)[i].skip(6), 10),
        all_digits(policies_among(names)[j].skip(6), 10),
        digits_value(policies_among(names)[i].skip(6), 10) < digits_value(
            policies_among(names)[j].skip(6),
            10,
        ) <= 0xffff_ffff,
    ensures
        i < j,
{
    law_policies_are_in_order(names);
    if j <= i {
        assert(policy_key(policies_among(names)[j]) <= policy_key(policies_among(names)[i]));
    }
}

/// A listed directory is taken as a policy where its name is `policy` and digits, and nowhere
/// else; its attributes are looked for below `cpufreq`.
pub proof fn law_policies_are_the_numbered_directories(
    sysfs: Seq<char>,
    names: Seq<Seq<char>>,
    name: Seq<char>,
)
    ensures
        policy_names(names).contains(name) <==> names.contains(name) && stands_at(
            name,
            "policy"@,
            0,
        ) && all_digits(name.skip(6), 10),
        policy_dirs(sysfs, Ok(names)) matches Ok(dirs) ==> dirs.len() == policies_among(
            names,
        ).len() && forall|i: int|
            0 <= i < dirs.len() ==> #[trigger] dirs[i] == joined_path(
                joined_path(sysfs, "devices/system/cpu/cpufreq"@),
                policies_among(names)[i],
            ),
        policy_dirs(sysfs, Ok(names)) is Err <==> policies_among(names).len() == 0,
    decreases names.len(),
{
    if names.len() > 0 {
        let front = names.drop_last();
        law_policies_are_the_numbered_directories(sysfs, front, name);
        let all = policy_names(names);
        let before = policy_names(front);
        if names.contains(name) {
            let k = choose|k: int| 0 <= k < names.len() && names[k] == name;
            if k < front.len() {
                assert(front[k] == name);
            }
        }
        if front.contains(name) {
            let k = choose|k: int| 0 <= k < front.len() && front[k] == name;
            assert(names[k] == name);
        }
        if before.contains(name) {
            let k = choose|k: int| 0 <= k < before.len() && before[k] == name;
            assert(all[k] == name);
        }
        if all.contains(name) {
            let k = choose|k: int| 0 <= k < all.len() && all[k] == name;
            if k < before.len() {
                assert(before[k] == name);
            } else {
                assert(names[names.len() - 1] == name);
            }
        }
        if policy_digits(names.last()) is Some && names.last() == name {
            assert(all[all.len() - 1] == name);
        }
    }
}

/// A profile is asked for by four arguments, no more and no fewer.
pub proof fn law_profile_takes_four_arguments(args: Seq<Seq<char>>)
    requires
        args.len() != 4,
    ensures
        CpuProfileRequest::meaning(args) is Err,
{
}

/// The files of a policy and how exact the estimate of its floor is.
pub proof fn law_policy_attributes()
    ensures
        FLOOR_ESTIMATE_TOLERANCE_PCT == 2,
        INTEL_PSTATE_MIN_PERF@ == "devices/system/cpu/intel_pstate/min_perf_pct"@,
{
}

} // verus!
