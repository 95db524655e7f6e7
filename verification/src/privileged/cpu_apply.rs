//! Applying a CPU profile: what has to be there before anything is written, what is
//! written in which order, what the read-back has to show, and what is put back when
//! something fails on the way.

use vstd::prelude::*;

use crate::number::{decimal, decimal_text, decimal_value, parse_u64};
use crate::paths::{join_path, joined_path};
use crate::privileged::cpu_profile::{
    CpuProfileRequest, AVAILABLE_ENERGY_PREFERENCES, AVAILABLE_GOVERNORS, ENERGY_PREFERENCE,
    INTEL_PSTATE_MIN_PERF, INTEL_PSTATE_NO_TURBO, SCALING_GOVERNOR,
};
use crate::privileged::messages::{
    attribute_value, bool_str, fail, fail_quoting, failure, quoting, read_attr, switch_text,
};
use crate::protocol::helper::{CpuGovernor, EnergyPreference};
use crate::text::{
    cat2, cat4, list_has, optional_reading, outcome, reading, same, text_of, texts, trim, trimmed,
    words, words_of,
};

verus! {

/// What the machine shows of one frequency policy. A file that does not exist is `None`;
/// one that exists holds its contents, or why they cannot be read.
pub struct PolicyFacts {
    /// The policy's directory.
    pub path: String,
    pub governor: Option<Result<String, String>>,
    pub available_governors: Option<Result<String, String>>,
    pub epp: Option<Result<String, String>>,
    pub available_epps: Option<Result<String, String>>,
    /// The scaling driver, where it can be read.
    pub driver: Option<String>,
}

/// What the machine shows before a profile is applied.
pub struct CpuFacts {
    /// The policies, by number.
    pub policies: Vec<PolicyFacts>,
    pub no_turbo: Option<Result<String, String>>,
    pub min_perf: Option<Result<String, String>>,
    /// The `intel_pstate` status, where it can be read.
    pub pstate_status: Option<String>,
    /// The first policy's frequency limits, where they can be read.
    pub min_freq: Option<String>,
    pub max_freq: Option<String>,
}

/// What applying and undoing a profile need to know of the machine.
pub struct CpuContext {
    /// The policies' directories.
    pub policies: Vec<String>,
    pub hwp_active: bool,
    pub min_perf_floor_pct: Option<u16>,
    pub no_turbo_path: String,
    pub min_perf_path: String,
}

/// Whether a file that lists the values it allows allows this one. A machine without the
/// list is taken to allow everything.
pub open spec fn availability(
    label: Seq<char>,
    expected: Seq<char>,
    path: Seq<char>,
    list: Option<Result<Seq<char>, Seq<char>>>,
) -> Result<(), Seq<char>> {
    match list {
        None => Ok(()),
        Some(contents) => match attribute_value("available-"@ + label, path, contents) {
            Err(e) => Err(e),
            Ok(available) => if words_of(available).contains(expected) {
                Ok(())
            } else {
                Err(
                    failure(
                        quoting(
                            label + " "@,
                            expected,
                            " is not available according to "@ + path,
                        ),
                    ),
                )
            },
        },
    }
}

/// Checks a value against the file that lists what is allowed.
pub fn validate_available_value(
    label: &str,
    expected: &str,
    path: &str,
    list: &Option<Result<String, String>>,
) -> (r: Result<(), String>)
    ensures
        outcome(r) == availability(label@, expected@, path@, optional_reading(*list)),
{
    match list {
        None => Ok(()),
        Some(contents) => match read_attr(cat2("available-", label).as_str(), path, contents) {
            Err(e) => Err(e),
            Ok(available) => if list_has(&words(available.as_str()), expected) {
                Ok(())
            } else {
                Err(
                    fail_quoting(
                        cat2(label, " ").as_str(),
                        expected,
                        cat2(" is not available according to ", path).as_str(),
                    ),
                )
            },
        },
    }
}

/// The error for a policy without an attribute it has to have.
pub open spec fn missing_attribute(attribute: Seq<char>, policy: Seq<char>) -> Seq<char> {
    failure("missing "@ + attribute + " in "@ + policy)
}

fn require_attribute(present: bool, attribute: &str, policy: &str) -> (r: Result<(), String>)
    ensures
        outcome(r) == (if present {
            Ok(())
        } else {
            Err(missing_attribute(attribute@, policy@))
        }),
{
    if present {
        Ok(())
    } else {
        Err(fail(cat4("missing ", attribute, " in ", policy).as_str()))
    }
}

/// Whether one policy can take the request; the first thing that stands in the way is
/// named.
pub open spec fn policy_ready(request: CpuProfileRequest, policy: PolicyFacts) -> Result<
    (),
    Seq<char>,
> {
    if policy.governor is None {
        Err(missing_attribute(SCALING_GOVERNOR@, policy.path@))
    } else {
        match availability(
            "governor"@,
            request.governor.wire_name(),
            joined_path(policy.path@, AVAILABLE_GOVERNORS@),
            optional_reading(policy.available_governors),
        ) {
            Err(e) => Err(e),
            Ok(()) => match request.epp {
                None => Ok(()),
                Some(epp) => if policy.epp is None {
                    Err(missing_attribute(ENERGY_PREFERENCE@, policy.path@))
                } else if epp == EnergyPreference::RawPerformance {
                    Ok(())
                } else {
                    availability(
                        "EPP"@,
                        epp.wire_name(),
                        joined_path(policy.path@, AVAILABLE_ENERGY_PREFERENCES@),
                        optional_reading(policy.available_epps),
                    )
                },
            },
        }
    }
}

fn check_policy(request: CpuProfileRequest, policy: &PolicyFacts) -> (r: Result<(), String>)
    ensures
        outcome(r) == policy_ready(request, *policy),
{
    match require_attribute(policy.governor.is_some(), SCALING_GOVERNOR, policy.path.as_str()) {
        Err(e) => {
            return Err(e);
        },
        Ok(()) => {},
    }
    match validate_available_value(
        "governor",
        request.governor.as_str(),
        join_path(policy.path.as_str(), AVAILABLE_GOVERNORS).as_str(),
        &policy.available_governors,
    ) {
        Err(e) => {
            return Err(e);
        },
        Ok(()) => {},
    }
    match request.epp {
        None => Ok(()),
        Some(epp) => {
            match require_attribute(policy.epp.is_some(), ENERGY_PREFERENCE, policy.path.as_str()) {
                Err(e) => {
                    return Err(e);
                },
                Ok(()) => {},
            }
            if epp == EnergyPreference::RawPerformance {
                Ok(())
            } else {
                validate_available_value(
                    "EPP",
                    epp.as_str(),
                    join_path(policy.path.as_str(), AVAILABLE_ENERGY_PREFERENCES).as_str(),
                    &policy.available_epps,
                )
            }
        },
    }
}

/// Whether every policy can take the request; the first obstacle is named.
pub open spec fn policies_ready(request: CpuProfileRequest, policies: Seq<PolicyFacts>) -> Result<
    (),
    Seq<char>,
>
    decreases policies.len(),
{
    if policies.len() == 0 {
        Ok(())
    } else {
        match policies_ready(request, policies.drop_last()) {
            Err(e) => Err(e),
            Ok(()) => policy_ready(request, policies.last()),
        }
    }
}

/// Whether the machine can take the request; the first obstacle is named.
pub open spec fn ready(sysfs: Seq<char>, request: CpuProfileRequest, facts: CpuFacts) -> Result<
    (),
    Seq<char>,
> {
    match policies_ready(request, facts.policies@) {
        Err(e) => Err(e),
        Ok(()) => if request.no_turbo is Some && facts.no_turbo is None {
            Err(failure("missing "@ + joined_path(sysfs, INTEL_PSTATE_NO_TURBO@)))
        } else if request.min_perf_pct is Some && facts.min_perf is None {
            Err(failure("missing "@ + joined_path(sysfs, INTEL_PSTATE_MIN_PERF@)))
        } else {
            Ok(())
        },
    }
}

/// Whether the kernel drives every policy through hardware-managed performance states.
pub open spec fn hwp(facts: CpuFacts) -> bool {
    &&& facts.policies@.len() > 0
    &&& facts.pstate_status is Some && trimmed(facts.pstate_status->0@) == "active"@
    &&& forall|i: int|
        0 <= i < facts.policies@.len() ==> {
            let policy = #[trigger] facts.policies@[i];
            &&& policy.driver is Some && trimmed(policy.driver->0@) == "intel_pstate"@
            &&& policy.epp is Some
        }
}

fn reads_as(contents: &Option<String>, expected: &str) -> (r: bool)
    ensures
        r == (contents is Some && trimmed(contents->0@) == expected@),
{
    match contents {
        Some(text) => same(trim(text.as_str()).as_str(), expected),
        None => false,
    }
}

/// Whether the kernel drives every policy through hardware-managed performance states.
pub fn intel_pstate_hwp_active(facts: &CpuFacts) -> (r: bool)
    ensures
        r == hwp(*facts),
{
    if facts.policies.len() == 0 || !reads_as(&facts.pstate_status, "active") {
        return false;
    }
    let mut i: usize = 0;
    while i < facts.policies.len()
        invariant
            i <= facts.policies@.len(),
            forall|k: int|
                0 <= k < i ==> {
                    let policy = #[trigger] facts.policies@[k];
                    &&& policy.driver is Some && trimmed(policy.driver->0@) == "intel_pstate"@
                    &&& policy.epp is Some
                },
        decreases facts.policies@.len() - i,
    {
        if !reads_as(&facts.policies[i].driver, "intel_pstate") || facts.policies[i].epp.is_none() {
            assert(!(facts.policies@[i as int].driver is Some && trimmed(
                facts.policies@[i as int].driver->0@,
            ) == "intel_pstate"@ && facts.policies@[i as int].epp is Some));
            return false;
        }
        i = i + 1;
    }
    true
}

/// The performance floor that a pair of frequency limits stands for, in whole percent.
pub open spec fn floor_of(min: Option<Seq<char>>, max: Option<Seq<char>>) -> Option<u16> {
    match (min, max) {
        (Some(a), Some(b)) => match (
            decimal_value(trimmed(a), 0xffff_ffff_ffff_ffff),
            decimal_value(trimmed(b), 0xffff_ffff_ffff_ffff),
        ) {
            (Some(minimum), Some(maximum)) => {
                let scaled = if minimum * 100 <= 0xffff_ffff_ffff_ffff {
                    minimum * 100
                } else {
                    0xffff_ffff_ffff_ffff
                };
                if maximum == 0 || scaled / maximum > 0xffff {
                    None
                } else {
                    Some((scaled / maximum) as u16)
                }
            },
            _ => None,
        },
        _ => None,
    }
}

/// The performance floor that the first policy's frequency limits stand for. It is only an
/// estimate of the kernel's own one.
pub fn min_perf_floor_pct(min_freq: &Option<String>, max_freq: &Option<String>) -> (r: Option<u16>)
    ensures
        r == floor_of(text_of(*min_freq), text_of(*max_freq)),
{
    let minimum: u64 = match min_freq {
        Some(text) => match parse_u64(trim(text.as_str()).as_str()) {
            Some(n) => n,
            None => {
                return None;
            },
        },
        None => {
            return None;
        },
    };
    let maximum: u64 = match max_freq {
        Some(text) => match parse_u64(trim(text.as_str()).as_str()) {
            Some(n) => n,
            None => {
                return None;
            },
        },
        None => {
            return None;
        },
    };
    if maximum == 0 {
        return None;
    }
    let scaled: u64 = if minimum <= 0xffff_ffff_ffff_ffff / 100 {
        minimum * 100
    } else {
        0xffff_ffff_ffff_ffff
    };
    let percent: u64 = scaled / maximum;
    if percent > 0xffff {
        None
    } else {
        Some(percent as u16)
    }
}

/// The directories of the policies.
pub open spec fn policy_paths(policies: Seq<PolicyFacts>) -> Seq<Seq<char>> {
    Seq::new(policies.len(), |i: int| policies[i].path@)
}

/// Whether a context says of a machine what its facts show.
pub open spec fn context_of(sysfs: Seq<char>, facts: CpuFacts, context: CpuContext) -> bool {
    &&& texts(context.policies@) == policy_paths(facts.policies@)
    &&& context.hwp_active == hwp(facts)
    &&& context.min_perf_floor_pct == floor_of(text_of(facts.min_freq), text_of(facts.max_freq))
    &&& context.no_turbo_path@ == joined_path(sysfs, INTEL_PSTATE_NO_TURBO@)
    &&& context.min_perf_path@ == joined_path(sysfs, INTEL_PSTATE_MIN_PERF@)
}

/// Checks, before anything is written, that the machine can take the request.
pub fn preflight_cpu_profile(sysfs: &str, request: CpuProfileRequest, facts: &CpuFacts) -> (r:
    Result<CpuContext, String>)
    ensures
        match r {
            Ok(context) => ready(sysfs@, request, *facts) is Ok && context_of(
                sysfs@,
                *facts,
                context,
            ),
            Err(e) => ready(sysfs@, request, *facts) == Err::<(), Seq<char>>(e@),
        },
{
    let mut policies: Vec<String> = Vec::new();
    let mut i: usize = 0;
    assert(facts.policies@.take(0) == Seq::<PolicyFacts>::empty());
    while i < facts.policies.len()
        invariant
            i <= facts.policies@.len(),
            policies@.len() == i,
            forall|k: int| 0 <= k < i ==> (#[trigger] policies@[k])@ == facts.policies@[k].path@,
            policies_ready(request, facts.policies@.take(i as int)) is Ok,
        decreases facts.policies@.len() - i,
    {
        let ghost t = facts.policies@.take(i + 1);
        assert(t.drop_last() == facts.policies@.take(i as int));
        assert(t.last() == facts.policies@[i as int]);
        match check_policy(request, &facts.policies[i]) {
            Err(e) => {
                proof {
                    lemma_first_obstacle(request, facts.policies@, i as int + 1);
                }
                return Err(e);
            },
            Ok(()) => {},
        }
        policies.push(facts.policies[i].path.clone());
        i = i + 1;
    }
    assert(facts.policies@.take(i as int) == facts.policies@);
    assert(texts(policies@) == policy_paths(facts.policies@));
    let no_turbo_path = join_path(sysfs, INTEL_PSTATE_NO_TURBO);
    let min_perf_path = join_path(sysfs, INTEL_PSTATE_MIN_PERF);
    if request.no_turbo.is_some() && facts.no_turbo.is_none() {
        return Err(fail(cat2("missing ", no_turbo_path.as_str()).as_str()));
    }
    if request.min_perf_pct.is_some() && facts.min_perf.is_none() {
        return Err(fail(cat2("missing ", min_perf_path.as_str()).as_str()));
    }
    Ok(
        CpuContext {
            policies,
            hwp_active: intel_pstate_hwp_active(facts),
            min_perf_floor_pct: min_perf_floor_pct(&facts.min_freq, &facts.max_freq),
            no_turbo_path,
            min_perf_path,
        },
    )
}

proof fn lemma_first_obstacle(request: CpuProfileRequest, policies: Seq<PolicyFacts>, i: int)
    requires
        0 <= i <= policies.len(),
        policies_ready(request, policies.take(i)) is Err,
    ensures
        policies_ready(request, policies) == policies_ready(request, policies.take(i)),
    decreases policies.len() - i,
{
    if i == policies.len() {
        assert(policies.take(i) == policies);
    } else {
        let t = policies.take(i + 1);
        assert(t.drop_last() == policies.take(i));
        lemma_first_obstacle(request, policies, i + 1);
    }
}

// ---------------------------------------------------------------------------
// What is written
// ---------------------------------------------------------------------------

/// One attribute write: what errors call it, what is written, and where.
#[derive(Debug)]
pub struct CpuWrite {
    pub label: String,
    pub value: String,
    pub path: String,
}

/// A write as contracts speak of it.
pub struct Write {
    pub label: Seq<char>,
    pub value: Seq<char>,
    pub path: Seq<char>,
}

impl CpuWrite {
    pub open spec fn as_write(self) -> Write {
        Write { label: self.label@, value: self.value@, path: self.path@ }
    }
}

/// A list of writes as contracts speak of it.
pub open spec fn writes_view(writes: Seq<CpuWrite>) -> Seq<Write> {
    Seq::new(writes.len(), |i: int| writes[i].as_write())
}

fn write_of(label: &str, value: &str, path: String) -> (r: CpuWrite)
    ensures
        r.as_write() == (Write { label: label@, value: value@, path: path@ }),
{
    CpuWrite { label: label.to_owned(), value: value.to_owned(), path }
}

/// One write for every policy.
pub open spec fn policy_writes(
    policies: Seq<Seq<char>>,
    label: Seq<char>,
    value: Seq<char>,
    attribute: Seq<char>,
) -> Seq<Write> {
    Seq::new(
        policies.len(),
        |i: int| Write { label, value, path: joined_path(policies[i], attribute) },
    )
}

/// Adds one write for every policy.
pub fn push_policy_writes(
    writes: &mut Vec<CpuWrite>,
    policies: &Vec<String>,
    label: &str,
    value: &str,
    attribute: &str,
)
    ensures
        writes_view(final(writes)@) == writes_view(old(writes)@) + policy_writes(
            texts(policies@),
            label@,
            value@,
            attribute@,
        ),
{
    let ghost before = writes@;
    let ghost all = policy_writes(texts(policies@), label@, value@, attribute@);
    let mut i: usize = 0;
    assert(writes_view(before) + all.take(0) == writes_view(before));
    while i < policies.len()
        invariant
            i <= policies@.len(),
            all == policy_writes(texts(policies@), label@, value@, attribute@),
            writes_view(writes@) == writes_view(before) + all.take(i as int),
        decreases policies@.len() - i,
    {
        let ghost done = writes_view(writes@);
        let write = write_of(label, value, join_path(policies[i].as_str(), attribute));
        proof {
            assert(write.as_write() == all[i as int]);
            assert(all.take(i + 1) == all.take(i as int).push(all[i as int]));
        }
        writes.push(write);
        assert(writes_view(writes@) == done.push(write.as_write()));
        i = i + 1;
    }
    assert(all.take(i as int) == all);
}

/// The writes that set the governor of every policy.
pub fn set_governor_writes(governor: CpuGovernor, policies: &Vec<String>) -> (r: Vec<CpuWrite>)
    ensures
        writes_view(r@) == policy_writes(
            texts(policies@),
            "scaling-governor"@,
            governor.wire_name(),
            SCALING_GOVERNOR@,
        ),
{
    let mut writes: Vec<CpuWrite> = Vec::new();
    assert(writes_view(writes@) == Seq::<Write>::empty());
    push_policy_writes(
        &mut writes,
        policies,
        "scaling-governor",
        governor.as_str(),
        SCALING_GOVERNOR,
    );
    assert(writes_view(writes@) == policy_writes(
        texts(policies@),
        "scaling-governor"@,
        governor.wire_name(),
        SCALING_GOVERNOR@,
    ));
    writes
}

/// A policy, and whether it has an energy preference.
pub struct PolicyPreference {
    /// The policy's directory.
    pub path: String,
    pub has_preference: bool,
}

/// The directories of the policies that have an energy preference, in order.
pub open spec fn with_preference(policies: Seq<PolicyPreference>) -> Seq<Seq<char>>
    decreases policies.len(),
{
    if policies.len() == 0 {
        seq![]
    } else if policies.last().has_preference {
        with_preference(policies.drop_last()).push(policies.last().path@)
    } else {
        with_preference(policies.drop_last())
    }
}

/// The writes that set the energy preference of every policy that has one. A policy without
/// one is skipped.
pub fn set_preference_writes(
    preference: EnergyPreference,
    policies: &Vec<PolicyPreference>,
) -> (r: Vec<CpuWrite>)
    ensures
        writes_view(r@) == policy_writes(
            with_preference(policies@),
            "epp"@,
            preference.wire_name(),
            ENERGY_PREFERENCE@,
        ),
{
    let mut writes: Vec<CpuWrite> = Vec::new();
    let ghost value = preference.wire_name();
    let mut i: usize = 0;
    assert(policies@.take(0) == Seq::<PolicyPreference>::empty());
    while i < policies.len()
        invariant
            i <= policies@.len(),
            value == preference.wire_name(),
            writes_view(writes@) == policy_writes(
                with_preference(policies@.take(i as int)),
                "epp"@,
                value,
                ENERGY_PREFERENCE@,
            ),
        decreases policies@.len() - i,
    {
        let ghost t = policies@.take(i + 1);
        let ghost done = writes_view(writes@);
        assert(t.drop_last() == policies@.take(i as int));
        assert(t.last() == policies@[i as int]);
        if policies[i].has_preference {
            let path = join_path(policies[i].path.as_str(), ENERGY_PREFERENCE);
            writes.push(write_of("epp", preference.as_str(), path));
            assert(writes_view(writes@) == done.push(writes@.last().as_write()));
        }
        i = i + 1;
    }
    assert(policies@.take(i as int) == policies@);
    writes
}

/// Whether the kernel itself keeps the energy preference at zero under this request, so
/// that it is neither written nor verified.
pub open spec fn kernel_forces_epp_zero(request: CpuProfileRequest, hwp_active: bool) -> bool {
    request.governor == CpuGovernor::Performance && request.epp == Some(
        EnergyPreference::RawPerformance,
    ) && hwp_active
}

fn forces_epp_zero(request: CpuProfileRequest, hwp_active: bool) -> (r: bool)
    ensures
        r == kernel_forces_epp_zero(request, hwp_active),
{
    let raw = match request.epp {
        Some(epp) => epp == EnergyPreference::RawPerformance,
        None => false,
    };
    request.governor == CpuGovernor::Performance && raw && hwp_active
}

/// The writes of the energy preference, if the request has one to write.
pub open spec fn epp_writes(request: CpuProfileRequest, context: CpuContext) -> Seq<Write> {
    match request.epp {
        Some(epp) => if kernel_forces_epp_zero(request, context.hwp_active) {
            seq![]
        } else {
            policy_writes(
                texts(context.policies@),
                "epp"@,
                epp.wire_name(),
                ENERGY_PREFERENCE@,
            )
        },
        None => seq![],
    }
}

/// The writes of the governor.
pub open spec fn governor_writes(request: CpuProfileRequest, context: CpuContext) -> Seq<Write> {
    policy_writes(
        texts(context.policies@),
        "scaling-governor"@,
        request.governor.wire_name(),
        SCALING_GOVERNOR@,
    )
}

/// The writes that follow those of the policies.
pub open spec fn pstate_writes(request: CpuProfileRequest, context: CpuContext) -> Seq<Write> {
    let turbo = match request.no_turbo {
        Some(no_turbo) => seq![
            Write {
                label: "no-turbo"@,
                value: switch_text(no_turbo),
                path: context.no_turbo_path@,
            },
        ],
        None => seq![],
    };
    let floor = match request.min_perf_pct {
        Some(percent) => seq![
            Write {
                label: "min-perf"@,
                value: decimal_text(percent as nat),
                path: context.min_perf_path@,
            },
        ],
        None => seq![],
    };
    turbo + floor
}

/// Everything a request writes, in order: the preference before the governor on the way
/// to the performance governor, behind it otherwise, since a named preference becomes
/// writable only once that governor is left; then the turbo switch, then the floor.
pub open spec fn profile_writes(request: CpuProfileRequest, context: CpuContext) -> Seq<Write> {
    let policies = if request.governor == CpuGovernor::Performance {
        epp_writes(request, context) + governor_writes(request, context)
    } else {
        governor_writes(request, context) + epp_writes(request, context)
    };
    policies + pstate_writes(request, context)
}

fn push_epp_writes(writes: &mut Vec<CpuWrite>, request: CpuProfileRequest, context: &CpuContext)
    ensures
        writes_view(final(writes)@) == writes_view(old(writes)@) + epp_writes(request, *context),
{
    match request.epp {
        Some(epp) => {
            if !forces_epp_zero(request, context.hwp_active) {
                push_policy_writes(
                    writes,
                    &context.policies,
                    "epp",
                    epp.as_str(),
                    ENERGY_PREFERENCE,
                );
            }
        },
        None => {},
    }
}

fn push_governor_writes(
    writes: &mut Vec<CpuWrite>,
    request: CpuProfileRequest,
    context: &CpuContext,
)
    ensures
        writes_view(final(writes)@) == writes_view(old(writes)@) + governor_writes(
            request,
            *context,
        ),
{
    push_policy_writes(
        writes,
        &context.policies,
        "scaling-governor",
        request.governor.as_str(),
        SCALING_GOVERNOR,
    );
}

/// Everything a request writes, in order.
pub fn cpu_profile_writes(request: CpuProfileRequest, context: &CpuContext) -> (r: Vec<CpuWrite>)
    ensures
        writes_view(r@) == profile_writes(request, *context),
{
    let mut writes: Vec<CpuWrite> = Vec::new();
    assert(writes_view(writes@) == Seq::<Write>::empty());
    if request.governor == CpuGovernor::Performance {
        push_epp_writes(&mut writes, request, context);
        push_governor_writes(&mut writes, request, context);
    } else {
        push_governor_writes(&mut writes, request, context);
        push_epp_writes(&mut writes, request, context);
    }
    let ghost policies = writes_view(writes@);
    match request.no_turbo {
        Some(no_turbo) => {
            let ghost before = writes_view(writes@);
            writes.push(
                write_of("no-turbo", bool_str(no_turbo), context.no_turbo_path.clone()),
            );
            assert(writes_view(writes@) == before.push(writes@.last().as_write()));
        },
        None => {},
    }
    match request.min_perf_pct {
        Some(percent) => {
            let ghost before = writes_view(writes@);
            writes.push(
                write_of("min-perf", decimal(percent as u64).as_str(), context.min_perf_path.clone()),
            );
            assert(writes_view(writes@) == before.push(writes@.last().as_write()));
        },
        None => {},
    }
    assert(writes_view(writes@) == policies + pstate_writes(request, *context));
    assert(writes_view(writes@) == profile_writes(request, *context));
    writes
}

// ---------------------------------------------------------------------------
// What is put back
// ---------------------------------------------------------------------------

/// One policy as it was before.
pub struct PolicySnapshot {
    pub path: String,
    pub governor: String,
    pub epp: Option<String>,
}

/// The machine as it was before.
pub struct CpuSnapshot {
    pub policies: Vec<PolicySnapshot>,
    pub no_turbo: Option<String>,
    pub min_perf_pct: Option<String>,
}

/// What an attribute that may be missing holds.
pub open spec fn kept(
    label: Seq<char>,
    path: Seq<char>,
    contents: Option<Result<Seq<char>, Seq<char>>>,
) -> Result<Option<Seq<char>>, Seq<char>> {
    match contents {
        None => Ok(None),
        Some(c) => match attribute_value(label, path, c) {
            Ok(value) => Ok(Some(value)),
            Err(e) => Err(e),
        },
    }
}

/// An optional text or an error, taken as characters.
pub open spec fn kept_view(r: Result<Option<String>, String>) -> Result<
    Option<Seq<char>>,
    Seq<char>,
> {
    match r {
        Ok(value) => Ok(text_of(value)),
        Err(e) => Err(e@),
    }
}

fn keep(label: &str, path: &str, contents: &Option<Result<String, String>>) -> (r: Result<
    Option<String>,
    String,
>)
    ensures
        kept_view(r) == kept(label@, path@, optional_reading(*contents)),
{
    match contents {
        None => Ok(None),
        Some(c) => match read_attr(label, path, c) {
            Ok(value) => Ok(Some(value)),
            Err(e) => Err(e),
        },
    }
}

/// What a policy's governor file holds; a policy that lost it since is an error.
pub open spec fn kept_governor(policy: PolicyFacts) -> Result<Seq<char>, Seq<char>> {
    let path = joined_path(policy.path@, SCALING_GOVERNOR@);
    match policy.governor {
        Some(contents) => attribute_value("scaling-governor"@, path, reading(contents)),
        None => Err(missing_attribute(SCALING_GOVERNOR@, policy.path@)),
    }
}

/// What a policy's preference file holds.
pub open spec fn kept_epp(policy: PolicyFacts) -> Result<Option<Seq<char>>, Seq<char>> {
    kept(
        "epp"@,
        joined_path(policy.path@, ENERGY_PREFERENCE@),
        optional_reading(policy.epp),
    )
}

/// Why a policy cannot be remembered, if it cannot.
pub open spec fn policy_unreadable(policy: PolicyFacts) -> Option<Seq<char>> {
    match kept_governor(policy) {
        Err(e) => Some(e),
        Ok(_) => match kept_epp(policy) {
            Err(e) => Some(e),
            Ok(_) => None,
        },
    }
}

/// Why the machine cannot be remembered, if it cannot: the first unreadable attribute.
pub open spec fn unreadable(policies: Seq<PolicyFacts>) -> Option<Seq<char>>
    decreases policies.len(),
{
    if policies.len() == 0 {
        None
    } else {
        match unreadable(policies.drop_last()) {
            Some(e) => Some(e),
            None => policy_unreadable(policies.last()),
        }
    }
}

/// Whether a snapshot holds what a policy showed.
pub open spec fn policy_kept(policy: PolicyFacts, snapshot: PolicySnapshot) -> bool {
    &&& snapshot.path@ == policy.path@
    &&& kept_governor(policy) == Ok::<Seq<char>, Seq<char>>(snapshot.governor@)
    &&& kept_epp(policy) == Ok::<Option<Seq<char>>, Seq<char>>(text_of(snapshot.epp))
}

/// Whether a snapshot holds what the machine showed.
pub open spec fn snapshot_of(context: CpuContext, facts: CpuFacts, snapshot: CpuSnapshot) -> bool {
    &&& snapshot.policies@.len() == facts.policies@.len()
    &&& forall|i: int|
        0 <= i < facts.policies@.len() ==> policy_kept(
            #[trigger] facts.policies@[i],
            snapshot.policies@[i],
        )
    &&& kept("no-turbo"@, context.no_turbo_path@, optional_reading(facts.no_turbo)) == Ok::<
        Option<Seq<char>>,
        Seq<char>,
    >(text_of(snapshot.no_turbo))
    &&& kept("min-perf"@, context.min_perf_path@, optional_reading(facts.min_perf)) == Ok::<
        Option<Seq<char>>,
        Seq<char>,
    >(text_of(snapshot.min_perf_pct))
}

/// Why the machine cannot be remembered, if it cannot.
pub open spec fn snapshot_error(context: CpuContext, facts: CpuFacts) -> Option<Seq<char>> {
    match unreadable(facts.policies@) {
        Some(e) => Some(e),
        None => match kept("no-turbo"@, context.no_turbo_path@, optional_reading(facts.no_turbo)) {
            Err(e) => Some(e),
            Ok(_) => match kept(
                "min-perf"@,
                context.min_perf_path@,
                optional_reading(facts.min_perf),
            ) {
                Err(e) => Some(e),
                Ok(_) => None,
            },
        },
    }
}

fn keep_policy(policy: &PolicyFacts) -> (r: Result<PolicySnapshot, String>)
    ensures
        match r {
            Ok(snapshot) => policy_kept(*policy, snapshot) && policy_unreadable(*policy) is None,
            Err(e) => policy_unreadable(*policy) == Some(e@),
        },
{
    let governor = match &policy.governor {
        None => {
            return Err(
                fail(cat4("missing ", SCALING_GOVERNOR, " in ", policy.path.as_str()).as_str()),
            );
        },
        Some(contents) => match read_attr(
            "scaling-governor",
            join_path(policy.path.as_str(), SCALING_GOVERNOR).as_str(),
            contents,
        ) {
            Ok(value) => value,
            Err(e) => {
                return Err(e);
            },
        },
    };
    match keep(
        "epp",
        join_path(policy.path.as_str(), ENERGY_PREFERENCE).as_str(),
        &policy.epp,
    ) {
        Ok(epp) => Ok(PolicySnapshot { path: policy.path.clone(), governor, epp }),
        Err(e) => Err(e),
    }
}

proof fn lemma_first_unreadable(policies: Seq<PolicyFacts>, i: int)
    requires
        0 <= i <= policies.len(),
        unreadable(policies.take(i)) is Some,
    ensures
        unreadable(policies) == unreadable(policies.take(i)),
    decreases policies.len() - i,
{
    if i == policies.len() {
        assert(policies.take(i) == policies);
    } else {
        let t = policies.take(i + 1);
        assert(t.drop_last() == policies.take(i));
        lemma_first_unreadable(policies, i + 1);
    }
}

/// Remembers what the machine shows, so that it can be put back.
pub fn snapshot_cpu_profile(context: &CpuContext, facts: &CpuFacts) -> (r: Result<
    CpuSnapshot,
    String,
>)
    ensures
        match r {
            Ok(snapshot) => snapshot_of(*context, *facts, snapshot) && snapshot_error(
                *context,
                *facts,
            ) is None,
            Err(e) => snapshot_error(*context, *facts) == Some(e@),
        },
{
    let mut policies: Vec<PolicySnapshot> = Vec::new();
    let mut i: usize = 0;
    assert(facts.policies@.take(0) == Seq::<PolicyFacts>::empty());
    while i < facts.policies.len()
        invariant
            i <= facts.policies@.len(),
            policies@.len() == i,
            forall|k: int|
                0 <= k < i ==> policy_kept(#[trigger] facts.policies@[k], policies@[k]),
            unreadable(facts.policies@.take(i as int)) is None,
        decreases facts.policies@.len() - i,
    {
        let ghost t = facts.policies@.take(i + 1);
        assert(t.drop_last() == facts.policies@.take(i as int));
        assert(t.last() == facts.policies@[i as int]);
        match keep_policy(&facts.policies[i]) {
            Ok(snapshot) => {
                policies.push(snapshot);
            },
            Err(e) => {
                proof {
                    lemma_first_unreadable(facts.policies@, i + 1);
                }
                return Err(e);
            },
        }
        i = i + 1;
    }
    assert(facts.policies@.take(i as int) == facts.policies@);
    let no_turbo = match keep("no-turbo", context.no_turbo_path.as_str(), &facts.no_turbo) {
        Ok(value) => value,
        Err(e) => {
            return Err(e);
        },
    };
    let min_perf_pct = match keep("min-perf", context.min_perf_path.as_str(), &facts.min_perf) {
        Ok(value) => value,
        Err(e) => {
            return Err(e);
        },
    };
    Ok(CpuSnapshot { policies, no_turbo, min_perf_pct })
}

/// What puts one policy back. Under hardware-managed states the performance governor owns
/// the preference, which is then not writable and left to it.
pub open spec fn policy_undo(policy: PolicySnapshot, hwp_active: bool) -> Seq<Write> {
    let governor = seq![
        Write {
            label: "rollback-scaling-governor"@,
            value: policy.governor@,
            path: joined_path(policy.path@, SCALING_GOVERNOR@),
        },
    ];
    match policy.epp {
        Some(epp) if !(hwp_active && policy.governor@ == CpuGovernor::Performance.wire_name()) => {
            governor + seq![
                Write {
                    label: "rollback-epp"@,
                    value: epp@,
                    path: joined_path(policy.path@, ENERGY_PREFERENCE@),
                },
            ]
        },
        _ => governor,
    }
}

/// What puts the policies back, in order.
pub open spec fn policies_undo(policies: Seq<PolicySnapshot>, hwp_active: bool) -> Seq<Write>
    decreases policies.len(),
{
    if policies.len() == 0 {
        seq![]
    } else {
        policies_undo(policies.drop_last(), hwp_active) + policy_undo(policies.last(), hwp_active)
    }
}

/// What puts one optional attribute back.
pub open spec fn optional_undo(label: Seq<char>, value: Option<Seq<char>>, path: Seq<char>) -> Seq<
    Write,
> {
    match value {
        Some(v) => seq![Write { label, value: v, path }],
        None => seq![],
    }
}

/// Everything that puts the machine back, in order.
pub open spec fn undo_writes(context: CpuContext, snapshot: CpuSnapshot) -> Seq<Write> {
    policies_undo(snapshot.policies@, context.hwp_active) + optional_undo(
        "rollback-no-turbo"@,
        text_of(snapshot.no_turbo),
        context.no_turbo_path@,
    ) + optional_undo(
        "rollback-min-perf"@,
        text_of(snapshot.min_perf_pct),
        context.min_perf_path@,
    )
}

/// Everything that puts the machine back, in order.
pub fn rollback_cpu_profile(context: &CpuContext, snapshot: &CpuSnapshot) -> (r: Vec<CpuWrite>)
    ensures
        writes_view(r@) == undo_writes(*context, *snapshot),
{
    let mut writes: Vec<CpuWrite> = Vec::new();
    let mut i: usize = 0;
    assert(writes_view(writes@) == policies_undo(
        snapshot.policies@.take(0),
        context.hwp_active,
    ));
    while i < snapshot.policies.len()
        invariant
            i <= snapshot.policies@.len(),
            writes_view(writes@) == policies_undo(
                snapshot.policies@.take(i as int),
                context.hwp_active,
            ),
        decreases snapshot.policies@.len() - i,
    {
        let ghost t = snapshot.policies@.take(i + 1);
        let ghost before = writes_view(writes@);
        let policy = &snapshot.policies[i];
        assert(t.drop_last() == snapshot.policies@.take(i as int));
        assert(t.last() == *policy);
        writes.push(
            write_of(
                "rollback-scaling-governor",
                policy.governor.as_str(),
                join_path(policy.path.as_str(), SCALING_GOVERNOR),
            ),
        );
        let ghost middle = writes_view(writes@);
        assert(middle == before.push(writes@.last().as_write()));
        if !(context.hwp_active && same(
            policy.governor.as_str(),
            CpuGovernor::Performance.as_str(),
        )) {
            match &policy.epp {
                Some(epp) => {
                    writes.push(
                        write_of(
                            "rollback-epp",
                            epp.as_str(),
                            join_path(policy.path.as_str(), ENERGY_PREFERENCE),
                        ),
                    );
                    assert(writes_view(writes@) == middle.push(writes@.last().as_write()));
                },
                None => {},
            }
        }
        assert(writes_view(writes@) == before + policy_undo(*policy, context.hwp_active));
        i = i + 1;
    }
    assert(snapshot.policies@.take(i as int) == snapshot.policies@);
    let ghost policies = writes_view(writes@);
    match &snapshot.no_turbo {
        Some(value) => {
            writes.push(
                write_of("rollback-no-turbo", value.as_str(), context.no_turbo_path.clone()),
            );
            assert(writes_view(writes@) == policies.push(writes@.last().as_write()));
        },
        None => {},
    }
    let ghost middle = writes_view(writes@);
    assert(middle == policies + optional_undo(
        "rollback-no-turbo"@,
        text_of(snapshot.no_turbo),
        context.no_turbo_path@,
    ));
    match &snapshot.min_perf_pct {
        Some(value) => {
            writes.push(
                write_of("rollback-min-perf", value.as_str(), context.min_perf_path.clone()),
            );
            assert(writes_view(writes@) == middle.push(writes@.last().as_write()));
        },
        None => {},
    }
    assert(writes_view(writes@) == middle + optional_undo(
        "rollback-min-perf"@,
        text_of(snapshot.min_perf_pct),
        context.min_perf_path@,
    ));
    writes
}

proof fn lemma_policies_undo(policies: Seq<PolicySnapshot>, hwp_active: bool, k: int, write: Write)
    requires
        0 <= k < policies.len(),
        policy_undo(policies[k], hwp_active).contains(write),
    ensures
        policies_undo(policies, hwp_active).contains(write),
    decreases policies.len(),
{
    let front = policies_undo(policies.drop_last(), hwp_active);
    let back = policy_undo(policies.last(), hwp_active);
    let all = policies_undo(policies, hwp_active);
    if k == policies.len() - 1 {
        let j = choose|j: int| 0 <= j < back.len() && back[j] == write;
        assert(all[front.len() + j] == write);
    } else {
        assert(policies.drop_last()[k] == policies[k]);
        lemma_policies_undo(policies.drop_last(), hwp_active, k, write);
        let j = choose|j: int| 0 <= j < front.len() && front[j] == write;
        assert(all[j] == write);
    }
}

/// Undoing puts every policy back to the governor it had, and to the energy preference it
/// had unless the performance governor owns that one.
pub proof fn law_undo_restores_every_policy(context: CpuContext, snapshot: CpuSnapshot, k: int)
    requires
        0 <= k < snapshot.policies@.len(),
    ensures
        undo_writes(context, snapshot).contains(
            (Write {
                label: "rollback-scaling-governor"@,
                value: snapshot.policies@[k].governor@,
                path: joined_path(snapshot.policies@[k].path@, SCALING_GOVERNOR@),
            }),
        ),
        snapshot.policies@[k].epp is Some && !(context.hwp_active
            && snapshot.policies@[k].governor@ == CpuGovernor::Performance.wire_name())
            ==> undo_writes(context, snapshot).contains(
            (Write {
                label: "rollback-epp"@,
                value: snapshot.policies@[k].epp->0@,
                path: joined_path(snapshot.policies@[k].path@, ENERGY_PREFERENCE@),
            }),
        ),
{
    let policy = snapshot.policies@[k];
    let governor = Write {
        label: "rollback-scaling-governor"@,
        value: policy.governor@,
        path: joined_path(policy.path@, SCALING_GOVERNOR@),
    };
    let mine = policy_undo(policy, context.hwp_active);
    let all = policies_undo(snapshot.policies@, context.hwp_active);
    let undo = undo_writes(context, snapshot);
    assert(mine[0] == governor);
    lemma_policies_undo(snapshot.policies@, context.hwp_active, k, governor);
    let i = choose|i: int| 0 <= i < all.len() && all[i] == governor;
    assert(undo[i] == governor);
    if policy.epp is Some && !(context.hwp_active && policy.governor@
        == CpuGovernor::Performance.wire_name()) {
        let epp = Write {
            label: "rollback-epp"@,
            value: policy.epp->0@,
            path: joined_path(policy.path@, ENERGY_PREFERENCE@),
        };
        assert(mine[1] == epp);
        lemma_policies_undo(snapshot.policies@, context.hwp_active, k, epp);
        let j = choose|j: int| 0 <= j < all.len() && all[j] == epp;
        assert(undo[j] == epp);
    }
}

/// Undoing puts the turbo switch and the performance floor back where the machine has them.
pub proof fn law_undo_restores_the_switches(context: CpuContext, snapshot: CpuSnapshot)
    ensures
        snapshot.no_turbo is Some ==> undo_writes(context, snapshot).contains(
            (Write {
                label: "rollback-no-turbo"@,
                value: snapshot.no_turbo->0@,
                path: context.no_turbo_path@,
            }),
        ),
        snapshot.min_perf_pct is Some ==> undo_writes(context, snapshot).contains(
            (Write {
                label: "rollback-min-perf"@,
                value: snapshot.min_perf_pct->0@,
                path: context.min_perf_path@,
            }),
        ),
{
    let all = policies_undo(snapshot.policies@, context.hwp_active);
    let undo = undo_writes(context, snapshot);
    if snapshot.no_turbo is Some {
        assert(undo[all.len() as int].value == snapshot.no_turbo->0@);
    }
    if snapshot.min_perf_pct is Some {
        assert(undo.last().value == snapshot.min_perf_pct->0@);
        assert(undo[undo.len() - 1] == undo.last());
    }
}

/// A change goes to the attributes of the machine it was checked on: the policies in their
/// order, and the two switches of the `intel_pstate` driver.
pub proof fn law_context_names_the_attributes(
    sysfs: Seq<char>,
    facts: CpuFacts,
    context: CpuContext,
    k: int,
)
    requires
        context_of(sysfs, facts, context),
    ensures
        context.no_turbo_path@ == joined_path(sysfs, "devices/system/cpu/intel_pstate/no_turbo"@),
        context.min_perf_path@ == joined_path(
            sysfs,
            "devices/system/cpu/intel_pstate/min_perf_pct"@,
        ),
        context.policies@.len() == facts.policies@.len(),
        0 <= k < facts.policies@.len() ==> context.policies@[k]@ == facts.policies@[k].path@,
        context.hwp_active ==> facts.pstate_status is Some && trimmed(facts.pstate_status->0@)
            == "active"@,
        context.hwp_active && 0 <= k < facts.policies@.len() ==> facts.policies@[k].driver is Some
            && trimmed(facts.policies@[k].driver->0@) == "intel_pstate"@
            && facts.policies@[k].epp is Some,
{
    assert(texts(context.policies@).len() == context.policies@.len());
    assert(policy_paths(facts.policies@).len() == facts.policies@.len());
    if 0 <= k < facts.policies@.len() {
        assert(texts(context.policies@)[k] == context.policies@[k]@);
        assert(policy_paths(facts.policies@)[k] == facts.policies@[k].path@);
    }
}

proof fn lemma_every_policy_is_ready(
    request: CpuProfileRequest,
    policies: Seq<PolicyFacts>,
    k: int,
)
    requires
        policies_ready(request, policies) is Ok,
        0 <= k < policies.len(),
    ensures
        policy_ready(request, policies[k]) is Ok,
    decreases policies.len(),
{
    if k < policies.len() - 1 {
        lemma_every_policy_is_ready(request, policies.drop_last(), k);
        assert(policies.drop_last()[k] == policies[k]);
    }
}

/// Nothing is written on a machine that cannot take it: a machine that is ready has every
/// attribute the request writes, and where a policy lists what it allows, what is asked for is
/// on the list. The raw performance preference is a number that no list names.
pub proof fn law_ready_machine_can_take_the_request(
    sysfs: Seq<char>,
    request: CpuProfileRequest,
    facts: CpuFacts,
    k: int,
)
    requires
        ready(sysfs, request, facts) is Ok,
        0 <= k < facts.policies@.len(),
    ensures
        facts.policies@[k].governor is Some,
        request.epp is Some ==> facts.policies@[k].epp is Some,
        request.no_turbo is Some ==> facts.no_turbo is Some,
        request.min_perf_pct is Some ==> facts.min_perf is Some,
        facts.policies@[k].available_governors matches Some(list) ==> list is Ok && words_of(
            trimmed(list->Ok_0@),
        ).contains(request.governor.wire_name()),
        request.epp is Some && request.epp != Some(EnergyPreference::RawPerformance) ==> (
        facts.policies@[k].available_epps matches Some(list) ==> list is Ok && words_of(
            trimmed(list->Ok_0@),
        ).contains(request.epp->0.wire_name())),
{
    lemma_every_policy_is_ready(request, facts.policies@, k);
}

/// What is remembered is what the machine showed: each policy's governor and preference, and
/// the two switches, without the white space around them.
pub proof fn law_snapshot_is_what_was_read(
    context: CpuContext,
    facts: CpuFacts,
    snapshot: CpuSnapshot,
    k: int,
)
    requires
        snapshot_of(context, facts, snapshot),
        0 <= k < facts.policies@.len(),
    ensures
        facts.policies@[k].governor matches Some(Ok(text)) && snapshot.policies@[k].governor@
            == trimmed(text@),
        snapshot.policies@[k].path@ == facts.policies@[k].path@,
        facts.policies@[k].epp is Some == snapshot.policies@[k].epp is Some,
        facts.policies@[k].epp matches Some(read) ==> read is Ok && snapshot.policies@[k].epp->0@
            == trimmed(read->Ok_0@),
        facts.no_turbo is Some == snapshot.no_turbo is Some,
        facts.no_turbo matches Some(read) ==> read is Ok && snapshot.no_turbo->0@ == trimmed(
            read->Ok_0@,
        ),
        facts.min_perf is Some == snapshot.min_perf_pct is Some,
        facts.min_perf matches Some(read) ==> read is Ok && snapshot.min_perf_pct->0@ == trimmed(
            read->Ok_0@,
        ),
{
    assert(policy_kept(facts.policies@[k], snapshot.policies@[k]));
}

/// The estimated performance floor is the whole percent of the highest frequency that the
/// lowest one reaches.
pub proof fn law_floor_is_the_share_of_the_frequencies(
    min: Seq<char>,
    max: Seq<char>,
    low: nat,
    high: nat,
)
    requires
        decimal_value(trimmed(min), 0xffff_ffff_ffff_ffff) == Some(low),
        decimal_value(trimmed(max), 0xffff_ffff_ffff_ffff) == Some(high),
        low * 100 <= 0xffff_ffff_ffff_ffff,
    ensures
        floor_of(Some(min), Some(max)) matches Some(percent) ==> high > 0 && percent * high <= low
            * 100 < (percent + 1) * high,
        floor_of(Some(min), Some(max)) is None ==> high == 0 || low * 100 >= 0x10000 * high,
        floor_of(None, Some(max)) is None,
        floor_of(Some(min), None) is None,
{
    if high > 0 {
        let q = low * 100 / high;
        assert(q * high <= low * 100 < (q + 1) * high) by (nonlinear_arith)
            requires
                q == low * 100 / high,
                high > 0,
        ;
        if q > 0xffff {
            assert(low * 100 >= 0x10000 * high) by (nonlinear_arith)
                requires
                    q * high <= low * 100,
                    q >= 0x10000,
            ;
        }
    }
}

/// A write as contracts speak of it has the label, the value and the path of the write, each
/// in its place, and a list of writes is taken in its order.
pub proof fn law_writes_are_seen_as_they_are(writes: Seq<CpuWrite>, i: int)
    requires
        0 <= i < writes.len(),
    ensures
        writes_view(writes).len() == writes.len(),
        writes_view(writes)[i].label == writes[i].label@,
        writes_view(writes)[i].value == writes[i].value@,
        writes_view(writes)[i].path == writes[i].path@,
{
}

/// Setting the energy preference leaves out the policies that have none, and no other.
pub proof fn law_policies_without_a_preference_are_left_out(
    policies: Seq<PolicyPreference>,
    policy: PolicyPreference,
)
    ensures
        policy.has_preference ==> with_preference(policies.push(policy)) == with_preference(
            policies,
        ).push(policy.path@),
        !policy.has_preference ==> with_preference(policies.push(policy)) == with_preference(
            policies,
        ),
        with_preference(seq![]) == Seq::<Seq<char>>::empty(),
{
    assert(policies.push(policy).drop_last() =~= policies);
}

/// The writes for the policies are one for each, with the same value, into the attribute of
/// that policy.
pub proof fn law_every_policy_gets_its_own_write(
    policies: Seq<Seq<char>>,
    label: Seq<char>,
    value: Seq<char>,
    attribute: Seq<char>,
    i: int,
)
    requires
        0 <= i < policies.len(),
    ensures
        ({
            let writes = policy_writes(policies, label, value, attribute);
            &&& writes.len() == policies.len()
            &&& writes[i].label == label
            &&& writes[i].value == value
            &&& writes[i].path == joined_path(policies[i], attribute)
        }),
{
}

proof fn lemma_all_policies_are_ready(request: CpuProfileRequest, policies: Seq<PolicyFacts>)
    requires
        forall|i: int|
            0 <= i < policies.len() ==> policy_ready(request, #[trigger] policies[i]) is Ok,
    ensures
        policies_ready(request, policies) is Ok,
    decreases policies.len(),
{
    if policies.len() > 0 {
        let front = policies.drop_last();
        assert forall|i: int| 0 <= i < front.len() implies policy_ready(
            request,
            #[trigger] front[i],
        ) is Ok by {
            assert(front[i] == policies[i]);
        }
        lemma_all_policies_are_ready(request, front);
        assert(policies.last() == policies[policies.len() - 1]);
    }
}

/// Nothing but a missing attribute or a value that is not on a list stands in the way: a
/// machine whose every policy has what is written, and lists nothing, takes any request.
pub proof fn law_nothing_else_stands_in_the_way(
    sysfs: Seq<char>,
    request: CpuProfileRequest,
    facts: CpuFacts,
)
    requires
        forall|i: int|
            0 <= i < facts.policies@.len() ==> (#[trigger] facts.policies@[i]).governor is Some
                && facts.policies@[i].available_governors is None
                && facts.policies@[i].available_epps is None && (request.epp is Some
                ==> facts.policies@[i].epp is Some),
        request.no_turbo is Some ==> facts.no_turbo is Some,
        request.min_perf_pct is Some ==> facts.min_perf is Some,
    ensures
        ready(sysfs, request, facts) is Ok,
{
    assert forall|i: int| 0 <= i < facts.policies@.len() implies policy_ready(
        request,
        #[trigger] facts.policies@[i],
    ) is Ok by {
        assert(facts.policies@[i].governor is Some);
    }
    lemma_all_policies_are_ready(request, facts.policies@);
}

} // verus!
