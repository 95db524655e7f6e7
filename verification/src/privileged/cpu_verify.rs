//! What the read-back of a CPU profile has to show, and the course of a change: the
//! writes, the read-back, and the way back where either fails.

use vstd::prelude::*;

use crate::number::{
    decimal, decimal_text, decimal_value, law_decimal_round_trip, parse_u16_text,
};
use crate::paths::{join_path, joined_path};
use crate::privileged::cpu_apply::{
    context_of, cpu_profile_writes, hwp, kept, kept_epp, kept_governor, kernel_forces_epp_zero,
    law_undo_restores_every_policy, law_undo_restores_the_switches, profile_writes, pstate_writes,
    rollback_cpu_profile, snapshot_of, undo_writes, writes_view, CpuContext, CpuFacts,
    CpuSnapshot, CpuWrite, Write,
};
use crate::privileged::cpu_profile::{
    CpuProfileRequest, ENERGY_PREFERENCE, FLOOR_ESTIMATE_TOLERANCE_PCT, SCALING_GOVERNOR,
};
use crate::privileged::messages::{
    attribute_value, bool_str, fail, failure, quoting, read_attr, switch_text,
};
use crate::protocol::helper::{CpuGovernor, EnergyPreference};
use crate::text::{
    cat2, cat3, cat5, join, joined, optional_reading, outcome, reading, same, texts, trimmed,
};

verus! {

/// What one policy shows afterwards.
pub struct PolicyReadBack {
    /// The policy's directory.
    pub path: String,
    pub governor: Result<String, String>,
    pub epp: Result<String, String>,
}

/// What the machine shows afterwards.
pub struct ReadBack {
    pub policies: Vec<PolicyReadBack>,
    pub no_turbo: Result<String, String>,
    pub min_perf: Result<String, String>,
}

/// The error for an attribute that shows something else.
pub open spec fn mismatch(path: Seq<char>, expected: Seq<char>, actual: Seq<char>) -> Seq<char> {
    failure(
        "verification failed for "@ + path + ": expected '"@ + expected + "', got '"@ + actual
            + "'"@,
    )
}

fn mismatched(path: &str, expected: &str, actual: &str) -> (r: String)
    ensures
        r@ == mismatch(path@, expected@, actual@),
{
    let mut text = cat5("verification failed for ", path, ": expected '", expected, "', got '");
    text.append(actual);
    text.append("'");
    fail(text.as_str())
}

/// Whether an attribute shows what was written.
pub open spec fn shows(
    expected: Seq<char>,
    path: Seq<char>,
    contents: Result<Seq<char>, Seq<char>>,
) -> Result<(), Seq<char>> {
    match attribute_value("profile-verification"@, path, contents) {
        Err(e) => Err(e),
        Ok(actual) => if actual == expected {
            Ok(())
        } else {
            Err(mismatch(path, expected, actual))
        },
    }
}

fn verify_attr(expected: &str, path: &str, contents: &Result<String, String>) -> (r: Result<
    (),
    String,
>)
    ensures
        outcome(r) == shows(expected@, path@, reading(*contents)),
{
    match read_attr("profile-verification", path, contents) {
        Err(e) => Err(e),
        Ok(actual) => if same(actual.as_str(), expected) {
            Ok(())
        } else {
            Err(mismatched(path, expected, actual.as_str()))
        },
    }
}

/// Whether one policy shows what was asked for.
pub open spec fn policy_shows(
    request: CpuProfileRequest,
    hwp_active: bool,
    policy: PolicyReadBack,
) -> Result<(), Seq<char>> {
    match shows(
        request.governor.wire_name(),
        joined_path(policy.path@, SCALING_GOVERNOR@),
        reading(policy.governor),
    ) {
        Err(e) => Err(e),
        Ok(()) => match request.epp {
            Some(epp) if !kernel_forces_epp_zero(request, hwp_active) => shows(
                epp.wire_name(),
                joined_path(policy.path@, ENERGY_PREFERENCE@),
                reading(policy.epp),
            ),
            _ => Ok(()),
        },
    }
}

fn verify_policy(request: CpuProfileRequest, hwp_active: bool, policy: &PolicyReadBack) -> (r:
    Result<(), String>)
    ensures
        outcome(r) == policy_shows(request, hwp_active, *policy),
{
    match verify_attr(
        request.governor.as_str(),
        join_path(policy.path.as_str(), SCALING_GOVERNOR).as_str(),
        &policy.governor,
    ) {
        Err(e) => {
            return Err(e);
        },
        Ok(()) => {},
    }
    match request.epp {
        None => Ok(()),
        Some(epp) => {
            if request.governor == CpuGovernor::Performance && epp
                == EnergyPreference::RawPerformance && hwp_active {
                Ok(())
            } else {
                verify_attr(
                    epp.as_str(),
                    join_path(policy.path.as_str(), ENERGY_PREFERENCE).as_str(),
                    &policy.epp,
                )
            }
        },
    }
}

/// Whether every policy shows what was asked for; the first that does not is named.
pub open spec fn policies_show(
    request: CpuProfileRequest,
    hwp_active: bool,
    policies: Seq<PolicyReadBack>,
) -> Result<(), Seq<char>>
    decreases policies.len(),
{
    if policies.len() == 0 {
        Ok(())
    } else {
        match policies_show(request, hwp_active, policies.drop_last()) {
            Err(e) => Err(e),
            Ok(()) => policy_shows(request, hwp_active, policies.last()),
        }
    }
}

proof fn lemma_first_mismatch(
    request: CpuProfileRequest,
    hwp_active: bool,
    policies: Seq<PolicyReadBack>,
    i: int,
)
    requires
        0 <= i <= policies.len(),
        policies_show(request, hwp_active, policies.take(i)) is Err,
    ensures
        policies_show(request, hwp_active, policies) == policies_show(
            request,
            hwp_active,
            policies.take(i),
        ),
    decreases policies.len() - i,
{
    if i == policies.len() {
        assert(policies.take(i) == policies);
    } else {
        let t = policies.take(i + 1);
        assert(t.drop_last() == policies.take(i));
        lemma_first_mismatch(request, hwp_active, policies, i + 1);
    }
}

/// Whether the kernel rounded a performance floor up to its own one: the value read back
/// is above the one asked for and close to the estimate of the kernel's floor.
pub open spec fn clamped_by_kernel(asked: u16, actual: u16, floor: Option<u16>) -> bool {
    &&& actual > asked
    &&& floor is Some
    &&& -(FLOOR_ESTIMATE_TOLERANCE_PCT as int) <= actual - floor->0
    &&& actual - floor->0 <= FLOOR_ESTIMATE_TOLERANCE_PCT
}

/// Whether the performance floor shows what was asked for, or what the kernel made of it;
/// the latter is given back.
pub open spec fn floor_shows(
    asked: u16,
    floor: Option<u16>,
    path: Seq<char>,
    contents: Result<Seq<char>, Seq<char>>,
) -> Result<Option<u16>, Seq<char>> {
    match attribute_value("min-perf-verification"@, path, contents) {
        Err(e) => Err(e),
        Ok(text) => match decimal_value(text, 0xffff) {
            None => Err(
                failure(
                    quoting(
                        "verification returned invalid min_perf_pct "@,
                        text,
                        " from "@ + path,
                    ),
                ),
            ),
            Some(actual) => if actual == asked {
                Ok(None)
            } else if clamped_by_kernel(asked, actual as u16, floor) {
                Ok(Some(actual as u16))
            } else {
                Err(mismatch(path, decimal_text(asked as nat), decimal_text(actual)))
            },
        },
    }
}

fn verify_floor(
    asked: u16,
    floor: Option<u16>,
    path: &str,
    contents: &Result<String, String>,
) -> (r: Result<Option<u16>, String>)
    ensures
        outcome(r) == floor_shows(asked, floor, path@, reading(*contents)),
{
    match read_attr("min-perf-verification", path, contents) {
        Err(e) => Err(e),
        Ok(text) => match parse_u16_text(text.as_str()) {
            None => {
                let quoted = cat5(
                    "verification returned invalid min_perf_pct ",
                    "'",
                    text.as_str(),
                    "'",
                    cat2(" from ", path).as_str(),
                );
                Err(fail(quoted.as_str()))
            },
            Some(actual) => {
                let near = match floor {
                    Some(estimate) => if actual >= estimate {
                        actual - estimate <= FLOOR_ESTIMATE_TOLERANCE_PCT
                    } else {
                        estimate - actual <= FLOOR_ESTIMATE_TOLERANCE_PCT
                    },
                    None => false,
                };
                if actual == asked {
                    Ok(None)
                } else if actual > asked && near {
                    Ok(Some(actual))
                } else {
                    Err(
                        mismatched(
                            path,
                            decimal(asked as u64).as_str(),
                            decimal(actual as u64).as_str(),
                        ),
                    )
                }
            },
        },
    }
}

/// The directories of the policies that were read back.
pub open spec fn read_back_paths(policies: Seq<PolicyReadBack>) -> Seq<Seq<char>> {
    Seq::new(policies.len(), |i: int| policies[i].path@)
}

/// The error for a read-back that is not of the policies that were written.
pub open spec fn incomplete_read_back() -> Seq<char> {
    failure("verification failed: not every CPU policy was read back"@)
}

/// Whether the read-back is of the context's policies, all of them and in their order.
fn covers_policies(context: &CpuContext, machine: &ReadBack) -> (r: bool)
    ensures
        r == (read_back_paths(machine.policies@) == texts(context.policies@)),
{
    if machine.policies.len() != context.policies.len() {
        assert(read_back_paths(machine.policies@).len() != texts(context.policies@).len());
        return false;
    }
    let mut i: usize = 0;
    while i < machine.policies.len()
        invariant
            i <= machine.policies@.len(),
            machine.policies@.len() == context.policies@.len(),
            forall|k: int|
                0 <= k < i ==> (#[trigger] machine.policies@[k]).path@ == context.policies@[k]@,
        decreases machine.policies@.len() - i,
    {
        if !same(machine.policies[i].path.as_str(), context.policies[i].as_str()) {
            assert(read_back_paths(machine.policies@)[i as int] != texts(
                context.policies@,
            )[i as int]);
            return false;
        }
        i = i + 1;
    }
    assert(read_back_paths(machine.policies@) =~= texts(context.policies@));
    true
}

/// Whether the machine shows what was asked for: every policy of the context, then the turbo
/// switch, then the floor. Where the kernel rounded the floor up, what it made of it is given back.
pub open spec fn verification(
    request: CpuProfileRequest,
    context: CpuContext,
    machine: ReadBack,
) -> Result<Option<u16>, Seq<char>> {
    let policies = if read_back_paths(machine.policies@) == texts(context.policies@) {
        policies_show(request, context.hwp_active, machine.policies@)
    } else {
        Err(incomplete_read_back())
    };
    match policies {
        Err(e) => Err(e),
        Ok(()) => {
            let turbo = match request.no_turbo {
                Some(no_turbo) => shows(
                    switch_text(no_turbo),
                    context.no_turbo_path@,
                    reading(machine.no_turbo),
                ),
                None => Ok(()),
            };
            match turbo {
                Err(e) => Err(e),
                Ok(()) => match request.min_perf_pct {
                    Some(asked) => floor_shows(
                        asked,
                        context.min_perf_floor_pct,
                        context.min_perf_path@,
                        reading(machine.min_perf),
                    ),
                    None => Ok(None),
                },
            }
        },
    }
}

proof fn lemma_paths_agree(context: CpuContext, machine: ReadBack)
    requires
        read_back_paths(machine.policies@) == texts(context.policies@),
    ensures
        machine.policies@.len() == context.policies@.len(),
        forall|i: int|
            0 <= i < context.policies@.len() ==> (#[trigger] machine.policies@[i]).path@
                == context.policies@[i]@,
{
    let paths = read_back_paths(machine.policies@);
    assert(paths.len() == machine.policies@.len());
    assert(texts(context.policies@).len() == context.policies@.len());
    assert forall|i: int| 0 <= i < context.policies@.len() implies (
    #[trigger] machine.policies@[i]).path@ == context.policies@[i]@ by {
        assert(paths[i] == machine.policies@[i].path@);
        assert(texts(context.policies@)[i] == context.policies@[i]@);
    }
}

/// Checks that the machine shows what was asked for, on every policy of the context. A floor
/// that the kernel rounded up is accepted and given back.
pub fn verify_cpu_profile(request: CpuProfileRequest, context: &CpuContext, machine: &ReadBack) -> (
r: Result<Option<u16>, String>)
    ensures
        outcome(r) == verification(request, *context, *machine),
        r is Ok ==> machine.policies@.len() == context.policies@.len() && forall|i: int|
            0 <= i < context.policies@.len() ==> {
                &&& (#[trigger] machine.policies@[i]).path@ == context.policies@[i]@
                &&& policy_shows(request, context.hwp_active, machine.policies@[i]) is Ok
            },
{
    if !covers_policies(context, machine) {
        return Err(fail("verification failed: not every CPU policy was read back"));
    }
    proof {
        lemma_paths_agree(*context, *machine);
    }
    let mut i: usize = 0;
    assert(machine.policies@.take(0) == Seq::<PolicyReadBack>::empty());
    while i < machine.policies.len()
        invariant
            i <= machine.policies@.len(),
            read_back_paths(machine.policies@) == texts(context.policies@),
            policies_show(request, context.hwp_active, machine.policies@.take(i as int)) is Ok,
            forall|k: int|
                0 <= k < i ==> policy_shows(
                    request,
                    context.hwp_active,
                    #[trigger] machine.policies@[k],
                ) is Ok,
        decreases machine.policies@.len() - i,
    {
        let ghost t = machine.policies@.take(i + 1);
        assert(t.drop_last() == machine.policies@.take(i as int));
        assert(t.last() == machine.policies@[i as int]);
        match verify_policy(request, context.hwp_active, &machine.policies[i]) {
            Err(e) => {
                proof {
                    lemma_first_mismatch(
                        request,
                        context.hwp_active,
                        machine.policies@,
                        i as int + 1,
                    );
                }
                return Err(e);
            },
            Ok(()) => {},
        }
        i = i + 1;
    }
    assert(machine.policies@.take(i as int) == machine.policies@);
    match request.no_turbo {
        Some(no_turbo) => {
            match verify_attr(
                bool_str(no_turbo),
                context.no_turbo_path.as_str(),
                &machine.no_turbo,
            ) {
                Err(e) => {
                    return Err(e);
                },
                Ok(()) => {},
            }
        },
        None => {},
    }
    match request.min_perf_pct {
        Some(asked) => verify_floor(
            asked,
            context.min_perf_floor_pct,
            context.min_perf_path.as_str(),
            &machine.min_perf,
        ),
        None => Ok(None),
    }
}

// ---------------------------------------------------------------------------
// The course of a change
// ---------------------------------------------------------------------------

/// Where a change stands.
#[derive(Debug)]
pub enum Stage {
    /// The write with this number is to be made.
    Writing(usize),
    /// Everything is written and is to be read back.
    Verifying,
    /// The change failed with `cause`; the undo write with this number is to be made.
    Undoing { next: usize, cause: String, errors: Vec<String> },
    Finished(Result<(), String>),
}

/// Where a change stands, as contracts speak of it.
pub enum Standing {
    Writing(int),
    Verifying,
    Undoing { next: int, cause: Seq<char>, errors: Seq<Seq<char>> },
    Finished(Result<(), Seq<char>>),
}

impl Stage {
    pub open spec fn standing(self) -> Standing {
        match self {
            Stage::Writing(next) => Standing::Writing(next as int),
            Stage::Verifying => Standing::Verifying,
            Stage::Undoing { next, cause, errors } => Standing::Undoing {
                next: next as int,
                cause: cause@,
                errors: texts(errors@),
            },
            Stage::Finished(r) => Standing::Finished(outcome(r)),
        }
    }
}

/// A change that is applied as a whole or undone as a whole.
#[derive(Debug)]
pub struct Change {
    pub writes: Vec<CpuWrite>,
    pub undo: Vec<CpuWrite>,
    pub stage: Stage,
}

/// What is to be done next for a change.
pub enum Next {
    /// Make the write with this number.
    Write(usize),
    /// Read the machine back and check it.
    Verify,
    /// Make the undo write with this number.
    Undo(usize),
    Done,
}

/// What a failed change ends in, once everything was tried to put the machine back.
pub open spec fn rolled_back(cause: Seq<char>, errors: Seq<Seq<char>>) -> Seq<char> {
    if errors.len() == 0 {
        cause + "; rolling back CPU profile succeeded"@
    } else {
        cause + "; rolling back CPU profile was incomplete: "@ + joined(errors, "; "@)
    }
}

/// What a failed change ends in.
pub fn rollback_error(cause: &str, errors: &Vec<String>) -> (r: String)
    ensures
        r@ == rolled_back(cause@, texts(errors@)),
{
    if errors.len() == 0 {
        cat2(cause, "; rolling back CPU profile succeeded")
    } else {
        cat3(
            cause,
            "; rolling back CPU profile was incomplete: ",
            join(errors, "; ").as_str(),
        )
    }
}

/// Where a change stands once everything before write `next` succeeded.
pub open spec fn written(writes: int, next: int) -> Standing {
    if next < writes {
        Standing::Writing(next)
    } else {
        Standing::Verifying
    }
}

/// Where a change stands once every undo write before `next` was tried.
pub open spec fn undone(undo: int, next: int, cause: Seq<char>, errors: Seq<Seq<char>>) -> Standing {
    if next < undo {
        Standing::Undoing { next, cause, errors }
    } else {
        Standing::Finished(Err(rolled_back(cause, errors)))
    }
}

/// The errors so far, and one more if there is one.
pub open spec fn collected(errors: Seq<Seq<char>>, result: Result<(), Seq<char>>) -> Seq<
    Seq<char>,
> {
    match result {
        Ok(()) => errors,
        Err(e) => errors.push(e),
    }
}

/// How a change goes on after a write or an undo write.
pub open spec fn after_write(
    standing: Standing,
    writes: int,
    undo: int,
    result: Result<(), Seq<char>>,
) -> Standing {
    match standing {
        Standing::Writing(next) => match result {
            Ok(()) => written(writes, next + 1),
            Err(cause) => undone(undo, 0, cause, seq![]),
        },
        Standing::Undoing { next, cause, errors } => undone(
            undo,
            next + 1,
            cause,
            collected(errors, result),
        ),
        other => other,
    }
}

/// How a change goes on after the read-back.
pub open spec fn after_verification(
    standing: Standing,
    undo: int,
    result: Result<(), Seq<char>>,
) -> Standing {
    match standing {
        Standing::Verifying => match result {
            Ok(()) => Standing::Finished(Ok(())),
            Err(cause) => undone(undo, 0, cause, seq![]),
        },
        other => other,
    }
}

fn start_undo(undo: usize, cause: String) -> (r: Stage)
    ensures
        r.standing() == undone(undo as int, 0, cause@, seq![]),
        r is Undoing ==> r->next < undo,
        !(r is Writing),
{
    let errors: Vec<String> = Vec::new();
    assert(texts(errors@) == Seq::<Seq<char>>::empty());
    if undo > 0 {
        Stage::Undoing { next: 0, cause, errors }
    } else {
        Stage::Finished(Err(rollback_error(cause.as_str(), &errors)))
    }
}

impl Change {
    /// Whether the stage names a write that there is.
    pub open spec fn wf(self) -> bool {
        match self.stage {
            Stage::Writing(next) => next < self.writes@.len(),
            Stage::Undoing { next, .. } => next < self.undo@.len(),
            _ => true,
        }
    }

    /// A change that makes these writes, and can be undone by those.
    pub fn new(writes: Vec<CpuWrite>, undo: Vec<CpuWrite>) -> (r: Self)
        ensures
            r.wf(),
            r.writes == writes,
            r.undo == undo,
            r.stage.standing() == written(writes@.len() as int, 0),
    {
        let stage = if writes.len() > 0 {
            Stage::Writing(0)
        } else {
            Stage::Verifying
        };
        Change { writes, undo, stage }
    }

    /// What is to be done next.
    pub fn next(&self) -> (r: Next)
        ensures
            match self.stage.standing() {
                Standing::Writing(next) => r is Write && r->Write_0 == next,
                Standing::Verifying => r is Verify,
                Standing::Undoing { next, .. } => r is Undo && r->Undo_0 == next,
                Standing::Finished(_) => r is Done,
            },
    {
        match &self.stage {
            Stage::Writing(next) => Next::Write(*next),
            Stage::Verifying => Next::Verify,
            Stage::Undoing { next, .. } => Next::Undo(*next),
            Stage::Finished(_) => Next::Done,
        }
    }

    /// Takes note of how the write that was to be made went. Errors of undo writes are
    /// collected, so that one of them does not keep the others from being tried.
    pub fn wrote(self, result: Result<(), String>) -> (r: Self)
        requires
            self.wf(),
        ensures
            r.wf(),
            r.writes == self.writes,
            r.undo == self.undo,
            r.stage.standing() == after_write(
                self.stage.standing(),
                self.writes@.len() as int,
                self.undo@.len() as int,
                outcome(result),
            ),
    {
        let stage = match self.stage {
            Stage::Writing(next) => match result {
                Ok(()) => if self.writes.len() - next > 1 {
                    Stage::Writing(next + 1)
                } else {
                    Stage::Verifying
                },
                Err(cause) => start_undo(self.undo.len(), cause),
            },
            Stage::Undoing { next, cause, errors } => {
                let mut errors = errors;
                let ghost before = texts(errors@);
                match result {
                    Ok(()) => {},
                    Err(e) => {
                        errors.push(e);
                        assert(texts(errors@) == before.push(e@));
                    },
                }
                if self.undo.len() - next > 1 {
                    Stage::Undoing { next: next + 1, cause, errors }
                } else {
                    Stage::Finished(Err(rollback_error(cause.as_str(), &errors)))
                }
            },
            other => other,
        };
        Change { writes: self.writes, undo: self.undo, stage }
    }

    /// Takes note of what the read-back showed.
    pub fn verified(self, result: Result<(), String>) -> (r: Self)
        requires
            self.wf(),
        ensures
            r.wf(),
            r.writes == self.writes,
            r.undo == self.undo,
            r.stage.standing() == after_verification(
                self.stage.standing(),
                self.undo@.len() as int,
                outcome(result),
            ),
    {
        let stage = match self.stage {
            Stage::Verifying => match result {
                Ok(()) => Stage::Finished(Ok(())),
                Err(cause) => start_undo(self.undo.len(), cause),
            },
            other => other,
        };
        Change { writes: self.writes, undo: self.undo, stage }
    }
}

/// The change that a request makes: what it writes under this context, and what puts the
/// machine back to what was remembered of it.
pub fn cpu_profile_change(
    request: CpuProfileRequest,
    context: &CpuContext,
    snapshot: &CpuSnapshot,
) -> (r: Change)
    ensures
        r.wf(),
        writes_view(r.writes@) == profile_writes(request, *context),
        writes_view(r.undo@) == undo_writes(*context, *snapshot),
        r.stage.standing() == written(profile_writes(request, *context).len() as int, 0),
{
    let writes = cpu_profile_writes(request, context);
    let undo = rollback_cpu_profile(context, snapshot);
    assert(writes@.len() == writes_view(writes@).len());
    Change::new(writes, undo)
}

/// A standing after a run of writes with these results.
pub open spec fn after_writes(
    standing: Standing,
    writes: int,
    undo: int,
    results: Seq<Result<(), Seq<char>>>,
) -> Standing
    decreases results.len(),
{
    if results.len() == 0 {
        standing
    } else {
        after_write(
            after_writes(standing, writes, undo, results.drop_last()),
            writes,
            undo,
            results.last(),
        )
    }
}

/// The errors among the results.
pub open spec fn errors_of(results: Seq<Result<(), Seq<char>>>) -> Seq<Seq<char>>
    decreases results.len(),
{
    if results.len() == 0 {
        seq![]
    } else {
        collected(errors_of(results.drop_last()), results.last())
    }
}

proof fn lemma_undo_run(
    writes: int,
    undo: int,
    cause: Seq<char>,
    results: Seq<Result<(), Seq<char>>>,
)
    requires
        0 < undo,
        results.len() <= undo,
    ensures
        after_writes(undone(undo, 0, cause, seq![]), writes, undo, results) == undone(
            undo,
            results.len() as int,
            cause,
            errors_of(results),
        ),
    decreases results.len(),
{
    if results.len() > 0 {
        lemma_undo_run(writes, undo, cause, results.drop_last());
    }
}

/// A change that failed tries every undo write, whatever became of the ones before, and
/// ends in an error that names the cause and every undo write that failed.
pub proof fn law_every_undo_write_is_tried(
    writes: int,
    undo: int,
    cause: Seq<char>,
    results: Seq<Result<(), Seq<char>>>,
)
    requires
        0 < undo,
        results.len() == undo,
    ensures
        after_writes(undone(undo, 0, cause, seq![]), writes, undo, results)
            == Standing::Finished(Err(rolled_back(cause, errors_of(results)))),
        forall|k: int|
            0 <= k < undo ==> #[trigger] after_writes(
                undone(undo, 0, cause, seq![]),
                writes,
                undo,
                results.take(k),
            ) == (Standing::Undoing { next: k, cause, errors: errors_of(results.take(k)) }),
{
    lemma_undo_run(writes, undo, cause, results);
    assert forall|k: int| 0 <= k < undo implies #[trigger] after_writes(
        undone(undo, 0, cause, seq![]),
        writes,
        undo,
        results.take(k),
    ) == (Standing::Undoing { next: k, cause, errors: errors_of(results.take(k)) }) by {
        lemma_undo_run(writes, undo, cause, results.take(k));
    }
}

/// As long as every write succeeds, the writes are made in order, and the machine is read
/// back once all of them are made.
pub proof fn law_writes_are_made_in_order(
    writes: int,
    undo: int,
    results: Seq<Result<(), Seq<char>>>,
)
    requires
        results.len() <= writes,
        forall|i: int| 0 <= i < results.len() ==> (#[trigger] results[i]) is Ok,
    ensures
        after_writes(written(writes, 0), writes, undo, results) == written(
            writes,
            results.len() as int,
        ),
    decreases results.len(),
{
    if results.len() > 0 {
        let front = results.drop_last();
        assert forall|i: int| 0 <= i < front.len() implies (#[trigger] front[i]) is Ok by {
            assert(front[i] == results[i]);
        }
        law_writes_are_made_in_order(writes, undo, front);
        assert(results[results.len() - 1] is Ok);
    }
}

/// The first write that fails is the last one made: nothing is written after it but what
/// undoes the change.
pub proof fn law_first_failure_stops_the_writes(
    writes: int,
    undo: int,
    results: Seq<Result<(), Seq<char>>>,
    cause: Seq<char>,
)
    requires
        results.len() < writes,
        forall|i: int| 0 <= i < results.len() ==> (#[trigger] results[i]) is Ok,
    ensures
        after_writes(written(writes, 0), writes, undo, results.push(Err(cause))) == undone(
            undo,
            0,
            cause,
            seq![],
        ),
{
    law_writes_are_made_in_order(writes, undo, results);
    let all = results.push(Err(cause));
    assert(all.drop_last() == results);
}

/// A change ends well only where every write succeeded and the machine shows what was
/// asked for: no other step leads to success.
pub proof fn law_success_needs_the_read_back(
    standing: Standing,
    writes: int,
    undo: int,
    result: Result<(), Seq<char>>,
)
    requires
        !(standing matches Standing::Finished(Ok(()))),
    ensures
        !(after_write(standing, writes, undo, result) matches Standing::Finished(Ok(()))),
        after_verification(standing, undo, result) matches Standing::Finished(Ok(())) ==> standing
            == Standing::Verifying && result is Ok,
{
}

/// A change whose write or whose read-back fails puts the machine back: the undo writes are
/// all made, one after the other and whatever becomes of each, the change ends in an error,
/// and among those writes are the governor and the energy preference that every policy
/// showed before, and the turbo switch and the performance floor where the machine has them.
/// The preference of a policy under the performance governor is left to that governor where
/// the hardware manages the states.
pub proof fn law_failed_change_puts_the_machine_back(
    sysfs: Seq<char>,
    request: CpuProfileRequest,
    facts: CpuFacts,
    context: CpuContext,
    snapshot: CpuSnapshot,
    change: Change,
    results: Seq<Result<(), Seq<char>>>,
    cause: Seq<char>,
    undo_results: Seq<Result<(), Seq<char>>>,
)
    requires
        context_of(sysfs, facts, context),
        snapshot_of(context, facts, snapshot),
        writes_view(change.writes@) == profile_writes(request, context),
        writes_view(change.undo@) == undo_writes(context, snapshot),
        undo_results.len() == change.undo@.len(),
        results.len() < change.writes@.len(),
        forall|i: int| 0 <= i < results.len() ==> (#[trigger] results[i]) is Ok,
    ensures
        ({
            let writes = change.writes@.len() as int;
            let undo = change.undo@.len() as int;
            let failed = undone(undo, 0, cause, seq![]);
            &&& after_writes(written(writes, 0), writes, undo, results.push(Err(cause))) == failed
            &&& after_verification(Standing::Verifying, undo, Err(cause)) == failed
            &&& forall|k: int|
                0 <= k < undo ==> #[trigger] after_writes(
                    failed,
                    writes,
                    undo,
                    undo_results.take(k),
                ) == (Standing::Undoing { next: k, cause, errors: errors_of(undo_results.take(k)) })
            &&& after_writes(failed, writes, undo, undo_results) == Standing::Finished(
                Err(rolled_back(cause, errors_of(undo_results))),
            )
        }),
        forall|i: int|
            0 <= i < facts.policies@.len() ==> {
                let policy = #[trigger] facts.policies@[i];
                &&& kept_governor(policy) is Ok
                &&& kept_epp(policy) is Ok
                &&& writes_view(change.undo@).contains(
                    (Write {
                        label: "rollback-scaling-governor"@,
                        value: kept_governor(policy)->Ok_0,
                        path: joined_path(policy.path@, SCALING_GOVERNOR@),
                    }),
                )
                &&& kept_epp(policy)->Ok_0 is Some && !(hwp(facts) && kept_governor(policy)->Ok_0
                    == CpuGovernor::Performance.wire_name()) ==> writes_view(change.undo@).contains(
                    (Write {
                        label: "rollback-epp"@,
                        value: kept_epp(policy)->Ok_0->0,
                        path: joined_path(policy.path@, ENERGY_PREFERENCE@),
                    }),
                )
            },
        kept("no-turbo"@, context.no_turbo_path@, optional_reading(facts.no_turbo)) matches Ok(
            Some(value),
        ) ==> writes_view(change.undo@).contains(
            (Write { label: "rollback-no-turbo"@, value, path: context.no_turbo_path@ }),
        ),
        kept("min-perf"@, context.min_perf_path@, optional_reading(facts.min_perf)) matches Ok(
            Some(value),
        ) ==> writes_view(change.undo@).contains(
            (Write { label: "rollback-min-perf"@, value, path: context.min_perf_path@ }),
        ),
{
    let writes = change.writes@.len() as int;
    let undo = change.undo@.len() as int;
    law_first_failure_stops_the_writes(writes, undo, results, cause);
    if undo > 0 {
        law_every_undo_write_is_tried(writes, undo, cause, undo_results);
    } else {
        assert(errors_of(undo_results) =~= Seq::<Seq<char>>::empty());
    }
    assert forall|i: int| 0 <= i < facts.policies@.len() implies ({
        let policy = #[trigger] facts.policies@[i];
        &&& kept_governor(policy) is Ok
        &&& kept_epp(policy) is Ok
        &&& writes_view(change.undo@).contains(
            (Write {
                label: "rollback-scaling-governor"@,
                value: kept_governor(policy)->Ok_0,
                path: joined_path(policy.path@, SCALING_GOVERNOR@),
            }),
        )
        &&& kept_epp(policy)->Ok_0 is Some && !(hwp(facts) && kept_governor(policy)->Ok_0
            == CpuGovernor::Performance.wire_name()) ==> writes_view(change.undo@).contains(
            (Write {
                label: "rollback-epp"@,
                value: kept_epp(policy)->Ok_0->0,
                path: joined_path(policy.path@, ENERGY_PREFERENCE@),
            }),
        )
    }) by {
        law_undo_restores_every_policy(context, snapshot, i);
    }
    law_undo_restores_the_switches(context, snapshot);
}

/// The turbo switch is set the way it was asked for: `1` switches turbo off and `0` leaves it
/// on, nothing else is written to it, and the change is accepted only where the attribute
/// shows that very digit.
pub proof fn law_turbo_is_switched_as_asked(
    request: CpuProfileRequest,
    context: CpuContext,
    machine: ReadBack,
    no_turbo: bool,
)
    requires
        request.no_turbo == Some(no_turbo),
    ensures
        ({
            let writes = profile_writes(request, context);
            let digit = if no_turbo {
                "1"@
            } else {
                "0"@
            };
            &&& exists|i: int|
                0 <= i < writes.len() && (#[trigger] writes[i]).path == context.no_turbo_path@
                    && writes[i].value == digit
            &&& forall|i: int|
                0 <= i < writes.len() && (#[trigger] writes[i]).label == "no-turbo"@
                    ==> writes[i].path == context.no_turbo_path@ && writes[i].value == digit
            &&& verification(request, context, machine) is Ok ==> machine.no_turbo is Ok && trimmed(
                machine.no_turbo->Ok_0@,
            ) == digit
        }),
{
    lemma_write_labels();
    let writes = profile_writes(request, context);
    let before = writes.len() - pstate_writes(request, context).len();
    assert(writes[before].path == context.no_turbo_path@);
}

proof fn lemma_write_labels()
    ensures
        "epp"@ != "no-turbo"@,
        "epp"@ != "min-perf"@,
        "epp"@ != "scaling-governor"@,
        "scaling-governor"@ != "no-turbo"@,
        "scaling-governor"@ != "min-perf"@,
        "no-turbo"@ != "min-perf"@,
{
    reveal_strlit("epp");
    reveal_strlit("no-turbo");
    reveal_strlit("min-perf");
    reveal_strlit("scaling-governor");
    assert("epp"@.len() == 3 && "no-turbo"@.len() == 8 && "min-perf"@.len() == 8);
    assert("no-turbo"@[0] == 'n' && "min-perf"@[0] == 'm');
    assert("scaling-governor"@.len() == 16);
}

/// What a request leaves out is left alone: nothing is written for it.
pub proof fn law_what_is_not_asked_is_not_written(
    request: CpuProfileRequest,
    context: CpuContext,
    i: int,
)
    requires
        0 <= i < profile_writes(request, context).len(),
    ensures
        request.no_turbo is None ==> profile_writes(request, context)[i].label != "no-turbo"@,
        request.min_perf_pct is None ==> profile_writes(request, context)[i].label != "min-perf"@,
        request.epp is None ==> profile_writes(request, context)[i].label != "epp"@,
{
    lemma_write_labels();
}

/// The performance floor that is written reads as the percentage that was asked for. It is
/// accepted where the attribute shows that percentage, or a higher one within two points of
/// the floor that the frequency limits stand for; the higher one is then given back.
pub proof fn law_floor_is_set_as_asked(
    request: CpuProfileRequest,
    context: CpuContext,
    machine: ReadBack,
    percent: u16,
)
    requires
        request.min_perf_pct == Some(percent),
    ensures
        ({
            let writes = profile_writes(request, context);
            &&& exists|i: int|
                0 <= i < writes.len() && (#[trigger] writes[i]).path == context.min_perf_path@
                    && decimal_value(writes[i].value, 0xffff) == Some(percent as nat)
            &&& verification(request, context, machine) matches Ok(clamped) ==> {
                &&& machine.min_perf is Ok
                &&& decimal_value(trimmed(machine.min_perf->Ok_0@), 0xffff) matches Some(shown) && {
                    ||| shown == percent && clamped is None
                    ||| shown > percent && clamped == Some(shown as u16)
                        && context.min_perf_floor_pct is Some && shown
                        <= context.min_perf_floor_pct->0 + 2 && context.min_perf_floor_pct->0
                        <= shown + 2
                }
            }
        }),
{
    law_decimal_round_trip(percent as nat, 0xffff);
    let writes = profile_writes(request, context);
    assert(writes.last().path == context.min_perf_path@);
    assert(writes[writes.len() - 1] == writes.last());
}

/// Every policy gets the governor that was asked for, in its own `scaling_governor`; and it
/// gets the energy preference, if one was asked for and the kernel does not hold it at zero
/// itself. The preference comes before the governor on the way to the performance governor,
/// and behind it on the way to another.
pub proof fn law_every_policy_is_set_as_asked(
    request: CpuProfileRequest,
    context: CpuContext,
    k: int,
)
    requires
        0 <= k < context.policies@.len(),
    ensures
        ({
            let writes = profile_writes(request, context);
            let n = context.policies@.len() as int;
            let policy = context.policies@[k]@;
            let held = request.governor == CpuGovernor::Performance && request.epp == Some(
                EnergyPreference::RawPerformance,
            ) && context.hwp_active;
            let with_epp = request.epp is Some && !held;
            let governor_at = if with_epp && request.governor == CpuGovernor::Performance {
                n + k
            } else {
                k
            };
            let epp_at = if request.governor == CpuGovernor::Performance {
                k
            } else {
                n + k
            };
            &&& 0 <= governor_at < writes.len()
            &&& writes[governor_at].path == joined_path(policy, "scaling_governor"@)
            &&& writes[governor_at].value == request.governor.wire_name()
            &&& with_epp ==> {
                &&& 0 <= epp_at < writes.len()
                &&& writes[epp_at].path == joined_path(policy, "energy_performance_preference"@)
                &&& writes[epp_at].value == request.epp->0.wire_name()
            }
            &&& held ==> forall|i: int|
                0 <= i < writes.len() ==> (#[trigger] writes[i]).label != "epp"@
        }),
{
    lemma_write_labels();
    assert(texts(context.policies@)[k] == context.policies@[k]@);
    assert(texts(context.policies@).len() == context.policies@.len());
}

/// A change is accepted only where every policy of the context shows the governor that was
/// asked for, and the preference unless the kernel holds it at zero itself.
pub proof fn law_accepted_change_shows_on_every_policy(
    request: CpuProfileRequest,
    context: CpuContext,
    machine: ReadBack,
    k: int,
)
    requires
        verification(request, context, machine) is Ok,
        0 <= k < context.policies@.len(),
    ensures
        k < machine.policies@.len(),
        machine.policies@[k].path@ == context.policies@[k]@,
        machine.policies@[k].governor is Ok,
        trimmed(machine.policies@[k].governor->Ok_0@) == request.governor.wire_name(),
        request.epp is Some && !(request.governor == CpuGovernor::Performance && request.epp
            == Some(EnergyPreference::RawPerformance) && context.hwp_active) ==> {
            &&& machine.policies@[k].epp is Ok
            &&& trimmed(machine.policies@[k].epp->Ok_0@) == request.epp->0.wire_name()
        },
{
    lemma_paths_agree(context, machine);
    lemma_every_policy_shows(request, context.hwp_active, machine.policies@, k);
}

proof fn lemma_every_policy_shows(
    request: CpuProfileRequest,
    hwp_active: bool,
    policies: Seq<PolicyReadBack>,
    k: int,
)
    requires
        policies_show(request, hwp_active, policies) is Ok,
        0 <= k < policies.len(),
    ensures
        policy_shows(request, hwp_active, policies[k]) is Ok,
    decreases policies.len(),
{
    if k < policies.len() - 1 {
        lemma_every_policy_shows(request, hwp_active, policies.drop_last(), k);
        assert(policies.drop_last()[k] == policies[k]);
    }
}

/// A machine that shows everything as it was asked for is accepted.
pub proof fn law_a_change_that_took_is_accepted(
    request: CpuProfileRequest,
    context: CpuContext,
    machine: ReadBack,
)
    requires
        machine.policies@.len() == context.policies@.len(),
        forall|k: int|
            0 <= k < context.policies@.len() ==> {
                let seen = #[trigger] machine.policies@[k];
                &&& seen.path@ == context.policies@[k]@
                &&& seen.governor is Ok && trimmed(seen.governor->Ok_0@)
                    == request.governor.wire_name()
                &&& request.epp is Some ==> seen.epp is Ok && trimmed(seen.epp->Ok_0@)
                    == request.epp->0.wire_name()
            },
        request.no_turbo is Some ==> machine.no_turbo is Ok && trimmed(machine.no_turbo->Ok_0@)
            == (if request.no_turbo->0 {
            "1"@
        } else {
            "0"@
        }),
        request.min_perf_pct is Some ==> machine.min_perf is Ok && decimal_value(
            trimmed(machine.min_perf->Ok_0@),
            0xffff,
        ) == Some(request.min_perf_pct->0 as nat),
    ensures
        verification(request, context, machine) is Ok,
{
    let paths = read_back_paths(machine.policies@);
    let wanted = texts(context.policies@);
    assert(paths.len() == wanted.len());
    assert forall|i: int| 0 <= i < paths.len() implies paths[i] == wanted[i] by {
        assert(machine.policies@[i].path@ == context.policies@[i]@);
    }
    assert(paths =~= wanted);
    lemma_all_policies_show(request, context.hwp_active, machine.policies@);
}

proof fn lemma_all_policies_show(
    request: CpuProfileRequest,
    hwp_active: bool,
    policies: Seq<PolicyReadBack>,
)
    requires
        forall|k: int|
            0 <= k < policies.len() ==> {
                let seen = #[trigger] policies[k];
                &&& seen.governor is Ok && trimmed(seen.governor->Ok_0@)
                    == request.governor.wire_name()
                &&& request.epp is Some ==> seen.epp is Ok && trimmed(seen.epp->Ok_0@)
                    == request.epp->0.wire_name()
            },
    ensures
        policies_show(request, hwp_active, policies) is Ok,
    decreases policies.len(),
{
    if policies.len() > 0 {
        let front = policies.drop_last();
        assert forall|k: int| 0 <= k < front.len() implies ({
            let seen = #[trigger] front[k];
            &&& seen.governor is Ok && trimmed(seen.governor->Ok_0@)
                == request.governor.wire_name()
            &&& request.epp is Some ==> seen.epp is Ok && trimmed(seen.epp->Ok_0@)
                == request.epp->0.wire_name()
        }) by {
            assert(front[k] == policies[k]);
        }
        lemma_all_policies_show(request, hwp_active, front);
        assert(policies[policies.len() - 1] == policies.last());
    }
}

/// A floor that the kernel raised to its own is one that lies above what was asked for and no
/// more than two percent from the estimate, on either side.
pub proof fn law_raised_floor_is_near_the_estimate(asked: u16, actual: u16, estimate: u16)
    ensures
        clamped_by_kernel(asked, actual, Some(estimate)) <==> asked < actual && estimate - 2
            <= actual <= estimate + 2,
        !clamped_by_kernel(asked, actual, None),
{
}

/// A floor that shows what was asked for took, one that the kernel raised is given back, and
/// any other is an error.
pub proof fn law_floor_shows_what_became_of_it(
    asked: u16,
    actual: u16,
    floor: Option<u16>,
    path: Seq<char>,
)
    ensures
        ({
            let shown = floor_shows(asked, floor, path, Ok(decimal_text(actual as nat).push('\n')));
            &&& actual == asked ==> shown == Ok::<Option<u16>, Seq<char>>(None)
            &&& actual != asked && clamped_by_kernel(asked, actual, floor) ==> shown == Ok::<
                Option<u16>,
                Seq<char>,
            >(Some(actual))
            &&& actual != asked && !clamped_by_kernel(asked, actual, floor) ==> shown is Err
        }),
{
    let digits = decimal_text(actual as nat);
    crate::number::lemma_decimal_text(actual as nat);
    crate::number::lemma_digits_not_space(digits, 10);
    crate::number::law_decimal_round_trip(actual as nat, 0xffff);
    crate::text::lemma_trimmed_line(digits);
}

} // verus!
