//! External commands: what is run, and what their output means.

use vstd::prelude::*;

use crate::number::{decimal, decimal_text};
use crate::privileged::messages::{fail, failure};
use crate::text::{
    cat3, contains, lowered, occurs, outcome, texts, to_ascii_lowercase, trim, trimmed,
};

verus! {

/// What a command that ran comes to. Some tools end well and only say on their output that
/// a change is not supported, which is a failure here.
pub open spec fn command_outcome(
    name: Seq<char>,
    success: bool,
    stdout: Seq<char>,
    stderr: Seq<char>,
) -> Result<(), Seq<char>> {
    if !success {
        Err(failure(name + " failed: "@ + trimmed(stderr)))
    } else if occurs(lowered(stdout), "not supported"@) {
        Err(failure(name + ": "@ + trimmed(stdout)))
    } else {
        Ok(())
    }
}

/// What a command that ran comes to.
pub fn command_result(name: &str, success: bool, stdout: &str, stderr: &str) -> (r: Result<
    (),
    String,
>)
    ensures
        outcome(r) == command_outcome(name@, success, stdout@, stderr@),
{
    if !success {
        Err(fail(cat3(name, " failed: ", trim(stderr).as_str()).as_str()))
    } else if contains(to_ascii_lowercase(stdout).as_str(), "not supported") {
        Err(fail(cat3(name, ": ", trim(stdout).as_str()).as_str()))
    } else {
        Ok(())
    }
}

/// The arguments that switch the GPU's persistence mode on.
pub fn persistence_args() -> (r: Vec<String>)
    ensures
        texts(r@) == seq!["-pm"@, "1"@],
        r@.len() == 2 && r@[0]@ == "-pm"@ && r@[1]@ == "1"@,
{
    let mut out: Vec<String> = Vec::new();
    out.push("-pm".to_owned());
    out.push("1".to_owned());
    assert(texts(out@) == seq!["-pm"@, "1"@]);
    assert(out@[0]@ == "-pm"@ && out@[1]@ == "1"@);
    out
}

/// The arguments that set the GPU's power limit.
pub fn power_limit_args(watts: u16) -> (r: Vec<String>)
    ensures
        texts(r@) == seq!["-pl"@, decimal_text(watts as nat)],
        r@.len() == 2 && r@[0]@ == "-pl"@,
        crate::number::decimal_value(r@[1]@, 0xffff) == Some(watts as nat),
{
    proof {
        crate::number::law_decimal_round_trip(watts as nat, 0xffff);
    }
    let mut out: Vec<String> = Vec::new();
    out.push("-pl".to_owned());
    out.push(decimal(watts as u64));
    assert(texts(out@) == seq!["-pl"@, decimal_text(watts as nat)]);
    out
}

/// What setting the GPU's power limit comes to. A machine may not support persistence mode;
/// only the limit itself counts.
pub fn set_gpu_power_limit(persistence: Result<(), String>, limit: Result<(), String>) -> (r:
    Result<(), String>)
    ensures
        r == limit,
        limit is Ok ==> r is Ok,
        limit is Err ==> r is Err,
{
    limit
}

/// A command whose output says that the change is not supported failed, in whatever case it
/// says so and whatever stands around it, and so did one that ended badly.
pub proof fn law_refusals_are_failures(
    name: Seq<char>,
    before: Seq<char>,
    refusal: Seq<char>,
    after: Seq<char>,
    stderr: Seq<char>,
)
    requires
        lowered(refusal) == "not supported"@,
    ensures
        command_outcome(name, true, before + refusal + after, stderr) is Err,
        command_outcome(name, false, before, stderr) == Err::<(), Seq<char>>(
            failure(name + " failed: "@ + trimmed(stderr)),
        ),
{
    let whole = lowered(before + refusal + after);
    let at = before.len() as int;
    assert(whole.subrange(at, at + refusal.len()) =~= lowered(refusal));
    assert(crate::text::stands_at(whole, "not supported"@, at));
}

/// A command that ended well without saying so succeeded.
pub proof fn law_quiet_success_is_success(name: Seq<char>, stdout: Seq<char>, stderr: Seq<char>)
    requires
        forall|at: int| !crate::text::stands_at(lowered(stdout), "not supported"@, at),
    ensures
        command_outcome(name, true, stdout, stderr) is Ok,
{
}

} // verus!
