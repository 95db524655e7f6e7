//! The lock that keeps two changes of the CPU profile apart.

use vstd::prelude::*;

use crate::paths::{join_path, joined_path};
use crate::privileged::constants::{is_real_sysfs, is_the_machine};
use crate::privileged::messages::{fail, failure};
use crate::text::{cat4, outcome};

verus! {

/// The lock file of the machine itself.
pub const CPU_PROFILE_LOCK: &'static str = "/run/lock/predator-sense-cpu-profile.lock";

/// The lock file under any other sysfs.
pub const CPU_PROFILE_FIXTURE_LOCK: &'static str = "predator-sense-cpu-profile.lock";

/// How long to wait for another change, in milliseconds.
pub const CPU_PROFILE_LOCK_TIMEOUT_MS: u64 = 10_000;

/// How long to wait between two attempts, in milliseconds.
pub const CPU_PROFILE_LOCK_RETRY_MS: u64 = 50;

/// The lock file of a sysfs.
pub open spec fn lock_file(sysfs: Seq<char>) -> Seq<char> {
    if is_the_machine(sysfs) {
        CPU_PROFILE_LOCK@
    } else {
        joined_path(sysfs, CPU_PROFILE_FIXTURE_LOCK@)
    }
}

/// The lock file of a sysfs.
pub fn lock_path(sysfs: &str) -> (r: String)
    ensures
        r@ == lock_file(sysfs@),
{
    if is_real_sysfs(sysfs) {
        CPU_PROFILE_LOCK.to_owned()
    } else {
        join_path(sysfs, CPU_PROFILE_FIXTURE_LOCK)
    }
}

/// The error where the lock file cannot be opened.
pub fn lock_open_failed(path: &str, error: &str) -> (r: String)
    ensures
        r@ == failure("cannot open CPU profile lock "@ + path@ + ": "@ + error@),
{
    fail(cat4("cannot open CPU profile lock ", path, ": ", error).as_str())
}

/// How an attempt to take the lock ended.
#[derive(Debug)]
pub enum LockAttempt {
    Taken,
    /// Another change holds it.
    Busy,
    Failed(String),
}

/// What follows from an attempt: the lock is held, or the attempt is made again, or the
/// change is given up.
pub open spec fn after_attempt(path: Seq<char>, attempt: LockAttempt, waited_ms: u64) -> Result<
    bool,
    Seq<char>,
> {
    match attempt {
        LockAttempt::Taken => Ok(true),
        LockAttempt::Failed(error) => Err(
            failure("cannot lock CPU profile changes using "@ + path + ": "@ + error@),
        ),
        LockAttempt::Busy => if waited_ms >= CPU_PROFILE_LOCK_TIMEOUT_MS {
            Err(failure("timed out waiting for another CPU profile change"@))
        } else {
            Ok(false)
        },
    }
}

/// What follows from an attempt to take the lock, `waited_ms` after the first: `Ok(true)`
/// where it is held, `Ok(false)` where the attempt is made again after
/// [`CPU_PROFILE_LOCK_RETRY_MS`].
pub fn acquire(path: &str, attempt: &LockAttempt, waited_ms: u64) -> (r: Result<bool, String>)
    ensures
        outcome(r) == after_attempt(path@, *attempt, waited_ms),
{
    match attempt {
        LockAttempt::Taken => Ok(true),
        LockAttempt::Failed(error) => Err(
            fail(
                cat4(
                    "cannot lock CPU profile changes using ",
                    path,
                    ": ",
                    error.as_str(),
                ).as_str(),
            ),
        ),
        LockAttempt::Busy => if waited_ms >= CPU_PROFILE_LOCK_TIMEOUT_MS {
            Err(fail("timed out waiting for another CPU profile change"))
        } else {
            Ok(false)
        },
    }
}

/// Waiting ends: once the time is up, an attempt takes the lock or gives up.
pub proof fn law_waiting_ends(path: Seq<char>, attempt: LockAttempt, waited_ms: u64)
    requires
        waited_ms >= CPU_PROFILE_LOCK_TIMEOUT_MS,
    ensures
        after_attempt(path, attempt, waited_ms) != Ok::<bool, Seq<char>>(false),
{
}

/// A lock that is taken is held, however long it took; one that another change holds is tried
/// again for ten seconds; and one that cannot be taken at all is an error at once.
pub proof fn law_lock_is_tried_for_ten_seconds(path: Seq<char>, error: String, waited_ms: u64)
    ensures
        after_attempt(path, LockAttempt::Taken, waited_ms) == Ok::<bool, Seq<char>>(true),
        after_attempt(path, LockAttempt::Busy, waited_ms) == Ok::<bool, Seq<char>>(false)
            <==> waited_ms < 10 * 1000,
        after_attempt(path, LockAttempt::Failed(error), waited_ms) is Err,
        CPU_PROFILE_LOCK_RETRY_MS == 50,
{
}

/// The machine itself is locked under `/run/lock`, and any other tree within itself.
pub proof fn law_lock_lies_with_its_tree(sysfs: Seq<char>)
    ensures
        is_the_machine(sysfs) ==> lock_file(sysfs)
            == "/run/lock/predator-sense-cpu-profile.lock"@,
        !is_the_machine(sysfs) ==> lock_file(sysfs) == joined_path(
            sysfs,
            "predator-sense-cpu-profile.lock"@,
        ),
{
}

} // verus!
