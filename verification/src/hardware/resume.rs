//! Noticing that the machine came back from suspend.
//!
//! One clock counts the time spent suspended and another does not. The gap between them only
//! grows, by the time the machine was asleep, so that sampling it tells of every suspend.

use vstd::prelude::*;

verus! {

/// How much the gap has to grow, in milliseconds, to count as a suspend and not as noise.
pub const RESUME_THRESHOLD_MS: u64 = 500;

/// A reading of a clock.
#[derive(Debug, Clone, Copy, PartialEq, Eq, Structural)]
pub struct ClockReading {
    pub secs: i64,
    pub nanos: i64,
}

/// A reading in nanoseconds.
pub open spec fn nanos_of(at: ClockReading) -> int {
    at.secs * 1_000_000_000 + at.nanos
}

/// The time spent suspended, in whole milliseconds: the first clock counts it and the second
/// does not. Zero where the clocks disagree the other way round,
/// and no more than fits.
pub open spec fn offset_of(boottime: ClockReading, monotonic: ClockReading) -> int {
    let gap = nanos_of(boottime) - nanos_of(monotonic);
    if gap <= 0 {
        0
    } else if gap / 1_000_000 > u64::MAX {
        u64::MAX as int
    } else {
        gap / 1_000_000
    }
}

/// The time the machine has spent suspended since it was booted, in milliseconds; `None`
/// where a clock could not be read.
pub fn suspend_offset(boottime: Option<ClockReading>, monotonic: Option<ClockReading>) -> (r: Option<
    u64,
>)
    ensures
        r is Some == (boottime is Some && monotonic is Some),
        r is Some ==> r->0 == offset_of(boottime->0, monotonic->0),
{
    let b = match boottime {
        None => {
            return None;
        },
        Some(b) => b,
    };
    let m = match monotonic {
        None => {
            return None;
        },
        Some(m) => m,
    };
    let there: i128 = b.secs as i128 * 1_000_000_000 + b.nanos as i128;
    let here: i128 = m.secs as i128 * 1_000_000_000 + m.nanos as i128;
    let gap: i128 = there - here;
    if gap <= 0 {
        return Some(0);
    }
    let ms: i128 = gap / 1_000_000;
    if ms > u64::MAX as i128 {
        return Some(u64::MAX);
    }
    Some(ms as u64)
}

/// What was last sampled; `None` before the first sample.
#[derive(Debug, Clone, Copy, PartialEq, Eq, Structural)]
pub struct ResumeWatch {
    pub last_offset_ms: Option<u64>,
}

impl Default for ResumeWatch {
    fn default() -> (r: Self)
        ensures
            r.last_offset_ms is None,
    {
        ResumeWatch { last_offset_ms: None }
    }
}

/// Whether a sample shows that the machine was suspended since the one before.
pub open spec fn shows_resume(watch: ResumeWatch, current_ms: u64) -> bool {
    watch.last_offset_ms is Some && current_ms > watch.last_offset_ms->0 + RESUME_THRESHOLD_MS
}

/// Takes a sample: true exactly once per resume. The first sample is only a baseline, so that
/// a suspend from before the application ran does not count.
pub fn resumed_at(watch: &mut ResumeWatch, current_ms: u64) -> (r: bool)
    ensures
        r == shows_resume(*old(watch), current_ms),
        final(watch).last_offset_ms == Some(current_ms),
{
    let previous = watch.last_offset_ms;
    watch.last_offset_ms = Some(current_ms);
    match previous {
        None => false,
        Some(before) => current_ms > before && current_ms - before > RESUME_THRESHOLD_MS,
    }
}

/// Takes a sample from the two clocks: true exactly once per resume. Where a clock cannot be
/// read there is no sample.
pub fn resumed(
    watch: &mut ResumeWatch,
    boottime: Option<ClockReading>,
    monotonic: Option<ClockReading>,
) -> (r: bool)
    ensures
        match (boottime, monotonic) {
            (Some(b), Some(m)) => {
                &&& r == shows_resume(*old(watch), offset_of(b, m) as u64)
                &&& final(watch).last_offset_ms == Some(offset_of(b, m) as u64)
            },
            _ => !r && *final(watch) == *old(watch),
        },
{
    match suspend_offset(boottime, monotonic) {
        None => false,
        Some(current_ms) => resumed_at(watch, current_ms),
    }
}

/// A resume is reported once: the same gap, sampled again, is none, and neither is the first
/// sample of all.
pub proof fn law_resume_is_reported_once(current_ms: u64)
    ensures
        !shows_resume(ResumeWatch { last_offset_ms: Some(current_ms) }, current_ms),
        !shows_resume(ResumeWatch { last_offset_ms: None }, current_ms),
{
}

/// Every suspend longer than the threshold is reported by the next sample.
pub proof fn law_every_suspend_is_reported(before_ms: u64, asleep_ms: int)
    requires
        asleep_ms > RESUME_THRESHOLD_MS,
        before_ms + asleep_ms <= u64::MAX,
    ensures
        shows_resume(
            ResumeWatch { last_offset_ms: Some(before_ms) },
            (before_ms + asleep_ms) as u64,
        ),
{
}

/// The time asleep is the gap between the two clocks in whole milliseconds, rounded down; none
/// where the clock that counts it is behind.
pub proof fn law_time_asleep_is_the_gap(boottime: ClockReading, monotonic: ClockReading)
    ensures
        ({
            let there = boottime.secs * 1_000_000_000 + boottime.nanos;
            let here = monotonic.secs * 1_000_000_000 + monotonic.nanos;
            let ms = offset_of(boottime, monotonic);
            &&& there <= here ==> ms == 0
            &&& there > here && ms < u64::MAX ==> ms * 1_000_000 <= there - here < (ms + 1)
                * 1_000_000
        }),
{
}

/// A resume is a gap that grew by more than half a second since the sample before, and nothing
/// else is one.
pub proof fn law_resume_is_a_gap_that_grew(before_ms: u64, current_ms: u64)
    ensures
        shows_resume(ResumeWatch { last_offset_ms: Some(before_ms) }, current_ms) <==> current_ms
            - before_ms > 500,
{
}

} // verus!
