//! How long the machine has been without keyboard or mouse input.
//!
//! Input is read straight from the kernel's event nodes. Key presses, buttons and pointer
//! motion have clocks of their own: motion counts only where the settings say so, and the
//! keyboard's own controller sees nothing but its keys.

use vstd::prelude::*;

use crate::text::{stands_at, starts_with};

verus! {

/// Size of one input event: two 8-byte time fields, then type, code and value.
pub const INPUT_EVENT_SIZE: usize = 24;

pub const INPUT_EVENT_TYPE_OFFSET: usize = 16;

pub const INPUT_EVENT_CODE_OFFSET: usize = 18;

pub const EV_KEY: u16 = 0x01;

pub const EV_REL: u16 = 0x02;

pub const EV_ABS: u16 = 0x03;

/// The first button code. What lies below it is a key; from it on, a mouse button, a finger
/// on the touchpad, or a tablet tool.
pub const BTN_MISC: u16 = 0x100;

/// How many rounds of the watcher pass between two scans for devices.
pub const RESCAN_ROUNDS: u32 = 60;

/// What one input event counts as.
#[derive(Debug, Clone, Copy, PartialEq, Eq, Structural)]
pub enum Activity {
    /// A press on a keyboard matrix: all that the keyboard's own controller sees.
    Key,
    /// A mouse button or a finger on the touchpad. Deliberate, so it always counts.
    Button,
    /// Cursor motion.
    Pointer,
}

/// What an event of this type and code counts as.
pub open spec fn activity_of(kind: u16, code: u16) -> Option<Activity> {
    if kind == EV_KEY {
        if code >= BTN_MISC {
            Some(Activity::Button)
        } else {
            Some(Activity::Key)
        }
    } else if kind == EV_REL || kind == EV_ABS {
        Some(Activity::Pointer)
    } else {
        None
    }
}

/// What an event of this type and code counts as. The events that only close a report or
/// carry scan codes count as nothing.
pub fn classify(kind: u16, code: u16) -> (r: Option<Activity>)
    ensures
        r == activity_of(kind, code),
{
    if kind == EV_KEY {
        if code >= BTN_MISC {
            Some(Activity::Button)
        } else {
            Some(Activity::Key)
        }
    } else if kind == EV_REL || kind == EV_ABS {
        Some(Activity::Pointer)
    } else {
        None
    }
}

/// When input of each sort was last seen, in seconds of a clock that never goes back.
#[derive(Debug, Clone, Copy, PartialEq, Eq, Structural)]
pub struct IdleClock {
    pub watching: bool,
    pub last_key: u64,
    pub last_button: u64,
    pub last_pointer: u64,
}

impl Default for IdleClock {
    fn default() -> (r: Self)
        ensures
            r == (IdleClock { watching: false, last_key: 0, last_button: 0, last_pointer: 0 }),
    {
        IdleClock { watching: false, last_key: 0, last_button: 0, last_pointer: 0 }
    }
}

/// The later of two times.
pub open spec fn later(a: u64, b: u64) -> u64 {
    if a >= b {
        a
    } else {
        b
    }
}

/// When the machine was last active.
pub open spec fn last_activity(clock: IdleClock, pointer_counts: bool) -> u64 {
    let deliberate = later(clock.last_key, clock.last_button);
    if pointer_counts {
        later(deliberate, clock.last_pointer)
    } else {
        deliberate
    }
}

/// Seconds since the last input, or `None` while no input device is watched.
/// `pointer_counts` decides whether cursor motion counts; keys and buttons always do.
pub fn idle_seconds(clock: &IdleClock, pointer_counts: bool, now: u64) -> (r: Option<u64>)
    ensures
        r is Some == clock.watching,
        r is Some ==> r->0 == (if now >= last_activity(*clock, pointer_counts) {
            now - last_activity(*clock, pointer_counts)
        } else {
            0
        }),
        r is Some && clock.last_key <= now && clock.last_button <= now && clock.last_pointer <= now
            ==> {
            &&& r->0 <= now - clock.last_key
            &&& r->0 <= now - clock.last_button
            &&& pointer_counts ==> r->0 <= now - clock.last_pointer
            &&& r->0 == now - clock.last_key || r->0 == now - clock.last_button || (pointer_counts
                && r->0 == now - clock.last_pointer)
        },
{
    if !clock.watching {
        return None;
    }
    let mut last: u64 = clock.last_key;
    if clock.last_button > last {
        last = clock.last_button;
    }
    if pointer_counts && clock.last_pointer > last {
        last = clock.last_pointer;
    }
    Some(
        if now >= last {
            now - last
        } else {
            0
        },
    )
}

/// Marks the machine as active now, so that lighting that was just applied is not blanked by
/// a stale reading.
pub fn mark_active(clock: &mut IdleClock, now: u64)
    ensures
        *final(clock) == (IdleClock {
            last_key: now,
            last_button: now,
            last_pointer: now,
            ..*old(clock)
        }),
{
    clock.last_key = now;
    clock.last_button = now;
    clock.last_pointer = now;
}

/// Starts watching, and says whether a watcher is to be started: there is one per process.
pub fn start(clock: &mut IdleClock, now: u64) -> (r: bool)
    ensures
        r == !old(clock).watching,
        final(clock).watching,
        old(clock).watching ==> !r && *final(clock) == *old(clock),
        !old(clock).watching ==> r && final(clock).last_key == now && final(clock).last_button
            == now && final(clock).last_pointer == now,
        *final(clock) == (if r {
            IdleClock { watching: true, last_key: now, last_button: now, last_pointer: now }
        } else {
            *old(clock)
        }),
{
    if clock.watching {
        return false;
    }
    clock.watching = true;
    mark_active(clock, now);
    true
}

/// Gives up watching: no input device could be opened.
pub fn stop(clock: &mut IdleClock)
    ensures
        *final(clock) == (IdleClock { watching: false, ..*old(clock) }),
        !final(clock).watching,
{
    clock.watching = false;
}

/// Whether a name under the input directory is that of an event node.
pub fn is_event_node(name: &str) -> (r: bool)
    ensures
        r == stands_at(name@, "event"@, 0),
{
    starts_with(name, "event")
}

/// Counts a round of the watcher down, and says whether it is time to scan for devices.
pub fn rescan_due(countdown: &mut u32) -> (r: bool)
    ensures
        r == (*old(countdown) <= 1),
        *old(countdown) > 1 ==> !r && *final(countdown) == *old(countdown) - 1,
        *old(countdown) <= 1 ==> r && *final(countdown) == 60,
        *final(countdown) == (if r {
            RESCAN_ROUNDS as int
        } else {
            *old(countdown) - 1
        }),
{
    if *countdown <= 1 {
        *countdown = RESCAN_ROUNDS;
        true
    } else {
        *countdown = *countdown - 1;
        false
    }
}

/// The 16-bit number in two bytes.
pub open spec fn word_of(first: u8, second: u8, big_endian: bool) -> u16 {
    if big_endian {
        (first * 256 + second) as u16
    } else {
        (second * 256 + first) as u16
    }
}

/// What the `i`-th record of a read counts as.
pub open spec fn record_activity(bytes: Seq<u8>, i: int, big_endian: bool) -> Option<Activity> {
    let at = 24 * i;
    activity_of(
        word_of(bytes[at + 16], bytes[at + 17], big_endian),
        word_of(bytes[at + 18], bytes[at + 19], big_endian),
    )
}

/// Whether one of the first `n` records of a read counts as `activity`.
pub open spec fn holds_activity(
    bytes: Seq<u8>,
    n: int,
    big_endian: bool,
    activity: Activity,
) -> bool {
    exists|i: int|
        0 <= i < n && #[trigger] record_activity(bytes, i, big_endian) == Some(activity)
}

/// A clock after a read: each sort of input that the read holds was seen now.
pub open spec fn clock_after(
    clock: IdleClock,
    bytes: Seq<u8>,
    n: int,
    big_endian: bool,
    now: u64,
) -> IdleClock {
    IdleClock {
        watching: clock.watching,
        last_key: if holds_activity(bytes, n, big_endian, Activity::Key) {
            now
        } else {
            clock.last_key
        },
        last_button: if holds_activity(bytes, n, big_endian, Activity::Button) {
            now
        } else {
            clock.last_button
        },
        last_pointer: if holds_activity(bytes, n, big_endian, Activity::Pointer) {
            now
        } else {
            clock.last_pointer
        },
    }
}

fn word(first: u8, second: u8, big_endian: bool) -> (r: u16)
    ensures
        r == word_of(first, second, big_endian),
{
    if big_endian {
        first as u16 * 256 + second as u16
    } else {
        second as u16 * 256 + first as u16
    }
}

/// Takes note of the whole records that one read of an event node returned; bytes after the
/// last whole record are left out. `big_endian` says how the machine orders bytes.
pub fn note_events(clock: &mut IdleClock, bytes: &[u8], big_endian: bool, now: u64)
    ensures
        *final(clock) == clock_after(
            *old(clock),
            bytes@,
            bytes@.len() as int / 24,
            big_endian,
            now,
        ),
{
    let ghost before = *clock;
    let total: usize = bytes.len();
    let count: usize = total / INPUT_EVENT_SIZE;
    let mut i: usize = 0;
    while i < count
        invariant
            i <= count,
            total == bytes@.len(),
            count == total / 24,
            *clock == clock_after(before, bytes@, i as int, big_endian, now),
        decreases count - i,
    {
        let at: usize = i * INPUT_EVENT_SIZE;
        assert(at + 24 <= total);
        let kind = word(
            bytes[at + INPUT_EVENT_TYPE_OFFSET],
            bytes[at + INPUT_EVENT_TYPE_OFFSET + 1],
            big_endian,
        );
        let code = word(
            bytes[at + INPUT_EVENT_CODE_OFFSET],
            bytes[at + INPUT_EVENT_CODE_OFFSET + 1],
            big_endian,
        );
        assert(record_activity(bytes@, i as int, big_endian) == activity_of(kind, code));
        match classify(kind, code) {
            Some(Activity::Key) => {
                clock.last_key = now;
            },
            Some(Activity::Button) => {
                clock.last_button = now;
            },
            Some(Activity::Pointer) => {
                clock.last_pointer = now;
            },
            None => {},
        }
        proof {
            let activity = record_activity(bytes@, i as int, big_endian);
            assert forall|a: Activity|
                #![trigger holds_activity(bytes@, i + 1, big_endian, a)]
                holds_activity(bytes@, i + 1, big_endian, a) == (holds_activity(
                    bytes@,
                    i as int,
                    big_endian,
                    a,
                ) || activity == Some(a)) by {
                if holds_activity(bytes@, i as int, big_endian, a) {
                    let k = choose|k: int|
                        0 <= k < i && #[trigger] record_activity(bytes@, k, big_endian) == Some(a);
                    assert(0 <= k < i + 1 && record_activity(bytes@, k, big_endian) == Some(a));
                }
            }
        }
        i = i + 1;
    }
}

/// Input right now leaves nothing idle: a machine that was just marked active has been idle
/// for no time at all, whether or not motion counts.
pub proof fn law_marked_active_is_not_idle(clock: IdleClock, now: u64, pointer_counts: bool)
    requires
        clock.last_key == now,
        clock.last_button == now,
        clock.last_pointer == now,
    ensures
        last_activity(clock, pointer_counts) == now,
{
}

/// Letting motion count never makes the machine look idle for longer.
pub proof fn law_motion_only_shortens_idleness(clock: IdleClock)
    ensures
        last_activity(clock, true) >= last_activity(clock, false),
{
}

/// The machine was last active when the latest input that counts was seen: keys and buttons
/// always count, motion where it is let.
pub proof fn law_latest_input_counts(clock: IdleClock, pointer_counts: bool)
    ensures
        ({
            let last = last_activity(clock, pointer_counts);
            &&& last >= clock.last_key
            &&& last >= clock.last_button
            &&& pointer_counts ==> last >= clock.last_pointer
            &&& last == clock.last_key || last == clock.last_button || (pointer_counts && last
                == clock.last_pointer)
        }),
{
}

/// Presses on a keyboard are keys, presses of anything else buttons, and relative and absolute
/// motion is the pointer; every other event counts as nothing.
pub proof fn law_events_count_as_what_they_are(kind: u16, code: u16)
    ensures
        activity_of(kind, code) == Some(Activity::Key) <==> kind == 1 && code < 0x100,
        activity_of(kind, code) == Some(Activity::Button) <==> kind == 1 && code >= 0x100,
        activity_of(kind, code) == Some(Activity::Pointer) <==> kind == 2 || kind == 3,
        activity_of(kind, code) is None <==> kind != 1 && kind != 2 && kind != 3,
{
}

/// A record is read by the type in its bytes 16 and 17 and the code in its bytes 18 and 19,
/// the lower byte first on a little-endian machine.
pub proof fn law_records_are_read_by_type_and_code(bytes: Seq<u8>, i: int)
    ensures
        ({
            let at = 24 * i;
            let kind = bytes[at + 16] + 256 * bytes[at + 17];
            let code = bytes[at + 18] + 256 * bytes[at + 19];
            &&& record_activity(bytes, i, false) == Some(Activity::Key) <==> kind == 1 && code < 256
            &&& record_activity(bytes, i, false) == Some(Activity::Button) <==> kind == 1 && code
                >= 256
            &&& record_activity(bytes, i, false) == Some(Activity::Pointer) <==> kind == 2 || kind
                == 3
        }),
        ({
            let at = 24 * i;
            let kind = 256 * bytes[at + 16] + bytes[at + 17];
            let code = 256 * bytes[at + 18] + bytes[at + 19];
            &&& record_activity(bytes, i, true) == Some(Activity::Key) <==> kind == 1 && code < 256
            &&& record_activity(bytes, i, true) == Some(Activity::Pointer) <==> kind == 2 || kind
                == 3
        }),
{
}

/// A sort of input that a read holds was seen now, and one that it does not hold when it was
/// seen before.
pub proof fn law_only_seen_input_moves_the_clock(
    clock: IdleClock,
    bytes: Seq<u8>,
    n: int,
    big_endian: bool,
    now: u64,
    i: int,
)
    ensures
        ({
            let after = clock_after(clock, bytes, n, big_endian, now);
            let seen = record_activity(bytes, i, big_endian);
            &&& after.watching == clock.watching
            &&& 0 <= i < n && seen == Some(Activity::Key) ==> after.last_key == now
            &&& 0 <= i < n && seen == Some(Activity::Button) ==> after.last_button == now
            &&& 0 <= i < n && seen == Some(Activity::Pointer) ==> after.last_pointer == now
            &&& (forall|k: int|
                0 <= k < n ==> #[trigger] record_activity(bytes, k, big_endian) != Some(
                    Activity::Key,
                )) ==> after.last_key == clock.last_key
            &&& (forall|k: int|
                0 <= k < n ==> #[trigger] record_activity(bytes, k, big_endian) != Some(
                    Activity::Button,
                )) ==> after.last_button == clock.last_button
            &&& (forall|k: int|
                0 <= k < n ==> #[trigger] record_activity(bytes, k, big_endian) != Some(
                    Activity::Pointer,
                )) ==> after.last_pointer == clock.last_pointer
        }),
{
}

} // verus!
