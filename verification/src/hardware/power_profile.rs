//! Automatic power modes by power source.
//!
//! Plugging in or unplugging is the only thing here that moves the user's mode, and it
//! moves it once. The mode key's own lists say what the user wants on each source: a mode
//! the new source allows is left as it is, another moves to the nearest in power of the
//! modes both sources allow. It does not reassert itself while the source is unchanged.
//! Two battery-level rules run on every tick: automatic Eco below the user's own threshold,
//! and Quiet below a critical level.

use vstd::prelude::*;

use crate::hardware::profile::PowerProfile;
use crate::number::{decimal_value, parse_u32};
use crate::text::{same, texts, trim, trimmed};

verus! {

pub const CRITICAL_BATTERY_PCT: u32 = 15;

/// How long a mode that the user picked by hand against a battery-level rule is left alone
/// before the rule overrides it.
pub const OVERRIDE_GRACE_MS: u64 = 60_000;

/// A state that the machine was seen in: the mode, and the raw firmware index.
#[derive(Debug, Clone, Copy, PartialEq, Eq, Structural)]
pub struct SeenState {
    pub mode: Option<PowerProfile>,
    pub firmware_index: Option<u8>,
}

/// A state against the rules, and when it was first seen.
#[derive(Debug, Clone, Copy, PartialEq, Eq, Structural)]
pub struct Pending {
    pub state: SeenState,
    pub since_ms: u64,
}

/// The policy's settings and what it remembers between ticks.
#[derive(Debug)]
pub struct PowerPolicy {
    pub enabled: bool,
    pub auto_eco: bool,
    pub auto_eco_pct: u32,
    pub ac_profile: PowerProfile,
    pub battery_profile: PowerProfile,
    pub cycle_ac: Vec<PowerProfile>,
    pub cycle_battery: Vec<PowerProfile>,
    pub pending: Option<Pending>,
    /// The power source as of the last tick. The first reading only records, so that
    /// starting up does not count as a transition.
    pub last_ac: Option<bool>,
}

impl Default for PowerPolicy {
    fn default() -> (r: Self)
        ensures
            !r.enabled,
            !r.auto_eco,
            r.auto_eco_pct == 30,
            r.ac_profile == PowerProfile::Performance,
            r.battery_profile == PowerProfile::Balanced,
            r.cycle_ac@.len() == 0,
            r.cycle_battery@.len() == 0,
            r.pending is None,
            r.last_ac is None,
    {
        PowerPolicy {
            enabled: false,
            auto_eco: false,
            auto_eco_pct: 30,
            ac_profile: PowerProfile::Performance,
            battery_profile: PowerProfile::Balanced,
            cycle_ac: Vec::new(),
            cycle_battery: Vec::new(),
            pending: None,
            last_ac: None,
        }
    }
}

/// Switches the policy on or off.
pub fn set_auto(policy: &mut PowerPolicy, v: bool)
    ensures
        *final(policy) == (PowerPolicy { enabled: v, ..*old(policy) }),
        final(policy).enabled == v,
{
    policy.enabled = v;
}

/// Whether the policy is on.
pub fn is_auto(policy: &PowerPolicy) -> (r: bool)
    ensures
        r == policy.enabled,
{
    policy.enabled
}

/// Sets automatic Eco and the level below which it holds.
pub fn set_auto_eco(policy: &mut PowerPolicy, enabled: bool, threshold: u32)
    ensures
        *final(policy) == (PowerPolicy {
            auto_eco: enabled,
            auto_eco_pct: threshold,
            ..*old(policy)
        }),
        final(policy).auto_eco == enabled && final(policy).auto_eco_pct == threshold,
{
    policy.auto_eco = enabled;
    policy.auto_eco_pct = threshold;
}

/// Sets the mode that each source falls back to.
pub fn set_target_profiles(policy: &mut PowerPolicy, ac: PowerProfile, battery: PowerProfile)
    ensures
        *final(policy) == (PowerPolicy {
            ac_profile: ac,
            battery_profile: battery,
            ..*old(policy)
        }),
        final(policy).ac_profile == ac && final(policy).battery_profile == battery,
{
    policy.ac_profile = ac;
    policy.battery_profile = battery;
}

/// The modes that a list of names stands for; names that are not known are left out.
pub open spec fn modes_of(ids: Seq<Seq<char>>) -> Seq<PowerProfile>
    decreases ids.len(),
{
    if ids.len() == 0 {
        seq![]
    } else {
        let before = modes_of(ids.drop_last());
        match PowerProfile::named(ids.last()) {
            Some(mode) => before.push(mode),
            None => before,
        }
    }
}

fn parse_modes(ids: &Vec<String>) -> (r: Vec<PowerProfile>)
    ensures
        r@ == modes_of(texts(ids@)),
{
    let mut out: Vec<PowerProfile> = Vec::new();
    let mut i: usize = 0;
    let ghost t = texts(ids@);
    assert(t.take(0) == Seq::<Seq<char>>::empty());
    while i < ids.len()
        invariant
            i <= ids@.len(),
            t == texts(ids@),
            out@ == modes_of(t.take(i as int)),
        decreases ids@.len() - i,
    {
        let ghost u = t.take(i + 1);
        assert(u.drop_last() == t.take(i as int));
        assert(u.last() == ids@[i as int]@);
        match PowerProfile::from_id(ids[i].as_str()) {
            Some(mode) => {
                out.push(mode);
            },
            None => {},
        }
        i = i + 1;
    }
    assert(t.take(i as int) == t);
    out
}

/// Sets the mode key's lists, by the modes' names. A name that this version does not know
/// costs that one entry, and not the list.
pub fn set_cycles(policy: &mut PowerPolicy, ac: &Vec<String>, battery: &Vec<String>)
    ensures
        final(policy).cycle_ac@ == modes_of(texts(ac@)),
        final(policy).cycle_battery@ == modes_of(texts(battery@)),
        *final(policy) == (PowerPolicy {
            cycle_ac: final(policy).cycle_ac,
            cycle_battery: final(policy).cycle_battery,
            ..*old(policy)
        }),
{
    policy.cycle_ac = parse_modes(ac);
    policy.cycle_battery = parse_modes(battery);
}

/// What an entry of the power supply class shows: its type, and the contents of `online`
/// and `capacity` where they can be read.
pub struct SupplyReading {
    pub kind: Option<String>,
    pub online: Option<String>,
    pub capacity: Option<String>,
}

/// Whether an entry shows this type.
pub open spec fn has_kind(supply: SupplyReading, kind: Seq<char>) -> bool {
    supply.kind is Some && trimmed(supply.kind->0@) == kind
}

fn kind_is(supply: &SupplyReading, kind: &str) -> (r: bool)
    ensures
        r == has_kind(*supply, kind@),
{
    match &supply.kind {
        Some(text) => same(trim(text.as_str()).as_str(), kind),
        None => false,
    }
}

/// Whether mains power is connected, by the first mains entry that can be read.
pub open spec fn mains_online(supplies: Seq<SupplyReading>) -> Option<bool>
    decreases supplies.len(),
{
    if supplies.len() == 0 {
        None
    } else if has_kind(supplies[0], "Mains"@) && supplies[0].online is Some {
        Some(trimmed(supplies[0].online->0@) == "1"@)
    } else {
        mains_online(supplies.drop_first())
    }
}

/// Whether mains power is connected; `None` where no entry says.
pub fn ac_online(supplies: &Vec<SupplyReading>) -> (r: Option<bool>)
    ensures
        r == mains_online(supplies@),
{
    let mut i: usize = 0;
    assert(supplies@.skip(0) == supplies@);
    while i < supplies.len()
        invariant
            i <= supplies@.len(),
            mains_online(supplies@) == mains_online(supplies@.skip(i as int)),
        decreases supplies@.len() - i,
    {
        let ghost rest = supplies@.skip(i as int);
        assert(rest[0] == supplies@[i as int]);
        assert(rest.drop_first() == supplies@.skip(i + 1));
        if kind_is(&supplies[i], "Mains") {
            match &supplies[i].online {
                Some(text) => {
                    return Some(same(trim(text.as_str()).as_str(), "1"));
                },
                None => {},
            }
        }
        i = i + 1;
    }
    None
}

/// The charge left, by the first battery that says.
pub open spec fn charge(supplies: Seq<SupplyReading>) -> Option<nat>
    decreases supplies.len(),
{
    if supplies.len() == 0 {
        None
    } else if has_kind(supplies[0], "Battery"@) && supplies[0].capacity is Some && decimal_value(
        trimmed(supplies[0].capacity->0@),
        0xffff_ffff,
    ) is Some {
        decimal_value(trimmed(supplies[0].capacity->0@), 0xffff_ffff)
    } else {
        charge(supplies.drop_first())
    }
}

/// The charge left, in percent; `None` where no battery says.
pub fn battery_capacity_pct(supplies: &Vec<SupplyReading>) -> (r: Option<u32>)
    ensures
        match r {
            Some(n) => charge(supplies@) == Some(n as nat),
            None => charge(supplies@) is None,
        },
{
    let mut i: usize = 0;
    assert(supplies@.skip(0) == supplies@);
    while i < supplies.len()
        invariant
            i <= supplies@.len(),
            charge(supplies@) == charge(supplies@.skip(i as int)),
        decreases supplies@.len() - i,
    {
        let ghost rest = supplies@.skip(i as int);
        assert(rest[0] == supplies@[i as int]);
        assert(rest.drop_first() == supplies@.skip(i + 1));
        if kind_is(&supplies[i], "Battery") {
            match &supplies[i].capacity {
                Some(text) => match parse_u32(trim(text.as_str()).as_str()) {
                    Some(pct) => {
                        return Some(pct);
                    },
                    None => {},
                },
                None => {},
            }
        }
        i = i + 1;
    }
    None
}

/// What the battery-level rules ask for; nothing on mains. Eco is at least as sparing as
/// Quiet, so the critical level leaves it alone.
pub open spec fn level_target(
    auto_eco: bool,
    auto_eco_pct: u32,
    ac: bool,
    current: Option<PowerProfile>,
    battery_pct: Option<u32>,
) -> Option<PowerProfile> {
    if ac || battery_pct is None {
        None
    } else if auto_eco && battery_pct->0 < auto_eco_pct {
        if current == Some(PowerProfile::Eco) {
            None
        } else {
            Some(PowerProfile::Eco)
        }
    } else if battery_pct->0 < CRITICAL_BATTERY_PCT {
        if current == Some(PowerProfile::Quiet) || current == Some(PowerProfile::Eco) {
            None
        } else {
            Some(PowerProfile::Quiet)
        }
    } else {
        None
    }
}

/// What the battery-level rules ask for.
pub fn level_rule(
    policy: &PowerPolicy,
    ac: bool,
    current: Option<PowerProfile>,
    battery_pct: Option<u32>,
) -> (r: Option<PowerProfile>)
    ensures
        r == level_target(policy.auto_eco, policy.auto_eco_pct, ac, current, battery_pct),
{
    if ac {
        return None;
    }
    match battery_pct {
        None => None,
        Some(pct) => {
            if policy.auto_eco && pct < policy.auto_eco_pct {
                match current {
                    Some(PowerProfile::Eco) => None,
                    _ => Some(PowerProfile::Eco),
                }
            } else if pct < CRITICAL_BATTERY_PCT {
                match current {
                    Some(PowerProfile::Quiet) | Some(PowerProfile::Eco) => None,
                    _ => Some(PowerProfile::Quiet),
                }
            } else {
                None
            }
        },
    }
}

/// How far two modes lie apart on the power ladder.
pub open spec fn tiers_apart(a: PowerProfile, b: PowerProfile) -> int {
    if a.tier() >= b.tier() {
        a.tier() - b.tier()
    } else {
        b.tier() - a.tier()
    }
}

/// Whether `a` is a better answer than `b` for `to`, or as good: nearer in power, and the
/// weaker of two that are equally near.
pub open spec fn at_least_as_near(to: PowerProfile, a: PowerProfile, b: PowerProfile) -> bool {
    tiers_apart(a, to) < tiers_apart(b, to) || (tiers_apart(a, to) == tiers_apart(b, to)
        && a.tier() <= b.tier())
}

/// Whether `r` is the nearest to `to` among the modes.
pub open spec fn is_nearest(to: PowerProfile, among: Seq<PowerProfile>, r: PowerProfile) -> bool {
    among.contains(r) && forall|i: int|
        0 <= i < among.len() ==> at_least_as_near(to, r, #[trigger] among[i])
}

/// There is only one nearest mode.
pub proof fn law_nearest_is_one(
    to: PowerProfile,
    among: Seq<PowerProfile>,
    a: PowerProfile,
    b: PowerProfile,
)
    requires
        is_nearest(to, among, a),
        is_nearest(to, among, b),
    ensures
        a == b,
{
    let i = choose|i: int| 0 <= i < among.len() && among[i] == a;
    let j = choose|j: int| 0 <= j < among.len() && among[j] == b;
    assert(at_least_as_near(to, a, among[j]));
    assert(at_least_as_near(to, b, among[i]));
}

fn nearer(to: PowerProfile, a: PowerProfile, b: PowerProfile) -> (r: bool)
    ensures
        r == at_least_as_near(to, a, b),
{
    let t: i8 = to.index();
    let x: i8 = a.index();
    let y: i8 = b.index();
    let da: i8 = if x >= t {
        x - t
    } else {
        t - x
    };
    let db: i8 = if y >= t {
        y - t
    } else {
        t - y
    };
    da < db || (da == db && x <= y)
}

/// The mode nearest `to` in power, the weaker of two that are equally near: of two equally
/// close answers, the one that spends less is the safer one.
pub fn nearest(to: PowerProfile, among: &[PowerProfile]) -> (r: Option<PowerProfile>)
    ensures
        match r {
            Some(mode) => is_nearest(to, among@, mode),
            None => among@.len() == 0,
        },
{
    if among.len() == 0 {
        return None;
    }
    let mut best: PowerProfile = among[0];
    let mut i: usize = 1;
    while i < among.len()
        invariant
            1 <= i <= among@.len(),
            exists|k: int| 0 <= k < i && among@[k] == best,
            forall|k: int| 0 <= k < i ==> at_least_as_near(to, best, #[trigger] among@[k]),
        decreases among@.len() - i,
    {
        if !nearer(to, best, among[i]) {
            best = among[i];
        }
        i = i + 1;
    }
    Some(best)
}

/// The modes of `into` that `other` holds too.
pub open spec fn common(into: Seq<PowerProfile>, other: Seq<PowerProfile>) -> Seq<PowerProfile>
    decreases into.len(),
{
    if into.len() == 0 {
        seq![]
    } else {
        let before = common(into.drop_last(), other);
        if other.contains(into.last()) {
            before.push(into.last())
        } else {
            before
        }
    }
}

fn has_mode(list: &[PowerProfile], mode: PowerProfile) -> (r: bool)
    ensures
        r == list@.contains(mode),
{
    let mut i: usize = 0;
    while i < list.len()
        invariant
            i <= list@.len(),
            forall|k: int| 0 <= k < i ==> list@[k] != mode,
        decreases list@.len() - i,
    {
        if list[i] == mode {
            return true;
        }
        i = i + 1;
    }
    false
}

fn common_modes(into: &[PowerProfile], other: &[PowerProfile]) -> (r: Vec<PowerProfile>)
    ensures
        r@ == common(into@, other@),
{
    let mut out: Vec<PowerProfile> = Vec::new();
    let mut i: usize = 0;
    assert(into@.take(0) == Seq::<PowerProfile>::empty());
    while i < into.len()
        invariant
            i <= into@.len(),
            out@ == common(into@.take(i as int), other@),
        decreases into@.len() - i,
    {
        let ghost t = into@.take(i + 1);
        assert(t.drop_last() == into@.take(i as int));
        assert(t.last() == into@[i as int]);
        if has_mode(other, into[i]) {
            out.push(into[i]);
        }
        i = i + 1;
    }
    assert(into@.take(i as int) == into@);
    out
}

/// Whether `r` is what a plug or unplug does, given the mode the machine is in, the list of
/// the source just switched to, that of the source just left, and the mode the new source
/// falls back to.
pub open spec fn answers_transition(
    current: Option<PowerProfile>,
    into: Seq<PowerProfile>,
    other: Seq<PowerProfile>,
    fallback: PowerProfile,
    r: Option<PowerProfile>,
) -> bool {
    match current {
        // A mode that cannot be read is left alone: nothing says that it is not allowed.
        None => r is None,
        Some(mode) => if into.contains(mode) {
            r is None
        } else if into.len() == 0 {
            r == Some(fallback)
        } else if common(into, other).len() == 0 {
            r is Some && is_nearest(mode, into, r->0)
        } else {
            r is Some && is_nearest(mode, common(into, other), r->0)
        },
    }
}

/// What a plug or unplug does.
pub fn transition_target(
    current: Option<PowerProfile>,
    into: &[PowerProfile],
    other: &[PowerProfile],
    fallback: PowerProfile,
) -> (r: Option<PowerProfile>)
    ensures
        answers_transition(current, into@, other@, fallback, r),
{
    let mode = match current {
        None => {
            return None;
        },
        Some(mode) => mode,
    };
    if has_mode(into, mode) {
        return None;
    }
    if into.len() == 0 {
        return Some(fallback);
    }
    let shared = common_modes(into, other);
    if shared.len() == 0 {
        nearest(mode, into)
    } else {
        nearest(mode, shared.as_slice())
    }
}

proof fn lemma_common_is_in_both(into: Seq<PowerProfile>, other: Seq<PowerProfile>)
    ensures
        forall|i: int|
            0 <= i < common(into, other).len() ==> into.contains(#[trigger] common(into, other)[i])
                && other.contains(common(into, other)[i]),
    decreases into.len(),
{
    if into.len() > 0 {
        let front = into.drop_last();
        lemma_common_is_in_both(front, other);
        let all = common(into, other);
        let before = common(front, other);
        assert forall|i: int| 0 <= i < all.len() implies into.contains(#[trigger] all[i])
            && other.contains(all[i]) by {
            if i < before.len() {
                assert(all[i] == before[i]);
                let j = choose|j: int| 0 <= j < front.len() && front[j] == before[i];
                assert(into[j] == all[i]);
            } else {
                assert(into[into.len() - 1] == all[i]);
            }
        }
    }
}

/// A transition never leaves the machine in a mode the new source does not allow, where
/// that source has a list and the mode can be read; and where the lists have a mode in
/// common, it lands on one that both allow.
pub proof fn law_transition_lands_on_an_allowed_mode(
    current: PowerProfile,
    into: Seq<PowerProfile>,
    other: Seq<PowerProfile>,
    fallback: PowerProfile,
    r: Option<PowerProfile>,
)
    requires
        into.len() > 0,
        answers_transition(Some(current), into, other, fallback, r),
    ensures
        r is None ==> into.contains(current),
        r is Some ==> into.contains(r->0) && !into.contains(current),
        r is Some && common(into, other).len() > 0 ==> other.contains(r->0),
{
    lemma_common_is_in_both(into, other);
    if r is Some && common(into, other).len() > 0 {
        let all = common(into, other);
        let i = choose|i: int| 0 <= i < all.len() && all[i] == r->0;
        assert(into.contains(all[i]) && other.contains(all[i]));
    }
}

/// Whether two observations are of the same state. The firmware index counts only where
/// both have one: a reading that failed says nothing about another choice.
pub open spec fn same_observation(seen: SeenState, now: SeenState) -> bool {
    seen.mode == now.mode && (seen.firmware_index is None || now.firmware_index is None
        || seen.firmware_index == now.firmware_index)
}

/// Whether two observations are of the same state.
pub fn same_state(seen: SeenState, now: SeenState) -> (r: bool)
    ensures
        r == same_observation(seen, now),
{
    let modes = match (seen.mode, now.mode) {
        (Some(a), Some(b)) => a == b,
        (None, None) => true,
        _ => false,
    };
    let indices = match (seen.firmware_index, now.firmware_index) {
        (Some(a), Some(b)) => a == b,
        _ => true,
    };
    modes && indices
}

/// How long ago something was.
pub open spec fn elapsed(since: u64, now: u64) -> int {
    if now >= since {
        now - since
    } else {
        0
    }
}

/// Whether a state against the rules has been there for the whole grace window, and what is
/// remembered of it: the window starts when the state is first seen, and ends with the rule
/// acting.
pub open spec fn grace(pending: Option<Pending>, state: SeenState, now: u64) -> (
    bool,
    Option<Pending>,
) {
    match pending {
        Some(p) if same_observation(p.state, state) => if elapsed(p.since_ms, now)
            < OVERRIDE_GRACE_MS {
            (false, pending)
        } else {
            (true, None)
        },
        _ => (false, Some(Pending { state, since_ms: now })),
    }
}

/// Whether a state against the rules has been there for the whole grace window.
pub fn grace_elapsed(pending: Option<Pending>, state: SeenState, now: u64) -> (r: (
    bool,
    Option<Pending>,
))
    ensures
        r == grace(pending, state, now),
{
    match pending {
        Some(p) => {
            if same_state(p.state, state) {
                let past: u64 = if now >= p.since_ms {
                    now - p.since_ms
                } else {
                    0
                };
                if past < OVERRIDE_GRACE_MS {
                    (false, pending)
                } else {
                    (true, None)
                }
            } else {
                (false, Some(Pending { state, since_ms: now }))
            }
        },
        None => (false, Some(Pending { state, since_ms: now })),
    }
}

/// What the machine shows on a tick.
pub struct Tick {
    /// Whether mains power is connected, where that can be read.
    pub ac: Option<bool>,
    pub current: Option<PowerProfile>,
    pub battery_pct: Option<u32>,
    pub firmware_index: Option<u8>,
    /// A clock that never goes back.
    pub now_ms: u64,
}

/// Why the policy moves the mode.
#[derive(Debug, Clone, Copy, PartialEq, Eq, Structural)]
pub enum Reason {
    PowerSourceChanged,
    PowerSourceChangedBelowThreshold,
    BatteryLevel,
}

/// A mode that is to be applied, and why.
#[derive(Debug, Clone, Copy, PartialEq, Eq, Structural)]
pub struct Move {
    pub target: PowerProfile,
    pub reason: Reason,
}

/// The mode a source falls back to.
pub open spec fn fallback_of(policy: PowerPolicy, ac: bool) -> PowerProfile {
    if ac {
        policy.ac_profile
    } else {
        policy.battery_profile
    }
}

/// The mode key's list for a source.
pub open spec fn list_of(policy: PowerPolicy, ac: bool) -> Seq<PowerProfile> {
    if ac {
        policy.cycle_ac@
    } else {
        policy.cycle_battery@
    }
}

/// The mode key's list for the other source.
pub open spec fn other_list_of(policy: PowerPolicy, ac: bool) -> Seq<PowerProfile> {
    list_of(policy, !ac)
}

/// The mode a source falls back to.
pub fn fallback_for(policy: &PowerPolicy, ac: bool) -> (r: PowerProfile)
    ensures
        r == fallback_of(*policy, ac),
{
    if ac {
        policy.ac_profile
    } else {
        policy.battery_profile
    }
}

/// What the rules on the charge left ask for on this tick.
pub open spec fn level_on(policy: PowerPolicy, tick: Tick) -> Option<PowerProfile> {
    level_target(
        policy.auto_eco,
        policy.auto_eco_pct,
        tick.ac->0,
        tick.current,
        tick.battery_pct,
    )
}

/// Whether the power source changed since the last tick.
pub open spec fn transitioned(policy: PowerPolicy, tick: Tick) -> bool {
    policy.last_ac is Some && policy.last_ac != tick.ac
}

/// The state seen on a tick.
pub open spec fn state_on(tick: Tick) -> SeenState {
    SeenState { mode: tick.current, firmware_index: tick.firmware_index }
}

/// What the policy remembers of the power source after a tick.
pub open spec fn source_after(policy: PowerPolicy, tick: Tick) -> Option<bool> {
    match tick.ac {
        Some(ac) => Some(ac),
        None => policy.last_ac,
    }
}

/// What the policy remembers of a state against the rules after a tick.
pub open spec fn pending_after(policy: PowerPolicy, tick: Tick) -> Option<Pending> {
    if !policy.enabled {
        None
    } else if tick.ac is None {
        policy.pending
    } else if transitioned(policy, tick) || level_on(policy, tick) is None {
        None
    } else {
        grace(policy.pending, state_on(tick), tick.now_ms).1
    }
}

/// Whether `r` is what the policy does on a tick.
pub open spec fn decides(policy: PowerPolicy, tick: Tick, r: Option<Move>) -> bool {
    if !policy.enabled || tick.ac is None {
        r is None
    } else {
        let level = level_on(policy, tick);
        if transitioned(policy, tick) {
            // The charge left outranks the source, and both act at once.
            match level {
                Some(target) => r == Some(
                    Move { target, reason: Reason::PowerSourceChangedBelowThreshold },
                ),
                None => {
                    exists|target: Option<PowerProfile>|
                        {
                            &&& #[trigger] answers_transition(
                                tick.current,
                                list_of(policy, tick.ac->0),
                                other_list_of(policy, tick.ac->0),
                                fallback_of(policy, tick.ac->0),
                                target,
                            )
                            &&& r == (match target {
                                Some(t) => Some(
                                    Move { target: t, reason: Reason::PowerSourceChanged },
                                ),
                                None => None,
                            })
                        }
                },
            }
        } else {
            match level {
                Some(target) if grace(policy.pending, state_on(tick), tick.now_ms).0 => r == Some(
                    Move { target, reason: Reason::BatteryLevel },
                ),
                _ => r is None,
            }
        }
    }
}

/// To be called periodically. Moves the mode on a change of the power source, and holds the
/// two battery-level rules; does nothing at every other moment. The source is tracked while
/// the policy is off too, so that switching it on is no transition.
pub fn check(policy: &mut PowerPolicy, tick: &Tick) -> (r: Option<Move>)
    ensures
        decides(*old(policy), *tick, r),
        *final(policy) == (PowerPolicy {
            pending: pending_after(*old(policy), *tick),
            last_ac: source_after(*old(policy), *tick),
            ..*old(policy)
        }),
{
    if !policy.enabled {
        policy.pending = None;
        match tick.ac {
            Some(ac) => {
                policy.last_ac = Some(ac);
            },
            None => {},
        }
        return None;
    }
    let ac: bool = match tick.ac {
        Some(ac) => ac,
        None => {
            return None;
        },
    };
    let changed = match policy.last_ac {
        Some(previous) => previous != ac,
        None => false,
    };
    policy.last_ac = Some(ac);
    let level = level_rule(policy, ac, tick.current, tick.battery_pct);
    if changed {
        policy.pending = None;
        match level {
            Some(target) => {
                return Some(Move { target, reason: Reason::PowerSourceChangedBelowThreshold });
            },
            None => {},
        }
        let fallback = fallback_for(policy, ac);
        let target = if ac {
            transition_target(tick.current, policy.cycle_ac.as_slice(), policy.cycle_battery.as_slice(), fallback)
        } else {
            transition_target(tick.current, policy.cycle_battery.as_slice(), policy.cycle_ac.as_slice(), fallback)
        };
        assert(answers_transition(
            tick.current,
            list_of(*old(policy), tick.ac->0),
            other_list_of(*old(policy), tick.ac->0),
            fallback_of(*old(policy), tick.ac->0),
            target,
        ));
        return match target {
            Some(t) => Some(Move { target: t, reason: Reason::PowerSourceChanged }),
            None => None,
        };
    }
    match level {
        None => {
            policy.pending = None;
            None
        },
        Some(target) => {
            let state = SeenState { mode: tick.current, firmware_index: tick.firmware_index };
            let (due, pending) = grace_elapsed(policy.pending, state, tick.now_ms);
            policy.pending = pending;
            if due {
                Some(Move { target, reason: Reason::BatteryLevel })
            } else {
                None
            }
        },
    }
}

/// While the power source is unchanged and the charge asks for nothing, the policy never
/// moves the mode: what the user picked stays.
pub proof fn law_steady_source_moves_nothing(policy: PowerPolicy, tick: Tick, r: Option<Move>)
    requires
        decides(policy, tick, r),
        policy.last_ac is None || policy.last_ac == tick.ac,
        tick.ac is Some ==> level_on(policy, tick) is None,
    ensures
        r is None,
{
}

/// A mode picked by hand is left alone for the whole grace window: a battery-level rule acts
/// only on a state that has been there since before it.
pub proof fn law_fresh_choice_has_its_grace(policy: PowerPolicy, tick: Tick, r: Option<Move>)
    requires
        decides(policy, tick, r),
        r is Some,
        r->0.reason == Reason::BatteryLevel,
    ensures
        policy.pending is Some,
        same_observation(policy.pending->0.state, state_on(tick)),
        elapsed(policy.pending->0.since_ms, tick.now_ms) >= OVERRIDE_GRACE_MS,
{
}

/// Switching the policy on is no transition: the source is tracked while it is off.
pub proof fn law_switching_on_is_no_transition(policy: PowerPolicy, off: Tick, on: Tick)
    requires
        off.ac is Some,
        on.ac == off.ac,
    ensures
        !transitioned(
            (PowerPolicy { enabled: true, last_ac: source_after(policy, off), ..policy }),
            on,
        ),
{
}

/// On mains the battery-level rules are silent.
pub proof fn law_level_rules_are_silent_on_mains(
    auto_eco: bool,
    auto_eco_pct: u32,
    current: Option<PowerProfile>,
    battery_pct: Option<u32>,
)
    ensures
        level_target(auto_eco, auto_eco_pct, true, current, battery_pct) is None,
{
}

/// A battery-level rule never moves the machine to a stronger mode than Quiet, nor a machine
/// in Eco anywhere.
pub proof fn law_level_rules_never_spend_more(
    auto_eco: bool,
    auto_eco_pct: u32,
    ac: bool,
    current: Option<PowerProfile>,
    battery_pct: Option<u32>,
)
    ensures
        ({
            let target = level_target(auto_eco, auto_eco_pct, ac, current, battery_pct);
            &&& target is Some ==> target->0.tier() <= PowerProfile::Quiet.tier()
            &&& target is Some && current is Some ==> target->0.tier() < current->0.tier()
        }),
{
}

/// Whether the charge asks for nothing: the machine is on mains, or no battery says, or there
/// is enough for both rules.
pub open spec fn charge_is_enough(policy: PowerPolicy, ac: bool, battery_pct: Option<u32>) -> bool {
    ||| ac
    ||| battery_pct is None
    ||| battery_pct->0 >= 15 && (!policy.auto_eco || battery_pct->0 >= policy.auto_eco_pct)
}

/// Plugging in goes to the mode configured for mains, and unplugging to the one configured for
/// the battery, where the new source has no list of its own and the charge asks for nothing.
pub proof fn law_source_change_goes_to_its_configured_mode(
    policy: PowerPolicy,
    tick: Tick,
    r: Option<Move>,
    ac: bool,
)
    requires
        decides(policy, tick, r),
        policy.enabled,
        policy.last_ac == Some(!ac),
        tick.ac == Some(ac),
        tick.current is Some,
        charge_is_enough(policy, ac, tick.battery_pct),
        ac ==> policy.cycle_ac@.len() == 0,
        !ac ==> policy.cycle_battery@.len() == 0,
    ensures
        r is Some,
        r->0.reason == Reason::PowerSourceChanged,
        ac ==> r->0.target == policy.ac_profile,
        !ac ==> r->0.target == policy.battery_profile,
{
}

/// A mode that the new source's own list holds is left as it is.
pub proof fn law_allowed_mode_survives_a_source_change(
    policy: PowerPolicy,
    tick: Tick,
    r: Option<Move>,
    ac: bool,
)
    requires
        decides(policy, tick, r),
        tick.ac == Some(ac),
        tick.current is Some,
        charge_is_enough(policy, ac, tick.battery_pct),
        ac ==> policy.cycle_ac@.contains(tick.current->0),
        !ac ==> policy.cycle_battery@.contains(tick.current->0),
    ensures
        r is None,
{
}

/// A mode that the new source's list does not hold moves to one that it holds: to the nearest
/// in power of those that both lists hold, or of the list where they share none, and to the
/// weaker of two that are as near.
pub proof fn law_disallowed_mode_moves_to_the_nearest(
    policy: PowerPolicy,
    tick: Tick,
    r: Option<Move>,
    ac: bool,
    other: PowerProfile,
)
    requires
        decides(policy, tick, r),
        policy.enabled,
        policy.last_ac == Some(!ac),
        tick.ac == Some(ac),
        tick.current is Some,
        charge_is_enough(policy, ac, tick.battery_pct),
        ac ==> policy.cycle_ac@.contains(other) && !policy.cycle_ac@.contains(tick.current->0),
        !ac ==> policy.cycle_battery@.contains(other) && !policy.cycle_battery@.contains(
            tick.current->0,
        ),
    ensures
        r is Some,
        r->0.reason == Reason::PowerSourceChanged,
        ac ==> policy.cycle_ac@.contains(r->0.target),
        !ac ==> policy.cycle_battery@.contains(r->0.target),
        policy.cycle_ac@.contains(other) && policy.cycle_battery@.contains(other) ==> {
            let now = tick.current->0.tier();
            let t = r->0.target.tier();
            let o = other.tier();
            &&& policy.cycle_ac@.contains(r->0.target)
            &&& policy.cycle_battery@.contains(r->0.target)
            // No farther from the present mode than any other that both lists hold.
            &&& (t <= now && o <= now ==> t >= o) && (t >= now && o >= now ==> t <= o) && (t <= now
                <= o ==> now - t <= o - now) && (o < now <= t ==> t - now < now - o || t == o)
        },
{
    let into = list_of(policy, ac);
    let rest = list_of(policy, !ac);
    let target = choose|target: Option<PowerProfile>|
        {
            &&& #[trigger] answers_transition(
                tick.current,
                into,
                rest,
                fallback_of(policy, ac),
                target,
            )
            &&& r == (match target {
                Some(t) => Some(Move { target: t, reason: Reason::PowerSourceChanged }),
                None => None,
            })
        };
    law_transition_lands_on_an_allowed_mode(
        tick.current->0,
        into,
        rest,
        fallback_of(policy, ac),
        target,
    );
    if into.contains(other) && rest.contains(other) {
        lemma_common_holds(into, rest, other);
        let all = common(into, rest);
        let i = choose|i: int| 0 <= i < all.len() && all[i] == other;
        assert(at_least_as_near(tick.current->0, r->0.target, all[i]));
    }
}

proof fn lemma_common_holds(into: Seq<PowerProfile>, other: Seq<PowerProfile>, mode: PowerProfile)
    requires
        into.contains(mode),
        other.contains(mode),
    ensures
        common(into, other).contains(mode),
    decreases into.len(),
{
    let front = into.drop_last();
    let all = common(into, other);
    let before = common(front, other);
    let k = choose|k: int| 0 <= k < into.len() && into[k] == mode;
    if k < front.len() {
        assert(front[k] == mode);
        lemma_common_holds(front, other, mode);
        let j = choose|j: int| 0 <= j < before.len() && before[j] == mode;
        assert(all[j] == mode);
    } else {
        assert(all[all.len() - 1] == mode);
    }
}

/// On battery, a charge below the user's threshold asks for Eco where automatic Eco is on, and
/// one below fifteen percent for Quiet; a machine that already spends as little is left alone.
/// On a change of the source that happens at once.
pub proof fn law_low_charge_saves_power_at_once(policy: PowerPolicy, tick: Tick, r: Option<Move>)
    requires
        decides(policy, tick, r),
        policy.enabled,
        policy.last_ac == Some(true),
        tick.ac == Some(false),
        tick.battery_pct is Some,
    ensures
        policy.auto_eco && tick.battery_pct->0 < policy.auto_eco_pct && tick.current != Some(
            PowerProfile::Eco,
        ) ==> r == Some(
            Move {
                target: PowerProfile::Eco,
                reason: Reason::PowerSourceChangedBelowThreshold,
            },
        ),
        !(policy.auto_eco && tick.battery_pct->0 < policy.auto_eco_pct) && tick.battery_pct->0 < 15
            && tick.current != Some(PowerProfile::Eco) && tick.current != Some(PowerProfile::Quiet)
            ==> r == Some(
            Move {
                target: PowerProfile::Quiet,
                reason: Reason::PowerSourceChangedBelowThreshold,
            },
        ),
{
}

/// While the source stays, a low charge saves power once the present state has been there for
/// a minute, and not before; a state that was not seen yet starts its minute now.
pub proof fn law_low_charge_waits_a_minute(policy: PowerPolicy, tick: Tick, r: Option<Move>)
    requires
        decides(policy, tick, r),
        policy.enabled,
        policy.last_ac == Some(false),
        tick.ac == Some(false),
        tick.battery_pct is Some,
        policy.auto_eco,
        tick.battery_pct->0 < policy.auto_eco_pct,
        tick.current != Some(PowerProfile::Eco),
    ensures
        policy.pending is None ==> {
            let p = pending_after(policy, tick);
            &&& r is None
            &&& p is Some
            &&& p->0.since_ms == tick.now_ms
            &&& p->0.state.mode == tick.current
            &&& p->0.state.firmware_index == tick.firmware_index
        },
        policy.pending is Some && policy.pending->0.state.mode == tick.current
            && policy.pending->0.state.firmware_index == tick.firmware_index ==> {
            let since = policy.pending->0.since_ms;
            &&& tick.now_ms >= since + 60_000 ==> r == Some(
                Move { target: PowerProfile::Eco, reason: Reason::BatteryLevel },
            )
            &&& tick.now_ms < since + 60_000 ==> r is None && pending_after(policy, tick)
                == policy.pending
        },
        policy.pending is Some && policy.pending->0.state.mode != tick.current ==> {
            let p = pending_after(policy, tick);
            &&& r is None
            &&& p is Some && p->0.since_ms == tick.now_ms && p->0.state.mode == tick.current
        },
{
}

/// A policy that is off moves nothing and remembers no choice, but knows the source.
pub proof fn law_policy_that_is_off_moves_nothing(policy: PowerPolicy, tick: Tick, r: Option<Move>)
    requires
        decides(policy, tick, r),
    ensures
        !policy.enabled ==> r is None && pending_after(policy, tick) is None,
        tick.ac is None ==> r is None && source_after(policy, tick) == policy.last_ac,
        tick.ac is Some ==> source_after(policy, tick) == tick.ac,
        policy.last_ac is None ==> (r is Some ==> r->0.reason == Reason::BatteryLevel),
{
}

/// The first mains entry that can be read says whether mains is connected: `1` is connected
/// and anything else is not.
pub proof fn law_first_mains_entry_decides(supplies: Seq<SupplyReading>, k: int)
    requires
        0 <= k < supplies.len(),
        supplies[k].kind matches Some(kind) && trimmed(kind@) == "Mains"@,
        supplies[k].online is Some,
        forall|i: int|
            0 <= i < k ==> (#[trigger] supplies[i]).online is None || supplies[i].kind is None
                || trimmed(supplies[i].kind->0@) != "Mains"@,
    ensures
        mains_online(supplies) == Some(trimmed(supplies[k].online->0@) == "1"@),
    decreases k,
{
    if k > 0 {
        let rest = supplies.drop_first();
        assert(supplies[0].online is None || supplies[0].kind is None || trimmed(
            supplies[0].kind->0@,
        ) != "Mains"@);
        assert forall|i: int| 0 <= i < k - 1 implies (#[trigger] rest[i]).online is None
            || rest[i].kind is None || trimmed(rest[i].kind->0@) != "Mains"@ by {
            assert(rest[i] == supplies[i + 1]);
        }
        assert(rest[k - 1] == supplies[k]);
        law_first_mains_entry_decides(rest, k - 1);
    }
}

/// The first battery that says how full it is decides.
pub proof fn law_first_battery_decides(supplies: Seq<SupplyReading>, k: int, percent: nat)
    requires
        0 <= k < supplies.len(),
        supplies[k].kind matches Some(kind) && trimmed(kind@) == "Battery"@,
        supplies[k].capacity matches Some(text) && decimal_value(trimmed(text@), 0xffff_ffff)
            == Some(percent),
        forall|i: int|
            0 <= i < k ==> (#[trigger] supplies[i]).kind is None || trimmed(supplies[i].kind->0@)
                != "Battery"@,
    ensures
        charge(supplies) == Some(percent),
    decreases k,
{
    if k > 0 {
        let rest = supplies.drop_first();
        assert(supplies[0].kind is None || trimmed(supplies[0].kind->0@) != "Battery"@);
        assert forall|i: int| 0 <= i < k - 1 implies (#[trigger] rest[i]).kind is None || trimmed(
            rest[i].kind->0@,
        ) != "Battery"@ by {
            assert(rest[i] == supplies[i + 1]);
        }
        assert(rest[k - 1] == supplies[k]);
        law_first_battery_decides(rest, k - 1, percent);
    }
}

/// A list holds the modes whose names it was given, in that order, and no others.
pub proof fn law_list_holds_the_named_modes(modes: Seq<PowerProfile>)
    ensures
        modes_of(Seq::new(modes.len(), |i: int| modes[i].id())) == modes,
    decreases modes.len(),
{
    let ids = Seq::new(modes.len(), |i: int| modes[i].id());
    if modes.len() > 0 {
        let front = modes.drop_last();
        law_list_holds_the_named_modes(front);
        assert(ids.drop_last() =~= Seq::new(front.len(), |i: int| front[i].id()));
        crate::hardware::profile::law_mode_name_round_trip(modes.last());
        assert(modes =~= front.push(modes.last()));
    } else {
        assert(modes_of(ids) =~= modes);
    }
}

/// A name that stands for no mode costs only itself.
pub proof fn law_unknown_name_costs_only_itself(ids: Seq<Seq<char>>, id: Seq<char>)
    requires
        PowerProfile::named(id) is None,
    ensures
        modes_of(ids.push(id)) == modes_of(ids),
{
    assert(ids.push(id).drop_last() =~= ids);
}

} // verus!
