//! Raw firmware thermal profiles: the shared shape of a calibration.
//!
//! The kernel's own profile names need not follow the power order, and may not reach
//! every profile the firmware has. So the application probes each index the firmware
//! advertises and ranks them by the power limit it observes. The result is read by the
//! application, by the hotkey daemon and by the helper that reapplies it at boot, so the
//! types, the ranking rules and the file locations all live here.

use vstd::prelude::*;

use crate::number::{
    decimal, decimal_text, decimal_value, law_decimal_round_trip, lemma_decimal_text,
    lemma_digits_not_space, parse_u8, parse_unsigned, unsigned_value,
};
use crate::paths::{is_absolute_bytes, join_bytes, path_of, starts_at_root, under};
use crate::protocol::temp_limit::smaller;
use crate::text::{
    chars_of, lemma_trimmed_line, same, string_between, text_of, trim, trimmed,
};

verus! {

/// Sysfs mount point.
pub const SYSFS_ROOT: &'static str = "/sys";

/// Raw firmware index, published by the out-of-tree `facer` module.
pub const SYSFS_INDEX: &'static str = "devices/platform/acer-wmi/thermal_profile";

/// Bitmask of indices the firmware accepts: bit N means index N is valid.
pub const SYSFS_SUPPORTED: &'static str = "devices/platform/acer-wmi/thermal_profile_supported";

/// BIOS version, relative to a sysfs root.
pub const DMI_BIOS_VERSION: &'static str = "class/dmi/id/bios_version";

/// Calibration file, relative to the user's config directory.
pub const CALIBRATION_FILE: &'static str = "predator-sense/thermal_profiles.json";

/// Last index this machine was deliberately put on, relative to the user's config
/// directory. A file of its own: one value, one file, no reserialization.
pub const LAST_PROFILE_FILE: &'static str = "predator-sense/thermal_profile";

/// The application's five power tiers.
pub const TIERS: u8 = 5;

/// Only eight indices exist: the firmware reports the supported set as one byte.
pub const MAX_INDICES: u8 = 8;

/// One firmware profile with whatever the machine reported for it.
#[derive(Debug, Clone, Copy, PartialEq, Eq, Structural)]
pub struct Measured {
    pub index: u8,
    /// Sustained package power limit, in microwatts, where it is readable.
    pub pl1_uw: Option<u64>,
    /// Burst limit, in microwatts, where it is readable.
    pub pl2_uw: Option<u64>,
}

impl Measured {
    /// The ranking key: sustained first, burst as the tie-breaker.
    pub open spec fn key(self) -> (u64, u64) {
        (
            match self.pl1_uw {
                Some(uw) => uw,
                None => 0,
            },
            match self.pl2_uw {
                Some(uw) => uw,
                None => 0,
            },
        )
    }

    /// Ranking key: sustained first, burst as the tie-breaker. Profiles that could not be
    /// measured sort lowest, so none of them is ever mistaken for the strongest.
    pub fn rank(&self) -> (r: (u64, u64))
        ensures
            r == self.key(),
    {
        (
            match self.pl1_uw {
                Some(uw) => uw,
                None => 0,
            },
            match self.pl2_uw {
                Some(uw) => uw,
                None => 0,
            },
        )
    }
}

/// Result of probing the machine, ordered weakest to strongest.
#[derive(Debug, Clone, PartialEq, Eq)]
pub struct Calibration {
    pub profiles: Vec<Measured>,
    /// False when the samples did not tell the profiles apart. The order is then just the
    /// index order and is never used as a power ranking.
    pub measured: bool,
    /// Every index the firmware advertised when this was measured, so that a firmware
    /// that adds a profile invalidates the calibration. Empty on old calibrations.
    pub advertised: Vec<u8>,
    /// The firmware this was measured against. Empty when unknown.
    pub firmware: String,
}

impl Default for Calibration {
    fn default() -> (r: Self)
        ensures
            r.profiles@.len() == 0,
            !r.measured,
            r.advertised@.len() == 0,
            r.firmware@.len() == 0,
    {
        Calibration {
            profiles: Vec::new(),
            measured: false,
            advertised: Vec::new(),
            firmware: String::new(),
        }
    }
}

/// Where `index` first stands among the profiles.
pub open spec fn place_of(profiles: Seq<Measured>, index: u8) -> Option<int>
    decreases profiles.len(),
{
    if profiles.len() == 0 {
        None
    } else if profiles[0].index == index {
        Some(0)
    } else {
        match place_of(profiles.drop_first(), index) {
            Some(i) => Some(i + 1),
            None => None,
        }
    }
}

/// `place_of` is the first place that holds the index, if any does.
pub proof fn lemma_place_of(profiles: Seq<Measured>, index: u8)
    ensures
        match place_of(profiles, index) {
            Some(i) => 0 <= i < profiles.len() && profiles[i].index == index && forall|j: int|
                0 <= j < i ==> (#[trigger] profiles[j]).index != index,
            None => forall|j: int| 0 <= j < profiles.len() ==> (#[trigger] profiles[j]).index != index,
        },
    decreases profiles.len(),
{
    if profiles.len() > 0 && profiles[0].index != index {
        let rest = profiles.drop_first();
        lemma_place_of(rest, index);
        assert forall|j: int|
            0 < j < profiles.len() implies #[trigger] profiles[j] == rest[j - 1] by {}
    }
}

/// The place on the ladder of `count` profiles that a tier lands on.
pub open spec fn tier_place(tier: int, count: int) -> int {
    (smaller(tier, TIERS - 1) * (count - 1) + 1) / (TIERS - 1)
}

/// A tier's place is on the ladder, and the two ends land on its two ends.
pub proof fn lemma_tier_place(tier: int, count: int)
    requires
        0 <= tier,
        1 <= count,
    ensures
        0 <= tier_place(tier, count) < count,
        tier == 0 ==> tier_place(tier, count) == 0,
        tier >= TIERS - 1 ==> tier_place(tier, count) == count - 1,
{
    let t = smaller(tier, TIERS - 1);
    let m = count - 1;
    assert(t * m == if t == 0 { 0 } else if t == 1 { m } else if t == 2 { 2 * m } else if t == 3 {
        3 * m
    } else { 4 * m }) by (nonlinear_arith)
        requires
            0 <= t <= 4,
    ;
}

impl Calibration {
    /// Whether this calibration may be used to rank profiles by power.
    pub open spec fn ranked(self) -> bool {
        self.measured && self.profiles@.len() > 1
    }

    /// The firmware index a tier stands for.
    pub open spec fn index_at_tier(self, tier: u8) -> Option<u8> {
        if self.ranked() {
            Some(self.profiles@[tier_place(tier as int, self.profiles@.len() as int)].index)
        } else {
            None
        }
    }

    /// How far the profile a tier stands for lies from `place` on the ladder.
    pub open spec fn tier_distance(self, tier: u8, place: int) -> int {
        let at = place_of(
            self.profiles@,
            self.profiles@[tier_place(tier as int, self.profiles@.len() as int)].index,
        )->0;
        if at >= place {
            at - place
        } else {
            place - at
        }
    }

    /// Whether no tier lies closer to `place` than this one.
    pub open spec fn closest_tier(self, tier: u8, place: int) -> bool {
        tier < TIERS && forall|other: u8|
            other < TIERS ==> self.tier_distance(tier, place) <= #[trigger] self.tier_distance(
                other,
                place,
            )
    }

    /// Whether `r` is the tier that `index` corresponds to, for a caller that believes in
    /// `preferred`.
    pub open spec fn answers(self, index: u8, preferred: Option<u8>, r: Option<u8>) -> bool {
        match place_of(self.profiles@, index) {
            Some(place) if self.ranked() => {
                &&& r is Some
                &&& self.closest_tier(r->0, place)
                &&& if preferred is Some && self.closest_tier(preferred->0, place) {
                    r == preferred
                } else {
                    forall|t: u8| #[trigger] self.closest_tier(t, place) ==> r->0 <= t
                }
            },
            _ => r is None,
        }
    }

    /// Whether every index stands for one profile.
    pub open spec fn distinct(self) -> bool {
        forall|i: int, j: int|
            0 <= i < j < self.profiles@.len() ==> (#[trigger] self.profiles@[i]).index != (
            #[trigger] self.profiles@[j]).index
    }

    /// Whether this calibration may be used to rank profiles by power. Everything that
    /// maps tiers onto firmware indices goes through here: an unranked calibration drives
    /// nothing, because the index order need not be the power order.
    pub fn is_ranked(&self) -> (r: bool)
        ensures
            r == self.ranked(),
    {
        self.measured && self.profiles.len() > 1
    }

    /// The strongest profile.
    pub fn strongest(&self) -> (r: Option<u8>)
        ensures
            r == (if self.ranked() {
                Some(self.profiles@.last().index)
            } else {
                None
            }),
    {
        if self.is_ranked() {
            Some(self.profiles[self.profiles.len() - 1].index)
        } else {
            None
        }
    }

    /// The weakest profile.
    pub fn weakest(&self) -> (r: Option<u8>)
        ensures
            r == (if self.ranked() {
                Some(self.profiles@[0].index)
            } else {
                None
            }),
    {
        if self.is_ranked() {
            Some(self.profiles[0].index)
        } else {
            None
        }
    }

    /// Firmware index for one of the application's tiers (0 = Eco .. 4 = Turbo).
    ///
    /// The count of firmware profiles varies per machine, so the tiers are anchored at
    /// both ends and the middle ones are spread across whatever is left; with fewer
    /// profiles than tiers, several tiers share a profile.
    pub fn index_for_tier(&self, tier: u8) -> (r: Option<u8>)
        ensures
            r == self.index_at_tier(tier),
    {
        if !self.is_ranked() {
            return None;
        }
        let count: usize = self.profiles.len();
        let tier: u8 = if tier < TIERS {
            tier
        } else {
            TIERS - 1
        };
        proof {
            lemma_tier_place(tier as int, count as int);
        }
        assert(tier * (count - 1) <= 4 * 0xffff_ffff_ffff_ffff) by (nonlinear_arith)
            requires
                tier <= 4,
                1 <= count <= 0xffff_ffff_ffff_ffff,
        ;
        assert(0 <= tier * (count - 1)) by (nonlinear_arith)
            requires
                1 <= count,
        ;
        let place: u128 = ((tier as u128) * ((count - 1) as u128) + 1) / ((TIERS - 1) as u128);
        assert(place == tier_place(tier as int, count as int));
        Some(self.profiles[place as usize].index)
    }

    fn position(&self, index: u8) -> (r: Option<usize>)
        ensures
            match r {
                Some(i) => place_of(self.profiles@, index) == Some(i as int) && i
                    < self.profiles@.len(),
                None => place_of(self.profiles@, index) is None,
            },
    {
        let mut i: usize = 0;
        while i < self.profiles.len()
            invariant
                i <= self.profiles@.len(),
                forall|j: int| 0 <= j < i ==> (#[trigger] self.profiles@[j]).index != index,
            decreases self.profiles@.len() - i,
        {
            if self.profiles[i].index == index {
                proof {
                    lemma_place_of(self.profiles@, index);
                }
                return Some(i);
            }
            i = i + 1;
        }
        proof {
            lemma_place_of(self.profiles@, index);
        }
        None
    }

    fn distance(&self, tier: u8, place: usize) -> (r: usize)
        requires
            self.ranked(),
            tier < TIERS,
            place < self.profiles@.len(),
        ensures
            r == self.tier_distance(tier, place as int),
    {
        proof {
            lemma_tier_place(tier as int, self.profiles@.len() as int);
        }
        let index: u8 = match self.index_for_tier(tier) {
            Some(index) => index,
            None => 0,
        };
        proof {
            lemma_place_of(self.profiles@, index);
        }
        match self.position(index) {
            Some(at) => if at >= place {
                at - place
            } else {
                place - at
            },
            None => place,
        }
    }

    /// Which tier a raw firmware index corresponds to: the inverse of
    /// [`Calibration::index_for_tier`].
    ///
    /// The answer is the tier whose profile lies closest on the ladder. Several tiers may
    /// lie equally close; `preferred`, what the caller already believes is applied, is
    /// kept where it is one of them, and the lowest is taken otherwise.
    pub fn tier_for_index(&self, index: u8, preferred: Option<u8>) -> (r: Option<u8>)
        ensures
            self.answers(index, preferred, r),
    {
        if !self.is_ranked() {
            return None;
        }
        let place: usize = match self.position(index) {
            Some(place) => place,
            None => {
                return None;
            },
        };
        let mut best: u8 = 0;
        let mut least: usize = self.distance(0, place);
        let mut tier: u8 = 1;
        while tier < TIERS
            invariant
                self.ranked(),
                place < self.profiles@.len(),
                1 <= tier <= TIERS,
                best < tier,
                least == self.tier_distance(best, place as int),
                forall|t: u8|
                    t < tier ==> least <= #[trigger] self.tier_distance(t, place as int),
                forall|t: u8| t < best ==> least < #[trigger] self.tier_distance(t, place as int),
            decreases TIERS - tier,
        {
            let d: usize = self.distance(tier, place);
            if d < least {
                best = tier;
                least = d;
            }
            tier = tier + 1;
        }
        assert(self.closest_tier(best, place as int));
        assert forall|t: u8| #[trigger] self.closest_tier(t, place as int) implies best <= t by {
            assert(self.tier_distance(t, place as int) <= self.tier_distance(best, place as int));
        }
        match preferred {
            Some(p) => {
                if p < TIERS && self.distance(p, place) == least {
                    assert(self.closest_tier(p, place as int));
                    Some(p)
                } else {
                    assert(!self.closest_tier(p, place as int)) by {
                        if self.closest_tier(p, place as int) {
                            assert(self.tier_distance(p, place as int) <= self.tier_distance(
                                best,
                                place as int,
                            ));
                        }
                    }
                    Some(best)
                }
            },
            None => Some(best),
        }
    }

    /// The profile that follows `index` in a cycle through all of them.
    pub open spec fn successor(self, index: u8) -> Option<u8> {
        if self.profiles@.len() == 0 {
            None
        } else {
            match place_of(self.profiles@, index) {
                Some(i) => Some(self.profiles@[(i + 1) % self.profiles@.len() as int].index),
                None => Some(self.profiles@[0].index),
            }
        }
    }

    /// Next profile up, wrapping at the top: what a mode key does. Available on an unranked
    /// calibration too, where it steps in index order. An index that is not known (the
    /// firmware may boot into one it then refuses) is followed by the first profile.
    pub fn next_after(&self, index: u8) -> (r: Option<u8>)
        ensures
            r == self.successor(index),
    {
        let count: usize = self.profiles.len();
        if count == 0 {
            return None;
        }
        match self.position(index) {
            Some(i) => if i + 1 == count {
                assert((i + 1) % count as int == 0) by (nonlinear_arith)
                    requires
                        i + 1 == count,
                ;
                Some(self.profiles[0].index)
            } else {
                assert((i + 1) % count as int == i + 1) by (nonlinear_arith)
                    requires
                        0 <= i + 1 < count,
                ;
                Some(self.profiles[i + 1].index)
            },
            None => Some(self.profiles[0].index),
        }
    }

    /// Whether this calibration still describes what the firmware offers.
    pub open spec fn describes(self, supported: Seq<u8>, firmware: Seq<char>) -> bool {
        &&& self.profiles@.len() > 0
        &&& forall|i: int|
            0 <= i < self.profiles@.len() ==> supported.contains(
                (#[trigger] self.profiles@[i]).index,
            )
        &&& self.advertised@.len() == 0 || {
            &&& firmware.len() == 0 || self.firmware@.len() == 0 || self.firmware@ == firmware
            &&& forall|x: u8| #[trigger] self.advertised@.contains(x) == supported.contains(x)
        }
    }

    /// Whether this calibration still describes what the firmware offers: none of its
    /// profiles disappeared, none was added since, and the firmware is the one it was
    /// measured against. One that did not record what was advertised is judged on its own
    /// profiles alone, and an unknown firmware identity is never a mismatch.
    pub fn matches_firmware(&self, supported: &[u8], firmware: &str) -> (r: bool)
        ensures
            r == self.describes(supported@, firmware@),
    {
        if self.profiles.len() == 0 {
            return false;
        }
        let mut i: usize = 0;
        while i < self.profiles.len()
            invariant
                i <= self.profiles@.len(),
                forall|j: int|
                    0 <= j < i ==> supported@.contains((#[trigger] self.profiles@[j]).index),
            decreases self.profiles@.len() - i,
        {
            if !has_byte(supported, self.profiles[i].index) {
                assert(!supported@.contains(self.profiles@[i as int].index));
                return false;
            }
            i = i + 1;
        }
        if self.advertised.len() == 0 {
            return true;
        }
        if !firmware.is_empty() && !self.firmware.as_str().is_empty() && !same(
            self.firmware.as_str(),
            firmware,
        ) {
            return false;
        }
        let advertised = self.advertised.as_slice();
        all_in(advertised, supported) && all_in(supported, advertised)
    }
}

fn has_byte(list: &[u8], x: u8) -> (r: bool)
    ensures
        r == list@.contains(x),
{
    let mut i: usize = 0;
    while i < list.len()
        invariant
            i <= list@.len(),
            forall|j: int| 0 <= j < i ==> list@[j] != x,
        decreases list@.len() - i,
    {
        if list[i] == x {
            return true;
        }
        i = i + 1;
    }
    false
}

fn all_in(list: &[u8], other: &[u8]) -> (r: bool)
    ensures
        r == (forall|x: u8| list@.contains(x) ==> other@.contains(x)),
{
    let mut i: usize = 0;
    while i < list.len()
        invariant
            i <= list@.len(),
            forall|j: int| 0 <= j < i ==> other@.contains(#[trigger] list@[j]),
        decreases list@.len() - i,
    {
        if !has_byte(other, list[i]) {
            assert(list@.contains(list@[i as int]));
            return false;
        }
        i = i + 1;
    }
    true
}

/// The weakest tier is the weakest profile and the strongest tier the strongest one,
/// however many profiles the firmware has.
pub proof fn law_tiers_anchor_on_the_extremes(calibration: Calibration)
    requires
        calibration.ranked(),
    ensures
        calibration.index_at_tier(0) == Some(calibration.profiles@[0].index),
        calibration.index_at_tier((TIERS - 1) as u8) == Some(calibration.profiles@.last().index),
{
    lemma_tier_place(0, calibration.profiles@.len() as int);
    lemma_tier_place(TIERS - 1, calibration.profiles@.len() as int);
}

/// A stronger tier never lands lower on the ladder.
pub proof fn law_tiers_climb_the_ladder(count: int, a: int, b: int)
    requires
        1 <= count,
        0 <= a <= b,
    ensures
        tier_place(a, count) <= tier_place(b, count),
{
    let s = smaller(a, TIERS - 1);
    let t = smaller(b, TIERS - 1);
    assert(s * (count - 1) <= t * (count - 1)) by (nonlinear_arith)
        requires
            0 <= s <= t,
            1 <= count,
    ;
    assert((s * (count - 1) + 1) / 4 <= (t * (count - 1) + 1) / 4);
}

/// With at least as many profiles as tiers, no two tiers share a profile.
pub proof fn law_enough_profiles_keep_tiers_apart(count: int, a: int, b: int)
    requires
        count >= TIERS,
        0 <= a < b < TIERS,
    ensures
        tier_place(a, count) < tier_place(b, count),
{
    assert(b * (count - 1) >= a * (count - 1) + (count - 1)) by (nonlinear_arith)
        requires
            a + 1 <= b,
            count >= 1,
    ;
}

/// The tier that was applied is the tier that is read back, for a caller that says what
/// it believes.
pub proof fn law_applied_tier_is_read_back(calibration: Calibration, tier: u8, r: Option<u8>)
    requires
        calibration.ranked(),
        tier < TIERS,
        calibration.answers(calibration.index_at_tier(tier)->0, Some(tier), r),
    ensures
        r == Some(tier),
{
    let index = calibration.index_at_tier(tier)->0;
    lemma_tier_place(tier as int, calibration.profiles@.len() as int);
    lemma_place_of(calibration.profiles@, index);
    let place = place_of(calibration.profiles@, index)->0;
    assert(calibration.tier_distance(tier, place) == 0);
    assert(calibration.closest_tier(tier, place));
}

/// With at least as many profiles as tiers, an applied tier is read back whatever the
/// caller believes: a preference never overrides an unambiguous index.
pub proof fn law_unambiguous_tier_is_read_back(
    calibration: Calibration,
    tier: u8,
    preferred: Option<u8>,
    r: Option<u8>,
)
    requires
        calibration.ranked(),
        calibration.distinct(),
        calibration.profiles@.len() >= TIERS,
        tier < TIERS,
        calibration.answers(calibration.index_at_tier(tier)->0, preferred, r),
    ensures
        r == Some(tier),
{
    let profiles = calibration.profiles@;
    let count = profiles.len() as int;
    let index = calibration.index_at_tier(tier)->0;
    lemma_tier_place(tier as int, count);
    lemma_place_of(profiles, index);
    let place = place_of(profiles, index)->0;
    assert(place == tier_place(tier as int, count));
    assert(calibration.tier_distance(tier, place) == 0);
    assert(calibration.closest_tier(tier, place));
    assert forall|t: u8| #[trigger] calibration.closest_tier(t, place) implies t == tier by {
        assert(calibration.tier_distance(t, place) <= calibration.tier_distance(tier, place));
        lemma_tier_place(t as int, count);
        let other = profiles[tier_place(t as int, count)].index;
        lemma_place_of(profiles, other);
        assert(place_of(profiles, other) == Some(tier_place(t as int, count)));
        if t < tier {
            law_enough_profiles_keep_tiers_apart(count, t as int, tier as int);
        } else if t > tier {
            law_enough_profiles_keep_tiers_apart(count, tier as int, t as int);
        }
    }
}

/// Cycling `steps` times from the profile at `place` reaches the profile that lies that
/// many places further, counted round the end.
pub open spec fn cycled(calibration: Calibration, index: u8, steps: nat) -> u8
    decreases steps,
{
    if steps == 0 {
        index
    } else {
        calibration.successor(cycled(calibration, index, (steps - 1) as nat))->0
    }
}

/// The mode key reaches every profile and comes back round: from any profile, `steps`
/// presses lead to the one that many places further along the ring.
pub proof fn law_cycle_walks_the_ring(calibration: Calibration, place: int, steps: nat)
    requires
        calibration.distinct(),
        0 <= place < calibration.profiles@.len(),
    ensures
        cycled(calibration, calibration.profiles@[place].index, steps)
            == calibration.profiles@[(place + steps) % calibration.profiles@.len() as int].index,
    decreases steps,
{
    let n = calibration.profiles@.len() as int;
    if steps == 0 {
        assert(place % n == place) by (nonlinear_arith)
            requires
                0 <= place < n,
        ;
    } else {
        law_cycle_walks_the_ring(calibration, place, (steps - 1) as nat);
        let at = (place + steps - 1) % n;
        assert(0 <= at < n) by (nonlinear_arith)
            requires
                n > 0,
                at == (place + steps - 1) % n,
        ;
        let index = calibration.profiles@[at].index;
        lemma_place_of(calibration.profiles@, index);
        assert(place_of(calibration.profiles@, index) == Some(at));
        vstd::arithmetic::div_mod::lemma_add_mod_noop(place + steps - 1, 1, n);
        vstd::arithmetic::div_mod::lemma_small_mod(at as nat, n as nat);
        if n > 1 {
            vstd::arithmetic::div_mod::lemma_small_mod(1, n as nat);
        }
        assert((at + 1) % n == (place + steps) % n) by {
            vstd::arithmetic::div_mod::lemma_add_mod_noop(place + steps - 1, 1, n);
            vstd::arithmetic::div_mod::lemma_add_mod_noop(at, 1, n);
            vstd::arithmetic::div_mod::lemma_mod_twice(place + steps - 1, n);
        }
    }
}

/// Whether bit `n` of a mask is set.
pub open spec fn bit_set(mask: u8, n: u8) -> bool {
    mask & (1u8 << n) != 0
}

/// Indices set in a bitmask of supported profiles, in increasing order: bit N means
/// index N.
pub fn indices_from_mask(mask: u8) -> (r: Vec<u8>)
    ensures
        forall|n: u8| #[trigger] r@.contains(n) <==> n < MAX_INDICES && bit_set(mask, n),
        forall|i: int, j: int| 0 <= i < j < r@.len() ==> r@[i] < r@[j],
{
    let mut out: Vec<u8> = Vec::new();
    let mut bit: u8 = 0;
    while bit < MAX_INDICES
        invariant
            bit <= MAX_INDICES,
            forall|n: u8| #[trigger] out@.contains(n) <==> n < bit && bit_set(mask, n),
            forall|i: int| 0 <= i < out@.len() ==> out@[i] < bit,
            forall|i: int, j: int| 0 <= i < j < out@.len() ==> out@[i] < out@[j],
        decreases MAX_INDICES - bit,
    {
        let ghost before = out@;
        if mask & (1u8 << bit) != 0 {
            out.push(bit);
            assert forall|n: u8| #[trigger] out@.contains(n) <==> n < bit + 1 && bit_set(
                mask,
                n,
            ) by {
                if before.contains(n) {
                    let i = choose|i: int| 0 <= i < before.len() && before[i] == n;
                    assert(out@[i] == n);
                }
                if n == bit {
                    assert(out@[before.len() as int] == n);
                }
                if out@.contains(n) {
                    let i = choose|i: int| 0 <= i < out@.len() && out@[i] == n;
                    if i < before.len() {
                        assert(before[i] == n);
                        assert(before.contains(n));
                    }
                }
            }
        }
        bit = bit + 1;
    }
    out
}

/// The firmware identity that the DMI attribute names; nothing where it cannot be read.
pub open spec fn identity(contents: Option<Seq<char>>) -> Seq<char> {
    match contents {
        Some(text) => trimmed(text),
        None => seq![],
    }
}

/// Identity of the firmware a calibration is measured against, given what
/// [`DMI_BIOS_VERSION`] holds. Empty when it cannot be read, which callers treat as
/// "cannot tell".
pub fn firmware_identity(contents: &Option<String>) -> (r: String)
    ensures
        r@ == identity(text_of(*contents)),
{
    match contents {
        Some(text) => trim(text.as_str()),
        None => String::new(),
    }
}

/// The bitmask a text denotes: hexadecimal behind `0x`, decimal otherwise.
pub open spec fn mask_value(raw: Seq<char>) -> Option<nat> {
    let text = trimmed(raw);
    if text.len() >= 2 && text[0] == '0' && (text[1] == 'x' || text[1] == 'X') {
        unsigned_value(text.skip(2), 16, 255)
    } else {
        decimal_value(text, 255)
    }
}

/// Reads the bitmask as the kernel prints it (`0x73`), or in plain decimal.
pub fn parse_mask(raw: &str) -> (r: Option<u8>)
    ensures
        match r {
            Some(mask) => mask_value(raw@) == Some(mask as nat),
            None => mask_value(raw@) is None,
        },
{
    let text = trim(raw);
    let v = chars_of(text.as_str());
    if v.len() >= 2 && v[0] == '0' && (v[1] == 'x' || v[1] == 'X') {
        let hex = string_between(&v, 2, v.len());
        assert(hex@ == v@.skip(2));
        match parse_unsigned(hex.as_str(), 16, 255) {
            Some(n) => Some(n as u8),
            None => None,
        }
    } else {
        parse_u8(text.as_str())
    }
}

/// The config directory of a user with this environment.
pub open spec fn config_home_of(xdg: Option<Seq<u8>>, home: Option<Seq<u8>>) -> Option<Seq<u8>> {
    match xdg {
        Some(dir) if is_absolute_bytes(dir) => Some(dir),
        _ => match home {
            Some(h) => Some(under(h, ".config"@)),
            None => None,
        },
    }
}

/// The user's config directory, from `XDG_CONFIG_HOME` where that is set and absolute,
/// and from `HOME` otherwise. Directories are bytes here: nothing makes them text.
pub fn config_home(xdg: &Option<Vec<u8>>, home: &Option<Vec<u8>>) -> (r: Option<Vec<u8>>)
    ensures
        path_of(r) == config_home_of(path_of(*xdg), path_of(*home)),
{
    match xdg {
        Some(dir) => {
            if starts_at_root(dir.as_slice()) {
                let kept = dir.clone();
                assert(kept@ =~= dir@);
                return Some(kept);
            }
        },
        None => {},
    }
    home_config_home(home)
}

/// Calibration file of a user with this environment.
pub fn calibration_path(xdg: &Option<Vec<u8>>, home: &Option<Vec<u8>>) -> (r: Option<Vec<u8>>)
    ensures
        path_of(r) == (match config_home_of(path_of(*xdg), path_of(*home)) {
            Some(dir) => Some(under(dir, CALIBRATION_FILE@)),
            None => None,
        }),
{
    match config_home(xdg, home) {
        Some(dir) => Some(join_bytes(dir.as_slice(), CALIBRATION_FILE)),
        None => None,
    }
}

fn home_config_home(home: &Option<Vec<u8>>) -> (r: Option<Vec<u8>>)
    ensures
        path_of(r) == config_home_of(None, path_of(*home)),
{
    match home {
        Some(h) => Some(join_bytes(h.as_slice(), ".config")),
        None => None,
    }
}

/// Last-applied index of the user with this home directory. Never below
/// `XDG_CONFIG_HOME`: the boot service that reads it knows only the home directory.
pub fn last_profile_path(home: &Option<Vec<u8>>) -> (r: Option<Vec<u8>>)
    ensures
        path_of(r) == (match path_of(*home) {
            Some(h) => Some(under(under(h, ".config"@), LAST_PROFILE_FILE@)),
            None => None,
        }),
{
    match home_config_home(home) {
        Some(dir) => Some(last_profile_path_under(dir.as_slice())),
        None => None,
    }
}

/// Last-applied index under an explicit config directory.
pub fn last_profile_path_under(config_home: &[u8]) -> (r: Vec<u8>)
    ensures
        r@ == under(config_home@, LAST_PROFILE_FILE@),
{
    join_bytes(config_home, LAST_PROFILE_FILE)
}

/// The record of an index.
pub open spec fn record_text(index: u8) -> Seq<char> {
    decimal_text(index as nat).push('\n')
}

/// The record that lets an index be reapplied after the firmware resets it.
pub fn remember(index: u8) -> (r: String)
    ensures
        r@ == record_text(index),
{
    let mut out = decimal(index as u64);
    out.push('\n');
    out
}

/// The index a record holds, if it holds one.
pub open spec fn recorded(contents: Seq<char>) -> Option<nat> {
    decimal_value(trimmed(contents), 255)
}

/// Reads back a record.
pub fn remembered(contents: &str) -> (r: Option<u8>)
    ensures
        match r {
            Some(index) => recorded(contents@) == Some(index as nat),
            None => recorded(contents@) is None,
        },
{
    parse_u8(trim(contents).as_str())
}

/// What was recorded is what is read back.
pub proof fn law_record_round_trip(index: u8)
    ensures
        recorded(record_text(index)) == Some(index as nat),
{
    let digits = decimal_text(index as nat);
    lemma_decimal_text(index as nat);
    lemma_digits_not_space(digits, 10);
    lemma_trimmed_line(digits);
    law_decimal_round_trip(index as nat, 255);
}

/// The tiers are spread evenly: a tier's place lies within half a step of its share of the
/// ladder.
pub proof fn law_tiers_are_spread_evenly(tier: int, count: int)
    requires
        0 <= tier <= 4,
        1 <= count,
    ensures
        tier * (count - 1) - 2 <= 4 * tier_place(tier, count) <= tier * (count - 1) + 1,
{
    let m = tier * (count - 1);
    assert(4 * ((m + 1) / 4) <= m + 1 < 4 * ((m + 1) / 4) + 4);
}

/// A calibration that is no ranking stands for no tier and shows none.
pub proof fn law_unranked_calibration_drives_nothing(
    calibration: Calibration,
    tier: u8,
    index: u8,
    preferred: Option<u8>,
    r: Option<u8>,
)
    requires
        !calibration.measured || calibration.profiles@.len() < 2,
        calibration.answers(index, preferred, r),
    ensures
        calibration.index_at_tier(tier) is None,
        r is None,
{
}

/// An index that no profile has is followed by the first profile.
pub proof fn law_unknown_index_is_followed_by_the_first(calibration: Calibration, index: u8)
    requires
        calibration.profiles@.len() > 0,
        forall|i: int|
            0 <= i < calibration.profiles@.len() ==> (#[trigger] calibration.profiles@[i]).index
                != index,
    ensures
        calibration.successor(index) == Some(calibration.profiles@[0].index),
{
    lemma_place_of(calibration.profiles@, index);
}

/// A calibration no longer describes a firmware that lost one of its profiles, gained one, or
/// is another firmware, where both are known.
pub proof fn law_changed_firmware_is_noticed(
    calibration: Calibration,
    supported: Seq<u8>,
    firmware: Seq<char>,
    index: u8,
)
    requires
        calibration.describes(supported, firmware),
    ensures
        calibration.profiles@.len() > 0,
        (exists|i: int|
            0 <= i < calibration.profiles@.len() && (#[trigger] calibration.profiles@[i]).index
                == index) ==> supported.contains(index),
        calibration.advertised@.len() > 0 && supported.contains(index)
            ==> calibration.advertised@.contains(index),
        calibration.advertised@.len() > 0 && calibration.advertised@.contains(index)
            ==> supported.contains(index),
        calibration.advertised@.len() > 0 && firmware.len() > 0 && calibration.firmware@.len() > 0
            ==> calibration.firmware@ == firmware,
{
}

/// An index is supported where its place in the mask, counted from the lowest bit, holds a
/// one.
pub proof fn law_bits_are_counted_from_the_lowest(mask: u8, n: u8)
    requires
        n < 8,
    ensures
        bit_set(mask, n) <==> (mask >> n) % 2 == 1,
        MAX_INDICES == 8,
{
    assert(mask & (1u8 << n) != 0 <==> (mask >> n) % 2 == 1) by (bit_vector)
        requires
            n < 8,
    ;
}

/// The mask reads as hexadecimal behind its prefix, in either case, and as decimal without
/// one.
pub proof fn law_mask_is_hexadecimal_behind_its_prefix(digits: Seq<char>, n: u8)
    requires
        digits.len() > 0,
        !crate::text::is_space(digits[0]),
        !crate::text::is_space(digits.last()),
    ensures
        mask_value((seq!['0', 'x'] + digits).push('\n')) == unsigned_value(digits, 16, 255),
        mask_value((seq!['0', 'X'] + digits).push('\n')) == unsigned_value(digits, 16, 255),
        mask_value(decimal_text(n as nat).push('\n')) == Some(n as nat),
{
    let small = seq!['0', 'x'] + digits;
    let large = seq!['0', 'X'] + digits;
    assert(small.last() == digits.last() && large.last() == digits.last());
    crate::text::lemma_trimmed_line(small);
    crate::text::lemma_trimmed_line(large);
    assert(small.skip(2) == digits);
    assert(large.skip(2) == digits);
    let text = decimal_text(n as nat);
    crate::number::lemma_decimal_text(n as nat);
    crate::number::lemma_digits_not_space(text, 10);
    crate::number::law_decimal_round_trip(n as nat, 255);
    crate::text::lemma_trimmed_line(text);
    if text.len() >= 2 {
        assert(crate::number::digit_value(text[1], 10) is Some);
    }
}

/// The user's own configuration directory counts where it is absolute; otherwise it is
/// `.config` in the user's home.
pub proof fn law_config_home_follows_the_environment(dir: Seq<u8>, home: Seq<u8>)
    ensures
        dir.len() > 0 && dir[0] == 0x2f ==> config_home_of(Some(dir), Some(home)) == Some(dir),
        dir.len() == 0 || dir[0] != 0x2f ==> config_home_of(Some(dir), Some(home)) == Some(
            under(home, ".config"@),
        ),
        config_home_of(None, Some(home)) == Some(under(home, ".config"@)),
        config_home_of(None, None) is None,
{
}

/// The files of the profiles.
pub proof fn law_profile_files()
    ensures
        CALIBRATION_FILE@ == "predator-sense/thermal_profiles.json"@,
        LAST_PROFILE_FILE@ == "predator-sense/thermal_profile"@,
        DMI_BIOS_VERSION@ == "class/dmi/id/bios_version"@,
        SYSFS_ROOT@ == "/sys"@,
        TIERS == 5,
{
}

} // verus!
