//! Raw firmware thermal profiles, ranked by the power they actually deliver.
//!
//! The application writes each index the firmware advertises, waits for it to settle, and
//! samples the package power limits. Nothing here runs on its own: probing switches
//! profiles, which the user can feel.

use vstd::prelude::*;

use crate::hardware::request::Request;
use crate::number::{decimal, decimal_text, decimal_value, parse_u64, parse_u8};
use crate::order::{first_name, text_le};
use crate::paths::{join_path, joined_path};
use crate::protocol::helper::Action;
use crate::protocol::thermal_profile::{
    bit_set, indices_from_mask, mask_value, parse_mask, Calibration, Measured, MAX_INDICES,
    SYSFS_INDEX, SYSFS_ROOT, SYSFS_SUPPORTED,
};
use crate::text::{
    cat3, cat4, chars_of, outcome, same, stands_at, starts_with, text_of, texts, trim, trimmed,
};

verus! {

/// The RAPL zone that a thermal profile reprograms, by its name: zones are numbered by
/// discovery and not by identity.
pub const PACKAGE_ZONE: &'static str = "package-0";

/// The sustained and the burst limit of a zone.
pub const PL1_ATTRIBUTE: &'static str = "constraint_0_power_limit_uw";

pub const PL2_ATTRIBUTE: &'static str = "constraint_1_power_limit_uw";

/// How long the firmware needs to reprogram the limits after the index is written.
pub const SETTLE_MS: u64 = 1500;

/// How many times one index is written and confirmed before calibration gives up on it.
pub const SETTLE_ATTEMPTS: u8 = 3;

/// The attribute that holds the active index.
pub fn index_path() -> (r: String)
    ensures
        r@ == joined_path(SYSFS_ROOT@, SYSFS_INDEX@),
{
    join_path(SYSFS_ROOT, SYSFS_INDEX)
}

/// The attribute that holds the mask of supported indices.
pub fn supported_path() -> (r: String)
    ensures
        r@ == joined_path(SYSFS_ROOT@, SYSFS_SUPPORTED@),
{
    join_path(SYSFS_ROOT, SYSFS_SUPPORTED)
}

/// Whether this machine exposes the raw interface, given which of its two attributes exist.
pub fn is_available(index_exists: bool, supported_exists: bool) -> (r: bool)
    ensures
        r == (index_exists && supported_exists),
        r ==> index_exists && supported_exists,
        index_exists && supported_exists ==> r,
{
    index_exists && supported_exists
}

/// The active index, given what its attribute holds.
pub open spec fn active_index(contents: Option<Seq<char>>) -> Option<nat> {
    match contents {
        Some(text) => decimal_value(trimmed(text), 255),
        None => None,
    }
}

/// The active index, given what its attribute holds.
pub fn current(contents: &Option<String>) -> (r: Option<u8>)
    ensures
        match r {
            Some(n) => active_index(text_of(*contents)) == Some(n as nat),
            None => active_index(text_of(*contents)) is None,
        },
{
    match contents {
        Some(text) => parse_u8(trim(text.as_str()).as_str()),
        None => None,
    }
}

/// The mask that its attribute holds; no bits where it cannot be read.
pub open spec fn supported_mask(contents: Option<Seq<char>>) -> nat {
    match contents {
        Some(text) => match mask_value(text) {
            Some(m) => m,
            None => 0,
        },
        None => 0,
    }
}

/// The indices the firmware says it accepts, in increasing order, given what the mask's
/// attribute holds; none where it cannot be read.
pub fn supported(contents: &Option<String>) -> (r: Vec<u8>)
    ensures
        forall|n: u8|
            #[trigger] r@.contains(n) <==> n < MAX_INDICES && bit_set(
                supported_mask(text_of(*contents)) as u8,
                n,
            ),
        forall|i: int, j: int| 0 <= i < j < r@.len() ==> r@[i] < r@[j],
{
    let mask: u8 = match contents {
        Some(text) => match parse_mask(text.as_str()) {
            Some(m) => m,
            None => 0,
        },
        None => 0,
    };
    indices_from_mask(mask)
}

/// Asks the helper to apply an index.
pub fn set(index: u8) -> (r: Request)
    ensures
        r.asks(Action::ThermalProfile, seq![decimal_text(index as nat)]),
        r.action is ThermalProfile,
        decimal_value(texts(r.args@)[0], 255) == Some(index as nat),
{
    proof {
        crate::number::law_decimal_round_trip(index as nat, 255);
    }
    Request::with(Action::ThermalProfile, decimal(index as u64).as_str())
}

// ---------------------------------------------------------------------------
// Power limits
// ---------------------------------------------------------------------------

/// One entry of the powercap class.
pub struct Zone {
    /// The entry's name, such as `intel-rapl:0`.
    pub name: String,
    /// What its `name` attribute holds, where it can be read.
    pub label: Option<String>,
}

/// Whether a name is a top-level zone of a driver: `intel-rapl:0` but not the subzone
/// `intel-rapl:0:0`.
pub open spec fn is_zone_of(name: Seq<char>, driver: Seq<char>) -> bool {
    &&& stands_at(name, driver, 0)
    &&& name.len() > driver.len()
    &&& name[driver.len() as int] == ':'
    &&& forall|i: int| driver.len() < i < name.len() ==> #[trigger] name[i] != ':'
}

/// Whether an entry is the package zone of a driver.
pub open spec fn is_package(zone: Zone, driver: Seq<char>) -> bool {
    is_zone_of(zone.name@, driver) && zone.label is Some && trimmed(zone.label->0@)
        == PACKAGE_ZONE@
}

fn zone_of(name: &str, driver: &str) -> (r: bool)
    ensures
        r == is_zone_of(name@, driver@),
{
    if !starts_with(name, driver) {
        return false;
    }
    let v = chars_of(name);
    let d: usize = chars_of(driver).len();
    if v.len() <= d || v[d] != ':' {
        return false;
    }
    let mut i: usize = d + 1;
    while i < v.len()
        invariant
            d < i <= v@.len(),
            v@ == name@,
            d == driver@.len(),
            forall|k: int| d < k < i ==> #[trigger] v@[k] != ':',
        decreases v@.len() - i,
    {
        if v[i] == ':' {
            assert(name@[i as int] == ':');
            return false;
        }
        i = i + 1;
    }
    true
}

fn package(zone: &Zone, driver: &str) -> (r: bool)
    ensures
        r == is_package(*zone, driver@),
{
    zone_of(zone.name.as_str(), driver) && match &zone.label {
        Some(text) => same(trim(text.as_str()).as_str(), PACKAGE_ZONE),
        None => false,
    }
}

/// The package zones of a driver.
pub open spec fn packages(zones: Seq<Zone>, driver: Seq<char>) -> Seq<Seq<char>>
    decreases zones.len(),
{
    if zones.len() == 0 {
        seq![]
    } else {
        let before = packages(zones.drop_last(), driver);
        if is_package(zones.last(), driver) {
            before.push(zones.last().name@)
        } else {
            before
        }
    }
}

fn package_names(zones: &Vec<Zone>, driver: &str) -> (r: Vec<String>)
    ensures
        texts(r@) == packages(zones@, driver@),
{
    let mut out: Vec<String> = Vec::new();
    let mut i: usize = 0;
    assert(texts(out@) == packages(zones@.take(0), driver@));
    while i < zones.len()
        invariant
            i <= zones@.len(),
            texts(out@) == packages(zones@.take(i as int), driver@),
        decreases zones@.len() - i,
    {
        let ghost t = zones@.take(i + 1);
        assert(t.drop_last() == zones@.take(i as int));
        assert(t.last() == zones@[i as int]);
        if package(&zones[i], driver) {
            let ghost before = texts(out@);
            let name = zones[i].name.clone();
            out.push(name);
            assert(texts(out@) == before.push(name@));
        }
        i = i + 1;
    }
    assert(zones@.take(i as int) == zones@);
    out
}

/// Whether a name is the first in order of the names.
pub open spec fn is_first(names: Seq<Seq<char>>, name: Seq<char>) -> bool {
    names.contains(name) && forall|i: int|
        0 <= i < names.len() ==> text_le(name, #[trigger] names[i])
}

/// The package zone to sample: of the driver that the firmware actually reprograms where it
/// has one, of the other otherwise; the first by name, so that a machine with two resolves
/// the same way every time.
pub fn package_limits(zones: &Vec<Zone>) -> (r: Option<String>)
    ensures
        ({
            let mmio = packages(zones@, "intel-rapl-mmio"@);
            let plain = packages(zones@, "intel-rapl"@);
            match r {
                Some(zone) => if mmio.len() > 0 {
                    is_first(mmio, zone@)
                } else {
                    is_first(plain, zone@)
                },
                None => mmio.len() == 0 && plain.len() == 0,
            }
        }),
        packages(zones@, "intel-rapl-mmio"@).len() > 0 ==> r is Some && packages(
            zones@,
            "intel-rapl-mmio"@,
        ).contains(r->0@),
{
    let mmio = package_names(zones, "intel-rapl-mmio");
    match first_name(&mmio) {
        Some(zone) => {
            proof {
                let names = texts(mmio@);
                assert forall|i: int| 0 <= i < names.len() implies text_le(
                    zone@,
                    #[trigger] names[i],
                ) by {
                    assert(names[i] == mmio@[i]@);
                }
            }
            return Some(zone);
        },
        None => {},
    }
    let plain = package_names(zones, "intel-rapl");
    let r = first_name(&plain);
    proof {
        let names = texts(plain@);
        assert forall|i: int| 0 <= i < names.len() && r is Some implies text_le(
            r->0@,
            #[trigger] names[i],
        ) by {
            assert(names[i] == plain@[i]@);
        }
    }
    r
}

/// A power limit, given what its attribute holds.
pub open spec fn limit_value(contents: Option<Seq<char>>) -> Option<nat> {
    match contents {
        Some(text) => decimal_value(trimmed(text), 0xffff_ffff_ffff_ffff),
        None => None,
    }
}

/// A power limit in microwatts, given what its attribute holds.
pub fn sample_limit(contents: &Option<String>) -> (r: Option<u64>)
    ensures
        match r {
            Some(n) => limit_value(text_of(*contents)) == Some(n as nat),
            None => limit_value(text_of(*contents)) is None,
        },
{
    match contents {
        Some(text) => parse_u64(trim(text.as_str()).as_str()),
        None => None,
    }
}

// ---------------------------------------------------------------------------
// Judging the readings
// ---------------------------------------------------------------------------

/// Whether samples tell the profiles apart: every one has a sustained reading, all or none
/// have a burst reading, and at least two differ. A missing limit ranks as zero watts, so a
/// partial set is no ranking; equal ones do not track the profile.
pub open spec fn meaningful(profiles: Seq<Measured>) -> bool {
    &&& profiles.len() >= 2
    &&& forall|i: int| 0 <= i < profiles.len() ==> (#[trigger] profiles[i]).pl1_uw is Some
    &&& forall|i: int, j: int|
        0 <= i < profiles.len() && 0 <= j < profiles.len() ==> ((#[trigger] profiles[i]).pl2_uw
            is Some) == ((#[trigger] profiles[j]).pl2_uw is Some)
    &&& exists|i: int, j: int|
        0 <= i < profiles.len() && 0 <= j < profiles.len() && (#[trigger] profiles[i]).key() != (
        #[trigger] profiles[j]).key()
}

/// Whether samples tell the profiles apart.
pub fn readings_are_meaningful(profiles: &[Measured]) -> (r: bool)
    ensures
        r == meaningful(profiles@),
{
    if profiles.len() < 2 {
        return false;
    }
    let burst = profiles[0].pl2_uw.is_some();
    let first = profiles[0].rank();
    let mut differ = false;
    let mut i: usize = 0;
    while i < profiles.len()
        invariant
            i <= profiles@.len(),
            profiles@.len() >= 2,
            burst == (profiles@[0].pl2_uw is Some),
            first == profiles@[0].key(),
            forall|k: int| 0 <= k < i ==> (#[trigger] profiles@[k]).pl1_uw is Some,
            forall|k: int| 0 <= k < i ==> ((#[trigger] profiles@[k]).pl2_uw is Some) == burst,
            differ <==> exists|k: int|
                0 <= k < i && (#[trigger] profiles@[k]).key() != profiles@[0].key(),
        decreases profiles@.len() - i,
    {
        if profiles[i].pl1_uw.is_none() {
            assert(profiles@[i as int].pl1_uw is None);
            return false;
        }
        if profiles[i].pl2_uw.is_some() != burst {
            assert((profiles@[i as int].pl2_uw is Some) != (profiles@[0].pl2_uw is Some));
            return false;
        }
        let key = profiles[i].rank();
        if key.0 != first.0 || key.1 != first.1 {
            differ = true;
        }
        i = i + 1;
    }
    proof {
        if differ {
            let k = choose|k: int|
                0 <= k < profiles@.len() && (#[trigger] profiles@[k]).key() != profiles@[0].key();
            assert(profiles@[k].key() != profiles@[0].key());
        } else {
            assert forall|i: int, j: int|
                0 <= i < profiles@.len() && 0 <= j < profiles@.len() implies (
            #[trigger] profiles@[i]).key() == (#[trigger] profiles@[j]).key() by {}
        }
    }
    differ
}

/// Whether a sample is complete enough to be compared with the others: it has a sustained
/// reading, and a burst reading where any of them has one.
pub open spec fn eligible(probed: Seq<Measured>, profile: Measured) -> bool {
    profile.pl1_uw is Some && (profile.pl2_uw is Some || forall|i: int|
        0 <= i < probed.len() ==> (#[trigger] probed[i]).pl2_uw is None)
}

/// Whether `a` is weaker than `b`, or as weak and no higher in index.
pub open spec fn weaker(a: Measured, b: Measured) -> bool {
    let (a1, a2) = a.key();
    let (b1, b2) = b.key();
    a1 < b1 || (a1 == b1 && (a2 < b2 || (a2 == b2 && a.index <= b.index)))
}

/// Whether `r` is the profile to leave active when the original one cannot be restored: the
/// weakest complete one, or without one the lowest index.
pub open spec fn is_fallback(probed: Seq<Measured>, r: Option<u8>) -> bool {
    if probed.len() == 0 {
        r is None
    } else if exists|i: int| 0 <= i < probed.len() && eligible(probed, #[trigger] probed[i]) {
        exists|i: int|
            0 <= i < probed.len() && eligible(probed, #[trigger] probed[i]) && r == Some(
                probed[i].index,
            ) && forall|j: int|
                0 <= j < probed.len() && eligible(probed, #[trigger] probed[j]) ==> weaker(
                    probed[i],
                    probed[j],
                )
    } else {
        r is Some && (exists|i: int|
            0 <= i < probed.len() && (#[trigger] probed[i]).index == r->0) && forall|j: int|
            0 <= j < probed.len() ==> r->0 <= (#[trigger] probed[j]).index
    }
}

fn is_weaker(a: &Measured, b: &Measured) -> (r: bool)
    ensures
        r == weaker(*a, *b),
{
    let x = a.rank();
    let y = b.rank();
    x.0 < y.0 || (x.0 == y.0 && (x.1 < y.1 || (x.1 == y.1 && a.index <= b.index)))
}

/// Which profile to leave active when the original one cannot be restored. Not the lowest
/// index, which may be a strong profile; and only among complete samples, since a missing
/// limit would rank as the weakest.
pub fn restore_fallback(probed: &[Measured]) -> (r: Option<u8>)
    ensures
        is_fallback(probed@, r),
{
    let n: usize = probed.len();
    if n == 0 {
        return None;
    }
    let mut any_burst = false;
    let mut i: usize = 0;
    while i < n
        invariant
            i <= n == probed@.len(),
            any_burst <==> exists|k: int| 0 <= k < i && (#[trigger] probed@[k]).pl2_uw is Some,
        decreases n - i,
    {
        if probed[i].pl2_uw.is_some() {
            any_burst = true;
        }
        i = i + 1;
    }
    let mut best: Option<usize> = None;
    let mut lowest: usize = 0;
    let mut j: usize = 0;
    while j < n
        invariant
            j <= n == probed@.len(),
            n > 0,
            any_burst <==> exists|k: int|
                0 <= k < probed@.len() && (#[trigger] probed@[k]).pl2_uw is Some,
            lowest < n,
            j > 0 ==> lowest < j,
            forall|k: int|
                0 <= k < j ==> probed@[lowest as int].index <= (#[trigger] probed@[k]).index,
            match best {
                Some(b) => b < j && eligible(probed@, probed@[b as int]) && forall|k: int|
                    0 <= k < j && eligible(probed@, #[trigger] probed@[k]) ==> weaker(
                        probed@[b as int],
                        probed@[k],
                    ),
                None => forall|k: int| 0 <= k < j ==> !eligible(probed@, #[trigger] probed@[k]),
            },
        decreases n - j,
    {
        if j == 0 || probed[j].index < probed[lowest].index {
            lowest = j;
        }
        let complete = probed[j].pl1_uw.is_some() && (!any_burst || probed[j].pl2_uw.is_some());
        assert(complete == eligible(probed@, probed@[j as int]));
        if complete {
            match best {
                Some(b) => {
                    if !is_weaker(&probed[b], &probed[j]) {
                        best = Some(j);
                    }
                },
                None => {
                    best = Some(j);
                },
            }
        }
        j = j + 1;
    }
    match best {
        Some(b) => {
            assert(eligible(probed@, probed@[b as int]));
            Some(probed[b].index)
        },
        None => {
            assert(probed@[lowest as int].index == probed@[lowest as int].index);
            Some(probed[lowest].index)
        },
    }
}

// ---------------------------------------------------------------------------
// Ordering the profiles
// ---------------------------------------------------------------------------

/// Whether `a` may stand before `b`: by rank where the readings are a ranking, by index
/// otherwise.
pub open spec fn may_precede(ranked: bool, a: Measured, b: Measured) -> bool {
    if ranked {
        let (a1, a2) = a.key();
        let (b1, b2) = b.key();
        a1 < b1 || (a1 == b1 && a2 <= b2)
    } else {
        a.index <= b.index
    }
}

fn precedes(ranked: bool, a: &Measured, b: &Measured) -> (r: bool)
    ensures
        r == may_precede(ranked, *a, *b),
{
    if ranked {
        let x = a.rank();
        let y = b.rank();
        x.0 < y.0 || (x.0 == y.0 && x.1 <= y.1)
    } else {
        a.index <= b.index
    }
}

/// Puts a profile behind every profile that may precede it.
pub open spec fn placed(ranked: bool, list: Seq<Measured>, p: Measured) -> Seq<Measured>
    decreases list.len(),
{
    if list.len() == 0 || may_precede(ranked, list.last(), p) {
        list.push(p)
    } else {
        placed(ranked, list.drop_last(), p).push(list.last())
    }
}

/// The profiles in order; those that tie in the order they were probed.
pub open spec fn sorted_profiles(ranked: bool, list: Seq<Measured>) -> Seq<Measured>
    decreases list.len(),
{
    if list.len() == 0 {
        seq![]
    } else {
        placed(ranked, sorted_profiles(ranked, list.drop_last()), list.last())
    }
}

/// Whether profiles stand in order.
pub open spec fn in_power_order(ranked: bool, list: Seq<Measured>) -> bool {
    forall|i: int, j: int|
        0 <= i <= j < list.len() ==> may_precede(ranked, #[trigger] list[i], #[trigger] list[j])
}

proof fn lemma_placed(ranked: bool, list: Seq<Measured>, p: Measured)
    requires
        in_power_order(ranked, list),
    ensures
        in_power_order(ranked, placed(ranked, list, p)),
        placed(ranked, list, p).to_multiset() == list.to_multiset().insert(p),
        forall|x: Measured|
            #[trigger] placed(ranked, list, p).contains(x) ==> list.contains(x) || x == p,
        placed(ranked, list, p).len() == list.len() + 1,
    decreases list.len(),
{
    if list.len() == 0 || may_precede(ranked, list.last(), p) {
        let all = list.push(p);
        list.to_multiset_ensures();
        assert forall|x: Measured| #[trigger] all.contains(x) implies list.contains(x) || x
            == p by {
            let i = choose|i: int| 0 <= i < all.len() && all[i] == x;
            if i < list.len() {
                assert(list[i] == x);
            }
        }
        assert forall|i: int, j: int| 0 <= i <= j < all.len() implies may_precede(
            ranked,
            #[trigger] all[i],
            #[trigger] all[j],
        ) by {
            if j == list.len() && i < list.len() {
                assert(may_precede(ranked, list[i], list[list.len() - 1]));
            }
        }
    } else {
        let front = list.drop_last();
        let last = list.last();
        lemma_placed(ranked, front, p);
        let inner = placed(ranked, front, p);
        let all = inner.push(last);
        inner.to_multiset_ensures();
        front.to_multiset_ensures();
        assert(list == front.push(last));
        assert(all.to_multiset() =~= list.to_multiset().insert(p));
        assert forall|x: Measured| #[trigger] all.contains(x) implies list.contains(x) || x
            == p by {
            let i = choose|i: int| 0 <= i < all.len() && all[i] == x;
            if i < inner.len() {
                assert(inner[i] == x);
                assert(inner.contains(x));
                if front.contains(x) {
                    let j = choose|j: int| 0 <= j < front.len() && front[j] == x;
                    assert(list[j] == x);
                }
            } else {
                assert(list[list.len() - 1] == x);
            }
        }
        assert forall|i: int, j: int| 0 <= i <= j < all.len() implies may_precede(
            ranked,
            #[trigger] all[i],
            #[trigger] all[j],
        ) by {
            if j == inner.len() && i < inner.len() {
                let x = inner[i];
                assert(inner.contains(x));
                if front.contains(x) {
                    let k = choose|k: int| 0 <= k < front.len() && front[k] == x;
                    assert(list[k] == x);
                    assert(may_precede(ranked, list[k], list[list.len() - 1]));
                }
            }
        }
    }
}

/// Sorting orders the profiles and loses none.
pub proof fn law_profiles_are_ordered(ranked: bool, list: Seq<Measured>)
    ensures
        in_power_order(ranked, sorted_profiles(ranked, list)),
        sorted_profiles(ranked, list).to_multiset() == list.to_multiset(),
        sorted_profiles(ranked, list).len() == list.len(),
    decreases list.len(),
{
    if list.len() == 0 {
        assert(sorted_profiles(ranked, list) == list);
    } else {
        let front = list.drop_last();
        law_profiles_are_ordered(ranked, front);
        lemma_placed(ranked, sorted_profiles(ranked, front), list.last());
        front.to_multiset_ensures();
        assert(list == front.push(list.last()));
    }
}

fn place(ranked: bool, list: &mut Vec<Measured>, p: Measured)
    ensures
        final(list)@ == placed(ranked, old(list)@, p),
{
    let ghost all = list@;
    let mut at: usize = list.len();
    let ghost mut tail: Seq<Measured> = seq![];
    assert(all.take(at as int) == all);
    assert(placed(ranked, all, p) + tail == placed(ranked, all, p));
    while at > 0 && !precedes(ranked, &list[at - 1], &p)
        invariant
            at <= list@.len(),
            all == list@,
            tail == all.skip(at as int),
            placed(ranked, all, p) == placed(ranked, all.take(at as int), p) + tail,
        decreases at,
    {
        proof {
            let t = all.take(at as int);
            assert(t.last() == all[at - 1]);
            assert(t.drop_last() == all.take(at - 1));
            assert(placed(ranked, t, p) == placed(ranked, t.drop_last(), p).push(t.last()));
            assert(placed(ranked, t.drop_last(), p).push(t.last()) + tail == placed(
                ranked,
                t.drop_last(),
                p,
            ) + (seq![t.last()] + tail));
            assert(seq![t.last()] + tail == all.skip(at - 1));
            tail = all.skip(at - 1);
        }
        at = at - 1;
    }
    proof {
        let t = all.take(at as int);
        if t.len() > 0 {
            assert(t.last() == all[at - 1]);
        }
        assert(placed(ranked, t, p) == t.push(p));
    }
    list.insert(at, p);
    assert(list@ == all.take(at as int).push(p) + all.skip(at as int));
}

/// Whether `calibration` is what these samples come to.
pub open spec fn concludes(
    samples: Seq<Measured>,
    advertised: Seq<u8>,
    firmware: Seq<char>,
    calibration: Calibration,
) -> bool {
    &&& calibration.measured == meaningful(samples)
    &&& calibration.profiles@ == sorted_profiles(meaningful(samples), samples)
    &&& calibration.advertised@ == advertised
    &&& calibration.firmware@ == firmware
}

/// What the samples come to: a ranking where they tell the profiles apart, the index order
/// otherwise. Records what the firmware advertised, and not only what could be probed.
pub fn conclude(samples: &Vec<Measured>, advertised: Vec<u8>, firmware: String) -> (r: Calibration)
    ensures
        concludes(samples@, advertised@, firmware@, r),
{
    let measured = readings_are_meaningful(samples.as_slice());
    let mut profiles: Vec<Measured> = Vec::new();
    let mut i: usize = 0;
    assert(samples@.take(0) == Seq::<Measured>::empty());
    while i < samples.len()
        invariant
            i <= samples@.len(),
            profiles@ == sorted_profiles(measured, samples@.take(i as int)),
        decreases samples@.len() - i,
    {
        let ghost t = samples@.take(i + 1);
        assert(t.drop_last() == samples@.take(i as int));
        assert(t.last() == samples@[i as int]);
        place(measured, &mut profiles, samples[i]);
        i = i + 1;
    }
    assert(samples@.take(i as int) == samples@);
    Calibration { profiles, measured, advertised, firmware }
}

/// A ranked calibration's strongest profile is one that no sample outranks, and its weakest
/// one that outranks none.
pub proof fn law_extremes_are_the_real_extremes(
    samples: Seq<Measured>,
    advertised: Seq<u8>,
    firmware: Seq<char>,
    calibration: Calibration,
    i: int,
)
    requires
        concludes(samples, advertised, firmware, calibration),
        calibration.ranked(),
        0 <= i < calibration.profiles@.len(),
    ensures
        may_precede(true, calibration.profiles@[i], calibration.profiles@.last()),
        may_precede(true, calibration.profiles@[0], calibration.profiles@[i]),
{
    law_profiles_are_ordered(true, samples);
}

// ---------------------------------------------------------------------------
// The course of a calibration
// ---------------------------------------------------------------------------

/// Where a calibration stands; `T` is what text is kept as.
#[derive(Debug)]
pub enum ProbeStage<T> {
    /// The index at this place is to be written. It was refused `refusals` times in a row,
    /// and this is the write before settling attempt `attempt`.
    Apply { at: usize, refusals: u8, attempt: u8 },
    /// The index is to settle, and then the active index and the limits are to be read.
    Settle { at: usize, attempt: u8 },
    /// Probing ended; the original index is to be written back.
    Restore { index: u8, end: Result<(), T> },
    /// The original index could not be restored; this one is to be written instead.
    Fallback { index: u8, end: Result<(), T> },
    Finished(Result<(), T>),
}

/// A stage with its texts taken as characters.
pub open spec fn stage_view(stage: ProbeStage<String>) -> ProbeStage<Seq<char>> {
    match stage {
        ProbeStage::Apply { at, refusals, attempt } => ProbeStage::Apply { at, refusals, attempt },
        ProbeStage::Settle { at, attempt } => ProbeStage::Settle { at, attempt },
        ProbeStage::Restore { index, end } => ProbeStage::Restore { index, end: outcome(end) },
        ProbeStage::Fallback { index, end } => ProbeStage::Fallback { index, end: outcome(end) },
        ProbeStage::Finished(end) => ProbeStage::Finished(outcome(end)),
    }
}

/// A calibration in progress.
#[derive(Debug)]
pub struct Probe {
    /// The indices the firmware advertises.
    pub indices: Vec<u8>,
    /// The active index when the calibration started, where it could be read.
    pub original: Option<u8>,
    /// The samples taken so far.
    pub samples: Vec<Measured>,
    pub stage: ProbeStage<String>,
}

/// What became of a step.
pub enum ProbeEvent {
    /// The index was written.
    Applied,
    /// The firmware refused the index.
    Rejected,
    /// The write never reached the hardware, for this reason.
    NotAuthorized(String),
    /// The index had time to settle; this is what the machine shows now.
    Settled { active: Option<u8>, pl1_uw: Option<u64>, pl2_uw: Option<u64> },
}

/// The error of a write that never reached the hardware.
pub open spec fn not_applied(index: u8, cause: Seq<char>) -> Seq<char> {
    "thermal profile "@ + decimal_text(index as nat) + " could not be applied: "@ + cause
}

/// The error of an index that did not stay put.
pub open spec fn not_settled(index: u8) -> Seq<char> {
    "thermal profile "@ + decimal_text(index as nat)
        + " would not stay set long enough to measure - something else is changing profiles; try again"@
}

/// The error where every index was refused.
pub open spec fn all_refused() -> Seq<char> {
    "firmware refused every profile it advertised"@
}

impl Probe {
    /// Whether the stage names an index that there is.
    pub open spec fn wf(self) -> bool {
        match self.stage {
            ProbeStage::Apply { at, refusals, attempt } => at < self.indices@.len() && refusals
                < SETTLE_ATTEMPTS && 1 <= attempt <= SETTLE_ATTEMPTS,
            ProbeStage::Settle { at, attempt } => at < self.indices@.len() && 1 <= attempt
                <= SETTLE_ATTEMPTS,
            _ => true,
        }
    }

    /// Where a calibration that ends in `end` stands: the machine is put back whatever the
    /// end. An original index that could not be read takes the same way as one that cannot
    /// be restored.
    pub open spec fn leads_back(
        original: Option<u8>,
        samples: Seq<Measured>,
        end: Result<(), Seq<char>>,
        stage: ProbeStage<Seq<char>>,
    ) -> bool {
        match original {
            Some(index) => stage == (ProbeStage::<Seq<char>>::Restore { index, end }),
            None => Probe::falls_back(samples, end, stage),
        }
    }

    /// Where a calibration whose original index is not restored stands.
    pub open spec fn falls_back(
        samples: Seq<Measured>,
        end: Result<(), Seq<char>>,
        stage: ProbeStage<Seq<char>>,
    ) -> bool {
        match stage {
            ProbeStage::Fallback { index, end: e } => is_fallback(samples, Some(index)) && e == end,
            ProbeStage::Finished(e) => is_fallback(samples, None) && e == end,
            _ => false,
        }
    }

    /// Where a calibration stands that is done with the index at place `at`.
    pub open spec fn goes_on(
        indices: Seq<u8>,
        original: Option<u8>,
        samples: Seq<Measured>,
        at: int,
        stage: ProbeStage<Seq<char>>,
    ) -> bool {
        if at + 1 < indices.len() {
            stage == (ProbeStage::<Seq<char>>::Apply { at: (at + 1) as usize, refusals: 0, attempt: 1 })
        } else if samples.len() == 0 {
            Probe::leads_back(original, samples, Err(all_refused()), stage)
        } else {
            Probe::leads_back(original, samples, Ok(()), stage)
        }
    }

    /// How a calibration goes on after a step: its samples and its stage. An index that is
    /// refused every time is skipped; one that does not stay put, or whose write never
    /// reached the hardware, ends the calibration.
    pub open spec fn continues(
        self,
        event: ProbeEvent,
        samples: Seq<Measured>,
        stage: ProbeStage<Seq<char>>,
    ) -> bool {
        let indices = self.indices@;
        match (self.stage, event) {
            (ProbeStage::Apply { at, attempt, .. }, ProbeEvent::Applied) => samples
                == self.samples@ && stage == (ProbeStage::<Seq<char>>::Settle { at, attempt }),
            (
                ProbeStage::Apply { at, refusals, attempt },
                ProbeEvent::Rejected,
            ) => if refusals + 1 < SETTLE_ATTEMPTS {
                samples == self.samples@ && stage == (ProbeStage::<Seq<char>>::Apply {
                    at,
                    refusals: (refusals + 1) as u8,
                    attempt,
                })
            } else {
                samples == self.samples@ && Probe::goes_on(
                    indices,
                    self.original,
                    self.samples@,
                    at as int,
                    stage,
                )
            },
            (
                ProbeStage::Apply { at, .. },
                ProbeEvent::NotAuthorized(cause),
            ) => samples == self.samples@ && Probe::leads_back(
                self.original,
                self.samples@,
                Err(not_applied(indices[at as int], cause@)),
                stage,
            ),
            (
                ProbeStage::Settle { at, attempt },
                ProbeEvent::Settled { active, pl1_uw, pl2_uw },
            ) => {
                let index = indices[at as int];
                if active == Some(index) {
                    samples == self.samples@.push(Measured { index, pl1_uw, pl2_uw })
                        && Probe::goes_on(indices, self.original, samples, at as int, stage)
                } else if attempt < SETTLE_ATTEMPTS {
                    samples == self.samples@ && stage == (ProbeStage::<Seq<char>>::Apply {
                        at,
                        refusals: 0,
                        attempt: (attempt + 1) as u8,
                    })
                } else {
                    samples == self.samples@ && Probe::leads_back(
                        self.original,
                        self.samples@,
                        Err(not_settled(index)),
                        stage,
                    )
                }
            },
            (
                ProbeStage::Restore { end, .. },
                ProbeEvent::Applied,
            ) => samples == self.samples@ && stage == ProbeStage::Finished(outcome(end)),
            (ProbeStage::Restore { end, .. }, _) => samples == self.samples@ && Probe::falls_back(
                self.samples@,
                outcome(end),
                stage,
            ),
            (ProbeStage::Fallback { end, .. }, _) => samples == self.samples@ && stage
                == ProbeStage::Finished(outcome(end)),
            _ => samples == self.samples@ && stage == stage_view(self.stage),
        }
    }

    /// Starts a calibration of a machine that exposes the interface and advertises these
    /// indices.
    pub fn start(available: bool, indices: Vec<u8>, original: Option<u8>) -> (r: Result<
        Self,
        String,
    >)
        ensures
            match r {
                Ok(probe) => {
                    &&& available
                    &&& indices@.len() > 0
                    &&& probe.wf()
                    &&& probe.indices == indices
                    &&& probe.original == original
                    &&& probe.samples@.len() == 0
                    &&& stage_view(probe.stage) == (ProbeStage::<Seq<char>>::Apply {
                        at: 0,
                        refusals: 0,
                        attempt: 1,
                    })
                },
                Err(e) => e@ == (if !available {
                    "this machine does not expose thermal_profile"@
                } else {
                    "firmware reported no supported thermal profiles"@
                }) && (!available || indices@.len() == 0),
            },
    {
        if !available {
            return Err("this machine does not expose thermal_profile".to_owned());
        }
        if indices.len() == 0 {
            return Err("firmware reported no supported thermal profiles".to_owned());
        }
        Ok(
            Probe {
                indices,
                original,
                samples: Vec::new(),
                stage: ProbeStage::Apply { at: 0, refusals: 0, attempt: 1 },
            },
        )
    }

    /// The index that is to be written, if one is.
    pub fn pending_write(&self) -> (r: Option<u8>)
        requires
            self.wf(),
        ensures
            r == (match self.stage {
                ProbeStage::Apply { at, .. } => Some(self.indices@[at as int]),
                ProbeStage::Restore { index, .. } => Some(index),
                ProbeStage::Fallback { index, .. } => Some(index),
                _ => None,
            }),
            // Something is written while an index is measured, put back or fallen back to.
            r is Some <==> self.stage is Apply || self.stage is Restore || self.stage is Fallback,
            self.stage matches ProbeStage::Restore { index, .. } ==> r == Some(index),
            self.stage matches ProbeStage::Fallback { index, .. } ==> r == Some(index),
            self.stage matches ProbeStage::Apply { at, .. } ==> r == Some(self.indices@[at as int]),
    {
        match &self.stage {
            ProbeStage::Apply { at, .. } => Some(self.indices[*at]),
            ProbeStage::Restore { index, .. } => Some(*index),
            ProbeStage::Fallback { index, .. } => Some(*index),
            _ => None,
        }
    }

    /// Takes note of what became of the step that was due.
    pub fn step(self, event: ProbeEvent) -> (r: Self)
        requires
            self.wf(),
        ensures
            r.wf(),
            r.indices == self.indices,
            r.original == self.original,
            self.continues(event, r.samples@, stage_view(r.stage)),
    {
        let indices = self.indices;
        let original = self.original;
        let mut samples = self.samples;
        let stage = match (self.stage, event) {
            (ProbeStage::Apply { at, attempt, .. }, ProbeEvent::Applied) => ProbeStage::Settle {
                at,
                attempt,
            },
            (
                ProbeStage::Apply { at, refusals, attempt },
                ProbeEvent::Rejected,
            ) => if refusals + 1 < SETTLE_ATTEMPTS {
                ProbeStage::Apply { at, refusals: refusals + 1, attempt }
            } else {
                after_index(indices.len(), original, &samples, at)
            },
            (ProbeStage::Apply { at, .. }, ProbeEvent::NotAuthorized(cause)) => lead_back(
                original,
                &samples,
                Err(
                    cat4(
                        "thermal profile ",
                        decimal(indices[at] as u64).as_str(),
                        " could not be applied: ",
                        cause.as_str(),
                    ),
                ),
            ),
            (
                ProbeStage::Settle { at, attempt },
                ProbeEvent::Settled { active, pl1_uw, pl2_uw },
            ) => {
                let index: u8 = indices[at];
                let held = match active {
                    Some(a) => a == index,
                    None => false,
                };
                if held {
                    samples.push(Measured { index, pl1_uw, pl2_uw });
                    after_index(indices.len(), original, &samples, at)
                } else if attempt < SETTLE_ATTEMPTS {
                    ProbeStage::Apply { at, refusals: 0, attempt: attempt + 1 }
                } else {
                    lead_back(
                        original,
                        &samples,
                        Err(
                            cat3(
                                "thermal profile ",
                                decimal(index as u64).as_str(),
                                " would not stay set long enough to measure - something else is changing profiles; try again",
                            ),
                        ),
                    )
                }
            },
            (ProbeStage::Restore { end, .. }, ProbeEvent::Applied) => ProbeStage::Finished(end),
            (ProbeStage::Restore { end, .. }, _) => fall_back(&samples, end),
            (ProbeStage::Fallback { end, .. }, _) => ProbeStage::Finished(end),
            (other, _) => other,
        };
        Probe { indices, original, samples, stage }
    }
}

fn fall_back(samples: &Vec<Measured>, end: Result<(), String>) -> (r: ProbeStage<String>)
    ensures
        Probe::falls_back(samples@, outcome(end), stage_view(r)),
        r is Fallback || r is Finished,
{
    match restore_fallback(samples) {
        Some(index) => ProbeStage::Fallback { index, end },
        None => ProbeStage::Finished(end),
    }
}

fn lead_back(original: Option<u8>, samples: &Vec<Measured>, end: Result<(), String>) -> (r:
    ProbeStage<String>)
    ensures
        Probe::leads_back(original, samples@, outcome(end), stage_view(r)),
        r is Restore || r is Fallback || r is Finished,
{
    match original {
        Some(index) => ProbeStage::Restore { index, end },
        None => fall_back(samples, end),
    }
}

fn after_index(count: usize, original: Option<u8>, samples: &Vec<Measured>, at: usize) -> (r:
    ProbeStage<String>)
    requires
        at < count,
    ensures
        forall|indices: Seq<u8>|
            indices.len() == count ==> #[trigger] Probe::goes_on(
                indices,
                original,
                samples@,
                at as int,
                stage_view(r),
            ),
        match r {
            ProbeStage::Apply { at: next, refusals, attempt } => next < count && refusals == 0
                && attempt == 1,
            ProbeStage::Settle { .. } => false,
            _ => true,
        },
{
    if count - at > 1 {
        ProbeStage::Apply { at: at + 1, refusals: 0, attempt: 1 }
    } else if samples.len() == 0 {
        lead_back(
            original,
            samples,
            Err("firmware refused every profile it advertised".to_owned()),
        )
    } else {
        lead_back(original, samples, Ok(()))
    }
}

/// Whether a calibration is putting the machine back, or done with it.
pub open spec fn is_leaving(stage: ProbeStage<Seq<char>>) -> bool {
    stage is Restore || stage is Fallback || stage is Finished
}

/// Probing never just ends where the original index is known: the step that ends it, for
/// whatever reason, leads to writing that index back.
pub proof fn law_probing_ends_by_restoring(
    probe: Probe,
    event: ProbeEvent,
    samples: Seq<Measured>,
    stage: ProbeStage<Seq<char>>,
)
    requires
        probe.wf(),
        probe.original is Some,
        probe.stage is Apply || probe.stage is Settle,
        probe.continues(event, samples, stage),
        is_leaving(stage),
    ensures
        stage is Restore && stage->Restore_index == probe.original->0,
{
}

/// Only samples of an index that was still active after settling are taken, and each under
/// that index.
pub proof fn law_samples_are_of_the_active_index(
    probe: Probe,
    event: ProbeEvent,
    samples: Seq<Measured>,
    stage: ProbeStage<Seq<char>>,
)
    requires
        probe.wf(),
        probe.continues(event, samples, stage),
        samples != probe.samples@,
    ensures
        samples.len() == probe.samples@.len() + 1,
        event is Settled && event->active == Some(samples.last().index),
{
}

/// How many steps a calibration of this many indices has left at most.
pub open spec fn steps_left(count: int, stage: ProbeStage<Seq<char>>) -> int {
    match stage {
        ProbeStage::Apply { at, refusals, attempt } => 3 + 15 * (count - 1 - at) + 5 * (
        SETTLE_ATTEMPTS - attempt) + 2 + (SETTLE_ATTEMPTS - 1 - refusals),
        ProbeStage::Settle { at, attempt } => 3 + 15 * (count - 1 - at) + 5 * (SETTLE_ATTEMPTS
            - attempt) + 1,
        ProbeStage::Restore { .. } => 2,
        ProbeStage::Fallback { .. } => 1,
        ProbeStage::Finished(_) => 0,
    }
}

/// Whether an event answers the step that is due: a write is applied or not, and an index
/// that is to settle is read.
pub open spec fn answers(event: ProbeEvent, stage: ProbeStage<String>) -> bool {
    stage is Settle <==> event is Settled
}

/// A calibration ends, also where someone keeps moving the index or the firmware keeps
/// refusing: each step leaves fewer.
pub proof fn law_probing_ends(
    probe: Probe,
    event: ProbeEvent,
    samples: Seq<Measured>,
    stage: ProbeStage<Seq<char>>,
)
    requires
        probe.wf(),
        !(probe.stage is Finished),
        answers(event, probe.stage),
        probe.continues(event, samples, stage),
    ensures
        0 <= steps_left(probe.indices@.len() as int, stage) < steps_left(
            probe.indices@.len() as int,
            stage_view(probe.stage),
        ),
{
    let count: usize = probe.indices.len();
    assert(count == probe.indices@.len());
}

// ---------------------------------------------------------------------------
// The stored calibration
// ---------------------------------------------------------------------------

/// What the stored calibration is.
pub enum StoredCalibration {
    /// There is none: no config directory, or no file.
    Missing,
    /// It does not parse.
    Corrupt,
    Parsed(Calibration),
}

/// Whether the stored calibration can be used, and whether that answer is worth
/// remembering.
pub open spec fn loads(
    stored: StoredCalibration,
    supported: Seq<u8>,
    firmware: Seq<char>,
    r: (Option<Calibration>, bool),
) -> bool {
    match stored {
        StoredCalibration::Parsed(calibration) => if supported.len() == 0 {
            r.0 is None && !r.1
        } else {
            r.1 && r.0 == (if calibration.describes(supported, firmware) {
                Some(calibration)
            } else {
                None
            })
        },
        _ => r.0 is None && r.1,
    }
}

/// Judges the stored calibration against the firmware. A verdict reached without being able
/// to read the firmware's supported set is no verdict and not worth remembering.
pub fn load_uncached(stored: StoredCalibration, supported: &Vec<u8>, firmware: &str) -> (r: (
    Option<Calibration>,
    bool,
))
    ensures
        loads(stored, supported@, firmware@, r),
{
    match stored {
        StoredCalibration::Parsed(calibration) => {
            if supported.len() == 0 {
                (None, false)
            } else if calibration.matches_firmware(supported.as_slice(), firmware) {
                (Some(calibration), true)
            } else {
                (None, true)
            }
        },
        _ => (None, true),
    }
}

/// What two samples have in power: the first has no more sustained power, and where they have
/// as much, no more burst.
pub open spec fn no_stronger(a: Measured, b: Measured) -> bool {
    &&& a.pl1_uw is Some
    &&& b.pl1_uw is Some
    &&& {
        ||| a.pl1_uw->0 < b.pl1_uw->0
        ||| a.pl1_uw->0 == b.pl1_uw->0 && a.pl2_uw is None && b.pl2_uw is None
        ||| a.pl1_uw->0 == b.pl1_uw->0 && a.pl2_uw is Some && b.pl2_uw is Some && a.pl2_uw->0
            <= b.pl2_uw->0
    }
}

proof fn lemma_kept_sample(ranked: bool, samples: Seq<Measured>, i: int)
    requires
        0 <= i < samples.len(),
    ensures
        0 <= i < sorted_profiles(ranked, samples).len(),
        samples.contains(sorted_profiles(ranked, samples)[i]),
{
    let all = sorted_profiles(ranked, samples);
    law_profiles_are_ordered(ranked, samples);
    all.to_multiset_ensures();
    samples.to_multiset_ensures();
    assert(all.contains(all[i]));
    assert(all.to_multiset().count(all[i]) > 0);
}

/// In a measured calibration the profiles climb in power: none has more sustained power than
/// one behind it, nor as much and more burst.
pub proof fn law_measured_profiles_climb_in_power(
    samples: Seq<Measured>,
    advertised: Seq<u8>,
    firmware: Seq<char>,
    calibration: Calibration,
    i: int,
    j: int,
)
    requires
        concludes(samples, advertised, firmware, calibration),
        calibration.measured,
        0 <= i < j < calibration.profiles@.len(),
    ensures
        ({
            let a = calibration.profiles@[i];
            let b = calibration.profiles@[j];
            &&& a.pl1_uw is Some && b.pl1_uw is Some
            &&& a.pl1_uw->0 < b.pl1_uw->0 || (a.pl1_uw->0 == b.pl1_uw->0 && (a.pl2_uw is Some
                == b.pl2_uw is Some) && (a.pl2_uw is Some ==> a.pl2_uw->0 <= b.pl2_uw->0))
        }),
{
    law_profiles_are_ordered(true, samples);
    lemma_kept_sample(true, samples, i);
    lemma_kept_sample(true, samples, j);
    let a = calibration.profiles@[i];
    let b = calibration.profiles@[j];
    let x = choose|x: int| 0 <= x < samples.len() && samples[x] == a;
    let y = choose|y: int| 0 <= y < samples.len() && samples[y] == b;
    assert(samples[x].pl1_uw is Some && samples[y].pl1_uw is Some);
    assert(samples[x].pl2_uw is Some == samples[y].pl2_uw is Some);
    assert(may_precede(true, a, b));
}

/// Where the samples are no ranking, the profiles stand by their index.
pub proof fn law_unmeasured_profiles_stand_by_index(
    samples: Seq<Measured>,
    advertised: Seq<u8>,
    firmware: Seq<char>,
    calibration: Calibration,
    i: int,
    j: int,
)
    requires
        concludes(samples, advertised, firmware, calibration),
        !calibration.measured,
        0 <= i < j < calibration.profiles@.len(),
    ensures
        calibration.profiles@[i].index <= calibration.profiles@[j].index,
{
    law_profiles_are_ordered(false, samples);
    assert(may_precede(false, calibration.profiles@[i], calibration.profiles@[j]));
}

/// A calibration holds every sample as often as it was taken, no other, and what the firmware
/// advertised.
pub proof fn law_calibration_holds_every_sample(
    samples: Seq<Measured>,
    advertised: Seq<u8>,
    firmware: Seq<char>,
    calibration: Calibration,
)
    requires
        concludes(samples, advertised, firmware, calibration),
    ensures
        calibration.profiles@.to_multiset() == samples.to_multiset(),
        calibration.profiles@.len() == samples.len(),
        calibration.advertised@ == advertised,
        calibration.firmware@ == firmware,
{
    law_profiles_are_ordered(calibration.measured, samples);
}

/// Samples are a ranking where every profile has a sustained limit, all or none have a burst
/// limit, and two of them differ in either; not where a reading is missing, and not where all
/// are equal.
pub proof fn law_ranking_needs_readings_that_differ(
    samples: Seq<Measured>,
    advertised: Seq<u8>,
    firmware: Seq<char>,
    calibration: Calibration,
    i: int,
    j: int,
)
    requires
        concludes(samples, advertised, firmware, calibration),
        0 <= i < samples.len(),
        0 <= j < samples.len(),
    ensures
        samples[i].pl1_uw is None ==> !calibration.measured,
        samples[i].pl2_uw is Some && samples[j].pl2_uw is None ==> !calibration.measured,
        (forall|k: int|
            0 <= k < samples.len() ==> (#[trigger] samples[k]).pl1_uw == samples[0].pl1_uw
                && samples[k].pl2_uw == samples[0].pl2_uw) ==> !calibration.measured,
        (forall|k: int| 0 <= k < samples.len() ==> (#[trigger] samples[k]).pl1_uw is Some) && (
        forall|k: int|
            0 <= k < samples.len() ==> (#[trigger] samples[k]).pl2_uw is Some
                == samples[0].pl2_uw is Some) && (samples[i].pl1_uw != samples[j].pl1_uw
            || samples[i].pl2_uw != samples[j].pl2_uw) ==> calibration.measured,
{
    assert(samples[0] == samples[0]);
    if calibration.measured {
        let (x, y) = choose|x: int, y: int|
            0 <= x < samples.len() && 0 <= y < samples.len() && (#[trigger] samples[x]).key() != (
            #[trigger] samples[y]).key();
        assert(samples[x].key() != samples[y].key());
    }
    if samples[i].pl1_uw is Some && samples[j].pl1_uw is Some && samples[i].pl2_uw is Some
        == samples[j].pl2_uw is Some && (samples[i].pl1_uw != samples[j].pl1_uw
        || samples[i].pl2_uw != samples[j].pl2_uw) {
        assert(samples[i].key() != samples[j].key());
    }
}

/// What is left active in place of an original profile that cannot be restored is the weakest
/// of the complete samples.
pub proof fn law_fallback_is_the_weakest(probed: Seq<Measured>, r: Option<u8>, i: int)
    requires
        is_fallback(probed, r),
        0 <= i < probed.len(),
        probed[i].pl1_uw is Some,
        probed[i].pl2_uw is Some,
    ensures
        exists|k: int|
            0 <= k < probed.len() && r == Some((#[trigger] probed[k]).index) && no_stronger(
                probed[k],
                probed[i],
            ),
{
    assert(eligible(probed, probed[i]));
    let k = choose|k: int|
        0 <= k < probed.len() && eligible(probed, #[trigger] probed[k]) && r == Some(
            probed[k].index,
        ) && forall|j: int|
            0 <= j < probed.len() && eligible(probed, #[trigger] probed[j]) ==> weaker(
                probed[k],
                probed[j],
            );
    assert(weaker(probed[k], probed[i]));
    assert(no_stronger(probed[k], probed[i]));
}

/// Without a complete sample the lowest index is left active, and without any sample none.
pub proof fn law_fallback_without_readings(probed: Seq<Measured>, r: Option<u8>, i: int)
    requires
        is_fallback(probed, r),
        forall|k: int| 0 <= k < probed.len() ==> (#[trigger] probed[k]).pl1_uw is None,
    ensures
        probed.len() == 0 ==> r is None,
        0 <= i < probed.len() ==> r is Some && r->0 <= probed[i].index,
{
    if 0 <= i < probed.len() {
        assert forall|k: int| 0 <= k < probed.len() implies !eligible(
            probed,
            #[trigger] probed[k],
        ) by {}
        assert(probed[i].index == probed[i].index);
    }
}

/// Every advertised index is tried, in order, three writes each at most, and its limits are
/// kept under it as they were read once it held.
pub proof fn law_each_index_is_measured_in_turn(
    probe: Probe,
    event: ProbeEvent,
    samples: Seq<Measured>,
    stage: ProbeStage<Seq<char>>,
)
    requires
        probe.wf(),
        probe.continues(event, samples, stage),
    ensures
        probe.stage matches ProbeStage::Settle { at, attempt } ==> (event
            matches ProbeEvent::Settled { active, pl1_uw, pl2_uw } ==> {
            let index = probe.indices@[at as int];
            &&& active == Some(index) ==> {
                &&& samples.len() == probe.samples@.len() + 1
                &&& samples.last().index == index
                &&& samples.last().pl1_uw == pl1_uw
                &&& samples.last().pl2_uw == pl2_uw
                &&& at + 1 < probe.indices@.len() ==> (stage matches ProbeStage::Apply {
                    at: next,
                    ..
                } && next == at + 1)
            }
            &&& active != Some(index) ==> samples == probe.samples@ && (attempt < 3 ==> (stage
                matches ProbeStage::Apply { at: again, attempt: later, .. } && again == at && later
                == attempt + 1))
            &&& active != Some(index) && attempt >= 3 ==> is_leaving(stage)
        }),
        probe.stage matches ProbeStage::Apply { at, refusals, .. } ==> {
            &&& event is Applied ==> stage is Settle && stage->Settle_at == at
            &&& event is Rejected && refusals < 2 ==> stage is Apply && stage->Apply_at == at
                && stage->Apply_refusals == refusals + 1
            &&& event is Rejected && refusals >= 2 && at + 1 < probe.indices@.len() ==> stage is Apply
                && stage->Apply_at == at + 1
            &&& event is NotAuthorized ==> is_leaving(stage)
            &&& samples == probe.samples@
        },
{
    let count: usize = probe.indices.len();
    assert(count == probe.indices@.len());
}

/// A stored calibration is used as it is or not at all, and only where it describes the
/// firmware; nothing is concluded where the firmware's profiles cannot be read.
pub proof fn law_stored_calibration_is_used_as_it_is(
    calibration: Calibration,
    supported: Seq<u8>,
    firmware: Seq<char>,
    r: (Option<Calibration>, bool),
)
    requires
        loads(StoredCalibration::Parsed(calibration), supported, firmware, r),
    ensures
        r.0 is Some ==> r.0 == Some(calibration) && calibration.describes(supported, firmware),
        supported.len() > 0 && calibration.describes(supported, firmware) ==> r.0 is Some,
        supported.len() == 0 ==> r.0 is None,
        r.1 <==> supported.len() > 0,
{
}

/// What an attribute holds as a number is that number, with or without the end of its line;
/// what cannot be read is none.
pub proof fn law_attributes_hold_their_numbers(index: u8, limit: u64)
    ensures
        active_index(Some(decimal_text(index as nat).push('\n'))) == Some(index as nat),
        active_index(None) is None,
        limit_value(Some(decimal_text(limit as nat).push('\n'))) == Some(limit as nat),
        limit_value(None) is None,
{
    let a = decimal_text(index as nat);
    let b = decimal_text(limit as nat);
    crate::number::lemma_decimal_text(index as nat);
    crate::number::lemma_decimal_text(limit as nat);
    crate::number::lemma_digits_not_space(a, 10);
    crate::number::lemma_digits_not_space(b, 10);
    crate::number::law_decimal_round_trip(index as nat, 255);
    crate::number::law_decimal_round_trip(limit as nat, 0xffff_ffff_ffff_ffff);
    crate::text::lemma_trimmed_line(a);
    crate::text::lemma_trimmed_line(b);
}

/// The supported indices are those of the mask, and none where there is no mask.
pub proof fn law_unreadable_mask_supports_nothing(text: Seq<char>)
    ensures
        mask_value(text) is Some ==> supported_mask(Some(text)) == mask_value(text)->0,
        mask_value(text) is None ==> supported_mask(Some(text)) == 0,
        supported_mask(None) == 0,
{
}

/// A zone of a driver is the driver's name, a colon and one number; a zone within a zone is
/// none, and neither is another driver's.
pub proof fn law_zones_are_told_by_their_colons(driver: Seq<char>, rest: Seq<char>, c: char)
    ensures
        is_zone_of(driver + (seq![':'] + rest), driver) <==> (forall|i: int|
            0 <= i < rest.len() ==> #[trigger] rest[i] != ':'),
        c != ':' ==> !is_zone_of(driver + (seq![c] + rest), driver),
        !is_zone_of(driver, driver),
{
    let name = driver + (seq![':'] + rest);
    let other = driver + (seq![c] + rest);
    let n = driver.len() as int;
    assert(name.subrange(0, n) =~= driver);
    assert(name[n] == ':');
    assert(other[n] == c);
    if forall|i: int| 0 <= i < rest.len() ==> #[trigger] rest[i] != ':' {
        assert forall|i: int| n < i < name.len() implies #[trigger] name[i] != ':' by {
            assert(name[i] == rest[i - n - 1]);
        }
    } else {
        let i = choose|i: int| 0 <= i < rest.len() && #[trigger] rest[i] == ':';
        assert(name[n + 1 + i] == rest[i]);
    }
}

/// The package zones of a driver are its zones labelled `package-0`, in turn.
pub proof fn law_packages_are_the_labelled_zones(zones: Seq<Zone>, zone: Zone, driver: Seq<char>)
    ensures
        is_zone_of(zone.name@, driver) && zone.label is Some && trimmed(zone.label->0@)
            == "package-0"@ ==> packages(zones.push(zone), driver) == packages(zones, driver).push(
            zone.name@,
        ),
        !is_zone_of(zone.name@, driver) || zone.label is None || trimmed(zone.label->0@)
            != "package-0"@ ==> packages(zones.push(zone), driver) == packages(zones, driver),
        packages(seq![], driver) == Seq::<Seq<char>>::empty(),
{
    assert(zones.push(zone).drop_last() =~= zones);
}

/// An index that did not settle is written again, up to three times; then the calibration
/// ends in an error and the machine is put back. Nothing is sampled of it.
pub proof fn law_unsettled_index_is_tried_again(
    probe: Probe,
    at: usize,
    attempt: u8,
    active: Option<u8>,
    pl1_uw: Option<u64>,
    pl2_uw: Option<u64>,
    samples: Seq<Measured>,
    stage: ProbeStage<Seq<char>>,
)
    requires
        probe.wf(),
        probe.stage == (ProbeStage::<String>::Settle { at, attempt }),
        active != Some(probe.indices@[at as int]),
        probe.continues((ProbeEvent::Settled { active, pl1_uw, pl2_uw }), samples, stage),
    ensures
        samples == probe.samples@,
        attempt < 3 ==> stage == (ProbeStage::<Seq<char>>::Apply {
            at,
            refusals: 0,
            attempt: (attempt + 1) as u8,
        }),
        attempt >= 3 && probe.original is Some ==> (stage matches ProbeStage::Restore { index, end }
            && index == probe.original->0 && end is Err),
{
}

/// An index that was applied is given time to settle, and one that settled is sampled with
/// what the machine showed.
pub proof fn law_settled_index_is_sampled(
    probe: Probe,
    at: usize,
    attempt: u8,
    pl1_uw: Option<u64>,
    pl2_uw: Option<u64>,
    samples: Seq<Measured>,
    stage: ProbeStage<Seq<char>>,
)
    requires
        probe.wf(),
        probe.stage == (ProbeStage::<String>::Settle { at, attempt }),
        probe.continues(
            (ProbeEvent::Settled { active: Some(probe.indices@[at as int]), pl1_uw, pl2_uw }),
            samples,
            stage,
        ),
    ensures
        samples.len() == probe.samples@.len() + 1,
        samples.last().index == probe.indices@[at as int],
        samples.last().pl1_uw == pl1_uw,
        samples.last().pl2_uw == pl2_uw,
        samples.drop_last() == probe.samples@,
        at + 1 < probe.indices@.len() ==> stage == (ProbeStage::<Seq<char>>::Apply {
            at: (at + 1) as usize,
            refusals: 0,
            attempt: 1,
        }),
        at + 1 >= probe.indices@.len() && probe.original is Some ==> stage == (ProbeStage::<
            Seq<char>,
        >::Restore { index: probe.original->0, end: Ok(()) }),
{
    assert(samples.drop_last() =~= probe.samples@);
}

/// A write that never reached the hardware ends the calibration, and the original index is
/// put back; an index that the firmware refuses is tried three times and then passed over.
pub proof fn law_refusals_are_no_failures(
    probe: Probe,
    at: usize,
    refusals: u8,
    attempt: u8,
    cause: String,
    samples: Seq<Measured>,
    stage: ProbeStage<Seq<char>>,
)
    requires
        probe.wf(),
        probe.stage == (ProbeStage::<String>::Apply { at, refusals, attempt }),
    ensures
        probe.continues(ProbeEvent::NotAuthorized(cause), samples, stage) && probe.original
            is Some ==> samples == probe.samples@ && (stage matches ProbeStage::Restore {
            index,
            end,
        } && index == probe.original->0 && end is Err),
        probe.continues(ProbeEvent::Rejected, samples, stage) && refusals < 2 ==> samples
            == probe.samples@ && stage == (ProbeStage::<Seq<char>>::Apply {
            at,
            refusals: (refusals + 1) as u8,
            attempt,
        }),
        probe.continues(ProbeEvent::Rejected, samples, stage) && refusals >= 2 && at + 1
            < probe.indices@.len() ==> samples == probe.samples@ && stage == (ProbeStage::<
            Seq<char>,
        >::Apply { at: (at + 1) as usize, refusals: 0, attempt: 1 }),
        probe.continues(ProbeEvent::Applied, samples, stage) ==> samples == probe.samples@ && stage
            == (ProbeStage::<Seq<char>>::Settle { at, attempt }),
{
}

/// A calibration ends as it went once the original index is back.
pub proof fn law_restored_machine_ends_the_calibration(
    probe: Probe,
    index: u8,
    end: Result<(), String>,
    samples: Seq<Measured>,
    stage: ProbeStage<Seq<char>>,
)
    requires
        probe.stage == (ProbeStage::<String>::Restore { index, end }),
        probe.continues(ProbeEvent::Applied, samples, stage),
    ensures
        samples == probe.samples@,
        end is Ok ==> stage == ProbeStage::<Seq<char>>::Finished(Ok(())),
        end is Err ==> stage == ProbeStage::<Seq<char>>::Finished(Err(end->Err_0@)),
{
}

/// How long an index is given, and where the limits are read.
pub proof fn law_settling_takes_its_time()
    ensures
        SETTLE_MS == 1500 && SETTLE_ATTEMPTS == 3,
        PL1_ATTRIBUTE@ == "constraint_0_power_limit_uw"@,
        PL2_ATTRIBUTE@ == "constraint_1_power_limit_uw"@,
        SYSFS_INDEX@ == "devices/platform/acer-wmi/thermal_profile"@,
        SYSFS_SUPPORTED@ == "devices/platform/acer-wmi/thermal_profile_supported"@,
{
}

/// The weakest of the complete samples is what is fallen back to, wherever it stands in the
/// list.
pub proof fn law_weakest_sample_is_fallen_back_to(probed: Seq<Measured>, i: int)
    requires
        0 <= i < probed.len(),
        eligible(probed, probed[i]),
        forall|j: int|
            0 <= j < probed.len() && eligible(probed, #[trigger] probed[j]) ==> weaker(
                probed[i],
                probed[j],
            ),
    ensures
        is_fallback(probed, Some(probed[i].index)),
{
}

/// Without a complete sample the lowest index is what is fallen back to.
pub proof fn law_lowest_index_is_fallen_back_to(probed: Seq<Measured>, i: int)
    requires
        0 <= i < probed.len(),
        forall|j: int| 0 <= j < probed.len() ==> (#[trigger] probed[j]).pl1_uw is None,
        forall|j: int| 0 <= j < probed.len() ==> probed[i].index <= (#[trigger] probed[j]).index,
    ensures
        is_fallback(probed, Some(probed[i].index)),
        is_fallback(Seq::<Measured>::empty(), None),
{
}

} // verus!
