//! Where the battery lives in sysfs.
//!
//! The device name is not fixed: it is `BAT1` on some models and `BAT0` on others. The
//! application and the privileged helper both resolve it here, so a write and the
//! read-back that follows it never land on different devices.

use vstd::prelude::*;

use crate::number::{decimal_text, parse_i32, signed_value};
use crate::order::{first_name, in_order, sort_names, text_le};
use crate::paths::{join_path, joined_path};
use crate::text::{same, text_of, texts, trim, trimmed};

verus! {

/// Sysfs mount point.
pub const SYSFS_ROOT: &'static str = "/sys";

/// Paths below are relative to a sysfs root.
pub const POWER_SUPPLY_CLASS: &'static str = "class/power_supply";

/// Charge ceiling in percent, exposed by the generic power supply class.
pub const CHARGE_LIMIT_ATTRIBUTE: &'static str = "charge_control_end_threshold";

/// 80% charge cap of the `acer-wmi-battery` driver: an independent mechanism from
/// [`CHARGE_LIMIT_ATTRIBUTE`]; a machine may expose either, both, or neither.
pub const WMI_HEALTH_MODE: &'static str = "bus/wmi/drivers/acer-wmi-battery/health_mode";

pub const WMI_CALIBRATION_MODE: &'static str = "bus/wmi/drivers/acer-wmi-battery/calibration_mode";

/// The same health mode as [`WMI_HEALTH_MODE`], exposed by the out-of-tree Linuwu-Sense
/// driver under its own name: whichever driver is loaded, the firmware sees one command.
pub const PREDATOR_SENSE_LIMITER: &'static str =
    "bus/platform/drivers/acer-wmi/acer-wmi/predator_sense/battery_limiter";

/// Backends for the 80% health mode, in the order they are preferred.
pub const HEALTH_MODE_BACKENDS: [&'static str; 2] = [WMI_HEALTH_MODE, PREDATOR_SENSE_LIMITER];

/// One entry of the power supply class.
pub struct Supply {
    pub name: String,
    /// What its `type` attribute holds, if it can be read.
    pub kind: Option<String>,
    /// Whether it has a [`CHARGE_LIMIT_ATTRIBUTE`].
    pub has_charge_limit: bool,
}

/// Whether a function is usable, given what its attribute holds.
pub open spec fn supports(value: Seq<char>) -> bool {
    match signed_value(trimmed(value)) {
        Some(n) => n >= 0,
        None => false,
    }
}

/// Whether an `acer-wmi-battery` function is usable, given what its attribute holds.
///
/// The driver creates its attributes whether or not the firmware supports them, and
/// reports `-1` for a function that the firmware omits. So the attribute existing proves
/// nothing; only its value says whether the control can do anything.
pub fn function_supported(value: &str) -> (r: bool)
    ensures
        r == supports(value@),
{
    match parse_i32(trim(value).as_str()) {
        Some(n) => n >= 0,
        None => false,
    }
}

/// Whether an attribute could be read and reports a usable function.
pub open spec fn backend_usable(contents: Option<Seq<char>>) -> bool {
    match contents {
        Some(value) => supports(value),
        None => false,
    }
}

fn usable(contents: &Option<String>) -> (r: bool)
    ensures
        r == backend_usable(text_of(*contents)),
{
    match contents {
        Some(value) => function_supported(value.as_str()),
        None => false,
    }
}

/// The health-mode control of a machine, given what its two backends hold.
pub open spec fn health_place(
    sysfs: Seq<char>,
    wmi: Option<Seq<char>>,
    limiter: Option<Seq<char>>,
) -> Option<Seq<char>> {
    if backend_usable(wmi) {
        Some(joined_path(sysfs, WMI_HEALTH_MODE@))
    } else if backend_usable(limiter) {
        Some(joined_path(sysfs, PREDATOR_SENSE_LIMITER@))
    } else {
        None
    }
}

/// The health-mode control this machine exposes, given what each of
/// [`HEALTH_MODE_BACKENDS`] holds (`None` where it cannot be read): the first usable one.
pub fn health_mode_control(
    sysfs: &str,
    wmi: &Option<String>,
    limiter: &Option<String>,
) -> (r: Option<String>)
    ensures
        text_of(r) == health_place(sysfs@, text_of(*wmi), text_of(*limiter)),
{
    if usable(wmi) {
        Some(join_path(sysfs, HEALTH_MODE_BACKENDS[0]))
    } else if usable(limiter) {
        Some(join_path(sysfs, HEALTH_MODE_BACKENDS[1]))
    } else {
        None
    }
}

/// Whether an entry of the power supply class is a battery. Mains adapters and USB-C
/// source ports live under the same class.
pub open spec fn is_battery(supply: Supply) -> bool {
    match supply.kind {
        Some(kind) => trimmed(kind@) == "Battery"@,
        None => false,
    }
}

fn battery(supply: &Supply) -> (r: bool)
    ensures
        r == is_battery(*supply),
{
    match &supply.kind {
        Some(kind) => same(trim(kind.as_str()).as_str(), "Battery"),
        None => false,
    }
}

/// The directory of one power supply device.
pub open spec fn device_path(sysfs: Seq<char>, name: Seq<char>) -> Seq<char> {
    joined_path(joined_path(sysfs, POWER_SUPPLY_CLASS@), name)
}

/// The batteries among the entries, in the order the directory lists them.
pub open spec fn battery_paths(sysfs: Seq<char>, supplies: Seq<Supply>) -> Seq<Seq<char>>
    decreases supplies.len(),
{
    if supplies.len() == 0 {
        seq![]
    } else {
        let before = battery_paths(sysfs, supplies.drop_last());
        if is_battery(supplies.last()) {
            before.push(device_path(sysfs, supplies.last().name@))
        } else {
            before
        }
    }
}

fn batteries(sysfs: &str, supplies: &Vec<Supply>) -> (r: Vec<String>)
    ensures
        texts(r@) == battery_paths(sysfs@, supplies@),
{
    let class = join_path(sysfs, POWER_SUPPLY_CLASS);
    let mut out: Vec<String> = Vec::new();
    let mut i: usize = 0;
    assert(texts(out@) == battery_paths(sysfs@, supplies@.take(0)));
    while i < supplies.len()
        invariant
            i <= supplies@.len(),
            class@ == joined_path(sysfs@, POWER_SUPPLY_CLASS@),
            texts(out@) == battery_paths(sysfs@, supplies@.take(i as int)),
        decreases supplies@.len() - i,
    {
        let ghost t = supplies@.take(i + 1);
        assert(t.drop_last() == supplies@.take(i as int));
        assert(t.last() == supplies@[i as int]);
        if battery(&supplies[i]) {
            let path = join_path(class.as_str(), supplies[i].name.as_str());
            let ghost before = texts(out@);
            out.push(path);
            assert(texts(out@) == before.push(path@));
        }
        i = i + 1;
    }
    assert(supplies@.take(i as int) == supplies@);
    out
}

/// Every battery among the entries, sorted by path, because a directory is listed in an
/// arbitrary order and a machine with more than one battery must not resolve differently
/// between a write and the read-back that follows it.
pub fn devices(sysfs: &str, supplies: &Vec<Supply>) -> (r: Vec<String>)
    ensures
        in_order(texts(r@)),
        texts(r@).to_multiset() == battery_paths(sysfs@, supplies@).to_multiset(),
{
    sort_names(batteries(sysfs, supplies))
}

/// The battery to report readings for: the first one in order.
pub fn device(sysfs: &str, supplies: &Vec<Supply>) -> (r: Option<String>)
    ensures
        match r {
            Some(path) => {
                let paths = battery_paths(sysfs@, supplies@);
                &&& paths.contains(path@)
                &&& forall|i: int| 0 <= i < paths.len() ==> text_le(path@, #[trigger] paths[i])
            },
            None => battery_paths(sysfs@, supplies@).len() == 0,
        },
{
    let list = batteries(sysfs, supplies);
    let r = first_name(&list);
    proof {
        let paths = battery_paths(sysfs@, supplies@);
        assert forall|i: int| 0 <= i < paths.len() && r is Some implies text_le(
            r->0@,
            #[trigger] paths[i],
        ) by {
            assert(paths[i] == list@[i]@);
        }
    }
    r
}

/// The batteries among the entries that expose a charge ceiling.
pub open spec fn limited_paths(sysfs: Seq<char>, supplies: Seq<Supply>) -> Seq<Seq<char>>
    decreases supplies.len(),
{
    if supplies.len() == 0 {
        seq![]
    } else {
        let before = limited_paths(sysfs, supplies.drop_last());
        if is_battery(supplies.last()) && supplies.last().has_charge_limit {
            before.push(device_path(sysfs, supplies.last().name@))
        } else {
            before
        }
    }
}

/// Whether `device` is the first in order of the batteries that expose a charge ceiling.
pub open spec fn first_limited(
    sysfs: Seq<char>,
    supplies: Seq<Supply>,
    device: Seq<char>,
) -> bool {
    let paths = limited_paths(sysfs, supplies);
    &&& paths.contains(device)
    &&& forall|i: int| 0 <= i < paths.len() ==> text_le(device, #[trigger] paths[i])
}

/// The charge ceiling this machine can actually write.
///
/// Searched across every battery: on a machine with several, the ceiling may sit on a
/// later one. `None` means that there is none through the generic interface.
pub fn charge_limit(sysfs: &str, supplies: &Vec<Supply>) -> (r: Option<String>)
    ensures
        match r {
            Some(path) => exists|device: Seq<char>|
                #[trigger] first_limited(sysfs@, supplies@, device) && path@ == joined_path(
                    device,
                    CHARGE_LIMIT_ATTRIBUTE@,
                ),
            None => limited_paths(sysfs@, supplies@).len() == 0,
        },
{
    let class = join_path(sysfs, POWER_SUPPLY_CLASS);
    let mut list: Vec<String> = Vec::new();
    let mut i: usize = 0;
    assert(texts(list@) == limited_paths(sysfs@, supplies@.take(0)));
    while i < supplies.len()
        invariant
            i <= supplies@.len(),
            class@ == joined_path(sysfs@, POWER_SUPPLY_CLASS@),
            texts(list@) == limited_paths(sysfs@, supplies@.take(i as int)),
        decreases supplies@.len() - i,
    {
        let ghost t = supplies@.take(i + 1);
        assert(t.drop_last() == supplies@.take(i as int));
        assert(t.last() == supplies@[i as int]);
        if battery(&supplies[i]) && supplies[i].has_charge_limit {
            let path = join_path(class.as_str(), supplies[i].name.as_str());
            let ghost before = texts(list@);
            list.push(path);
            assert(texts(list@) == before.push(path@));
        }
        i = i + 1;
    }
    assert(supplies@.take(i as int) == supplies@);
    match first_name(&list) {
        Some(first) => {
            proof {
                let paths = limited_paths(sysfs@, supplies@);
                assert forall|i: int| 0 <= i < paths.len() implies text_le(
                    first@,
                    #[trigger] paths[i],
                ) by {
                    assert(paths[i] == list@[i]@);
                }
                assert(first_limited(sysfs@, supplies@, first@));
            }
            Some(join_path(first.as_str(), CHARGE_LIMIT_ATTRIBUTE))
        },
        None => None,
    }
}

/// A function is usable where its attribute holds a number that is not negative, and not
/// where it holds a negative one, which is how the driver says that the firmware has none.
pub proof fn law_negative_values_mean_unsupported(n: nat)
    ensures
        n <= 0x7fff_ffff ==> supports(decimal_text(n).push('\n')),
        0 < n <= 0x8000_0000 ==> !supports((seq!['-'] + decimal_text(n)).push('\n')),
        !backend_usable(None),
{
    let digits = decimal_text(n);
    let negative = seq!['-'] + digits;
    crate::number::lemma_decimal_text(n);
    crate::number::lemma_digits_not_space(digits, 10);
    crate::text::lemma_trimmed_line(digits);
    assert(negative.last() == digits.last());
    crate::text::lemma_trimmed_line(negative);
    crate::number::law_signed_numbers_round_trip(n, 0x7fff_ffff);
}

/// The health mode is driven through `acer-wmi-battery` where that works, through the
/// Linuwu-Sense driver where only that does, and not at all otherwise.
pub proof fn law_preferred_backend_is_used(
    sysfs: Seq<char>,
    wmi: Option<Seq<char>>,
    limiter: Option<Seq<char>>,
)
    ensures
        backend_usable(wmi) ==> health_place(sysfs, wmi, limiter) == Some(
            joined_path(sysfs, "bus/wmi/drivers/acer-wmi-battery/health_mode"@),
        ),
        !backend_usable(wmi) && backend_usable(limiter) ==> health_place(sysfs, wmi, limiter)
            == Some(
            joined_path(
                sysfs,
                "bus/platform/drivers/acer-wmi/acer-wmi/predator_sense/battery_limiter"@,
            ),
        ),
        !backend_usable(wmi) && !backend_usable(limiter) ==> health_place(sysfs, wmi, limiter)
            is None,
{
}

/// The batteries are exactly the supplies whose type is `Battery`, each under its own name in
/// the power supply class; those with a ceiling are the ones among them that have the
/// attribute.
pub proof fn law_batteries_are_the_supplies_of_that_type(
    sysfs: Seq<char>,
    supplies: Seq<Supply>,
    path: Seq<char>,
)
    ensures
        battery_paths(sysfs, supplies).contains(path) <==> exists|i: int|
            0 <= i < supplies.len() && (#[trigger] supplies[i]).kind is Some && trimmed(
                supplies[i].kind->0@,
            ) == "Battery"@ && path == joined_path(
                joined_path(sysfs, "class/power_supply"@),
                supplies[i].name@,
            ),
        limited_paths(sysfs, supplies).contains(path) <==> exists|i: int|
            0 <= i < supplies.len() && (#[trigger] supplies[i]).kind is Some && trimmed(
                supplies[i].kind->0@,
            ) == "Battery"@ && supplies[i].has_charge_limit && path == joined_path(
                joined_path(sysfs, "class/power_supply"@),
                supplies[i].name@,
            ),
    decreases supplies.len(),
{
    if supplies.len() > 0 {
        let before = supplies.drop_last();
        let last = supplies.len() - 1;
        law_batteries_are_the_supplies_of_that_type(sysfs, before, path);
        let own = device_path(sysfs, supplies.last().name@);
        let all = battery_paths(sysfs, before);
        let some = limited_paths(sysfs, before);
        assert(all.push(own).contains(path) <==> all.contains(path) || path == own) by {
            assert(all.push(own)[all.len() as int] == own);
            if all.contains(path) {
                let k = choose|k: int| 0 <= k < all.len() && all[k] == path;
                assert(all.push(own)[k] == path);
            }
        }
        assert(some.push(own).contains(path) <==> some.contains(path) || path == own) by {
            assert(some.push(own)[some.len() as int] == own);
            if some.contains(path) {
                let k = choose|k: int| 0 <= k < some.len() && some[k] == path;
                assert(some.push(own)[k] == path);
            }
        }
        assert(forall|i: int| 0 <= i < before.len() ==> before[i] == #[trigger] supplies[i]);
        assert(forall|i: int| 0 <= i < before.len() ==> #[trigger] before[i] == supplies[i]);
        assert(supplies[last] == supplies.last());
    }
}

/// Where the battery controls lie.
pub proof fn law_battery_controls_lie_in_sysfs()
    ensures
        SYSFS_ROOT@ == "/sys"@,
        POWER_SUPPLY_CLASS@ == "class/power_supply"@,
        CHARGE_LIMIT_ATTRIBUTE@ == "charge_control_end_threshold"@,
        WMI_CALIBRATION_MODE@ == "bus/wmi/drivers/acer-wmi-battery/calibration_mode"@,
        HEALTH_MODE_BACKENDS@[0]@ == "bus/wmi/drivers/acer-wmi-battery/health_mode"@,
        HEALTH_MODE_BACKENDS@[1]@
            == "bus/platform/drivers/acer-wmi/acer-wmi/predator_sense/battery_limiter"@,
{
}

} // verus!
