//! Keeping the desktop's power-mode control in step with the active mode.
//!
//! The desktop has three power profiles and the application five modes, so the map folds some
//! of them together.

use vstd::prelude::*;

use crate::config::settings::PpdMap;
use crate::hardware::profile::PowerProfile;
use crate::text::{cat4, text_of};

verus! {

pub const DBUS_NAME: &'static str = "org.freedesktop.UPower.PowerProfiles";

pub const DBUS_PATH: &'static str = "/org/freedesktop/UPower/PowerProfiles";

pub const DBUS_INTERFACE: &'static str = "org.freedesktop.UPower.PowerProfiles";

/// How long to wait for the desktop's service, in milliseconds. The call is made on the main
/// loop, before the mode is applied, so that the mode's own write comes last.
pub const CALL_TIMEOUT_MS: i32 = 800;

/// The three profiles of the desktop.
#[derive(Debug, Clone, Copy, PartialEq, Eq, Structural)]
pub enum DesktopProfile {
    PowerSaver,
    Balanced,
    Performance,
}

impl DesktopProfile {
    /// The profile's name on the bus.
    pub open spec fn name(self) -> Seq<char> {
        match self {
            DesktopProfile::PowerSaver => "power-saver"@,
            DesktopProfile::Balanced => "balanced"@,
            DesktopProfile::Performance => "performance"@,
        }
    }

    /// The profile's name on the bus.
    pub fn as_str(self) -> (r: &'static str)
        ensures
            r@ == self.name(),
    {
        match self {
            DesktopProfile::PowerSaver => "power-saver",
            DesktopProfile::Balanced => "balanced",
            DesktopProfile::Performance => "performance",
        }
    }

    /// The profile's place on the desktop's ladder.
    pub open spec fn rung(self) -> int {
        match self {
            DesktopProfile::PowerSaver => 0,
            DesktopProfile::Balanced => 1,
            DesktopProfile::Performance => 2,
        }
    }
}

/// The desktop profile that best describes a mode.
pub open spec fn profile_of(mode: PowerProfile, map: PpdMap) -> DesktopProfile {
    match mode {
        PowerProfile::Eco => DesktopProfile::PowerSaver,
        PowerProfile::Quiet => match map {
            PpdMap::QuietSavesPower => DesktopProfile::PowerSaver,
            PpdMap::QuietIsBalanced => DesktopProfile::Balanced,
        },
        PowerProfile::Balanced => DesktopProfile::Balanced,
        PowerProfile::Performance => DesktopProfile::Performance,
        PowerProfile::Turbo => DesktopProfile::Performance,
    }
}

/// The desktop profile that best describes a mode.
pub fn desktop_profile_for(mode: PowerProfile, map: PpdMap) -> (r: DesktopProfile)
    ensures
        r == profile_of(mode, map),
{
    match mode {
        PowerProfile::Eco => DesktopProfile::PowerSaver,
        PowerProfile::Quiet => match map {
            PpdMap::QuietSavesPower => DesktopProfile::PowerSaver,
            PpdMap::QuietIsBalanced => DesktopProfile::Balanced,
        },
        PowerProfile::Balanced => DesktopProfile::Balanced,
        PowerProfile::Performance => DesktopProfile::Performance,
        PowerProfile::Turbo => DesktopProfile::Performance,
    }
}

/// The profile the desktop's indicator is pointed at, if the feature is on.
pub fn sync_to_mode(mode: PowerProfile, enabled: bool, map: PpdMap) -> (r: Option<DesktopProfile>)
    ensures
        r == (if enabled {
            Some(profile_of(mode, map))
        } else {
            None
        }),
{
    if !enabled {
        return None;
    }
    Some(desktop_profile_for(mode, map))
}

/// The line to log where the desktop's indicator could not be set: only the first failure of
/// a session is worth one.
pub fn sync_failed(target: DesktopProfile, error: &str, reported: &mut bool) -> (r: Option<String>)
    ensures
        *final(reported),
        text_of(r) == (if *old(reported) {
            None
        } else {
            Some(
                "desktop power profile not set to "@ + target.name()
                    + ", and this will not be reported again: "@ + error@,
            )
        }),
{
    if *reported {
        return None;
    }
    *reported = true;
    Some(
        cat4(
            "desktop power profile not set to ",
            target.as_str(),
            ", and this will not be reported again: ",
            error,
        ),
    )
}

/// The two maps agree but for Quiet; and both ends are what they are called.
pub proof fn law_maps_differ_only_in_quiet(mode: PowerProfile, a: PpdMap, b: PpdMap)
    ensures
        mode != PowerProfile::Quiet ==> profile_of(mode, a) == profile_of(mode, b),
        profile_of(PowerProfile::Eco, a) == DesktopProfile::PowerSaver,
        profile_of(PowerProfile::Turbo, a) == DesktopProfile::Performance,
{
}

/// A stronger mode never reads as a weaker desktop profile.
pub proof fn law_map_follows_the_ladder(weak: PowerProfile, strong: PowerProfile, map: PpdMap)
    requires
        weak.tier() <= strong.tier(),
    ensures
        profile_of(weak, map).rung() <= profile_of(strong, map).rung(),
{
}

/// Each mode reads as the desktop profile of its kind; Quiet is the one that the map decides.
pub proof fn law_modes_read_as_their_kind(map: PpdMap)
    ensures
        profile_of(PowerProfile::Eco, map).name() == "power-saver"@,
        profile_of(PowerProfile::Quiet, PpdMap::QuietSavesPower).name() == "power-saver"@,
        profile_of(PowerProfile::Quiet, PpdMap::QuietIsBalanced).name() == "balanced"@,
        profile_of(PowerProfile::Balanced, map).name() == "balanced"@,
        profile_of(PowerProfile::Performance, map).name() == "performance"@,
        profile_of(PowerProfile::Turbo, map).name() == "performance"@,
{
}

} // verus!
