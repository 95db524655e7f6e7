//! The settings of idle blanking, and what changing one of them does.

use vstd::prelude::*;

use crate::config::settings::AppConfig;

verus! {

/// The delays that are offered, in seconds.
pub const DELAYS: [u32; 6] = [10, 30, 60, 300, 600, 1800];

/// The names of the delays' labels.
pub const DELAY_LABELS: [&'static str; 6] = [
    "idle_10s",
    "idle_30s",
    "idle_1m",
    "idle_5m",
    "idle_10m",
    "idle_30m",
];

/// The place of a delay among those that are offered; one that is not offered shows as the
/// second.
pub open spec fn place_of_delay(secs: u32) -> int {
    if secs == 10 {
        0
    } else if secs == 60 {
        2
    } else if secs == 300 {
        3
    } else if secs == 600 {
        4
    } else if secs == 1800 {
        5
    } else {
        1
    }
}

/// The place of a delay among those that are offered.
pub fn delay_index(secs: u32) -> (r: u32)
    ensures
        r == place_of_delay(secs),
        r < 6,
{
    let mut i: usize = 0;
    while i < 6
        invariant
            i <= 6,
            forall|k: int| 0 <= k < i ==> DELAYS@[k] != secs,
        decreases 6 - i,
    {
        if DELAYS[i] == secs {
            return i as u32;
        }
        i = i + 1;
    }
    proof {
        assert(DELAYS@[0] == 10 && DELAYS@[1] == 30 && DELAYS@[2] == 60 && DELAYS@[3] == 300
            && DELAYS@[4] == 600 && DELAYS@[5] == 1800);
    }
    1
}

/// The delay at a place; outside the list it is thirty seconds.
pub open spec fn delay_of(index: int) -> u32 {
    if index == 0 {
        10
    } else if index == 2 {
        60
    } else if index == 3 {
        300
    } else if index == 4 {
        600
    } else if index == 5 {
        1800
    } else {
        30
    }
}

/// The delay at a place; outside the list it is thirty seconds.
pub fn delay_at(index: usize) -> (r: u32)
    ensures
        r == delay_of(index as int),
{
    if index < DELAYS.len() {
        proof {
            assert(DELAYS@[0] == 10 && DELAYS@[1] == 30 && DELAYS@[2] == 60 && DELAYS@[3] == 300
                && DELAYS@[4] == 600 && DELAYS@[5] == 1800);
        }
        DELAYS[index]
    } else {
        30
    }
}

/// What a change of settings does to the machine.
#[derive(Debug, Clone, Copy, PartialEq, Eq, Structural)]
pub struct IdleChange {
    /// Turn the keyboard's own timer off and start watching input: one timer owns both
    /// devices.
    pub take_over: bool,
    /// Count the machine as active from now.
    pub mark_active: bool,
    pub unblank_keyboard: bool,
    pub unblank_bar: bool,
}

/// Turns idle blanking on or off. Off must leave nothing dark.
#[verifier::rlimit(60)]
pub fn set_idle_enabled(config: &mut AppConfig, active: bool) -> (r: IdleChange)
    ensures
        *final(config) == (AppConfig {
            idle_enabled: active,
            light_bar_idle_enabled: active && old(config).idle_bar_enabled,
            ..*old(config)
        }),
        r == (IdleChange {
            take_over: active,
            mark_active: active,
            unblank_keyboard: !active,
            unblank_bar: !active,
        }),
        // Nothing stays dark that nothing would light again.
        !active ==> r.unblank_keyboard && r.unblank_bar,
{
    config.idle_enabled = active;
    config.light_bar_idle_enabled = active && config.idle_bar_enabled;
    IdleChange {
        take_over: active,
        mark_active: active,
        unblank_keyboard: !active,
        unblank_bar: !active,
    }
}

/// Gives both devices one delay, or each its own.
#[verifier::rlimit(60)]
pub fn set_idle_synced(config: &mut AppConfig, synced: bool)
    ensures
        *final(config) == (AppConfig { idle_synced: synced, ..*old(config) }),
{
    config.idle_synced = synced;
}

/// Lets the keyboard be blanked, or not.
#[verifier::rlimit(60)]
pub fn set_idle_keyboard(config: &mut AppConfig, enabled: bool) -> (r: IdleChange)
    ensures
        *final(config) == (AppConfig { idle_keyboard_enabled: enabled, ..*old(config) }),
        r == (IdleChange {
            take_over: false,
            mark_active: false,
            unblank_keyboard: !enabled,
            unblank_bar: false,
        }),
        !enabled ==> r.unblank_keyboard,
{
    config.idle_keyboard_enabled = enabled;
    IdleChange {
        take_over: false,
        mark_active: false,
        unblank_keyboard: !enabled,
        unblank_bar: false,
    }
}

/// Lets the light bar be blanked, or not.
#[verifier::rlimit(60)]
pub fn set_idle_bar(config: &mut AppConfig, enabled: bool) -> (r: IdleChange)
    ensures
        *final(config) == (AppConfig {
            idle_bar_enabled: enabled,
            light_bar_idle_enabled: old(config).idle_enabled && enabled,
            ..*old(config)
        }),
        r == (IdleChange {
            take_over: false,
            mark_active: false,
            unblank_keyboard: false,
            unblank_bar: !enabled,
        }),
        !enabled ==> r.unblank_bar,
{
    config.idle_bar_enabled = enabled;
    config.light_bar_idle_enabled = config.idle_enabled && enabled;
    IdleChange {
        take_over: false,
        mark_active: false,
        unblank_keyboard: false,
        unblank_bar: !enabled,
    }
}

/// What a change that only starts the count anew does.
pub open spec fn only_marks_active() -> IdleChange {
    IdleChange {
        take_over: false,
        mark_active: true,
        unblank_keyboard: false,
        unblank_bar: false,
    }
}

/// Sets the keyboard's delay, by its place in the list.
#[verifier::rlimit(60)]
pub fn set_keyboard_delay(config: &mut AppConfig, index: usize) -> (r: IdleChange)
    ensures
        *final(config) == (AppConfig {
            idle_keyboard_secs: delay_of(index as int),
            ..*old(config)
        }),
        r == only_marks_active(),
{
    config.idle_keyboard_secs = delay_at(index);
    IdleChange {
        take_over: false,
        mark_active: true,
        unblank_keyboard: false,
        unblank_bar: false,
    }
}

/// Sets the light bar's delay, by its place in the list.
#[verifier::rlimit(60)]
pub fn set_bar_delay(config: &mut AppConfig, index: usize) -> (r: IdleChange)
    ensures
        *final(config) == (AppConfig { idle_bar_secs: delay_of(index as int), ..*old(config) }),
        r == only_marks_active(),
{
    config.idle_bar_secs = delay_at(index);
    IdleChange {
        take_over: false,
        mark_active: true,
        unblank_keyboard: false,
        unblank_bar: false,
    }
}

/// Lets cursor motion count as activity, or not.
#[verifier::rlimit(60)]
pub fn set_mouse_wakes(config: &mut AppConfig, wakes: bool) -> (r: IdleChange)
    ensures
        *final(config) == (AppConfig { idle_mouse_wakes: wakes, ..*old(config) }),
        r == only_marks_active(),
{
    config.idle_mouse_wakes = wakes;
    IdleChange {
        take_over: false,
        mark_active: true,
        unblank_keyboard: false,
        unblank_bar: false,
    }
}

/// Whether each device is to be dark after so many idle seconds; `None` leaves it alone.
#[derive(Debug, Clone, Copy, PartialEq, Eq, Structural)]
pub struct Dark {
    pub keyboard: Option<bool>,
    pub bar: Option<bool>,
}

/// Which devices are to be dark after so many idle seconds. The keyboard's delay counts for
/// both devices while they are synced; without a reading nothing is touched.
pub open spec fn darkness(config: AppConfig, idle_secs: Option<u64>) -> Dark {
    match idle_secs {
        Some(secs) if config.idle_enabled => Dark {
            keyboard: if config.idle_keyboard_enabled {
                Some(secs >= config.idle_keyboard_secs)
            } else {
                None
            },
            bar: if !config.idle_bar_enabled {
                None
            } else if config.idle_synced {
                Some(secs >= config.idle_keyboard_secs)
            } else {
                Some(secs >= config.idle_bar_secs)
            },
        },
        _ => Dark { keyboard: None, bar: None },
    }
}

/// Which devices are to be dark after so many idle seconds.
pub fn dark_after(config: &AppConfig, idle_secs: Option<u64>) -> (r: Dark)
    ensures
        r == darkness(*config, idle_secs),
{
    let secs: u64 = match idle_secs {
        Some(secs) => secs,
        None => {
            return Dark { keyboard: None, bar: None };
        },
    };
    let bar_secs: u32 = if config.idle_synced {
        config.idle_keyboard_secs
    } else {
        config.idle_bar_secs
    };
    let keyboard = if config.idle_enabled && config.idle_keyboard_enabled {
        Some(secs >= config.idle_keyboard_secs as u64)
    } else {
        None
    };
    let bar = if config.idle_enabled && config.idle_bar_enabled {
        Some(secs >= bar_secs as u64)
    } else {
        None
    };
    Dark { keyboard, bar }
}

/// Devices that are synced and both blanked go dark together.
pub proof fn law_synced_devices_agree(config: AppConfig, idle_secs: Option<u64>)
    requires
        config.idle_synced,
        config.idle_keyboard_enabled,
        config.idle_bar_enabled,
    ensures
        darkness(config, idle_secs).keyboard == darkness(config, idle_secs).bar,
{
}

/// Every delay that is offered is shown as itself.
pub proof fn law_offered_delays_round_trip(index: int)
    requires
        0 <= index < 6,
    ensures
        place_of_delay(delay_of(index)) == index,
{
}

/// A device goes dark once the machine has been idle for its delay, and not before: the
/// keyboard for its own, the bar for its own or, where they are synced, for the keyboard's. A
/// device that is not to be blanked is left alone, and so is every device while blanking is
/// off or nothing says how long the machine was idle.
pub proof fn law_devices_go_dark_after_their_delay(config: AppConfig, secs: u64)
    ensures
        ({
            let dark = darkness(config, Some(secs));
            let on = config.idle_enabled;
            &&& dark.keyboard is None <==> !(on && config.idle_keyboard_enabled)
            &&& dark.bar is None <==> !(on && config.idle_bar_enabled)
            &&& dark.keyboard is Some ==> (dark.keyboard->0 <==> config.idle_keyboard_secs <= secs)
            &&& dark.bar is Some && !config.idle_synced ==> (dark.bar->0 <==> config.idle_bar_secs
                <= secs)
            &&& dark.bar is Some && config.idle_synced ==> (dark.bar->0
                <==> config.idle_keyboard_secs <= secs)
        }),
        darkness(config, None).keyboard is None && darkness(config, None).bar is None,
{
}

/// A device that is dark after some time stays dark until there is input.
pub proof fn law_dark_devices_stay_dark(config: AppConfig, earlier: u64, later: u64)
    requires
        earlier <= later,
    ensures
        darkness(config, Some(earlier)).keyboard == Some(true) ==> darkness(
            config,
            Some(later),
        ).keyboard == Some(true),
        darkness(config, Some(earlier)).bar == Some(true) ==> darkness(config, Some(later)).bar
            == Some(true),
{
}

/// The delays that are offered grow along the list: ten seconds, half a minute, one minute,
/// five, ten and thirty.
pub proof fn law_offered_delays_grow(i: int, j: int)
    requires
        0 <= i < j < 6,
    ensures
        delay_of(i) < delay_of(j),
        delay_of(0) == 10,
        delay_of(1) == 30,
        delay_of(2) == 60,
        delay_of(3) == 5 * 60,
        delay_of(4) == 10 * 60,
        delay_of(5) == 30 * 60,
{
}

/// A delay that is offered is found at the place it is offered at; any other shows as the
/// second.
pub proof fn law_offered_delays_are_found(i: int, secs: u32)
    requires
        0 <= i < 6,
    ensures
        place_of_delay(delay_of(i)) == i,
        (forall|k: int| 0 <= k < 6 ==> #[trigger] delay_of(k) != secs) ==> place_of_delay(secs)
            == 1,
{
    if forall|k: int| 0 <= k < 6 ==> #[trigger] delay_of(k) != secs {
        assert(delay_of(0) != secs && delay_of(2) != secs && delay_of(3) != secs && delay_of(4)
            != secs && delay_of(5) != secs);
    }
}

/// A place outside the list stands for half a minute.
pub proof fn law_places_outside_stand_for_half_a_minute(i: int)
    requires
        i < 0 || i >= 6,
    ensures
        delay_of(i) == 30,
{
}

} // verus!
