use predator_sense::hardware::power_profile::{
    ac_online, battery_capacity_pct, check, is_auto, level_rule, nearest, same_state, set_auto, set_auto_eco,
    set_cycles, set_target_profiles, transition_target, PowerPolicy, Reason, SeenState,
    SupplyReading, Tick, OVERRIDE_GRACE_MS,
};
use predator_sense::hardware::profile::PowerProfile;

const ECO: PowerProfile = PowerProfile::Eco;
const QUIET: PowerProfile = PowerProfile::Quiet;
const BALANCED: PowerProfile = PowerProfile::Balanced;
const PERFORMANCE: PowerProfile = PowerProfile::Performance;
const TURBO: PowerProfile = PowerProfile::Turbo;

fn with_auto_eco(enabled: bool, threshold: u32) -> PowerPolicy {
    let mut policy = PowerPolicy::default();
    set_auto_eco(&mut policy, enabled, threshold);
    policy
}

fn seen(mode: Option<PowerProfile>, firmware_index: Option<u8>) -> SeenState {
    SeenState {
        mode,
        firmware_index,
    }
}

/// The firmware index is a WMI read that can fail. Treating a failed read
/// as a new state restarts the grace window, and a read that fails once
/// per window would postpone the battery-level rules forever without the
/// user ever choosing anything.
#[test]
fn a_flickering_firmware_read_is_not_a_new_selection() {
    assert!(same_state(seen(None, Some(4)), seen(None, None)));
    assert!(same_state(seen(None, None), seen(None, Some(4))));
    assert!(same_state(seen(None, None), seen(None, None)));
}

/// A real change on either side is still a new state, which is the whole
/// point of tracking the index.
#[test]
fn a_confirmed_change_starts_a_fresh_window() {
    assert!(!same_state(seen(None, Some(4)), seen(None, Some(5))));
    assert!(!same_state(
        seen(Some(ECO), Some(4)),
        seen(Some(BALANCED), Some(4))
    ));
}

/// Battery is eco/quiet/balanced, AC is balanced/performance/turbo, so
/// balanced is the only mode both allow.
#[test]
fn a_mode_the_new_source_allows_is_left_alone() {
    let battery = [ECO, QUIET, BALANCED];
    let ac = [BALANCED, PERFORMANCE, TURBO];
    assert_eq!(
        transition_target(Some(BALANCED), &ac, &battery, PERFORMANCE),
        None,
        "plugging in while on a mode AC already allows must not move it"
    );
    assert_eq!(
        transition_target(Some(BALANCED), &battery, &ac, QUIET),
        None,
        "and neither must unplugging"
    );
}

#[test]
fn unplugging_out_of_turbo_lands_on_the_mode_both_sources_allow() {
    let battery = [ECO, QUIET, BALANCED];
    let ac = [BALANCED, PERFORMANCE, TURBO];
    assert_eq!(
        transition_target(Some(TURBO), &battery, &ac, QUIET),
        Some(BALANCED)
    );
}

#[test]
fn plugging_in_from_a_battery_only_mode_lands_on_the_common_one() {
    let battery = [ECO, QUIET, BALANCED];
    let ac = [BALANCED, PERFORMANCE, TURBO];
    assert_eq!(
        transition_target(Some(ECO), &ac, &battery, PERFORMANCE),
        Some(BALANCED)
    );
    assert_eq!(
        transition_target(Some(QUIET), &ac, &battery, PERFORMANCE),
        Some(BALANCED)
    );
}

/// With more than one mode in common it takes the nearest in power, so
/// coming down from Turbo keeps the strongest mode still allowed rather
/// than dropping to the weakest.
#[test]
fn several_modes_in_common_resolve_to_the_nearest_in_power() {
    let battery = [ECO, QUIET, BALANCED];
    let ac = [QUIET, BALANCED, TURBO];
    assert_eq!(
        transition_target(Some(TURBO), &battery, &ac, QUIET),
        Some(BALANCED)
    );
    assert_eq!(
        transition_target(Some(ECO), &ac, &battery, TURBO),
        Some(QUIET)
    );
}

/// Equally far in both directions takes the weaker tier: the machine is
/// being moved because its power budget just changed.
#[test]
fn a_tie_goes_to_the_weaker_tier() {
    assert_eq!(nearest(BALANCED, &[QUIET, PERFORMANCE]), Some(QUIET));
    assert_eq!(nearest(BALANCED, &[PERFORMANCE, QUIET]), Some(QUIET));
    assert_eq!(nearest(BALANCED, &[]), None);
}

/// No mode in common: the nearest the new source does allow is the
/// closest thing to staying put.
#[test]
fn with_nothing_in_common_it_takes_the_nearest_the_new_source_allows() {
    let battery = [ECO, QUIET];
    let ac = [PERFORMANCE, TURBO];
    assert_eq!(
        transition_target(Some(TURBO), &battery, &ac, BALANCED),
        Some(QUIET)
    );
    assert_eq!(
        transition_target(Some(ECO), &ac, &battery, BALANCED),
        Some(PERFORMANCE)
    );
}

/// Nothing configured for the source being moved into: the Settings target
/// is the only statement of intent left.
#[test]
fn the_configured_target_is_the_fallback_when_the_new_source_has_no_list() {
    assert_eq!(
        transition_target(Some(TURBO), &[], &[ECO, QUIET], BALANCED),
        Some(BALANCED)
    );
}

/// A mode that cannot be read is not a mode that needs moving.
#[test]
fn an_unreadable_mode_is_left_alone_rather_than_guessed_at() {
    assert_eq!(
        transition_target(None, &[ECO, QUIET], &[TURBO], BALANCED),
        None
    );
    assert_eq!(transition_target(None, &[], &[], BALANCED), None);
}

/// Nothing fires unless the power source actually changed, so a mode picked
/// with the key or in the app is not undone a grace window later.
#[test]
fn a_mode_outside_the_current_list_is_still_left_alone_without_a_transition() {
    let battery = [ECO, QUIET, BALANCED];
    let ac = [BALANCED, PERFORMANCE, TURBO];
    assert_eq!(
        transition_target(Some(PERFORMANCE), &battery, &ac, QUIET),
        Some(BALANCED),
        "the rule itself still has an answer; check() is what withholds it"
    );
}

#[test]
fn nothing_on_ac() {
    let policy = with_auto_eco(false, 30);
    assert_eq!(level_rule(&policy, true, Some(QUIET), Some(5)), None);
}

#[test]
fn below_the_critical_line_forces_quiet() {
    let policy = with_auto_eco(false, 30);
    assert_eq!(
        level_rule(&policy, false, Some(BALANCED), Some(5)),
        Some(QUIET)
    );
    assert_eq!(
        level_rule(&policy, false, Some(TURBO), Some(14)),
        Some(QUIET)
    );
    assert_eq!(level_rule(&policy, false, Some(BALANCED), Some(15)), None);
}

/// Eco is at least as conservative as Quiet, so the critical rule has
/// nothing to add to it.
#[test]
fn eco_survives_the_critical_battery_override() {
    let policy = with_auto_eco(false, 30);
    assert_eq!(level_rule(&policy, false, Some(ECO), Some(5)), None);
    assert_eq!(level_rule(&policy, false, Some(QUIET), Some(5)), None);
}

#[test]
fn an_unknown_battery_level_triggers_neither_rule() {
    let policy = with_auto_eco(false, 30);
    assert_eq!(level_rule(&policy, false, Some(BALANCED), None), None);
}

#[test]
fn automatic_eco_fires_below_its_own_threshold_and_not_above() {
    let policy = with_auto_eco(true, 30);
    assert_eq!(
        level_rule(&policy, false, Some(BALANCED), Some(29)),
        Some(ECO)
    );
    assert_eq!(level_rule(&policy, false, Some(ECO), Some(29)), None);
    assert_eq!(level_rule(&policy, false, Some(BALANCED), Some(31)), None);
    let off = with_auto_eco(false, 30);
    assert_eq!(
        level_rule(&off, false, Some(BALANCED), Some(29)),
        None,
        "switched off, the threshold means nothing"
    );
}

fn tick(ac: bool, current: PowerProfile, battery_pct: u32, now_ms: u64) -> Tick {
    Tick {
        ac: Some(ac),
        current: Some(current),
        battery_pct: Some(battery_pct),
        firmware_index: Some(4),
        now_ms,
    }
}

fn enabled_policy() -> PowerPolicy {
    let mut policy = PowerPolicy::default();
    set_auto(&mut policy, true);
    set_target_profiles(&mut policy, PERFORMANCE, QUIET);
    set_cycles(
        &mut policy,
        &vec!["balanced".to_string(), "turbo".to_string()],
        &vec!["eco".to_string(), "balanced".to_string()],
    );
    policy
}

#[test]
fn only_a_change_of_source_moves_the_mode() {
    let mut policy = enabled_policy();
    // The first reading only records.
    assert_eq!(check(&mut policy, &tick(true, TURBO, 80, 0)), None);
    assert_eq!(check(&mut policy, &tick(true, ECO, 80, 60_000)), None);
    let moved = check(&mut policy, &tick(false, TURBO, 80, 120_000)).unwrap();
    assert_eq!(moved.target, BALANCED);
    assert_eq!(moved.reason, Reason::PowerSourceChanged);
    assert_eq!(check(&mut policy, &tick(false, TURBO, 80, 180_000)), None);
}

#[test]
fn a_level_rule_waits_out_the_grace_window() {
    let mut policy = enabled_policy();
    assert_eq!(check(&mut policy, &tick(false, BALANCED, 5, 0)), None);
    assert_eq!(
        check(&mut policy, &tick(false, BALANCED, 5, OVERRIDE_GRACE_MS - 1)),
        None
    );
    let moved = check(&mut policy, &tick(false, BALANCED, 5, OVERRIDE_GRACE_MS)).unwrap();
    assert_eq!(moved.target, QUIET);
    assert_eq!(moved.reason, Reason::BatteryLevel);
}

#[test]
fn the_power_supply_class_tells_source_and_charge() {
    let mains = SupplyReading {
        kind: Some("Mains\n".to_string()),
        online: Some("1\n".to_string()),
        capacity: None,
    };
    let battery = SupplyReading {
        kind: Some("Battery\n".to_string()),
        online: None,
        capacity: Some("63\n".to_string()),
    };
    let supplies = vec![battery, mains];
    assert_eq!(ac_online(&supplies), Some(true));
    assert_eq!(battery_capacity_pct(&supplies), Some(63));
    assert_eq!(ac_online(&Vec::new()), None);
    assert_eq!(battery_capacity_pct(&Vec::new()), None);
}

#[test]
fn the_policy_is_off_until_it_is_switched_on() {
    let mut policy = PowerPolicy::default();
    assert!(!is_auto(&policy));
    set_auto(&mut policy, true);
    assert!(is_auto(&policy));
}
