use predator_sense::protocol::battery::{
    charge_limit, device, devices, function_supported, health_mode_control, Supply,
    CHARGE_LIMIT_ATTRIBUTE, POWER_SUPPLY_CLASS, PREDATOR_SENSE_LIMITER, WMI_HEALTH_MODE,
};

const SYSFS: &str = "/tmp/fake-sysfs";

fn power_supply(name: &str, kind: &str, attributes: &[&str]) -> Supply {
    Supply {
        name: name.to_string(),
        kind: Some(format!("{kind}\n")),
        has_charge_limit: attributes.contains(&CHARGE_LIMIT_ATTRIBUTE),
    }
}

fn device_path(name: &str) -> String {
    format!("{SYSFS}/{POWER_SUPPLY_CLASS}/{name}")
}

#[test]
fn the_battery_is_found_whatever_its_device_number_is() {
    for name in ["BAT0", "BAT1", "BAT2"] {
        let supplies = vec![power_supply(name, "Battery", &[])];
        assert_eq!(device(SYSFS, &supplies), Some(device_path(name)));
    }
}

#[test]
fn mains_and_usb_power_supplies_are_never_taken_for_the_battery() {
    let supplies = vec![
        power_supply("ACAD", "Mains", &[]),
        power_supply("ucsi-source-psy-USBC000:001", "USB", &[]),
    ];
    assert_eq!(device(SYSFS, &supplies), None);
    assert_eq!(charge_limit(SYSFS, &supplies), None);
}

#[test]
fn several_batteries_always_resolve_to_the_same_device() {
    let supplies = vec![
        power_supply("BAT1", "Battery", &[]),
        power_supply("BAT0", "Battery", &[]),
        power_supply("ACAD", "Mains", &[]),
    ];
    for _ in 0..8 {
        assert_eq!(device(SYSFS, &supplies), Some(device_path("BAT0")));
    }
    assert_eq!(
        devices(SYSFS, &supplies),
        vec![device_path("BAT0"), device_path("BAT1")]
    );
}

#[test]
fn a_battery_without_a_charge_ceiling_reports_no_charge_limit_path() {
    let supplies = vec![power_supply("BAT1", "Battery", &["capacity"])];
    assert!(device(SYSFS, &supplies).is_some());
    assert_eq!(charge_limit(SYSFS, &supplies), None);
}

#[test]
fn the_charge_ceiling_is_found_on_a_battery_that_is_not_the_first_one() {
    let supplies = vec![
        power_supply("BAT0", "Battery", &["capacity"]),
        power_supply("BAT1", "Battery", &[CHARGE_LIMIT_ATTRIBUTE]),
    ];
    assert_eq!(
        charge_limit(SYSFS, &supplies),
        Some(format!("{}/{CHARGE_LIMIT_ATTRIBUTE}", device_path("BAT1")))
    );
}

#[test]
fn an_acer_wmi_battery_function_the_firmware_omits_is_not_supported() {
    // The driver reports -1 for a function missing from the firmware's
    // function list, and ignores writes to it.
    assert!(!function_supported("-1"));
    assert!(!function_supported("-1\n"));
    // 0 and 1 are the off/on states of a function that does exist.
    assert!(function_supported("0"));
    assert!(function_supported("1\n"));
    // An unreadable or nonsensical attribute proves nothing either.
    assert!(!function_supported(""));
    assert!(!function_supported("enabled"));
}

#[test]
fn the_charge_limit_is_resolved_on_the_battery_that_exposes_it() {
    let supplies = vec![power_supply("BAT0", "Battery", &[CHARGE_LIMIT_ATTRIBUTE])];
    assert_eq!(
        charge_limit(SYSFS, &supplies),
        Some(format!("{}/{CHARGE_LIMIT_ATTRIBUTE}", device_path("BAT0")))
    );
}

/// Linuwu-Sense's `battery_limiter` and acer-wmi-battery's `health_mode`
/// are the same firmware call, so either satisfies the health mode.
#[test]
fn either_driver_can_provide_the_health_mode() {
    assert_eq!(health_mode_control(SYSFS, &None, &None), None);
    let off = Some("0\n".to_string());
    let on = Some("1\n".to_string());
    assert_eq!(
        health_mode_control(SYSFS, &None, &off),
        Some(format!("{SYSFS}/{PREDATOR_SENSE_LIMITER}"))
    );

    // With both present the in-tree driver wins, but either alone works.
    assert_eq!(
        health_mode_control(SYSFS, &on, &off),
        Some(format!("{SYSFS}/{WMI_HEALTH_MODE}"))
    );
}

/// acer-wmi-battery creates the attribute even where the firmware has no
/// such function, and reports -1 there. That is not a usable control, and
/// must not mask a driver that does have one.
#[test]
fn an_unsupported_health_mode_is_not_a_backend() {
    let omitted = Some("-1\n".to_string());
    assert_eq!(health_mode_control(SYSFS, &omitted, &None), None);

    assert_eq!(
        health_mode_control(SYSFS, &omitted, &Some("1\n".to_string())),
        Some(format!("{SYSFS}/{PREDATOR_SENSE_LIMITER}")),
        "the unsupported in-tree attribute must not hide a working one"
    );
}

#[test]
fn a_missing_power_supply_class_is_not_an_error() {
    let none: Vec<Supply> = Vec::new();
    assert_eq!(device(SYSFS, &none), None);
    assert_eq!(charge_limit(SYSFS, &none), None);
}
