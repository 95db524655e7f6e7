use std::path::Path;

use predator_sense::protocol::base64_lite::{decode, encode};
use predator_sense::protocol::grub_splash;
use predator_sense::protocol::helper::{
    Action, CpuGovernor, EnergyPreference, FanMode, PwmControlMode, Switch,
};
use predator_sense::protocol::{backlight, binary, path};

#[test]
fn round_trips_arbitrary_lengths() {
    for length in 0..40 {
        let data: Vec<u8> = (0..length).map(|i| (i * 37 + 5) as u8).collect();
        let encoded = encode(&data);
        assert_eq!(decode(&encoded).unwrap(), data, "length {length}");
    }
}

#[test]
fn matches_known_vectors() {
    assert_eq!(encode(b""), "");
    assert_eq!(encode(b"f"), "Zg==");
    assert_eq!(encode(b"fo"), "Zm8=");
    assert_eq!(encode(b"foo"), "Zm9v");
    assert_eq!(encode(b"foobar"), "Zm9vYmFy");
    assert_eq!(decode("Zm9vYmFy").unwrap(), b"foobar");
}

#[test]
fn rejects_malformed_input() {
    assert_eq!(decode("Zg"), None); // wrong length
    assert_eq!(decode("Z g="), None); // stray whitespace
    assert!(decode("Z===").is_none()); // over-padded
    assert_eq!(decode("!g=="), None); // outside the alphabet
}

#[test]
fn only_exact_encodings_decode() {
    assert_eq!(decode("Zg=="), Some(b"f".to_vec()));
    assert_eq!(decode("Zh=="), None); // leftover bits are not zero
    assert_eq!(decode("Zm9="), None); // leftover bits are not zero
    assert_eq!(decode("Zg==Zg=="), None); // padding before the end
    assert_eq!(decode("===="), None);
    assert_eq!(decode("é==="), None);
}

#[test]
fn distinct_bytes_have_distinct_encodings() {
    let mut seen = Vec::new();
    for a in 0..=255u8 {
        seen.push(encode(&[a]));
        seen.push(encode(&[a, 0]));
    }
    let mut sorted = seen.clone();
    sorted.sort();
    sorted.dedup();
    assert_eq!(sorted.len(), seen.len());
}

#[test]
fn every_helper_action_round_trips_through_its_wire_name() {
    for action in Action::ALL {
        assert_eq!(Action::parse(action.as_str()), Some(action));
        assert!(action.usage().starts_with(action.as_str()));
        let words: Vec<&str> = action.usage().split_whitespace().collect();
        assert_eq!(words[0], action.as_str());
        assert_eq!(words.len(), action.argument_count() + 1);
    }
}

#[test]
fn installed_binary_names_do_not_share_exact_names() {
    let names = [
        binary::INSTALLER,
        binary::APPLICATION,
        binary::HELPER,
        binary::HOTKEY,
        binary::TRAY,
    ];
    for (index, name) in names.iter().enumerate() {
        assert!(!names[index + 1..].contains(name));
    }
}

#[test]
fn installed_paths_end_with_their_canonical_binary_names() {
    for (path, binary) in [
        (path::INSTALLER, binary::INSTALLER),
        (path::APPLICATION, binary::APPLICATION),
        (path::HELPER, binary::HELPER),
        (path::HOTKEY, binary::HOTKEY),
        (path::TRAY, binary::TRAY),
    ] {
        assert_eq!(
            Path::new(path).file_name().and_then(|name| name.to_str()),
            Some(binary)
        );
    }
}

#[test]
fn typed_cpu_profile_values_round_trip_through_the_wire_format() {
    for governor in [CpuGovernor::Powersave, CpuGovernor::Performance] {
        assert_eq!(CpuGovernor::parse(governor.as_str()), Some(governor));
    }
    for preference in [
        EnergyPreference::RawPerformance,
        EnergyPreference::Default,
        EnergyPreference::Performance,
        EnergyPreference::BalancePerformance,
        EnergyPreference::BalancePower,
        EnergyPreference::Power,
    ] {
        assert_eq!(
            EnergyPreference::parse(preference.as_str()),
            Some(preference)
        );
    }
    for switch in [Switch::Disabled, Switch::Enabled] {
        assert_eq!(Switch::parse(switch.as_str()), Some(switch));
    }
}

#[test]
fn unknown_spellings_parse_to_nothing() {
    assert_eq!(Action::parse("reboot"), None);
    assert_eq!(CpuGovernor::parse("ondemand"), None);
    assert_eq!(EnergyPreference::parse("turbo"), None);
    assert_eq!(Switch::parse("yes"), None);
    assert_eq!(FanMode::parse("quiet"), None);
}

#[test]
fn fan_modes_and_switches_have_their_wire_spellings() {
    for mode in [FanMode::Automatic, FanMode::Maximum] {
        assert_eq!(FanMode::parse(mode.as_str()), Some(mode));
    }
    assert_eq!(Switch::from(true).as_str(), "1");
    assert_eq!(Switch::from(false).as_str(), "0");
    assert_eq!(PwmControlMode::FullSpeed.as_str(), "0");
    assert_eq!(PwmControlMode::Manual.as_str(), "1");
    assert_eq!(PwmControlMode::Automatic.as_str(), "2");
}

#[test]
fn splash_extensions_are_matched_exactly() {
    assert!(grub_splash::extension_supported("png"));
    assert!(grub_splash::extension_supported("tga"));
    assert!(!grub_splash::extension_supported("gif"));
    assert!(!grub_splash::extension_supported("PNG"));
    assert_eq!(grub_splash::MAX_IMAGE_BYTES, 8 * 1024 * 1024);
}

#[test]
fn the_first_backlight_by_name_is_used() {
    let entries = vec!["nvidia_0".to_string(), "intel_backlight".to_string()];
    assert_eq!(
        backlight::device("/sys", &entries).as_deref(),
        Some("/sys/class/backlight/intel_backlight")
    );
    assert_eq!(backlight::device("/sys", &Vec::new()), None);
}
