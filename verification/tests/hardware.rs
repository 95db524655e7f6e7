use predator_sense::config::settings::{ChiconyRgbState, PpdMap};
use predator_sense::hardware::alerts::{
    check, crossing, is_enabled, set_enabled, set_threshold_c, threshold_c, Alerts, Crossing,
    HYSTERESIS_C, MAX_THRESHOLD_C, MIN_THRESHOLD_C,
};
use predator_sense::hardware::blanking::Blanking;
use predator_sense::hardware::chicony_rgb::{self, set_effect, set_static_color, UsbIds};
use predator_sense::hardware::idle::{
    classify, idle_seconds, is_event_node, mark_active, note_events, rescan_due, start, stop,
    Activity, IdleClock, EV_ABS, EV_KEY, EV_REL, RESCAN_ROUNDS,
};
use predator_sense::hardware::keyboard_rgb::{self, Effect, KeyboardState};
use predator_sense::hardware::light_bar::{self, frame, LightBarMode, LightBarState};
use predator_sense::hardware::lighting::{not_restored, restore_saved, Device, SavedLighting};
use predator_sense::hardware::notify::mode_changed;
use predator_sense::hardware::ppd::{
    desktop_profile_for, sync_failed, sync_to_mode, DesktopProfile,
};
use predator_sense::hardware::profile::PowerProfile;
use predator_sense::hardware::resume::{
    resumed, resumed_at, suspend_offset, ClockReading, ResumeWatch,
};
use predator_sense::protocol::helper::Action;

/// The behaviour the threshold setting has to preserve: one alert per
/// crossing, whatever the limit is set to.
#[test]
fn one_alert_per_crossing_at_any_threshold() {
    for threshold in [MIN_THRESHOLD_C, 85, 90, MAX_THRESHOLD_C] {
        let limit = i32::from(threshold) * 1000;
        assert_eq!(crossing(limit, threshold, false), Crossing::Fire);
        assert_eq!(
            crossing(limit + 4_000, threshold, true),
            Crossing::Hold,
            "still hot with an alert standing must not fire again"
        );
        assert_eq!(
            crossing(limit - 1_000, threshold, true),
            Crossing::Hold,
            "just below the limit is inside the hysteresis band, not a re-arm"
        );
        assert_eq!(
            crossing(limit - HYSTERESIS_C * 1000 - 100, threshold, true),
            Crossing::Rearm
        );
        assert_eq!(
            crossing(limit - 20_000, threshold, false),
            Crossing::Hold,
            "cold with nothing standing is the quiet case"
        );
    }
}

/// A reading that would alert at one threshold must not at a higher one.
/// This is the setting's whole purpose, so it gets its own assertion.
#[test]
fn raising_the_threshold_silences_a_reading_that_would_have_fired() {
    assert_eq!(crossing(88_000, 85, false), Crossing::Fire);
    assert_eq!(crossing(88_000, 90, false), Crossing::Hold);
}

/// A hand-edited config must not be able to put the alert somewhere it
/// either never fires or never stops.
#[test]
fn the_threshold_is_clamped_to_the_supported_range() {
    let mut alerts = Alerts::default();
    set_threshold_c(&mut alerts, 5);
    assert_eq!(threshold_c(&alerts), MIN_THRESHOLD_C);
    set_threshold_c(&mut alerts, 200);
    assert_eq!(threshold_c(&alerts), MAX_THRESHOLD_C);
    set_threshold_c(&mut alerts, 90);
    assert_eq!(threshold_c(&alerts), 90);
}

#[test]
fn an_alert_is_shown_once_and_at_most_every_minute() {
    let mut alerts = Alerts::default();
    let mut tick = |cpu, gpu, now| check(&mut alerts, cpu, gpu, "CPU hot", "GPU hot", now);
    assert_eq!(tick(Some(80_000), None, 1_000), None);
    assert_eq!(
        tick(Some(91_500), Some(95_000), 1_010).as_deref(),
        Some("CPU hot (92°C)")
    );
    assert_eq!(tick(Some(92_000), Some(95_000), 1_100), None, "both stand");
    assert_eq!(tick(Some(70_000), Some(70_000), 1_110), None, "both re-arm");
    assert_eq!(
        tick(Some(90_500), None, 1_120).as_deref(),
        Some("CPU hot (90°C)"),
        "halfway goes to the even degree"
    );
    assert_eq!(tick(None, Some(99_000), 1_130), None, "too soon");
    assert_eq!(tick(Some(0), Some(0), 2_000), None);
}

#[test]
fn alerts_can_be_turned_off() {
    let mut alerts = Alerts::default();
    assert!(is_enabled(&alerts));
    set_enabled(&mut alerts, false);
    assert_eq!(
        check(&mut alerts, Some(99_000), None, "CPU", "GPU", 1_000),
        None
    );
    assert!(!alerts.cpu_fired);
}

#[test]
fn a_successful_write_records_the_new_state() {
    let mut b = Blanking::new();
    assert!(!b.is_blanked());
    assert!(b.set(true, || Ok(())).is_ok());
    assert!(b.is_blanked());
    assert!(b.set(false, || Ok(())).is_ok());
    assert!(!b.is_blanked());
}

#[test]
fn a_failed_write_leaves_the_state_alone() {
    // The whole point: the flag is what the idle tick compares against to
    // decide there is nothing to do, so a flag that lies about a write
    // that never landed means nothing ever retries.
    let mut b = Blanking::new();
    assert!(b
        .set(true, || Err("helper unreachable".to_string()))
        .is_err());
    assert!(!b.is_blanked(), "a failed blank must not read as blanked");
}

#[test]
fn a_failed_unblank_stays_blanked_so_the_next_tick_retries() {
    let mut b = Blanking::new();
    assert!(b.set(true, || Ok(())).is_ok());
    assert!(b.set(false, || Err("nope".to_string())).is_err());
    assert!(b.is_blanked(), "a failed restore must still read as blanked");
}

#[test]
fn the_error_reaches_the_caller_unchanged() {
    let mut b = Blanking::default();
    let err = b.set(true, || Err("exact text".to_string())).unwrap_err();
    assert_eq!(err, "exact text");
}

#[test]
fn rejects_effect_and_color_outside_the_wire_range() {
    assert!(set_effect(0, 30, 1, 0).is_err());
    assert!(set_effect(13, 30, 1, 0).is_err());
    assert!(set_effect(1, 30, 0, 0).is_err());
    assert!(set_effect(1, 30, 8, 0).is_err());
    let request = set_effect(12, 30, 7, 5).unwrap();
    assert_eq!(request.action, Action::ChiconyRgb);
    assert_eq!(request.args, ["12", "30", "7", "5"]);
}

#[test]
fn one_colour_is_set_at_full_brightness() {
    let request = set_static_color(1, 174, 255);
    assert_eq!(request.action, Action::ChiconyColor);
    assert_eq!(request.args, ["1", "174", "255", "100"]);
    assert_eq!(request.args.len(), request.action.argument_count());
}

#[test]
fn the_keyboard_is_found_by_its_ids() {
    let ids = |vendor: &str, product: &str| UsbIds {
        vendor: vendor.to_string(),
        product: product.to_string(),
    };
    let devices = vec![ids("8087", "0033"), ids("04F2\n", "0117\n")];
    assert!(chicony_rgb::is_available(&devices));
    assert!(keyboard_rgb::is_available(&devices));
    assert!(!chicony_rgb::is_available(&vec![ids("04f2", "0118")]));
    assert!(!chicony_rgb::is_available(&Vec::new()));
}

#[test]
fn a_keystroke_and_a_click_are_different_clocks() {
    // KEY_A: the matrix the keyboard controller watches.
    assert_eq!(classify(EV_KEY, 0x1e), Some(Activity::Key));
    // BTN_LEFT and BTN_TOUCH arrive as EV_KEY too, but the controller
    // never sees either - a touchpad user would otherwise look like they
    // were typing continuously while their backlight slept.
    assert_eq!(classify(EV_KEY, 0x110), Some(Activity::Button));
    assert_eq!(classify(EV_KEY, 0x14a), Some(Activity::Button));
}

#[test]
fn motion_is_pointer_activity() {
    assert_eq!(classify(EV_REL, 0x00), Some(Activity::Pointer));
    assert_eq!(classify(EV_ABS, 0x00), Some(Activity::Pointer));
}

#[test]
fn padding_events_are_ignored() {
    // EV_SYN closes every report and EV_MSC carries scancodes; counting
    // either would make an idle machine look busy forever.
    assert_eq!(classify(0x00, 0x00), None);
    assert_eq!(classify(0x04, 0x04), None);
}

fn record(kind: u16, code: u16) -> Vec<u8> {
    let mut bytes = vec![0u8; 16];
    bytes.extend(kind.to_le_bytes());
    bytes.extend(code.to_le_bytes());
    bytes.extend([1, 0, 0, 0]);
    bytes
}

#[test]
fn events_move_their_own_clock() {
    let mut clock = IdleClock::default();
    assert_eq!(idle_seconds(&clock, true, 100), None, "nothing is watched");
    assert!(start(&mut clock, 100));
    assert!(!start(&mut clock, 150), "one watcher per process");
    assert_eq!(idle_seconds(&clock, true, 130), Some(30));

    let mut motion = record(EV_REL, 0);
    motion.extend(record(0, 0));
    motion.extend([7; 10]); // not a whole record
    note_events(&mut clock, &motion, false, 140);
    assert_eq!(idle_seconds(&clock, true, 145), Some(5));
    assert_eq!(idle_seconds(&clock, false, 145), Some(45));

    note_events(&mut clock, &record(EV_KEY, 0x110), false, 150);
    assert_eq!(idle_seconds(&clock, false, 155), Some(5));
    assert_eq!(clock.last_key, 100, "a click is no key press");

    mark_active(&mut clock, 200);
    assert_eq!(idle_seconds(&clock, false, 199), Some(0));
    stop(&mut clock);
    assert_eq!(idle_seconds(&clock, false, 300), None);
}

#[test]
fn big_endian_events_are_read_too() {
    let mut clock = IdleClock::default();
    start(&mut clock, 1);
    let mut bytes = vec![0u8; 16];
    bytes.extend(EV_KEY.to_be_bytes());
    bytes.extend(0x1eu16.to_be_bytes());
    bytes.extend([0, 0, 0, 1]);
    note_events(&mut clock, &bytes, true, 9);
    assert_eq!(clock.last_key, 9);
}

#[test]
fn devices_are_looked_for_again_now_and_then() {
    assert!(is_event_node("event3"));
    assert!(!is_event_node("mouse0"));
    let mut countdown = RESCAN_ROUNDS;
    let rounds = (1..).find(|_| rescan_due(&mut countdown)).unwrap();
    assert_eq!(rounds, RESCAN_ROUNDS);
    assert_eq!(countdown, RESCAN_ROUNDS);
}

#[test]
fn off_and_static_share_an_opcode() {
    assert_eq!(Effect::Off.opcode(), Effect::Static.opcode());
}

#[test]
fn colourless_effects_are_the_fixed_firmware_animations() {
    assert!(!Effect::Rainbow.uses_color());
    assert!(!Effect::Wave.uses_color());
    assert!(Effect::Static.uses_color());
    assert!(Effect::Breathing.uses_color());
}

#[test]
fn only_wave_takes_a_direction() {
    assert!(Effect::Wave.uses_direction());
    assert!(!Effect::Breathing.uses_direction());
}

#[test]
fn the_keyboard_is_turned_off_by_zero_brightness() {
    let state = KeyboardState {
        effect: Effect::Wave,
        direction: 9,
        ..KeyboardState::default()
    };
    let request = keyboard_rgb::apply(&state);
    assert_eq!(request.action, Action::ChiconyEffect);
    assert_eq!(request.args, ["3", "50", "100", "0", "174", "199", "2"]);
    assert_eq!(request.args.len(), request.action.argument_count());
    let blank = keyboard_rgb::blank(&Some(state));
    assert_eq!(blank.args, ["1", "50", "0", "0", "174", "199", "2"]);
    assert_eq!(keyboard_rgb::unblank(&Some(state)).args, request.args);
    assert_eq!(
        keyboard_rgb::unblank(&None).args,
        ["1", "50", "100", "0", "174", "199", "1"]
    );
    assert!(!Effect::Static.uses_speed());
    assert_eq!(Effect::Heartbeat.label_key(), "kb_effect_heartbeat");
    assert_eq!(Effect::ALL.len(), 14);
    let mut blanking = Blanking::new();
    blanking.set(true, || Ok(())).unwrap();
    assert!(keyboard_rgb::is_blanked(&blanking));
}

#[test]
fn frame_matches_the_hardware_confirmed_layout() {
    let f = frame(&LightBarState {
        mode: LightBarMode::Breathing,
        speed: 3,
        brightness: 100,
        red: 0x80,
        green: 0x00,
        blue: 0xff,
    });
    assert_eq!(
        f,
        [0x01, 0x03, 0x64, 0x00, 0x01, 0x80, 0x00, 0xff, 0x03, 0x02, 0, 0, 0, 0, 0, 0]
    );
}

#[test]
fn blanking_uses_zero_brightness_not_the_off_mode_id() {
    // Mode 0x00 is Static on this firmware: it is what comes back after
    // sending 0xFF while the bar is still lit. Only brightness blanks.
    let f = frame(&LightBarState {
        brightness: 0,
        ..LightBarState::default()
    });
    assert_eq!(f[2], 0, "brightness byte must be zero to blank");
    assert_eq!(light_bar::blank(&None), f);
}

#[test]
fn static_is_the_sparse_0xff_id_not_zero() {
    assert_eq!(LightBarMode::Static.wire_id(), 0xFF);
    assert_eq!(LightBarMode::Off.wire_id(), 0x00);
}

#[test]
fn waking_the_bar_takes_a_breathing_frame_first() {
    let state = LightBarState {
        mode: LightBarMode::Wave,
        ..LightBarState::default()
    };
    let frames = light_bar::apply(&state, true, true).unwrap();
    assert_eq!(frames.len(), 2);
    assert_eq!(frames[0][0], LightBarMode::Breathing.wire_id());
    assert_eq!(frames[1], frame(&state));
    assert_eq!(light_bar::apply(&state, false, true).unwrap().len(), 1);
    assert_eq!(
        light_bar::apply(&state, true, false).unwrap_err(),
        "rgb_err_device_not_found"
    );
    assert_eq!(
        light_bar::restore_from_config(&Some(state), true).len(),
        2
    );
    assert!(light_bar::restore_from_config(&None, true).is_empty());
    assert!(light_bar::restore_from_config(&Some(state), false).is_empty());
}

#[test]
fn a_bar_that_is_off_stays_dark() {
    let off = LightBarState {
        mode: LightBarMode::Off,
        ..LightBarState::default()
    };
    let frames = light_bar::apply(&off, true, true).unwrap();
    assert_eq!(frames.len(), 1);
    assert_eq!(frames[0][0], 0xff);
    assert_eq!(frames[0][2], 0);
    assert_eq!(light_bar::unblank(&Some(off)), Some(frames[0]));
    assert_eq!(light_bar::unblank(&None), None);
    assert!(!LightBarMode::Off.uses_color());
    assert!(!LightBarMode::Static.uses_speed());
    assert_eq!(LightBarMode::Scanner.label_key(), "light_bar_scanner");
    assert_eq!(LightBarMode::ALL.len(), 9);
}

/// The ends are not a judgement call: Eco is the weakest mode and the
/// desktop's power saver is its weakest profile, and likewise at the top.
#[test]
fn both_maps_agree_at_the_ends() {
    for map in [PpdMap::QuietSavesPower, PpdMap::QuietIsBalanced] {
        assert_eq!(
            desktop_profile_for(PowerProfile::Eco, map),
            DesktopProfile::PowerSaver
        );
        assert_eq!(
            desktop_profile_for(PowerProfile::Turbo, map),
            DesktopProfile::Performance
        );
        assert_eq!(
            desktop_profile_for(PowerProfile::Balanced, map),
            DesktopProfile::Balanced
        );
    }
}

/// Quiet is the only mode that genuinely reads either way, which is why
/// the setting exists at all.
#[test]
fn only_quiet_differs_between_the_two_maps() {
    assert_eq!(
        desktop_profile_for(PowerProfile::Quiet, PpdMap::QuietSavesPower),
        DesktopProfile::PowerSaver
    );
    assert_eq!(
        desktop_profile_for(PowerProfile::Quiet, PpdMap::QuietIsBalanced),
        DesktopProfile::Balanced
    );
}

/// Performance folds onto the desktop's performance rather than its
/// balanced: calling it "balanced" would read as a downgrade to anyone
/// looking at the indicator.
#[test]
fn performance_reads_as_the_desktops_performance() {
    for map in [PpdMap::QuietSavesPower, PpdMap::QuietIsBalanced] {
        assert_eq!(
            desktop_profile_for(PowerProfile::Performance, map),
            DesktopProfile::Performance
        );
    }
}

#[test]
fn nothing_is_written_while_the_feature_is_off() {
    assert_eq!(
        sync_to_mode(PowerProfile::Eco, false, PpdMap::QuietSavesPower),
        None
    );
    assert_eq!(
        sync_to_mode(PowerProfile::Eco, true, PpdMap::QuietSavesPower),
        Some(DesktopProfile::PowerSaver)
    );
}

#[test]
fn a_missing_desktop_service_is_reported_once() {
    let mut reported = false;
    let line = sync_failed(DesktopProfile::Balanced, "no system bus", &mut reported).unwrap();
    assert_eq!(
        line,
        "desktop power profile not set to balanced, and this will not be reported again: no system bus"
    );
    assert_eq!(
        sync_failed(DesktopProfile::Balanced, "no system bus", &mut reported),
        None
    );
    assert_eq!(DesktopProfile::PowerSaver.as_str(), "power-saver");
}

#[test]
fn the_first_call_only_takes_a_baseline() {
    let mut watch = ResumeWatch::default();
    assert!(
        !resumed_at(&mut watch, 0),
        "a fresh process has nothing to compare against"
    );
}

#[test]
fn a_steady_clock_is_not_a_resume() {
    // Two samples in a row with no suspend between them: the gap between
    // the two clocks has not moved, so nothing should fire.
    let mut watch = ResumeWatch::default();
    let _ = resumed_at(&mut watch, 4_000);
    assert!(!resumed_at(&mut watch, 4_000));
}

#[test]
fn a_jump_past_the_threshold_reads_as_a_resume_once() {
    let mut watch = ResumeWatch::default();
    let _ = resumed_at(&mut watch, 4_000);
    assert!(resumed_at(&mut watch, 34_000), "a 30 s gap is a suspend");
    assert!(
        !resumed_at(&mut watch, 34_000),
        "and it must not fire again on the next poll"
    );
}

#[test]
fn a_jump_under_the_threshold_is_ignored() {
    let mut watch = ResumeWatch::default();
    let _ = resumed_at(&mut watch, 4_000);
    assert!(
        !resumed_at(&mut watch, 4_200),
        "200 ms of drift is scheduling noise, not a suspend"
    );
    assert!(!resumed_at(&mut watch, 4_700), "nor is exactly the threshold");
    assert!(resumed_at(&mut watch, 5_201));
}

fn reading(secs: i64, nanos: i64) -> Option<ClockReading> {
    Some(ClockReading { secs, nanos })
}

/// A first call on a real machine only takes a baseline, whatever its
/// clocks say.
#[test]
fn the_live_reading_starts_from_a_baseline_too() {
    let mut watch = ResumeWatch::default();
    assert!(!resumed(
        &mut watch,
        reading(5_000, 250_000_000),
        reading(1_000, 0)
    ));
    assert!(!resumed(&mut watch, None, reading(1_010, 0)), "no sample");
    assert!(resumed(
        &mut watch,
        reading(5_040, 250_000_000),
        reading(1_010, 0)
    ));
}

#[test]
fn the_time_suspended_is_the_gap_between_the_clocks() {
    assert_eq!(
        suspend_offset(reading(10, 1_500_000), reading(4, 999_000_000)),
        Some(5_002)
    );
    assert_eq!(suspend_offset(reading(4, 0), reading(10, 0)), Some(0));
    assert_eq!(suspend_offset(reading(i64::MAX, 0), reading(i64::MIN, 0)), Some(u64::MAX));
}

#[test]
fn the_first_mode_of_a_session_is_not_announced() {
    assert!(!mode_changed::<String>(&None, true));
    assert!(mode_changed(&Some("balanced".to_string()), true));
    assert!(!mode_changed(&Some("balanced".to_string()), false));
}

fn saved_lighting() -> SavedLighting {
    SavedLighting {
        keyboard_rgb_capable: true,
        keyboard_rgb: Some(KeyboardState::default()),
        chicony_available: true,
        chicony_rgb: Some(ChiconyRgbState {
            effect: 2,
            color: 3,
            brightness: 40,
            speed: 5,
        }),
        light_bar_available: true,
        light_bar: Some(LightBarState {
            mode: LightBarMode::Wave,
            ..LightBarState::default()
        }),
    }
}

#[test]
fn saved_lighting_is_replayed_on_the_devices_that_are_there() {
    let boot = restore_saved(&saved_lighting(), true);
    assert_eq!(
        boot.keyboard.unwrap().unwrap().action,
        Action::ChiconyEffect
    );
    assert_eq!(boot.light_bar.unwrap().unwrap().len(), 2);

    let resume = restore_saved(&saved_lighting(), false);
    assert_eq!(resume.light_bar.unwrap().unwrap().len(), 1);

    let palette = restore_saved(
        &SavedLighting {
            keyboard_rgb_capable: false,
            light_bar_available: false,
            ..saved_lighting()
        },
        true,
    );
    assert!(palette.palette);
    assert_eq!(
        palette.keyboard.unwrap().unwrap().args,
        ["2", "40", "3", "5"]
    );
    assert!(palette.light_bar.unwrap().is_err());

    let nothing = restore_saved(
        &SavedLighting {
            keyboard_rgb_capable: false,
            chicony_available: false,
            light_bar: None,
            ..saved_lighting()
        },
        true,
    );
    assert!(nothing.keyboard.is_none());
    assert!(nothing.light_bar.is_none());
    assert_eq!(
        not_restored(Device::LightBar, "resume", "gone"),
        "resume: light bar not restored: gone"
    );
    assert_eq!(
        not_restored(Device::PaletteKeyboard, "boot", "gone"),
        "boot: Chicony keyboard lighting not restored: gone"
    );
}

#[test]
fn modes_have_stable_names() {
    for mode in [
        PowerProfile::Eco,
        PowerProfile::Quiet,
        PowerProfile::Balanced,
        PowerProfile::Performance,
        PowerProfile::Turbo,
    ] {
        assert_eq!(PowerProfile::from_id(mode.to_id()), Some(mode));
    }
    assert_eq!(PowerProfile::from_id("ludicrous"), None);
}
