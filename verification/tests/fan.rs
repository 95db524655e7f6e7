use predator_sense::config::settings::FanPlan;
use predator_sense::hardware::fan::{
    curve_action, curve_input_temp, curve_resume, fan_curve_pct, get_coolboost, get_fan_mode,
    get_pwm_percent, needs_write, plan_target, preset_of_plan, pwm_available, set_coolboost, set_fan_mode, set_pwm_auto,
    set_pwm_full_speed, set_pwm_percent, wake_dynamic_fan_curve, Bounce, CurveAction, FanMode,
    FanPresetStatus, FanState, DEFAULT_FAN_CURVE,
};
use predator_sense::hardware::request::Request;
use predator_sense::protocol::helper::Action;

fn milli(celsius: f64) -> i32 {
    (celsius * 1000.0).round() as i32
}

fn pct(celsius: f64, steps: &[u8; 6]) -> u8 {
    fan_curve_pct(milli(celsius), steps)
}

fn action(celsius: f64, steps: &[u8; 6], handed_off: bool) -> CurveAction {
    curve_action(milli(celsius), steps, handed_off)
}

fn input(cpu: Option<f64>, gpu: Option<f64>) -> Option<i32> {
    curve_input_temp(cpu.map(milli), gpu.map(milli))
}

#[test]
fn default_curve_matches_the_original_hardcoded_steps() {
    let steps = DEFAULT_FAN_CURVE;
    assert_eq!(pct(20.0, &steps), 25);
    assert_eq!(pct(44.9, &steps), 25);
    assert_eq!(pct(45.0, &steps), 35);
    assert_eq!(pct(54.9, &steps), 35);
    assert_eq!(pct(55.0, &steps), 50);
    assert_eq!(pct(64.9, &steps), 50);
    assert_eq!(pct(65.0, &steps), 65);
    assert_eq!(pct(74.9, &steps), 65);
    assert_eq!(pct(75.0, &steps), 80);
    assert_eq!(pct(84.9, &steps), 80);
    assert_eq!(pct(85.0, &steps), 100);
    assert_eq!(pct(99.0, &steps), 100);
}

#[test]
fn a_custom_curve_is_honored_at_every_step() {
    // Quieter at low load, more aggressive at high load than the default.
    let steps = [10, 15, 30, 70, 90, 100];
    assert_eq!(pct(30.0, &steps), 10);
    assert_eq!(pct(50.0, &steps), 15);
    assert_eq!(pct(60.0, &steps), 30);
    assert_eq!(pct(70.0, &steps), 70);
    assert_eq!(pct(80.0, &steps), 90);
    assert_eq!(pct(90.0, &steps), 100);
}

#[test]
fn the_hotter_die_drives_the_curve() {
    assert_eq!(input(Some(50.0), Some(80.0)), Some(milli(80.0)));
    assert_eq!(input(Some(85.0), Some(40.0)), Some(milli(85.0)));
}

#[test]
fn one_sensor_is_enough() {
    // No discrete GPU, no nvidia-smi, or an AMD card.
    assert_eq!(input(Some(60.0), None), Some(milli(60.0)));
    assert_eq!(input(None, Some(60.0)), Some(milli(60.0)));
}

#[test]
fn a_parked_gpu_reporting_zero_loses() {
    assert_eq!(input(Some(55.0), Some(0.0)), Some(milli(55.0)));
}

#[test]
fn no_reading_means_the_fans_are_left_alone() {
    assert_eq!(input(None, None), None);
}

#[test]
fn the_gpu_half_now_reaches_the_curve() {
    // An idle CPU beside a hot GPU must not ask for 25%.
    let steps = DEFAULT_FAN_CURVE;
    let idle_cpu = Some(40.0);
    let hot_gpu = Some(84.0);
    assert_eq!(fan_curve_pct(input(idle_cpu, hot_gpu).unwrap(), &steps), 80);
    assert_eq!(pct(idle_cpu.unwrap(), &steps), 25);
}

#[test]
fn a_zero_step_hands_the_fans_to_the_firmware() {
    let steps = [0, 35, 50, 65, 80, 100];
    // Only the firmware can actually stop them; manual 0 still spins.
    assert_eq!(action(40.0, &steps, false), CurveAction::Firmware);
    // Once it has them, there is nothing to write each tick.
    assert_eq!(action(40.0, &steps, true), CurveAction::Hold);
}

#[test]
fn the_firmware_keeps_the_fans_through_the_whole_first_band() {
    let steps = [0, 35, 50, 65, 80, 100];
    // Resuming just above 45 C would make the fans cycle between 0 and
    // 2500 RPM every minute, because stopped fans warm the machine past the
    // boundary and 35% cools it back under.
    assert_eq!(action(46.0, &steps, true), CurveAction::Hold);
    assert_eq!(action(50.0, &steps, true), CurveAction::Hold);
    assert_eq!(action(54.9, &steps, true), CurveAction::Hold);
    // At the top of that band the curve takes over, at the step for the
    // temperature it actually reached.
    assert_eq!(action(55.0, &steps, true), CurveAction::Manual(50));
    assert_eq!(action(80.0, &steps, true), CurveAction::Manual(80));
}

#[test]
fn once_the_curve_has_them_it_keeps_them_until_the_zero_step() {
    let steps = [0, 35, 50, 65, 80, 100];
    // The other half of the asymmetric gap: manual control is held all
    // the way down to the zero region rather than handing back at 55 C.
    assert_eq!(action(54.0, &steps, false), CurveAction::Manual(35));
    assert_eq!(action(45.0, &steps, false), CurveAction::Manual(35));
    assert_eq!(action(44.0, &steps, false), CurveAction::Firmware);
}

#[test]
fn the_band_follows_whichever_steps_are_zero() {
    // Two zero steps: the firmware owns everything below 65 C.
    let steps = [0, 0, 50, 65, 80, 100];
    assert_eq!(action(50.0, &steps, true), CurveAction::Hold);
    assert_eq!(action(64.0, &steps, true), CurveAction::Hold);
    assert_eq!(action(65.0, &steps, true), CurveAction::Manual(65));
}

#[test]
fn a_curve_that_is_zero_until_the_top_step_resumes_at_its_boundary() {
    let steps = [0, 0, 0, 0, 0, 100];
    assert_eq!(action(80.0, &steps, true), CurveAction::Hold);
    assert_eq!(action(85.0, &steps, true), CurveAction::Manual(100));
}

#[test]
fn a_curve_without_zeros_never_hands_off() {
    let steps = DEFAULT_FAN_CURVE;
    assert_eq!(action(20.0, &steps, false), CurveAction::Manual(25));
    assert_eq!(action(90.0, &steps, false), CurveAction::Manual(100));
}

#[test]
fn editing_the_zero_step_away_takes_the_fans_back_immediately() {
    // The firmware is holding them from a previous `[0, ...]` curve and
    // the user has just set the first step to 25%. Waiting for a band the
    // curve no longer has would read as the setting being ignored.
    let steps = DEFAULT_FAN_CURVE;
    assert_eq!(action(20.0, &steps, true), CurveAction::Manual(25));
}

#[test]
fn an_all_zero_curve_just_means_leave_it_to_the_firmware() {
    let steps = [0; 6];
    assert_eq!(action(95.0, &steps, false), CurveAction::Firmware);
    assert_eq!(action(95.0, &steps, true), CurveAction::Hold);
    assert_eq!(curve_resume(&steps), None);
}

#[test]
fn an_unchanged_manual_percentage_is_not_rewritten() {
    assert!(!needs_write(CurveAction::Manual(35), FanState::Manual(35)));
}

#[test]
fn a_changed_manual_percentage_is_written() {
    assert!(needs_write(CurveAction::Manual(50), FanState::Manual(35)));
}

#[test]
fn hold_never_writes() {
    assert!(!needs_write(CurveAction::Hold, FanState::Firmware));
    assert!(!needs_write(CurveAction::Hold, FanState::Manual(35)));
    assert!(!needs_write(CurveAction::Hold, FanState::Unknown));
}

#[test]
fn a_repeated_handoff_is_not_rewritten() {
    assert!(!needs_write(CurveAction::Firmware, FanState::Firmware));
}

#[test]
fn switching_between_firmware_and_manual_is_written() {
    assert!(needs_write(CurveAction::Firmware, FanState::Manual(35)));
    assert!(needs_write(CurveAction::Manual(35), FanState::Firmware));
}

#[test]
fn nothing_is_assumed_before_the_first_successful_write() {
    // Startup, or after a write failed: the hardware is whatever the
    // firmware or a previous session left, so the curve has to assert
    // itself rather than trusting a value it never applied.
    assert!(needs_write(CurveAction::Manual(35), FanState::Unknown));
    assert!(needs_write(CurveAction::Firmware, FanState::Unknown));
}

fn sent(requests: &[Request]) -> Vec<(Action, String)> {
    requests
        .iter()
        .map(|request| (request.action, request.args.join(" ")))
        .collect()
}

#[test]
fn presets_go_through_the_controller_or_the_pwm_controls() {
    let auto = set_fan_mode(FanMode::Auto, FanPresetStatus::Unverified, true).unwrap();
    assert!(auto.wake);
    assert_eq!(sent(&auto.requests), [(Action::FanAuto, String::new())]);
    let max = set_fan_mode(FanMode::Max, FanPresetStatus::Verified, false).unwrap();
    assert!(!max.wake);
    assert_eq!(sent(&max.requests), [(Action::FanMax, String::new())]);
    let pwm = set_fan_mode(FanMode::Max, FanPresetStatus::KnownIncompatible, true).unwrap();
    assert!(!pwm.wake);
    assert_eq!(sent(&pwm.requests), sent(&set_pwm_full_speed()));
    let firmware = set_fan_mode(FanMode::Auto, FanPresetStatus::KnownIncompatible, true).unwrap();
    assert_eq!(sent(&firmware.requests), sent(&set_pwm_auto()));
    assert_eq!(
        set_fan_mode(FanMode::Auto, FanPresetStatus::KnownIncompatible, false).unwrap_err(),
        "fan_ec_incompatible"
    );
    assert_eq!(
        set_fan_mode(FanMode::Custom(40, 40), FanPresetStatus::Verified, true).unwrap_err(),
        "fan_note"
    );
}

#[test]
fn percentages_become_pwm_values() {
    assert_eq!(
        sent(&set_pwm_percent(50, 200)),
        [
            (Action::PwmCpuEnable, "1".to_string()),
            (Action::PwmGpuEnable, "1".to_string()),
            (Action::PwmCpu, "127".to_string()),
            (Action::PwmGpu, "255".to_string()),
        ]
    );
    let cpu = Some("127".to_string());
    let gpu = Some("255".to_string());
    assert_eq!(get_pwm_percent(&cpu, &gpu), Some((49, 100)));
    assert_eq!(get_pwm_percent(&cpu, &None), None);
    assert_eq!(get_pwm_percent(&Some("fast".to_string()), &gpu), None);
}

#[test]
fn replies_of_the_helper_are_read() {
    let reply = |text: &str| Some(text.to_string());
    assert_eq!(get_fan_mode(&reply("auto")), Some(FanMode::Auto));
    assert_eq!(get_fan_mode(&reply("max")), Some(FanMode::Max));
    assert_eq!(get_fan_mode(&reply("custom")), None);
    assert_eq!(get_fan_mode(&None), None);
    assert!(get_coolboost(&reply("1")));
    assert!(!get_coolboost(&reply("0")));
    assert!(!get_coolboost(&None));
    assert!(pwm_available(&reply("1")));
    assert!(!pwm_available(&reply("0")));
    assert_eq!(set_coolboost(true).args, ["1"]);
    assert_eq!(set_coolboost(false).args, ["0"]);
}

#[test]
fn the_wake_up_bounces_off_another_profile_and_back() {
    assert_eq!(
        wake_dynamic_fan_curve(true, Some(0), &[0, 1, 4]),
        Some(Bounce {
            through: 1,
            back: 0
        })
    );
    assert_eq!(wake_dynamic_fan_curve(true, Some(0), &[0]), None);
    assert_eq!(wake_dynamic_fan_curve(true, None, &[0, 1]), None);
    assert_eq!(wake_dynamic_fan_curve(false, Some(0), &[0, 1]), None);
}

#[test]
fn a_plan_says_who_has_the_fans() {
    let curve = FanPlan::Curve {
        steps: [0, 35, 50, 65, 80, 100],
    };
    assert_eq!(
        plan_target(FanPlan::Automatic, None, false),
        Some(CurveAction::Firmware)
    );
    assert_eq!(
        plan_target(FanPlan::Max, None, false),
        Some(CurveAction::Manual(100))
    );
    assert_eq!(
        plan_target(FanPlan::Fixed { percent: 0 }, None, false),
        Some(CurveAction::Firmware)
    );
    assert_eq!(
        plan_target(FanPlan::Fixed { percent: 40 }, None, true),
        Some(CurveAction::Manual(40))
    );
    assert_eq!(plan_target(curve, None, false), None);
    assert_eq!(
        plan_target(curve, Some(60_000), true),
        Some(CurveAction::Manual(50))
    );
    assert_eq!(
        plan_target(curve, Some(50_000), true),
        Some(CurveAction::Hold)
    );
}

#[test]
fn without_pwm_a_plan_is_one_of_two_presets() {
    assert_eq!(preset_of_plan(FanPlan::Max), FanMode::Max);
    assert_eq!(preset_of_plan(FanPlan::Automatic), FanMode::Auto);
    assert_eq!(preset_of_plan(FanPlan::Fixed { percent: 80 }), FanMode::Auto);
    assert_eq!(preset_of_plan(FanPlan::Curve { steps: [100; 6] }), FanMode::Auto);
}
