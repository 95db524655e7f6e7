use predator_sense::hardware::calibration;
use predator_sense::hardware::chicony_rgb::{set_effect, set_static_color};
use predator_sense::hardware::fan::{set_coolboost, set_pwm_percent};
use predator_sense::hardware::keyboard_rgb::{self, Effect, KeyboardState};
use predator_sense::hardware::request::Request;
use predator_sense::privileged::constants::{EcRegister, PwmAttribute};
use predator_sense::privileged::job::{plan, Attribute, Job};

fn heard(request: &Request) -> Result<Job<String>, String> {
    let mut words = vec![request.action.as_str().to_string()];
    words.extend(request.args.iter().cloned());
    plan(&words)
}

#[test]
fn a_keyboard_state_reaches_the_controller_as_it_stands() {
    let mut state = KeyboardState {
        effect: Effect::Wave,
        red: 10,
        green: 20,
        blue: 255,
        brightness: 100,
        speed: 0,
        direction: 9,
    };
    assert!(matches!(
        heard(&keyboard_rgb::apply(&state)),
        Ok(Job::ChiconyEffect {
            opcode: 0x03,
            speed: 0,
            brightness: 100,
            red: 10,
            green: 20,
            blue: 255,
            direction: 2,
        })
    ));
    state.brightness = 101;
    assert!(heard(&keyboard_rgb::apply(&state)).is_err());
}

#[test]
fn a_palette_effect_reaches_the_controller_as_it_was_picked() {
    let request = set_effect(12, 200, 7, 3).unwrap();
    assert!(matches!(
        heard(&request),
        Ok(Job::ChiconyRgb { effect: 12, brightness: 200, color: 7, speed: 3 })
    ));
}

#[test]
fn a_colour_reaches_the_controller_at_full_brightness() {
    assert!(matches!(
        heard(&set_static_color(1, 2, 3)),
        Ok(Job::ChiconyColor { red: 1, green: 2, blue: 3, brightness: 100 })
    ));
}

#[test]
fn a_profile_index_is_written_as_asked() {
    match heard(&calibration::set(255)) {
        Ok(Job::Write(Attribute::ThermalProfile, value)) => assert_eq!(value, "255"),
        other => panic!("{other:?}"),
    }
}

#[test]
fn fan_percentages_are_written_as_shares_of_the_pwm_range() {
    let jobs: Vec<(PwmAttribute, String)> = set_pwm_percent(50, 250)
        .iter()
        .map(|request| match heard(request) {
            Ok(Job::PwmWrite(attribute, value)) => (attribute, value),
            other => panic!("{other:?}"),
        })
        .collect();
    assert_eq!(
        jobs,
        vec![
            (PwmAttribute::CpuEnable, "1".to_string()),
            (PwmAttribute::GpuEnable, "1".to_string()),
            (PwmAttribute::Cpu, "127".to_string()),
            (PwmAttribute::Gpu, "255".to_string()),
        ]
    );
}

#[test]
fn coolboost_is_switched_as_asked() {
    for enabled in [false, true] {
        match heard(&set_coolboost(enabled)) {
            Ok(Job::EcWrite(EcRegister::CoolBoost, value)) => assert_eq!(value, enabled),
            other => panic!("{other:?}"),
        }
    }
}
