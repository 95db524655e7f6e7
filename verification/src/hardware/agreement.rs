//! What the application asks for is what the helper does: the requests made on one side of
//! the privilege boundary and the jobs worked out on the other.

use vstd::prelude::*;

use crate::hardware::chicony_rgb;
use crate::hardware::fan;
use crate::hardware::keyboard_rgb;
use crate::hardware::keyboard_rgb::KeyboardState;
use crate::number::{decimal_text, law_decimal_round_trip};
use crate::privileged::constants::{EcRegister, PwmAttribute};
use crate::privileged::job::{planned, Attribute, Job};
use crate::privileged::messages::number_value;
use crate::protocol::helper::{law_action_round_trip, Action, PwmControlMode, Switch};

verus! {

/// What the helper makes of a request.
pub open spec fn heard(action: Action, args: Seq<Seq<char>>) -> Result<Job<Seq<char>>, Seq<char>> {
    planned(seq![action.wire_name()] + args)
}

proof fn lemma_number(label: Seq<char>, n: nat, min: u16, max: u16)
    requires
        min <= n <= max,
    ensures
        number_value(label, decimal_text(n), min, max) == Ok::<u16, Seq<char>>(n as u16),
{
    law_decimal_round_trip(n, 0xffff);
}

/// A lighting state with percentages in range is shown as it stands.
pub proof fn law_keyboard_light_is_understood(state: KeyboardState)
    requires
        state.speed <= 100,
        state.brightness <= 100,
    ensures
        heard(Action::ChiconyEffect, keyboard_rgb::effect_args(state)) == Ok::<
            Job<Seq<char>>,
            Seq<char>,
        >(
            Job::ChiconyEffect {
                opcode: state.effect.code(),
                speed: state.speed,
                brightness: keyboard_rgb::shown_brightness(state),
                red: state.red,
                green: state.green,
                blue: state.blue,
                direction: keyboard_rgb::held_direction(state.direction),
            },
        ),
{
    law_action_round_trip(Action::ChiconyEffect);
    lemma_number("opcode"@, state.effect.code() as nat, 0, 255);
    lemma_number("speed"@, state.speed as nat, 0, 100);
    lemma_number("brightness"@, keyboard_rgb::shown_brightness(state) as nat, 0, 100);
    lemma_number("red"@, state.red as nat, 0, 255);
    lemma_number("green"@, state.green as nat, 0, 255);
    lemma_number("blue"@, state.blue as nat, 0, 255);
    lemma_number("direction"@, keyboard_rgb::held_direction(state.direction) as nat, 1, 2);
}

/// Every effect in every colour that the palette offers is shown as it was picked.
pub proof fn law_palette_effect_is_understood(effect: usize, brightness: u8, color: usize, speed: u8)
    requires
        1 <= effect <= 12,
        1 <= color <= 7,
    ensures
        heard(
            Action::ChiconyRgb,
            chicony_rgb::effect_args(effect, brightness, color, speed),
        ) == Ok::<Job<Seq<char>>, Seq<char>>(
            Job::ChiconyRgb { effect: effect as u8, brightness, color: color as u8, speed },
        ),
{
    law_action_round_trip(Action::ChiconyRgb);
    lemma_number("effect"@, effect as nat, 1, 12);
    lemma_number("brightness"@, brightness as nat, 0, 255);
    lemma_number("color"@, color as nat, 1, 7);
    lemma_number("speed"@, speed as nat, 0, 255);
}

/// Every colour is shown on the whole keyboard as it was picked.
pub proof fn law_color_is_understood(red: u8, green: u8, blue: u8)
    ensures
        heard(Action::ChiconyColor, chicony_rgb::color_args(red, green, blue)) == Ok::<
            Job<Seq<char>>,
            Seq<char>,
        >(Job::ChiconyColor { red, green, blue, brightness: 100 }),
{
    law_action_round_trip(Action::ChiconyColor);
    lemma_number("red"@, red as nat, 0, 255);
    lemma_number("green"@, green as nat, 0, 255);
    lemma_number("blue"@, blue as nat, 0, 255);
    lemma_number("brightness"@, 100, 0, 100);
}

/// The profile index that is asked for is the one that is written.
pub proof fn law_profile_is_understood(index: u8)
    ensures
        heard(Action::ThermalProfile, seq![decimal_text(index as nat)]) == Ok::<
            Job<Seq<char>>,
            Seq<char>,
        >(Job::Write(Attribute::ThermalProfile, decimal_text(index as nat))),
{
    law_action_round_trip(Action::ThermalProfile);
    law_decimal_round_trip(index as nat, 255);
}

/// A speed asked for as a percentage is never refused, whatever the percentage: what is
/// written is its share of the full PWM value.
pub proof fn law_fan_speed_is_understood(percent: u8)
    ensures
        heard(Action::PwmCpu, seq![decimal_text(fan::pwm_of_percent(percent))]) == Ok::<
            Job<Seq<char>>,
            Seq<char>,
        >(Job::PwmWrite(PwmAttribute::Cpu, decimal_text(fan::pwm_of_percent(percent)))),
        heard(Action::PwmGpu, seq![decimal_text(fan::pwm_of_percent(percent))]) == Ok::<
            Job<Seq<char>>,
            Seq<char>,
        >(Job::PwmWrite(PwmAttribute::Gpu, decimal_text(fan::pwm_of_percent(percent)))),
{
    law_action_round_trip(Action::PwmCpu);
    law_action_round_trip(Action::PwmGpu);
    let value = fan::pwm_of_percent(percent);
    lemma_number(PwmAttribute::Cpu.file(), value, 0, 255);
    lemma_number(PwmAttribute::Gpu.file(), value, 0, 255);
}

/// A way of driving the fans is written as the word it is asked for by.
pub proof fn law_fan_control_is_understood(mode: PwmControlMode)
    ensures
        heard(Action::PwmCpuEnable, seq![mode.wire_name()]) == Ok::<Job<Seq<char>>, Seq<char>>(
            Job::PwmWrite(PwmAttribute::CpuEnable, mode.wire_name()),
        ),
        heard(Action::PwmGpuEnable, seq![mode.wire_name()]) == Ok::<Job<Seq<char>>, Seq<char>>(
            Job::PwmWrite(PwmAttribute::GpuEnable, mode.wire_name()),
        ),
{
    law_action_round_trip(Action::PwmCpuEnable);
    law_action_round_trip(Action::PwmGpuEnable);
    reveal_strlit("0");
    reveal_strlit("1");
    reveal_strlit("2");
    let n: nat = match mode {
        PwmControlMode::FullSpeed => 0,
        PwmControlMode::Manual => 1,
        PwmControlMode::Automatic => 2,
    };
    assert(mode.wire_name() =~= decimal_text(n));
    lemma_number(PwmAttribute::CpuEnable.file(), n, 0, 2);
    lemma_number(PwmAttribute::GpuEnable.file(), n, 0, 2);
}

/// CoolBoost is turned on where on was asked for, and off where off was.
pub proof fn law_coolboost_is_understood(enabled: bool)
    ensures
        heard(
            Action::CoolBoost,
            seq![
                if enabled {
                    Switch::Enabled.wire_name()
                } else {
                    Switch::Disabled.wire_name()
                },
            ],
        ) == Ok::<Job<Seq<char>>, Seq<char>>(Job::EcWrite(EcRegister::CoolBoost, enabled)),
{
    law_action_round_trip(Action::CoolBoost);
    reveal_strlit("0");
    reveal_strlit("1");
}

} // verus!
