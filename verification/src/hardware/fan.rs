//! Fan presets, the PWM controls and the software fan curve.
//!
//! Temperatures are in thousandths of a degree Celsius, as the kernel reports them.

use vstd::prelude::*;

use crate::config::settings::FanPlan;
use crate::hardware::request::{requests_view, Request};
use crate::number::{
    decimal, decimal_text, decimal_value, law_decimal_round_trip, parse_u16_text,
};
use crate::protocol::helper::{
    law_fan_mode_round_trip, law_switch_round_trip, Action, PwmControlMode, Switch, PERCENT_MAX,
    PWM_VALUE_MAX,
};
use crate::text::{same, text_of};

verus! {

/// Fan control modes. `Custom` holds the percentages of the CPU and the GPU fan.
#[derive(Debug, Clone, Copy, PartialEq, Eq, Structural)]
pub enum FanMode {
    Auto,
    Max,
    Custom(u8, u8),
}

/// What is known of the preset bytes on this model.
#[derive(Debug, Clone, Copy, PartialEq, Eq, Structural)]
pub enum FanPresetStatus {
    Verified,
    /// No report either way. The preset is sent: withholding fan control on every unlisted
    /// model would be worse.
    Unverified,
    /// The embedded controller of this model disagrees with the preset bytes.
    KnownIncompatible,
}

/// What a change of fan mode takes.
#[derive(Debug)]
pub struct FanOrder {
    /// Whether the firmware's own curve is to be woken first, see
    /// [`wake_dynamic_fan_curve`].
    pub wake: bool,
    /// What the helper is asked for, in order; the first failure stops it.
    pub requests: Vec<Request>,
}

/// Message shown where percentages are asked of the presets.
pub const FAN_NOTE: &'static str = "fan_note";

/// Message shown where this model has neither usable presets nor PWM control.
pub const FAN_EC_INCOMPATIBLE: &'static str = "fan_ec_incompatible";

/// The requests that hand both fans to a control mode.
pub open spec fn both_in(mode: PwmControlMode) -> Seq<(Action, Seq<Seq<char>>)> {
    seq![
        (Action::PwmCpuEnable, seq![mode.wire_name()]),
        (Action::PwmGpuEnable, seq![mode.wire_name()]),
    ]
}

/// What a change of fan mode takes: the requests, and whether the firmware's curve is woken
/// first; or the message that refuses it.
pub open spec fn fan_order(mode: FanMode, status: FanPresetStatus, pwm: bool) -> Result<
    (bool, Seq<(Action, Seq<Seq<char>>)>),
    Seq<char>,
> {
    match (mode, status) {
        (FanMode::Custom(_, _), _) => Err(FAN_NOTE@),
        (_, FanPresetStatus::KnownIncompatible) => if !pwm {
            Err(FAN_EC_INCOMPATIBLE@)
        } else if mode == FanMode::Auto {
            Ok((false, both_in(PwmControlMode::Automatic)))
        } else {
            Ok((false, both_in(PwmControlMode::FullSpeed)))
        },
        (FanMode::Auto, _) => Ok((true, seq![(Action::FanAuto, seq![])])),
        (FanMode::Max, _) => Ok((false, seq![(Action::FanMax, seq![])])),
    }
}

/// What a change of fan mode takes. Auto and Max are firmware modes; percentages are
/// refused here. Where the preset bytes are known not to fit this model, the same two
/// presets are reached through the PWM controls, if there are any.
pub fn set_fan_mode(mode: FanMode, status: FanPresetStatus, pwm: bool) -> (r: Result<
    FanOrder,
    &'static str,
>)
    ensures
        match r {
            Ok(order) => fan_order(mode, status, pwm) == Ok::<_, Seq<char>>(
                (order.wake, requests_view(order.requests@)),
            ),
            Err(key) => fan_order(mode, status, pwm) == Err::<
                (bool, Seq<(Action, Seq<Seq<char>>)>),
                _,
            >(key@),
        },
{
    let action = match mode {
        FanMode::Auto => Action::FanAuto,
        FanMode::Max => Action::FanMax,
        FanMode::Custom(_, _) => {
            return Err(FAN_NOTE);
        },
    };
    if status == FanPresetStatus::KnownIncompatible {
        if !pwm {
            return Err(FAN_EC_INCOMPATIBLE);
        }
        let requests = if mode == FanMode::Auto {
            set_pwm_auto()
        } else {
            set_pwm_full_speed()
        };
        return Ok(FanOrder { wake: false, requests });
    }
    let mut requests: Vec<Request> = Vec::new();
    requests.push(Request::plain(action));
    proof {
        let none: Seq<Seq<char>> = seq![];
        assert(requests_view(requests@) == seq![(action, none)]);
    }
    Ok(FanOrder { wake: mode == FanMode::Auto, requests })
}

/// The profile through which the firmware's profile index is bounced, and the one it comes
/// back to.
#[derive(Debug, Clone, Copy, PartialEq, Eq, Structural)]
pub struct Bounce {
    pub through: u8,
    pub back: u8,
}

/// Whether a list holds no profile but this one.
pub open spec fn only_holds(profiles: Seq<u8>, current: u8) -> bool {
    forall|i: int| 0 <= i < profiles.len() ==> profiles[i] == current
}

/// Whether `r` is how to bounce off `current`: through the first supported profile that is
/// another one, and back.
pub open spec fn is_bounce(current: u8, supported: Seq<u8>, r: Bounce) -> bool {
    &&& r.back == current
    &&& r.through != current
    &&& exists|i: int|
        #![trigger supported[i]]
        0 <= i < supported.len() && supported[i] == r.through && only_holds(
            supported.take(i),
            current,
        )
}

/// How to wake the firmware's load-following fan curve: a transition of the firmware's
/// profile index to another supported profile and back, so that the profile is in the end
/// the one it was. `None` where the index cannot be read or there is no other profile.
///
/// The way back is taken only where the way there was.
pub fn wake_dynamic_fan_curve(available: bool, current: Option<u8>, supported: &[u8]) -> (r: Option<
    Bounce,
>)
    ensures
        match (current, r) {
            (Some(now), Some(bounce)) => available && is_bounce(now, supported@, bounce),
            (Some(now), None) => !available || only_holds(supported@, now),
            (None, _) => r is None,
        },
{
    if !available {
        return None;
    }
    let now = match current {
        None => {
            return None;
        },
        Some(now) => now,
    };
    let mut i: usize = 0;
    while i < supported.len()
        invariant
            available,
            current == Some(now),
            i <= supported@.len(),
            forall|k: int| 0 <= k < i ==> supported@[k] == now,
        decreases supported@.len() - i,
    {
        if supported[i] != now {
            proof {
                assert(only_holds(supported@.take(i as int), now));
                assert(supported@[i as int] != now);
            }
            return Some(Bounce { through: supported[i], back: now });
        }
        i = i + 1;
    }
    None
}

/// The fan mode a reply of the helper names.
pub open spec fn mode_named(reply: Seq<char>) -> Option<FanMode> {
    match crate::protocol::helper::FanMode::named(reply) {
        Some(crate::protocol::helper::FanMode::Automatic) => Some(FanMode::Auto),
        Some(crate::protocol::helper::FanMode::Maximum) => Some(FanMode::Max),
        None => None,
    }
}

/// The firmware fan mode that is active, as the helper read it back; `None` where it could
/// not be read or is neither of the two.
pub fn get_fan_mode(reply: &Option<String>) -> (r: Option<FanMode>)
    ensures
        r == (match reply {
            Some(text) => mode_named(text@),
            None => None,
        }),
{
    match reply {
        None => None,
        Some(text) => match crate::protocol::helper::FanMode::parse(text.as_str()) {
            Some(crate::protocol::helper::FanMode::Automatic) => Some(FanMode::Auto),
            Some(crate::protocol::helper::FanMode::Maximum) => Some(FanMode::Max),
            None => None,
        },
    }
}

/// Turns CoolBoost on or off.
pub fn set_coolboost(enabled: bool) -> (r: Request)
    ensures
        r.asks(
            Action::CoolBoost,
            seq![
                if enabled {
                    Switch::Enabled.wire_name()
                } else {
                    Switch::Disabled.wire_name()
                },
            ],
        ),
{
    let switch = if enabled {
        Switch::Enabled
    } else {
        Switch::Disabled
    };
    Request::with(Action::CoolBoost, switch.as_str())
}

/// Whether CoolBoost is on, as the helper read it; off where it could not be read.
pub fn get_coolboost(reply: &Option<String>) -> (r: bool)
    ensures
        r == (reply is Some && Switch::named(reply->0@) == Some(Switch::Enabled)),
{
    match reply {
        None => false,
        Some(text) => match Switch::parse(text.as_str()) {
            Some(Switch::Enabled) => true,
            _ => false,
        },
    }
}

/// Whether the kernel exposes PWM control, as the helper reported it.
pub fn pwm_available(reply: &Option<String>) -> (r: bool)
    ensures
        r == (reply is Some && reply->0@ == "1"@),
{
    match reply {
        None => false,
        Some(text) => same(text.as_str(), "1"),
    }
}

/// A percentage as a PWM value; more than a hundred is a hundred.
pub open spec fn pwm_of_percent(percent: u8) -> nat {
    let held: int = if percent > PERCENT_MAX {
        PERCENT_MAX as int
    } else {
        percent as int
    };
    (held * PWM_VALUE_MAX / PERCENT_MAX as int) as nat
}

fn pwm_value(percent: u8) -> (r: u64)
    ensures
        r == pwm_of_percent(percent),
{
    let held: u64 = if percent as u16 > PERCENT_MAX {
        PERCENT_MAX as u64
    } else {
        percent as u64
    };
    held * PWM_VALUE_MAX as u64 / PERCENT_MAX as u64
}

/// The requests that drive the fans at these percentages.
pub open spec fn drive_requests(cpu_pct: u8, gpu_pct: u8) -> Seq<(Action, Seq<Seq<char>>)> {
    both_in(PwmControlMode::Manual) + seq![
        (Action::PwmCpu, seq![decimal_text(pwm_of_percent(cpu_pct))]),
        (Action::PwmGpu, seq![decimal_text(pwm_of_percent(gpu_pct))]),
    ]
}

/// Drives the fans at these percentages: both are put under manual control first.
pub fn set_pwm_percent(cpu_pct: u8, gpu_pct: u8) -> (r: Vec<Request>)
    ensures
        requests_view(r@) == drive_requests(cpu_pct, gpu_pct),
{
    let mut out = hand_both_to(PwmControlMode::Manual);
    let cpu = decimal(pwm_value(cpu_pct));
    let gpu = decimal(pwm_value(gpu_pct));
    out.push(Request::with(Action::PwmCpu, cpu.as_str()));
    out.push(Request::with(Action::PwmGpu, gpu.as_str()));
    assert(requests_view(out@) =~= drive_requests(cpu_pct, gpu_pct));
    out
}

fn hand_both_to(mode: PwmControlMode) -> (r: Vec<Request>)
    ensures
        requests_view(r@) == both_in(mode),
        r@.len() == 2,
{
    let mut out: Vec<Request> = Vec::new();
    out.push(Request::with(Action::PwmCpuEnable, mode.as_str()));
    out.push(Request::with(Action::PwmGpuEnable, mode.as_str()));
    assert(requests_view(out@) =~= both_in(mode));
    out
}

/// Hands both fans to the firmware's own curve.
pub fn set_pwm_auto() -> (r: Vec<Request>)
    ensures
        requests_view(r@) == both_in(PwmControlMode::Automatic),
{
    hand_both_to(PwmControlMode::Automatic)
}

/// Runs both fans at full speed, as the physical Turbo key does.
pub fn set_pwm_full_speed() -> (r: Vec<Request>)
    ensures
        requests_view(r@) == both_in(PwmControlMode::FullSpeed),
{
    hand_both_to(PwmControlMode::FullSpeed)
}

/// A PWM value as a percentage, in one byte.
pub open spec fn percent_of_pwm(value: nat) -> nat {
    (value * PERCENT_MAX as nat / PWM_VALUE_MAX as nat) % 256
}

/// The fan speed a reply of the helper holds, as a percentage.
pub open spec fn percent_read(reply: Option<Seq<char>>) -> Option<nat> {
    match reply {
        None => None,
        Some(text) => match decimal_value(text, 0xffff) {
            None => None,
            Some(value) => Some(percent_of_pwm(value)),
        },
    }
}

fn read_percent(reply: &Option<String>) -> (r: Option<u8>)
    ensures
        match r {
            Some(n) => percent_read(text_of(*reply)) == Some(n as nat),
            None => percent_read(text_of(*reply)) is None,
        },
{
    match reply {
        None => None,
        Some(text) => match parse_u16_text(text.as_str()) {
            None => None,
            Some(value) => {
                let percent: u32 = value as u32 * PERCENT_MAX as u32 / PWM_VALUE_MAX as u32;
                Some((percent % 256) as u8)
            },
        },
    }
}

/// The speed of the CPU and the GPU fan as percentages, from the PWM values that the helper
/// read (0 to 255); `None` where either is missing.
pub fn get_pwm_percent(cpu: &Option<String>, gpu: &Option<String>) -> (r: Option<(u8, u8)>)
    ensures
        match r {
            Some((c, g)) => percent_read(text_of(*cpu)) == Some(c as nat) && percent_read(
                text_of(*gpu),
            ) == Some(g as nat),
            None => percent_read(text_of(*cpu)) is None || percent_read(text_of(*gpu)) is None,
        },
{
    match (read_percent(cpu), read_percent(gpu)) {
        (Some(c), Some(g)) => Some((c, g)),
        _ => None,
    }
}

/// The hotter of two readings that may be missing.
pub open spec fn hotter(cpu: Option<i32>, gpu: Option<i32>) -> Option<i32> {
    match (cpu, gpu) {
        (Some(c), Some(g)) => Some(
            if c >= g {
                c
            } else {
                g
            },
        ),
        (Some(only), None) => Some(only),
        (None, Some(only)) => Some(only),
        (None, None) => None,
    }
}

/// The temperature the software curve answers to: the hotter of the two, since one speed
/// drives both fans. A machine may lack either reading.
pub fn curve_input_temp(cpu: Option<i32>, gpu: Option<i32>) -> (r: Option<i32>)
    ensures
        r == hotter(cpu, gpu),
{
    match (cpu, gpu) {
        (Some(c), Some(g)) => if c >= g {
            Some(c)
        } else {
            Some(g)
        },
        (Some(only), None) => Some(only),
        (None, Some(only)) => Some(only),
        (None, None) => None,
    }
}

/// The temperatures at which the software curve steps. Only the percentage of each step can
/// be edited.
pub const FAN_CURVE_BREAKPOINTS: [i32; 5] = [45_000, 55_000, 65_000, 75_000, 85_000];

/// The curve of whoever never edited one.
pub const DEFAULT_FAN_CURVE: [u8; 6] = [25, 35, 50, 65, 80, 100];

/// The step a temperature falls in: how many breakpoints it has reached.
pub open spec fn step_at(temp: int) -> int {
    if temp < 45_000 {
        0
    } else if temp < 55_000 {
        1
    } else if temp < 65_000 {
        2
    } else if temp < 75_000 {
        3
    } else if temp < 85_000 {
        4
    } else {
        5
    }
}

/// The fan speed, in percent, that a curve asks for at a temperature.
pub fn fan_curve_pct(temp: i32, steps: &[u8; 6]) -> (r: u8)
    ensures
        r == steps@[step_at(temp as int)],
{
    let mut i: usize = 0;
    while i < 5
        invariant
            i <= 5,
            i <= step_at(temp as int),
        decreases 5 - i,
    {
        if temp < FAN_CURVE_BREAKPOINTS[i] {
            return steps[i];
        }
        i = i + 1;
    }
    steps[5]
}

/// The first step of a curve that is not zero; 6 where all are.
pub open spec fn first_active(steps: Seq<u8>) -> int {
    if steps[0] != 0 {
        0
    } else if steps[1] != 0 {
        1
    } else if steps[2] != 0 {
        2
    } else if steps[3] != 0 {
        3
    } else if steps[4] != 0 {
        4
    } else if steps[5] != 0 {
        5
    } else {
        6
    }
}

/// The temperature above which a step's band ends. The top step has no end and counts with
/// the boundary it begins at.
pub open spec fn band_end(step: int) -> int {
    if step <= 0 {
        45_000
    } else if step == 1 {
        55_000
    } else if step == 2 {
        65_000
    } else if step == 3 {
        75_000
    } else {
        85_000
    }
}

/// The temperature at which a curve takes the fans back from the firmware, if it ever does.
pub open spec fn resume_temp(steps: Seq<u8>) -> Option<int> {
    if first_active(steps) == 6 {
        None
    } else {
        Some(band_end(first_active(steps)))
    }
}

/// The temperature at which the curve takes the fans back after handing them to the
/// firmware: the end of the first band that is not zero, so that the machine does not
/// alternate between silence and a spinning fan at the edge of the zero region. `None` for a
/// curve that is zero everywhere.
pub fn curve_resume(steps: &[u8; 6]) -> (r: Option<i32>)
    ensures
        match r {
            Some(t) => resume_temp(steps@) == Some(t as int),
            None => resume_temp(steps@) is None,
        },
{
    let mut i: usize = 0;
    while i < 6
        invariant
            i <= 6,
            forall|k: int| 0 <= k < i ==> steps@[k] == 0,
        decreases 6 - i,
    {
        if steps[i] != 0 {
            let last: usize = if i < 4 {
                i
            } else {
                4
            };
            return Some(FAN_CURVE_BREAKPOINTS[last]);
        }
        i = i + 1;
    }
    None
}

/// What the software curve does on a tick.
#[derive(Debug, Clone, Copy, PartialEq, Eq, Structural)]
pub enum CurveAction {
    /// Hand both fans to the firmware. Only the firmware can stop them: a manual PWM value
    /// of zero still spins.
    Firmware,
    /// Drive both fans at this percentage.
    Manual(u8),
    /// Write nothing: the firmware has the fans, and keeps them.
    Hold,
}

/// What the curve last applied with success. `Unknown` at the start and after a write that
/// failed, so that the curve then asserts itself.
#[derive(Debug, Clone, Copy, PartialEq, Eq, Structural)]
pub enum FanState {
    Unknown,
    Firmware,
    Manual(u8),
}

/// What is applied once an action has been carried out.
pub open spec fn state_after(action: CurveAction, applied: FanState) -> FanState {
    match action {
        CurveAction::Firmware => FanState::Firmware,
        CurveAction::Manual(percent) => FanState::Manual(percent),
        CurveAction::Hold => applied,
    }
}

/// Whether an action still has to reach the hardware: whether it would change what is
/// applied.
pub fn needs_write(action: CurveAction, applied: FanState) -> (r: bool)
    ensures
        r == (state_after(action, applied) != applied),
{
    match (action, applied) {
        (CurveAction::Hold, _) => false,
        (CurveAction::Firmware, FanState::Firmware) => false,
        (CurveAction::Manual(wanted), FanState::Manual(in_force)) => wanted != in_force,
        _ => true,
    }
}

/// The choice between the firmware's curve and a percentage.
pub open spec fn curve_choice(temp: int, steps: Seq<u8>, handed_off: bool) -> CurveAction {
    let percent = steps[step_at(temp)];
    if percent == 0 {
        if handed_off {
            CurveAction::Hold
        } else {
            CurveAction::Firmware
        }
    } else if handed_off && steps[0] == 0 && temp < resume_temp(steps)->0 {
        CurveAction::Hold
    } else {
        CurveAction::Manual(percent)
    }
}

/// Decides between the firmware's curve and a percentage, from the temperature and whether
/// the firmware has the fans. A step of zero means "stop", which only the firmware can do.
/// The firmware then keeps the fans until the temperature has left the whole first band that
/// is not zero; where the first step was edited away from zero there is no such band, and
/// the curve takes the fans back at once.
pub fn curve_action(temp: i32, steps: &[u8; 6], handed_off: bool) -> (r: CurveAction)
    ensures
        r == curve_choice(temp as int, steps@, handed_off),
{
    let percent = fan_curve_pct(temp, steps);
    if percent == 0 {
        return if handed_off {
            CurveAction::Hold
        } else {
            CurveAction::Firmware
        };
    }
    if handed_off && steps[0] == 0 {
        match curve_resume(steps) {
            None => {
                return CurveAction::Hold;
            },
            Some(resume) => {
                if temp < resume {
                    return CurveAction::Hold;
                }
            },
        }
    }
    CurveAction::Manual(percent)
}

/// What a plan comes to on a machine whose fans cannot be driven: full speed where it asks for
/// that, the firmware's own curve otherwise.
pub fn preset_of_plan(plan: FanPlan) -> (r: FanMode)
    ensures
        r == (match plan {
            FanPlan::Max => FanMode::Max,
            FanPlan::Automatic | FanPlan::Fixed { .. } | FanPlan::Curve { .. } => FanMode::Auto,
        }),
        r is Max <==> plan is Max,
        !(plan is Max) ==> r is Auto,
{
    match plan {
        FanPlan::Max => FanMode::Max,
        FanPlan::Automatic | FanPlan::Fixed { .. } | FanPlan::Curve { .. } => FanMode::Auto,
    }
}

/// What a plan asks of the fans.
pub open spec fn plan_choice(plan: FanPlan, temp: Option<i32>, handed_off: bool) -> Option<
    CurveAction,
> {
    match plan {
        FanPlan::Automatic => Some(CurveAction::Firmware),
        FanPlan::Max => Some(CurveAction::Manual(100)),
        FanPlan::Fixed { percent } => Some(
            if percent == 0 {
                CurveAction::Firmware
            } else {
                CurveAction::Manual(percent)
            },
        ),
        FanPlan::Curve { steps } => match temp {
            Some(temp) => Some(curve_choice(temp as int, steps@, handed_off)),
            None => None,
        },
    }
}

/// What a plan asks of the fans, at a temperature where one was read; `None` leaves them
/// alone. A fixed speed of zero is no speed: a manual zero still turns the fans, so the
/// firmware gets them.
pub fn plan_target(plan: FanPlan, temp: Option<i32>, handed_off: bool) -> (r: Option<CurveAction>)
    ensures
        r == plan_choice(plan, temp, handed_off),
{
    match plan {
        FanPlan::Automatic => Some(CurveAction::Firmware),
        FanPlan::Max => Some(CurveAction::Manual(100)),
        FanPlan::Fixed { percent } => if percent == 0 {
            Some(CurveAction::Firmware)
        } else {
            Some(CurveAction::Manual(percent))
        },
        FanPlan::Curve { steps } => match temp {
            Some(temp) => Some(curve_action(temp, &steps, handed_off)),
            None => None,
        },
    }
}

/// What was applied is not written again: the same answer on the next tick needs no write.
pub proof fn law_applied_action_is_not_rewritten(action: CurveAction, applied: FanState)
    ensures
        state_after(action, state_after(action, applied)) == state_after(action, applied),
{
}

/// Nothing is taken for granted before the first write that succeeds: whatever the curve
/// decides while what is applied is unknown is written, but for holding still.
pub proof fn law_unknown_state_is_asserted(action: CurveAction)
    requires
        action != CurveAction::Hold,
    ensures
        state_after(action, FanState::Unknown) != FanState::Unknown,
{
}

/// The curve never drives the fans at zero percent, and never hands the firmware what the
/// firmware has.
pub proof fn law_zero_is_left_to_the_firmware(temp: int, steps: Seq<u8>, handed_off: bool)
    requires
        steps.len() == 6,
    ensures
        curve_choice(temp, steps, handed_off) != CurveAction::Manual(0),
        handed_off ==> curve_choice(temp, steps, handed_off) != CurveAction::Firmware,
        !handed_off ==> curve_choice(temp, steps, handed_off) != CurveAction::Hold,
{
}

/// A curve without a zero step never hands the fans off, and takes them back from the
/// firmware at any temperature.
pub proof fn law_curve_without_zeros_keeps_the_fans(temp: int, steps: Seq<u8>, handed_off: bool)
    requires
        steps.len() == 6,
        forall|i: int| 0 <= i < 6 ==> steps[i] != 0,
    ensures
        curve_choice(temp, steps, handed_off) == CurveAction::Manual(steps[step_at(temp)]),
{
}

/// The fans are stopped low and started high: where the curve begins with zeros and has a
/// band above them before the top step, the temperature at which it takes the fans back lies
/// a whole band above every temperature of that zero region.
pub proof fn law_fans_start_a_band_above_where_they_stop(low: int, high: int, steps: Seq<u8>)
    requires
        steps.len() == 6,
        steps[0] == 0,
        first_active(steps) < 5,
        step_at(low) < first_active(steps),
        curve_choice(high, steps, true) is Manual,
    ensures
        curve_choice(low, steps, false) == CurveAction::Firmware,
        high - low > 10_000,
{
}

/// While the firmware has the fans and the temperature stays below the point at which the
/// curve resumes, nothing is written.
pub proof fn law_nothing_is_written_below_the_resume_point(
    temp: int,
    steps: Seq<u8>,
    applied: FanState,
)
    requires
        steps.len() == 6,
        steps[0] == 0,
        resume_temp(steps) is Some ==> temp < resume_temp(steps)->0,
    ensures
        state_after(curve_choice(temp, steps, true), applied) == applied,
{
}

/// A hotter machine never gets less from a curve whose steps do not fall.
pub proof fn law_rising_curve_never_slows_down(low: int, high: int, steps: Seq<u8>)
    requires
        steps.len() == 6,
        low <= high,
        forall|i: int, j: int| 0 <= i <= j < 6 ==> steps[i] <= steps[j],
    ensures
        steps[step_at(low)] <= steps[step_at(high)],
{
}

/// A percentage is sent as its share of the 255 steps of a PWM value, rounded down; more than
/// a hundred percent as all of them. What is read back is within one percent of what was set.
pub proof fn law_pwm_is_the_share_of_the_percentage(percent: u8)
    ensures
        percent <= 100 ==> pwm_of_percent(percent) * 100 <= percent * 255 < (pwm_of_percent(percent)
            + 1) * 100,
        percent > 100 ==> pwm_of_percent(percent) == 255,
        percent <= 100 ==> percent <= percent_of_pwm(pwm_of_percent(percent)) + 1 && percent_of_pwm(
            pwm_of_percent(percent),
        ) <= percent,
{
}

/// More percent is never less PWM.
pub proof fn law_more_percent_is_no_less_pwm(low: u8, high: u8)
    requires
        low <= high,
    ensures
        pwm_of_percent(low) <= pwm_of_percent(high),
        low < high <= 100 ==> pwm_of_percent(low) < pwm_of_percent(high),
{
}

/// A PWM value is shown as its share of a hundred percent, rounded down.
pub proof fn law_percentage_is_the_share_of_the_pwm(text: Seq<char>, value: nat)
    requires
        decimal_value(text, 0xffff) == Some(value),
        value <= 255,
    ensures
        percent_read(Some(text)) matches Some(percent) && percent * 255 <= value * 100 < (percent
            + 1) * 255,
        percent_read(None) is None,
{
}

/// Both fans are put under manual control before either is driven, and each is then driven at
/// its own percentage: the CPU's fan at the first, the GPU's at the second.
pub proof fn law_each_fan_is_driven_at_its_percentage(cpu_pct: u8, gpu_pct: u8)
    requires
        cpu_pct <= 100,
        gpu_pct <= 100,
    ensures
        ({
            let sent = drive_requests(cpu_pct, gpu_pct);
            &&& sent.len() == 4
            &&& sent[0].0 == Action::PwmCpuEnable && sent[0].1 == seq!["1"@]
            &&& sent[1].0 == Action::PwmGpuEnable && sent[1].1 == seq!["1"@]
            &&& sent[2].0 == Action::PwmCpu && sent[2].1.len() == 1
            &&& decimal_value(sent[2].1[0], 255) matches Some(v) && v * 100 <= cpu_pct * 255 < (v
                + 1) * 100
            &&& sent[3].0 == Action::PwmGpu && sent[3].1.len() == 1
            &&& decimal_value(sent[3].1[0], 255) matches Some(v) && v * 100 <= gpu_pct * 255 < (v
                + 1) * 100
        }),
{
    law_decimal_round_trip(pwm_of_percent(cpu_pct), 255);
    law_decimal_round_trip(pwm_of_percent(gpu_pct), 255);
}

/// Handing the fans to a control mode reaches both of them: `2` leaves them to the firmware
/// and `0` runs them at full speed.
pub proof fn law_control_modes_reach_both_fans()
    ensures
        ({
            let auto = both_in(PwmControlMode::Automatic);
            let full = both_in(PwmControlMode::FullSpeed);
            &&& auto.len() == 2 && full.len() == 2
            &&& auto[0] == (Action::PwmCpuEnable, seq!["2"@])
            &&& auto[1] == (Action::PwmGpuEnable, seq!["2"@])
            &&& full[0] == (Action::PwmCpuEnable, seq!["0"@])
            &&& full[1] == (Action::PwmGpuEnable, seq!["0"@])
        }),
{
}

/// Auto asks for the firmware's own curve and Max for full speed: by preset where the preset
/// bytes are not known to be wrong, and through the PWM controls where they are; where there
/// is neither, the change is refused, and so are percentages. Only Auto by preset wakes the
/// firmware's curve.
pub proof fn law_fan_mode_asks_for_what_it_says(status: FanPresetStatus, pwm: bool, c: u8, g: u8)
    ensures
        fan_order(FanMode::Custom(c, g), status, pwm) is Err,
        status != FanPresetStatus::KnownIncompatible ==> {
            &&& fan_order(FanMode::Auto, status, pwm) matches Ok((wake, sent)) && wake && sent.len()
                == 1 && sent[0].0 == Action::FanAuto
            &&& fan_order(FanMode::Max, status, pwm) matches Ok((wake, sent)) && !wake && sent.len()
                == 1 && sent[0].0 == Action::FanMax
        },
        status == FanPresetStatus::KnownIncompatible && !pwm ==> fan_order(
            FanMode::Auto,
            status,
            pwm,
        ) is Err && fan_order(FanMode::Max, status, pwm) is Err,
        status == FanPresetStatus::KnownIncompatible && pwm ==> {
            &&& fan_order(FanMode::Auto, status, pwm) matches Ok((wake, sent)) && !wake
                && sent.len() == 2 && sent[0].1 == seq!["2"@] && sent[1].1 == seq!["2"@]
            &&& fan_order(FanMode::Max, status, pwm) matches Ok((wake, sent)) && !wake && sent.len()
                == 2 && sent[0].1 == seq!["0"@] && sent[1].1 == seq!["0"@]
        },
{
}

/// The helper's two words are read as the two firmware modes, and nothing else as either.
pub proof fn law_fan_mode_words(reply: Seq<char>)
    ensures
        mode_named("auto"@) == Some(FanMode::Auto),
        mode_named("max"@) == Some(FanMode::Max),
        reply != "auto"@ && reply != "max"@ ==> mode_named(reply) is None,
{
    law_fan_mode_round_trip(crate::protocol::helper::FanMode::Automatic);
    law_fan_mode_round_trip(crate::protocol::helper::FanMode::Maximum);
    if mode_named(reply) is Some {
        assert(crate::protocol::helper::FanMode::named(reply)->0.wire_name() == reply);
    }
}

/// Waking the firmware's curve leaves the profile where it was: it goes through another
/// supported profile and comes back.
pub proof fn law_waking_comes_back(current: u8, supported: Seq<u8>, bounce: Bounce)
    requires
        is_bounce(current, supported, bounce),
    ensures
        bounce.back == current,
        bounce.through != current,
        supported.contains(bounce.through),
{
    let i = choose|i: int|
        #![trigger supported[i]]
        0 <= i < supported.len() && supported[i] == bounce.through && only_holds(
            supported.take(i),
            current,
        );
    assert(supported[i] == bounce.through);
}

/// The curve answers to the hotter reading.
pub proof fn law_curve_answers_to_the_hotter(cpu: Option<i32>, gpu: Option<i32>)
    ensures
        hotter(cpu, gpu) is None <==> cpu is None && gpu is None,
        hotter(cpu, gpu) is Some ==> hotter(cpu, gpu) == cpu || hotter(cpu, gpu) == gpu,
        cpu is Some ==> hotter(cpu, gpu)->0 >= cpu->0,
        gpu is Some ==> hotter(cpu, gpu)->0 >= gpu->0,
{
}

/// The bands are ten degrees wide: the step is at most `i` below 45 degrees and ten more for
/// every step, and above `i` from there on.
pub proof fn law_bands_are_ten_degrees_wide(temp: int, i: int)
    requires
        0 <= i < 5,
    ensures
        temp < 45_000 + 10_000 * i <==> step_at(temp) <= i,
        0 <= step_at(temp) <= 5,
{
}

/// The curve drives the fans at the percentage of the band that the temperature is in, where
/// the fans are its own and that percentage is not zero.
pub proof fn law_curve_drives_its_band(temp: int, steps: Seq<u8>, i: int)
    requires
        steps.len() == 6,
        0 <= i < 6,
        steps[i] != 0,
        i > 0 ==> temp >= 35_000 + 10_000 * i,
        i < 5 ==> temp < 45_000 + 10_000 * i,
    ensures
        curve_choice(temp, steps, false) == CurveAction::Manual(steps[i]),
        steps[0] != 0 ==> curve_choice(temp, steps, true) == CurveAction::Manual(steps[i]),
{
}

/// The fans are taken back at the end of the first band that is not zero, or at the beginning
/// of the last one; a curve of zeros never takes them back.
pub proof fn law_fans_are_taken_back_at_a_band_end(temp: int, steps: Seq<u8>, i: int)
    requires
        steps.len() == 6,
        0 < i < 6,
        steps[i] != 0,
        forall|k: int| 0 <= k < i ==> steps[k] == 0,
    ensures
        i < 5 ==> resume_temp(steps) == Some(45_000 + 10_000 * i),
        i == 5 ==> resume_temp(steps) == Some(85_000int),
        temp < 45_000 + 10_000 * i && temp < 85_000 ==> curve_choice(temp, steps, true)
            == CurveAction::Hold,
        temp >= 45_000 + 10_000 * i && i < 5 && steps[step_at(temp)] != 0 ==> curve_choice(
            temp,
            steps,
            true,
        ) is Manual,
{
}

/// A curve of zeros leaves the fans to the firmware at every temperature.
pub proof fn law_curve_of_zeros_never_drives(temp: int, steps: Seq<u8>)
    requires
        steps.len() == 6,
        forall|k: int| 0 <= k < 6 ==> steps[k] == 0,
    ensures
        resume_temp(steps) is None,
        curve_choice(temp, steps, false) == CurveAction::Firmware,
        curve_choice(temp, steps, true) == CurveAction::Hold,
{
}

/// Once carried out, an action is what is applied; one that holds still changes nothing.
pub proof fn law_carried_out_action_is_applied(percent: u8, applied: FanState)
    ensures
        state_after(CurveAction::Manual(percent), applied) == FanState::Manual(percent),
        state_after(CurveAction::Firmware, applied) == FanState::Firmware,
        state_after(CurveAction::Hold, applied) == applied,
{
}

/// A plan says what it is called: full speed is a hundred percent, a fixed speed that
/// percentage, and the firmware has the fans under an automatic plan and a fixed zero. A curve
/// is followed where there is a temperature, and leaves the fans alone where there is none.
pub proof fn law_plan_asks_for_what_it_says(
    percent: u8,
    steps: [u8; 6],
    temp: Option<i32>,
    handed_off: bool,
)
    ensures
        plan_choice(FanPlan::Automatic, temp, handed_off) == Some(CurveAction::Firmware),
        plan_choice(FanPlan::Max, temp, handed_off) == Some(CurveAction::Manual(100)),
        percent > 0 ==> plan_choice(FanPlan::Fixed { percent }, temp, handed_off) == Some(
            CurveAction::Manual(percent),
        ),
        plan_choice(FanPlan::Fixed { percent: 0 }, temp, handed_off) == Some(CurveAction::Firmware),
        plan_choice(FanPlan::Curve { steps }, None, handed_off) is None,
        temp is Some && !handed_off && steps@[step_at(temp->0 as int)] > 0 ==> plan_choice(
            FanPlan::Curve { steps },
            temp,
            handed_off,
        ) == Some(CurveAction::Manual(steps@[step_at(temp->0 as int)])),
{
}

} // verus!
