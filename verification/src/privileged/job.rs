//! From a command line to the job it asks for.

use vstd::prelude::*;

use crate::number::{decimal, decimal_text, decimal_value, parse_u8};
use crate::privileged::constants::{
    EcRegister, FanPreset, PwmAttribute, CPU_PERCENT_MAX, CPU_PERCENT_MIN, GPU_POWER_MAX_WATTS,
    GPU_POWER_MIN_WATTS,
};
use crate::privileged::cpu_profile::CpuProfileRequest;
use crate::privileged::messages::{
    bool_str, ensure_arity, fail_quoting, failure, number_value, parse_bool, parse_u16, quoting,
    switch_text, switch_value, usage_error,
};
use crate::protocol::battery::WMI_CALIBRATION_MODE;
use crate::protocol::helper::{Action, CpuGovernor, EnergyPreference};
use crate::protocol::thermal_profile::SYSFS_INDEX;
use crate::text::{outcome, same, texts, trim, trimmed};

verus! {

/// Attributes that live at a fixed place below the sysfs root.
#[derive(Debug, Clone, Copy, PartialEq, Eq, Structural)]
pub enum Attribute {
    NoTurbo,
    MinPerf,
    BatteryCalibration,
    BacklightTimeout,
    ThermalProfile,
    DiscreteGpuMode,
    SerialNumber,
}

impl Attribute {
    /// What errors call the attribute.
    pub open spec fn name(self) -> Seq<char> {
        match self {
            Attribute::NoTurbo => "no-turbo"@,
            Attribute::MinPerf => "min-perf"@,
            Attribute::BatteryCalibration => "battery-calibration"@,
            Attribute::BacklightTimeout => "backlight-timeout"@,
            Attribute::ThermalProfile => "thermal-profile"@,
            Attribute::DiscreteGpuMode => "discrete-gpu-mode"@,
            Attribute::SerialNumber => "serial-number"@,
        }
    }

    /// What errors call the attribute.
    pub fn label(self) -> (r: &'static str)
        ensures
            r@ == self.name(),
    {
        match self {
            Attribute::NoTurbo => "no-turbo",
            Attribute::MinPerf => "min-perf",
            Attribute::BatteryCalibration => "battery-calibration",
            Attribute::BacklightTimeout => "backlight-timeout",
            Attribute::ThermalProfile => "thermal-profile",
            Attribute::DiscreteGpuMode => "discrete-gpu-mode",
            Attribute::SerialNumber => "serial-number",
        }
    }

    /// Where the attribute lives, relative to the sysfs root.
    pub open spec fn place(self) -> Seq<char> {
        match self {
            Attribute::NoTurbo => "devices/system/cpu/intel_pstate/no_turbo"@,
            Attribute::MinPerf => "devices/system/cpu/intel_pstate/min_perf_pct"@,
            Attribute::BatteryCalibration => WMI_CALIBRATION_MODE@,
            Attribute::BacklightTimeout => "devices/platform/acer-wmi/backlight_timeout"@,
            Attribute::ThermalProfile => SYSFS_INDEX@,
            Attribute::DiscreteGpuMode => "devices/platform/acer-wmi/discrete_gpu_mode"@,
            Attribute::SerialNumber => "class/dmi/id/product_serial"@,
        }
    }

    /// Where the attribute lives, relative to the sysfs root.
    pub fn path(self) -> (r: &'static str)
        ensures
            r@ == self.place(),
    {
        match self {
            Attribute::NoTurbo => "devices/system/cpu/intel_pstate/no_turbo",
            Attribute::MinPerf => "devices/system/cpu/intel_pstate/min_perf_pct",
            Attribute::BatteryCalibration => WMI_CALIBRATION_MODE,
            Attribute::BacklightTimeout => "devices/platform/acer-wmi/backlight_timeout",
            Attribute::ThermalProfile => SYSFS_INDEX,
            Attribute::DiscreteGpuMode => "devices/platform/acer-wmi/discrete_gpu_mode",
            Attribute::SerialNumber => "class/dmi/id/product_serial",
        }
    }
}

/// A checked request. `T` is what text is kept as: `String` when it runs, a sequence of
/// characters when contracts speak of it.
#[derive(Debug)]
pub enum Job<T> {
    CpuProfile(CpuProfileRequest),
    /// Every frequency policy gets this governor.
    Governor(CpuGovernor),
    /// Every frequency policy that has an energy preference gets this one.
    Preference(EnergyPreference),
    GpuPower(u16),
    Write(Attribute, T),
    /// Prints what the attribute holds.
    Read(Attribute),
    /// Prints what the attribute holds, or "0" where it cannot be read.
    ReadSwitch(Attribute),
    FanPreset(FanPreset),
    FanModeRead,
    EcWrite(EcRegister, bool),
    EcRead(EcRegister),
    BatteryLimit(bool),
    BatteryLimitRead,
    BatteryHealth(bool),
    BatteryHealthRead,
    ScreenBrightness(u16),
    PwmAvailable,
    PwmWrite(PwmAttribute, T),
    PwmRead(PwmAttribute),
    ReapplyBattery(T),
    ReapplyThermal(T),
    ReapplyTempLimit(T),
    TempLimitCaps,
    TempLimit(T, T),
    ChiconyRgb { effect: u8, brightness: u8, color: u8, speed: u8 },
    ChiconyColor { red: u8, green: u8, blue: u8, brightness: u8 },
    ChiconyEffect {
        opcode: u8,
        speed: u8,
        brightness: u8,
        red: u8,
        green: u8,
        blue: u8,
        direction: u8,
    },
    ChiconySeq(T),
    /// The mode-key cycle on mains and the one on battery.
    ModeCycle(T, T),
    GrubSplashApply(T, T),
    GrubSplashReset,
}

/// A job with its texts taken as characters.
pub open spec fn job_view(job: Job<String>) -> Job<Seq<char>> {
    match job {
        Job::CpuProfile(request) => Job::CpuProfile(request),
        Job::Governor(governor) => Job::Governor(governor),
        Job::Preference(preference) => Job::Preference(preference),
        Job::GpuPower(watts) => Job::GpuPower(watts),
        Job::Write(attribute, value) => Job::Write(attribute, value@),
        Job::Read(attribute) => Job::Read(attribute),
        Job::ReadSwitch(attribute) => Job::ReadSwitch(attribute),
        Job::FanPreset(preset) => Job::FanPreset(preset),
        Job::FanModeRead => Job::FanModeRead,
        Job::EcWrite(register, value) => Job::EcWrite(register, value),
        Job::EcRead(register) => Job::EcRead(register),
        Job::BatteryLimit(enabled) => Job::BatteryLimit(enabled),
        Job::BatteryLimitRead => Job::BatteryLimitRead,
        Job::BatteryHealth(enabled) => Job::BatteryHealth(enabled),
        Job::BatteryHealthRead => Job::BatteryHealthRead,
        Job::ScreenBrightness(percent) => Job::ScreenBrightness(percent),
        Job::PwmAvailable => Job::PwmAvailable,
        Job::PwmWrite(attribute, value) => Job::PwmWrite(attribute, value@),
        Job::PwmRead(attribute) => Job::PwmRead(attribute),
        Job::ReapplyBattery(home) => Job::ReapplyBattery(home@),
        Job::ReapplyThermal(home) => Job::ReapplyThermal(home@),
        Job::ReapplyTempLimit(home) => Job::ReapplyTempLimit(home@),
        Job::TempLimitCaps => Job::TempLimitCaps,
        Job::TempLimit(celsius, bound) => Job::TempLimit(celsius@, bound@),
        Job::ChiconyRgb { effect, brightness, color, speed } => Job::ChiconyRgb {
            effect,
            brightness,
            color,
            speed,
        },
        Job::ChiconyColor { red, green, blue, brightness } => Job::ChiconyColor {
            red,
            green,
            blue,
            brightness,
        },
        Job::ChiconyEffect { opcode, speed, brightness, red, green, blue, direction } => {
            Job::ChiconyEffect { opcode, speed, brightness, red, green, blue, direction }
        },
        Job::ChiconySeq(text) => Job::ChiconySeq(text@),
        Job::ModeCycle(ac, battery) => Job::ModeCycle(ac@, battery@),
        Job::GrubSplashApply(extension, image) => Job::GrubSplashApply(extension@, image@),
        Job::GrubSplashReset => Job::GrubSplashReset,
    }
}

/// A planned job with its texts taken as characters.
pub open spec fn plan_view(r: Result<Job<String>, String>) -> Result<Job<Seq<char>>, Seq<char>> {
    match r {
        Ok(job) => Ok(job_view(job)),
        Err(e) => Err(e@),
    }
}

/// A switch argument of a job.
pub open spec fn switch_job(
    value: Seq<char>,
    job: spec_fn(bool) -> Job<Seq<char>>,
) -> Result<Job<Seq<char>>, Seq<char>> {
    match switch_value(value) {
        Ok(v) => Ok(job(v)),
        Err(e) => Err(e),
    }
}

/// A governor argument.
pub open spec fn governor_value(value: Seq<char>) -> Result<CpuGovernor, Seq<char>> {
    match CpuGovernor::named(value) {
        Some(governor) => Ok(governor),
        None => Err(failure(quoting("invalid CPU governor "@, value, ""@))),
    }
}

/// Reads a governor argument.
pub fn parse_governor(value: &str) -> (r: Result<CpuGovernor, String>)
    ensures
        outcome(r) == governor_value(value@),
{
    match CpuGovernor::parse(value) {
        Some(governor) => Ok(governor),
        None => Err(fail_quoting("invalid CPU governor ", value, "")),
    }
}

/// An energy preference argument.
pub open spec fn preference_value(value: Seq<char>) -> Result<EnergyPreference, Seq<char>> {
    match EnergyPreference::named(value) {
        Some(preference) => Ok(preference),
        None => Err(failure(quoting("invalid EPP "@, value, ""@))),
    }
}

/// Reads an energy preference argument.
pub fn parse_preference(value: &str) -> (r: Result<EnergyPreference, String>)
    ensures
        outcome(r) == preference_value(value@),
{
    match EnergyPreference::parse(value) {
        Some(preference) => Ok(preference),
        None => Err(fail_quoting("invalid EPP ", value, "")),
    }
}

/// A fan value, which has to be in the attribute's range and is written as it was given.
pub open spec fn pwm_job(attribute: PwmAttribute, value: Seq<char>) -> Result<
    Job<Seq<char>>,
    Seq<char>,
> {
    match number_value(attribute.file(), value, attribute.limits().0, attribute.limits().1) {
        Ok(_) => Ok(Job::PwmWrite(attribute, value)),
        Err(e) => Err(e),
    }
}

fn pwm_write(attribute: PwmAttribute, value: &str) -> (r: Result<Job<String>, String>)
    ensures
        plan_view(r) == pwm_job(attribute, value@),
{
    let (min, max) = attribute.range();
    match parse_u16(attribute.file_name(), value, min, max) {
        Ok(_) => Ok(Job::PwmWrite(attribute, value.to_owned())),
        Err(e) => Err(e),
    }
}

/// A raw firmware index, and not a profile's name.
pub open spec fn thermal_job(value: Seq<char>) -> Result<Job<Seq<char>>, Seq<char>> {
    match decimal_value(value, 255) {
        Some(n) => Ok(Job::Write(Attribute::ThermalProfile, decimal_text(n))),
        None => Err(failure(quoting("thermal-profile: invalid index "@, value, ""@))),
    }
}

fn thermal_profile(value: &str) -> (r: Result<Job<String>, String>)
    ensures
        plan_view(r) == thermal_job(value@),
{
    match parse_u8(value) {
        Some(index) => Ok(Job::Write(Attribute::ThermalProfile, decimal(index as u64))),
        None => Err(fail_quoting("thermal-profile: invalid index ", value, "")),
    }
}

/// 1 for hybrid graphics, 2 for the discrete GPU alone.
pub open spec fn gpu_mode_job(value: Seq<char>) -> Result<Job<Seq<char>>, Seq<char>> {
    let mode = trimmed(value);
    if mode == "1"@ || mode == "2"@ {
        Ok(Job::Write(Attribute::DiscreteGpuMode, mode))
    } else {
        Err(failure(quoting("discrete-gpu-mode: invalid mode "@, mode, " (must be 1 or 2)"@)))
    }
}

fn gpu_mode(value: &str) -> (r: Result<Job<String>, String>)
    ensures
        plan_view(r) == gpu_mode_job(value@),
{
    let mode = trim(value);
    if same(mode.as_str(), "1") || same(mode.as_str(), "2") {
        Ok(Job::Write(Attribute::DiscreteGpuMode, mode))
    } else {
        Err(
            fail_quoting(
                "discrete-gpu-mode: invalid mode ",
                mode.as_str(),
                " (must be 1 or 2)",
            ),
        )
    }
}

/// The effect engine's arguments, the first bad one named.
pub open spec fn chicony_rgb_job(args: Seq<Seq<char>>) -> Result<Job<Seq<char>>, Seq<char>> {
    match number_value("effect"@, args[1], 1, 12) {
        Err(e) => Err(e),
        Ok(effect) => match number_value("brightness"@, args[2], 0, 255) {
            Err(e) => Err(e),
            Ok(brightness) => match number_value("color"@, args[3], 1, 7) {
                Err(e) => Err(e),
                Ok(color) => match number_value("speed"@, args[4], 0, 255) {
                    Err(e) => Err(e),
                    Ok(speed) => Ok(
                        Job::ChiconyRgb {
                            effect: effect as u8,
                            brightness: brightness as u8,
                            color: color as u8,
                            speed: speed as u8,
                        },
                    ),
                },
            },
        },
    }
}

fn chicony_rgb(args: &Vec<String>) -> (r: Result<Job<String>, String>)
    requires
        args@.len() == 5,
    ensures
        plan_view(r) == chicony_rgb_job(texts(args@)),
{
    let effect: u16 = match parse_u16("effect", args[1].as_str(), 1, 12) {
        Ok(n) => n,
        Err(e) => {
            return Err(e);
        },
    };
    let brightness: u16 = match parse_u16("brightness", args[2].as_str(), 0, 255) {
        Ok(n) => n,
        Err(e) => {
            return Err(e);
        },
    };
    let color: u16 = match parse_u16("color", args[3].as_str(), 1, 7) {
        Ok(n) => n,
        Err(e) => {
            return Err(e);
        },
    };
    let speed: u16 = match parse_u16("speed", args[4].as_str(), 0, 255) {
        Ok(n) => n,
        Err(e) => {
            return Err(e);
        },
    };
    Ok(
        Job::ChiconyRgb {
            effect: effect as u8,
            brightness: brightness as u8,
            color: color as u8,
            speed: speed as u8,
        },
    )
}

/// A colour triple, the first bad channel named.
pub open spec fn channels(red: Seq<char>, green: Seq<char>, blue: Seq<char>) -> Result<
    (u8, u8, u8),
    Seq<char>,
> {
    match number_value("red"@, red, 0, 255) {
        Err(e) => Err(e),
        Ok(r) => match number_value("green"@, green, 0, 255) {
            Err(e) => Err(e),
            Ok(g) => match number_value("blue"@, blue, 0, 255) {
                Err(e) => Err(e),
                Ok(b) => Ok((r as u8, g as u8, b as u8)),
            },
        },
    }
}

fn parse_channels(red: &str, green: &str, blue: &str) -> (r: Result<(u8, u8, u8), String>)
    ensures
        outcome(r) == channels(red@, green@, blue@),
{
    match parse_u16("red", red, 0, 255) {
        Err(e) => Err(e),
        Ok(r) => match parse_u16("green", green, 0, 255) {
            Err(e) => Err(e),
            Ok(g) => match parse_u16("blue", blue, 0, 255) {
                Err(e) => Err(e),
                Ok(b) => Ok((r as u8, g as u8, b as u8)),
            },
        },
    }
}

/// A solid colour's arguments.
pub open spec fn chicony_color_job(args: Seq<Seq<char>>) -> Result<Job<Seq<char>>, Seq<char>> {
    match channels(args[1], args[2], args[3]) {
        Err(e) => Err(e),
        Ok((red, green, blue)) => match number_value("brightness"@, args[4], 0, 100) {
            Err(e) => Err(e),
            Ok(brightness) => Ok(
                Job::ChiconyColor { red, green, blue, brightness: brightness as u8 },
            ),
        },
    }
}

fn chicony_color(args: &Vec<String>) -> (r: Result<Job<String>, String>)
    requires
        args@.len() == 5,
    ensures
        plan_view(r) == chicony_color_job(texts(args@)),
{
    match parse_channels(args[1].as_str(), args[2].as_str(), args[3].as_str()) {
        Err(e) => Err(e),
        Ok((red, green, blue)) => match parse_u16("brightness", args[4].as_str(), 0, 100) {
            Err(e) => Err(e),
            Ok(brightness) => Ok(
                Job::ChiconyColor { red, green, blue, brightness: brightness as u8 },
            ),
        },
    }
}

/// A coloured effect's arguments.
pub open spec fn chicony_effect_job(args: Seq<Seq<char>>) -> Result<Job<Seq<char>>, Seq<char>> {
    match number_value("opcode"@, args[1], 0, 255) {
        Err(e) => Err(e),
        Ok(opcode) => match number_value("speed"@, args[2], 0, 100) {
            Err(e) => Err(e),
            Ok(speed) => match number_value("brightness"@, args[3], 0, 100) {
                Err(e) => Err(e),
                Ok(brightness) => match channels(args[4], args[5], args[6]) {
                    Err(e) => Err(e),
                    Ok((red, green, blue)) => match number_value("direction"@, args[7], 1, 2) {
                        Err(e) => Err(e),
                        Ok(direction) => Ok(
                            Job::ChiconyEffect {
                                opcode: opcode as u8,
                                speed: speed as u8,
                                brightness: brightness as u8,
                                red,
                                green,
                                blue,
                                direction: direction as u8,
                            },
                        ),
                    },
                },
            },
        },
    }
}

fn chicony_effect(args: &Vec<String>) -> (r: Result<Job<String>, String>)
    requires
        args@.len() == 8,
    ensures
        plan_view(r) == chicony_effect_job(texts(args@)),
{
    let opcode: u16 = match parse_u16("opcode", args[1].as_str(), 0, 255) {
        Ok(n) => n,
        Err(e) => {
            return Err(e);
        },
    };
    let speed: u16 = match parse_u16("speed", args[2].as_str(), 0, 100) {
        Ok(n) => n,
        Err(e) => {
            return Err(e);
        },
    };
    let brightness: u16 = match parse_u16("brightness", args[3].as_str(), 0, 100) {
        Ok(n) => n,
        Err(e) => {
            return Err(e);
        },
    };
    let (red, green, blue) = match parse_channels(
        args[4].as_str(),
        args[5].as_str(),
        args[6].as_str(),
    ) {
        Ok(rgb) => rgb,
        Err(e) => {
            return Err(e);
        },
    };
    match parse_u16("direction", args[7].as_str(), 1, 2) {
        Err(e) => Err(e),
        Ok(direction) => Ok(
            Job::ChiconyEffect {
                opcode: opcode as u8,
                speed: speed as u8,
                brightness: brightness as u8,
                red,
                green,
                blue,
                direction: direction as u8,
            },
        ),
    }
}

/// The job that an action's word and arguments ask for.
pub open spec fn job_of(action: Action, args: Seq<Seq<char>>) -> Result<Job<Seq<char>>, Seq<char>> {
    match action {
        Action::ApplyCpuProfile => match CpuProfileRequest::meaning(args.skip(1)) {
            Ok(request) => Ok(Job::CpuProfile(request)),
            Err(e) => Err(e),
        },
        Action::SetGovernor => match governor_value(args[1]) {
            Ok(governor) => Ok(Job::Governor(governor)),
            Err(e) => Err(e),
        },
        Action::SetEpp => match preference_value(args[1]) {
            Ok(preference) => Ok(Job::Preference(preference)),
            Err(e) => Err(e),
        },
        Action::SetGpuPower => match number_value(
            "GPU power"@,
            args[1],
            GPU_POWER_MIN_WATTS,
            GPU_POWER_MAX_WATTS,
        ) {
            Ok(watts) => Ok(Job::GpuPower(watts)),
            Err(e) => Err(e),
        },
        Action::SetNoTurbo => switch_job(
            args[1],
            |v: bool| Job::Write(Attribute::NoTurbo, switch_text(v)),
        ),
        Action::SetMinPerf => match number_value(
            "min_perf_pct"@,
            args[1],
            CPU_PERCENT_MIN,
            CPU_PERCENT_MAX,
        ) {
            Ok(_) => Ok(Job::Write(Attribute::MinPerf, args[1])),
            Err(e) => Err(e),
        },
        Action::FanAuto => Ok(Job::FanPreset(FanPreset::Automatic)),
        Action::FanMax => Ok(Job::FanPreset(FanPreset::Maximum)),
        Action::FanModeRead => Ok(Job::FanModeRead),
        Action::CoolBoost => switch_job(args[1], |v: bool| Job::EcWrite(EcRegister::CoolBoost, v)),
        Action::CoolBoostRead => Ok(Job::EcRead(EcRegister::CoolBoost)),
        Action::BatteryLimit => switch_job(args[1], |v: bool| Job::BatteryLimit(v)),
        Action::BatteryLimitRead => Ok(Job::BatteryLimitRead),
        Action::BatteryHealth => switch_job(args[1], |v: bool| Job::BatteryHealth(v)),
        Action::BatteryHealthRead => Ok(Job::BatteryHealthRead),
        Action::BatteryCalibration => switch_job(
            args[1],
            |v: bool| Job::Write(Attribute::BatteryCalibration, switch_text(v)),
        ),
        Action::LcdOverdrive => switch_job(
            args[1],
            |v: bool| Job::EcWrite(EcRegister::LcdOverdrive, v),
        ),
        Action::LcdOverdriveRead => Ok(Job::EcRead(EcRegister::LcdOverdrive)),
        Action::BootAnimation => switch_job(
            args[1],
            |v: bool| Job::EcWrite(EcRegister::BootAnimation, v),
        ),
        Action::BootAnimationRead => Ok(Job::EcRead(EcRegister::BootAnimation)),
        Action::UsbCharging => switch_job(
            args[1],
            |v: bool| Job::EcWrite(EcRegister::UsbCharging, v),
        ),
        Action::UsbChargingRead => Ok(Job::EcRead(EcRegister::UsbCharging)),
        Action::BacklightTimeout => switch_job(
            args[1],
            |v: bool| Job::Write(Attribute::BacklightTimeout, switch_text(v)),
        ),
        Action::BacklightTimeoutRead => Ok(Job::ReadSwitch(Attribute::BacklightTimeout)),
        Action::ScreenBrightness => match number_value("screen-brightness"@, args[1], 0, 100) {
            Ok(percent) => Ok(Job::ScreenBrightness(percent)),
            Err(e) => Err(e),
        },
        Action::PwmAvailable => Ok(Job::PwmAvailable),
        Action::PwmCpu => pwm_job(PwmAttribute::Cpu, args[1]),
        Action::PwmGpu => pwm_job(PwmAttribute::Gpu, args[1]),
        Action::PwmCpuRead => Ok(Job::PwmRead(PwmAttribute::Cpu)),
        Action::PwmGpuRead => Ok(Job::PwmRead(PwmAttribute::Gpu)),
        Action::PwmCpuEnable => pwm_job(PwmAttribute::CpuEnable, args[1]),
        Action::PwmGpuEnable => pwm_job(PwmAttribute::GpuEnable, args[1]),
        Action::PwmCpuEnableRead => Ok(Job::PwmRead(PwmAttribute::CpuEnable)),
        Action::PwmGpuEnableRead => Ok(Job::PwmRead(PwmAttribute::GpuEnable)),
        Action::BootReapplyBattery => Ok(Job::ReapplyBattery(args[1])),
        Action::SerialNumberRead => Ok(Job::Read(Attribute::SerialNumber)),
        Action::ChiconyRgb => chicony_rgb_job(args),
        Action::ChiconyColor => chicony_color_job(args),
        Action::ChiconySeq => Ok(Job::ChiconySeq(args[1])),
        Action::ChiconyEffect => chicony_effect_job(args),
        Action::ModeCycle => Ok(Job::ModeCycle(args[1], args[2])),
        Action::ThermalProfile => thermal_job(args[1]),
        Action::BootReapplyThermal => Ok(Job::ReapplyThermal(args[1])),
        Action::TempLimitCaps => Ok(Job::TempLimitCaps),
        Action::TempLimit => Ok(Job::TempLimit(args[1], args[2])),
        Action::BootReapplyTempLimit => Ok(Job::ReapplyTempLimit(args[1])),
        Action::DiscreteGpuMode => gpu_mode_job(args[1]),
        Action::GrubSplashApply => Ok(Job::GrubSplashApply(args[1], args[2])),
        Action::GrubSplashReset => Ok(Job::GrubSplashReset),
    }
}

fn ec_write(register: EcRegister, value: &str) -> (r: Result<Job<String>, String>)
    ensures
        plan_view(r) == switch_job(value@, |v: bool| Job::EcWrite(register, v)),
{
    match parse_bool(value) {
        Ok(v) => Ok(Job::EcWrite(register, v)),
        Err(e) => Err(e),
    }
}

fn switch_write(attribute: Attribute, value: &str) -> (r: Result<Job<String>, String>)
    ensures
        plan_view(r) == switch_job(value@, |v: bool| Job::Write(attribute, switch_text(v))),
{
    match parse_bool(value) {
        Ok(v) => Ok(Job::Write(attribute, bool_str(v).to_owned())),
        Err(e) => Err(e),
    }
}

fn job_for(action: Action, args: &Vec<String>) -> (r: Result<Job<String>, String>)
    requires
        args@.len() == action.arity() + 1,
    ensures
        plan_view(r) == job_of(action, texts(args@)),
{
    match action {
        Action::ApplyCpuProfile => {
            let mut rest: Vec<String> = Vec::new();
            rest.push(args[1].clone());
            rest.push(args[2].clone());
            rest.push(args[3].clone());
            rest.push(args[4].clone());
            assert(texts(rest@) == texts(args@).skip(1));
            match CpuProfileRequest::parse(&rest) {
                Ok(request) => Ok(Job::CpuProfile(request)),
                Err(e) => Err(e),
            }
        },
        Action::SetGovernor => match parse_governor(args[1].as_str()) {
            Ok(governor) => Ok(Job::Governor(governor)),
            Err(e) => Err(e),
        },
        Action::SetEpp => match parse_preference(args[1].as_str()) {
            Ok(preference) => Ok(Job::Preference(preference)),
            Err(e) => Err(e),
        },
        Action::SetGpuPower => match parse_u16(
            "GPU power",
            args[1].as_str(),
            GPU_POWER_MIN_WATTS,
            GPU_POWER_MAX_WATTS,
        ) {
            Ok(watts) => Ok(Job::GpuPower(watts)),
            Err(e) => Err(e),
        },
        Action::SetNoTurbo => switch_write(Attribute::NoTurbo, args[1].as_str()),
        Action::SetMinPerf => match parse_u16(
            "min_perf_pct",
            args[1].as_str(),
            CPU_PERCENT_MIN,
            CPU_PERCENT_MAX,
        ) {
            Ok(_) => Ok(Job::Write(Attribute::MinPerf, args[1].clone())),
            Err(e) => Err(e),
        },
        Action::FanAuto => Ok(Job::FanPreset(FanPreset::Automatic)),
        Action::FanMax => Ok(Job::FanPreset(FanPreset::Maximum)),
        Action::FanModeRead => Ok(Job::FanModeRead),
        Action::CoolBoost => ec_write(EcRegister::CoolBoost, args[1].as_str()),
        Action::CoolBoostRead => Ok(Job::EcRead(EcRegister::CoolBoost)),
        Action::BatteryLimit => match parse_bool(args[1].as_str()) {
            Ok(v) => Ok(Job::BatteryLimit(v)),
            Err(e) => Err(e),
        },
        Action::BatteryLimitRead => Ok(Job::BatteryLimitRead),
        Action::BatteryHealth => match parse_bool(args[1].as_str()) {
            Ok(v) => Ok(Job::BatteryHealth(v)),
            Err(e) => Err(e),
        },
        Action::BatteryHealthRead => Ok(Job::BatteryHealthRead),
        Action::BatteryCalibration => switch_write(
            Attribute::BatteryCalibration,
            args[1].as_str(),
        ),
        Action::LcdOverdrive => ec_write(EcRegister::LcdOverdrive, args[1].as_str()),
        Action::LcdOverdriveRead => Ok(Job::EcRead(EcRegister::LcdOverdrive)),
        Action::BootAnimation => ec_write(EcRegister::BootAnimation, args[1].as_str()),
        Action::BootAnimationRead => Ok(Job::EcRead(EcRegister::BootAnimation)),
        Action::UsbCharging => ec_write(EcRegister::UsbCharging, args[1].as_str()),
        Action::UsbChargingRead => Ok(Job::EcRead(EcRegister::UsbCharging)),
        Action::BacklightTimeout => switch_write(Attribute::BacklightTimeout, args[1].as_str()),
        Action::BacklightTimeoutRead => Ok(Job::ReadSwitch(Attribute::BacklightTimeout)),
        Action::ScreenBrightness => match parse_u16(
            "screen-brightness",
            args[1].as_str(),
            0,
            100,
        ) {
            Ok(percent) => Ok(Job::ScreenBrightness(percent)),
            Err(e) => Err(e),
        },
        Action::PwmAvailable => Ok(Job::PwmAvailable),
        Action::PwmCpu => pwm_write(PwmAttribute::Cpu, args[1].as_str()),
        Action::PwmGpu => pwm_write(PwmAttribute::Gpu, args[1].as_str()),
        Action::PwmCpuRead => Ok(Job::PwmRead(PwmAttribute::Cpu)),
        Action::PwmGpuRead => Ok(Job::PwmRead(PwmAttribute::Gpu)),
        Action::PwmCpuEnable => pwm_write(PwmAttribute::CpuEnable, args[1].as_str()),
        Action::PwmGpuEnable => pwm_write(PwmAttribute::GpuEnable, args[1].as_str()),
        Action::PwmCpuEnableRead => Ok(Job::PwmRead(PwmAttribute::CpuEnable)),
        Action::PwmGpuEnableRead => Ok(Job::PwmRead(PwmAttribute::GpuEnable)),
        Action::BootReapplyBattery => Ok(Job::ReapplyBattery(args[1].clone())),
        Action::SerialNumberRead => Ok(Job::Read(Attribute::SerialNumber)),
        Action::ChiconyRgb => chicony_rgb(args),
        Action::ChiconyColor => chicony_color(args),
        Action::ChiconySeq => Ok(Job::ChiconySeq(args[1].clone())),
        Action::ChiconyEffect => chicony_effect(args),
        Action::ModeCycle => Ok(Job::ModeCycle(args[1].clone(), args[2].clone())),
        Action::ThermalProfile => thermal_profile(args[1].as_str()),
        Action::BootReapplyThermal => Ok(Job::ReapplyThermal(args[1].clone())),
        Action::TempLimitCaps => Ok(Job::TempLimitCaps),
        Action::TempLimit => Ok(Job::TempLimit(args[1].clone(), args[2].clone())),
        Action::BootReapplyTempLimit => Ok(Job::ReapplyTempLimit(args[1].clone())),
        Action::DiscreteGpuMode => gpu_mode(args[1].as_str()),
        Action::GrubSplashApply => Ok(Job::GrubSplashApply(args[1].clone(), args[2].clone())),
        Action::GrubSplashReset => Ok(Job::GrubSplashReset),
    }
}

/// The first word of a command line, or nothing.
pub open spec fn first_word(args: Seq<Seq<char>>) -> Seq<char> {
    if args.len() > 0 {
        args[0]
    } else {
        ""@
    }
}

/// The job a command line asks for: an action that is known, with as many arguments as it
/// takes, each of them acceptable. Nothing is touched before that is settled.
pub open spec fn planned(args: Seq<Seq<char>>) -> Result<Job<Seq<char>>, Seq<char>> {
    match Action::named(first_word(args)) {
        None => Err(failure(quoting("unknown action "@, first_word(args), ""@))),
        Some(action) => if args.len() == action.arity() + 1 {
            job_of(action, args)
        } else {
            Err(usage_error(action))
        },
    }
}

/// Works out the job a command line asks for.
pub fn plan(args: &Vec<String>) -> (r: Result<Job<String>, String>)
    ensures
        plan_view(r) == planned(texts(args@)),
{
    let name: &str = if args.len() > 0 {
        args[0].as_str()
    } else {
        ""
    };
    assert(name@ == first_word(texts(args@)));
    match Action::parse(name) {
        None => Err(fail_quoting("unknown action ", name, "")),
        Some(action) => match ensure_arity(action, args) {
            Err(e) => Err(e),
            Ok(()) => job_for(action, args),
        },
    }
}

/// A command line asks for what its first word names, where it has as many words more as that
/// takes.
pub proof fn law_command_line_asks_for_its_action(action: Action, args: Seq<Seq<char>>)
    requires
        args.len() == action.arity() + 1,
        args[0] == action.wire_name(),
    ensures
        planned(args) == job_of(action, args),
{
    crate::protocol::helper::law_action_round_trip(action);
}

/// What each switch of the command line switches: the attribute gets the digit itself, the
/// register the switch.
pub proof fn law_switches_reach_what_they_name(on: bool, args: Seq<Seq<char>>)
    requires
        args.len() == 2,
        args[1] == (if on {
            "1"@
        } else {
            "0"@
        }),
    ensures
        ({
            let word = if on {
                "1"@
            } else {
                "0"@
            };
            &&& job_of(Action::SetNoTurbo, args) == Ok::<Job<Seq<char>>, Seq<char>>(
                Job::Write(Attribute::NoTurbo, word),
            )
            &&& job_of(Action::BatteryCalibration, args) == Ok::<Job<Seq<char>>, Seq<char>>(
                Job::Write(Attribute::BatteryCalibration, word),
            )
            &&& job_of(Action::BacklightTimeout, args) == Ok::<Job<Seq<char>>, Seq<char>>(
                Job::Write(Attribute::BacklightTimeout, word),
            )
            &&& job_of(Action::CoolBoost, args) == Ok::<Job<Seq<char>>, Seq<char>>(
                Job::EcWrite(EcRegister::CoolBoost, on),
            )
            &&& job_of(Action::LcdOverdrive, args) == Ok::<Job<Seq<char>>, Seq<char>>(
                Job::EcWrite(EcRegister::LcdOverdrive, on),
            )
            &&& job_of(Action::BootAnimation, args) == Ok::<Job<Seq<char>>, Seq<char>>(
                Job::EcWrite(EcRegister::BootAnimation, on),
            )
            &&& job_of(Action::UsbCharging, args) == Ok::<Job<Seq<char>>, Seq<char>>(
                Job::EcWrite(EcRegister::UsbCharging, on),
            )
            &&& job_of(Action::BatteryLimit, args) == Ok::<Job<Seq<char>>, Seq<char>>(
                Job::BatteryLimit(on),
            )
            &&& job_of(Action::BatteryHealth, args) == Ok::<Job<Seq<char>>, Seq<char>>(
                Job::BatteryHealth(on),
            )
        }),
{
    let word = if on {
        "1"@
    } else {
        "0"@
    };
    crate::privileged::messages::law_switches_are_ones_and_zeros(word);
    reveal_strlit("1");
    reveal_strlit("0");
    assert("1"@[0] == '1' && "0"@[0] == '0');
}

/// What is neither a one nor a zero switches nothing.
pub proof fn law_other_words_switch_nothing(args: Seq<Seq<char>>)
    requires
        args.len() == 2,
        args[1] != "0"@ && args[1] != "1"@,
    ensures
        job_of(Action::SetNoTurbo, args) is Err,
        job_of(Action::CoolBoost, args) is Err,
        job_of(Action::BatteryLimit, args) is Err,
        job_of(Action::BatteryHealth, args) is Err,
        job_of(Action::UsbCharging, args) is Err,
{
}

/// What a reading action reads is what its counterpart sets.
pub proof fn law_readings_read_what_was_set(args: Seq<Seq<char>>)
    ensures
        job_of(Action::CoolBoostRead, args) == Ok::<Job<Seq<char>>, Seq<char>>(
            Job::EcRead(EcRegister::CoolBoost),
        ),
        job_of(Action::LcdOverdriveRead, args) == Ok::<Job<Seq<char>>, Seq<char>>(
            Job::EcRead(EcRegister::LcdOverdrive),
        ),
        job_of(Action::BootAnimationRead, args) == Ok::<Job<Seq<char>>, Seq<char>>(
            Job::EcRead(EcRegister::BootAnimation),
        ),
        job_of(Action::UsbChargingRead, args) == Ok::<Job<Seq<char>>, Seq<char>>(
            Job::EcRead(EcRegister::UsbCharging),
        ),
        job_of(Action::BacklightTimeoutRead, args) == Ok::<Job<Seq<char>>, Seq<char>>(
            Job::ReadSwitch(Attribute::BacklightTimeout),
        ),
        job_of(Action::BatteryLimitRead, args) == Ok::<Job<Seq<char>>, Seq<char>>(Job::BatteryLimitRead),
        job_of(Action::BatteryHealthRead, args) == Ok::<Job<Seq<char>>, Seq<char>>(
            Job::BatteryHealthRead,
        ),
        job_of(Action::PwmCpuRead, args) == Ok::<Job<Seq<char>>, Seq<char>>(
            Job::PwmRead(PwmAttribute::Cpu),
        ),
        job_of(Action::PwmGpuRead, args) == Ok::<Job<Seq<char>>, Seq<char>>(
            Job::PwmRead(PwmAttribute::Gpu),
        ),
        job_of(Action::PwmCpuEnableRead, args) == Ok::<Job<Seq<char>>, Seq<char>>(
            Job::PwmRead(PwmAttribute::CpuEnable),
        ),
        job_of(Action::PwmGpuEnableRead, args) == Ok::<Job<Seq<char>>, Seq<char>>(
            Job::PwmRead(PwmAttribute::GpuEnable),
        ),
        job_of(Action::SerialNumberRead, args) == Ok::<Job<Seq<char>>, Seq<char>>(
            Job::Read(Attribute::SerialNumber),
        ),
        job_of(Action::FanModeRead, args) == Ok::<Job<Seq<char>>, Seq<char>>(Job::FanModeRead),
        job_of(Action::FanAuto, args) == Ok::<Job<Seq<char>>, Seq<char>>(
            Job::FanPreset(FanPreset::Automatic),
        ),
        job_of(Action::FanMax, args) == Ok::<Job<Seq<char>>, Seq<char>>(
            Job::FanPreset(FanPreset::Maximum),
        ),
        job_of(Action::PwmAvailable, args) == Ok::<Job<Seq<char>>, Seq<char>>(Job::PwmAvailable),
        job_of(Action::TempLimitCaps, args) == Ok::<Job<Seq<char>>, Seq<char>>(Job::TempLimitCaps),
        job_of(Action::GrubSplashReset, args) == Ok::<Job<Seq<char>>, Seq<char>>(
            Job::GrubSplashReset,
        ),
{
}

/// What is set to a number gets exactly that number, and nothing is set to a number outside
/// its range: watts from one to a thousand, percentages up to a hundred, speeds and indices
/// up to a byte, and fan controls up to two.
pub proof fn law_numbers_reach_what_they_name(n: u16, args: Seq<Seq<char>>)
    requires
        args.len() == 2,
        args[1] == decimal_text(n as nat),
    ensures
        ({
            let word = decimal_text(n as nat);
            &&& job_of(Action::SetGpuPower, args) is Ok <==> 1 <= n <= 1000
            &&& 1 <= n <= 1000 ==> job_of(Action::SetGpuPower, args)->Ok_0 == Job::<
                Seq<char>,
            >::GpuPower(n)
            &&& job_of(Action::SetMinPerf, args) is Ok <==> n <= 100
            &&& n <= 100 ==> job_of(Action::SetMinPerf, args)->Ok_0 == Job::Write(
                Attribute::MinPerf,
                word,
            )
            &&& job_of(Action::ScreenBrightness, args) is Ok <==> n <= 100
            &&& n <= 100 ==> job_of(Action::ScreenBrightness, args)->Ok_0 == Job::<
                Seq<char>,
            >::ScreenBrightness(n)
            &&& job_of(Action::PwmCpu, args) is Ok <==> n <= 255
            &&& n <= 255 ==> job_of(Action::PwmCpu, args)->Ok_0 == Job::PwmWrite(
                PwmAttribute::Cpu,
                word,
            )
            &&& job_of(Action::PwmGpu, args) is Ok <==> n <= 255
            &&& n <= 255 ==> job_of(Action::PwmGpu, args)->Ok_0 == Job::PwmWrite(
                PwmAttribute::Gpu,
                word,
            )
            &&& job_of(Action::PwmCpuEnable, args) is Ok <==> n <= 2
            &&& n <= 2 ==> job_of(Action::PwmCpuEnable, args)->Ok_0 == Job::PwmWrite(
                PwmAttribute::CpuEnable,
                word,
            )
            &&& job_of(Action::PwmGpuEnable, args) is Ok <==> n <= 2
            &&& n <= 2 ==> job_of(Action::PwmGpuEnable, args)->Ok_0 == Job::PwmWrite(
                PwmAttribute::GpuEnable,
                word,
            )
            &&& job_of(Action::ThermalProfile, args) is Ok <==> n <= 255
            &&& n <= 255 ==> job_of(Action::ThermalProfile, args)->Ok_0 == Job::Write(
                Attribute::ThermalProfile,
                word,
            )
        }),
{
    let word = decimal_text(n as nat);
    crate::number::law_decimal_round_trip(n as nat, 0xffff);
    crate::number::law_limit_only_refuses(word, 10, 0xffff, 255);
}

/// A solid colour is asked for channel by channel, with the brightness behind them.
pub proof fn law_colour_is_asked_for_by_channel(
    args: Seq<Seq<char>>,
    red: u8,
    green: u8,
    blue: u8,
    brightness: u8,
)
    requires
        args.len() == 5,
        args[1] == decimal_text(red as nat),
        args[2] == decimal_text(green as nat),
        args[3] == decimal_text(blue as nat),
        args[4] == decimal_text(brightness as nat),
    ensures
        brightness <= 100 ==> job_of(Action::ChiconyColor, args) == Ok::<
            Job<Seq<char>>,
            Seq<char>,
        >((Job::ChiconyColor { red, green, blue, brightness })),
        brightness > 100 ==> job_of(Action::ChiconyColor, args) is Err,
{
    crate::number::law_decimal_round_trip(red as nat, 0xffff);
    crate::number::law_decimal_round_trip(green as nat, 0xffff);
    crate::number::law_decimal_round_trip(blue as nat, 0xffff);
    crate::number::law_decimal_round_trip(brightness as nat, 0xffff);
    assert(chicony_color_job(args) == job_of(Action::ChiconyColor, args));
}

/// A coloured effect is asked for by its number, its speed, its brightness, its channels and
/// its direction, in this order.
pub proof fn law_coloured_effect_is_asked_for_in_order(
    args: Seq<Seq<char>>,
    opcode: u8,
    speed: u8,
    brightness: u8,
    red: u8,
    green: u8,
    blue: u8,
    direction: u8,
)
    requires
        args.len() == 8,
        args[1] == decimal_text(opcode as nat),
        args[2] == decimal_text(speed as nat),
        args[3] == decimal_text(brightness as nat),
        args[4] == decimal_text(red as nat),
        args[5] == decimal_text(green as nat),
        args[6] == decimal_text(blue as nat),
        args[7] == decimal_text(direction as nat),
    ensures
        job_of(Action::ChiconyEffect, args) is Ok <==> speed <= 100 && brightness <= 100 && 1
            <= direction <= 2,
        job_of(Action::ChiconyEffect, args) is Ok ==> job_of(Action::ChiconyEffect, args)->Ok_0
            == (Job::<Seq<char>>::ChiconyEffect {
            opcode,
            speed,
            brightness,
            red,
            green,
            blue,
            direction,
        }),
{
    crate::number::law_decimal_round_trip(opcode as nat, 0xffff);
    crate::number::law_decimal_round_trip(speed as nat, 0xffff);
    crate::number::law_decimal_round_trip(brightness as nat, 0xffff);
    crate::number::law_decimal_round_trip(red as nat, 0xffff);
    crate::number::law_decimal_round_trip(green as nat, 0xffff);
    crate::number::law_decimal_round_trip(blue as nat, 0xffff);
    crate::number::law_decimal_round_trip(direction as nat, 0xffff);
}

/// The effect engine is asked for an effect, a brightness, a colour of its palette and a
/// speed, in this order.
pub proof fn law_palette_effect_is_asked_for_in_order(
    args: Seq<Seq<char>>,
    effect: u8,
    brightness: u8,
    color: u8,
    speed: u8,
)
    requires
        args.len() == 5,
        args[1] == decimal_text(effect as nat),
        args[2] == decimal_text(brightness as nat),
        args[3] == decimal_text(color as nat),
        args[4] == decimal_text(speed as nat),
    ensures
        job_of(Action::ChiconyRgb, args) is Ok <==> 1 <= effect <= 12 && 1 <= color <= 7,
        job_of(Action::ChiconyRgb, args) is Ok ==> job_of(Action::ChiconyRgb, args)->Ok_0
            == (Job::<Seq<char>>::ChiconyRgb { effect, brightness, color, speed }),
{
    crate::number::law_decimal_round_trip(effect as nat, 0xffff);
    crate::number::law_decimal_round_trip(brightness as nat, 0xffff);
    crate::number::law_decimal_round_trip(color as nat, 0xffff);
    crate::number::law_decimal_round_trip(speed as nat, 0xffff);
}

/// Texts are handed on as they are, in the order they stand in.
pub proof fn law_texts_are_handed_on(args: Seq<Seq<char>>)
    requires
        args.len() == 2 || args.len() == 3,
    ensures
        job_of(Action::ChiconySeq, args) == Ok::<Job<Seq<char>>, Seq<char>>(
            Job::ChiconySeq(args[1]),
        ),
        job_of(Action::BootReapplyBattery, args) == Ok::<Job<Seq<char>>, Seq<char>>(
            Job::ReapplyBattery(args[1]),
        ),
        job_of(Action::BootReapplyThermal, args) == Ok::<Job<Seq<char>>, Seq<char>>(
            Job::ReapplyThermal(args[1]),
        ),
        job_of(Action::BootReapplyTempLimit, args) == Ok::<Job<Seq<char>>, Seq<char>>(
            Job::ReapplyTempLimit(args[1]),
        ),
        job_of(Action::ModeCycle, args) == Ok::<Job<Seq<char>>, Seq<char>>(
            Job::ModeCycle(args[1], args[2]),
        ),
        job_of(Action::TempLimit, args) == Ok::<Job<Seq<char>>, Seq<char>>(
            Job::TempLimit(args[1], args[2]),
        ),
        job_of(Action::GrubSplashApply, args) == Ok::<Job<Seq<char>>, Seq<char>>(
            Job::GrubSplashApply(args[1], args[2]),
        ),
{
}

/// A governor and an energy preference are set by their words, and by no other.
pub proof fn law_words_set_what_they_name(
    governor: CpuGovernor,
    preference: EnergyPreference,
    word: Seq<char>,
)
    ensures
        job_of(Action::SetGovernor, seq!["set-governor"@, governor.wire_name()]) == Ok::<Job<Seq<char>>, Seq<char>>(
            Job::Governor(governor),
        ),
        job_of(Action::SetEpp, seq!["set-epp"@, preference.wire_name()]) == Ok::<Job<Seq<char>>, Seq<char>>(
            Job::Preference(preference),
        ),
        word != "powersave"@ && word != "performance"@ ==> job_of(Action::SetGovernor, seq!["set-governor"@, word])
            is Err,
{
    crate::protocol::helper::law_cpu_governor_round_trip(governor);
    crate::protocol::helper::law_energy_preference_round_trip(preference);
}

/// The graphics are hybrid or the discrete ones alone, and nothing else.
pub proof fn law_graphics_have_two_modes(word: Seq<char>)
    ensures
        trimmed(word) == "1"@ || trimmed(word) == "2"@ ==> job_of(Action::DiscreteGpuMode, seq!["discrete-gpu-mode"@, word],
        ) == Ok::<Job<Seq<char>>, Seq<char>>(
            Job::Write(Attribute::DiscreteGpuMode, trimmed(word)),
        ),
        trimmed(word) != "1"@ && trimmed(word) != "2"@ ==> job_of(Action::DiscreteGpuMode, seq!["discrete-gpu-mode"@, word],
        ) is Err,
{
}

/// A profile is asked for by the four words behind the action's own.
pub proof fn law_profile_is_asked_for_by_four_words(
    a: Seq<char>,
    b: Seq<char>,
    c: Seq<char>,
    d: Seq<char>,
    request: CpuProfileRequest,
)
    ensures
        job_of(Action::ApplyCpuProfile, seq!["apply-cpu-profile"@, a, b, c, d]) == Ok::<Job<Seq<char>>, Seq<char>>(
            Job::CpuProfile(request),
        ) <==> CpuProfileRequest::meaning(seq![a, b, c, d]) == Ok::<CpuProfileRequest, Seq<char>>(
            request,
        ),
{
    let args = seq!["apply-cpu-profile"@, a, b, c, d];
    assert(args.skip(1) =~= seq![a, b, c, d]);
}

/// A command line with a word too many or too few asks for nothing, and so does one whose
/// first word is no action's.
pub proof fn law_only_whole_command_lines_count(action: Action, args: Seq<Seq<char>>)
    requires
        args.len() > 0,
    ensures
        args[0] == action.wire_name() && args.len() != action.arity() + 1 ==> planned(args) is Err,
        (forall|a: Action| #[trigger] a.wire_name() != args[0]) ==> planned(args) is Err,
{
    crate::protocol::helper::law_action_round_trip(action);
}

/// Where the attributes live and what errors call them.
pub proof fn law_attributes_live_where_the_kernel_has_them()
    ensures
        Attribute::NoTurbo.place() == "devices/system/cpu/intel_pstate/no_turbo"@,
        Attribute::MinPerf.place() == "devices/system/cpu/intel_pstate/min_perf_pct"@,
        Attribute::BatteryCalibration.place()
            == "bus/wmi/drivers/acer-wmi-battery/calibration_mode"@,
        Attribute::BacklightTimeout.place() == "devices/platform/acer-wmi/backlight_timeout"@,
        Attribute::DiscreteGpuMode.place() == "devices/platform/acer-wmi/discrete_gpu_mode"@,
        Attribute::SerialNumber.place() == "class/dmi/id/product_serial"@,
        Attribute::NoTurbo.name() == "no-turbo"@ && Attribute::MinPerf.name() == "min-perf"@,
        Attribute::BatteryCalibration.name() == "battery-calibration"@,
        Attribute::BacklightTimeout.name() == "backlight-timeout"@,
        Attribute::ThermalProfile.name() == "thermal-profile"@,
        Attribute::DiscreteGpuMode.name() == "discrete-gpu-mode"@,
        Attribute::SerialNumber.name() == "serial-number"@,
{
}

/// A job as contracts speak of it is the job, number by number and text by text.
pub proof fn law_jobs_are_seen_as_they_are(a: String, b: String, job: Job<String>)
    ensures
        job_view(Job::ModeCycle(a, b)) == Job::ModeCycle(a@, b@),
        job_view(Job::TempLimit(a, b)) == Job::TempLimit(a@, b@),
        job_view(Job::GrubSplashApply(a, b)) == Job::GrubSplashApply(a@, b@),
        job_view(Job::ChiconySeq(a)) == Job::ChiconySeq(a@),
        job_view(Job::ReapplyBattery(a)) == Job::ReapplyBattery(a@),
        job_view(Job::ReapplyThermal(a)) == Job::ReapplyThermal(a@),
        job_view(Job::ReapplyTempLimit(a)) == Job::ReapplyTempLimit(a@),
        job matches Job::Write(attribute, value) ==> job_view(job) == Job::Write(attribute, value@),
        job matches Job::PwmWrite(attribute, value) ==> job_view(job) == Job::PwmWrite(
            attribute,
            value@,
        ),
        job matches Job::Read(attribute) ==> job_view(job) == Job::<Seq<char>>::Read(attribute),
        job matches Job::ReadSwitch(attribute) ==> job_view(job) == Job::<Seq<char>>::ReadSwitch(
            attribute,
        ),
        job matches Job::PwmRead(attribute) ==> job_view(job) == Job::<Seq<char>>::PwmRead(
            attribute,
        ),
        job matches Job::EcWrite(register, on) ==> job_view(job) == Job::<Seq<char>>::EcWrite(
            register,
            on,
        ),
        job matches Job::EcRead(register) ==> job_view(job) == Job::<Seq<char>>::EcRead(register),
        job matches Job::FanPreset(preset) ==> job_view(job) == Job::<Seq<char>>::FanPreset(preset),
        job matches Job::BatteryLimit(on) ==> job_view(job) == Job::<Seq<char>>::BatteryLimit(on),
        job matches Job::BatteryHealth(on) ==> job_view(job) == Job::<Seq<char>>::BatteryHealth(on),
        job matches Job::GpuPower(n) ==> job_view(job) == Job::<Seq<char>>::GpuPower(n),
        job matches Job::ScreenBrightness(n) ==> job_view(job) == Job::<
            Seq<char>,
        >::ScreenBrightness(n),
        job matches Job::CpuProfile(request) ==> job_view(job) == Job::<Seq<char>>::CpuProfile(
            request,
        ),
        job matches Job::Governor(governor) ==> job_view(job) == Job::<Seq<char>>::Governor(
            governor,
        ),
        job matches Job::Preference(preference) ==> job_view(job) == Job::<Seq<char>>::Preference(
            preference,
        ),
{
}

/// The keyboard's numbers keep their places in a job as contracts speak of it.
pub proof fn law_keyboard_jobs_are_seen_as_they_are(
    opcode: u8,
    speed: u8,
    brightness: u8,
    red: u8,
    green: u8,
    blue: u8,
    direction: u8,
)
    ensures
        job_view((Job::ChiconyColor { red, green, blue, brightness })) == (Job::<
            Seq<char>,
        >::ChiconyColor { red, green, blue, brightness }),
        job_view((Job::ChiconyRgb { effect: opcode, brightness, color: red, speed })) == (Job::<
            Seq<char>,
        >::ChiconyRgb { effect: opcode, brightness, color: red, speed }),
        job_view(
            (Job::ChiconyEffect { opcode, speed, brightness, red, green, blue, direction }),
        ) == (Job::<Seq<char>>::ChiconyEffect {
            opcode,
            speed,
            brightness,
            red,
            green,
            blue,
            direction,
        }),
{
}

/// An empty command line asks for nothing.
pub proof fn law_empty_command_line_asks_for_nothing()
    ensures
        first_word(seq![]) == ""@,
        planned(seq![]) is Err,
{
}

} // verus!
