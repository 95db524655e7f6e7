//! The wire contract between the application and the privileged helper: the actions
//! the helper knows, how many arguments each takes, and the words its arguments are
//! made of.

use vstd::prelude::*;

use crate::text::{is_space, lemma_words_of_word, same, stands_at, words_from, words_of};

verus! {

pub const PERCENT_MAX: u16 = 100;

pub const PWM_VALUE_MAX: u16 = 255;

pub const BATTERY_LIMIT_ENABLED_PERCENT: u16 = 80;

pub const BATTERY_LIMIT_DISABLED_PERCENT: u16 = 100;

/// The word that leaves an optional value alone.
pub const OPTIONAL_VALUE_SKIP: &'static str = "skip";

/// The frequency governors a power mode may ask for.
#[derive(Debug, Clone, Copy, PartialEq, Eq, Structural)]
pub enum CpuGovernor {
    Powersave,
    Performance,
}

impl CpuGovernor {
    /// The word that stands for the value on the wire.
    pub open spec fn wire_name(self) -> Seq<char> {
        match self {
            CpuGovernor::Powersave => "powersave"@,
            CpuGovernor::Performance => "performance"@,
        }
    }

    /// The value a word names: the one that it stands for on the wire.
    pub open spec fn named(value: Seq<char>) -> Option<Self> {
        if exists|v: Self| #[trigger] v.wire_name() == value {
            Some(choose|v: Self| #[trigger] v.wire_name() == value)
        } else {
            None
        }
    }

    /// The value that `value` names.
    pub fn parse(value: &str) -> (r: Option<Self>)
        ensures
            match r {
                Some(v) => v.wire_name() == value@,
                None => forall|v: Self| #[trigger] v.wire_name() != value@,
            },
            forall|v: Self| #[trigger] v.wire_name() == value@ ==> r == Some(v),
            r == Self::named(value@),
    {
        let r = if same(value, "powersave") {
            Some(CpuGovernor::Powersave)
        } else if same(value, "performance") {
            Some(CpuGovernor::Performance)
        } else {
            None
        };
        proof {
            assert forall|v: Self| #[trigger] v.wire_name() == value@ implies r == Some(v) by {
                law_cpu_governor_names_are_distinct(v, r.unwrap());
            }
            if r is Some {
                assert(r->0.wire_name() == value@);
                assert(Self::named(value@) is Some);
            }
        }
        r
    }

    /// The word that stands for the value on the wire.
    pub fn as_str(self) -> (r: &'static str)
        ensures
            r@ == self.wire_name(),
    {
        match self {
            CpuGovernor::Powersave => "powersave",
            CpuGovernor::Performance => "performance",
        }
    }
}

/// No two values share a word.
pub proof fn law_cpu_governor_names_are_distinct(a: CpuGovernor, b: CpuGovernor)
    requires
        a.wire_name() == b.wire_name(),
    ensures
        a == b,
{
    reveal_strlit("powersave");
    assert("powersave"@.len() == 9 && "powersave"@[0] == 'p');
    reveal_strlit("performance");
    assert("performance"@.len() == 11 && "performance"@[0] == 'p');
}

/// The energy preferences a power mode may ask for.
#[derive(Debug, Clone, Copy, PartialEq, Eq, Structural)]
pub enum EnergyPreference {
    RawPerformance,
    Default,
    Performance,
    BalancePerformance,
    BalancePower,
    Power,
}

impl EnergyPreference {
    /// The word that stands for the value on the wire.
    pub open spec fn wire_name(self) -> Seq<char> {
        match self {
            EnergyPreference::RawPerformance => "0"@,
            EnergyPreference::Default => "default"@,
            EnergyPreference::Performance => "performance"@,
            EnergyPreference::BalancePerformance => "balance_performance"@,
            EnergyPreference::BalancePower => "balance_power"@,
            EnergyPreference::Power => "power"@,
        }
    }

    /// The value a word names: the one that it stands for on the wire.
    pub open spec fn named(value: Seq<char>) -> Option<Self> {
        if exists|v: Self| #[trigger] v.wire_name() == value {
            Some(choose|v: Self| #[trigger] v.wire_name() == value)
        } else {
            None
        }
    }

    /// The value that `value` names.
    pub fn parse(value: &str) -> (r: Option<Self>)
        ensures
            match r {
                Some(v) => v.wire_name() == value@,
                None => forall|v: Self| #[trigger] v.wire_name() != value@,
            },
            forall|v: Self| #[trigger] v.wire_name() == value@ ==> r == Some(v),
            r == Self::named(value@),
    {
        let r = if same(value, "0") {
            Some(EnergyPreference::RawPerformance)
        } else if same(value, "default") {
            Some(EnergyPreference::Default)
        } else if same(value, "performance") {
            Some(EnergyPreference::Performance)
        } else if same(value, "balance_performance") {
            Some(EnergyPreference::BalancePerformance)
        } else if same(value, "balance_power") {
            Some(EnergyPreference::BalancePower)
        } else if same(value, "power") {
            Some(EnergyPreference::Power)
        } else {
            None
        };
        proof {
            assert forall|v: Self| #[trigger] v.wire_name() == value@ implies r == Some(v) by {
                law_energy_preference_names_are_distinct(v, r.unwrap());
            }
            if r is Some {
                assert(r->0.wire_name() == value@);
                assert(Self::named(value@) is Some);
            }
        }
        r
    }

    /// The word that stands for the value on the wire.
    pub fn as_str(self) -> (r: &'static str)
        ensures
            r@ == self.wire_name(),
    {
        match self {
            EnergyPreference::RawPerformance => "0",
            EnergyPreference::Default => "default",
            EnergyPreference::Performance => "performance",
            EnergyPreference::BalancePerformance => "balance_performance",
            EnergyPreference::BalancePower => "balance_power",
            EnergyPreference::Power => "power",
        }
    }
}

/// No two values share a word.
pub proof fn law_energy_preference_names_are_distinct(a: EnergyPreference, b: EnergyPreference)
    requires
        a.wire_name() == b.wire_name(),
    ensures
        a == b,
{
    reveal_strlit("0");
    assert("0"@.len() == 1 && "0"@[0] == '0');
    reveal_strlit("default");
    assert("default"@.len() == 7 && "default"@[0] == 'd');
    reveal_strlit("performance");
    assert("performance"@.len() == 11 && "performance"@[0] == 'p');
    reveal_strlit("balance_performance");
    assert("balance_performance"@.len() == 19 && "balance_performance"@[0] == 'b');
    reveal_strlit("balance_power");
    assert("balance_power"@.len() == 13 && "balance_power"@[0] == 'b');
    reveal_strlit("power");
    assert("power"@.len() == 5 && "power"@[0] == 'p');
}

/// An attribute that is off or on.
#[derive(Debug, Clone, Copy, PartialEq, Eq, Structural)]
pub enum Switch {
    Disabled,
    Enabled,
}

impl Switch {
    /// The word that stands for the value on the wire.
    pub open spec fn wire_name(self) -> Seq<char> {
        match self {
            Switch::Disabled => "0"@,
            Switch::Enabled => "1"@,
        }
    }

    /// The value a word names: the one that it stands for on the wire.
    pub open spec fn named(value: Seq<char>) -> Option<Self> {
        if exists|v: Self| #[trigger] v.wire_name() == value {
            Some(choose|v: Self| #[trigger] v.wire_name() == value)
        } else {
            None
        }
    }

    /// The value that `value` names.
    pub fn parse(value: &str) -> (r: Option<Self>)
        ensures
            match r {
                Some(v) => v.wire_name() == value@,
                None => forall|v: Self| #[trigger] v.wire_name() != value@,
            },
            forall|v: Self| #[trigger] v.wire_name() == value@ ==> r == Some(v),
            r == Self::named(value@),
    {
        let r = if same(value, "0") {
            Some(Switch::Disabled)
        } else if same(value, "1") {
            Some(Switch::Enabled)
        } else {
            None
        };
        proof {
            assert forall|v: Self| #[trigger] v.wire_name() == value@ implies r == Some(v) by {
                law_switch_names_are_distinct(v, r.unwrap());
            }
            if r is Some {
                assert(r->0.wire_name() == value@);
                assert(Self::named(value@) is Some);
            }
        }
        r
    }

    /// The word that stands for the value on the wire.
    pub fn as_str(self) -> (r: &'static str)
        ensures
            r@ == self.wire_name(),
    {
        match self {
            Switch::Disabled => "0",
            Switch::Enabled => "1",
        }
    }
}

/// No two values share a word.
pub proof fn law_switch_names_are_distinct(a: Switch, b: Switch)
    requires
        a.wire_name() == b.wire_name(),
    ensures
        a == b,
{
    reveal_strlit("0");
    assert("0"@.len() == 1 && "0"@[0] == '0');
    reveal_strlit("1");
    assert("1"@.len() == 1 && "1"@[0] == '1');
}

impl From<bool> for Switch {
    fn from(enabled: bool) -> (r: Self) {
        if enabled {
            Switch::Enabled
        } else {
            Switch::Disabled
        }
    }
}

impl vstd::std_specs::convert::FromSpecImpl<bool> for Switch {
    open spec fn obeys_from_spec() -> bool {
        true
    }

    open spec fn from_spec(enabled: bool) -> Self {
        if enabled {
            Switch::Enabled
        } else {
            Switch::Disabled
        }
    }
}

/// The presets the firmware itself knows for both fans.
#[derive(Debug, Clone, Copy, PartialEq, Eq, Structural)]
pub enum FanMode {
    Automatic,
    Maximum,
}

impl FanMode {
    /// The word that stands for the value on the wire.
    pub open spec fn wire_name(self) -> Seq<char> {
        match self {
            FanMode::Automatic => "auto"@,
            FanMode::Maximum => "max"@,
        }
    }

    /// The value a word names: the one that it stands for on the wire.
    pub open spec fn named(value: Seq<char>) -> Option<Self> {
        if exists|v: Self| #[trigger] v.wire_name() == value {
            Some(choose|v: Self| #[trigger] v.wire_name() == value)
        } else {
            None
        }
    }

    /// The value that `value` names.
    pub fn parse(value: &str) -> (r: Option<Self>)
        ensures
            match r {
                Some(v) => v.wire_name() == value@,
                None => forall|v: Self| #[trigger] v.wire_name() != value@,
            },
            forall|v: Self| #[trigger] v.wire_name() == value@ ==> r == Some(v),
            r == Self::named(value@),
    {
        let r = if same(value, "auto") {
            Some(FanMode::Automatic)
        } else if same(value, "max") {
            Some(FanMode::Maximum)
        } else {
            None
        };
        proof {
            assert forall|v: Self| #[trigger] v.wire_name() == value@ implies r == Some(v) by {
                law_fan_mode_names_are_distinct(v, r.unwrap());
            }
            if r is Some {
                assert(r->0.wire_name() == value@);
                assert(Self::named(value@) is Some);
            }
        }
        r
    }

    /// The word that stands for the value on the wire.
    pub fn as_str(self) -> (r: &'static str)
        ensures
            r@ == self.wire_name(),
    {
        match self {
            FanMode::Automatic => "auto",
            FanMode::Maximum => "max",
        }
    }
}

/// No two values share a word.
pub proof fn law_fan_mode_names_are_distinct(a: FanMode, b: FanMode)
    requires
        a.wire_name() == b.wire_name(),
    ensures
        a == b,
{
    reveal_strlit("auto");
    assert("auto"@.len() == 4 && "auto"@[0] == 'a');
    reveal_strlit("max");
    assert("max"@.len() == 3 && "max"@[0] == 'm');
}

/// Who drives a fan through its `pwmN_enable` attribute.
#[derive(Debug, Clone, Copy, PartialEq, Eq, Structural)]
pub enum PwmControlMode {
    FullSpeed,
    Manual,
    Automatic,
}

impl PwmControlMode {
    /// The word that stands for the value on the wire.
    pub open spec fn wire_name(self) -> Seq<char> {
        match self {
            PwmControlMode::FullSpeed => "0"@,
            PwmControlMode::Manual => "1"@,
            PwmControlMode::Automatic => "2"@,
        }
    }

    /// The word that stands for the value on the wire.
    pub fn as_str(self) -> (r: &'static str)
        ensures
            r@ == self.wire_name(),
    {
        match self {
            PwmControlMode::FullSpeed => "0",
            PwmControlMode::Manual => "1",
            PwmControlMode::Automatic => "2",
        }
    }
}

/// Everything the helper can be asked to do.
#[derive(Debug, Clone, Copy, PartialEq, Eq, Structural)]
pub enum Action {
    ApplyCpuProfile,
    SetGovernor,
    SetEpp,
    SetGpuPower,
    SetNoTurbo,
    SetMinPerf,
    FanAuto,
    FanMax,
    FanModeRead,
    CoolBoost,
    CoolBoostRead,
    BatteryLimit,
    BatteryLimitRead,
    BatteryHealth,
    BatteryHealthRead,
    BatteryCalibration,
    LcdOverdrive,
    LcdOverdriveRead,
    BootAnimation,
    BootAnimationRead,
    UsbCharging,
    UsbChargingRead,
    BacklightTimeout,
    BacklightTimeoutRead,
    /// Panel brightness, as a percent of `max_brightness`. Write-only
    /// here for the same reason as `ThermalProfile`: the backlight class
    /// is world-readable (`brightness`/`max_brightness` both `0644`),
    /// only the write needs root - at least on this machine, where
    /// neither a `video`-group membership nor a logind ACL grants it
    /// (`getfacl` on `/sys/class/backlight/*/brightness` showed no user
    /// entry). Used by "Eco Mode" (`hardware::eco_mode`) to cap
    /// brightness, mirroring the same-named real Acer feature.
    ScreenBrightness,
    PwmAvailable,
    PwmCpu,
    PwmGpu,
    PwmCpuRead,
    PwmGpuRead,
    PwmCpuEnable,
    PwmGpuEnable,
    PwmCpuEnableRead,
    PwmGpuEnableRead,
    BootReapplyBattery,
    SerialNumberRead,
    ChiconyRgb,
    /// Arbitrary 24-bit colour on the Chicony USB keyboard.
    ///
    /// `ChiconyRgb` above drives this controller's effect engine, which
    /// only takes a colour *index* into a fixed 7-entry palette - a real
    /// limit of that command, not of the hardware. The same device also
    /// accepts a `0x14` packet carrying a full RGB triple, which is what
    /// the per-key generation (PH16-71 and similar) uses for solid
    /// colour. Args: RED GREEN BLUE, each 0-255, and BRIGHTNESS.
    ChiconyColor,
    /// Raw packet sequence to the Chicony keyboard: one hex string, 8
    /// bytes (16 hex chars) per packet, all sent inside a single claimed
    /// USB session. This controller needs a preamble and an apply packet
    /// around a colour packet, so the sequence has to be atomic; it is
    /// also how new packet layouts get confirmed on real hardware.
    ChiconySeq,
    /// Effect on the Chicony keyboard carrying a real RGB colour.
    ///
    /// Args: OPCODE SPEED BRIGHTNESS RED GREEN BLUE DIRECTION. Speed and
    /// brightness are percentages (0-100) and are mapped to the
    /// controller's own ranges by the helper. Opcode is this keyboard's
    /// effect id - see `hardware::keyboard_rgb::Effect`.
    ChiconyEffect,
    /// Mode-key cycles, as comma-separated WMI profile indices, written to
    /// facer's `mode_cycle_ac`/`mode_cycle_battery`. Args: AC BATTERY,
    /// either of which may be `skip` to leave that list alone. The key is
    /// handled entirely in the kernel on this hardware, so the cycle has
    /// to live there too.
    ModeCycle,
    /// Raw firmware thermal-profile index (facer's `thermal_profile`).
    /// Write-only here: both that attribute and `thermal_profile_supported`
    /// are world-readable, so the app reads them directly.
    ThermalProfile,
    /// Reapply the last thermal profile at boot. The firmware resets its
    /// index on every power cycle - on a PHN16-73 to one it then refuses to
    /// be set back to - so without this the profile is lost every reboot.
    BootReapplyThermal,
    /// What this CPU allows as a temperature ceiling: Tjmax, the ceiling in
    /// effect, and whether the offset may be written at all. Read-only, and
    /// privileged because it comes from an MSR.
    TempLimitCaps,
    /// CPU temperature ceiling, in Celsius, plus the bound it may use.
    /// Written as a TCC activation offset from Tjmax.
    TempLimit,
    /// Reapply the recorded ceiling at boot. The offset is not preserved
    /// across a power cycle, so without this the ceiling is lost every time.
    BootReapplyTempLimit,
    /// MUX-style GPU switch, 1 (hybrid/Optimus) or 2 (discrete-only) - see
    /// `discrete_gpu_mode` in facer.c. Write-only here, same reasoning as
    /// `ThermalProfile`: the sysfs attribute is world-readable, only the
    /// write needs root. UNCONFIRMED on real hardware - decoded from the
    /// real Windows app, never exercised against live firmware by this
    /// project. The real GPU routing only changes on the next boot, same
    /// as Windows: a successful write here does not mean the running
    /// session's GPU state changed at all.
    DiscreteGpuMode,
    /// Installs a custom GRUB menu background: writes the decoded image
    /// next to whatever `grub.cfg` this system already uses, points
    /// `GRUB_BACKGROUND` at it in `/etc/default/grub` (backing that file
    /// up first, once, the first time this ever runs), and regenerates
    /// the config with the system's own `update-grub`/`grub-mkconfig`.
    /// Privileged for the obvious reason (writes under `/boot` and
    /// `/etc`), and root-only regardless of `sysfs` fixture wiring - see
    /// `grub_splash` in the helper for why this does not take a `sysfs`
    /// parameter the way EC/sysfs actions do.
    ///
    /// Args: an image extension (`png`/`jpg`/`jpeg`/`tga` - what GRUB's
    /// own loader modules understand) and the image itself, base64
    /// (`base64_lite`) - the only way to move an arbitrary-sized blob
    /// through this protocol's one-line wire format unambiguously.
    GrubSplashApply,
    /// Undoes `GrubSplashApply`: drops the `GRUB_BACKGROUND` line this
    /// app added (never one the user set some other way - only a value
    /// pointing at this app's own staged file is touched), removes the
    /// staged image, and regenerates `grub.cfg` again.
    GrubSplashReset,
}

impl Action {
    pub const ALL: [Self; 49] = [
        Action::ApplyCpuProfile,
        Action::SetGovernor,
        Action::SetEpp,
        Action::SetGpuPower,
        Action::SetNoTurbo,
        Action::SetMinPerf,
        Action::FanAuto,
        Action::FanMax,
        Action::FanModeRead,
        Action::CoolBoost,
        Action::CoolBoostRead,
        Action::BatteryLimit,
        Action::BatteryLimitRead,
        Action::BatteryHealth,
        Action::BatteryHealthRead,
        Action::BatteryCalibration,
        Action::LcdOverdrive,
        Action::LcdOverdriveRead,
        Action::BootAnimation,
        Action::BootAnimationRead,
        Action::UsbCharging,
        Action::UsbChargingRead,
        Action::BacklightTimeout,
        Action::BacklightTimeoutRead,
        Action::ScreenBrightness,
        Action::PwmAvailable,
        Action::PwmCpu,
        Action::PwmGpu,
        Action::PwmCpuRead,
        Action::PwmGpuRead,
        Action::PwmCpuEnable,
        Action::PwmGpuEnable,
        Action::PwmCpuEnableRead,
        Action::PwmGpuEnableRead,
        Action::BootReapplyBattery,
        Action::SerialNumberRead,
        Action::ChiconyRgb,
        Action::ChiconyColor,
        Action::ChiconySeq,
        Action::ChiconyEffect,
        Action::ModeCycle,
        Action::ThermalProfile,
        Action::BootReapplyThermal,
        Action::TempLimitCaps,
        Action::TempLimit,
        Action::BootReapplyTempLimit,
        Action::DiscreteGpuMode,
        Action::GrubSplashApply,
        Action::GrubSplashReset,
    ];

    /// The word that asks for the action on the wire.
    pub open spec fn wire_name(self) -> Seq<char> {
        match self {
            Action::ApplyCpuProfile => "apply-cpu-profile"@,
            Action::SetGovernor => "set-governor"@,
            Action::SetEpp => "set-epp"@,
            Action::SetGpuPower => "set-gpu-power"@,
            Action::SetNoTurbo => "set-no-turbo"@,
            Action::SetMinPerf => "set-min-perf"@,
            Action::FanAuto => "fan-auto"@,
            Action::FanMax => "fan-max"@,
            Action::FanModeRead => "fan-mode-read"@,
            Action::CoolBoost => "coolboost"@,
            Action::CoolBoostRead => "coolboost-read"@,
            Action::BatteryLimit => "bat-limit"@,
            Action::BatteryLimitRead => "bat-limit-read"@,
            Action::BatteryHealth => "bat-health"@,
            Action::BatteryHealthRead => "bat-health-read"@,
            Action::BatteryCalibration => "bat-calibration"@,
            Action::LcdOverdrive => "lcd-overdrive"@,
            Action::LcdOverdriveRead => "lcd-overdrive-read"@,
            Action::BootAnimation => "boot-anim"@,
            Action::BootAnimationRead => "boot-anim-read"@,
            Action::UsbCharging => "usb-charge"@,
            Action::UsbChargingRead => "usb-charge-read"@,
            Action::BacklightTimeout => "backlight-timeout"@,
            Action::BacklightTimeoutRead => "backlight-timeout-read"@,
            Action::ScreenBrightness => "screen-brightness"@,
            Action::PwmAvailable => "pwm-available"@,
            Action::PwmCpu => "pwm-cpu"@,
            Action::PwmGpu => "pwm-gpu"@,
            Action::PwmCpuRead => "pwm-cpu-read"@,
            Action::PwmGpuRead => "pwm-gpu-read"@,
            Action::PwmCpuEnable => "pwm-cpu-enable"@,
            Action::PwmGpuEnable => "pwm-gpu-enable"@,
            Action::PwmCpuEnableRead => "pwm-cpu-enable-read"@,
            Action::PwmGpuEnableRead => "pwm-gpu-enable-read"@,
            Action::BootReapplyBattery => "boot-reapply-battery"@,
            Action::SerialNumberRead => "serial-number-read"@,
            Action::ChiconyRgb => "chicony-rgb"@,
            Action::ChiconyColor => "chicony-color"@,
            Action::ChiconySeq => "chicony-seq"@,
            Action::ChiconyEffect => "chicony-effect"@,
            Action::ModeCycle => "mode-cycle"@,
            Action::ThermalProfile => "thermal-profile"@,
            Action::BootReapplyThermal => "boot-reapply-thermal"@,
            Action::TempLimitCaps => "temp-limit-caps"@,
            Action::TempLimit => "temp-limit"@,
            Action::BootReapplyTempLimit => "boot-reapply-temp-limit"@,
            Action::DiscreteGpuMode => "discrete-gpu-mode"@,
            Action::GrubSplashApply => "grub-splash-apply"@,
            Action::GrubSplashReset => "grub-splash-reset"@,
        }
    }

    /// How many arguments the action takes.
    pub open spec fn arity(self) -> int {
        match self {
            Action::ApplyCpuProfile => 4,
            Action::SetGovernor => 1,
            Action::SetEpp => 1,
            Action::SetGpuPower => 1,
            Action::SetNoTurbo => 1,
            Action::SetMinPerf => 1,
            Action::FanAuto => 0,
            Action::FanMax => 0,
            Action::FanModeRead => 0,
            Action::CoolBoost => 1,
            Action::CoolBoostRead => 0,
            Action::BatteryLimit => 1,
            Action::BatteryLimitRead => 0,
            Action::BatteryHealth => 1,
            Action::BatteryHealthRead => 0,
            Action::BatteryCalibration => 1,
            Action::LcdOverdrive => 1,
            Action::LcdOverdriveRead => 0,
            Action::BootAnimation => 1,
            Action::BootAnimationRead => 0,
            Action::UsbCharging => 1,
            Action::UsbChargingRead => 0,
            Action::BacklightTimeout => 1,
            Action::BacklightTimeoutRead => 0,
            Action::ScreenBrightness => 1,
            Action::PwmAvailable => 0,
            Action::PwmCpu => 1,
            Action::PwmGpu => 1,
            Action::PwmCpuRead => 0,
            Action::PwmGpuRead => 0,
            Action::PwmCpuEnable => 1,
            Action::PwmGpuEnable => 1,
            Action::PwmCpuEnableRead => 0,
            Action::PwmGpuEnableRead => 0,
            Action::BootReapplyBattery => 1,
            Action::SerialNumberRead => 0,
            Action::ChiconyRgb => 4,
            Action::ChiconyColor => 4,
            Action::ChiconySeq => 1,
            Action::ChiconyEffect => 7,
            Action::ModeCycle => 2,
            Action::ThermalProfile => 1,
            Action::BootReapplyThermal => 1,
            Action::TempLimitCaps => 0,
            Action::TempLimit => 2,
            Action::BootReapplyTempLimit => 1,
            Action::DiscreteGpuMode => 1,
            Action::GrubSplashApply => 2,
            Action::GrubSplashReset => 0,
        }
    }

    /// How to ask for the action.
    pub open spec fn usage_text(self) -> Seq<char> {
        match self {
            Action::ApplyCpuProfile => "apply-cpu-profile GOVERNOR EPP|skip NO_TURBO|skip MIN_PERF|skip"@,
            Action::SetGovernor => "set-governor GOVERNOR"@,
            Action::SetEpp => "set-epp PREFERENCE"@,
            Action::SetGpuPower => "set-gpu-power WATTS"@,
            Action::SetNoTurbo => "set-no-turbo 0|1"@,
            Action::SetMinPerf => "set-min-perf PERCENT"@,
            Action::FanAuto => "fan-auto"@,
            Action::FanMax => "fan-max"@,
            Action::FanModeRead => "fan-mode-read"@,
            Action::CoolBoost => "coolboost 0|1"@,
            Action::CoolBoostRead => "coolboost-read"@,
            Action::BatteryLimit => "bat-limit 0|1"@,
            Action::BatteryLimitRead => "bat-limit-read"@,
            Action::BatteryHealth => "bat-health 0|1"@,
            Action::BatteryHealthRead => "bat-health-read"@,
            Action::BatteryCalibration => "bat-calibration 0|1"@,
            Action::LcdOverdrive => "lcd-overdrive 0|1"@,
            Action::LcdOverdriveRead => "lcd-overdrive-read"@,
            Action::BootAnimation => "boot-anim 0|1"@,
            Action::BootAnimationRead => "boot-anim-read"@,
            Action::UsbCharging => "usb-charge 0|1"@,
            Action::UsbChargingRead => "usb-charge-read"@,
            Action::BacklightTimeout => "backlight-timeout 0|1"@,
            Action::BacklightTimeoutRead => "backlight-timeout-read"@,
            Action::ScreenBrightness => "screen-brightness PERCENT"@,
            Action::PwmAvailable => "pwm-available"@,
            Action::PwmCpu => "pwm-cpu VALUE"@,
            Action::PwmGpu => "pwm-gpu VALUE"@,
            Action::PwmCpuRead => "pwm-cpu-read"@,
            Action::PwmGpuRead => "pwm-gpu-read"@,
            Action::PwmCpuEnable => "pwm-cpu-enable 0|1|2"@,
            Action::PwmGpuEnable => "pwm-gpu-enable 0|1|2"@,
            Action::PwmCpuEnableRead => "pwm-cpu-enable-read"@,
            Action::PwmGpuEnableRead => "pwm-gpu-enable-read"@,
            Action::BootReapplyBattery => "boot-reapply-battery USER_HOME"@,
            Action::SerialNumberRead => "serial-number-read"@,
            Action::ChiconyRgb => "chicony-rgb EFFECT BRIGHTNESS COLOR SPEED"@,
            Action::ChiconyColor => "chicony-color RED GREEN BLUE BRIGHTNESS"@,
            Action::ChiconySeq => "chicony-seq HEXPACKETS"@,
            Action::ChiconyEffect => "chicony-effect OPCODE SPEED BRIGHTNESS RED GREEN BLUE DIRECTION"@,
            Action::ModeCycle => "mode-cycle AC|skip BATTERY|skip"@,
            Action::ThermalProfile => "thermal-profile INDEX"@,
            Action::BootReapplyThermal => "boot-reapply-thermal USER_HOME"@,
            Action::TempLimitCaps => "temp-limit-caps"@,
            Action::TempLimit => "temp-limit CELSIUS BOUND"@,
            Action::BootReapplyTempLimit => "boot-reapply-temp-limit USER_HOME"@,
            Action::DiscreteGpuMode => "discrete-gpu-mode 1|2"@,
            Action::GrubSplashApply => "grub-splash-apply EXT BASE64"@,
            Action::GrubSplashReset => "grub-splash-reset"@,
        }
    }

    /// The action a word names: the one that it asks for on the wire.
    pub open spec fn named(value: Seq<char>) -> Option<Self> {
        if exists|a: Action| #[trigger] a.wire_name() == value {
            Some(choose|a: Action| #[trigger] a.wire_name() == value)
        } else {
            None
        }
    }

    /// The action that `value` names.
    pub fn parse(value: &str) -> (r: Option<Self>)
        ensures
            match r {
                Some(a) => a.wire_name() == value@,
                None => forall|a: Action| #[trigger] a.wire_name() != value@,
            },
            forall|a: Action| #[trigger] a.wire_name() == value@ ==> r == Some(a),
            r == Action::named(value@),
    {
        let r = Action::first_named(value);
        proof {
            assert forall|a: Action| #[trigger] a.wire_name() == value@ implies r == Some(a) by {
                law_action_names_are_distinct(a, r.unwrap());
            }
        }
        r
    }

    fn first_named(value: &str) -> (r: Option<Self>)
        ensures
            match r {
                Some(a) => a.wire_name() == value@,
                None => forall|a: Action| #[trigger] a.wire_name() != value@,
            },
    {
        if same(value, "apply-cpu-profile") {
            Some(Action::ApplyCpuProfile)
        } else if same(value, "set-governor") {
            Some(Action::SetGovernor)
        } else if same(value, "set-epp") {
            Some(Action::SetEpp)
        } else if same(value, "set-gpu-power") {
            Some(Action::SetGpuPower)
        } else if same(value, "set-no-turbo") {
            Some(Action::SetNoTurbo)
        } else if same(value, "set-min-perf") {
            Some(Action::SetMinPerf)
        } else if same(value, "fan-auto") {
            Some(Action::FanAuto)
        } else if same(value, "fan-max") {
            Some(Action::FanMax)
        } else if same(value, "fan-mode-read") {
            Some(Action::FanModeRead)
        } else if same(value, "coolboost") {
            Some(Action::CoolBoost)
        } else if same(value, "coolboost-read") {
            Some(Action::CoolBoostRead)
        } else if same(value, "bat-limit") {
            Some(Action::BatteryLimit)
        } else if same(value, "bat-limit-read") {
            Some(Action::BatteryLimitRead)
        } else if same(value, "bat-health") {
            Some(Action::BatteryHealth)
        } else if same(value, "bat-health-read") {
            Some(Action::BatteryHealthRead)
        } else if same(value, "bat-calibration") {
            Some(Action::BatteryCalibration)
        } else if same(value, "lcd-overdrive") {
            Some(Action::LcdOverdrive)
        } else if same(value, "lcd-overdrive-read") {
            Some(Action::LcdOverdriveRead)
        } else if same(value, "boot-anim") {
            Some(Action::BootAnimation)
        } else if same(value, "boot-anim-read") {
            Some(Action::BootAnimationRead)
        } else if same(value, "usb-charge") {
            Some(Action::UsbCharging)
        } else if same(value, "usb-charge-read") {
            Some(Action::UsbChargingRead)
        } else if same(value, "backlight-timeout") {
            Some(Action::BacklightTimeout)
        } else if same(value, "backlight-timeout-read") {
            Some(Action::BacklightTimeoutRead)
        } else if same(value, "screen-brightness") {
            Some(Action::ScreenBrightness)
        } else if same(value, "pwm-available") {
            Some(Action::PwmAvailable)
        } else if same(value, "pwm-cpu") {
            Some(Action::PwmCpu)
        } else if same(value, "pwm-gpu") {
            Some(Action::PwmGpu)
        } else if same(value, "pwm-cpu-read") {
            Some(Action::PwmCpuRead)
        } else if same(value, "pwm-gpu-read") {
            Some(Action::PwmGpuRead)
        } else if same(value, "pwm-cpu-enable") {
            Some(Action::PwmCpuEnable)
        } else if same(value, "pwm-gpu-enable") {
            Some(Action::PwmGpuEnable)
        } else if same(value, "pwm-cpu-enable-read") {
            Some(Action::PwmCpuEnableRead)
        } else if same(value, "pwm-gpu-enable-read") {
            Some(Action::PwmGpuEnableRead)
        } else if same(value, "boot-reapply-battery") {
            Some(Action::BootReapplyBattery)
        } else if same(value, "serial-number-read") {
            Some(Action::SerialNumberRead)
        } else if same(value, "chicony-rgb") {
            Some(Action::ChiconyRgb)
        } else if same(value, "chicony-color") {
            Some(Action::ChiconyColor)
        } else if same(value, "chicony-seq") {
            Some(Action::ChiconySeq)
        } else if same(value, "chicony-effect") {
            Some(Action::ChiconyEffect)
        } else if same(value, "mode-cycle") {
            Some(Action::ModeCycle)
        } else if same(value, "thermal-profile") {
            Some(Action::ThermalProfile)
        } else if same(value, "boot-reapply-thermal") {
            Some(Action::BootReapplyThermal)
        } else if same(value, "temp-limit-caps") {
            Some(Action::TempLimitCaps)
        } else if same(value, "temp-limit") {
            Some(Action::TempLimit)
        } else if same(value, "boot-reapply-temp-limit") {
            Some(Action::BootReapplyTempLimit)
        } else if same(value, "discrete-gpu-mode") {
            Some(Action::DiscreteGpuMode)
        } else if same(value, "grub-splash-apply") {
            Some(Action::GrubSplashApply)
        } else if same(value, "grub-splash-reset") {
            Some(Action::GrubSplashReset)
        } else {
            None
        }
    }

    /// The word that asks for the action on the wire.
    pub fn as_str(self) -> (r: &'static str)
        ensures
            r@ == self.wire_name(),
    {
        match self {
            Action::ApplyCpuProfile => "apply-cpu-profile",
            Action::SetGovernor => "set-governor",
            Action::SetEpp => "set-epp",
            Action::SetGpuPower => "set-gpu-power",
            Action::SetNoTurbo => "set-no-turbo",
            Action::SetMinPerf => "set-min-perf",
            Action::FanAuto => "fan-auto",
            Action::FanMax => "fan-max",
            Action::FanModeRead => "fan-mode-read",
            Action::CoolBoost => "coolboost",
            Action::CoolBoostRead => "coolboost-read",
            Action::BatteryLimit => "bat-limit",
            Action::BatteryLimitRead => "bat-limit-read",
            Action::BatteryHealth => "bat-health",
            Action::BatteryHealthRead => "bat-health-read",
            Action::BatteryCalibration => "bat-calibration",
            Action::LcdOverdrive => "lcd-overdrive",
            Action::LcdOverdriveRead => "lcd-overdrive-read",
            Action::BootAnimation => "boot-anim",
            Action::BootAnimationRead => "boot-anim-read",
            Action::UsbCharging => "usb-charge",
            Action::UsbChargingRead => "usb-charge-read",
            Action::BacklightTimeout => "backlight-timeout",
            Action::BacklightTimeoutRead => "backlight-timeout-read",
            Action::ScreenBrightness => "screen-brightness",
            Action::PwmAvailable => "pwm-available",
            Action::PwmCpu => "pwm-cpu",
            Action::PwmGpu => "pwm-gpu",
            Action::PwmCpuRead => "pwm-cpu-read",
            Action::PwmGpuRead => "pwm-gpu-read",
            Action::PwmCpuEnable => "pwm-cpu-enable",
            Action::PwmGpuEnable => "pwm-gpu-enable",
            Action::PwmCpuEnableRead => "pwm-cpu-enable-read",
            Action::PwmGpuEnableRead => "pwm-gpu-enable-read",
            Action::BootReapplyBattery => "boot-reapply-battery",
            Action::SerialNumberRead => "serial-number-read",
            Action::ChiconyRgb => "chicony-rgb",
            Action::ChiconyColor => "chicony-color",
            Action::ChiconySeq => "chicony-seq",
            Action::ChiconyEffect => "chicony-effect",
            Action::ModeCycle => "mode-cycle",
            Action::ThermalProfile => "thermal-profile",
            Action::BootReapplyThermal => "boot-reapply-thermal",
            Action::TempLimitCaps => "temp-limit-caps",
            Action::TempLimit => "temp-limit",
            Action::BootReapplyTempLimit => "boot-reapply-temp-limit",
            Action::DiscreteGpuMode => "discrete-gpu-mode",
            Action::GrubSplashApply => "grub-splash-apply",
            Action::GrubSplashReset => "grub-splash-reset",
        }
    }

    /// How many arguments the action takes.
    pub fn argument_count(self) -> (r: usize)
        ensures
            r == self.arity(),
    {
        match self {
            Action::ApplyCpuProfile => 4,
            Action::SetGovernor => 1,
            Action::SetEpp => 1,
            Action::SetGpuPower => 1,
            Action::SetNoTurbo => 1,
            Action::SetMinPerf => 1,
            Action::FanAuto => 0,
            Action::FanMax => 0,
            Action::FanModeRead => 0,
            Action::CoolBoost => 1,
            Action::CoolBoostRead => 0,
            Action::BatteryLimit => 1,
            Action::BatteryLimitRead => 0,
            Action::BatteryHealth => 1,
            Action::BatteryHealthRead => 0,
            Action::BatteryCalibration => 1,
            Action::LcdOverdrive => 1,
            Action::LcdOverdriveRead => 0,
            Action::BootAnimation => 1,
            Action::BootAnimationRead => 0,
            Action::UsbCharging => 1,
            Action::UsbChargingRead => 0,
            Action::BacklightTimeout => 1,
            Action::BacklightTimeoutRead => 0,
            Action::ScreenBrightness => 1,
            Action::PwmAvailable => 0,
            Action::PwmCpu => 1,
            Action::PwmGpu => 1,
            Action::PwmCpuRead => 0,
            Action::PwmGpuRead => 0,
            Action::PwmCpuEnable => 1,
            Action::PwmGpuEnable => 1,
            Action::PwmCpuEnableRead => 0,
            Action::PwmGpuEnableRead => 0,
            Action::BootReapplyBattery => 1,
            Action::SerialNumberRead => 0,
            Action::ChiconyRgb => 4,
            Action::ChiconyColor => 4,
            Action::ChiconySeq => 1,
            Action::ChiconyEffect => 7,
            Action::ModeCycle => 2,
            Action::ThermalProfile => 1,
            Action::BootReapplyThermal => 1,
            Action::TempLimitCaps => 0,
            Action::TempLimit => 2,
            Action::BootReapplyTempLimit => 1,
            Action::DiscreteGpuMode => 1,
            Action::GrubSplashApply => 2,
            Action::GrubSplashReset => 0,
        }
    }

    /// How to ask for the action.
    pub fn usage(self) -> (r: &'static str)
        ensures
            r@ == self.usage_text(),
    {
        match self {
            Action::ApplyCpuProfile => "apply-cpu-profile GOVERNOR EPP|skip NO_TURBO|skip MIN_PERF|skip",
            Action::SetGovernor => "set-governor GOVERNOR",
            Action::SetEpp => "set-epp PREFERENCE",
            Action::SetGpuPower => "set-gpu-power WATTS",
            Action::SetNoTurbo => "set-no-turbo 0|1",
            Action::SetMinPerf => "set-min-perf PERCENT",
            Action::FanAuto => "fan-auto",
            Action::FanMax => "fan-max",
            Action::FanModeRead => "fan-mode-read",
            Action::CoolBoost => "coolboost 0|1",
            Action::CoolBoostRead => "coolboost-read",
            Action::BatteryLimit => "bat-limit 0|1",
            Action::BatteryLimitRead => "bat-limit-read",
            Action::BatteryHealth => "bat-health 0|1",
            Action::BatteryHealthRead => "bat-health-read",
            Action::BatteryCalibration => "bat-calibration 0|1",
            Action::LcdOverdrive => "lcd-overdrive 0|1",
            Action::LcdOverdriveRead => "lcd-overdrive-read",
            Action::BootAnimation => "boot-anim 0|1",
            Action::BootAnimationRead => "boot-anim-read",
            Action::UsbCharging => "usb-charge 0|1",
            Action::UsbChargingRead => "usb-charge-read",
            Action::BacklightTimeout => "backlight-timeout 0|1",
            Action::BacklightTimeoutRead => "backlight-timeout-read",
            Action::ScreenBrightness => "screen-brightness PERCENT",
            Action::PwmAvailable => "pwm-available",
            Action::PwmCpu => "pwm-cpu VALUE",
            Action::PwmGpu => "pwm-gpu VALUE",
            Action::PwmCpuRead => "pwm-cpu-read",
            Action::PwmGpuRead => "pwm-gpu-read",
            Action::PwmCpuEnable => "pwm-cpu-enable 0|1|2",
            Action::PwmGpuEnable => "pwm-gpu-enable 0|1|2",
            Action::PwmCpuEnableRead => "pwm-cpu-enable-read",
            Action::PwmGpuEnableRead => "pwm-gpu-enable-read",
            Action::BootReapplyBattery => "boot-reapply-battery USER_HOME",
            Action::SerialNumberRead => "serial-number-read",
            Action::ChiconyRgb => "chicony-rgb EFFECT BRIGHTNESS COLOR SPEED",
            Action::ChiconyColor => "chicony-color RED GREEN BLUE BRIGHTNESS",
            Action::ChiconySeq => "chicony-seq HEXPACKETS",
            Action::ChiconyEffect => "chicony-effect OPCODE SPEED BRIGHTNESS RED GREEN BLUE DIRECTION",
            Action::ModeCycle => "mode-cycle AC|skip BATTERY|skip",
            Action::ThermalProfile => "thermal-profile INDEX",
            Action::BootReapplyThermal => "boot-reapply-thermal USER_HOME",
            Action::TempLimitCaps => "temp-limit-caps",
            Action::TempLimit => "temp-limit CELSIUS BOUND",
            Action::BootReapplyTempLimit => "boot-reapply-temp-limit USER_HOME",
            Action::DiscreteGpuMode => "discrete-gpu-mode 1|2",
            Action::GrubSplashApply => "grub-splash-apply EXT BASE64",
            Action::GrubSplashReset => "grub-splash-reset",
        }
    }

    /// A number that tells the action's name apart from every other: its length, its
    /// fifth character and its last one.
    spec fn name_mark(self) -> int {
        match self {
            Action::ApplyCpuProfile => 17121101,
            Action::SetGovernor => 12103114,
            Action::SetEpp => 7101112,
            Action::SetGpuPower => 13103114,
            Action::SetNoTurbo => 12110111,
            Action::SetMinPerf => 12109102,
            Action::FanAuto => 8097111,
            Action::FanMax => 7109120,
            Action::FanModeRead => 13109100,
            Action::CoolBoost => 9098116,
            Action::CoolBoostRead => 14098100,
            Action::BatteryLimit => 9108116,
            Action::BatteryLimitRead => 14108100,
            Action::BatteryHealth => 10104104,
            Action::BatteryHealthRead => 15104100,
            Action::BatteryCalibration => 15099110,
            Action::LcdOverdrive => 13111101,
            Action::LcdOverdriveRead => 18111100,
            Action::BootAnimation => 9045109,
            Action::BootAnimationRead => 14045100,
            Action::UsbCharging => 10099101,
            Action::UsbChargingRead => 15099100,
            Action::BacklightTimeout => 17108116,
            Action::BacklightTimeoutRead => 22108100,
            Action::ScreenBrightness => 17101115,
            Action::PwmAvailable => 13097101,
            Action::PwmCpu => 7099117,
            Action::PwmGpu => 7103117,
            Action::PwmCpuRead => 12099100,
            Action::PwmGpuRead => 12103100,
            Action::PwmCpuEnable => 14099101,
            Action::PwmGpuEnable => 14103101,
            Action::PwmCpuEnableRead => 19099100,
            Action::PwmGpuEnableRead => 19103100,
            Action::BootReapplyBattery => 20045121,
            Action::SerialNumberRead => 18097100,
            Action::ChiconyRgb => 11111098,
            Action::ChiconyColor => 13111114,
            Action::ChiconySeq => 11111113,
            Action::ChiconyEffect => 14111116,
            Action::ModeCycle => 10045101,
            Action::ThermalProfile => 15109101,
            Action::BootReapplyThermal => 20045108,
            Action::TempLimitCaps => 15045115,
            Action::TempLimit => 10045116,
            Action::BootReapplyTempLimit => 23045116,
            Action::DiscreteGpuMode => 17114101,
            Action::GrubSplashApply => 17045121,
            Action::GrubSplashReset => 17045116,
        }
    }
}

spec fn mark_of(s: Seq<char>) -> int {
    s.len() * 1000000 + (s[4] as int) * 1000 + (s.last() as int)
}

proof fn lemma_name_mark(a: Action)
    ensures
        mark_of(a.wire_name()) == a.name_mark(),
{
    match a {
        Action::ApplyCpuProfile => {
            reveal_strlit("apply-cpu-profile");
        },
        Action::SetGovernor => {
            reveal_strlit("set-governor");
        },
        Action::SetEpp => {
            reveal_strlit("set-epp");
        },
        Action::SetGpuPower => {
            reveal_strlit("set-gpu-power");
        },
        Action::SetNoTurbo => {
            reveal_strlit("set-no-turbo");
        },
        Action::SetMinPerf => {
            reveal_strlit("set-min-perf");
        },
        Action::FanAuto => {
            reveal_strlit("fan-auto");
        },
        Action::FanMax => {
            reveal_strlit("fan-max");
        },
        Action::FanModeRead => {
            reveal_strlit("fan-mode-read");
        },
        Action::CoolBoost => {
            reveal_strlit("coolboost");
        },
        Action::CoolBoostRead => {
            reveal_strlit("coolboost-read");
        },
        Action::BatteryLimit => {
            reveal_strlit("bat-limit");
        },
        Action::BatteryLimitRead => {
            reveal_strlit("bat-limit-read");
        },
        Action::BatteryHealth => {
            reveal_strlit("bat-health");
        },
        Action::BatteryHealthRead => {
            reveal_strlit("bat-health-read");
        },
        Action::BatteryCalibration => {
            reveal_strlit("bat-calibration");
        },
        Action::LcdOverdrive => {
            reveal_strlit("lcd-overdrive");
        },
        Action::LcdOverdriveRead => {
            reveal_strlit("lcd-overdrive-read");
        },
        Action::BootAnimation => {
            reveal_strlit("boot-anim");
        },
        Action::BootAnimationRead => {
            reveal_strlit("boot-anim-read");
        },
        Action::UsbCharging => {
            reveal_strlit("usb-charge");
        },
        Action::UsbChargingRead => {
            reveal_strlit("usb-charge-read");
        },
        Action::BacklightTimeout => {
            reveal_strlit("backlight-timeout");
        },
        Action::BacklightTimeoutRead => {
            reveal_strlit("backlight-timeout-read");
        },
        Action::ScreenBrightness => {
            reveal_strlit("screen-brightness");
        },
        Action::PwmAvailable => {
            reveal_strlit("pwm-available");
        },
        Action::PwmCpu => {
            reveal_strlit("pwm-cpu");
        },
        Action::PwmGpu => {
            reveal_strlit("pwm-gpu");
        },
        Action::PwmCpuRead => {
            reveal_strlit("pwm-cpu-read");
        },
        Action::PwmGpuRead => {
            reveal_strlit("pwm-gpu-read");
        },
        Action::PwmCpuEnable => {
            reveal_strlit("pwm-cpu-enable");
        },
        Action::PwmGpuEnable => {
            reveal_strlit("pwm-gpu-enable");
        },
        Action::PwmCpuEnableRead => {
            reveal_strlit("pwm-cpu-enable-read");
        },
        Action::PwmGpuEnableRead => {
            reveal_strlit("pwm-gpu-enable-read");
        },
        Action::BootReapplyBattery => {
            reveal_strlit("boot-reapply-battery");
        },
        Action::SerialNumberRead => {
            reveal_strlit("serial-number-read");
        },
        Action::ChiconyRgb => {
            reveal_strlit("chicony-rgb");
        },
        Action::ChiconyColor => {
            reveal_strlit("chicony-color");
        },
        Action::ChiconySeq => {
            reveal_strlit("chicony-seq");
        },
        Action::ChiconyEffect => {
            reveal_strlit("chicony-effect");
        },
        Action::ModeCycle => {
            reveal_strlit("mode-cycle");
        },
        Action::ThermalProfile => {
            reveal_strlit("thermal-profile");
        },
        Action::BootReapplyThermal => {
            reveal_strlit("boot-reapply-thermal");
        },
        Action::TempLimitCaps => {
            reveal_strlit("temp-limit-caps");
        },
        Action::TempLimit => {
            reveal_strlit("temp-limit");
        },
        Action::BootReapplyTempLimit => {
            reveal_strlit("boot-reapply-temp-limit");
        },
        Action::DiscreteGpuMode => {
            reveal_strlit("discrete-gpu-mode");
        },
        Action::GrubSplashApply => {
            reveal_strlit("grub-splash-apply");
        },
        Action::GrubSplashReset => {
            reveal_strlit("grub-splash-reset");
        },
    }
}

/// No two actions share a word.
pub proof fn law_action_names_are_distinct(a: Action, b: Action)
    requires
        a.wire_name() == b.wire_name(),
    ensures
        a == b,
{
    lemma_name_mark(a);
    lemma_name_mark(b);
}

/// An action reads back from the word it is sent as.
pub proof fn law_action_round_trip(v: Action)
    ensures
        Action::named(v.wire_name()) == Some(v),
{
    law_action_names_are_distinct(Action::named(v.wire_name())->0, v);
}

/// How many words stand in a text from a place on, the first of them begun before it or not.
spec fn word_count(s: Seq<char>, from: int, inside: bool) -> int
    decreases s.len() - from,
{
    let ended: int = if inside {
        1
    } else {
        0
    };
    if from < 0 || from >= s.len() {
        ended
    } else if !is_space(s[from]) {
        word_count(s, from + 1, true)
    } else {
        ended + word_count(s, from + 1, false)
    }
}

proof fn lemma_word_count(cur: Seq<char>, s: Seq<char>, from: int)
    requires
        0 <= from <= s.len(),
    ensures
        words_from(cur, s.skip(from)).len() == word_count(s, from, cur.len() > 0),
    decreases s.len() - from,
{
    let rest = s.skip(from);
    if rest.len() > 0 {
        assert(rest[0] == s[from]);
        assert(rest.drop_first() =~= s.skip(from + 1));
        if is_space(s[from]) {
            lemma_word_count(seq![], s, from + 1);
        } else {
            lemma_word_count(cur.push(s[from]), s, from + 1);
        }
    }
}

proof fn lemma_usage_words(a: Action)
    ensures
        word_count(a.usage_text(), 0, false) == a.arity() + 1,
{
    reveal_with_fuel(word_count, 80);
    match a {
        Action::ApplyCpuProfile => {
            reveal_strlit("apply-cpu-profile GOVERNOR EPP|skip NO_TURBO|skip MIN_PERF|skip");
        },
        Action::SetGovernor => {
            reveal_strlit("set-governor GOVERNOR");
        },
        Action::SetEpp => {
            reveal_strlit("set-epp PREFERENCE");
        },
        Action::SetGpuPower => {
            reveal_strlit("set-gpu-power WATTS");
        },
        Action::SetNoTurbo => {
            reveal_strlit("set-no-turbo 0|1");
        },
        Action::SetMinPerf => {
            reveal_strlit("set-min-perf PERCENT");
        },
        Action::FanAuto => {
            reveal_strlit("fan-auto");
        },
        Action::FanMax => {
            reveal_strlit("fan-max");
        },
        Action::FanModeRead => {
            reveal_strlit("fan-mode-read");
        },
        Action::CoolBoost => {
            reveal_strlit("coolboost 0|1");
        },
        Action::CoolBoostRead => {
            reveal_strlit("coolboost-read");
        },
        Action::BatteryLimit => {
            reveal_strlit("bat-limit 0|1");
        },
        Action::BatteryLimitRead => {
            reveal_strlit("bat-limit-read");
        },
        Action::BatteryHealth => {
            reveal_strlit("bat-health 0|1");
        },
        Action::BatteryHealthRead => {
            reveal_strlit("bat-health-read");
        },
        Action::BatteryCalibration => {
            reveal_strlit("bat-calibration 0|1");
        },
        Action::LcdOverdrive => {
            reveal_strlit("lcd-overdrive 0|1");
        },
        Action::LcdOverdriveRead => {
            reveal_strlit("lcd-overdrive-read");
        },
        Action::BootAnimation => {
            reveal_strlit("boot-anim 0|1");
        },
        Action::BootAnimationRead => {
            reveal_strlit("boot-anim-read");
        },
        Action::UsbCharging => {
            reveal_strlit("usb-charge 0|1");
        },
        Action::UsbChargingRead => {
            reveal_strlit("usb-charge-read");
        },
        Action::BacklightTimeout => {
            reveal_strlit("backlight-timeout 0|1");
        },
        Action::BacklightTimeoutRead => {
            reveal_strlit("backlight-timeout-read");
        },
        Action::ScreenBrightness => {
            reveal_strlit("screen-brightness PERCENT");
        },
        Action::PwmAvailable => {
            reveal_strlit("pwm-available");
        },
        Action::PwmCpu => {
            reveal_strlit("pwm-cpu VALUE");
        },
        Action::PwmGpu => {
            reveal_strlit("pwm-gpu VALUE");
        },
        Action::PwmCpuRead => {
            reveal_strlit("pwm-cpu-read");
        },
        Action::PwmGpuRead => {
            reveal_strlit("pwm-gpu-read");
        },
        Action::PwmCpuEnable => {
            reveal_strlit("pwm-cpu-enable 0|1|2");
        },
        Action::PwmGpuEnable => {
            reveal_strlit("pwm-gpu-enable 0|1|2");
        },
        Action::PwmCpuEnableRead => {
            reveal_strlit("pwm-cpu-enable-read");
        },
        Action::PwmGpuEnableRead => {
            reveal_strlit("pwm-gpu-enable-read");
        },
        Action::BootReapplyBattery => {
            reveal_strlit("boot-reapply-battery USER_HOME");
        },
        Action::SerialNumberRead => {
            reveal_strlit("serial-number-read");
        },
        Action::ChiconyRgb => {
            reveal_strlit("chicony-rgb EFFECT BRIGHTNESS COLOR SPEED");
        },
        Action::ChiconyColor => {
            reveal_strlit("chicony-color RED GREEN BLUE BRIGHTNESS");
        },
        Action::ChiconySeq => {
            reveal_strlit("chicony-seq HEXPACKETS");
        },
        Action::ChiconyEffect => {
            reveal_strlit("chicony-effect OPCODE SPEED BRIGHTNESS RED GREEN BLUE DIRECTION");
        },
        Action::ModeCycle => {
            reveal_strlit("mode-cycle AC|skip BATTERY|skip");
        },
        Action::ThermalProfile => {
            reveal_strlit("thermal-profile INDEX");
        },
        Action::BootReapplyThermal => {
            reveal_strlit("boot-reapply-thermal USER_HOME");
        },
        Action::TempLimitCaps => {
            reveal_strlit("temp-limit-caps");
        },
        Action::TempLimit => {
            reveal_strlit("temp-limit CELSIUS BOUND");
        },
        Action::BootReapplyTempLimit => {
            reveal_strlit("boot-reapply-temp-limit USER_HOME");
        },
        Action::DiscreteGpuMode => {
            reveal_strlit("discrete-gpu-mode 1|2");
        },
        Action::GrubSplashApply => {
            reveal_strlit("grub-splash-apply EXT BASE64");
        },
        Action::GrubSplashReset => {
            reveal_strlit("grub-splash-reset");
        },
    }
}

/// What an action's usage says is the action's name and one word for every argument that the
/// action takes.
pub proof fn law_usage_names_every_argument(a: Action)
    ensures
        words_of(a.usage_text()).len() == a.arity() + 1,
{
    lemma_usage_words(a);
    lemma_word_count(seq![], a.usage_text(), 0);
    assert(a.usage_text().skip(0) =~= a.usage_text());
}

/// Whether no white space stands in a text from a place on.
spec fn solid_from(s: Seq<char>, from: int) -> bool
    decreases s.len() - from,
{
    if from < 0 || from >= s.len() {
        true
    } else {
        !is_space(s[from]) && solid_from(s, from + 1)
    }
}

proof fn lemma_solid(s: Seq<char>, from: int)
    requires
        0 <= from,
        solid_from(s, from),
    ensures
        forall|i: int| from <= i < s.len() ==> !is_space(#[trigger] s[i]),
    decreases s.len() - from,
{
    if from < s.len() {
        lemma_solid(s, from + 1);
    }
}

proof fn lemma_name_is_solid(a: Action)
    ensures
        a.wire_name().len() > 0,
        solid_from(a.wire_name(), 0),
{
    reveal_with_fuel(solid_from, 40);
    match a {
        Action::ApplyCpuProfile => {
            reveal_strlit("apply-cpu-profile");
        },
        Action::SetGovernor => {
            reveal_strlit("set-governor");
        },
        Action::SetEpp => {
            reveal_strlit("set-epp");
        },
        Action::SetGpuPower => {
            reveal_strlit("set-gpu-power");
        },
        Action::SetNoTurbo => {
            reveal_strlit("set-no-turbo");
        },
        Action::SetMinPerf => {
            reveal_strlit("set-min-perf");
        },
        Action::FanAuto => {
            reveal_strlit("fan-auto");
        },
        Action::FanMax => {
            reveal_strlit("fan-max");
        },
        Action::FanModeRead => {
            reveal_strlit("fan-mode-read");
        },
        Action::CoolBoost => {
            reveal_strlit("coolboost");
        },
        Action::CoolBoostRead => {
            reveal_strlit("coolboost-read");
        },
        Action::BatteryLimit => {
            reveal_strlit("bat-limit");
        },
        Action::BatteryLimitRead => {
            reveal_strlit("bat-limit-read");
        },
        Action::BatteryHealth => {
            reveal_strlit("bat-health");
        },
        Action::BatteryHealthRead => {
            reveal_strlit("bat-health-read");
        },
        Action::BatteryCalibration => {
            reveal_strlit("bat-calibration");
        },
        Action::LcdOverdrive => {
            reveal_strlit("lcd-overdrive");
        },
        Action::LcdOverdriveRead => {
            reveal_strlit("lcd-overdrive-read");
        },
        Action::BootAnimation => {
            reveal_strlit("boot-anim");
        },
        Action::BootAnimationRead => {
            reveal_strlit("boot-anim-read");
        },
        Action::UsbCharging => {
            reveal_strlit("usb-charge");
        },
        Action::UsbChargingRead => {
            reveal_strlit("usb-charge-read");
        },
        Action::BacklightTimeout => {
            reveal_strlit("backlight-timeout");
        },
        Action::BacklightTimeoutRead => {
            reveal_strlit("backlight-timeout-read");
        },
        Action::ScreenBrightness => {
            reveal_strlit("screen-brightness");
        },
        Action::PwmAvailable => {
            reveal_strlit("pwm-available");
        },
        Action::PwmCpu => {
            reveal_strlit("pwm-cpu");
        },
        Action::PwmGpu => {
            reveal_strlit("pwm-gpu");
        },
        Action::PwmCpuRead => {
            reveal_strlit("pwm-cpu-read");
        },
        Action::PwmGpuRead => {
            reveal_strlit("pwm-gpu-read");
        },
        Action::PwmCpuEnable => {
            reveal_strlit("pwm-cpu-enable");
        },
        Action::PwmGpuEnable => {
            reveal_strlit("pwm-gpu-enable");
        },
        Action::PwmCpuEnableRead => {
            reveal_strlit("pwm-cpu-enable-read");
        },
        Action::PwmGpuEnableRead => {
            reveal_strlit("pwm-gpu-enable-read");
        },
        Action::BootReapplyBattery => {
            reveal_strlit("boot-reapply-battery");
        },
        Action::SerialNumberRead => {
            reveal_strlit("serial-number-read");
        },
        Action::ChiconyRgb => {
            reveal_strlit("chicony-rgb");
        },
        Action::ChiconyColor => {
            reveal_strlit("chicony-color");
        },
        Action::ChiconySeq => {
            reveal_strlit("chicony-seq");
        },
        Action::ChiconyEffect => {
            reveal_strlit("chicony-effect");
        },
        Action::ModeCycle => {
            reveal_strlit("mode-cycle");
        },
        Action::ThermalProfile => {
            reveal_strlit("thermal-profile");
        },
        Action::BootReapplyThermal => {
            reveal_strlit("boot-reapply-thermal");
        },
        Action::TempLimitCaps => {
            reveal_strlit("temp-limit-caps");
        },
        Action::TempLimit => {
            reveal_strlit("temp-limit");
        },
        Action::BootReapplyTempLimit => {
            reveal_strlit("boot-reapply-temp-limit");
        },
        Action::DiscreteGpuMode => {
            reveal_strlit("discrete-gpu-mode");
        },
        Action::GrubSplashApply => {
            reveal_strlit("grub-splash-apply");
        },
        Action::GrubSplashReset => {
            reveal_strlit("grub-splash-reset");
        },
    }
}

/// The name of an action is one word.
pub proof fn law_every_name_is_one_word(a: Action)
    ensures
        words_of(a.wire_name()) == seq![a.wire_name()],
{
    let name = a.wire_name();
    lemma_name_is_solid(a);
    lemma_solid(name, 0);
    lemma_words_of_word(seq![], name, seq![]);
    assert(name + Seq::<char>::empty() =~= name);
    assert(Seq::<char>::empty() + name =~= name);
}

/// The first word of what an action's usage says is the action's name, the whole of it.
pub proof fn law_usage_starts_with_the_name(a: Action)
    ensures
        stands_at(a.usage_text(), a.wire_name(), 0),
        words_of(a.usage_text()).len() > 0,
        words_of(a.usage_text())[0] == a.wire_name(),
{
    let name = a.wire_name();
    let usage = a.usage_text();
    let rest = usage.skip(name.len() as int);
    lemma_usage_prefix(a);
    lemma_name_is_solid(a);
    lemma_solid(name, 0);
    lemma_words_of_word(seq![], name, rest);
    assert(usage =~= usage.subrange(0, name.len() as int) + rest);
    assert(Seq::<char>::empty() + name =~= name);
    if rest.len() > 0 {
        assert(rest[0] == usage[name.len() as int]);
    }
}

proof fn lemma_usage_prefix(a: Action)
    ensures
        stands_at(a.usage_text(), a.wire_name(), 0),
        a.usage_text().len() == a.wire_name().len() || a.usage_text()[a.wire_name().len() as int]
            == ' ',
{
    match a {
        Action::ApplyCpuProfile => {
            reveal_strlit("apply-cpu-profile");
            reveal_strlit("apply-cpu-profile GOVERNOR EPP|skip NO_TURBO|skip MIN_PERF|skip");
            assert("apply-cpu-profile GOVERNOR EPP|skip NO_TURBO|skip MIN_PERF|skip"@.subrange(0, 17) == "apply-cpu-profile"@);
        },
        Action::SetGovernor => {
            reveal_strlit("set-governor");
            reveal_strlit("set-governor GOVERNOR");
            assert("set-governor GOVERNOR"@.subrange(0, 12) == "set-governor"@);
        },
        Action::SetEpp => {
            reveal_strlit("set-epp");
            reveal_strlit("set-epp PREFERENCE");
            assert("set-epp PREFERENCE"@.subrange(0, 7) == "set-epp"@);
        },
        Action::SetGpuPower => {
            reveal_strlit("set-gpu-power");
            reveal_strlit("set-gpu-power WATTS");
            assert("set-gpu-power WATTS"@.subrange(0, 13) == "set-gpu-power"@);
        },
        Action::SetNoTurbo => {
            reveal_strlit("set-no-turbo");
            reveal_strlit("set-no-turbo 0|1");
            assert("set-no-turbo 0|1"@.subrange(0, 12) == "set-no-turbo"@);
        },
        Action::SetMinPerf => {
            reveal_strlit("set-min-perf");
            reveal_strlit("set-min-perf PERCENT");
            assert("set-min-perf PERCENT"@.subrange(0, 12) == "set-min-perf"@);
        },
        Action::FanAuto => {
            assert("fan-auto"@.subrange(0, "fan-auto"@.len() as int) == "fan-auto"@);
        },
        Action::FanMax => {
            assert("fan-max"@.subrange(0, "fan-max"@.len() as int) == "fan-max"@);
        },
        Action::FanModeRead => {
            assert("fan-mode-read"@.subrange(0, "fan-mode-read"@.len() as int) == "fan-mode-read"@);
        },
        Action::CoolBoost => {
            reveal_strlit("coolboost");
            reveal_strlit("coolboost 0|1");
            assert("coolboost 0|1"@.subrange(0, 9) == "coolboost"@);
        },
        Action::CoolBoostRead => {
            assert("coolboost-read"@.subrange(0, "coolboost-read"@.len() as int) == "coolboost-read"@);
        },
        Action::BatteryLimit => {
            reveal_strlit("bat-limit");
            reveal_strlit("bat-limit 0|1");
            assert("bat-limit 0|1"@.subrange(0, 9) == "bat-limit"@);
        },
        Action::BatteryLimitRead => {
            assert("bat-limit-read"@.subrange(0, "bat-limit-read"@.len() as int) == "bat-limit-read"@);
        },
        Action::BatteryHealth => {
            reveal_strlit("bat-health");
            reveal_strlit("bat-health 0|1");
            assert("bat-health 0|1"@.subrange(0, 10) == "bat-health"@);
        },
        Action::BatteryHealthRead => {
            assert("bat-health-read"@.subrange(0, "bat-health-read"@.len() as int) == "bat-health-read"@);
        },
        Action::BatteryCalibration => {
            reveal_strlit("bat-calibration");
            reveal_strlit("bat-calibration 0|1");
            assert("bat-calibration 0|1"@.subrange(0, 15) == "bat-calibration"@);
        },
        Action::LcdOverdrive => {
            reveal_strlit("lcd-overdrive");
            reveal_strlit("lcd-overdrive 0|1");
            assert("lcd-overdrive 0|1"@.subrange(0, 13) == "lcd-overdrive"@);
        },
        Action::LcdOverdriveRead => {
            assert("lcd-overdrive-read"@.subrange(0, "lcd-overdrive-read"@.len() as int) == "lcd-overdrive-read"@);
        },
        Action::BootAnimation => {
            reveal_strlit("boot-anim");
            reveal_strlit("boot-anim 0|1");
            assert("boot-anim 0|1"@.subrange(0, 9) == "boot-anim"@);
        },
        Action::BootAnimationRead => {
            assert("boot-anim-read"@.subrange(0, "boot-anim-read"@.len() as int) == "boot-anim-read"@);
        },
        Action::UsbCharging => {
            reveal_strlit("usb-charge");
            reveal_strlit("usb-charge 0|1");
            assert("usb-charge 0|1"@.subrange(0, 10) == "usb-charge"@);
        },
        Action::UsbChargingRead => {
            assert("usb-charge-read"@.subrange(0, "usb-charge-read"@.len() as int) == "usb-charge-read"@);
        },
        Action::BacklightTimeout => {
            reveal_strlit("backlight-timeout");
            reveal_strlit("backlight-timeout 0|1");
            assert("backlight-timeout 0|1"@.subrange(0, 17) == "backlight-timeout"@);
        },
        Action::BacklightTimeoutRead => {
            assert("backlight-timeout-read"@.subrange(0, "backlight-timeout-read"@.len() as int) == "backlight-timeout-read"@);
        },
        Action::ScreenBrightness => {
            reveal_strlit("screen-brightness");
            reveal_strlit("screen-brightness PERCENT");
            assert("screen-brightness PERCENT"@.subrange(0, 17) == "screen-brightness"@);
        },
        Action::PwmAvailable => {
            assert("pwm-available"@.subrange(0, "pwm-available"@.len() as int) == "pwm-available"@);
        },
        Action::PwmCpu => {
            reveal_strlit("pwm-cpu");
            reveal_strlit("pwm-cpu VALUE");
            assert("pwm-cpu VALUE"@.subrange(0, 7) == "pwm-cpu"@);
        },
        Action::PwmGpu => {
            reveal_strlit("pwm-gpu");
            reveal_strlit("pwm-gpu VALUE");
            assert("pwm-gpu VALUE"@.subrange(0, 7) == "pwm-gpu"@);
        },
        Action::PwmCpuRead => {
            assert("pwm-cpu-read"@.subrange(0, "pwm-cpu-read"@.len() as int) == "pwm-cpu-read"@);
        },
        Action::PwmGpuRead => {
            assert("pwm-gpu-read"@.subrange(0, "pwm-gpu-read"@.len() as int) == "pwm-gpu-read"@);
        },
        Action::PwmCpuEnable => {
            reveal_strlit("pwm-cpu-enable");
            reveal_strlit("pwm-cpu-enable 0|1|2");
            assert("pwm-cpu-enable 0|1|2"@.subrange(0, 14) == "pwm-cpu-enable"@);
        },
        Action::PwmGpuEnable => {
            reveal_strlit("pwm-gpu-enable");
            reveal_strlit("pwm-gpu-enable 0|1|2");
            assert("pwm-gpu-enable 0|1|2"@.subrange(0, 14) == "pwm-gpu-enable"@);
        },
        Action::PwmCpuEnableRead => {
            assert("pwm-cpu-enable-read"@.subrange(0, "pwm-cpu-enable-read"@.len() as int) == "pwm-cpu-enable-read"@);
        },
        Action::PwmGpuEnableRead => {
            assert("pwm-gpu-enable-read"@.subrange(0, "pwm-gpu-enable-read"@.len() as int) == "pwm-gpu-enable-read"@);
        },
        Action::BootReapplyBattery => {
            reveal_strlit("boot-reapply-battery");
            reveal_strlit("boot-reapply-battery USER_HOME");
            assert("boot-reapply-battery USER_HOME"@.subrange(0, 20) == "boot-reapply-battery"@);
        },
        Action::SerialNumberRead => {
            assert("serial-number-read"@.subrange(0, "serial-number-read"@.len() as int) == "serial-number-read"@);
        },
        Action::ChiconyRgb => {
            reveal_strlit("chicony-rgb");
            reveal_strlit("chicony-rgb EFFECT BRIGHTNESS COLOR SPEED");
            assert("chicony-rgb EFFECT BRIGHTNESS COLOR SPEED"@.subrange(0, 11) == "chicony-rgb"@);
        },
        Action::ChiconyColor => {
            reveal_strlit("chicony-color");
            reveal_strlit("chicony-color RED GREEN BLUE BRIGHTNESS");
            assert("chicony-color RED GREEN BLUE BRIGHTNESS"@.subrange(0, 13) == "chicony-color"@);
        },
        Action::ChiconySeq => {
            reveal_strlit("chicony-seq");
            reveal_strlit("chicony-seq HEXPACKETS");
            assert("chicony-seq HEXPACKETS"@.subrange(0, 11) == "chicony-seq"@);
        },
        Action::ChiconyEffect => {
            reveal_strlit("chicony-effect");
            reveal_strlit("chicony-effect OPCODE SPEED BRIGHTNESS RED GREEN BLUE DIRECTION");
            assert("chicony-effect OPCODE SPEED BRIGHTNESS RED GREEN BLUE DIRECTION"@.subrange(0, 14) == "chicony-effect"@);
        },
        Action::ModeCycle => {
            reveal_strlit("mode-cycle");
            reveal_strlit("mode-cycle AC|skip BATTERY|skip");
            assert("mode-cycle AC|skip BATTERY|skip"@.subrange(0, 10) == "mode-cycle"@);
        },
        Action::ThermalProfile => {
            reveal_strlit("thermal-profile");
            reveal_strlit("thermal-profile INDEX");
            assert("thermal-profile INDEX"@.subrange(0, 15) == "thermal-profile"@);
        },
        Action::BootReapplyThermal => {
            reveal_strlit("boot-reapply-thermal");
            reveal_strlit("boot-reapply-thermal USER_HOME");
            assert("boot-reapply-thermal USER_HOME"@.subrange(0, 20) == "boot-reapply-thermal"@);
        },
        Action::TempLimitCaps => {
            assert("temp-limit-caps"@.subrange(0, "temp-limit-caps"@.len() as int) == "temp-limit-caps"@);
        },
        Action::TempLimit => {
            reveal_strlit("temp-limit");
            reveal_strlit("temp-limit CELSIUS BOUND");
            assert("temp-limit CELSIUS BOUND"@.subrange(0, 10) == "temp-limit"@);
        },
        Action::BootReapplyTempLimit => {
            reveal_strlit("boot-reapply-temp-limit");
            reveal_strlit("boot-reapply-temp-limit USER_HOME");
            assert("boot-reapply-temp-limit USER_HOME"@.subrange(0, 23) == "boot-reapply-temp-limit"@);
        },
        Action::DiscreteGpuMode => {
            reveal_strlit("discrete-gpu-mode");
            reveal_strlit("discrete-gpu-mode 1|2");
            assert("discrete-gpu-mode 1|2"@.subrange(0, 17) == "discrete-gpu-mode"@);
        },
        Action::GrubSplashApply => {
            reveal_strlit("grub-splash-apply");
            reveal_strlit("grub-splash-apply EXT BASE64");
            assert("grub-splash-apply EXT BASE64"@.subrange(0, 17) == "grub-splash-apply"@);
        },
        Action::GrubSplashReset => {
            assert("grub-splash-reset"@.subrange(0, "grub-splash-reset"@.len() as int) == "grub-splash-reset"@);
        },
    }
}

/// A value reads back from the word it is sent as.
pub proof fn law_cpu_governor_round_trip(v: CpuGovernor)
    ensures
        CpuGovernor::named(v.wire_name()) == Some(v),
{
    law_cpu_governor_names_are_distinct(CpuGovernor::named(v.wire_name())->0, v);
}

/// A value reads back from the word it is sent as.
pub proof fn law_energy_preference_round_trip(v: EnergyPreference)
    ensures
        EnergyPreference::named(v.wire_name()) == Some(v),
{
    law_energy_preference_names_are_distinct(EnergyPreference::named(v.wire_name())->0, v);
}

/// A value reads back from the word it is sent as.
pub proof fn law_switch_round_trip(v: Switch)
    ensures
        Switch::named(v.wire_name()) == Some(v),
{
    law_switch_names_are_distinct(Switch::named(v.wire_name())->0, v);
}

/// A value reads back from the word it is sent as.
pub proof fn law_fan_mode_round_trip(v: FanMode)
    ensures
        FanMode::named(v.wire_name()) == Some(v),
{
    law_fan_mode_names_are_distinct(FanMode::named(v.wire_name())->0, v);
}

/// The action that reads a value back goes under the word of the one that sets it, with
/// `-read` behind it.
pub proof fn law_reading_back_goes_under_the_same_word()
    ensures
        Action::CoolBoostRead.wire_name() == Action::CoolBoost.wire_name() + "-read"@,
        Action::BatteryLimitRead.wire_name() == Action::BatteryLimit.wire_name() + "-read"@,
        Action::BatteryHealthRead.wire_name() == Action::BatteryHealth.wire_name() + "-read"@,
        Action::LcdOverdriveRead.wire_name() == Action::LcdOverdrive.wire_name() + "-read"@,
        Action::BootAnimationRead.wire_name() == Action::BootAnimation.wire_name() + "-read"@,
        Action::UsbChargingRead.wire_name() == Action::UsbCharging.wire_name() + "-read"@,
        Action::BacklightTimeoutRead.wire_name() == Action::BacklightTimeout.wire_name() + "-read"@,
        Action::PwmCpuRead.wire_name() == Action::PwmCpu.wire_name() + "-read"@,
        Action::PwmGpuRead.wire_name() == Action::PwmGpu.wire_name() + "-read"@,
        Action::PwmCpuEnableRead.wire_name() == Action::PwmCpuEnable.wire_name() + "-read"@,
        Action::PwmGpuEnableRead.wire_name() == Action::PwmGpuEnable.wire_name() + "-read"@,
{
    reveal_strlit("-read");
    reveal_strlit("coolboost");
    reveal_strlit("coolboost-read");
    reveal_strlit("bat-limit");
    reveal_strlit("bat-limit-read");
    reveal_strlit("bat-health");
    reveal_strlit("bat-health-read");
    reveal_strlit("lcd-overdrive");
    reveal_strlit("lcd-overdrive-read");
    reveal_strlit("boot-anim");
    reveal_strlit("boot-anim-read");
    reveal_strlit("usb-charge");
    reveal_strlit("usb-charge-read");
    reveal_strlit("backlight-timeout");
    reveal_strlit("backlight-timeout-read");
    reveal_strlit("pwm-cpu");
    reveal_strlit("pwm-cpu-read");
    reveal_strlit("pwm-gpu");
    reveal_strlit("pwm-gpu-read");
    reveal_strlit("pwm-cpu-enable");
    reveal_strlit("pwm-cpu-enable-read");
    reveal_strlit("pwm-gpu-enable");
    reveal_strlit("pwm-gpu-enable-read");
    assert("coolboost-read"@ =~= "coolboost"@ + "-read"@);
    assert("bat-limit-read"@ =~= "bat-limit"@ + "-read"@);
    assert("bat-health-read"@ =~= "bat-health"@ + "-read"@);
    assert("lcd-overdrive-read"@ =~= "lcd-overdrive"@ + "-read"@);
    assert("boot-anim-read"@ =~= "boot-anim"@ + "-read"@);
    assert("usb-charge-read"@ =~= "usb-charge"@ + "-read"@);
    assert("backlight-timeout-read"@ =~= "backlight-timeout"@ + "-read"@);
    assert("pwm-cpu-read"@ =~= "pwm-cpu"@ + "-read"@);
    assert("pwm-gpu-read"@ =~= "pwm-gpu"@ + "-read"@);
    assert("pwm-cpu-enable-read"@ =~= "pwm-cpu-enable"@ + "-read"@);
    assert("pwm-gpu-enable-read"@ =~= "pwm-gpu-enable"@ + "-read"@);
}

/// Every action goes under its own word.
pub proof fn law_actions_go_under_their_words()
    ensures
        Action::ApplyCpuProfile.wire_name() == "apply-cpu-profile"@,
        Action::SetGovernor.wire_name() == "set-governor"@,
        Action::SetEpp.wire_name() == "set-epp"@,
        Action::SetGpuPower.wire_name() == "set-gpu-power"@,
        Action::SetNoTurbo.wire_name() == "set-no-turbo"@,
        Action::SetMinPerf.wire_name() == "set-min-perf"@,
        Action::FanAuto.wire_name() == "fan-auto"@,
        Action::FanMax.wire_name() == "fan-max"@,
        Action::FanModeRead.wire_name() == "fan-mode-read"@,
        Action::CoolBoost.wire_name() == "coolboost"@,
        Action::CoolBoostRead.wire_name() == "coolboost-read"@,
        Action::BatteryLimit.wire_name() == "bat-limit"@,
        Action::BatteryLimitRead.wire_name() == "bat-limit-read"@,
        Action::BatteryHealth.wire_name() == "bat-health"@,
        Action::BatteryHealthRead.wire_name() == "bat-health-read"@,
        Action::BatteryCalibration.wire_name() == "bat-calibration"@,
        Action::LcdOverdrive.wire_name() == "lcd-overdrive"@,
        Action::LcdOverdriveRead.wire_name() == "lcd-overdrive-read"@,
        Action::BootAnimation.wire_name() == "boot-anim"@,
        Action::BootAnimationRead.wire_name() == "boot-anim-read"@,
        Action::UsbCharging.wire_name() == "usb-charge"@,
        Action::UsbChargingRead.wire_name() == "usb-charge-read"@,
        Action::BacklightTimeout.wire_name() == "backlight-timeout"@,
        Action::BacklightTimeoutRead.wire_name() == "backlight-timeout-read"@,
        Action::ScreenBrightness.wire_name() == "screen-brightness"@,
        Action::PwmAvailable.wire_name() == "pwm-available"@,
        Action::PwmCpu.wire_name() == "pwm-cpu"@,
        Action::PwmGpu.wire_name() == "pwm-gpu"@,
        Action::PwmCpuRead.wire_name() == "pwm-cpu-read"@,
        Action::PwmGpuRead.wire_name() == "pwm-gpu-read"@,
        Action::PwmCpuEnable.wire_name() == "pwm-cpu-enable"@,
        Action::PwmGpuEnable.wire_name() == "pwm-gpu-enable"@,
        Action::PwmCpuEnableRead.wire_name() == "pwm-cpu-enable-read"@,
        Action::PwmGpuEnableRead.wire_name() == "pwm-gpu-enable-read"@,
        Action::BootReapplyBattery.wire_name() == "boot-reapply-battery"@,
        Action::SerialNumberRead.wire_name() == "serial-number-read"@,
        Action::ChiconyRgb.wire_name() == "chicony-rgb"@,
        Action::ChiconyColor.wire_name() == "chicony-color"@,
        Action::ChiconySeq.wire_name() == "chicony-seq"@,
        Action::ChiconyEffect.wire_name() == "chicony-effect"@,
        Action::ModeCycle.wire_name() == "mode-cycle"@,
        Action::ThermalProfile.wire_name() == "thermal-profile"@,
        Action::BootReapplyThermal.wire_name() == "boot-reapply-thermal"@,
        Action::TempLimitCaps.wire_name() == "temp-limit-caps"@,
        Action::TempLimit.wire_name() == "temp-limit"@,
        Action::BootReapplyTempLimit.wire_name() == "boot-reapply-temp-limit"@,
        Action::DiscreteGpuMode.wire_name() == "discrete-gpu-mode"@,
        Action::GrubSplashApply.wire_name() == "grub-splash-apply"@,
        Action::GrubSplashReset.wire_name() == "grub-splash-reset"@,
{
}

/// What reads a value takes no argument; what switches, sets a number, picks a value or puts
/// something back takes one.
pub proof fn law_actions_take_what_they_need()
    ensures
        Action::CoolBoostRead.arity() == 0,
        Action::BatteryLimitRead.arity() == 0,
        Action::BatteryHealthRead.arity() == 0,
        Action::LcdOverdriveRead.arity() == 0,
        Action::BootAnimationRead.arity() == 0,
        Action::UsbChargingRead.arity() == 0,
        Action::BacklightTimeoutRead.arity() == 0,
        Action::PwmCpuRead.arity() == 0,
        Action::PwmGpuRead.arity() == 0,
        Action::PwmCpuEnableRead.arity() == 0,
        Action::PwmGpuEnableRead.arity() == 0,
        Action::FanAuto.arity() == 0 && Action::FanMax.arity() == 0 && Action::FanModeRead.arity() == 0,
        Action::PwmAvailable.arity() == 0 && Action::SerialNumberRead.arity() == 0,
        Action::TempLimitCaps.arity() == 0 && Action::GrubSplashReset.arity() == 0,
        Action::CoolBoost.arity() == 1,
        Action::BatteryLimit.arity() == 1,
        Action::BatteryHealth.arity() == 1,
        Action::LcdOverdrive.arity() == 1,
        Action::BootAnimation.arity() == 1,
        Action::UsbCharging.arity() == 1,
        Action::BacklightTimeout.arity() == 1,
        Action::PwmCpu.arity() == 1,
        Action::PwmGpu.arity() == 1,
        Action::PwmCpuEnable.arity() == 1,
        Action::PwmGpuEnable.arity() == 1,
        Action::SetGovernor.arity() == 1 && Action::SetEpp.arity() == 1,
        Action::SetGpuPower.arity() == 1 && Action::SetNoTurbo.arity() == 1,
        Action::SetMinPerf.arity() == 1 && Action::BatteryCalibration.arity() == 1,
        Action::ScreenBrightness.arity() == 1 && Action::ThermalProfile.arity() == 1,
        Action::DiscreteGpuMode.arity() == 1 && Action::ChiconySeq.arity() == 1,
        Action::BootReapplyBattery.arity() == 1 && Action::BootReapplyThermal.arity() == 1
            && Action::BootReapplyTempLimit.arity() == 1,
        Action::ModeCycle.arity() == 2 && Action::TempLimit.arity() == 2
            && Action::GrubSplashApply.arity() == 2,
        Action::ApplyCpuProfile.arity() == 4 && Action::ChiconyRgb.arity() == 4
            && Action::ChiconyColor.arity() == 4 && Action::ChiconyEffect.arity() == 7,
{
}

/// The words of the values, as the kernel and the helper's callers write them.
pub proof fn law_values_go_under_their_words()
    ensures
        CpuGovernor::Powersave.wire_name() == "powersave"@,
        CpuGovernor::Performance.wire_name() == "performance"@,
        EnergyPreference::RawPerformance.wire_name() == "0"@,
        EnergyPreference::Default.wire_name() == "default"@,
        EnergyPreference::Performance.wire_name() == "performance"@,
        EnergyPreference::BalancePerformance.wire_name() == "balance_performance"@,
        EnergyPreference::BalancePower.wire_name() == "balance_power"@,
        EnergyPreference::Power.wire_name() == "power"@,
        Switch::Disabled.wire_name() == "0"@,
        Switch::Enabled.wire_name() == "1"@,
        FanMode::Automatic.wire_name() == "auto"@,
        FanMode::Maximum.wire_name() == "max"@,
        PwmControlMode::FullSpeed.wire_name() == "0"@,
        PwmControlMode::Manual.wire_name() == "1"@,
        PwmControlMode::Automatic.wire_name() == "2"@,
        OPTIONAL_VALUE_SKIP@ == "skip"@,
        PERCENT_MAX == 100 && PWM_VALUE_MAX == 255,
        BATTERY_LIMIT_ENABLED_PERCENT == 80 && BATTERY_LIMIT_DISABLED_PERCENT == 100,
{
}

} // verus!
