//! The machine as the helper addresses it.

use vstd::prelude::*;

use crate::paths::{same_path, same_place};
use crate::protocol::helper;

verus! {

pub const REAL_SYSFS: &'static str = "/sys";

/// Whether a sysfs is that of the machine itself, and not a tree that stands for it.
pub open spec fn is_the_machine(sysfs: Seq<char>) -> bool {
    same_place(sysfs, REAL_SYSFS@)
}

/// Whether a sysfs is that of the machine itself. Only that one has modules to load, a
/// register whose first value is worth a record, and a lock that others look at.
pub fn is_real_sysfs(sysfs: &str) -> (r: bool)
    ensures
        r == is_the_machine(sysfs@),
{
    same_path(sysfs, REAL_SYSFS)
}

pub const EC_DEVICE: &'static str = "/dev/ec";

pub const CPU_PERCENT_MIN: u16 = 0;

pub const CPU_PERCENT_MAX: u16 = helper::PERCENT_MAX;

pub const GPU_POWER_MIN_WATTS: u16 = 1;

pub const GPU_POWER_MAX_WATTS: u16 = 1000;

pub const PWM_MIN: u16 = 0;

pub const PWM_MAX: u16 = helper::PWM_VALUE_MAX;

pub const PWM_ENABLE_MIN: u16 = 0;

pub const PWM_ENABLE_MAX: u16 = 2;

pub const BATTERY_LIMIT_ENABLED: &'static str = "80";

pub const BATTERY_LIMIT_DISABLED: &'static str = "100";

pub const BATTERY_LIMIT_ENABLED_PERCENT: u16 = helper::BATTERY_LIMIT_ENABLED_PERCENT;

pub const BATTERY_LIMIT_DISABLED_PERCENT: u16 = helper::BATTERY_LIMIT_DISABLED_PERCENT;

pub const NVIDIA_SMI: &'static str = "nvidia-smi";

pub const MODPROBE: &'static str = "modprobe";

pub const UPDATE_GRUB: &'static str = "update-grub";

pub const GRUB_MKCONFIG: &'static str = "grub-mkconfig";

pub const GRUB2_MKCONFIG: &'static str = "grub2-mkconfig";

/// Relative to the file system root.
pub const GRUB_DEFAULTS: &'static str = "etc/default/grub";

/// What [`GRUB_DEFAULTS`] held before it was first touched.
pub const GRUB_DEFAULTS_BACKUP: &'static str = "etc/default/grub.predator-sense-bak";

/// Where GRUB's generated configuration may be, in the order it is looked for.
pub const GRUB_CFG_CANDIDATES: [&'static str; 2] = ["boot/grub/grub.cfg", "boot/grub2/grub.cfg"];

pub const PRODUCT_NAME: &'static str = "/sys/class/dmi/id/product_name";

/// Registers of the embedded controller.
#[derive(Debug, Clone, Copy, PartialEq, Eq, Structural)]
pub enum EcRegister {
    CoolBoost,
    BootAnimation,
    UsbCharging,
    CpuFanMode,
    GpuFanMode,
    LcdOverdrive,
}

impl EcRegister {
    /// Where the register lies.
    pub open spec fn address(self) -> u64 {
        match self {
            EcRegister::CoolBoost => 0x10,
            EcRegister::BootAnimation => 0x1a,
            EcRegister::UsbCharging => 0x1b,
            EcRegister::CpuFanMode => 0x21,
            EcRegister::GpuFanMode => 0x22,
            EcRegister::LcdOverdrive => 0x29,
        }
    }

    /// Where the register lies.
    pub fn offset(self) -> (r: u64)
        ensures
            r == self.address(),
    {
        match self {
            EcRegister::CoolBoost => 0x10,
            EcRegister::BootAnimation => 0x1a,
            EcRegister::UsbCharging => 0x1b,
            EcRegister::CpuFanMode => 0x21,
            EcRegister::GpuFanMode => 0x22,
            EcRegister::LcdOverdrive => 0x29,
        }
    }
}

/// No two registers share an address.
pub proof fn law_registers_are_apart(a: EcRegister, b: EcRegister)
    requires
        a.address() == b.address(),
    ensures
        a == b,
{
}

/// The presets the firmware itself knows for both fans.
#[derive(Debug, Clone, Copy, PartialEq, Eq, Structural)]
pub enum FanPreset {
    Automatic,
    Maximum,
}

impl FanPreset {
    /// What the preset puts into the CPU fan's register.
    pub open spec fn cpu_value(self) -> u8 {
        match self {
            FanPreset::Automatic => 0x50,
            FanPreset::Maximum => 0x60,
        }
    }

    /// What the preset puts into the GPU fan's register.
    pub open spec fn gpu_value(self) -> u8 {
        match self {
            FanPreset::Automatic => 0x54,
            FanPreset::Maximum => 0x58,
        }
    }

    /// The registers that hold the preset and what each is set to, in the order they are
    /// written.
    pub fn ec_values(self) -> (r: [(EcRegister, u8); 2])
        ensures
            r@ == seq![
                (EcRegister::CpuFanMode, self.cpu_value()),
                (EcRegister::GpuFanMode, self.gpu_value()),
            ],
    {
        match self {
            FanPreset::Automatic => [(EcRegister::CpuFanMode, 0x50), (EcRegister::GpuFanMode, 0x54)],
            FanPreset::Maximum => [(EcRegister::CpuFanMode, 0x60), (EcRegister::GpuFanMode, 0x58)],
        }
    }

    /// The preset that the CPU fan's register shows.
    pub open spec fn shown_by(value: u8) -> Option<FanPreset> {
        if value == 0x50 {
            Some(FanPreset::Automatic)
        } else if value == 0x60 {
            Some(FanPreset::Maximum)
        } else {
            None
        }
    }

    /// The preset that the CPU fan's register shows.
    pub fn from_cpu_register(value: u8) -> (r: Option<Self>)
        ensures
            r == FanPreset::shown_by(value),
    {
        if value == 0x50 {
            Some(FanPreset::Automatic)
        } else if value == 0x60 {
            Some(FanPreset::Maximum)
        } else {
            None
        }
    }

    /// The preset's name on the wire.
    pub open spec fn wire_name(self) -> Seq<char> {
        match self {
            FanPreset::Automatic => "auto"@,
            FanPreset::Maximum => "max"@,
        }
    }

    /// The preset's name on the wire.
    pub fn as_str(self) -> (r: &'static str)
        ensures
            r@ == self.wire_name(),
    {
        match self {
            FanPreset::Automatic => "auto",
            FanPreset::Maximum => "max",
        }
    }
}

/// A preset reads back from the register it was written to.
pub proof fn law_preset_reads_back(preset: FanPreset)
    ensures
        FanPreset::shown_by(preset.cpu_value()) == Some(preset),
{
}

/// The fan attributes of the Acer hardware monitor.
#[derive(Debug, Clone, Copy, PartialEq, Eq, Structural)]
pub enum PwmAttribute {
    Cpu,
    Gpu,
    CpuEnable,
    GpuEnable,
}

impl PwmAttribute {
    /// The attribute's file.
    pub open spec fn file(self) -> Seq<char> {
        match self {
            PwmAttribute::Cpu => "pwm1"@,
            PwmAttribute::Gpu => "pwm2"@,
            PwmAttribute::CpuEnable => "pwm1_enable"@,
            PwmAttribute::GpuEnable => "pwm2_enable"@,
        }
    }

    /// The attribute's file.
    pub fn file_name(self) -> (r: &'static str)
        ensures
            r@ == self.file(),
    {
        match self {
            PwmAttribute::Cpu => "pwm1",
            PwmAttribute::Gpu => "pwm2",
            PwmAttribute::CpuEnable => "pwm1_enable",
            PwmAttribute::GpuEnable => "pwm2_enable",
        }
    }

    /// The least and the greatest value the attribute takes.
    pub open spec fn limits(self) -> (u16, u16) {
        match self {
            PwmAttribute::Cpu | PwmAttribute::Gpu => (PWM_MIN, PWM_MAX),
            PwmAttribute::CpuEnable | PwmAttribute::GpuEnable => (PWM_ENABLE_MIN, PWM_ENABLE_MAX),
        }
    }

    /// The least and the greatest value the attribute takes.
    pub fn range(self) -> (r: (u16, u16))
        ensures
            r == self.limits(),
    {
        match self {
            PwmAttribute::Cpu | PwmAttribute::Gpu => (PWM_MIN, PWM_MAX),
            PwmAttribute::CpuEnable | PwmAttribute::GpuEnable => (PWM_ENABLE_MIN, PWM_ENABLE_MAX),
        }
    }
}

/// The registers lie where the firmware has them.
pub proof fn law_registers_lie_where_the_firmware_has_them()
    ensures
        EcRegister::CoolBoost.address() == 0x10,
        EcRegister::BootAnimation.address() == 0x1a,
        EcRegister::UsbCharging.address() == 0x1b,
        EcRegister::CpuFanMode.address() == 0x21,
        EcRegister::GpuFanMode.address() == 0x22,
        EcRegister::LcdOverdrive.address() == 0x29,
{
}

/// What the presets put into the two fan registers, under which names they go, and that no
/// other value of the CPU fan's register shows one.
pub proof fn law_presets_are_the_firmwares(value: u8)
    ensures
        FanPreset::Automatic.cpu_value() == 0x50 && FanPreset::Automatic.gpu_value() == 0x54,
        FanPreset::Maximum.cpu_value() == 0x60 && FanPreset::Maximum.gpu_value() == 0x58,
        FanPreset::Automatic.wire_name() == "auto"@,
        FanPreset::Maximum.wire_name() == "max"@,
        FanPreset::shown_by(value) == Some(FanPreset::Automatic) <==> value == 0x50,
        FanPreset::shown_by(value) == Some(FanPreset::Maximum) <==> value == 0x60,
{
}

/// The first fan of the monitor is the CPU's and the second the GPU's; a speed is a byte, and
/// a control takes the three values the kernel knows.
pub proof fn law_fan_attributes_are_the_monitors()
    ensures
        PwmAttribute::Cpu.file() == "pwm1"@ && PwmAttribute::Gpu.file() == "pwm2"@,
        PwmAttribute::CpuEnable.file() == "pwm1_enable"@ && PwmAttribute::GpuEnable.file()
            == "pwm2_enable"@,
        PwmAttribute::Cpu.limits() == (0u16, 255u16) && PwmAttribute::Gpu.limits() == (0u16, 255u16),
        PwmAttribute::CpuEnable.limits() == (0u16, 2u16) && PwmAttribute::GpuEnable.limits() == (
            0u16,
            2u16,
        ),
{
}

/// The limits of what the helper takes and the files it works on.
pub proof fn law_helper_limits_and_files()
    ensures
        CPU_PERCENT_MIN == 0 && CPU_PERCENT_MAX == 100,
        GPU_POWER_MIN_WATTS == 1 && GPU_POWER_MAX_WATTS == 1000,
        BATTERY_LIMIT_ENABLED_PERCENT == 80 && BATTERY_LIMIT_DISABLED_PERCENT == 100,
        BATTERY_LIMIT_ENABLED@ == "80"@ && BATTERY_LIMIT_DISABLED@ == "100"@,
        REAL_SYSFS@ == "/sys"@,
        EC_DEVICE@ == "/dev/ec"@,
        NVIDIA_SMI@ == "nvidia-smi"@,
        MODPROBE@ == "modprobe"@,
        UPDATE_GRUB@ == "update-grub"@,
        GRUB_MKCONFIG@ == "grub-mkconfig"@,
        GRUB2_MKCONFIG@ == "grub2-mkconfig"@,
        GRUB_DEFAULTS@ == "etc/default/grub"@,
        GRUB_DEFAULTS_BACKUP@ == "etc/default/grub.predator-sense-bak"@,
        GRUB_CFG_CANDIDATES@[0]@ == "boot/grub/grub.cfg"@,
        GRUB_CFG_CANDIDATES@[1]@ == "boot/grub2/grub.cfg"@,
        PRODUCT_NAME@ == "/sys/class/dmi/id/product_name"@,
{
}

} // verus!
