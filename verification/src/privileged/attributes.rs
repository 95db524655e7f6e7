//! The smaller attributes: battery, fans, panel brightness and the embedded controller.

use vstd::prelude::*;

use crate::number::{decimal, decimal_text, decimal_value, parse_u16_text, parse_u32};
use crate::paths::{join_path, joined_path};
use crate::privileged::constants::{
    EcRegister, FanPreset, PwmAttribute, BATTERY_LIMIT_DISABLED, BATTERY_LIMIT_DISABLED_PERCENT,
    BATTERY_LIMIT_ENABLED, BATTERY_LIMIT_ENABLED_PERCENT,
};
use crate::privileged::cpu_apply::{writes_view, CpuWrite, Write};
use crate::privileged::messages::{fail, failure};
use crate::protocol::battery::{CHARGE_LIMIT_ATTRIBUTE, POWER_SUPPLY_CLASS};
use crate::text::{cat2, cat4, reading, same, text_of, trim, trimmed};

verus! {

/// What the battery limiter writes.
pub fn battery_limit_value(enabled: bool) -> (r: &'static str)
    ensures
        r@ == (if enabled {
            "80"@
        } else {
            "100"@
        }),
        // Reading the limiter back shows the switch that was set.
        limited(Some(r@.push('\n'))) == enabled,
{
    proof {
        lemma_limits_read_back();
    }
    if enabled {
        BATTERY_LIMIT_ENABLED
    } else {
        BATTERY_LIMIT_DISABLED
    }
}

/// Whether the charge ceiling, as its attribute shows it (where there is one that can be
/// read), is that of an enabled limiter.
pub open spec fn limited(contents: Option<Seq<char>>) -> bool {
    let percent = match contents {
        Some(text) => match decimal_value(trimmed(text), 0xffff) {
            Some(n) => n,
            None => BATTERY_LIMIT_DISABLED_PERCENT as nat,
        },
        None => BATTERY_LIMIT_DISABLED_PERCENT as nat,
    };
    percent <= BATTERY_LIMIT_ENABLED_PERCENT
}

/// What reading the battery limiter prints.
pub fn battery_limit_read(contents: &Option<String>) -> (r: &'static str)
    ensures
        r@ == (if limited(text_of(*contents)) {
            "1"@
        } else {
            "0"@
        }),
        contents is None ==> r@ == "0"@,
{
    let percent: u16 = match contents {
        Some(text) => match parse_u16_text(trim(text.as_str()).as_str()) {
            Some(n) => n,
            None => BATTERY_LIMIT_DISABLED_PERCENT,
        },
        None => BATTERY_LIMIT_DISABLED_PERCENT,
    };
    if percent <= BATTERY_LIMIT_ENABLED_PERCENT {
        "1"
    } else {
        "0"
    }
}

/// What reading a switch prints: what it holds, or `0` where it cannot be read.
pub fn switch_read(contents: &Option<String>) -> (r: String)
    ensures
        r@ == (match text_of(*contents) {
            Some(text) => trimmed(text),
            None => "0"@,
        }),
{
    match contents {
        Some(text) => trim(text.as_str()),
        None => "0".to_owned(),
    }
}

/// The charge ceiling to write, or an error that says where it was looked for.
pub fn battery_threshold(sysfs: &str, found: Option<String>) -> (r: Result<String, String>)
    ensures
        reading(r) == (match text_of(found) {
            Some(path) => Ok(path),
            None => Err(
                failure(
                    "no battery "@ + CHARGE_LIMIT_ATTRIBUTE@ + " attribute found under "@
                        + joined_path(sysfs@, POWER_SUPPLY_CLASS@),
                ),
            ),
        }),
{
    match found {
        Some(path) => Ok(path),
        None => Err(
            fail(
                cat4(
                    "no battery ",
                    CHARGE_LIMIT_ATTRIBUTE,
                    " attribute found under ",
                    join_path(sysfs, POWER_SUPPLY_CLASS).as_str(),
                ).as_str(),
            ),
        ),
    }
}

/// The health-mode control to write, or an error.
pub fn health_mode(sysfs: &str, found: Option<String>) -> (r: Result<String, String>)
    ensures
        reading(r) == (match text_of(found) {
            Some(path) => Ok(path),
            None => Err(
                failure("no usable battery health-mode control found under "@ + sysfs@),
            ),
        }),
{
    match found {
        Some(path) => Ok(path),
        None => Err(
            fail(cat2("no usable battery health-mode control found under ", sysfs).as_str()),
        ),
    }
}

/// What is written for a panel brightness, given what `max_brightness` holds: the percentage
/// of whatever this panel reports.
pub open spec fn raw_brightness(percent: u16, max: Seq<char>) -> Result<Seq<char>, Seq<char>> {
    match decimal_value(trimmed(max), 0xffff_ffff) {
        Some(m) => Ok(decimal_text(((percent * m) / 100) as nat)),
        None => Err(failure("screen-brightness: unreadable max_brightness"@)),
    }
}

/// What is written for a panel brightness.
pub fn screen_brightness(percent: u16, max: &str) -> (r: Result<String, String>)
    ensures
        reading(r) == raw_brightness(percent, max@),
{
    match parse_u32(trim(max).as_str()) {
        Some(m) => {
            assert(percent * m <= 0xffff * 0xffff_ffff) by (nonlinear_arith)
                requires
                    percent <= 0xffff,
                    m <= 0xffff_ffff,
            ;
            let raw: u64 = (percent as u64 * m as u64) / 100;
            Ok(decimal(raw))
        },
        None => Err(fail("screen-brightness: unreadable max_brightness")),
    }
}

/// One entry of the hardware monitor class.
pub struct HwmonEntry {
    pub path: String,
    /// What its `name` holds, where it can be read.
    pub name: Option<String>,
    /// Whether it has the CPU fan's `pwm1`.
    pub has_pwm: bool,
    /// Whether it has the CPU fan's `pwm1_enable`.
    pub has_pwm_enable: bool,
}

/// Whether an entry is the Acer monitor with fan control.
pub open spec fn is_acer_hwmon(entry: HwmonEntry) -> bool {
    entry.name is Some && trimmed(entry.name->0@) == "acer"@ && entry.has_pwm
}

/// The first Acer monitor with fan control.
pub open spec fn first_acer_hwmon(entries: Seq<HwmonEntry>) -> Option<int>
    decreases entries.len(),
{
    if entries.len() == 0 {
        None
    } else if is_acer_hwmon(entries[0]) {
        Some(0)
    } else {
        match first_acer_hwmon(entries.drop_first()) {
            Some(i) => Some(i + 1),
            None => None,
        }
    }
}

/// The first Acer monitor with fan control.
pub fn acer_hwmon(entries: &Vec<HwmonEntry>) -> (r: Option<usize>)
    ensures
        match r {
            Some(i) => i < entries@.len() && first_acer_hwmon(entries@) == Some(i as int),
            None => first_acer_hwmon(entries@) is None,
        },
{
    let mut i: usize = 0;
    assert(entries@.skip(0) == entries@);
    while i < entries.len()
        invariant
            i <= entries@.len(),
            first_acer_hwmon(entries@) == (match first_acer_hwmon(entries@.skip(i as int)) {
                Some(k) => Some(k + i),
                None => None,
            }),
        decreases entries@.len() - i,
    {
        let ghost rest = entries@.skip(i as int);
        assert(rest[0] == entries@[i as int]);
        assert(rest.drop_first() == entries@.skip(i + 1));
        let named = match &entries[i].name {
            Some(text) => same(trim(text.as_str()).as_str(), "acer"),
            None => false,
        };
        if named && entries[i].has_pwm {
            return Some(i);
        }
        i = i + 1;
    }
    None
}

/// The monitor whose `pwmN_enable` drives the fan presets, where the kernel has it.
pub fn hwmon_fan_enable_dir(entries: &Vec<HwmonEntry>) -> (r: Option<usize>)
    ensures
        match r {
            Some(i) => i < entries@.len() && first_acer_hwmon(entries@) == Some(i as int)
                && entries@[i as int].has_pwm_enable,
            None => match first_acer_hwmon(entries@) {
                Some(i) => !entries@[i].has_pwm_enable,
                None => true,
            },
        },
{
    match acer_hwmon(entries) {
        Some(i) => if entries[i].has_pwm_enable {
            Some(i)
        } else {
            None
        },
        None => None,
    }
}

/// What a preset writes into `pwmN_enable`: 2 for automatic, 0 for full speed.
pub open spec fn preset_value(preset: FanPreset) -> Seq<char> {
    match preset {
        FanPreset::Automatic => "2"@,
        FanPreset::Maximum => "0"@,
    }
}

/// What a preset writes into `pwmN_enable`.
pub fn fan_preset_value(preset: FanPreset) -> (r: &'static str)
    ensures
        r@ == preset_value(preset),
{
    match preset {
        FanPreset::Automatic => "2",
        FanPreset::Maximum => "0",
    }
}

/// What setting a preset writes, in order; the first failure stops it.
#[derive(Debug)]
pub enum PresetWrites {
    Attributes(Vec<CpuWrite>),
    Registers([(EcRegister, u8); 2]),
}

/// What setting a preset writes: the fans' control attributes where the monitor with them
/// exists, and the registers of the embedded controller otherwise.
pub fn set_fan_preset(hwmon: &Option<String>, preset: FanPreset) -> (r: PresetWrites)
    ensures
        match hwmon {
            Some(dir) => r matches PresetWrites::Attributes(writes) && writes_view(writes@) == seq![
                (Write {
                    label: "pwm1_enable"@,
                    value: preset_value(preset),
                    path: joined_path(dir@, "pwm1_enable"@),
                }),
                (Write {
                    label: "pwm2_enable"@,
                    value: preset_value(preset),
                    path: joined_path(dir@, "pwm2_enable"@),
                }),
            ],
            None => r matches PresetWrites::Registers(values) && values@ == seq![
                (EcRegister::CpuFanMode, preset.cpu_value()),
                (EcRegister::GpuFanMode, preset.gpu_value()),
            ],
        },
{
    match hwmon {
        Some(dir) => {
            let cpu = CpuWrite {
                label: "pwm1_enable".to_owned(),
                value: fan_preset_value(preset).to_owned(),
                path: join_path(dir.as_str(), PwmAttribute::CpuEnable.file_name()),
            };
            let gpu = CpuWrite {
                label: "pwm2_enable".to_owned(),
                value: fan_preset_value(preset).to_owned(),
                path: join_path(dir.as_str(), PwmAttribute::GpuEnable.file_name()),
            };
            let mut writes: Vec<CpuWrite> = Vec::new();
            let ghost first = cpu.as_write();
            let ghost second = gpu.as_write();
            writes.push(cpu);
            writes.push(gpu);
            assert(writes_view(writes@) =~= seq![first, second]);
            PresetWrites::Attributes(writes)
        },
        None => PresetWrites::Registers(preset.ec_values()),
    }
}

/// The preset that `pwm1_enable` shows. A fan that is driven by percentage shows none.
pub open spec fn preset_shown(value: Seq<char>) -> Option<FanPreset> {
    if trimmed(value) == "2"@ {
        Some(FanPreset::Automatic)
    } else if trimmed(value) == "0"@ {
        Some(FanPreset::Maximum)
    } else {
        None
    }
}

/// The preset that `pwm1_enable` shows.
pub fn read_fan_preset(value: &str) -> (r: Option<FanPreset>)
    ensures
        r == preset_shown(value@),
{
    let text = trim(value);
    if same(text.as_str(), "2") {
        Some(FanPreset::Automatic)
    } else if same(text.as_str(), "0") {
        Some(FanPreset::Maximum)
    } else {
        None
    }
}

/// A preset set through the monitor reads back through it.
pub proof fn law_preset_survives_the_monitor(preset: FanPreset)
    ensures
        preset_shown(preset_value(preset).push('\n')) == Some(preset),
{
    reveal_strlit("2");
    reveal_strlit("0");
    assert("2"@[0] == '2');
    assert("0"@[0] == '0');
    crate::text::lemma_trimmed_line("2"@);
    crate::text::lemma_trimmed_line("0"@);
}

/// What reading the fan mode prints.
pub fn fan_mode_text(preset: Option<FanPreset>) -> (r: &'static str)
    ensures
        r@ == (match preset {
            Some(p) => p.wire_name(),
            None => "unknown"@,
        }),
{
    match preset {
        Some(p) => p.as_str(),
        None => "unknown",
    }
}

/// The error where there is no Acer monitor with fan control.
pub fn no_pwm() -> (r: String)
    ensures
        r@ == failure("Acer PWM hwmon not found"@),
{
    fail("Acer PWM hwmon not found")
}

proof fn lemma_limits_read_back()
    ensures
        limited(Some("80"@.push('\n'))),
        !limited(Some("100"@.push('\n'))),
{
    reveal_strlit("80");
    reveal_strlit("100");
    assert("80"@ =~= seq!['8', '0']);
    assert("100"@ =~= seq!['1', '0', '0']);
    assert(decimal_text(8) =~= seq!['8']);
    assert(decimal_text(80) =~= seq!['8', '0']);
    assert(decimal_text(1) =~= seq!['1']);
    assert(decimal_text(10) =~= seq!['1', '0']);
    assert(decimal_text(100) =~= seq!['1', '0', '0']);
    law_limiter_is_on_up_to_eighty(80);
    law_limiter_is_on_up_to_eighty(100);
}

/// A charge ceiling of up to eighty percent is that of an enabled limiter, a higher one is
/// not; a ceiling that cannot be read limits nothing.
pub proof fn law_limiter_is_on_up_to_eighty(percent: u16)
    ensures
        limited(Some(decimal_text(percent as nat).push('\n'))) <==> percent <= 80,
        !limited(None),
{
    let digits = decimal_text(percent as nat);
    crate::number::lemma_decimal_text(percent as nat);
    crate::number::lemma_digits_not_space(digits, 10);
    crate::number::law_decimal_round_trip(percent as nat, 0xffff);
    crate::text::lemma_trimmed_line(digits);
}

/// A panel is set to its share of what it reports: all of it at a hundred percent, nothing at
/// none, and never off by as much as one step.
pub proof fn law_brightness_is_the_share_of_the_panel(percent: u16, max: u32)
    ensures
        ({
            let max_text = decimal_text(max as nat).push('\n');
            exists|raw: nat|
                raw_brightness(percent, max_text) == Ok::<Seq<char>, Seq<char>>(
                    #[trigger] decimal_text(raw),
                ) && 100 * raw <= percent * max < 100 * raw + 100
        }),
        raw_brightness(100, decimal_text(max as nat).push('\n')) == Ok::<Seq<char>, Seq<char>>(
            decimal_text(max as nat),
        ),
{
    let digits = decimal_text(max as nat);
    crate::number::lemma_decimal_text(max as nat);
    crate::number::lemma_digits_not_space(digits, 10);
    crate::number::law_decimal_round_trip(max as nat, 0xffff_ffff);
    crate::text::lemma_trimmed_line(digits);
    assert(0 <= percent * max) by (nonlinear_arith)
        requires
            0 <= percent,
            0 <= max,
    ;
    let raw = ((percent * max) / 100) as nat;
    assert(raw_brightness(percent, digits.push('\n')) == Ok::<Seq<char>, Seq<char>>(
        decimal_text(raw),
    ));
}

/// The monitor that drives the fans is the first one named `acer` that has the CPU fan's
/// `pwm1`, and none where no monitor is both.
pub proof fn law_first_acer_monitor_is_found(entries: Seq<HwmonEntry>)
    ensures
        match first_acer_hwmon(entries) {
            Some(i) => 0 <= i < entries.len() && entries[i].has_pwm && entries[i].name is Some
                && trimmed(entries[i].name->0@) == "acer"@ && (forall|k: int|
                0 <= k < i ==> !(#[trigger] entries[k]).has_pwm || entries[k].name is None
                    || trimmed(entries[k].name->0@) != "acer"@),
            None => forall|k: int|
                0 <= k < entries.len() ==> !(#[trigger] entries[k]).has_pwm || entries[k].name
                    is None || trimmed(entries[k].name->0@) != "acer"@,
        },
    decreases entries.len(),
{
    if entries.len() > 0 && !is_acer_hwmon(entries[0]) {
        let rest = entries.drop_first();
        law_first_acer_monitor_is_found(rest);
        assert forall|k: int| 0 < k < entries.len() implies #[trigger] entries[k] == rest[k - 1] by {}
        assert(forall|k: int| 0 <= k < rest.len() ==> rest[k] == #[trigger] entries[k + 1]);
    }
}

/// The monitor's control is two for automatic and zero for full speed, and nothing else
/// shows a preset.
pub proof fn law_monitor_presets_are_two_and_zero(value: Seq<char>)
    ensures
        preset_value(FanPreset::Automatic) == "2"@,
        preset_value(FanPreset::Maximum) == "0"@,
        preset_shown(value) == Some(FanPreset::Automatic) <==> trimmed(value) == "2"@,
        preset_shown(value) == Some(FanPreset::Maximum) <==> trimmed(value) == "0"@,
{
    reveal_strlit("2");
    reveal_strlit("0");
    assert("2"@[0] == '2' && "0"@[0] == '0');
}

} // verus!
