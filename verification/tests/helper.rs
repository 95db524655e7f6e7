use std::collections::{BTreeMap, BTreeSet};

use predator_sense::privileged::attributes::{
    acer_hwmon, battery_limit_read, battery_limit_value, battery_threshold, fan_mode_text,
    health_mode, hwmon_fan_enable_dir, no_pwm, read_fan_preset, screen_brightness, set_fan_preset,
    switch_read, HwmonEntry, PresetWrites,
};
use predator_sense::privileged::boot::{
    reapply_battery, reapply_thermal, settle, Place, RestoreStep, SavedBattery, ThermalRestore,
};
use predator_sense::privileged::capability::{
    temp_limit_capability, CapabilityEvent, CapabilityStage,
};
use predator_sense::privileged::commands::{
    command_result, persistence_args, power_limit_args, set_gpu_power_limit,
};
use predator_sense::privileged::constants::{
    is_real_sysfs, EcRegister, FanPreset, PwmAttribute, BATTERY_LIMIT_DISABLED, BATTERY_LIMIT_ENABLED, NVIDIA_SMI,
    PWM_MAX, PWM_MIN,
};
use predator_sense::privileged::cpu_apply::{
    preflight_cpu_profile, set_governor_writes, set_preference_writes, snapshot_cpu_profile,
    CpuContext, CpuFacts, CpuWrite, PolicyFacts, PolicyPreference,
};
use predator_sense::privileged::cpu_lock::{acquire, lock_open_failed, lock_path, LockAttempt};
use predator_sense::privileged::cpu_profile::{
    cpu_policy_dirs, CpuProfileRequest, AVAILABLE_ENERGY_PREFERENCES, AVAILABLE_GOVERNORS,
    CPUFREQ_RELATIVE_DIR, CPUINFO_MAX_FREQ, CPUINFO_MIN_FREQ, ENERGY_PREFERENCE,
    INTEL_PSTATE_MIN_PERF, INTEL_PSTATE_NO_TURBO, INTEL_PSTATE_STATUS, SCALING_DRIVER,
    SCALING_GOVERNOR,
};
use predator_sense::privileged::cpu_verify::{
    cpu_profile_change, verify_cpu_profile, Next, PolicyReadBack, ReadBack, Stage,
};
use predator_sense::privileged::daemon::{
    command_words, reply_for, test_root, unreadable_reply, wants_daemon,
};
use predator_sense::privileged::ec::{ec_open_failed, ec_read_failed, ec_write_failed};
use predator_sense::privileged::job::{plan, Attribute, Job};
use predator_sense::privileged::messages::{
    bool_str, fail, parse_bool, parse_u16, read_attr, write_failed,
};
use predator_sense::privileged::mode_cycle::{mode_cycle_failed, mode_cycle_path, mode_cycle_text};
use predator_sense::privileged::temp_ceiling::{
    ceiling_step, coretemp_celsius, coretemp_device, ensure_readable, offset_to_put_back,
    read_offsets, reapply_temp_limit, tcc_cooling_device, tcc_factory_offset, temp_limit_caps,
    temp_limit_confirm, temp_limit_offset, temp_limit_request, CeilingStage, ClassEntry,
    FactoryRecord, Restore,
};
use predator_sense::protocol::helper::{
    Action, CpuGovernor, EnergyPreference, OPTIONAL_VALUE_SKIP,
};
use predator_sense::protocol::temp_limit::{self, Bound, Capability};
use predator_sense::protocol::{battery, internal, thermal_profile};

/// A sysfs tree in memory, together with the file system it is part of.
struct Machine {
    sysfs: String,
    files: BTreeMap<String, String>,
}

impl Machine {
    fn new(sysfs: &str) -> Self {
        Machine {
            sysfs: sysfs.to_string(),
            files: BTreeMap::new(),
        }
    }

    fn at(&self, relative: &str) -> String {
        format!("{}/{relative}", self.sysfs)
    }

    fn write(&mut self, relative: &str, value: &str) {
        let path = self.at(relative);
        self.files.insert(path, format!("{value}\n"));
    }

    fn read(&self, relative: &str) -> String {
        self.files[&self.at(relative)].trim().to_string()
    }

    fn contents(&self, path: &str) -> Option<String> {
        self.files.get(path).cloned()
    }

    fn read_back(&self, path: &str) -> Result<String, String> {
        self.contents(path)
            .ok_or_else(|| "No such file or directory (os error 2)".to_string())
    }

    fn present(&self, path: &str) -> Option<Result<String, String>> {
        self.contents(path).map(Ok)
    }

    fn children(&self, dir: &str) -> Vec<String> {
        let prefix = format!("{dir}/");
        let names: BTreeSet<String> = self
            .files
            .keys()
            .filter_map(|path| path.strip_prefix(&prefix))
            .map(|rest| rest.split('/').next().unwrap().to_string())
            .collect();
        names.into_iter().collect()
    }

    fn write_attr(&mut self, label: &str, value: &str, path: &str) -> Result<(), String> {
        if self.files.contains_key(path) {
            self.files.insert(path.to_string(), value.to_string());
            Ok(())
        } else {
            Err(write_failed(label, value, path, "No such file or directory"))
        }
    }

    fn supplies(&self) -> Vec<battery::Supply> {
        let class = self.at(battery::POWER_SUPPLY_CLASS);
        self.children(&class)
            .into_iter()
            .map(|name| battery::Supply {
                kind: self.contents(&format!("{class}/{name}/type")),
                has_charge_limit: self
                    .files
                    .contains_key(&format!("{class}/{name}/{}", battery::CHARGE_LIMIT_ATTRIBUTE)),
                name,
            })
            .collect()
    }

    fn charge_limit(&self) -> Option<String> {
        battery::charge_limit(&self.sysfs, &self.supplies())
    }

    fn health_mode_control(&self) -> Option<String> {
        battery::health_mode_control(
            &self.sysfs,
            &self.contents(&self.at(battery::WMI_HEALTH_MODE)),
            &self.contents(&self.at(battery::PREDATOR_SENSE_LIMITER)),
        )
    }

    fn hwmon(&self) -> Vec<HwmonEntry> {
        let class = self.at("class/hwmon");
        self.children(&class)
            .into_iter()
            .map(|name| {
                let path = format!("{class}/{name}");
                HwmonEntry {
                    name: self.contents(&format!("{path}/name")),
                    has_pwm: self.files.contains_key(&format!("{path}/pwm1")),
                    has_pwm_enable: self.files.contains_key(&format!("{path}/pwm1_enable")),
                    path,
                }
            })
            .collect()
    }

    fn class(&self, class: &str, identity: &str) -> Result<Vec<ClassEntry>, String> {
        let class = self.at(class);
        Ok(self
            .children(&class)
            .into_iter()
            .map(|name| ClassEntry {
                identity: self.contents(&format!("{class}/{name}/{identity}")),
                name,
            })
            .collect())
    }
}

fn policy(machine: &mut Machine, index: u8, driver: &str, epp: bool) {
    let base = format!("devices/system/cpu/cpufreq/policy{index}");
    machine.write(&format!("{base}/scaling_driver"), driver);
    machine.write(&format!("{base}/scaling_governor"), "powersave");
    machine.write(
        &format!("{base}/scaling_available_governors"),
        "performance powersave",
    );
    if epp {
        machine.write(
            &format!("{base}/energy_performance_preference"),
            "balance_performance",
        );
        machine.write(
            &format!("{base}/energy_performance_available_preferences"),
            "default performance balance_performance balance_power power",
        );
    }
}

fn intel_controls(machine: &mut Machine, status: &str, no_turbo: bool, min_perf_pct: u16) {
    machine.write(INTEL_PSTATE_STATUS, status);
    machine.write(INTEL_PSTATE_NO_TURBO, bool_str(no_turbo));
    machine.write(INTEL_PSTATE_MIN_PERF, &min_perf_pct.to_string());
}

/// A `power_supply` battery device, with a charge ceiling only when the
/// modelled machine exposes one. Returns the device directory.
fn battery_device(machine: &mut Machine, name: &str, threshold: Option<&str>) -> String {
    let relative = format!("{}/{name}", battery::POWER_SUPPLY_CLASS);
    machine.write(&format!("{relative}/type"), "Battery");
    if let Some(threshold) = threshold {
        machine.write(
            &format!("{relative}/{}", battery::CHARGE_LIMIT_ATTRIBUTE),
            threshold,
        );
    }
    relative
}

fn words(args: &[&str]) -> Vec<String> {
    args.iter().map(|arg| arg.to_string()).collect()
}

fn policy_dirs(machine: &Machine) -> Result<Vec<String>, String> {
    let listing = machine.children(&machine.at(CPUFREQ_RELATIVE_DIR));
    cpu_policy_dirs(&machine.sysfs, &Ok(listing))
}

fn cpu_facts(machine: &Machine) -> Result<CpuFacts, String> {
    let dirs = policy_dirs(machine)?;
    let first = dirs[0].clone();
    let policies = dirs
        .into_iter()
        .map(|path| PolicyFacts {
            governor: machine.present(&format!("{path}/{SCALING_GOVERNOR}")),
            available_governors: machine.present(&format!("{path}/{AVAILABLE_GOVERNORS}")),
            epp: machine.present(&format!("{path}/{ENERGY_PREFERENCE}")),
            available_epps: machine.present(&format!("{path}/{AVAILABLE_ENERGY_PREFERENCES}")),
            driver: machine.contents(&format!("{path}/{SCALING_DRIVER}")),
            path,
        })
        .collect();
    Ok(CpuFacts {
        policies,
        no_turbo: machine.present(&machine.at(INTEL_PSTATE_NO_TURBO)),
        min_perf: machine.present(&machine.at(INTEL_PSTATE_MIN_PERF)),
        pstate_status: machine.contents(&machine.at(INTEL_PSTATE_STATUS)),
        min_freq: machine.contents(&format!("{first}/{CPUINFO_MIN_FREQ}")),
        max_freq: machine.contents(&format!("{first}/{CPUINFO_MAX_FREQ}")),
    })
}

fn machine_read_back(machine: &Machine, context: &CpuContext) -> ReadBack {
    ReadBack {
        policies: context
            .policies
            .iter()
            .map(|path| PolicyReadBack {
                path: path.clone(),
                governor: machine.read_back(&format!("{path}/{SCALING_GOVERNOR}")),
                epp: machine.read_back(&format!("{path}/{ENERGY_PREFERENCE}")),
            })
            .collect(),
        no_turbo: machine.read_back(&context.no_turbo_path),
        min_perf: machine.read_back(&context.min_perf_path),
    }
}

fn apply_cpu_profile_with(
    machine: &mut Machine,
    request: CpuProfileRequest,
    write: &mut dyn FnMut(&mut Machine, &CpuWrite) -> Result<(), String>,
) -> Result<(), String> {
    let facts = cpu_facts(machine)?;
    let context = preflight_cpu_profile(&machine.sysfs, request, &facts)?;
    let snapshot = snapshot_cpu_profile(&context, &facts)?;
    let mut change = cpu_profile_change(request, &context, &snapshot);
    loop {
        change = match change.next() {
            Next::Write(i) => {
                let result = write(machine, &change.writes[i]);
                change.wrote(result)
            }
            Next::Verify => {
                let seen = machine_read_back(machine, &context);
                let result = verify_cpu_profile(request, &context, &seen).map(|_| ());
                change.verified(result)
            }
            Next::Undo(i) => {
                let result = write(machine, &change.undo[i]);
                change.wrote(result)
            }
            Next::Done => match change.stage {
                Stage::Finished(result) => return result,
                _ => panic!("a change that is done has an outcome"),
            },
        };
    }
}

fn apply_cpu_profile(machine: &mut Machine, request: CpuProfileRequest) -> Result<(), String> {
    apply_cpu_profile_with(machine, request, &mut |machine, update| {
        machine.write_attr(&update.label, &update.value, &update.path)
    })
}

/// Carries out the jobs that only touch attributes.
fn run(machine: &mut Machine, args: &[String]) -> Result<(), String> {
    match plan(&args.to_vec())? {
        Job::Governor(governor) => {
            let dirs = policy_dirs(machine)?;
            for update in &set_governor_writes(governor, &dirs) {
                machine.write_attr(&update.label, &update.value, &update.path)?;
            }
            Ok(())
        }
        Job::Preference(preference) => {
            let policies = policy_dirs(machine)?
                .into_iter()
                .map(|path| PolicyPreference {
                    has_preference: machine
                        .contents(&format!("{path}/{ENERGY_PREFERENCE}"))
                        .is_some(),
                    path,
                })
                .collect();
            for update in &set_preference_writes(preference, &policies) {
                machine.write_attr(&update.label, &update.value, &update.path)?;
            }
            Ok(())
        }
        Job::Write(attribute, value) => {
            let path = machine.at(attribute.path());
            machine.write_attr(attribute.label(), &value, &path)
        }
        Job::BatteryLimit(enabled) => {
            let path = battery_threshold(&machine.sysfs, machine.charge_limit())?;
            machine.write_attr("battery-limit", battery_limit_value(enabled), &path)
        }
        Job::BatteryHealth(enabled) => {
            let path = health_mode(&machine.sysfs, machine.health_mode_control())?;
            machine.write_attr("battery-health", bool_str(enabled), &path)
        }
        job => panic!("not carried out here: {job:?}"),
    }
}

#[test]
fn writes_a_validated_governor_to_every_cpu_policy() {
    let mut machine = Machine::new("/fixture");
    policy(&mut machine, 0, "acpi-cpufreq", false);
    policy(&mut machine, 1, "acpi-cpufreq", false);

    run(
        &mut machine,
        &words(&[
            Action::SetGovernor.as_str(),
            CpuGovernor::Performance.as_str(),
        ]),
    )
    .unwrap();

    for index in 0..=1 {
        assert_eq!(
            machine.read(&format!(
                "devices/system/cpu/cpufreq/policy{index}/scaling_governor"
            )),
            CpuGovernor::Performance.as_str()
        );
    }
}

#[test]
fn rejects_untrusted_values_before_writing() {
    assert!(CpuGovernor::parse("performance;reboot").is_none());
    assert!(EnergyPreference::parse("performance;reboot").is_none());
    assert!(parse_bool("yes").is_err());
    assert!(parse_u16("pwm", "256", PWM_MIN, PWM_MAX).is_err());
}

#[test]
fn applies_hwp_performance_turbo_and_balanced_as_atomic_profiles() {
    let mut machine = Machine::new("/fixture");
    policy(&mut machine, 0, "intel_pstate", true);
    policy(&mut machine, 1, "intel_pstate", true);
    intel_controls(&mut machine, "active", false, 17);

    let performance = CpuProfileRequest {
        governor: CpuGovernor::Powersave,
        epp: Some(EnergyPreference::Performance),
        no_turbo: Some(false),
        min_perf_pct: Some(50),
    };
    apply_cpu_profile(&mut machine, performance).unwrap();
    for index in 0..=1 {
        let base = format!("devices/system/cpu/cpufreq/policy{index}");
        assert_eq!(machine.read(&format!("{base}/{SCALING_GOVERNOR}")), "powersave");
        assert_eq!(
            machine.read(&format!("{base}/{ENERGY_PREFERENCE}")),
            "performance"
        );
    }
    assert_eq!(machine.read(INTEL_PSTATE_MIN_PERF), "50");

    let turbo = CpuProfileRequest {
        governor: CpuGovernor::Performance,
        epp: Some(EnergyPreference::RawPerformance),
        no_turbo: Some(false),
        min_perf_pct: Some(100),
    };
    apply_cpu_profile(&mut machine, turbo).unwrap();
    for index in 0..=1 {
        let base = format!("devices/system/cpu/cpufreq/policy{index}");
        assert_eq!(
            machine.read(&format!("{base}/{SCALING_GOVERNOR}")),
            "performance"
        );
        // Plain files do not emulate the kernel's forced raw EPP 0.
        assert_eq!(
            machine.read(&format!("{base}/{ENERGY_PREFERENCE}")),
            "performance"
        );
    }
    assert_eq!(machine.read(INTEL_PSTATE_MIN_PERF), "100");

    let balanced = CpuProfileRequest {
        governor: CpuGovernor::Powersave,
        epp: Some(EnergyPreference::BalancePerformance),
        no_turbo: Some(false),
        min_perf_pct: Some(17),
    };
    apply_cpu_profile(&mut machine, balanced).unwrap();
    for index in 0..=1 {
        let base = format!("devices/system/cpu/cpufreq/policy{index}");
        assert_eq!(machine.read(&format!("{base}/{SCALING_GOVERNOR}")), "powersave");
        assert_eq!(
            machine.read(&format!("{base}/{ENERGY_PREFERENCE}")),
            "balance_performance"
        );
    }
}

#[test]
fn generic_cpufreq_accepts_explicitly_skipped_optional_controls() {
    let mut machine = Machine::new("/fixture");
    policy(&mut machine, 0, "acpi-cpufreq", false);
    let request = CpuProfileRequest::parse(&words(&[
        CpuGovernor::Performance.as_str(),
        OPTIONAL_VALUE_SKIP,
        OPTIONAL_VALUE_SKIP,
        OPTIONAL_VALUE_SKIP,
    ]))
    .unwrap();

    apply_cpu_profile(&mut machine, request).unwrap();
    assert_eq!(
        machine.read("devices/system/cpu/cpufreq/policy0/scaling_governor"),
        "performance"
    );
}

#[test]
fn rolls_back_every_policy_when_a_later_write_fails() {
    let mut machine = Machine::new("/fixture");
    policy(&mut machine, 0, "intel_pstate", true);
    policy(&mut machine, 1, "intel_pstate", true);
    intel_controls(&mut machine, "active", false, 17);
    let request = CpuProfileRequest {
        governor: CpuGovernor::Performance,
        epp: Some(EnergyPreference::RawPerformance),
        no_turbo: Some(false),
        min_perf_pct: Some(100),
    };
    let failing_path = machine.at("devices/system/cpu/cpufreq/policy1/scaling_governor");
    let mut failed_once = false;
    let error = apply_cpu_profile_with(&mut machine, request, &mut |machine, update| {
        if !failed_once
            && update.path == failing_path
            && update.value == CpuGovernor::Performance.as_str()
        {
            failed_once = true;
            Err(fail(&format!(
                "{}: injected failure at {}",
                update.label, update.path
            )))
        } else {
            machine.write_attr(&update.label, &update.value, &update.path)
        }
    })
    .unwrap_err();

    assert!(error.contains("policy1/scaling_governor"));
    assert!(error.contains("rolling back CPU profile succeeded"));
    for index in 0..=1 {
        let base = format!("devices/system/cpu/cpufreq/policy{index}");
        assert_eq!(machine.read(&format!("{base}/{SCALING_GOVERNOR}")), "powersave");
        assert_eq!(
            machine.read(&format!("{base}/{ENERGY_PREFERENCE}")),
            "balance_performance"
        );
    }
    assert_eq!(machine.read(INTEL_PSTATE_MIN_PERF), "17");
}

#[test]
fn preflight_rejects_an_incomplete_epp_backend_before_any_write() {
    let mut machine = Machine::new("/fixture");
    policy(&mut machine, 0, "intel_pstate", true);
    policy(&mut machine, 1, "intel_pstate", false);
    intel_controls(&mut machine, "active", false, 17);
    let request = CpuProfileRequest {
        governor: CpuGovernor::Performance,
        epp: Some(EnergyPreference::Performance),
        no_turbo: Some(false),
        min_perf_pct: Some(50),
    };

    let error = apply_cpu_profile(&mut machine, request).unwrap_err();
    assert!(error.contains("policy1"));
    assert_eq!(
        machine.read("devices/system/cpu/cpufreq/policy0/scaling_governor"),
        "powersave"
    );
}

#[test]
fn accepts_only_the_kernel_reported_minimum_performance_clamp() {
    let mut machine = Machine::new("/fixture");
    policy(&mut machine, 0, "intel_pstate", true);
    intel_controls(&mut machine, "active", false, 17);
    machine.write(
        "devices/system/cpu/cpufreq/policy0/cpuinfo_min_freq",
        "800000",
    );
    machine.write(
        "devices/system/cpu/cpufreq/policy0/cpuinfo_max_freq",
        "4700000",
    );
    let request = CpuProfileRequest {
        governor: CpuGovernor::Powersave,
        epp: Some(EnergyPreference::Power),
        no_turbo: Some(true),
        min_perf_pct: Some(10),
    };
    let min_perf = machine.at(INTEL_PSTATE_MIN_PERF);
    apply_cpu_profile_with(&mut machine, request, &mut |machine, update| {
        if update.path == min_perf && update.value == "10" {
            machine.write_attr(&update.label, "17", &update.path)
        } else {
            machine.write_attr(&update.label, &update.value, &update.path)
        }
    })
    .unwrap();
    assert_eq!(machine.read(INTEL_PSTATE_MIN_PERF), "17");

    machine.write(INTEL_PSTATE_MIN_PERF, "50");
    let error = apply_cpu_profile_with(&mut machine, request, &mut |machine, update| {
        if update.path == min_perf && update.value == "10" {
            Ok(())
        } else {
            machine.write_attr(&update.label, &update.value, &update.path)
        }
    })
    .unwrap_err();
    assert!(error.contains("expected '10', got '50'"));
    assert_eq!(machine.read(INTEL_PSTATE_MIN_PERF), "50");
}

#[test]
fn accepts_a_kernel_floor_that_overshoots_the_cpuinfo_estimate_by_a_point_or_two() {
    // The two frequencies give a truncated estimate of 16% here, while the
    // kernel's own floor is 17%: one point above the estimate.
    let mut machine = Machine::new("/fixture");
    policy(&mut machine, 0, "intel_pstate", true);
    intel_controls(&mut machine, "active", false, 17);
    machine.write(
        "devices/system/cpu/cpufreq/policy0/cpuinfo_min_freq",
        "1600000",
    );
    machine.write(
        "devices/system/cpu/cpufreq/policy0/cpuinfo_max_freq",
        "10000000",
    );
    let request = CpuProfileRequest {
        governor: CpuGovernor::Powersave,
        epp: Some(EnergyPreference::Power),
        no_turbo: Some(true),
        min_perf_pct: Some(10),
    };
    let min_perf = machine.at(INTEL_PSTATE_MIN_PERF);
    apply_cpu_profile_with(&mut machine, request, &mut |machine, update| {
        if update.path == min_perf && update.value == "10" {
            machine.write_attr(&update.label, "17", &update.path)
        } else {
            machine.write_attr(&update.label, &update.value, &update.path)
        }
    })
    .unwrap();
    assert_eq!(machine.read(INTEL_PSTATE_MIN_PERF), "17");
}

#[test]
fn writes_battery_calibration_through_the_typed_action() {
    let mut machine = Machine::new("/fixture");
    machine.write(battery::WMI_CALIBRATION_MODE, bool_str(false));

    run(
        &mut machine,
        &words(&[Action::BatteryCalibration.as_str(), bool_str(true)]),
    )
    .unwrap();

    assert_eq!(machine.read(battery::WMI_CALIBRATION_MODE), bool_str(true));
}

#[test]
fn battery_limit_is_written_to_the_battery_device_this_machine_actually_has() {
    for name in ["BAT0", "BAT1"] {
        let mut machine = Machine::new("/fixture");
        let device = battery_device(&mut machine, name, Some(BATTERY_LIMIT_DISABLED));

        run(&mut machine, &words(&[Action::BatteryLimit.as_str(), "1"])).unwrap();

        assert_eq!(
            machine.read(&format!("{device}/{}", battery::CHARGE_LIMIT_ATTRIBUTE)),
            BATTERY_LIMIT_ENABLED
        );
    }
}

#[test]
fn battery_limit_finds_a_charge_ceiling_that_is_not_on_the_first_battery() {
    let mut machine = Machine::new("/fixture");
    battery_device(&mut machine, "BAT0", None);
    let device = battery_device(&mut machine, "BAT1", Some(BATTERY_LIMIT_DISABLED));

    run(&mut machine, &words(&[Action::BatteryLimit.as_str(), "1"])).unwrap();

    assert_eq!(
        machine.read(&format!("{device}/{}", battery::CHARGE_LIMIT_ATTRIBUTE)),
        BATTERY_LIMIT_ENABLED
    );
}

#[test]
fn battery_limit_reports_where_it_looked_when_the_machine_has_no_charge_ceiling() {
    let mut machine = Machine::new("/fixture");
    // A battery that caps its charge through acer-wmi-battery health_mode
    // instead - it has no charge_control_end_threshold at all.
    battery_device(&mut machine, "BAT1", None);

    let error = run(&mut machine, &words(&[Action::BatteryLimit.as_str(), "1"])).unwrap_err();

    assert!(error.contains(battery::CHARGE_LIMIT_ATTRIBUTE), "{error}");
    assert!(error.contains(battery::POWER_SUPPLY_CLASS), "{error}");
}

const USER_CONFIG: &str = "/home/user/.config/predator-sense/config.json";

fn place(machine: &Machine, path: Option<String>) -> Option<Place> {
    path.map(|path| Place {
        exists: machine.files.contains_key(&path),
        path,
    })
}

fn reapply_battery_with(
    machine: &mut Machine,
    saved: &SavedBattery,
    write: &mut dyn FnMut(&mut Machine, &CpuWrite) -> Result<(), String>,
) -> Result<(), String> {
    let limit = place(machine, machine.charge_limit());
    let health = place(machine, machine.health_mode_control());
    let steps = reapply_battery("/home/user", USER_CONFIG, saved, &limit, &health)?;
    let mut errors = Vec::new();
    for step in &steps {
        if let RestoreStep::Write(update) = step {
            if let Err(error) = write(machine, update) {
                errors.push(error);
            }
        }
    }
    settle(&errors)
}

fn plainly(machine: &mut Machine, update: &CpuWrite) -> Result<(), String> {
    machine.write_attr(&update.label, &update.value, &update.path)
}

#[test]
fn boot_battery_restore_continues_when_an_optional_path_is_missing() {
    let mut machine = Machine::new("/fixture/sys");
    let saved = SavedBattery::Settings {
        limiter: true,
        health_mode: true,
    };
    battery_device(&mut machine, "BAT1", None);
    machine.write(battery::WMI_HEALTH_MODE, bool_str(false));

    reapply_battery_with(&mut machine, &saved, &mut plainly).unwrap();

    assert!(machine.charge_limit().is_none());
    assert_eq!(machine.read(battery::WMI_HEALTH_MODE), bool_str(true));
}

#[test]
fn boot_battery_restore_attempts_every_present_setting_before_failing() {
    let mut machine = Machine::new("/fixture/sys");
    let saved = SavedBattery::Settings {
        limiter: true,
        health_mode: true,
    };
    let device = battery_device(&mut machine, "BAT1", Some(BATTERY_LIMIT_DISABLED));
    let limiter = machine.at(&format!("{device}/{}", battery::CHARGE_LIMIT_ATTRIBUTE));
    machine.write(battery::WMI_HEALTH_MODE, bool_str(false));
    let health = machine.at(battery::WMI_HEALTH_MODE);
    let mut attempted = Vec::new();

    let error = reapply_battery_with(&mut machine, &saved, &mut |machine, update| {
        attempted.push(update.path.clone());
        if update.path == limiter {
            Err(fail("injected battery-limit write failure"))
        } else {
            machine.write_attr(&update.label, &update.value, &update.path)
        }
    })
    .unwrap_err();

    assert_eq!(attempted, [limiter, health]);
    assert!(error.contains("injected battery-limit write failure"));
    assert_eq!(machine.read(battery::WMI_HEALTH_MODE), bool_str(true));
}

#[test]
fn boot_battery_restore_does_nothing_without_settings() {
    let mut machine = Machine::new("/fixture/sys");
    battery_device(&mut machine, "BAT1", Some(BATTERY_LIMIT_DISABLED));
    reapply_battery_with(&mut machine, &SavedBattery::Missing, &mut plainly).unwrap();
    let error = reapply_battery_with(
        &mut machine,
        &SavedBattery::Invalid("expected value".to_string()),
        &mut plainly,
    )
    .unwrap_err();
    assert!(error.contains("invalid"), "{error}");
    assert!(error.contains("expected value"), "{error}");
    assert!(
        reapply_battery("home/user", USER_CONFIG, &SavedBattery::Missing, &None, &None).is_err()
    );
}

/// A machine whose only health-mode control is Linuwu-Sense's
/// `battery_limiter`. It is the same firmware call under another name, so
/// the health action has to reach it.
#[test]
fn the_health_action_uses_whichever_driver_is_present() {
    let mut machine = Machine::new("/fixture/sys");
    machine.write(battery::PREDATOR_SENSE_LIMITER, bool_str(false));

    run(&mut machine, &words(&[Action::BatteryHealth.as_str(), "1"])).unwrap();

    assert_eq!(machine.read(battery::PREDATOR_SENSE_LIMITER), bool_str(true));
}

/// And the boot restore reaches it too, for the same reason.
#[test]
fn boot_battery_restore_reaches_the_out_of_tree_health_control() {
    let mut machine = Machine::new("/fixture/sys");
    let saved = SavedBattery::Settings {
        limiter: false,
        health_mode: true,
    };
    machine.write(battery::PREDATOR_SENSE_LIMITER, bool_str(false));

    reapply_battery_with(&mut machine, &saved, &mut plainly).unwrap();

    assert_eq!(machine.read(battery::PREDATOR_SENSE_LIMITER), bool_str(true));
}

/// An attribute the firmware does not back reports -1, and must not be
/// mistaken for a usable control.
#[test]
fn an_unsupported_health_attribute_is_not_written_to() {
    let mut machine = Machine::new("/fixture/sys");
    machine.write(battery::WMI_HEALTH_MODE, "-1");

    let error = run(&mut machine, &words(&[Action::BatteryHealth.as_str(), "1"])).unwrap_err();

    assert!(error.contains("health-mode"), "{error}");
    assert_eq!(machine.read(battery::WMI_HEALTH_MODE), "-1", "left alone");
}

/// Carries out the boot restore of the thermal profile.
fn restore_thermal(
    machine: &mut Machine,
    home: &str,
    record: Option<&str>,
) -> Result<(), String> {
    let index = machine.at(thermal_profile::SYSFS_INDEX);
    let exists = machine.files.contains_key(&index);
    let mask = machine.contents(&machine.at(thermal_profile::SYSFS_SUPPORTED));
    match reapply_thermal(home, &record.map(str::to_string), exists, &mask) {
        ThermalRestore::Nothing => Ok(()),
        ThermalRestore::Index(value) => {
            machine.write_attr("thermal-profile", &value.to_string(), &index)
        }
        ThermalRestore::Refused(error) => Err(error),
    }
}

#[test]
fn boot_thermal_restore_puts_the_recorded_profile_back() {
    let mut machine = Machine::new("/fixture/sys");
    machine.write(thermal_profile::SYSFS_INDEX, "2");
    machine.write(thermal_profile::SYSFS_SUPPORTED, "0x73");

    restore_thermal(&mut machine, "/home/user", Some("5\n\n")).unwrap();

    assert_eq!(machine.read(thermal_profile::SYSFS_INDEX), "5");
}

#[test]
fn boot_thermal_restore_is_a_no_op_without_something_to_restore() {
    let mut machine = Machine::new("/fixture/sys");

    // Nothing recorded yet: a machine the user never switched profiles on.
    machine.write(thermal_profile::SYSFS_INDEX, "2");
    restore_thermal(&mut machine, "/home/user", None).unwrap();
    assert_eq!(machine.read(thermal_profile::SYSFS_INDEX), "2");

    // Recorded, but this kernel has no facer.ko - not a boot failure.
    let mut bare = Machine::new("/bare/sys");
    restore_thermal(&mut bare, "/home/user", Some("5\n")).unwrap();
}

/// A BIOS update can drop a profile. Writing the stale index would fail
/// with a bare EINVAL from a boot service nobody is watching.
#[test]
fn boot_thermal_restore_refuses_an_index_the_firmware_dropped() {
    let mut machine = Machine::new("/fixture/sys");
    machine.write(thermal_profile::SYSFS_INDEX, "0");
    machine.write(thermal_profile::SYSFS_SUPPORTED, "0x03");

    let error = restore_thermal(&mut machine, "/home/user", Some("5\n")).unwrap_err();

    assert!(error.contains('5'), "{error}");
    assert_eq!(
        machine.read(thermal_profile::SYSFS_INDEX),
        "0",
        "nothing written"
    );
}

#[test]
fn boot_thermal_restore_requires_an_absolute_home() {
    let mut machine = Machine::new("/fixture/sys");
    let error = restore_thermal(&mut machine, "relative/home", None).unwrap_err();
    assert!(error.contains("absolute"), "{error}");
}

/// A TCC offset cooling device, plus a decoy the scan has to walk past.
fn tcc_device(machine: &mut Machine, max_state: u8, cur_state: u8) {
    let decoy = format!("{}/cooling_device0", temp_limit::THERMAL_CLASS);
    machine.write(&format!("{decoy}/type"), "Processor");
    machine.write(&format!("{decoy}/max_state"), "3");
    machine.write(&format!("{decoy}/cur_state"), "0");

    let base = format!("{}/cooling_device1", temp_limit::THERMAL_CLASS);
    machine.write(&format!("{base}/type"), temp_limit::COOLING_DEVICE_TYPE);
    machine.write(&format!("{base}/max_state"), &max_state.to_string());
    machine.write(&format!("{base}/cur_state"), &cur_state.to_string());
}

fn coretemp_hwmon(machine: &mut Machine, tjmax_c: u8) {
    let decoy = format!("{}/hwmon0", temp_limit::HWMON_CLASS);
    machine.write(&format!("{decoy}/name"), "acpitz");
    machine.write(&format!("{decoy}/temp1_crit"), "60000");

    let base = format!("{}/hwmon1", temp_limit::HWMON_CLASS);
    machine.write(&format!("{base}/name"), temp_limit::CORETEMP_NAME);
    machine.write(
        &format!("{base}/temp1_crit"),
        &(u32::from(tjmax_c) * 1000).to_string(),
    );
}

fn tcc_cur_state(machine: &Machine) -> String {
    machine.read(&format!(
        "{}/cooling_device1/cur_state",
        temp_limit::THERMAL_CLASS
    ))
}

fn find_tjmax(machine: &Machine) -> Result<Option<u8>, String> {
    let listing = machine.class(temp_limit::HWMON_CLASS, "name");
    match coretemp_device(&machine.sysfs, &listing)? {
        None => Ok(None),
        Some(device) => {
            let path = format!("{device}/temp1_crit");
            coretemp_celsius(&path, &machine.read_back(&path))
        }
    }
}

fn find_capability(machine: &Machine) -> Result<Option<Capability>, String> {
    let mut stage: CapabilityStage<String> = CapabilityStage::Device;
    loop {
        let event = match &stage {
            CapabilityStage::Device => CapabilityEvent::Device(tcc_cooling_device(
                &machine.sysfs,
                &machine.class(temp_limit::THERMAL_CLASS, "type"),
            )),
            CapabilityStage::Tjmax(_) | CapabilityStage::TjmaxAfterLoading(_) => {
                CapabilityEvent::Tjmax(find_tjmax(machine))
            }
            CapabilityStage::Offsets(device, _) => CapabilityEvent::Offsets(read_offsets(
                device,
                &machine.read_back(&format!("{device}/max_state")),
                &machine.read_back(&format!("{device}/cur_state")),
            )),
            // There is no record of the boot here: the offset is what it started with.
            CapabilityStage::Factory(_, offsets) => CapabilityEvent::Factory(Ok(offsets.current)),
            CapabilityStage::Finished(_) => break,
        };
        stage = temp_limit_capability(stage, event);
    }
    match stage {
        CapabilityStage::Finished(result) => result,
        _ => panic!("the search has an outcome"),
    }
}

fn temp_limit_apply(machine: &mut Machine, value: &str, bound: &str) -> Result<(), String> {
    let (celsius, bound) = temp_limit_request(value, bound)?;
    let capability = find_capability(machine)?;
    let offset = temp_limit_offset(&capability, celsius, bound)?;
    let capability = capability.unwrap();
    let previous = offset_to_put_back(&capability);
    let path = machine.at(&format!(
        "{}/cooling_device1/cur_state",
        temp_limit::THERMAL_CLASS
    ));
    let mut stage = CeilingStage::Write;
    loop {
        let result = match &stage {
            CeilingStage::Write => machine.write_attr("temp-limit", &offset.to_string(), &path),
            CeilingStage::Confirm => temp_limit_confirm(find_capability(machine), celsius),
            CeilingStage::WriteBack(_) => {
                machine.write_attr("temp-limit", &previous.to_string(), &path)
            }
            CeilingStage::ConfirmBack(_) => {
                temp_limit_confirm(find_capability(machine), capability.current_c)
            }
            CeilingStage::Finished(_) => break,
        };
        stage = ceiling_step(stage, capability.current_c, result);
    }
    match stage {
        CeilingStage::Finished(result) => result,
        _ => panic!("the change has an outcome"),
    }
}

#[test]
fn temp_limit_capability_comes_from_the_kernel_not_from_a_model_table() {
    let mut machine = Machine::new("/fixture");
    // Seven-bit offset, already five degrees below Tjmax - the firmware's
    // own ceiling, which is what the control counts down from.
    tcc_device(&mut machine, 127, 5);
    coretemp_hwmon(&mut machine, 105);

    let capability = find_capability(&machine).unwrap().unwrap();
    assert_eq!(capability.tjmax_c, 105);
    assert_eq!(capability.max_offset, 127);
    assert_eq!(capability.current_c, 100);
    // Not Tjmax: raising the ceiling above what the vendor set is a
    // different feature from the one this slider offers.
    assert_eq!(capability.max_c(), 100);
}

#[test]
fn temp_limit_is_unsupported_without_the_temperature_the_offset_counts_from() {
    let mut machine = Machine::new("/fixture");
    tcc_device(&mut machine, 63, 0);
    machine.write(&format!("{}/hwmon0/name", temp_limit::HWMON_CLASS), "acpitz");
    // A scanned hwmon class with no coretemp in it: the offset device alone
    // cannot say what temperature it counts down from. Unsupported, not an
    // error.
    assert_eq!(find_capability(&machine).unwrap(), None);
}

#[test]
fn temp_limit_applies_the_offset_that_produces_the_requested_ceiling() {
    let mut machine = Machine::new("/fixture");
    tcc_device(&mut machine, 127, 0);
    coretemp_hwmon(&mut machine, 105);

    temp_limit_apply(&mut machine, "85", Bound::Safe.as_str()).unwrap();
    assert_eq!(tcc_cur_state(&machine), "20");
}

#[test]
fn temp_limit_rejects_rather_than_clamps_what_the_bound_disallows() {
    let mut machine = Machine::new("/fixture");
    tcc_device(&mut machine, 127, 0);
    coretemp_hwmon(&mut machine, 105);

    // Below the safety floor without the opt-in: refused outright, because
    // clamping it to the floor would let a stale record set a ceiling
    // nobody confirmed.
    let error = temp_limit_apply(&mut machine, "50", Bound::Safe.as_str()).unwrap_err();
    assert!(error.contains("outside"), "{error}");
    assert_eq!(tcc_cur_state(&machine), "0");

    // The same value with the opt-in is fine; the floor is a default.
    temp_limit_apply(&mut machine, "50", Bound::Hardware.as_str()).unwrap();
    assert_eq!(tcc_cur_state(&machine), "55");

    // An unrecognised bound is refused instead of defaulting to safe, so a
    // typo in a hand-written record cannot widen the range either.
    let error = temp_limit_apply(&mut machine, "50", "hardwear").unwrap_err();
    assert!(error.contains("invalid bound"), "{error}");
}

#[test]
fn an_unconfirmed_ceiling_is_put_back() {
    let failed = || Err::<(), String>("read back 95".to_string());
    let stage = ceiling_step(CeilingStage::Write, 5, Ok(()));
    assert!(matches!(stage, CeilingStage::Confirm));
    let stage = ceiling_step(stage, 5, failed());
    assert!(matches!(stage, CeilingStage::WriteBack(_)));
    let stage = ceiling_step(stage, 5, Ok(()));
    assert!(matches!(stage, CeilingStage::ConfirmBack(_)));
    match ceiling_step(stage, 5, Ok(())) {
        CeilingStage::Finished(Err(error)) => assert!(error.contains("read back 95"), "{error}"),
        other => panic!("{other:?}"),
    }
}

#[test]
fn the_factory_offset_is_recorded_once_per_boot() {
    let first = tcc_factory_offset(&FactoryRecord::Missing, 5).unwrap();
    assert_eq!(first.offset, 5);
    assert!(first.record);
    let later = tcc_factory_offset(&FactoryRecord::Contents("5\n".to_string()), 20).unwrap();
    assert_eq!(later.offset, 5);
    assert!(!later.record);
    assert!(tcc_factory_offset(&FactoryRecord::Contents("five".to_string()), 20).is_err());
    assert!(tcc_factory_offset(&FactoryRecord::Unreadable("denied".to_string()), 20).is_err());
    assert!(ensure_readable("/run/predator-sense", 0o755, 0o040755).is_ok());
    assert!(ensure_readable("/run/predator-sense", 0o755, 0o040700).is_err());
}

#[test]
fn boot_temp_limit_restore_needs_a_record_and_a_capability() {
    let capability = Capability::new(105, 127, 5, 5);
    let record = Some(temp_limit::remember(85, Bound::Safe));
    assert!(matches!(
        reapply_temp_limit("/home/user", &record, Ok(Some(capability))),
        Restore::Ceiling(85, Bound::Safe)
    ));
    assert!(matches!(
        reapply_temp_limit("/home/user", &None, Ok(Some(capability))),
        Restore::Nothing
    ));
    assert!(matches!(
        reapply_temp_limit("/home/user", &record, Ok(None)),
        Restore::Nothing
    ));
    assert!(matches!(
        reapply_temp_limit("home/user", &record, Ok(Some(capability))),
        Restore::Refused(_)
    ));
}

#[test]
fn the_capability_is_reported_on_one_line() {
    assert_eq!(
        temp_limit_caps(&Some(Capability::new(105, 127, 20, 5))).trim(),
        "ok 105 127 20"
    );
    assert_eq!(
        temp_limit_caps(&Some(Capability::new(105, 0, 0, 0))).trim(),
        "locked"
    );
    assert_eq!(temp_limit_caps(&None).trim(), "unsupported");
}

#[test]
fn helper_actions_define_arity_and_usage_in_one_place() {
    let action = Action::parse(Action::SetGovernor.as_str()).unwrap();
    assert_eq!(action.argument_count(), 1);
    assert!(action.usage().starts_with(action.as_str()));
    assert!(Action::parse("made-up-action").is_none());
}

fn limit_gpu_power(
    watts: u16,
    execute: &mut dyn FnMut(&str, &[String]) -> Result<(), String>,
) -> Result<(), String> {
    let persistence = execute(NVIDIA_SMI, &persistence_args());
    let limit = execute(NVIDIA_SMI, &power_limit_args(watts));
    set_gpu_power_limit(persistence, limit)
}

#[test]
fn applies_gpu_power_limit_when_persistence_mode_is_unsupported() {
    let mut invocations = Vec::new();
    let result = limit_gpu_power(80, &mut |name, args| {
        invocations.push((name.to_string(), args.join(" ")));
        if args == ["-pm", "1"] {
            Err("persistence mode unsupported".into())
        } else {
            Ok(())
        }
    });

    assert!(result.is_ok());
    let expected: [(String, String); 2] = [
        (NVIDIA_SMI.into(), "-pm 1".into()),
        (NVIDIA_SMI.into(), "-pl 80".into()),
    ];
    assert_eq!(invocations, expected);
}

#[test]
fn reports_gpu_power_limit_failure() {
    let result = limit_gpu_power(80, &mut |_name, args| {
        if args == ["-pl", "80"] {
            Err("power limit rejected".into())
        } else {
            Ok(())
        }
    });

    assert_eq!(result.unwrap_err(), "power limit rejected");
}

#[test]
fn a_refusal_that_exits_with_success_is_still_an_error() {
    assert!(command_result("nvidia-smi", true, "All done.", "").is_ok());
    let refused = command_result(
        "nvidia-smi",
        true,
        "Changing power limit is Not Supported for GPU 0\n",
        "",
    )
    .unwrap_err();
    assert!(refused.contains("Not Supported"), "{refused}");
    let failed = command_result("nvidia-smi", false, "", "no devices\n").unwrap_err();
    assert!(failed.ends_with("nvidia-smi failed: no devices"), "{failed}");
}

fn write_preset(machine: &mut Machine, ec: &mut BTreeMap<u64, u8>, preset: FanPreset) {
    let entries = machine.hwmon();
    let dir = hwmon_fan_enable_dir(&entries).map(|i| entries[i].path.clone());
    match set_fan_preset(&dir, preset) {
        PresetWrites::Attributes(writes) => {
            for update in &writes {
                machine
                    .write_attr(&update.label, &update.value, &update.path)
                    .unwrap();
            }
        }
        PresetWrites::Registers(values) => {
            for (register, value) in values {
                ec.insert(register.offset(), value);
            }
        }
    }
}

fn shown_preset(machine: &Machine, ec: &BTreeMap<u64, u8>) -> Option<FanPreset> {
    let entries = machine.hwmon();
    match hwmon_fan_enable_dir(&entries) {
        Some(i) => {
            let path = format!(
                "{}/{}",
                entries[i].path,
                PwmAttribute::CpuEnable.file_name()
            );
            read_fan_preset(&machine.contents(&path).unwrap())
        }
        None => FanPreset::from_cpu_register(ec[&EcRegister::CpuFanMode.offset()]),
    }
}

#[test]
fn fan_preset_prefers_hwmon_pwm_enable_when_present() {
    let mut machine = Machine::new("/fixture");
    machine.write("class/hwmon/hwmon3/name", "acer");
    machine.write("class/hwmon/hwmon3/pwm1", "128");
    machine.write("class/hwmon/hwmon3/pwm1_enable", "1");
    machine.write("class/hwmon/hwmon3/pwm2_enable", "1");
    let mut ec = BTreeMap::new(); // never written when hwmon is used

    write_preset(&mut machine, &mut ec, FanPreset::Automatic);
    assert_eq!(machine.read("class/hwmon/hwmon3/pwm1_enable"), "2");
    assert_eq!(machine.read("class/hwmon/hwmon3/pwm2_enable"), "2");
    assert_eq!(shown_preset(&machine, &ec), Some(FanPreset::Automatic));

    write_preset(&mut machine, &mut ec, FanPreset::Maximum);
    assert_eq!(machine.read("class/hwmon/hwmon3/pwm1_enable"), "0");
    assert_eq!(machine.read("class/hwmon/hwmon3/pwm2_enable"), "0");
    assert_eq!(shown_preset(&machine, &ec), Some(FanPreset::Maximum));
    assert!(ec.is_empty());
}

#[test]
fn fan_preset_falls_back_to_raw_ec_without_hwmon_pwm() {
    let mut machine = Machine::new("/fixture");
    // No hwmon class directory at all: both fall back to the registers.
    let mut ec = BTreeMap::new();
    assert_eq!(acer_hwmon(&machine.hwmon()), None);

    write_preset(&mut machine, &mut ec, FanPreset::Automatic);
    assert_eq!(ec[&EcRegister::CpuFanMode.offset()], 0x50);
    assert_eq!(ec[&EcRegister::GpuFanMode.offset()], 0x54);
    assert_eq!(shown_preset(&machine, &ec), Some(FanPreset::Automatic));

    write_preset(&mut machine, &mut ec, FanPreset::Maximum);
    assert_eq!(ec[&EcRegister::CpuFanMode.offset()], 0x60);
    assert_eq!(shown_preset(&machine, &ec), Some(FanPreset::Maximum));
}

/// Answers each line of a session, as the helper does.
fn run_daemon(machine: &mut Machine, input: &str) -> Vec<String> {
    let mut output = Vec::new();
    for line in input.lines() {
        if let Some(args) = command_words(line) {
            let result = run(machine, &args);
            output.push(reply_for(&result));
        }
    }
    output
}

#[test]
fn daemon_applies_each_line_and_replies_with_a_marker() {
    let mut machine = Machine::new("/fixture/sys");
    machine.write(thermal_profile::SYSFS_INDEX, "0");

    // Two commands in one session, exactly as the auto fan curve would
    // send one PWM write after another over the same pipe.
    let replies = run_daemon(&mut machine, "thermal-profile 3\nthermal-profile 5\n");

    assert_eq!(machine.read(thermal_profile::SYSFS_INDEX), "5");
    assert_eq!(
        replies,
        vec![internal::HELPER_DAEMON_OK, internal::HELPER_DAEMON_OK]
    );
}

#[test]
fn daemon_reports_a_failed_command_and_keeps_the_session_open() {
    let mut machine = Machine::new("/fixture/sys");
    machine.write(thermal_profile::SYSFS_INDEX, "0");

    // A bad command must not tear the session down: the next good one on
    // the same connection still has to go through.
    let replies = run_daemon(&mut machine, "not-a-real-action\nthermal-profile 4\n");

    assert_eq!(machine.read(thermal_profile::SYSFS_INDEX), "4");
    assert_eq!(replies.len(), 2);
    assert!(replies[0].starts_with(internal::HELPER_DAEMON_ERR));
    assert_eq!(replies[1], internal::HELPER_DAEMON_OK);
}

#[test]
fn daemon_ignores_blank_lines() {
    let mut machine = Machine::new("/dev/null");
    let output = run_daemon(&mut machine, "\n\n");

    assert!(output.is_empty());
}

#[test]
fn daemon_replies_stay_on_one_line() {
    let reply = reply_for(&Err("first\nsecond".to_string()));
    assert_eq!(
        reply,
        format!("{} first second", internal::HELPER_DAEMON_ERR)
    );
    assert!(unreadable_reply("broken pipe").starts_with(internal::HELPER_DAEMON_ERR));
    assert!(wants_daemon(&words(&[internal::HELPER_DAEMON_ARGUMENT])));
    assert!(!wants_daemon(&words(&["thermal-profile", "3"])));
    assert_eq!(test_root(true, Some("/tmp/x".to_string())), None);
    assert_eq!(
        test_root(false, Some("/tmp/x".to_string())).as_deref(),
        Some("/tmp/x")
    );
}

#[test]
fn a_job_is_planned_only_from_a_valid_command_line() {
    assert!(plan(&words(&[])).is_err());
    assert!(plan(&words(&["made-up-action"])).is_err());
    let usage = plan(&words(&["thermal-profile"])).unwrap_err();
    assert!(usage.contains("usage: thermal-profile"), "{usage}");
    assert!(plan(&words(&["thermal-profile", "256"])).is_err());
    assert!(matches!(
        plan(&words(&["thermal-profile", "5"])),
        Ok(Job::Write(Attribute::ThermalProfile, value)) if value == "5"
    ));
    assert!(matches!(
        plan(&words(&["chicony-color", "1", "2", "3", "100"])),
        Ok(Job::ChiconyColor {
            red: 1,
            green: 2,
            blue: 3,
            brightness: 100
        })
    ));
}

#[test]
fn attribute_errors_name_label_and_place() {
    let error = read_attr("no-turbo", "/sys/x", &Err("denied".to_string())).unwrap_err();
    assert!(error.contains("no-turbo") && error.contains("/sys/x") && error.contains("denied"));
    assert_eq!(read_attr("no-turbo", "/sys/x", &Ok("1\n".to_string())).unwrap(), "1");
    assert!(ec_open_failed("/dev/ec", "denied").ends_with("cannot open /dev/ec: denied"));
    assert!(ec_write_failed(EcRegister::BootAnimation, "io")
        .ends_with("cannot write EC offset 0x1a: io"));
    assert!(ec_read_failed(EcRegister::CoolBoost, "io").ends_with("cannot read EC offset 0x10: io"));
    assert_eq!(switch_read(&None), "0");
    assert_eq!(battery_limit_read(&Some("80\n".to_string())), "1");
    assert_eq!(battery_limit_read(&Some("100\n".to_string())), "0");
    assert_eq!(battery_limit_read(&None), "0");
    assert_eq!(screen_brightness(50, "96000").unwrap(), "48000");
    assert!(screen_brightness(50, "bright").is_err());
    assert_eq!(fan_mode_text(Some(FanPreset::Maximum)), "max");
    assert!(no_pwm().ends_with("Acer PWM hwmon not found"));
}

#[test]
fn mode_cycles_are_checked_before_they_are_written() {
    assert_eq!(
        mode_cycle_text(" 0, 1,,04 ").unwrap().as_deref(),
        Some("0,1,4\n")
    );
    assert_eq!(mode_cycle_text("").unwrap().as_deref(), Some("\n"));
    assert_eq!(mode_cycle_text("skip").unwrap(), None);
    assert!(mode_cycle_text("0,x").is_err());
    assert_eq!(
        mode_cycle_path("/sys", "mode_cycle_ac"),
        "/sys/devices/platform/acer-wmi/mode_cycle_ac"
    );
    assert!(mode_cycle_failed("/sys/x", "denied").contains("/sys/x: denied"));
}

#[test]
fn the_profile_lock_is_waited_for_and_given_up() {
    assert_eq!(
        lock_path("/sys"),
        "/run/lock/predator-sense-cpu-profile.lock"
    );
    for spelling in ["/sys/", "//sys", "/./sys/.", "/sys//"] {
        assert_eq!(lock_path(spelling), lock_path("/sys"));
        assert!(is_real_sysfs(spelling));
    }
    for other in ["sys", "./sys", "/sys/devices", "/", "", "/sysfs"] {
        assert!(!is_real_sysfs(other), "{other}");
    }
    assert_eq!(
        lock_path("/fixture"),
        "/fixture/predator-sense-cpu-profile.lock"
    );
    assert_eq!(acquire("/l", &LockAttempt::Taken, 0), Ok(true));
    assert_eq!(acquire("/l", &LockAttempt::Busy, 9_999), Ok(false));
    assert!(acquire("/l", &LockAttempt::Busy, 10_000)
        .unwrap_err()
        .contains("timed out"));
    assert!(acquire("/l", &LockAttempt::Failed("denied".to_string()), 0)
        .unwrap_err()
        .ends_with("using /l: denied"));
    assert!(lock_open_failed("/l", "denied").ends_with("lock /l: denied"));
}

#[test]
fn policies_are_taken_by_number() {
    let listing = words(&["policy10", "policy2", "boost", "policy0"]);
    let dirs = cpu_policy_dirs("/sys", &Ok(listing)).unwrap();
    let names: Vec<&str> = dirs.iter().map(|d| d.rsplit('/').next().unwrap()).collect();
    assert_eq!(names, ["policy0", "policy2", "policy10"]);
    assert!(cpu_policy_dirs("/sys", &Ok(Vec::new())).is_err());
    assert!(cpu_policy_dirs("/sys", &Err("denied".to_string())).is_err());
}

#[test]
fn a_policy_without_an_energy_preference_is_skipped() {
    let policies = vec![
        PolicyPreference { path: "/p0".to_string(), has_preference: true },
        PolicyPreference { path: "/p1".to_string(), has_preference: false },
        PolicyPreference { path: "/p2".to_string(), has_preference: true },
    ];
    let writes = set_preference_writes(EnergyPreference::Power, &policies);
    let seen: Vec<(&str, &str, &str)> = writes
        .iter()
        .map(|write| (write.label.as_str(), write.value.as_str(), write.path.as_str()))
        .collect();
    assert_eq!(
        seen,
        [
            ("epp", "power", "/p0/energy_performance_preference"),
            ("epp", "power", "/p2/energy_performance_preference"),
        ]
    );
}

#[test]
fn a_governor_is_written_to_every_policy() {
    let policies = vec!["/p0".to_string(), "/p1".to_string()];
    let writes = set_governor_writes(CpuGovernor::Powersave, &policies);
    let paths: Vec<&str> = writes.iter().map(|write| write.path.as_str()).collect();
    assert_eq!(paths, ["/p0/scaling_governor", "/p1/scaling_governor"]);
    assert!(writes
        .iter()
        .all(|write| write.label == "scaling-governor" && write.value == "powersave"));
}

#[test]
fn a_read_back_has_to_be_of_every_policy() {
    let request = CpuProfileRequest {
        governor: CpuGovernor::Performance,
        epp: None,
        no_turbo: None,
        min_perf_pct: None,
    };
    let context = CpuContext {
        policies: vec!["/p0".to_string(), "/p1".to_string()],
        hwp_active: false,
        min_perf_floor_pct: None,
        no_turbo_path: "/no_turbo".to_string(),
        min_perf_path: "/min_perf".to_string(),
    };
    let read = |paths: &[&str]| ReadBack {
        policies: paths
            .iter()
            .map(|path| PolicyReadBack {
                path: path.to_string(),
                governor: Ok("performance".to_string()),
                epp: Err("none".to_string()),
            })
            .collect(),
        no_turbo: Err("none".to_string()),
        min_perf: Err("none".to_string()),
    };
    assert_eq!(verify_cpu_profile(request, &context, &read(&["/p0", "/p1"])), Ok(None));
    for paths in [&[][..], &["/p0"][..], &["/p0", "/p2"][..], &["/p1", "/p0"][..]] {
        let error = verify_cpu_profile(request, &context, &read(paths)).unwrap_err();
        assert!(error.contains("not every CPU policy was read back"), "{error}");
    }
}

#[test]
fn the_offset_put_back_is_the_one_that_was_there() {
    for offset in [0u8, 5, 20] {
        let capability = Capability::new(105, 127, offset, 0);
        assert_eq!(offset_to_put_back(&capability), offset);
        let again = Capability::new(105, 127, offset_to_put_back(&capability), 3);
        assert_eq!(temp_limit_confirm(Ok(Some(again)), capability.current_c), Ok(()));
    }
    // Beyond the field, and beyond the temperature it is taken from.
    assert_eq!(offset_to_put_back(&Capability::new(105, 20, 90, 0)), 20);
    assert_eq!(offset_to_put_back(&Capability::new(50, 127, 90, 0)), 50);
}
