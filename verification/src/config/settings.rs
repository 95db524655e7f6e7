//! The application's settings: what they hold, and how the file that holds them is treated.

use vstd::prelude::*;

use crate::hardware::fan::DEFAULT_FAN_CURVE;
use crate::hardware::keyboard_rgb::KeyboardState;
use crate::hardware::light_bar::LightBarState;
use crate::hardware::profile::PowerProfile;

verus! {

/// Last applied state of the keyboards of the 2024 generation, `E` being their effects.
#[derive(Debug)]
pub struct MagicRgbKeyboardState<E> {
    pub effect: E,
    pub brightness: u8,
    pub speed: u8,
    pub reverse: bool,
    pub red: u8,
    pub green: u8,
    pub blue: u8,
}

/// Last applied state of the cover logo of the 2024 generation, `E` being its effects.
#[derive(Debug)]
pub struct MagicRgbLogoState<E> {
    pub effect: Option<E>,
    pub brightness: u8,
    pub speed: u8,
    pub red: u8,
    pub green: u8,
    pub blue: u8,
}

/// Last applied state of the USB keyboard with the fixed palette: places in the controller's
/// own lists, counted from one.
#[derive(Debug, Clone, Copy, PartialEq, Eq, Structural)]
pub struct ChiconyRgbState {
    pub effect: usize,
    pub color: usize,
    pub brightness: u8,
    pub speed: u8,
}

/// One step of a macro: a key, and how long to wait before it is sent. Where `delay_only` is
/// set, the step only waits.
#[derive(Debug)]
pub struct MacroStep {
    pub key: String,
    pub delay_ms: u32,
    pub delay_only: bool,
}

/// A recorded macro.
#[derive(Debug)]
pub struct Macro {
    pub name: String,
    pub steps: Vec<MacroStep>,
}

/// A saved lighting profile, `C` being the configuration of an effect.
#[derive(Debug)]
pub struct LightingProfile<C> {
    pub name: String,
    pub config: C,
    pub static_zones: Option<Vec<ZoneColor>>,
}

/// The colour of one zone.
#[derive(Debug, Clone, Copy, PartialEq, Eq, Structural)]
pub struct ZoneColor {
    pub zone: u8,
    pub red: u8,
    pub green: u8,
    pub blue: u8,
}

/// A game that switches the power mode while it runs.
#[derive(Debug)]
pub struct GameProfile {
    pub name: String,
    pub executable: String,
    pub profile: PowerProfile,
}

/// Last applied state of the logo on the lid, `C` being the configuration of an effect.
#[derive(Debug)]
pub struct CoverLogoSettings<C> {
    pub enabled: bool,
    pub config: C,
}

/// A named combination of keyboard and light bar.
#[derive(Debug)]
pub struct LightingScheme {
    pub name: String,
    pub keyboard: Option<KeyboardState>,
    pub light_bar: Option<LightBarState>,
}

/// Binds a power mode to a lighting scheme, both by name.
#[derive(Debug)]
pub struct ModeBinding {
    pub mode: String,
    pub scheme: String,
}

/// What the fans do while a power mode is active.
#[derive(Debug, Clone, Copy, PartialEq, Eq)]
pub enum FanPlan {
    /// The firmware has the fans.
    Automatic,
    Curve { steps: [u8; 6] },
    Fixed { percent: u8 },
    Max,
}

/// Binds a fan plan to a power mode, by the mode's name.
#[derive(Debug)]
pub struct FanBinding {
    pub mode: String,
    pub plan: FanPlan,
}

/// What a plug or unplug does to the active mode.
#[derive(Debug, Clone, Copy, PartialEq, Eq, Structural)]
pub enum PowerSourceAction {
    /// Never move the mode.
    Keep,
    /// Move only where the new source does not allow the current mode.
    MoveIfDisallowed,
    /// Always switch to the mode configured for that source.
    AlwaysSet,
}

impl Default for PowerSourceAction {
    fn default() -> (r: Self)
        ensures
            r == PowerSourceAction::MoveIfDisallowed,
    {
        PowerSourceAction::MoveIfDisallowed
    }
}

/// How the five modes fold onto the desktop's three power profiles. The two agree but for
/// Quiet.
#[derive(Debug, Clone, Copy, PartialEq, Eq, Structural)]
pub enum PpdMap {
    /// Eco and Quiet both read as the desktop's power saver.
    QuietSavesPower,
    /// Quiet sits with Balanced, leaving the power saver for Eco alone.
    QuietIsBalanced,
}

impl Default for PpdMap {
    fn default() -> (r: Self)
        ensures
            r == PpdMap::QuietSavesPower,
    {
        PpdMap::QuietSavesPower
    }
}

/// The settings that the library's rules read.
#[derive(Debug)]
pub struct AppConfig {
    pub last_profile: Option<String>,
    pub auto_apply_on_start: bool,
    /// Default on: the timers that do the continuous work live in this process, so quitting on
    /// close turns all of them off.
    pub minimize_on_close: bool,
    pub start_on_boot: bool,
    pub temp_alerts: bool,
    /// Read only where [`AppConfig::power_source_action`] is not set.
    pub auto_profile_ac: bool,
    pub profile_ac: PowerProfile,
    pub profile_battery: PowerProfile,
    pub debug_logging: bool,
    /// Keep the fan on Auto even in Performance and Turbo.
    pub keep_fan_auto_in_performance: bool,
    pub coolboost_enabled: bool,
    /// `auto` or `max`; `None` leaves the firmware alone at the start.
    pub fan_mode: Option<String>,
    pub fan_auto_curve_enabled: bool,
    /// The percentages of the software curve.
    pub fan_curve_points: [u8; 6],
    /// One fan plan per power mode.
    pub fan_plans: Vec<FanBinding>,
    pub rgb_static_zones: Option<Vec<ZoneColor>>,
    pub rgb_brightness: u8,
    pub rgb_is_static: bool,
    pub chicony_rgb: Option<ChiconyRgbState>,
    /// Last applied state of the light bar; `None` means never.
    pub light_bar: Option<LightBarState>,
    /// Last applied state of the keyboard; `None` means never.
    pub keyboard_rgb: Option<KeyboardState>,
    /// Saved colours as `#rrggbb`, shared by both devices.
    pub saved_colors: Vec<String>,
    pub lighting_schemes: Vec<LightingScheme>,
    pub mode_bindings: Vec<ModeBinding>,
    pub light_bar_idle_enabled: bool,
    pub light_bar_idle_secs: u32,
    /// Master switch of idle blanking.
    pub idle_enabled: bool,
    /// One timing for both devices: the keyboard's.
    pub idle_synced: bool,
    pub idle_keyboard_enabled: bool,
    pub idle_keyboard_secs: u32,
    pub idle_bar_enabled: bool,
    pub idle_bar_secs: u32,
    /// Whether cursor motion counts as activity; buttons always do.
    pub idle_mouse_wakes: bool,
    /// Hold the backlight awake against the controller's own timer.
    pub idle_keyboard_keepalive: bool,
    /// The modes the mode key steps through; empty means the firmware's own order.
    pub mode_cycle_ac: Vec<String>,
    pub mode_cycle_battery: Vec<String>,
    /// Mode applied at the start.
    pub mode_default: Option<String>,
    pub auto_eco_enabled: bool,
    pub auto_eco_threshold: u32,
    /// What a plug or unplug does.
    pub power_source_action: Option<PowerSourceAction>,
    pub notify_mode_changes: bool,
    pub ppd_sync_enabled: bool,
    pub ppd_sync_map: PpdMap,
    /// `app`, `command` or `none`.
    pub predator_key_action: String,
    pub predator_key_command: String,
    pub battery_limiter: bool,
    pub battery_health_mode: bool,
    pub ai_assistant_enabled: bool,
    pub ai_auto_apply: bool,
    pub ai_check_interval_min: u32,
    pub language: Option<String>,
    pub game_sync_enabled: bool,
    pub game_profiles: Vec<GameProfile>,
    pub custom_icons_enabled: bool,
    pub audio_sync_enabled: bool,
    pub eco_mode_enabled: bool,
    pub eco_mode_saved_volume_pct: Option<u8>,
    pub eco_mode_saved_brightness_pct: Option<u8>,
    pub keep_default_theme_color: bool,
    /// Whether a mode change also sets the CPU controls.
    pub manage_cpu_power: bool,
}

impl AppConfig {
    /// The settings of an installation that nobody has changed yet.
    pub open spec fn fresh(self) -> bool {
        &&& self.last_profile is None
        &&& !self.auto_apply_on_start
        &&& self.minimize_on_close
        &&& !self.start_on_boot
        &&& self.temp_alerts
        &&& self.auto_profile_ac
        &&& self.profile_ac == PowerProfile::Performance
        &&& self.profile_battery == PowerProfile::Balanced
        &&& !self.debug_logging
        &&& !self.keep_fan_auto_in_performance
        &&& !self.coolboost_enabled
        &&& self.fan_mode is None
        &&& !self.fan_auto_curve_enabled
        &&& self.fan_curve_points == DEFAULT_FAN_CURVE
        &&& self.fan_plans@.len() == 0
        &&& self.rgb_static_zones is None
        &&& self.rgb_brightness == 100
        &&& self.rgb_is_static
        &&& self.chicony_rgb is None
        &&& self.light_bar is None
        &&& self.keyboard_rgb is None
        &&& self.saved_colors@.len() == 0
        &&& self.lighting_schemes@.len() == 0
        &&& self.mode_bindings@.len() == 0
        &&& !self.light_bar_idle_enabled
        &&& self.light_bar_idle_secs == 30
        &&& !self.idle_enabled
        &&& self.idle_synced
        &&& self.idle_keyboard_enabled
        &&& self.idle_keyboard_secs == 30
        &&& self.idle_bar_enabled
        &&& self.idle_bar_secs == 30
        &&& self.idle_mouse_wakes
        &&& self.idle_keyboard_keepalive
        &&& self.mode_cycle_ac@.len() == 0
        &&& self.mode_cycle_battery@.len() == 0
        &&& self.mode_default is None
        &&& !self.auto_eco_enabled
        &&& self.auto_eco_threshold == 30
        &&& self.power_source_action is None
        &&& !self.notify_mode_changes
        &&& !self.ppd_sync_enabled
        &&& self.ppd_sync_map == PpdMap::QuietSavesPower
        &&& self.predator_key_action@ == "app"@
        &&& self.predator_key_command@ == ""@
        &&& !self.battery_limiter
        &&& !self.battery_health_mode
        &&& !self.ai_assistant_enabled
        &&& !self.ai_auto_apply
        &&& self.ai_check_interval_min == 15
        &&& self.language is None
        &&& !self.game_sync_enabled
        &&& self.game_profiles@.len() == 0
        &&& self.custom_icons_enabled
        &&& !self.audio_sync_enabled
        &&& !self.eco_mode_enabled
        &&& self.eco_mode_saved_volume_pct is None
        &&& self.eco_mode_saved_brightness_pct is None
        &&& !self.keep_default_theme_color
        &&& self.manage_cpu_power
    }
}

impl Default for AppConfig {
    fn default() -> (r: Self)
        ensures
            r.fresh(),
    {
        AppConfig {
            last_profile: None,
            auto_apply_on_start: false,
            minimize_on_close: true,
            start_on_boot: false,
            temp_alerts: true,
            auto_profile_ac: true,
            profile_ac: PowerProfile::Performance,
            profile_battery: PowerProfile::Balanced,
            debug_logging: false,
            keep_fan_auto_in_performance: false,
            coolboost_enabled: false,
            fan_mode: None,
            fan_auto_curve_enabled: false,
            fan_curve_points: DEFAULT_FAN_CURVE,
            fan_plans: Vec::new(),
            rgb_static_zones: None,
            rgb_brightness: 100,
            rgb_is_static: true,
            chicony_rgb: None,
            light_bar: None,
            keyboard_rgb: None,
            saved_colors: Vec::new(),
            lighting_schemes: Vec::new(),
            mode_bindings: Vec::new(),
            light_bar_idle_enabled: false,
            light_bar_idle_secs: 30,
            idle_enabled: false,
            idle_synced: true,
            idle_keyboard_enabled: true,
            idle_keyboard_secs: 30,
            idle_bar_enabled: true,
            idle_bar_secs: 30,
            idle_mouse_wakes: true,
            idle_keyboard_keepalive: true,
            mode_cycle_ac: Vec::new(),
            mode_cycle_battery: Vec::new(),
            mode_default: None,
            auto_eco_enabled: false,
            auto_eco_threshold: 30,
            power_source_action: None,
            notify_mode_changes: false,
            ppd_sync_enabled: false,
            ppd_sync_map: PpdMap::QuietSavesPower,
            predator_key_action: "app".to_owned(),
            predator_key_command: "".to_owned(),
            battery_limiter: false,
            battery_health_mode: false,
            ai_assistant_enabled: false,
            ai_auto_apply: false,
            ai_check_interval_min: 15,
            language: None,
            game_sync_enabled: false,
            game_profiles: Vec::new(),
            custom_icons_enabled: true,
            audio_sync_enabled: false,
            eco_mode_enabled: false,
            eco_mode_saved_volume_pct: None,
            eco_mode_saved_brightness_pct: None,
            keep_default_theme_color: false,
            manage_cpu_power: true,
        }
    }
}

impl AppConfig {
    /// What a plug or unplug does. Settings from before this was a choice have only the
    /// switch [`AppConfig::auto_profile_ac`], which keeps its meaning.
    pub fn power_source_action(&self) -> (r: PowerSourceAction)
        ensures
            r == (match self.power_source_action {
                Some(action) => action,
                None => if self.auto_profile_ac {
                    PowerSourceAction::MoveIfDisallowed
                } else {
                    PowerSourceAction::Keep
                },
            }),
            // A choice that was made counts, whatever the older switch says.
            self.power_source_action is Some ==> r == self.power_source_action->0,
            self.power_source_action is None && !self.auto_profile_ac ==> r == PowerSourceAction::Keep,
            self.power_source_action is None && self.auto_profile_ac ==> r
                == PowerSourceAction::MoveIfDisallowed,
    {
        match self.power_source_action {
            Some(action) => action,
            None => if self.auto_profile_ac {
                PowerSourceAction::MoveIfDisallowed
            } else {
                PowerSourceAction::Keep
            },
        }
    }
}

/// A fresh installation does nothing on its own that nobody asked for: it applies nothing at
/// the start, blanks nothing, boosts nothing, limits no battery and follows no game, no sound,
/// no desktop profile and no assistant.
pub proof fn law_fresh_settings_do_nothing_unasked(config: AppConfig)
    requires
        config.fresh(),
    ensures
        !config.auto_apply_on_start && !config.start_on_boot && !config.debug_logging,
        !config.coolboost_enabled && !config.fan_auto_curve_enabled && config.fan_mode is None,
        !config.keep_fan_auto_in_performance && config.fan_plans@.len() == 0,
        !config.idle_enabled && !config.light_bar_idle_enabled,
        !config.auto_eco_enabled && !config.eco_mode_enabled && config.mode_default is None,
        config.eco_mode_saved_volume_pct is None && config.eco_mode_saved_brightness_pct is None,
        !config.notify_mode_changes && !config.ppd_sync_enabled && !config.game_sync_enabled,
        !config.audio_sync_enabled && !config.ai_assistant_enabled && !config.ai_auto_apply,
        !config.battery_limiter && !config.battery_health_mode,
        config.keyboard_rgb is None && config.light_bar is None && config.chicony_rgb is None,
        config.rgb_static_zones is None && config.last_profile is None && config.language is None,
        config.saved_colors@.len() == 0 && config.lighting_schemes@.len() == 0,
        config.mode_bindings@.len() == 0 && config.game_profiles@.len() == 0,
        config.mode_cycle_ac@.len() == 0 && config.mode_cycle_battery@.len() == 0,
        !config.keep_default_theme_color && config.predator_key_command@ == ""@,
{
}

/// What a fresh installation does do: it stays in the background, warns of heat, drives the
/// CPU along with the mode, moves a mode that the power source does not allow, and lights the
/// keyboard in full.
pub proof fn law_fresh_settings_keep_the_machine_working(config: AppConfig)
    requires
        config.fresh(),
    ensures
        config.minimize_on_close && config.temp_alerts && config.manage_cpu_power,
        config.auto_profile_ac && config.power_source_action is None,
        config.profile_ac == PowerProfile::Performance,
        config.profile_battery == PowerProfile::Balanced,
        config.rgb_brightness == 100 && config.rgb_is_static && config.custom_icons_enabled,
        config.idle_synced && config.idle_keyboard_enabled && config.idle_bar_enabled,
        config.idle_mouse_wakes && config.idle_keyboard_keepalive,
        config.idle_keyboard_secs == 30 && config.idle_bar_secs == 30
            && config.light_bar_idle_secs == 30,
        config.auto_eco_threshold == 30 && config.ai_check_interval_min == 15,
        config.ppd_sync_map == PpdMap::QuietSavesPower,
        config.predator_key_action@ == "app"@,
{
}

} // verus!
