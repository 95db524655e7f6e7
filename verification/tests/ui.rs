use predator_sense::config::settings::{
    AppConfig, FanBinding, FanPlan, LightingScheme, ModeBinding,
};
use predator_sense::hardware::fan::{fan_curve_pct, DEFAULT_FAN_CURVE, FAN_CURVE_BREAKPOINTS};
use predator_sense::hardware::keyboard_rgb::{Effect, KeyboardState};
use predator_sense::hardware::light_bar::{LightBarMode, LightBarState};
use predator_sense::hardware::machine::StorageDevice;
use predator_sense::ui::color::{hex_entry_text, hex_of, parse_hex};
use predator_sense::ui::dashboard::{
    bios_detail, build_short_summary, find_model_photo, format_gpu_detail, gpu_status,
    initial_gpu_status, net_detail, os_detail, ram_detail, storage_detail, GpuLiveState,
    GPU_LOADING, GPU_SUSPENDED, GPU_UNAVAILABLE,
};
use predator_sense::ui::debounce::Debouncer;
use predator_sense::ui::fan_curve_geometry::{
    edited, firmware_region_end_x, lit_step, pct_at_y, plot_for, step_at_x, x_for_temp, y_for_pct,
    Plot, AXIS_MAX, AXIS_MIN, MARGIN_BOTTOM, MARGIN_LEFT, MARGIN_RIGHT, MARGIN_TOP, PARTS,
};
use predator_sense::ui::fan_page::{
    kinds_for, plan_for_click, plan_of, recall_curve, remember_curve, report, write_curve,
    write_plan, FanPage, PlanKind, Report, PRESET_SILENT,
};
use predator_sense::ui::idle_settings::{
    dark_after, delay_at, delay_index, set_bar_delay, set_idle_bar, set_idle_enabled, set_idle_keyboard,
    set_idle_synced, set_keyboard_delay, set_mouse_wakes, DELAYS, DELAY_LABELS,
};
use predator_sense::ui::palette::{drop_color, keep_color};
use predator_sense::ui::schemes::{
    apply_scheme_by_name, apply_scheme_for_mode, bind_mode, binding_options, bound_scheme,
    delete_scheme, record_applied, remember_applied, save_scheme, scheme_names, selected_option,
    store_into_bound_scheme, store_into_edited_scheme, wake_needed, Half, NO_SCHEME,
};
use predator_sense::ui::startup::{
    gl_renderer_name, icon_candidates, resource_candidates, GSK_GL_RENDERER, GSK_NGL_RENDERER,
};

#[test]
fn selects_the_unified_gl_renderer_name_for_the_runtime_gtk_version() {
    assert_eq!(gl_renderer_name(4, 16), GSK_NGL_RENDERER);
    assert_eq!(gl_renderer_name(4, 17), GSK_NGL_RENDERER);
    assert_eq!(gl_renderer_name(4, 18), GSK_GL_RENDERER);
    assert_eq!(gl_renderer_name(4, 22), GSK_GL_RENDERER);
    assert_eq!(gl_renderer_name(5, 0), GSK_GL_RENDERER);
}

#[test]
fn resources_are_looked_for_beside_the_program_first() {
    let dir = Some("/build/bin".to_string());
    assert_eq!(
        icon_candidates(&dir),
        [
            "/build/bin/resources/logo-128.png",
            "/build/bin/../resources/logo-128.png",
            "/build/bin/../../resources/logo-128.png",
            "/opt/predator-sense/resources/logo-128.png",
        ]
    );
    assert_eq!(icon_candidates(&None).len(), 1);
    assert_eq!(
        resource_candidates("style.css", &dir),
        [
            "/build/bin/../../resources/style.css",
            "/build/bin/resources/style.css",
            "/opt/predator-sense/resources/style.css",
        ]
    );
}

#[test]
fn hex_parsing_rejects_junk() {
    assert_eq!(parse_hex("#00aec7"), Some((0, 174, 199)));
    assert_eq!(parse_hex("00aec7"), Some((0, 174, 199)));
    assert_eq!(parse_hex("#00aec"), None);
    assert_eq!(parse_hex("zzzzzz"), None);
}

#[test]
fn a_color_is_read_back_as_it_is_written() {
    for (red, green, blue) in [(0, 174, 199), (255, 255, 255), (1, 2, 3)] {
        assert_eq!(parse_hex(&hex_of(red, green, blue)), Some((red, green, blue)));
        assert_eq!(
            parse_hex(&hex_entry_text(red, green, blue)),
            Some((red, green, blue))
        );
    }
    assert_eq!(hex_of(0, 174, 199), "#00aec7");
    assert_eq!(hex_entry_text(0, 174, 199), "#00AEC7");
    assert_eq!(parse_hex("+f+f+f"), None);
    assert_eq!(parse_hex("é0aec"), None);
}

#[test]
fn keeps_static_nvidia_identity_visible_while_loading() {
    let detail = format_gpu_detail(
        "NVIDIA GeForce RTX 5070 Laptop GPU",
        0,
        "610.43.03",
        Some("Loading live NVIDIA data..."),
    );

    assert!(detail.contains("NVIDIA GeForce RTX 5070 Laptop GPU"));
    assert!(detail.contains("Driver 610.43.03"));
    assert!(detail.contains("Loading live NVIDIA data..."));
}

#[test]
fn adds_vram_when_live_hydration_finishes() {
    let detail = format_gpu_detail(
        "NVIDIA GeForce RTX 5070 Laptop GPU",
        8192,
        "610.43.03",
        None,
    );

    assert!(detail.contains("8 GB VRAM"));
    assert!(detail.contains("Driver 610.43.03"));
}

#[test]
fn a_card_is_described_in_full() {
    assert_eq!(
        format_gpu_detail("RTX", 8188, "610", Some("live")),
        "RTX\n8 GB VRAM · Driver 610 · live"
    );
    assert_eq!(format_gpu_detail("RTX", 0, "", None), "RTX");
    // Halfway goes to the even gigabyte.
    assert!(format_gpu_detail("RTX", 2560, "", None).contains("2 GB"));
    assert!(format_gpu_detail("RTX", 3584, "", None).contains("4 GB"));
}

#[test]
fn the_state_of_live_data_is_said() {
    assert_eq!(initial_gpu_status(false, true), None);
    assert_eq!(initial_gpu_status(true, true), Some(GPU_LOADING));
    assert_eq!(initial_gpu_status(true, false), Some(GPU_SUSPENDED));
    assert_eq!(gpu_status(true, GpuLiveState::Live, true), None);
    assert_eq!(
        gpu_status(false, GpuLiveState::Static, false),
        Some(GPU_SUSPENDED)
    );
    assert_eq!(
        gpu_status(false, GpuLiveState::Unavailable, true),
        Some(GPU_UNAVAILABLE)
    );
}

fn disk(model: &str, sectors: u64) -> StorageDevice {
    StorageDevice {
        name: "sda".to_string(),
        model: model.to_string(),
        sectors,
        kind: "HDD",
    }
}

#[test]
fn the_details_of_the_machine_are_said() {
    assert_eq!(
        build_short_summary(16, "16 cores", 32_561_234, "RTX", "Unknown"),
        "16 cores · 31 GB RAM · RTX"
    );
    assert_eq!(build_short_summary(0, "0 cores", 0, "Unknown", "Unknown"), "");
    assert_eq!(ram_detail(0, "DDR5"), "—");
    assert_eq!(ram_detail(32_561_234, ""), "31 GB total");
    assert_eq!(ram_detail(32_561_234, "DDR5"), "31 GB · DDR5");
    assert_eq!(storage_detail(&Vec::new()), "—");
    assert_eq!(
        storage_detail(&vec![disk("A ", 4_194_304)]),
        "A · 2 GB · HDD"
    );
    assert_eq!(
        storage_detail(&vec![
            disk("A", 4_194_304),
            disk("B", 4_194_304),
            disk("C", 4_194_304),
            disk("D", 4_194_304),
        ]),
        "A · 2 GB · HDD\nB · 2 GB · HDD\n+2 ..."
    );
    assert_eq!(
        net_detail("Wi-Fi", "wlp4s0", "aa:bb", "IP", &None, "none"),
        "Wi-Fi · wlp4s0\naa:bb\nIP --"
    );
    assert_eq!(net_detail("Wi-Fi", "", "aa:bb", "IP", &None, "none"), "none");
    assert_eq!(os_detail("Fedora", "6.18"), "Fedora\nKernel 6.18");
    assert_eq!(bios_detail("V1.26"), "BIOS V1.26");
    assert_eq!(bios_detail(""), "—");
}

#[test]
fn the_photo_of_the_model_is_picked() {
    let files: Vec<String> = ["README", "AN515.png", "PH16-71.png"]
        .iter()
        .map(|f| f.to_string())
        .collect();
    assert_eq!(find_model_photo("Predator ph16-71", &files), Some(2));
    assert_eq!(find_model_photo("Aspire", &files), None);
}

/// A position along the axis, from whole pixels.
fn px(pixels: i64) -> i64 {
    pixels * 1000 * PARTS
}

fn plot() -> Plot {
    // 6 columns of 100px, 200px tall.
    Plot {
        x: 0,
        y: 0,
        w: 600_000,
        h: 200_000,
    }
}

#[test]
fn the_plot_sits_inside_the_widget_margins() {
    let p = plot_for(
        600_000 + MARGIN_LEFT + MARGIN_RIGHT,
        200_000 + MARGIN_TOP + MARGIN_BOTTOM,
    );
    assert_eq!(p.x, MARGIN_LEFT);
    assert_eq!(p.y, MARGIN_TOP);
    assert_eq!(p.w, 600_000);
    assert_eq!(p.h, 200_000);
}

#[test]
fn a_widget_smaller_than_its_margins_gets_an_empty_plot() {
    assert_eq!(plot_for(-4_000, -4_000), plot_for(4_000, 4_000));
    let p = plot_for(4_000, 4_000);
    assert_eq!(p.w, 0);
    assert_eq!(p.h, 0);
    assert_eq!(step_at_x(p, px(50)), 0);
    assert_eq!(pct_at_y(p, 50_000), 0);
}

#[test]
fn the_columns_tile_the_plot_exactly() {
    let p = plot();
    assert_eq!(predator_sense::ui::fan_curve_geometry::column(p, 0), (0, px(100)));
    assert_eq!(predator_sense::ui::fan_curve_geometry::column(p, 5), (px(500), px(600)));
}

#[test]
fn a_point_in_a_column_selects_that_step() {
    let p = plot();
    assert_eq!(step_at_x(p, px(50)), 0);
    assert_eq!(step_at_x(p, px(250)), 2);
    assert_eq!(step_at_x(p, px(599)), 5);
}

#[test]
fn a_point_outside_the_plot_selects_the_nearest_step() {
    let p = plot();
    assert_eq!(step_at_x(p, px(-80)), 0);
    assert_eq!(step_at_x(p, px(9_000)), 5);
}

#[test]
fn full_speed_is_the_top_of_the_plot_and_zero_is_the_bottom() {
    let p = plot();
    assert_eq!(y_for_pct(p, 100), 0);
    assert_eq!(y_for_pct(p, 0), 200_000);
    assert_eq!(y_for_pct(p, 50), 100_000);
}

#[test]
fn a_y_position_reads_back_as_the_percent_it_was_drawn_at() {
    let p = plot();
    for pct in [0u8, 25, 50, 75, 100] {
        assert_eq!(pct_at_y(p, y_for_pct(p, pct)), pct);
    }
}

#[test]
fn a_drag_past_the_plot_clamps_to_zero_and_a_hundred() {
    let p = plot();
    assert_eq!(pct_at_y(p, -400_000), 100);
    assert_eq!(pct_at_y(p, 400_000), 0);
}

#[test]
fn a_dragged_percent_snaps_to_the_same_five_the_spin_buttons_use() {
    let p = plot();
    // 63% of the way up the plot.
    assert_eq!(pct_at_y(p, 200_000 - 126_000), 65);
    assert_eq!(pct_at_y(p, 200_000 - 124_000), 60);
}

#[test]
fn the_axis_spans_the_temperatures_the_curve_actually_switches_at() {
    let p = plot();
    assert_eq!(x_for_temp(p, AXIS_MIN as i32), 0);
    assert_eq!(x_for_temp(p, AXIS_MAX as i32), px(600));
    // Every breakpoint the curve steps at is a column boundary, so the
    // drawing cannot disagree with `fan::fan_curve_pct`.
    for (i, &c) in FAN_CURVE_BREAKPOINTS.iter().enumerate() {
        assert_eq!(x_for_temp(p, c), predator_sense::ui::fan_curve_geometry::column(p, i).1);
    }
}

#[test]
fn a_temperature_off_the_axis_clamps_to_the_plot() {
    let p = plot();
    assert_eq!(x_for_temp(p, 12_000), 0);
    assert_eq!(x_for_temp(p, 120_000), px(600));
}

#[test]
fn an_edit_changes_only_the_step_it_lands_on() {
    let p = plot();
    let steps = [25u8, 35, 50, 65, 80, 100];
    let after = edited(steps, p, px(250), y_for_pct(p, 20));
    assert_eq!(after, [25, 35, 20, 65, 80, 100]);
}

/// The marker is in the band in force however wide the plot is, at the very edges too.
#[test]
fn the_marker_lands_in_the_band_in_force() {
    let steps = [25u8, 35, 50, 65, 80, 100];
    for width in [43_000, 361_000, 362_001, 642_000, 1_000_003, i64::from(i32::MAX) * 1000] {
        let p = plot_for(width, 200_000);
        for c in [-5_000, 35_000, 44_999, 45_000, 54_999, 55_000, 65_000, 75_000, 84_999, 85_000, 120_000] {
            assert_eq!(steps[lit_step(p, c)], fan_curve_pct(c, &steps), "{c} at {width}");
            assert_eq!(step_at_x(p, x_for_temp(p, c)), lit_step(p, c));
        }
    }
}

#[test]
fn the_firmware_region_ends_where_the_curve_takes_over() {
    let p = plot();
    assert_eq!(firmware_region_end_x(p, None), None);
    assert_eq!(
        firmware_region_end_x(p, Some(55_000)),
        Some(x_for_temp(p, 55_000))
    );
}

#[test]
fn only_the_last_of_a_burst_acts() {
    let mut debouncer = Debouncer::new();
    let first = debouncer.change();
    let second = debouncer.change();
    assert!(!debouncer.acts(first));
    assert!(debouncer.acts(second));
}

#[test]
fn a_color_is_kept_once() {
    let mut colors = vec!["#ff0000".to_string()];
    assert!(keep_color(&mut colors, 0, 174, 199));
    assert!(!keep_color(&mut colors, 0, 174, 199));
    assert_eq!(colors, ["#ff0000", "#00aec7"]);
    drop_color(&mut colors, "#ff0000");
    assert_eq!(colors, ["#00aec7"]);
}

#[test]
fn offered_delays_are_shown_as_themselves() {
    assert_eq!(DELAYS.len(), DELAY_LABELS.len());
    for (i, &secs) in DELAYS.iter().enumerate() {
        assert_eq!(delay_index(secs), i as u32);
        assert_eq!(delay_at(i), secs);
    }
    assert_eq!(delay_index(31), 1);
    assert_eq!(delay_at(6), 30);
}

#[test]
fn idle_settings_take_over_and_let_go() {
    let mut config = AppConfig::default();
    let on = set_idle_enabled(&mut config, true);
    assert!(on.take_over && on.mark_active && !on.unblank_bar);
    assert!(config.idle_enabled && config.light_bar_idle_enabled);
    let off = set_idle_bar(&mut config, false);
    assert!(off.unblank_bar && !off.unblank_keyboard);
    assert!(!config.light_bar_idle_enabled);
    assert!(set_idle_keyboard(&mut config, false).unblank_keyboard);
    set_idle_synced(&mut config, false);
    assert!(!config.idle_synced);
    assert!(set_keyboard_delay(&mut config, 2).mark_active);
    assert_eq!(config.idle_keyboard_secs, 60);
    set_bar_delay(&mut config, 5);
    assert_eq!(config.idle_bar_secs, 1800);
    assert!(set_mouse_wakes(&mut config, false).mark_active);
    assert!(!config.idle_mouse_wakes);
    let gone = set_idle_enabled(&mut config, false);
    assert!(gone.unblank_keyboard && gone.unblank_bar);
}

#[test]
fn synced_devices_go_dark_together() {
    let mut config = AppConfig::default();
    assert_eq!(dark_after(&config, Some(9_000)).keyboard, None);
    config.idle_enabled = true;
    config.idle_keyboard_secs = 60;
    config.idle_bar_secs = 10;
    let dark = dark_after(&config, Some(30));
    assert_eq!((dark.keyboard, dark.bar), (Some(false), Some(false)));
    config.idle_synced = false;
    let dark = dark_after(&config, Some(30));
    assert_eq!((dark.keyboard, dark.bar), (Some(false), Some(true)));
    config.idle_bar_enabled = false;
    assert_eq!(dark_after(&config, Some(60)).bar, None);
    assert_eq!(dark_after(&config, Some(60)).keyboard, Some(true));
    assert_eq!(dark_after(&config, None).keyboard, None);
}

fn keyboard(effect: Effect) -> KeyboardState {
    KeyboardState {
        effect,
        ..KeyboardState::default()
    }
}

fn bar(mode: LightBarMode) -> LightBarState {
    LightBarState {
        mode,
        ..LightBarState::default()
    }
}

fn scheme(name: &str, effect: Effect) -> LightingScheme {
    LightingScheme {
        name: name.to_string(),
        keyboard: Some(keyboard(effect)),
        light_bar: Some(bar(LightBarMode::Wave)),
    }
}

#[test]
fn a_saved_scheme_is_found_and_replaced() {
    let mut schemes = vec![scheme("Game", Effect::Wave)];
    let saved = save_scheme(&mut schemes, "  Work ", Some(keyboard(Effect::Static)), None);
    assert_eq!(saved.as_deref(), Some("Work"));
    assert_eq!(scheme_names(&schemes), ["Game", "Work"]);
    save_scheme(&mut schemes, "Game", Some(keyboard(Effect::Breathing)), None);
    assert_eq!(schemes.len(), 2);
    assert_eq!(schemes[0].keyboard, Some(keyboard(Effect::Breathing)));
    assert_eq!(save_scheme(&mut schemes, "  ", None, None), None);
    assert_eq!(save_scheme(&mut schemes, NO_SCHEME, None, None), None);
    assert_eq!(schemes.len(), 2);
}

#[test]
fn a_deleted_scheme_takes_its_bindings_along() {
    let mut schemes = vec![scheme("Game", Effect::Wave), scheme("Work", Effect::Static)];
    let mut bindings = vec![
        ModeBinding {
            mode: "turbo".to_string(),
            scheme: "Game".to_string(),
        },
        ModeBinding {
            mode: "quiet".to_string(),
            scheme: "Work".to_string(),
        },
    ];
    let mut editing = Some("Game".to_string());
    delete_scheme(&mut schemes, &mut bindings, &mut editing, "Game");
    assert_eq!(scheme_names(&schemes), ["Work"]);
    assert_eq!(bound_scheme(&bindings, "turbo"), None);
    assert_eq!(bound_scheme(&bindings, "quiet").as_deref(), Some("Work"));
    assert_eq!(editing, None);
}

#[test]
fn a_mode_is_bound_to_one_scheme() {
    let options = binding_options(&vec!["Game".to_string(), "Work".to_string()]);
    assert_eq!(options, [NO_SCHEME, "Game", "Work"]);
    let mut bindings = Vec::new();
    bind_mode(&mut bindings, &options, "turbo", 1);
    bind_mode(&mut bindings, &options, "turbo", 2);
    assert_eq!(bindings.len(), 1);
    assert_eq!(bound_scheme(&bindings, "turbo").as_deref(), Some("Work"));
    assert_eq!(selected_option(&bindings, &options, "turbo"), 2);
    assert_eq!(selected_option(&bindings, &options, "eco"), 0);
    bind_mode(&mut bindings, &options, "turbo", 0);
    assert!(bindings.is_empty());
}

#[test]
fn what_is_applied_is_stored_in_one_half() {
    let mut schemes = vec![scheme("Game", Effect::Wave), scheme("Work", Effect::Wave)];
    store_into_edited_scheme(
        &mut schemes,
        &Some("Game".to_string()),
        Half::Keyboard(keyboard(Effect::Static)),
    );
    assert_eq!(schemes[0].keyboard, Some(keyboard(Effect::Static)));
    assert_eq!(schemes[0].light_bar, Some(bar(LightBarMode::Wave)));
    assert_eq!(schemes[1].keyboard, Some(keyboard(Effect::Wave)));
    store_into_edited_scheme(&mut schemes, &None, Half::LightBar(bar(LightBarMode::Off)));
    assert_eq!(schemes[0].light_bar, Some(bar(LightBarMode::Wave)));
    let bindings = vec![ModeBinding {
        mode: "quiet".to_string(),
        scheme: "Work".to_string(),
    }];
    store_into_bound_scheme(
        &mut schemes,
        &bindings,
        &Some("quiet".to_string()),
        Half::LightBar(bar(LightBarMode::Off)),
    );
    assert_eq!(schemes[1].light_bar, Some(bar(LightBarMode::Off)));
}

#[test]
fn a_scheme_goes_to_the_devices_that_are_there() {
    let schemes = vec![scheme("Game", Effect::Wave)];
    assert!(wake_needed(&None));
    assert!(!wake_needed(&Some(bar(LightBarMode::Wave))));
    let order = apply_scheme_by_name(&schemes, "Game", &None, true, true).unwrap();
    assert_eq!(order.light_bar.as_ref().unwrap().1.len(), 2, "woken first");
    let lit = Some(bar(LightBarMode::Static));
    let again = apply_scheme_by_name(&schemes, "Game", &lit, true, true).unwrap();
    assert_eq!(again.light_bar.unwrap().1.len(), 1);
    let bare = apply_scheme_by_name(&schemes, "Game", &None, false, false).unwrap();
    assert!(bare.keyboard.is_none() && bare.light_bar.is_none());
    assert!(apply_scheme_by_name(&schemes, "Work", &None, true, true).is_none());

    let mut keyboard_now = None;
    let mut bar_now = None;
    record_applied(&order, true, false, &mut keyboard_now, &mut bar_now);
    assert_eq!(keyboard_now, Some(keyboard(Effect::Wave)));
    assert_eq!(bar_now, None);

    let bindings = vec![ModeBinding {
        mode: "turbo".to_string(),
        scheme: "Game".to_string(),
    }];
    assert!(apply_scheme_for_mode(&schemes, &bindings, "turbo", &None, true, true).is_some());
    assert!(apply_scheme_for_mode(&schemes, &bindings, "eco", &None, true, true).is_none());
}

#[test]
fn a_bound_plan_is_in_force() {
    let plans = vec![FanBinding {
        mode: "quiet".to_string(),
        plan: FanPlan::Max,
    }];
    assert_eq!(plan_of(&plans, "quiet"), FanPlan::Max);
    assert_eq!(plan_of(&plans, "turbo"), FanPlan::Automatic);
    let fixed = write_plan(&plans, "quiet", FanPlan::Fixed { percent: 40 });
    assert_eq!(fixed.len(), 1);
    assert_eq!(plan_of(&fixed, "quiet"), FanPlan::Fixed { percent: 40 });
    let mut points = DEFAULT_FAN_CURVE;
    let curved = write_curve(&fixed, &mut points, "turbo", PRESET_SILENT);
    assert_eq!(points, PRESET_SILENT);
    assert_eq!(
        plan_of(&curved, "turbo"),
        FanPlan::Curve {
            steps: PRESET_SILENT
        }
    );
}

#[test]
fn a_machine_without_pwm_has_two_plans() {
    assert_eq!(kinds_for(false), [PlanKind::Automatic, PlanKind::Max]);
    assert_eq!(kinds_for(true).len(), 4);
    assert_eq!(
        plan_for_click(PlanKind::Fixed, 40, DEFAULT_FAN_CURVE),
        FanPlan::Fixed { percent: 40 }
    );
    assert_eq!(
        PlanKind::of(plan_for_click(PlanKind::Curve, 40, DEFAULT_FAN_CURVE)),
        PlanKind::Curve
    );
    assert_eq!(PlanKind::Max.label_key(), "max");
}

#[test]
fn a_seen_curve_is_recalled() {
    let mut memory = Vec::new();
    assert_eq!(recall_curve(&memory, "quiet"), None);
    remember_curve(&mut memory, "quiet", PRESET_SILENT);
    remember_curve(&mut memory, "turbo", DEFAULT_FAN_CURVE);
    assert_eq!(recall_curve(&memory, "quiet"), Some(PRESET_SILENT));
}

#[test]
fn the_fan_page_follows_the_machine_until_a_mode_is_picked() {
    let active = Some("quiet".to_string());
    let mut page = FanPage::new(&None);
    assert_eq!(page.editing, "balanced");
    page.follow(&active);
    assert_eq!(page.editing, "quiet");

    let curve = vec![FanBinding {
        mode: "quiet".to_string(),
        plan: FanPlan::Curve {
            steps: PRESET_SILENT,
        },
    }];
    let screen = page.refresh(&curve, DEFAULT_FAN_CURVE, &active).unwrap();
    assert_eq!(screen.steps, PRESET_SILENT);
    assert_eq!(screen.description, "fan_plan_curve_desc");
    assert!(page.refresh(&curve, DEFAULT_FAN_CURVE, &active).is_none());

    // The mode goes to another plan and keeps its curve in the controls.
    let zero = write_plan(&curve, "quiet", FanPlan::Fixed { percent: 0 });
    let screen = page.refresh(&zero, DEFAULT_FAN_CURVE, &active).unwrap();
    assert_eq!(screen.steps, PRESET_SILENT);
    assert_eq!(screen.fixed_percent, 0);
    assert_eq!(screen.description, "fan_plan_fixed_zero_desc");

    page.select_mode("turbo");
    page.follow(&active);
    assert_eq!(page.editing, "turbo");
    let screen = page.refresh(&zero, DEFAULT_FAN_CURVE, &active).unwrap();
    assert_eq!(screen.steps, DEFAULT_FAN_CURVE);
    assert_eq!(screen.kind, PlanKind::Automatic);

    assert_eq!(report("turbo", &active, true), Report::SavedForOtherMode);
    assert_eq!(report("quiet", &active, true), Report::Applying);
    assert_eq!(report("quiet", &active, false), Report::Failed);
}

#[test]
fn an_applied_half_is_kept_in_all_its_places() {
    let keyboard = KeyboardState::default();
    let mut shown = keyboard;
    shown.red = keyboard.red ^ 0xff;
    let scheme = |name: &str| LightingScheme {
        name: name.to_string(),
        keyboard: Some(keyboard),
        light_bar: Some(LightBarState::default()),
    };
    let mut config = AppConfig::default();
    config.lighting_schemes = vec![scheme("edited"), scheme("bound"), scheme("other")];
    config.mode_bindings = vec![ModeBinding {
        mode: "turbo".to_string(),
        scheme: "bound".to_string(),
    }];
    remember_applied(
        &mut config,
        &Some("edited".to_string()),
        &Some("turbo".to_string()),
        Half::Keyboard(shown),
    );
    assert_eq!(config.keyboard_rgb, Some(shown));
    assert_eq!(config.light_bar, None);
    let keyboards: Vec<Option<KeyboardState>> =
        config.lighting_schemes.iter().map(|scheme| scheme.keyboard).collect();
    assert_eq!(keyboards, [Some(shown), Some(shown), Some(keyboard)]);
    assert!(config
        .lighting_schemes
        .iter()
        .all(|scheme| scheme.light_bar == Some(LightBarState::default())));
    let order = apply_scheme_for_mode(
        &config.lighting_schemes,
        &config.mode_bindings,
        "turbo",
        &None,
        true,
        false,
    );
    assert_eq!(order.unwrap().keyboard.unwrap().0, shown);
}
