use predator_sense::config::files::{
    backup_app_config, backup_config_file, config_dir, config_dir_under, delete_macro,
    export_app_config_to,
    file_timestamp, import_app_config_from, item_file, list_macros, list_profiles,
    load_app_config, load_app_config_source, macros_dir, profiles_dir, read_app_config_at,
    sanitize_filename, set_autostart, suggested_export_filename, AppConfigSource, Moment,
    ReadFault, AUTOSTART_ENTRY,
};
use predator_sense::config::settings::{AppConfig, FanBinding, FanPlan, PowerSourceAction};
use predator_sense::hardware::profile::PowerProfile;

/// Settings that cannot be parsed must never look like a fresh install: a
/// fresh install is the one case where writing defaults back is safe.
#[test]
fn an_unreadable_config_is_not_reported_as_a_fresh_install() {
    let missing: Result<Result<AppConfig, String>, ReadFault> = Err(ReadFault::NotFound);
    assert!(
        matches!(read_app_config_at(missing), AppConfigSource::Missing),
        "no file at all is the one case where writing defaults back is safe"
    );
    assert!(matches!(
        read_app_config_at(Ok(Ok(AppConfig::default()))),
        AppConfigSource::Loaded(_)
    ));
    let garbage: Result<Result<AppConfig, String>, ReadFault> =
        Ok(Err("key must be a string at line 1 column 3".to_string()));
    match read_app_config_at(garbage) {
        AppConfigSource::Unreadable(error) => assert!(!error.is_empty()),
        _ => panic!("a present but unparseable file must not read as Missing or Loaded"),
    }
    let locked: Result<Result<AppConfig, String>, ReadFault> =
        Err(ReadFault::Other("permission denied".to_string()));
    assert!(matches!(
        read_app_config_at(locked),
        AppConfigSource::Unreadable(_)
    ));
}

/// What is exported is what is imported.
#[test]
fn an_exported_settings_file_imports_back_unchanged() {
    let mut config = AppConfig::default();
    config.fan_plans = vec![
        FanBinding {
            mode: "quiet".to_string(),
            plan: FanPlan::Curve {
                steps: [15, 25, 35, 50, 80, 100],
            },
        },
        FanBinding {
            mode: "turbo".to_string(),
            plan: FanPlan::Max,
        },
    ];
    config.saved_colors = vec!["#ff0000".to_string()];

    let exported =
        export_app_config_to(AppConfigSource::Loaded(config), AppConfig::default()).unwrap();
    let back = import_app_config_from(read_app_config_at(Ok(Ok(exported)))).unwrap();

    assert_eq!(back.fan_plans.len(), 2);
    assert_eq!(back.fan_plans[0].mode, "quiet");
    assert_eq!(
        back.fan_plans[0].plan,
        FanPlan::Curve {
            steps: [15, 25, 35, 50, 80, 100]
        }
    );
    assert_eq!(back.fan_plans[1].plan, FanPlan::Max);
    assert_eq!(back.saved_colors, vec!["#ff0000".to_string()]);
}

/// Import has to refuse before it replaces, not after.
#[test]
fn an_unreadable_settings_file_is_rejected_by_import() {
    let wrong: AppConfigSource<AppConfig> =
        read_app_config_at(Ok(Err("unknown variant `Curve`".to_string())));
    assert!(
        import_app_config_from(wrong).is_err(),
        "a file the app would silently fall back on must not be importable"
    );
    let garbage: AppConfigSource<AppConfig> =
        read_app_config_at(Ok(Err("key must be a string".to_string())));
    assert_eq!(
        import_app_config_from(garbage).unwrap_err(),
        "key must be a string"
    );
    let missing: AppConfigSource<AppConfig> = read_app_config_at(Err(ReadFault::NotFound));
    assert!(
        import_app_config_from(missing).is_err(),
        "no file at all is an error to import from, not a silent set of defaults"
    );
}

#[test]
fn unreadable_settings_are_not_exported_as_defaults() {
    let unreadable: AppConfigSource<u8> = AppConfigSource::Unreadable("torn".to_string());
    assert_eq!(export_app_config_to(unreadable, 7).unwrap_err(), "torn");
    assert_eq!(export_app_config_to(AppConfigSource::Missing, 7), Ok(7));
}

#[test]
fn unreadable_settings_are_reported_once() {
    let mut logged = false;
    let source: AppConfigSource<u8> = AppConfigSource::Unreadable("torn".to_string());
    assert_eq!(
        load_app_config_source(&source, &mut logged).as_deref(),
        Some("config: config.json exists but could not be loaded, running on defaults without overwriting it: torn")
    );
    assert_eq!(load_app_config_source(&source, &mut logged), None);
    assert_eq!(load_app_config(source, 7), 7);
    let mut fresh = false;
    let loaded = AppConfigSource::Loaded(3u8);
    assert_eq!(load_app_config_source(&loaded, &mut fresh), None);
    assert!(!fresh);
    assert_eq!(load_app_config(loaded, 7), 3);
}

const AT: Moment = Moment {
    year: 2026,
    month: 9,
    day: 8,
    hour: 6,
    minute: 1,
};

#[test]
fn a_backup_is_named_after_its_time() {
    assert_eq!(
        backup_config_file(false, b"/tmp/x", AT),
        None,
        "no config to back up is not a failure"
    );
    assert_eq!(
        backup_config_file(true, b"/tmp/x", AT).as_deref(),
        Some(&b"/tmp/x/config-backup-2026-09-08-0601.json"[..])
    );
    assert_eq!(file_timestamp(AT), "2026-09-08-0601");
    assert_eq!(
        suggested_export_filename(AT),
        "predator-sense-settings-2026-09-08-0601.json"
    );
    let (source, backup) = backup_app_config(true, AT);
    assert!(source.ends_with(b"predator-sense/config.json"));
    assert!(backup
        .unwrap()
        .ends_with(b"predator-sense/config-backup-2026-09-08-0601.json"));
}

#[test]
fn settings_live_under_the_users_directory() {
    assert_eq!(
        config_dir_under(&Some(b"/home/a/.config".to_vec())),
        b"/home/a/.config/predator-sense"
    );
    assert_eq!(config_dir_under(&None), b".config/predator-sense");
    // A directory whose name is no text stays the directory it is.
    assert_eq!(
        config_dir_under(&Some(b"/home/\xff\xfe/".to_vec())),
        b"/home/\xff\xfe/predator-sense"
    );
    let base = dirs::config_dir().map(|path| path.into_os_string().into_encoded_bytes());
    assert_eq!(config_dir(), config_dir_under(&base));
    let dir = String::from_utf8(config_dir()).unwrap();
    assert_eq!(profiles_dir(), format!("{dir}/profiles").into_bytes());
    assert_eq!(macros_dir(), format!("{dir}/macros").into_bytes());
}

#[test]
fn a_name_cannot_leave_its_directory() {
    assert_eq!(sanitize_filename("../../etc/passwd"), "etcpasswd");
    assert_eq!(sanitize_filename("Jogo do João-2_b"), "Jogo do João-2_b");
    assert_eq!(
        sanitize_filename(&sanitize_filename("a/b.c")),
        sanitize_filename("a/b.c")
    );
    assert_eq!(item_file(b"/p", "my/profile"), b"/p/myprofile.json");
    assert_eq!(item_file(b"/p", "João"), "/p/João.json".as_bytes());
}

#[test]
fn saved_items_are_listed() {
    let entries = vec![
        "zeta.json".to_string(),
        "readme.txt".to_string(),
        "alpha.json".to_string(),
        "twice.json.json".to_string(),
    ];
    assert_eq!(list_profiles(&entries), ["zeta", "alpha", "twice"]);
    assert_eq!(list_macros(&entries), ["alpha", "twice.json", "zeta"]);
}

#[test]
fn autostart_is_an_entry_of_the_session() {
    let on = set_autostart(true, &Some("/home/a".to_string()));
    assert_eq!(on.dir, "/home/a/.config/autostart");
    assert_eq!(on.entry, "/home/a/.config/autostart/predator-sense.desktop");
    assert_eq!(on.contents.as_deref(), Some(AUTOSTART_ENTRY));
    assert!(AUTOSTART_ENTRY.contains("--background"));
    let off = set_autostart(false, &None);
    assert_eq!(off.contents, None);
    assert_eq!(
        off.obsolete,
        "/home/user/.config/autostart/predator-sense-hotkey.desktop"
    );
}

#[test]
fn a_power_source_action_is_settled_by_the_older_setting() {
    let mut config = AppConfig::default();
    config.power_source_action = Some(PowerSourceAction::Keep);
    assert_eq!(config.power_source_action(), PowerSourceAction::Keep);
    config.power_source_action = None;
    config.auto_profile_ac = true;
    assert_eq!(
        config.power_source_action(),
        PowerSourceAction::MoveIfDisallowed
    );
    config.auto_profile_ac = false;
    assert_eq!(config.power_source_action(), PowerSourceAction::Keep);
    config.power_source_action = Some(PowerSourceAction::AlwaysSet);
    assert_eq!(config.power_source_action(), PowerSourceAction::AlwaysSet);
    assert_eq!(
        PowerSourceAction::default(),
        PowerSourceAction::MoveIfDisallowed
    );
}

#[test]
fn the_defaults_are_these() {
    let config = AppConfig::default();
    assert_eq!(config.fan_curve_points.len(), 6);
    assert!(config.fan_plans.is_empty());
    assert_eq!(config.profile_ac, PowerProfile::Performance);
    assert!(config.lighting_schemes.is_empty());
}

#[test]
fn a_macro_that_is_gone_is_deleted() {
    assert_eq!(delete_macro(Ok(())), Ok(()));
    assert_eq!(delete_macro(Err(ReadFault::NotFound)), Ok(()));
    assert_eq!(
        delete_macro(Err(ReadFault::Other("read-only".to_string()))),
        Err("Erro ao apagar macro: read-only".to_string())
    );
}
