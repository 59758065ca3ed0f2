use dnf_autofire::config::combo_issues::{validate_combo_defs_detailed, validate_combo_defs_for_profile};
use dnf_autofire::config::defaults::{CONFIG_VERSION, DEFAULT_DETECTION_INTERVAL_MS};
use dnf_autofire::config::migration::{
    accept_legacy_config, active_config_change, config_from_legacy_profile, default_config,
    default_config_for_build,
    is_active_profile_id, is_legacy_config_file_name, is_legacy_profile_file_name,
    log_level_from_file, normalize_active_config_id, normalize_combos, normalize_config,
    normalize_keys, normalize_profiles_config, normalize_settings_config, profiles_from_file,
    settings_from_file, FileRead, LoadedConfigStatus,
};
use dnf_autofire::config::schema::{
    AppSettings, ClassConfig, ComboAction, ComboDefinition, ComboValidationField, CustomConfig, EffectRule,
    FireKeyMode, KeyBinding, LogLevelSetting, ProfilesConfig, SettingsConfig,
};
use dnf_autofire::config::validation::{
    normalize_auto_run_pulse_delay_ms, normalize_detection_interval_ms, validate_auto_run_pulse_delay_ms,
    validate_combo_defs, validate_detection_interval_ms, validate_keys, validate_profiles_config,
};
use dnf_autofire::error::AppErrorKind;

fn key(vk: u16, interval_ms: u16) -> KeyBinding {
    KeyBinding { vk, interval_ms, mode: FireKeyMode::Hold }
}

fn tap(id: &str, vk: Option<u16>, hold_ms: u16, wait_after_ms: u16) -> ComboAction {
    ComboAction::Tap { id: id.to_string(), label: String::new(), vk, hold_ms, wait_after_ms }
}

fn combo(id: &str, name: &str, trigger_vk: Option<u16>, actions: Vec<ComboAction>) -> ComboDefinition {
    ComboDefinition { id: id.to_string(), name: name.to_string(), enabled: true, trigger_vk, actions }
}

fn class_with_keys(keys: Vec<KeyBinding>) -> ClassConfig {
    ClassConfig { enabled_keys: keys, effect_rule: EffectRule::GlobalAndClass, combo_defs: Vec::new() }
}

#[test]
fn keys_are_refused_for_interval_then_duplicates() {
    let err = validate_keys(&vec![key(0x41, 9)]).unwrap_err();
    assert_eq!(err.kind, AppErrorKind::Validation);
    assert_eq!(err.message, "连发间隔必须在 10-1000 毫秒之间");
    assert!(validate_keys(&vec![key(0x41, 10), key(0x42, 1000)]).is_ok());
    let err = validate_keys(&vec![key(0x41, 10), key(0x41, 1001)]).unwrap_err();
    assert_eq!(err.message, "连发间隔必须在 10-1000 毫秒之间");
    let err = validate_keys(&vec![key(0x41, 10), key(0x41, 20)]).unwrap_err();
    assert_eq!(err.message, "同一配置中不能重复添加相同按键");
}

#[test]
fn combo_errors_one_by_one() {
    let eff = vec![0x58u16];
    let ok = combo("a", "A", Some(0x41), vec![tap("t", Some(0x5A), 30, 100)]);
    assert!(validate_combo_defs(&vec![ok], &eff).is_ok());

    let cases: Vec<(ComboDefinition, &str)> = vec![
        (combo("a", " ", Some(0x41), vec![tap("t", Some(0x5A), 30, 100)]), "启用的一键连招必须填写名称。"),
        (combo("a", "A", None, vec![tap("t", Some(0x5A), 30, 100)]), "启用的一键连招必须设置触发键。"),
        (combo("a", "A", Some(0x58), vec![tap("t", Some(0x5A), 30, 100)]), "一键连招触发键不能与当前生效连发键重复。"),
        (combo("a", "A", Some(0x41), Vec::new()), "启用的一键连招至少需要一个动作。"),
        (combo("a", "A", Some(0x41), vec![tap("t", None, 30, 100)]), "快捷栏动作必须设置按键。"),
        (combo("a", "A", Some(0x41), vec![tap("t", Some(0x5A), 9, 100)]), "连招按下时长必须在 10-1000 毫秒之间"),
        (combo("a", "A", Some(0x41), vec![tap("t", Some(0x5A), 30, 5001)]), "动作后等待不能超过 5000 毫秒"),
        (
            combo("a", "A", Some(0x41), vec![ComboAction::Command {
                id: "c".to_string(),
                label: String::new(),
                keys: Vec::new(),
                key_hold_ms: 30,
                key_gap_ms: 20,
                wait_after_ms: 100,
            }]),
            "手搓动作至少需要一个按键。",
        ),
        (
            combo("a", "A", Some(0x41), vec![ComboAction::Command {
                id: "c".to_string(),
                label: String::new(),
                keys: vec![0x26, 0x5A],
                key_hold_ms: 30,
                key_gap_ms: 1001,
                wait_after_ms: 100,
            }]),
            "手搓按键间隔不能超过 1000 毫秒",
        ),
    ];
    for (c, message) in cases {
        let err = validate_combo_defs(&vec![c], &eff).unwrap_err();
        assert_eq!(err.kind, AppErrorKind::Validation);
        assert_eq!(err.message, message);
    }
    // A disabled combo is only checked for its timings.
    let mut off = combo("a", "", None, Vec::new());
    off.enabled = false;
    assert!(validate_combo_defs(&vec![off], &eff).is_ok());
}

#[test]
fn combo_issues_list_every_problem_with_its_field() {
    let combos = vec![
        combo("a", " ", Some(0x58), vec![tap("t1", None, 5, 6000)]),
        combo("b", "B", Some(0x41), vec![tap("t2", Some(0x5A), 30, 100)]),
        combo("c", "C", Some(0x41), vec![tap("t3", Some(0x5A), 30, 100)]),
    ];
    let issues = validate_combo_defs_detailed(&combos, &vec![0x58]);
    let fields: Vec<(String, Option<String>, ComboValidationField)> =
        issues.iter().map(|i| (i.combo_id.clone(), i.action_id.clone(), i.field)).collect();
    assert_eq!(
        fields,
        vec![
            ("a".to_string(), Some("t1".to_string()), ComboValidationField::HoldMs),
            ("a".to_string(), Some("t1".to_string()), ComboValidationField::WaitAfterMs),
            ("a".to_string(), None, ComboValidationField::Name),
            ("a".to_string(), None, ComboValidationField::Trigger),
            ("a".to_string(), Some("t1".to_string()), ComboValidationField::TapKey),
            ("b".to_string(), None, ComboValidationField::Trigger),
            ("c".to_string(), None, ComboValidationField::Trigger),
        ]
    );
    assert_eq!(issues[5].message, "同一职业的连招触发键不能重复。");
    assert!(validate_combo_defs_detailed(&vec![combos.into_iter().nth(1).unwrap()], &vec![]).is_empty());

    let mut profiles = ProfilesConfig::default();
    profiles.classes.insert("class-a".to_string(), class_with_keys(vec![key(0x41, 20)]));
    let issues = validate_combo_defs_for_profile(
        &profiles,
        "class-a",
        &vec![combo("x", "X", Some(0x58), vec![tap("t", Some(0x5A), 30, 100)])],
    );
    assert_eq!(issues.len(), 1);
    assert_eq!(issues[0].message, "触发键不能与当前生效连发键重复。");
}

#[test]
fn detection_interval_and_pulse_delay_options() {
    for v in [100u64, 200, 500, 1000] {
        assert!(validate_detection_interval_ms(v).is_ok());
        assert_eq!(normalize_detection_interval_ms(v), v);
    }
    assert!(validate_detection_interval_ms(300).is_err());
    assert_eq!(normalize_detection_interval_ms(300), DEFAULT_DETECTION_INTERVAL_MS);
    assert!(validate_auto_run_pulse_delay_ms(10).is_ok());
    assert!(validate_auto_run_pulse_delay_ms(200).is_ok());
    let err = validate_auto_run_pulse_delay_ms(9).unwrap_err();
    assert_eq!(err.message, "一键奔跑双击间隔必须在 10-200 毫秒之间");
    assert_eq!(normalize_auto_run_pulse_delay_ms(201), 25);
    assert_eq!(normalize_auto_run_pulse_delay_ms(30), 30);
}

#[test]
fn normalization_fills_ids_and_brings_values_into_range() {
    let mut keys = vec![key(0x41, 0), key(0x42, 2000)];
    normalize_keys(&mut keys);
    assert_eq!((keys[0].interval_ms, keys[1].interval_ms), (10, 1000));

    let mut combos = vec![
        combo(" ", "A", Some(0x41), vec![tap("", Some(0x5A), 0, 9000), tap("keep", Some(0x5A), 30, 100)]),
        combo("named", "B", Some(0x42), vec![tap("", Some(0x5A), 30, 100)]),
    ];
    normalize_combos(&mut combos, "class-a");
    assert_eq!(combos[0].id, "class-a-combo-1");
    match &combos[0].actions[0] {
        ComboAction::Tap { id, hold_ms, wait_after_ms, .. } => {
            assert_eq!(id, "class-a-combo-1-action-1");
            assert_eq!((*hold_ms, *wait_after_ms), (10, 5000));
        }
        _ => panic!("tap expected"),
    }
    assert_eq!(combos[0].actions[1].action_id(), "keep");
    assert_eq!(combos[1].actions[0].action_id(), "named-action-1");
}

#[test]
fn normalized_profiles_drop_an_active_id_naming_no_configured_profile() {
    let mut profiles = ProfilesConfig::default();
    profiles.auto_run.pulse_delay_ms = 500;
    profiles.classes.insert("class-a".to_string(), class_with_keys(vec![key(0x41, 20)]));
    profiles.classes.insert("class-empty".to_string(), class_with_keys(Vec::new()));
    profiles.active_class_id = Some(" class-a ".to_string());
    normalize_profiles_config(&mut profiles);
    assert_eq!(profiles.active_class_id, Some("class-a".to_string()));
    assert_eq!(profiles.auto_run.pulse_delay_ms, 25);
    assert!(validate_profiles_config(&profiles).is_ok());

    profiles.active_class_id = Some("class-empty".to_string());
    normalize_profiles_config(&mut profiles);
    assert_eq!(profiles.active_class_id, None);
    assert!(is_active_profile_id(&profiles, "class-a"));
    assert!(!is_active_profile_id(&profiles, "class-empty"));
    assert!(!is_active_profile_id(&profiles, "missing"));
}

#[test]
fn select_active_config_reports_changes_only() {
    let mut profiles = ProfilesConfig::default();
    profiles.classes.insert("male_slayer_blade_master".to_string(), class_with_keys(vec![key(0x41, 20)]));
    assert_eq!(
        normalize_active_config_id(&profiles, Some("male_slayer_blade_master".to_string())),
        Some("male_slayer_blade_master".to_string())
    );
    let change = active_config_change(&profiles, Some("male_slayer_blade_master".to_string()));
    assert_eq!(change, Some(Some("male_slayer_blade_master".to_string())));
    profiles.active_class_id = change.unwrap();
    // Selecting it again changes nothing.
    assert_eq!(active_config_change(&profiles, Some("male_slayer_blade_master".to_string())), None);
    // An unknown id falls back to the global configuration.
    assert_eq!(active_config_change(&profiles, Some("missing-class-id".to_string())), Some(None));
    profiles.active_class_id = None;
    assert_eq!(active_config_change(&profiles, Some("missing-class-id".to_string())), None);
    assert_eq!(active_config_change(&profiles, None), None);
}

#[test]
fn settings_file_outcomes() {
    let mut parsed = SettingsConfig::default();
    parsed.detection.interval_ms = 300;
    let loaded = settings_from_file(FileRead::Parsed(parsed), None, false);
    assert_eq!(loaded.status, LoadedConfigStatus::Existing);
    assert_eq!(loaded.value.detection.interval_ms, DEFAULT_DETECTION_INTERVAL_MS);
    assert!(!loaded.should_persist());

    let loaded = settings_from_file(FileRead::Unparsable, None, false);
    assert_eq!(loaded.status, LoadedConfigStatus::Invalid);
    assert!(!loaded.should_persist());
    let loaded = settings_from_file(FileRead::Absent, None, false);
    assert_eq!(loaded.status, LoadedConfigStatus::Missing);
    assert!(loaded.should_persist());

    let mut legacy = default_config();
    legacy.settings.launch_at_startup = true;
    let loaded = settings_from_file(FileRead::Absent, Some(&legacy), false);
    assert_eq!(loaded.status, LoadedConfigStatus::Migrated);
    assert!(loaded.value.launch_at_startup);
    assert!(loaded.should_persist());
    let mut s = SettingsConfig::default();
    s.detection.interval_ms = 7;
    normalize_settings_config(&mut s);
    assert_eq!(s.detection.interval_ms, DEFAULT_DETECTION_INTERVAL_MS);
}

#[test]
fn profiles_file_outcomes() {
    let mut bad = ProfilesConfig::default();
    bad.global_keys = vec![key(0x41, 20), key(0x41, 30)];
    let loaded = profiles_from_file(FileRead::Parsed(bad), None);
    assert_eq!(loaded.status, LoadedConfigStatus::Invalid);
    assert_eq!(loaded.value.global_keys.len(), 1);
    assert_eq!(loaded.value.global_keys[0].vk, 0x58);

    let loaded = profiles_from_file(FileRead::Parsed(ProfilesConfig::default()), None);
    assert_eq!(loaded.status, LoadedConfigStatus::Existing);
    let loaded = profiles_from_file(FileRead::Unreadable, None);
    assert_eq!(loaded.status, LoadedConfigStatus::Invalid);

    let mut legacy = config_from_legacy_profile(&vec![74, 88]);
    legacy.settings.auto_run_enabled = true;
    legacy.settings.auto_run_pulse_delay_ms = 30;
    let loaded = profiles_from_file(FileRead::Absent, Some(&legacy));
    assert_eq!(loaded.status, LoadedConfigStatus::Migrated);
    let vks: Vec<u16> = loaded.value.global_keys.iter().map(|k| k.vk).collect();
    assert_eq!(vks, vec![74, 88]);
    assert!(loaded.value.auto_run.enabled);
    assert_eq!(loaded.value.auto_run.pulse_delay_ms, 30);
}

#[test]
fn legacy_config_is_normalized_and_checked() {
    let config = default_config();
    assert_eq!(config.version, CONFIG_VERSION);
    assert_eq!(config.global_keys.len(), 1);
    assert!(accept_legacy_config(config).is_some());

    let mut old = default_config();
    old.version = 3;
    old.detection.enabled = true;
    old.detection.interval_ms = 5000;
    normalize_config(&mut old);
    assert_eq!(old.version, CONFIG_VERSION);
    assert!(!old.detection.enabled);
    assert_eq!(old.detection.interval_ms, DEFAULT_DETECTION_INTERVAL_MS);

    let mut dup = default_config();
    dup.custom_configs.insert(
        "custom-1".to_string(),
        CustomConfig { name: "x".to_string(), enabled_keys: vec![key(1, 20), key(1, 20)], effect_rule: EffectRule::ClassOnly, combo_defs: Vec::new() },
    );
    assert!(accept_legacy_config(dup).is_none());
}

#[test]
fn config_file_names() {
    assert!(is_legacy_config_file_name("app-config.json"));
    assert!(is_legacy_config_file_name("App-Config.JSON"));
    assert!(!is_legacy_config_file_name("profiles.json"));
    assert!(is_legacy_profile_file_name("old-profile.json"));
    assert!(!is_legacy_profile_file_name("app-config.json"));
    assert!(!is_legacy_profile_file_name("settings.json"));
    assert!(!is_legacy_profile_file_name("profiles.json"));
    assert!(!is_legacy_profile_file_name("README"));
    assert!(!is_legacy_profile_file_name(".json"));
    assert!(!is_legacy_profile_file_name("notes.txt"));
}

#[test]
fn log_level_from_the_settings_file() {
    assert_eq!(log_level_from_file(None, false), LogLevelSetting::default());
    assert_eq!(log_level_from_file(None, false), LogLevelSetting::Info);
    assert_eq!(log_level_from_file(None, true), LogLevelSetting::Debug);
    assert_eq!(log_level_from_file(Some((Some(LogLevelSetting::Warn), LogLevelSetting::Info)), true), LogLevelSetting::Warn);
    assert_eq!(log_level_from_file(Some((None, LogLevelSetting::Error)), false), LogLevelSetting::Error);
}

#[test]
fn defaults_follow_the_build() {
    assert_eq!(settings_from_file(FileRead::Unparsable, None, true).value.log_level, LogLevelSetting::Debug);
    assert_eq!(settings_from_file(FileRead::Absent, None, true).value.log_level, LogLevelSetting::Debug);
    assert_eq!(settings_from_file(FileRead::Absent, None, false).value.log_level, LogLevelSetting::Info);
    assert_eq!(default_config_for_build(true).settings.log_level, LogLevelSetting::Debug);
    assert_eq!(default_config_for_build(false).settings.log_level, LogLevelSetting::Info);
    assert_eq!(SettingsConfig::default_for_build(true).log_level, LogLevelSetting::Debug);
    assert_eq!(SettingsConfig::default_for_build(false), SettingsConfig::default());
    assert_eq!(AppSettings::default_for_build(true).log_level, LogLevelSetting::Debug);
}
