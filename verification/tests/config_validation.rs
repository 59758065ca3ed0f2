use dnf_autofire::app_config;
use dnf_autofire::config::defaults::CONFIG_VERSION;
use dnf_autofire::config::schema::{
    AppSettings, ComboAction, ComboDefinition, CustomConfig, DetectionSettings, EffectRule,
    FireKeyMode, KeyBinding, LegacyAppConfig,
};
use dnf_autofire::config::validation::{validate_legacy_config, validate_runtime_profile};
use dnf_autofire::keyed_map::KeyedMap;

fn minimal_config() -> LegacyAppConfig {
    LegacyAppConfig {
        version: CONFIG_VERSION,
        global_keys: Vec::new(),
        combo_defs: Vec::new(),
        classes: KeyedMap::new(),
        custom_configs: KeyedMap::new(),
        hidden_class_ids: Vec::new(),
        active_class_id: None,
        toggle_hotkey: None,
        detection: DetectionSettings::default(),
        settings: AppSettings::default(),
    }
}

fn valid_combo(id: &str, trigger_vk: u16) -> ComboDefinition {
    ComboDefinition {
        id: id.to_string(),
        name: "测试连招".to_string(),
        enabled: true,
        trigger_vk: Some(trigger_vk),
        actions: vec![ComboAction::Tap {
            id: format!("{id}-action"),
            label: String::new(),
            vk: Some(0x5A),
            hold_ms: 30,
            wait_after_ms: 100,
        }],
    }
}

fn valid_command_combo() -> ComboDefinition {
    ComboDefinition {
        id: "command-combo".to_string(),
        name: "手搓连招".to_string(),
        enabled: true,
        trigger_vk: Some(0x41),
        actions: vec![command_action(vec![0x26, 0x5A])],
    }
}

fn command_action(keys: Vec<u16>) -> ComboAction {
    ComboAction::Command {
        id: "command-action".to_string(),
        label: String::new(),
        keys,
        key_hold_ms: 30,
        key_gap_ms: 20,
        wait_after_ms: 100,
    }
}

#[test]
fn validate_config_rejects_invalid_detection_interval() {
    let mut config = minimal_config();
    config.detection.interval_ms = 300;

    assert!(validate_legacy_config(&config)
        .unwrap_err()
        .message
        .contains("职业识别间隔只能是"));
}

#[test]
fn validate_config_rejects_invalid_auto_run_pulse_delay() {
    let mut config = minimal_config();
    config.settings.auto_run_pulse_delay_ms = 201;

    assert!(validate_legacy_config(&config)
        .unwrap_err()
        .message
        .contains("一键奔跑双击间隔必须在"));
}

#[test]
fn mod_validate_runtime_profile_rejects_duplicate_combo_triggers() {
    let combos = vec![valid_combo("combo-1", 0x41), valid_combo("combo-2", 0x41)];

    let result = validate_runtime_profile(&Vec::new(), &combos);

    assert!(result
        .unwrap_err()
        .message
        .contains("同一职业的一键连招触发键不能重复"));
}

#[test]
fn mod_validate_runtime_profile_rejects_trigger_autofire_overlap() {
    let keys = vec![KeyBinding {
        vk: 0x41,
        interval_ms: 20,
        mode: FireKeyMode::Hold,
    }];
    let combos = vec![valid_combo("combo-1", 0x41)];

    let result = validate_runtime_profile(&keys, &combos);

    assert!(result
        .unwrap_err()
        .message
        .contains("一键连招触发键不能与当前生效连发键重复"));
}

#[test]
fn mod_validate_runtime_profile_accepts_command_combo_without_autofire_keys() {
    let result = validate_runtime_profile(&Vec::new(), &vec![valid_command_combo()]);

    assert!(result.is_ok());
}

#[test]
fn mod_validate_runtime_profile_rejects_command_with_unrelated_key() {
    let mut combo = valid_command_combo();
    combo.actions = vec![command_action(vec![0x26, 0x41])];

    let result = validate_runtime_profile(&Vec::new(), &vec![combo]);

    assert!(result
        .unwrap_err()
        .message
        .contains("手搓动作只能使用上下左右和 Z/X/C/空格"));
}

#[test]
fn mod_validate_runtime_profile_rejects_command_with_too_many_directions() {
    let mut combo = valid_command_combo();
    combo.actions = vec![command_action(vec![0x26, 0x28, 0x25, 0x27, 0x26, 0x5A])];

    let result = validate_runtime_profile(&Vec::new(), &vec![combo]);

    assert!(result
        .unwrap_err()
        .message
        .contains("手搓动作最多只能包含 4 个方向键"));
}

#[test]
fn mod_validate_runtime_profile_rejects_command_without_finish_key() {
    let mut combo = valid_command_combo();
    combo.actions = vec![command_action(vec![0x26, 0x28])];

    let result = validate_runtime_profile(&Vec::new(), &vec![combo]);

    assert!(result
        .unwrap_err()
        .message
        .contains("手搓动作必须以 Z/X/C/空格结束"));
}

#[test]
fn mod_validate_config_ignores_root_combo_defs() {
    let mut config = minimal_config();
    config.combo_defs.push(ComboDefinition {
        id: "root-invalid".to_string(),
        name: String::new(),
        enabled: true,
        trigger_vk: None,
        actions: Vec::new(),
    });

    assert!(validate_legacy_config(&config).is_ok());
}

#[test]
fn mod_validate_config_rejects_custom_duplicate_keys() {
    let mut config = minimal_config();
    config.custom_configs.insert(
        "custom-1".to_string(),
        CustomConfig {
            name: "测试配置".to_string(),
            enabled_keys: vec![
                KeyBinding {
                    vk: 0x41,
                    interval_ms: 20,
                    mode: FireKeyMode::Hold,
                },
                KeyBinding {
                    vk: 0x41,
                    interval_ms: 25,
                    mode: FireKeyMode::Hold,
                },
            ],
            effect_rule: EffectRule::GlobalAndClass,
            combo_defs: Vec::new(),
        },
    );

    assert!(validate_legacy_config(&config)
        .unwrap_err()
        .message
        .contains("同一配置中不能重复添加相同按键"));
}

#[test]
fn mod_validate_config_rejects_custom_combo_trigger_overlap() {
    let mut config = minimal_config();
    config.custom_configs.insert(
        "custom-1".to_string(),
        CustomConfig {
            name: "测试配置".to_string(),
            enabled_keys: vec![KeyBinding {
                vk: 0x41,
                interval_ms: 20,
                mode: FireKeyMode::Hold,
            }],
            effect_rule: EffectRule::ClassOnly,
            combo_defs: vec![valid_combo("combo-1", 0x41)],
        },
    );

    assert!(validate_legacy_config(&config)
        .unwrap_err()
        .message
        .contains("一键连招触发键不能与当前生效连发键重复"));
}

// ---------------------------------------------------------------------------
// The single-file format of version 6
// ---------------------------------------------------------------------------

fn minimal_v6_config() -> app_config::AppConfig {
    app_config::AppConfig {
        version: app_config::APP_CONFIG_VERSION,
        global_keys: Vec::new(),
        combo_defs: Vec::new(),
        classes: KeyedMap::new(),
        custom_configs: KeyedMap::new(),
        hidden_class_ids: Vec::new(),
        active_class_id: None,
        toggle_hotkey: None,
        detection: app_config::DetectionSettings {
            enabled: true,
            interval_ms: 5000,
            icon_database_version: "builtin-empty-v1".to_string(),
        },
        settings: app_config::AppSettings::default(),
    }
}

#[test]
fn config_validate_runtime_profile_rejects_duplicate_combo_triggers() {
    let combos = vec![valid_combo("combo-1", 0x41), valid_combo("combo-2", 0x41)];

    let result = app_config::validate_runtime_profile(&Vec::new(), &combos);

    assert!(result
        .unwrap_err()
        .contains("同一职业的一键连招触发键不能重复"));
}

#[test]
fn config_validate_runtime_profile_rejects_trigger_autofire_overlap() {
    let keys = vec![app_config::KeyBinding {
        vk: 0x41,
        interval_ms: 20,
    }];
    let combos = vec![valid_combo("combo-1", 0x41)];

    let result = app_config::validate_runtime_profile(&keys, &combos);

    assert!(result
        .unwrap_err()
        .contains("一键连招触发键不能与当前生效连发键重复"));
}

#[test]
fn config_validate_runtime_profile_accepts_command_combo_without_autofire_keys() {
    let result = app_config::validate_runtime_profile(&Vec::new(), &vec![valid_command_combo()]);

    assert!(result.is_ok());
}

#[test]
fn config_validate_runtime_profile_rejects_command_with_unrelated_key() {
    let mut combo = valid_command_combo();
    combo.actions = vec![command_action(vec![0x26, 0x41])];

    let result = app_config::validate_runtime_profile(&Vec::new(), &vec![combo]);

    assert!(result
        .unwrap_err()
        .contains("手搓动作只能使用上下左右和 Z/X/C/空格"));
}

#[test]
fn config_validate_runtime_profile_rejects_command_with_too_many_directions() {
    let mut combo = valid_command_combo();
    combo.actions = vec![command_action(vec![0x26, 0x28, 0x25, 0x27, 0x26, 0x5A])];

    let result = app_config::validate_runtime_profile(&Vec::new(), &vec![combo]);

    assert!(result
        .unwrap_err()
        .contains("手搓动作最多只能包含 4 个方向键"));
}

#[test]
fn config_validate_runtime_profile_rejects_command_without_finish_key() {
    let mut combo = valid_command_combo();
    combo.actions = vec![command_action(vec![0x26, 0x28])];

    let result = app_config::validate_runtime_profile(&Vec::new(), &vec![combo]);

    assert!(result
        .unwrap_err()
        .contains("手搓动作必须以 Z/X/C/空格结束"));
}

#[test]
fn config_validate_config_ignores_root_combo_defs() {
    let mut config = minimal_v6_config();
    config.combo_defs.push(ComboDefinition {
        id: "root-invalid".to_string(),
        name: String::new(),
        enabled: true,
        trigger_vk: None,
        actions: Vec::new(),
    });

    assert!(app_config::validate_config(&config).is_ok());
}

#[test]
fn config_validate_config_rejects_custom_duplicate_keys() {
    let mut config = minimal_v6_config();
    config.custom_configs.insert(
        "custom-1".to_string(),
        app_config::CustomConfig {
            name: "测试配置".to_string(),
            enabled_keys: vec![
                app_config::KeyBinding {
                    vk: 0x41,
                    interval_ms: 20,
                },
                app_config::KeyBinding {
                    vk: 0x41,
                    interval_ms: 25,
                },
            ],
            effect_rule: app_config::EffectRule::GlobalAndClass,
            combo_defs: Vec::new(),
        },
    );

    assert!(app_config::validate_config(&config)
        .unwrap_err()
        .contains("同一配置中不能重复添加相同按键"));
}

#[test]
fn config_validate_config_rejects_custom_combo_trigger_overlap() {
    let mut config = minimal_v6_config();
    config.custom_configs.insert(
        "custom-1".to_string(),
        app_config::CustomConfig {
            name: "测试配置".to_string(),
            enabled_keys: vec![app_config::KeyBinding {
                vk: 0x41,
                interval_ms: 20,
            }],
            effect_rule: app_config::EffectRule::ClassOnly,
            combo_defs: vec![valid_combo("combo-1", 0x41)],
        },
    );

    assert!(app_config::validate_config(&config)
        .unwrap_err()
        .contains("一键连招触发键不能与当前生效连发键重复"));
}
