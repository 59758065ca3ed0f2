use dnf_autofire::config::migration::{normalize_profiles_config, profiles_for_save, settings_for_save};
use dnf_autofire::config::schema::{
    ClassConfig, ComboAction, ComboDefinition, CustomConfig, EffectRule, FireKeyMode, KeyBinding,
    ProfilesConfig, SettingsConfig,
};
use dnf_autofire::config::validation::validate_profiles_config;
use dnf_autofire::domain::{compute_effective_combos, compute_effective_keys, compute_effective_keys_for_profile};
use dnf_autofire::engines::autofire::{AutoFireEngine, FireKeyConfig};
use dnf_autofire::error::AppErrorKind;
use dnf_autofire::runtime::profile_edits::{add_custom_config, next_custom_config_id};
use dnf_autofire::text::trim_text;

fn key(vk: u16, interval_ms: u16) -> KeyBinding {
    KeyBinding { vk, interval_ms, mode: FireKeyMode::Hold }
}

fn combo(id: &str, trigger_vk: u16) -> ComboDefinition {
    ComboDefinition {
        id: id.to_string(),
        name: id.to_string(),
        enabled: true,
        trigger_vk: Some(trigger_vk),
        actions: vec![ComboAction::Tap { id: String::new(), label: String::new(), vk: Some(0x5A), hold_ms: 3, wait_after_ms: 100 }],
    }
}

#[test]
fn toggling_a_key_twice_restores_its_toggle() {
    let mut engine = AutoFireEngine::new();
    engine.set_key_configs(vec![FireKeyConfig { vk: 0x58, interval_ms: 20, mode: FireKeyMode::Toggle }]);
    assert!(engine.start());
    let before = engine.active_toggle_keys();
    engine.toggle_key(0x58);
    assert_eq!(engine.active_toggle_keys(), vec![0x58]);
    engine.toggle_key(0x58);
    assert_eq!(engine.active_toggle_keys(), before);
}

#[test]
fn normalizing_twice_changes_nothing() {
    let mut profiles = ProfilesConfig::default();
    profiles.global_keys = vec![key(0x41, 1), key(0x42, 9999)];
    profiles.auto_run.pulse_delay_ms = 0;
    profiles.classes.insert(
        "class-a".to_string(),
        ClassConfig { enabled_keys: vec![key(0x43, 5)], effect_rule: EffectRule::ClassOnly, combo_defs: vec![combo(" ", 0x44)] },
    );
    profiles.active_class_id = Some(" class-a".to_string());
    normalize_profiles_config(&mut profiles);
    let once = format!("{:?}", profiles);
    normalize_profiles_config(&mut profiles);
    assert_eq!(format!("{:?}", profiles), once);
    assert_eq!(profiles.classes.get("class-a").unwrap().combo_defs[0].id, "class-a-combo-1");
    assert_eq!(profiles.active_class_id.as_deref(), Some("class-a"));
    assert_eq!(trim_text(&trim_text(" a b ")), trim_text(" a b "));
}

#[test]
fn saving_normalizes_and_refuses_what_does_not_validate() {
    let mut profiles = ProfilesConfig::default();
    profiles.global_keys = vec![key(0x41, 1)];
    let saved = profiles_for_save(profiles).unwrap();
    assert_eq!(saved.global_keys[0].interval_ms, 10);

    let mut bad = ProfilesConfig::default();
    bad.global_keys = vec![key(0x41, 20), key(0x41, 20)];
    let err = profiles_for_save(bad).unwrap_err();
    assert_eq!(err.kind, AppErrorKind::Validation);
    assert_eq!(err.message, "同一配置中不能重复添加相同按键");

    let mut settings = SettingsConfig::default();
    settings.detection.interval_ms = 1;
    assert_eq!(settings_for_save(settings).unwrap().detection.interval_ms, 200);
}

#[test]
fn adding_a_custom_profile_never_replaces_one() {
    let mut profiles = ProfilesConfig::default();
    profiles.custom_configs.insert(
        "custom-2".to_string(),
        CustomConfig { name: "old".to_string(), enabled_keys: vec![key(0x41, 20)], effect_rule: EffectRule::ClassOnly, combo_defs: Vec::new() },
    );
    assert_eq!(next_custom_config_id(&profiles), "custom-3");
    assert!(add_custom_config(&mut profiles, "new").is_ok());
    assert_eq!(profiles.custom_configs.len(), 2);
    assert_eq!(profiles.custom_configs.get("custom-2").unwrap().name, "old");
    assert_eq!(profiles.custom_configs.get("custom-3").unwrap().name, "new");
    assert_eq!(next_custom_config_id(&profiles), "custom-4");
}

#[test]
fn class_and_custom_profiles_with_the_same_content_run_alike() {
    let mut profiles = ProfilesConfig::default();
    profiles.classes.insert(
        "class-a".to_string(),
        ClassConfig { enabled_keys: vec![key(0x58, 50), key(0x41, 30)], effect_rule: EffectRule::GlobalAndClass, combo_defs: vec![combo("c", 0x42)] },
    );
    profiles.custom_configs.insert(
        "custom-1".to_string(),
        CustomConfig { name: "x".to_string(), enabled_keys: vec![key(0x58, 50), key(0x41, 30)], effect_rule: EffectRule::GlobalAndClass, combo_defs: vec![combo("c", 0x42)] },
    );
    let class_keys = compute_effective_keys_for_profile(&profiles, "class-a");
    let custom_keys = compute_effective_keys_for_profile(&profiles, "custom-1");
    assert_eq!(class_keys, custom_keys);
    // The profile's own binding of X wins over the global one.
    assert_eq!(class_keys, vec![key(0x58, 50), key(0x41, 30)]);
    profiles.active_class_id = Some("class-a".to_string());
    let class_combos = compute_effective_combos(&profiles).len();
    profiles.active_class_id = Some("custom-1".to_string());
    assert_eq!(compute_effective_combos(&profiles).len(), class_combos);
}

#[test]
fn validated_combo_triggers_stay_off_the_auto_fire_keys() {
    let combo = |id: &str, trigger_vk: u16| {
        let mut c = combo(id, trigger_vk);
        c.actions = vec![ComboAction::Tap { id: "t".to_string(), label: String::new(), vk: Some(0x5A), hold_ms: 30, wait_after_ms: 100 }];
        c
    };

    let mut profiles = ProfilesConfig::default();
    profiles.classes.insert(
        "class-a".to_string(),
        ClassConfig { enabled_keys: vec![key(0x41, 20)], effect_rule: EffectRule::GlobalAndClass, combo_defs: vec![combo("c", 0x58)] },
    );
    profiles.active_class_id = Some("class-a".to_string());
    // The trigger is a global key, which fires under this profile: refused.
    assert_eq!(validate_profiles_config(&profiles).unwrap_err().message, "一键连招触发键不能与当前生效连发键重复。");

    profiles.classes.insert(
        "class-a".to_string(),
        ClassConfig { enabled_keys: vec![key(0x41, 20)], effect_rule: EffectRule::GlobalAndClass, combo_defs: vec![combo("c", 0x42)] },
    );
    let mut valid = ProfilesConfig::default();
    valid.classes = profiles.classes.duplicate();
    valid.active_class_id = Some("class-a".to_string());
    let valid = profiles_for_save(valid).unwrap();
    let keys = compute_effective_keys(&valid);
    for c in compute_effective_combos(&valid) {
        let t = c.trigger_vk.unwrap();
        assert!(keys.iter().all(|k| k.vk != t));
    }

    // A current-only profile without keys of its own is checked against no key, while
    // the global keys fire for it.
    let mut fallback = ProfilesConfig::default();
    fallback.classes.insert(
        "class-b".to_string(),
        ClassConfig { enabled_keys: Vec::new(), effect_rule: EffectRule::ClassOnly, combo_defs: vec![combo("c", 0x58)] },
    );
    fallback.active_class_id = Some("class-b".to_string());
    assert!(validate_profiles_config(&fallback).is_ok());
    assert_eq!(compute_effective_keys(&fallback)[0].vk, 0x58);
}
