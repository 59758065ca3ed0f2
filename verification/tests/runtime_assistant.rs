use dnf_autofire::config::schema::{
    AutoRunConfig, ClassConfig, ComboAction, ComboDefinition, CustomConfig, EffectRule, FireKeyMode,
    KeyBinding, ProfilesConfig,
};
use dnf_autofire::error::AppErrorKind;
use dnf_autofire::runtime::assistant::{Assistant, AssistantProfile};
use dnf_autofire::runtime::profile_edits::{
    add_custom_config, add_global_key, add_profile_key, class_config_has_data, delete_custom_config,
    next_custom_config_id, normalize_key_bindings, set_class_hidden, to_fire_key_configs,
    update_auto_run, update_global_keys, update_profile_combos, update_profile_effect_rule,
    update_profile_keys,
};

fn key(vk: u16, interval_ms: u16) -> KeyBinding {
    KeyBinding { vk, interval_ms, mode: FireKeyMode::Hold }
}

fn combo(id: &str, trigger_vk: u16) -> ComboDefinition {
    ComboDefinition {
        id: id.to_string(),
        name: id.to_string(),
        enabled: true,
        trigger_vk: Some(trigger_vk),
        actions: vec![ComboAction::Tap {
            id: format!("{id}-action"),
            label: String::new(),
            vk: Some(0x5A),
            hold_ms: 30,
            wait_after_ms: 100,
        }],
    }
}

fn auto_run(enabled: bool) -> AutoRunConfig {
    AutoRunConfig { enabled, left_vk: 0x25, right_vk: 0x27, pulse_delay_ms: 25 }
}

#[test]
fn key_bindings_are_brought_into_range() {
    let keys = normalize_key_bindings(vec![key(0x41, 1), key(0x42, 5000), key(0x43, 50)]);
    let intervals: Vec<u16> = keys.iter().map(|k| k.interval_ms).collect();
    assert_eq!(intervals, vec![10, 1000, 50]);
    let configs = to_fire_key_configs(&keys);
    assert_eq!(configs.len(), 3);
    assert_eq!((configs[2].vk, configs[2].interval_ms, configs[2].mode), (0x43, 50, FireKeyMode::Hold));
}

#[test]
fn profile_edits_go_to_the_custom_profile_or_the_class() {
    let mut profiles = ProfilesConfig::default();
    update_global_keys(&mut profiles, vec![key(0x58, 5)]);
    assert_eq!(profiles.global_keys[0].interval_ms, 10);

    // A class profile is created when keys are set and dropped when emptied.
    update_profile_keys(&mut profiles, "male_slayer_blade_master", vec![key(0x41, 20)]);
    assert!(profiles.classes.contains_key("male_slayer_blade_master"));
    update_profile_keys(&mut profiles, "male_slayer_blade_master", Vec::new());
    assert!(!profiles.classes.contains_key("male_slayer_blade_master"));

    // Custom profiles.
    assert!(add_custom_config(&mut profiles, "  我的配置 ").is_ok());
    let id = profiles.custom_configs.key_at(0).clone();
    assert_eq!(id, "custom-1");
    assert_eq!(profiles.custom_configs.value_at(0).name, "我的配置");
    let err = add_custom_config(&mut profiles, "   ").unwrap_err();
    assert_eq!(err.kind, AppErrorKind::Validation);
    assert_eq!(profiles.custom_configs.len(), 1);
    assert_eq!(next_custom_config_id(&profiles), "custom-2");

    update_profile_keys(&mut profiles, "custom-1", vec![key(0x42, 30)]);
    update_profile_combos(&mut profiles, "custom-1", vec![combo("c1", 0x43)]);
    update_profile_effect_rule(&mut profiles, "custom-1", EffectRule::ClassOnly);
    let c = profiles.custom_configs.get("custom-1").unwrap();
    assert_eq!(c.enabled_keys.len(), 1);
    assert_eq!(c.combo_defs.len(), 1);
    assert_eq!(c.effect_rule, EffectRule::ClassOnly);
    assert!(!profiles.classes.contains_key("custom-1"));

    profiles.active_class_id = Some("custom-1".to_string());
    delete_custom_config(&mut profiles, "custom-1");
    assert!(profiles.custom_configs.is_empty());
    assert_eq!(profiles.active_class_id, None);

    update_auto_run(&mut profiles, auto_run(true));
    assert!(profiles.auto_run.enabled);
}

#[test]
fn class_hiding_leaves_configured_classes_alone() {
    let mut profiles = ProfilesConfig::default();
    set_class_hidden(&mut profiles, "class-a", true);
    set_class_hidden(&mut profiles, "class-a", true);
    assert_eq!(profiles.hidden_class_ids, vec!["class-a".to_string()]);
    set_class_hidden(&mut profiles, "class-a", false);
    assert!(profiles.hidden_class_ids.is_empty());

    profiles.classes.insert(
        "class-b".to_string(),
        ClassConfig { enabled_keys: vec![key(0x41, 20)], effect_rule: EffectRule::GlobalAndClass, combo_defs: Vec::new() },
    );
    assert!(class_config_has_data(profiles.classes.get("class-b").unwrap()));
    set_class_hidden(&mut profiles, "class-b", true);
    assert!(profiles.hidden_class_ids.is_empty());
}

#[test]
fn adding_a_key_picks_the_first_free_candidate() {
    let mut profiles = ProfilesConfig::default();
    let before = profiles.global_keys.len();
    assert!(add_global_key(&mut profiles).is_ok());
    assert_eq!(profiles.global_keys.len(), before + 1);
    let added = profiles.global_keys[before];
    assert_eq!((added.vk, added.interval_ms), (0x41, 20));
    assert!(add_global_key(&mut profiles).is_ok());
    assert_eq!(profiles.global_keys[before + 1].vk, 0x42);

    // A profile's own keys are checked on their own, so the first candidate fits.
    assert!(add_profile_key(&mut profiles, "class-a").is_ok());
    let c = profiles.classes.get("class-a").unwrap();
    assert_eq!(c.enabled_keys.len(), 1);
    assert_eq!(c.enabled_keys[0].vk, 0x41);
}

#[test]
fn assistant_refuses_to_start_with_nothing_to_run() {
    let mut assistant = Assistant::new();
    let err = assistant.start_with_profile(AssistantProfile::default(), &auto_run(false)).unwrap_err();
    assert_eq!(err.kind, AppErrorKind::Runtime);
    assert!(!assistant.is_running());

    assert!(assistant.start_with_profile(AssistantProfile::default(), &auto_run(true)).is_ok());
    assert!(assistant.is_running());
    assistant.stop();
    assert!(!assistant.is_running());

    let profile = AssistantProfile::new(vec![key(0x58, 20)], vec![combo("c", 0x41)]);
    assert!(assistant.start_with_profile(profile, &auto_run(false)).is_ok());
    assert!(assistant.autofire.is_running());
    assert!(assistant.combo.is_running());
    assert!(!assistant.auto_run.is_running());
    let snapshot = assistant.snapshot();
    assert!(snapshot.running);
}

#[test]
fn assistant_toggle_and_refresh_follow_the_active_profile() {
    let mut profiles = ProfilesConfig::default();
    profiles.custom_configs.insert(
        "custom-1".to_string(),
        CustomConfig {
            name: "x".to_string(),
            enabled_keys: vec![key(0x41, 30)],
            effect_rule: EffectRule::ClassOnly,
            combo_defs: Vec::new(),
        },
    );
    profiles.active_class_id = Some("custom-1".to_string());

    let mut assistant = Assistant::new();
    assert!(assistant.refresh(&profiles).is_ok());
    assert!(!assistant.is_running());
    assert_eq!(assistant.profile.keys.len(), 1);

    assert!(assistant.toggle(&profiles).is_ok());
    assert!(assistant.is_running());
    assert_eq!(assistant.active_toggle_keys(), Vec::<u16>::new());
    assert!(assistant.toggle(&profiles).is_ok());
    assert!(!assistant.is_running());

    assert!(assistant.toggle(&profiles).is_ok());
    let mut empty = ProfilesConfig::default();
    empty.global_keys.clear();
    let err = assistant.refresh(&empty).unwrap_err();
    assert_eq!(err.kind, AppErrorKind::Runtime);
    assert!(!assistant.is_running());
}
