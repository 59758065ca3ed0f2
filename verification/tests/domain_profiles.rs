use dnf_autofire::config::schema::{
    ClassConfig, ComboAction, ComboDefinition, CustomConfig, EffectRule, FireKeyMode, KeyBinding,
    ProfilesConfig,
};
use dnf_autofire::domain::classes::{
    class_id_by_detection_index, class_infos, class_name_by_id, CLASS_COUNT,
};
use dnf_autofire::domain::{
    compute_effective_combos, compute_effective_keys, compute_effective_keys_for_profile,
    dedupe_keys_prefer_last,
};

fn minimal_profiles() -> ProfilesConfig {
    ProfilesConfig {
        global_keys: vec![KeyBinding {
            vk: 0x58,
            interval_ms: 20,
            mode: FireKeyMode::Hold,
        }],
        ..ProfilesConfig::default()
    }
}

fn combo(id: &str, enabled: bool) -> ComboDefinition {
    ComboDefinition {
        id: id.to_string(),
        name: id.to_string(),
        enabled,
        trigger_vk: Some(0x41),
        actions: vec![ComboAction::Tap {
            id: format!("{id}-action"),
            label: String::new(),
            vk: Some(0x5A),
            hold_ms: 30,
            wait_after_ms: 100,
        }],
    }
}

fn key(vk: u16, interval_ms: u16) -> KeyBinding {
    KeyBinding { vk, interval_ms, mode: FireKeyMode::Hold }
}

#[test]
fn detection_indexes_are_unique() {
    let mut indexes = std::collections::HashSet::new();
    for class_info in class_infos() {
        assert!(
            indexes.insert(class_info.detection_index),
            "duplicate detection index {}",
            class_info.detection_index
        );
    }
}

#[test]
fn detection_index_maps_to_stable_class_id() {
    assert_eq!(class_id_by_detection_index(0), Some("male_slayer_blade_master"));
    assert_eq!(class_id_by_detection_index(63), Some("female_archer_traveler"));
}

#[test]
fn class_id_maps_to_display_name() {
    assert_eq!(class_name_by_id("male_slayer_blade_master"), Some("剑魂"));
    assert_eq!(class_name_by_id("missing"), None);
}

#[test]
fn detection_index_past_the_table_has_no_class() {
    assert_eq!(class_infos().len(), CLASS_COUNT as usize);
    assert_eq!(class_id_by_detection_index(CLASS_COUNT), None);
    assert_eq!(class_id_by_detection_index(u16::MAX), None);
}

#[test]
fn effective_keys_use_global_when_no_active_profile() {
    let profiles = minimal_profiles();

    assert_eq!(compute_effective_keys(&profiles)[0].vk, 0x58);
}

#[test]
fn effective_keys_allow_profile_to_override_global_key() {
    let mut profiles = minimal_profiles();
    profiles.active_class_id = Some("class-a".to_string());
    profiles.classes.insert(
        "class-a".to_string(),
        ClassConfig {
            enabled_keys: vec![KeyBinding {
                vk: 0x58,
                interval_ms: 100,
                mode: FireKeyMode::Hold,
            }],
            effect_rule: EffectRule::GlobalAndClass,
            combo_defs: Vec::new(),
        },
    );

    let keys = compute_effective_keys(&profiles);

    assert_eq!(keys.len(), 1);
    assert_eq!(keys[0].interval_ms, 100);
}

#[test]
fn effective_combos_only_return_enabled_active_profile_combos() {
    let mut profiles = minimal_profiles();
    profiles.active_class_id = Some("custom-a".to_string());
    profiles.custom_configs.insert(
        "custom-a".to_string(),
        CustomConfig {
            name: "custom".to_string(),
            enabled_keys: Vec::new(),
            effect_rule: EffectRule::GlobalAndClass,
            combo_defs: vec![combo("enabled", true), combo("disabled", false)],
        },
    );

    let combos = compute_effective_combos(&profiles);

    assert_eq!(combos.len(), 1);
    assert_eq!(combos[0].id, "enabled");
}

#[test]
fn class_only_profile_drops_global_keys() {
    let mut profiles = minimal_profiles();
    profiles.classes.insert(
        "class-b".to_string(),
        ClassConfig {
            enabled_keys: vec![key(0x41, 30)],
            effect_rule: EffectRule::ClassOnly,
            combo_defs: Vec::new(),
        },
    );
    let keys = compute_effective_keys_for_profile(&profiles, "class-b");
    assert_eq!(keys.len(), 1);
    assert_eq!(keys[0].vk, 0x41);

    let keys = compute_effective_keys_for_profile(&profiles, "unknown");
    assert_eq!(keys.len(), 1);
    assert_eq!(keys[0].vk, 0x58);
    assert!(compute_effective_combos(&profiles).is_empty());
}

#[test]
fn dedupe_keeps_first_position_and_last_binding() {
    let keys = vec![key(0x41, 10), key(0x42, 20), key(0x41, 30), key(0x43, 40), key(0x42, 50)];
    let deduped = dedupe_keys_prefer_last(&keys);
    let pairs: Vec<(u16, u16)> = deduped.iter().map(|k| (k.vk, k.interval_ms)).collect();
    assert_eq!(pairs, vec![(0x41, 30), (0x42, 50), (0x43, 40)]);
    assert!(dedupe_keys_prefer_last(&Vec::new()).is_empty());
}
