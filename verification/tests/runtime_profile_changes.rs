use dnf_autofire::config::migration::{active_config_change, profiles_for_save};
use dnf_autofire::config::schema::{ClassConfig, CustomConfig, EffectRule, FireKeyMode, KeyBinding, ProfilesConfig};
use dnf_autofire::runtime::assistant::{Assistant, AssistantProfile};
use dnf_autofire::runtime::profile_edits::{add_custom_config, next_custom_config_id, update_profile_keys};

const BLADE_MASTER_ID: &str = "male_slayer_blade_master";

fn profiles_for_blade_master(global_keys: Vec<KeyBinding>, active_class_id: Option<String>) -> ProfilesConfig {
    let mut profiles = ProfilesConfig { global_keys, active_class_id, ..ProfilesConfig::default() };
    profiles.classes.insert(
        BLADE_MASTER_ID.to_string(),
        ClassConfig {
            enabled_keys: vec![KeyBinding { vk: 0x5A, interval_ms: 30, mode: FireKeyMode::Hold }],
            effect_rule: EffectRule::ClassOnly,
            combo_defs: Vec::new(),
        },
    );
    profiles_for_save(profiles).unwrap()
}

#[test]
fn update_profile_keys_refreshes_effective_profile_and_runtime_snapshot() {
    let mut profiles = profiles_for_blade_master(Vec::new(), Some(BLADE_MASTER_ID.to_string()));
    let mut assistant = Assistant::new();
    assistant.refresh(&profiles).unwrap();

    update_profile_keys(
        &mut profiles,
        BLADE_MASTER_ID,
        vec![KeyBinding { vk: 0x41, interval_ms: 25, mode: FireKeyMode::Toggle }],
    );
    let profiles = profiles_for_save(profiles).unwrap();
    assistant.refresh(&profiles).unwrap();
    let effective_profile = AssistantProfile::from_profiles(&profiles);

    assert_eq!(effective_profile.keys.len(), 1);
    assert_eq!(effective_profile.keys[0].vk, 0x41);
    assert_eq!(assistant.snapshot().profile_key_count, 1);
    assert_eq!(profiles.classes.get(BLADE_MASTER_ID).unwrap().enabled_keys[0].interval_ms, 25);
}

#[test]
fn select_active_config_bumps_revision_and_recomputes_effective_profile() {
    let mut profiles =
        profiles_for_blade_master(vec![KeyBinding { vk: 0x58, interval_ms: 20, mode: FireKeyMode::Hold }], None);
    let mut assistant = Assistant::new();
    assistant.refresh(&profiles).unwrap();

    let change = active_config_change(&profiles, Some(BLADE_MASTER_ID.to_string()));
    let changed = change.is_some();
    if let Some(next) = change {
        profiles.active_class_id = next;
    }
    let profiles = profiles_for_save(profiles).unwrap();
    assistant.refresh(&profiles).unwrap();
    let effective_profile = AssistantProfile::from_profiles(&profiles);

    assert!(changed);
    assert_eq!(profiles.active_class_id, Some(BLADE_MASTER_ID.to_string()));
    assert_eq!(effective_profile.keys.len(), 1);
    assert_eq!(effective_profile.keys[0].vk, 0x5A);
    assert_eq!(assistant.snapshot().profile_key_count, 1);
}

#[test]
fn new_custom_config_takes_the_least_free_number() {
    let mut profiles = ProfilesConfig::default();
    let empty = |name: &str| CustomConfig {
        name: name.to_string(),
        enabled_keys: Vec::new(),
        effect_rule: EffectRule::GlobalAndClass,
        combo_defs: Vec::new(),
    };
    profiles.custom_configs.insert("custom-2".to_string(), empty("二"));
    assert_eq!(next_custom_config_id(&profiles), "custom-3");
    profiles.custom_configs.insert("custom-3".to_string(), empty("三"));
    assert_eq!(next_custom_config_id(&profiles), "custom-4");
    add_custom_config(&mut profiles, "  新配置 ").unwrap();
    assert_eq!(profiles.custom_configs.get("custom-4").unwrap().name, "新配置");
    assert!(add_custom_config(&mut profiles, "   ").is_err());
    assert_eq!(profiles.custom_configs.len(), 3);
}
