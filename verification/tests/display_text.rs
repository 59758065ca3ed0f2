use dnf_autofire::config::schema::{ClassConfig, CustomConfig, EffectRule, FireKeyMode, KeyBinding, ProfilesConfig};
use dnf_autofire::domain::classes::{class_categories, class_infos};
use dnf_autofire::domain::display::{
    class_display_state, config_options, custom_config_display_state, custom_config_label,
    profile_display_snapshot, text_listed,
};
use dnf_autofire::error::{validation_error, AppError, AppErrorKind};
use dnf_autofire::keyed_map::KeyedMap;
use dnf_autofire::platform::{current_config_label, floating_control_menu_text, tray_current_config_menu_text};
use dnf_autofire::text::{concat_text, push_decimal, text_eq, text_is_blank, text_less, trim_text};

fn key(vk: u16) -> KeyBinding {
    KeyBinding { vk, interval_ms: 20, mode: FireKeyMode::Hold }
}

fn custom(name: &str, keys: Vec<KeyBinding>) -> CustomConfig {
    CustomConfig { name: name.to_string(), enabled_keys: keys, effect_rule: EffectRule::GlobalAndClass, combo_defs: Vec::new() }
}

#[test]
fn text_helpers() {
    assert!(text_is_blank(""));
    assert!(text_is_blank(" \t\u{3000}\n"));
    assert!(!text_is_blank(" a "));
    assert_eq!(trim_text("  我的 配置\u{3000}"), "我的 配置");
    assert_eq!(trim_text("   "), "");
    assert!(text_eq("abc", "abc"));
    assert!(!text_eq("abc", "abd"));
    assert!(text_less("abc", "abd"));
    assert!(text_less("ab", "abc"));
    assert!(!text_less("abc", "abc"));
    assert!(!text_less("b", "a"));
    assert_eq!(concat_text("custom-", "1"), "custom-1");
    let mut s = String::from("n=");
    push_decimal(&mut s, 0);
    push_decimal(&mut s, 1090);
    assert_eq!(s, "n=01090");
}

#[test]
fn keyed_map_reads_back_what_was_written_in_key_order() {
    let mut m: KeyedMap<String> = KeyedMap::new();
    assert!(m.is_empty());
    m.insert("b".to_string(), "2".to_string());
    m.insert("a".to_string(), "1".to_string());
    m.insert("c".to_string(), "3".to_string());
    m.insert("b".to_string(), "two".to_string());
    assert_eq!(m.len(), 3);
    let keys: Vec<&str> = (0..m.len()).map(|i| m.key_at(i).as_str()).collect();
    assert_eq!(keys, vec!["a", "b", "c"]);
    assert_eq!(m.get("b").map(|v| v.as_str()), Some("two"));
    assert_eq!(m.find("c"), Some(2));
    assert!(m.contains_key("a"));
    assert_eq!(m.remove("a"), Some("1".to_string()));
    assert_eq!(m.remove("a"), None);
    assert_eq!(m.get("a"), None);
    assert_eq!(m.len(), 2);
    m.set_value_at(0, "B".to_string());
    assert_eq!(m.value_at(0), "B");
}

#[test]
fn error_kinds_and_names() {
    let e = validation_error("bad");
    assert_eq!(e.kind, AppErrorKind::Validation);
    assert_eq!(e.message, "bad");
    assert_eq!(AppErrorKind::Hotkey.as_str(), "hotkey");
    assert_eq!(AppError::io("x".to_string()).kind.as_str(), "io");
    let d = AppError::window("w".to_string()).duplicate();
    assert_eq!((d.kind, d.message.as_str()), (AppErrorKind::Window, "w"));
}

#[test]
fn profile_labels_and_states() {
    assert_eq!(custom_config_label(&custom("  名字 ", Vec::new())), "名字");
    assert_eq!(custom_config_label(&custom("  ", Vec::new())), "未命名配置");
    let state = custom_config_display_state(&custom("x", vec![key(0x41)]));
    assert!(state.configured && state.has_keys && !state.has_combos);

    let mut profiles = ProfilesConfig::default();
    assert_eq!(current_config_label(&profiles), "全局配置");
    profiles.classes.insert(
        "male_slayer_blade_master".to_string(),
        ClassConfig { enabled_keys: vec![key(0x41)], effect_rule: EffectRule::GlobalAndClass, combo_defs: Vec::new() },
    );
    profiles.classes.insert(
        "unknown_class".to_string(),
        ClassConfig { enabled_keys: vec![key(0x42)], effect_rule: EffectRule::GlobalAndClass, combo_defs: Vec::new() },
    );
    profiles.custom_configs.insert("custom-1".to_string(), custom(" 我的 ", vec![key(0x43)]));
    profiles.custom_configs.insert("custom-2".to_string(), custom("空", Vec::new()));
    profiles.hidden_class_ids = vec!["female_archer_traveler".to_string(), "male_slayer_blade_master".to_string()];

    let options = config_options(&profiles);
    let pairs: Vec<(Option<String>, String)> = options.into_iter().map(|o| (o.id, o.label)).collect();
    assert_eq!(
        pairs,
        vec![
            (Some("male_slayer_blade_master".to_string()), "剑魂".to_string()),
            (Some("unknown_class".to_string()), "未知职业".to_string()),
            (Some("custom-1".to_string()), "我的".to_string()),
        ]
    );

    let hidden = class_display_state(&profiles, "female_archer_traveler");
    assert!(hidden.hidden && !hidden.visible && hidden.can_hide);
    let configured = class_display_state(&profiles, "male_slayer_blade_master");
    assert!(configured.configured && !configured.hidden && configured.visible && !configured.can_hide);
    assert!(text_listed(&profiles.hidden_class_ids, "female_archer_traveler"));
    assert!(!text_listed(&profiles.hidden_class_ids, "x"));

    profiles.active_class_id = Some("custom-1".to_string());
    assert_eq!(current_config_label(&profiles), "我的");
    profiles.active_class_id = Some("male_slayer_blade_master".to_string());
    assert_eq!(current_config_label(&profiles), "剑魂");
    assert_eq!(tray_current_config_menu_text("剑魂"), "配置：剑魂");
    assert_eq!(tray_current_config_menu_text(""), "配置：-");
    assert_ne!(floating_control_menu_text(true), floating_control_menu_text(false));

    let snapshot = profile_display_snapshot(&profiles);
    assert_eq!(snapshot.config_options.len(), 3);
    assert_eq!(snapshot.class_states.len(), class_infos().len());
    assert_eq!(snapshot.custom_config_states.len(), 2);
    assert_eq!(snapshot.display_names.len(), class_infos().len() + 2);
    assert_eq!(snapshot.display_names.get("custom-2").map(|s| s.as_str()), Some("空"));
    let shown: usize = snapshot.visible_class_categories.iter().map(|c| c.classes.len()).sum();
    assert_eq!(shown, class_infos().len() - 1);
    assert!(snapshot.visible_class_categories.iter().all(|c| !c.classes.is_empty()));
    let listed = |id: &str| snapshot.visible_class_categories.iter().any(|c| c.classes.iter().any(|i| i.id == id));
    assert!(!listed("female_archer_traveler"));
    assert!(listed("male_slayer_blade_master"));
    assert!(class_categories().len() >= snapshot.visible_class_categories.len());
}
