use dnf_autofire::config::combo_issues::validate_combo_defs_detailed;
use dnf_autofire::config::schema::{ComboAction, ComboDefinition, ComboValidationField, LogLevelSetting, SettingsConfig};
use dnf_autofire::config::validation::validate_combo_defs;
use dnf_autofire::engines::combo::{combo_plan, ComboStep};
use dnf_autofire::error::{AppError, AppErrorKind};
use dnf_autofire::platform::WindowDetector;
use dnf_autofire::runtime::settings_save::{
    begin_settings_save, settings_save_step, side_effects_between, SettingsSaveAction, SettingsSaveEvent,
    SettingsSaveState, SettingsSideEffects,
};

fn tap(id: &str, vk: Option<u16>, hold_ms: u16) -> ComboAction {
    ComboAction::Tap { id: id.to_string(), label: String::new(), vk, hold_ms, wait_after_ms: 100 }
}

fn combo(id: &str, name: &str, enabled: bool, trigger_vk: Option<u16>, actions: Vec<ComboAction>) -> ComboDefinition {
    ComboDefinition { id: id.to_string(), name: name.to_string(), enabled, trigger_vk, actions }
}

#[test]
fn side_effects_follow_the_changed_fields() {
    let previous = SettingsConfig::default();
    let mut next = previous;
    assert_eq!(side_effects_between(&previous, &next), SettingsSideEffects { launch_at_startup: None, log_level: None });
    next.launch_at_startup = !previous.launch_at_startup;
    next.log_level = LogLevelSetting::Warn;
    let effects = side_effects_between(&previous, &next);
    assert_eq!(effects.launch_at_startup, Some(next.launch_at_startup));
    assert_eq!(effects.log_level, if previous.log_level == LogLevelSetting::Warn { None } else { Some(LogLevelSetting::Warn) });
}

#[test]
fn settings_save_succeeds_after_write_and_side_effects() {
    let previous = SettingsConfig::default();
    let mut requested = previous;
    requested.launch_at_startup = true;
    let (state, action) = begin_settings_save(previous, requested);
    assert!(matches!(action, SettingsSaveAction::Write(s) if s == requested));
    let (state, action) = settings_save_step(state, SettingsSaveEvent::Succeeded(requested));
    assert!(matches!(action, SettingsSaveAction::Apply { from, to } if from == previous && to == requested));
    let (state, action) = settings_save_step(state, SettingsSaveEvent::Succeeded(requested));
    assert!(matches!(state, SettingsSaveState::Done));
    assert!(matches!(action, SettingsSaveAction::Finish(Ok(()))));
}

#[test]
fn settings_save_stops_when_the_write_fails() {
    let previous = SettingsConfig::default();
    let (state, _) = begin_settings_save(previous, previous);
    let error = AppError::new(AppErrorKind::Io, "disk full".to_string());
    let (state, action) = settings_save_step(state, SettingsSaveEvent::Failed(error));
    assert!(matches!(state, SettingsSaveState::Done));
    match action {
        SettingsSaveAction::Finish(Err(e)) => assert_eq!(e.message, "disk full"),
        _ => panic!("the save must end with the write error"),
    }
}

#[test]
fn settings_save_rolls_back_when_side_effects_fail() {
    let previous = SettingsConfig::default();
    let mut requested = previous;
    requested.launch_at_startup = !previous.launch_at_startup;
    let (state, _) = begin_settings_save(previous, requested);
    let (state, _) = settings_save_step(state, SettingsSaveEvent::Succeeded(requested));
    let error = AppError::new(AppErrorKind::Startup, "开机自启动当前仅支持 Windows。".to_string());
    let (state, action) = settings_save_step(state, SettingsSaveEvent::Failed(error));
    assert!(matches!(action, SettingsSaveAction::Write(s) if s == previous));
    let rollback_error = AppError::new(AppErrorKind::Io, "rollback failed".to_string());
    let (state, action) = settings_save_step(state, SettingsSaveEvent::Failed(rollback_error));
    assert!(matches!(action, SettingsSaveAction::Apply { from, to } if from == requested && to == previous));
    let (state, action) = settings_save_step(state, SettingsSaveEvent::Succeeded(previous));
    assert!(matches!(state, SettingsSaveState::Done));
    match action {
        SettingsSaveAction::Finish(Err(e)) => {
            assert_eq!(e.kind, AppErrorKind::Startup);
            assert_eq!(e.message, "开机自启动当前仅支持 Windows。");
        }
        _ => panic!("the save must end with the side effects' error"),
    }
}

struct Foreground(&'static str);

impl WindowDetector for Foreground {
    fn get_foreground_class_name(&self) -> String {
        self.0.to_string()
    }
}

#[test]
fn window_detector_follows_the_build() {
    assert!(Foreground("Notepad").is_target_active_for_build(true));
    assert!(!Foreground("Notepad").is_target_active_for_build(false));
    assert!(Foreground("地下城与勇士").is_target_active_for_build(false));
    assert!(!Foreground("").is_target_active_for_build(true));
}

#[test]
fn every_key_of_a_command_comes_after_a_check() {
    let c = combo(
        "c",
        "手搓",
        true,
        Some(0x41),
        vec![ComboAction::Command {
            id: "a".to_string(),
            label: String::new(),
            keys: vec![0x28, 0x26, 0x5A],
            key_hold_ms: 30,
            key_gap_ms: 20,
            wait_after_ms: 50,
        }],
    );
    let steps = combo_plan(&c, 0x41);
    for (i, step) in steps.iter().enumerate() {
        if matches!(step, ComboStep::Tap { .. }) {
            assert!(i > 0 && steps[i - 1] == ComboStep::Check);
        }
    }
    assert_eq!(steps.iter().filter(|s| matches!(s, ComboStep::Tap { .. })).count(), 3);
}

#[test]
fn no_issues_exactly_when_accepted() {
    let lists = vec![
        vec![combo("a", "甲", true, Some(0x41), vec![tap("t", Some(0x5A), 30)])],
        vec![combo("a", " ", true, Some(0x41), vec![tap("t", Some(0x5A), 30)])],
        vec![combo("a", "甲", true, None, vec![tap("t", Some(0x5A), 30)])],
        vec![combo("a", "甲", true, Some(0x58), vec![tap("t", Some(0x5A), 30)])],
        vec![combo("a", "甲", false, None, vec![tap("t", None, 30)])],
        vec![combo("a", "甲", false, None, vec![tap("t", None, 5)])],
        vec![
            combo("a", "甲", true, Some(0xFFFF), vec![tap("t", Some(0x5A), 30)]),
            combo("b", "乙", true, Some(0xFFFF), vec![tap("u", Some(0x5A), 30)]),
        ],
        vec![
            combo("a", "甲", true, Some(0x41), vec![tap("t", Some(0x5A), 30)]),
            combo("b", "乙", false, Some(0x41), vec![tap("u", Some(0x5A), 30)]),
        ],
    ];
    for combos in &lists {
        let issues = validate_combo_defs_detailed(combos, &vec![0x58]);
        assert_eq!(issues.is_empty(), validate_combo_defs(combos, &vec![0x58]).is_ok());
    }
}

#[test]
fn disabled_combos_get_timing_issues_only() {
    let combos = vec![combo("off", " ", false, None, vec![tap("t", None, 5)])];
    let issues = validate_combo_defs_detailed(&combos, &vec![]);
    assert_eq!(issues.len(), 1);
    assert_eq!(issues[0].combo_id, "off");
    assert_eq!(issues[0].field, ComboValidationField::HoldMs);
}

#[test]
fn duplicate_triggers_are_reported_by_ascending_key() {
    let combos = vec![
        combo("a", "甲", true, Some(0xFFFF), vec![tap("t", Some(0x5A), 30)]),
        combo("b", "乙", true, Some(0x42), vec![tap("t", Some(0x5A), 30)]),
        combo("c", "丙", true, Some(0xFFFF), vec![tap("t", Some(0x5A), 30)]),
        combo("d", "丁", true, Some(0x42), vec![tap("t", Some(0x5A), 30)]),
        combo("e", "戊", false, Some(0x42), vec![tap("t", Some(0x5A), 30)]),
    ];
    let ids: Vec<String> = validate_combo_defs_detailed(&combos, &vec![]).into_iter().map(|i| i.combo_id).collect();
    assert_eq!(ids, vec!["b", "d", "a", "c"]);
}
