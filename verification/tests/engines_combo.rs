use dnf_autofire::config::schema::{ComboAction, ComboDefinition};
use dnf_autofire::engines::combo::{combo_plan, find_combo, ComboEngine, ComboStep};

fn tap(vk: Option<u16>, hold_ms: u16, wait_after_ms: u16) -> ComboAction {
    ComboAction::Tap { id: "t".to_string(), label: String::new(), vk, hold_ms, wait_after_ms }
}

fn command(keys: Vec<u16>) -> ComboAction {
    ComboAction::Command {
        id: "c".to_string(),
        label: String::new(),
        keys,
        key_hold_ms: 30,
        key_gap_ms: 20,
        wait_after_ms: 100,
    }
}

fn combo(id: &str, enabled: bool, trigger_vk: Option<u16>, actions: Vec<ComboAction>) -> ComboDefinition {
    ComboDefinition { id: id.to_string(), name: id.to_string(), enabled, trigger_vk, actions }
}

#[test]
fn combo_plan_plays_actions_in_order() {
    let c = combo("a", true, Some(0x41), vec![tap(Some(0x5A), 30, 100), command(vec![0x26, 0x41, 0x5A])]);
    let steps = combo_plan(&c, 0x41);
    assert_eq!(
        steps,
        vec![
            ComboStep::Check,
            ComboStep::Check,
            ComboStep::Tap { vk: 0x5A, use_real_key: false, hold_ms: 30, wait_after_ms: 100 },
            ComboStep::Check,
            ComboStep::Check,
            ComboStep::Tap { vk: 0x26, use_real_key: false, hold_ms: 30, wait_after_ms: 0 },
            ComboStep::Wait { ms: 20 },
            ComboStep::Check,
            ComboStep::Tap { vk: 0x41, use_real_key: true, hold_ms: 30, wait_after_ms: 0 },
            ComboStep::Wait { ms: 20 },
            ComboStep::Check,
            ComboStep::Tap { vk: 0x5A, use_real_key: false, hold_ms: 30, wait_after_ms: 0 },
            ComboStep::Wait { ms: 100 },
        ]
    );
}

#[test]
fn combo_plan_stops_at_a_tap_without_a_key() {
    let c = combo("a", true, Some(0x41), vec![tap(None, 30, 100)]);
    assert_eq!(combo_plan(&c, 0x41), vec![ComboStep::Check, ComboStep::Check, ComboStep::Stop]);
    let empty = combo("b", true, Some(0x41), Vec::new());
    assert_eq!(combo_plan(&empty, 0x41), vec![ComboStep::Check]);
}

#[test]
fn find_combo_takes_the_first_enabled_combo_of_the_trigger() {
    let combos = vec![
        combo("off", false, Some(0x41), vec![tap(Some(0x5A), 30, 100)]),
        combo("first", true, Some(0x41), vec![tap(Some(0x5A), 30, 100)]),
        combo("second", true, Some(0x41), vec![tap(Some(0x58), 30, 100)]),
    ];
    assert_eq!(find_combo(&combos, 0x41), Some(1));
    assert_eq!(find_combo(&combos, 0x42), None);
}

#[test]
fn combo_engine_catches_triggers_only_while_running_and_in_front() {
    let mut engine = ComboEngine::new();
    engine.set_combo_configs(vec![
        combo("a", true, Some(0x41), vec![tap(Some(0x5A), 30, 100)]),
        combo("b", false, Some(0x42), vec![tap(Some(0x5A), 30, 100)]),
    ]);
    assert!(engine.is_trigger_key(0x41));
    assert!(!engine.is_trigger_key(0x42));

    let d = engine.hook_decision(0x41, true, false, false, true);
    assert!(!d.send_trigger && !d.swallow);
    assert!(engine.begin_combo(0x41).is_none());

    assert!(engine.start());
    assert!(!engine.start());
    let d = engine.hook_decision(0x41, true, false, false, true);
    assert!(d.send_trigger && d.swallow);
    let d = engine.hook_decision(0x41, false, true, false, true);
    assert!(!d.send_trigger && d.swallow);
    let d = engine.hook_decision(0x41, true, false, false, false);
    assert!(!d.send_trigger && !d.swallow);
    let d = engine.hook_decision(0x41, true, false, true, true);
    assert!(!d.send_trigger && !d.swallow);
    let d = engine.hook_decision(0x42, true, false, false, true);
    assert!(!d.send_trigger && !d.swallow);

    let run = engine.begin_combo(0x41).unwrap();
    assert!(engine.is_executing());
    assert!(engine.is_current(run.generation));
    assert_eq!(run.steps.len(), 3);
    // While a combo is under way a trigger is swallowed but starts nothing.
    let d = engine.hook_decision(0x41, true, false, false, true);
    assert!(!d.send_trigger && d.swallow);
    assert!(engine.begin_combo(0x41).is_none());
    engine.finish_combo();
    assert!(!engine.is_executing());

    // New combos supersede the run under way.
    let run = engine.begin_combo(0x41).unwrap();
    engine.set_combo_configs(vec![combo("a", true, Some(0x43), vec![tap(Some(0x5A), 30, 100)])]);
    assert!(!engine.is_current(run.generation));
    assert_eq!(engine.combos().len(), 1);
    engine.finish_combo();
    let run = engine.begin_combo(0x41).unwrap();
    assert!(run.steps.is_empty());
    engine.stop();
    assert!(!engine.is_running() && !engine.is_executing());
}
