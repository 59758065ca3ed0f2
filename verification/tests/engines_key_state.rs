use dnf_autofire::config::schema::FireKeyMode;
use dnf_autofire::engines::autofire::{fire_key_is_active, AutoFireEngine, FireKeyConfig};
use dnf_autofire::engines::key_bits::{
    clear_key_bit, clear_pressed_keys, flip_key_bit, pressed_key_snapshot_contains,
    pressed_key_snapshot_has_any, retain_pressed_keys, set_key_bit, vk_to_slot_bit,
};

#[test]
fn autofire_vk_slot_bit_distinguishes_lctrl_and_num2() {
    let lctrl = vk_to_slot_bit(0xA2).unwrap();
    let num2 = vk_to_slot_bit(0x62).unwrap();

    assert_ne!(lctrl, num2);
    assert_ne!(lctrl.0, num2.0);
    assert_eq!(lctrl.1, num2.1);
}

#[test]
fn autofire_pressed_key_snapshot_keeps_same_bit_in_different_slots_separate() {
    let mut pressed_keys: [u64; 4] = [0; 4];
    let (lctrl_slot, lctrl_bit) = vk_to_slot_bit(0xA2).unwrap();
    let (num2_slot, num2_bit) = vk_to_slot_bit(0x62).unwrap();

    pressed_keys[lctrl_slot] = lctrl_bit;
    let snapshot = pressed_keys;

    assert!(pressed_key_snapshot_contains(&snapshot, lctrl_slot, lctrl_bit));
    assert!(!pressed_key_snapshot_contains(&snapshot, num2_slot, num2_bit));
}

#[test]
fn fire_key_active_state_uses_configured_mode() {
    let mut pressed_keys: [u64; 4] = [0; 4];
    let mut toggle_active_keys: [u64; 4] = [0; 4];
    let (slot_index, key_bit) = vk_to_slot_bit(0x58).unwrap();

    pressed_keys[slot_index] = key_bit;
    let pressed = pressed_keys;
    let toggle_active = toggle_active_keys;

    assert!(fire_key_is_active(FireKeyMode::Hold, &pressed, &toggle_active, slot_index, key_bit));
    assert!(!fire_key_is_active(FireKeyMode::Toggle, &pressed, &toggle_active, slot_index, key_bit));

    pressed_keys[slot_index] = 0;
    toggle_active_keys[slot_index] = key_bit;
    let pressed = pressed_keys;
    let toggle_active = toggle_active_keys;

    assert!(!fire_key_is_active(FireKeyMode::Hold, &pressed, &toggle_active, slot_index, key_bit));
    assert!(fire_key_is_active(FireKeyMode::Toggle, &pressed, &toggle_active, slot_index, key_bit));
}

#[test]
fn retain_pressed_keys_keeps_only_configured_toggle_keys() {
    let mut pressed_keys: [u64; 4] = [0; 4];
    let (x_slot, x_bit) = vk_to_slot_bit(0x58).unwrap();
    let (num8_slot, num8_bit) = vk_to_slot_bit(0x68).unwrap();
    pressed_keys[x_slot] |= x_bit;
    pressed_keys[num8_slot] |= num8_bit;

    retain_pressed_keys(&mut pressed_keys, &vec![0x68]);
    let snapshot = pressed_keys;

    assert!(!pressed_key_snapshot_contains(&snapshot, x_slot, x_bit));
    assert!(pressed_key_snapshot_contains(&snapshot, num8_slot, num8_bit));
}

#[test]
fn active_toggle_keys_reads_runtime_toggle_state_only() {
    let mut engine = AutoFireEngine::new();
    engine.set_key_configs(vec![
        FireKeyConfig {
            vk: 0x58,
            interval_ms: 20,
            mode: FireKeyMode::Toggle,
        },
        FireKeyConfig {
            vk: 0x5A,
            interval_ms: 20,
            mode: FireKeyMode::Hold,
        },
    ]);

    engine.toggle_key(0x58);
    engine.toggle_key(0x5A);
    assert!(engine.active_toggle_keys().is_empty());

    assert!(engine.start());
    engine.toggle_key(0x58);
    engine.toggle_key(0x5A);
    assert_eq!(engine.active_toggle_keys(), vec![0x58]);
}

#[test]
fn vk_to_slot_bit_has_no_bit_past_the_last_slot() {
    assert_eq!(vk_to_slot_bit(0), Some((0, 1)));
    assert_eq!(vk_to_slot_bit(0x41), Some((1, 2)));
    assert_eq!(vk_to_slot_bit(255), Some((3, 1u64 << 63)));
    assert_eq!(vk_to_slot_bit(256), None);
}

#[test]
fn key_bits_set_clear_flip_and_clear_all() {
    let mut bits: [u64; 4] = [0; 4];
    assert!(!pressed_key_snapshot_has_any(&bits));
    set_key_bit(&mut bits, 0x41);
    set_key_bit(&mut bits, 300);
    assert_eq!(bits, [0, 2, 0, 0]);
    assert!(pressed_key_snapshot_has_any(&bits));
    flip_key_bit(&mut bits, 0x41);
    flip_key_bit(&mut bits, 0xA2);
    assert_eq!(bits, [0, 0, 1u64 << 34, 0]);
    clear_key_bit(&mut bits, 0xA2);
    assert_eq!(bits, [0; 4]);
    set_key_bit(&mut bits, 1);
    set_key_bit(&mut bits, 200);
    clear_pressed_keys(&mut bits);
    assert_eq!(bits, [0; 4]);
}

#[test]
fn key_event_marks_held_and_reports_first_toggle_press() {
    let mut engine = AutoFireEngine::new();
    engine.set_key_configs(vec![
        FireKeyConfig { vk: 0x58, interval_ms: 20, mode: FireKeyMode::Toggle },
        FireKeyConfig { vk: 0x5A, interval_ms: 30, mode: FireKeyMode::Hold },
    ]);
    // Stopped: nothing is recorded.
    assert!(!engine.on_key_event(0x58, true, false, false));
    assert!(!engine.any_key_bits());

    assert!(engine.start());
    assert!(engine.on_key_event(0x58, true, false, false));
    // A repeated key-down of a held toggle key is no new press.
    assert!(!engine.on_key_event(0x58, true, false, false));
    // Injected events and unknown keys change nothing.
    assert!(!engine.on_key_event(0x5A, true, false, true));
    assert!(!engine.on_key_event(0x41, true, false, false));
    assert!(!engine.on_key_event(0x5A, true, false, false));

    let states = engine.fire_key_states();
    assert_eq!(states.len(), 2);
    assert_eq!((states[0].vk, states[0].active), (0x58, false));
    assert_eq!((states[1].vk, states[1].interval_ms, states[1].active), (0x5A, 30, true));

    engine.toggle_key(0x58);
    assert!(engine.fire_key_states()[0].active);
    assert!(!engine.on_key_event(0x5A, false, true, false));
    assert!(!engine.fire_key_states()[1].active);

    let snapshot = engine.snapshot();
    assert!(snapshot.running);
    assert_eq!(snapshot.keys.len(), 2);
    assert!(snapshot.keys[0].pressed && snapshot.keys[0].toggle_active);
    assert!(!snapshot.keys[1].pressed && !snapshot.keys[1].toggle_active);

    engine.stop();
    assert!(!engine.is_running());
    assert!(!engine.any_key_bits());
    assert!(engine.active_toggle_keys().is_empty());
}

#[test]
fn set_key_configs_keeps_one_entry_per_key_sorted() {
    let mut engine = AutoFireEngine::new();
    engine.set_key_configs(vec![
        FireKeyConfig { vk: 0x5A, interval_ms: 20, mode: FireKeyMode::Hold },
        FireKeyConfig { vk: 0x41, interval_ms: 25, mode: FireKeyMode::Hold },
        FireKeyConfig { vk: 0x5A, interval_ms: 50, mode: FireKeyMode::Toggle },
    ]);
    let snapshot = engine.snapshot();
    let keys: Vec<(u16, u64, FireKeyMode)> =
        snapshot.keys.iter().map(|k| (k.vk, k.interval_ms, k.mode)).collect();
    assert_eq!(keys, vec![(0x41, 25, FireKeyMode::Hold), (0x5A, 50, FireKeyMode::Toggle)]);

    engine.set_keys(vec![0x43, 0x42]);
    let snapshot = engine.snapshot();
    let keys: Vec<(u16, u64, FireKeyMode)> =
        snapshot.keys.iter().map(|k| (k.vk, k.interval_ms, k.mode)).collect();
    assert_eq!(keys, vec![(0x42, 33, FireKeyMode::Hold), (0x43, 33, FireKeyMode::Hold)]);
}
