use dnf_autofire::engines::autofire::FireKeyState;
use dnf_autofire::engines::autorun::{
    handle_key_event, pulse_after_press, pulse_after_release, should_send_pulse, AutoRunEngine,
    AutoRunHookAction, AutoRunKeyState, AutoRunState,
};
use dnf_autofire::engines::fire_schedule::{
    combine_deadline, key_hold_ms, next_theoretical_fire_at, FireSchedule,
};

#[test]
fn key_hold_is_a_third_of_the_interval_between_8_and_15_ms() {
    assert_eq!(key_hold_ms(20), 8);
    assert_eq!(key_hold_ms(30), 10);
    assert_eq!(key_hold_ms(36), 12);
    assert_eq!(key_hold_ms(60), 15);
    assert_eq!(key_hold_ms(1000), 15);
    assert_eq!(key_hold_ms(0), 8);
}

#[test]
fn next_fire_time_stays_on_the_grid() {
    // A first press: one interval after it.
    assert_eq!(next_theoretical_fire_at(None, 1_000, 20_000), 21_000);
    // On time: the next grid point.
    assert_eq!(next_theoretical_fire_at(Some(21_000), 21_500, 20_000), 41_000);
    // Late by more than an interval: the first grid point after now, no drift.
    assert_eq!(next_theoretical_fire_at(Some(21_000), 50_000, 20_000), 61_000);
    assert_eq!(next_theoretical_fire_at(Some(21_000), 61_000, 20_000), 81_000);
}

#[test]
fn combine_deadline_takes_the_earlier() {
    assert_eq!(combine_deadline(None, None), None);
    assert_eq!(combine_deadline(Some(5), None), Some(5));
    assert_eq!(combine_deadline(None, Some(7)), Some(7));
    assert_eq!(combine_deadline(Some(9), Some(7)), Some(7));
}

#[test]
fn fire_plan_presses_due_active_keys_once_and_releases_after_hold() {
    let mut schedule = FireSchedule::new();
    let keys = vec![
        FireKeyState { vk: 0x58, interval_ms: 20, active: true },
        FireKeyState { vk: 0x5A, interval_ms: 30, active: false },
    ];
    let plan = schedule.plan_fire(true, &keys, 1_000);
    assert_eq!(plan.key_downs, vec![0x58]);
    assert_eq!(plan.next_down_deadline, Some(21_000));
    assert!(schedule.has_pending_key_ups());
    // The release is due after the hold time (8 ms).
    assert_eq!(schedule.next_wake(plan.next_down_deadline), Some(9_000));
    assert!(schedule.take_due_key_ups(8_999).is_empty());
    assert_eq!(schedule.take_due_key_ups(9_000), vec![0x58]);
    assert!(!schedule.has_pending_key_ups());

    // Before the next press is due nothing is pressed.
    let plan = schedule.plan_fire(true, &keys, 15_000);
    assert!(plan.key_downs.is_empty());
    assert_eq!(plan.next_down_deadline, Some(21_000));
    // When it is due, it is pressed again; the deadline still counts the planned
    // press just taken, and the next one is on its grid.
    let plan = schedule.plan_fire(true, &keys, 21_000);
    assert_eq!(plan.key_downs, vec![0x58]);
    assert_eq!(plan.next_down_deadline, Some(21_000));
    assert_eq!(schedule.take_due_key_ups(29_000), vec![0x58]);
    let plan = schedule.plan_fire(true, &keys, 30_000);
    assert!(plan.key_downs.is_empty());
    assert_eq!(plan.next_down_deadline, Some(41_000));
}

#[test]
fn fire_plan_waits_for_a_pending_release_and_drops_everything_when_idle() {
    let mut schedule = FireSchedule::new();
    let keys = vec![FireKeyState { vk: 0x41, interval_ms: 10, active: true }];
    let plan = schedule.plan_fire(true, &keys, 0);
    assert_eq!(plan.key_downs, vec![0x41]);
    // The release is still pending: no second press even though the press is due.
    let plan = schedule.plan_fire(true, &keys, 20_000);
    assert!(plan.key_downs.is_empty());
    assert_eq!(plan.next_down_deadline, Some(8_000));
    assert_eq!(schedule.take_due_key_ups(20_000), vec![0x41]);
    // No key held and no toggle on: nothing is pressed.
    let plan = schedule.plan_fire(false, &keys, 30_000);
    assert!(plan.key_downs.is_empty());
    assert_eq!(plan.next_down_deadline, None);
    schedule.clear_fire_times();
    assert_eq!(schedule.next_wake(None), None);
}

#[test]
fn auto_run_hook_tracks_the_movement_keys_while_running() {
    let mut engine = AutoRunEngine::new();
    engine.set_settings(0x25, 0x27, 25);
    let mut state = AutoRunState::new();
    // Stopped: nothing recorded.
    assert_eq!(handle_key_event(&mut state, &engine, 0x25, true, false, false, 100), AutoRunHookAction::NoAction);
    assert!(!state.left.pressed);

    assert!(engine.start());
    assert_eq!(handle_key_event(&mut state, &engine, 0x25, true, false, false, 100), AutoRunHookAction::NoAction);
    assert_eq!(state.left, AutoRunKeyState { pressed: true, pulse_sent: false, pressed_at: 100 });
    // A repeated key-down keeps the first press time.
    handle_key_event(&mut state, &engine, 0x25, true, false, false, 140);
    assert_eq!(state.left.pressed_at, 100);
    // Injected events and other keys are ignored.
    assert_eq!(handle_key_event(&mut state, &engine, 0x27, true, false, true, 150), AutoRunHookAction::NoAction);
    assert!(!state.right.pressed);
    assert_eq!(handle_key_event(&mut state, &engine, 0x41, false, true, false, 150), AutoRunHookAction::NoAction);

    assert!(!should_send_pulse(&state.left, 25, 124));
    assert!(should_send_pulse(&state.left, 25, 125));

    assert_eq!(handle_key_event(&mut state, &engine, 0x25, false, true, false, 200), AutoRunHookAction::ReleaseKey(0x25));
    assert_eq!(state.left, AutoRunKeyState { pressed: false, pulse_sent: false, pressed_at: 0 });
    assert!(!should_send_pulse(&state.left, 25, 1_000));

    let snapshot = engine.snapshot();
    assert!(snapshot.running);
    engine.stop();
    assert!(!engine.is_running());
}

#[test]
fn auto_run_pulse_steps() {
    let mut k = AutoRunKeyState { pressed: true, pulse_sent: false, pressed_at: 10 };
    assert!(pulse_after_release(&mut k));
    assert!(!k.pulse_sent);
    assert!(!pulse_after_press(&mut k));
    assert!(k.pulse_sent);
    assert!(!should_send_pulse(&k, 0, 1_000));

    let mut released = AutoRunKeyState { pressed: false, pulse_sent: false, pressed_at: 0 };
    assert!(!pulse_after_release(&mut released));
    assert!(released.pulse_sent);
    let mut released = AutoRunKeyState { pressed: false, pulse_sent: false, pressed_at: 0 };
    assert!(pulse_after_press(&mut released));
}
