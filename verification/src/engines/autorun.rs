//! Auto-run: while the left or right movement key is held, one run pulse (release,
//! press again) is sent after a short delay, turning a walk into a run.

use vstd::prelude::*;

verus! {

/// Delay before the run pulse when none is configured.
pub const DEFAULT_AUTO_RUN_PULSE_DELAY_MS: u64 = 25;

/// How long the second press of a pulse is held.
pub const AUTO_RUN_KEY_HOLD_MS: u64 = 8;

/// Pause between passes of the auto-run loop.
pub const AUTO_RUN_LOOP_SLEEP_MS: u64 = 5;

/// Pause while the game window is not in front.
pub const AUTO_RUN_WINDOW_RECHECK_SLEEP_MS: u64 = 50;

/// The movement keys and the pulse delay.
#[derive(Debug, Clone, Copy, PartialEq, Eq, Structural)]
pub struct AutoRunSettings {
    pub left_vk: u16,
    pub right_vk: u16,
    pub pulse_delay_ms: u64,
}

impl Default for AutoRunSettings {
    fn default() -> (r: Self)
        ensures
            r == (AutoRunSettings {
                left_vk: 0x25,
                right_vk: 0x27,
                pulse_delay_ms: DEFAULT_AUTO_RUN_PULSE_DELAY_MS,
            }),
    {
        AutoRunSettings { left_vk: 0x25, right_vk: 0x27, pulse_delay_ms: DEFAULT_AUTO_RUN_PULSE_DELAY_MS }
    }
}

/// One movement key: whether it is held, whether its pulse went out, and when it was
/// pressed (milliseconds; 0 when not held).
#[derive(Debug, Clone, Copy, PartialEq, Eq, Structural)]
pub struct AutoRunKeyState {
    pub pressed: bool,
    pub pulse_sent: bool,
    pub pressed_at: u64,
}

impl AutoRunKeyState {
    pub open spec fn cleared() -> AutoRunKeyState {
        AutoRunKeyState { pressed: false, pulse_sent: false, pressed_at: 0 }
    }

    pub fn new() -> (r: Self)
        ensures
            r == Self::cleared(),
    {
        AutoRunKeyState { pressed: false, pulse_sent: false, pressed_at: 0 }
    }

    pub fn clear(&mut self)
        ensures
            *final(self) == Self::cleared(),
    {
        self.pressed = false;
        self.pulse_sent = false;
        self.pressed_at = 0;
    }
}

/// Both movement keys.
#[derive(Debug, Clone, Copy, PartialEq, Eq, Structural)]
pub struct AutoRunState {
    pub left: AutoRunKeyState,
    pub right: AutoRunKeyState,
}

impl AutoRunState {
    pub fn new() -> (r: Self)
        ensures
            r.left == AutoRunKeyState::cleared(),
            r.right == AutoRunKeyState::cleared(),
    {
        AutoRunState { left: AutoRunKeyState::new(), right: AutoRunKeyState::new() }
    }

    pub fn clear(&mut self)
        ensures
            final(self).left == AutoRunKeyState::cleared(),
            final(self).right == AutoRunKeyState::cleared(),
    {
        self.left.clear();
        self.right.clear();
    }
}

/// What the status view shows of auto-run.
#[derive(Debug, Clone, Copy, PartialEq, Eq, Structural)]
pub struct AutoRunSnapshot {
    pub running: bool,
    pub left_vk: u16,
    pub right_vk: u16,
    pub pulse_delay_ms: u64,
}

/// The auto-run switch and settings.
#[derive(Debug, Clone, Copy, PartialEq, Eq, Structural)]
pub struct AutoRunEngine {
    pub enabled: bool,
    pub settings: AutoRunSettings,
}

impl AutoRunEngine {
    /// Stopped, with the default keys and delay.
    pub fn new() -> (r: Self)
        ensures
            !r.enabled,
            r.settings == (AutoRunSettings {
                left_vk: 0x25,
                right_vk: 0x27,
                pulse_delay_ms: DEFAULT_AUTO_RUN_PULSE_DELAY_MS,
            }),
    {
        AutoRunEngine { enabled: false, settings: AutoRunSettings::default() }
    }

    /// Takes new movement keys and pulse delay.
    pub fn set_settings(&mut self, left_vk: u16, right_vk: u16, pulse_delay_ms: u64)
        ensures
            final(self).enabled == old(self).enabled,
            final(self).settings == (AutoRunSettings { left_vk, right_vk, pulse_delay_ms }),
    {
        self.settings = AutoRunSettings { left_vk, right_vk, pulse_delay_ms };
    }

    /// Returns whether the engine was stopped.
    pub fn start(&mut self) -> (started: bool)
        ensures
            started == !old(self).enabled,
            final(self).enabled,
            final(self).settings == old(self).settings,
    {
        if self.enabled {
            return false;
        }
        self.enabled = true;
        true
    }

    /// Stops the engine.
    pub fn stop(&mut self)
        ensures
            !final(self).enabled,
            final(self).settings == old(self).settings,
    {
        self.enabled = false;
    }

    pub fn is_running(&self) -> (b: bool)
        ensures
            b == self.enabled,
    {
        self.enabled
    }

    pub fn snapshot(&self) -> (r: AutoRunSnapshot)
        ensures
            r == (AutoRunSnapshot {
                running: self.enabled,
                left_vk: self.settings.left_vk,
                right_vk: self.settings.right_vk,
                pulse_delay_ms: self.settings.pulse_delay_ms,
            }),
    {
        AutoRunSnapshot {
            running: self.enabled,
            left_vk: self.settings.left_vk,
            right_vk: self.settings.right_vk,
            pulse_delay_ms: self.settings.pulse_delay_ms,
        }
    }
}

/// What the keyboard hook must do after an event.
#[derive(Debug, Clone, Copy, PartialEq, Eq, Structural)]
pub enum AutoRunHookAction {
    /// Nothing to send.
    NoAction,
    /// Send a key-up of this key, so a key held by the pulse is released.
    ReleaseKey(u16),
}

/// The hook's record of one movement key: a key-down marks it held (the first one
/// starting a new pulse wait); a key-up clears it and releases it.
pub open spec fn key_after_event(k: AutoRunKeyState, is_keydown: bool, is_keyup: bool, now_ms: u64) -> AutoRunKeyState {
    if is_keydown {
        if !k.pressed {
            AutoRunKeyState { pressed: true, pulse_sent: false, pressed_at: now_ms }
        } else {
            k
        }
    } else if is_keyup {
        AutoRunKeyState::cleared()
    } else {
        k
    }
}

fn key_event(k: &mut AutoRunKeyState, is_keydown: bool, is_keyup: bool, now_ms: u64) -> (release: bool)
    ensures
        *final(k) == key_after_event(*old(k), is_keydown, is_keyup, now_ms),
        release == (!is_keydown && is_keyup),
{
    if is_keydown {
        if !k.pressed {
            k.pressed = true;
            k.pulse_sent = false;
            k.pressed_at = now_ms;
        }
        return false;
    }
    if !is_keyup {
        return false;
    }
    k.clear();
    true
}

/// The keyboard hook's part of auto-run: physical events of the left or right key while
/// running update that key's state; a key-up also releases the key.
pub fn handle_key_event(
    state: &mut AutoRunState,
    engine: &AutoRunEngine,
    vk: u16,
    is_keydown: bool,
    is_keyup: bool,
    is_injected: bool,
    now_ms: u64,
) -> (r: AutoRunHookAction)
    ensures
        ({
            let relevant = !is_injected && engine.enabled;
            if relevant && vk == engine.settings.left_vk {
                &&& final(state).left == key_after_event(old(state).left, is_keydown, is_keyup, now_ms)
                &&& final(state).right == old(state).right
                &&& r == (if !is_keydown && is_keyup {
                    AutoRunHookAction::ReleaseKey(vk)
                } else {
                    AutoRunHookAction::NoAction
                })
            } else if relevant && vk == engine.settings.right_vk {
                &&& final(state).right == key_after_event(old(state).right, is_keydown, is_keyup, now_ms)
                &&& final(state).left == old(state).left
                &&& r == (if !is_keydown && is_keyup {
                    AutoRunHookAction::ReleaseKey(vk)
                } else {
                    AutoRunHookAction::NoAction
                })
            } else {
                &&& *final(state) == *old(state)
                &&& r == AutoRunHookAction::NoAction
            }
        }),
{
    if is_injected || !engine.enabled {
        return AutoRunHookAction::NoAction;
    }
    let release = if vk == engine.settings.left_vk {
        key_event(&mut state.left, is_keydown, is_keyup, now_ms)
    } else if vk == engine.settings.right_vk {
        key_event(&mut state.right, is_keydown, is_keyup, now_ms)
    } else {
        false
    };
    if release {
        AutoRunHookAction::ReleaseKey(vk)
    } else {
        AutoRunHookAction::NoAction
    }
}

/// Whether a key's pulse is due: held, pulse not yet sent, and held for the delay.
pub open spec fn pulse_due(k: AutoRunKeyState, pulse_delay_ms: u64, now_ms: u64) -> bool {
    k.pressed && !k.pulse_sent && k.pressed_at != 0 && (if now_ms >= k.pressed_at {
        now_ms - k.pressed_at
    } else {
        0
    }) >= pulse_delay_ms
}

/// Whether a key's pulse is to be sent now.
pub fn should_send_pulse(k: &AutoRunKeyState, pulse_delay_ms: u64, now_ms: u64) -> (b: bool)
    ensures
        b == pulse_due(*k, pulse_delay_ms, now_ms),
{
    if !k.pressed || k.pulse_sent || k.pressed_at == 0 {
        return false;
    }
    now_ms.saturating_sub(k.pressed_at) >= pulse_delay_ms
}

/// After the pulse's release and delay: when the key is no longer held the pulse is
/// over (and marked sent); otherwise the key is to be pressed again.
pub fn pulse_after_release(k: &mut AutoRunKeyState) -> (press_again: bool)
    ensures
        press_again == old(k).pressed,
        !press_again ==> *final(k) == (AutoRunKeyState { pulse_sent: true, ..*old(k) }),
        press_again ==> *final(k) == *old(k),
{
    if !k.pressed {
        k.pulse_sent = true;
        return false;
    }
    true
}

/// After the second press's hold time: the pulse is marked sent, and the key is to be
/// released when it is no longer held.
pub fn pulse_after_press(k: &mut AutoRunKeyState) -> (release: bool)
    ensures
        release == !old(k).pressed,
        *final(k) == (AutoRunKeyState { pulse_sent: true, ..*old(k) }),
{
    let release = !k.pressed;
    k.pulse_sent = true;
    release
}

} // verus!
