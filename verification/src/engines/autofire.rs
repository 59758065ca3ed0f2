//! Auto-fire state: the configured keys, which of them the user holds down, and which
//! toggle keys are switched on. The keyboard hook records presses through
//! `on_key_event`; the fire loop reads `fire_key_states`.

use super::key_bits::{
    bit_of, clear_key_bit, clear_pressed_keys, flip_key_bit, has_key, pressed_key_snapshot_contains,
    retain_pressed_keys, set_key_bit, slot_of, vk_to_slot_bit,
};
use crate::config::schema::FireKeyMode;
use vstd::prelude::*;

verus! {

/// One auto-fire key: its virtual key, firing interval and mode.
#[derive(Debug, Clone, Copy, PartialEq, Eq, Structural)]
pub struct FireKeyConfig {
    pub vk: u16,
    pub interval_ms: u16,
    pub mode: FireKeyMode,
}

// ---------------------------------------------------------------------------
// The configuration table
// ---------------------------------------------------------------------------
/// Strictly ascending by virtual key.
pub open spec fn sorted_by_vk(t: Seq<FireKeyConfig>) -> bool {
    forall|i: int, j: int| 0 <= i < j < t.len() ==> t[i].vk < t[j].vk
}

/// Whether the table has an entry for `vk`.
pub open spec fn has_config(t: Seq<FireKeyConfig>, vk: u16) -> bool {
    exists|i: int| 0 <= i < t.len() && (#[trigger] t[i]).vk == vk
}

/// The entry of `vk` in the table.
pub open spec fn config_of(t: Seq<FireKeyConfig>, vk: u16) -> Option<FireKeyConfig> {
    if has_config(t, vk) {
        Some(t[choose|i: int| 0 <= i < t.len() && (#[trigger] t[i]).vk == vk])
    } else {
        None
    }
}

/// The last configuration given for `vk` among the first `n`.
pub open spec fn last_config_upto(keys: Seq<FireKeyConfig>, vk: u16, n: nat) -> Option<
    FireKeyConfig,
>
    decreases n,
{
    if n == 0 {
        None
    } else if keys[n - 1].vk == vk {
        Some(keys[n - 1])
    } else {
        last_config_upto(keys, vk, (n - 1) as nat)
    }
}

pub open spec fn last_config(keys: Seq<FireKeyConfig>, vk: u16) -> Option<FireKeyConfig> {
    last_config_upto(keys, vk, keys.len())
}

/// Whether some configuration given for `vk` is a toggle.
pub open spec fn any_toggle(keys: Seq<FireKeyConfig>, vk: u16) -> bool {
    exists|i: int| 0 <= i < keys.len() && (#[trigger] keys[i]).vk == vk && keys[i].mode
        == FireKeyMode::Toggle
}

pub proof fn lemma_config_of_at(t: Seq<FireKeyConfig>, i: int)
    requires
        sorted_by_vk(t),
        0 <= i < t.len(),
    ensures
        config_of(t, t[i].vk) == Some(t[i]),
{
    assert(has_config(t, t[i].vk));
    let j = choose|j: int| 0 <= j < t.len() && (#[trigger] t[j]).vk == t[i].vk;
    if j < i {
        assert(t[j].vk < t[i].vk);
    } else if j > i {
        assert(t[i].vk < t[j].vk);
    }
}

/// Stores `c` in a sorted table: it replaces the entry of its key or goes in order.
fn table_insert(table: &mut Vec<FireKeyConfig>, c: FireKeyConfig)
    requires
        sorted_by_vk(old(table)@),
    ensures
        sorted_by_vk(final(table)@),
        forall|vk: u16|
            #[trigger] config_of(final(table)@, vk) == (if vk == c.vk {
                Some(c)
            } else {
                config_of(old(table)@, vk)
            }),
{
    let ghost before = table@;
    let mut p: usize = 0;
    while p < table.len() && table[p].vk < c.vk
        invariant
            p <= table@.len(),
            table@ == before,
            forall|j: int| 0 <= j < p ==> table@[j].vk < c.vk,
        decreases table.len() - p,
    {
        p = p + 1;
    }
    if p < table.len() && table[p].vk == c.vk {
        table[p] = c;
        proof {
            assert(table@ == before.update(p as int, c));
            assert forall|i: int, j: int| 0 <= i < j < table@.len() implies table@[i].vk
                < table@[j].vk by {
                assert(before[i].vk < before[j].vk);
            }
            assert forall|vk: u16| #[trigger]
                config_of(table@, vk) == (if vk == c.vk {
                    Some(c)
                } else {
                    config_of(before, vk)
                }) by {
                if vk == c.vk {
                    lemma_config_of_at(table@, p as int);
                } else if has_config(table@, vk) {
                    let i = choose|i: int| 0 <= i < table@.len() && (#[trigger] table@[i]).vk == vk;
                    lemma_config_of_at(table@, i);
                    lemma_config_of_at(before, i);
                } else {
                    if has_config(before, vk) {
                        let i = choose|i: int| 0 <= i < before.len() && (#[trigger] before[i]).vk == vk;
                        assert(table@[i].vk == vk);
                    }
                }
            }
        }
    } else {
        table.insert(p, c);
        proof {
            assert(table@ == before.insert(p as int, c));
            assert forall|i: int, j: int| 0 <= i < j < table@.len() implies table@[i].vk
                < table@[j].vk by {
                if j < p {
                    assert(before[i].vk < before[j].vk);
                } else if j == p {
                    assert(before[i].vk < c.vk);
                } else if i < p {
                    assert(before[i].vk < c.vk);
                    assert(before[j - 1].vk >= c.vk) by {
                        if p < before.len() {
                            assert(before[p as int].vk >= c.vk);
                            assert(before[p as int].vk != c.vk);
                            if j - 1 > p {
                                assert(before[p as int].vk < before[j - 1].vk);
                            }
                        }
                    }
                    if j - 1 == p {
                        assert(before[p as int].vk != c.vk);
                    }
                } else if i == p {
                    assert(before[j - 1].vk >= c.vk) by {
                        assert(before[p as int].vk >= c.vk);
                        if j - 1 > p {
                            assert(before[p as int].vk < before[j - 1].vk);
                        }
                    }
                    assert(before[p as int].vk != c.vk);
                    if j - 1 > p {
                        assert(before[p as int].vk < before[j - 1].vk);
                    }
                } else {
                    assert(before[i - 1].vk < before[j - 1].vk);
                }
            }
            assert forall|vk: u16| #[trigger]
                config_of(table@, vk) == (if vk == c.vk {
                    Some(c)
                } else {
                    config_of(before, vk)
                }) by {
                if vk == c.vk {
                    lemma_config_of_at(table@, p as int);
                } else if has_config(table@, vk) {
                    let i = choose|i: int| 0 <= i < table@.len() && (#[trigger] table@[i]).vk == vk;
                    lemma_config_of_at(table@, i);
                    if i < p {
                        lemma_config_of_at(before, i);
                    } else {
                        assert(i != p);
                        lemma_config_of_at(before, i - 1);
                    }
                } else {
                    if has_config(before, vk) {
                        let i = choose|i: int| 0 <= i < before.len() && (#[trigger] before[i]).vk == vk;
                        if i < p {
                            assert(table@[i].vk == vk);
                        } else {
                            assert(table@[i + 1].vk == vk);
                        }
                    }
                }
            }
        }
    }
}

// ---------------------------------------------------------------------------
// The engine state
// ---------------------------------------------------------------------------
/// Model of the auto-fire state.
pub struct AutoFireModel {
    pub enabled: bool,
    pub keys: Seq<FireKeyConfig>,
    pub pressed: Seq<u64>,
    pub toggle_active: Seq<u64>,
}

/// The auto-fire state shared by the keyboard hook and the fire loop.
#[derive(Debug)]
pub struct AutoFireEngine {
    enabled: bool,
    keys: Vec<FireKeyConfig>,
    pressed_keys: [u64; 4],
    toggle_active_keys: [u64; 4],
}

impl View for AutoFireEngine {
    type V = AutoFireModel;

    closed spec fn view(&self) -> AutoFireModel {
        AutoFireModel {
            enabled: self.enabled,
            keys: self.keys@,
            pressed: self.pressed_keys@,
            toggle_active: self.toggle_active_keys@,
        }
    }
}

/// A key of the state as a snapshot shows it.
#[derive(Debug, Clone, Copy, PartialEq, Eq, Structural)]
pub struct AutoFireKeySnapshot {
    pub vk: u16,
    pub interval_ms: u64,
    pub mode: FireKeyMode,
    pub pressed: bool,
    pub toggle_active: bool,
}

/// What the status view shows of auto-fire.
#[derive(Debug)]
pub struct AutoFireSnapshot {
    pub running: bool,
    pub keys: Vec<AutoFireKeySnapshot>,
}

/// A configured key as the fire loop sees it.
#[derive(Debug, Clone, Copy, PartialEq, Eq, Structural)]
pub struct FireKeyState {
    pub vk: u16,
    pub interval_ms: u64,
    pub active: bool,
}

/// Whether a key in `mode` fires: a hold key while held, a toggle key while on.
pub open spec fn key_is_active(m: AutoFireModel, c: FireKeyConfig) -> bool {
    match c.mode {
        FireKeyMode::Hold => has_key(m.pressed, c.vk),
        FireKeyMode::Toggle => has_key(m.toggle_active, c.vk),
    }
}

/// The snapshot entries of the first `n` table entries that have a bit.
pub open spec fn snapshot_keys_upto(m: AutoFireModel, n: nat) -> Seq<AutoFireKeySnapshot>
    decreases n,
{
    if n == 0 {
        Seq::empty()
    } else {
        let c = m.keys[n - 1];
        if c.vk < 256 {
            snapshot_keys_upto(m, (n - 1) as nat).push(
                AutoFireKeySnapshot {
                    vk: c.vk,
                    interval_ms: c.interval_ms as u64,
                    mode: c.mode,
                    pressed: has_key(m.pressed, c.vk),
                    toggle_active: has_key(m.toggle_active, c.vk),
                },
            )
        } else {
            snapshot_keys_upto(m, (n - 1) as nat)
        }
    }
}

/// The toggle keys switched on among the first `n` table entries.
pub open spec fn active_toggles_upto(m: AutoFireModel, n: nat) -> Seq<u16>
    decreases n,
{
    if n == 0 {
        Seq::empty()
    } else {
        let c = m.keys[n - 1];
        if c.mode == FireKeyMode::Toggle && has_key(m.toggle_active, c.vk) {
            active_toggles_upto(m, (n - 1) as nat).push(c.vk)
        } else {
            active_toggles_upto(m, (n - 1) as nat)
        }
    }
}

/// The fire-loop view of the first `n` table entries that have a bit.
pub open spec fn fire_states_upto(m: AutoFireModel, n: nat) -> Seq<FireKeyState>
    decreases n,
{
    if n == 0 {
        Seq::empty()
    } else {
        let c = m.keys[n - 1];
        if c.vk < 256 {
            fire_states_upto(m, (n - 1) as nat).push(
                FireKeyState {
                    vk: c.vk,
                    interval_ms: c.interval_ms as u64,
                    active: key_is_active(m, c),
                },
            )
        } else {
            fire_states_upto(m, (n - 1) as nat)
        }
    }
}

/// A hold key fires while its bit is pressed, a toggle key while
/// its toggle bit is on.
pub fn fire_key_is_active(
    mode: FireKeyMode,
    pressed_snapshot: &[u64; 4],
    toggle_snapshot: &[u64; 4],
    slot_index: usize,
    key_bit: u64,
) -> (b: bool)
    ensures
        b == match mode {
            FireKeyMode::Hold => slot_index < 4 && pressed_snapshot@[slot_index as int] & key_bit
                != 0,
            FireKeyMode::Toggle => slot_index < 4 && toggle_snapshot@[slot_index as int] & key_bit
                != 0,
        },
{
    match mode {
        FireKeyMode::Hold => pressed_key_snapshot_contains(pressed_snapshot, slot_index, key_bit),
        FireKeyMode::Toggle => pressed_key_snapshot_contains(toggle_snapshot, slot_index, key_bit),
    }
}

/// `after` is `before` with toggle key `vk` switched over (a key with no bit stays as
/// it is), all else unchanged.
pub open spec fn toggle_applied(before: AutoFireModel, after: AutoFireModel, vk: u16) -> bool {
    &&& after.enabled == before.enabled
    &&& after.keys == before.keys
    &&& after.pressed == before.pressed
    &&& forall|w: u16|
        #[trigger] has_key(after.toggle_active, w) == (if w == vk && vk < 256 {
            !has_key(before.toggle_active, w)
        } else {
            has_key(before.toggle_active, w)
        })
}

/// Toggling a key twice leaves every toggle as it was.
pub proof fn lemma_toggle_twice(m0: AutoFireModel, m1: AutoFireModel, m2: AutoFireModel, vk: u16)
    requires
        toggle_applied(m0, m1, vk),
        toggle_applied(m1, m2, vk),
    ensures
        forall|w: u16| #[trigger] has_key(m2.toggle_active, w) == has_key(m0.toggle_active, w),
        m2.enabled == m0.enabled && m2.keys == m0.keys && m2.pressed == m0.pressed,
{
    assert forall|w: u16| #[trigger] has_key(m2.toggle_active, w) == has_key(m0.toggle_active, w) by {
        assert(has_key(m1.toggle_active, w) == (if w == vk && vk < 256 {
            !has_key(m0.toggle_active, w)
        } else {
            has_key(m0.toggle_active, w)
        }));
    }
}

impl AutoFireEngine {
    /// The table stays sorted by key.
    pub open spec fn wf(&self) -> bool {
        sorted_by_vk(self@.keys)
    }

    /// A stopped engine with no key.
    pub fn new() -> (r: Self)
        ensures
            r.wf(),
            !r@.enabled,
            r@.keys.len() == 0,
            forall|w: u16| !has_key(r@.pressed, w) && !has_key(r@.toggle_active, w),
    {
        let mut pressed_keys = [0u64, 0u64, 0u64, 0u64];
        let mut toggle_active_keys = [0u64, 0u64, 0u64, 0u64];
        clear_pressed_keys(&mut pressed_keys);
        clear_pressed_keys(&mut toggle_active_keys);
        AutoFireEngine { enabled: false, keys: Vec::new(), pressed_keys, toggle_active_keys }
    }

    /// Whether the engine is running.
    pub fn is_running(&self) -> (b: bool)
        ensures
            b == self@.enabled,
    {
        self.enabled
    }

    /// The table becomes one entry per key given, the last
    /// configuration given winning; toggle states survive only for keys still given
    /// in toggle mode.
    pub fn set_key_configs(&mut self, keys: Vec<FireKeyConfig>)
        requires
            old(self).wf(),
        ensures
            final(self).wf(),
            forall|vk: u16| #[trigger] config_of(final(self)@.keys, vk) == last_config(keys@, vk),
            final(self)@.enabled == old(self)@.enabled,
            final(self)@.pressed == old(self)@.pressed,
            forall|w: u16|
                #[trigger] has_key(final(self)@.toggle_active, w) == (has_key(
                    old(self)@.toggle_active,
                    w,
                ) && any_toggle(keys@, w)),
    {
        let mut table: Vec<FireKeyConfig> = Vec::new();
        let mut toggle_keys: Vec<u16> = Vec::new();
        let mut i: usize = 0;
        while i < keys.len()
            invariant
                i <= keys@.len(),
                sorted_by_vk(table@),
                forall|vk: u16| #[trigger] config_of(table@, vk) == last_config_upto(keys@, vk, i as nat),
                forall|w: u16|
                    toggle_keys@.contains(w) == (exists|j: int|
                        0 <= j < i && (#[trigger] keys@[j]).vk == w && keys@[j].mode
                            == FireKeyMode::Toggle),
            decreases keys.len() - i,
        {
            let k = keys[i];
            let ghost before = toggle_keys@;
            table_insert(&mut table, k);
            if k.mode == FireKeyMode::Toggle {
                toggle_keys.push(k.vk);
            }
            proof {
                assert forall|w: u16|
                    toggle_keys@.contains(w) == (exists|j: int|
                        0 <= j < i + 1 && (#[trigger] keys@[j]).vk == w && keys@[j].mode
                            == FireKeyMode::Toggle) by {
                    if toggle_keys@.contains(w) {
                        let t = choose|t: int| 0 <= t < toggle_keys@.len() && toggle_keys@[t] == w;
                        if t < before.len() {
                            assert(before[t] == w);
                            assert(before.contains(w));
                        } else {
                            assert(keys@[i as int].vk == w);
                        }
                    }
                    if exists|j: int|
                        0 <= j < i + 1 && (#[trigger] keys@[j]).vk == w && keys@[j].mode
                            == FireKeyMode::Toggle {
                        let j = choose|j: int|
                            0 <= j < i + 1 && (#[trigger] keys@[j]).vk == w && keys@[j].mode
                                == FireKeyMode::Toggle;
                        if j < i {
                            assert(before.contains(w));
                            let t = choose|t: int| 0 <= t < before.len() && before[t] == w;
                            assert(toggle_keys@[t] == w);
                        } else {
                            assert(toggle_keys@[toggle_keys@.len() - 1] == w);
                        }
                    }
                }
            }
            i = i + 1;
        }
        self.keys = table;
        retain_pressed_keys(&mut self.toggle_active_keys, &toggle_keys);
        proof {
            assert forall|w: u16|
                #[trigger] has_key(self@.toggle_active, w) == (has_key(
                    old(self)@.toggle_active,
                    w,
                ) && any_toggle(keys@, w)) by {
                assert(toggle_keys@.contains(w) == any_toggle(keys@, w));
            }
        }
    }

    /// Hold keys at the default interval.
    pub fn set_keys(&mut self, keys: Vec<u16>)
        requires
            old(self).wf(),
        ensures
            final(self).wf(),
            forall|vk: u16|
                #[trigger] config_of(final(self)@.keys, vk) == (if keys@.contains(vk) {
                    Some(FireKeyConfig { vk, interval_ms: 33, mode: FireKeyMode::Hold })
                } else {
                    None
                }),
            final(self)@.enabled == old(self)@.enabled,
            final(self)@.pressed == old(self)@.pressed,
            forall|w: u16| !has_key(final(self)@.toggle_active, w),
    {
        let mut configs: Vec<FireKeyConfig> = Vec::new();
        let mut i: usize = 0;
        while i < keys.len()
            invariant
                i <= keys@.len(),
                configs@.len() == i,
                forall|j: int|
                    0 <= j < i ==> #[trigger] configs@[j] == (FireKeyConfig {
                        vk: keys@[j],
                        interval_ms: 33,
                        mode: FireKeyMode::Hold,
                    }),
            decreases keys.len() - i,
        {
            configs.push(FireKeyConfig { vk: keys[i], interval_ms: 33, mode: FireKeyMode::Hold });
            i = i + 1;
        }
        let ghost cs = configs@;
        proof {
            assert forall|vk: u16| #[trigger]
                last_config(cs, vk) == (if keys@.contains(vk) {
                    Some(FireKeyConfig { vk, interval_ms: 33, mode: FireKeyMode::Hold })
                } else {
                    None
                }) by {
                lemma_last_config_hold(cs, keys@, vk, cs.len());
                assert(keys@.take(cs.len() as int) =~= keys@);
            }
        }
        self.set_key_configs(configs);
    }

    /// A stopped engine starts with nothing held and no toggle on; returns
    /// whether it was stopped.
    pub fn start(&mut self) -> (started: bool)
        requires
            old(self).wf(),
        ensures
            final(self).wf(),
            started == !old(self)@.enabled,
            final(self)@.enabled,
            final(self)@.keys == old(self)@.keys,
            started ==> forall|w: u16|
                !has_key(final(self)@.pressed, w) && !has_key(final(self)@.toggle_active, w),
            !started ==> final(self)@ == old(self)@,
    {
        if self.enabled {
            return false;
        }
        clear_pressed_keys(&mut self.pressed_keys);
        clear_pressed_keys(&mut self.toggle_active_keys);
        self.enabled = true;
        true
    }

    /// Stopped, with nothing held and no toggle on.
    pub fn stop(&mut self)
        requires
            old(self).wf(),
        ensures
            final(self).wf(),
            !final(self)@.enabled,
            final(self)@.keys == old(self)@.keys,
            forall|w: u16|
                !has_key(final(self)@.pressed, w) && !has_key(final(self)@.toggle_active, w),
    {
        self.enabled = false;
        clear_pressed_keys(&mut self.pressed_keys);
        clear_pressed_keys(&mut self.toggle_active_keys);
    }

    /// The toggle keys switched on, ascending; none while stopped.
    pub fn active_toggle_keys(&self) -> (r: Vec<u16>)
        ensures
            r@ == (if self@.enabled {
                active_toggles_upto(self@, self@.keys.len())
            } else {
                Seq::empty()
            }),
    {
        let mut r: Vec<u16> = Vec::new();
        if !self.enabled {
            return r;
        }
        let mut i: usize = 0;
        while i < self.keys.len()
            invariant
                i <= self.keys@.len(),
                r@ == active_toggles_upto(self@, i as nat),
            decreases self.keys.len() - i,
        {
            let c = self.keys[i];
            if c.mode == FireKeyMode::Toggle {
                if let Some((s, bit)) = vk_to_slot_bit(c.vk) {
                    if pressed_key_snapshot_contains(&self.toggle_active_keys, s, bit) {
                        r.push(c.vk);
                    }
                }
            }
            i = i + 1;
        }
        r
    }

    /// The running flag and every key that has a bit, ascending, with its
    /// held and toggle state.
    pub fn snapshot(&self) -> (r: AutoFireSnapshot)
        ensures
            r.running == self@.enabled,
            r.keys@ == snapshot_keys_upto(self@, self@.keys.len()),
    {
        let mut keys: Vec<AutoFireKeySnapshot> = Vec::new();
        let mut i: usize = 0;
        while i < self.keys.len()
            invariant
                i <= self.keys@.len(),
                keys@ == snapshot_keys_upto(self@, i as nat),
            decreases self.keys.len() - i,
        {
            let c = self.keys[i];
            if let Some((s, bit)) = vk_to_slot_bit(c.vk) {
                keys.push(
                    AutoFireKeySnapshot {
                        vk: c.vk,
                        interval_ms: c.interval_ms as u64,
                        mode: c.mode,
                        pressed: pressed_key_snapshot_contains(&self.pressed_keys, s, bit),
                        toggle_active: pressed_key_snapshot_contains(&self.toggle_active_keys, s, bit),
                    },
                );
            }
            i = i + 1;
        }
        AutoFireSnapshot { running: self.enabled, keys }
    }

    /// Whether any key is held or any toggle is on.
    pub fn any_key_bits(&self) -> (b: bool)
        ensures
            b == (self@.pressed[0] != 0 || self@.pressed[1] != 0 || self@.pressed[2] != 0
                || self@.pressed[3] != 0 || self@.toggle_active[0] != 0
                || self@.toggle_active[1] != 0 || self@.toggle_active[2] != 0
                || self@.toggle_active[3] != 0),
    {
        super::key_bits::pressed_key_snapshot_has_any(&self.pressed_keys)
            || super::key_bits::pressed_key_snapshot_has_any(&self.toggle_active_keys)
    }

    /// The configured keys that have a bit, ascending, each with its interval and
    /// whether it fires now.
    pub fn fire_key_states(&self) -> (r: Vec<FireKeyState>)
        ensures
            r@ == fire_states_upto(self@, self@.keys.len()),
    {
        let mut r: Vec<FireKeyState> = Vec::new();
        let mut i: usize = 0;
        while i < self.keys.len()
            invariant
                i <= self.keys@.len(),
                r@ == fire_states_upto(self@, i as nat),
            decreases self.keys.len() - i,
        {
            let c = self.keys[i];
            if let Some((s, bit)) = vk_to_slot_bit(c.vk) {
                let active = fire_key_is_active(
                    c.mode,
                    &self.pressed_keys,
                    &self.toggle_active_keys,
                    s,
                    bit,
                );
                r.push(FireKeyState { vk: c.vk, interval_ms: c.interval_ms as u64, active });
            }
            i = i + 1;
        }
        r
    }

    /// The keyboard hook's record of a physical key event. Events that are injected,
    /// arrive while stopped, or concern a key with no entry or no bit change nothing.
    /// Otherwise a key-down marks the key held and a key-up releases it. Returns true
    /// for the first key-down of a toggle key: the caller then flips it with
    /// `toggle_key` when the game window is in front.
    pub fn on_key_event(&mut self, vk: u16, is_keydown: bool, is_keyup: bool, is_injected: bool) -> (toggle_candidate: bool)
        requires
            old(self).wf(),
        ensures
            final(self).wf(),
            final(self)@.enabled == old(self)@.enabled,
            final(self)@.keys == old(self)@.keys,
            final(self)@.toggle_active == old(self)@.toggle_active,
            ({
                let relevant = !is_injected && old(self)@.enabled && has_config(old(self)@.keys, vk)
                    && vk < 256;
                &&& forall|w: u16|
                    #[trigger] has_key(final(self)@.pressed, w) == (if relevant && w == vk {
                        if is_keyup {
                            false
                        } else if is_keydown {
                            true
                        } else {
                            has_key(old(self)@.pressed, w)
                        }
                    } else {
                        has_key(old(self)@.pressed, w)
                    })
                &&& toggle_candidate == (relevant && is_keydown && !has_key(old(self)@.pressed, vk)
                    && config_of(old(self)@.keys, vk).unwrap().mode == FireKeyMode::Toggle)
            }),
    {
        if is_injected || !self.enabled {
            return false;
        }
        let mode = match self.config_mode(vk) {
            Some(m) => m,
            None => {
                return false;
            },
        };
        let (s, bit) = match vk_to_slot_bit(vk) {
            Some(p) => p,
            None => {
                return false;
            },
        };
        let mut candidate = false;
        if is_keydown {
            let was_down = pressed_key_snapshot_contains(&self.pressed_keys, s, bit);
            set_key_bit(&mut self.pressed_keys, vk);
            if !was_down && mode == FireKeyMode::Toggle {
                candidate = true;
            }
        }
        if is_keyup {
            clear_key_bit(&mut self.pressed_keys, vk);
        }
        candidate
    }

    /// The mode of `vk`'s entry.
    fn config_mode(&self, vk: u16) -> (r: Option<FireKeyMode>)
        requires
            self.wf(),
        ensures
            match r {
                Some(m) => has_config(self@.keys, vk) && config_of(self@.keys, vk).unwrap().mode
                    == m,
                None => !has_config(self@.keys, vk),
            },
    {
        let mut i: usize = 0;
        while i < self.keys.len()
            invariant
                self.wf(),
                i <= self.keys@.len(),
                forall|j: int| 0 <= j < i ==> self.keys@[j].vk != vk,
            decreases self.keys.len() - i,
        {
            if self.keys[i].vk == vk {
                proof {
                    lemma_config_of_at(self@.keys, i as int);
                }
                return Some(self.keys[i].mode);
            }
            i = i + 1;
        }
        None
    }

    /// Switches toggle key `vk` on or off.
    pub fn toggle_key(&mut self, vk: u16)
        requires
            old(self).wf(),
        ensures
            final(self).wf(),
            toggle_applied(old(self)@, final(self)@, vk),
    {
        flip_key_bit(&mut self.toggle_active_keys, vk);
    }
}

proof fn lemma_last_config_hold(cs: Seq<FireKeyConfig>, keys: Seq<u16>, vk: u16, n: nat)
    requires
        n <= cs.len(),
        cs.len() == keys.len(),
        forall|j: int|
            0 <= j < cs.len() ==> #[trigger] cs[j] == (FireKeyConfig {
                vk: keys[j],
                interval_ms: 33,
                mode: FireKeyMode::Hold,
            }),
    ensures
        last_config_upto(cs, vk, n) == (if keys.take(n as int).contains(vk) {
            Some(FireKeyConfig { vk, interval_ms: 33, mode: FireKeyMode::Hold })
        } else {
            None
        }),
    decreases n,
{
    if n > 0 {
        lemma_last_config_hold(cs, keys, vk, (n - 1) as nat);
        assert(cs[n - 1] == (FireKeyConfig { vk: keys[n - 1], interval_ms: 33, mode: FireKeyMode::Hold }));
        assert(keys.take(n as int) == keys.take(n - 1).push(keys[n - 1]));
        if keys.take(n - 1).contains(vk) {
            let j = choose|j: int| 0 <= j < n - 1 && #[trigger] keys.take(n - 1)[j] == vk;
            assert(keys.take(n as int)[j] == vk);
        }
        if keys[n - 1] == vk {
            assert(keys.take(n as int)[n - 1] == vk);
        }
        if keys.take(n as int).contains(vk) && keys[n - 1] != vk {
            let j = choose|j: int| 0 <= j < n && #[trigger] keys.take(n as int)[j] == vk;
            assert(keys.take(n - 1)[j] == vk);
        }
    } else {
        assert(keys.take(0).len() == 0);
    }
    if n == keys.len() {
        assert(keys.take(n as int) =~= keys);
    }
}

} // verus!
