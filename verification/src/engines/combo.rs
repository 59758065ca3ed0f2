//! Combos: the keyboard hook catches the trigger key of an enabled combo and the worker
//! plays the combo's actions in order. This module holds the combo state, which key
//! starts which combo, and the step list a combo plays.

use crate::config::schema::{
    seq_view, ComboAction, ComboActionView, ComboDefinition, ComboDefinitionView,
};
use crate::keyed_map::Duplicate;
use vstd::prelude::*;

verus! {

/// One step of a combo.
#[derive(Debug, Clone, Copy, PartialEq, Eq, Structural)]
pub enum ComboStep {
    /// Stop unless the combo may go on (not stopped, not superseded, game in front).
    Check,
    /// Press `vk`, hold it, release it, then wait. A key equal to the trigger is sent
    /// as the real key, since the hook swallows the physical one. The hold and the wait
    /// stop early if the combo may not go on; the key is released either way, and a hold
    /// or wait cut short ends the combo.
    Tap { vk: u16, use_real_key: bool, hold_ms: u16, wait_after_ms: u16 },
    /// Wait; if the combo may not go on, the wait stops early and the combo ends.
    Wait { ms: u16 },
    /// Stop: an action without a key.
    Stop,
}

/// The steps of a command's keys from the `n`-th on: a check before each key, the key
/// tapped, and the key gap between two keys.
pub open spec fn command_steps_from(keys: Seq<u16>, hold_ms: u16, gap_ms: u16, trigger: u16, n: nat) -> Seq<
    ComboStep,
>
    decreases keys.len() - n,
{
    if n >= keys.len() {
        Seq::empty()
    } else {
        let tap = ComboStep::Tap { vk: keys[n as int], use_real_key: keys[n as int] == trigger, hold_ms, wait_after_ms: 0 };
        if n + 1 < keys.len() {
            seq![ComboStep::Check, tap, ComboStep::Wait { ms: gap_ms }] + command_steps_from(
                keys,
                hold_ms,
                gap_ms,
                trigger,
                n + 1,
            )
        } else {
            seq![ComboStep::Check, tap] + command_steps_from(keys, hold_ms, gap_ms, trigger, n + 1)
        }
    }
}

/// The steps of one action: a check, then a tap, the command's keys and its wait, or a
/// stop for a tap without a key.
pub open spec fn action_steps(a: ComboActionView, trigger: u16) -> Seq<ComboStep> {
    seq![ComboStep::Check] + match a {
        ComboActionView::Tap { vk, hold_ms, wait_after_ms, .. } => match vk {
            Some(v) => seq![ComboStep::Tap { vk: v, use_real_key: v == trigger, hold_ms, wait_after_ms }],
            None => seq![ComboStep::Stop],
        },
        ComboActionView::Command { keys, key_hold_ms, key_gap_ms, wait_after_ms, .. } =>
            command_steps_from(keys, key_hold_ms, key_gap_ms, trigger, 0) + seq![ComboStep::Wait { ms: wait_after_ms }],
    }
}

pub open spec fn actions_steps_upto(actions: Seq<ComboActionView>, trigger: u16, n: nat) -> Seq<ComboStep>
    decreases n,
{
    if n == 0 {
        Seq::empty()
    } else {
        actions_steps_upto(actions, trigger, (n - 1) as nat) + action_steps(actions[n - 1], trigger)
    }
}

/// A combo as a step list: a check, then each action's steps in order.
pub open spec fn combo_steps(c: ComboDefinitionView, trigger: u16) -> Seq<ComboStep> {
    seq![ComboStep::Check] + actions_steps_upto(c.actions, trigger, c.actions.len())
}

fn push_command_steps(steps: &mut Vec<ComboStep>, keys: &Vec<u16>, hold_ms: u16, gap_ms: u16, trigger: u16)
    ensures
        final(steps)@ == old(steps)@ + command_steps_from(keys@, hold_ms, gap_ms, trigger, 0),
{
    let ghost start = steps@;
    let mut i: usize = 0;
    while i < keys.len()
        invariant
            i <= keys@.len(),
            steps@ + command_steps_from(keys@, hold_ms, gap_ms, trigger, i as nat) == start
                + command_steps_from(keys@, hold_ms, gap_ms, trigger, 0),
        decreases keys.len() - i,
    {
        let ghost before = steps@;
        let vk = keys[i];
        steps.push(ComboStep::Check);
        steps.push(ComboStep::Tap { vk, use_real_key: vk == trigger, hold_ms, wait_after_ms: 0 });
        if i + 1 < keys.len() {
            steps.push(ComboStep::Wait { ms: gap_ms });
        }
        proof {
            let tail = command_steps_from(keys@, hold_ms, gap_ms, trigger, (i + 1) as nat);
            let tap = ComboStep::Tap { vk, use_real_key: vk == trigger, hold_ms, wait_after_ms: 0 };
            if i + 1 < keys.len() {
                let head = seq![ComboStep::Check, tap, ComboStep::Wait { ms: gap_ms }];
                assert(steps@ == before + head);
                assert(before + command_steps_from(keys@, hold_ms, gap_ms, trigger, i as nat) == before + (
                head + tail));
                assert(before + (head + tail) =~= steps@ + tail);
            } else {
                let head = seq![ComboStep::Check, tap];
                assert(steps@ == before + head);
                assert(before + command_steps_from(keys@, hold_ms, gap_ms, trigger, i as nat) == before + (
                head + tail));
                assert(before + (head + tail) =~= steps@ + tail);
            }
        }
        i = i + 1;
    }
    assert(command_steps_from(keys@, hold_ms, gap_ms, trigger, i as nat) =~= Seq::<ComboStep>::empty());
    assert(steps@ =~= steps@ + command_steps_from(keys@, hold_ms, gap_ms, trigger, i as nat));
}

fn push_action_steps(steps: &mut Vec<ComboStep>, action: &ComboAction, trigger: u16)
    ensures
        final(steps)@ == old(steps)@ + action_steps(action@, trigger),
{
    let ghost start = steps@;
    steps.push(ComboStep::Check);
    match action {
        ComboAction::Tap { vk, hold_ms, wait_after_ms, .. } => match vk {
            Some(v) => {
                steps.push(ComboStep::Tap { vk: *v, use_real_key: *v == trigger, hold_ms: *hold_ms, wait_after_ms: *wait_after_ms });
            },
            None => {
                steps.push(ComboStep::Stop);
            },
        },
        ComboAction::Command { keys, key_hold_ms, key_gap_ms, wait_after_ms, .. } => {
            push_command_steps(steps, keys, *key_hold_ms, *key_gap_ms, trigger);
            steps.push(ComboStep::Wait { ms: *wait_after_ms });
        },
    }
    assert(steps@ =~= start + action_steps(action@, trigger));
}

/// The steps to play for `combo` started by `trigger_vk`.
pub fn combo_plan(combo: &ComboDefinition, trigger_vk: u16) -> (r: Vec<ComboStep>)
    ensures
        r@ == combo_steps(combo@, trigger_vk),
        forall|i: int|
            0 <= i < r@.len() ==> (#[trigger] r@[i] matches ComboStep::Tap { vk, use_real_key, .. } ==> use_real_key
                == (vk == trigger_vk)),
        forall|i: int| 0 <= i < r@.len() && (#[trigger] r@[i]) is Tap ==> i > 0 && r@[i - 1] is Check,
{
    proof {
        lemma_trigger_taps_use_real_key(combo@, trigger_vk);
        lemma_check_before_every_tap(combo@, trigger_vk);
    }
    let mut steps: Vec<ComboStep> = Vec::new();
    steps.push(ComboStep::Check);
    let ghost c = combo@;
    let mut i: usize = 0;
    while i < combo.actions.len()
        invariant
            i <= combo.actions@.len(),
            c == combo@,
            steps@ == seq![ComboStep::Check] + actions_steps_upto(c.actions, trigger_vk, i as nat),
        decreases combo.actions.len() - i,
    {
        push_action_steps(&mut steps, &combo.actions[i], trigger_vk);
        assert(c.actions[i as int] == combo.actions@[i as int]@);
        assert(steps@ =~= seq![ComboStep::Check] + actions_steps_upto(c.actions, trigger_vk, (i + 1) as nat));
        i = i + 1;
    }
    steps
}

/// Every key tap in `s` comes right after a check.
pub open spec fn taps_checked(s: Seq<ComboStep>) -> bool {
    forall|i: int| 0 <= i < s.len() && (#[trigger] s[i]) is Tap ==> i > 0 && s[i - 1] is Check
}

proof fn lemma_taps_checked_concat(a: Seq<ComboStep>, b: Seq<ComboStep>)
    requires
        taps_checked(a),
        taps_checked(b),
    ensures
        taps_checked(a + b),
{
    let s = a + b;
    assert forall|i: int| 0 <= i < s.len() && (#[trigger] s[i]) is Tap implies i > 0 && s[i - 1] is Check by {
        if i < a.len() {
            assert(s[i] == a[i]);
            assert(s[i - 1] == a[i - 1]);
        } else {
            assert(s[i] == b[i - a.len()]);
            assert(s[i - 1] == b[i - 1 - a.len()]);
        }
    }
}

proof fn lemma_command_steps_checked(keys: Seq<u16>, hold_ms: u16, gap_ms: u16, trigger: u16, n: nat)
    ensures
        taps_checked(command_steps_from(keys, hold_ms, gap_ms, trigger, n)),
    decreases keys.len() - n,
{
    if n < keys.len() {
        lemma_command_steps_checked(keys, hold_ms, gap_ms, trigger, n + 1);
        let tap = ComboStep::Tap { vk: keys[n as int], use_real_key: keys[n as int] == trigger, hold_ms, wait_after_ms: 0 };
        let head = if n + 1 < keys.len() {
            seq![ComboStep::Check, tap, ComboStep::Wait { ms: gap_ms }]
        } else {
            seq![ComboStep::Check, tap]
        };
        assert(taps_checked(head));
        lemma_taps_checked_concat(head, command_steps_from(keys, hold_ms, gap_ms, trigger, n + 1));
    } else {
        assert(command_steps_from(keys, hold_ms, gap_ms, trigger, n) =~= Seq::<ComboStep>::empty());
    }
}

proof fn lemma_actions_steps_checked(actions: Seq<ComboActionView>, trigger: u16, n: nat)
    ensures
        taps_checked(actions_steps_upto(actions, trigger, n)),
    decreases n,
{
    if n == 0 {
        assert(actions_steps_upto(actions, trigger, n) =~= Seq::<ComboStep>::empty());
    } else {
        lemma_actions_steps_checked(actions, trigger, (n - 1) as nat);
        let a = actions[n - 1];
        match a {
            ComboActionView::Tap { vk, hold_ms, wait_after_ms, .. } => {
                assert(taps_checked(action_steps(a, trigger)));
            },
            ComboActionView::Command { keys, key_hold_ms, key_gap_ms, wait_after_ms, .. } => {
                let cmd = command_steps_from(keys, key_hold_ms, key_gap_ms, trigger, 0);
                lemma_command_steps_checked(keys, key_hold_ms, key_gap_ms, trigger, 0);
                assert(taps_checked(seq![ComboStep::Check]));
                assert(taps_checked(seq![ComboStep::Wait { ms: wait_after_ms }]));
                lemma_taps_checked_concat(seq![ComboStep::Check], cmd);
                lemma_taps_checked_concat(seq![ComboStep::Check] + cmd, seq![ComboStep::Wait { ms: wait_after_ms }]);
                assert(action_steps(a, trigger) =~= seq![ComboStep::Check] + cmd + seq![ComboStep::Wait { ms: wait_after_ms }]);
            },
        }
        lemma_taps_checked_concat(actions_steps_upto(actions, trigger, (n - 1) as nat), action_steps(a, trigger));
    }
}

/// No key is pressed without first asking whether the combo may go on: in the steps of
/// any combo, every key tap comes right after a check, the key taps of a command
/// included.
pub proof fn lemma_check_before_every_tap(c: ComboDefinitionView, trigger: u16)
    ensures
        taps_checked(combo_steps(c, trigger)),
{
    lemma_actions_steps_checked(c.actions, trigger, c.actions.len());
    assert(taps_checked(seq![ComboStep::Check]));
    lemma_taps_checked_concat(seq![ComboStep::Check], actions_steps_upto(c.actions, trigger, c.actions.len()));
}

/// Every key tap of `s` is sent as the real key exactly when it is the trigger key.
pub open spec fn taps_real_for_trigger(s: Seq<ComboStep>, trigger: u16) -> bool {
    forall|i: int|
        0 <= i < s.len() ==> (#[trigger] s[i] matches ComboStep::Tap { vk, use_real_key, .. } ==> use_real_key == (vk
            == trigger))
}

proof fn lemma_real_concat(a: Seq<ComboStep>, b: Seq<ComboStep>, trigger: u16)
    requires
        taps_real_for_trigger(a, trigger),
        taps_real_for_trigger(b, trigger),
    ensures
        taps_real_for_trigger(a + b, trigger),
{
    let s = a + b;
    assert forall|i: int| 0 <= i < s.len() implies (#[trigger] s[i] matches ComboStep::Tap { vk, use_real_key, .. }
        ==> use_real_key == (vk == trigger)) by {
        if i < a.len() {
            assert(s[i] == a[i]);
        } else {
            assert(s[i] == b[i - a.len()]);
        }
    }
}

proof fn lemma_command_steps_real(keys: Seq<u16>, hold_ms: u16, gap_ms: u16, trigger: u16, n: nat)
    ensures
        taps_real_for_trigger(command_steps_from(keys, hold_ms, gap_ms, trigger, n), trigger),
    decreases keys.len() - n,
{
    if n < keys.len() {
        lemma_command_steps_real(keys, hold_ms, gap_ms, trigger, n + 1);
        let tap = ComboStep::Tap { vk: keys[n as int], use_real_key: keys[n as int] == trigger, hold_ms, wait_after_ms: 0 };
        let head = if n + 1 < keys.len() {
            seq![ComboStep::Check, tap, ComboStep::Wait { ms: gap_ms }]
        } else {
            seq![ComboStep::Check, tap]
        };
        assert(taps_real_for_trigger(head, trigger));
        lemma_real_concat(head, command_steps_from(keys, hold_ms, gap_ms, trigger, n + 1), trigger);
    } else {
        assert(command_steps_from(keys, hold_ms, gap_ms, trigger, n) =~= Seq::<ComboStep>::empty());
    }
}

proof fn lemma_actions_steps_real(actions: Seq<ComboActionView>, trigger: u16, n: nat)
    ensures
        taps_real_for_trigger(actions_steps_upto(actions, trigger, n), trigger),
    decreases n,
{
    if n == 0 {
        assert(actions_steps_upto(actions, trigger, n) =~= Seq::<ComboStep>::empty());
    } else {
        lemma_actions_steps_real(actions, trigger, (n - 1) as nat);
        let a = actions[n - 1];
        match a {
            ComboActionView::Tap { .. } => {
                assert(taps_real_for_trigger(action_steps(a, trigger), trigger));
            },
            ComboActionView::Command { keys, key_hold_ms, key_gap_ms, wait_after_ms, .. } => {
                let cmd = command_steps_from(keys, key_hold_ms, key_gap_ms, trigger, 0);
                lemma_command_steps_real(keys, key_hold_ms, key_gap_ms, trigger, 0);
                assert(taps_real_for_trigger(seq![ComboStep::Check], trigger));
                assert(taps_real_for_trigger(seq![ComboStep::Wait { ms: wait_after_ms }], trigger));
                lemma_real_concat(seq![ComboStep::Check], cmd, trigger);
                lemma_real_concat(seq![ComboStep::Check] + cmd, seq![ComboStep::Wait { ms: wait_after_ms }], trigger);
                assert(action_steps(a, trigger) =~= seq![ComboStep::Check] + cmd + seq![ComboStep::Wait { ms: wait_after_ms }]);
            },
        }
        lemma_real_concat(actions_steps_upto(actions, trigger, (n - 1) as nat), action_steps(a, trigger), trigger);
    }
}

/// The hook swallows the physical trigger key, so a combo that presses its own trigger
/// again must send it as the real key: in the steps of any combo, every key tap, of a
/// tap action or of a command, is sent as the real key exactly when it is the trigger.
pub proof fn lemma_trigger_taps_use_real_key(c: ComboDefinitionView, trigger: u16)
    ensures
        forall|i: int|
            0 <= i < combo_steps(c, trigger).len() ==> (#[trigger] combo_steps(c, trigger)[i] matches ComboStep::Tap {
                vk,
                use_real_key,
                ..
            } ==> use_real_key == (vk == trigger)),
{
    lemma_actions_steps_real(c.actions, trigger, c.actions.len());
    assert(taps_real_for_trigger(seq![ComboStep::Check], trigger));
    lemma_real_concat(seq![ComboStep::Check], actions_steps_upto(c.actions, trigger, c.actions.len()), trigger);
}

/// Whether combo `c` is enabled and started by `vk`.
pub open spec fn starts_on(c: ComboDefinitionView, vk: u16) -> bool {
    c.enabled && c.trigger_vk == Some(vk)
}

/// The first combo started by `vk`.
pub open spec fn first_combo_from(combos: Seq<ComboDefinitionView>, vk: u16, i: nat) -> Option<int>
    decreases combos.len() - i,
{
    if i >= combos.len() {
        None
    } else if starts_on(combos[i as int], vk) {
        Some(i as int)
    } else {
        first_combo_from(combos, vk, i + 1)
    }
}

/// The trigger keys of the enabled combos.
pub open spec fn trigger_set(combos: Seq<ComboDefinitionView>) -> Set<u16> {
    Set::new(|vk: u16| exists|i: int| 0 <= i < combos.len() && #[trigger] starts_on(combos[i], vk))
}

/// The position of the first enabled combo started by `trigger_vk`.
pub fn find_combo(combos: &Vec<ComboDefinition>, trigger_vk: u16) -> (r: Option<usize>)
    ensures
        match first_combo_from(seq_view(combos@), trigger_vk, 0) {
            Some(i) => r matches Some(j) && j as int == i,
            None => r is None,
        },
{
    let ghost cv = seq_view(combos@);
    let mut i: usize = 0;
    while i < combos.len()
        invariant
            i <= combos@.len(),
            cv == seq_view(combos@),
            first_combo_from(cv, trigger_vk, 0) == first_combo_from(cv, trigger_vk, i as nat),
        decreases combos.len() - i,
    {
        assert(cv[i as int] == combos@[i as int]@);
        if combos[i].enabled && combos[i].trigger_vk == Some(trigger_vk) {
            return Some(i);
        }
        i = i + 1;
    }
    None
}

/// Model of the combo state.
pub struct ComboEngineModel {
    pub enabled: bool,
    pub combos: Seq<ComboDefinitionView>,
    pub trigger_keys: Set<u16>,
    pub abort_generation: u64,
    pub executing: bool,
}

/// The combo state shared by the keyboard hook and the combo worker.
#[derive(Debug)]
pub struct ComboEngine {
    enabled: bool,
    combos: Vec<ComboDefinition>,
    trigger_keys: Vec<u16>,
    abort_generation: u64,
    executing: bool,
}

impl View for ComboEngine {
    type V = ComboEngineModel;

    closed spec fn view(&self) -> ComboEngineModel {
        ComboEngineModel {
            enabled: self.enabled,
            combos: seq_view(self.combos@),
            trigger_keys: self.trigger_keys@.to_set(),
            abort_generation: self.abort_generation,
            executing: self.executing,
        }
    }
}

/// What the keyboard hook does with an event.
#[derive(Debug, Clone, Copy, PartialEq, Eq, Structural)]
pub struct ComboHookDecision {
    /// Start the combo of this key.
    pub send_trigger: bool,
    /// Swallow the event so the game does not see the trigger key.
    pub swallow: bool,
}

/// What a trigger hands the worker: the generation the combo runs under and its steps.
#[derive(Debug)]
pub struct ComboRun {
    pub generation: u64,
    pub steps: Vec<ComboStep>,
}

impl ComboEngine {
    pub open spec fn wf(&self) -> bool {
        self@.trigger_keys == trigger_set(self@.combos)
    }

    /// Stopped, with no combo.
    pub fn new() -> (r: Self)
        ensures
            r.wf(),
            !r@.enabled,
            r@.combos.len() == 0,
            r@.abort_generation == 0,
            !r@.executing,
    {
        let r = ComboEngine {
            enabled: false,
            combos: Vec::new(),
            trigger_keys: Vec::new(),
            abort_generation: 0,
            executing: false,
        };
        assert(r@.combos =~= Seq::<ComboDefinitionView>::empty());
        assert(r@.trigger_keys =~= trigger_set(r@.combos));
        r
    }

    /// New combos and trigger keys; a combo under way is
    /// superseded.
    pub fn set_combo_configs(&mut self, combos: Vec<ComboDefinition>)
        ensures
            final(self).wf(),
            final(self)@.combos == seq_view(combos@),
            final(self)@.enabled == old(self)@.enabled,
            final(self)@.executing == old(self)@.executing,
            final(self)@.abort_generation == old(self)@.abort_generation.wrapping_add(1),
    {
        let ghost cv = seq_view(combos@);
        let mut keys: Vec<u16> = Vec::new();
        let mut i: usize = 0;
        while i < combos.len()
            invariant
                i <= combos@.len(),
                cv == seq_view(combos@),
                forall|vk: u16| keys@.contains(vk) <==> exists|j: int| 0 <= j < i && #[trigger] starts_on(cv[j], vk),
            decreases combos.len() - i,
        {
            assert(cv[i as int] == combos@[i as int]@);
            let ghost before = keys@;
            if combos[i].enabled {
                if let Some(t) = combos[i].trigger_vk {
                    keys.push(t);
                }
            }
            proof {
                assert forall|vk: u16| keys@.contains(vk) <==> exists|j: int| 0 <= j < i + 1 && #[trigger] starts_on(cv[j], vk) by {
                    if keys@.contains(vk) {
                        let t = choose|t: int| 0 <= t < keys@.len() && keys@[t] == vk;
                        if t < before.len() {
                            assert(before[t] == vk);
                            assert(before.contains(vk));
                        } else {
                            assert(starts_on(cv[i as int], vk));
                        }
                    }
                    if exists|j: int| 0 <= j < i + 1 && #[trigger] starts_on(cv[j], vk) {
                        let j = choose|j: int| 0 <= j < i + 1 && #[trigger] starts_on(cv[j], vk);
                        if j < i {
                            assert(before.contains(vk));
                            let t = choose|t: int| 0 <= t < before.len() && before[t] == vk;
                            assert(keys@[t] == vk);
                        } else {
                            assert(keys@[keys@.len() - 1] == vk);
                        }
                    }
                }
            }
            i = i + 1;
        }
        self.combos = combos;
        self.trigger_keys = keys;
        self.abort_generation = self.abort_generation.wrapping_add(1);
        proof {
            assert(self@.trigger_keys =~= trigger_set(self@.combos));
        }
    }

    /// A stopped engine starts, superseding anything under way; returns whether
    /// it was stopped.
    pub fn start(&mut self) -> (started: bool)
        requires
            old(self).wf(),
        ensures
            final(self).wf(),
            started == !old(self)@.enabled,
            final(self)@.enabled,
            final(self)@.combos == old(self)@.combos,
            started ==> !final(self)@.executing && final(self)@.abort_generation
                == old(self)@.abort_generation.wrapping_add(1),
            !started ==> final(self)@ == old(self)@,
    {
        if self.enabled {
            return false;
        }
        self.abort_generation = self.abort_generation.wrapping_add(1);
        self.executing = false;
        self.enabled = true;
        true
    }

    /// Stopped, with anything under way superseded.
    pub fn stop(&mut self)
        requires
            old(self).wf(),
        ensures
            final(self).wf(),
            !final(self)@.enabled,
            !final(self)@.executing,
            final(self)@.combos == old(self)@.combos,
            final(self)@.abort_generation == old(self)@.abort_generation.wrapping_add(1),
    {
        self.enabled = false;
        self.abort_generation = self.abort_generation.wrapping_add(1);
        self.executing = false;
    }

    pub fn is_running(&self) -> (b: bool)
        ensures
            b == self@.enabled,
    {
        self.enabled
    }

    /// Whether a combo is under way.
    pub fn is_executing(&self) -> (b: bool)
        ensures
            b == self@.executing,
    {
        self.executing
    }

    /// Whether `vk` starts an enabled combo.
    pub fn is_trigger_key(&self, vk: u16) -> (b: bool)
        requires
            self.wf(),
        ensures
            b == trigger_set(self@.combos).contains(vk),
    {
        crate::config::validation::vk_listed(&self.trigger_keys, vk)
    }

    /// The keyboard hook's part of combos: a physical trigger key while running and with
    /// the game in front is swallowed (down and up), and its key-down starts the combo
    /// unless one is under way.
    pub fn hook_decision(
        &self,
        vk: u16,
        is_keydown: bool,
        is_keyup: bool,
        is_injected: bool,
        target_active: bool,
    ) -> (r: ComboHookDecision)
        requires
            self.wf(),
        ensures
            ({
                let caught = !is_injected && self@.enabled && trigger_set(self@.combos).contains(vk)
                    && target_active;
                &&& r.send_trigger == (caught && is_keydown && !self@.executing)
                &&& r.swallow == (caught && (is_keydown || is_keyup))
            }),
    {
        let caught = !is_injected && self.enabled && self.is_trigger_key(vk) && target_active;
        ComboHookDecision {
            send_trigger: caught && is_keydown && !self.executing,
            swallow: caught && (is_keydown || is_keyup),
        }
    }

    /// The worker's start of a combo for `trigger_vk`: nothing while stopped or while a
    /// combo is under way; otherwise the engine is marked busy and the run carries the
    /// current generation and the steps of the first enabled combo of that key (none
    /// when there is no such combo).
    pub fn begin_combo(&mut self, trigger_vk: u16) -> (r: Option<ComboRun>)
        requires
            old(self).wf(),
        ensures
            final(self).wf(),
            final(self)@.enabled == old(self)@.enabled,
            final(self)@.combos == old(self)@.combos,
            final(self)@.abort_generation == old(self)@.abort_generation,
            match r {
                None => (!old(self)@.enabled || old(self)@.executing) && final(self)@.executing
                    == old(self)@.executing,
                Some(run) => old(self)@.enabled && !old(self)@.executing && final(self)@.executing
                    && run.generation == old(self)@.abort_generation && run.steps@ == match first_combo_from(
                    old(self)@.combos,
                    trigger_vk,
                    0,
                ) {
                    Some(i) => combo_steps(old(self)@.combos[i], trigger_vk),
                    None => Seq::empty(),
                },
            },
    {
        if !self.enabled || self.executing {
            return None;
        }
        self.executing = true;
        let steps = match find_combo(&self.combos, trigger_vk) {
            Some(i) => {
                proof {
                    lemma_first_combo_bound(seq_view(self.combos@), trigger_vk, 0);
                    assert(first_combo_from(seq_view(self.combos@), trigger_vk, 0) == Some(i as int));
                }
                assert(seq_view(self.combos@)[i as int] == self.combos@[i as int]@);
                combo_plan(&self.combos[i], trigger_vk)
            },
            None => Vec::new(),
        };
        Some(ComboRun { generation: self.abort_generation, steps })
    }

    /// The worker's end of a combo.
    pub fn finish_combo(&mut self)
        requires
            old(self).wf(),
        ensures
            final(self).wf(),
            final(self)@ == (ComboEngineModel { executing: false, ..old(self)@ }),
    {
        self.executing = false;
    }

    /// Whether a run of generation `generation` may go on: no stop or new combos since.
    pub fn is_current(&self, generation: u64) -> (b: bool)
        ensures
            b == (self@.abort_generation == generation),
    {
        self.abort_generation == generation
    }

    /// Copies of the combos.
    pub fn combos(&self) -> (r: Vec<ComboDefinition>)
        ensures
            seq_view(r@) == self@.combos,
    {
        let r = crate::config::schema::duplicate_vec(&self.combos);
        proof {
            crate::config::schema::lemma_duplicate_vec_view(r@, self.combos@);
        }
        r
    }
}

proof fn lemma_first_combo_bound(combos: Seq<ComboDefinitionView>, vk: u16, i: nat)
    ensures
        first_combo_from(combos, vk, i) matches Some(k) ==> i <= k < combos.len(),
    decreases combos.len() - i,
{
    if i < combos.len() && !starts_on(combos[i as int], vk) {
        lemma_first_combo_bound(combos, vk, i + 1);
    }
}

} // verus!
