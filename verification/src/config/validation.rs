//! Configuration validation: what a configuration must satisfy, which error comes
//! first when it does not, and the per-field issues the combo editor shows.

use super::defaults::{
    direction_vk, finish_vk, is_direction_vk, is_finish_vk, DEFAULT_AUTO_RUN_PULSE_DELAY_MS,
    DEFAULT_DETECTION_INTERVAL_MS, MAX_AUTO_RUN_PULSE_DELAY_MS, MAX_COMBO_COMMAND_DIRECTION_KEYS,
    MAX_COMBO_GAP_MS, MAX_COMBO_HOLD_MS, MAX_COMBO_WAIT_MS, MAX_INTERVAL_MS,
    MIN_AUTO_RUN_PULSE_DELAY_MS, MIN_COMBO_HOLD_MS, MIN_INTERVAL_MS, detection_interval_option,
};
use super::schema::{
    action_id_of, AppSettings, ClassConfig, ClassConfigView, ComboAction, ComboActionView, ComboDefinition,
    ComboDefinitionView, ComboValidationField, ComboValidationIssue, ComboValidationIssueView,
    CustomConfig, CustomConfigView, DetectionSettings, EffectRule, KeyBinding, LegacyAppConfig,
    LegacyAppConfigView, ProfilesConfig, ProfilesConfigView, SettingsConfig,
};
use crate::error::{validation_error, AppError, AppErrorKind, AppResult};
use crate::keyed_map::{KeyedMap, KeyedSeq};
use crate::text::{is_blank, text_is_blank};
use vstd::prelude::*;

verus! {

// ---------------------------------------------------------------------------
// Messages
// ---------------------------------------------------------------------------
pub open spec fn msg_interval() -> Seq<char> {
    "连发间隔必须在 10-1000 毫秒之间"@
}

pub open spec fn msg_duplicate_key() -> Seq<char> {
    "同一配置中不能重复添加相同按键"@
}

pub open spec fn msg_custom_name() -> Seq<char> {
    "自定义配置名称不能为空"@
}

pub open spec fn msg_detection_interval() -> Seq<char> {
    "职业识别间隔只能是 100 / 200 / 500 / 1000 毫秒"@
}

pub open spec fn msg_pulse_delay() -> Seq<char> {
    "一键奔跑双击间隔必须在 10-200 毫秒之间"@
}

pub open spec fn msg_combo_name() -> Seq<char> {
    "启用的一键连招必须填写名称。"@
}

pub open spec fn msg_combo_trigger() -> Seq<char> {
    "启用的一键连招必须设置触发键。"@
}

pub open spec fn msg_combo_duplicate_trigger() -> Seq<char> {
    "同一职业的一键连招触发键不能重复。"@
}

pub open spec fn msg_combo_trigger_overlap() -> Seq<char> {
    "一键连招触发键不能与当前生效连发键重复。"@
}

pub open spec fn msg_combo_no_actions() -> Seq<char> {
    "启用的一键连招至少需要一个动作。"@
}

pub open spec fn msg_tap_key() -> Seq<char> {
    "快捷栏动作必须设置按键。"@
}

pub open spec fn msg_command_empty() -> Seq<char> {
    "手搓动作至少需要一个按键。"@
}

pub open spec fn msg_command_keys() -> Seq<char> {
    "手搓动作只能使用上下左右和 Z/X/C/空格。"@
}

pub open spec fn msg_command_directions() -> Seq<char> {
    "手搓动作最多只能包含 4 个方向键。"@
}

pub open spec fn msg_command_finish() -> Seq<char> {
    "手搓动作必须以 Z/X/C/空格结束。"@
}

pub open spec fn msg_combo_hold() -> Seq<char> {
    "连招按下时长必须在 10-1000 毫秒之间"@
}

pub open spec fn msg_command_gap() -> Seq<char> {
    "手搓按键间隔不能超过 1000 毫秒"@
}

pub open spec fn msg_combo_wait() -> Seq<char> {
    "动作后等待不能超过 5000 毫秒"@
}

// ---------------------------------------------------------------------------
// Key lists
// ---------------------------------------------------------------------------
pub open spec fn interval_in_range(interval_ms: u16) -> bool {
    MIN_INTERVAL_MS <= interval_ms <= MAX_INTERVAL_MS
}

/// Whether some key among the first `n` has virtual key `vk`.
pub open spec fn vk_among(keys: Seq<KeyBinding>, n: int, vk: u16) -> bool {
    exists|j: int| 0 <= j < n && (#[trigger] keys[j]).vk == vk
}

/// The first error among the first `n` keys: an interval out of range, or a key met
/// before.
pub open spec fn keys_error_upto(keys: Seq<KeyBinding>, n: nat) -> Option<Seq<char>>
    decreases n,
{
    if n == 0 {
        None
    } else {
        match keys_error_upto(keys, (n - 1) as nat) {
            Some(e) => Some(e),
            None => if !interval_in_range(keys[n - 1].interval_ms) {
                Some(msg_interval())
            } else if vk_among(keys, n - 1, keys[n - 1].vk) {
                Some(msg_duplicate_key())
            } else {
                None
            },
        }
    }
}

pub open spec fn keys_error(keys: Seq<KeyBinding>) -> Option<Seq<char>> {
    keys_error_upto(keys, keys.len())
}

/// Every interval is in range and no virtual key occurs twice.
pub open spec fn keys_valid(keys: Seq<KeyBinding>) -> bool {
    &&& forall|i: int| 0 <= i < keys.len() ==> interval_in_range(#[trigger] keys[i].interval_ms)
    &&& forall|i: int, j: int| 0 <= i < j < keys.len() ==> keys[i].vk != keys[j].vk
}

/// The virtual keys of a key list.
pub open spec fn vks_of(keys: Seq<KeyBinding>) -> Set<u16> {
    Set::new(|vk: u16| exists|i: int| 0 <= i < keys.len() && (#[trigger] keys[i]).vk == vk)
}

/// Whether `vk` is in `vks`.
pub fn vk_listed(vks: &Vec<u16>, vk: u16) -> (b: bool)
    ensures
        b == vks@.contains(vk),
{
    let mut i: usize = 0;
    while i < vks.len()
        invariant
            i <= vks@.len(),
            forall|j: int| 0 <= j < i ==> vks@[j] != vk,
        decreases vks.len() - i,
    {
        if vks[i] == vk {
            return true;
        }
        i = i + 1;
    }
    false
}

/// The first error of a key list, or `None` when it is valid.
pub fn keys_problem(keys: &Vec<KeyBinding>) -> (r: Option<String>)
    ensures
        match r {
            Some(m) => keys_error(keys@) == Some(m@),
            None => keys_error(keys@) is None,
        },
{
    let mut seen: Vec<u16> = Vec::new();
    let mut i: usize = 0;
    while i < keys.len()
        invariant
            i <= keys@.len(),
            keys_error_upto(keys@, i as nat) is None,
            forall|v: u16| seen@.contains(v) <==> vk_among(keys@, i as int, v),
        decreases keys.len() - i,
    {
        let key = keys[i];
        if !(MIN_INTERVAL_MS <= key.interval_ms && key.interval_ms <= MAX_INTERVAL_MS) {
            proof {
                reveal_with_fuel(keys_error_upto, 2);
                lemma_keys_error_stays(keys@, (i + 1) as nat, keys@.len());
            }
            return Some(String::from_str("连发间隔必须在 10-1000 毫秒之间"));
        }
        if vk_listed(&seen, key.vk) {
            proof {
                reveal_with_fuel(keys_error_upto, 2);
                lemma_keys_error_stays(keys@, (i + 1) as nat, keys@.len());
            }
            return Some(String::from_str("同一配置中不能重复添加相同按键"));
        }
        let ghost before = seen@;
        seen.push(key.vk);
        proof {
            assert forall|v: u16| seen@.contains(v) <==> vk_among(keys@, i + 1, v) by {
                if seen@.contains(v) {
                    let j = choose|j: int| 0 <= j < seen@.len() && seen@[j] == v;
                    if j < before.len() {
                        assert(before[j] == v);
                        assert(before.contains(v));
                        let w = choose|w: int| 0 <= w < i && (#[trigger] keys@[w]).vk == v;
                        assert(keys@[w].vk == v);
                    } else {
                        assert(keys@[i as int].vk == v);
                    }
                }
                if vk_among(keys@, i + 1, v) {
                    let j = choose|j: int| 0 <= j < i + 1 && (#[trigger] keys@[j]).vk == v;
                    if j < i {
                        assert(keys@[j].vk == v);
                        assert(vk_among(keys@, i as int, v));
                        assert(before.contains(v));
                        let w = choose|w: int| 0 <= w < before.len() && before[w] == v;
                        assert(seen@[w] == v);
                    } else {
                        assert(seen@[before.len() as int] == v);
                    }
                }
            }
        }
        i = i + 1;
    }
    None
}

/// Once an error is found among the first `n` keys it stays the first error.
pub proof fn lemma_keys_error_stays(keys: Seq<KeyBinding>, n: nat, m: nat)
    requires
        n <= m,
        keys_error_upto(keys, n) is Some,
    ensures
        keys_error_upto(keys, m) == keys_error_upto(keys, n),
    decreases m - n,
{
    if n < m {
        lemma_keys_error_stays(keys, n, (m - 1) as nat);
    }
}

/// A key list has no error exactly when every interval is in range and no key repeats.
pub proof fn lemma_keys_error_none_iff_valid(keys: Seq<KeyBinding>)
    ensures
        keys_error(keys) is None <==> keys_valid(keys),
{
    lemma_keys_error_prefix(keys, keys.len());
}

proof fn lemma_keys_error_prefix(keys: Seq<KeyBinding>, n: nat)
    requires
        n <= keys.len(),
    ensures
        keys_error_upto(keys, n) is None <==> (forall|i: int|
            0 <= i < n ==> interval_in_range(#[trigger] keys[i].interval_ms)) && (forall|
            i: int,
            j: int,
        | 0 <= i < j < n ==> keys[i].vk != keys[j].vk),
    decreases n,
{
    if n > 0 {
        lemma_keys_error_prefix(keys, (n - 1) as nat);
        let k = n - 1;
        if keys_error_upto(keys, n) is None {
            assert forall|i: int, j: int| 0 <= i < j < n implies keys[i].vk != keys[j].vk by {
                if j == k && keys[i].vk == keys[j].vk {
                    assert(vk_among(keys, k, keys[k].vk));
                }
            }
        } else {
            if keys_error_upto(keys, (n - 1) as nat) is None {
                if interval_in_range(keys[k].interval_ms) {
                    let j = choose|j: int| 0 <= j < k && (#[trigger] keys[j]).vk == keys[k].vk;
                    assert(keys[j].vk == keys[k].vk);
                }
            }
        }
    }
}

/// Every interval in range and no repeated key.
pub fn validate_keys(keys: &Vec<KeyBinding>) -> (r: AppResult<()>)
    ensures
        match r {
            Ok(_) => keys_error(keys@) is None,
            Err(e) => e.kind == AppErrorKind::Validation && keys_error(keys@) == Some(e.message@),
        },
        r is Ok <==> keys_valid(keys@),
{
    proof {
        lemma_keys_error_none_iff_valid(keys@);
    }
    match keys_problem(keys) {
        Some(m) => Err(AppError::validation(m)),
        None => Ok(()),
    }
}

// ---------------------------------------------------------------------------
// Combo actions
// ---------------------------------------------------------------------------
pub open spec fn hold_in_range(value: u16) -> bool {
    MIN_COMBO_HOLD_MS <= value <= MAX_COMBO_HOLD_MS
}

/// The first timing error of an action, checked whether or not its combo is enabled.
pub open spec fn action_timing_error(a: ComboActionView) -> Option<Seq<char>> {
    match a {
        ComboActionView::Tap { hold_ms, wait_after_ms, .. } => if !hold_in_range(hold_ms) {
            Some(msg_combo_hold())
        } else if wait_after_ms > MAX_COMBO_WAIT_MS {
            Some(msg_combo_wait())
        } else {
            None
        },
        ComboActionView::Command { key_hold_ms, key_gap_ms, wait_after_ms, .. } => if !hold_in_range(
            key_hold_ms,
        ) {
            Some(msg_combo_hold())
        } else if key_gap_ms > MAX_COMBO_GAP_MS {
            Some(msg_command_gap())
        } else if wait_after_ms > MAX_COMBO_WAIT_MS {
            Some(msg_combo_wait())
        } else {
            None
        },
    }
}

pub open spec fn is_command_vk(vk: u16) -> bool {
    is_direction_vk(vk) || is_finish_vk(vk)
}

/// How many arrow keys the first `n` keys hold.
pub open spec fn direction_count(keys: Seq<u16>, n: nat) -> nat
    decreases n,
{
    if n == 0 {
        0
    } else if is_direction_vk(keys[n - 1]) {
        direction_count(keys, (n - 1) as nat) + 1
    } else {
        direction_count(keys, (n - 1) as nat)
    }
}

/// The error of an action of an enabled combo.
pub open spec fn action_enabled_error(a: ComboActionView) -> Option<Seq<char>> {
    match a {
        ComboActionView::Tap { vk, .. } => if vk is None {
            Some(msg_tap_key())
        } else {
            None
        },
        ComboActionView::Command { keys, .. } => if keys.len() == 0 {
            Some(msg_command_empty())
        } else if !(forall|i: int| 0 <= i < keys.len() ==> is_command_vk(#[trigger] keys[i])) {
            Some(msg_command_keys())
        } else if direction_count(keys, keys.len()) > MAX_COMBO_COMMAND_DIRECTION_KEYS {
            Some(msg_command_directions())
        } else if !is_finish_vk(keys.last()) {
            Some(msg_command_finish())
        } else {
            None
        },
    }
}

/// The first timing error among the first `n` actions.
pub open spec fn actions_timing_error_upto(actions: Seq<ComboActionView>, n: nat) -> Option<
    Seq<char>,
>
    decreases n,
{
    if n == 0 {
        None
    } else {
        match actions_timing_error_upto(actions, (n - 1) as nat) {
            Some(e) => Some(e),
            None => action_timing_error(actions[n - 1]),
        }
    }
}

/// The first enabled-action error among the first `n` actions.
pub open spec fn actions_enabled_error_upto(actions: Seq<ComboActionView>, n: nat) -> Option<
    Seq<char>,
>
    decreases n,
{
    if n == 0 {
        None
    } else {
        match actions_enabled_error_upto(actions, (n - 1) as nat) {
            Some(e) => Some(e),
            None => action_enabled_error(actions[n - 1]),
        }
    }
}

/// The arrow keys of a key list, in order.
pub open spec fn arrow_keys(keys: Seq<u16>) -> Seq<u16> {
    keys.filter(|k: u16| is_direction_vk(k))
}

proof fn lemma_direction_count_prefix(keys: Seq<u16>, n: nat)
    requires
        n <= keys.len(),
    ensures
        direction_count(keys, n) == arrow_keys(keys.take(n as int)).len(),
    decreases n,
{
    reveal(Seq::filter);
    if n > 0 {
        lemma_direction_count_prefix(keys, (n - 1) as nat);
        assert(keys.take(n as int).drop_last() =~= keys.take((n - 1) as int));
        assert(keys.take(n as int).last() == keys[n - 1]);
    } else {
        assert(keys.take(0) =~= Seq::<u16>::empty());
    }
}

/// The direction count of a command is the number of its keys that are arrow keys;
/// finish keys and any other key do not count.
pub proof fn lemma_direction_count_is_arrow_count(keys: Seq<u16>)
    ensures
        direction_count(keys, keys.len()) == arrow_keys(keys).len(),
{
    lemma_direction_count_prefix(keys, keys.len());
    assert(keys.take(keys.len() as int) =~= keys);
}

/// A command whose keys are all command keys, with at most four arrow keys and a finish
/// key last, passes the checks of an enabled combo; one with more than four arrow keys
/// (all keys command keys) is refused for that.
pub proof fn lemma_command_direction_limit(
    id: Seq<char>,
    label: Seq<char>,
    keys: Seq<u16>,
    key_hold_ms: u16,
    key_gap_ms: u16,
    wait_after_ms: u16,
)
    requires
        keys.len() > 0,
        forall|i: int| 0 <= i < keys.len() ==> is_command_vk(#[trigger] keys[i]),
    ensures
        ({
            let a = ComboActionView::Command { id, label, keys, key_hold_ms, key_gap_ms, wait_after_ms };
            &&& arrow_keys(keys).len() <= 4 && is_finish_vk(keys.last()) ==> action_enabled_error(a) is None
            &&& arrow_keys(keys).len() > 4 ==> action_enabled_error(a) == Some(msg_command_directions())
        }),
{
    lemma_direction_count_is_arrow_count(keys);
}

pub fn is_combo_command_vk(vk: u16) -> (b: bool)
    ensures
        b == is_command_vk(vk),
{
    direction_vk(vk) || finish_vk(vk)
}

fn combo_hold_problem(value: u16) -> (r: Option<String>)
    ensures
        match r {
            Some(m) => !hold_in_range(value) && m@ == msg_combo_hold(),
            None => hold_in_range(value),
        },
{
    if !(MIN_COMBO_HOLD_MS <= value && value <= MAX_COMBO_HOLD_MS) {
        return Some(String::from_str("连招按下时长必须在 10-1000 毫秒之间"));
    }
    None
}

fn combo_wait_problem(value: u16) -> (r: Option<String>)
    ensures
        match r {
            Some(m) => value > MAX_COMBO_WAIT_MS && m@ == msg_combo_wait(),
            None => value <= MAX_COMBO_WAIT_MS,
        },
{
    if value > MAX_COMBO_WAIT_MS {
        return Some(String::from_str("动作后等待不能超过 5000 毫秒"));
    }
    None
}

/// A hold time must lie between 10 and 1000 ms.
pub fn validate_combo_hold(value: u16) -> (r: AppResult<()>)
    ensures
        r is Ok <==> hold_in_range(value),
        r matches Err(e) ==> e.kind == AppErrorKind::Validation && e.message@ == msg_combo_hold(),
{
    match combo_hold_problem(value) {
        Some(m) => Err(AppError::validation(m)),
        None => Ok(()),
    }
}

/// A wait after an action must not exceed 5000 ms.
pub fn validate_combo_wait(value: u16) -> (r: AppResult<()>)
    ensures
        r is Ok <==> value <= MAX_COMBO_WAIT_MS,
        r matches Err(e) ==> e.kind == AppErrorKind::Validation && e.message@ == msg_combo_wait(),
{
    match combo_wait_problem(value) {
        Some(m) => Err(AppError::validation(m)),
        None => Ok(()),
    }
}

/// The timing error of one action.
pub fn action_timing_problem(action: &ComboAction) -> (r: Option<String>)
    ensures
        match r {
            Some(m) => action_timing_error(action@) == Some(m@),
            None => action_timing_error(action@) is None,
        },
{
    match action {
        ComboAction::Tap { hold_ms, wait_after_ms, .. } => {
            let h = combo_hold_problem(*hold_ms);
            if h.is_some() {
                return h;
            }
            combo_wait_problem(*wait_after_ms)
        },
        ComboAction::Command { key_hold_ms, key_gap_ms, wait_after_ms, .. } => {
            let h = combo_hold_problem(*key_hold_ms);
            if h.is_some() {
                return h;
            }
            if *key_gap_ms > MAX_COMBO_GAP_MS {
                return Some(String::from_str("手搓按键间隔不能超过 1000 毫秒"));
            }
            combo_wait_problem(*wait_after_ms)
        },
    }
}

/// The first timing error of an action.
pub fn validate_combo_action_timing(action: &ComboAction) -> (r: AppResult<()>)
    ensures
        match r {
            Ok(_) => action_timing_error(action@) is None,
            Err(e) => e.kind == AppErrorKind::Validation && action_timing_error(action@) == Some(
                e.message@,
            ),
        },
{
    match action_timing_problem(action) {
        Some(m) => Err(AppError::validation(m)),
        None => Ok(()),
    }
}

/// Counts the arrow keys of a command.
fn count_direction_keys(keys: &Vec<u16>) -> (n: usize)
    ensures
        n == direction_count(keys@, keys@.len()),
{
    let mut n: usize = 0;
    let mut i: usize = 0;
    while i < keys.len()
        invariant
            i <= keys@.len(),
            n == direction_count(keys@, i as nat),
            n <= i,
        decreases keys.len() - i,
    {
        if direction_vk(keys[i]) {
            n = n + 1;
        }
        i = i + 1;
    }
    n
}

/// The error of an action of an enabled combo.
#[verifier::loop_isolation(false)]
pub fn action_enabled_problem(action: &ComboAction) -> (r: Option<String>)
    ensures
        match r {
            Some(m) => action_enabled_error(action@) == Some(m@),
            None => action_enabled_error(action@) is None,
        },
{
    match action {
        ComboAction::Tap { vk, .. } => {
            if vk.is_none() {
                return Some(String::from_str("快捷栏动作必须设置按键。"));
            }
            None
        },
        ComboAction::Command { keys, .. } => {
            if keys.len() == 0 {
                return Some(String::from_str("手搓动作至少需要一个按键。"));
            }
            let mut i: usize = 0;
            while i < keys.len()
                invariant
                    i <= keys@.len(),
                    forall|j: int| 0 <= j < i ==> is_command_vk(#[trigger] keys@[j]),
                decreases keys.len() - i,
            {
                if !is_combo_command_vk(keys[i]) {
                    assert(!is_command_vk(keys@[i as int]));
                    return Some(String::from_str("手搓动作只能使用上下左右和 Z/X/C/空格。"));
                }
                i = i + 1;
            }
            if count_direction_keys(keys) > MAX_COMBO_COMMAND_DIRECTION_KEYS {
                return Some(String::from_str("手搓动作最多只能包含 4 个方向键。"));
            }
            if !finish_vk(keys[keys.len() - 1]) {
                return Some(String::from_str("手搓动作必须以 Z/X/C/空格结束。"));
            }
            None
        },
    }
}

/// The first error of an action of an enabled combo.
pub fn validate_enabled_combo_action(action: &ComboAction) -> (r: AppResult<()>)
    ensures
        match r {
            Ok(_) => action_enabled_error(action@) is None,
            Err(e) => e.kind == AppErrorKind::Validation && action_enabled_error(action@) == Some(
                e.message@,
            ),
        },
{
    match action_enabled_problem(action) {
        Some(m) => Err(AppError::validation(m)),
        None => Ok(()),
    }
}

// ---------------------------------------------------------------------------
// Combo lists
// ---------------------------------------------------------------------------
/// One combo checked against the triggers of the enabled combos before it: the set
/// after it, or its error.
pub open spec fn combo_step(
    seen: Set<u16>,
    combo: ComboDefinitionView,
    effective: Set<u16>,
) -> Result<Set<u16>, Seq<char>> {
    match actions_timing_error_upto(combo.actions, combo.actions.len()) {
        Some(e) => Err(e),
        None => if !combo.enabled {
            Ok(seen)
        } else if is_blank(combo.name) {
            Err(msg_combo_name())
        } else {
            match combo.trigger_vk {
                None => Err(msg_combo_trigger()),
                Some(t) => if seen.contains(t) {
                    Err(msg_combo_duplicate_trigger())
                } else if effective.contains(t) {
                    Err(msg_combo_trigger_overlap())
                } else if combo.actions.len() == 0 {
                    Err(msg_combo_no_actions())
                } else {
                    match actions_enabled_error_upto(combo.actions, combo.actions.len()) {
                        Some(e) => Err(e),
                        None => Ok(seen.insert(t)),
                    }
                },
            }
        },
    }
}

/// The first `n` combos checked in order.
pub open spec fn combos_check_upto(
    combos: Seq<ComboDefinitionView>,
    effective: Set<u16>,
    n: nat,
) -> Result<Set<u16>, Seq<char>>
    decreases n,
{
    if n == 0 {
        Ok(Set::empty())
    } else {
        match combos_check_upto(combos, effective, (n - 1) as nat) {
            Err(e) => Err(e),
            Ok(seen) => combo_step(seen, combos[n - 1], effective),
        }
    }
}

/// The first error of a combo list given the effective auto-fire keys.
pub open spec fn combos_error(combos: Seq<ComboDefinitionView>, effective: Set<u16>) -> Option<
    Seq<char>,
> {
    match combos_check_upto(combos, effective, combos.len()) {
        Err(e) => Some(e),
        Ok(_) => None,
    }
}

/// The triggers of the enabled combos among the first `n`.
pub open spec fn enabled_trigger_among(combos: Seq<ComboDefinitionView>, n: nat, t: u16) -> bool {
    exists|i: int| 0 <= i < n && (#[trigger] combos[i]).enabled && combos[i].trigger_vk == Some(t)
}

proof fn lemma_combos_check_prefix(combos: Seq<ComboDefinitionView>, effective: Set<u16>, n: nat)
    requires
        n <= combos.len(),
        combos_check_upto(combos, effective, n) is Ok,
    ensures
        forall|t: u16|
            #[trigger] combos_check_upto(combos, effective, n)->Ok_0.contains(t)
                <==> enabled_trigger_among(combos, n, t),
        forall|i: int|
            0 <= i < n && (#[trigger] combos[i]).enabled ==> {
                &&& combos[i].trigger_vk matches Some(t) && !effective.contains(t)
                &&& !is_blank(combos[i].name)
                &&& combos[i].actions.len() > 0
            },
        forall|i: int, j: int|
            0 <= i < j < n && (#[trigger] combos[i]).enabled && (#[trigger] combos[j]).enabled
                ==> combos[i].trigger_vk != combos[j].trigger_vk,
    decreases n,
{
    if n > 0 {
        let k = n - 1;
        let prev = combos_check_upto(combos, effective, k as nat);
        assert(prev is Ok);
        lemma_combos_check_prefix(combos, effective, k as nat);
        let seen = prev->Ok_0;
        let c = combos[k];
        let now = combos_check_upto(combos, effective, n)->Ok_0;
        assert forall|t: u16| #[trigger] now.contains(t) <==> enabled_trigger_among(combos, n, t) by {
            if enabled_trigger_among(combos, n, t) {
                let i = choose|i: int| 0 <= i < n && (#[trigger] combos[i]).enabled && combos[i].trigger_vk == Some(t);
                if i < k {
                    assert(enabled_trigger_among(combos, k as nat, t));
                }
            }
            if seen.contains(t) {
                let i = choose|i: int| 0 <= i < k && (#[trigger] combos[i]).enabled && combos[i].trigger_vk == Some(t);
                assert(0 <= i < n && combos[i].enabled && combos[i].trigger_vk == Some(t));
            }
            if c.enabled && c.trigger_vk == Some(t) {
                assert(0 <= k < n && combos[k].enabled && combos[k].trigger_vk == Some(t));
            }
        }
        assert forall|i: int, j: int|
            0 <= i < j < n && (#[trigger] combos[i]).enabled && (#[trigger] combos[j]).enabled
                implies combos[i].trigger_vk != combos[j].trigger_vk by {
            if j == k {
                let t = combos[i].trigger_vk->Some_0;
                assert(enabled_trigger_among(combos, k as nat, t));
                assert(seen.contains(t));
            }
        }
    }
}

/// An accepted combo list: every enabled combo has a name, at least one action and a
/// trigger key that no effective auto-fire key uses, and no two enabled combos share a
/// trigger key.
pub proof fn lemma_accepted_combos(combos: Seq<ComboDefinitionView>, effective: Set<u16>)
    requires
        combos_error(combos, effective) is None,
    ensures
        forall|i: int|
            0 <= i < combos.len() && (#[trigger] combos[i]).enabled ==> {
                &&& combos[i].trigger_vk matches Some(t) && !effective.contains(t)
                &&& !is_blank(combos[i].name)
                &&& combos[i].actions.len() > 0
            },
        forall|i: int, j: int|
            0 <= i < j < combos.len() && (#[trigger] combos[i]).enabled && (#[trigger] combos[j]).enabled
                ==> combos[i].trigger_vk != combos[j].trigger_vk,
{
    lemma_combos_check_prefix(combos, effective, combos.len());
}

/// Every action of the list passes the timing checks.
pub open spec fn actions_timing_ok(actions: Seq<ComboActionView>) -> bool {
    forall|j: int| 0 <= j < actions.len() ==> (#[trigger] action_timing_error(actions[j])) is None
}

/// Every action of the list passes the checks of an enabled combo's actions.
pub open spec fn actions_enabled_ok(actions: Seq<ComboActionView>) -> bool {
    forall|j: int| 0 <= j < actions.len() ==> (#[trigger] action_enabled_error(actions[j])) is None
}

/// What an enabled combo needs: a name, a trigger key that no effective auto-fire key
/// uses, at least one action, and actions that pass the enabled-combo checks.
pub open spec fn enabled_combo_ok(c: ComboDefinitionView, effective: Set<u16>) -> bool {
    &&& !is_blank(c.name)
    &&& c.trigger_vk matches Some(t) && !effective.contains(t)
    &&& c.actions.len() > 0
    &&& actions_enabled_ok(c.actions)
}

/// The first `n` combos: every action passes the timing checks, every enabled combo
/// has what it needs, and no two enabled combos share a trigger key.
pub open spec fn combos_acceptable_upto(combos: Seq<ComboDefinitionView>, effective: Set<u16>, n: nat) -> bool {
    &&& forall|i: int| 0 <= i < n ==> actions_timing_ok(#[trigger] combos[i].actions)
    &&& forall|i: int| 0 <= i < n && (#[trigger] combos[i]).enabled ==> enabled_combo_ok(combos[i], effective)
    &&& forall|i: int, j: int|
        0 <= i < j < n && (#[trigger] combos[i]).enabled && (#[trigger] combos[j]).enabled
            ==> combos[i].trigger_vk != combos[j].trigger_vk
}

pub open spec fn combos_acceptable(combos: Seq<ComboDefinitionView>, effective: Set<u16>) -> bool {
    combos_acceptable_upto(combos, effective, combos.len())
}

proof fn lemma_actions_timing_upto(actions: Seq<ComboActionView>, n: nat)
    requires
        n <= actions.len(),
    ensures
        actions_timing_error_upto(actions, n) is None <==> forall|j: int|
            0 <= j < n ==> (#[trigger] action_timing_error(actions[j])) is None,
    decreases n,
{
    if n > 0 {
        lemma_actions_timing_upto(actions, (n - 1) as nat);
    }
}

proof fn lemma_actions_enabled_upto(actions: Seq<ComboActionView>, n: nat)
    requires
        n <= actions.len(),
    ensures
        actions_enabled_error_upto(actions, n) is None <==> forall|j: int|
            0 <= j < n ==> (#[trigger] action_enabled_error(actions[j])) is None,
    decreases n,
{
    if n > 0 {
        lemma_actions_enabled_upto(actions, (n - 1) as nat);
    }
}

proof fn lemma_combos_check_iff(combos: Seq<ComboDefinitionView>, effective: Set<u16>, n: nat)
    requires
        n <= combos.len(),
    ensures
        combos_check_upto(combos, effective, n) is Ok <==> combos_acceptable_upto(combos, effective, n),
    decreases n,
{
    if n > 0 {
        let k = (n - 1) as nat;
        lemma_combos_check_iff(combos, effective, k);
        let c = combos[k as int];
        lemma_actions_timing_upto(c.actions, c.actions.len());
        lemma_actions_enabled_upto(c.actions, c.actions.len());
        if combos_check_upto(combos, effective, k) is Ok {
            lemma_combos_check_prefix(combos, effective, k);
            let seen = combos_check_upto(combos, effective, k)->Ok_0;
            if combos_check_upto(combos, effective, n) is Ok {
                assert(combo_step(seen, c, effective) is Ok);
                assert forall|i: int| 0 <= i < n implies actions_timing_ok(#[trigger] combos[i].actions) by {
                    if i == k {
                        assert forall|j: int| 0 <= j < c.actions.len() implies (#[trigger] action_timing_error(
                            c.actions[j],
                        )) is None by {}
                    }
                }
                assert forall|i: int|
                    0 <= i < n && (#[trigger] combos[i]).enabled implies enabled_combo_ok(combos[i], effective) by {
                    if i == k {
                        assert forall|j: int| 0 <= j < c.actions.len() implies (#[trigger] action_enabled_error(
                            c.actions[j],
                        )) is None by {}
                    }
                }
                assert forall|i: int, j: int|
                    0 <= i < j < n && (#[trigger] combos[i]).enabled && (#[trigger] combos[j]).enabled
                        implies combos[i].trigger_vk != combos[j].trigger_vk by {
                    if j == k {
                        let t = c.trigger_vk->Some_0;
                        if combos[i].trigger_vk == Some(t) {
                            assert(enabled_trigger_among(combos, k, t));
                            assert(seen.contains(t));
                        }
                    }
                }
            }
            if combos_acceptable_upto(combos, effective, n) {
                assert(combos_acceptable_upto(combos, effective, k));
                assert(actions_timing_ok(combos[k as int].actions));
                if c.enabled {
                    assert(enabled_combo_ok(c, effective));
                    let t = c.trigger_vk->Some_0;
                    if seen.contains(t) {
                        assert(enabled_trigger_among(combos, k, t));
                        let i = choose|i: int| 0 <= i < k && (#[trigger] combos[i]).enabled && combos[i].trigger_vk == Some(t);
                        assert(combos[i].trigger_vk != combos[k as int].trigger_vk);
                    }
                }
                assert(combo_step(seen, c, effective) is Ok);
            }
        } else {
            assert(!combos_acceptable_upto(combos, effective, k));
            if combos_acceptable_upto(combos, effective, n) {
                assert(combos_acceptable_upto(combos, effective, k));
            }
        }
    }
}

/// The list `validate_combo_defs` accepts, exactly: every action of every combo passes
/// the timing checks; every enabled combo has a name, a trigger key that no effective
/// auto-fire key uses, at least one action and actions that pass the enabled-combo
/// checks; and no two enabled combos share a trigger key.
pub proof fn lemma_combos_error_none_iff(combos: Seq<ComboDefinitionView>, effective: Set<u16>)
    ensures
        combos_error(combos, effective) is None <==> combos_acceptable(combos, effective),
{
    lemma_combos_check_iff(combos, effective, combos.len());
}

/// The first timing error of a combo's actions.
fn actions_timing_problem(actions: &Vec<ComboAction>) -> (r: Option<String>)
    ensures
        match r {
            Some(m) => actions_timing_error_upto(
                super::schema::seq_view(actions@),
                actions@.len(),
            ) == Some(m@),
            None => actions_timing_error_upto(
                super::schema::seq_view(actions@),
                actions@.len(),
            ) is None,
        },
{
    let ghost av = super::schema::seq_view(actions@);
    let mut i: usize = 0;
    while i < actions.len()
        invariant
            i <= actions@.len(),
            av == super::schema::seq_view(actions@),
            actions_timing_error_upto(av, i as nat) is None,
        decreases actions.len() - i,
    {
        let p = action_timing_problem(&actions[i]);
        if p.is_some() {
            proof {
                assert(av[i as int] == actions@[i as int]@);
                lemma_actions_timing_stays(av, (i + 1) as nat, av.len());
            }
            return p;
        }
        assert(av[i as int] == actions@[i as int]@);
        i = i + 1;
    }
    None
}

pub proof fn lemma_actions_timing_stays(actions: Seq<ComboActionView>, n: nat, m: nat)
    requires
        n <= m,
        actions_timing_error_upto(actions, n) is Some,
    ensures
        actions_timing_error_upto(actions, m) == actions_timing_error_upto(actions, n),
    decreases m - n,
{
    if n < m {
        lemma_actions_timing_stays(actions, n, (m - 1) as nat);
    }
}

pub proof fn lemma_actions_enabled_stays(actions: Seq<ComboActionView>, n: nat, m: nat)
    requires
        n <= m,
        actions_enabled_error_upto(actions, n) is Some,
    ensures
        actions_enabled_error_upto(actions, m) == actions_enabled_error_upto(actions, n),
    decreases m - n,
{
    if n < m {
        lemma_actions_enabled_stays(actions, n, (m - 1) as nat);
    }
}

/// The first enabled-action error of a combo's actions.
fn actions_enabled_problem(actions: &Vec<ComboAction>) -> (r: Option<String>)
    ensures
        match r {
            Some(m) => actions_enabled_error_upto(
                super::schema::seq_view(actions@),
                actions@.len(),
            ) == Some(m@),
            None => actions_enabled_error_upto(
                super::schema::seq_view(actions@),
                actions@.len(),
            ) is None,
        },
{
    let ghost av = super::schema::seq_view(actions@);
    let mut i: usize = 0;
    while i < actions.len()
        invariant
            i <= actions@.len(),
            av == super::schema::seq_view(actions@),
            actions_enabled_error_upto(av, i as nat) is None,
        decreases actions.len() - i,
    {
        let p = action_enabled_problem(&actions[i]);
        if p.is_some() {
            proof {
                assert(av[i as int] == actions@[i as int]@);
                lemma_actions_enabled_stays(av, (i + 1) as nat, av.len());
            }
            return p;
        }
        assert(av[i as int] == actions@[i as int]@);
        i = i + 1;
    }
    None
}

pub proof fn lemma_combos_check_stays(
    combos: Seq<ComboDefinitionView>,
    effective: Set<u16>,
    n: nat,
    m: nat,
)
    requires
        n <= m,
        combos_check_upto(combos, effective, n) is Err,
    ensures
        combos_check_upto(combos, effective, m) == combos_check_upto(combos, effective, n),
    decreases m - n,
{
    if n < m {
        lemma_combos_check_stays(combos, effective, n, (m - 1) as nat);
    }
}

/// The first error of a combo list, with the effective auto-fire keys given as a list.
pub fn combos_problem(combos: &Vec<ComboDefinition>, effective_key_vks: &Vec<u16>) -> (r: Option<
    String,
>)
    ensures
        match r {
            Some(m) => combos_error(
                super::schema::seq_view(combos@),
                effective_key_vks@.to_set(),
            ) == Some(m@),
            None => combos_error(
                super::schema::seq_view(combos@),
                effective_key_vks@.to_set(),
            ) is None,
        },
{
    let ghost cv = super::schema::seq_view(combos@);
    let ghost eff = effective_key_vks@.to_set();
    let mut seen: Vec<u16> = Vec::new();
    assert(seen@.to_set() =~= Set::<u16>::empty());
    let mut i: usize = 0;
    while i < combos.len()
        invariant
            i <= combos@.len(),
            cv == super::schema::seq_view(combos@),
            eff == effective_key_vks@.to_set(),
            combos_check_upto(cv, eff, i as nat) == Ok::<Set<u16>, Seq<char>>(seen@.to_set()),
        decreases combos.len() - i,
    {
        let combo = &combos[i];
        assert(cv[i as int] == combo@);
        let ghost before = seen@;
        let mut err: Option<String> = actions_timing_problem(&combo.actions);
        if err.is_none() && combo.enabled {
            if text_is_blank(combo.name.as_str()) {
                err = Some(String::from_str("启用的一键连招必须填写名称。"));
            } else {
                match combo.trigger_vk {
                    None => {
                        err = Some(String::from_str("启用的一键连招必须设置触发键。"));
                    },
                    Some(t) => {
                        if vk_listed(&seen, t) {
                            err = Some(String::from_str("同一职业的一键连招触发键不能重复。"));
                        } else if vk_listed(effective_key_vks, t) {
                            err = Some(String::from_str("一键连招触发键不能与当前生效连发键重复。"));
                        } else if combo.actions.len() == 0 {
                            err = Some(String::from_str("启用的一键连招至少需要一个动作。"));
                        } else {
                            err = actions_enabled_problem(&combo.actions);
                            if err.is_none() {
                                seen.push(t);
                                proof {
                                    before.lemma_push_to_set_commute(t);
                                }
                            }
                        }
                    },
                }
            }
        }
        match err {
            Some(m) => {
                proof {
                    lemma_combos_check_stays(cv, eff, (i + 1) as nat, cv.len());
                }
                return Some(m);
            },
            None => {},
        }
        i = i + 1;
    }
    None
}

/// The first error of a combo list, given the virtual keys that auto-fire.
pub fn validate_combo_defs(combos: &Vec<ComboDefinition>, effective_key_vks: &Vec<u16>) -> (r:
    AppResult<()>)
    ensures
        match r {
            Ok(_) => combos_error(
                super::schema::seq_view(combos@),
                effective_key_vks@.to_set(),
            ) is None,
            Err(e) => e.kind == AppErrorKind::Validation && combos_error(
                super::schema::seq_view(combos@),
                effective_key_vks@.to_set(),
            ) == Some(e.message@),
        },
{
    match combos_problem(combos, effective_key_vks) {
        Some(m) => Err(AppError::validation(m)),
        None => Ok(()),
    }
}

// ---------------------------------------------------------------------------
// Whole profiles
// ---------------------------------------------------------------------------
/// The first of two checks that fails.
pub open spec fn first_error(first: Option<Seq<char>>, then: Option<Seq<char>>) -> Option<
    Seq<char>,
> {
    match first {
        Some(e) => Some(e),
        None => then,
    }
}

/// The virtual keys that fire in a profile: its own keys, and the global keys too when
/// its rule adds them.
pub open spec fn effective_vk_set(
    global: Seq<KeyBinding>,
    enabled: Seq<KeyBinding>,
    rule: EffectRule,
) -> Set<u16> {
    if rule == EffectRule::GlobalAndClass {
        vks_of(global).union(vks_of(enabled))
    } else {
        vks_of(enabled)
    }
}

/// The first error of one profile: its keys, then its combos against its effective keys.
pub open spec fn profile_error(
    global: Seq<KeyBinding>,
    enabled: Seq<KeyBinding>,
    rule: EffectRule,
    combos: Seq<ComboDefinitionView>,
) -> Option<Seq<char>> {
    first_error(keys_error(enabled), combos_error(combos, effective_vk_set(global, enabled, rule)))
}

pub open spec fn class_error(global: Seq<KeyBinding>, c: ClassConfigView) -> Option<Seq<char>> {
    profile_error(global, c.enabled_keys, c.effect_rule, c.combo_defs)
}

pub open spec fn custom_error(global: Seq<KeyBinding>, c: CustomConfigView) -> Option<Seq<char>> {
    if is_blank(c.name) {
        Some(msg_custom_name())
    } else {
        profile_error(global, c.enabled_keys, c.effect_rule, c.combo_defs)
    }
}

/// The first error among the first `n` class profiles, in key order.
pub open spec fn classes_error_upto(
    global: Seq<KeyBinding>,
    classes: KeyedSeq<ClassConfigView>,
    n: nat,
) -> Option<Seq<char>>
    decreases n,
{
    if n == 0 {
        None
    } else {
        first_error(
            classes_error_upto(global, classes, (n - 1) as nat),
            class_error(global, classes[n - 1].1),
        )
    }
}

pub open spec fn classes_error(global: Seq<KeyBinding>, classes: KeyedSeq<ClassConfigView>) -> Option<
    Seq<char>,
> {
    classes_error_upto(global, classes, classes.len())
}

/// The first error among the first `n` custom profiles, in key order.
pub open spec fn customs_error_upto(
    global: Seq<KeyBinding>,
    customs: KeyedSeq<CustomConfigView>,
    n: nat,
) -> Option<Seq<char>>
    decreases n,
{
    if n == 0 {
        None
    } else {
        first_error(
            customs_error_upto(global, customs, (n - 1) as nat),
            custom_error(global, customs[n - 1].1),
        )
    }
}

pub open spec fn customs_error(global: Seq<KeyBinding>, customs: KeyedSeq<CustomConfigView>) -> Option<
    Seq<char>,
> {
    customs_error_upto(global, customs, customs.len())
}

pub open spec fn pulse_delay_in_range(value: u64) -> bool {
    MIN_AUTO_RUN_PULSE_DELAY_MS <= value <= MAX_AUTO_RUN_PULSE_DELAY_MS
}

pub open spec fn pulse_delay_error(value: u64) -> Option<Seq<char>> {
    if pulse_delay_in_range(value) {
        None
    } else {
        Some(msg_pulse_delay())
    }
}

pub open spec fn detection_interval_error(value: u64) -> Option<Seq<char>> {
    if detection_interval_option(value) {
        None
    } else {
        Some(msg_detection_interval())
    }
}

/// The first error of `profiles.json`: the auto-run delay, the global keys, the class
/// profiles, then the custom profiles. Root-level combos are not checked.
pub open spec fn profiles_error(p: ProfilesConfigView) -> Option<Seq<char>> {
    first_error(
        pulse_delay_error(p.auto_run.pulse_delay_ms),
        first_error(
            keys_error(p.global_keys),
            first_error(
                classes_error(p.global_keys, p.classes),
                customs_error(p.global_keys, p.custom_configs),
            ),
        ),
    )
}

/// The first error of a single-file configuration: the global keys, the detection
/// interval, the auto-run delay, the class profiles, then the custom profiles.
pub open spec fn legacy_error(c: LegacyAppConfigView) -> Option<Seq<char>> {
    first_error(
        keys_error(c.global_keys),
        first_error(
            detection_interval_error(c.detection.interval_ms),
            first_error(
                pulse_delay_error(c.settings.auto_run_pulse_delay_ms),
                first_error(
                    classes_error(c.global_keys, c.classes),
                    customs_error(c.global_keys, c.custom_configs),
                ),
            ),
        ),
    )
}

/// Collects the virtual keys of a key list after those already in `out`.
fn push_key_vks(out: &mut Vec<u16>, keys: &Vec<KeyBinding>)
    ensures
        final(out)@.to_set() == old(out)@.to_set().union(vks_of(keys@)),
{
    let ghost start = out@;
    let mut i: usize = 0;
    while i < keys.len()
        invariant
            i <= keys@.len(),
            out@.len() == start.len() + i,
            forall|j: int| 0 <= j < start.len() ==> out@[j] == start[j],
            forall|j: int| 0 <= j < i ==> out@[start.len() + j] == (#[trigger] keys@[j]).vk,
        decreases keys.len() - i,
    {
        out.push(keys[i].vk);
        i = i + 1;
    }
    assert forall|v: u16| out@.to_set().contains(v) <==> start.to_set().union(
        vks_of(keys@),
    ).contains(v) by {
        if out@.to_set().contains(v) {
            let j = choose|j: int| 0 <= j < out@.len() && out@[j] == v;
            if j < start.len() {
                assert(start[j] == v);
            } else {
                assert(keys@[j - start.len()].vk == v);
            }
        }
        if start.to_set().contains(v) {
            let j = choose|j: int| 0 <= j < start.len() && start[j] == v;
            assert(out@[j] == v);
        }
        if vks_of(keys@).contains(v) {
            let j = choose|j: int| 0 <= j < keys@.len() && (#[trigger] keys@[j]).vk == v;
            assert(out@[start.len() + j] == v);
        }
    }
    assert(out@.to_set() =~= start.to_set().union(vks_of(keys@)));
}

/// The virtual keys of a key list.
pub fn key_vks(keys: &Vec<KeyBinding>) -> (r: Vec<u16>)
    ensures
        r@.to_set() == vks_of(keys@),
{
    let mut r: Vec<u16> = Vec::new();
    assert(r@.to_set() =~= Set::<u16>::empty());
    push_key_vks(&mut r, keys);
    assert(r@.to_set() =~= vks_of(keys@));
    r
}

/// The virtual keys that fire in a profile.
pub fn effective_keys_for_profile(
    global_keys: &Vec<KeyBinding>,
    enabled_keys: &Vec<KeyBinding>,
    effect_rule: EffectRule,
) -> (r: Vec<u16>)
    ensures
        r@.to_set() == effective_vk_set(global_keys@, enabled_keys@, effect_rule),
{
    let mut r: Vec<u16> = Vec::new();
    assert(r@.to_set() =~= Set::<u16>::empty());
    if effect_rule == EffectRule::GlobalAndClass {
        push_key_vks(&mut r, global_keys);
    }
    push_key_vks(&mut r, enabled_keys);
    proof {
        if effect_rule == EffectRule::GlobalAndClass {
            assert(r@.to_set() =~= vks_of(global_keys@).union(vks_of(enabled_keys@)));
        } else {
            assert(r@.to_set() =~= vks_of(enabled_keys@));
        }
    }
    r
}

/// The first error of one profile.
pub fn profile_problem(
    global_keys: &Vec<KeyBinding>,
    enabled_keys: &Vec<KeyBinding>,
    effect_rule: EffectRule,
    combos: &Vec<ComboDefinition>,
) -> (r: Option<String>)
    ensures
        match r {
            Some(m) => profile_error(
                global_keys@,
                enabled_keys@,
                effect_rule,
                super::schema::seq_view(combos@),
            ) == Some(m@),
            None => profile_error(
                global_keys@,
                enabled_keys@,
                effect_rule,
                super::schema::seq_view(combos@),
            ) is None,
        },
{
    let k = keys_problem(enabled_keys);
    if k.is_some() {
        return k;
    }
    let effective = effective_keys_for_profile(global_keys, enabled_keys, effect_rule);
    combos_problem(combos, &effective)
}

/// The first error among the class profiles.
pub fn classes_problem(global_keys: &Vec<KeyBinding>, classes: &KeyedMap<ClassConfig>) -> (r:
    Option<String>)
    ensures
        match r {
            Some(m) => classes_error(global_keys@, classes@) == Some(m@),
            None => classes_error(global_keys@, classes@) is None,
        },
{
    let mut i: usize = 0;
    while i < classes.len()
        invariant
            i <= classes@.len(),
            classes_error_upto(global_keys@, classes@, i as nat) is None,
        decreases classes@.len() - i,
    {
        let c = classes.value_at(i);
        let p = profile_problem(global_keys, &c.enabled_keys, c.effect_rule, &c.combo_defs);
        if p.is_some() {
            proof {
                lemma_classes_error_stays(global_keys@, classes@, (i + 1) as nat, classes@.len());
            }
            return p;
        }
        i = i + 1;
    }
    None
}

pub proof fn lemma_classes_error_stays(
    global: Seq<KeyBinding>,
    classes: KeyedSeq<ClassConfigView>,
    n: nat,
    m: nat,
)
    requires
        n <= m,
        classes_error_upto(global, classes, n) is Some,
    ensures
        classes_error_upto(global, classes, m) == classes_error_upto(global, classes, n),
    decreases m - n,
{
    if n < m {
        lemma_classes_error_stays(global, classes, n, (m - 1) as nat);
    }
}

pub proof fn lemma_customs_error_stays(
    global: Seq<KeyBinding>,
    customs: KeyedSeq<CustomConfigView>,
    n: nat,
    m: nat,
)
    requires
        n <= m,
        customs_error_upto(global, customs, n) is Some,
    ensures
        customs_error_upto(global, customs, m) == customs_error_upto(global, customs, n),
    decreases m - n,
{
    if n < m {
        lemma_customs_error_stays(global, customs, n, (m - 1) as nat);
    }
}

/// With no error among the first `n` class profiles, none of them has an error.
pub proof fn lemma_classes_error_none_each(
    global: Seq<KeyBinding>,
    classes: KeyedSeq<ClassConfigView>,
    n: nat,
    k: int,
)
    requires
        classes_error_upto(global, classes, n) is None,
        0 <= k < n,
    ensures
        class_error(global, classes[k].1) is None,
    decreases n,
{
    if k < n - 1 {
        lemma_classes_error_none_each(global, classes, (n - 1) as nat, k);
    }
}

/// With no error among the first `n` custom profiles, none of them has an error.
pub proof fn lemma_customs_error_none_each(
    global: Seq<KeyBinding>,
    customs: KeyedSeq<CustomConfigView>,
    n: nat,
    k: int,
)
    requires
        customs_error_upto(global, customs, n) is None,
        0 <= k < n,
    ensures
        custom_error(global, customs[k].1) is None,
    decreases n,
{
    if k < n - 1 {
        lemma_customs_error_none_each(global, customs, (n - 1) as nat, k);
    }
}

/// The first error among the custom profiles.
pub fn customs_problem(global_keys: &Vec<KeyBinding>, customs: &KeyedMap<CustomConfig>) -> (r:
    Option<String>)
    ensures
        match r {
            Some(m) => customs_error(global_keys@, customs@) == Some(m@),
            None => customs_error(global_keys@, customs@) is None,
        },
{
    let mut i: usize = 0;
    while i < customs.len()
        invariant
            i <= customs@.len(),
            customs_error_upto(global_keys@, customs@, i as nat) is None,
        decreases customs@.len() - i,
    {
        let c = customs.value_at(i);
        let p = if text_is_blank(c.name.as_str()) {
            Some(String::from_str("自定义配置名称不能为空"))
        } else {
            profile_problem(global_keys, &c.enabled_keys, c.effect_rule, &c.combo_defs)
        };
        if p.is_some() {
            proof {
                lemma_customs_error_stays(global_keys@, customs@, (i + 1) as nat, customs@.len());
            }
            return p;
        }
        i = i + 1;
    }
    None
}

/// Whether `value` is one of the offered detection intervals.
pub fn is_supported_detection_interval(value: u64) -> (b: bool)
    ensures
        b == detection_interval_option(value),
{
    value == 100 || value == 200 || value == 500 || value == 1000
}

/// The detection interval must be one of the offered values.
pub fn validate_detection_interval_ms(interval_ms: u64) -> (r: AppResult<()>)
    ensures
        r is Ok <==> detection_interval_option(interval_ms),
        r matches Err(e) ==> e.kind == AppErrorKind::Validation && e.message@
            == msg_detection_interval(),
{
    if is_supported_detection_interval(interval_ms) {
        return Ok(());
    }
    Err(validation_error("职业识别间隔只能是 100 / 200 / 500 / 1000 毫秒"))
}

/// An offered detection interval stays; any other becomes the default.
pub fn normalize_detection_interval_ms(value: u64) -> (r: u64)
    ensures
        r == (if detection_interval_option(value) {
            value
        } else {
            DEFAULT_DETECTION_INTERVAL_MS
        }),
{
    if is_supported_detection_interval(value) {
        value
    } else {
        DEFAULT_DETECTION_INTERVAL_MS
    }
}

/// Whether an auto-run double-tap delay is in range.
pub fn is_supported_auto_run_pulse_delay(value: u64) -> (b: bool)
    ensures
        b == pulse_delay_in_range(value),
{
    MIN_AUTO_RUN_PULSE_DELAY_MS <= value && value <= MAX_AUTO_RUN_PULSE_DELAY_MS
}

/// The auto-run pulse delay must lie between 10 and 200 ms.
pub fn validate_auto_run_pulse_delay_ms(pulse_delay_ms: u64) -> (r: AppResult<()>)
    ensures
        r is Ok <==> pulse_delay_in_range(pulse_delay_ms),
        r matches Err(e) ==> e.kind == AppErrorKind::Validation && e.message@ == msg_pulse_delay(),
{
    if is_supported_auto_run_pulse_delay(pulse_delay_ms) {
        return Ok(());
    }
    Err(validation_error("一键奔跑双击间隔必须在 10-200 毫秒之间"))
}

/// A delay in range stays; any other becomes the default.
pub fn normalize_auto_run_pulse_delay_ms(value: u64) -> (r: u64)
    ensures
        r == (if pulse_delay_in_range(value) {
            value
        } else {
            DEFAULT_AUTO_RUN_PULSE_DELAY_MS
        }),
{
    if is_supported_auto_run_pulse_delay(value) {
        value
    } else {
        DEFAULT_AUTO_RUN_PULSE_DELAY_MS
    }
}

/// Only the detection interval of the detection settings can be wrong.
pub fn validate_detection_settings(settings: &DetectionSettings) -> (r: AppResult<()>)
    ensures
        r is Ok <==> detection_interval_option(settings.interval_ms),
        r matches Err(e) ==> e.kind == AppErrorKind::Validation && e.message@
            == msg_detection_interval(),
{
    validate_detection_interval_ms(settings.interval_ms)
}

/// Only the detection interval can be wrong.
pub fn validate_settings_config(settings: &SettingsConfig) -> (r: AppResult<()>)
    ensures
        r is Ok <==> detection_interval_option(settings.detection.interval_ms),
        r matches Err(e) ==> e.kind == AppErrorKind::Validation && e.message@
            == msg_detection_interval(),
{
    validate_detection_settings(&settings.detection)
}

/// Only the auto-run delay can be wrong.
pub fn validate_app_settings(settings: &AppSettings) -> (r: AppResult<()>)
    ensures
        r is Ok <==> pulse_delay_in_range(settings.auto_run_pulse_delay_ms),
        r matches Err(e) ==> e.kind == AppErrorKind::Validation && e.message@ == msg_pulse_delay(),
{
    validate_auto_run_pulse_delay_ms(settings.auto_run_pulse_delay_ms)
}

/// Turns the first error found into the validation result.
fn validation_result(problem: Option<String>) -> (r: AppResult<()>)
    ensures
        match problem {
            Some(m) => r matches Err(e) && e.kind == AppErrorKind::Validation && e.message@ == m@,
            None => r is Ok,
        },
{
    match problem {
        Some(m) => Err(AppError::validation(m)),
        None => Ok(()),
    }
}

/// The first error of `profiles.json`, in checking order.
pub fn validate_profiles_config(profiles: &ProfilesConfig) -> (r: AppResult<()>)
    ensures
        match r {
            Ok(_) => profiles_error(profiles@) is None,
            Err(e) => e.kind == AppErrorKind::Validation && profiles_error(profiles@) == Some(
                e.message@,
            ),
        },
{
    if !is_supported_auto_run_pulse_delay(profiles.auto_run.pulse_delay_ms) {
        return Err(validation_error("一键奔跑双击间隔必须在 10-200 毫秒之间"));
    }
    let mut problem = keys_problem(&profiles.global_keys);
    if problem.is_none() {
        problem = classes_problem(&profiles.global_keys, &profiles.classes);
    }
    if problem.is_none() {
        problem = customs_problem(&profiles.global_keys, &profiles.custom_configs);
    }
    validation_result(problem)
}

/// The first error of a single-file configuration, in checking order.
pub fn validate_legacy_config(config: &LegacyAppConfig) -> (r: AppResult<()>)
    ensures
        match r {
            Ok(_) => legacy_error(config@) is None,
            Err(e) => e.kind == AppErrorKind::Validation && legacy_error(config@) == Some(
                e.message@,
            ),
        },
{
    let mut problem = keys_problem(&config.global_keys);
    if problem.is_none() && !is_supported_detection_interval(config.detection.interval_ms) {
        problem = Some(String::from_str("职业识别间隔只能是 100 / 200 / 500 / 1000 毫秒"));
    }
    if problem.is_none() && !is_supported_auto_run_pulse_delay(
        config.settings.auto_run_pulse_delay_ms,
    ) {
        problem = Some(String::from_str("一键奔跑双击间隔必须在 10-200 毫秒之间"));
    }
    if problem.is_none() {
        problem = classes_problem(&config.global_keys, &config.classes);
    }
    if problem.is_none() {
        problem = customs_problem(&config.global_keys, &config.custom_configs);
    }
    validation_result(problem)
}

/// A key list and the combos that run beside it, with the
/// keys themselves as the effective auto-fire keys.
pub fn validate_runtime_profile(keys: &Vec<KeyBinding>, combos: &Vec<ComboDefinition>) -> (r:
    AppResult<()>)
    ensures
        match r {
            Ok(_) => profile_error(
                keys@,
                keys@,
                EffectRule::ClassOnly,
                super::schema::seq_view(combos@),
            ) is None,
            Err(e) => e.kind == AppErrorKind::Validation && profile_error(
                keys@,
                keys@,
                EffectRule::ClassOnly,
                super::schema::seq_view(combos@),
            ) == Some(e.message@),
        },
{
    validation_result(profile_problem(keys, keys, EffectRule::ClassOnly, combos))
}

} // verus!
