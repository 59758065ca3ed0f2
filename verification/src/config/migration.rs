//! Normalization of loaded configurations, the active-profile rule, and the decisions
//! taken when the configuration files are loaded or migrated.

use super::defaults::{
    CONFIG_VERSION, DEFAULT_INTERVAL_MS, MAX_COMBO_GAP_MS, MAX_COMBO_HOLD_MS, MAX_COMBO_WAIT_MS,
    MAX_INTERVAL_MS, MIN_COMBO_HOLD_MS, MIN_INTERVAL_MS, PROFILES_CONFIG_VERSION,
    SETTINGS_CONFIG_VERSION, default_detection_enabled,
};
use super::schema::{
    opt_text_view, seq_view, texts_view, AppSettings, AutoRunConfig, ClassConfig, ClassConfigView,
    ComboAction, ComboActionView, ComboDefinition, ComboDefinitionView, CustomConfig,
    CustomConfigView, DetectionSettings, FireKeyMode, Hotkey, KeyBinding, LegacyAppConfig,
    LegacyAppConfigView, LogLevelSetting, ProfilesConfig, ProfilesConfigView, SettingsConfig,
    default_app_settings, default_detection_settings,
};
use super::validation::{
    normalize_auto_run_pulse_delay_ms, normalize_detection_interval_ms, pulse_delay_in_range,
};
use super::defaults::{
    detection_interval_option, DEFAULT_AUTO_RUN_PULSE_DELAY_MS, DEFAULT_DETECTION_INTERVAL_MS,
};
use crate::domain::display::{class_configured, custom_configured};
use crate::error::{AppErrorKind, AppResult};
use crate::keyed_map::{keyed_get, KeyedMap, KeyedSeq};
use crate::text::{decimal_text, is_blank, push_decimal, text_is_blank, trim_text, trimmed};
use vstd::prelude::*;

verus! {

// ---------------------------------------------------------------------------
// Keys and combos
// ---------------------------------------------------------------------------
pub open spec fn clamp_u16(v: u16, lo: u16, hi: u16) -> u16 {
    if v < lo {
        lo
    } else if v > hi {
        hi
    } else {
        v
    }
}

pub open spec fn min_u16(v: u16, hi: u16) -> u16 {
    if v > hi {
        hi
    } else {
        v
    }
}

/// A binding with its interval brought into range.
pub open spec fn normalized_key(k: KeyBinding) -> KeyBinding {
    KeyBinding {
        vk: k.vk,
        interval_ms: clamp_u16(k.interval_ms, MIN_INTERVAL_MS, MAX_INTERVAL_MS),
        mode: k.mode,
    }
}

pub open spec fn normalized_keys(keys: Seq<KeyBinding>) -> Seq<KeyBinding> {
    Seq::new(keys.len(), |i: int| normalized_key(keys[i]))
}

fn clamp_value(v: u16, lo: u16, hi: u16) -> (r: u16)
    requires
        lo <= hi,
    ensures
        r == clamp_u16(v, lo, hi),
{
    if v < lo {
        lo
    } else if v > hi {
        hi
    } else {
        v
    }
}

fn min_value(v: u16, hi: u16) -> (r: u16)
    ensures
        r == min_u16(v, hi),
{
    if v > hi {
        hi
    } else {
        v
    }
}

/// Every interval brought into range.
pub fn normalize_keys(keys: &mut Vec<KeyBinding>)
    ensures
        final(keys)@ == normalized_keys(old(keys)@),
{
    let ghost start = keys@;
    let mut i: usize = 0;
    while i < keys.len()
        invariant
            i <= keys@.len(),
            keys@.len() == start.len(),
            forall|j: int| 0 <= j < i ==> keys@[j] == normalized_key(start[j]),
            forall|j: int| i <= j < keys@.len() ==> keys@[j] == start[j],
        decreases keys.len() - i,
    {
        let k = keys[i];
        keys[i] = KeyBinding {
            vk: k.vk,
            interval_ms: clamp_value(k.interval_ms, MIN_INTERVAL_MS, MAX_INTERVAL_MS),
            mode: k.mode,
        };
        i = i + 1;
    }
    assert(keys@ =~= normalized_keys(start));
}

/// A blank id becomes `<prefix><middle><n>`.
pub open spec fn filled_id(id: Seq<char>, prefix: Seq<char>, middle: Seq<char>, n: nat) -> Seq<
    char,
> {
    if is_blank(id) {
        prefix + middle + decimal_text(n)
    } else {
        id
    }
}

/// An action of combo `combo_id` at position `index`: a blank id filled in, hold time
/// brought into range, gap and wait capped.
pub open spec fn normalized_action(combo_id: Seq<char>, a: ComboActionView, index: nat) -> ComboActionView {
    match a {
        ComboActionView::Tap { id, label, vk, hold_ms, wait_after_ms } => ComboActionView::Tap {
            id: filled_id(id, combo_id, "-action-"@, index + 1),
            label,
            vk,
            hold_ms: clamp_u16(hold_ms, MIN_COMBO_HOLD_MS, MAX_COMBO_HOLD_MS),
            wait_after_ms: min_u16(wait_after_ms, MAX_COMBO_WAIT_MS),
        },
        ComboActionView::Command { id, label, keys, key_hold_ms, key_gap_ms, wait_after_ms } =>
        ComboActionView::Command {
            id: filled_id(id, combo_id, "-action-"@, index + 1),
            label,
            keys,
            key_hold_ms: clamp_u16(key_hold_ms, MIN_COMBO_HOLD_MS, MAX_COMBO_HOLD_MS),
            key_gap_ms: min_u16(key_gap_ms, MAX_COMBO_GAP_MS),
            wait_after_ms: min_u16(wait_after_ms, MAX_COMBO_WAIT_MS),
        },
    }
}

/// A combo of owner `owner` at position `index`, its id filled in first and then its
/// actions normalized under that id.
pub open spec fn normalized_combo(owner: Seq<char>, c: ComboDefinitionView, index: nat) -> ComboDefinitionView {
    let id = filled_id(c.id, owner, "-combo-"@, index + 1);
    ComboDefinitionView {
        id,
        name: c.name,
        enabled: c.enabled,
        trigger_vk: c.trigger_vk,
        actions: Seq::new(c.actions.len(), |j: int| normalized_action(id, c.actions[j], j as nat)),
    }
}

pub open spec fn normalized_combos(owner: Seq<char>, combos: Seq<ComboDefinitionView>) -> Seq<
    ComboDefinitionView,
> {
    Seq::new(combos.len(), |i: int| normalized_combo(owner, combos[i], i as nat))
}

/// `<prefix><middle><n>` when `id` is blank, else a copy of `id`.
fn fill_id(id: &String, prefix: &str, middle: &str, n: usize) -> (r: String)
    ensures
        r@ == filled_id(id@, prefix@, middle@, n as nat),
{
    if text_is_blank(id.as_str()) {
        let mut s = String::from_str(prefix);
        s.append(middle);
        push_decimal(&mut s, n);
        s
    } else {
        id.clone()
    }
}

fn normalize_action(combo_id: &String, action: &ComboAction, index: usize) -> (r: ComboAction)
    requires
        index < usize::MAX,
    ensures
        r@ == normalized_action(combo_id@, action@, index as nat),
{
    match action {
        ComboAction::Tap { id, label, vk, hold_ms, wait_after_ms } => ComboAction::Tap {
            id: fill_id(id, combo_id.as_str(), "-action-", index + 1),
            label: label.clone(),
            vk: *vk,
            hold_ms: clamp_value(*hold_ms, MIN_COMBO_HOLD_MS, MAX_COMBO_HOLD_MS),
            wait_after_ms: min_value(*wait_after_ms, MAX_COMBO_WAIT_MS),
        },
        ComboAction::Command { id, label, keys, key_hold_ms, key_gap_ms, wait_after_ms } =>
        ComboAction::Command {
            id: fill_id(id, combo_id.as_str(), "-action-", index + 1),
            label: label.clone(),
            keys: keys.clone(),
            key_hold_ms: clamp_value(*key_hold_ms, MIN_COMBO_HOLD_MS, MAX_COMBO_HOLD_MS),
            key_gap_ms: min_value(*key_gap_ms, MAX_COMBO_GAP_MS),
            wait_after_ms: min_value(*wait_after_ms, MAX_COMBO_WAIT_MS),
        },
    }
}

fn normalize_combo(owner_id: &str, combo: &ComboDefinition, index: usize) -> (r: ComboDefinition)
    requires
        index < usize::MAX,
    ensures
        r@ == normalized_combo(owner_id@, combo@, index as nat),
{
    let id = fill_id(&combo.id, owner_id, "-combo-", index + 1);
    let mut actions: Vec<ComboAction> = Vec::new();
    let mut j: usize = 0;
    while j < combo.actions.len()
        invariant
            j <= combo.actions@.len(),
            actions@.len() == j,
            forall|t: int|
                0 <= t < j ==> (#[trigger] actions@[t])@ == normalized_action(
                    id@,
                    combo.actions@[t]@,
                    t as nat,
                ),
        decreases combo.actions.len() - j,
    {
        actions.push(normalize_action(&id, &combo.actions[j], j));
        j = j + 1;
    }
    let r = ComboDefinition {
        id,
        name: combo.name.clone(),
        enabled: combo.enabled,
        trigger_vk: combo.trigger_vk,
        actions,
    };
    assert(r@.actions =~= normalized_combo(owner_id@, combo@, index as nat).actions);
    r
}

/// Blank combo and action ids filled in from the owner's id and the
/// position, timings brought into range.
pub fn normalize_combos(combos: &mut Vec<ComboDefinition>, owner_id: &str)
    ensures
        seq_view(final(combos)@) == normalized_combos(owner_id@, seq_view(old(combos)@)),
{
    let ghost start = seq_view(combos@);
    let mut out: Vec<ComboDefinition> = Vec::new();
    let mut i: usize = 0;
    while i < combos.len()
        invariant
            i <= combos@.len(),
            start == seq_view(combos@),
            out@.len() == i,
            forall|t: int|
                0 <= t < i ==> (#[trigger] out@[t])@ == normalized_combo(
                    owner_id@,
                    start[t],
                    t as nat,
                ),
        decreases combos.len() - i,
    {
        out.push(normalize_combo(owner_id, &combos[i], i));
        i = i + 1;
    }
    *combos = out;
    assert(seq_view(combos@) =~= normalized_combos(owner_id@, start));
}

// ---------------------------------------------------------------------------
// Profile maps
// ---------------------------------------------------------------------------
pub open spec fn normalized_class(id: Seq<char>, c: ClassConfigView) -> ClassConfigView {
    ClassConfigView {
        enabled_keys: normalized_keys(c.enabled_keys),
        effect_rule: c.effect_rule,
        combo_defs: normalized_combos(id, c.combo_defs),
    }
}

pub open spec fn normalized_custom(id: Seq<char>, c: CustomConfigView) -> CustomConfigView {
    CustomConfigView {
        name: c.name,
        enabled_keys: normalized_keys(c.enabled_keys),
        effect_rule: c.effect_rule,
        combo_defs: normalized_combos(id, c.combo_defs),
    }
}

pub open spec fn normalized_classes(classes: KeyedSeq<ClassConfigView>) -> KeyedSeq<ClassConfigView> {
    Seq::new(classes.len(), |i: int| (classes[i].0, normalized_class(classes[i].0, classes[i].1)))
}

pub open spec fn normalized_customs(customs: KeyedSeq<CustomConfigView>) -> KeyedSeq<
    CustomConfigView,
> {
    Seq::new(customs.len(), |i: int| (customs[i].0, normalized_custom(customs[i].0, customs[i].1)))
}

fn normalize_class_map(classes: &mut KeyedMap<ClassConfig>)
    requires
        old(classes).wf(),
    ensures
        final(classes).wf(),
        final(classes)@ == normalized_classes(old(classes)@),
{
    let ghost start = classes@;
    let mut i: usize = 0;
    while i < classes.len()
        invariant
            classes.wf(),
            i <= classes@.len(),
            classes@.len() == start.len(),
            forall|j: int|
                0 <= j < i ==> #[trigger] classes@[j] == (
                    start[j].0,
                    normalized_class(start[j].0, start[j].1),
                ),
            forall|j: int| i <= j < classes@.len() ==> #[trigger] classes@[j] == start[j],
        decreases classes@.len() - i,
    {
        let id = classes.key_at(i).clone();
        let c = classes.value_at(i);
        let mut keys = c.enabled_keys.clone();
        normalize_keys(&mut keys);
        let mut combos = super::schema::duplicate_vec(&c.combo_defs);
        proof {
            super::schema::lemma_duplicate_vec_view(combos@, c.combo_defs@);
        }
        normalize_combos(&mut combos, id.as_str());
        let updated = ClassConfig { enabled_keys: keys, effect_rule: c.effect_rule, combo_defs: combos };
        classes.set_value_at(i, updated);
        i = i + 1;
    }
    assert(classes@ =~= normalized_classes(start));
}

fn normalize_custom_map(customs: &mut KeyedMap<CustomConfig>)
    requires
        old(customs).wf(),
    ensures
        final(customs).wf(),
        final(customs)@ == normalized_customs(old(customs)@),
{
    let ghost start = customs@;
    let mut i: usize = 0;
    while i < customs.len()
        invariant
            customs.wf(),
            i <= customs@.len(),
            customs@.len() == start.len(),
            forall|j: int|
                0 <= j < i ==> #[trigger] customs@[j] == (
                    start[j].0,
                    normalized_custom(start[j].0, start[j].1),
                ),
            forall|j: int| i <= j < customs@.len() ==> #[trigger] customs@[j] == start[j],
        decreases customs@.len() - i,
    {
        let id = customs.key_at(i).clone();
        let c = customs.value_at(i);
        let mut keys = c.enabled_keys.clone();
        normalize_keys(&mut keys);
        let mut combos = super::schema::duplicate_vec(&c.combo_defs);
        proof {
            super::schema::lemma_duplicate_vec_view(combos@, c.combo_defs@);
        }
        normalize_combos(&mut combos, id.as_str());
        let updated = CustomConfig {
            name: c.name.clone(),
            enabled_keys: keys,
            effect_rule: c.effect_rule,
            combo_defs: combos,
        };
        customs.set_value_at(i, updated);
        i = i + 1;
    }
    assert(customs@ =~= normalized_customs(start));
}

// ---------------------------------------------------------------------------
// The active profile
// ---------------------------------------------------------------------------
/// Whether `id` names a class or custom profile with something configured.
pub open spec fn is_active_profile_in(
    classes: KeyedSeq<ClassConfigView>,
    customs: KeyedSeq<CustomConfigView>,
    id: Seq<char>,
) -> bool {
    (keyed_get(classes, id) matches Some(c) && class_configured(c)) || (keyed_get(
        customs,
        id,
    ) matches Some(c) && custom_configured(c))
}

/// The active id a selection leads to: the trimmed id when it names a configured
/// profile, else none.
pub open spec fn normalized_active_id(p: ProfilesConfigView, active: Option<Seq<char>>) -> Option<
    Seq<char>,
> {
    match active {
        None => None,
        Some(a) => {
            let t = trimmed(a);
            if t.len() == 0 {
                None
            } else if is_active_profile_in(p.classes, p.custom_configs, t) {
                Some(t)
            } else {
                None
            }
        },
    }
}

fn is_active_profile_id_in(
    classes: &KeyedMap<ClassConfig>,
    customs: &KeyedMap<CustomConfig>,
    active_id: &str,
) -> (b: bool)
    requires
        classes.wf(),
        customs.wf(),
    ensures
        b == is_active_profile_in(classes@, customs@, active_id@),
{
    let class_ok = match classes.get(active_id) {
        Some(c) => super::super::domain::display::has_class_config(c),
        None => false,
    };
    let custom_ok = match customs.get(active_id) {
        Some(c) => super::super::domain::display::has_custom_config(c),
        None => false,
    };
    class_ok || custom_ok
}

/// Whether `active_id` names a class or custom profile with something configured.
pub fn is_active_profile_id(profiles: &ProfilesConfig, active_id: &str) -> (b: bool)
    requires
        profiles.wf(),
    ensures
        b == is_active_profile_in(profiles@.classes, profiles@.custom_configs, active_id@),
{
    is_active_profile_id_in(&profiles.classes, &profiles.custom_configs, active_id)
}

/// The active id a selection of `active_class_id` leads to.
pub fn normalize_active_config_id(profiles: &ProfilesConfig, active_class_id: Option<String>) -> (r:
    Option<String>)
    requires
        profiles.wf(),
    ensures
        opt_text_view(r) == normalized_active_id(profiles@, opt_text_view(active_class_id)),
{
    let active = match active_class_id {
        Some(a) => a,
        None => {
            return None;
        },
    };
    let t = trim_text(active.as_str());
    if t.as_str().is_empty() {
        return None;
    }
    if is_active_profile_id(profiles, t.as_str()) {
        Some(t)
    } else {
        None
    }
}

/// Selecting settles at once: the active id a selection leads to leads to itself, so
/// once a selection is applied, asking for the same selection again changes nothing.
pub proof fn lemma_active_selection_settles(p: ProfilesConfigView, requested: Option<Seq<char>>)
    ensures
        normalized_active_id(p, normalized_active_id(p, requested)) == normalized_active_id(
            p,
            requested,
        ),
        normalized_active_id(
            ProfilesConfigView { active_class_id: normalized_active_id(p, requested), ..p },
            requested,
        ) == normalized_active_id(p, requested),
{
    if let Some(a) = requested {
        crate::text::lemma_trimmed_trimmed(a);
    }
    let q = ProfilesConfigView { active_class_id: normalized_active_id(p, requested), ..p };
    assert(q.classes == p.classes && q.custom_configs == p.custom_configs);
}

/// The new active id when selecting `requested` changes it,
/// `None` when it stays as it is.
pub fn active_config_change(profiles: &ProfilesConfig, requested: Option<String>) -> (r: Option<
    Option<String>,
>)
    requires
        profiles.wf(),
    ensures
        match r {
            Some(next) => opt_text_view(next) == normalized_active_id(
                profiles@,
                opt_text_view(requested),
            ) && opt_text_view(next) != profiles@.active_class_id,
            None => normalized_active_id(profiles@, opt_text_view(requested))
                == profiles@.active_class_id,
        },
{
    let next = normalize_active_config_id(profiles, requested);
    let same = match (&next, &profiles.active_class_id) {
        (None, None) => true,
        (Some(a), Some(b)) => crate::text::text_eq(a.as_str(), b.as_str()),
        _ => false,
    };
    if same {
        None
    } else {
        Some(next)
    }
}

// ---------------------------------------------------------------------------
// Whole configurations
// ---------------------------------------------------------------------------
proof fn lemma_filled_id_kept(id: Seq<char>, prefix: Seq<char>, middle: Seq<char>, n: nat)
    requires
        middle.len() > 0,
        !crate::text::is_white_space(middle[0]),
    ensures
        !is_blank(filled_id(id, prefix, middle, n)),
        filled_id(filled_id(id, prefix, middle, n), prefix, middle, n) == filled_id(id, prefix, middle, n),
{
    if is_blank(id) {
        let r = prefix + middle + decimal_text(n);
        assert(r[prefix.len() as int] == middle[0]);
    }
}

proof fn lemma_dash_not_white_space()
    ensures
        "-combo-"@.len() > 0 && !crate::text::is_white_space("-combo-"@[0]),
        "-action-"@.len() > 0 && !crate::text::is_white_space("-action-"@[0]),
{
    reveal_strlit("-combo-");
    reveal_strlit("-action-");
}

/// Normalizing a combo list twice gives what normalizing it once gives: ids filled in
/// once stay, and timings clamped once are in range.
pub proof fn lemma_normalized_combos_idempotent(owner: Seq<char>, combos: Seq<ComboDefinitionView>)
    ensures
        normalized_combos(owner, normalized_combos(owner, combos)) == normalized_combos(owner, combos),
{
    lemma_dash_not_white_space();
    let once = normalized_combos(owner, combos);
    let twice = normalized_combos(owner, once);
    assert forall|i: int| 0 <= i < combos.len() implies #[trigger] twice[i] == once[i] by {
        let c = combos[i];
        lemma_filled_id_kept(c.id, owner, "-combo-"@, (i + 1) as nat);
        let id = once[i].id;
        assert forall|j: int| 0 <= j < c.actions.len() implies #[trigger] twice[i].actions[j]
            == once[i].actions[j] by {
            match c.actions[j] {
                ComboActionView::Tap { id: aid, .. } => {
                    lemma_filled_id_kept(aid, id, "-action-"@, (j + 1) as nat);
                },
                ComboActionView::Command { id: aid, .. } => {
                    lemma_filled_id_kept(aid, id, "-action-"@, (j + 1) as nat);
                },
            }
        }
        assert(twice[i].actions =~= once[i].actions);
    }
    assert(twice =~= once);
}

/// A normalized combo list keeps each combo's place, name, switch, trigger and action
/// kinds; every combo and every action has a non-blank id; and every action passes the
/// timing checks.
pub proof fn lemma_normalized_combos_valid(owner: Seq<char>, combos: Seq<ComboDefinitionView>)
    ensures
        normalized_combos(owner, combos).len() == combos.len(),
        forall|i: int|
            0 <= i < combos.len() ==> {
                let n = #[trigger] normalized_combos(owner, combos)[i];
                &&& !is_blank(n.id)
                &&& n.name == combos[i].name
                &&& n.enabled == combos[i].enabled
                &&& n.trigger_vk == combos[i].trigger_vk
                &&& n.actions.len() == combos[i].actions.len()
                &&& super::validation::actions_timing_ok(n.actions)
                &&& forall|j: int| 0 <= j < n.actions.len() ==> !is_blank(super::schema::action_id_of(#[trigger] n.actions[j]))
            },
{
    lemma_dash_not_white_space();
    assert forall|i: int| 0 <= i < combos.len() implies {
        let n = #[trigger] normalized_combos(owner, combos)[i];
        &&& !is_blank(n.id)
        &&& n.name == combos[i].name
        &&& n.enabled == combos[i].enabled
        &&& n.trigger_vk == combos[i].trigger_vk
        &&& n.actions.len() == combos[i].actions.len()
        &&& super::validation::actions_timing_ok(n.actions)
        &&& forall|j: int| 0 <= j < n.actions.len() ==> !is_blank(super::schema::action_id_of(#[trigger] n.actions[j]))
    } by {
        let c = combos[i];
        let n = normalized_combos(owner, combos)[i];
        lemma_filled_id_kept(c.id, owner, "-combo-"@, (i + 1) as nat);
        assert forall|j: int| 0 <= j < n.actions.len() implies (#[trigger] super::validation::action_timing_error(
            n.actions[j],
        )) is None by {
            assert(n.actions[j] == normalized_action(n.id, c.actions[j], j as nat));
        }
        assert forall|j: int| 0 <= j < n.actions.len() implies !is_blank(
            super::schema::action_id_of(#[trigger] n.actions[j]),
        ) by {
            lemma_filled_id_kept(super::schema::action_id_of(c.actions[j]), n.id, "-action-"@, (j + 1) as nat);
            assert(n.actions[j] == normalized_action(n.id, c.actions[j], j as nat));
        }
    }
}

proof fn lemma_normalized_keys_idempotent(keys: Seq<KeyBinding>)
    ensures
        normalized_keys(normalized_keys(keys)) == normalized_keys(keys),
        forall|i: int|
            0 <= i < keys.len() ==> super::validation::interval_in_range(
                #[trigger] normalized_keys(keys)[i].interval_ms,
            ),
{
    assert(normalized_keys(normalized_keys(keys)) =~= normalized_keys(keys));
}

/// `profiles.json` after normalization.
pub open spec fn normalized_profiles(p: ProfilesConfigView) -> ProfilesConfigView {
    let base = ProfilesConfigView {
        version: PROFILES_CONFIG_VERSION,
        global_keys: normalized_keys(p.global_keys),
        combo_defs: normalized_combos("global"@, p.combo_defs),
        classes: normalized_classes(p.classes),
        custom_configs: normalized_customs(p.custom_configs),
        hidden_class_ids: p.hidden_class_ids,
        active_class_id: p.active_class_id,
        auto_run: AutoRunConfig {
            enabled: p.auto_run.enabled,
            left_vk: p.auto_run.left_vk,
            right_vk: p.auto_run.right_vk,
            pulse_delay_ms: if pulse_delay_in_range(p.auto_run.pulse_delay_ms) {
                p.auto_run.pulse_delay_ms
            } else {
                DEFAULT_AUTO_RUN_PULSE_DELAY_MS
            },
        },
    };
    ProfilesConfigView { active_class_id: normalized_active_id(base, p.active_class_id), ..base }
}

/// Normalizing a normalized `profiles.json` changes nothing, and a normalized one has
/// its auto-run delay and every key interval in range and an active id, if any, that
/// names a configured profile: a configuration written after loading loads back as it
/// was.
pub proof fn lemma_normalized_profiles_settled(p: ProfilesConfigView)
    ensures
        normalized_profiles(normalized_profiles(p)) == normalized_profiles(p),
        pulse_delay_in_range(normalized_profiles(p).auto_run.pulse_delay_ms),
        forall|i: int|
            0 <= i < normalized_profiles(p).global_keys.len() ==> super::validation::interval_in_range(
                #[trigger] normalized_profiles(p).global_keys[i].interval_ms,
            ),
        normalized_profiles(p).active_class_id matches Some(id) ==> is_active_profile_in(
            normalized_profiles(p).classes,
            normalized_profiles(p).custom_configs,
            id,
        ),
{
    let once = normalized_profiles(p);
    let twice = normalized_profiles(once);
    lemma_normalized_keys_idempotent(p.global_keys);
    lemma_normalized_combos_idempotent("global"@, p.combo_defs);
    assert(normalized_classes(once.classes) == once.classes) by {
        assert forall|i: int| 0 <= i < p.classes.len() implies #[trigger] normalized_classes(
            once.classes,
        )[i] == once.classes[i] by {
            lemma_normalized_keys_idempotent(p.classes[i].1.enabled_keys);
            lemma_normalized_combos_idempotent(p.classes[i].0, p.classes[i].1.combo_defs);
        }
        assert(normalized_classes(once.classes) =~= once.classes);
    }
    assert(normalized_customs(once.custom_configs) == once.custom_configs) by {
        assert forall|i: int| 0 <= i < p.custom_configs.len() implies #[trigger] normalized_customs(
            once.custom_configs,
        )[i] == once.custom_configs[i] by {
            lemma_normalized_keys_idempotent(p.custom_configs[i].1.enabled_keys);
            lemma_normalized_combos_idempotent(p.custom_configs[i].0, p.custom_configs[i].1.combo_defs);
        }
        assert(normalized_customs(once.custom_configs) =~= once.custom_configs);
    }
    let base1 = ProfilesConfigView { active_class_id: p.active_class_id, ..once };
    lemma_active_selection_settles(base1, p.active_class_id);
    assert(twice.active_class_id == normalized_active_id(base1, normalized_active_id(base1, p.active_class_id)));
}

/// Brings `profiles.json` into its normalized form.
pub fn normalize_profiles_config(profiles: &mut ProfilesConfig)
    requires
        old(profiles).wf(),
    ensures
        final(profiles).wf(),
        final(profiles)@ == normalized_profiles(old(profiles)@),
{
    profiles.version = PROFILES_CONFIG_VERSION;
    normalize_keys(&mut profiles.global_keys);
    normalize_combos(&mut profiles.combo_defs, "global");
    normalize_class_map(&mut profiles.classes);
    normalize_custom_map(&mut profiles.custom_configs);
    profiles.auto_run.pulse_delay_ms = normalize_auto_run_pulse_delay_ms(
        profiles.auto_run.pulse_delay_ms,
    );
    let active = super::schema::duplicate_opt_text(&profiles.active_class_id);
    let next = normalize_active_config_id(profiles, active);
    profiles.active_class_id = next;
}

/// The profiles to write on a save: normalized, and kept
/// when they then validate; otherwise the validation error is returned.
pub fn profiles_for_save(profiles: ProfilesConfig) -> (r: AppResult<ProfilesConfig>)
    requires
        profiles.wf(),
    ensures
        match r {
            Ok(p) => p.wf() && p@ == normalized_profiles(profiles@) && super::validation::profiles_error(p@) is None,
            Err(e) => e.kind == AppErrorKind::Validation && super::validation::profiles_error(
                normalized_profiles(profiles@),
            ) == Some(e.message@),
        },
{
    let mut profiles = profiles;
    normalize_profiles_config(&mut profiles);
    match super::validation::validate_profiles_config(&profiles) {
        Ok(_) => Ok(profiles),
        Err(e) => Err(e),
    }
}

/// `settings.json` after normalization.
pub open spec fn normalized_settings(s: SettingsConfig) -> SettingsConfig {
    SettingsConfig {
        version: SETTINGS_CONFIG_VERSION,
        detection: DetectionSettings {
            interval_ms: if detection_interval_option(s.detection.interval_ms) {
                s.detection.interval_ms
            } else {
                DEFAULT_DETECTION_INTERVAL_MS
            },
            ..s.detection
        },
        ..s
    }
}

/// Brings `settings.json` into its normalized form.
pub fn normalize_settings_config(settings: &mut SettingsConfig)
    ensures
        *final(settings) == normalized_settings(*old(settings)),
{
    settings.version = SETTINGS_CONFIG_VERSION;
    settings.detection.interval_ms = normalize_detection_interval_ms(settings.detection.interval_ms);
}

proof fn lemma_normalized_classes_get(classes: KeyedSeq<ClassConfigView>, id: Seq<char>)
    requires
        crate::keyed_map::keys_unique(classes),
    ensures
        keyed_get(normalized_classes(classes), id) == match keyed_get(classes, id) {
            Some(c) => Some(normalized_class(id, c)),
            None => None,
        },
{
    let n = normalized_classes(classes);
    assert(crate::keyed_map::keys_unique(n));
    if crate::keyed_map::has_key(classes, id) {
        let i = choose|i: int| 0 <= i < classes.len() && classes[i].0 == id;
        crate::keyed_map::lemma_key_index_unique(classes, id, i);
        crate::keyed_map::lemma_key_index_unique(n, id, i);
    } else {
        assert(!crate::keyed_map::has_key(n, id));
    }
}

proof fn lemma_normalized_customs_get(customs: KeyedSeq<CustomConfigView>, id: Seq<char>)
    requires
        crate::keyed_map::keys_unique(customs),
    ensures
        keyed_get(normalized_customs(customs), id) == match keyed_get(customs, id) {
            Some(c) => Some(normalized_custom(id, c)),
            None => None,
        },
{
    let n = normalized_customs(customs);
    assert(crate::keyed_map::keys_unique(n));
    if crate::keyed_map::has_key(customs, id) {
        let i = choose|i: int| 0 <= i < customs.len() && customs[i].0 == id;
        crate::keyed_map::lemma_key_index_unique(customs, id, i);
        crate::keyed_map::lemma_key_index_unique(n, id, i);
    } else {
        assert(!crate::keyed_map::has_key(n, id));
    }
}

/// Loading a single-file configuration keeps its active profile exactly when that
/// profile, a class or a custom profile, has a key or a combo; otherwise the active id is
/// cleared. No profile is removed for being empty: the class and custom profile keys
/// stay as they were.
pub proof fn lemma_normalized_active_profile(c: LegacyAppConfigView)
    requires
        crate::keyed_map::keys_unique(c.classes),
        crate::keyed_map::keys_unique(c.custom_configs),
    ensures
        normalized_legacy(c).active_class_id == match c.active_class_id {
            Some(id) => if (keyed_get(c.classes, id) matches Some(x) && class_configured(x)) || (keyed_get(
                c.custom_configs,
                id,
            ) matches Some(x) && custom_configured(x)) {
                Some(id)
            } else {
                None
            },
            None => None,
        },
        normalized_legacy(c).classes.len() == c.classes.len(),
        forall|i: int| 0 <= i < c.classes.len() ==> (#[trigger] normalized_legacy(c).classes[i]).0 == c.classes[i].0,
        normalized_legacy(c).custom_configs.len() == c.custom_configs.len(),
        forall|i: int|
            0 <= i < c.custom_configs.len() ==> (#[trigger] normalized_legacy(c).custom_configs[i]).0
                == c.custom_configs[i].0,
{
    if let Some(id) = c.active_class_id {
        lemma_normalized_classes_get(c.classes, id);
        lemma_normalized_customs_get(c.custom_configs, id);
    }
}

/// A single-file configuration after normalization: everything brought into range,
/// detection switched off when the file predates the current version, and an active
/// id that names no configured profile dropped.
pub open spec fn normalized_legacy(c: LegacyAppConfigView) -> LegacyAppConfigView {
    let classes = normalized_classes(c.classes);
    let customs = normalized_customs(c.custom_configs);
    LegacyAppConfigView {
        version: CONFIG_VERSION,
        global_keys: normalized_keys(c.global_keys),
        combo_defs: normalized_combos("global"@, c.combo_defs),
        classes,
        custom_configs: customs,
        hidden_class_ids: c.hidden_class_ids,
        active_class_id: match c.active_class_id {
            Some(id) => if is_active_profile_in(classes, customs, id) {
                Some(id)
            } else {
                None
            },
            None => None,
        },
        toggle_hotkey: c.toggle_hotkey,
        detection: DetectionSettings {
            enabled: if c.version < CONFIG_VERSION {
                false
            } else {
                c.detection.enabled
            },
            interval_ms: if detection_interval_option(c.detection.interval_ms) {
                c.detection.interval_ms
            } else {
                DEFAULT_DETECTION_INTERVAL_MS
            },
            ..c.detection
        },
        settings: AppSettings {
            auto_run_pulse_delay_ms: if pulse_delay_in_range(c.settings.auto_run_pulse_delay_ms) {
                c.settings.auto_run_pulse_delay_ms
            } else {
                DEFAULT_AUTO_RUN_PULSE_DELAY_MS
            },
            ..c.settings
        },
    }
}

/// Brings a single-file configuration into its normalized form.
pub fn normalize_config(config: &mut LegacyAppConfig)
    requires
        old(config).wf(),
    ensures
        final(config).wf(),
        final(config)@ == normalized_legacy(old(config)@),
{
    let original_version = config.version;
    config.version = CONFIG_VERSION;
    normalize_keys(&mut config.global_keys);
    normalize_combos(&mut config.combo_defs, "global");
    normalize_class_map(&mut config.classes);
    normalize_custom_map(&mut config.custom_configs);
    if original_version < CONFIG_VERSION {
        config.detection.enabled = default_detection_enabled();
    }
    config.detection.interval_ms = normalize_detection_interval_ms(config.detection.interval_ms);
    config.settings.auto_run_pulse_delay_ms = normalize_auto_run_pulse_delay_ms(
        config.settings.auto_run_pulse_delay_ms,
    );
    let keep = match &config.active_class_id {
        Some(id) => is_active_profile_id_in(&config.classes, &config.custom_configs, id.as_str()),
        None => true,
    };
    if !keep {
        config.active_class_id = None;
    }
}

// ---------------------------------------------------------------------------
// Loading
// ---------------------------------------------------------------------------
/// Where a loaded configuration came from.
#[derive(Debug, Clone, Copy, PartialEq, Eq, Structural)]
pub enum LoadedConfigStatus {
    Existing,
    Migrated,
    Missing,
    Invalid,
}

/// A loaded configuration and where it came from.
#[derive(Debug)]
pub struct LoadedConfig<T> {
    pub value: T,
    pub status: LoadedConfigStatus,
}

impl<T> LoadedConfig<T> {
    /// A migrated or newly created configuration is written back.
    pub fn should_persist(&self) -> (b: bool)
        ensures
            b == (self.status == LoadedConfigStatus::Migrated || self.status
                == LoadedConfigStatus::Missing),
    {
        match self.status {
            LoadedConfigStatus::Migrated | LoadedConfigStatus::Missing => true,
            _ => false,
        }
    }
}

/// What reading a configuration file gave.
#[derive(Debug)]
pub enum FileRead<T> {
    /// The file was read and parsed.
    Parsed(T),
    /// The file was read but did not parse.
    Unparsable,
    /// The file exists but could not be read.
    Unreadable,
    /// There is no such file.
    Absent,
}

/// The configuration used when none can be loaded.
pub open spec fn default_legacy_config() -> LegacyAppConfigView {
    LegacyAppConfigView {
        version: CONFIG_VERSION,
        global_keys: seq![KeyBinding { vk: 0x58, interval_ms: DEFAULT_INTERVAL_MS, mode: FireKeyMode::Hold }],
        combo_defs: Seq::empty(),
        classes: Seq::empty(),
        custom_configs: Seq::empty(),
        hidden_class_ids: Seq::empty(),
        active_class_id: None,
        toggle_hotkey: Some(Hotkey { ctrl: true, alt: false, shift: false, vk: 0x77 }),
        detection: default_detection_settings(),
        settings: default_app_settings(),
    }
}

/// The single-file configuration used when none can be loaded, with the release
/// build's log level; `default_config_for_build` gives either build's.
pub fn default_config() -> (r: LegacyAppConfig)
    ensures
        r@ == default_legacy_config(),
        r.wf(),
{
    let r = LegacyAppConfig {
        version: CONFIG_VERSION,
        global_keys: vec![KeyBinding { vk: 0x58, interval_ms: DEFAULT_INTERVAL_MS, mode: FireKeyMode::Hold }],
        combo_defs: Vec::new(),
        classes: KeyedMap::new(),
        custom_configs: KeyedMap::new(),
        hidden_class_ids: Vec::new(),
        active_class_id: None,
        toggle_hotkey: Some(Hotkey { ctrl: true, alt: false, shift: false, vk: 0x77 }),
        detection: DetectionSettings::default(),
        settings: AppSettings::default(),
    };
    assert(r@.global_keys =~= default_legacy_config().global_keys);
    assert(r@.combo_defs =~= Seq::<ComboDefinitionView>::empty());
    assert(r@.hidden_class_ids =~= Seq::<Seq<char>>::empty());
    r
}

/// The single-file configuration used when none can be loaded, for a debug or a release
/// build: they differ in the log level.
pub fn default_config_for_build(debug_build: bool) -> (r: LegacyAppConfig)
    ensures
        r@ == (LegacyAppConfigView {
            settings: AppSettings { log_level: super::schema::build_log_level(debug_build), ..default_app_settings() },
            ..default_legacy_config()
        }),
        r.wf(),
{
    let mut r = default_config();
    r.settings = AppSettings::default_for_build(debug_build);
    r
}

/// The configuration an old single profile file becomes: the default configuration
/// with its keys as global keys at the default interval.
pub open spec fn legacy_profile_config(enabled_keys: Seq<u16>) -> LegacyAppConfigView {
    LegacyAppConfigView {
        global_keys: Seq::new(
            enabled_keys.len(),
            |i: int|
                KeyBinding { vk: enabled_keys[i], interval_ms: DEFAULT_INTERVAL_MS, mode: FireKeyMode::Hold },
        ),
        ..default_legacy_config()
    }
}

/// The configuration migrated from an old profile file listing `enabled_keys`.
pub fn config_from_legacy_profile(enabled_keys: &Vec<u16>) -> (r: LegacyAppConfig)
    ensures
        r@ == legacy_profile_config(enabled_keys@),
        r.wf(),
{
    let mut config = default_config();
    let mut keys: Vec<KeyBinding> = Vec::new();
    let mut i: usize = 0;
    while i < enabled_keys.len()
        invariant
            i <= enabled_keys@.len(),
            keys@.len() == i,
            forall|j: int|
                0 <= j < i ==> #[trigger] keys@[j] == (KeyBinding {
                    vk: enabled_keys@[j],
                    interval_ms: DEFAULT_INTERVAL_MS,
                    mode: FireKeyMode::Hold,
                }),
        decreases enabled_keys.len() - i,
    {
        keys.push(KeyBinding { vk: enabled_keys[i], interval_ms: DEFAULT_INTERVAL_MS, mode: FireKeyMode::Hold });
        i = i + 1;
    }
    config.global_keys = keys;
    assert(config@.global_keys =~= legacy_profile_config(enabled_keys@).global_keys);
    config
}

/// The settings to write on a save: normalized, which always validate.
pub fn settings_for_save(settings: SettingsConfig) -> (r: AppResult<SettingsConfig>)
    ensures
        r matches Ok(s) && s == normalized_settings(settings),
{
    let mut settings = settings;
    normalize_settings_config(&mut settings);
    match super::validation::validate_settings_config(&settings) {
        Ok(_) => Ok(settings),
        Err(e) => Err(e),
    }
}

/// A single-file configuration as loaded: normalized, and kept only when it then
/// validates.
pub fn accept_legacy_config(config: LegacyAppConfig) -> (r: Option<LegacyAppConfig>)
    requires
        config.wf(),
    ensures
        match r {
            Some(c) => c@ == normalized_legacy(config@) && c.wf()
                && super::validation::legacy_error(c@) is None,
            None => super::validation::legacy_error(normalized_legacy(config@)) is Some,
        },
{
    let mut config = config;
    normalize_config(&mut config);
    match super::validation::validate_legacy_config(&config) {
        Ok(_) => Some(config),
        Err(_) => None,
    }
}

/// Normalized settings always pass validation.
pub proof fn lemma_normalized_settings_valid(s: SettingsConfig)
    ensures
        detection_interval_option(normalized_settings(s).detection.interval_ms),
{
}

/// `settings.json` as loaded, from what reading the file gave: a parsed file is kept
/// normalized; an unreadable or unparsable one gives the build's defaults; a missing one
/// is migrated from the single-file configuration when there is one, else created with
/// the build's defaults.
pub fn settings_from_file(
    read: FileRead<SettingsConfig>,
    legacy_config: Option<&LegacyAppConfig>,
    debug_build: bool,
) -> (r: LoadedConfig<SettingsConfig>)
    ensures
        match read {
            FileRead::Parsed(s) => r.status == LoadedConfigStatus::Existing && r.value
                == normalized_settings(s),
            FileRead::Absent => match legacy_config {
                Some(c) => r.status == LoadedConfigStatus::Migrated && r.value
                    == normalized_settings(super::schema::settings_from_legacy(c@)),
                None => r.status == LoadedConfigStatus::Missing && r.value
                    == super::schema::build_settings_config(debug_build),
            },
            _ => r.status == LoadedConfigStatus::Invalid && r.value
                == super::schema::build_settings_config(debug_build),
        },
{
    match read {
        FileRead::Parsed(s) => {
            let mut settings = s;
            normalize_settings_config(&mut settings);
            if super::validation::validate_settings_config(&settings).is_ok() {
                LoadedConfig { value: settings, status: LoadedConfigStatus::Existing }
            } else {
                LoadedConfig { value: SettingsConfig::default_for_build(debug_build), status: LoadedConfigStatus::Invalid }
            }
        },
        FileRead::Absent => match legacy_config {
            Some(c) => {
                let mut settings = SettingsConfig::from_legacy(c);
                normalize_settings_config(&mut settings);
                LoadedConfig { value: settings, status: LoadedConfigStatus::Migrated }
            },
            None => LoadedConfig { value: SettingsConfig::default_for_build(debug_build), status: LoadedConfigStatus::Missing },
        },
        _ => LoadedConfig { value: SettingsConfig::default_for_build(debug_build), status: LoadedConfigStatus::Invalid },
    }
}

/// `profiles.json` as loaded, from what reading the file gave: a parsed file is kept
/// normalized when it then validates, else the defaults are used; an unreadable or
/// unparsable one gives the defaults; a missing one is migrated from the single-file
/// configuration when there is one, else created with the defaults.
pub fn profiles_from_file(read: FileRead<ProfilesConfig>, legacy_config: Option<&LegacyAppConfig>) -> (r:
    LoadedConfig<ProfilesConfig>)
    requires
        read matches FileRead::Parsed(p) ==> p.wf(),
        legacy_config matches Some(c) ==> c.wf(),
    ensures
        r.value.wf(),
        match read {
            FileRead::Parsed(p) => if super::validation::profiles_error(normalized_profiles(p@)) is None {
                r.status == LoadedConfigStatus::Existing && r.value@ == normalized_profiles(p@)
            } else {
                r.status == LoadedConfigStatus::Invalid && r.value@
                    == super::schema::default_profiles_config()
            },
            FileRead::Absent => match legacy_config {
                Some(c) => r.status == LoadedConfigStatus::Migrated && r.value@
                    == normalized_profiles(super::schema::profiles_from_legacy(c@)),
                None => r.status == LoadedConfigStatus::Missing && r.value@
                    == super::schema::default_profiles_config(),
            },
            _ => r.status == LoadedConfigStatus::Invalid && r.value@
                == super::schema::default_profiles_config(),
        },
{
    match read {
        FileRead::Parsed(p) => {
            let mut profiles = p;
            normalize_profiles_config(&mut profiles);
            if super::validation::validate_profiles_config(&profiles).is_ok() {
                LoadedConfig { value: profiles, status: LoadedConfigStatus::Existing }
            } else {
                LoadedConfig { value: ProfilesConfig::default(), status: LoadedConfigStatus::Invalid }
            }
        },
        FileRead::Absent => match legacy_config {
            Some(c) => {
                let mut profiles = ProfilesConfig::from_legacy(c);
                normalize_profiles_config(&mut profiles);
                LoadedConfig { value: profiles, status: LoadedConfigStatus::Migrated }
            },
            None => LoadedConfig { value: ProfilesConfig::default(), status: LoadedConfigStatus::Missing },
        },
        _ => LoadedConfig { value: ProfilesConfig::default(), status: LoadedConfigStatus::Invalid },
    }
}

/// The log level a configuration file sets: the top-level field when present, else the
/// one under `settings`; when the file could not be read or parsed, the default level of
/// the build (`Debug` for a debug build, `Info` otherwise).
pub fn log_level_from_file(parsed: Option<(Option<LogLevelSetting>, LogLevelSetting)>, debug_build: bool) -> (r:
    LogLevelSetting)
    ensures
        r == match parsed {
            Some((Some(top), _)) => top,
            Some((None, nested)) => nested,
            None => if debug_build {
                LogLevelSetting::Debug
            } else {
                LogLevelSetting::Info
            },
        },
{
    match parsed {
        Some((Some(top), _)) => top,
        Some((None, nested)) => nested,
        None => LogLevelSetting::default_for_build(debug_build),
    }
}

// ---------------------------------------------------------------------------
// File names
// ---------------------------------------------------------------------------
/// The code point of `c` with ASCII upper case folded to lower case.
pub open spec fn ascii_lower(c: char) -> int {
    if 'A' <= c && c <= 'Z' {
        (c as u32) + 32
    } else {
        c as u32 as int
    }
}

/// Equality of two texts with ASCII letters compared case-insensitively.
pub open spec fn eq_ignore_ascii_case(a: Seq<char>, b: Seq<char>) -> bool {
    a.len() == b.len() && forall|i: int| 0 <= i < a.len() ==> ascii_lower(#[trigger] a[i]) == ascii_lower(b[i])
}

fn lower_code(c: char) -> (r: u32)
    ensures
        r == ascii_lower(c),
{
    if 'A' <= c && c <= 'Z' {
        (c as u32) + 32
    } else {
        c as u32
    }
}

/// `a.eq_ignore_ascii_case(b)`.
pub fn text_eq_ignore_ascii_case(a: &str, b: &str) -> (r: bool)
    ensures
        r == eq_ignore_ascii_case(a@, b@),
{
    let ca = crate::text::chars_of(a);
    let cb = crate::text::chars_of(b);
    if ca.len() != cb.len() {
        return false;
    }
    let mut i: usize = 0;
    while i < ca.len()
        invariant
            ca@ == a@,
            cb@ == b@,
            ca.len() == cb.len(),
            i <= ca.len(),
            forall|j: int| 0 <= j < i ==> ascii_lower(#[trigger] a@[j]) == ascii_lower(b@[j]),
        decreases ca.len() - i,
    {
        if lower_code(ca[i]) != lower_code(cb[i]) {
            return false;
        }
        i = i + 1;
    }
    true
}

/// Whether the configuration location names the single-file configuration itself, so
/// that the split files go beside it.
pub fn is_legacy_config_file_name(file_name: &str) -> (b: bool)
    ensures
        b == eq_ignore_ascii_case(file_name@, "app-config.json"@),
{
    text_eq_ignore_ascii_case(file_name, "app-config.json")
}

/// `Path::extension` is `json`: the name ends in `.json` and that dot is not its first
/// character.
pub open spec fn has_json_extension(name: Seq<char>) -> bool {
    name.len() > 5 && name.subrange(name.len() - 5, name.len() as int) == ".json"@
}

/// A file next to the configuration that may hold an old single profile: a JSON file
/// that is none of the configuration files.
pub open spec fn legacy_profile_file_name(name: Seq<char>) -> bool {
    name != "app-config.json"@ && name != "settings.json"@ && name != "profiles.json"@
        && has_json_extension(name)
}

/// Whether a regular file named `file_name` may hold an old single profile.
pub fn is_legacy_profile_file_name(file_name: &str) -> (b: bool)
    ensures
        b == legacy_profile_file_name(file_name@),
{
    if crate::text::text_eq(file_name, "app-config.json") || crate::text::text_eq(file_name, "settings.json")
        || crate::text::text_eq(file_name, "profiles.json") {
        return false;
    }
    let cs = crate::text::chars_of(file_name);
    let n = cs.len();
    if n <= 5 {
        return false;
    }
    let ok = cs[n - 5] == '.' && cs[n - 4] == 'j' && cs[n - 3] == 's' && cs[n - 2] == 'o' && cs[n - 1] == 'n';
    proof {
        reveal_strlit(".json");
        let tail = file_name@.subrange(n - 5, n as int);
        if ok {
            assert(tail =~= ".json"@);
        } else {
            if tail == ".json"@ {
                assert(tail[0] == '.' && tail[1] == 'j' && tail[2] == 's' && tail[3] == 'o' && tail[4] == 'n');
            }
        }
    }
    ok
}

} // verus!
