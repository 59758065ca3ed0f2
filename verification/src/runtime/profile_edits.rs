//! Edits the profile editor makes to `profiles.json`, each stated over the model of the
//! profiles; the caller then normalizes, validates and saves the result.

use crate::config::defaults::{autofire_key_candidate_vks, autofire_key_candidates, DEFAULT_INTERVAL_MS};
use crate::config::migration::{normalize_keys, normalized_keys};
use crate::config::schema::{
    seq_view, texts_view, AutoRunConfig, ClassConfig, ClassConfigView, ComboDefinition,
    ComboDefinitionView, CustomConfig, CustomConfigView, EffectRule, FireKeyMode, KeyBinding,
    ProfilesConfig, ProfilesConfigView,
};
use crate::config::validation::{profiles_error, validate_profiles_config};
use crate::domain::display::{class_configured, has_class_config};
use crate::error::{AppError, AppErrorKind, AppResult};
use crate::keyed_map::{has_key, keyed_get, keyed_insert, keyed_remove, lemma_key_index_unique, Duplicate, KeyedMap};
use crate::text::{decimal_text, is_blank, push_decimal, text_eq, text_is_blank, trim_text, trimmed};
use vstd::prelude::*;

verus! {

pub open spec fn msg_custom_name_blank() -> Seq<char> {
    "自定义配置名称不能为空"@
}

pub open spec fn msg_no_candidate_key() -> Seq<char> {
    "没有可用的连发按键。"@
}

/// A class profile with nothing in it.
pub open spec fn empty_class() -> ClassConfigView {
    ClassConfigView {
        enabled_keys: Seq::empty(),
        effect_rule: EffectRule::GlobalAndClass,
        combo_defs: Seq::empty(),
    }
}

/// The class profile of `id`, or an empty one.
pub open spec fn class_or_empty(p: ProfilesConfigView, id: Seq<char>) -> ClassConfigView {
    match keyed_get(p.classes, id) {
        Some(c) => c,
        None => empty_class(),
    }
}

pub open spec fn with_classes(p: ProfilesConfigView, classes: Seq<(Seq<char>, ClassConfigView)>) -> ProfilesConfigView {
    ProfilesConfigView { classes, ..p }
}

pub open spec fn with_customs(p: ProfilesConfigView, customs: Seq<(Seq<char>, CustomConfigView)>) -> ProfilesConfigView {
    ProfilesConfigView { custom_configs: customs, ..p }
}

/// Stores class profile `c` under `id`, then drops the entry again when `c` holds no
/// key and no combo.
pub open spec fn store_class_dropping_empty(p: ProfilesConfigView, id: Seq<char>, c: ClassConfigView) -> ProfilesConfigView {
    let classes = keyed_insert(p.classes, id, c);
    if class_configured(c) {
        with_classes(p, classes)
    } else {
        with_classes(p, keyed_remove(classes, id))
    }
}

/// A custom profile of that id takes the keys; otherwise the
/// class profile of that id (created when missing) takes them and is dropped when it
/// is left empty. Intervals are brought into range.
pub open spec fn profile_keys_updated(p: ProfilesConfigView, id: Seq<char>, keys: Seq<KeyBinding>) -> ProfilesConfigView {
    let ks = normalized_keys(keys);
    match keyed_get(p.custom_configs, id) {
        Some(c) => with_customs(p, keyed_insert(p.custom_configs, id, CustomConfigView { enabled_keys: ks, ..c })),
        None => store_class_dropping_empty(p, id, ClassConfigView { enabled_keys: ks, ..class_or_empty(p, id) }),
    }
}

/// `update_profile_combos`, in the same way with the combos.
pub open spec fn profile_combos_updated(p: ProfilesConfigView, id: Seq<char>, combos: Seq<ComboDefinitionView>) -> ProfilesConfigView {
    match keyed_get(p.custom_configs, id) {
        Some(c) => with_customs(p, keyed_insert(p.custom_configs, id, CustomConfigView { combo_defs: combos, ..c })),
        None => store_class_dropping_empty(p, id, ClassConfigView { combo_defs: combos, ..class_or_empty(p, id) }),
    }
}

/// The custom profile of that id, else the class profile
/// of that id (created when missing), takes the rule.
pub open spec fn profile_rule_updated(p: ProfilesConfigView, id: Seq<char>, rule: EffectRule) -> ProfilesConfigView {
    match keyed_get(p.custom_configs, id) {
        Some(c) => with_customs(p, keyed_insert(p.custom_configs, id, CustomConfigView { effect_rule: rule, ..c })),
        None => with_classes(p, keyed_insert(p.classes, id, ClassConfigView { effect_rule: rule, ..class_or_empty(p, id) })),
    }
}

/// Setting the effect rule of profile `id` gives that profile exactly the requested
/// rule and leaves the rest of it and every other profile as they were: a custom
/// profile when one has that id, else the class profile of that id, created empty when
/// it did not exist.
pub proof fn lemma_rule_update_sets_rule(p: ProfilesConfigView, id: Seq<char>, rule: EffectRule)
    requires
        crate::keyed_map::keys_unique(p.classes),
        crate::keyed_map::keys_unique(p.custom_configs),
    ensures
        ({
            let q = profile_rule_updated(p, id, rule);
            &&& q.hidden_class_ids == p.hidden_class_ids
            &&& q.active_class_id == p.active_class_id
            &&& q.global_keys == p.global_keys
            &&& forall|x: Seq<char>| x != id ==> keyed_get(q.classes, x) == keyed_get(p.classes, x)
            &&& forall|x: Seq<char>| x != id ==> keyed_get(q.custom_configs, x) == keyed_get(p.custom_configs, x)
            &&& match keyed_get(p.custom_configs, id) {
                Some(c) => keyed_get(q.custom_configs, id) == Some(CustomConfigView { effect_rule: rule, ..c })
                    && q.classes == p.classes,
                None => q.custom_configs == p.custom_configs && (keyed_get(q.classes, id) matches Some(k) && k.effect_rule
                    == rule && k.enabled_keys == (match keyed_get(p.classes, id) {
                    Some(old) => old.enabled_keys,
                    None => Seq::empty(),
                }) && k.combo_defs == (match keyed_get(p.classes, id) {
                    Some(old) => old.combo_defs,
                    None => Seq::empty(),
                })),
            }
        }),
{
    match keyed_get(p.custom_configs, id) {
        Some(c) => {
            crate::keyed_map::lemma_insert_keys(p.custom_configs, id, CustomConfigView { effect_rule: rule, ..c });
        },
        None => {
            crate::keyed_map::lemma_insert_keys(
                p.classes,
                id,
                ClassConfigView { effect_rule: rule, ..class_or_empty(p, id) },
            );
        },
    }
}

/// The bindings with every interval brought into range.
pub fn normalize_key_bindings(keys: Vec<KeyBinding>) -> (r: Vec<KeyBinding>)
    ensures
        r@ == normalized_keys(keys@),
{
    let mut keys = keys;
    normalize_keys(&mut keys);
    keys
}

/// Replaces the global keys by `keys`, brought into range.
pub fn update_global_keys(profiles: &mut ProfilesConfig, keys: Vec<KeyBinding>)
    ensures
        final(profiles)@ == (ProfilesConfigView { global_keys: normalized_keys(keys@), ..old(profiles)@ }),
        final(profiles).wf() == old(profiles).wf(),
{
    profiles.global_keys = normalize_key_bindings(keys);
}

/// Replaces the auto-run settings.
pub fn update_auto_run(profiles: &mut ProfilesConfig, auto_run: AutoRunConfig)
    ensures
        final(profiles)@ == (ProfilesConfigView { auto_run, ..old(profiles)@ }),
        final(profiles).wf() == old(profiles).wf(),
{
    profiles.auto_run = auto_run;
}

/// Replaces the value at an index found for `key` by the value `v`.
proof fn lemma_set_at_is_insert<V>(s: Seq<(Seq<char>, V)>, key: Seq<char>, i: int, v: V)
    requires
        crate::keyed_map::keys_unique(s),
        0 <= i < s.len(),
        s[i].0 == key,
    ensures
        s.update(i, (s[i].0, v)) == keyed_insert(s, key, v),
{
    lemma_key_index_unique(s, key, i);
}

/// Stores class profile `c` under `key` in the class map.
fn store_class(classes: &mut KeyedMap<ClassConfig>, key: &str, c: ClassConfig)
    requires
        old(classes).wf(),
    ensures
        final(classes).wf(),
        final(classes)@ == keyed_insert(old(classes)@, key@, c@),
{
    classes.insert(String::from_str(key), c);
}

fn empty_class_config() -> (r: ClassConfig)
    ensures
        r@ == empty_class(),
{
    let r = ClassConfig { enabled_keys: Vec::new(), effect_rule: EffectRule::default(), combo_defs: Vec::new() };
    assert(r@.combo_defs =~= Seq::<ComboDefinitionView>::empty());
    r
}

/// A copy of the class profile of `id`, or an empty one.
fn class_copy_or_empty(profiles: &ProfilesConfig, id: &str) -> (r: ClassConfig)
    requires
        profiles.wf(),
    ensures
        r@ == class_or_empty(profiles@, id@),
{
    match profiles.classes.get(id) {
        Some(c) => c.duplicate(),
        None => empty_class_config(),
    }
}

/// Whether a class profile holds a key or a combo.
pub fn class_config_has_data(config: &ClassConfig) -> (b: bool)
    ensures
        b == class_configured(config@),
{
    has_class_config(config)
}

/// Stores `c` under `id` and drops it again when it holds nothing.
fn store_class_dropping(profiles: &mut ProfilesConfig, id: &str, c: ClassConfig)
    requires
        old(profiles).wf(),
    ensures
        final(profiles).wf(),
        final(profiles)@ == store_class_dropping_empty(old(profiles)@, id@, c@),
{
    let keep = class_config_has_data(&c);
    store_class(&mut profiles.classes, id, c);
    if !keep {
        let _ = profiles.classes.remove(id);
    }
}

/// Gives profile `config_id` the keys `keys`, brought into range.
pub fn update_profile_keys(profiles: &mut ProfilesConfig, config_id: &str, keys: Vec<KeyBinding>)
    requires
        old(profiles).wf(),
    ensures
        final(profiles).wf(),
        final(profiles)@ == profile_keys_updated(old(profiles)@, config_id@, keys@),
{
    let keys = normalize_key_bindings(keys);
    match profiles.custom_configs.find(config_id) {
        Some(i) => {
            let mut c = profiles.custom_configs.value_at(i).duplicate();
            proof {
                lemma_key_index_unique(profiles.custom_configs@, config_id@, i as int);
            }
            c.enabled_keys = keys;
            proof {
                lemma_set_at_is_insert(profiles.custom_configs@, config_id@, i as int, c@);
            }
            profiles.custom_configs.set_value_at(i, c);
        },
        None => {
            let mut c = class_copy_or_empty(profiles, config_id);
            c.enabled_keys = keys;
            store_class_dropping(profiles, config_id, c);
        },
    }
}

/// Gives profile `config_id` the combos `combos`.
pub fn update_profile_combos(profiles: &mut ProfilesConfig, config_id: &str, combos: Vec<ComboDefinition>)
    requires
        old(profiles).wf(),
    ensures
        final(profiles).wf(),
        final(profiles)@ == profile_combos_updated(old(profiles)@, config_id@, seq_view(combos@)),
{
    match profiles.custom_configs.find(config_id) {
        Some(i) => {
            let mut c = profiles.custom_configs.value_at(i).duplicate();
            proof {
                lemma_key_index_unique(profiles.custom_configs@, config_id@, i as int);
            }
            c.combo_defs = combos;
            proof {
                lemma_set_at_is_insert(profiles.custom_configs@, config_id@, i as int, c@);
            }
            profiles.custom_configs.set_value_at(i, c);
        },
        None => {
            let mut c = class_copy_or_empty(profiles, config_id);
            c.combo_defs = combos;
            store_class_dropping(profiles, config_id, c);
        },
    }
}

/// Gives profile `config_id` the effect rule `effect_rule`.
pub fn update_profile_effect_rule(profiles: &mut ProfilesConfig, config_id: &str, effect_rule: EffectRule)
    requires
        old(profiles).wf(),
    ensures
        final(profiles).wf(),
        final(profiles)@ == profile_rule_updated(old(profiles)@, config_id@, effect_rule),
{
    match profiles.custom_configs.find(config_id) {
        Some(i) => {
            let mut c = profiles.custom_configs.value_at(i).duplicate();
            proof {
                lemma_key_index_unique(profiles.custom_configs@, config_id@, i as int);
            }
            c.effect_rule = effect_rule;
            proof {
                lemma_set_at_is_insert(profiles.custom_configs@, config_id@, i as int, c@);
            }
            profiles.custom_configs.set_value_at(i, c);
        },
        None => {
            let mut c = class_copy_or_empty(profiles, config_id);
            c.effect_rule = effect_rule;
            store_class(&mut profiles.classes, config_id, c);
        },
    }
}

/// The custom profile leaves; it stops being active if it was.
pub open spec fn custom_deleted(p: ProfilesConfigView, id: Seq<char>) -> ProfilesConfigView {
    ProfilesConfigView {
        custom_configs: keyed_remove(p.custom_configs, id),
        active_class_id: if p.active_class_id == Some(id) {
            None
        } else {
            p.active_class_id
        },
        ..p
    }
}

/// Deleting takes exactly that custom profile away: class profiles cannot be deleted
/// and stay as they were, as do the other custom profiles.
pub proof fn lemma_delete_custom_removes_only_it(p: ProfilesConfigView, id: Seq<char>)
    requires
        crate::keyed_map::keys_unique(p.custom_configs),
    ensures
        keyed_get(custom_deleted(p, id).custom_configs, id) is None,
        forall|x: Seq<char>|
            x != id ==> keyed_get(custom_deleted(p, id).custom_configs, x) == keyed_get(
                p.custom_configs,
                x,
            ),
        custom_deleted(p, id).classes == p.classes,
        custom_deleted(p, id).active_class_id != Some(id),
{
    crate::keyed_map::lemma_remove_keys(p.custom_configs, id);
}

pub fn delete_custom_config(profiles: &mut ProfilesConfig, config_id: &str)
    requires
        old(profiles).wf(),
    ensures
        final(profiles).wf(),
        final(profiles)@ == custom_deleted(old(profiles)@, config_id@),
{
    let _ = profiles.custom_configs.remove(config_id);
    let is_active = match &profiles.active_class_id {
        Some(a) => text_eq(a.as_str(), config_id),
        None => false,
    };
    if is_active {
        profiles.active_class_id = None;
    }
}

/// A class with something configured is left as it is; otherwise
/// its id leaves the hidden list and, when hiding, goes back at its end.
pub open spec fn class_hidden_set(p: ProfilesConfigView, id: Seq<char>, hidden: bool) -> ProfilesConfigView {
    if keyed_get(p.classes, id) matches Some(c) && class_configured(c) {
        p
    } else {
        let kept = p.hidden_class_ids.filter(|x: Seq<char>| x != id);
        ProfilesConfigView {
            hidden_class_ids: if hidden {
                kept.push(id)
            } else {
                kept
            },
            ..p
        }
    }
}

pub fn set_class_hidden(profiles: &mut ProfilesConfig, class_id: &str, hidden: bool)
    requires
        old(profiles).wf(),
    ensures
        final(profiles).wf(),
        final(profiles)@ == class_hidden_set(old(profiles)@, class_id@, hidden),
{
    let configured = match profiles.classes.get(class_id) {
        Some(c) => class_config_has_data(c),
        None => false,
    };
    if configured {
        return;
    }
    let ghost ids = texts_view(profiles.hidden_class_ids@);
    let mut kept: Vec<String> = Vec::new();
    let mut i: usize = 0;
    while i < profiles.hidden_class_ids.len()
        invariant
            i <= profiles.hidden_class_ids@.len(),
            ids == texts_view(profiles.hidden_class_ids@),
            texts_view(kept@) == ids.take(i as int).filter(|x: Seq<char>| x != class_id@),
        decreases profiles.hidden_class_ids.len() - i,
    {
        let ghost before = kept@;
        let item = &profiles.hidden_class_ids[i];
        if !text_eq(item.as_str(), class_id) {
            kept.push(item.clone());
        }
        proof {
            assert(ids.take(i + 1) == ids.take(i as int).push(ids[i as int]));
            ids.take(i as int).lemma_filter_push(ids[i as int], |x: Seq<char>| x != class_id@);
            assert(ids[i as int] == item@);
            if item@ != class_id@ {
                assert(texts_view(kept@) =~= texts_view(before).push(item@));
            } else {
                assert(texts_view(kept@) =~= texts_view(before));
            }
        }
        i = i + 1;
    }
    assert(ids.take(ids.len() as int) =~= ids);
    if hidden {
        let ghost before = kept@;
        kept.push(String::from_str(class_id));
        assert(texts_view(kept@) =~= texts_view(before).push(class_id@));
    }
    profiles.hidden_class_ids = kept;
}

/// `custom-<n>`.
pub open spec fn custom_id(n: nat) -> Seq<char> {
    "custom-"@ + decimal_text(n)
}

/// The first `custom-<n>` with `n` from `n` on that is not a custom profile's id, looking
/// no further than twice the number of custom profiles.
pub open spec fn free_custom_index_from(customs: Seq<(Seq<char>, CustomConfigView)>, n: nat) -> nat
    decreases 2 * customs.len() + 2 - n,
{
    if n >= 2 * customs.len() + 2 || !has_key(customs, custom_id(n)) {
        n
    } else {
        free_custom_index_from(customs, n + 1)
    }
}

/// The first free `custom-<n>`, counting from one more than
/// the number of custom profiles.
pub open spec fn next_custom_id(p: ProfilesConfigView) -> Seq<char> {
    custom_id(free_custom_index_from(p.custom_configs, p.custom_configs.len() + 1))
}

proof fn lemma_custom_id_injective(a: nat, b: nat)
    requires
        custom_id(a) == custom_id(b),
    ensures
        a == b,
{
    let pre = "custom-"@;
    assert(decimal_text(a) =~= custom_id(a).skip(pre.len() as int));
    assert(decimal_text(b) =~= custom_id(b).skip(pre.len() as int));
    crate::text::lemma_decimal_text_injective(a, b);
}

/// The id `add_custom_config` gives a new profile is no custom profile's id: among the
/// numbers it tries there are more than there are custom profiles.
pub proof fn lemma_next_custom_id_is_free(p: ProfilesConfigView)
    requires
        crate::keyed_map::keys_unique(p.custom_configs),
    ensures
        !has_key(p.custom_configs, next_custom_id(p)),
{
    let customs = p.custom_configs;
    let len = customs.len();
    let lo = (len + 1) as nat;
    if has_key(customs, next_custom_id(p)) {
        // Then every number tried is taken: a free one would have been found.
        assert forall|i: nat| lo <= i < 2 * len + 2 implies has_key(customs, #[trigger] custom_id(i)) by {
            if !has_key(customs, custom_id(i)) {
                lemma_first_free_at_most(customs, lo, i);
            }
        }
        let x = vstd::set_lib::set_int_range(lo as int, (2 * len + 2) as int);
        let f = |n: int| crate::keyed_map::key_index(customs, custom_id(n as nat));
        vstd::set_lib::lemma_int_range(lo as int, (2 * len + 2) as int);
        assert(vstd::relations::injective_on(f, x)) by {
            assert forall|a: int, b: int| x.contains(a) && x.contains(b) && #[trigger] f(a) == #[trigger] f(b) implies a == b by {
                assert(has_key(customs, custom_id(a as nat)));
                assert(has_key(customs, custom_id(b as nat)));
                assert(customs[f(a)].0 == custom_id(a as nat));
                assert(customs[f(b)].0 == custom_id(b as nat));
                lemma_custom_id_injective(a as nat, b as nat);
            }
        }
        let y = x.map(f);
        vstd::set_lib::lemma_map_size(x, y, f);
        vstd::set_lib::lemma_int_range(0, len as int);
        assert(y.subset_of(vstd::set_lib::set_int_range(0, len as int))) by {
            assert forall|k: int| y.contains(k) implies vstd::set_lib::set_int_range(0, len as int).contains(k) by {
                let a = choose|a: int| x.contains(a) && f(a) == k;
                assert(has_key(customs, custom_id(a as nat)));
            }
        }
        vstd::set_lib::lemma_len_subset(y, vstd::set_lib::set_int_range(0, len as int));
        assert(false);
    }
}

/// Adding a custom profile creates one: the custom profiles gain exactly one entry, the
/// new profile under an id none had, and every other profile stays as it was.
pub proof fn lemma_add_custom_creates(p: ProfilesConfigView, name: Seq<char>)
    requires
        crate::keyed_map::keys_unique(p.custom_configs),
    ensures
        !has_key(p.custom_configs, next_custom_id(p)),
        custom_added(p, name).custom_configs.len() == p.custom_configs.len() + 1,
        keyed_get(custom_added(p, name).custom_configs, next_custom_id(p)) == Some(
            CustomConfigView {
                name: trimmed(name),
                enabled_keys: Seq::empty(),
                effect_rule: EffectRule::GlobalAndClass,
                combo_defs: Seq::empty(),
            },
        ),
        forall|x: Seq<char>|
            x != next_custom_id(p) ==> keyed_get(custom_added(p, name).custom_configs, x)
                == keyed_get(p.custom_configs, x),
        custom_added(p, name).classes == p.classes,
        custom_added(p, name).active_class_id == p.active_class_id,
{
    lemma_next_custom_id_is_free(p);
    crate::keyed_map::lemma_insert_keys(
        p.custom_configs,
        next_custom_id(p),
        CustomConfigView {
            name: trimmed(name),
            enabled_keys: Seq::empty(),
            effect_rule: EffectRule::GlobalAndClass,
            combo_defs: Seq::empty(),
        },
    );
}

proof fn lemma_first_free_at_most(customs: Seq<(Seq<char>, CustomConfigView)>, n: nat, i: nat)
    requires
        n <= i < 2 * customs.len() + 2,
        !has_key(customs, custom_id(i)),
    ensures
        free_custom_index_from(customs, n) <= i,
        !has_key(customs, custom_id(free_custom_index_from(customs, n))),
    decreases i - n,
{
    if n < i && has_key(customs, custom_id(n)) {
        lemma_first_free_at_most(customs, n + 1, i);
    }
}

proof fn lemma_free_index_skips_taken(customs: Seq<(Seq<char>, CustomConfigView)>, n: nat)
    ensures
        free_custom_index_from(customs, n) >= n,
        forall|k: nat| n <= k < free_custom_index_from(customs, n) ==> has_key(customs, #[trigger] custom_id(k)),
    decreases 2 * customs.len() + 2 - n,
{
    if !(n >= 2 * customs.len() + 2 || !has_key(customs, custom_id(n))) {
        lemma_free_index_skips_taken(customs, n + 1);
        assert forall|k: nat| n <= k < free_custom_index_from(customs, n) implies has_key(
            customs,
            #[trigger] custom_id(k),
        ) by {
            if k > n {
            }
        }
    }
}

/// The id a new custom profile gets is `custom-<n>` for the least `n`, counting from one
/// more than the number of custom profiles, that no custom profile uses yet.
pub proof fn lemma_next_custom_id_least(p: ProfilesConfigView)
    requires
        crate::keyed_map::keys_unique(p.custom_configs),
    ensures
        exists|n: nat|
            #![trigger custom_id(n)]
            n >= p.custom_configs.len() + 1 && next_custom_id(p) == custom_id(n) && !has_key(
                p.custom_configs,
                custom_id(n),
            ) && forall|k: nat|
                p.custom_configs.len() + 1 <= k < n ==> has_key(p.custom_configs, #[trigger] custom_id(k)),
{
    let lo = (p.custom_configs.len() + 1) as nat;
    let n = free_custom_index_from(p.custom_configs, lo);
    lemma_free_index_skips_taken(p.custom_configs, lo);
    lemma_next_custom_id_is_free(p);
    assert(next_custom_id(p) == custom_id(n));
}

fn custom_id_text(n: usize) -> (r: String)
    ensures
        r@ == custom_id(n as nat),
{
    let mut s = String::from_str("custom-");
    push_decimal(&mut s, n);
    s
}

pub fn next_custom_config_id(profiles: &ProfilesConfig) -> (r: String)
    requires
        profiles.custom_configs@.len() < usize::MAX / 4,
    ensures
        r@ == next_custom_id(profiles@),
{
    let len = profiles.custom_configs.len();
    let mut index: usize = len + 1;
    while index < 2 * len + 2 && profiles.custom_configs.contains_key(custom_id_text(index).as_str())
        invariant
            len == profiles.custom_configs@.len(),
            len < usize::MAX / 4,
            len + 1 <= index <= 2 * len + 2,
            free_custom_index_from(profiles.custom_configs@, (len + 1) as nat)
                == free_custom_index_from(profiles.custom_configs@, index as nat),
        decreases 2 * len + 2 - index,
    {
        index = index + 1;
    }
    custom_id_text(index)
}

/// A blank name is refused; otherwise a profile with the trimmed
/// name and nothing else is added under the next free id.
pub open spec fn custom_added(p: ProfilesConfigView, name: Seq<char>) -> ProfilesConfigView {
    with_customs(
        p,
        keyed_insert(
            p.custom_configs,
            next_custom_id(p),
            CustomConfigView {
                name: trimmed(name),
                enabled_keys: Seq::empty(),
                effect_rule: EffectRule::GlobalAndClass,
                combo_defs: Seq::empty(),
            },
        ),
    )
}

pub fn add_custom_config(profiles: &mut ProfilesConfig, name: &str) -> (r: AppResult<()>)
    requires
        old(profiles).wf(),
        old(profiles)@.custom_configs.len() < usize::MAX / 4,
    ensures
        final(profiles).wf(),
        r is Ok <==> !is_blank(name@),
        r is Ok ==> final(profiles)@ == custom_added(old(profiles)@, name@),
        r matches Err(e) ==> e.kind == AppErrorKind::Validation && e.message@ == msg_custom_name_blank()
            && final(profiles)@ == old(profiles)@,
{
    if text_is_blank(name) {
        return Err(AppError::validation(String::from_str("自定义配置名称不能为空")));
    }
    let trimmed_name = trim_text(name);
    let config_id = next_custom_config_id(profiles);
    let c = CustomConfig {
        name: trimmed_name,
        enabled_keys: Vec::new(),
        effect_rule: EffectRule::default(),
        combo_defs: Vec::new(),
    };
    assert(c@.combo_defs =~= Seq::<ComboDefinitionView>::empty());
    profiles.custom_configs.insert(config_id, c);
    Ok(())
}

/// The auto-fire entries of key bindings, one per binding, in order.
pub fn to_fire_key_configs(keys: &Vec<KeyBinding>) -> (r: Vec<crate::engines::autofire::FireKeyConfig>)
    ensures
        r@.len() == keys@.len(),
        forall|i: int|
            0 <= i < keys@.len() ==> #[trigger] r@[i] == (crate::engines::autofire::FireKeyConfig {
                vk: keys@[i].vk,
                interval_ms: keys@[i].interval_ms,
                mode: keys@[i].mode,
            }),
{
    let mut r: Vec<crate::engines::autofire::FireKeyConfig> = Vec::new();
    let mut i: usize = 0;
    while i < keys.len()
        invariant
            i <= keys@.len(),
            r@.len() == i,
            forall|j: int|
                0 <= j < i ==> #[trigger] r@[j] == (crate::engines::autofire::FireKeyConfig {
                    vk: keys@[j].vk,
                    interval_ms: keys@[j].interval_ms,
                    mode: keys@[j].mode,
                }),
        decreases keys.len() - i,
    {
        let k = keys[i];
        r.push(crate::engines::autofire::FireKeyConfig { vk: k.vk, interval_ms: k.interval_ms, mode: k.mode });
        i = i + 1;
    }
    r
}

/// A new auto-fire key: hold mode at the default interval.
pub open spec fn default_autofire_key(vk: u16) -> KeyBinding {
    KeyBinding { vk, interval_ms: DEFAULT_INTERVAL_MS, mode: FireKeyMode::Hold }
}

/// The global keys with one more key.
pub open spec fn with_global_key(p: ProfilesConfigView, vk: u16) -> ProfilesConfigView {
    ProfilesConfigView { global_keys: p.global_keys.push(default_autofire_key(vk)), ..p }
}

/// The first candidate key, from the `i`-th on, whose addition to the global keys
/// leaves the profiles valid.
pub open spec fn first_global_candidate(p: ProfilesConfigView, i: nat) -> Option<u16>
    decreases autofire_key_candidates().len() - i,
{
    if i >= autofire_key_candidates().len() {
        None
    } else {
        let vk = autofire_key_candidates()[i as int];
        if profiles_error(with_global_key(p, vk)) is None {
            Some(vk)
        } else {
            first_global_candidate(p, i + 1)
        }
    }
}

/// The first candidate key that keeps the profiles valid joins the
/// global keys; with none, the profiles stay as they are.
pub fn add_global_key(profiles: &mut ProfilesConfig) -> (r: AppResult<()>)
    requires
        old(profiles).wf(),
    ensures
        final(profiles).wf(),
        match first_global_candidate(old(profiles)@, 0) {
            Some(vk) => r is Ok && final(profiles)@ == with_global_key(old(profiles)@, vk),
            None => r matches Err(e) && e.kind == AppErrorKind::Validation && e.message@
                == msg_no_candidate_key() && final(profiles)@ == old(profiles)@,
        },
{
    let candidates = autofire_key_candidate_vks();
    let mut i: usize = 0;
    while i < candidates.len()
        invariant
            profiles.wf(),
            *profiles == *old(profiles),
            candidates@ == autofire_key_candidates(),
            i <= candidates@.len(),
            first_global_candidate(profiles@, 0) == first_global_candidate(profiles@, i as nat),
        decreases candidates.len() - i,
    {
        let vk = candidates[i];
        let mut candidate = profiles.duplicate();
        candidate.global_keys.push(KeyBinding { vk, interval_ms: DEFAULT_INTERVAL_MS, mode: FireKeyMode::Hold });
        assert(candidate@ == with_global_key(profiles@, vk));
        if validate_profiles_config(&candidate).is_ok() {
            profiles.global_keys = candidate.global_keys;
            return Ok(());
        }
        i = i + 1;
    }
    Err(AppError::validation(String::from_str("没有可用的连发按键。")))
}

/// The profile of `id` with one more key: the custom profile of that id, else the class
/// profile of that id, created when missing.
pub open spec fn with_profile_key(p: ProfilesConfigView, id: Seq<char>, vk: u16) -> ProfilesConfigView {
    match keyed_get(p.custom_configs, id) {
        Some(c) => with_customs(
            p,
            keyed_insert(p.custom_configs, id, CustomConfigView { enabled_keys: c.enabled_keys.push(default_autofire_key(vk)), ..c }),
        ),
        None => {
            let c = class_or_empty(p, id);
            with_classes(p, keyed_insert(p.classes, id, ClassConfigView { enabled_keys: c.enabled_keys.push(default_autofire_key(vk)), ..c }))
        },
    }
}

/// The keys of `id` in `source` become its keys in `p` (for a
/// custom profile only when `p` has it; a class profile is created when missing).
pub open spec fn profile_keys_replaced(p: ProfilesConfigView, id: Seq<char>, source: ProfilesConfigView) -> ProfilesConfigView {
    match keyed_get(source.custom_configs, id) {
        Some(sc) => match keyed_get(p.custom_configs, id) {
            Some(c) => with_customs(p, keyed_insert(p.custom_configs, id, CustomConfigView { enabled_keys: sc.enabled_keys, ..c })),
            None => p,
        },
        None => match keyed_get(source.classes, id) {
            Some(sc) => with_classes(
                p,
                keyed_insert(p.classes, id, ClassConfigView { enabled_keys: sc.enabled_keys, ..class_or_empty(p, id) }),
            ),
            None => p,
        },
    }
}

/// The first candidate key, from the `i`-th on, whose addition to profile `id` leaves
/// the profiles valid.
pub open spec fn first_profile_candidate(p: ProfilesConfigView, id: Seq<char>, i: nat) -> Option<u16>
    decreases autofire_key_candidates().len() - i,
{
    if i >= autofire_key_candidates().len() {
        None
    } else {
        let vk = autofire_key_candidates()[i as int];
        if profiles_error(with_profile_key(p, id, vk)) is None {
            Some(vk)
        } else {
            first_profile_candidate(p, id, i + 1)
        }
    }
}

/// Appends a key to the keys of profile `id`.
fn push_profile_key(profiles: &mut ProfilesConfig, config_id: &str, key: KeyBinding)
    requires
        old(profiles).wf(),
        key == default_autofire_key(key.vk),
    ensures
        final(profiles).wf(),
        final(profiles)@ == with_profile_key(old(profiles)@, config_id@, key.vk),
{
    match profiles.custom_configs.find(config_id) {
        Some(i) => {
            let mut c = profiles.custom_configs.value_at(i).duplicate();
            proof {
                lemma_key_index_unique(profiles.custom_configs@, config_id@, i as int);
            }
            c.enabled_keys.push(key);
            proof {
                lemma_set_at_is_insert(profiles.custom_configs@, config_id@, i as int, c@);
            }
            profiles.custom_configs.set_value_at(i, c);
        },
        None => {
            let mut c = class_copy_or_empty(profiles, config_id);
            c.enabled_keys.push(key);
            store_class(&mut profiles.classes, config_id, c);
        },
    }
}

/// Gives profile `id` of `p` the keys it has in `source`.
fn replace_profile_keys(profiles: &mut ProfilesConfig, config_id: &str, source: &ProfilesConfig)
    requires
        old(profiles).wf(),
        source.wf(),
    ensures
        final(profiles).wf(),
        final(profiles)@ == profile_keys_replaced(old(profiles)@, config_id@, source@),
{
    if let Some(sc) = source.custom_configs.get(config_id) {
        if let Some(i) = profiles.custom_configs.find(config_id) {
            let mut c = profiles.custom_configs.value_at(i).duplicate();
            proof {
                lemma_key_index_unique(profiles.custom_configs@, config_id@, i as int);
            }
            c.enabled_keys = sc.enabled_keys.clone();
            proof {
                lemma_set_at_is_insert(profiles.custom_configs@, config_id@, i as int, c@);
            }
            profiles.custom_configs.set_value_at(i, c);
        }
        return;
    }
    if let Some(sc) = source.classes.get(config_id) {
        let mut c = class_copy_or_empty(profiles, config_id);
        c.enabled_keys = sc.enabled_keys.clone();
        store_class(&mut profiles.classes, config_id, c);
    }
}

/// The first candidate key that keeps the profiles valid joins
/// profile `id`; with none, the profiles stay as they are.
pub fn add_profile_key(profiles: &mut ProfilesConfig, config_id: &str) -> (r: AppResult<()>)
    requires
        old(profiles).wf(),
    ensures
        final(profiles).wf(),
        match first_profile_candidate(old(profiles)@, config_id@, 0) {
            Some(vk) => r is Ok && final(profiles)@ == profile_keys_replaced(
                old(profiles)@,
                config_id@,
                with_profile_key(old(profiles)@, config_id@, vk),
            ),
            None => r matches Err(e) && e.kind == AppErrorKind::Validation && e.message@
                == msg_no_candidate_key() && final(profiles)@ == old(profiles)@,
        },
{
    let candidates = autofire_key_candidate_vks();
    let mut i: usize = 0;
    while i < candidates.len()
        invariant
            profiles.wf(),
            *profiles == *old(profiles),
            candidates@ == autofire_key_candidates(),
            i <= candidates@.len(),
            first_profile_candidate(profiles@, config_id@, 0) == first_profile_candidate(profiles@, config_id@, i as nat),
        decreases candidates.len() - i,
    {
        let vk = candidates[i];
        let mut candidate = profiles.duplicate();
        push_profile_key(&mut candidate, config_id, KeyBinding { vk, interval_ms: DEFAULT_INTERVAL_MS, mode: FireKeyMode::Hold });
        if validate_profiles_config(&candidate).is_ok() {
            replace_profile_keys(profiles, config_id, &candidate);
            return Ok(());
        }
        i = i + 1;
    }
    Err(AppError::validation(String::from_str("没有可用的连发按键。")))
}

} // verus!
