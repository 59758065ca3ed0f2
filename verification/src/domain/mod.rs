//! Business rules on profiles: which keys and combos are in effect for the active
//! profile, and how profiles are shown.


use crate::config::schema::{
    seq_view, ClassConfig, ComboDefinition, ComboDefinitionView, CustomConfig,
    EffectRule, KeyBinding, ProfilesConfig, ProfilesConfigView,
};
use crate::keyed_map::{keyed_get, Duplicate};
use vstd::prelude::*;

pub mod classes;
pub mod display;

verus! {

// ---------------------------------------------------------------------------
// Keeping one binding per virtual key
// ---------------------------------------------------------------------------
/// Whether some binding in `d` has virtual key `vk`.
pub open spec fn has_binding(d: Seq<KeyBinding>, vk: u16) -> bool {
    exists|i: int| 0 <= i < d.len() && (#[trigger] d[i]).vk == vk
}

/// The position of the binding of `vk` in `d`.
pub open spec fn binding_pos(d: Seq<KeyBinding>, vk: u16) -> int {
    choose|i: int| 0 <= i < d.len() && (#[trigger] d[i]).vk == vk
}

/// No virtual key has two bindings.
pub open spec fn vks_unique(d: Seq<KeyBinding>) -> bool {
    forall|i: int, j: int| 0 <= i < d.len() && 0 <= j < d.len() && i != j ==> d[i].vk != d[j].vk
}

/// A later binding of a key already present replaces it in place; a new key goes last.
pub open spec fn dedupe_step(d: Seq<KeyBinding>, k: KeyBinding) -> Seq<KeyBinding> {
    if has_binding(d, k.vk) {
        d.update(binding_pos(d, k.vk), k)
    } else {
        d.push(k)
    }
}

pub open spec fn dedupe_upto(keys: Seq<KeyBinding>, n: nat) -> Seq<KeyBinding>
    decreases n,
{
    if n == 0 {
        Seq::empty()
    } else {
        dedupe_step(dedupe_upto(keys, (n - 1) as nat), keys[n - 1])
    }
}

/// One binding per virtual key: the last one given, at the place of the first.
pub open spec fn dedupe_keys(keys: Seq<KeyBinding>) -> Seq<KeyBinding> {
    dedupe_upto(keys, keys.len())
}

/// The last binding of `vk` among the first `n`.
pub open spec fn last_binding_upto(keys: Seq<KeyBinding>, vk: u16, n: nat) -> Option<KeyBinding>
    decreases n,
{
    if n == 0 {
        None
    } else if keys[n - 1].vk == vk {
        Some(keys[n - 1])
    } else {
        last_binding_upto(keys, vk, (n - 1) as nat)
    }
}

pub proof fn lemma_binding_pos_unique(d: Seq<KeyBinding>, vk: u16, j: int)
    requires
        vks_unique(d),
        0 <= j < d.len(),
        d[j].vk == vk,
    ensures
        has_binding(d, vk),
        binding_pos(d, vk) == j,
{
    assert(d[j].vk == vk);
}

/// After the first `n` bindings: each key once, exactly the keys seen so far, and each
/// holding the last binding given for it.
pub proof fn lemma_dedupe_upto(keys: Seq<KeyBinding>, n: nat)
    requires
        n <= keys.len(),
    ensures
        vks_unique(dedupe_upto(keys, n)),
        forall|vk: u16|
            has_binding(dedupe_upto(keys, n), vk) <==> has_binding(keys.take(n as int), vk),
        forall|i: int|
            0 <= i < dedupe_upto(keys, n).len() ==> last_binding_upto(
                keys,
                (#[trigger] dedupe_upto(keys, n)[i]).vk,
                n,
            ) == Some(dedupe_upto(keys, n)[i]),
    decreases n,
{
    if n > 0 {
        let m = (n - 1) as nat;
        lemma_dedupe_upto(keys, m);
        let d = dedupe_upto(keys, m);
        let k = keys[m as int];
        let r = dedupe_upto(keys, n);
        assert(r == dedupe_step(d, k));
        assert(keys.take(n as int) == keys.take(m as int).push(k));
        if has_binding(d, k.vk) {
            let p = binding_pos(d, k.vk);
            assert(r == d.update(p, k));
            assert forall|i: int, j: int|
                0 <= i < r.len() && 0 <= j < r.len() && i != j implies r[i].vk != r[j].vk by {
                if i != p && j != p {
                    assert(r[i] == d[i] && r[j] == d[j]);
                }
            }
            assert forall|vk: u16| has_binding(r, vk) <==> has_binding(keys.take(n as int), vk) by {
                if has_binding(r, vk) {
                    let i = choose|i: int| 0 <= i < r.len() && (#[trigger] r[i]).vk == vk;
                    if i == p {
                        assert(keys.take(n as int)[m as int].vk == vk);
                    } else {
                        assert(d[i].vk == vk);
                        assert(has_binding(d, vk));
                        let j = choose|j: int|
                            0 <= j < m && (#[trigger] keys.take(m as int)[j]).vk == vk;
                        assert(keys.take(n as int)[j].vk == vk);
                    }
                }
                if has_binding(keys.take(n as int), vk) {
                    let j = choose|j: int|
                        0 <= j < n && (#[trigger] keys.take(n as int)[j]).vk == vk;
                    if j == m {
                        assert(r[p].vk == vk);
                    } else {
                        assert(keys.take(m as int)[j].vk == vk);
                        assert(has_binding(d, vk));
                        let i = choose|i: int| 0 <= i < d.len() && (#[trigger] d[i]).vk == vk;
                        assert(r[i].vk == vk);
                    }
                }
            }
            assert forall|i: int| 0 <= i < r.len() implies last_binding_upto(
                keys,
                (#[trigger] r[i]).vk,
                n,
            ) == Some(r[i]) by {
                if i != p {
                    assert(r[i] == d[i]);
                    assert(d[i].vk != d[p].vk);
                }
            }
        } else {
            assert(r == d.push(k));
            assert forall|i: int, j: int|
                0 <= i < r.len() && 0 <= j < r.len() && i != j implies r[i].vk != r[j].vk by {
                if i < d.len() && j < d.len() {
                    assert(r[i] == d[i] && r[j] == d[j]);
                } else if i < d.len() {
                    assert(r[i] == d[i]);
                } else {
                    assert(r[j] == d[j]);
                }
            }
            assert forall|vk: u16| has_binding(r, vk) <==> has_binding(keys.take(n as int), vk) by {
                if has_binding(r, vk) {
                    let i = choose|i: int| 0 <= i < r.len() && (#[trigger] r[i]).vk == vk;
                    if i == d.len() {
                        assert(keys.take(n as int)[m as int].vk == vk);
                    } else {
                        assert(d[i].vk == vk);
                        assert(has_binding(d, vk));
                        let j = choose|j: int|
                            0 <= j < m && (#[trigger] keys.take(m as int)[j]).vk == vk;
                        assert(keys.take(n as int)[j].vk == vk);
                    }
                }
                if has_binding(keys.take(n as int), vk) {
                    let j = choose|j: int|
                        0 <= j < n && (#[trigger] keys.take(n as int)[j]).vk == vk;
                    if j == m {
                        assert(r[d.len() as int].vk == vk);
                    } else {
                        assert(keys.take(m as int)[j].vk == vk);
                        assert(has_binding(d, vk));
                        let i = choose|i: int| 0 <= i < d.len() && (#[trigger] d[i]).vk == vk;
                        assert(r[i].vk == vk);
                    }
                }
            }
            assert forall|i: int| 0 <= i < r.len() implies last_binding_upto(
                keys,
                (#[trigger] r[i]).vk,
                n,
            ) == Some(r[i]) by {
                if i < d.len() {
                    assert(r[i] == d[i]);
                    if d[i].vk == k.vk {
                        assert(has_binding(d, k.vk));
                    }
                }
            }
        }
    }
}

/// The deduplicated list holds each virtual key of the input once, no other key, and
/// for each the last binding given.
pub proof fn lemma_dedupe_keys(keys: Seq<KeyBinding>)
    ensures
        vks_unique(dedupe_keys(keys)),
        forall|vk: u16| has_binding(dedupe_keys(keys), vk) <==> has_binding(keys, vk),
        forall|i: int|
            0 <= i < dedupe_keys(keys).len() ==> last_binding_upto(
                keys,
                (#[trigger] dedupe_keys(keys)[i]).vk,
                keys.len(),
            ) == Some(dedupe_keys(keys)[i]),
{
    lemma_dedupe_upto(keys, keys.len());
    assert(keys.take(keys.len() as int) =~= keys);
}

/// One binding per virtual key, the last one given, at the place of the first.
pub fn dedupe_keys_prefer_last(keys: &Vec<KeyBinding>) -> (r: Vec<KeyBinding>)
    ensures
        r@ == dedupe_keys(keys@),
{
    let mut deduped: Vec<KeyBinding> = Vec::new();
    let mut i: usize = 0;
    while i < keys.len()
        invariant
            i <= keys@.len(),
            deduped@ == dedupe_upto(keys@, i as nat),
        decreases keys.len() - i,
    {
        proof {
            lemma_dedupe_upto(keys@, i as nat);
        }
        let key = keys[i];
        let mut j: usize = 0;
        let mut found = false;
        while j < deduped.len()
            invariant_except_break
                !found,
            invariant
                j <= deduped@.len(),
                forall|t: int| 0 <= t < j ==> deduped@[t].vk != key.vk,
            ensures
                found ==> j < deduped@.len() && deduped@[j as int].vk == key.vk,
                !found ==> forall|t: int| 0 <= t < deduped@.len() ==> deduped@[t].vk != key.vk,
            decreases deduped.len() - j,
        {
            if deduped[j].vk == key.vk {
                found = true;
                break;
            }
            j = j + 1;
        }
        if found {
            proof {
                lemma_binding_pos_unique(deduped@, key.vk, j as int);
            }
            deduped[j] = key;
        } else {
            deduped.push(key);
        }
        i = i + 1;
    }
    assert(dedupe_keys(keys@) == dedupe_upto(keys@, keys@.len()));
    deduped
}

// ---------------------------------------------------------------------------
// The profile a profile id names
// ---------------------------------------------------------------------------
/// What the effective-profile rules read of a class or custom profile.
pub struct ProfileModel {
    pub enabled_keys: Seq<KeyBinding>,
    pub effect_rule: EffectRule,
    pub combo_defs: Seq<ComboDefinitionView>,
}

/// A custom profile of that id, else a class profile of that id.
pub open spec fn profile_model(p: ProfilesConfigView, id: Seq<char>) -> Option<ProfileModel> {
    match keyed_get(p.custom_configs, id) {
        Some(c) => Some(
            ProfileModel {
                enabled_keys: c.enabled_keys,
                effect_rule: c.effect_rule,
                combo_defs: c.combo_defs,
            },
        ),
        None => match keyed_get(p.classes, id) {
            Some(c) => Some(
                ProfileModel {
                    enabled_keys: c.enabled_keys,
                    effect_rule: c.effect_rule,
                    combo_defs: c.combo_defs,
                },
            ),
            None => None,
        },
    }
}

/// A class or custom profile held by reference.
pub enum ProfileConfigRef<'a> {
    Class(&'a ClassConfig),
    Custom(&'a CustomConfig),
}

impl<'a> ProfileConfigRef<'a> {
    pub open spec fn model(&self) -> ProfileModel {
        match self {
            ProfileConfigRef::Class(c) => ProfileModel {
                enabled_keys: c.enabled_keys@,
                effect_rule: c.effect_rule,
                combo_defs: seq_view(c.combo_defs@),
            },
            ProfileConfigRef::Custom(c) => ProfileModel {
                enabled_keys: c.enabled_keys@,
                effect_rule: c.effect_rule,
                combo_defs: seq_view(c.combo_defs@),
            },
        }
    }

    pub fn enabled_keys(&self) -> (r: &'a Vec<KeyBinding>)
        ensures
            r@ == self.model().enabled_keys,
    {
        match self {
            ProfileConfigRef::Class(c) => &c.enabled_keys,
            ProfileConfigRef::Custom(c) => &c.enabled_keys,
        }
    }

    pub fn effect_rule(&self) -> (r: EffectRule)
        ensures
            r == self.model().effect_rule,
    {
        match self {
            ProfileConfigRef::Class(c) => c.effect_rule,
            ProfileConfigRef::Custom(c) => c.effect_rule,
        }
    }

    pub fn combo_defs(&self) -> (r: &'a Vec<ComboDefinition>)
        ensures
            seq_view(r@) == self.model().combo_defs,
    {
        match self {
            ProfileConfigRef::Class(c) => &c.combo_defs,
            ProfileConfigRef::Custom(c) => &c.combo_defs,
        }
    }
}

/// The custom profile of that id, else the class profile of that id.
pub fn profile_config<'a>(profiles: &'a ProfilesConfig, profile_id: &str) -> (r: Option<
    ProfileConfigRef<'a>,
>)
    requires
        profiles.wf(),
    ensures
        match r {
            Some(c) => profile_model(profiles@, profile_id@) == Some(c.model()),
            None => profile_model(profiles@, profile_id@) is None,
        },
{
    if let Some(custom_config) = profiles.custom_configs.get(profile_id) {
        return Some(ProfileConfigRef::Custom(custom_config));
    }
    match profiles.classes.get(profile_id) {
        Some(class_config) => Some(ProfileConfigRef::Class(class_config)),
        None => None,
    }
}

// ---------------------------------------------------------------------------
// Effective keys and combos
// ---------------------------------------------------------------------------
/// The keys that fire under profile `id`: the global keys when the id names no profile
/// or the profile has no key of its own; its own keys under its class-only rule; else
/// the global keys followed by its own, a later binding of a key winning.
pub open spec fn effective_keys_for(p: ProfilesConfigView, id: Seq<char>) -> Seq<KeyBinding> {
    match profile_model(p, id) {
        None => dedupe_keys(p.global_keys),
        Some(m) => if m.enabled_keys.len() == 0 {
            dedupe_keys(p.global_keys)
        } else if m.effect_rule == EffectRule::ClassOnly {
            dedupe_keys(m.enabled_keys)
        } else {
            dedupe_keys(p.global_keys + m.enabled_keys)
        },
    }
}

/// The keys that fire under the active profile, or the global keys when none is active.
pub open spec fn effective_keys(p: ProfilesConfigView) -> Seq<KeyBinding> {
    match p.active_class_id {
        None => dedupe_keys(p.global_keys),
        Some(id) => effective_keys_for(p, id),
    }
}

/// The enabled combos among the first `n`, in order.
pub open spec fn enabled_combos_upto(combos: Seq<ComboDefinitionView>, n: nat) -> Seq<
    ComboDefinitionView,
>
    decreases n,
{
    if n == 0 {
        Seq::empty()
    } else if combos[n - 1].enabled {
        enabled_combos_upto(combos, (n - 1) as nat).push(combos[n - 1])
    } else {
        enabled_combos_upto(combos, (n - 1) as nat)
    }
}

/// The enabled combos of the active profile; none when no profile is active or the
/// active id names none.
pub open spec fn effective_combos(p: ProfilesConfigView) -> Seq<ComboDefinitionView> {
    match p.active_class_id {
        None => Seq::empty(),
        Some(id) => match profile_model(p, id) {
            None => Seq::empty(),
            Some(m) => enabled_combos_upto(m.combo_defs, m.combo_defs.len()),
        },
    }
}

/// The profile of `id` when it has keys of its own, which then decide what fires.
pub open spec fn own_keys_profile(p: ProfilesConfigView, id: Seq<char>) -> Option<ProfileModel> {
    match profile_model(p, id) {
        Some(m) => if m.enabled_keys.len() > 0 {
            Some(m)
        } else {
            None
        },
        None => None,
    }
}

proof fn lemma_has_binding_concat(a: Seq<KeyBinding>, b: Seq<KeyBinding>, vk: u16)
    ensures
        has_binding(a + b, vk) <==> (has_binding(a, vk) || has_binding(b, vk)),
{
    let c = a + b;
    if has_binding(c, vk) {
        let i = choose|i: int| 0 <= i < c.len() && (#[trigger] c[i]).vk == vk;
        if i < a.len() {
            assert(a[i] == c[i]);
        } else {
            assert(b[i - a.len()] == c[i]);
        }
    }
    if has_binding(a, vk) {
        let i = choose|i: int| 0 <= i < a.len() && (#[trigger] a[i]).vk == vk;
        assert(c[i] == a[i]);
    }
    if has_binding(b, vk) {
        let i = choose|i: int| 0 <= i < b.len() && (#[trigger] b[i]).vk == vk;
        assert(c[i + a.len()] == b[i]);
    }
}

proof fn lemma_last_binding_concat(a: Seq<KeyBinding>, b: Seq<KeyBinding>, vk: u16, n: nat)
    requires
        n <= b.len(),
        exists|i: int| 0 <= i < n && (#[trigger] b[i]).vk == vk,
    ensures
        last_binding_upto(a + b, vk, a.len() + n) == last_binding_upto(b, vk, n),
    decreases n,
{
    let c = a + b;
    assert(c[a.len() + n - 1] == b[n - 1]);
    if b[n - 1].vk != vk {
        let i = choose|i: int| 0 <= i < n && (#[trigger] b[i]).vk == vk;
        assert(i < n - 1);
        lemma_last_binding_concat(a, b, vk, (n - 1) as nat);
    }
}

/// The effect rules. Each key fires once, by one binding. A profile with keys of its
/// own fires those keys, and under "global and current" the global keys too, its own
/// binding of a key the global list also has winning; the last binding of a key in a
/// list wins over earlier ones. An id naming no profile, or a profile with no key of its
/// own, fires the global keys.
pub proof fn lemma_effect_rules(p: ProfilesConfigView, id: Seq<char>)
    ensures
        vks_unique(effective_keys_for(p, id)),
        forall|vk: u16|
            #[trigger] has_binding(effective_keys_for(p, id), vk) <==> match own_keys_profile(p, id) {
                Some(m) => has_binding(m.enabled_keys, vk) || (m.effect_rule == EffectRule::GlobalAndClass
                    && has_binding(p.global_keys, vk)),
                None => has_binding(p.global_keys, vk),
            },
        forall|i: int|
            0 <= i < effective_keys_for(p, id).len() ==> {
                let k = #[trigger] effective_keys_for(p, id)[i];
                match own_keys_profile(p, id) {
                    Some(m) => has_binding(m.enabled_keys, k.vk) ==> last_binding_upto(
                        m.enabled_keys,
                        k.vk,
                        m.enabled_keys.len(),
                    ) == Some(k),
                    None => last_binding_upto(p.global_keys, k.vk, p.global_keys.len()) == Some(k),
                }
            },
{
    match own_keys_profile(p, id) {
        None => {
            lemma_dedupe_keys(p.global_keys);
        },
        Some(m) => {
            if m.effect_rule == EffectRule::ClassOnly {
                lemma_dedupe_keys(m.enabled_keys);
            } else {
                let all = p.global_keys + m.enabled_keys;
                lemma_dedupe_keys(all);
                assert forall|vk: u16| #[trigger]
                    has_binding(effective_keys_for(p, id), vk) <==> (has_binding(m.enabled_keys, vk)
                        || has_binding(p.global_keys, vk)) by {
                    lemma_has_binding_concat(p.global_keys, m.enabled_keys, vk);
                }
                assert forall|i: int| 0 <= i < effective_keys_for(p, id).len() implies {
                    let k = #[trigger] effective_keys_for(p, id)[i];
                    has_binding(m.enabled_keys, k.vk) ==> last_binding_upto(
                        m.enabled_keys,
                        k.vk,
                        m.enabled_keys.len(),
                    ) == Some(k)
                } by {
                    let k = effective_keys_for(p, id)[i];
                    if has_binding(m.enabled_keys, k.vk) {
                        lemma_last_binding_concat(p.global_keys, m.enabled_keys, k.vk, m.enabled_keys.len());
                        assert(all.len() == p.global_keys.len() + m.enabled_keys.len());
                    }
                }
            }
        },
    }
}

/// Class and custom profiles follow the same rules: a class profile and a custom
/// profile holding the same keys, rule and combos fire the same keys, and the same
/// combos when active.
pub proof fn lemma_class_and_custom_profiles_alike(
    p: ProfilesConfigView,
    class_id: Seq<char>,
    custom_id: Seq<char>,
)
    requires
        keyed_get(p.custom_configs, class_id) is None,
        keyed_get(p.classes, class_id) matches Some(c) && keyed_get(p.custom_configs, custom_id) matches Some(u)
            && c.enabled_keys == u.enabled_keys && c.effect_rule == u.effect_rule && c.combo_defs
            == u.combo_defs,
    ensures
        effective_keys_for(p, class_id) == effective_keys_for(p, custom_id),
        effective_combos(ProfilesConfigView { active_class_id: Some(class_id), ..p }) == effective_combos(
            ProfilesConfigView { active_class_id: Some(custom_id), ..p },
        ),
        effective_keys(ProfilesConfigView { active_class_id: Some(class_id), ..p }) == effective_keys(
            ProfilesConfigView { active_class_id: Some(custom_id), ..p },
        ),
{
    assert(profile_model(p, class_id) == profile_model(p, custom_id));
    let pc = ProfilesConfigView { active_class_id: Some(class_id), ..p };
    let pu = ProfilesConfigView { active_class_id: Some(custom_id), ..p };
    assert(profile_model(pc, class_id) == profile_model(p, class_id));
    assert(profile_model(pu, custom_id) == profile_model(p, custom_id));
    assert(effective_keys_for(pc, class_id) == effective_keys_for(p, class_id));
    assert(effective_keys_for(pu, custom_id) == effective_keys_for(p, custom_id));
}

proof fn lemma_enabled_combos_from(combos: Seq<ComboDefinitionView>, n: nat)
    requires
        n <= combos.len(),
    ensures
        forall|i: int|
            0 <= i < enabled_combos_upto(combos, n).len() ==> exists|j: int|
                0 <= j < n && combos[j] == #[trigger] enabled_combos_upto(combos, n)[i] && combos[j].enabled,
    decreases n,
{
    if n > 0 {
        lemma_enabled_combos_from(combos, (n - 1) as nat);
        let prev = enabled_combos_upto(combos, (n - 1) as nat);
        let cur = enabled_combos_upto(combos, n);
        if combos[n - 1].enabled {
            assert(cur == prev.push(combos[n - 1]));
        } else {
            assert(cur == prev);
        }
        assert forall|i: int| 0 <= i < cur.len() implies exists|j: int|
            0 <= j < n && combos[j] == #[trigger] cur[i] && combos[j].enabled by {
            if i < prev.len() {
                assert(cur[i] == prev[i]);
                let j = choose|j: int| 0 <= j < n - 1 && combos[j] == #[trigger] prev[i] && combos[j].enabled;
                assert(0 <= j < n && combos[j] == cur[i] && combos[j].enabled);
            } else {
                assert(cur[i] == combos[n - 1]);
                assert(0 <= n - 1 < n && combos[n - 1] == cur[i] && combos[n - 1].enabled);
            }
        }
    }
}

/// What validation accepts keeps combo triggers off the auto-fire keys at run time:
/// when `profiles.json` validates and the active profile has keys of its own or adds
/// the global keys, every combo in effect has a trigger key, and no key in effect for
/// auto-fire is one. (A profile with no key of its own under the current-only rule is
/// validated against no key, while at run time the global keys fire for it.)
pub proof fn lemma_validated_triggers_do_not_autofire(p: ProfilesConfigView)
    requires
        crate::config::validation::profiles_error(p) is None,
        p.active_class_id matches Some(id) && profile_model(p, id) matches Some(m) && (
        m.enabled_keys.len() > 0 || m.effect_rule == EffectRule::GlobalAndClass),
    ensures
        forall|i: int|
            0 <= i < effective_combos(p).len() ==> ((#[trigger] effective_combos(p)[i]).trigger_vk matches Some(t)
                && !has_binding(effective_keys(p), t)),
{
    let id = p.active_class_id->Some_0;
    let m = profile_model(p, id)->Some_0;
    let g = p.global_keys;
    let eff = crate::config::validation::effective_vk_set(g, m.enabled_keys, m.effect_rule);
    // The active profile's combos validated against its effective keys.
    match keyed_get(p.custom_configs, id) {
        Some(c) => {
            let k = crate::keyed_map::key_index(p.custom_configs, id);
            crate::config::validation::lemma_customs_error_none_each(g, p.custom_configs, p.custom_configs.len(), k);
        },
        None => {
            let k = crate::keyed_map::key_index(p.classes, id);
            crate::config::validation::lemma_classes_error_none_each(g, p.classes, p.classes.len(), k);
        },
    }
    assert(crate::config::validation::combos_error(m.combo_defs, eff) is None);
    crate::config::validation::lemma_accepted_combos(m.combo_defs, eff);
    lemma_enabled_combos_from(m.combo_defs, m.combo_defs.len());
    lemma_effect_rules(p, id);
    if m.enabled_keys.len() == 0 {
        assert forall|vk: u16| #[trigger] eff.contains(vk) <==> has_binding(g, vk) by {
            if eff.contains(vk) {
                assert(crate::config::validation::vks_of(g).contains(vk) || crate::config::validation::vks_of(m.enabled_keys).contains(vk));
            }
        }
    }
    assert forall|i: int| 0 <= i < effective_combos(p).len() implies ((#[trigger] effective_combos(p)[i]).trigger_vk matches Some(t)
        && !has_binding(effective_keys(p), t)) by {
        let c = effective_combos(p)[i];
        let j = choose|j: int| 0 <= j < m.combo_defs.len() && m.combo_defs[j] == c && m.combo_defs[j].enabled;
        assert(m.combo_defs[j].enabled);
        let t = c.trigger_vk->Some_0;
        assert(!eff.contains(t));
    }
}

/// The keys that fire under profile `profile_id`.
pub fn compute_effective_keys_for_profile(profiles: &ProfilesConfig, profile_id: &str) -> (r: Vec<
    KeyBinding,
>)
    requires
        profiles.wf(),
    ensures
        r@ == effective_keys_for(profiles@, profile_id@),
{
    let profile = match profile_config(profiles, profile_id) {
        Some(p) => p,
        None => {
            return dedupe_keys_prefer_last(&profiles.global_keys);
        },
    };
    let enabled = profile.enabled_keys();
    if enabled.len() == 0 {
        return dedupe_keys_prefer_last(&profiles.global_keys);
    }
    if profile.effect_rule() == EffectRule::ClassOnly {
        return dedupe_keys_prefer_last(enabled);
    }
    let mut merged: Vec<KeyBinding> = profiles.global_keys.clone();
    let mut i: usize = 0;
    while i < enabled.len()
        invariant
            i <= enabled@.len(),
            merged@ == profiles.global_keys@ + enabled@.take(i as int),
        decreases enabled.len() - i,
    {
        merged.push(enabled[i]);
        assert(enabled@.take(i + 1) == enabled@.take(i as int).push(enabled@[i as int]));
        i = i + 1;
    }
    assert(enabled@.take(enabled@.len() as int) =~= enabled@);
    dedupe_keys_prefer_last(&merged)
}

/// The keys that fire under the active profile.
pub fn compute_effective_keys(profiles: &ProfilesConfig) -> (r: Vec<KeyBinding>)
    requires
        profiles.wf(),
    ensures
        r@ == effective_keys(profiles@),
{
    match &profiles.active_class_id {
        None => dedupe_keys_prefer_last(&profiles.global_keys),
        Some(id) => compute_effective_keys_for_profile(profiles, id.as_str()),
    }
}

/// Copies of the enabled combos of a list, in order.
pub fn enabled_combos(combos: &Vec<ComboDefinition>) -> (r: Vec<ComboDefinition>)
    ensures
        seq_view(r@) == enabled_combos_upto(seq_view(combos@), combos@.len()),
{
    let ghost cv = seq_view(combos@);
    let mut r: Vec<ComboDefinition> = Vec::new();
    let mut i: usize = 0;
    assert(seq_view(r@) =~= Seq::<ComboDefinitionView>::empty());
    while i < combos.len()
        invariant
            i <= combos@.len(),
            cv == seq_view(combos@),
            seq_view(r@) == enabled_combos_upto(cv, i as nat),
        decreases combos.len() - i,
    {
        assert(cv[i as int] == combos@[i as int]@);
        if combos[i].enabled {
            let ghost before = r@;
            r.push(combos[i].duplicate());
            assert(seq_view(r@) =~= seq_view(before).push(cv[i as int]));
        }
        i = i + 1;
    }
    r
}

/// The enabled combos of the active profile.
pub fn compute_effective_combos(profiles: &ProfilesConfig) -> (r: Vec<ComboDefinition>)
    requires
        profiles.wf(),
    ensures
        seq_view(r@) == effective_combos(profiles@),
{
    let id = match &profiles.active_class_id {
        Some(id) => id,
        None => {
            let r: Vec<ComboDefinition> = Vec::new();
            assert(seq_view(r@) =~= Seq::<ComboDefinitionView>::empty());
            return r;
        },
    };
    match profile_config(profiles, id.as_str()) {
        Some(profile) => enabled_combos(profile.combo_defs()),
        None => {
            let r: Vec<ComboDefinition> = Vec::new();
            assert(seq_view(r@) =~= Seq::<ComboDefinitionView>::empty());
            r
        },
    }
}

} // verus!
