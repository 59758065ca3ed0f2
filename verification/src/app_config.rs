//! The single-file `app-config.json` format of version 6, whose key bindings carry no
//! mode, and its validation with plain-text errors. Its rules are those of the current
//! format with every key read as a hold key.

use crate::config::schema::{seq_view, ClassConfigView, CustomConfigView, FireKeyMode};
use crate::config::validation::{
    classes_error_upto, combos_error, combos_problem, customs_error_upto, first_error, keys_error,
    keys_problem, lemma_classes_error_stays, lemma_customs_error_stays, profile_error,
    profile_problem,
};
use crate::keyed_map::{KeyedMap, KeyedSeq};
use crate::text::text_is_blank;
use vstd::prelude::*;

pub use crate::config::schema::{ComboAction, ComboDefinition, EffectRule, Hotkey, LogLevelSetting};

verus! {

/// Version of this format.
pub const APP_CONFIG_VERSION: u32 = 6;

/// A key binding of this format: a key and its interval.
#[derive(Debug, Clone, Copy, PartialEq, Eq, Structural)]
pub struct KeyBinding {
    pub vk: u16,
    pub interval_ms: u16,
}

/// The current-format binding of a key of this format: a hold key.
pub open spec fn as_binding(k: KeyBinding) -> crate::config::schema::KeyBinding {
    crate::config::schema::KeyBinding { vk: k.vk, interval_ms: k.interval_ms, mode: FireKeyMode::Hold }
}

pub open spec fn as_bindings(keys: Seq<KeyBinding>) -> Seq<crate::config::schema::KeyBinding> {
    Seq::new(keys.len(), |i: int| as_binding(keys[i]))
}

/// The current-format bindings of a key list.
pub fn to_bindings(keys: &Vec<KeyBinding>) -> (r: Vec<crate::config::schema::KeyBinding>)
    ensures
        r@ == as_bindings(keys@),
{
    let mut r: Vec<crate::config::schema::KeyBinding> = Vec::new();
    let mut i: usize = 0;
    while i < keys.len()
        invariant
            i <= keys@.len(),
            r@.len() == i,
            forall|j: int| 0 <= j < i ==> #[trigger] r@[j] == as_binding(keys@[j]),
        decreases keys.len() - i,
    {
        let k = keys[i];
        r.push(crate::config::schema::KeyBinding { vk: k.vk, interval_ms: k.interval_ms, mode: FireKeyMode::Hold });
        i = i + 1;
    }
    assert(r@ =~= as_bindings(keys@));
    r
}

#[derive(Debug)]
pub struct ClassConfig {
    pub enabled_keys: Vec<KeyBinding>,
    pub effect_rule: EffectRule,
    pub combo_defs: Vec<ComboDefinition>,
}

impl View for ClassConfig {
    type V = ClassConfigView;

    open spec fn view(&self) -> ClassConfigView {
        ClassConfigView {
            enabled_keys: as_bindings(self.enabled_keys@),
            effect_rule: self.effect_rule,
            combo_defs: seq_view(self.combo_defs@),
        }
    }
}

#[derive(Debug)]
pub struct CustomConfig {
    pub name: String,
    pub enabled_keys: Vec<KeyBinding>,
    pub effect_rule: EffectRule,
    pub combo_defs: Vec<ComboDefinition>,
}

impl View for CustomConfig {
    type V = CustomConfigView;

    open spec fn view(&self) -> CustomConfigView {
        CustomConfigView {
            name: self.name@,
            enabled_keys: as_bindings(self.enabled_keys@),
            effect_rule: self.effect_rule,
            combo_defs: seq_view(self.combo_defs@),
        }
    }
}

/// Detection settings of this format.
#[derive(Debug)]
pub struct DetectionSettings {
    pub enabled: bool,
    pub interval_ms: u64,
    pub icon_database_version: String,
}

/// Application settings of this format.
#[derive(Debug, Clone, Copy, PartialEq, Eq, Structural)]
pub struct AppSettings {
    pub launch_at_startup: bool,
    pub start_minimized: bool,
    pub minimize_to_tray: bool,
    pub open_floating_control_on_start: bool,
    pub log_level: LogLevelSetting,
}

impl Default for AppSettings {
    fn default() -> (r: Self)
        ensures
            !r.launch_at_startup && !r.start_minimized && !r.minimize_to_tray
                && !r.open_floating_control_on_start && r.log_level == LogLevelSetting::Info,
    {
        AppSettings {
            launch_at_startup: false,
            start_minimized: false,
            minimize_to_tray: false,
            open_floating_control_on_start: false,
            log_level: LogLevelSetting::default(),
        }
    }
}

/// `app-config.json` of this format.
#[derive(Debug)]
pub struct AppConfig {
    pub version: u32,
    pub global_keys: Vec<KeyBinding>,
    pub combo_defs: Vec<ComboDefinition>,
    pub classes: KeyedMap<ClassConfig>,
    pub custom_configs: KeyedMap<CustomConfig>,
    pub hidden_class_ids: Vec<String>,
    pub active_class_id: Option<String>,
    pub toggle_hotkey: Option<Hotkey>,
    pub detection: DetectionSettings,
    pub settings: AppSettings,
}

/// The first error of a configuration of this format: the global keys, the class
/// profiles, then the custom profiles. Root-level combos are not checked.
pub open spec fn app_config_error(
    global: Seq<KeyBinding>,
    classes: KeyedSeq<ClassConfigView>,
    customs: KeyedSeq<CustomConfigView>,
) -> Option<Seq<char>> {
    let g = as_bindings(global);
    first_error(
        keys_error(g),
        first_error(classes_error_upto(g, classes, classes.len()), customs_error_upto(g, customs, customs.len())),
    )
}

/// Turns the first error found into the plain-text result.
fn text_result(problem: Option<String>) -> (r: Result<(), String>)
    ensures
        match problem {
            Some(m) => r matches Err(e) && e@ == m@,
            None => r is Ok,
        },
{
    match problem {
        Some(m) => Err(m),
        None => Ok(()),
    }
}

/// The first error of a key list: an interval out of range, then a repeated key.
pub fn validate_keys(keys: &Vec<KeyBinding>) -> (r: Result<(), String>)
    ensures
        match r {
            Ok(_) => keys_error(as_bindings(keys@)) is None,
            Err(e) => keys_error(as_bindings(keys@)) == Some(e@),
        },
{
    text_result(keys_problem(&to_bindings(keys)))
}

/// The first error of a combo list, given the virtual keys that auto-fire.
pub fn validate_combo_defs(combos: &Vec<ComboDefinition>, effective_key_vks: &Vec<u16>) -> (r: Result<(), String>)
    ensures
        match r {
            Ok(_) => combos_error(seq_view(combos@), effective_key_vks@.to_set()) is None,
            Err(e) => combos_error(seq_view(combos@), effective_key_vks@.to_set()) == Some(e@),
        },
{
    text_result(combos_problem(combos, effective_key_vks))
}

/// The keys, then the combos against the keys.
pub fn validate_runtime_profile(keys: &Vec<KeyBinding>, combos: &Vec<ComboDefinition>) -> (r: Result<(), String>)
    ensures
        match r {
            Ok(_) => profile_error(as_bindings(keys@), as_bindings(keys@), EffectRule::ClassOnly, seq_view(combos@)) is None,
            Err(e) => profile_error(as_bindings(keys@), as_bindings(keys@), EffectRule::ClassOnly, seq_view(combos@))
                == Some(e@),
        },
{
    let bindings = to_bindings(keys);
    text_result(profile_problem(&bindings, &bindings, EffectRule::ClassOnly, combos))
}

/// The first error of a whole configuration of this format, in checking order.
pub fn validate_config(config: &AppConfig) -> (r: Result<(), String>)
    ensures
        match r {
            Ok(_) => app_config_error(config.global_keys@, config.classes@, config.custom_configs@) is None,
            Err(e) => app_config_error(config.global_keys@, config.classes@, config.custom_configs@) == Some(e@),
        },
{
    let global = to_bindings(&config.global_keys);
    let k = keys_problem(&global);
    if k.is_some() {
        return text_result(k);
    }
    let mut i: usize = 0;
    while i < config.classes.len()
        invariant
            i <= config.classes@.len(),
            global@ == as_bindings(config.global_keys@),
            keys_error(global@) is None,
            classes_error_upto(global@, config.classes@, i as nat) is None,
        decreases config.classes@.len() - i,
    {
        let c = config.classes.value_at(i);
        let enabled = to_bindings(&c.enabled_keys);
        let p = profile_problem(&global, &enabled, c.effect_rule, &c.combo_defs);
        if p.is_some() {
            proof {
                lemma_classes_error_stays(global@, config.classes@, (i + 1) as nat, config.classes@.len());
            }
            return text_result(p);
        }
        i = i + 1;
    }
    let mut j: usize = 0;
    while j < config.custom_configs.len()
        invariant
            j <= config.custom_configs@.len(),
            global@ == as_bindings(config.global_keys@),
            keys_error(global@) is None,
            classes_error_upto(global@, config.classes@, config.classes@.len()) is None,
            customs_error_upto(global@, config.custom_configs@, j as nat) is None,
        decreases config.custom_configs@.len() - j,
    {
        let c = config.custom_configs.value_at(j);
        let p = if text_is_blank(c.name.as_str()) {
            Some(String::from_str("自定义配置名称不能为空"))
        } else {
            let enabled = to_bindings(&c.enabled_keys);
            profile_problem(&global, &enabled, c.effect_rule, &c.combo_defs)
        };
        if p.is_some() {
            proof {
                lemma_customs_error_stays(global@, config.custom_configs@, (j + 1) as nat, config.custom_configs@.len());
            }
            return text_result(p);
        }
        j = j + 1;
    }
    Ok(())
}

} // verus!
