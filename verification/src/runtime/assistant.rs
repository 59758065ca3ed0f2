//! The assistant: the effective profile it runs and how it switches the auto-fire,
//! combo and auto-run engines on and off.

use super::profile_edits::to_fire_key_configs;
use crate::config::schema::{seq_view, AutoRunConfig, ComboDefinition, ComboDefinitionView, KeyBinding, ProfilesConfig};
use crate::domain::{compute_effective_combos, compute_effective_keys, effective_combos, effective_keys};
use crate::engines::autofire::{config_of, last_config, AutoFireEngine};
use crate::engines::autorun::{AutoRunEngine, AutoRunSettings, DEFAULT_AUTO_RUN_PULSE_DELAY_MS};
use crate::engines::combo::ComboEngine;
use crate::engines::key_bits::has_key;
use crate::error::{AppError, AppErrorKind, AppResult};
use crate::keyed_map::Duplicate;
use vstd::prelude::*;

verus! {

pub open spec fn msg_empty_profile() -> Seq<char> {
    "请至少配置一个连发按键或一键连招"@
}

/// The keys and combos the assistant runs.
#[derive(Debug)]
pub struct AssistantProfile {
    pub keys: Vec<KeyBinding>,
    pub combos: Vec<ComboDefinition>,
}

impl AssistantProfile {
    pub fn new(keys: Vec<KeyBinding>, combos: Vec<ComboDefinition>) -> (r: Self)
        ensures
            r.keys@ == keys@,
            seq_view(r.combos@) == seq_view(combos@),
    {
        AssistantProfile { keys, combos }
    }

    /// No key and no combo.
    pub fn is_empty(&self) -> (b: bool)
        ensures
            b == (self.keys@.len() == 0 && self.combos@.len() == 0),
    {
        self.keys.len() == 0 && self.combos.len() == 0
    }

    /// The effective keys and combos of the active profile.
    pub fn from_profiles(profiles: &ProfilesConfig) -> (r: Self)
        requires
            profiles.wf(),
        ensures
            r.keys@ == effective_keys(profiles@),
            seq_view(r.combos@) == effective_combos(profiles@),
    {
        AssistantProfile::new(compute_effective_keys(profiles), compute_effective_combos(profiles))
    }

    pub fn duplicate(&self) -> (r: Self)
        ensures
            r.keys@ == self.keys@,
            seq_view(r.combos@) == seq_view(self.combos@),
    {
        let combos = crate::config::schema::duplicate_vec(&self.combos);
        proof {
            crate::config::schema::lemma_duplicate_vec_view(combos@, self.combos@);
        }
        AssistantProfile { keys: self.keys.clone(), combos }
    }
}

impl Default for AssistantProfile {
    fn default() -> (r: Self)
        ensures
            r.keys@.len() == 0,
            r.combos@.len() == 0,
    {
        AssistantProfile { keys: Vec::new(), combos: Vec::new() }
    }
}

/// The assistant's three engines and the profile it last applied.
#[derive(Debug)]
pub struct Assistant {
    pub autofire: AutoFireEngine,
    pub combo: ComboEngine,
    pub auto_run: AutoRunEngine,
    pub profile: AssistantProfile,
}

/// What the status view shows of the assistant.
#[derive(Debug, Clone, Copy, PartialEq, Eq, Structural)]
pub struct AssistantRuntimeSnapshot {
    pub running: bool,
    pub profile_key_count: usize,
    pub profile_combo_count: usize,
}

impl Assistant {
    pub open spec fn wf(&self) -> bool {
        self.autofire.wf() && self.combo.wf()
    }

    pub open spec fn running(&self) -> bool {
        self.autofire@.enabled || self.combo@.enabled || self.auto_run.enabled
    }

    /// All stopped, with an empty profile.
    pub fn new() -> (r: Self)
        ensures
            r.wf(),
            !r.running(),
            r.autofire@.keys.len() == 0,
            forall|w: u16| !has_key(r.autofire@.pressed, w) && !has_key(r.autofire@.toggle_active, w),
            r.combo@.combos.len() == 0,
            r.combo@.abort_generation == 0,
            !r.combo@.executing,
            r.auto_run.settings == (AutoRunSettings {
                left_vk: 0x25,
                right_vk: 0x27,
                pulse_delay_ms: DEFAULT_AUTO_RUN_PULSE_DELAY_MS,
            }),
            r.profile.keys@.len() == 0,
            r.profile.combos@.len() == 0,
    {
        Assistant {
            autofire: AutoFireEngine::new(),
            combo: ComboEngine::new(),
            auto_run: AutoRunEngine::new(),
            profile: AssistantProfile::default(),
        }
    }

    /// Any engine runs.
    pub fn is_running(&self) -> (b: bool)
        ensures
            b == self.running(),
    {
        self.autofire.is_running() || self.combo.is_running() || self.auto_run.is_running()
    }

    /// Every engine stops.
    pub fn stop(&mut self)
        requires
            old(self).wf(),
        ensures
            final(self).wf(),
            !final(self).running(),
            final(self).profile.keys@ == old(self).profile.keys@,
            seq_view(final(self).profile.combos@) == seq_view(old(self).profile.combos@),
    {
        self.autofire.stop();
        self.combo.stop();
        self.auto_run.stop();
    }

    /// Auto-fire runs the profile's keys, or stops when there are
    /// none; the combo engine takes the profile's combos and runs only when there are
    /// some.
    pub fn apply_profile(&mut self, profile: &AssistantProfile)
        requires
            old(self).wf(),
        ensures
            final(self).wf(),
            final(self).autofire@.enabled == (profile.keys@.len() > 0),
            profile.keys@.len() > 0 ==> forall|vk: u16|
                #[trigger] config_of(final(self).autofire@.keys, vk) == last_config(
                    to_fire_configs(profile.keys@),
                    vk,
                ),
            final(self).combo@.enabled == (profile.combos@.len() > 0),
            final(self).combo@.combos == seq_view(profile.combos@),
            final(self).auto_run == old(self).auto_run,
            final(self).profile.keys@ == old(self).profile.keys@,
            seq_view(final(self).profile.combos@) == seq_view(old(self).profile.combos@),
    {
        if profile.keys.len() == 0 {
            self.autofire.stop();
        } else {
            let configs = to_fire_key_configs(&profile.keys);
            assert(configs@ =~= to_fire_configs(profile.keys@));
            self.autofire.set_key_configs(configs);
            let _ = self.autofire.start();
        }
        let combos = crate::config::schema::duplicate_vec(&profile.combos);
        proof {
            crate::config::schema::lemma_duplicate_vec_view(combos@, profile.combos@);
        }
        let has_combos = combos.len() != 0;
        self.combo.set_combo_configs(combos);
        if has_combos {
            let _ = self.combo.start();
        } else {
            self.combo.stop();
        }
    }

    /// Auto-run takes the configured keys and delay, and runs exactly
    /// when it is switched on.
    pub fn sync_auto_run(&mut self, auto_run: &AutoRunConfig)
        requires
            old(self).wf(),
        ensures
            final(self).wf(),
            final(self).auto_run.enabled == auto_run.enabled,
            final(self).auto_run.settings.left_vk == auto_run.left_vk,
            final(self).auto_run.settings.right_vk == auto_run.right_vk,
            final(self).auto_run.settings.pulse_delay_ms == auto_run.pulse_delay_ms,
            final(self).autofire@ == old(self).autofire@,
            final(self).combo@ == old(self).combo@,
            final(self).profile.keys@ == old(self).profile.keys@,
            seq_view(final(self).profile.combos@) == seq_view(old(self).profile.combos@),
    {
        self.auto_run.set_settings(auto_run.left_vk, auto_run.right_vk, auto_run.pulse_delay_ms);
        if auto_run.enabled {
            let _ = self.auto_run.start();
        } else {
            self.auto_run.stop();
        }
    }

    /// With no key, no combo and auto-run off, everything stops
    /// and an error says so; otherwise the profile is kept and applied and auto-run is
    /// synced.
    pub fn start_with_profile(&mut self, profile: AssistantProfile, auto_run: &AutoRunConfig) -> (r: AppResult<()>)
        requires
            old(self).wf(),
        ensures
            final(self).wf(),
            r is Err <==> (profile.keys@.len() == 0 && profile.combos@.len() == 0 && !auto_run.enabled),
            r matches Err(e) ==> e.kind == AppErrorKind::Runtime && e.message@ == msg_empty_profile()
                && !final(self).running(),
            r is Ok ==> {
                &&& final(self).profile.keys@ == profile.keys@
                &&& seq_view(final(self).profile.combos@) == seq_view(profile.combos@)
                &&& final(self).autofire@.enabled == (profile.keys@.len() > 0)
                &&& final(self).combo@.enabled == (profile.combos@.len() > 0)
                &&& final(self).combo@.combos == seq_view(profile.combos@)
                &&& final(self).auto_run.enabled == auto_run.enabled
                &&& final(self).running()
            },
    {
        if profile.is_empty() && !auto_run.enabled {
            self.stop();
            return Err(AppError::runtime(String::from_str("请至少配置一个连发按键或一键连招")));
        }
        self.apply_profile(&profile);
        self.profile = profile;
        self.sync_auto_run(auto_run);
        Ok(())
    }

    /// The active profile of `profiles` is kept; while
    /// running it is applied and auto-run synced; while running with nothing to run,
    /// everything stops and an error says so.
    pub fn refresh(&mut self, profiles: &ProfilesConfig) -> (r: AppResult<()>)
        requires
            old(self).wf(),
            profiles.wf(),
        ensures
            final(self).wf(),
            r is Err <==> (old(self).running() && effective_keys(profiles@).len() == 0
                && effective_combos(profiles@).len() == 0 && !profiles@.auto_run.enabled),
            r matches Err(e) ==> e.kind == AppErrorKind::Runtime && e.message@ == msg_empty_profile()
                && !final(self).running(),
            r is Ok ==> final(self).profile.keys@ == effective_keys(profiles@) && seq_view(
                final(self).profile.combos@,
            ) == effective_combos(profiles@),
            r is Ok && !old(self).running() ==> !final(self).running(),
            r is Ok && old(self).running() ==> final(self).auto_run.enabled == profiles@.auto_run.enabled
                && final(self).autofire@.enabled == (effective_keys(profiles@).len() > 0)
                && final(self).combo@.enabled == (effective_combos(profiles@).len() > 0),
    {
        let profile = AssistantProfile::from_profiles(profiles);
        let running = self.is_running();
        if running && profile.is_empty() && !profiles.auto_run.enabled {
            self.stop();
            return Err(AppError::runtime(String::from_str("请至少配置一个连发按键或一键连招")));
        }
        if running {
            self.apply_profile(&profile);
            self.sync_auto_run(&profiles.auto_run);
        }
        self.profile = profile;
        Ok(())
    }

    /// A running assistant stops; a stopped one starts
    /// with the active profile.
    pub fn toggle(&mut self, profiles: &ProfilesConfig) -> (r: AppResult<()>)
        requires
            old(self).wf(),
            profiles.wf(),
        ensures
            final(self).wf(),
            old(self).running() ==> r is Ok && !final(self).running(),
            !old(self).running() ==> (r is Err <==> (effective_keys(profiles@).len() == 0
                && effective_combos(profiles@).len() == 0 && !profiles@.auto_run.enabled)),
            !old(self).running() && r is Ok ==> {
                &&& final(self).running()
                &&& final(self).profile.keys@ == effective_keys(profiles@)
                &&& seq_view(final(self).profile.combos@) == effective_combos(profiles@)
                &&& final(self).autofire@.enabled == (effective_keys(profiles@).len() > 0)
                &&& final(self).combo@.enabled == (effective_combos(profiles@).len() > 0)
                &&& final(self).combo@.combos == effective_combos(profiles@)
                &&& final(self).auto_run.enabled == profiles@.auto_run.enabled
            },
            r matches Err(e) ==> e.kind == AppErrorKind::Runtime && e.message@ == msg_empty_profile()
                && !final(self).running(),
    {
        if self.is_running() {
            self.stop();
            return Ok(());
        }
        let profile = AssistantProfile::from_profiles(profiles);
        self.start_with_profile(profile, &profiles.auto_run)
    }

    /// Whether it runs and the size of the kept profile.
    pub fn snapshot(&self) -> (r: AssistantRuntimeSnapshot)
        ensures
            r.running == self.running(),
            r.profile_key_count == self.profile.keys@.len(),
            r.profile_combo_count == self.profile.combos@.len(),
    {
        AssistantRuntimeSnapshot {
            running: self.is_running(),
            profile_key_count: self.profile.keys.len(),
            profile_combo_count: self.profile.combos.len(),
        }
    }

    /// The toggle keys switched on.
    pub fn active_toggle_keys(&self) -> (r: Vec<u16>)
        ensures
            r@ == (if self.autofire@.enabled {
                crate::engines::autofire::active_toggles_upto(self.autofire@, self.autofire@.keys.len())
            } else {
                Seq::empty()
            }),
    {
        self.autofire.active_toggle_keys()
    }
}

/// The auto-fire configurations of a key list.
pub open spec fn to_fire_configs(keys: Seq<KeyBinding>) -> Seq<crate::engines::autofire::FireKeyConfig> {
    Seq::new(
        keys.len(),
        |i: int|
            crate::engines::autofire::FireKeyConfig {
                vk: keys[i].vk,
                interval_ms: keys[i].interval_ms,
                mode: keys[i].mode,
            },
    )
}

} // verus!
