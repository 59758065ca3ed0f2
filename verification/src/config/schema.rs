//! Configuration schema: the persisted shapes and their mathematical models.

use super::defaults::{
    default_auto_run_left_vk, default_auto_run_pulse_delay_ms, default_auto_run_right_vk,
    default_detection_enabled, default_detection_interval_ms, DEFAULT_AUTO_RUN_PULSE_DELAY_MS,
    DEFAULT_DETECTION_INTERVAL_MS, DEFAULT_INTERVAL_MS, PROFILES_CONFIG_VERSION,
    SETTINGS_CONFIG_VERSION,
};
use crate::keyed_map::{Duplicate, KeyedMap, KeyedSeq};
use vstd::prelude::*;

verus! {

/// Copies every value of a vector.
pub fn duplicate_vec<T: Duplicate>(v: &Vec<T>) -> (r: Vec<T>)
    ensures
        r@.len() == v@.len(),
        forall|i: int| 0 <= i < v@.len() ==> (#[trigger] r@[i])@ == v@[i]@,
{
    let mut r: Vec<T> = Vec::new();
    let mut i: usize = 0;
    while i < v.len()
        invariant
            i <= v@.len(),
            r@.len() == i,
            forall|j: int| 0 <= j < i ==> (#[trigger] r@[j])@ == v@[j]@,
        decreases v.len() - i,
    {
        r.push(v[i].duplicate());
        i = i + 1;
    }
    r
}

/// The model of a vector: the models of its values.
pub open spec fn seq_view<T: View>(s: Seq<T>) -> Seq<T::V> {
    Seq::new(s.len(), |i: int| s[i]@)
}

pub proof fn lemma_duplicate_vec_view<T: Duplicate>(a: Seq<T>, b: Seq<T>)
    requires
        a.len() == b.len(),
        forall|i: int| 0 <= i < a.len() ==> (#[trigger] a[i])@ == b[i]@,
    ensures
        seq_view(a) == seq_view(b),
{
    assert(seq_view(a) =~= seq_view(b));
}

/// Copies a map with each value's model unchanged.
pub fn duplicate_map<V: Duplicate>(m: &KeyedMap<V>) -> (r: KeyedMap<V>)
    requires
        m.wf(),
    ensures
        r@ == m@,
        r.wf(),
{
    m.duplicate()
}

#[derive(Debug, Clone, Copy, PartialEq, Eq, Structural)]
pub enum FireKeyMode {
    Hold,
    Toggle,
}

impl Default for FireKeyMode {
    fn default() -> (r: Self)
        ensures
            r == FireKeyMode::Hold,
    {
        FireKeyMode::Hold
    }
}

#[derive(Debug, Clone, Copy, PartialEq, Eq, Structural)]
pub struct KeyBinding {
    pub vk: u16,
    pub interval_ms: u16,
    pub mode: FireKeyMode,
}

#[derive(Debug, Clone, Copy, PartialEq, Eq, Structural)]
pub enum EffectRule {
    GlobalAndClass,
    ClassOnly,
}

impl Default for EffectRule {
    fn default() -> (r: Self)
        ensures
            r == EffectRule::GlobalAndClass,
    {
        EffectRule::GlobalAndClass
    }
}

/// Model of a combo action.
pub enum ComboActionView {
    Tap { id: Seq<char>, label: Seq<char>, vk: Option<u16>, hold_ms: u16, wait_after_ms: u16 },
    Command {
        id: Seq<char>,
        label: Seq<char>,
        keys: Seq<u16>,
        key_hold_ms: u16,
        key_gap_ms: u16,
        wait_after_ms: u16,
    },
}

#[derive(Debug)]
pub enum ComboAction {
    Tap { id: String, label: String, vk: Option<u16>, hold_ms: u16, wait_after_ms: u16 },
    Command {
        id: String,
        label: String,
        keys: Vec<u16>,
        key_hold_ms: u16,
        key_gap_ms: u16,
        wait_after_ms: u16,
    },
}

impl View for ComboAction {
    type V = ComboActionView;

    open spec fn view(&self) -> ComboActionView {
        match self {
            ComboAction::Tap { id, label, vk, hold_ms, wait_after_ms } => ComboActionView::Tap {
                id: id@,
                label: label@,
                vk: *vk,
                hold_ms: *hold_ms,
                wait_after_ms: *wait_after_ms,
            },
            ComboAction::Command { id, label, keys, key_hold_ms, key_gap_ms, wait_after_ms } =>
            ComboActionView::Command {
                id: id@,
                label: label@,
                keys: keys@,
                key_hold_ms: *key_hold_ms,
                key_gap_ms: *key_gap_ms,
                wait_after_ms: *wait_after_ms,
            },
        }
    }
}

impl Duplicate for ComboAction {
    fn duplicate(&self) -> (r: Self) {
        match self {
            ComboAction::Tap { id, label, vk, hold_ms, wait_after_ms } => ComboAction::Tap {
                id: id.clone(),
                label: label.clone(),
                vk: *vk,
                hold_ms: *hold_ms,
                wait_after_ms: *wait_after_ms,
            },
            ComboAction::Command { id, label, keys, key_hold_ms, key_gap_ms, wait_after_ms } => {
                let keys = keys.clone();
                ComboAction::Command {
                    id: id.clone(),
                    label: label.clone(),
                    keys,
                    key_hold_ms: *key_hold_ms,
                    key_gap_ms: *key_gap_ms,
                    wait_after_ms: *wait_after_ms,
                }
            },
        }
    }
}

impl ComboAction {
    /// The id of the action, whichever kind it is.
    pub fn action_id(&self) -> (r: &String)
        ensures
            r@ == action_id_of(self@),
    {
        match self {
            ComboAction::Tap { id, .. } => id,
            ComboAction::Command { id, .. } => id,
        }
    }
}

pub open spec fn action_id_of(a: ComboActionView) -> Seq<char> {
    match a {
        ComboActionView::Tap { id, .. } => id,
        ComboActionView::Command { id, .. } => id,
    }
}

/// Model of a combo.
pub struct ComboDefinitionView {
    pub id: Seq<char>,
    pub name: Seq<char>,
    pub enabled: bool,
    pub trigger_vk: Option<u16>,
    pub actions: Seq<ComboActionView>,
}

#[derive(Debug)]
pub struct ComboDefinition {
    pub id: String,
    pub name: String,
    pub enabled: bool,
    pub trigger_vk: Option<u16>,
    pub actions: Vec<ComboAction>,
}

impl View for ComboDefinition {
    type V = ComboDefinitionView;

    open spec fn view(&self) -> ComboDefinitionView {
        ComboDefinitionView {
            id: self.id@,
            name: self.name@,
            enabled: self.enabled,
            trigger_vk: self.trigger_vk,
            actions: seq_view(self.actions@),
        }
    }
}

impl Duplicate for ComboDefinition {
    fn duplicate(&self) -> (r: Self) {
        let actions = duplicate_vec(&self.actions);
        proof {
            lemma_duplicate_vec_view(actions@, self.actions@);
        }
        ComboDefinition {
            id: self.id.clone(),
            name: self.name.clone(),
            enabled: self.enabled,
            trigger_vk: self.trigger_vk,
            actions,
        }
    }
}

impl Default for ComboDefinition {
    fn default() -> (r: Self)
        ensures
            r@.id.len() == 0,
            r@.name.len() == 0,
            !r@.enabled,
            r@.trigger_vk is None,
            r@.actions.len() == 0,
    {
        let r = ComboDefinition {
            id: String::new(),
            name: String::new(),
            enabled: false,
            trigger_vk: None,
            actions: Vec::new(),
        };
        assert(r@.actions =~= Seq::<ComboActionView>::empty());
        r
    }
}

#[derive(Debug, Clone, Copy, PartialEq, Eq, Structural)]
pub enum ComboValidationField {
    Name,
    Trigger,
    Actions,
    TapKey,
    CommandKeys,
    HoldMs,
    KeyHoldMs,
    KeyGapMs,
    WaitAfterMs,
}

/// Model of a validation issue.
pub struct ComboValidationIssueView {
    pub combo_id: Seq<char>,
    pub action_id: Option<Seq<char>>,
    pub field: ComboValidationField,
    pub message: Seq<char>,
}

#[derive(Debug)]
pub struct ComboValidationIssue {
    pub combo_id: String,
    pub action_id: Option<String>,
    pub field: ComboValidationField,
    pub message: String,
}

impl View for ComboValidationIssue {
    type V = ComboValidationIssueView;

    open spec fn view(&self) -> ComboValidationIssueView {
        ComboValidationIssueView {
            combo_id: self.combo_id@,
            action_id: match self.action_id {
                Some(id) => Some(id@),
                None => None,
            },
            field: self.field,
            message: self.message@,
        }
    }
}

/// Model of a class profile.
pub struct ClassConfigView {
    pub enabled_keys: Seq<KeyBinding>,
    pub effect_rule: EffectRule,
    pub combo_defs: Seq<ComboDefinitionView>,
}

#[derive(Debug)]
pub struct ClassConfig {
    pub enabled_keys: Vec<KeyBinding>,
    pub effect_rule: EffectRule,
    pub combo_defs: Vec<ComboDefinition>,
}

impl View for ClassConfig {
    type V = ClassConfigView;

    open spec fn view(&self) -> ClassConfigView {
        ClassConfigView {
            enabled_keys: self.enabled_keys@,
            effect_rule: self.effect_rule,
            combo_defs: seq_view(self.combo_defs@),
        }
    }
}

impl Duplicate for ClassConfig {
    fn duplicate(&self) -> (r: Self) {
        let combo_defs = duplicate_vec(&self.combo_defs);
        proof {
            lemma_duplicate_vec_view(combo_defs@, self.combo_defs@);
        }
        ClassConfig {
            enabled_keys: self.enabled_keys.clone(),
            effect_rule: self.effect_rule,
            combo_defs,
        }
    }
}

/// Model of a user-defined profile.
pub struct CustomConfigView {
    pub name: Seq<char>,
    pub enabled_keys: Seq<KeyBinding>,
    pub effect_rule: EffectRule,
    pub combo_defs: Seq<ComboDefinitionView>,
}

#[derive(Debug)]
pub struct CustomConfig {
    pub name: String,
    pub enabled_keys: Vec<KeyBinding>,
    pub effect_rule: EffectRule,
    pub combo_defs: Vec<ComboDefinition>,
}

impl View for CustomConfig {
    type V = CustomConfigView;

    open spec fn view(&self) -> CustomConfigView {
        CustomConfigView {
            name: self.name@,
            enabled_keys: self.enabled_keys@,
            effect_rule: self.effect_rule,
            combo_defs: seq_view(self.combo_defs@),
        }
    }
}

impl Duplicate for CustomConfig {
    fn duplicate(&self) -> (r: Self) {
        let combo_defs = duplicate_vec(&self.combo_defs);
        proof {
            lemma_duplicate_vec_view(combo_defs@, self.combo_defs@);
        }
        CustomConfig {
            name: self.name.clone(),
            enabled_keys: self.enabled_keys.clone(),
            effect_rule: self.effect_rule,
            combo_defs,
        }
    }
}

#[derive(Debug, Clone, Copy, PartialEq, Eq, Structural)]
pub enum DetectionNoMatchPolicy {
    Current,
    Global,
}

impl Default for DetectionNoMatchPolicy {
    fn default() -> (r: Self)
        ensures
            r == DetectionNoMatchPolicy::Current,
    {
        DetectionNoMatchPolicy::Current
    }
}

impl DetectionNoMatchPolicy {
    /// The text `Display` writes.
    pub fn as_str(self) -> (s: &'static str)
        ensures
            s@ == (match self {
                DetectionNoMatchPolicy::Current => "current"@,
                DetectionNoMatchPolicy::Global => "global"@,
            }),
    {
        match self {
            DetectionNoMatchPolicy::Current => "current",
            DetectionNoMatchPolicy::Global => "global",
        }
    }
}

#[derive(Debug, Clone, Copy, PartialEq, Eq, Structural)]
pub struct DetectionSettings {
    pub enabled: bool,
    pub interval_ms: u64,
    pub no_match_policy: DetectionNoMatchPolicy,
}

pub open spec fn default_detection_settings() -> DetectionSettings {
    DetectionSettings {
        enabled: false,
        interval_ms: DEFAULT_DETECTION_INTERVAL_MS,
        no_match_policy: DetectionNoMatchPolicy::Current,
    }
}

impl Default for DetectionSettings {
    fn default() -> (r: Self)
        ensures
            r == default_detection_settings(),
    {
        DetectionSettings {
            enabled: default_detection_enabled(),
            interval_ms: default_detection_interval_ms(),
            no_match_policy: DetectionNoMatchPolicy::default(),
        }
    }
}

#[derive(Debug, Clone, Copy, PartialEq, Eq, Structural)]
pub enum LogLevelSetting {
    Trace,
    Debug,
    Info,
    Warn,
    Error,
    Off,
}

pub open spec fn log_level_name(level: LogLevelSetting) -> Seq<char> {
    match level {
        LogLevelSetting::Trace => "trace"@,
        LogLevelSetting::Debug => "debug"@,
        LogLevelSetting::Info => "info"@,
        LogLevelSetting::Warn => "warn"@,
        LogLevelSetting::Error => "error"@,
        LogLevelSetting::Off => "off"@,
    }
}

impl LogLevelSetting {
    /// The default level of a build: `Debug` for a debug build, `Info` otherwise.
    pub fn default_for_build(debug_build: bool) -> (r: Self)
        ensures
            r == (if debug_build {
                LogLevelSetting::Debug
            } else {
                LogLevelSetting::Info
            }),
    {
        if debug_build {
            LogLevelSetting::Debug
        } else {
            LogLevelSetting::Info
        }
    }

    /// The text `Display` writes.
    pub fn as_str(self) -> (s: &'static str)
        ensures
            s@ == log_level_name(self),
    {
        match self {
            LogLevelSetting::Trace => "trace",
            LogLevelSetting::Debug => "debug",
            LogLevelSetting::Info => "info",
            LogLevelSetting::Warn => "warn",
            LogLevelSetting::Error => "error",
            LogLevelSetting::Off => "off",
        }
    }
}

impl Default for LogLevelSetting {
    /// The release-build default.
    fn default() -> (r: Self)
        ensures
            r == LogLevelSetting::Info,
    {
        LogLevelSetting::default_for_build(false)
    }
}

#[derive(Debug, Clone, Copy, PartialEq, Eq, Structural)]
pub struct AppSettings {
    pub launch_at_startup: bool,
    pub start_minimized: bool,
    pub minimize_to_tray: bool,
    pub close_button_minimizes: bool,
    pub open_floating_control_on_start: bool,
    pub auto_run_enabled: bool,
    pub auto_run_left_vk: u16,
    pub auto_run_right_vk: u16,
    pub auto_run_pulse_delay_ms: u64,
    pub log_level: LogLevelSetting,
}

pub open spec fn default_app_settings() -> AppSettings {
    AppSettings {
        launch_at_startup: false,
        start_minimized: false,
        minimize_to_tray: false,
        close_button_minimizes: false,
        open_floating_control_on_start: false,
        auto_run_enabled: false,
        auto_run_left_vk: 0x25,
        auto_run_right_vk: 0x27,
        auto_run_pulse_delay_ms: DEFAULT_AUTO_RUN_PULSE_DELAY_MS,
        log_level: LogLevelSetting::Info,
    }
}

/// The default level of a debug or a release build.
pub open spec fn build_log_level(debug_build: bool) -> LogLevelSetting {
    if debug_build {
        LogLevelSetting::Debug
    } else {
        LogLevelSetting::Info
    }
}

impl AppSettings {
    /// The default settings of a debug or a release build: they differ in the log level.
    pub fn default_for_build(debug_build: bool) -> (r: Self)
        ensures
            r == (AppSettings { log_level: build_log_level(debug_build), ..default_app_settings() }),
    {
        AppSettings { log_level: LogLevelSetting::default_for_build(debug_build), ..AppSettings::default() }
    }
}

impl Default for AppSettings {
    /// The release-build default; `default_for_build` gives either build's.
    fn default() -> (r: Self)
        ensures
            r == default_app_settings(),
    {
        AppSettings {
            launch_at_startup: false,
            start_minimized: false,
            minimize_to_tray: false,
            close_button_minimizes: false,
            open_floating_control_on_start: false,
            auto_run_enabled: false,
            auto_run_left_vk: default_auto_run_left_vk(),
            auto_run_right_vk: default_auto_run_right_vk(),
            auto_run_pulse_delay_ms: default_auto_run_pulse_delay_ms(),
            log_level: LogLevelSetting::default(),
        }
    }
}

#[derive(Debug, Clone, Copy, PartialEq, Eq, Structural)]
pub struct Hotkey {
    pub ctrl: bool,
    pub alt: bool,
    pub shift: bool,
    pub vk: u16,
}

/// Model of the single-file configuration of earlier versions.
pub struct LegacyAppConfigView {
    pub version: u32,
    pub global_keys: Seq<KeyBinding>,
    pub combo_defs: Seq<ComboDefinitionView>,
    pub classes: KeyedSeq<ClassConfigView>,
    pub custom_configs: KeyedSeq<CustomConfigView>,
    pub hidden_class_ids: Seq<Seq<char>>,
    pub active_class_id: Option<Seq<char>>,
    pub toggle_hotkey: Option<Hotkey>,
    pub detection: DetectionSettings,
    pub settings: AppSettings,
}

#[derive(Debug)]
pub struct LegacyAppConfig {
    pub version: u32,
    pub global_keys: Vec<KeyBinding>,
    pub combo_defs: Vec<ComboDefinition>,
    pub classes: KeyedMap<ClassConfig>,
    pub custom_configs: KeyedMap<CustomConfig>,
    pub hidden_class_ids: Vec<String>,
    pub active_class_id: Option<String>,
    pub toggle_hotkey: Option<Hotkey>,
    pub detection: DetectionSettings,
    pub settings: AppSettings,
}

pub open spec fn texts_view(s: Seq<String>) -> Seq<Seq<char>> {
    Seq::new(s.len(), |i: int| s[i]@)
}

pub open spec fn opt_text_view(o: Option<String>) -> Option<Seq<char>> {
    match o {
        Some(s) => Some(s@),
        None => None,
    }
}

impl View for LegacyAppConfig {
    type V = LegacyAppConfigView;

    open spec fn view(&self) -> LegacyAppConfigView {
        LegacyAppConfigView {
            version: self.version,
            global_keys: self.global_keys@,
            combo_defs: seq_view(self.combo_defs@),
            classes: self.classes@,
            custom_configs: self.custom_configs@,
            hidden_class_ids: texts_view(self.hidden_class_ids@),
            active_class_id: opt_text_view(self.active_class_id),
            toggle_hotkey: self.toggle_hotkey,
            detection: self.detection,
            settings: self.settings,
        }
    }
}

impl LegacyAppConfig {
    /// Both maps hold each key once.
    pub open spec fn wf(&self) -> bool {
        self.classes.wf() && self.custom_configs.wf()
    }
}

/// Copies a list of texts.
pub fn duplicate_texts(v: &Vec<String>) -> (r: Vec<String>)
    ensures
        texts_view(r@) == texts_view(v@),
{
    let mut r: Vec<String> = Vec::new();
    let mut i: usize = 0;
    while i < v.len()
        invariant
            i <= v@.len(),
            r@.len() == i,
            forall|j: int| 0 <= j < i ==> (#[trigger] r@[j])@ == v@[j]@,
        decreases v.len() - i,
    {
        r.push(v[i].clone());
        i = i + 1;
    }
    assert(texts_view(r@) =~= texts_view(v@));
    r
}

/// Copies an optional text.
pub fn duplicate_opt_text(o: &Option<String>) -> (r: Option<String>)
    ensures
        opt_text_view(r) == opt_text_view(*o),
{
    match o {
        Some(s) => Some(s.clone()),
        None => None,
    }
}

#[derive(Debug, Clone, Copy, PartialEq, Eq, Structural)]
pub struct WindowPosition {
    pub x: i32,
    pub y: i32,
}

#[derive(Debug, Clone, Copy, PartialEq, Eq, Structural)]
pub struct FloatingControlSettings {
    pub position: Option<WindowPosition>,
}

impl Default for FloatingControlSettings {
    fn default() -> (r: Self)
        ensures
            r.position is None,
    {
        FloatingControlSettings { position: None }
    }
}

#[derive(Debug, Clone, Copy, PartialEq, Eq, Structural)]
pub struct SettingsConfig {
    pub version: u32,
    pub launch_at_startup: bool,
    pub start_minimized: bool,
    pub minimize_to_tray: bool,
    pub close_button_minimizes: bool,
    pub open_floating_control_on_start: bool,
    pub log_level: LogLevelSetting,
    pub toggle_hotkey: Option<Hotkey>,
    pub detection: DetectionSettings,
    pub floating_control: FloatingControlSettings,
}

/// Ctrl + F8.
pub open spec fn default_toggle_hotkey() -> Hotkey {
    Hotkey { ctrl: true, alt: false, shift: false, vk: 0x77 }
}

pub open spec fn default_settings_config() -> SettingsConfig {
    SettingsConfig {
        version: SETTINGS_CONFIG_VERSION,
        launch_at_startup: false,
        start_minimized: false,
        minimize_to_tray: false,
        close_button_minimizes: false,
        open_floating_control_on_start: false,
        log_level: LogLevelSetting::Info,
        toggle_hotkey: Some(default_toggle_hotkey()),
        detection: default_detection_settings(),
        floating_control: FloatingControlSettings { position: None },
    }
}

/// The default settings file of a debug or a release build: they differ in the log
/// level.
pub open spec fn build_settings_config(debug_build: bool) -> SettingsConfig {
    SettingsConfig { log_level: build_log_level(debug_build), ..default_settings_config() }
}

impl SettingsConfig {
    pub fn default_for_build(debug_build: bool) -> (r: Self)
        ensures
            r == build_settings_config(debug_build),
    {
        SettingsConfig { log_level: LogLevelSetting::default_for_build(debug_build), ..SettingsConfig::default() }
    }
}

impl Default for SettingsConfig {
    /// The release-build default; `default_for_build` gives either build's.
    fn default() -> (r: Self)
        ensures
            r == default_settings_config(),
    {
        SettingsConfig {
            version: SETTINGS_CONFIG_VERSION,
            launch_at_startup: false,
            start_minimized: false,
            minimize_to_tray: false,
            close_button_minimizes: false,
            open_floating_control_on_start: false,
            log_level: LogLevelSetting::default(),
            toggle_hotkey: Some(Hotkey { ctrl: true, alt: false, shift: false, vk: 0x77 }),
            detection: DetectionSettings::default(),
            floating_control: FloatingControlSettings::default(),
        }
    }
}

impl SettingsConfig {
    /// The settings part of a single-file configuration.
    pub fn from_legacy(config: &LegacyAppConfig) -> (r: Self)
        ensures
            r == settings_from_legacy(config@),
    {
        SettingsConfig {
            version: SETTINGS_CONFIG_VERSION,
            launch_at_startup: config.settings.launch_at_startup,
            start_minimized: config.settings.start_minimized,
            minimize_to_tray: config.settings.minimize_to_tray,
            close_button_minimizes: config.settings.close_button_minimizes,
            open_floating_control_on_start: config.settings.open_floating_control_on_start,
            log_level: config.settings.log_level,
            toggle_hotkey: config.toggle_hotkey,
            detection: config.detection,
            floating_control: FloatingControlSettings::default(),
        }
    }
}

pub open spec fn settings_from_legacy(c: LegacyAppConfigView) -> SettingsConfig {
    SettingsConfig {
        version: SETTINGS_CONFIG_VERSION,
        launch_at_startup: c.settings.launch_at_startup,
        start_minimized: c.settings.start_minimized,
        minimize_to_tray: c.settings.minimize_to_tray,
        close_button_minimizes: c.settings.close_button_minimizes,
        open_floating_control_on_start: c.settings.open_floating_control_on_start,
        log_level: c.settings.log_level,
        toggle_hotkey: c.toggle_hotkey,
        detection: c.detection,
        floating_control: FloatingControlSettings { position: None },
    }
}

#[derive(Debug, Clone, Copy, PartialEq, Eq, Structural)]
pub struct AutoRunConfig {
    pub enabled: bool,
    pub left_vk: u16,
    pub right_vk: u16,
    pub pulse_delay_ms: u64,
}

pub open spec fn default_auto_run_config() -> AutoRunConfig {
    AutoRunConfig {
        enabled: false,
        left_vk: 0x25,
        right_vk: 0x27,
        pulse_delay_ms: DEFAULT_AUTO_RUN_PULSE_DELAY_MS,
    }
}

impl Default for AutoRunConfig {
    fn default() -> (r: Self)
        ensures
            r == default_auto_run_config(),
    {
        AutoRunConfig {
            enabled: false,
            left_vk: default_auto_run_left_vk(),
            right_vk: default_auto_run_right_vk(),
            pulse_delay_ms: default_auto_run_pulse_delay_ms(),
        }
    }
}

/// Model of `profiles.json`.
pub struct ProfilesConfigView {
    pub version: u32,
    pub global_keys: Seq<KeyBinding>,
    pub combo_defs: Seq<ComboDefinitionView>,
    pub classes: KeyedSeq<ClassConfigView>,
    pub custom_configs: KeyedSeq<CustomConfigView>,
    pub hidden_class_ids: Seq<Seq<char>>,
    pub active_class_id: Option<Seq<char>>,
    pub auto_run: AutoRunConfig,
}

#[derive(Debug)]
pub struct ProfilesConfig {
    pub version: u32,
    pub global_keys: Vec<KeyBinding>,
    pub combo_defs: Vec<ComboDefinition>,
    pub classes: KeyedMap<ClassConfig>,
    pub custom_configs: KeyedMap<CustomConfig>,
    pub hidden_class_ids: Vec<String>,
    pub active_class_id: Option<String>,
    pub auto_run: AutoRunConfig,
}

impl View for ProfilesConfig {
    type V = ProfilesConfigView;

    open spec fn view(&self) -> ProfilesConfigView {
        ProfilesConfigView {
            version: self.version,
            global_keys: self.global_keys@,
            combo_defs: seq_view(self.combo_defs@),
            classes: self.classes@,
            custom_configs: self.custom_configs@,
            hidden_class_ids: texts_view(self.hidden_class_ids@),
            active_class_id: opt_text_view(self.active_class_id),
            auto_run: self.auto_run,
        }
    }
}

/// The global X key at the default interval.
pub open spec fn default_global_keys() -> Seq<KeyBinding> {
    seq![KeyBinding { vk: 0x58, interval_ms: DEFAULT_INTERVAL_MS, mode: FireKeyMode::Hold }]
}

pub open spec fn default_profiles_config() -> ProfilesConfigView {
    ProfilesConfigView {
        version: PROFILES_CONFIG_VERSION,
        global_keys: default_global_keys(),
        combo_defs: Seq::empty(),
        classes: Seq::empty(),
        custom_configs: Seq::empty(),
        hidden_class_ids: Seq::empty(),
        active_class_id: None,
        auto_run: default_auto_run_config(),
    }
}

impl ProfilesConfig {
    /// Both maps hold each key once.
    pub open spec fn wf(&self) -> bool {
        self.classes.wf() && self.custom_configs.wf()
    }

    /// The profiles part of a single-file configuration.
    pub fn from_legacy(config: &LegacyAppConfig) -> (r: Self)
        requires
            config.wf(),
        ensures
            r@ == profiles_from_legacy(config@),
            r.wf(),
    {
        let combo_defs = duplicate_vec(&config.combo_defs);
        proof {
            lemma_duplicate_vec_view(combo_defs@, config.combo_defs@);
        }
        ProfilesConfig {
            version: PROFILES_CONFIG_VERSION,
            global_keys: config.global_keys.clone(),
            combo_defs,
            classes: duplicate_map(&config.classes),
            custom_configs: duplicate_map(&config.custom_configs),
            hidden_class_ids: duplicate_texts(&config.hidden_class_ids),
            active_class_id: duplicate_opt_text(&config.active_class_id),
            auto_run: AutoRunConfig {
                enabled: config.settings.auto_run_enabled,
                left_vk: config.settings.auto_run_left_vk,
                right_vk: config.settings.auto_run_right_vk,
                pulse_delay_ms: config.settings.auto_run_pulse_delay_ms,
            },
        }
    }

    /// A copy with the same model.
    pub fn duplicate(&self) -> (r: Self)
        requires
            self.wf(),
        ensures
            r@ == self@,
            r.wf(),
    {
        let combo_defs = duplicate_vec(&self.combo_defs);
        proof {
            lemma_duplicate_vec_view(combo_defs@, self.combo_defs@);
        }
        ProfilesConfig {
            version: self.version,
            global_keys: self.global_keys.clone(),
            combo_defs,
            classes: duplicate_map(&self.classes),
            custom_configs: duplicate_map(&self.custom_configs),
            hidden_class_ids: duplicate_texts(&self.hidden_class_ids),
            active_class_id: duplicate_opt_text(&self.active_class_id),
            auto_run: self.auto_run,
        }
    }
}

impl Default for ProfilesConfig {
    fn default() -> (r: Self)
        ensures
            r@ == default_profiles_config(),
            r.wf(),
    {
        let r = ProfilesConfig {
            version: PROFILES_CONFIG_VERSION,
            global_keys: vec![
                KeyBinding { vk: 0x58, interval_ms: DEFAULT_INTERVAL_MS, mode: FireKeyMode::Hold },
            ],
            combo_defs: Vec::new(),
            classes: KeyedMap::new(),
            custom_configs: KeyedMap::new(),
            hidden_class_ids: Vec::new(),
            active_class_id: None,
            auto_run: AutoRunConfig::default(),
        };
        assert(r@.global_keys =~= default_global_keys());
        assert(r@.combo_defs =~= Seq::<ComboDefinitionView>::empty());
        assert(r@.hidden_class_ids =~= Seq::<Seq<char>>::empty());
        r
    }
}

pub open spec fn profiles_from_legacy(c: LegacyAppConfigView) -> ProfilesConfigView {
    ProfilesConfigView {
        version: PROFILES_CONFIG_VERSION,
        global_keys: c.global_keys,
        combo_defs: c.combo_defs,
        classes: c.classes,
        custom_configs: c.custom_configs,
        hidden_class_ids: c.hidden_class_ids,
        active_class_id: c.active_class_id,
        auto_run: AutoRunConfig {
            enabled: c.settings.auto_run_enabled,
            left_vk: c.settings.auto_run_left_vk,
            right_vk: c.settings.auto_run_right_vk,
            pulse_delay_ms: c.settings.auto_run_pulse_delay_ms,
        },
    }
}

} // verus!
