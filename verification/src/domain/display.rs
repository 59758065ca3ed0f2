//! What the profile picker shows: the selectable profiles, the visible classes by
//! category, display names, and the state of each class and custom profile.

use super::classes::{
    category_len, category_name_at, category_start, class_categories, class_id_at, class_name_at,
    class_name_by_id, class_name_of, lemma_categories_tile, CATEGORY_COUNT, CLASS_COUNT,
};
use crate::config::schema::{
    texts_view, ClassConfig, ClassConfigView, CustomConfig, CustomConfigView, ProfilesConfig,
    ProfilesConfigView,
};
use crate::keyed_map::{keyed_get, keyed_insert, KeyedMap, KeyedSeq};
use crate::text::{is_blank, text_eq, text_is_blank, trim_text, trimmed};
use vstd::prelude::*;

verus! {

/// A profile the user can pick: its id and label.
#[derive(Debug)]
pub struct ConfigOption {
    pub id: Option<String>,
    pub label: String,
}

pub struct ConfigOptionModel {
    pub id: Option<Seq<char>>,
    pub label: Seq<char>,
}

impl View for ConfigOption {
    type V = ConfigOptionModel;

    open spec fn view(&self) -> ConfigOptionModel {
        ConfigOptionModel {
            id: match self.id {
                Some(i) => Some(i@),
                None => None,
            },
            label: self.label@,
        }
    }
}

/// How a class shows in the picker.
#[derive(Debug, Clone, Copy, PartialEq, Eq, Structural)]
pub struct ClassDisplayState {
    pub configured: bool,
    pub has_keys: bool,
    pub has_combos: bool,
    pub hidden: bool,
    pub visible: bool,
    pub can_hide: bool,
}

impl View for ClassDisplayState {
    type V = ClassDisplayState;

    open spec fn view(&self) -> ClassDisplayState {
        *self
    }
}

/// How a custom profile shows in the picker.
#[derive(Debug, Clone, Copy, PartialEq, Eq, Structural)]
pub struct CustomConfigDisplayState {
    pub configured: bool,
    pub has_keys: bool,
    pub has_combos: bool,
}

impl View for CustomConfigDisplayState {
    type V = CustomConfigDisplayState;

    open spec fn view(&self) -> CustomConfigDisplayState {
        *self
    }
}

/// A visible class.
#[derive(Debug)]
pub struct ClassInfoView {
    pub id: String,
    pub name: String,
    pub detection_index: u16,
}

pub struct ClassInfoModel {
    pub id: Seq<char>,
    pub name: Seq<char>,
    pub detection_index: u16,
}

impl View for ClassInfoView {
    type V = ClassInfoModel;

    open spec fn view(&self) -> ClassInfoModel {
        ClassInfoModel { id: self.id@, name: self.name@, detection_index: self.detection_index }
    }
}

/// A category with its visible classes.
#[derive(Debug)]
pub struct ClassCategoryView {
    pub name: String,
    pub classes: Vec<ClassInfoView>,
}

pub struct ClassCategoryModel {
    pub name: Seq<char>,
    pub classes: Seq<ClassInfoModel>,
}

impl View for ClassCategoryView {
    type V = ClassCategoryModel;

    open spec fn view(&self) -> ClassCategoryModel {
        ClassCategoryModel {
            name: self.name@,
            classes: Seq::new(self.classes@.len(), |i: int| self.classes@[i]@),
        }
    }
}

/// Everything the picker shows.
#[derive(Debug)]
pub struct ProfileDisplaySnapshot {
    pub config_options: Vec<ConfigOption>,
    pub visible_class_categories: Vec<ClassCategoryView>,
    pub display_names: KeyedMap<String>,
    pub class_states: KeyedMap<ClassDisplayState>,
    pub custom_config_states: KeyedMap<CustomConfigDisplayState>,
}

// ---------------------------------------------------------------------------
// Single profiles
// ---------------------------------------------------------------------------
pub open spec fn class_configured(c: ClassConfigView) -> bool {
    c.enabled_keys.len() > 0 || c.combo_defs.len() > 0
}

pub open spec fn custom_configured(c: CustomConfigView) -> bool {
    c.enabled_keys.len() > 0 || c.combo_defs.len() > 0
}

/// The class profile has a key or a combo.
pub fn has_class_config(config: &ClassConfig) -> (b: bool)
    ensures
        b == class_configured(config@),
{
    config.enabled_keys.len() != 0 || config.combo_defs.len() != 0
}

/// The custom profile has a key or a combo.
pub fn has_custom_config(config: &CustomConfig) -> (b: bool)
    ensures
        b == custom_configured(config@),
{
    config.enabled_keys.len() != 0 || config.combo_defs.len() != 0
}

/// A custom profile's label: its trimmed name, or a placeholder when the name is blank.
pub open spec fn custom_label(c: CustomConfigView) -> Seq<char> {
    if is_blank(c.name) {
        "未命名配置"@
    } else {
        trimmed(c.name)
    }
}

/// The label a custom profile is shown under.
pub fn custom_config_label(config: &CustomConfig) -> (r: String)
    ensures
        r@ == custom_label(config@),
{
    if text_is_blank(config.name.as_str()) {
        String::from_str("未命名配置")
    } else {
        trim_text(config.name.as_str())
    }
}

pub open spec fn custom_state(c: CustomConfigView) -> CustomConfigDisplayState {
    CustomConfigDisplayState {
        configured: custom_configured(c),
        has_keys: c.enabled_keys.len() > 0,
        has_combos: c.combo_defs.len() > 0,
    }
}

/// What the profile list shows of a custom profile.
pub fn custom_config_display_state(config: &CustomConfig) -> (r: CustomConfigDisplayState)
    ensures
        r == custom_state(config@),
{
    let has_keys = config.enabled_keys.len() != 0;
    let has_combos = config.combo_defs.len() != 0;
    CustomConfigDisplayState { configured: has_keys || has_combos, has_keys, has_combos }
}

/// A class can only be hidden while it has nothing configured, and a hidden class is
/// not shown.
pub open spec fn class_state(p: ProfilesConfigView, class_id: Seq<char>) -> ClassDisplayState {
    let config = keyed_get(p.classes, class_id);
    let has_keys = config matches Some(c) && c.enabled_keys.len() > 0;
    let has_combos = config matches Some(c) && c.combo_defs.len() > 0;
    let configured = has_keys || has_combos;
    let hidden = p.hidden_class_ids.contains(class_id) && !configured;
    ClassDisplayState {
        configured,
        has_keys,
        has_combos,
        hidden,
        visible: configured || !hidden,
        can_hide: !configured,
    }
}

/// Whether `id` is among `ids`.
pub fn text_listed(ids: &Vec<String>, id: &str) -> (b: bool)
    ensures
        b == texts_view(ids@).contains(id@),
{
    let mut i: usize = 0;
    while i < ids.len()
        invariant
            i <= ids@.len(),
            forall|j: int| 0 <= j < i ==> ids@[j]@ != id@,
        decreases ids.len() - i,
    {
        if text_eq(ids[i].as_str(), id) {
            assert(texts_view(ids@)[i as int] == id@);
            return true;
        }
        i = i + 1;
    }
    assert forall|j: int| 0 <= j < texts_view(ids@).len() implies texts_view(ids@)[j] != id@ by {
        assert(texts_view(ids@)[j] == ids@[j]@);
    }
    false
}

/// What the class matrix shows of class `class_id`.
pub fn class_display_state(profiles: &ProfilesConfig, class_id: &str) -> (r: ClassDisplayState)
    requires
        profiles.wf(),
    ensures
        r == class_state(profiles@, class_id@),
{
    let config = profiles.classes.get(class_id);
    let has_keys = match config {
        Some(c) => c.enabled_keys.len() != 0,
        None => false,
    };
    let has_combos = match config {
        Some(c) => c.combo_defs.len() != 0,
        None => false,
    };
    let configured = has_keys || has_combos;
    let hidden = text_listed(&profiles.hidden_class_ids, class_id) && !configured;
    ClassDisplayState {
        configured,
        has_keys,
        has_combos,
        hidden,
        visible: configured || !hidden,
        can_hide: !configured,
    }
}

// ---------------------------------------------------------------------------
// Selectable profiles
// ---------------------------------------------------------------------------
/// The label of a class option: its display name, or a placeholder for an unknown id.
pub open spec fn class_option_label(id: Seq<char>) -> Seq<char> {
    match class_name_of(id) {
        Some(n) => n,
        None => "未知职业"@,
    }
}

/// The configured class profiles among the first `n`, in key order.
pub open spec fn class_options_upto(classes: KeyedSeq<ClassConfigView>, n: nat) -> Seq<
    ConfigOptionModel,
>
    decreases n,
{
    if n == 0 {
        Seq::empty()
    } else if class_configured(classes[n - 1].1) {
        class_options_upto(classes, (n - 1) as nat).push(
            ConfigOptionModel {
                id: Some(classes[n - 1].0),
                label: class_option_label(classes[n - 1].0),
            },
        )
    } else {
        class_options_upto(classes, (n - 1) as nat)
    }
}

/// The configured custom profiles among the first `n`, in key order.
pub open spec fn custom_options_upto(customs: KeyedSeq<CustomConfigView>, n: nat) -> Seq<
    ConfigOptionModel,
>
    decreases n,
{
    if n == 0 {
        Seq::empty()
    } else if custom_configured(customs[n - 1].1) {
        custom_options_upto(customs, (n - 1) as nat).push(
            ConfigOptionModel { id: Some(customs[n - 1].0), label: custom_label(customs[n - 1].1) },
        )
    } else {
        custom_options_upto(customs, (n - 1) as nat)
    }
}

/// The configured class profiles, then the configured custom profiles.
pub open spec fn config_option_list(p: ProfilesConfigView) -> Seq<ConfigOptionModel> {
    class_options_upto(p.classes, p.classes.len()) + custom_options_upto(
        p.custom_configs,
        p.custom_configs.len(),
    )
}

pub open spec fn options_view(s: Seq<ConfigOption>) -> Seq<ConfigOptionModel> {
    Seq::new(s.len(), |i: int| s[i]@)
}

/// The profiles that can be selected: configured classes, then configured custom profiles.
pub fn config_options(profiles: &ProfilesConfig) -> (r: Vec<ConfigOption>)
    ensures
        options_view(r@) == config_option_list(profiles@),
{
    let mut r: Vec<ConfigOption> = Vec::new();
    let mut i: usize = 0;
    assert(options_view(r@) =~= Seq::<ConfigOptionModel>::empty());
    while i < profiles.classes.len()
        invariant
            i <= profiles.classes@.len(),
            options_view(r@) == class_options_upto(profiles.classes@, i as nat),
        decreases profiles.classes@.len() - i,
    {
        let c = profiles.classes.value_at(i);
        if has_class_config(c) {
            let id = profiles.classes.key_at(i);
            let label = match class_name_by_id(id.as_str()) {
                Some(n) => String::from_str(n),
                None => String::from_str("未知职业"),
            };
            let ghost before = r@;
            r.push(ConfigOption { id: Some(id.clone()), label });
            assert(options_view(r@) =~= options_view(before).push(r@[before.len() as int]@));
        }
        i = i + 1;
    }
    let ghost classes_part = options_view(r@);
    let mut j: usize = 0;
    while j < profiles.custom_configs.len()
        invariant
            j <= profiles.custom_configs@.len(),
            options_view(r@) == classes_part + custom_options_upto(
                profiles.custom_configs@,
                j as nat,
            ),
        decreases profiles.custom_configs@.len() - j,
    {
        let c = profiles.custom_configs.value_at(j);
        if has_custom_config(c) {
            let id = profiles.custom_configs.key_at(j);
            let label = custom_config_label(c);
            let ghost before = r@;
            r.push(ConfigOption { id: Some(id.clone()), label });
            assert(options_view(r@) =~= options_view(before).push(r@[before.len() as int]@));
            assert(options_view(r@) =~= classes_part + custom_options_upto(
                profiles.custom_configs@,
                (j + 1) as nat,
            ));
        }
        j = j + 1;
    }
    r
}

// ---------------------------------------------------------------------------
// The whole picker
// ---------------------------------------------------------------------------
/// Display names of the first `n` classes, in table order.
pub open spec fn class_names_upto(n: nat) -> KeyedSeq<Seq<char>>
    decreases n,
{
    if n == 0 {
        Seq::empty()
    } else {
        keyed_insert(
            class_names_upto((n - 1) as nat),
            class_id_at((n - 1) as u16),
            class_name_at((n - 1) as u16),
        )
    }
}

/// `base` with the labels of the first `n` custom profiles added in key order.
pub open spec fn custom_names_upto(
    base: KeyedSeq<Seq<char>>,
    customs: KeyedSeq<CustomConfigView>,
    n: nat,
) -> KeyedSeq<Seq<char>>
    decreases n,
{
    if n == 0 {
        base
    } else {
        keyed_insert(
            custom_names_upto(base, customs, (n - 1) as nat),
            customs[n - 1].0,
            custom_label(customs[n - 1].1),
        )
    }
}

/// Every class by id with its name, then every custom profile by id with its label.
pub open spec fn display_name_map(p: ProfilesConfigView) -> KeyedSeq<Seq<char>> {
    custom_names_upto(class_names_upto(CLASS_COUNT as nat), p.custom_configs, p.custom_configs.len())
}

/// The states of the first `n` classes, by id.
pub open spec fn class_states_upto(p: ProfilesConfigView, n: nat) -> KeyedSeq<ClassDisplayState>
    decreases n,
{
    if n == 0 {
        Seq::empty()
    } else {
        keyed_insert(
            class_states_upto(p, (n - 1) as nat),
            class_id_at((n - 1) as u16),
            class_state(p, class_id_at((n - 1) as u16)),
        )
    }
}

/// The states of the first `n` custom profiles, by id.
pub open spec fn custom_states_upto(customs: KeyedSeq<CustomConfigView>, n: nat) -> KeyedSeq<
    CustomConfigDisplayState,
>
    decreases n,
{
    if n == 0 {
        Seq::empty()
    } else {
        keyed_insert(
            custom_states_upto(customs, (n - 1) as nat),
            customs[n - 1].0,
            custom_state(customs[n - 1].1),
        )
    }
}

/// The visible classes among the first `k` of category `c`.
pub open spec fn visible_in_category_upto(p: ProfilesConfigView, c: u16, k: nat) -> Seq<
    ClassInfoModel,
>
    decreases k,
{
    if k == 0 {
        Seq::empty()
    } else {
        let i = (category_start(c) + k - 1) as u16;
        if class_state(p, class_id_at(i)).visible {
            visible_in_category_upto(p, c, (k - 1) as nat).push(
                ClassInfoModel { id: class_id_at(i), name: class_name_at(i), detection_index: i },
            )
        } else {
            visible_in_category_upto(p, c, (k - 1) as nat)
        }
    }
}

/// The categories among the first `n` that have a visible class, each with those
/// classes.
pub open spec fn visible_categories_upto(p: ProfilesConfigView, n: nat) -> Seq<ClassCategoryModel>
    decreases n,
{
    if n == 0 {
        Seq::empty()
    } else {
        let c = (n - 1) as u16;
        let visible = visible_in_category_upto(p, c, category_len(c) as nat);
        if visible.len() > 0 {
            visible_categories_upto(p, (n - 1) as nat).push(
                ClassCategoryModel { name: category_name_at(c), classes: visible },
            )
        } else {
            visible_categories_upto(p, (n - 1) as nat)
        }
    }
}

pub open spec fn categories_view(s: Seq<ClassCategoryView>) -> Seq<ClassCategoryModel> {
    Seq::new(s.len(), |i: int| s[i]@)
}

pub open spec fn infos_view(s: Seq<ClassInfoView>) -> Seq<ClassInfoModel> {
    Seq::new(s.len(), |i: int| s[i]@)
}

/// Everything the profile views show: selectable profiles, visible classes by category, display names and states.
pub fn profile_display_snapshot(profiles: &ProfilesConfig) -> (r: ProfileDisplaySnapshot)
    requires
        profiles.wf(),
    ensures
        options_view(r.config_options@) == config_option_list(profiles@),
        categories_view(r.visible_class_categories@) == visible_categories_upto(
            profiles@,
            CATEGORY_COUNT as nat,
        ),
        r.display_names@ == display_name_map(profiles@),
        r.class_states@ == class_states_upto(profiles@, CLASS_COUNT as nat),
        r.custom_config_states@ == custom_states_upto(
            profiles@.custom_configs,
            profiles@.custom_configs.len(),
        ),
        r.display_names.wf(),
        r.class_states.wf(),
        r.custom_config_states.wf(),
{
    let categories = class_categories();
    let mut class_states: KeyedMap<ClassDisplayState> = KeyedMap::new();
    let mut display_names: KeyedMap<String> = KeyedMap::new();
    let mut visible_class_categories: Vec<ClassCategoryView> = Vec::new();
    assert(categories_view(visible_class_categories@) =~= Seq::<ClassCategoryModel>::empty());
    let mut c: usize = 0;
    while c < categories.len()
        invariant
            c <= categories@.len(),
            categories@.len() == CATEGORY_COUNT,
            profiles.wf(),
            class_states.wf(),
            display_names.wf(),
            forall|d: int|
                0 <= d < categories@.len() ==> (#[trigger] categories@[d]).name@
                    == category_name_at(d as u16) && categories@[d].classes@.len() == category_len(
                    d as u16,
                ) && forall|k: int|
                    0 <= k < categories@[d].classes@.len() ==> {
                        let i = (category_start(d as u16) + k) as u16;
                        &&& (#[trigger] categories@[d].classes@[k]).id@ == class_id_at(i)
                        &&& categories@[d].classes@[k].name@ == class_name_at(i)
                        &&& categories@[d].classes@[k].detection_index == i
                    },
            c < CATEGORY_COUNT ==> class_names_upto(category_start(c as u16) as nat)
                == display_names@,
            c < CATEGORY_COUNT ==> class_states_upto(profiles@, category_start(c as u16) as nat)
                == class_states@,
            c == CATEGORY_COUNT ==> class_names_upto(CLASS_COUNT as nat) == display_names@,
            c == CATEGORY_COUNT ==> class_states_upto(profiles@, CLASS_COUNT as nat)
                == class_states@,
            categories_view(visible_class_categories@) == visible_categories_upto(
                profiles@,
                c as nat,
            ),
        decreases categories.len() - c,
    {
        let category = &categories[c];
        let cu = c as u16;
        proof {
            super::classes::lemma_categories_tile(cu);
        }
        let mut visible_classes: Vec<ClassInfoView> = Vec::new();
        assert(infos_view(visible_classes@) =~= Seq::<ClassInfoModel>::empty());
        let mut k: usize = 0;
        while k < category.classes.len()
            invariant
                k <= category.classes@.len(),
                category.classes@.len() == category_len(cu),
                category_start(cu) + category_len(cu) <= CLASS_COUNT,
                profiles.wf(),
                class_states.wf(),
                display_names.wf(),
                forall|t: int|
                    0 <= t < category.classes@.len() ==> {
                        let i = (category_start(cu) + t) as u16;
                        &&& (#[trigger] category.classes@[t]).id@ == class_id_at(i)
                        &&& category.classes@[t].name@ == class_name_at(i)
                        &&& category.classes@[t].detection_index == i
                    },
                class_names_upto((category_start(cu) + k) as nat) == display_names@,
                class_states_upto(profiles@, (category_start(cu) + k) as nat) == class_states@,
                infos_view(visible_classes@) == visible_in_category_upto(profiles@, cu, k as nat),
            decreases category.classes.len() - k,
        {
            let info = category.classes[k];
            let ghost i = (category_start(cu) + k) as u16;
            assert(info.id@ == class_id_at(i));
            display_names.insert(String::from_str(info.id), String::from_str(info.name));
            let state = class_display_state(profiles, info.id);
            if state.visible {
                let ghost before = visible_classes@;
                visible_classes.push(
                    ClassInfoView {
                        id: String::from_str(info.id),
                        name: String::from_str(info.name),
                        detection_index: info.detection_index,
                    },
                );
                assert(infos_view(visible_classes@) =~= infos_view(before).push(
                    visible_classes@[before.len() as int]@,
                ));
            }
            class_states.insert(String::from_str(info.id), state);
            k = k + 1;
        }
        if visible_classes.len() != 0 {
            let ghost before = visible_class_categories@;
            let ghost vis = infos_view(visible_classes@);
            visible_class_categories.push(
                ClassCategoryView { name: String::from_str(category.name), classes: visible_classes },
            );
            assert(visible_class_categories@[before.len() as int]@.classes =~= vis);
            assert(categories_view(visible_class_categories@) =~= categories_view(before).push(
                visible_class_categories@[before.len() as int]@,
            ));
        }
        c = c + 1;
    }
    let mut custom_config_states: KeyedMap<CustomConfigDisplayState> = KeyedMap::new();
    let ghost class_part = display_names@;
    let mut j: usize = 0;
    while j < profiles.custom_configs.len()
        invariant
            j <= profiles.custom_configs@.len(),
            display_names.wf(),
            custom_config_states.wf(),
            display_names@ == custom_names_upto(class_part, profiles.custom_configs@, j as nat),
            custom_config_states@ == custom_states_upto(profiles.custom_configs@, j as nat),
        decreases profiles.custom_configs@.len() - j,
    {
        let id = profiles.custom_configs.key_at(j);
        let config = profiles.custom_configs.value_at(j);
        display_names.insert(id.clone(), custom_config_label(config));
        custom_config_states.insert(id.clone(), custom_config_display_state(config));
        j = j + 1;
    }
    ProfileDisplaySnapshot {
        config_options: config_options(profiles),
        visible_class_categories,
        display_names,
        class_states,
        custom_config_states,
    }
}

proof fn lemma_visible_in_category_visible(p: ProfilesConfigView, c: u16, k: nat)
    ensures
        forall|j: int|
            0 <= j < visible_in_category_upto(p, c, k).len() ==> class_state(
                p,
                (#[trigger] visible_in_category_upto(p, c, k)[j]).id,
            ).visible,
    decreases k,
{
    if k > 0 {
        lemma_visible_in_category_visible(p, c, (k - 1) as nat);
        let prev = visible_in_category_upto(p, c, (k - 1) as nat);
        let cur = visible_in_category_upto(p, c, k);
        assert forall|j: int| 0 <= j < cur.len() implies class_state(p, (#[trigger] cur[j]).id).visible by {
            if j < prev.len() {
                assert(cur[j] == prev[j]);
            }
        }
    }
}

proof fn lemma_visible_categories_shape(p: ProfilesConfigView, n: nat)
    ensures
        forall|k: int|
            0 <= k < visible_categories_upto(p, n).len() ==> {
                let cat = #[trigger] visible_categories_upto(p, n)[k];
                &&& cat.classes.len() > 0
                &&& forall|j: int| 0 <= j < cat.classes.len() ==> class_state(p, (#[trigger] cat.classes[j]).id).visible
            },
    decreases n,
{
    if n > 0 {
        let c = (n - 1) as u16;
        lemma_visible_categories_shape(p, (n - 1) as nat);
        lemma_visible_in_category_visible(p, c, category_len(c) as nat);
        let prev = visible_categories_upto(p, (n - 1) as nat);
        let cur = visible_categories_upto(p, n);
        assert forall|k: int| 0 <= k < cur.len() implies {
            let cat = #[trigger] cur[k];
            &&& cat.classes.len() > 0
            &&& forall|j: int| 0 <= j < cat.classes.len() ==> class_state(p, (#[trigger] cat.classes[j]).id).visible
        } by {
            if k < prev.len() {
                assert(cur[k] == prev[k]);
            }
        }
    }
}

/// What the class picker shows: a class is visible exactly when it has something
/// configured or is not in the hidden list; every category listed has at least one
/// class, and every class listed is visible.
pub proof fn lemma_class_picker_shape(p: ProfilesConfigView)
    ensures
        forall|id: Seq<char>|
            (#[trigger] class_state(p, id)).visible == (class_state(p, id).configured || !p.hidden_class_ids.contains(
                id,
            )),
        forall|k: int|
            0 <= k < visible_categories_upto(p, CATEGORY_COUNT as nat).len() ==> {
                let cat = #[trigger] visible_categories_upto(p, CATEGORY_COUNT as nat)[k];
                &&& cat.classes.len() > 0
                &&& forall|j: int| 0 <= j < cat.classes.len() ==> class_state(p, (#[trigger] cat.classes[j]).id).visible
            },
{
    lemma_visible_categories_shape(p, CATEGORY_COUNT as nat);
}

/// Whether `s` holds the class with detection index `i`.
pub open spec fn lists_class(s: Seq<ClassInfoModel>, i: u16) -> bool {
    exists|j: int| 0 <= j < s.len() && (#[trigger] s[j]).detection_index == i
}

/// Whether some category of `cats` holds the class with detection index `i`.
pub open spec fn picker_lists(cats: Seq<ClassCategoryModel>, i: u16) -> bool {
    exists|k: int| 0 <= k < cats.len() && lists_class((#[trigger] cats[k]).classes, i)
}

/// Whether class `i` lies in category `c`.
pub open spec fn in_category(c: u16, i: u16) -> bool {
    category_start(c) <= i < category_start(c) + category_len(c)
}

proof fn lemma_visible_in_category_lists(p: ProfilesConfigView, c: u16, k: nat)
    requires
        c < CATEGORY_COUNT,
        k <= category_len(c),
    ensures
        forall|i: u16|
            #[trigger] lists_class(visible_in_category_upto(p, c, k), i) <==> (category_start(c) <= i
                < category_start(c) + k && class_state(p, class_id_at(i)).visible),
        forall|j: int|
            0 <= j < visible_in_category_upto(p, c, k).len() ==> {
                let e = #[trigger] visible_in_category_upto(p, c, k)[j];
                e.id == class_id_at(e.detection_index) && e.name == class_name_at(e.detection_index)
            },
    decreases k,
{
    lemma_categories_tile(c);
    if k > 0 {
        lemma_visible_in_category_lists(p, c, (k - 1) as nat);
        let prev = visible_in_category_upto(p, c, (k - 1) as nat);
        let cur = visible_in_category_upto(p, c, k);
        let idx = (category_start(c) + k - 1) as u16;
        assert(idx == category_start(c) + k - 1);
        assert forall|i: u16| #[trigger] lists_class(cur, i) <==> (category_start(c) <= i < category_start(c) + k
            && class_state(p, class_id_at(i)).visible) by {
            if lists_class(prev, i) {
                let j = choose|j: int| 0 <= j < prev.len() && (#[trigger] prev[j]).detection_index == i;
                assert(cur[j] == prev[j]);
            }
            if lists_class(cur, i) {
                let j = choose|j: int| 0 <= j < cur.len() && (#[trigger] cur[j]).detection_index == i;
                if j < prev.len() {
                    assert(cur[j] == prev[j]);
                    assert(lists_class(prev, i));
                }
            }
            if category_start(c) <= i < category_start(c) + k && class_state(p, class_id_at(i)).visible {
                if i == idx {
                    assert(cur[cur.len() - 1].detection_index == i);
                } else {
                    assert(lists_class(prev, i));
                    let j = choose|j: int| 0 <= j < prev.len() && (#[trigger] prev[j]).detection_index == i;
                    assert(cur[j] == prev[j]);
                }
            }
        }
        assert forall|j: int| 0 <= j < cur.len() implies {
            let e = #[trigger] cur[j];
            e.id == class_id_at(e.detection_index) && e.name == class_name_at(e.detection_index)
        } by {
            if j < prev.len() {
                assert(cur[j] == prev[j]);
            }
        }
    } else {
        assert forall|i: u16| #[trigger] lists_class(visible_in_category_upto(p, c, k), i) <==> (category_start(c)
            <= i < category_start(c) + k && class_state(p, class_id_at(i)).visible) by {}
    }
}

proof fn lemma_visible_categories_lists(p: ProfilesConfigView, n: nat)
    requires
        n <= CATEGORY_COUNT,
    ensures
        forall|i: u16|
            #[trigger] picker_lists(visible_categories_upto(p, n), i) <==> (exists|c: u16|
                c < n && #[trigger] in_category(c, i) && class_state(p, class_id_at(i)).visible),
        forall|k: int, j: int|
            0 <= k < visible_categories_upto(p, n).len() && 0 <= j < visible_categories_upto(p, n)[k].classes.len()
                ==> {
                let e = #[trigger] visible_categories_upto(p, n)[k].classes[j];
                e.id == class_id_at(e.detection_index) && e.name == class_name_at(e.detection_index)
            },
    decreases n,
{
    if n > 0 {
        let c = (n - 1) as u16;
        lemma_visible_categories_lists(p, (n - 1) as nat);
        lemma_visible_in_category_lists(p, c, category_len(c) as nat);
        let prev = visible_categories_upto(p, (n - 1) as nat);
        let cur = visible_categories_upto(p, n);
        let vis = visible_in_category_upto(p, c, category_len(c) as nat);
        assert forall|i: u16| #[trigger] picker_lists(cur, i) <==> (exists|d: u16|
            d < n && #[trigger] in_category(d, i) && class_state(p, class_id_at(i)).visible) by {
            if picker_lists(prev, i) {
                let k = choose|k: int| 0 <= k < prev.len() && lists_class((#[trigger] prev[k]).classes, i);
                assert(cur[k] == prev[k]);
            }
            if picker_lists(cur, i) {
                let k = choose|k: int| 0 <= k < cur.len() && lists_class((#[trigger] cur[k]).classes, i);
                if k < prev.len() {
                    assert(cur[k] == prev[k]);
                    assert(picker_lists(prev, i));
                } else {
                    assert(cur[k].classes == vis);
                    assert(in_category(c, i));
                }
            }
            if exists|d: u16| d < n && #[trigger] in_category(d, i) && class_state(p, class_id_at(i)).visible {
                let d = choose|d: u16| d < n && #[trigger] in_category(d, i) && class_state(p, class_id_at(i)).visible;
                if d == c {
                    assert(lists_class(vis, i));
                    assert(vis.len() > 0);
                    assert(cur[cur.len() - 1].classes == vis);
                } else {
                    assert(picker_lists(prev, i));
                    let k = choose|k: int| 0 <= k < prev.len() && lists_class((#[trigger] prev[k]).classes, i);
                    assert(cur[k] == prev[k]);
                }
            }
        }
        assert forall|k: int, j: int|
            0 <= k < cur.len() && 0 <= j < cur[k].classes.len() implies {
                let e = #[trigger] cur[k].classes[j];
                e.id == class_id_at(e.detection_index) && e.name == class_name_at(e.detection_index)
            } by {
            if k < prev.len() {
                assert(cur[k] == prev[k]);
            } else {
                assert(cur[k].classes == vis);
            }
        }
    }
}

/// The category holding class `i`.
pub open spec fn category_of(i: u16) -> u16 {
    if i < 5 { 0 } else if i < 10 { 1 } else if i < 14 { 2 } else if i < 18 { 3 } else if i < 23 { 4 }
    else if i < 28 { 5 } else if i < 33 { 6 } else if i < 38 { 7 } else if i < 42 { 8 } else if i < 46 { 9 }
    else if i < 50 { 10 } else if i < 54 { 11 } else if i < 58 { 12 } else if i < 62 { 13 } else if i < 67 { 14 }
    else { 15 }
}

/// The class picker lists a class of the table exactly when it is visible, that is when
/// it has something configured or is not hidden; each class it lists appears under its
/// own id and name; it lists nothing outside the table.
pub proof fn lemma_class_picker_lists_visible(p: ProfilesConfigView)
    ensures
        forall|i: u16|
            #[trigger] picker_lists(visible_categories_upto(p, CATEGORY_COUNT as nat), i) <==> (i < CLASS_COUNT
                && class_state(p, class_id_at(i)).visible),
        forall|i: u16|
            i < CLASS_COUNT ==> (#[trigger] class_state(p, class_id_at(i))).visible == (class_state(
                p,
                class_id_at(i),
            ).configured || !p.hidden_class_ids.contains(class_id_at(i))),
        forall|k: int, j: int|
            0 <= k < visible_categories_upto(p, CATEGORY_COUNT as nat).len() && 0 <= j
                < visible_categories_upto(p, CATEGORY_COUNT as nat)[k].classes.len() ==> {
                let e = #[trigger] visible_categories_upto(p, CATEGORY_COUNT as nat)[k].classes[j];
                e.id == class_id_at(e.detection_index) && e.name == class_name_at(e.detection_index)
            },
{
    lemma_visible_categories_lists(p, CATEGORY_COUNT as nat);
    assert forall|i: u16| #[trigger] picker_lists(visible_categories_upto(p, CATEGORY_COUNT as nat), i) <==> (i
        < CLASS_COUNT && class_state(p, class_id_at(i)).visible) by {
        if i < CLASS_COUNT {
            let c = category_of(i);
            assert(in_category(c, i));
        }
        if exists|d: u16| d < CATEGORY_COUNT && #[trigger] in_category(d, i) && class_state(p, class_id_at(i)).visible {
            let d = choose|d: u16| d < CATEGORY_COUNT && #[trigger] in_category(d, i) && class_state(
                p,
                class_id_at(i),
            ).visible;
            lemma_categories_tile(d);
        }
    }
}

} // verus!
