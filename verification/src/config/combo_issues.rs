//! Per-field issues of a combo list, as the combo editor shows them: every problem
//! found, not only the first, each tied to its combo and, where it has one, its action.

use super::defaults::{MAX_COMBO_GAP_MS, MAX_COMBO_HOLD_MS, MAX_COMBO_WAIT_MS, MIN_COMBO_HOLD_MS};
use super::schema::{
    action_id_of, seq_view, ComboAction, ComboActionView, ComboDefinition, ComboDefinitionView,
    ComboValidationField, ComboValidationIssue, ComboValidationIssueView, ProfilesConfig,
};
use super::validation::{
    action_enabled_error, action_enabled_problem, action_timing_error, actions_enabled_ok,
    actions_timing_ok, combos_acceptable, combos_error, enabled_combo_ok, hold_in_range, key_vks,
    lemma_combos_error_none_iff, vk_listed, vks_of,
};
use crate::domain::{compute_effective_keys_for_profile, effective_keys_for};
use crate::text::{is_blank, text_is_blank};
use vstd::prelude::*;

verus! {

pub open spec fn msg_issue_name() -> Seq<char> {
    "启用的连招必须填写名称。"@
}

pub open spec fn msg_issue_trigger_missing() -> Seq<char> {
    "启用的连招必须设置触发键。"@
}

pub open spec fn msg_issue_trigger_overlap() -> Seq<char> {
    "触发键不能与当前生效连发键重复。"@
}

pub open spec fn msg_issue_trigger_duplicate() -> Seq<char> {
    "同一职业的连招触发键不能重复。"@
}

pub open spec fn msg_issue_no_actions() -> Seq<char> {
    "启用的连招至少需要一个动作。"@
}

pub open spec fn msg_issue_hold() -> Seq<char> {
    "按下时长必须在 10-1000 毫秒之间。"@
}

pub open spec fn msg_issue_gap() -> Seq<char> {
    "按键间隔不能超过 1000 毫秒。"@
}

pub open spec fn msg_issue_wait() -> Seq<char> {
    "动作后等待不能超过 5000 毫秒。"@
}

pub open spec fn issue(
    combo_id: Seq<char>,
    action_id: Option<Seq<char>>,
    field: ComboValidationField,
    message: Seq<char>,
) -> ComboValidationIssueView {
    ComboValidationIssueView { combo_id, action_id, field, message }
}

/// One issue when `bad`, none otherwise.
pub open spec fn issue_if(bad: bool, i: ComboValidationIssueView) -> Seq<ComboValidationIssueView> {
    if bad {
        seq![i]
    } else {
        Seq::empty()
    }
}

/// The timing issues of one action, in field order.
pub open spec fn action_timing_issues(combo_id: Seq<char>, a: ComboActionView) -> Seq<
    ComboValidationIssueView,
> {
    match a {
        ComboActionView::Tap { id, hold_ms, wait_after_ms, .. } => issue_if(
            !hold_in_range(hold_ms),
            issue(combo_id, Some(id), ComboValidationField::HoldMs, msg_issue_hold()),
        ) + issue_if(
            wait_after_ms > MAX_COMBO_WAIT_MS,
            issue(combo_id, Some(id), ComboValidationField::WaitAfterMs, msg_issue_wait()),
        ),
        ComboActionView::Command { id, key_hold_ms, key_gap_ms, wait_after_ms, .. } => issue_if(
            !hold_in_range(key_hold_ms),
            issue(combo_id, Some(id), ComboValidationField::KeyHoldMs, msg_issue_hold()),
        ) + issue_if(
            key_gap_ms > MAX_COMBO_GAP_MS,
            issue(combo_id, Some(id), ComboValidationField::KeyGapMs, msg_issue_gap()),
        ) + issue_if(
            wait_after_ms > MAX_COMBO_WAIT_MS,
            issue(combo_id, Some(id), ComboValidationField::WaitAfterMs, msg_issue_wait()),
        ),
    }
}

pub open spec fn enabled_field(a: ComboActionView) -> ComboValidationField {
    match a {
        ComboActionView::Tap { .. } => ComboValidationField::TapKey,
        ComboActionView::Command { .. } => ComboValidationField::CommandKeys,
    }
}

/// The issue of an action of an enabled combo, if it has one.
pub open spec fn action_enabled_issues(combo_id: Seq<char>, a: ComboActionView) -> Seq<
    ComboValidationIssueView,
> {
    match action_enabled_error(a) {
        Some(m) => seq![issue(combo_id, Some(action_id_of(a)), enabled_field(a), m)],
        None => Seq::empty(),
    }
}

pub open spec fn actions_timing_issues_upto(
    combo_id: Seq<char>,
    actions: Seq<ComboActionView>,
    n: nat,
) -> Seq<ComboValidationIssueView>
    decreases n,
{
    if n == 0 {
        Seq::empty()
    } else {
        actions_timing_issues_upto(combo_id, actions, (n - 1) as nat) + action_timing_issues(
            combo_id,
            actions[n - 1],
        )
    }
}

pub open spec fn actions_enabled_issues_upto(
    combo_id: Seq<char>,
    actions: Seq<ComboActionView>,
    n: nat,
) -> Seq<ComboValidationIssueView>
    decreases n,
{
    if n == 0 {
        Seq::empty()
    } else {
        actions_enabled_issues_upto(combo_id, actions, (n - 1) as nat) + action_enabled_issues(
            combo_id,
            actions[n - 1],
        )
    }
}

/// The issues of an enabled combo beyond its action timings: name, trigger, an empty
/// action list, then the issues of each action.
pub open spec fn enabled_combo_issues(c: ComboDefinitionView, effective: Set<u16>) -> Seq<
    ComboValidationIssueView,
> {
    issue_if(is_blank(c.name), issue(c.id, None, ComboValidationField::Name, msg_issue_name()))
        + match c.trigger_vk {
        Some(t) => issue_if(
            effective.contains(t),
            issue(c.id, None, ComboValidationField::Trigger, msg_issue_trigger_overlap()),
        ),
        None => seq![issue(c.id, None, ComboValidationField::Trigger, msg_issue_trigger_missing())],
    } + issue_if(
        c.actions.len() == 0,
        issue(c.id, None, ComboValidationField::Actions, msg_issue_no_actions()),
    ) + actions_enabled_issues_upto(c.id, c.actions, c.actions.len())
}

/// The issues of one combo found on its own.
pub open spec fn combo_issues(c: ComboDefinitionView, effective: Set<u16>) -> Seq<
    ComboValidationIssueView,
> {
    actions_timing_issues_upto(c.id, c.actions, c.actions.len()) + if c.enabled {
        enabled_combo_issues(c, effective)
    } else {
        Seq::empty()
    }
}

pub open spec fn combos_issues_upto(
    combos: Seq<ComboDefinitionView>,
    effective: Set<u16>,
    n: nat,
) -> Seq<ComboValidationIssueView>
    decreases n,
{
    if n == 0 {
        Seq::empty()
    } else {
        combos_issues_upto(combos, effective, (n - 1) as nat) + combo_issues(combos[n - 1], effective)
    }
}

/// Whether combo `c` is enabled and fires on `t`.
pub open spec fn owns_trigger(c: ComboDefinitionView, t: u16) -> bool {
    c.enabled && c.trigger_vk == Some(t)
}

/// How many of the first `n` combos are enabled and fire on `t`.
pub open spec fn owner_count(combos: Seq<ComboDefinitionView>, t: u16, n: nat) -> nat
    decreases n,
{
    if n == 0 {
        0
    } else if owns_trigger(combos[n - 1], t) {
        owner_count(combos, t, (n - 1) as nat) + 1
    } else {
        owner_count(combos, t, (n - 1) as nat)
    }
}

/// One duplicate-trigger issue for each of the first `n` combos that fire on `t`.
pub open spec fn owner_issues(combos: Seq<ComboDefinitionView>, t: u16, n: nat) -> Seq<
    ComboValidationIssueView,
>
    decreases n,
{
    if n == 0 {
        Seq::empty()
    } else {
        owner_issues(combos, t, (n - 1) as nat) + issue_if(
            owns_trigger(combos[n - 1], t),
            issue(
                combos[n - 1].id,
                None,
                ComboValidationField::Trigger,
                msg_issue_trigger_duplicate(),
            ),
        )
    }
}

/// The duplicate-trigger issues of trigger `t`: one per owner when it has two or more.
pub open spec fn trigger_duplicate_issues(combos: Seq<ComboDefinitionView>, t: u16) -> Seq<
    ComboValidationIssueView,
> {
    if owner_count(combos, t, combos.len()) >= 2 {
        owner_issues(combos, t, combos.len())
    } else {
        Seq::empty()
    }
}

/// The duplicate-trigger issues of every trigger below `t`, by ascending trigger.
pub open spec fn duplicate_issues_below(combos: Seq<ComboDefinitionView>, t: nat) -> Seq<
    ComboValidationIssueView,
>
    decreases t,
{
    if t == 0 || t > 0x10000 {
        Seq::empty()
    } else {
        duplicate_issues_below(combos, (t - 1) as nat) + trigger_duplicate_issues(
            combos,
            (t - 1) as u16,
        )
    }
}

/// Every issue of a combo list: each combo's own issues in list order, then the
/// duplicate-trigger issues by ascending trigger.
pub open spec fn all_combo_issues(combos: Seq<ComboDefinitionView>, effective: Set<u16>) -> Seq<
    ComboValidationIssueView,
> {
    combos_issues_upto(combos, effective, combos.len()) + duplicate_issues_below(combos, 0x10000)
}

// ---------------------------------------------------------------------------
// Laws of the issue list
// ---------------------------------------------------------------------------
/// The issue list of one action of an enabled combo: at most one issue, none exactly
/// when the action passes the enabled-combo checks, and that one names the combo and
/// the action, the key field of the action's kind (tap key or command keys), and the
/// message `validate_enabled_combo_action` gives.
pub proof fn lemma_action_enabled_issue(combo_id: Seq<char>, a: ComboActionView)
    ensures
        action_enabled_issues(combo_id, a).len() <= 1,
        action_enabled_issues(combo_id, a).len() == 0 <==> action_enabled_error(a) is None,
        forall|k: int|
            0 <= k < action_enabled_issues(combo_id, a).len() ==> #[trigger] action_enabled_issues(combo_id, a)[k]
                == issue(
                combo_id,
                Some(action_id_of(a)),
                match a {
                    ComboActionView::Tap { .. } => ComboValidationField::TapKey,
                    ComboActionView::Command { .. } => ComboValidationField::CommandKeys,
                },
                action_enabled_error(a)->Some_0,
            ),
{
}

proof fn lemma_timing_issues_none_upto(id: Seq<char>, actions: Seq<ComboActionView>, n: nat)
    requires
        n <= actions.len(),
    ensures
        actions_timing_issues_upto(id, actions, n).len() == 0 <==> forall|j: int|
            0 <= j < n ==> (#[trigger] action_timing_error(actions[j])) is None,
    decreases n,
{
    if n > 0 {
        lemma_timing_issues_none_upto(id, actions, (n - 1) as nat);
        let a = actions[n - 1];
        assert(action_timing_issues(id, a).len() == 0 <==> action_timing_error(a) is None);
    }
}

proof fn lemma_enabled_issues_none_upto(id: Seq<char>, actions: Seq<ComboActionView>, n: nat)
    requires
        n <= actions.len(),
    ensures
        actions_enabled_issues_upto(id, actions, n).len() == 0 <==> forall|j: int|
            0 <= j < n ==> (#[trigger] action_enabled_error(actions[j])) is None,
    decreases n,
{
    if n > 0 {
        lemma_enabled_issues_none_upto(id, actions, (n - 1) as nat);
    }
}

/// A combo with no issue of its own: its actions pass the timing checks and, if it is
/// enabled, it has what an enabled combo needs.
pub open spec fn combo_clean(c: ComboDefinitionView, effective: Set<u16>) -> bool {
    actions_timing_ok(c.actions) && (c.enabled ==> enabled_combo_ok(c, effective))
}

proof fn lemma_combo_issues_none(c: ComboDefinitionView, effective: Set<u16>)
    ensures
        combo_issues(c, effective).len() == 0 <==> combo_clean(c, effective),
{
    lemma_timing_issues_none_upto(c.id, c.actions, c.actions.len());
    lemma_enabled_issues_none_upto(c.id, c.actions, c.actions.len());
}

proof fn lemma_combos_issues_none_upto(combos: Seq<ComboDefinitionView>, effective: Set<u16>, n: nat)
    requires
        n <= combos.len(),
    ensures
        combos_issues_upto(combos, effective, n).len() == 0 <==> forall|i: int|
            0 <= i < n ==> #[trigger] combo_clean(combos[i], effective),
    decreases n,
{
    if n > 0 {
        let k = (n - 1) as nat;
        lemma_combos_issues_none_upto(combos, effective, k);
        lemma_combo_issues_none(combos[k as int], effective);
        let prev = combos_issues_upto(combos, effective, k);
        let cur = combo_issues(combos[k as int], effective);
        assert(combos_issues_upto(combos, effective, n) == prev + cur);
        if forall|i: int| 0 <= i < n ==> #[trigger] combo_clean(combos[i], effective) {
            assert(combo_clean(combos[k as int], effective));
            assert forall|i: int| 0 <= i < k implies #[trigger] combo_clean(combos[i], effective) by {
                assert(combo_clean(combos[i], effective));
            }
        }
    }
}

proof fn lemma_owner_issues_len(combos: Seq<ComboDefinitionView>, t: u16, n: nat)
    ensures
        owner_issues(combos, t, n).len() == owner_count(combos, t, n),
    decreases n,
{
    if n > 0 {
        lemma_owner_issues_len(combos, t, (n - 1) as nat);
    }
}

proof fn lemma_owner_count_pairs(combos: Seq<ComboDefinitionView>, t: u16, n: nat)
    requires
        n <= combos.len(),
    ensures
        owner_count(combos, t, n) == 0 <==> forall|i: int| 0 <= i < n ==> !owns_trigger(#[trigger] combos[i], t),
        owner_count(combos, t, n) < 2 <==> forall|i: int, j: int|
            0 <= i < j < n ==> !(owns_trigger(#[trigger] combos[i], t) && owns_trigger(#[trigger] combos[j], t)),
    decreases n,
{
    if n > 0 {
        let k = n - 1;
        lemma_owner_count_pairs(combos, t, (n - 1) as nat);
        if owns_trigger(combos[k], t) && owner_count(combos, t, (n - 1) as nat) > 0 {
            let i = choose|i: int| 0 <= i < k && owns_trigger(#[trigger] combos[i], t);
            assert(owns_trigger(combos[i], t) && owns_trigger(combos[k], t));
        }
    }
}

proof fn lemma_duplicate_issues_none_below(combos: Seq<ComboDefinitionView>, t: nat)
    requires
        t <= 0x10000,
    ensures
        duplicate_issues_below(combos, t).len() == 0 <==> forall|v: u16|
            v < t ==> #[trigger] owner_count(combos, v, combos.len()) < 2,
    decreases t,
{
    if t > 0 {
        lemma_duplicate_issues_none_below(combos, (t - 1) as nat);
        let v = (t - 1) as u16;
        lemma_owner_issues_len(combos, v, combos.len());
        if duplicate_issues_below(combos, t).len() == 0 {
            assert forall|w: u16| w < t implies #[trigger] owner_count(combos, w, combos.len()) < 2 by {
                if w == v {
                    assert(trigger_duplicate_issues(combos, v).len() == 0);
                }
            }
        }
    }
}

/// No two enabled combos share a trigger key exactly when no trigger key has two owners.
proof fn lemma_distinct_triggers(combos: Seq<ComboDefinitionView>)
    requires
        forall|i: int| 0 <= i < combos.len() && (#[trigger] combos[i]).enabled ==> combos[i].trigger_vk is Some,
    ensures
        (forall|v: u16| #[trigger] owner_count(combos, v, combos.len()) < 2) <==> (forall|i: int, j: int|
            0 <= i < j < combos.len() && (#[trigger] combos[i]).enabled && (#[trigger] combos[j]).enabled
                ==> combos[i].trigger_vk != combos[j].trigger_vk),
{
    if forall|v: u16| #[trigger] owner_count(combos, v, combos.len()) < 2 {
        assert forall|i: int, j: int|
            0 <= i < j < combos.len() && (#[trigger] combos[i]).enabled && (#[trigger] combos[j]).enabled
                implies combos[i].trigger_vk != combos[j].trigger_vk by {
            let v = combos[i].trigger_vk->Some_0;
            lemma_owner_count_pairs(combos, v, combos.len());
            if combos[j].trigger_vk == combos[i].trigger_vk {
                assert(owns_trigger(combos[i], v) && owns_trigger(combos[j], v));
                assert(owner_count(combos, v, combos.len()) < 2);
            }
        }
    }
    if forall|i: int, j: int|
        0 <= i < j < combos.len() && (#[trigger] combos[i]).enabled && (#[trigger] combos[j]).enabled
            ==> combos[i].trigger_vk != combos[j].trigger_vk {
        assert forall|v: u16| #[trigger] owner_count(combos, v, combos.len()) < 2 by {
            lemma_owner_count_pairs(combos, v, combos.len());
            assert forall|i: int, j: int|
                0 <= i < j < combos.len() implies !(owns_trigger(#[trigger] combos[i], v) && owns_trigger(
                    #[trigger] combos[j],
                    v,
                )) by {
                if owns_trigger(combos[i], v) && owns_trigger(combos[j], v) {
                    assert(combos[i].enabled && combos[j].enabled);
                }
            }
        }
    }
}

/// The editor's issue list is empty exactly when the combo list is accepted: no issue
/// is shown for a list that `validate_combo_defs` takes, and some issue is shown for
/// every list it refuses.
pub proof fn lemma_no_issues_iff_accepted(combos: Seq<ComboDefinitionView>, effective: Set<u16>)
    ensures
        all_combo_issues(combos, effective).len() == 0 <==> combos_error(combos, effective) is None,
{
    lemma_combos_error_none_iff(combos, effective);
    lemma_combos_issues_none_upto(combos, effective, combos.len());
    lemma_duplicate_issues_none_below(combos, 0x10000);
    let own = combos_issues_upto(combos, effective, combos.len());
    let dup = duplicate_issues_below(combos, 0x10000);
    assert(all_combo_issues(combos, effective) == own + dup);
    assert((forall|v: u16| v < 0x10000 ==> #[trigger] owner_count(combos, v, combos.len()) < 2) <==> (forall|
        v: u16,
    | #[trigger] owner_count(combos, v, combos.len()) < 2));
    if own.len() == 0 {
        assert forall|i: int| 0 <= i < combos.len() && (#[trigger] combos[i]).enabled implies combos[i].trigger_vk is Some by {
            assert(combo_clean(combos[i], effective));
        }
        lemma_distinct_triggers(combos);
    }
    if combos_acceptable(combos, effective) {
        assert forall|i: int| 0 <= i < combos.len() && (#[trigger] combos[i]).enabled implies combos[i].trigger_vk is Some by {
            assert(enabled_combo_ok(combos[i], effective));
        }
        lemma_distinct_triggers(combos);
        assert forall|i: int| 0 <= i < combos.len() implies #[trigger] combo_clean(combos[i], effective) by {
            assert(actions_timing_ok(combos[i].actions));
        }
        assert(own.len() == 0);
        assert(dup.len() == 0);
    }
    if all_combo_issues(combos, effective).len() == 0 {
        assert(own.len() == 0 && dup.len() == 0);
        assert forall|i: int| 0 <= i < combos.len() implies actions_timing_ok(#[trigger] combos[i].actions) by {
            assert(combo_clean(combos[i], effective));
        }
        assert forall|i: int| 0 <= i < combos.len() && (#[trigger] combos[i]).enabled implies enabled_combo_ok(
            combos[i],
            effective,
        ) by {
            assert(combo_clean(combos[i], effective));
        }
        assert(combos_acceptable(combos, effective));
    }
}

/// The timing fields, the only ones a disabled combo is checked on.
pub open spec fn timing_field(f: ComboValidationField) -> bool {
    f is HoldMs || f is KeyHoldMs || f is KeyGapMs || f is WaitAfterMs
}

/// Every issue of `s` names combo `id`, and, unless `enabled`, only a timing field.
pub open spec fn issues_of(s: Seq<ComboValidationIssueView>, id: Seq<char>, enabled: bool) -> bool {
    forall|k: int| 0 <= k < s.len() ==> (#[trigger] s[k]).combo_id == id && (!timing_field(s[k].field) ==> enabled)
}

/// Issue `x` names some combo of the list, and, unless its field is a timing field, an
/// enabled one.
pub open spec fn issue_belongs(combos: Seq<ComboDefinitionView>, x: ComboValidationIssueView) -> bool {
    exists|i: int|
        0 <= i < combos.len() && (#[trigger] combos[i]).id == x.combo_id && (!timing_field(x.field)
            ==> combos[i].enabled)
}

pub open spec fn all_belong(combos: Seq<ComboDefinitionView>, s: Seq<ComboValidationIssueView>) -> bool {
    forall|k: int| 0 <= k < s.len() ==> issue_belongs(combos, #[trigger] s[k])
}

proof fn lemma_issues_of_concat(a: Seq<ComboValidationIssueView>, b: Seq<ComboValidationIssueView>, id: Seq<char>, e: bool)
    requires
        issues_of(a, id, e),
        issues_of(b, id, e),
    ensures
        issues_of(a + b, id, e),
{
    assert forall|k: int| 0 <= k < (a + b).len() implies (#[trigger] (a + b)[k]).combo_id == id && (!timing_field(
        (a + b)[k].field,
    ) ==> e) by {
        if k < a.len() {
            assert((a + b)[k] == a[k]);
        } else {
            assert((a + b)[k] == b[k - a.len()]);
        }
    }
}

proof fn lemma_all_belong_concat(combos: Seq<ComboDefinitionView>, a: Seq<ComboValidationIssueView>, b: Seq<ComboValidationIssueView>)
    requires
        all_belong(combos, a),
        all_belong(combos, b),
    ensures
        all_belong(combos, a + b),
{
    assert forall|k: int| 0 <= k < (a + b).len() implies issue_belongs(combos, #[trigger] (a + b)[k]) by {
        if k < a.len() {
            assert((a + b)[k] == a[k]);
        } else {
            assert((a + b)[k] == b[k - a.len()]);
        }
    }
}

proof fn lemma_timing_issues_of(id: Seq<char>, actions: Seq<ComboActionView>, n: nat, e: bool)
    ensures
        issues_of(actions_timing_issues_upto(id, actions, n), id, e),
    decreases n,
{
    if n > 0 {
        lemma_timing_issues_of(id, actions, (n - 1) as nat, e);
        let t = action_timing_issues(id, actions[n - 1]);
        assert(issues_of(t, id, e)) by {
            match actions[n - 1] {
                ComboActionView::Tap { .. } => {},
                ComboActionView::Command { .. } => {},
            }
        }
        lemma_issues_of_concat(actions_timing_issues_upto(id, actions, (n - 1) as nat), t, id, e);
    }
}

proof fn lemma_enabled_issues_of(id: Seq<char>, actions: Seq<ComboActionView>, n: nat)
    ensures
        issues_of(actions_enabled_issues_upto(id, actions, n), id, true),
    decreases n,
{
    if n > 0 {
        lemma_enabled_issues_of(id, actions, (n - 1) as nat);
        lemma_issues_of_concat(
            actions_enabled_issues_upto(id, actions, (n - 1) as nat),
            action_enabled_issues(id, actions[n - 1]),
            id,
            true,
        );
    }
}

proof fn lemma_combo_issues_of(c: ComboDefinitionView, effective: Set<u16>)
    ensures
        issues_of(combo_issues(c, effective), c.id, c.enabled),
{
    lemma_timing_issues_of(c.id, c.actions, c.actions.len(), c.enabled);
    if c.enabled {
        let name = issue_if(is_blank(c.name), issue(c.id, None, ComboValidationField::Name, msg_issue_name()));
        let trig = match c.trigger_vk {
            Some(t) => issue_if(
                effective.contains(t),
                issue(c.id, None, ComboValidationField::Trigger, msg_issue_trigger_overlap()),
            ),
            None => seq![issue(c.id, None, ComboValidationField::Trigger, msg_issue_trigger_missing())],
        };
        let empty = issue_if(
            c.actions.len() == 0,
            issue(c.id, None, ComboValidationField::Actions, msg_issue_no_actions()),
        );
        let acts = actions_enabled_issues_upto(c.id, c.actions, c.actions.len());
        lemma_enabled_issues_of(c.id, c.actions, c.actions.len());
        assert(issues_of(name, c.id, true));
        assert(issues_of(trig, c.id, true));
        assert(issues_of(empty, c.id, true));
        lemma_issues_of_concat(name, trig, c.id, true);
        lemma_issues_of_concat(name + trig, empty, c.id, true);
        lemma_issues_of_concat(name + trig + empty, acts, c.id, true);
        assert(enabled_combo_issues(c, effective) == name + trig + empty + acts);
        lemma_issues_of_concat(
            actions_timing_issues_upto(c.id, c.actions, c.actions.len()),
            enabled_combo_issues(c, effective),
            c.id,
            true,
        );
    } else {
        assert(combo_issues(c, effective) =~= actions_timing_issues_upto(c.id, c.actions, c.actions.len()));
    }
}

proof fn lemma_combos_issues_belong(combos: Seq<ComboDefinitionView>, effective: Set<u16>, n: nat)
    requires
        n <= combos.len(),
    ensures
        all_belong(combos, combos_issues_upto(combos, effective, n)),
    decreases n,
{
    if n > 0 {
        let k = n - 1;
        lemma_combos_issues_belong(combos, effective, (n - 1) as nat);
        let c = combos[k];
        lemma_combo_issues_of(c, effective);
        let cur = combo_issues(c, effective);
        assert forall|m: int| 0 <= m < cur.len() implies issue_belongs(combos, #[trigger] cur[m]) by {
            assert(combos[k].id == cur[m].combo_id);
        }
        lemma_all_belong_concat(combos, combos_issues_upto(combos, effective, (n - 1) as nat), cur);
    }
}

proof fn lemma_owner_issues_belong(combos: Seq<ComboDefinitionView>, t: u16, n: nat)
    requires
        n <= combos.len(),
    ensures
        all_belong(combos, owner_issues(combos, t, n)),
    decreases n,
{
    if n > 0 {
        let k = n - 1;
        lemma_owner_issues_belong(combos, t, (n - 1) as nat);
        let cur = issue_if(
            owns_trigger(combos[k], t),
            issue(combos[k].id, None, ComboValidationField::Trigger, msg_issue_trigger_duplicate()),
        );
        assert forall|m: int| 0 <= m < cur.len() implies issue_belongs(combos, #[trigger] cur[m]) by {
            assert(combos[k].id == cur[m].combo_id);
        }
        lemma_all_belong_concat(combos, owner_issues(combos, t, (n - 1) as nat), cur);
    }
}

proof fn lemma_duplicate_issues_belong(combos: Seq<ComboDefinitionView>, t: nat)
    ensures
        all_belong(combos, duplicate_issues_below(combos, t)),
    decreases t,
{
    if t > 0 && t <= 0x10000 {
        lemma_duplicate_issues_belong(combos, (t - 1) as nat);
        let v = (t - 1) as u16;
        lemma_owner_issues_belong(combos, v, combos.len());
        assert(all_belong(combos, Seq::<ComboValidationIssueView>::empty()));
        lemma_all_belong_concat(combos, duplicate_issues_below(combos, (t - 1) as nat), trigger_duplicate_issues(combos, v));
    } else {
        assert(duplicate_issues_below(combos, t) =~= Seq::<ComboValidationIssueView>::empty());
    }
}

/// Every issue the editor shows names a combo of the list, and a disabled combo is
/// shown only timing issues: name, trigger, action-list and key issues fall on enabled
/// combos alone.
pub proof fn lemma_issues_name_their_combos(combos: Seq<ComboDefinitionView>, effective: Set<u16>)
    ensures
        forall|k: int|
            0 <= k < all_combo_issues(combos, effective).len() ==> issue_belongs(
                combos,
                #[trigger] all_combo_issues(combos, effective)[k],
            ),
{
    lemma_combos_issues_belong(combos, effective, combos.len());
    lemma_duplicate_issues_belong(combos, 0x10000);
    lemma_all_belong_concat(
        combos,
        combos_issues_upto(combos, effective, combos.len()),
        duplicate_issues_below(combos, 0x10000),
    );
}

fn push_issue(
    issues: &mut Vec<ComboValidationIssue>,
    combo_id: &String,
    action_id: Option<String>,
    field: ComboValidationField,
    message: String,
)
    ensures
        seq_view(final(issues)@) == seq_view(old(issues)@).push(
            issue(
                combo_id@,
                match action_id {
                    Some(a) => Some(a@),
                    None => None,
                },
                field,
                message@,
            ),
        ),
{
    let ghost before = issues@;
    issues.push(ComboValidationIssue { combo_id: combo_id.clone(), action_id, field, message });
    assert(seq_view(issues@) =~= seq_view(before).push(issues@[before.len() as int]@));
}

fn push_action_timing_issues(
    issues: &mut Vec<ComboValidationIssue>,
    combo_id: &String,
    action: &ComboAction,
)
    ensures
        seq_view(final(issues)@) == seq_view(old(issues)@) + action_timing_issues(
            combo_id@,
            action@,
        ),
{
    let ghost before = seq_view(issues@);
    match action {
        ComboAction::Tap { id, hold_ms, wait_after_ms, .. } => {
            if !(MIN_COMBO_HOLD_MS <= *hold_ms && *hold_ms <= MAX_COMBO_HOLD_MS) {
                push_issue(
                    issues,
                    combo_id,
                    Some(id.clone()),
                    ComboValidationField::HoldMs,
                    String::from_str("按下时长必须在 10-1000 毫秒之间。"),
                );
            }
            if *wait_after_ms > MAX_COMBO_WAIT_MS {
                push_issue(
                    issues,
                    combo_id,
                    Some(id.clone()),
                    ComboValidationField::WaitAfterMs,
                    String::from_str("动作后等待不能超过 5000 毫秒。"),
                );
            }
            assert(seq_view(issues@) =~= before + action_timing_issues(combo_id@, action@));
        },
        ComboAction::Command { id, key_hold_ms, key_gap_ms, wait_after_ms, .. } => {
            if !(MIN_COMBO_HOLD_MS <= *key_hold_ms && *key_hold_ms <= MAX_COMBO_HOLD_MS) {
                push_issue(
                    issues,
                    combo_id,
                    Some(id.clone()),
                    ComboValidationField::KeyHoldMs,
                    String::from_str("按下时长必须在 10-1000 毫秒之间。"),
                );
            }
            if *key_gap_ms > MAX_COMBO_GAP_MS {
                push_issue(
                    issues,
                    combo_id,
                    Some(id.clone()),
                    ComboValidationField::KeyGapMs,
                    String::from_str("按键间隔不能超过 1000 毫秒。"),
                );
            }
            if *wait_after_ms > MAX_COMBO_WAIT_MS {
                push_issue(
                    issues,
                    combo_id,
                    Some(id.clone()),
                    ComboValidationField::WaitAfterMs,
                    String::from_str("动作后等待不能超过 5000 毫秒。"),
                );
            }
            assert(seq_view(issues@) =~= before + action_timing_issues(combo_id@, action@));
        },
    }
}

fn push_action_enabled_issues(
    issues: &mut Vec<ComboValidationIssue>,
    combo_id: &String,
    action: &ComboAction,
)
    ensures
        seq_view(final(issues)@) == seq_view(old(issues)@) + action_enabled_issues(
            combo_id@,
            action@,
        ),
{
    let ghost before = seq_view(issues@);
    match action_enabled_problem(action) {
        Some(m) => {
            let field = match action {
                ComboAction::Tap { .. } => ComboValidationField::TapKey,
                ComboAction::Command { .. } => ComboValidationField::CommandKeys,
            };
            push_issue(issues, combo_id, Some(action.action_id().clone()), field, m);
        },
        None => {},
    }
    assert(seq_view(issues@) =~= before + action_enabled_issues(combo_id@, action@));
}

/// Appends the issues one combo has on its own.
fn push_combo_issues(
    issues: &mut Vec<ComboValidationIssue>,
    combo: &ComboDefinition,
    effective_key_vks: &Vec<u16>,
)
    ensures
        seq_view(final(issues)@) == seq_view(old(issues)@) + combo_issues(
            combo@,
            effective_key_vks@.to_set(),
        ),
{
    let ghost start = seq_view(issues@);
    let ghost c = combo@;
    let ghost eff = effective_key_vks@.to_set();
    let mut j: usize = 0;
    while j < combo.actions.len()
        invariant
            j <= combo.actions@.len(),
            c == combo@,
            seq_view(issues@) == start + actions_timing_issues_upto(c.id, c.actions, j as nat),
        decreases combo.actions.len() - j,
    {
        let ghost before = seq_view(issues@);
        push_action_timing_issues(issues, &combo.id, &combo.actions[j]);
        assert(c.actions[j as int] == combo.actions@[j as int]@);
        assert(seq_view(issues@) =~= start + actions_timing_issues_upto(
            c.id,
            c.actions,
            (j + 1) as nat,
        ));
        j = j + 1;
    }
    let ghost timing = seq_view(issues@);
    if !combo.enabled {
        assert(seq_view(issues@) =~= start + combo_issues(c, eff));
        return;
    }
    if text_is_blank(combo.name.as_str()) {
        push_issue(
            issues,
            &combo.id,
            None,
            ComboValidationField::Name,
            String::from_str("启用的连招必须填写名称。"),
        );
    }
    let ghost after_name = seq_view(issues@);
    match combo.trigger_vk {
        Some(t) => {
            if vk_listed(effective_key_vks, t) {
                push_issue(
                    issues,
                    &combo.id,
                    None,
                    ComboValidationField::Trigger,
                    String::from_str("触发键不能与当前生效连发键重复。"),
                );
            }
        },
        None => {
            push_issue(
                issues,
                &combo.id,
                None,
                ComboValidationField::Trigger,
                String::from_str("启用的连招必须设置触发键。"),
            );
        },
    }
    let ghost after_trigger = seq_view(issues@);
    if combo.actions.len() == 0 {
        push_issue(
            issues,
            &combo.id,
            None,
            ComboValidationField::Actions,
            String::from_str("启用的连招至少需要一个动作。"),
        );
    }
    let ghost after_empty = seq_view(issues@);
    let mut k: usize = 0;
    while k < combo.actions.len()
        invariant
            k <= combo.actions@.len(),
            c == combo@,
            seq_view(issues@) == after_empty + actions_enabled_issues_upto(
                c.id,
                c.actions,
                k as nat,
            ),
        decreases combo.actions.len() - k,
    {
        push_action_enabled_issues(issues, &combo.id, &combo.actions[k]);
        assert(c.actions[k as int] == combo.actions@[k as int]@);
        assert(seq_view(issues@) =~= after_empty + actions_enabled_issues_upto(
            c.id,
            c.actions,
            (k + 1) as nat,
        ));
        k = k + 1;
    }
    assert(after_name =~= timing + issue_if(
        is_blank(c.name),
        issue(c.id, None, ComboValidationField::Name, msg_issue_name()),
    ));
    assert(seq_view(issues@) =~= start + combo_issues(c, eff));
}

/// Counts the enabled combos that fire on `t`.
fn count_owners(combos: &Vec<ComboDefinition>, t: u16) -> (n: usize)
    ensures
        n == owner_count(seq_view(combos@), t, combos@.len()),
{
    let ghost cv = seq_view(combos@);
    let mut n: usize = 0;
    let mut i: usize = 0;
    while i < combos.len()
        invariant
            i <= combos@.len(),
            cv == seq_view(combos@),
            n == owner_count(cv, t, i as nat),
            n <= i,
        decreases combos.len() - i,
    {
        assert(cv[i as int] == combos@[i as int]@);
        if combos[i].enabled && combos[i].trigger_vk == Some(t) {
            n = n + 1;
        }
        i = i + 1;
    }
    n
}

/// Appends one duplicate-trigger issue per enabled combo that fires on `t`.
fn push_owner_issues(issues: &mut Vec<ComboValidationIssue>, combos: &Vec<ComboDefinition>, t: u16)
    ensures
        seq_view(final(issues)@) == seq_view(old(issues)@) + owner_issues(
            seq_view(combos@),
            t,
            combos@.len(),
        ),
{
    let ghost cv = seq_view(combos@);
    let ghost start = seq_view(issues@);
    let mut i: usize = 0;
    while i < combos.len()
        invariant
            i <= combos@.len(),
            cv == seq_view(combos@),
            seq_view(issues@) == start + owner_issues(cv, t, i as nat),
        decreases combos.len() - i,
    {
        assert(cv[i as int] == combos@[i as int]@);
        if combos[i].enabled && combos[i].trigger_vk == Some(t) {
            push_issue(
                issues,
                &combos[i].id,
                None,
                ComboValidationField::Trigger,
                String::from_str("同一职业的连招触发键不能重复。"),
            );
        }
        assert(seq_view(issues@) =~= start + owner_issues(cv, t, (i + 1) as nat));
        i = i + 1;
    }
}

/// Triggers that no enabled combo fires on add no duplicate issue.
proof fn lemma_duplicates_skip(combos: Seq<ComboDefinitionView>, t: nat, m: nat)
    requires
        t <= m <= 0x10000,
        forall|v: u16| t <= v < m ==> #[trigger] owner_count(combos, v, combos.len()) == 0,
    ensures
        duplicate_issues_below(combos, m) == duplicate_issues_below(combos, t),
    decreases m,
{
    if m > t {
        let v = (m - 1) as u16;
        lemma_duplicates_skip(combos, t, (m - 1) as nat);
        assert(owner_count(combos, v, combos.len()) == 0);
        assert(trigger_duplicate_issues(combos, v) =~= Seq::<ComboValidationIssueView>::empty());
        assert(duplicate_issues_below(combos, m) =~= duplicate_issues_below(combos, (m - 1) as nat));
    }
}

/// The least trigger key at or above `t` that an enabled combo fires on.
fn next_owned_trigger(combos: &Vec<ComboDefinition>, t: u32) -> (r: Option<u16>)
    requires
        t <= 0x10000,
    ensures
        match r {
            Some(m) => t <= m && owner_count(seq_view(combos@), m, combos@.len()) > 0 && forall|v: u16|
                t <= v < m ==> #[trigger] owner_count(seq_view(combos@), v, combos@.len()) == 0,
            None => forall|v: u16| t <= v ==> #[trigger] owner_count(seq_view(combos@), v, combos@.len()) == 0,
        },
{
    let ghost cv = seq_view(combos@);
    let mut best: Option<u16> = None;
    let mut i: usize = 0;
    while i < combos.len()
        invariant
            i <= combos@.len(),
            cv == seq_view(combos@),
            t <= 0x10000,
            match best {
                Some(m) => t <= m && exists|k: int| 0 <= k < i && owns_trigger(#[trigger] cv[k], m),
                None => true,
            },
            forall|k: int, v: u16|
                0 <= k < i && t <= v && #[trigger] owns_trigger(cv[k], v) ==> (best matches Some(m) && m <= v),
        decreases combos.len() - i,
    {
        assert(cv[i as int] == combos@[i as int]@);
        if combos[i].enabled {
            match combos[i].trigger_vk {
                Some(v) => {
                    if t <= v as u32 {
                        match best {
                            Some(m) => {
                                if v < m {
                                    best = Some(v);
                                }
                            },
                            None => {
                                best = Some(v);
                            },
                        }
                    }
                },
                None => {},
            }
        }
        i = i + 1;
    }
    proof {
        match best {
            Some(m) => {
                lemma_owner_count_pairs(cv, m, combos@.len() as nat);
                let k = choose|k: int| 0 <= k < combos@.len() && owns_trigger(#[trigger] cv[k], m);
                assert forall|v: u16| t <= v < m implies #[trigger] owner_count(cv, v, combos@.len()) == 0 by {
                    lemma_owner_count_pairs(cv, v, combos@.len() as nat);
                }
            },
            None => {
                assert forall|v: u16| t <= v implies #[trigger] owner_count(cv, v, combos@.len()) == 0 by {
                    lemma_owner_count_pairs(cv, v, combos@.len() as nat);
                }
            },
        }
    }
    best
}

/// Every issue of a combo list, given the virtual keys
/// that auto-fire beside it.
pub fn validate_combo_defs_detailed(
    combos: &Vec<ComboDefinition>,
    effective_key_vks: &Vec<u16>,
) -> (r: Vec<ComboValidationIssue>)
    ensures
        seq_view(r@) == all_combo_issues(seq_view(combos@), effective_key_vks@.to_set()),
{
    let ghost cv = seq_view(combos@);
    let ghost eff = effective_key_vks@.to_set();
    let mut issues: Vec<ComboValidationIssue> = Vec::new();
    assert(seq_view(issues@) =~= Seq::<ComboValidationIssueView>::empty());
    let mut i: usize = 0;
    while i < combos.len()
        invariant
            i <= combos@.len(),
            cv == seq_view(combos@),
            eff == effective_key_vks@.to_set(),
            seq_view(issues@) == combos_issues_upto(cv, eff, i as nat),
        decreases combos.len() - i,
    {
        push_combo_issues(&mut issues, &combos[i], effective_key_vks);
        assert(cv[i as int] == combos@[i as int]@);
        i = i + 1;
    }
    let ghost own = seq_view(issues@);
    // Only the triggers of enabled combos can be duplicated: go from one to the next.
    let mut t: u32 = 0;
    while t < 0x10000
        invariant
            t <= 0x10000,
            cv == seq_view(combos@),
            seq_view(issues@) == own + duplicate_issues_below(cv, t as nat),
        decreases 0x10000 - t,
    {
        match next_owned_trigger(combos, t) {
            Some(vk) => {
                proof {
                    lemma_duplicates_skip(cv, t as nat, vk as nat);
                }
                if count_owners(combos, vk) >= 2 {
                    push_owner_issues(&mut issues, combos, vk);
                }
                assert(seq_view(issues@) =~= own + duplicate_issues_below(cv, (vk + 1) as nat));
                t = vk as u32 + 1;
            },
            None => {
                proof {
                    lemma_duplicates_skip(cv, t as nat, 0x10000);
                }
                t = 0x10000;
            },
        }
    }
    issues
}

/// Every issue of a combo list edited for profile
/// `profile_id`, against the keys that fire under that profile.
pub fn validate_combo_defs_for_profile(
    profiles: &ProfilesConfig,
    profile_id: &str,
    combos: &Vec<ComboDefinition>,
) -> (r: Vec<ComboValidationIssue>)
    requires
        profiles.wf(),
    ensures
        seq_view(r@) == all_combo_issues(
            seq_view(combos@),
            vks_of(effective_keys_for(profiles@, profile_id@)),
        ),
{
    let keys = compute_effective_keys_for_profile(profiles, profile_id);
    let vks = key_vks(&keys);
    validate_combo_defs_detailed(combos, &vks)
}

} // verus!
