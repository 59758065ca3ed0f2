//! The fire loop's timing decisions: when each active key is pressed next, when its
//! simulated press is released, and how long the loop may sleep. Times are
//! microseconds on a monotonic clock; intervals are milliseconds.

use super::autofire::FireKeyState;
use vstd::prelude::*;

verus! {

/// Number of virtual keys the schedule can hold (those with a pressed-key bit).
pub const SCHEDULE_KEYS: usize = 256;

/// Shortest simulated key press.
pub const MIN_KEY_HOLD_MS: u64 = 8;

/// Longest simulated key press.
pub const MAX_KEY_HOLD_MS: u64 = 15;

/// Latest clock reading the schedule accepts (far beyond any uptime).
pub const MAX_TIME_US: u64 = 0x4000_0000_0000_0000;

/// Latest time the schedule stores.
pub const MAX_STORED_US: u64 = 0x4000_0001_0000_0000;

/// A third of the interval, kept between 8 and 15 ms.
pub open spec fn hold_ms_for(interval_ms: u64) -> u64 {
    let third = interval_ms / 3;
    if third < MIN_KEY_HOLD_MS {
        MIN_KEY_HOLD_MS
    } else if third > MAX_KEY_HOLD_MS {
        MAX_KEY_HOLD_MS
    } else {
        third
    }
}

pub fn key_hold_ms(interval_ms: u64) -> (r: u64)
    ensures
        r == hold_ms_for(interval_ms),
        MIN_KEY_HOLD_MS <= r <= MAX_KEY_HOLD_MS,
{
    let third = interval_ms / 3;
    if third < MIN_KEY_HOLD_MS {
        MIN_KEY_HOLD_MS
    } else if third > MAX_KEY_HOLD_MS {
        MAX_KEY_HOLD_MS
    } else {
        third
    }
}

/// The next press on the grid `base + k * interval` (`k >= 1`), `base` being the last
/// planned press or, for a first press, the press itself: the first grid point after
/// `started`.
pub open spec fn next_fire_time(previous: Option<u64>, started: u64, interval: u64) -> int {
    let base: int = match previous {
        Some(p) => p as int,
        None => started as int,
    };
    if base + interval > started {
        base + interval
    } else {
        base + ((started - base) / (interval as int) + 1) * interval
    }
}

/// The next press lies after `started`, on the grid of `base` (so that presses do not
/// drift), and is the first grid point after `started`.
pub proof fn lemma_next_fire_time(previous: Option<u64>, started: u64, interval: u64)
    requires
        interval > 0,
    ensures
        ({
            let base: int = match previous {
                Some(p) => p as int,
                None => started as int,
            };
            let r = next_fire_time(previous, started, interval);
            &&& r > started
            &&& r >= base + interval
            &&& (r - base) % (interval as int) == 0
            &&& (r - interval <= started || r == base + interval)
            &&& r <= (if base > started {
                base
            } else {
                started as int
            }) + interval
        }),
{
    let base: int = match previous {
        Some(p) => p as int,
        None => started as int,
    };
    let i = interval as int;
    if base + i <= started {
        let d = started - base;
        let q = d / i;
        vstd::arithmetic::div_mod::lemma_fundamental_div_mod(d, i);
        assert(d == i * q + d % i);
        assert(0 <= d % i < i) by {
            vstd::arithmetic::div_mod::lemma_mod_pos_bound(d, i);
        }
        let r = base + (q + 1) * i;
        assert((q + 1) * i == q * i + i) by (nonlinear_arith);
        assert(i * q == q * i) by (nonlinear_arith);
        assert(r - base == (q + 1) * i);
        vstd::arithmetic::div_mod::lemma_mod_multiples_basic(q + 1, i);
        assert(((q + 1) * i) % i == 0);
    } else {
        vstd::arithmetic::div_mod::lemma_mod_self_0(i);
    }
}

/// The next planned press of a key pressed at `fire_started_at`, in microseconds.
pub fn next_theoretical_fire_at(previous_fire_at: Option<u64>, fire_started_at: u64, interval: u64) -> (r: u64)
    requires
        interval > 0,
        fire_started_at <= MAX_TIME_US,
        previous_fire_at matches Some(p) ==> p <= MAX_STORED_US,
        interval <= 0x1_0000_0000,
    ensures
        r == next_fire_time(previous_fire_at, fire_started_at, interval),
        r <= MAX_STORED_US + 0x1_0000_0000,
{
    proof {
        lemma_next_fire_time(previous_fire_at, fire_started_at, interval);
    }
    let base = match previous_fire_at {
        Some(p) => p,
        None => fire_started_at,
    };
    if base + interval > fire_started_at {
        base + interval
    } else {
        let q = (fire_started_at - base) / interval;
        proof {
            let d = (fire_started_at - base) as int;
            vstd::arithmetic::div_mod::lemma_fundamental_div_mod(d, interval as int);
            vstd::arithmetic::div_mod::lemma_mod_pos_bound(d, interval as int);
            assert((q + 1) * interval == q * interval + interval) by (nonlinear_arith);
            assert(interval * q == q * interval) by (nonlinear_arith);
        }
        base + (q + 1) * interval
    }
}

/// The earlier of two deadlines, either of which may be absent.
pub open spec fn earlier(a: Option<u64>, b: Option<u64>) -> Option<u64> {
    match (a, b) {
        (Some(x), Some(y)) => Some(if x <= y {
            x
        } else {
            y
        }),
        (None, Some(y)) => Some(y),
        (a, None) => a,
    }
}

pub fn combine_deadline(current: Option<u64>, next: Option<u64>) -> (r: Option<u64>)
    ensures
        r == earlier(current, next),
{
    match (current, next) {
        (Some(c), Some(n)) => Some(if c <= n {
            c
        } else {
            n
        }),
        (None, Some(n)) => Some(n),
        (c, None) => c,
    }
}

/// Model of the schedule: per virtual key, the next planned press and the due time of
/// the release of a simulated press.
pub struct FireScheduleModel {
    pub next_fire_at: Seq<Option<u64>>,
    pub pending_key_ups: Seq<Option<u64>>,
}

/// The fire loop's timing state.
#[derive(Debug)]
pub struct FireSchedule {
    next_fire_at: Vec<Option<u64>>,
    pending_key_ups: Vec<Option<u64>>,
}

impl View for FireSchedule {
    type V = FireScheduleModel;

    closed spec fn view(&self) -> FireScheduleModel {
        FireScheduleModel {
            next_fire_at: self.next_fire_at@,
            pending_key_ups: self.pending_key_ups@,
        }
    }
}

/// Every stored time is at most `MAX_STORED_US`.
pub open spec fn times_bounded(s: Seq<Option<u64>>) -> bool {
    forall|i: int| 0 <= i < s.len() ==> (#[trigger] s[i] matches Some(t) ==> t <= MAX_STORED_US)
}

pub open spec fn all_none(n: nat) -> Seq<Option<u64>> {
    Seq::new(n, |i: int| None::<u64>)
}

/// The fire plan's running state: schedule, presses so far, the earliest press still
/// to come, and whether any key was active.
pub struct PlanState {
    pub next: Seq<Option<u64>>,
    pub pending: Seq<Option<u64>>,
    pub downs: Seq<u16>,
    pub deadline: Option<u64>,
    pub has_active: bool,
}

/// What the plan does with one key: nothing for an inactive key; for an active key
/// whose release is pending, wait for it; for one whose next press lies ahead, wait
/// for that; otherwise press it now, schedule its release after the hold time and its
/// next press on its grid.
pub open spec fn plan_step(st: PlanState, k: FireKeyState, now: u64) -> PlanState {
    if !k.active {
        st
    } else {
        let v = k.vk as int;
        match st.pending[v] {
            Some(due) => PlanState { deadline: earlier(st.deadline, Some(due)), has_active: true, ..st },
            None => {
                let prev = st.next[v];
                let d0 = match prev {
                    Some(t) => earlier(st.deadline, Some(t)),
                    None => st.deadline,
                };
                if prev matches Some(t) && now < t {
                    PlanState { deadline: d0, has_active: true, ..st }
                } else {
                    let nxt = next_fire_time(prev, now, (k.interval_ms * 1000) as u64) as u64;
                    PlanState {
                        next: st.next.update(v, Some(nxt)),
                        pending: st.pending.update(v, Some((now + hold_ms_for(k.interval_ms) * 1000) as u64)),
                        downs: st.downs.push(k.vk),
                        deadline: earlier(d0, Some(nxt)),
                        has_active: true,
                    }
                }
            },
        }
    }
}

pub open spec fn plan_upto(st: PlanState, keys: Seq<FireKeyState>, now: u64, n: nat) -> PlanState
    decreases n,
{
    if n == 0 {
        st
    } else {
        plan_step(plan_upto(st, keys, now, (n - 1) as nat), keys[n - 1], now)
    }
}

/// Whether some active key has virtual key `v`.
pub open spec fn active_vk(keys: Seq<FireKeyState>, v: int) -> bool {
    exists|j: int| 0 <= j < keys.len() && (#[trigger] keys[j]).vk == v && keys[j].active
}

/// The plan of one pass of the fire loop. With no key held and no toggle on, every
/// planned press is dropped. Otherwise planned presses of keys no longer active are
/// dropped, each key is planned in turn, and when no key turned out active every
/// planned press is dropped.
pub open spec fn fire_plan(
    m: FireScheduleModel,
    any_bits: bool,
    keys: Seq<FireKeyState>,
    now: u64,
) -> PlanState {
    if !any_bits {
        PlanState {
            next: all_none(SCHEDULE_KEYS as nat),
            pending: m.pending_key_ups,
            downs: Seq::empty(),
            deadline: None,
            has_active: false,
        }
    } else {
        let retained = Seq::new(
            m.next_fire_at.len(),
            |v: int|
                if active_vk(keys, v) {
                    m.next_fire_at[v]
                } else {
                    None
                },
        );
        let st = plan_upto(
            PlanState {
                next: retained,
                pending: m.pending_key_ups,
                downs: Seq::empty(),
                deadline: None,
                has_active: false,
            },
            keys,
            now,
            keys.len(),
        );
        if st.has_active {
            st
        } else {
            PlanState { next: all_none(SCHEDULE_KEYS as nat), ..st }
        }
    }
}

/// The keys pressed by one pass of the fire loop, and the earliest planned press.
#[derive(Debug)]
pub struct FirePlan {
    pub key_downs: Vec<u16>,
    pub next_down_deadline: Option<u64>,
}

/// Keys a fire plan may be given: each with a bit, each once, with an interval the
/// clock arithmetic can hold.
pub open spec fn fire_keys_ok(keys: Seq<FireKeyState>) -> bool {
    &&& forall|j: int| 0 <= j < keys.len() ==> (#[trigger] keys[j]).vk < SCHEDULE_KEYS
    &&& forall|j: int| 0 <= j < keys.len() ==> 0 < (#[trigger] keys[j]).interval_ms <= 0x10000
    &&& forall|i: int, j: int| 0 <= i < j < keys.len() ==> keys[i].vk != keys[j].vk
}

impl FireSchedule {
    pub open spec fn wf(&self) -> bool {
        &&& self@.next_fire_at.len() == SCHEDULE_KEYS
        &&& self@.pending_key_ups.len() == SCHEDULE_KEYS
        &&& times_bounded(self@.next_fire_at)
        &&& times_bounded(self@.pending_key_ups)
    }

    /// Nothing planned, nothing pending.
    pub fn new() -> (r: Self)
        ensures
            r.wf(),
            r@.next_fire_at == all_none(SCHEDULE_KEYS as nat),
            r@.pending_key_ups == all_none(SCHEDULE_KEYS as nat),
    {
        let next_fire_at = none_list();
        let pending_key_ups = none_list();
        FireSchedule { next_fire_at, pending_key_ups }
    }

    /// Whether a simulated press still waits for its release.
    pub fn has_pending_key_ups(&self) -> (b: bool)
        requires
            self.wf(),
        ensures
            b == exists|v: int| 0 <= v < SCHEDULE_KEYS && self@.pending_key_ups[v] is Some,
    {
        let mut v: usize = 0;
        while v < SCHEDULE_KEYS
            invariant
                self.wf(),
                v <= SCHEDULE_KEYS,
                forall|u: int| 0 <= u < v ==> self@.pending_key_ups[u] is None,
            decreases SCHEDULE_KEYS - v,
        {
            if self.pending_key_ups[v].is_some() {
                return true;
            }
            v = v + 1;
        }
        false
    }

    /// Drops every planned press.
    pub fn clear_fire_times(&mut self)
        requires
            old(self).wf(),
        ensures
            final(self).wf(),
            final(self)@.next_fire_at == all_none(SCHEDULE_KEYS as nat),
            final(self)@.pending_key_ups == old(self)@.pending_key_ups,
    {
        self.next_fire_at = none_list();
    }

    /// Takes out the releases due by `now`, by ascending key, and returns their keys.
    pub fn take_due_key_ups(&mut self, now: u64) -> (r: Vec<u16>)
        requires
            old(self).wf(),
        ensures
            final(self).wf(),
            final(self)@.next_fire_at == old(self)@.next_fire_at,
            forall|v: int|
                0 <= v < SCHEDULE_KEYS ==> #[trigger] final(self)@.pending_key_ups[v] == (match old(
                    self,
                )@.pending_key_ups[v] {
                    Some(due) => if due <= now {
                        None
                    } else {
                        Some(due)
                    },
                    None => None,
                }),
            r@ == due_keys_upto(old(self)@.pending_key_ups, now, SCHEDULE_KEYS as nat),
    {
        let ghost start = self.pending_key_ups@;
        let mut r: Vec<u16> = Vec::new();
        let mut v: usize = 0;
        while v < SCHEDULE_KEYS
            invariant
                v <= SCHEDULE_KEYS,
                start.len() == SCHEDULE_KEYS,
                self.pending_key_ups@.len() == SCHEDULE_KEYS,
                self.next_fire_at@ == old(self)@.next_fire_at,
                self.next_fire_at@.len() == SCHEDULE_KEYS,
                times_bounded(self.next_fire_at@),
                times_bounded(start),
                forall|u: int|
                    0 <= u < v ==> #[trigger] self.pending_key_ups@[u] == (match start[u] {
                        Some(due) => if due <= now {
                            None
                        } else {
                            Some(due)
                        },
                        None => None,
                    }),
                forall|u: int| v <= u < SCHEDULE_KEYS ==> #[trigger] self.pending_key_ups@[u] == start[u],
                r@ == due_keys_upto(start, now, v as nat),
            decreases SCHEDULE_KEYS - v,
        {
            match self.pending_key_ups[v] {
                Some(due) => {
                    if due <= now {
                        self.pending_key_ups[v] = None;
                        r.push(v as u16);
                    }
                },
                None => {},
            }
            v = v + 1;
        }
        r
    }

    /// When the fire loop wakes next: the earliest of `next_down_deadline` and every
    /// pending release.
    pub fn next_wake(&self, next_down_deadline: Option<u64>) -> (r: Option<u64>)
        requires
            self.wf(),
        ensures
            r == earliest_upto(self@.pending_key_ups, next_down_deadline, SCHEDULE_KEYS as nat),
    {
        let mut deadline = next_down_deadline;
        let mut v: usize = 0;
        while v < SCHEDULE_KEYS
            invariant
                self.wf(),
                v <= SCHEDULE_KEYS,
                deadline == earliest_upto(self@.pending_key_ups, next_down_deadline, v as nat),
            decreases SCHEDULE_KEYS - v,
        {
            deadline = combine_deadline(deadline, self.pending_key_ups[v]);
            v = v + 1;
        }
        deadline
    }

    /// One pass of the fire loop at time `now`: updates the schedule as `fire_plan`
    /// says and returns the keys to press now and the earliest planned press.
    pub fn plan_fire(&mut self, any_bits: bool, keys: &Vec<FireKeyState>, now: u64) -> (r: FirePlan)
        requires
            old(self).wf(),
            fire_keys_ok(keys@),
            now <= MAX_TIME_US,
        ensures
            final(self).wf(),
            ({
                let p = fire_plan(old(self)@, any_bits, keys@, now);
                &&& final(self)@.next_fire_at == p.next
                &&& final(self)@.pending_key_ups == p.pending
                &&& r.key_downs@ == p.downs
                &&& r.next_down_deadline == p.deadline
            }),
    {
        let ghost m = self@;
        if !any_bits {
            self.next_fire_at = none_list();
            return FirePlan { key_downs: Vec::new(), next_down_deadline: None };
        }
        let mut v: usize = 0;
        while v < SCHEDULE_KEYS
            invariant
                v <= SCHEDULE_KEYS,
                fire_keys_ok(keys@),
                m.next_fire_at.len() == SCHEDULE_KEYS,
                self.next_fire_at@.len() == SCHEDULE_KEYS,
                self.pending_key_ups@ == m.pending_key_ups,
                forall|u: int|
                    0 <= u < v ==> #[trigger] self.next_fire_at@[u] == (if active_vk(keys@, u) {
                        m.next_fire_at[u]
                    } else {
                        None
                    }),
                forall|u: int| v <= u < SCHEDULE_KEYS ==> #[trigger] self.next_fire_at@[u] == m.next_fire_at[u],
            decreases SCHEDULE_KEYS - v,
        {
            if !has_active_key(keys, v as u16) {
                self.next_fire_at[v] = None;
            }
            v = v + 1;
        }
        let ghost retained = self.next_fire_at@;
        assert(retained =~= Seq::new(
            m.next_fire_at.len(),
            |u: int|
                if active_vk(keys@, u) {
                    m.next_fire_at[u]
                } else {
                    None
                },
        ));
        let ghost st0 = PlanState {
            next: retained,
            pending: m.pending_key_ups,
            downs: Seq::empty(),
            deadline: None,
            has_active: false,
        };
        let mut has_active = false;
        let mut deadline: Option<u64> = None;
        let mut downs: Vec<u16> = Vec::new();
        let mut i: usize = 0;
        while i < keys.len()
            invariant
                i <= keys@.len(),
                fire_keys_ok(keys@),
                now <= MAX_TIME_US,
                self.next_fire_at@.len() == SCHEDULE_KEYS,
                self.pending_key_ups@.len() == SCHEDULE_KEYS,
                times_bounded(self.next_fire_at@),
                times_bounded(self.pending_key_ups@),
                ({
                    let st = plan_upto(st0, keys@, now, i as nat);
                    &&& self.next_fire_at@ == st.next
                    &&& self.pending_key_ups@ == st.pending
                    &&& downs@ == st.downs
                    &&& deadline == st.deadline
                    &&& has_active == st.has_active
                }),
            decreases keys.len() - i,
        {
            let k = keys[i];
            let v = k.vk as usize;
            if k.active {
                has_active = true;
                match self.pending_key_ups[v] {
                    Some(due) => {
                        deadline = combine_deadline(deadline, Some(due));
                    },
                    None => {
                        let prev = self.next_fire_at[v];
                        let mut due_now = true;
                        if let Some(t) = prev {
                            deadline = combine_deadline(deadline, Some(t));
                            if now < t {
                                due_now = false;
                            }
                        }
                        if due_now {
                            let interval_us = k.interval_ms * 1000;
                            let next = next_theoretical_fire_at(prev, now, interval_us);
                            proof {
                                lemma_next_fire_time(prev, now, interval_us);
                            }
                            let hold = key_hold_ms(k.interval_ms);
                            downs.push(k.vk);
                            self.pending_key_ups[v] = Some(now + hold * 1000);
                            self.next_fire_at[v] = Some(next);
                            deadline = combine_deadline(deadline, Some(next));
                        }
                    },
                }
            }
            i = i + 1;
        }
        if !has_active {
            self.next_fire_at = none_list();
        }
        FirePlan { key_downs: downs, next_down_deadline: deadline }
    }
}

/// The keys whose release is due by `now`, among the first `n`, ascending.
pub open spec fn due_keys_upto(pending: Seq<Option<u64>>, now: u64, n: nat) -> Seq<u16>
    decreases n,
{
    if n == 0 {
        Seq::empty()
    } else {
        match pending[n - 1] {
            Some(due) => if due <= now {
                due_keys_upto(pending, now, (n - 1) as nat).push((n - 1) as u16)
            } else {
                due_keys_upto(pending, now, (n - 1) as nat)
            },
            None => due_keys_upto(pending, now, (n - 1) as nat),
        }
    }
}

/// The earliest of `start` and the first `n` pending releases.
pub open spec fn earliest_upto(pending: Seq<Option<u64>>, start: Option<u64>, n: nat) -> Option<u64>
    decreases n,
{
    if n == 0 {
        start
    } else {
        earlier(earliest_upto(pending, start, (n - 1) as nat), pending[n - 1])
    }
}

/// A list of `SCHEDULE_KEYS` empty entries.
fn none_list() -> (r: Vec<Option<u64>>)
    ensures
        r@ == all_none(SCHEDULE_KEYS as nat),
        times_bounded(r@),
{
    let mut r: Vec<Option<u64>> = Vec::new();
    let mut v: usize = 0;
    while v < SCHEDULE_KEYS
        invariant
            v <= SCHEDULE_KEYS,
            r@.len() == v,
            forall|u: int| 0 <= u < v ==> #[trigger] r@[u] == None::<u64>,
        decreases SCHEDULE_KEYS - v,
    {
        r.push(None);
        v = v + 1;
    }
    assert(r@ =~= all_none(SCHEDULE_KEYS as nat));
    r
}

/// Whether some active key has virtual key `vk`.
fn has_active_key(keys: &Vec<FireKeyState>, vk: u16) -> (b: bool)
    ensures
        b == active_vk(keys@, vk as int),
{
    let mut i: usize = 0;
    while i < keys.len()
        invariant
            i <= keys@.len(),
            forall|j: int| 0 <= j < i ==> !((#[trigger] keys@[j]).vk == vk && keys@[j].active),
        decreases keys.len() - i,
    {
        if keys[i].vk == vk && keys[i].active {
            return true;
        }
        i = i + 1;
    }
    false
}

/// Key `vk` was pressed by the pass: it is an active key among the first `n`, had no
/// release pending and was due before the pass, and after it has its release pending
/// after its hold time and its next press after `now`.
pub open spec fn pressed_properly(
    before_pending: Seq<Option<u64>>,
    before_next: Seq<Option<u64>>,
    after_pending: Seq<Option<u64>>,
    after_next: Seq<Option<u64>>,
    keys: Seq<FireKeyState>,
    now: u64,
    n: nat,
    vk: u16,
) -> bool {
    exists|j: int|
        0 <= j < n && (#[trigger] keys[j]).vk == vk && keys[j].active && before_pending[vk as int] is None
            && (before_next[vk as int] matches Some(t) ==> t <= now) && after_pending[vk as int]
            == Some((now + hold_ms_for(keys[j].interval_ms) * 1000) as u64) && (after_next[vk as int] matches Some(
            t,
        ) && t > now)
}

/// What the first `n` keys of a pass did: each pressed key is an active key among
/// them that had no pending release and was due, and now has its release pending and
/// its next press after `now`; no key is pressed twice; keys not among the first `n`
/// are untouched.
proof fn lemma_plan_upto(st0: PlanState, keys: Seq<FireKeyState>, now: u64, n: nat)
    requires
        n <= keys.len(),
        fire_keys_ok(keys),
        now <= MAX_TIME_US,
        st0.next.len() == SCHEDULE_KEYS,
        st0.pending.len() == SCHEDULE_KEYS,
        st0.downs.len() == 0,
    ensures
        ({
            let st = plan_upto(st0, keys, now, n);
            &&& st.next.len() == SCHEDULE_KEYS
            &&& st.pending.len() == SCHEDULE_KEYS
            &&& forall|v: int|
                0 <= v < SCHEDULE_KEYS && !(exists|j: int|
                    0 <= j < n && (#[trigger] keys[j]).vk == v) ==> st.next[v] == st0.next[v]
                    && st.pending[v] == st0.pending[v]
            &&& forall|a: int, b: int| 0 <= a < b < st.downs.len() ==> st.downs[a] != st.downs[b]
            &&& forall|d: int|
                0 <= d < st.downs.len() ==> pressed_properly(
                    st0.pending,
                    st0.next,
                    st.pending,
                    st.next,
                    keys,
                    now,
                    n,
                    #[trigger] st.downs[d],
                )
        }),
    decreases n,
{
    if n > 0 {
        let m = (n - 1) as nat;
        lemma_plan_upto(st0, keys, now, m);
        let prev = plan_upto(st0, keys, now, m);
        let k = keys[m as int];
        let v = k.vk as int;
        let st = plan_upto(st0, keys, now, n);
        assert(st == plan_step(prev, k, now));
        assert(k.vk < SCHEDULE_KEYS);
        assert(!(exists|j: int| 0 <= j < m && (#[trigger] keys[j]).vk == v)) by {
            if exists|j: int| 0 <= j < m && (#[trigger] keys[j]).vk == v {
                let j = choose|j: int| 0 <= j < m && (#[trigger] keys[j]).vk == v;
                assert(keys[j].vk != keys[m as int].vk);
            }
        }
        assert(prev.next[v] == st0.next[v] && prev.pending[v] == st0.pending[v]);
        assert forall|u: int|
            0 <= u < SCHEDULE_KEYS && !(exists|j: int| 0 <= j < n && (#[trigger] keys[j]).vk == u)
            implies st.next[u] == st0.next[u] && st.pending[u] == st0.pending[u] by {
            assert(keys[m as int].vk != u);
            if exists|j: int| 0 <= j < m && (#[trigger] keys[j]).vk == u {
                let j = choose|j: int| 0 <= j < m && (#[trigger] keys[j]).vk == u;
                assert(keys[j].vk == u);
            }
        }
        let pressed = k.active && prev.pending[v] is None && !(prev.next[v] matches Some(t) && now
            < t);
        if pressed {
            lemma_next_fire_time(prev.next[v], now, (k.interval_ms * 1000) as u64);
            assert(st.downs == prev.downs.push(k.vk));
            assert(st.pending == prev.pending.update(v, Some((now + hold_ms_for(k.interval_ms) * 1000) as u64)));
            assert forall|d: int| 0 <= d < prev.downs.len() implies prev.pending[#[trigger] prev.downs[d] as int]
                is Some && prev.downs[d] != k.vk by {
                assert(pressed_properly(st0.pending, st0.next, prev.pending, prev.next, keys, now, m, prev.downs[d]));
            }
            assert forall|a: int, b: int| 0 <= a < b < st.downs.len() implies st.downs[a]
                != st.downs[b] by {
                if b == prev.downs.len() {
                    assert(prev.pending[prev.downs[a] as int] is Some);
                }
            }
            assert forall|d: int| 0 <= d < st.downs.len() implies pressed_properly(
                st0.pending,
                st0.next,
                st.pending,
                st.next,
                keys,
                now,
                n,
                #[trigger] st.downs[d],
            ) by {
                if d == prev.downs.len() {
                    assert(keys[m as int].vk == st.downs[d]);
                } else {
                    let x = prev.downs[d];
                    assert(st.downs[d] == x);
                    assert(pressed_properly(st0.pending, st0.next, prev.pending, prev.next, keys, now, m, x));
                    assert(prev.pending[x as int] is Some);
                    assert(x != k.vk);
                    assert(st.pending[x as int] == prev.pending[x as int]);
                    assert(st.next[x as int] == prev.next[x as int]);
                }
            }
        } else {
            assert(st.downs == prev.downs);
            assert(st.next == prev.next && st.pending == prev.pending);
            assert forall|d: int| 0 <= d < st.downs.len() implies pressed_properly(
                st0.pending,
                st0.next,
                st.pending,
                st.next,
                keys,
                now,
                n,
                #[trigger] st.downs[d],
            ) by {
                assert(pressed_properly(st0.pending, st0.next, prev.pending, prev.next, keys, now, m, prev.downs[d]));
            }
        }
    }
}

/// One pass of the fire loop: a key without an active configuration keeps no planned
/// press; every key pressed is active, had no release pending and was due (no planned
/// press, or one not after `now`), and afterwards has its release pending after its hold
/// time and its next press after `now`; no key is pressed twice; with nothing held and
/// no toggle on, nothing is pressed.
pub proof fn lemma_fire_plan(m: FireScheduleModel, any_bits: bool, keys: Seq<FireKeyState>, now: u64)
    requires
        m.next_fire_at.len() == SCHEDULE_KEYS,
        m.pending_key_ups.len() == SCHEDULE_KEYS,
        fire_keys_ok(keys),
        now <= MAX_TIME_US,
    ensures
        ({
            let p = fire_plan(m, any_bits, keys, now);
            &&& forall|v: int|
                0 <= v < SCHEDULE_KEYS && !active_vk(keys, v) ==> #[trigger] p.next[v] is None
            &&& forall|a: int, b: int| 0 <= a < b < p.downs.len() ==> p.downs[a] != p.downs[b]
            &&& forall|d: int|
                0 <= d < p.downs.len() ==> pressed_properly(m.pending_key_ups, m.next_fire_at, p.pending, p.next, keys, now, keys.len() as nat, p.downs[d])
            &&& !any_bits ==> p.downs.len() == 0
        }),
{
    if any_bits {
        let retained = Seq::new(
            m.next_fire_at.len(),
            |v: int|
                if active_vk(keys, v) {
                    m.next_fire_at[v]
                } else {
                    None
                },
        );
        let st0 = PlanState {
            next: retained,
            pending: m.pending_key_ups,
            downs: Seq::empty(),
            deadline: None,
            has_active: false,
        };
        lemma_plan_upto(st0, keys, now, keys.len());
        let st = plan_upto(st0, keys, now, keys.len());
        let p = fire_plan(m, any_bits, keys, now);
        assert forall|v: int| 0 <= v < SCHEDULE_KEYS && !active_vk(keys, v) implies #[trigger] p.next[v]
            is None by {
            if st.has_active {
                if exists|j: int| 0 <= j < keys.len() && (#[trigger] keys[j]).vk == v {
                    // A key with this virtual key exists but is inactive: the plan only
                    // touches active keys.
                    lemma_plan_inactive_untouched(st0, keys, now, keys.len(), v);
                }
            }
        }
        if !st.has_active {
            assert forall|d: int| 0 <= d < p.downs.len() implies pressed_properly(m.pending_key_ups, m.next_fire_at, p.pending, p.next, keys, now, keys.len() as nat, p.downs[d]) by {
                lemma_plan_no_active_no_downs(st0, keys, now, keys.len());
            }
        } else {
            assert forall|d: int| 0 <= d < p.downs.len() implies pressed_properly(m.pending_key_ups, m.next_fire_at, p.pending, p.next, keys, now, keys.len() as nat, p.downs[d]) by {
                let j = choose|j: int|
                    0 <= j < keys.len() && (#[trigger] keys[j]).vk == st.downs[d] && keys[j].active
                        && st0.pending[keys[j].vk as int] is None && (st0.next[keys[j].vk as int] matches Some(t)
                        ==> t <= now) && st.pending[keys[j].vk as int] == Some(
                        (now + hold_ms_for(keys[j].interval_ms) * 1000) as u64,
                    ) && (st.next[keys[j].vk as int] matches Some(t) && t > now);
                assert(active_vk(keys, keys[j].vk as int));
            }
        }
    }
}

/// The plan never changes the entry of a key that is present but inactive.
proof fn lemma_plan_inactive_untouched(st0: PlanState, keys: Seq<FireKeyState>, now: u64, n: nat, v: int)
    requires
        n <= keys.len(),
        fire_keys_ok(keys),
        !active_vk(keys, v),
        0 <= v < SCHEDULE_KEYS,
        st0.next.len() == SCHEDULE_KEYS,
        st0.pending.len() == SCHEDULE_KEYS,
    ensures
        plan_upto(st0, keys, now, n).next[v] == st0.next[v],
        plan_upto(st0, keys, now, n).next.len() == SCHEDULE_KEYS,
        plan_upto(st0, keys, now, n).pending.len() == SCHEDULE_KEYS,
    decreases n,
{
    if n > 0 {
        lemma_plan_inactive_untouched(st0, keys, now, (n - 1) as nat, v);
        assert(keys[n - 1].vk < SCHEDULE_KEYS);
        let k = keys[n - 1];
        if k.active {
            assert(k.vk != v);
        }
    }
}

/// With no active key the plan presses nothing.
proof fn lemma_plan_no_active_no_downs(st0: PlanState, keys: Seq<FireKeyState>, now: u64, n: nat)
    requires
        n <= keys.len(),
        st0.downs.len() == 0,
        !st0.has_active,
        !plan_upto(st0, keys, now, n).has_active,
    ensures
        plan_upto(st0, keys, now, n).downs.len() == 0,
    decreases n,
{
    if n > 0 {
        let prev = plan_upto(st0, keys, now, (n - 1) as nat);
        if prev.has_active {
            lemma_active_stays(st0, keys, now, (n - 1) as nat, n);
        }
        lemma_plan_no_active_no_downs(st0, keys, now, (n - 1) as nat);
    }
}

proof fn lemma_active_stays(st0: PlanState, keys: Seq<FireKeyState>, now: u64, a: nat, b: nat)
    requires
        a <= b <= keys.len(),
        plan_upto(st0, keys, now, a).has_active,
    ensures
        plan_upto(st0, keys, now, b).has_active,
    decreases b - a,
{
    if a < b {
        lemma_active_stays(st0, keys, now, a, (b - 1) as nat);
    }
}

} // verus!
