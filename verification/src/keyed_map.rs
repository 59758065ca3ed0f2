//! A map from text keys to values that keeps its entries in key order, as the
//! configuration files store `classes` and `customConfigs`.

use crate::text::{lemma_text_lt_total, lemma_text_lt_transitive, text_eq, text_less, text_lt};
use vstd::prelude::*;

verus! {

/// Entries as the map holds them: key text and the value's model.
pub type KeyedSeq<T> = Seq<(Seq<char>, T)>;

/// No key occurs twice.
pub open spec fn keys_unique<T>(s: KeyedSeq<T>) -> bool {
    forall|i: int, j: int| 0 <= i < s.len() && 0 <= j < s.len() && i != j ==> s[i].0 != s[j].0
}

/// Whether some entry has key `k`.
pub open spec fn has_key<T>(s: KeyedSeq<T>, k: Seq<char>) -> bool {
    exists|i: int| 0 <= i < s.len() && s[i].0 == k
}

/// Index of the entry with key `k`.
pub open spec fn key_index<T>(s: KeyedSeq<T>, k: Seq<char>) -> int {
    choose|i: int| 0 <= i < s.len() && s[i].0 == k
}

/// The value stored under `k`.
pub open spec fn keyed_get<T>(s: KeyedSeq<T>, k: Seq<char>) -> Option<T> {
    if has_key(s, k) {
        Some(s[key_index(s, k)].1)
    } else {
        None
    }
}

/// A new key goes in front of the first greater key.
pub open spec fn keyed_place<T>(s: KeyedSeq<T>, k: Seq<char>, v: T) -> KeyedSeq<T>
    decreases s.len(),
{
    if s.len() == 0 {
        seq![(k, v)]
    } else if text_lt(k, s[0].0) {
        seq![(k, v)] + s
    } else {
        seq![s[0]] + keyed_place(s.drop_first(), k, v)
    }
}

/// An existing key keeps its place and takes the new value; a new
/// key goes in front of the first greater key.
pub open spec fn keyed_insert<T>(s: KeyedSeq<T>, k: Seq<char>, v: T) -> KeyedSeq<T> {
    if has_key(s, k) {
        s.update(key_index(s, k), (k, v))
    } else {
        keyed_place(s, k, v)
    }
}

/// The entry with key `k` leaves, the others keep their order.
pub open spec fn keyed_remove<T>(s: KeyedSeq<T>, k: Seq<char>) -> KeyedSeq<T> {
    if has_key(s, k) {
        s.remove(key_index(s, k))
    } else {
        s
    }
}

pub proof fn lemma_key_index_unique<T>(s: KeyedSeq<T>, k: Seq<char>, i: int)
    requires
        keys_unique(s),
        0 <= i < s.len(),
        s[i].0 == k,
    ensures
        key_index(s, k) == i,
        keyed_get(s, k) == Some(s[i].1),
{
}

proof fn lemma_place_len<T>(s: KeyedSeq<T>, k: Seq<char>, v: T)
    ensures
        keyed_place(s, k, v).len() == s.len() + 1,
    decreases s.len(),
{
    if s.len() > 0 && !text_lt(k, s[0].0) {
        lemma_place_len(s.drop_first(), k, v);
    }
}

proof fn lemma_place_has_key<T>(s: KeyedSeq<T>, k: Seq<char>, v: T, x: Seq<char>)
    ensures
        has_key(keyed_place(s, k, v), x) <==> (has_key(s, x) || x == k),
    decreases s.len(),
{
    let r = keyed_place(s, k, v);
    lemma_place_len(s, k, v);
    if s.len() == 0 {
        if x == k {
            assert(r[0].0 == k);
        }
    } else if text_lt(k, s[0].0) {
        if has_key(r, x) {
            let i = choose|i: int| 0 <= i < r.len() && r[i].0 == x;
            if i > 0 {
                assert(s[i - 1] == r[i]);
            }
        }
        if has_key(s, x) {
            let i = choose|i: int| 0 <= i < s.len() && s[i].0 == x;
            assert(r[i + 1] == s[i]);
        }
        if x == k {
            assert(r[0].0 == k);
        }
    } else {
        let t = s.drop_first();
        lemma_place_has_key(t, k, v, x);
        lemma_place_len(t, k, v);
        let rt = keyed_place(t, k, v);
        assert(r == seq![s[0]] + rt);
        if has_key(r, x) {
            let i = choose|i: int| 0 <= i < r.len() && r[i].0 == x;
            if i > 0 {
                assert(rt[i - 1] == r[i]);
                assert(has_key(rt, x));
                if x != k {
                    assert(has_key(t, x));
                    let j = choose|j: int| 0 <= j < t.len() && t[j].0 == x;
                    assert(s[j + 1] == t[j]);
                }
            } else {
                assert(s[0].0 == x);
            }
        }
        if has_key(s, x) {
            let i = choose|i: int| 0 <= i < s.len() && s[i].0 == x;
            if i > 0 {
                assert(t[i - 1] == s[i]);
                assert(has_key(t, x));
                assert(has_key(rt, x));
                let j = choose|j: int| 0 <= j < rt.len() && rt[j].0 == x;
                assert(r[j + 1] == rt[j]);
            } else {
                assert(r[0] == s[0]);
            }
        }
        if x == k {
            assert(has_key(rt, k));
            let j = choose|j: int| 0 <= j < rt.len() && rt[j].0 == k;
            assert(r[j + 1] == rt[j]);
        }
    }
}

proof fn lemma_place_keys<T>(s: KeyedSeq<T>, k: Seq<char>, v: T)
    ensures
        keyed_place(s, k, v).len() == s.len() + 1,
        forall|x: Seq<char>| has_key(keyed_place(s, k, v), x) <==> (has_key(s, x) || x == k),
        keys_unique(s) && !has_key(s, k) ==> keys_unique(keyed_place(s, k, v)),
    decreases s.len(),
{
    lemma_place_len(s, k, v);
    assert forall|x: Seq<char>| has_key(keyed_place(s, k, v), x) <==> (has_key(s, x) || x == k) by {
        lemma_place_has_key(s, k, v, x);
    }
    let r = keyed_place(s, k, v);
    if keys_unique(s) && !has_key(s, k) && s.len() > 0 {
        if text_lt(k, s[0].0) {
            assert forall|i: int, j: int|
                0 <= i < r.len() && 0 <= j < r.len() && i != j implies r[i].0 != r[j].0 by {
                if i > 0 && j > 0 {
                    assert(r[i] == s[i - 1]);
                    assert(r[j] == s[j - 1]);
                } else if i == 0 {
                    assert(r[j] == s[j - 1]);
                } else {
                    assert(r[i] == s[i - 1]);
                }
            }
        } else {
            let t = s.drop_first();
            assert(keys_unique(t)) by {
                assert forall|i: int, j: int|
                    0 <= i < t.len() && 0 <= j < t.len() && i != j implies t[i].0 != t[j].0 by {
                    assert(t[i] == s[i + 1]);
                    assert(t[j] == s[j + 1]);
                }
            }
            assert(!has_key(t, k)) by {
                if has_key(t, k) {
                    let i = choose|i: int| 0 <= i < t.len() && t[i].0 == k;
                    assert(s[i + 1] == t[i]);
                }
            }
            lemma_place_keys(t, k, v);
            let rt = keyed_place(t, k, v);
            assert(r == seq![s[0]] + rt);
            assert(!has_key(rt, s[0].0)) by {
                lemma_place_has_key(t, k, v, s[0].0);
                if has_key(rt, s[0].0) {
                    assert(s[0].0 != k) by {
                        if s[0].0 == k {
                            assert(has_key(s, k));
                        }
                    }
                    assert(has_key(t, s[0].0));
                    let i = choose|i: int| 0 <= i < t.len() && t[i].0 == s[0].0;
                    assert(s[i + 1] == t[i]);
                    assert(s[i + 1].0 == s[0].0);
                }
            }
            assert forall|i: int, j: int|
                0 <= i < r.len() && 0 <= j < r.len() && i != j implies r[i].0 != r[j].0 by {
                if i > 0 && j > 0 {
                    assert(r[i] == rt[i - 1]);
                    assert(r[j] == rt[j - 1]);
                } else if i == 0 {
                    assert(r[j] == rt[j - 1]);
                } else {
                    assert(r[i] == rt[i - 1]);
                }
            }
        }
    }
}

/// Keys strictly ascending in the order of texts.
pub open spec fn keys_sorted<T>(s: KeyedSeq<T>) -> bool {
    forall|i: int, j: int| 0 <= i < j < s.len() ==> text_lt(#[trigger] s[i].0, #[trigger] s[j].0)
}

/// Strictly ascending keys are unique.
pub proof fn lemma_sorted_keys_unique<T>(s: KeyedSeq<T>)
    requires
        keys_sorted(s),
    ensures
        keys_unique(s),
{
    assert forall|i: int, j: int| 0 <= i < s.len() && 0 <= j < s.len() && i != j implies s[i].0 != s[j].0 by {
        lemma_text_lt_total(s[i].0, s[j].0);
        if i < j {
            assert(text_lt(s[i].0, s[j].0));
        } else {
            assert(text_lt(s[j].0, s[i].0));
        }
    }
}

proof fn lemma_place_sorted<T>(s: KeyedSeq<T>, k: Seq<char>, v: T)
    requires
        keys_sorted(s),
        !has_key(s, k),
    ensures
        keys_sorted(keyed_place(s, k, v)),
    decreases s.len(),
{
    let r = keyed_place(s, k, v);
    lemma_place_len(s, k, v);
    if s.len() == 0 {
    } else if text_lt(k, s[0].0) {
        assert forall|i: int, j: int| 0 <= i < j < r.len() implies text_lt(#[trigger] r[i].0, #[trigger] r[j].0) by {
            if i == 0 {
                assert(r[j] == s[j - 1]);
                if j > 1 {
                    assert(text_lt(s[0].0, s[j - 1].0));
                    lemma_text_lt_transitive(k, s[0].0, s[j - 1].0);
                }
            } else {
                assert(r[i] == s[i - 1]);
                assert(r[j] == s[j - 1]);
            }
        }
    } else {
        let t = s.drop_first();
        assert(keys_sorted(t)) by {
            assert forall|i: int, j: int| 0 <= i < j < t.len() implies text_lt(#[trigger] t[i].0, #[trigger] t[j].0) by {
                assert(t[i] == s[i + 1]);
                assert(t[j] == s[j + 1]);
            }
        }
        assert(!has_key(t, k)) by {
            if has_key(t, k) {
                let i = choose|i: int| 0 <= i < t.len() && t[i].0 == k;
                assert(s[i + 1] == t[i]);
            }
        }
        assert(s[0].0 != k);
        lemma_text_lt_total(k, s[0].0);
        assert(text_lt(s[0].0, k));
        lemma_place_sorted(t, k, v);
        lemma_place_len(t, k, v);
        let rt = keyed_place(t, k, v);
        assert(r == seq![s[0]] + rt);
        assert forall|i: int, j: int| 0 <= i < j < r.len() implies text_lt(#[trigger] r[i].0, #[trigger] r[j].0) by {
            if i == 0 {
                assert(r[j] == rt[j - 1]);
                lemma_place_has_key(t, k, v, rt[j - 1].0);
                assert(has_key(rt, rt[j - 1].0));
                if rt[j - 1].0 != k {
                    let m = choose|m: int| 0 <= m < t.len() && t[m].0 == rt[j - 1].0;
                    assert(s[m + 1] == t[m]);
                    assert(text_lt(s[0].0, s[m + 1].0));
                }
            } else {
                assert(r[i] == rt[i - 1]);
                assert(r[j] == rt[j - 1]);
            }
        }
    }
}

/// Inserting keeps the keys strictly ascending.
pub proof fn lemma_insert_sorted<T>(s: KeyedSeq<T>, k: Seq<char>, v: T)
    requires
        keys_sorted(s),
    ensures
        keys_sorted(keyed_insert(s, k, v)),
{
    lemma_sorted_keys_unique(s);
    if has_key(s, k) {
        let r = keyed_insert(s, k, v);
        assert forall|a: int, b: int| 0 <= a < b < r.len() implies text_lt(#[trigger] r[a].0, #[trigger] r[b].0) by {
            assert(r[a].0 == s[a].0);
            assert(r[b].0 == s[b].0);
        }
    } else {
        lemma_place_sorted(s, k, v);
    }
}

/// Removing keeps the keys strictly ascending.
pub proof fn lemma_remove_sorted<T>(s: KeyedSeq<T>, k: Seq<char>)
    requires
        keys_sorted(s),
    ensures
        keys_sorted(keyed_remove(s, k)),
{
    if has_key(s, k) {
        let i = key_index(s, k);
        let q = keyed_remove(s, k);
        assert forall|a: int, b: int| 0 <= a < b < q.len() implies text_lt(#[trigger] q[a].0, #[trigger] q[b].0) by {
            let sa = if a < i { a } else { a + 1 };
            let sb = if b < i { b } else { b + 1 };
            assert(q[a] == s[sa]);
            assert(q[b] == s[sb]);
        }
    }
}

/// Inserting keeps keys unique, and the keys afterwards are the old ones and `k`.
pub proof fn lemma_insert_keys<T>(s: KeyedSeq<T>, k: Seq<char>, v: T)
    requires
        keys_unique(s),
    ensures
        keys_unique(keyed_insert(s, k, v)),
        forall|x: Seq<char>| has_key(keyed_insert(s, k, v), x) <==> (has_key(s, x) || x == k),
        keyed_get(keyed_insert(s, k, v), k) == Some(v),
        forall|x: Seq<char>| x != k ==> keyed_get(keyed_insert(s, k, v), x) == keyed_get(s, x),
        keyed_insert(s, k, v).len() == if has_key(s, k) {
            s.len()
        } else {
            s.len() + 1
        },
{
    let r = keyed_insert(s, k, v);
    if !has_key(s, k) {
        lemma_place_len(s, k, v);
    }
    if has_key(s, k) {
        let i = key_index(s, k);
        assert forall|x: Seq<char>| has_key(r, x) <==> (has_key(s, x) || x == k) by {
            if has_key(r, x) {
                let j = choose|j: int| 0 <= j < r.len() && r[j].0 == x;
                assert(r[j].0 == s[j].0);
            }
            if has_key(s, x) {
                let j = choose|j: int| 0 <= j < s.len() && s[j].0 == x;
                assert(r[j].0 == s[j].0);
            }
        }
        assert forall|a: int, b: int|
            0 <= a < r.len() && 0 <= b < r.len() && a != b implies r[a].0 != r[b].0 by {
            assert(r[a].0 == s[a].0);
            assert(r[b].0 == s[b].0);
        }
        lemma_key_index_unique(r, k, i);
        assert forall|x: Seq<char>| x != k implies keyed_get(r, x) == keyed_get(s, x) by {
            if has_key(s, x) {
                let j = key_index(s, x);
                assert(r[j] == s[j]);
                lemma_key_index_unique(r, x, j);
            }
        }
    } else {
        lemma_place_keys(s, k, v);
        assert(has_key(r, k));
        let i = key_index(r, k);
        assert forall|x: Seq<char>| x != k implies keyed_get(r, x) == keyed_get(s, x) by {
            lemma_place_get(s, k, v, x);
        }
        lemma_place_get(s, k, v, k);
    }
}

proof fn lemma_place_get<T>(s: KeyedSeq<T>, k: Seq<char>, v: T, x: Seq<char>)
    requires
        keys_unique(s),
        !has_key(s, k),
    ensures
        keyed_get(keyed_place(s, k, v), x) == (if x == k {
            Some(v)
        } else {
            keyed_get(s, x)
        }),
    decreases s.len(),
{
    lemma_place_keys(s, k, v);
    let r = keyed_place(s, k, v);
    if s.len() == 0 {
        if x == k {
            lemma_key_index_unique(r, k, 0);
        }
    } else if text_lt(k, s[0].0) {
        if x == k {
            lemma_key_index_unique(r, k, 0);
        } else if has_key(s, x) {
            let j = key_index(s, x);
            assert(r[j + 1] == s[j]);
            lemma_key_index_unique(r, x, j + 1);
        }
    } else {
        let t = s.drop_first();
        assert(keys_unique(t)) by {
            assert forall|i: int, j: int|
                0 <= i < t.len() && 0 <= j < t.len() && i != j implies t[i].0 != t[j].0 by {
                assert(t[i] == s[i + 1]);
                assert(t[j] == s[j + 1]);
            }
        }
        assert(!has_key(t, k)) by {
            if has_key(t, k) {
                let i = choose|i: int| 0 <= i < t.len() && t[i].0 == k;
                assert(s[i + 1] == t[i]);
            }
        }
        lemma_place_get(t, k, v, x);
        lemma_place_keys(t, k, v);
        let rt = keyed_place(t, k, v);
        assert(r == seq![s[0]] + rt);
        if x == s[0].0 {
            lemma_key_index_unique(r, x, 0);
            lemma_key_index_unique(s, x, 0);
        } else if has_key(rt, x) {
            let j = key_index(rt, x);
            assert(r[j + 1] == rt[j]);
            lemma_key_index_unique(r, x, j + 1);
            if x != k {
                let m = key_index(t, x);
                assert(s[m + 1] == t[m]);
                lemma_key_index_unique(s, x, m + 1);
            }
        } else {
            assert(!has_key(r, x)) by {
                if has_key(r, x) {
                    let j = choose|j: int| 0 <= j < r.len() && r[j].0 == x;
                    assert(j > 0);
                    assert(rt[j - 1] == r[j]);
                }
            }
            assert(!has_key(s, x)) by {
                if has_key(s, x) {
                    let j = choose|j: int| 0 <= j < s.len() && s[j].0 == x;
                    assert(j > 0);
                    assert(t[j - 1] == s[j]);
                }
            }
        }
    }
}

/// Removing keeps keys unique and takes exactly `k` away.
pub proof fn lemma_remove_keys<T>(s: KeyedSeq<T>, k: Seq<char>)
    requires
        keys_unique(s),
    ensures
        keys_unique(keyed_remove(s, k)),
        forall|x: Seq<char>| has_key(keyed_remove(s, k), x) <==> (has_key(s, x) && x != k),
        keyed_get(keyed_remove(s, k), k) == None::<T>,
        forall|x: Seq<char>| x != k ==> keyed_get(keyed_remove(s, k), x) == keyed_get(s, x),
{
    let r = keyed_remove(s, k);
    if has_key(s, k) {
        let i = key_index(s, k);
        assert forall|a: int, b: int|
            0 <= a < r.len() && 0 <= b < r.len() && a != b implies r[a].0 != r[b].0 by {
            let sa = if a < i { a } else { a + 1 };
            let sb = if b < i { b } else { b + 1 };
            assert(r[a] == s[sa]);
            assert(r[b] == s[sb]);
        }
        assert forall|x: Seq<char>| has_key(r, x) <==> (has_key(s, x) && x != k) by {
            if has_key(r, x) {
                let a = choose|a: int| 0 <= a < r.len() && r[a].0 == x;
                let sa = if a < i { a } else { a + 1 };
                assert(r[a] == s[sa]);
            }
            if has_key(s, x) && x != k {
                let a = choose|a: int| 0 <= a < s.len() && s[a].0 == x;
                if a < i {
                    assert(r[a] == s[a]);
                } else {
                    assert(a != i);
                    assert(r[a - 1] == s[a]);
                }
            }
        }
        assert forall|x: Seq<char>| x != k implies keyed_get(r, x) == keyed_get(s, x) by {
            if has_key(s, x) {
                let a = key_index(s, x);
                if a < i {
                    assert(r[a] == s[a]);
                    lemma_key_index_unique(r, x, a);
                } else {
                    assert(r[a - 1] == s[a]);
                    lemma_key_index_unique(r, x, a - 1);
                }
            }
        }
    }
}

/// Values that can be copied with their model unchanged.
pub trait Duplicate: View + Sized {
    fn duplicate(&self) -> (r: Self)
        ensures
            r@ == self@,
    ;
}

/// Text keys to values, kept in key order with each key once.
#[derive(Debug)]
pub struct KeyedMap<V> {
    entries: Vec<(String, V)>,
}

impl<V: View> View for KeyedMap<V> {
    type V = KeyedSeq<V::V>;

    closed spec fn view(&self) -> KeyedSeq<V::V> {
        Seq::new(self.entries@.len(), |i: int| (self.entries@[i].0@, self.entries@[i].1@))
    }
}

impl<V: View> KeyedMap<V> {
    /// Each key occurs once, and the keys ascend: the entries are in the order a
    /// `BTreeMap` walks them.
    pub open spec fn wf(&self) -> bool {
        keys_unique(self@) && keys_sorted(self@)
    }

    /// An empty map.
    pub fn new() -> (m: Self)
        ensures
            m@ == Seq::<(Seq<char>, V::V)>::empty(),
            m.wf(),
    {
        let m = KeyedMap { entries: Vec::new() };
        assert(m@ =~= Seq::<(Seq<char>, V::V)>::empty());
        m
    }

    /// Number of entries.
    pub fn len(&self) -> (n: usize)
        ensures
            n == self@.len(),
    {
        self.entries.len()
    }

    /// Whether the map has no entry.
    pub fn is_empty(&self) -> (b: bool)
        ensures
            b == (self@.len() == 0),
    {
        self.entries.len() == 0
    }

    /// Key of the `i`-th entry in key order.
    pub fn key_at(&self, i: usize) -> (k: &String)
        requires
            i < self@.len(),
        ensures
            k@ == self@[i as int].0,
    {
        &self.entries[i].0
    }

    /// Value of the `i`-th entry in key order.
    pub fn value_at(&self, i: usize) -> (v: &V)
        requires
            i < self@.len(),
        ensures
            v@ == self@[i as int].1,
    {
        &self.entries[i].1
    }

    /// Index of the entry with key `key`, if there is one.
    pub fn find(&self, key: &str) -> (r: Option<usize>)
        ensures
            match r {
                Some(i) => i < self@.len() && self@[i as int].0 == key@,
                None => !has_key(self@, key@),
            },
    {
        let mut i: usize = 0;
        while i < self.entries.len()
            invariant
                i <= self@.len(),
                self@.len() == self.entries@.len(),
                forall|j: int| 0 <= j < i ==> self@[j].0 != key@,
            decreases self.entries.len() - i,
        {
            if text_eq(self.entries[i].0.as_str(), key) {
                return Some(i);
            }
            i = i + 1;
        }
        None
    }

    /// Whether some entry has key `key`.
    pub fn contains_key(&self, key: &str) -> (b: bool)
        ensures
            b == has_key(self@, key@),
    {
        self.find(key).is_some()
    }

    /// The value stored under `key`.
    pub fn get(&self, key: &str) -> (r: Option<&V>)
        requires
            self.wf(),
        ensures
            match r {
                Some(v) => keyed_get(self@, key@) == Some(v@),
                None => keyed_get(self@, key@) == None::<V::V>,
            },
    {
        match self.find(key) {
            Some(i) => {
                proof {
                    lemma_key_index_unique(self@, key@, i as int);
                }
                Some(&self.entries[i].1)
            },
            None => None,
        }
    }

    /// Stores `value` under `key`: replaces the value of an existing key in place, or
    /// adds the key in key order.
    pub fn insert(&mut self, key: String, value: V)
        requires
            old(self).wf(),
        ensures
            final(self)@ == keyed_insert(old(self)@, key@, value@),
            final(self).wf(),
    {
        proof {
            lemma_insert_keys(self@, key@, value@);
            lemma_insert_sorted(self@, key@, value@);
        }
        match self.find(key.as_str()) {
            Some(i) => {
                proof {
                    lemma_key_index_unique(self@, key@, i as int);
                }
                let ghost before = self@;
                self.entries.remove(i);
                self.entries.insert(i, (key, value));
                assert(self@ =~= before.update(i as int, (key@, value@)));
            },
            None => {
                let ghost before = self@;
                let mut p: usize = 0;
                assert(before.skip(0) =~= before);
                assert(before.take(0) + keyed_place(before, key@, value@) =~= keyed_place(
                    before,
                    key@,
                    value@,
                ));
                while p < self.entries.len() && !text_less(key.as_str(), self.entries[p].0.as_str())
                    invariant
                        p <= self@.len(),
                        self@ == before,
                        self@.len() == self.entries@.len(),
                        keyed_place(before, key@, value@) == before.take(p as int) + keyed_place(
                            before.skip(p as int),
                            key@,
                            value@,
                        ),
                    decreases self.entries.len() - p,
                {
                    proof {
                        let rest = before.skip(p as int);
                        assert(rest[0] == before[p as int]);
                        assert(rest.drop_first() =~= before.skip(p + 1));
                        assert(before.take(p as int) + seq![rest[0]] =~= before.take(p + 1));
                        assert(keyed_place(rest, key@, value@) == seq![rest[0]] + keyed_place(
                            before.skip(p + 1),
                            key@,
                            value@,
                        ));
                        assert(before.take(p as int) + keyed_place(rest, key@, value@)
                            =~= before.take(p + 1) + keyed_place(
                            before.skip(p + 1),
                            key@,
                            value@,
                        ));
                    }
                    p = p + 1;
                }
                proof {
                    let rest = before.skip(p as int);
                    if p < before.len() {
                        assert(rest[0] == before[p as int]);
                        assert(keyed_place(rest, key@, value@) == seq![(key@, value@)] + rest);
                    } else {
                        assert(rest.len() == 0);
                    }
                }
                self.entries.insert(p, (key, value));
                assert(self@ =~= before.take(p as int) + keyed_place(
                    before.skip(p as int),
                    key@,
                    value@,
                ));
            },
        }
    }

    /// Takes the entry with key `key` out of the map.
    pub fn remove(&mut self, key: &str) -> (r: Option<V>)
        requires
            old(self).wf(),
        ensures
            final(self)@ == keyed_remove(old(self)@, key@),
            final(self).wf(),
            match r {
                Some(v) => keyed_get(old(self)@, key@) == Some(v@),
                None => keyed_get(old(self)@, key@) == None::<V::V>,
            },
    {
        proof {
            lemma_remove_keys(self@, key@);
            lemma_remove_sorted(self@, key@);
        }
        match self.find(key) {
            Some(i) => {
                proof {
                    lemma_key_index_unique(self@, key@, i as int);
                }
                let ghost before = self@;
                let (_, v) = self.entries.remove(i);
                assert(self@ =~= before.remove(i as int));
                Some(v)
            },
            None => None,
        }
    }

    /// Replaces the value of the `i`-th entry, keeping its key and place.
    pub fn set_value_at(&mut self, i: usize, value: V)
        requires
            i < old(self)@.len(),
            old(self).wf(),
        ensures
            final(self)@ == old(self)@.update(i as int, (old(self)@[i as int].0, value@)),
            final(self).wf(),
    {
        let ghost before = self@;
        let (k, _) = self.entries.remove(i);
        self.entries.insert(i, (k, value));
        assert(self@ =~= before.update(i as int, (before[i as int].0, value@)));
        assert forall|a: int, b: int|
            0 <= a < self@.len() && 0 <= b < self@.len() && a != b implies self@[a].0
            != self@[b].0 by {
            assert(self@[a].0 == before[a].0);
            assert(self@[b].0 == before[b].0);
        }
    }
}

impl<V: Duplicate> KeyedMap<V> {
    /// A copy with the same entries in the same order.
    pub fn duplicate(&self) -> (r: Self)
        requires
            self.wf(),
        ensures
            r@ == self@,
            r.wf(),
    {
        let mut entries: Vec<(String, V)> = Vec::new();
        let mut i: usize = 0;
        while i < self.entries.len()
            invariant
                i <= self.entries@.len(),
                entries@.len() == i,
                forall|j: int|
                    0 <= j < i ==> (#[trigger] entries@[j]).0@ == self.entries@[j].0@
                        && entries@[j].1@ == self.entries@[j].1@,
            decreases self.entries.len() - i,
        {
            let k = self.entries[i].0.clone();
            let v = self.entries[i].1.duplicate();
            entries.push((k, v));
            i = i + 1;
        }
        let r = KeyedMap { entries };
        assert(r@ =~= self@);
        r
    }
}

} // verus!
