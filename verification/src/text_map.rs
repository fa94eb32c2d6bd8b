//! Maps with text keys, walked in ascending key order.

use crate::same::{Replica, Same};
use crate::text::{
    lemma_text_less_irreflexive, lemma_text_less_total, lemma_text_less_transitive, place, text_less,
    Place,
};
use vstd::prelude::*;

verus! {

/// Every text of the sequence comes before every later one.
pub open spec fn ascending(keys: Seq<Seq<char>>) -> bool {
    forall|i: int, j: int| 0 <= i < j < keys.len() ==> text_less(#[trigger] keys[i], #[trigger] keys[j])
}

/// The texts of a finite set, in ascending order.
pub open spec fn sorted_keys(set: Set<Seq<char>>) -> Seq<Seq<char>> {
    choose|keys: Seq<Seq<char>>| #[trigger] ascending(keys) && keys.to_set() == set
}

/// There is only one way to list a set of texts in ascending order.
pub proof fn lemma_sorted_keys(keys: Seq<Seq<char>>)
    requires
        ascending(keys),
    ensures
        sorted_keys(keys.to_set()) == keys,
{
    let other = sorted_keys(keys.to_set());
    assert(ascending(other) && other.to_set() == keys.to_set());
    lemma_ascending_unique(other, keys);
}

proof fn lemma_ascending_unique(a: Seq<Seq<char>>, b: Seq<Seq<char>>)
    requires
        ascending(a),
        ascending(b),
        a.to_set() == b.to_set(),
    ensures
        a == b,
    decreases a.len(),
{
    assert forall|x: Seq<char>| #[trigger] a.contains(x) <==> b.contains(x) by {
        assert(a.to_set().contains(x) == a.contains(x));
        assert(b.to_set().contains(x) == b.contains(x));
    }
    if a.len() == 0 {
        if b.len() > 0 {
            assert(b.contains(b[0]));
            assert(a.contains(b[0]));
        }
        assert(a =~= b);
    } else if b.len() == 0 {
        assert(a.contains(a[0]));
    } else {
        let x = a.last();
        let y = b.last();
        assert(a.contains(x));
        assert(b.contains(x));
        assert(b.contains(y));
        assert(a.contains(y));
        let i = choose|i: int| 0 <= i < b.len() && b[i] == x;
        let j = choose|j: int| 0 <= j < a.len() && a[j] == y;
        if x != y {
            lemma_text_less_transitive(x, y, x);
            lemma_text_less_irreflexive(x);
        }
        let a1 = a.drop_last();
        let b1 = b.drop_last();
        assert forall|z: Seq<char>| a1.to_set().contains(z) <==> b1.to_set().contains(z) by {
            if a1.contains(z) {
                let k = choose|k: int| 0 <= k < a1.len() && a1[k] == z;
                assert(a[k] == z);
                lemma_text_less_irreflexive(x);
                assert(a.contains(z));
                assert(b.contains(z));
                let l = choose|l: int| 0 <= l < b.len() && b[l] == z;
                assert(b1[l] == z);
            }
            if b1.contains(z) {
                let k = choose|k: int| 0 <= k < b1.len() && b1[k] == z;
                assert(b[k] == z);
                lemma_text_less_irreflexive(x);
                assert(b.contains(z));
                assert(a.contains(z));
                let l = choose|l: int| 0 <= l < a.len() && a[l] == z;
                assert(a1[l] == z);
            }
        }
        assert(a1.to_set() =~= b1.to_set());
        lemma_ascending_unique(a1, b1);
        assert(a =~= a1.push(x));
        assert(b =~= b1.push(y));
    }
}

proof fn lemma_insert_in_order(keys: Seq<Seq<char>>, x: Seq<char>) -> (r: Seq<Seq<char>>)
    requires
        ascending(keys),
        !keys.contains(x),
    ensures
        ascending(r),
        forall|k: Seq<char>| #[trigger] r.contains(k) <==> keys.contains(k) || k == x,
    decreases keys.len(),
{
    if keys.len() == 0 {
        let r = seq![x];
        assert(r[0] == x);
        r
    } else {
        let last = keys.last();
        let init = keys.drop_last();
        assert(keys.contains(last));
        assert forall|k: Seq<char>| #[trigger] keys.contains(k) <==> init.contains(k) || k == last by {
            if keys.contains(k) {
                let i = choose|i: int| 0 <= i < keys.len() && keys[i] == k;
                if i < init.len() {
                    assert(init[i] == k);
                }
            }
            if init.contains(k) {
                let i = choose|i: int| 0 <= i < init.len() && init[i] == k;
                assert(keys[i] == k);
            }
        }
        lemma_text_less_total(last, x);
        if text_less(last, x) {
            let r = keys.push(x);
            assert(ascending(r)) by {
                assert forall|i: int, j: int| 0 <= i < j < r.len() implies text_less(
                    #[trigger] r[i],
                    #[trigger] r[j],
                ) by {
                    if j == keys.len() && i < init.len() {
                        assert(text_less(keys[i], keys[keys.len() - 1]));
                        lemma_text_less_transitive(keys[i], last, x);
                    }
                }
            }
            assert forall|k: Seq<char>| #[trigger] r.contains(k) <==> keys.contains(k) || k == x by {
                if keys.contains(k) {
                    let i = choose|i: int| 0 <= i < keys.len() && keys[i] == k;
                    assert(r[i] == k);
                }
                assert(r[keys.len() as int] == x);
            }
            r
        } else {
            let inner = lemma_insert_in_order(init, x);
            let r = inner.push(last);
            assert(ascending(r)) by {
                assert forall|i: int, j: int| 0 <= i < j < r.len() implies text_less(
                    #[trigger] r[i],
                    #[trigger] r[j],
                ) by {
                    if j == inner.len() {
                        assert(inner.contains(r[i]));
                        if r[i] != x {
                            let k = choose|k: int| 0 <= k < init.len() && init[k] == r[i];
                            assert(text_less(keys[k], keys[keys.len() - 1]));
                        }
                    }
                }
            }
            assert forall|k: Seq<char>| #[trigger] r.contains(k) <==> keys.contains(k) || k == x by {
                if inner.contains(k) {
                    let i = choose|i: int| 0 <= i < inner.len() && inner[i] == k;
                    assert(r[i] == k);
                }
                assert(r[inner.len() as int] == last);
                if r.contains(k) && k != last {
                    let i = choose|i: int| 0 <= i < r.len() && r[i] == k;
                    assert(inner[i] == k);
                }
            }
            r
        }
    }
}

/// A finite set of texts can be listed in ascending order.
pub proof fn lemma_finite_is_walked(set: Set<Seq<char>>)
    requires
        set.finite(),
    ensures
        ascending(sorted_keys(set)),
        sorted_keys(set).to_set() == set,
        forall|k: Seq<char>| #[trigger] sorted_keys(set).contains(k) <==> set.contains(k),
    decreases set.len(),
{
    let keys = if set.len() == 0 {
        let keys = Seq::<Seq<char>>::empty();
        assert(keys.to_set() =~= set);
        keys
    } else {
        let x = set.choose();
        let rest = set.remove(x);
        lemma_finite_is_walked(rest);
        let keys = lemma_insert_in_order(sorted_keys(rest), x);
        assert forall|k: Seq<char>| #[trigger] keys.to_set().contains(k) <==> set.contains(k) by {
            assert(keys.contains(k) <==> sorted_keys(rest).contains(k) || k == x);
        }
        assert(keys.to_set() =~= set);
        keys
    };
    assert(ascending(keys) && keys.to_set() == set);
    lemma_sorted_keys(keys);
    assert forall|k: Seq<char>| #[trigger] sorted_keys(set).contains(k) <==> set.contains(k) by {
        assert(keys.to_set().contains(k) == keys.contains(k));
    }
}

/// A map from texts to values, kept in ascending key order.
#[derive(Debug, PartialEq, Eq)]
pub struct TextMap<V> {
    entries: Vec<(String, V)>,
}

impl<V> View for TextMap<V> {
    type V = Map<Seq<char>, V>;

    closed spec fn view(&self) -> Map<Seq<char>, V> {
        Map::new(
            |key: Seq<char>| exists|i: int| self.holds(key, i),
            |key: Seq<char>| self.entries@[self.slot(key)].1,
        )
    }
}

impl<V: DeepView> DeepView for TextMap<V> {
    type V = Map<Seq<char>, V::V>;

    open spec fn deep_view(&self) -> Map<Seq<char>, V::V> {
        self@.map_values(|value: V| value.deep_view())
    }
}

impl<V> TextMap<V> {
    #[verifier::type_invariant]
    spec fn in_order(&self) -> bool {
        ascending(self.key_seq())
    }

    spec fn holds(&self, key: Seq<char>, i: int) -> bool {
        0 <= i < self.entries@.len() && self.entries@[i].0@ == key
    }

    spec fn slot(&self, key: Seq<char>) -> int {
        choose|i: int| self.holds(key, i)
    }

    spec fn key_seq(&self) -> Seq<Seq<char>> {
        Seq::new(self.entries@.len(), |i: int| self.entries@[i].0@)
    }

    /// The keys in the order in which the map is walked.
    pub open spec fn keys(&self) -> Seq<Seq<char>> {
        sorted_keys(self@.dom())
    }

    proof fn lemma_entry(&self, i: int)
        requires
            self.in_order(),
            0 <= i < self.entries@.len(),
        ensures
            self@.contains_key(self.entries@[i].0@),
            self@[self.entries@[i].0@] == self.entries@[i].1,
    {
        let key = self.entries@[i].0@;
        assert(self.holds(key, i));
        let j = self.slot(key);
        lemma_text_less_irreflexive(key);
        assert(self.key_seq()[i] == key);
        assert(self.key_seq()[j] == key);
    }

    proof fn lemma_keys(&self)
        requires
            self.in_order(),
        ensures
            self.keys() == self.key_seq(),
    {
        assert(self.key_seq().to_set() =~= self@.dom()) by {
            assert forall|key: Seq<char>|
                self.key_seq().to_set().contains(key) <==> self@.dom().contains(key) by {
                if self@.dom().contains(key) {
                    assert(self.key_seq()[self.slot(key)] == key);
                }
                if self.key_seq().contains(key) {
                    let i = choose|i: int| 0 <= i < self.key_seq().len() && self.key_seq()[i] == key;
                    assert(self.holds(key, i));
                }
            }
        }
        lemma_sorted_keys(self.key_seq());
    }

    /// The empty map.
    pub fn new() -> (r: Self)
        ensures
            r@ == Map::<Seq<char>, V>::empty(),
    {
        let r = TextMap { entries: Vec::new() };
        assert(r@ =~= Map::<Seq<char>, V>::empty());
        r
    }

    /// How many keys the map holds.
    pub fn len(&self) -> (r: usize)
        ensures
            r == self.keys().len(),
    {
        proof {
            use_type_invariant(self);
            self.lemma_keys();
        }
        self.entries.len()
    }

    /// The key at a position of the walk.
    pub fn key_at(&self, i: usize) -> (r: &String)
        requires
            i < self.keys().len(),
        ensures
            r@ == self.keys()[i as int],
            self@.contains_key(r@),
    {
        proof {
            use_type_invariant(self);
            self.lemma_keys();
            self.lemma_entry(i as int);
        }
        &self.entries[i].0
    }

    /// The value at a position of the walk.
    pub fn value_at(&self, i: usize) -> (r: &V)
        requires
            i < self.keys().len(),
        ensures
            self@.contains_key(self.keys()[i as int]),
            *r == self@[self.keys()[i as int]],
    {
        proof {
            use_type_invariant(self);
            self.lemma_keys();
            self.lemma_entry(i as int);
        }
        &self.entries[i].1
    }

    /// The first position whose key does not come before `key`.
    fn position(&self, key: &str) -> (r: usize)
        ensures
            r <= self.entries@.len(),
            forall|i: int| 0 <= i < r ==> text_less(#[trigger] self.entries@[i].0@, key@),
            forall|i: int|
                r <= i < self.entries@.len() ==> !text_less(#[trigger] self.entries@[i].0@, key@),
    {
        proof {
            use_type_invariant(self);
        }
        let mut low: usize = 0;
        let mut high: usize = self.entries.len();
        while low < high
            invariant
                low <= high <= self.entries@.len(),
                self.in_order(),
                forall|i: int| 0 <= i < low ==> text_less(#[trigger] self.entries@[i].0@, key@),
                forall|i: int|
                    high <= i < self.entries@.len() ==> !text_less(
                        #[trigger] self.entries@[i].0@,
                        key@,
                    ),
            decreases high - low,
        {
            let mid: usize = low + (high - low) / 2;
            let ghost m = self.entries@[mid as int].0@;
            assert(self.key_seq()[mid as int] == m);
            match place(self.entries[mid].0.as_str(), key) {
                Place::Before => {
                    assert forall|i: int| 0 <= i < mid + 1 implies text_less(
                        #[trigger] self.entries@[i].0@,
                        key@,
                    ) by {
                        assert(self.key_seq()[i] == self.entries@[i].0@);
                        if i < mid {
                            lemma_text_less_transitive(self.entries@[i].0@, m, key@);
                        }
                    }
                    low = mid + 1;
                },
                _ => {
                    assert forall|i: int| mid <= i < self.entries@.len() implies !text_less(
                        #[trigger] self.entries@[i].0@,
                        key@,
                    ) by {
                        assert(self.key_seq()[i] == self.entries@[i].0@);
                        lemma_text_less_irreflexive(key@);
                        if i > mid && text_less(self.entries@[i].0@, key@) {
                            lemma_text_less_transitive(m, self.entries@[i].0@, key@);
                        }
                    }
                    high = mid;
                },
            }
        }
        low
    }

    /// Whether the map has a value for `key`, with its position.
    fn find(&self, key: &str) -> (r: (usize, bool))
        ensures
            r.0 <= self.entries@.len(),
            forall|i: int| 0 <= i < r.0 ==> text_less(#[trigger] self.entries@[i].0@, key@),
            r.1 ==> r.0 < self.entries@.len() && self.entries@[r.0 as int].0@ == key@,
            !r.1 ==> forall|i: int|
                r.0 <= i < self.entries@.len() ==> text_less(key@, #[trigger] self.entries@[i].0@),
            r.1 == self@.contains_key(key@),
    {
        proof {
            use_type_invariant(self);
        }
        let i: usize = self.position(key);
        if i < self.entries.len() {
            match place(self.entries[i].0.as_str(), key) {
                Place::Same => {
                    proof {
                        self.lemma_entry(i as int);
                    }
                    return (i, true);
                },
                _ => {},
            }
        }
        assert forall|j: int| i <= j < self.entries@.len() implies text_less(
            key@,
            #[trigger] self.entries@[j].0@,
        ) by {
            assert(self.key_seq()[i as int] == self.entries@[i as int].0@);
            assert(self.key_seq()[j] == self.entries@[j].0@);
            lemma_text_less_total(self.entries@[i as int].0@, key@);
            if j > i {
                lemma_text_less_transitive(key@, self.entries@[i as int].0@, self.entries@[j].0@);
            }
        }
        assert(!self@.contains_key(key@)) by {
            lemma_text_less_irreflexive(key@);
        }
        (i, false)
    }

    /// Whether `key` has a value.
    pub fn contains_key(&self, key: &str) -> (r: bool)
        ensures
            r == self@.contains_key(key@),
    {
        self.find(key).1
    }

    /// The value for `key`.
    pub fn get(&self, key: &str) -> (r: Option<&V>)
        ensures
            r is Some <==> self@.contains_key(key@),
            r matches Some(value) ==> *value == self@[key@],
    {
        proof {
            use_type_invariant(self);
        }
        let (i, found) = self.find(key);
        if found {
            proof {
                self.lemma_entry(i as int);
            }
            Some(&self.entries[i].1)
        } else {
            None
        }
    }

    /// Gives `key` a value and returns the one it had.
    pub fn insert(&mut self, key: String, value: V) -> (r: Option<V>)
        ensures
            final(self)@ == old(self)@.insert(key@, value),
            r is Some <==> old(self)@.contains_key(key@),
            r matches Some(before) ==> before == old(self)@[key@],
    {
        proof {
            use_type_invariant(&*self);
        }
        let ghost before = *self;
        let (i, found) = self.find(key.as_str());
        let mut entries: Vec<(String, V)> = Vec::new();
        std::mem::swap(&mut entries, &mut self.entries);
        let ghost name = key@;
        let r = if found {
            proof {
                before.lemma_entry(i as int);
            }
            let (_, old_value) = entries.remove(i);
            Some(old_value)
        } else {
            None
        };
        entries.insert(i, (key, value));
        let ghost after = TextMap { entries };
        proof {
            let ks = before.key_seq();
            let ks1 = after.key_seq();
            if found {
                assert(ks1 =~= ks);
            } else {
                assert(ks1 =~= ks.insert(i as int, name));
                assert forall|a: int, b: int| 0 <= a < b < ks1.len() implies text_less(
                    #[trigger] ks1[a],
                    #[trigger] ks1[b],
                ) by {
                    let a0 = if a < i { a } else { a - 1 };
                    let b0 = if b < i { b } else { b - 1 };
                    if a != i {
                        assert(ks1[a] == ks[a0]);
                        assert(before.entries@[a0].0@ == ks[a0]);
                    }
                    if b != i {
                        assert(ks1[b] == ks[b0]);
                        assert(before.entries@[b0].0@ == ks[b0]);
                    }
                }
            }
            assert(after.in_order());
            after.lemma_same_as_insert(before, i as int, found, name, value);
        }
        self.entries = entries;
        r
    }

    proof fn lemma_same_as_insert(
        &self,
        before: Self,
        i: int,
        found: bool,
        key: Seq<char>,
        value: V,
    )
        requires
            self.in_order(),
            before.in_order(),
            0 <= i <= before.entries@.len(),
            0 <= i < self.entries@.len(),
            self.entries@[i].0@ == key,
            self.entries@[i].1 == value,
            found ==> i < before.entries@.len() && before.entries@[i].0@ == key,
            self.entries@ == (if found {
                before.entries@.remove(i)
            } else {
                before.entries@
            }).insert(i, self.entries@[i]),
            found == before@.contains_key(key),
        ensures
            self@ == before@.insert(key, value),
    {
        self.lemma_entry(i);
        let target = before@.insert(key, value);
        assert forall|k: Seq<char>| #[trigger] self@.contains_key(k) <==> target.contains_key(k) by {
            if self@.contains_key(k) && k != key {
                let a = self.slot(k);
                let a0 = if found || a < i { a } else { a - 1 };
                assert(before.holds(k, a0));
            }
            if before@.contains_key(k) && k != key {
                let a0 = before.slot(k);
                let a = if found || a0 < i { a0 } else { a0 + 1 };
                assert(self.holds(k, a));
            }
        }
        assert forall|k: Seq<char>| #[trigger] self@.contains_key(k) implies self@[k] == target[k] by {
            if k != key {
                let a = self.slot(k);
                let a0 = if found || a < i { a } else { a - 1 };
                self.lemma_entry(a);
                before.lemma_entry(a0);
            }
        }
        assert(self@ =~= target);
    }

    /// Takes `key` and its value out.
    pub fn remove(&mut self, key: &str) -> (r: Option<V>)
        ensures
            final(self)@ == old(self)@.remove(key@),
            r is Some <==> old(self)@.contains_key(key@),
            r matches Some(before) ==> before == old(self)@[key@],
    {
        proof {
            use_type_invariant(&*self);
        }
        let ghost before = *self;
        let (i, found) = self.find(key);
        if !found {
            assert(self@ =~= self@.remove(key@));
            return None;
        }
        let mut entries: Vec<(String, V)> = Vec::new();
        std::mem::swap(&mut entries, &mut self.entries);
        let (_, value) = entries.remove(i);
        let ghost after = TextMap { entries };
        proof {
            before.lemma_entry(i as int);
            let ks = before.key_seq();
            let ks1 = after.key_seq();
            assert(ks1 =~= ks.remove(i as int));
            assert(after.in_order());
            let target = before@.remove(key@);
            assert forall|k: Seq<char>| #[trigger] after@.contains_key(k) <==> target.contains_key(k) by {
                if after@.contains_key(k) {
                    let a = after.slot(k);
                    let a0 = if a < i { a } else { a + 1 };
                    assert(before.holds(k, a0));
                    lemma_text_less_irreflexive(key@);
                    assert(ks[a0] == k);
                    assert(ks[i as int] == key@);
                }
                if target.contains_key(k) {
                    let a0 = before.slot(k);
                    let a = if a0 < i { a0 } else { a0 - 1 };
                    assert(after.holds(k, a));
                }
            }
            assert forall|k: Seq<char>| #[trigger] after@.contains_key(k) implies after@[k] == target[k] by {
                let a = after.slot(k);
                let a0 = if a < i { a } else { a + 1 };
                after.lemma_entry(a);
                before.lemma_entry(a0);
            }
            assert(after@ =~= target);
        }
        self.entries = entries;
        Some(value)
    }
}

impl<V: Clone> Clone for TextMap<V> {
    fn clone(&self) -> (r: Self)
        ensures
            r@.dom() == self@.dom(),
    {
        proof {
            use_type_invariant(self);
        }
        let mut entries: Vec<(String, V)> = Vec::new();
        for i in 0..self.entries.len()
            invariant
                entries@.len() == i,
                forall|j: int| 0 <= j < i ==> (#[trigger] entries@[j]).0 == self.entries@[j].0,
        {
            entries.push((self.entries[i].0.clone(), self.entries[i].1.clone()));
        }
        let ghost copy = TextMap { entries };
        proof {
            assert(copy.key_seq() =~= self.key_seq());
            copy.lemma_dom(*self);
        }
        TextMap { entries }
    }
}

impl<V> TextMap<V> {
    proof fn lemma_dom(&self, other: Self)
        requires
            self.key_seq() == other.key_seq(),
        ensures
            self@.dom() == other@.dom(),
    {
        assert(self.key_seq().len() == self.entries@.len());
        assert(other.key_seq().len() == other.entries@.len());
        assert forall|k: Seq<char>| #[trigger] self@.dom().contains(k) <==> other@.dom().contains(k) by {
            if self@.dom().contains(k) {
                let i = self.slot(k);
                assert(self.key_seq()[i] == k);
                assert(other.key_seq()[i] == k);
                assert(other.holds(k, i));
            }
            if other@.dom().contains(k) {
                let i = other.slot(k);
                assert(other.key_seq()[i] == k);
                assert(self.key_seq()[i] == k);
                assert(self.holds(k, i));
            }
        }
        assert(self@.dom() =~= other@.dom());
    }

    /// A value is smaller than the map that holds it.
    pub proof fn lemma_value_smaller(&self, key: Seq<char>)
        requires
            self@.contains_key(key),
        ensures
            decreases_to!(self => self@[key]),
    {
        let i = self.slot(key);
        assert(self.holds(key, i));
        assert(decreases_to!(self => self.entries));
        assert(decreases_to!(self.entries => self.entries@));
        assert(decreases_to!(self.entries@ => self.entries@[i]));
        assert(decreases_to!(self.entries@[i] => self.entries@[i].1));
    }

    /// Whether the map holds no key.
    pub fn is_empty(&self) -> (r: bool)
        ensures
            r == (self@ == Map::<Seq<char>, V>::empty()),
            r == (self@.dom() == Set::<Seq<char>>::empty()),
    {
        proof {
            use_type_invariant(self);
            if self.entries@.len() > 0 {
                self.lemma_entry(0);
                assert(self@.dom().contains(self.entries@[0].0@));
            } else {
                assert(self@ =~= Map::<Seq<char>, V>::empty());
                assert(self@.dom() =~= Set::<Seq<char>>::empty());
            }
        }
        self.entries.len() == 0
    }

    /// The walk lists each key of the map once, in ascending order.
    pub fn walk(&self) -> (r: usize)
        ensures
            r == self.keys().len(),
            ascending(self.keys()),
            self.keys().to_set() == self@.dom(),
            self@.dom().finite(),
            forall|i: int|
                0 <= i < self.keys().len() ==> self@.contains_key(#[trigger] self.keys()[i]),
            forall|k: Seq<char>| self@.contains_key(k) ==> #[trigger] self.keys().contains(k),
    {
        proof {
            use_type_invariant(self);
            self.lemma_keys();
            assert(self.key_seq().to_set() =~= self@.dom()) by {
                assert forall|key: Seq<char>|
                    self.key_seq().to_set().contains(key) <==> self@.dom().contains(key) by {
                    if self@.dom().contains(key) {
                        assert(self.key_seq()[self.slot(key)] == key);
                    }
                    if self.key_seq().contains(key) {
                        let i = choose|i: int|
                            0 <= i < self.key_seq().len() && self.key_seq()[i] == key;
                        assert(self.holds(key, i));
                    }
                }
            }
            assert forall|i: int| 0 <= i < self.keys().len() implies self@.contains_key(
                #[trigger] self.keys()[i],
            ) by {
                self.lemma_entry(i);
            }
            assert forall|k: Seq<char>| self@.contains_key(k) implies #[trigger] self.keys().contains(
                k,
            ) by {
                assert(self.key_seq()[self.slot(k)] == k);
            }
        }
        self.entries.len()
    }
}

impl<V: DeepView> TextMap<V> {
    /// The map with a value for one more key.
    pub fn with(self, key: &str, value: V) -> (r: Self)
        ensures
            r.deep_view() == self.deep_view().insert(key@, value.deep_view()),
    {
        let mut map = self;
        map.insert(key.to_owned(), value);
        map
    }
}

/// One more key of a walk is one more key of the map that is built on the way.
pub proof fn lemma_taken(
    keys: Seq<Seq<char>>,
    i: int,
    before: Set<Seq<char>>,
    after: Set<Seq<char>>,
)
    requires
        0 <= i < keys.len(),
        forall|k: Seq<char>| #[trigger] before.contains(k) <==> keys.take(i).contains(k),
        after == before.insert(keys[i]),
    ensures
        forall|k: Seq<char>| #[trigger] after.contains(k) <==> keys.take(i + 1).contains(k),
{
    let now = keys.take(i + 1);
    assert forall|k: Seq<char>| #[trigger] after.contains(k) <==> now.contains(k) by {
        assert(now[i] == keys[i]);
        if keys.take(i).contains(k) {
            let a = choose|a: int| 0 <= a < i && keys.take(i)[a] == k;
            assert(now[a] == k);
        }
        if now.contains(k) && k != keys[i] {
            let a = choose|a: int| 0 <= a < now.len() && now[a] == k;
            assert(keys.take(i)[a] == k);
        }
    }
}

/// The keys of a set and those of a map.
pub fn add_keys<V>(set: TextMap<bool>, map: &TextMap<V>) -> (r: TextMap<bool>)
    ensures
        r@.dom() == set@.dom().union(map@.dom()),
{
    let ghost start = set@.dom();
    let mut r = set;
    let n: usize = map.walk();
    let ghost keys = map.keys();
    for i in 0..n
        invariant
            n == keys.len(),
            keys == map.keys(),
            forall|k: Seq<char>| #[trigger]
                r@.contains_key(k) <==> start.contains(k) || keys.take(i as int).contains(k),
    {
        let ghost before = r@;
        r.insert(map.key_at(i).clone(), true);
        assert forall|k: Seq<char>| #[trigger]
            r@.contains_key(k) <==> start.contains(k) || keys.take(i + 1).contains(k) by {
            let now = keys.take(i + 1);
            assert(now[i as int] == keys[i as int]);
            if keys.take(i as int).contains(k) {
                let a = choose|a: int| 0 <= a < i && keys.take(i as int)[a] == k;
                assert(now[a] == k);
            }
            if now.contains(k) && k != keys[i as int] {
                let a = choose|a: int| 0 <= a < now.len() && now[a] == k;
                assert(keys.take(i as int)[a] == k);
            }
            assert(before.contains_key(k) <==> start.contains(k) || keys.take(i as int).contains(k));
        }
    }
    assert(keys.take(n as int) =~= keys);
    assert forall|k: Seq<char>| r@.contains_key(k) <==> start.union(map@.dom()).contains(k) by {
        if keys.contains(k) {
            let a = choose|a: int| 0 <= a < keys.len() && keys[a] == k;
            assert(map@.contains_key(keys[a]));
        }
        if map@.contains_key(k) {
            assert(keys.contains(k));
        }
    }
    assert(r@.dom() =~= start.union(map@.dom()));
    r
}

impl<V: Replica> Replica for TextMap<V> {
    fn replica(&self) -> (r: Self) {
        proof {
            use_type_invariant(self);
        }
        let mut entries: Vec<(String, V)> = Vec::new();
        for i in 0..self.entries.len()
            invariant
                entries@.len() == i,
                forall|j: int| 0 <= j < i ==> (#[trigger] entries@[j]).0 == self.entries@[j].0,
                forall|j: int|
                    0 <= j < i ==> (#[trigger] entries@[j]).1.deep_view()
                        == self.entries@[j].1.deep_view(),
        {
            entries.push((self.entries[i].0.clone(), self.entries[i].1.replica()));
        }
        let ghost copy = TextMap { entries };
        proof {
            assert(copy.key_seq() =~= self.key_seq());
            copy.lemma_dom(*self);
            assert forall|k: Seq<char>| copy@.contains_key(k) implies copy@[k].deep_view()
                == self@[k].deep_view() by {
                let i = copy.slot(k);
                copy.lemma_entry(i);
                self.lemma_entry(i);
            }
            assert(copy.deep_view() =~= self.deep_view());
        }
        TextMap { entries }
    }
}

impl<V: Same> Same for TextMap<V> {
    fn same(&self, other: &Self) -> (r: bool) {
        proof {
            use_type_invariant(self);
            use_type_invariant(other);
            self.lemma_keys();
            other.lemma_keys();
            if self.deep_view() == other.deep_view() {
                assert(self.deep_view().dom() == other.deep_view().dom());
                assert(self@.dom() =~= self.deep_view().dom());
                assert(other@.dom() =~= other.deep_view().dom());
                assert(self.key_seq() == other.key_seq());
            }
        }
        if self.entries.len() != other.entries.len() {
            return false;
        }
        for i in 0..self.entries.len()
            invariant
                self.in_order(),
                other.in_order(),
                self.entries@.len() == other.entries@.len(),
                self.deep_view() == other.deep_view() ==> self.key_seq() == other.key_seq(),
                forall|j: int| 0 <= j < i ==> (#[trigger] self.entries@[j]).0@ == other.entries@[j].0@,
                forall|j: int|
                    0 <= j < i ==> (#[trigger] self.entries@[j]).1.deep_view()
                        == other.entries@[j].1.deep_view(),
        {
            if !self.entries[i].0.same(&other.entries[i].0) {
                assert(self.key_seq()[i as int] != other.key_seq()[i as int]);
                return false;
            }
            if !self.entries[i].1.same(&other.entries[i].1) {
                proof {
                    self.lemma_entry(i as int);
                    other.lemma_entry(i as int);
                    let k = self.entries@[i as int].0@;
                    assert(self.deep_view()[k] != other.deep_view()[k]);
                }
                return false;
            }
        }
        proof {
            assert(self.key_seq() =~= other.key_seq());
            self.lemma_dom(*other);
            assert forall|k: Seq<char>| self@.contains_key(k) implies self@[k].deep_view()
                == other@[k].deep_view() by {
                let i = self.slot(k);
                self.lemma_entry(i);
                other.lemma_entry(i);
            }
            assert(self.deep_view() =~= other.deep_view());
        }
        true
    }
}

} // verus!
