//! A small map keyed by strings.
//!
//! The map keeps its entries in two parallel vectors, in the order in which
//! the keys were first inserted. Its mathematical model is a finite
//! `Map<Seq<char>, V>`; every operation is specified over that model.

use vstd::prelude::*;

verus! {

/// The characters of each key, in storage order.
pub open spec fn key_views(keys: Seq<String>) -> Seq<Seq<char>> {
    keys.map_values(|k: String| k@)
}

/// The sequence `keys` with `key` taken out.
pub open spec fn without(keys: Seq<Seq<char>>, key: Seq<char>) -> Seq<Seq<char>> {
    if keys.contains(key) {
        keys.remove(keys.index_of(key))
    } else {
        keys
    }
}

/// Taking `key` out of a sequence without repetitions leaves the others in
/// place, and leaves no `key` behind.
pub proof fn lemma_without(keys: Seq<Seq<char>>, key: Seq<char>)
    requires
        keys.no_duplicates(),
    ensures
        without(keys, key).no_duplicates(),
        !without(keys, key).contains(key),
        forall|x: Seq<char>| #[trigger] without(keys, key).contains(x) <==> keys.contains(x) && x != key,
{
    let rest = without(keys, key);
    if keys.contains(key) {
        let i = keys.index_of(key);
        assert forall|x: Seq<char>| #[trigger] rest.contains(x) <==> keys.contains(x) && x
            != key by {
            if keys.contains(x) && x != key {
                let b = choose|b: int| 0 <= b < keys.len() && keys[b] == x;
                let a = if b < i { b } else { b - 1 };
                assert(rest[a] == x);
            }
        }
    }
}

/// The sequence `keys` without the members of `gone`.
pub open spec fn pruned(keys: Seq<Seq<char>>, gone: Set<Seq<char>>) -> Seq<Seq<char>>
    decreases keys.len(),
{
    if keys.len() == 0 {
        keys
    } else if gone.contains(keys.last()) {
        pruned(keys.drop_last(), gone)
    } else {
        pruned(keys.drop_last(), gone).push(keys.last())
    }
}

/// Pruning keeps exactly the keys that are not to go, in their order.
pub proof fn lemma_pruned(keys: Seq<Seq<char>>, gone: Set<Seq<char>>)
    ensures
        forall|x: Seq<char>| #[trigger]
            pruned(keys, gone).contains(x) <==> keys.contains(x) && !gone.contains(x),
        keys.no_duplicates() ==> pruned(keys, gone).no_duplicates(),
        (forall|i: int| 0 <= i < keys.len() ==> !gone.contains(#[trigger] keys[i])) ==> pruned(
            keys,
            gone,
        ) == keys,
    decreases keys.len(),
{
    let out = pruned(keys, gone);
    if keys.len() > 0 {
        let rest = keys.drop_last();
        let last = keys.last();
        let sub = pruned(rest, gone);
        lemma_pruned(rest, gone);
        assert forall|x: Seq<char>| #[trigger] out.contains(x) <==> keys.contains(x)
            && !gone.contains(x) by {
            if out.contains(x) {
                let i = choose|i: int| 0 <= i < out.len() && out[i] == x;
                if gone.contains(last) || i < sub.len() {
                    assert(sub.contains(x));
                }
            }
            if keys.contains(x) && !gone.contains(x) {
                let j = choose|j: int| 0 <= j < keys.len() && keys[j] == x;
                if j < rest.len() {
                    assert(rest[j] == x);
                    assert(sub.contains(x));
                    let i = choose|i: int| 0 <= i < sub.len() && sub[i] == x;
                    assert(out[i] == x);
                } else {
                    assert(out[sub.len() as int] == x);
                }
            }
        }
        if keys.no_duplicates() {
            if !gone.contains(last) {
                assert forall|a: int, b: int| 0 <= a < out.len() && 0 <= b < out.len() && a
                    != b implies out[a] != out[b] by {
                    if a >= sub.len() || b >= sub.len() {
                        let c = if a < sub.len() { a } else { b };
                        assert(sub.contains(sub[c]));
                    }
                }
            }
        }
    }
}

/// Pruning twice is pruning once by both sets.
pub proof fn lemma_pruned_twice(keys: Seq<Seq<char>>, first: Set<Seq<char>>, second: Set<Seq<char>>)
    ensures
        pruned(pruned(keys, first), second) == pruned(keys, first.union(second)),
    decreases keys.len(),
{
    if keys.len() > 0 {
        let rest = keys.drop_last();
        let last = keys.last();
        let sub = pruned(rest, first);
        lemma_pruned_twice(rest, first, second);
        if !first.contains(last) {
            assert(sub.push(last).drop_last() =~= sub);
        }
    }
}

/// Pruning by a single key takes that key out.
pub proof fn lemma_pruned_one(keys: Seq<Seq<char>>, key: Seq<char>)
    requires
        keys.no_duplicates(),
    ensures
        pruned(keys, set![key]) == without(keys, key),
    decreases keys.len(),
{
    if keys.len() > 0 {
        let rest = keys.drop_last();
        let last = keys.last();
        lemma_pruned_one(rest, key);
        if last == key {
        } else if !rest.contains(key) {
            assert(!keys.contains(key)) by {
                if keys.contains(key) {
                    let j = choose|j: int| 0 <= j < keys.len() && keys[j] == key;
                    assert(rest[j] == key);
                }
            }
        }
    }
}

/// A finite map from strings to values of type `V`.
pub struct StrMap<V> {
    keys: Vec<String>,
    values: Vec<V>,
}

impl<V> View for StrMap<V> {
    type V = Map<Seq<char>, V>;

    closed spec fn view(&self) -> Map<Seq<char>, V> {
        Map::new(
            |k: Seq<char>| key_views(self.keys@).contains(k),
            |k: Seq<char>| self.values@[key_views(self.keys@).index_of(k)],
        )
    }
}

impl<V> StrMap<V> {
    /// No key is stored twice, and every key has its value.
    pub closed spec fn wf(&self) -> bool {
        &&& self.keys@.len() == self.values@.len()
        &&& key_views(self.keys@).no_duplicates()
    }

    /// The keys, in the order in which they came in.
    pub closed spec fn order(&self) -> Seq<Seq<char>> {
        key_views(self.keys@)
    }

    /// The order lists every key once.
    pub proof fn lemma_order(&self)
        requires
            self.wf(),
        ensures
            self.order().no_duplicates(),
            forall|k: Seq<char>| #[trigger] self.order().contains(k) <==> self@.dom().contains(k),
    {
    }

    /// The value stored at position `i` is the one the model gives for the key at `i`.
    proof fn lemma_entry(&self, i: int)
        requires
            self.wf(),
            0 <= i < self.keys@.len(),
        ensures
            self@.dom().contains(self.keys@[i]@),
            self@[self.keys@[i]@] == self.values@[i],
    {
        let ks = key_views(self.keys@);
        assert(ks.contains(ks[i]));
    }

    /// An empty map.
    pub fn new() -> (m: Self)
        ensures
            m.wf(),
            m@ == Map::<Seq<char>, V>::empty(),
            m.order() == Seq::<Seq<char>>::empty(),
    {
        StrMap { keys: Vec::new(), values: Vec::new() }
    }

    /// The number of keys.
    pub fn len(&self) -> (n: usize)
        requires
            self.wf(),
        ensures
            self@.dom().finite(),
            n == self@.dom().len(),
    {
        proof {
            let ks = key_views(self.keys@);
            vstd::seq_lib::seq_to_set_is_finite(ks);
            ks.unique_seq_to_set();
        }
        self.keys.len()
    }

    /// The storage position of `key`, if it is present.
    fn position(&self, key: &String) -> (r: Option<usize>)
        requires
            self.wf(),
        ensures
            match r {
                Some(i) => i < self.keys@.len() && self.keys@[i as int]@ == key@,
                None => !self@.dom().contains(key@),
            },
    {
        let mut i: usize = 0;
        while i < self.keys.len()
            invariant
                i <= self.keys@.len(),
                forall|j: int| 0 <= j < i ==> self.keys@[j]@ != key@,
            decreases self.keys@.len() - i,
        {
            if self.keys[i] == *key {
                return Some(i);
            }
            i += 1;
        }
        None
    }

    /// Whether `key` is present.
    pub fn contains_key(&self, key: &str) -> (b: bool)
        requires
            self.wf(),
        ensures
            b == self@.dom().contains(key@),
    {
        let owned = key.to_owned();
        match self.position(&owned) {
            Some(i) => {
                proof {
                    self.lemma_entry(i as int);
                }
                true
            },
            None => false,
        }
    }

    /// The value stored under `key`, if any.
    pub fn get(&self, key: &str) -> (r: Option<&V>)
        requires
            self.wf(),
        ensures
            match r {
                Some(v) => self@.dom().contains(key@) && *v == self@[key@],
                None => !self@.dom().contains(key@),
            },
    {
        let owned = key.to_owned();
        match self.position(&owned) {
            Some(i) => {
                proof {
                    self.lemma_entry(i as int);
                }
                Some(&self.values[i])
            },
            None => None,
        }
    }

    /// Stores `value` under `key`, and hands back the value it replaces.
    pub fn insert(&mut self, key: String, value: V) -> (previous: Option<V>)
        requires
            old(self).wf(),
        ensures
            final(self).wf(),
            final(self)@ == old(self)@.insert(key@, value),
            final(self).order() == (if old(self)@.dom().contains(key@) {
                old(self).order()
            } else {
                old(self).order().push(key@)
            }),
            match previous {
                Some(v) => old(self)@.dom().contains(key@) && v == old(self)@[key@],
                None => !old(self)@.dom().contains(key@),
            },
    {
        let ghost before = *self;
        match self.position(&key) {
            Some(i) => {
                self.values.push(value);
                let previous = self.values.swap_remove(i);
                proof {
                    before.lemma_entry(i as int);
                    let ks = key_views(self.keys@);
                    assert forall|k: Seq<char>| self@.dom().contains(k) implies #[trigger] self@[k]
                        == before@.insert(key@, value)[k] by {
                        if k == key@ {
                            assert(ks[i as int] == key@);
                        }
                    }
                }
                Some(previous)
            },
            None => {
                self.keys.push(key);
                self.values.push(value);
                proof {
                    let ks0 = key_views(before.keys@);
                    let ks = key_views(self.keys@);
                    let n = ks0.len() as int;
                    assert(ks =~= ks0.push(key@));
                    assert forall|k: Seq<char>|
                        self@.dom().contains(k) <==> before@.insert(key@, value).dom().contains(
                            k,
                        ) by {
                        if ks0.contains(k) {
                            let j = choose|j: int| 0 <= j < ks0.len() && ks0[j] == k;
                            assert(ks[j] == k);
                        }
                        if k == key@ {
                            assert(ks[n] == k);
                        }
                    }
                }
                None
            },
        }
    }

    /// Removes `key`, and hands back the value that was stored under it.
    pub fn remove(&mut self, key: &str) -> (removed: Option<V>)
        requires
            old(self).wf(),
        ensures
            final(self).wf(),
            final(self)@ == old(self)@.remove(key@),
            final(self).order() == without(old(self).order(), key@),
            match removed {
                Some(v) => old(self)@.dom().contains(key@) && v == old(self)@[key@],
                None => !old(self)@.dom().contains(key@),
            },
    {
        let ghost before = *self;
        let owned = key.to_owned();
        match self.position(&owned) {
            Some(i) => {
                let _ = self.keys.remove(i);
                let removed = self.values.remove(i);
                proof {
                    before.lemma_entry(i as int);
                    let ks0 = key_views(before.keys@);
                    let ks = key_views(self.keys@);
                    assert(ks =~= ks0.remove(i as int));
                    assert forall|k: Seq<char>|
                        self@.dom().contains(k) <==> before@.remove(key@).dom().contains(k) by {
                        if ks.contains(k) {
                            assert(ks0[i as int] == key@);
                        }
                        if ks0.contains(k) && k != key@ {
                            let j0 = choose|j: int| 0 <= j < ks0.len() && ks0[j] == k;
                            let j = if j0 < i { j0 } else { j0 - 1 };
                            assert(ks[j] == k);
                        }
                    }
                    assert(ks0[i as int] == key@);
                }
                Some(removed)
            },
            None => None,
        }
    }

    /// The key that came in first, if there is any key.
    pub fn oldest(&self) -> (key: Option<String>)
        requires
            self.wf(),
        ensures
            match key {
                Some(k) => self.order().len() > 0 && k@ == self.order()[0],
                None => self.order().len() == 0,
            },
    {
        if self.keys.len() > 0 {
            Some(self.keys[0].clone())
        } else {
            None
        }
    }

    /// All keys, in the order in which they came in.
    pub fn keys(&self) -> (ks: Vec<String>)
        requires
            self.wf(),
        ensures
            key_views(ks@) == self.order(),
    {
        self.keys.clone()
    }
}

} // verus!
