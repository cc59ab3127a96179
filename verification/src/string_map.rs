//! A map from names to values that keeps its entries in insertion order.
//!
//! The configuration keeps clusters, users and contexts keyed by their name, and the
//! parameters of a cluster or a user keyed by the parameter's name. A name occurs at most
//! once; inserting a name that is already present replaces its value in place. The entries
//! can be walked by position, and the first one added can be told apart, which a hash map
//! keyed by `String` offers neither of.
use vstd::prelude::*;

verus! {

/// The map that a sequence of (key, value) pairs describes when the pairs are inserted
/// one after the other: a later pair overrides an earlier one with the same key.
pub open spec fn map_of<V>(pairs: Seq<(Seq<char>, V)>) -> Map<Seq<char>, V>
    decreases pairs.len(),
{
    if pairs.len() == 0 {
        Map::empty()
    } else {
        map_of(pairs.drop_last()).insert(pairs.last().0, pairs.last().1)
    }
}

/// The pairs of `entries`, each name taken by its view.
pub open spec fn pairs_of<V>(entries: Seq<(String, V)>) -> Seq<(Seq<char>, V)> {
    entries.map_values(|e: (String, V)| (e.0@, e.1))
}

/// The names, in order, that find an entry already present when `pairs` are inserted one
/// after the other into a map that starts as `start`.
pub open spec fn replaced_names<V>(start: Map<Seq<char>, V>, pairs: Seq<(Seq<char>, V)>) -> Seq<Seq<char>>
    decreases pairs.len(),
{
    if pairs.len() == 0 {
        Seq::empty()
    } else {
        let init = pairs.drop_last();
        let before = start.union_prefer_right(map_of(init));
        replaced_names(start, init) + if before.contains_key(pairs.last().0) {
            seq![pairs.last().0]
        } else {
            Seq::empty()
        }
    }
}

/// No key occurs twice in `pairs`.
pub open spec fn keys_distinct<V>(pairs: Seq<(Seq<char>, V)>) -> bool {
    forall|i: int, j: int| 0 <= i < j < pairs.len() ==> #[trigger] pairs[i].0 != #[trigger] pairs[j].0
}

/// Inserting the pairs of a prefix one more pair at a time.
pub proof fn lemma_map_of_take_succ<V>(pairs: Seq<(Seq<char>, V)>, n: int)
    requires
        0 <= n < pairs.len(),
    ensures
        map_of(pairs.take(n + 1)) == map_of(pairs.take(n)).insert(pairs[n].0, pairs[n].1),
{
    assert(pairs.take(n + 1).drop_last() =~= pairs.take(n));
}

/// A key is in the map exactly when some pair carries it.
pub proof fn lemma_map_of_dom<V>(pairs: Seq<(Seq<char>, V)>, k: Seq<char>)
    ensures
        map_of(pairs).contains_key(k) <==> exists|i: int| 0 <= i < pairs.len() && #[trigger] pairs[i].0 == k,
    decreases pairs.len(),
{
    if pairs.len() > 0 {
        let init = pairs.drop_last();
        lemma_map_of_dom(init, k);
        if map_of(pairs).contains_key(k) {
            if k == pairs.last().0 {
                assert(pairs[pairs.len() - 1].0 == k);
            } else {
                let i = choose|i: int| 0 <= i < init.len() && #[trigger] init[i].0 == k;
                assert(pairs[i].0 == k);
            }
        }
        if exists|i: int| 0 <= i < pairs.len() && #[trigger] pairs[i].0 == k {
            let i = choose|i: int| 0 <= i < pairs.len() && #[trigger] pairs[i].0 == k;
            if i < pairs.len() - 1 {
                assert(init[i].0 == k);
            }
        }
    }
}

/// With distinct keys, the value of a key is the value of the one pair that carries it.
pub proof fn lemma_map_of_index<V>(pairs: Seq<(Seq<char>, V)>, i: int)
    requires
        keys_distinct(pairs),
        0 <= i < pairs.len(),
    ensures
        map_of(pairs).contains_key(pairs[i].0),
        map_of(pairs)[pairs[i].0] == pairs[i].1,
    decreases pairs.len(),
{
    let init = pairs.drop_last();
    if i < pairs.len() - 1 {
        assert(init[i] == pairs[i]);
        assert(keys_distinct(init));
        lemma_map_of_index(init, i);
        assert(pairs[i].0 != pairs[pairs.len() - 1].0);
    }
}

/// Replacing the value of the pair at `i` replaces the value of its key.
pub proof fn lemma_map_of_update<V>(pairs: Seq<(Seq<char>, V)>, i: int, v: V)
    requires
        keys_distinct(pairs),
        0 <= i < pairs.len(),
    ensures
        map_of(pairs.update(i, (pairs[i].0, v))) == map_of(pairs).insert(pairs[i].0, v),
    decreases pairs.len(),
{
    let updated = pairs.update(i, (pairs[i].0, v));
    let init = pairs.drop_last();
    if i == pairs.len() - 1 {
        assert(updated.drop_last() =~= init);
        lemma_map_of_dom(init, pairs[i].0);
        assert(map_of(updated) =~= map_of(pairs).insert(pairs[i].0, v));
    } else {
        assert(keys_distinct(init));
        lemma_map_of_update(init, i, v);
        assert(updated.drop_last() =~= init.update(i, (pairs[i].0, v)));
        assert(pairs[i].0 != pairs.last().0);
        assert(map_of(updated) =~= map_of(pairs).insert(pairs[i].0, v));
    }
}

/// After an insertion, the key has the inserted value and every other key keeps its value:
/// what a read gives back of a write.
pub proof fn lemma_read_after_insert<V>(m: Map<Seq<char>, V>, key: Seq<char>, value: V, other: Seq<char>)
    requires
        other != key,
    ensures
        m.insert(key, value).contains_key(key),
        m.insert(key, value)[key] == value,
        m.insert(key, value).contains_key(other) == m.contains_key(other),
        m.contains_key(other) ==> m.insert(key, value)[other] == m[other],
{
}

/// Inserting entries one after the other keeps the keys that no entry names, with their
/// values, and adds every key that some entry names.
pub proof fn lemma_insert_all_keeps_and_adds<V>(start: Map<Seq<char>, V>, pairs: Seq<(Seq<char>, V)>, k: Seq<char>)
    ensures
        start.union_prefer_right(map_of(pairs)).contains_key(k) <==> (start.contains_key(k) || exists|i: int|
            0 <= i < pairs.len() && #[trigger] pairs[i].0 == k),
        (forall|i: int| 0 <= i < pairs.len() ==> #[trigger] pairs[i].0 != k) && start.contains_key(k)
            ==> start.union_prefer_right(map_of(pairs))[k] == start[k],
        (exists|i: int| 0 <= i < pairs.len() && #[trigger] pairs[i].0 == k) ==> start.union_prefer_right(
            map_of(pairs),
        )[k] == map_of(pairs)[k],
{
    lemma_map_of_dom(pairs, k);
}

/// Inserting pairs into one map and then into another after another: the map after a run
/// of pairs put together is the map after the first run, updated by the second.
pub proof fn lemma_map_of_concat<V>(a: Seq<(Seq<char>, V)>, b: Seq<(Seq<char>, V)>)
    ensures
        map_of(a + b) == map_of(a).union_prefer_right(map_of(b)),
    decreases b.len(),
{
    if b.len() == 0 {
        assert(a + b =~= a);
        assert(map_of(a).union_prefer_right(map_of(b)) =~= map_of(a));
    } else {
        assert((a + b).drop_last() =~= a + b.drop_last());
        assert((a + b).last() == b.last());
        lemma_map_of_concat(a, b.drop_last());
        assert(map_of(a + b) =~= map_of(a).union_prefer_right(map_of(b)));
    }
}

/// A single pair is reported as replacing exactly when its name was already there, and the
/// names reported for two runs of pairs put together are those of the first run followed by
/// those of the second, inserted after the first.
pub proof fn lemma_replaced_names_runs<V>(
    start: Map<Seq<char>, V>,
    key: Seq<char>,
    value: V,
    a: Seq<(Seq<char>, V)>,
    b: Seq<(Seq<char>, V)>,
)
    ensures
        replaced_names(start, seq![(key, value)]) == if start.contains_key(key) {
            seq![key]
        } else {
            Seq::<Seq<char>>::empty()
        },
        replaced_names(start, a + b) == replaced_names(start, a) + replaced_names(
            start.union_prefer_right(map_of(a)),
            b,
        ),
    decreases b.len(),
{
    let one = seq![(key, value)];
    assert(one.drop_last() =~= Seq::<(Seq<char>, V)>::empty());
    assert(start.union_prefer_right(map_of(one.drop_last())) =~= start);
    assert(replaced_names(start, one.drop_last()) =~= Seq::<Seq<char>>::empty());
    if b.len() == 0 {
        assert(a + b =~= a);
        assert(replaced_names(start, a) + replaced_names(start.union_prefer_right(map_of(a)), b)
            =~= replaced_names(start, a));
    } else {
        lemma_replaced_names_runs(start, key, value, a, b.drop_last());
        assert((a + b).drop_last() =~= a + b.drop_last());
        assert((a + b).last() == b.last());
        lemma_map_of_concat(a, b.drop_last());
        let mid = start.union_prefer_right(map_of(a));
        assert(start.union_prefer_right(map_of(a + b.drop_last())) =~= mid.union_prefer_right(
            map_of(b.drop_last()),
        ));
        assert(replaced_names(start, a + b) =~= replaced_names(start, a) + replaced_names(mid, b));
    }
}

/// A map from names to values, with the entries kept in insertion order.
#[derive(Debug)]
pub struct StringMap<V> {
    entries: Vec<(String, V)>,
}

impl<V> StringMap<V> {
    /// The entries as (name, value) pairs, in insertion order.
    pub closed spec fn pairs(&self) -> Seq<(Seq<char>, V)> {
        self.entries@.map_values(|e: (String, V)| (e.0@, e.1))
    }

    #[verifier::type_invariant]
    closed spec fn names_are_unique(&self) -> bool {
        keys_distinct(self.pairs())
    }

    /// Creates an empty map.
    pub fn new() -> (m: Self)
        ensures
            m@ == Map::<Seq<char>, V>::empty(),
            m.pairs() == Seq::<(Seq<char>, V)>::empty(),
    {
        let m = StringMap { entries: Vec::new() };
        assert(m.pairs() =~= Seq::<(Seq<char>, V)>::empty());
        m
    }

    /// The number of entries.
    pub fn len(&self) -> (n: usize)
        ensures
            n == self.pairs().len(),
    {
        self.entries.len()
    }

    /// The name of the entry at position `i`.
    pub fn key_at(&self, i: usize) -> (k: &String)
        requires
            i < self.pairs().len(),
        ensures
            k@ == self.pairs()[i as int].0,
    {
        &self.entries[i].0
    }

    /// The value of the entry at position `i`.
    pub fn value_at(&self, i: usize) -> (v: &V)
        requires
            i < self.pairs().len(),
        ensures
            *v == self.pairs()[i as int].1,
    {
        &self.entries[i].1
    }

    /// The position of the entry named `key` among `entries`, if there is one.
    fn position_in(entries: &Vec<(String, V)>, key: &String) -> (r: Option<usize>)
        ensures
            match r {
                Some(i) => i < entries@.len() && entries@[i as int].0@ == key@,
                None => forall|j: int| 0 <= j < entries@.len() ==> entries@[j].0@ != key@,
            },
    {
        let mut i: usize = 0;
        while i < entries.len()
            invariant
                i <= entries@.len(),
                forall|j: int| 0 <= j < i ==> entries@[j].0@ != key@,
            decreases entries@.len() - i,
        {
            if entries[i].0 == *key {
                return Some(i);
            }
            i = i + 1;
        }
        None
    }

    /// The value of the entry named `key`.
    pub fn get(&self, key: &str) -> (r: Option<&V>)
        ensures
            match r {
                Some(v) => self@.contains_key(key@) && *v == self@[key@],
                None => !self@.contains_key(key@),
            },
    {
        proof {
            use_type_invariant(self);
        }
        let name = key.to_owned();
        match Self::position_in(&self.entries, &name) {
            Some(i) => {
                proof {
                    lemma_map_of_index(self.pairs(), i as int);
                }
                Some(&self.entries[i].1)
            },
            None => {
                proof {
                    lemma_map_of_dom(self.pairs(), key@);
                }
                None
            },
        }
    }

    /// Whether an entry is named `key`.
    pub fn contains_key(&self, key: &str) -> (b: bool)
        ensures
            b == self@.contains_key(key@),
    {
        self.get(key).is_some()
    }

    /// The value of one of the entries, if the map is not empty.
    pub fn any_value(&self) -> (r: Option<&V>)
        ensures
            match r {
                Some(v) => {
                    &&& exists|k: Seq<char>| #[trigger] self@.contains_key(k) && self@[k] == *v
                    &&& *v == self.pairs()[0].1
                },
                None => self@ == Map::<Seq<char>, V>::empty() && self.pairs().len() == 0,
            },
    {
        proof {
            use_type_invariant(self);
        }
        if self.entries.len() == 0 {
            assert(self.pairs() =~= Seq::<(Seq<char>, V)>::empty());
            None
        } else {
            proof {
                lemma_map_of_index(self.pairs(), 0);
                assert(self@.contains_key(self.pairs()[0].0));
            }
            Some(&self.entries[0].1)
        }
    }

    /// Sets the value of `key`, replacing the value it had and keeping its position, or adding
    /// it as the last entry. Returns the value that the key had.
    pub fn insert(&mut self, key: String, value: V) -> (old_value: Option<V>)
        ensures
            final(self)@ == old(self)@.insert(key@, value),
            !old(self)@.contains_key(key@) ==> final(self).pairs() == old(self).pairs().push(
                (key@, value),
            ),
            old(self)@.contains_key(key@) ==> exists|i: int|
                0 <= i < old(self).pairs().len() && #[trigger] old(self).pairs()[i].0 == key@
                    && final(self).pairs() == old(self).pairs().update(i, (key@, value)),
            match old_value {
                Some(v) => old(self)@.contains_key(key@) && v == old(self)@[key@],
                None => !old(self)@.contains_key(key@),
            },
    {
        proof {
            use_type_invariant(&*self);
        }
        let ghost before = self.pairs();
        let mut entries: Vec<(String, V)> = Vec::new();
        std::mem::swap(&mut entries, &mut self.entries);
        assert(entries@.map_values(|e: (String, V)| (e.0@, e.1)) == before);
        let result = match Self::position_in(&entries, &key) {
            Some(i) => {
                proof {
                    lemma_map_of_index(before, i as int);
                    lemma_map_of_update(before, i as int, value);
                }
                let (name, old_v) = entries.remove(i);
                entries.insert(i, (name, value));
                assert(entries@.map_values(|e: (String, V)| (e.0@, e.1)) =~= before.update(
                    i as int,
                    (before[i as int].0, value),
                ));
                Some(old_v)
            },
            None => {
                proof {
                    lemma_map_of_dom(before, key@);
                }
                let ghost k = key@;
                entries.push((key, value));
                assert(entries@.map_values(|e: (String, V)| (e.0@, e.1)) =~= before.push((k, value)));
                assert(before.push((k, value)).drop_last() =~= before);
                None
            },
        };
        self.entries = entries;
        result
    }

    /// Inserts the entries one after the other, as `insert` does. Returns, in order, the names
    /// whose insertion replaced a value that was already there.
    pub fn insert_all(&mut self, entries: Vec<(String, V)>) -> (replaced: Vec<String>)
        ensures
            final(self)@ == old(self)@.union_prefer_right(map_of(pairs_of(entries@))),
            replaced@.map_values(|n: String| n@) == replaced_names(old(self)@, pairs_of(entries@)),
    {
        let ghost start = self@;
        let ghost all = pairs_of(entries@);
        let mut replaced: Vec<String> = Vec::new();
        let ghost mut done: int = 0;
        for entry in it: entries.into_iter()
            invariant
                all == pairs_of(it.seq()),
                done == it.index(),
                0 <= done <= all.len(),
                self@ == start.union_prefer_right(map_of(all.take(done))),
                replaced@.map_values(|n: String| n@) == replaced_names(start, all.take(done)),
        {
            let ghost before = self@;
            proof {
                lemma_map_of_take_succ(all, done);
                assert(all.take(done + 1).drop_last() =~= all.take(done));
            }
            let (name, value) = entry;
            let ghost key = name@;
            let name_copy = name.clone();
            match self.insert(name, value) {
                Some(_) => {
                    replaced.push(name_copy);
                },
                None => {},
            }
            assert(self@ =~= start.union_prefer_right(map_of(all.take(done + 1))));
            assert(replaced@.map_values(|n: String| n@) =~= replaced_names(start, all.take(done + 1)));
            proof {
                done = done + 1;
            }
        }
        assert(all.take(done) =~= all);
        replaced
    }
}

impl<V: Clone> Clone for StringMap<V> {
    /// The same names in the same order, each with a clone of its value.
    fn clone(&self) -> (copy: Self)
        ensures
            copy.pairs().len() == self.pairs().len(),
            forall|i: int| 0 <= i < self.pairs().len() ==> #[trigger] copy.pairs()[i].0 == self.pairs()[i].0,
            forall|i: int| 0 <= i < self.pairs().len() ==> cloned::<V>(self.pairs()[i].1, #[trigger] copy.pairs()[i].1),
    {
        proof {
            use_type_invariant(self);
        }
        let mut entries: Vec<(String, V)> = Vec::new();
        let n = self.entries.len();
        for i in 0..n
            invariant
                n == self.entries@.len(),
                entries@.len() == i,
                keys_distinct(self.pairs()),
                forall|j: int| 0 <= j < i ==> #[trigger] entries@[j].0@ == self.pairs()[j].0,
                forall|j: int| 0 <= j < i ==> cloned::<V>(self.pairs()[j].1, #[trigger] entries@[j].1),
        {
            let key = self.entries[i].0.clone();
            let value = self.entries[i].1.clone();
            entries.push((key, value));
        }
        let copy = StringMap { entries };
        assert forall|a: int, b: int| 0 <= a < b < copy.pairs().len() implies #[trigger] copy.pairs()[a].0 != #[trigger] copy.pairs()[b].0 by {
            assert(self.pairs()[a].0 != self.pairs()[b].0);
        }
        copy
    }
}

impl<V> View for StringMap<V> {
    type V = Map<Seq<char>, V>;

    open spec fn view(&self) -> Map<Seq<char>, V> {
        map_of(self.pairs())
    }
}

} // verus!
