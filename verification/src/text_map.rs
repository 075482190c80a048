//! A map from text to values that keeps its entries in the order in which their
//! keys first came.

use vstd::prelude::*;

use crate::text::{same_text, views};

verus! {

/// A map from text to values.
#[derive(Debug, PartialEq, Eq)]
pub struct TextMap<V> {
    entries: Vec<(String, V)>,
}

/// No key stands twice in `entries`.
pub open spec fn keys_distinct<V>(entries: Seq<(String, V)>) -> bool {
    forall|i: int, j: int|
        0 <= i < j < entries.len() ==> (#[trigger] entries[i]).0@ != (#[trigger] entries[j]).0@
}

/// Some entry has the key `key`.
pub open spec fn has_key<V>(entries: Seq<(String, V)>, key: Seq<char>) -> bool {
    exists|i: int| 0 <= i < entries.len() && (#[trigger] entries[i]).0@ == key
}

/// The place of an entry with the key `key`.
pub open spec fn place<V>(entries: Seq<(String, V)>, key: Seq<char>) -> int {
    choose|i: int| 0 <= i < entries.len() && (#[trigger] entries[i]).0@ == key
}

/// The entries as a map.
pub open spec fn as_map<V>(entries: Seq<(String, V)>) -> Map<Seq<char>, V> {
    Map::new(|key: Seq<char>| has_key(entries, key), |key: Seq<char>| entries[place(entries, key)].1)
}

impl<V> View for TextMap<V> {
    type V = Map<Seq<char>, V>;

    closed spec fn view(&self) -> Map<Seq<char>, V> {
        as_map(self.entries@)
    }
}

impl<V> TextMap<V> {
    #[verifier::type_invariant]
    spec fn wf(self) -> bool {
        keys_distinct(self.entries@)
    }

    /// The entries in their order.
    pub closed spec fn listed(self) -> Seq<(String, V)> {
        self.entries@
    }

    /// The keys in their order.
    pub open spec fn keys(self) -> Seq<Seq<char>> {
        self.listed().map_values(|e: (String, V)| e.0@)
    }

    /// The map without entries.
    pub fn new() -> (r: Self)
        ensures
            r@ == Map::<Seq<char>, V>::empty(),
            r.listed() == Seq::<(String, V)>::empty(),
    {
        let r = TextMap { entries: Vec::new() };
        proof {
            assert(r@ =~= Map::<Seq<char>, V>::empty());
        }
        r
    }

    /// The number of entries.
    pub fn len(&self) -> (n: usize)
        ensures
            n == self.listed().len(),
    {
        self.entries.len()
    }

    /// Whether there is no entry.
    pub fn is_empty(&self) -> (b: bool)
        ensures
            b == (self.listed().len() == 0),
            b == (self@ == Map::<Seq<char>, V>::empty()),
    {
        proof {
            if self.entries@.len() > 0 {
                assert(has_key(self.entries@, self.entries@[0].0@));
                assert(self@.dom().contains(self.entries@[0].0@));
            } else {
                assert(self@ =~= Map::<Seq<char>, V>::empty());
            }
        }
        self.entries.len() == 0
    }

    /// The key of the entry at `i`.
    pub fn key(&self, i: usize) -> (r: &String)
        requires
            i < self.listed().len(),
        ensures
            *r == self.listed()[i as int].0,
            self@.dom().contains(r@),
            self@[r@] == self.listed()[i as int].1,
    {
        proof {
            use_type_invariant(self);
            self.lemma_listed(i as int);
        }
        &self.entries[i].0
    }

    /// The value of the entry at `i`.
    pub fn value(&self, i: usize) -> (r: &V)
        requires
            i < self.listed().len(),
        ensures
            *r == self.listed()[i as int].1,
    {
        &self.entries[i].1
    }

    /// The keys in their order, each of them once.
    pub fn key_list(&self) -> (r: Vec<String>)
        ensures
            views(r@) == self.keys(),
            self.keys().no_duplicates(),
            self.keys().to_set() == self@.dom(),
    {
        proof {
            use_type_invariant(self);
        }
        let mut r: Vec<String> = Vec::new();
        let mut i: usize = 0;
        while i < self.entries.len()
            invariant
                i <= self.entries@.len(),
                r@.len() == i,
                forall|j: int| 0 <= j < i ==> (#[trigger] r@[j])@ == self.entries@[j].0@,
            decreases self.entries@.len() - i,
        {
            r.push(self.entries[i].0.clone());
            i += 1;
        }
        proof {
            assert(views(r@) =~= self.keys());
            assert forall|key: Seq<char>| self.keys().contains(key) == self@.dom().contains(
                key,
            ) by {
                if self.keys().contains(key) {
                    let k = choose|k: int| 0 <= k < self.keys().len() && self.keys()[k] == key;
                    self.lemma_listed(k);
                }
                if self@.dom().contains(key) {
                    let k = place(self.entries@, key);
                    assert(self.keys()[k] == key);
                }
            }
            assert(self.keys().to_set() =~= self@.dom());
        }
        r
    }

    proof fn lemma_listed(&self, i: int)
        requires
            keys_distinct(self.entries@),
            0 <= i < self.entries@.len(),
        ensures
            self@.dom().contains(self.entries@[i].0@),
            self@[self.entries@[i].0@] == self.entries@[i].1,
    {
        let key = self.entries@[i].0@;
        assert(has_key(self.entries@, key));
        let p = place(self.entries@, key);
        assert(p == i);
    }

    /// The place of the entry with the key `key`.
    fn find(&self, key: &str) -> (r: Option<usize>)
        ensures
            match r {
                Some(i) => i < self.entries@.len() && self.entries@[i as int].0@ == key@,
                None => !has_key(self.entries@, key@),
            },
    {
        let mut i: usize = 0;
        while i < self.entries.len()
            invariant
                i <= self.entries@.len(),
                forall|j: int| 0 <= j < i ==> (#[trigger] self.entries@[j]).0@ != key@,
            decreases self.entries@.len() - i,
        {
            if same_text(self.entries[i].0.as_str(), key) {
                return Some(i);
            }
            i += 1;
        }
        None
    }

    /// Whether there is an entry with the key `key`.
    pub fn contains_key(&self, key: &str) -> (b: bool)
        ensures
            b == self@.dom().contains(key@),
    {
        match self.find(key) {
            Some(i) => true,
            None => false,
        }
    }

    /// The value under `key`.
    pub fn get(&self, key: &str) -> (r: Option<&V>)
        ensures
            match r {
                Some(value) => self@.dom().contains(key@) && self@[key@] == *value,
                None => !self@.dom().contains(key@),
            },
    {
        proof {
            use_type_invariant(self);
        }
        match self.find(key) {
            Some(i) => {
                proof {
                    self.lemma_listed(i as int);
                }
                Some(&self.entries[i].1)
            },
            None => None,
        }
    }

    /// Puts `value` under `key`: in place of the value there, or as the last entry.
    pub fn insert(&mut self, key: String, value: V)
        ensures
            final(self)@ == old(self)@.insert(key@, value),
            !old(self)@.dom().contains(key@) ==> final(self).listed() == old(self).listed().push(
                (key, value),
            ),
            old(self)@.dom().contains(key@) ==> final(self).keys() == old(self).keys(),
    {
        proof {
            use_type_invariant(&*self);
        }
        let ghost before = self.entries@;
        let mut entries: Vec<(String, V)> = Vec::new();
        let found = self.find(key.as_str());
        std::mem::swap(&mut entries, &mut self.entries);
        match found {
            Some(i) => {
                let old_key = entries[i].0.clone();
                entries.set(i, (old_key, value));
                proof {
                    lemma_set(before, i as int, old_key, value);
                }
                self.entries = entries;
                proof {
                    assert(self.keys() =~= before.map_values(|e: (String, V)| e.0@));
                }
            },
            None => {
                let ghost k = key;
                entries.push((key, value));
                proof {
                    lemma_push(before, k, value);
                }
                self.entries = entries;
            },
        }
    }

    /// Removes the entry under `key`, if there is one; the others keep their order.
    pub fn remove(&mut self, key: &str) -> (r: Option<V>)
        ensures
            final(self)@ == old(self)@.remove(key@),
            match r {
                Some(value) => old(self)@.dom().contains(key@) && old(self)@[key@] == value,
                None => !old(self)@.dom().contains(key@),
            },
            final(self).listed() == (if old(self)@.dom().contains(key@) {
                old(self).listed().remove(place(old(self).listed(), key@))
            } else {
                old(self).listed()
            }),
    {
        proof {
            use_type_invariant(&*self);
        }
        let ghost before = self.entries@;
        let mut entries: Vec<(String, V)> = Vec::new();
        let found = self.find(key);
        match found {
            Some(i) => {
                proof {
                    self.lemma_listed(i as int);
                }
                std::mem::swap(&mut entries, &mut self.entries);
                let entry = entries.remove(i);
                proof {
                    lemma_remove(before, i as int);
                    assert(place(before, key@) == i);
                }
                self.entries = entries;
                Some(entry.1)
            },
            None => {
                proof {
                    assert(as_map(before).remove(key@) =~= as_map(before));
                }
                None
            },
        }
    }
}

impl<V> TextMap<V> {
    /// Puts every entry of `other` in, in its order: its value takes the place of the
    /// one that is there under the same key.
    pub fn extend(&mut self, other: TextMap<V>)
        ensures
            final(self)@ == old(self)@.union_prefer_right(other@),
    {
        proof {
            use_type_invariant(&other);
        }
        let ghost all = other.entries@;
        let ghost before = self@;
        let mut rest = other.entries;
        proof {
            assert(all.take(0) == Seq::<(String, V)>::empty());
            assert(before.union_prefer_right(as_map(all.take(0))) =~= before);
        }
        let ghost mut done: int = 0;
        while rest.len() > 0
            invariant
                keys_distinct(all),
                0 <= done <= all.len(),
                rest@ == all.skip(done),
                self@ == before.union_prefer_right(as_map(all.take(done))),
            decreases rest@.len(),
        {
            let (key, value) = rest.remove(0);
            proof {
                let taken = all.take(done);
                assert((key, value) == all[done]);
                assert(all.take(done + 1) == taken.push((key, value)));
                assert(keys_distinct(taken));
                assert(!has_key(taken, key@)) by {
                    if has_key(taken, key@) {
                        let p = place(taken, key@);
                        assert(all[p].0@ == all[done].0@);
                    }
                }
                lemma_push(taken, key, value);
                assert(before.union_prefer_right(as_map(taken)).insert(key@, value)
                    =~= before.union_prefer_right(as_map(taken.push((key, value)))));
                assert(rest@ =~= all.skip(done + 1));
                done = done + 1;
            }
            self.insert(key, value);
        }
        proof {
            assert(all.take(done) == all);
        }
    }
}

impl<V> TextMap<V> {
    /// The entries in their order.
    pub fn into_entries(self) -> (r: Vec<(String, V)>)
        ensures
            r@ == self.listed(),
            keys_distinct(r@),
    {
        proof {
            use_type_invariant(&self);
        }
        self.entries
    }

    /// The map with these entries, in this order.
    pub fn from_entries(entries: Vec<(String, V)>) -> (r: Self)
        requires
            keys_distinct(entries@),
        ensures
            r.listed() == entries@,
            r@ == as_map(entries@),
    {
        TextMap { entries }
    }
}

impl TextMap<String> {
    /// A map with the same entries.
    pub fn copied(&self) -> (r: Self)
        ensures
            r@ == self@,
            r.listed() == self.listed(),
    {
        proof {
            use_type_invariant(self);
        }
        let mut entries: Vec<(String, String)> = Vec::new();
        let mut i: usize = 0;
        while i < self.entries.len()
            invariant
                i <= self.entries@.len(),
                entries@ == self.entries@.take(i as int),
            decreases self.entries@.len() - i,
        {
            entries.push((self.entries[i].0.clone(), self.entries[i].1.clone()));
            i += 1;
            proof {
                assert(self.entries@.take(i as int) == self.entries@.take(i - 1).push(
                    self.entries@[i - 1],
                ));
            }
        }
        proof {
            assert(entries@ =~= self.entries@);
        }
        TextMap { entries }
    }
}

proof fn lemma_set<V>(entries: Seq<(String, V)>, i: int, key: String, value: V)
    requires
        keys_distinct(entries),
        0 <= i < entries.len(),
        entries[i].0@ == key@,
    ensures
        keys_distinct(entries.update(i, (key, value))),
        as_map(entries.update(i, (key, value))) == as_map(entries).insert(key@, value),
{
    let after = entries.update(i, (key, value));
    assert forall|a: int| 0 <= a < entries.len() implies (#[trigger] after[a]).0@ == entries[a].0@ by {}
    assert forall|k: Seq<char>| has_key(after, k) <==> has_key(entries, k) by {
        if has_key(after, k) {
            let p = place(after, k);
            assert(entries[p].0@ == k);
        }
        if has_key(entries, k) {
            let p = place(entries, k);
            assert(after[p].0@ == k);
        }
    }
    assert forall|k: Seq<char>| has_key(after, k) implies as_map(after)[k] == as_map(
        entries,
    ).insert(key@, value)[k] by {
        let p = place(after, k);
        let q = place(entries, k);
        assert(has_key(entries, k));
        assert(entries[p].0@ == k && entries[q].0@ == k);
        assert(p == q);
    }
    assert(has_key(after, key@)) by {
        assert(after[i].0@ == key@);
    }
    assert(as_map(after) =~= as_map(entries).insert(key@, value));
}

proof fn lemma_push<V>(entries: Seq<(String, V)>, key: String, value: V)
    requires
        keys_distinct(entries),
        !has_key(entries, key@),
    ensures
        keys_distinct(entries.push((key, value))),
        as_map(entries.push((key, value))) == as_map(entries).insert(key@, value),
{
    let after = entries.push((key, value));
    assert(after[entries.len() as int].0@ == key@);
    assert(has_key(after, key@));
    assert(place(after, key@) == entries.len());
    assert forall|k: Seq<char>| k != key@ implies has_key(after, k) == has_key(entries, k) by {
        if has_key(after, k) {
            assert(entries[place(after, k)].0@ == k);
        }
        if has_key(entries, k) {
            assert(after[place(entries, k)].0@ == k);
        }
    }
    assert forall|k: Seq<char>| k != key@ && has_key(entries, k) implies place(after, k) == place(
        entries,
        k,
    ) by {
        assert(has_key(after, k));
        assert(entries[place(after, k)].0@ == k);
    }
    assert(as_map(after) =~= as_map(entries).insert(key@, value));
}

proof fn lemma_remove<V>(entries: Seq<(String, V)>, i: int)
    requires
        keys_distinct(entries),
        0 <= i < entries.len(),
    ensures
        keys_distinct(entries.remove(i)),
        as_map(entries.remove(i)) == as_map(entries).remove(entries[i].0@),
{
    let after = entries.remove(i);
    let key = entries[i].0@;
    assert forall|a: int| 0 <= a < after.len() implies #[trigger] after[a] == (if a < i {
        entries[a]
    } else {
        entries[a + 1]
    }) by {}
    assert forall|k: Seq<char>| has_key(after, k) == (k != key && has_key(entries, k)) by {
        if has_key(after, k) {
            let p = place(after, k);
            let q = if p < i { p } else { p + 1 };
            assert(entries[q].0@ == k);
        }
        if k != key && has_key(entries, k) {
            let q = place(entries, k);
            let p = if q < i { q } else { q - 1 };
            assert(after[p] == entries[q]);
        }
    }
    assert forall|k: Seq<char>| has_key(after, k) implies as_map(after)[k] == as_map(entries)[k] by {
        let p = place(after, k);
        let q = if p < i { p } else { p + 1 };
        assert(entries[q].0@ == k);
        assert(has_key(entries, k));
        assert(place(entries, k) == q);
    }
    assert(as_map(after) =~= as_map(entries).remove(key));
}

/// The entry at each place is found under its key, there are as many as the map counts, and
/// a new map has none.
pub proof fn entries_are_found_by_their_key<V>(
    map: TextMap<V>,
    i: usize,
    n: usize,
    empty: bool,
    key: &String,
    value: &V,
    name: &str,
    found: Option<&V>,
    has: bool,
    fresh: TextMap<V>,
    fresh_len: usize,
)
    requires
        call_ensures(TextMap::<V>::len, (&map,), n),
        call_ensures(TextMap::<V>::is_empty, (&map,), empty),
        i < n,
        call_ensures(TextMap::<V>::key, (&map, i), key),
        call_ensures(TextMap::<V>::value, (&map, i), value),
        call_ensures(TextMap::<V>::get, (&map, name), found),
        call_ensures(TextMap::<V>::contains_key, (&map, name), has),
        call_ensures(TextMap::<V>::new, (), fresh),
        call_ensures(TextMap::<V>::len, (&fresh,), fresh_len),
    ensures
        !empty,
        name@ == key@ ==> has && (found matches Some(other) && *other == *value),
        has <==> found is Some,
        fresh_len == 0,
{
}

} // verus!
