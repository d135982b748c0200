//! A map from text keys to values, kept as a vector of entries with
//! distinct keys. It stands for the `HashMap<String, _>` tables of the
//! daemon; iteration order is insertion order.

use vstd::prelude::*;
use crate::text::str_eq;

verus! {

/// A map from strings to values.
pub struct StringMap<V> {
    entries: Vec<(String, V)>,
}

/// The keys of the entries are pairwise distinct.
pub open spec fn keys_distinct<V>(e: Seq<(String, V)>) -> bool {
    forall|i: int, j: int| 0 <= i < j < e.len() ==> #[trigger] e[i].0@ != #[trigger] e[j].0@
}

/// Some entry holds the key.
pub open spec fn holds_key<V>(e: Seq<(String, V)>, t: Seq<char>) -> bool {
    exists|i: int| 0 <= i < e.len() && #[trigger] e[i].0@ == t
}

/// The map from key to value that the entries stand for.
pub open spec fn entries_map<V>(e: Seq<(String, V)>) -> Map<Seq<char>, V> {
    Map::new(
        |t: Seq<char>| holds_key(e, t),
        |t: Seq<char>| e[choose|i: int| 0 <= i < e.len() && #[trigger] e[i].0@ == t].1,
    )
}

/// With distinct keys, the entry at `i` gives the map's value for its key.
pub proof fn lemma_entries_map_at<V>(e: Seq<(String, V)>, i: int)
    requires
        keys_distinct(e),
        0 <= i < e.len(),
    ensures
        entries_map(e).contains_key(e[i].0@),
        entries_map(e)[e[i].0@] == e[i].1,
{
    let t = e[i].0@;
    assert(holds_key(e, t));
    let j = choose|j: int| 0 <= j < e.len() && #[trigger] e[j].0@ == t;
    if j != i {
        if j < i {
            assert(e[j].0@ != e[i].0@);
        } else {
            assert(e[i].0@ != e[j].0@);
        }
    }
}

impl<V> View for StringMap<V> {
    type V = Map<Seq<char>, V>;

    closed spec fn view(&self) -> Map<Seq<char>, V> {
        entries_map(self.entries@)
    }
}

impl<V> StringMap<V> {
    #[verifier::type_invariant]
    spec fn inv(&self) -> bool {
        keys_distinct(self.entries@)
    }

    pub fn new() -> (s: StringMap<V>)
        ensures
            s@ == Map::<Seq<char>, V>::empty(),
    {
        let s = StringMap { entries: Vec::new() };
        assert(s@ =~= Map::<Seq<char>, V>::empty());
        s
    }

    /// The index of the entry holding `key`, if any.
    fn find(&self, key: &str) -> (r: Option<usize>)
        ensures
            r matches Some(i) ==> i < self.entries@.len() && self.entries@[i as int].0@ == key@,
            r is None ==> !holds_key(self.entries@, key@),
            r is None <==> !self@.contains_key(key@),
    {
        let n = self.entries.len();
        let mut i: usize = 0;
        while i < n
            invariant
                n == self.entries@.len(),
                0 <= i <= n,
                forall|j: int| 0 <= j < i ==> self.entries@[j].0@ != key@,
            decreases n - i,
        {
            if str_eq(self.entries[i].0.as_str(), key) {
                return Some(i);
            }
            i = i + 1;
        }
        assert(!holds_key(self.entries@, key@));
        None
    }

    /// The map has the key.
    pub fn contains(&self, key: &str) -> (r: bool)
        ensures
            r == self@.contains_key(key@),
    {
        self.find(key).is_some()
    }

    /// Maps `key` to `value`, replacing any value it had.
    pub fn insert(&mut self, key: String, value: V)
        ensures
            final(self)@ == old(self)@.insert(key@, value),
    {
        proof {
            use_type_invariant(&*self);
        }
        let ghost old_e = self.entries@;
        match self.find(key.as_str()) {
            Some(i) => {
                let mut entries: Vec<(String, V)> = Vec::new();
                std::mem::swap(&mut entries, &mut self.entries);
                entries.set(i, (key, value));
                proof {
                    let e = entries@;
                    assert(keys_distinct(e)) by {
                        assert forall|a: int, b: int| 0 <= a < b < e.len() implies #[trigger] e[a].0@
                            != #[trigger] e[b].0@ by {
                            assert(old_e[a].0@ != old_e[b].0@);
                        }
                    }
                    assert forall|t: Seq<char>| #[trigger] entries_map(e).contains_key(t) == entries_map(old_e).insert(
                        key@, value).contains_key(t) by {
                        if holds_key(old_e, t) {
                            let k = choose|k: int| 0 <= k < old_e.len() && #[trigger] old_e[k].0@ == t;
                            assert(e[k].0@ == t);
                        }
                        if holds_key(e, t) {
                            let k = choose|k: int| 0 <= k < e.len() && #[trigger] e[k].0@ == t;
                            if k != i {
                                assert(old_e[k].0@ == t);
                            }
                        }
                    }
                    assert forall|t: Seq<char>| #[trigger] entries_map(e).contains_key(t) implies entries_map(e)[t]
                        == entries_map(old_e).insert(key@, value)[t] by {
                        let k = choose|k: int| 0 <= k < e.len() && #[trigger] e[k].0@ == t;
                        lemma_entries_map_at(e, k);
                        if k != i {
                            assert(old_e[k] == e[k]);
                            lemma_entries_map_at(old_e, k);
                        }
                    }
                    assert(entries_map(e) =~= entries_map(old_e).insert(key@, value));
                }
                self.entries = entries;
            },
            None => {
                let mut entries: Vec<(String, V)> = Vec::new();
                std::mem::swap(&mut entries, &mut self.entries);
                entries.push((key, value));
                proof {
                    let e = entries@;
                    let n = old_e.len() as int;
                    assert(keys_distinct(e)) by {
                        assert forall|a: int, b: int| 0 <= a < b < e.len() implies #[trigger] e[a].0@
                            != #[trigger] e[b].0@ by {
                            if b < n {
                                assert(old_e[a].0@ != old_e[b].0@);
                            } else {
                                assert(e[a] == old_e[a]);
                            }
                        }
                    }
                    assert forall|t: Seq<char>| #[trigger] entries_map(e).contains_key(t) == entries_map(old_e).insert(
                        key@, value).contains_key(t) by {
                        if holds_key(old_e, t) {
                            let k = choose|k: int| 0 <= k < old_e.len() && #[trigger] old_e[k].0@ == t;
                            assert(e[k].0@ == t);
                        }
                        if t == e[n].0@ {
                            assert(holds_key(e, t));
                        }
                        if holds_key(e, t) {
                            let k = choose|k: int| 0 <= k < e.len() && #[trigger] e[k].0@ == t;
                            if k < n {
                                assert(old_e[k].0@ == t);
                            }
                        }
                    }
                    assert forall|t: Seq<char>| #[trigger] entries_map(e).contains_key(t) implies entries_map(e)[t]
                        == entries_map(old_e).insert(key@, value)[t] by {
                        let k = choose|k: int| 0 <= k < e.len() && #[trigger] e[k].0@ == t;
                        lemma_entries_map_at(e, k);
                        if k < n {
                            assert(old_e[k] == e[k]);
                            lemma_entries_map_at(old_e, k);
                        }
                    }
                    assert(entries_map(e) =~= entries_map(old_e).insert(key@, value));
                }
                self.entries = entries;
            },
        }
    }

    /// Removes `key`, if present.
    pub fn remove(&mut self, key: &str)
        ensures
            final(self)@ == old(self)@.remove(key@),
    {
        proof {
            use_type_invariant(&*self);
        }
        let ghost old_e = self.entries@;
        match self.find(key) {
            Some(i) => {
                let mut entries: Vec<(String, V)> = Vec::new();
                std::mem::swap(&mut entries, &mut self.entries);
                entries.remove(i);
                proof {
                    let e = entries@;
                    assert(keys_distinct(e)) by {
                        assert forall|a: int, b: int| 0 <= a < b < e.len() implies #[trigger] e[a].0@
                            != #[trigger] e[b].0@ by {
                            if b < i {
                                assert(old_e[a].0@ != old_e[b].0@);
                            } else if a < i {
                                assert(old_e[a].0@ != old_e[b + 1].0@);
                            } else {
                                assert(old_e[a + 1].0@ != old_e[b + 1].0@);
                            }
                        }
                    }
                    assert forall|t: Seq<char>| #[trigger] entries_map(e).contains_key(t) == entries_map(old_e).remove(
                        key@).contains_key(t) by {
                        if holds_key(old_e, t) && t != key@ {
                            let k = choose|k: int| 0 <= k < old_e.len() && #[trigger] old_e[k].0@ == t;
                            if k < i {
                                assert(e[k].0@ == t);
                            } else {
                                assert(k != i);
                                assert(e[k - 1].0@ == t);
                            }
                        }
                        if holds_key(e, t) {
                            let k = choose|k: int| 0 <= k < e.len() && #[trigger] e[k].0@ == t;
                            if k < i {
                                assert(old_e[k].0@ == t);
                                assert(old_e[k].0@ != old_e[i as int].0@);
                            } else {
                                assert(old_e[k + 1].0@ == t);
                                assert(old_e[i as int].0@ != old_e[k + 1].0@);
                            }
                        }
                    }
                    assert forall|t: Seq<char>| #[trigger] entries_map(e).contains_key(t) implies entries_map(e)[t]
                        == entries_map(old_e).remove(key@)[t] by {
                        let k = choose|k: int| 0 <= k < e.len() && #[trigger] e[k].0@ == t;
                        lemma_entries_map_at(e, k);
                        if k < i {
                            assert(old_e[k] == e[k]);
                            lemma_entries_map_at(old_e, k);
                        } else {
                            assert(old_e[k + 1] == e[k]);
                            lemma_entries_map_at(old_e, k + 1);
                        }
                    }
                    assert(entries_map(e) =~= entries_map(old_e).remove(key@));
                }
                self.entries = entries;
            },
            None => {
                assert(entries_map(old_e) =~= entries_map(old_e).remove(key@));
            },
        }
    }


    /// The value for `key`, if present.
    pub fn get(&self, key: &str) -> (r: Option<&V>)
        ensures
            r matches Some(v) ==> self@.contains_key(key@) && *v == self@[key@],
            r is None ==> !self@.contains_key(key@),
    {
        proof {
            use_type_invariant(self);
        }
        match self.find(key) {
            Some(i) => {
                proof {
                    lemma_entries_map_at(self.entries@, i as int);
                }
                Some(&self.entries[i].1)
            },
            None => None,
        }
    }

    /// Removes every entry.
    pub fn clear(&mut self)
        ensures
            final(self)@ == Map::<Seq<char>, V>::empty(),
    {
        self.entries = Vec::new();
        assert(entries_map(self.entries@) =~= Map::<Seq<char>, V>::empty());
    }

    /// The entries, with distinct keys, in the order they were first inserted.
    pub fn entries(&self) -> (r: &Vec<(String, V)>)
        ensures
            keys_distinct(r@),
            self@ == entries_map(r@),
    {
        proof {
            use_type_invariant(self);
        }
        &self.entries
    }

    /// Number of keys.
    pub fn len(&self) -> (n: usize)
        ensures
            n == self@.dom().len(),
    {
        proof {
            use_type_invariant(self);
            lemma_entries_map_len(self.entries@);
        }
        self.entries.len()
    }
}

/// The map of distinct-key entries has one key per entry.
pub proof fn lemma_entries_map_len<V>(e: Seq<(String, V)>)
    requires
        keys_distinct(e),
    ensures
        entries_map(e).dom().finite(),
        entries_map(e).dom().len() == e.len(),
    decreases e.len(),
{
    if e.len() == 0 {
        assert(entries_map(e).dom() =~= Set::<Seq<char>>::empty());
    } else {
        let p = e.drop_last();
        let k = e.last().0@;
        assert(keys_distinct(p)) by {
            assert forall|a: int, b: int| 0 <= a < b < p.len() implies #[trigger] p[a].0@ != #[trigger] p[b].0@ by {
                assert(e[a].0@ != e[b].0@);
            }
        }
        lemma_entries_map_len(p);
        assert(!entries_map(p).dom().contains(k)) by {
            if holds_key(p, k) {
                let j = choose|j: int| 0 <= j < p.len() && #[trigger] p[j].0@ == k;
                assert(e[j].0@ != e[e.len() - 1].0@);
            }
        }
        assert(entries_map(e).dom() =~= entries_map(p).dom().insert(k)) by {
            assert forall|t: Seq<char>| #[trigger] entries_map(e).dom().contains(t) == entries_map(p).dom().insert(k).contains(t) by {
                if holds_key(e, t) {
                    let j = choose|j: int| 0 <= j < e.len() && #[trigger] e[j].0@ == t;
                    if j < p.len() {
                        assert(p[j].0@ == t);
                    }
                }
                if holds_key(p, t) {
                    let j = choose|j: int| 0 <= j < p.len() && #[trigger] p[j].0@ == t;
                    assert(e[j].0@ == t);
                }
                if t == k {
                    assert(e[e.len() - 1].0@ == t);
                }
            }
        }
    }
}

} // verus!
