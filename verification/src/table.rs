//! A small string-keyed table: the storage model used for every keyed map of
//! the resolver (forward records, reverse entries, primary names and the
//! text records of one name).
//!
//! Entries live in a vector; no two entries share a key.  The table is seen
//! through its view, a finite `Map` from the key's characters to the view of
//! the value.
use vstd::prelude::*;

verus! {

/// The key of entry `i` of `s`, by its characters.
pub open spec fn key_of<V>(s: Seq<(String, V)>, i: int) -> Seq<char> {
    s[i].0@
}

/// No two entries of `s` share a key.
pub open spec fn distinct_keys<V>(s: Seq<(String, V)>) -> bool {
    forall|i: int, j: int|
        0 <= i < s.len() && 0 <= j < s.len() && i != j ==> #[trigger] key_of(s, i) != #[trigger] key_of(
            s,
            j,
        )
}

/// Some entry of `s` has key `k`.
pub open spec fn has_key<V>(s: Seq<(String, V)>, k: Seq<char>) -> bool {
    exists|i: int| 0 <= i < s.len() && #[trigger] key_of(s, i) == k
}

/// The position of the entry of `s` with key `k`, where there is one.
pub open spec fn slot_of<V>(s: Seq<(String, V)>, k: Seq<char>) -> int {
    choose|i: int| 0 <= i < s.len() && #[trigger] key_of(s, i) == k
}

/// The map that the entries `s` stand for.
pub open spec fn entries_view<V: View>(s: Seq<(String, V)>) -> Map<Seq<char>, V::V> {
    Map::new(|k: Seq<char>| has_key(s, k), |k: Seq<char>| s[slot_of(s, k)].1@)
}

/// The keys of `s`, in order.
pub open spec fn keys_of<V>(s: Seq<(String, V)>) -> Seq<Seq<char>> {
    Seq::new(s.len(), |i: int| key_of(s, i))
}

/// Entry `i` is found in the map under its key, with its value.
pub proof fn lemma_entry_in_view<V: View>(s: Seq<(String, V)>, i: int)
    requires
        distinct_keys(s),
        0 <= i < s.len(),
    ensures
        entries_view(s).contains_key(key_of(s, i)),
        entries_view(s)[key_of(s, i)] == s[i].1@,
{
    assert(has_key(s, key_of(s, i)));
    let j = slot_of(s, key_of(s, i));
    assert(key_of(s, j) == key_of(s, i));
}

/// Adding an entry under a fresh key adds that key to the map.
pub proof fn lemma_push_fresh<V: View>(s: Seq<(String, V)>, k: String, v: V)
    requires
        distinct_keys(s),
        !entries_view(s).contains_key(k@),
    ensures
        distinct_keys(s.push((k, v))),
        entries_view(s.push((k, v))) =~= entries_view(s).insert(k@, v@),
{
    let t = s.push((k, v));
    assert forall|i: int| 0 <= i < s.len() implies key_of(t, i) == key_of(s, i) && t[i] == s[i] by {}
    assert(key_of(t, s.len() as int) == k@);
    assert forall|i: int, j: int|
        0 <= i < t.len() && 0 <= j < t.len() && i != j implies #[trigger] key_of(t, i)
        != #[trigger] key_of(t, j) by {
        if i < s.len() && j < s.len() {
            assert(key_of(s, i) != key_of(s, j));
        } else if i < s.len() {
            assert(has_key(s, key_of(s, i)));
        } else {
            assert(has_key(s, key_of(s, j)));
        }
    }
    lemma_entry_in_view(t, s.len() as int);
    assert forall|key: Seq<char>| #[trigger]
        entries_view(t).contains_key(key) == entries_view(s).insert(k@, v@).contains_key(key) by {
        if has_key(t, key) && key != k@ {
            let i = slot_of(t, key);
            assert(key_of(s, i) == key);
        }
        if has_key(s, key) {
            let i = slot_of(s, key);
            assert(key_of(t, i) == key);
        }
    }
    assert forall|key: Seq<char>| #[trigger] entries_view(t).contains_key(key) implies entries_view(
        t,
    )[key] == entries_view(s).insert(k@, v@)[key] by {
        if key != k@ {
            let i = slot_of(s, key);
            lemma_entry_in_view(s, i);
            lemma_entry_in_view(t, i);
        }
    }
}

/// Taking out entry `i` takes its key out of the map.
pub proof fn lemma_remove_entry<V: View>(s: Seq<(String, V)>, i: int)
    requires
        distinct_keys(s),
        0 <= i < s.len(),
    ensures
        distinct_keys(s.remove(i)),
        entries_view(s.remove(i)) =~= entries_view(s).remove(key_of(s, i)),
{
    let t = s.remove(i);
    let k = key_of(s, i);
    assert forall|j: int| 0 <= j < t.len() implies key_of(t, j) == key_of(
        s,
        if j < i {
            j
        } else {
            j + 1
        },
    ) && t[j] == s[if j < i {
        j
    } else {
        j + 1
    }] by {}
    assert forall|a: int, b: int|
        0 <= a < t.len() && 0 <= b < t.len() && a != b implies #[trigger] key_of(t, a)
        != #[trigger] key_of(t, b) by {
        let a2 = if a < i {
            a
        } else {
            a + 1
        };
        let b2 = if b < i {
            b
        } else {
            b + 1
        };
        assert(key_of(s, a2) != key_of(s, b2));
    }
    assert forall|key: Seq<char>| #[trigger]
        entries_view(t).contains_key(key) == entries_view(s).remove(k).contains_key(key) by {
        if has_key(t, key) {
            let j = slot_of(t, key);
            let j2 = if j < i {
                j
            } else {
                j + 1
            };
            assert(key_of(s, j2) == key);
            assert(key_of(s, j2) != key_of(s, i));
        }
        if has_key(s, key) && key != k {
            let j = slot_of(s, key);
            assert(j != i);
            let j2 = if j < i {
                j
            } else {
                j - 1
            };
            assert(key_of(t, j2) == key);
        }
    }
    assert forall|key: Seq<char>| #[trigger] entries_view(t).contains_key(key) implies entries_view(
        t,
    )[key] == entries_view(s).remove(k)[key] by {
        let j = slot_of(t, key);
        let j2 = if j < i {
            j
        } else {
            j + 1
        };
        lemma_entry_in_view(t, j);
        lemma_entry_in_view(s, j2);
    }
}

/// The map of distinct entries is finite, with one key per entry.
pub proof fn lemma_view_len<V: View>(s: Seq<(String, V)>)
    requires
        distinct_keys(s),
    ensures
        entries_view(s).dom().finite(),
        entries_view(s).len() == s.len(),
{
    let ks = keys_of(s);
    assert(ks.no_duplicates()) by {
        assert forall|i: int, j: int| 0 <= i < ks.len() && 0 <= j < ks.len() && i != j implies ks[i]
            != ks[j] by {
            assert(key_of(s, i) != key_of(s, j));
        }
    }
    assert(entries_view(s).dom() =~= ks.to_set()) by {
        assert forall|key: Seq<char>| #[trigger] entries_view(s).dom().contains(key) implies ks.contains(
            key,
        ) by {
            let j = slot_of(s, key);
            assert(ks[j] == key);
        }
        assert forall|key: Seq<char>| ks.contains(key) implies #[trigger] entries_view(
            s,
        ).dom().contains(key) by {
            let j = choose|j: int| 0 <= j < ks.len() && ks[j] == key;
            assert(key_of(s, j) == key);
        }
    }
    ks.unique_seq_to_set();
    vstd::seq_lib::seq_to_set_is_finite(ks);
}

/// Two entry sequences that agree entry by entry stand for the same map.
pub proof fn lemma_same_entries<V: View, W: View<V = V::V>>(s: Seq<(String, V)>, t: Seq<(String, W)>)
    requires
        distinct_keys(s),
        s.len() == t.len(),
        forall|i: int| 0 <= i < s.len() ==> key_of(s, i) == key_of(t, i) && s[i].1@ == t[i].1@,
    ensures
        distinct_keys(t),
        entries_view(s) =~= entries_view(t),
{
    assert forall|a: int, b: int|
        0 <= a < t.len() && 0 <= b < t.len() && a != b implies #[trigger] key_of(t, a)
        != #[trigger] key_of(t, b) by {
        assert(key_of(s, a) != key_of(s, b));
    }
    assert forall|key: Seq<char>| #[trigger]
        entries_view(s).contains_key(key) == entries_view(t).contains_key(key) by {
        if has_key(s, key) {
            assert(key_of(t, slot_of(s, key)) == key);
        }
        if has_key(t, key) {
            assert(key_of(s, slot_of(t, key)) == key);
        }
    }
    assert forall|key: Seq<char>| #[trigger] entries_view(s).contains_key(key) implies entries_view(
        s,
    )[key] == entries_view(t)[key] by {
        let j = slot_of(s, key);
        lemma_entry_in_view(s, j);
        lemma_entry_in_view(t, j);
    }
}

/// The map that storing the entries of `s` one after another gives: a later
/// entry replaces an earlier one with the same key.
pub open spec fn stored_in_order<V: View>(s: Seq<(String, V)>) -> Map<Seq<char>, V::V>
    decreases s.len(),
{
    if s.len() == 0 {
        Map::empty()
    } else {
        stored_in_order(s.drop_last()).insert(s.last().0@, s.last().1@)
    }
}

/// A table from strings to values, with distinct keys.
pub struct Table<V> {
    entries: Vec<(String, V)>,
}

impl<V> Table<V> {
    #[verifier::type_invariant]
    spec fn keys_are_distinct(&self) -> bool {
        distinct_keys(self.entries@)
    }
}

impl<V: View> View for Table<V> {
    type V = Map<Seq<char>, V::V>;

    closed spec fn view(&self) -> Map<Seq<char>, V::V> {
        entries_view(self.entries@)
    }
}

impl<V: View> Table<V> {
    /// `v` is one of the values stored in the table.
    pub closed spec fn stores(&self, v: V) -> bool {
        exists|i: int| 0 <= i < self.entries@.len() && self.entries@[i].1 == v
    }

    /// The table holds finitely many keys.
    pub proof fn lemma_finite(&self)
        ensures
            self@.dom().finite(),
    {
        let s = self.entries@;
        let ks = keys_of(s);
        assert(self@.dom() =~= ks.to_set()) by {
            assert forall|key: Seq<char>| #[trigger] self@.dom().contains(key) implies ks.contains(
                key,
            ) by {
                let j = slot_of(s, key);
                assert(ks[j] == key);
            }
            assert forall|key: Seq<char>| ks.contains(key) implies #[trigger] self@.dom().contains(
                key,
            ) by {
                let j = choose|j: int| 0 <= j < ks.len() && ks[j] == key;
                assert(key_of(s, j) == key);
            }
        }
        vstd::seq_lib::seq_to_set_is_finite(ks);
    }

    /// Every value in the view is the view of a value stored in the table.
    pub proof fn lemma_value_stored(&self, k: Seq<char>) -> (v: V)
        requires
            self@.contains_key(k),
        ensures
            self.stores(v),
            self@[k] == v@,
    {
        let j = slot_of(self.entries@, k);
        self.entries@[j].1
    }
}

impl<V: View> Table<V> {
    /// An empty table.
    pub fn new() -> (t: Self)
        ensures
            t@ == Map::<Seq<char>, V::V>::empty(),
            t@.dom().finite(),
    {
        let t = Table { entries: Vec::new() };
        assert(t@ =~= Map::<Seq<char>, V::V>::empty());
        t
    }

    /// The position of the entry with key `key`, if there is one.
    fn find(&self, key: &String) -> (r: Option<usize>)
        ensures
            match r {
                Some(i) => {
                    &&& i < self.entries@.len()
                    &&& key_of(self.entries@, i as int) == key@
                    &&& self@.contains_key(key@)
                    &&& self@[key@] == self.entries@[i as int].1@
                },
                None => !self@.contains_key(key@),
            },
    {
        proof {
            use_type_invariant(self);
        }
        let mut i: usize = 0;
        while i < self.entries.len()
            invariant
                i <= self.entries@.len(),
                distinct_keys(self.entries@),
                forall|j: int| 0 <= j < i ==> key_of(self.entries@, j) != key@,
            decreases self.entries@.len() - i,
        {
            if self.entries[i].0 == *key {
                proof {
                    lemma_entry_in_view(self.entries@, i as int);
                }
                return Some(i);
            }
            i = i + 1;
        }
        None
    }

    /// The value stored under `key`.
    pub fn get(&self, key: &String) -> (r: Option<&V>)
        ensures
            match r {
                Some(v) => self@.contains_key(key@) && v@ == self@[key@],
                None => !self@.contains_key(key@),
            },
    {
        match self.find(key) {
            Some(i) => Some(&self.entries[i].1),
            None => None,
        }
    }

    /// Whether a value is stored under `key`.
    pub fn contains_key(&self, key: &String) -> (r: bool)
        ensures
            r == self@.contains_key(key@),
    {
        self.find(key).is_some()
    }

    /// The number of keys in the table.
    pub fn len(&self) -> (r: usize)
        ensures
            r == self@.len(),
            self@.dom().finite(),
    {
        proof {
            use_type_invariant(self);
            lemma_view_len(self.entries@);
        }
        self.entries.len()
    }

    /// Stores `value` under `key`, replacing what was stored there.
    pub fn insert(&mut self, key: String, value: V)
        ensures
            final(self)@ == old(self)@.insert(key@, value@),
    {
        proof {
            use_type_invariant(&*self);
        }
        let found = self.find(&key);
        let mut entries: Vec<(String, V)> = Vec::new();
        std::mem::swap(&mut entries, &mut self.entries);
        let ghost start = entries@;
        match found {
            Some(i) => {
                entries.remove(i);
                proof {
                    lemma_remove_entry(start, i as int);
                }
            },
            None => {},
        }
        let ghost middle = entries@;
        proof {
            lemma_push_fresh(middle, key, value);
        }
        entries.push((key, value));
        self.entries = entries;
        assert(self@ =~= old(self)@.insert(key@, value@));
    }

    /// Takes out whatever is stored under `key`.
    pub fn remove(&mut self, key: &String)
        ensures
            final(self)@ == old(self)@.remove(key@),
    {
        proof {
            use_type_invariant(&*self);
        }
        match self.find(key) {
            Some(i) => {
                let mut entries: Vec<(String, V)> = Vec::new();
                std::mem::swap(&mut entries, &mut self.entries);
                let ghost start = entries@;
                proof {
                    lemma_remove_entry(start, i as int);
                }
                entries.remove(i);
                self.entries = entries;
            },
            None => {
                assert(old(self)@.remove(key@) =~= old(self)@);
            },
        }
    }
    /// The table that storing `entries` one after another gives.
    pub fn from_entries(entries: Vec<(String, V)>) -> (t: Self)
        ensures
            t@ == stored_in_order(entries@),
    {
        let ghost all = entries@;
        let mut rest = entries;
        let mut t = Table::new();
        let ghost mut i: int = 0;
        while rest.len() > 0
            invariant
                0 <= i <= all.len(),
                rest@ == all.skip(i),
                t@ == stored_in_order(all.take(i)),
            decreases rest@.len(),
        {
            let (k, v) = rest.remove(0);
            proof {
                assert(all.take(i + 1).drop_last() =~= all.take(i));
                assert(all.take(i + 1).last() == all[i]);
                assert(all.skip(i)[0] == all[i]);
                assert(all.skip(i + 1) =~= all.skip(i).remove(0));
            }
            t.insert(k, v);
            proof {
                i = i + 1;
            }
        }
        assert(all.take(i) =~= all);
        t
    }

    /// The entries of the table, one per key.
    pub fn into_entries(self) -> (r: Vec<(String, V)>)
        ensures
            distinct_keys(r@),
            entries_view(r@) == self@,
    {
        proof {
            use_type_invariant(&self);
        }
        self.entries
    }
}

impl Table<String> {
    /// A copy of a table of strings.
    pub fn copy(&self) -> (t: Self)
        ensures
            t@ == self@,
    {
        proof {
            use_type_invariant(self);
        }
        let mut entries: Vec<(String, String)> = Vec::new();
        let mut i: usize = 0;
        while i < self.entries.len()
            invariant
                i <= self.entries@.len(),
                entries@.len() == i,
                distinct_keys(self.entries@),
                forall|j: int|
                    0 <= j < i ==> key_of(entries@, j) == key_of(self.entries@, j)
                        && entries@[j].1@ == self.entries@[j].1@,
            decreases self.entries@.len() - i,
        {
            let entry = &self.entries[i];
            let k = entry.0.clone();
            let v = entry.1.clone();
            assert(k@ == self.entries@[i as int].0@ && v@ == self.entries@[i as int].1@);
            let ghost before = entries@;
            entries.push((k, v));
            proof {
                assert forall|j: int| 0 <= j < i + 1 implies key_of(entries@, j) == key_of(
                    self.entries@,
                    j,
                ) && entries@[j].1@ == self.entries@[j].1@ by {
                    if j < i {
                        assert(entries@[j] == before[j]);
                        assert(key_of(before, j) == key_of(self.entries@, j));
                        assert(before[j].1@ == self.entries@[j].1@);
                    } else {
                        assert(entries@[j] == (k, v));
                    }
                }
            }
            i = i + 1;
        }
        proof {
            lemma_same_entries(self.entries@, entries@);
        }
        Table { entries }
    }
}

} // verus!
