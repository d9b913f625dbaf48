use vstd::prelude::*;

verus! {

/// A table from string identifiers to values, kept in insertion order.
/// Inserting an identifier that is present replaces its value in place, so
/// no identifier occurs twice.
pub struct IdMap<V> {
    entries: Vec<(String, V)>,
}

/// No two entries of `s` carry the same key.
pub open spec fn keys_unique<V>(s: Seq<(String, V)>) -> bool {
    forall|i: int, j: int|
        0 <= i < s.len() && 0 <= j < s.len() && i != j ==> (#[trigger] s[i]).0@ != (#[trigger] s[j]).0@
}

/// The map that a list of unique-key entries stands for.
pub open spec fn entries_map<V>(s: Seq<(String, V)>) -> Map<Seq<char>, V>
    decreases s.len(),
{
    if s.len() == 0 {
        Map::empty()
    } else {
        entries_map(s.drop_last()).insert(s.last().0@, s.last().1)
    }
}

proof fn lemma_entries_map_contains<V>(s: Seq<(String, V)>, k: Seq<char>)
    requires
        keys_unique(s),
    ensures
        entries_map(s).contains_key(k) <==> exists|i: int| 0 <= i < s.len() && (#[trigger] s[i]).0@ == k,
        forall|i: int| 0 <= i < s.len() && (#[trigger] s[i]).0@ == k ==> entries_map(s)[k] == s[i].1,
    decreases s.len(),
{
    if s.len() > 0 {
        let p = s.drop_last();
        assert(keys_unique(p));
        lemma_entries_map_contains(p, k);
        if entries_map(s).contains_key(k) && k != s.last().0@ {
            let i = choose|i: int| 0 <= i < p.len() && (#[trigger] p[i]).0@ == k;
            assert(s[i] == p[i]);
        }
        assert forall|i: int| 0 <= i < s.len() && (#[trigger] s[i]).0@ == k implies entries_map(s)[k] == s[i].1 by {
            if i < s.len() - 1 {
                assert(s[i] == p[i]);
                assert(s.last().0@ != k);
            }
        }
        if exists|i: int| 0 <= i < s.len() && (#[trigger] s[i]).0@ == k {
            let i = choose|i: int| 0 <= i < s.len() && (#[trigger] s[i]).0@ == k;
            if i < s.len() - 1 {
                assert(p[i] == s[i]);
            }
        }
    }
}

impl<V> IdMap<V> {
    #[verifier::type_invariant]
    spec fn unique(self) -> bool {
        keys_unique(self.entries@)
    }

    /// The entries, in insertion order.
    pub closed spec fn entries(self) -> Seq<(String, V)> {
        self.entries@
    }

    /// The table as a map from identifier text to value.
    pub closed spec fn view(self) -> Map<Seq<char>, V> {
        entries_map(self.entries@)
    }

    /// An empty table.
    pub fn new() -> (r: IdMap<V>)
        ensures
            r.view() == Map::<Seq<char>, V>::empty(),
            r.entries().len() == 0,
    {
        IdMap { entries: Vec::new() }
    }

    /// The number of identifiers in the table.
    pub fn len(&self) -> (r: usize)
        ensures
            r == self.entries().len(),
            r == self.view().dom().len(),
    {
        proof {
            use_type_invariant(self);
            lemma_entries_map_len(self.entries@);
        }
        self.entries.len()
    }

    /// Whether the table is empty.
    pub fn is_empty(&self) -> (r: bool)
        ensures
            r == (self.entries().len() == 0),
            r == (self.view() == Map::<Seq<char>, V>::empty()),
    {
        proof {
            use_type_invariant(self);
            lemma_entries_map_len(self.entries@);
            lemma_entries_map_finite(self.entries@);
            if self.entries@.len() != 0 {
                lemma_entries_map_contains(self.entries@, self.entries@[0].0@);
                assert(self.view().contains_key(self.entries@[0].0@));
            }
        }
        self.entries.len() == 0
    }

    /// Removes every entry.
    pub fn clear(&mut self)
        ensures
            final(self).view() == Map::<Seq<char>, V>::empty(),
            final(self).entries().len() == 0,
    {
        self.entries = Vec::new();
    }

    /// The position of `key` in the entries, if it is there.
    fn position(&self, key: &String) -> (r: Option<usize>)
        ensures
            match r {
                Some(i) => i < self.entries().len() && self.entries()[i as int].0@ == key@,
                None => forall|i: int| 0 <= i < self.entries().len() ==> (#[trigger] self.entries()[i]).0@ != key@,
            },
    {
        let mut i: usize = 0;
        while i < self.entries.len()
            invariant
                i <= self.entries@.len(),
                forall|j: int| 0 <= j < i ==> (#[trigger] self.entries@[j]).0@ != key@,
            decreases self.entries@.len() - i,
        {
            if self.entries[i].0 == *key {
                return Some(i);
            }
            i = i + 1;
        }
        None
    }

    /// The value stored under `key`, if any.
    pub fn get(&self, key: &String) -> (r: Option<&V>)
        ensures
            match r {
                Some(v) => self.view().contains_key(key@) && *v == self.view()[key@],
                None => !self.view().contains_key(key@),
            },
    {
        proof {
            use_type_invariant(self);
            lemma_entries_map_contains(self.entries@, key@);
        }
        match self.position(key) {
            Some(i) => {
                assert(self.entries@[i as int].0@ == key@);
                let r = &self.entries[i].1;
                Some(r)
            },
            None => {
                proof {
                    if self.view().contains_key(key@) {
                        let j = choose|j: int| 0 <= j < self.entries@.len() && (#[trigger] self.entries@[j]).0@ == key@;
                        assert(self.entries()[j].0@ != key@);
                    }
                }
                None
            },
        }
    }

    /// Stores `value` under `key`: a present key keeps its place and takes
    /// the new value, a new key goes at the end.
    pub fn insert(&mut self, key: String, value: V)
        ensures
            final(self).view() == old(self).view().insert(key@, value),
            old(self).view().contains_key(key@) ==> exists|p: int|
                0 <= p < old(self).entries().len() && (#[trigger] old(self).entries()[p]).0@ == key@
                && final(self).entries() == old(self).entries().update(p, (key, value)),
            !old(self).view().contains_key(key@) ==> final(self).entries() == old(self).entries().push((key, value)),
    {
        proof {
            use_type_invariant(&*self);
            lemma_entries_map_contains(self.entries@, key@);
        }
        let ghost old_entries = self.entries@;
        let pos = self.position(&key);
        assert(self.entries() == old_entries);
        assert(pos is None ==> forall|j: int| 0 <= j < self.entries().len() ==> (#[trigger] self.entries()[j]).0@ != key@);
        assert(pos is None ==> forall|j: int| 0 <= j < old_entries.len() ==> (#[trigger] old_entries[j]).0@ != key@);
        let mut entries: Vec<(String, V)> = Vec::new();
        std::mem::swap(&mut entries, &mut self.entries);
        match pos {
            Some(i) => {
                proof {
                    lemma_entries_map_update(old_entries, i as int, key, value);
                }
                entries.set(i, (key, value));
                assert(old_entries[i as int].0@ == key@);
                assert(entries@ == old_entries.update(i as int, (key, value)));
            },
            None => {
                proof {
                    let t = old_entries.push((key, value));
                    assert forall|a: int, b: int| 0 <= a < t.len() && 0 <= b < t.len() && a != b
                        implies (#[trigger] t[a]).0@ != (#[trigger] t[b]).0@ by {
                        if a < old_entries.len() && b < old_entries.len() {
                            assert(t[a] == old_entries[a] && t[b] == old_entries[b]);
                        } else if a < old_entries.len() {
                            assert(t[a] == old_entries[a]);
                            assert(old_entries[a].0@ != key@);
                        } else {
                            assert(t[b] == old_entries[b]);
                            assert(old_entries[b].0@ != key@);
                        }
                    }
                    assert(keys_unique(t));
                    assert(old_entries.push((key, value)).drop_last() == old_entries);
                }
                entries.push((key, value));
            },
        }
        self.entries = entries;
    }

    /// The value of the earliest entry, if the table is not empty.
    pub fn first_value(&self) -> (r: Option<&V>)
        ensures
            self.entries().len() == 0 ==> r.is_none(),
            self.entries().len() > 0 ==> r == Some(&self.entries()[0].1),
            self.entries().len() > 0 ==> self.view().contains_key(self.entries()[0].0@)
                && self.view()[self.entries()[0].0@] == self.entries()[0].1,
    {
        proof {
            use_type_invariant(self);
            if self.entries@.len() > 0 {
                lemma_entries_map_contains(self.entries@, self.entries@[0].0@);
            }
        }
        if self.entries.len() == 0 {
            None
        } else {
            Some(&self.entries[0].1)
        }
    }
}

proof fn lemma_entries_map_finite<V>(s: Seq<(String, V)>)
    ensures
        entries_map(s).dom().finite(),
    decreases s.len(),
{
    if s.len() > 0 {
        lemma_entries_map_finite(s.drop_last());
    }
}

proof fn lemma_entries_map_len<V>(s: Seq<(String, V)>)
    requires
        keys_unique(s),
    ensures
        entries_map(s).dom().len() == s.len(),
    decreases s.len(),
{
    if s.len() > 0 {
        let p = s.drop_last();
        assert(keys_unique(p));
        lemma_entries_map_len(p);
        lemma_entries_map_finite(p);
        lemma_entries_map_contains(p, s.last().0@);
        if entries_map(p).contains_key(s.last().0@) {
            let i = choose|i: int| 0 <= i < p.len() && (#[trigger] p[i]).0@ == s.last().0@;
            assert(s[i] == p[i]);
        }
    }
}

proof fn lemma_entries_map_update<V>(s: Seq<(String, V)>, i: int, key: String, value: V)
    requires
        keys_unique(s),
        0 <= i < s.len(),
        s[i].0@ == key@,
    ensures
        keys_unique(s.update(i, (key, value))),
        entries_map(s.update(i, (key, value))) == entries_map(s).insert(key@, value),
{
    let t = s.update(i, (key, value));
    assert(keys_unique(t)) by {
        assert forall|a: int, b: int| 0 <= a < t.len() && 0 <= b < t.len() && a != b implies (#[trigger] t[a]).0@ != (#[trigger] t[b]).0@ by {
            assert(s[a].0@ != s[b].0@);
        }
    }
    assert forall|k: Seq<char>| #[trigger] entries_map(t).contains_key(k) <==> entries_map(s).insert(key@, value).contains_key(k) by {
        lemma_entries_map_contains(s, k);
        lemma_entries_map_contains(t, k);
        if exists|j: int| 0 <= j < s.len() && (#[trigger] s[j]).0@ == k {
            let j = choose|j: int| 0 <= j < s.len() && (#[trigger] s[j]).0@ == k;
            assert(t[j].0@ == k);
        }
        if exists|j: int| 0 <= j < t.len() && (#[trigger] t[j]).0@ == k {
            let j = choose|j: int| 0 <= j < t.len() && (#[trigger] t[j]).0@ == k;
            assert(s[j].0@ == k);
        }
    }
    assert forall|k: Seq<char>| #[trigger] entries_map(t).contains_key(k) implies entries_map(t)[k] == entries_map(s).insert(key@, value)[k] by {
        lemma_entries_map_contains(s, k);
        lemma_entries_map_contains(t, k);
        let j = choose|j: int| 0 <= j < t.len() && (#[trigger] t[j]).0@ == k;
        assert(s[j].0@ == k);
    }
    assert(entries_map(t) =~= entries_map(s).insert(key@, value));
}

} // verus!
