//! A small table from names to values, kept free of duplicate names.

use vstd::prelude::*;

verus! {

/// The character sequences of a table's string values.
pub open spec fn string_values(m: Map<Seq<char>, String>) -> Map<Seq<char>, Seq<char>> {
    m.map_values(|s: String| s@)
}

/// Entries keyed by name; no name occurs twice.
pub struct NameTable<V> {
    entries: Vec<(String, V)>,
}

impl<V> NameTable<V> {
    /// The names, in storage order.
    pub closed spec fn names(&self) -> Seq<Seq<char>> {
        self.entries@.map_values(|e: (String, V)| e.0@)
    }

    /// The values, in storage order.
    pub closed spec fn values(&self) -> Seq<V> {
        self.entries@.map_values(|e: (String, V)| e.1)
    }

    closed spec fn has(&self, key: Seq<char>) -> bool {
        exists|i: int| 0 <= i < self.entries@.len() && self.entries@[i].0@ == key
    }

    closed spec fn position(&self, key: Seq<char>) -> int {
        choose|i: int| 0 <= i < self.entries@.len() && self.entries@[i].0@ == key
    }

    /// No name occurs twice.
    #[verifier::type_invariant]
    pub closed spec fn distinct_names(&self) -> bool {
        forall|i: int, j: int|
            0 <= i < self.entries@.len() && 0 <= j < self.entries@.len() && i != j
                ==> self.entries@[i].0@ != self.entries@[j].0@
    }

    proof fn lemma_position(&self, key: Seq<char>)
        requires
            self.distinct_names(),
            self.has(key),
        ensures
            0 <= self.position(key) < self.entries@.len(),
            self.entries@[self.position(key)].0@ == key,
            forall|j: int|
                0 <= j < self.entries@.len() && self.entries@[j].0@ == key ==> j
                    == self.position(key),
    {
    }

    /// The names and values in storage order describe the map exactly.
    pub proof fn lemma_storage(&self)
        requires
            self.distinct_names(),
        ensures
            self.names().len() == self.values().len(),
            self.names().no_duplicates(),
            forall|k: Seq<char>| #[trigger] self@.contains_key(k) <==> self.names().contains(k),
            forall|i: int|
                0 <= i < self.names().len() ==> #[trigger] self@[self.names()[i]]
                    == self.values()[i],
    {
        assert forall|k: Seq<char>| #[trigger] self@.contains_key(k) implies self.names().contains(
            k,
        ) by {
            let p = self.position(k);
            self.lemma_position(k);
            assert(self.names()[p] == k);
        }
        assert forall|k: Seq<char>| self.names().contains(k) implies #[trigger] self@.contains_key(
            k,
        ) by {
            let i = choose|i: int| 0 <= i < self.names().len() && self.names()[i] == k;
            assert(self.entries@[i].0@ == k);
        }
        assert forall|i: int| 0 <= i < self.names().len() implies #[trigger] self@[self.names()[i]]
            == self.values()[i] by {
            let k = self.names()[i];
            assert(self.entries@[i].0@ == k);
            self.lemma_position(k);
        }
    }
}

impl<V> View for NameTable<V> {
    type V = Map<Seq<char>, V>;

    closed spec fn view(&self) -> Map<Seq<char>, V> {
        Map::new(|k: Seq<char>| self.has(k), |k: Seq<char>| self.entries@[self.position(k)].1)
    }
}

impl<V> NameTable<V> {
    /// An empty table.
    pub fn new() -> (t: Self)
        ensures
            t@ == Map::<Seq<char>, V>::empty(),
            t.names() == Seq::<Seq<char>>::empty(),
    {
        let t = NameTable { entries: Vec::new() };
        assert(t@ =~= Map::<Seq<char>, V>::empty());
        assert(t.names() =~= Seq::<Seq<char>>::empty());
        t
    }

    /// Number of entries.
    pub fn len(&self) -> (n: usize)
        ensures
            n == self.names().len(),
            n == self.values().len(),
    {
        self.entries.len()
    }

    /// The name stored at position `i`.
    pub fn name_at(&self, i: usize) -> (name: &String)
        requires
            i < self.names().len(),
        ensures
            name@ == self.names()[i as int],
    {
        &self.entries[i].0
    }

    /// The value stored at position `i`.
    pub fn value_at(&self, i: usize) -> (value: &V)
        requires
            i < self.values().len(),
        ensures
            *value == self.values()[i as int],
    {
        &self.entries[i].1
    }

    /// Where `key` is stored, if it is.
    pub fn find(&self, key: &str) -> (r: Option<usize>)
        ensures
            r is None <==> !self@.contains_key(key@),
            r matches Some(i) ==> {
                &&& i < self.names().len()
                &&& i < self.values().len()
                &&& self.names()[i as int] == key@
                &&& self@[key@] == self.values()[i as int]
            },
    {
        proof {
            use_type_invariant(self);
        }
        let wanted = key.to_owned();
        let n = self.entries.len();
        let mut i: usize = 0;
        while i < n
            invariant
                n == self.entries@.len(),
                wanted@ == key@,
                self.distinct_names(),
                0 <= i <= n,
                forall|j: int| 0 <= j < i ==> self.entries@[j].0@ != key@,
            decreases n - i,
        {
            if self.entries[i].0 == wanted {
                proof {
                    self.lemma_position(key@);
                }
                return Some(i);
            }
            i = i + 1;
        }
        None
    }

    /// Binds `key` to `value`, replacing the value it had.
    pub fn insert(&mut self, key: String, value: V)
        ensures
            final(self)@ == old(self)@.insert(key@, value),
    {
        proof {
            use_type_invariant(&*self);
        }
        let ghost before = *self;
        match self.find(key.as_str()) {
            Some(i) => {
                let ghost k = key@;
                let mut entries: Vec<(String, V)> = Vec::new();
                std::mem::swap(&mut entries, &mut self.entries);
                entries.set(i, (key, value));
                self.entries = entries;
                proof {
                    assert forall|a: int, b: int|
                        0 <= a < self.entries@.len() && 0 <= b < self.entries@.len() && a != b
                            implies self.entries@[a].0@ != self.entries@[b].0@ by {
                        if a != i && b != i {
                            assert(before.entries@[a] == self.entries@[a]);
                            assert(before.entries@[b] == self.entries@[b]);
                        } else if a == i {
                            assert(before.entries@[b] == self.entries@[b]);
                            assert(before.entries@[i as int].0@ == k);
                        } else {
                            assert(before.entries@[a] == self.entries@[a]);
                            assert(before.entries@[i as int].0@ == k);
                        }
                    }
                    assert forall|x: Seq<char>| #![auto]
                        self@.contains_key(x) == before@.insert(k, value).contains_key(x) by {
                        if self.has(x) {
                            let j = choose|j: int|
                                0 <= j < self.entries@.len() && self.entries@[j].0@ == x;
                            if j != i {
                                assert(before.entries@[j] == self.entries@[j]);
                            }
                        }
                        if before.has(x) {
                            let j = choose|j: int|
                                0 <= j < before.entries@.len() && before.entries@[j].0@ == x;
                            if j != i {
                                assert(before.entries@[j] == self.entries@[j]);
                            }
                        }
                        if x == k {
                            assert(self.entries@[i as int].0@ == k);
                        }
                    }
                    assert forall|x: Seq<char>| #[trigger]
                        self@.contains_key(x) implies self@[x] == before@.insert(
                        k,
                        value,
                    )[x] by {
                        self.lemma_position(x);
                        if x == k {
                            assert(self.entries@[i as int].0@ == k);
                        } else {
                            let j = self.position(x);
                            assert(before.entries@[j] == self.entries@[j]);
                            before.lemma_position(x);
                        }
                    }
                    assert(self@ =~= before@.insert(k, value));
                }
            },
            None => {
                let ghost k = key@;
                let mut entries: Vec<(String, V)> = Vec::new();
                std::mem::swap(&mut entries, &mut self.entries);
                entries.push((key, value));
                self.entries = entries;
                proof {
                    let n: int = before.entries@.len() as int;
                    assert forall|a: int, b: int|
                        0 <= a < self.entries@.len() && 0 <= b < self.entries@.len() && a != b
                            implies self.entries@[a].0@ != self.entries@[b].0@ by {
                        if a < n {
                            assert(before.entries@[a] == self.entries@[a]);
                            assert(!before.has(k));
                        }
                        if b < n {
                            assert(before.entries@[b] == self.entries@[b]);
                            assert(!before.has(k));
                        }
                    }
                    assert forall|x: Seq<char>| #![auto]
                        self@.contains_key(x) == before@.insert(k, value).contains_key(x) by {
                        if self.has(x) {
                            let j = choose|j: int|
                                0 <= j < self.entries@.len() && self.entries@[j].0@ == x;
                            if j < n {
                                assert(before.entries@[j] == self.entries@[j]);
                            }
                        }
                        if before.has(x) {
                            let j = choose|j: int|
                                0 <= j < before.entries@.len() && before.entries@[j].0@ == x;
                            assert(before.entries@[j] == self.entries@[j]);
                        }
                        if x == k {
                            assert(self.entries@[n].0@ == k);
                        }
                    }
                    assert forall|x: Seq<char>| #[trigger]
                        self@.contains_key(x) implies self@[x] == before@.insert(
                        k,
                        value,
                    )[x] by {
                        self.lemma_position(x);
                        if x == k {
                            assert(self.entries@[n].0@ == k);
                        } else {
                            let j = self.position(x);
                            assert(j < n);
                            assert(before.entries@[j] == self.entries@[j]);
                            before.lemma_position(x);
                        }
                    }
                    assert(self@ =~= before@.insert(k, value));
                }
            },
        }
    }

    /// Drops the binding of `key`, if there is one.
    pub fn remove(&mut self, key: &str)
        ensures
            final(self)@ == old(self)@.remove(key@),
    {
        proof {
            use_type_invariant(&*self);
        }
        let ghost before = *self;
        match self.find(key) {
            Some(i) => {
                let mut entries: Vec<(String, V)> = Vec::new();
                std::mem::swap(&mut entries, &mut self.entries);
                let _ = entries.remove(i);
                self.entries = entries;
                proof {
                    let k = key@;
                    let ii = i as int;
                    assert(before.entries@[ii].0@ == k);
                    assert forall|x: Seq<char>| #![auto]
                        self@.contains_key(x) == before@.remove(k).contains_key(x) by {
                        if self.has(x) {
                            let j = choose|j: int|
                                0 <= j < self.entries@.len() && self.entries@[j].0@ == x;
                            if j < ii {
                                assert(before.entries@[j] == self.entries@[j]);
                                assert(j != ii);
                            } else {
                                assert(before.entries@[j + 1] == self.entries@[j]);
                                assert(j + 1 != ii);
                            }
                        }
                        if before.has(x) && x != k {
                            let j = choose|j: int|
                                0 <= j < before.entries@.len() && before.entries@[j].0@ == x;
                            assert(j != ii);
                            if j < ii {
                                assert(before.entries@[j] == self.entries@[j]);
                            } else {
                                assert(before.entries@[j] == self.entries@[j - 1]);
                            }
                        }
                    }
                    assert forall|x: Seq<char>| #[trigger]
                        self@.contains_key(x) implies self@[x] == before@.remove(k)[x] by {
                        self.lemma_position(x);
                        let j = self.position(x);
                        if j < ii {
                            assert(before.entries@[j] == self.entries@[j]);
                            before.lemma_position(x);
                        } else {
                            assert(before.entries@[j + 1] == self.entries@[j]);
                            before.lemma_position(x);
                        }
                    }
                    assert(self@ =~= before@.remove(k));
                }
            },
            None => {
                assert(self@ =~= old(self)@.remove(key@));
            },
        }
    }
}

} // verus!
