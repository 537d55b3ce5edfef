use vstd::prelude::*;

verus! {

/// The key at index `i` of a list of entries.
pub open spec fn key_at<V>(s: Seq<(String, V)>, i: int) -> Seq<char> {
    s[i].0@
}

/// The map that a list of entries with distinct keys stands for.
pub open spec fn entries_map<V>(s: Seq<(String, V)>) -> Map<Seq<char>, V> {
    Map::new(
        |k: Seq<char>| exists|i: int| 0 <= i < s.len() && #[trigger] key_at(s, i) == k,
        |k: Seq<char>| s[choose|i: int| 0 <= i < s.len() && #[trigger] key_at(s, i) == k].1,
    )
}

pub open spec fn distinct_keys<V>(s: Seq<(String, V)>) -> bool {
    forall|i: int, j: int|
        0 <= i < s.len() && 0 <= j < s.len() && #[trigger] key_at(s, i) == #[trigger] key_at(s, j)
            ==> i == j
}

/// A map from names to values, kept as a list of entries with distinct
/// names in the order they were first inserted.
pub struct NameTable<V> {
    entries: Vec<(String, V)>,
}

proof fn lemma_entry<V>(s: Seq<(String, V)>, i: int)
    requires
        distinct_keys(s),
        0 <= i < s.len(),
    ensures
        entries_map(s).contains_key(key_at(s, i)),
        entries_map(s)[key_at(s, i)] == s[i].1,
{
    let k = key_at(s, i);
    assert(exists|j: int| 0 <= j < s.len() && #[trigger] key_at(s, j) == k);
    let j = choose|j: int| 0 <= j < s.len() && #[trigger] key_at(s, j) == k;
    assert(i == j);
}

proof fn lemma_map_of_distinct<V>(s: Seq<(String, V)>)
    requires
        distinct_keys(s),
    ensures
        forall|i: int| 0 <= i < s.len() ==> #[trigger] entries_map(s).contains_key(key_at(s, i)) && entries_map(s)[key_at(s, i)] == s[i].1,
        forall|k: Seq<char>| #[trigger] entries_map(s).contains_key(k) ==> exists|i: int| 0 <= i < s.len() && #[trigger] key_at(s, i) == k,
{
    assert forall|i: int| 0 <= i < s.len() implies #[trigger] entries_map(s).contains_key(key_at(s, i)) && entries_map(s)[key_at(s, i)] == s[i].1 by {
        lemma_entry(s, i);
    }
}

impl<V> NameTable<V> {
    /// The entries have distinct names.
    pub closed spec fn wf(&self) -> bool {
        distinct_keys(self.entries@)
    }

    pub closed spec fn view(&self) -> Map<Seq<char>, V> {
        entries_map(self.entries@)
    }

    /// The entries, in the order their names were first inserted.
    pub fn entries(&self) -> (r: &Vec<(String, V)>)
        ensures
            entries_map(r@) == self.view(),
    {
        &self.entries
    }

    /// An empty table.
    pub fn new() -> (r: NameTable<V>)
        ensures
            r.wf(),
            r.view() == Map::<Seq<char>, V>::empty(),
    {
        let r = NameTable { entries: Vec::new() };
        assert(r.view() =~= Map::<Seq<char>, V>::empty());
        r
    }

    /// The index of the entry named `k`, if any.
    fn position(&self, k: &String) -> (r: Option<usize>)
        requires
            self.wf(),
        ensures
            match r {
                Some(i) => i < self.entries@.len() && key_at(self.entries@, i as int) == k@,
                None => !self.view().contains_key(k@),
            },
    {
        let mut i: usize = 0;
        while i < self.entries.len()
            invariant
                i <= self.entries@.len(),
                forall|j: int| 0 <= j < i ==> key_at(self.entries@, j) != k@,
            decreases self.entries@.len() - i,
        {
            if self.entries[i].0 == *k {
                return Some(i);
            }
            i = i + 1;
        }
        None
    }

    /// The value stored under `k`.
    pub fn get(&self, k: &String) -> (r: Option<&V>)
        requires
            self.wf(),
        ensures
            r is Some <==> self.view().contains_key(k@),
            r matches Some(v) ==> *v == self.view()[k@],
    {
        proof {
            lemma_map_of_distinct(self.entries@);
        }
        match self.position(k) {
            Some(i) => Some(&self.entries[i].1),
            None => None,
        }
    }

    pub fn contains_key(&self, k: &String) -> (r: bool)
        requires
            self.wf(),
        ensures
            r == self.view().contains_key(k@),
    {
        proof {
            lemma_map_of_distinct(self.entries@);
        }
        self.position(k).is_some()
    }

    /// Removes the entry named `k`, handing back its value.
    pub fn remove(&mut self, k: &String) -> (r: Option<V>)
        requires
            old(self).wf(),
        ensures
            final(self).wf(),
            r is Some <==> old(self).view().contains_key(k@),
            r matches Some(v) ==> v == old(self).view()[k@],
            final(self).view() == old(self).view().remove(k@),
    {
        proof {
            lemma_map_of_distinct(self.entries@);
        }
        match self.position(k) {
            None => {
                assert(self.view() =~= self.view().remove(k@));
                None
            },
            Some(i) => {
                let ghost s = self.entries@;
                let (_, v) = self.entries.remove(i);
                let ghost t = self.entries@;
                proof {
                    assert(t =~= s.subrange(0, i as int) + s.subrange(i + 1, s.len() as int));
                    assert forall|a: int, b: int|
                        0 <= a < t.len() && 0 <= b < t.len() && #[trigger] key_at(t, a) == #[trigger] key_at(t, b)
                    implies a == b by {
                        let a2 = if a < i { a } else { a + 1 };
                        let b2 = if b < i { b } else { b + 1 };
                        assert(key_at(s, a2) == key_at(t, a));
                        assert(key_at(s, b2) == key_at(t, b));
                    }
                    lemma_map_of_distinct(t);
                    assert forall|q: Seq<char>| #[trigger] entries_map(t).contains_key(q) <==> entries_map(s).remove(k@).contains_key(q) by {
                        if entries_map(t).contains_key(q) {
                            let a = choose|a: int| 0 <= a < t.len() && #[trigger] key_at(t, a) == q;
                            let a2 = if a < i { a } else { a + 1 };
                            assert(key_at(s, a2) == q);
                            assert(entries_map(s).contains_key(key_at(s, a2)));
                        }
                        if entries_map(s).remove(k@).contains_key(q) {
                            let a = choose|a: int| 0 <= a < s.len() && #[trigger] key_at(s, a) == q;
                            assert(a != i);
                            let a2 = if a < i { a } else { a - 1 };
                            assert(key_at(t, a2) == q);
                        }
                    }
                    assert forall|q: Seq<char>| #[trigger] entries_map(t).contains_key(q) implies entries_map(t)[q] == entries_map(s).remove(k@)[q] by {
                        let a = choose|a: int| 0 <= a < t.len() && #[trigger] key_at(t, a) == q;
                        let a2 = if a < i { a } else { a + 1 };
                        assert(key_at(s, a2) == q);
                        assert(entries_map(t)[key_at(t, a)] == t[a].1);
                        assert(entries_map(s)[key_at(s, a2)] == s[a2].1);
                    }
                    assert(entries_map(t) =~= entries_map(s).remove(k@));
                }
                Some(v)
            },
        }
    }

    /// Stores `v` under `k`, handing back the value it replaces.
    pub fn insert(&mut self, k: String, v: V) -> (r: Option<V>)
        requires
            old(self).wf(),
        ensures
            final(self).wf(),
            r is Some <==> old(self).view().contains_key(k@),
            r matches Some(p) ==> p == old(self).view()[k@],
            final(self).view() == old(self).view().insert(k@, v),
    {
        let prev = self.remove(&k);
        proof {
            lemma_map_of_distinct(self.entries@);
        }
        let ghost s = self.entries@;
        let ghost kv = k@;
        self.entries.push((k, v));
        proof {
            let t = self.entries@;
            assert(key_at(t, s.len() as int) == kv);
            assert forall|a: int, b: int|
                0 <= a < t.len() && 0 <= b < t.len() && #[trigger] key_at(t, a) == #[trigger] key_at(t, b)
            implies a == b by {
                if a < s.len() {
                    assert(key_at(s, a) == key_at(t, a));
                    assert(entries_map(s).contains_key(key_at(s, a)));
                }
                if b < s.len() {
                    assert(key_at(s, b) == key_at(t, b));
                    assert(entries_map(s).contains_key(key_at(s, b)));
                }
            }
            lemma_map_of_distinct(t);
            assert forall|q: Seq<char>| #[trigger] entries_map(t).contains_key(q) <==> entries_map(s).insert(kv, v).contains_key(q) by {
                if entries_map(t).contains_key(q) && q != kv {
                    let a = choose|a: int| 0 <= a < t.len() && #[trigger] key_at(t, a) == q;
                    assert(key_at(s, a) == q);
                }
                if entries_map(s).contains_key(q) {
                    let a = choose|a: int| 0 <= a < s.len() && #[trigger] key_at(s, a) == q;
                    assert(key_at(t, a) == q);
                }
            }
            assert forall|q: Seq<char>| #[trigger] entries_map(t).contains_key(q) implies entries_map(t)[q] == entries_map(s).insert(kv, v)[q] by {
                let a = choose|a: int| 0 <= a < t.len() && #[trigger] key_at(t, a) == q;
                assert(entries_map(t)[key_at(t, a)] == t[a].1);
                if a < s.len() {
                    assert(key_at(s, a) == q);
                    assert(entries_map(s)[key_at(s, a)] == s[a].1);
                }
            }
            assert(entries_map(t) =~= entries_map(s).insert(kv, v));
        }
        prev
    }
}

} // verus!
