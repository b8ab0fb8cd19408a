//! A table of values by name: a vector of entries that never holds a name
//! twice, seen as a map.

use vstd::prelude::*;

verus! {

/// Values by name.
pub struct Table<V: View> {
    entries: Vec<(String, V)>,
}

/// The map that a list of entries stands for; a later entry for a name
/// overrides an earlier one.
pub open spec fn entry_map<V: View>(es: Seq<(String, V)>) -> Map<Seq<char>, V::V>
    decreases es.len(),
{
    if es.len() == 0 {
        Map::empty()
    } else {
        entry_map(es.drop_last()).insert(es.last().0@, es.last().1@)
    }
}

/// `i` is the last entry for `k`.
pub open spec fn last_entry<V: View>(es: Seq<(String, V)>, k: Seq<char>, i: int) -> bool {
    &&& 0 <= i < es.len()
    &&& es[i].0@ == k
    &&& forall|j: int| i < j < es.len() ==> (#[trigger] es[j]).0@ != k
}

proof fn lemma_entry_lookup<V: View>(es: Seq<(String, V)>, k: Seq<char>, i: int)
    requires
        last_entry(es, k, i),
    ensures
        entry_map(es).contains_key(k),
        entry_map(es)[k] == es[i].1@,
    decreases es.len(),
{
    if i < es.len() - 1 {
        assert(es.last() == es[es.len() - 1]);
        lemma_entry_lookup(es.drop_last(), k, i);
    }
}

proof fn lemma_entry_absent<V: View>(es: Seq<(String, V)>, k: Seq<char>)
    requires
        forall|j: int| 0 <= j < es.len() ==> (#[trigger] es[j]).0@ != k,
    ensures
        !entry_map(es).contains_key(k),
    decreases es.len(),
{
    if es.len() > 0 {
        assert(es.last() == es[es.len() - 1]);
        lemma_entry_absent(es.drop_last(), k);
    }
}

proof fn lemma_entry_update<V: View>(es: Seq<(String, V)>, k: Seq<char>, i: int, e: (String, V))
    requires
        last_entry(es, k, i),
        e.0@ == k,
    ensures
        entry_map(es.update(i, e)) == entry_map(es).insert(k, e.1@),
    decreases es.len(),
{
    let u = es.update(i, e);
    if i == es.len() - 1 {
        assert(u.drop_last() =~= es.drop_last());
        assert(entry_map(u) =~= entry_map(es).insert(k, e.1@));
    } else {
        assert(u.drop_last() =~= es.drop_last().update(i, e));
        assert(es.last() == es[es.len() - 1]);
        lemma_entry_update(es.drop_last(), k, i, e);
        assert(entry_map(u) =~= entry_map(es).insert(k, e.1@));
    }
}

proof fn lemma_entry_remove<V: View>(es: Seq<(String, V)>, k: Seq<char>, i: int)
    requires
        last_entry(es, k, i),
        forall|j: int| 0 <= j < i ==> (#[trigger] es[j]).0@ != k,
    ensures
        entry_map(es.remove(i)) == entry_map(es).remove(k),
    decreases es.len(),
{
    let r = es.remove(i);
    if i == es.len() - 1 {
        assert(r =~= es.drop_last());
        assert forall|j: int| 0 <= j < r.len() implies (#[trigger] r[j]).0@ != k by {}
        lemma_entry_absent(r, k);
        assert(entry_map(r) =~= entry_map(es).remove(k));
    } else {
        assert(r.drop_last() =~= es.drop_last().remove(i));
        assert(r.last() == es.last());
        assert(es.last() == es[es.len() - 1]);
        lemma_entry_remove(es.drop_last(), k, i);
        assert(entry_map(r) =~= entry_map(es).remove(k));
    }
}

proof fn lemma_entry_len<V: View>(es: Seq<(String, V)>)
    requires
        forall|i: int, j: int| 0 <= i < j < es.len() ==> (#[trigger] es[i]).0@ != (#[trigger] es[j]).0@,
    ensures
        entry_map(es).dom().finite(),
        entry_map(es).len() == es.len(),
    decreases es.len(),
{
    if es.len() > 0 {
        let d = es.drop_last();
        assert forall|i: int, j: int| 0 <= i < j < d.len() implies (#[trigger] d[i]).0@ != (#[trigger] d[j]).0@ by {
            assert(d[i] == es[i]);
            assert(d[j] == es[j]);
        }
        lemma_entry_len(d);
        assert forall|j: int| 0 <= j < d.len() implies (#[trigger] d[j]).0@ != es.last().0@ by {
            assert(d[j] == es[j]);
            assert(es.last() == es[es.len() - 1]);
        }
        lemma_entry_absent(d, es.last().0@);
    }
}

impl<V: View> Table<V> {
    /// Each name has one entry at most.
    #[verifier::type_invariant]
    spec fn names_unique(&self) -> bool {
        forall|i: int, j: int|
            0 <= i < j < self.entries@.len() ==> (#[trigger] self.entries@[i]).0@ != (
            #[trigger] self.entries@[j]).0@
    }

    /// The values by name.
    pub closed spec fn map(&self) -> Map<Seq<char>, V::V> {
        entry_map(self.entries@)
    }

    /// An empty table.
    pub fn new() -> (r: Table<V>)
        ensures
            r.map() == Map::<Seq<char>, V::V>::empty(),
    {
        Table { entries: Vec::new() }
    }

    fn find(&self, key: &String) -> (r: Option<usize>)
        ensures
            match r {
                Some(i) => last_entry(self.entries@, key@, i as int),
                None => forall|j: int|
                    0 <= j < self.entries@.len() ==> (#[trigger] self.entries@[j]).0@ != key@,
            },
    {
        let mut i = self.entries.len();
        while i > 0
            invariant
                i <= self.entries@.len(),
                forall|j: int| i <= j < self.entries@.len() ==> (#[trigger] self.entries@[j]).0@ != key@,
            decreases i,
        {
            if self.entries[i - 1].0 == *key {
                return Some(i - 1);
            }
            i -= 1;
        }
        None
    }

    /// The value for a name, if there is one.
    pub fn get(&self, name: &str) -> (r: Option<&V>)
        ensures
            match r {
                Some(j) => self.map().contains_key(name@) && self.map()[name@] == j@,
                None => !self.map().contains_key(name@),
            },
    {
        let key = String::from_str(name);
        match self.find(&key) {
            Some(i) => {
                proof {
                    lemma_entry_lookup(self.entries@, key@, i as int);
                }
                Some(&self.entries[i].1)
            },
            None => {
                proof {
                    lemma_entry_absent(self.entries@, key@);
                }
                None
            },
        }
    }

    /// Sets the value for a name.
    pub fn put(&mut self, key: String, value: V)
        ensures
            final(self).map() == old(self).map().insert(key@, value@),
    {
        match self.find(&key) {
            Some(i) => {
                proof {
                    use_type_invariant(&*self);
                    lemma_entry_update(self.entries@, key@, i as int, (key, value));
                }
                let ghost before = self.entries@;
                let mut es: Vec<(String, V)> = Vec::new();
                std::mem::swap(&mut es, &mut self.entries);
                es.set(i, (key, value));
                self.entries = es;
                proof {
                    assert forall|a: int, b: int|
                        0 <= a < b < self.entries@.len() implies (#[trigger] self.entries@[a]).0@
                        != (#[trigger] self.entries@[b]).0@ by {
                        if a != i && b != i {
                            assert(self.entries@[a] == before[a]);
                            assert(self.entries@[b] == before[b]);
                        } else if a == i {
                            assert(self.entries@[b] == before[b]);
                        } else {
                            assert(self.entries@[a] == before[a]);
                        }
                    }
                }
            },
            None => {
                proof {
                    use_type_invariant(&*self);
                }
                let ghost before = self.entries@;
                let mut es: Vec<(String, V)> = Vec::new();
                std::mem::swap(&mut es, &mut self.entries);
                es.push((key, value));
                self.entries = es;
                proof {
                    assert(self.entries@.drop_last() =~= before);
                    assert forall|a: int, b: int|
                        0 <= a < b < self.entries@.len() implies (#[trigger] self.entries@[a]).0@
                        != (#[trigger] self.entries@[b]).0@ by {
                        assert(self.entries@[a] == before[a]);
                        if b < before.len() {
                            assert(self.entries@[b] == before[b]);
                        }
                    }
                }
            },
        }
    }

    /// Removes the value for a name and hands it back.
    pub fn take(&mut self, key: &String) -> (r: Option<V>)
        ensures
            match r {
                Some(j) => old(self).map().contains_key(key@) && old(self).map()[key@] == j@
                    && final(self).map() == old(self).map().remove(key@),
                None => !old(self).map().contains_key(key@) && final(self).map() == old(self).map(),
            },
    {
        match self.find(key) {
            Some(i) => {
                proof {
                    lemma_entry_lookup(self.entries@, key@, i as int);
                }
                proof {
                    use_type_invariant(&*self);
                    lemma_entry_remove(self.entries@, key@, i as int);
                }
                let ghost before = self.entries@;
                let mut es: Vec<(String, V)> = Vec::new();
                std::mem::swap(&mut es, &mut self.entries);
                let (_k, value) = es.remove(i);
                self.entries = es;
                proof {
                    assert forall|a: int, b: int|
                        0 <= a < b < self.entries@.len() implies (#[trigger] self.entries@[a]).0@
                        != (#[trigger] self.entries@[b]).0@ by {
                        let oa = if a < i { a } else { a + 1 };
                        let ob = if b < i { b } else { b + 1 };
                        assert(self.entries@[a] == before[oa]);
                        assert(self.entries@[b] == before[ob]);
                    }
                }
                Some(value)
            },
            None => {
                proof {
                    lemma_entry_absent(self.entries@, key@);
                }
                None
            },
        }
    }

    /// How many names have a value.
    pub fn len(&self) -> (n: usize)
        ensures
            n == self.map().len(),
    {
        proof {
            use_type_invariant(self);
            lemma_entry_len(self.entries@);
        }
        self.entries.len()
    }
}

} // verus!
