use vstd::prelude::*;

verus! {

/// A name-keyed table, the registry's mapping primitive.
///
/// Entries live in a vector with pairwise-distinct keys; the table is viewed
/// as a `Map` from key characters to values, and every operation is specified
/// by how it changes that map.
pub struct Table<V> {
    entries: Vec<(String, V)>,
}

/// The map described by an entry sequence: later entries override earlier
/// ones.
pub open spec fn map_of<V>(s: Seq<(String, V)>) -> Map<Seq<char>, V>
    decreases s.len(),
{
    if s.len() == 0 {
        Map::empty()
    } else {
        map_of(s.drop_last()).insert(s.last().0@, s.last().1)
    }
}

/// Some entry of `s` carries the key `k`.
pub open spec fn has_key<V>(s: Seq<(String, V)>, k: Seq<char>) -> bool {
    exists|i: int| 0 <= i < s.len() && s[i].0@ == k
}

/// The keys of `s` are pairwise distinct.
pub open spec fn distinct_keys<V>(s: Seq<(String, V)>) -> bool {
    forall|i: int, j: int| 0 <= i < j < s.len() ==> s[i].0@ != s[j].0@
}

proof fn lemma_map_of_domain<V>(s: Seq<(String, V)>, k: Seq<char>)
    ensures
        map_of(s).contains_key(k) <==> has_key(s, k),
    decreases s.len(),
{
    if s.len() > 0 {
        lemma_map_of_domain(s.drop_last(), k);
        if s.last().0@ != k {
            assert(has_key(s.drop_last(), k) ==> has_key(s, k)) by {
                if has_key(s.drop_last(), k) {
                    let i = choose|i: int|
                        0 <= i < s.drop_last().len() && s.drop_last()[i].0@ == k;
                    assert(s[i].0@ == k);
                }
            }
            assert(has_key(s, k) ==> has_key(s.drop_last(), k)) by {
                if has_key(s, k) {
                    let i = choose|i: int| 0 <= i < s.len() && s[i].0@ == k;
                    assert(i < s.len() - 1);
                    assert(s.drop_last()[i].0@ == k);
                }
            }
        } else {
            assert(s[s.len() - 1].0@ == k);
        }
    }
}

proof fn lemma_map_of_index<V>(s: Seq<(String, V)>, i: int)
    requires
        distinct_keys(s),
        0 <= i < s.len(),
    ensures
        map_of(s).contains_key(s[i].0@),
        map_of(s)[s[i].0@] == s[i].1,
    decreases s.len(),
{
    if i < s.len() - 1 {
        lemma_map_of_index(s.drop_last(), i);
        assert(s.drop_last()[i] == s[i]);
        assert(s.last().0@ != s[i].0@);
    }
}

proof fn lemma_map_of_update<V>(s: Seq<(String, V)>, i: int, e: (String, V))
    requires
        distinct_keys(s),
        0 <= i < s.len(),
        e.0@ == s[i].0@,
    ensures
        map_of(s.update(i, e)) =~= map_of(s).insert(e.0@, e.1),
    decreases s.len(),
{
    let t = s.update(i, e);
    if i == s.len() - 1 {
        assert(t.drop_last() =~= s.drop_last());
    } else {
        lemma_map_of_update(s.drop_last(), i, e);
        assert(t.drop_last() =~= s.drop_last().update(i, e));
        assert(t.last() == s.last());
        assert(s.last().0@ != e.0@);
    }
}

impl<V> Table<V> {
    /// The entry sequence behind the table.
    pub closed spec fn kvs(self) -> Seq<(String, V)> {
        self.entries@
    }

    /// The table as a map from key characters to values.
    pub closed spec fn view(self) -> Map<Seq<char>, V> {
        map_of(self.entries@)
    }

    /// Keys are pairwise distinct; every operation preserves this.
    pub closed spec fn wf(self) -> bool {
        distinct_keys(self.entries@)
    }

    /// Each entry's value is what the view binds to its key.
    pub proof fn lemma_kvs_index(self, i: int)
        requires
            self.wf(),
            0 <= i < self.kvs().len(),
        ensures
            self@.contains_key(self.kvs()[i].0@),
            self@[self.kvs()[i].0@] == self.kvs()[i].1,
    {
        lemma_map_of_index(self.entries@, i);
    }

    pub fn new() -> (t: Table<V>)
        ensures
            t.wf(),
            t@ == Map::<Seq<char>, V>::empty(),
            t.kvs() == Seq::<(String, V)>::empty(),
    {
        Table { entries: Vec::new() }
    }

    /// Whether `k` is present.
    pub fn contains(&self, k: &String) -> (r: bool)
        requires
            self.wf(),
        ensures
            r == self@.contains_key(k@),
    {
        let n = self.entries.len();
        let mut i: usize = 0;
        while i < n
            invariant
                self.wf(),
                n == self.entries.len(),
                0 <= i <= n,
                forall|j: int| 0 <= j < i ==> self.entries@[j].0@ != k@,
            decreases n - i,
        {
            if self.entries[i].0.eq(k) {
                proof {
                    lemma_map_of_domain(self.entries@, k@);
                }
                return true;
            }
            i = i + 1;
        }
        proof {
            lemma_map_of_domain(self.entries@, k@);
        }
        false
    }

    /// The value under `k`, if any.
    pub fn get(&self, k: &String) -> (r: Option<&V>)
        requires
            self.wf(),
        ensures
            match r {
                Some(v) => self@.contains_key(k@) && *v == self@[k@],
                None => !self@.contains_key(k@),
            },
    {
        let n = self.entries.len();
        let mut i: usize = 0;
        while i < n
            invariant
                self.wf(),
                n == self.entries.len(),
                0 <= i <= n,
                forall|j: int| 0 <= j < i ==> self.entries@[j].0@ != k@,
            decreases n - i,
        {
            if self.entries[i].0.eq(k) {
                proof {
                    lemma_map_of_index(self.entries@, i as int);
                }
                return Some(&self.entries[i].1);
            }
            i = i + 1;
        }
        proof {
            lemma_map_of_domain(self.entries@, k@);
        }
        None
    }

    /// A mutable borrow of the value under `k`, which must be present.
    /// The binding's key cannot change through the borrow, so the table
    /// afterwards is the old one with `k` re-bound to whatever the caller
    /// left behind.
    pub fn get_mut_existing(&mut self, k: &String) -> (v: &mut V)
        requires
            old(self).wf(),
            old(self)@.contains_key(k@),
        ensures
            *v == old(self)@[k@],
            final(self).wf(),
            final(self)@ == old(self)@.insert(k@, *final(v)),
            final(self).kvs().len() == old(self).kvs().len(),
            exists|i: int|
                0 <= i < old(self).kvs().len() && #[trigger] old(self).kvs()[i].0@ == k@
                    && final(self).kvs() == old(self).kvs().update(
                    i,
                    (old(self).kvs()[i].0, *final(v)),
                ),
    {
        let n = self.entries.len();
        let mut i: usize = 0;
        while i < n
            invariant
                self == old(self),
                n == self.entries.len(),
                0 <= i <= n,
                self.wf(),
                self@.contains_key(k@),
                forall|j: int| 0 <= j < i ==> self.entries@[j].0@ != k@,
            decreases n - i,
        {
            if self.entries[i].0.eq(k) {
                proof {
                    lemma_map_of_index(self.entries@, i as int);
                }
                let entry = vstd::std_specs::vec::vec_index_mut(&mut self.entries, i);
                let v = &mut entry.1;
                proof {
                    lemma_map_of_update(
                        old(self).entries@,
                        i as int,
                        (old(self).entries@[i as int].0, *final(v)),
                    );
                }
                return v;
            }
            i = i + 1;
        }
        proof {
            lemma_map_of_domain(self.entries@, k@);
        }
        unreached()
    }

    /// A copy of the table with every value cloned.  Keys are preserved
    /// exactly, so the copy binds the same names; what a cloned value is
    /// depends on `V`'s own `Clone`.
    pub fn duplicate(&self) -> (t: Table<V>) where V: Clone
        requires
            self.wf(),
        ensures
            t.wf(),
            t.kvs().len() == self.kvs().len(),
            forall|i: int| 0 <= i < t.kvs().len() ==> t.kvs()[i].0@ == self.kvs()[i].0@,
            t@.dom() == self@.dom(),
    {
        let n = self.entries.len();
        let mut out: Vec<(String, V)> = Vec::new();
        let mut i: usize = 0;
        while i < n
            invariant
                self.wf(),
                n == self.entries.len(),
                0 <= i <= n,
                out@.len() == i,
                forall|j: int| 0 <= j < i ==> out@[j].0@ == self.entries@[j].0@,
            decreases n - i,
        {
            let key = self.entries[i].0.clone();
            let val = self.entries[i].1.clone();
            out.push((key, val));
            i = i + 1;
        }
        proof {
            assert forall|a: int, b: int| 0 <= a < b < out@.len() implies out@[a].0@
                != out@[b].0@ by {
                assert(self.entries@[a].0@ != self.entries@[b].0@);
            }
            assert forall|k: Seq<char>|
                map_of(out@).contains_key(k) == map_of(self.entries@).contains_key(k) by {
                lemma_map_of_domain(out@, k);
                lemma_map_of_domain(self.entries@, k);
                if has_key(out@, k) {
                    let w = choose|w: int| 0 <= w < out@.len() && out@[w].0@ == k;
                    assert(self.entries@[w].0@ == k);
                }
                if has_key(self.entries@, k) {
                    let w = choose|w: int|
                        0 <= w < self.entries@.len() && self.entries@[w].0@ == k;
                    assert(out@[w].0@ == k);
                }
            }
            assert(map_of(out@).dom() =~= map_of(self.entries@).dom());
        }
        Table { entries: out }
    }

    /// Binds `k` to `v`, overwriting any prior binding.
    pub fn put(&mut self, k: String, v: V)
        requires
            old(self).wf(),
        ensures
            final(self).wf(),
            final(self)@ == old(self)@.insert(k@, v),
            final(self).kvs().len() <= old(self).kvs().len() + 1,
            old(self)@.contains_key(k@) ==> exists|i: int|
                0 <= i < old(self).kvs().len() && #[trigger] old(self).kvs()[i].0@ == k@
                    && final(self).kvs() == old(self).kvs().update(i, (k, v)),
            !old(self)@.contains_key(k@) ==> final(self).kvs() == old(self).kvs().push((k, v)),
    {
        let n = self.entries.len();
        let mut i: usize = 0;
        while i < n
            invariant
                self == old(self),
                n == self.entries.len(),
                0 <= i <= n,
                self.wf(),
                forall|j: int| 0 <= j < i ==> self.entries@[j].0@ != k@,
            decreases n - i,
        {
            if self.entries[i].0.eq(&k) {
                proof {
                    lemma_map_of_index(self.entries@, i as int);
                    lemma_map_of_update(self.entries@, i as int, (k, v));
                }
                let entry = vstd::std_specs::vec::vec_index_mut(&mut self.entries, i);
                *entry = (k, v);
                assert(self.wf());
                assert(self.entries@ =~= old(self).entries@.update(i as int, *entry));
                return ;
            }
            i = i + 1;
        }
        proof {
            lemma_map_of_domain(self.entries@, k@);
        }
        self.entries.push((k, v));
        proof {
            assert(self.entries@.drop_last() =~= old(self).entries@);
        }
    }
}

} // verus!
