//! A map from remote-relative names to values, kept as a list of entries with unique keys.
use vstd::prelude::*;

verus! {

/// Names mapped to values; each name occurs in at most one entry.
#[derive(Debug)]
pub struct FileMap<V> {
    entries: Vec<(String, V)>,
}

impl<V> View for FileMap<V> {
    type V = Map<Seq<char>, V>;

    closed spec fn view(&self) -> Map<Seq<char>, V> {
        Map::new(
            |k: Seq<char>| exists|i: int| 0 <= i < self.entries@.len() && #[trigger] self.entries@[i].0@ == k,
            |k: Seq<char>|
                self.entries@[choose|i: int| 0 <= i < self.entries@.len() && #[trigger] self.entries@[i].0@ == k].1,
        )
    }
}

impl<V> FileMap<V> {
    /// No two entries share a name.
    pub closed spec fn wf(&self) -> bool {
        forall|i: int, j: int|
            0 <= i < j < self.entries@.len() ==> #[trigger] self.entries@[i].0@ != #[trigger] self.entries@[j].0@
    }

    /// The names, in the order in which the entries are stored.
    pub closed spec fn names(&self) -> Seq<Seq<char>> {
        self.entries@.map_values(|e: (String, V)| e.0@)
    }

    /// The name and value of each entry agree with the view.
    proof fn lemma_entry(&self, i: int)
        requires
            self.wf(),
            0 <= i < self.names().len(),
        ensures
            self@.contains_key(self.names()[i]),
            self@[self.names()[i]] == self.entries@[i].1,
    {
        let k = self.entries@[i].0@;
        assert(self.entries@[i].0@ == k);
        let j = choose|j: int| 0 <= j < self.entries@.len() && #[trigger] self.entries@[j].0@ == k;
        assert(self.entries@[j].0@ == k);
        if j < i {
            assert(self.entries@[j].0@ != self.entries@[i].0@);
        } else if i < j {
            assert(self.entries@[i].0@ != self.entries@[j].0@);
        }
    }

    /// The names are exactly the keys of the view, each once.
    pub proof fn lemma_names(&self)
        requires
            self.wf(),
        ensures
            self.names().no_duplicates(),
            self.names().len() == self@.dom().len(),
            self.names().to_set() == self@.dom(),
            forall|k: Seq<char>| #[trigger] self@.contains_key(k) <==> self.names().contains(k),
    {
        let ns = self.names();
        assert forall|i: int, j: int| 0 <= i < ns.len() && 0 <= j < ns.len() && i != j implies ns[i] != ns[j] by {
            if i < j {
                assert(self.entries@[i].0@ != self.entries@[j].0@);
            } else {
                assert(self.entries@[j].0@ != self.entries@[i].0@);
            }
        }
        assert forall|k: Seq<char>| #[trigger] self@.contains_key(k) <==> ns.contains(k) by {
            if self@.contains_key(k) {
                let i = choose|i: int| 0 <= i < self.entries@.len() && #[trigger] self.entries@[i].0@ == k;
                assert(ns[i] == k);
            }
            if ns.contains(k) {
                let i = choose|i: int| 0 <= i < ns.len() && ns[i] == k;
                assert(self.entries@[i].0@ == k);
            }
        }
        assert(ns.to_set() =~= self@.dom());
        ns.unique_seq_to_set();
    }

    /// An empty map.
    pub fn new() -> (r: Self)
        ensures
            r.wf(),
            r@ == Map::<Seq<char>, V>::empty(),
    {
        let r = FileMap { entries: Vec::new() };
        assert(r@ =~= Map::<Seq<char>, V>::empty());
        r
    }

    /// The number of names.
    pub fn len(&self) -> (r: usize)
        requires
            self.wf(),
        ensures
            r == self@.dom().len(),
            r == self.names().len(),
    {
        proof {
            self.lemma_names();
        }
        self.entries.len()
    }

    /// Where `name` is stored, if anywhere.
    fn position(&self, name: &String) -> (r: Option<usize>)
        ensures
            match r {
                Some(i) => i < self.entries@.len() && self.entries@[i as int].0@ == name@,
                None => forall|i: int| 0 <= i < self.entries@.len() ==> self.entries@[i].0@ != name@,
            },
    {
        let mut i: usize = 0;
        while i < self.entries.len()
            invariant
                i <= self.entries@.len(),
                forall|j: int| 0 <= j < i ==> self.entries@[j].0@ != name@,
            decreases self.entries@.len() - i,
        {
            if self.entries[i].0 == *name {
                return Some(i);
            }
            i += 1;
        }
        None
    }

    /// Whether `name` has a value.
    pub fn contains_key(&self, name: &String) -> (r: bool)
        ensures
            r == self@.contains_key(name@),
    {
        match self.position(name) {
            Some(i) => {
                assert(self.entries@[i as int].0@ == name@);
                true
            },
            None => false,
        }
    }

    /// The value of `name`, if it has one.
    pub fn get(&self, name: &String) -> (r: Option<&V>)
        requires
            self.wf(),
        ensures
            match r {
                Some(v) => self@.contains_key(name@) && self@[name@] == *v,
                None => !self@.contains_key(name@),
            },
    {
        match self.position(name) {
            Some(i) => {
                proof {
                    self.lemma_entry(i as int);
                }
                Some(&self.entries[i].1)
            },
            None => None,
        }
    }

    /// Sets the value of `name`, replacing any earlier one.
    pub fn insert(&mut self, name: String, value: V)
        requires
            old(self).wf(),
        ensures
            final(self).wf(),
            final(self)@ == old(self)@.insert(name@, value),
    {
        let ghost k = name@;
        match self.position(&name) {
            Some(i) => {
                self.entries.set(i, (name, value));
                proof {
                    let new = *self;
                    assert forall|a: int, b: int|
                        0 <= a < b < new.entries@.len() implies #[trigger] new.entries@[a].0@
                        != #[trigger] new.entries@[b].0@ by {
                        assert(old(self).entries@[a].0@ != old(self).entries@[b].0@);
                    }
                    assert forall|q: Seq<char>| #[trigger] new@.contains_key(q) == old(self)@.insert(k, value).contains_key(q) by {
                        if q != k {
                            if new@.contains_key(q) {
                                let j = choose|j: int| 0 <= j < new.entries@.len() && #[trigger] new.entries@[j].0@ == q;
                                assert(old(self).entries@[j].0@ == q);
                            }
                            if old(self)@.contains_key(q) {
                                let j = choose|j: int| 0 <= j < old(self).entries@.len() && #[trigger] old(self).entries@[j].0@ == q;
                                assert(new.entries@[j].0@ == q);
                            }
                        } else {
                            assert(new.entries@[i as int].0@ == q);
                        }
                    }
                    assert forall|q: Seq<char>| #[trigger] new@.contains_key(q) implies new@[q] == old(self)@.insert(k, value)[q] by {
                        let j = choose|j: int| 0 <= j < new.entries@.len() && #[trigger] new.entries@[j].0@ == q;
                        new.lemma_entry(j);
                        assert(new.names()[j] == q);
                        if q != k {
                            assert(old(self).entries@[j].0@ == q);
                            old(self).lemma_entry(j);
                            assert(old(self).names()[j] == q);
                        }
                    }
                    assert(new@ =~= old(self)@.insert(k, value));
                }
            },
            None => {
                self.entries.push((name, value));
                proof {
                    let new = *self;
                    let n = old(self).entries@.len() as int;
                    assert forall|a: int, b: int|
                        0 <= a < b < new.entries@.len() implies #[trigger] new.entries@[a].0@
                        != #[trigger] new.entries@[b].0@ by {
                        if b < n {
                            assert(old(self).entries@[a].0@ != old(self).entries@[b].0@);
                        }
                    }
                    assert forall|q: Seq<char>| #[trigger] new@.contains_key(q) == old(self)@.insert(k, value).contains_key(q) by {
                        if new@.contains_key(q) && q != k {
                            let j = choose|j: int| 0 <= j < new.entries@.len() && #[trigger] new.entries@[j].0@ == q;
                            assert(old(self).entries@[j].0@ == q);
                        }
                        if old(self)@.contains_key(q) {
                            let j = choose|j: int| 0 <= j < old(self).entries@.len() && #[trigger] old(self).entries@[j].0@ == q;
                            assert(new.entries@[j].0@ == q);
                        }
                        if q == k {
                            assert(new.entries@[n].0@ == q);
                        }
                    }
                    assert forall|q: Seq<char>| #[trigger] new@.contains_key(q) implies new@[q] == old(self)@.insert(k, value)[q] by {
                        let j = choose|j: int| 0 <= j < new.entries@.len() && #[trigger] new.entries@[j].0@ == q;
                        new.lemma_entry(j);
                        assert(new.names()[j] == q);
                        if q != k {
                            assert(j < n);
                            assert(old(self).entries@[j].0@ == q);
                            old(self).lemma_entry(j);
                            assert(old(self).names()[j] == q);
                        }
                    }
                    assert(new@ =~= old(self)@.insert(k, value));
                }
            },
        }
    }

    /// The name stored at position `i`.
    pub fn name_at(&self, i: usize) -> (r: &String)
        requires
            i < self.names().len(),
        ensures
            r@ == self.names()[i as int],
    {
        &self.entries[i].0
    }

    /// The value stored at position `i`.
    pub fn value_at(&self, i: usize) -> (r: &V)
        requires
            self.wf(),
            i < self.names().len(),
        ensures
            self@.contains_key(self.names()[i as int]),
            *r == self@[self.names()[i as int]],
    {
        proof {
            self.lemma_entry(i as int);
        }
        &self.entries[i].1
    }
}

} // verus!
