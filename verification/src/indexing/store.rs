use vstd::prelude::*;

verus! {

/// A map from names to values that keeps its names in the order in which they were
/// first inserted; no name occurs twice.
pub struct NameMap<V> {
    entries: Vec<(String, V)>,
}

/// The map that a sequence of named entries describes, later entries winning.
pub open spec fn map_of<V>(es: Seq<(String, V)>) -> Map<Seq<char>, V>
    decreases es.len(),
{
    if es.len() == 0 {
        Map::empty()
    } else {
        map_of(es.drop_last()).insert(es.last().0@, es.last().1)
    }
}

pub open spec fn names_of<V>(es: Seq<(String, V)>) -> Seq<Seq<char>> {
    es.map_values(|e: (String, V)| e.0@)
}

proof fn lemma_map_of_dom<V>(es: Seq<(String, V)>, k: Seq<char>)
    ensures
        map_of(es).contains_key(k) <==> names_of(es).contains(k),
    decreases es.len(),
{
    if es.len() > 0 {
        lemma_map_of_dom(es.drop_last(), k);
        assert(names_of(es.drop_last()) == names_of(es).drop_last());
        if names_of(es).contains(k) {
            let i = choose|i: int| 0 <= i < names_of(es).len() && names_of(es)[i] == k;
            if i < es.len() - 1 {
                assert(names_of(es.drop_last())[i] == k);
            }
        }
        if names_of(es.drop_last()).contains(k) {
            let i = choose|i: int|
                0 <= i < names_of(es.drop_last()).len() && names_of(es.drop_last())[i] == k;
            assert(names_of(es)[i] == k);
        }
        assert(names_of(es)[es.len() - 1] == es.last().0@);
    }
}

proof fn lemma_map_of_value<V>(es: Seq<(String, V)>, i: int)
    requires
        0 <= i < es.len(),
        names_of(es).no_duplicates(),
    ensures
        map_of(es).contains_key(es[i].0@),
        map_of(es)[es[i].0@] == es[i].1,
    decreases es.len(),
{
    if i < es.len() - 1 {
        assert(names_of(es.drop_last()) == names_of(es).drop_last());
        lemma_map_of_value(es.drop_last(), i);
        assert(names_of(es)[i] != names_of(es)[es.len() - 1]);
    }
}

proof fn lemma_map_of_update<V>(es: Seq<(String, V)>, i: int, e: (String, V))
    requires
        0 <= i < es.len(),
        e.0@ == es[i].0@,
        names_of(es).no_duplicates(),
    ensures
        map_of(es.update(i, e)) == map_of(es).insert(e.0@, e.1),
        names_of(es.update(i, e)) == names_of(es),
    decreases es.len(),
{
    let es2 = es.update(i, e);
    assert(names_of(es2) == names_of(es));
    if i == es.len() - 1 {
        assert(es2.drop_last() == es.drop_last());
    } else {
        assert(es2.drop_last() == es.drop_last().update(i, e));
        assert(names_of(es.drop_last()) == names_of(es).drop_last());
        lemma_map_of_update(es.drop_last(), i, e);
        assert(names_of(es)[i] != names_of(es)[es.len() - 1]);
    }
}

impl<V> NameMap<V> {
    #[verifier::type_invariant]
    spec fn names_unique(self) -> bool {
        names_of(self.entries@).no_duplicates()
    }

    /// The names, in the order of their first insertion.
    pub closed spec fn names(&self) -> Seq<Seq<char>> {
        names_of(self.entries@)
    }

    pub fn new() -> (m: Self)
        ensures
            m@ == Map::<Seq<char>, V>::empty(),
            m.names() == Seq::<Seq<char>>::empty(),
    {
        let m = NameMap { entries: Vec::new() };
        assert(names_of(m.entries@) == Seq::<Seq<char>>::empty());
        m
    }

    pub fn len(&self) -> (n: usize)
        ensures
            n == self.names().len(),
            n == self@.len(),
            self.names().no_duplicates(),
    {
        proof {
            use_type_invariant(self);
            lemma_map_of_len(self.entries@);
        }
        self.entries.len()
    }

    fn position(&self, k: &String) -> (r: Option<usize>)
        ensures
            match r {
                Some(i) => i < self.entries@.len() && self.entries@[i as int].0@ == k@,
                None => !self.names().contains(k@),
            },
    {
        let mut i: usize = 0;
        while i < self.entries.len()
            invariant
                i <= self.entries@.len(),
                forall|j: int| 0 <= j < i ==> self.entries@[j].0@ != k@,
            decreases self.entries@.len() - i,
        {
            if self.entries[i].0 == *k {
                return Some(i);
            }
            i += 1;
        }
        proof {
            if self.names().contains(k@) {
                let j = choose|j: int| 0 <= j < self.names().len() && self.names()[j] == k@;
                assert(self.entries@[j].0@ == k@);
            }
        }
        None
    }

    pub fn contains_key(&self, k: &String) -> (b: bool)
        ensures
            b == self@.contains_key(k@),
    {
        proof {
            lemma_map_of_dom(self.entries@, k@);
        }
        let r = self.position(k);
        proof {
            if let Some(i) = r {
                assert(self.names()[i as int] == k@);
            }
        }
        r.is_some()
    }

    pub fn get(&self, k: &String) -> (r: Option<&V>)
        ensures
            match r {
                Some(v) => self@.contains_key(k@) && *v == self@[k@],
                None => !self@.contains_key(k@),
            },
    {
        proof {
            use_type_invariant(self);
            lemma_map_of_dom(self.entries@, k@);
        }
        match self.position(k) {
            Some(i) => {
                proof {
                    lemma_map_of_value(self.entries@, i as int);
                }
                Some(&self.entries[i].1)
            },
            None => None,
        }
    }

    /// Inserts `v` under `k`, and gives back the value that `k` held before, if any.
    pub fn insert(&mut self, k: String, v: V) -> (old_value: Option<V>)
        ensures
            final(self)@ == old(self)@.insert(k@, v),
            match old_value {
                Some(o) => {
                    &&& old(self)@.contains_key(k@)
                    &&& o == old(self)@[k@]
                    &&& final(self).names() == old(self).names()
                },
                None => {
                    &&& !old(self)@.contains_key(k@)
                    &&& final(self).names() == old(self).names().push(k@)
                },
            },
    {
        proof {
            use_type_invariant(&*self);
            lemma_map_of_dom(self.entries@, k@);
        }
        let pos = self.position(&k);
        let mut es: Vec<(String, V)> = Vec::new();
        std::mem::swap(&mut es, &mut self.entries);
        let ghost prev = es@;
        match pos {
            Some(i) => {
                proof {
                    lemma_map_of_value(prev, i as int);
                    lemma_map_of_update(prev, i as int, (k, v));
                }
                let mut e = (k, v);
                std::mem::swap(&mut es[i], &mut e);
                self.entries = es;
                Some(e.1)
            },
            None => {
                es.push((k, v));
                assert(es@.drop_last() == prev);
                assert(names_of(es@) == names_of(prev).push(k@));
                self.entries = es;
                None
            },
        }
    }
}

impl<V> NameMap<V> {
    /// The names are exactly the keys of the map, each once.
    pub proof fn lemma_names_are_keys(&self)
        ensures
            forall|k: Seq<char>| self@.contains_key(k) <==> self.names().contains(k),
    {
        assert forall|k: Seq<char>| self@.contains_key(k) <==> self.names().contains(k) by {
            lemma_map_of_dom(self.entries@, k);
        }
    }

    /// The names, in order, as strings.
    pub fn names_vec(&self) -> (r: Vec<String>)
        ensures
            r@.map_values(|s: String| s@) == self.names(),
    {
        let mut r: Vec<String> = Vec::new();
        let mut i: usize = 0;
        while i < self.entries.len()
            invariant
                i <= self.entries@.len(),
                r@.len() == i,
                forall|j: int| 0 <= j < i ==> #[trigger] r@[j]@ == self.entries@[j].0@,
            decreases self.entries@.len() - i,
        {
            r.push(self.entries[i].0.clone());
            i += 1;
        }
        assert(r@.map_values(|s: String| s@) =~= self.names());
        r
    }

    /// The name and value at position `i` of the name order.
    pub fn entry_at(&self, i: usize) -> (r: (&String, &V))
        requires
            i < self.names().len(),
        ensures
            r.0@ == self.names()[i as int],
            self@.contains_key(r.0@),
            *r.1 == self@[r.0@],
    {
        proof {
            use_type_invariant(self);
            lemma_map_of_value(self.entries@, i as int);
        }
        let e = &self.entries[i];
        (&e.0, &e.1)
    }
}

proof fn lemma_map_of_len<V>(es: Seq<(String, V)>)
    requires
        names_of(es).no_duplicates(),
    ensures
        map_of(es).len() == es.len(),
        map_of(es).dom().finite(),
    decreases es.len(),
{
    if es.len() > 0 {
        assert(names_of(es.drop_last()) == names_of(es).drop_last());
        lemma_map_of_len(es.drop_last());
        lemma_map_of_dom(es.drop_last(), es.last().0@);
        if names_of(es.drop_last()).contains(es.last().0@) {
            let j = choose|j: int|
                0 <= j < names_of(es.drop_last()).len() && names_of(es.drop_last())[j]
                    == es.last().0@;
            assert(names_of(es)[j] == names_of(es)[es.len() - 1]);
        }
    }
}

impl<V> View for NameMap<V> {
    type V = Map<Seq<char>, V>;

    closed spec fn view(&self) -> Map<Seq<char>, V> {
        map_of(self.entries@)
    }
}

} // verus!
