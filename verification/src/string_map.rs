//! A map from strings to strings that remembers the order in which keys
//! were first inserted; inserting an existing key replaces its value in
//! place. Keys never repeat.
use vstd::prelude::*;

verus! {

/// The position of key `k` in an association list, searching from the front.
pub open spec fn key_index(m: Seq<(Seq<char>, Seq<char>)>, k: Seq<char>) -> Option<int>
    decreases m.len(),
{
    if m.len() == 0 {
        None
    } else if m.last().0 == k && key_index(m.drop_last(), k) is None {
        Some(m.len() - 1)
    } else {
        key_index(m.drop_last(), k)
    }
}

/// Inserting `(k, v)`: an existing key keeps its place and takes the new
/// value, a new key goes to the end.
pub open spec fn assoc_insert(m: Seq<(Seq<char>, Seq<char>)>, k: Seq<char>, v: Seq<char>) -> Seq<(Seq<char>, Seq<char>)> {
    match key_index(m, k) {
        Some(i) => m.update(i, (k, v)),
        None => m.push((k, v)),
    }
}

/// No key occurs twice.
pub open spec fn keys_distinct(m: Seq<(Seq<char>, Seq<char>)>) -> bool {
    forall|i: int, j: int| 0 <= i < j < m.len() ==> m[i].0 != m[j].0
}

/// The map that an association list stands for.
pub open spec fn assoc_map(m: Seq<(Seq<char>, Seq<char>)>) -> Map<Seq<char>, Seq<char>>
    decreases m.len(),
{
    if m.len() == 0 {
        Map::empty()
    } else {
        assoc_map(m.drop_last()).insert(m.last().0, m.last().1)
    }
}

pub proof fn lemma_key_index(m: Seq<(Seq<char>, Seq<char>)>, k: Seq<char>)
    ensures
        match key_index(m, k) {
            Some(i) => 0 <= i < m.len() && m[i].0 == k && forall|j: int| 0 <= j < i ==> m[j].0 != k,
            None => forall|j: int| 0 <= j < m.len() ==> m[j].0 != k,
        },
    decreases m.len(),
{
    if m.len() > 0 {
        let p = m.drop_last();
        lemma_key_index(p, k);
        assert(forall|j: int| #![trigger p[j]] #![trigger m[j]] 0 <= j < p.len() ==> p[j] == m[j]);
    }
}

pub proof fn lemma_key_index_unique(m: Seq<(Seq<char>, Seq<char>)>, k: Seq<char>, i: int)
    requires
        0 <= i < m.len(),
        m[i].0 == k,
        forall|j: int| 0 <= j < i ==> m[j].0 != k,
    ensures
        key_index(m, k) == Some(i),
{
    lemma_key_index(m, k);
    match key_index(m, k) {
        Some(x) => {
            if x < i {
            } else if x > i {
            }
        },
        None => {},
    }
}

pub proof fn lemma_assoc_insert_distinct(m: Seq<(Seq<char>, Seq<char>)>, k: Seq<char>, v: Seq<char>)
    requires
        keys_distinct(m),
    ensures
        keys_distinct(assoc_insert(m, k, v)),
        assoc_insert(m, k, v).len() == if key_index(m, k) is Some { m.len() } else { m.len() + 1 },
{
    lemma_key_index(m, k);
}

pub proof fn lemma_assoc_map_distinct(m: Seq<(Seq<char>, Seq<char>)>)
    requires
        keys_distinct(m),
    ensures
        forall|i: int| 0 <= i < m.len() ==> assoc_map(m).contains_key(#[trigger] m[i].0) && assoc_map(m)[m[i].0] == m[i].1,
        forall|k: Seq<char>| assoc_map(m).contains_key(k) ==> exists|i: int| 0 <= i < m.len() && m[i].0 == k,
    decreases m.len(),
{
    if m.len() > 0 {
        let p = m.drop_last();
        assert(forall|j: int| #![trigger p[j]] #![trigger m[j]] 0 <= j < p.len() ==> p[j] == m[j]);
        assert(keys_distinct(p));
        lemma_assoc_map_distinct(p);
        assert forall|k: Seq<char>| assoc_map(m).contains_key(k) implies exists|i: int| 0 <= i < m.len() && m[i].0 == k by {
            if k != m.last().0 {
                assert(assoc_map(p).contains_key(k));
                let i = choose|i: int| 0 <= i < p.len() && p[i].0 == k;
                assert(m[i].0 == k);
            } else {
                assert(m[m.len() - 1].0 == k);
            }
        }
    }
}

/// Reading a key back after inserting it gives the inserted value, and the
/// other keys keep theirs.
pub proof fn law_assoc_insert_then_lookup(m: Seq<(Seq<char>, Seq<char>)>, k: Seq<char>, v: Seq<char>)
    requires
        keys_distinct(m),
    ensures
        assoc_map(assoc_insert(m, k, v)) == assoc_map(m).insert(k, v),
{
    lemma_key_index(m, k);
    lemma_assoc_insert_distinct(m, k, v);
    let n = assoc_insert(m, k, v);
    lemma_assoc_map_distinct(m);
    lemma_assoc_map_distinct(n);
    assert forall|x: Seq<char>| assoc_map(n).contains_key(x) <==> assoc_map(m).insert(k, v).contains_key(x) by {
        if assoc_map(n).contains_key(x) {
            let i = choose|i: int| 0 <= i < n.len() && n[i].0 == x;
            if x != k {
                assert(m[i].0 == x);
            }
        }
        if assoc_map(m).contains_key(x) {
            let i = choose|i: int| 0 <= i < m.len() && m[i].0 == x;
            if x != k {
                assert(n[i].0 == x);
            }
        }
        if x == k {
            match key_index(m, k) {
                Some(i) => { assert(n[i].0 == k); },
                None => { assert(n[m.len() as int].0 == k); },
            }
        }
    }
    assert forall|x: Seq<char>| #[trigger] assoc_map(n).contains_key(x) implies assoc_map(n)[x] == assoc_map(m).insert(k, v)[x] by {
        let i = choose|i: int| 0 <= i < n.len() && n[i].0 == x;
        if x != k {
            assert(m[i].0 == x);
        }
    }
    assert(assoc_map(n) =~= assoc_map(m).insert(k, v));
}

/// An ordered string-to-string map.
pub struct StringMap {
    entries: Vec<(String, String)>,
}

impl StringMap {
    /// The entries, in insertion order.
    pub closed spec fn view_entries(&self) -> Seq<(Seq<char>, Seq<char>)> {
        self.entries@.map_values(|e: (String, String)| (e.0@, e.1@))
    }

    #[verifier::type_invariant]
    spec fn inv(self) -> bool {
        keys_distinct(self.view_entries())
    }

    pub fn new() -> (r: StringMap)
        ensures
            r.view_entries() == Seq::<(Seq<char>, Seq<char>)>::empty(),
    {
        let r = StringMap { entries: Vec::new() };
        assert(r.view_entries() =~= Seq::<(Seq<char>, Seq<char>)>::empty());
        r
    }

    pub fn len(&self) -> (r: usize)
        ensures
            r == self.view_entries().len(),
    {
        self.entries.len()
    }

    pub fn is_empty(&self) -> (r: bool)
        ensures
            r == (self.view_entries().len() == 0),
    {
        self.entries.len() == 0
    }

    /// The entries in insertion order.
    pub fn entries(&self) -> (r: &Vec<(String, String)>)
        ensures
            r@.map_values(|e: (String, String)| (e.0@, e.1@)) == self.view_entries(),
            keys_distinct(self.view_entries()),
    {
        proof {
            use_type_invariant(self);
        }
        &self.entries
    }

    fn find(&self, k: &String) -> (r: Option<usize>)
        ensures
            match r {
                Some(i) => key_index(self.view_entries(), k@) == Some(i as int),
                None => key_index(self.view_entries(), k@) is None,
            },
    {
        let ghost m = self.view_entries();
        let mut i: usize = 0;
        while i < self.entries.len()
            invariant
                m == self.view_entries(),
                i <= self.entries.len() == m.len(),
                forall|j: int| 0 <= j < i ==> m[j].0 != k@,
            decreases self.entries.len() - i,
        {
            if self.entries[i].0 == *k {
                proof {
                    lemma_key_index_unique(m, k@, i as int);
                }
                return Some(i);
            }
            i = i + 1;
        }
        proof {
            lemma_key_index(m, k@);
            match key_index(m, k@) {
                Some(x) => { assert(m[x].0 == k@); },
                None => {},
            }
        }
        None
    }

    /// The value stored under `k`, if any.
    pub fn get(&self, k: &String) -> (r: Option<&String>)
        ensures
            match r {
                Some(v) => assoc_map(self.view_entries()).contains_key(k@) && assoc_map(self.view_entries())[k@] == v@,
                None => !assoc_map(self.view_entries()).contains_key(k@),
            },
    {
        proof {
            use_type_invariant(self);
            lemma_assoc_map_distinct(self.view_entries());
            lemma_key_index(self.view_entries(), k@);
        }
        match self.find(k) {
            Some(i) => Some(&self.entries[i].1),
            None => {
                proof {
                    if assoc_map(self.view_entries()).contains_key(k@) {
                        let j = choose|j: int| 0 <= j < self.view_entries().len() && self.view_entries()[j].0 == k@;
                    }
                }
                None
            },
        }
    }

    /// Inserts `(k, v)`, replacing the value of an existing key in place.
    pub fn insert(&mut self, k: String, v: String)
        ensures
            final(self).view_entries() == assoc_insert(old(self).view_entries(), k@, v@),
            keys_distinct(final(self).view_entries()),
    {
        proof {
            use_type_invariant(&*self);
        }
        let ghost m = self.view_entries();
        match self.find(&k) {
            Some(i) => {
                let mut entries: Vec<(String, String)> = Vec::new();
                std::mem::swap(&mut entries, &mut self.entries);
                proof {
                    lemma_key_index(m, k@);
                }
                entries.set(i, (k, v));
                proof {
                    lemma_assoc_insert_distinct(m, k@, v@);
                    assert(entries@.map_values(|e: (String, String)| (e.0@, e.1@)) =~= assoc_insert(m, k@, v@));
                }
                self.entries = entries;
            },
            None => {
                let mut entries: Vec<(String, String)> = Vec::new();
                std::mem::swap(&mut entries, &mut self.entries);
                entries.push((k, v));
                proof {
                    lemma_assoc_insert_distinct(m, k@, v@);
                    assert(entries@.map_values(|e: (String, String)| (e.0@, e.1@)) =~= assoc_insert(m, k@, v@));
                }
                self.entries = entries;
            },
        }
    }
}

} // verus!
