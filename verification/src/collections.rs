//! Small association maps and sets keyed by values with an exact equality,
//! used for the checker's scopes and declaration tables.

use vstd::prelude::*;

verus! {

/// A value that can be copied with the same view.
pub trait Duplicate: View + Sized {
    fn duplicate(&self) -> (r: Self)
        ensures
            r@ == self@,
    ;
}

/// A key whose equality is decided by its view.
pub trait Key: Duplicate {
    fn key_eq(&self, other: &Self) -> (r: bool)
        ensures
            r == (self@ == other@),
    ;
}

impl Duplicate for String {
    fn duplicate(&self) -> (r: String) {
        self.clone()
    }
}

impl Key for String {
    fn key_eq(&self, other: &Self) -> (r: bool) {
        *self == *other
    }
}

impl Duplicate for (String, String) {
    fn duplicate(&self) -> (r: (String, String)) {
        (self.0.clone(), self.1.clone())
    }
}

impl Key for (String, String) {
    fn key_eq(&self, other: &Self) -> (r: bool) {
        self.0 == other.0 && self.1 == other.1
    }
}

impl Duplicate for Vec<(String, String)> {
    fn duplicate(&self) -> (r: Vec<(String, String)>) {
        let mut out: Vec<(String, String)> = Vec::new();
        let mut i: usize = 0;
        while i < self.len()
            invariant
                i <= self.len(),
                out@.len() == i,
                forall|j: int| 0 <= j < i ==> #[trigger] out@[j] == self@[j],
            decreases self.len() - i,
        {
            out.push((self[i].0.clone(), self[i].1.clone()));
            i += 1;
        }
        assert(out@ =~= self@);
        out
    }
}

impl Duplicate for Vec<String> {
    fn duplicate(&self) -> (r: Vec<String>) {
        let mut out: Vec<String> = Vec::new();
        let mut i: usize = 0;
        while i < self.len()
            invariant
                i <= self.len(),
                out@.len() == i,
                forall|j: int| 0 <= j < i ==> #[trigger] out@[j] == self@[j],
            decreases self.len() - i,
        {
            out.push(self[i].clone());
            i += 1;
        }
        assert(out@ =~= self@);
        out
    }
}

/// An association list with distinct keys, viewed as a finite map.
pub struct AssocMap<K, V> {
    entries: Vec<(K, V)>,
}

impl<K: Key, V: Duplicate> AssocMap<K, V> {
    /// No key occurs twice.
    pub closed spec fn wf(&self) -> bool {
        forall|i: int, j: int|
            0 <= i < self.entries@.len() && 0 <= j < self.entries@.len() && i != j
                ==> #[trigger] self.entries@[i].0@ != #[trigger] self.entries@[j].0@
    }

    /// The entries in insertion order, by view.
    pub closed spec fn key_seq(&self) -> Seq<K::V> {
        self.entries@.map_values(|e: (K, V)| e.0@)
    }

    pub closed spec fn has(&self, k: K::V) -> bool {
        exists|i: int| 0 <= i < self.entries@.len() && #[trigger] self.entries@[i].0@ == k
    }

    pub closed spec fn at(&self, k: K::V) -> V::V {
        self.entries@[choose|i: int| 0 <= i < self.entries@.len() && #[trigger] self.entries@[i].0@ == k].1@
    }

    pub open spec fn view(&self) -> Map<K::V, V::V> {
        Map::new(|k: K::V| self.has(k), |k: K::V| self.at(k))
    }

    pub fn new() -> (m: Self)
        ensures
            m.wf(),
            m.view() == Map::<K::V, V::V>::empty(),
            m.key_seq() == Seq::<K::V>::empty(),
    {
        let m = AssocMap { entries: Vec::new() };
        assert(m.view() =~= Map::<K::V, V::V>::empty());
        assert(m.key_seq() =~= Seq::<K::V>::empty());
        m
    }

    pub fn len(&self) -> (n: usize)
        ensures
            n == self.key_seq().len(),
    {
        self.entries.len()
    }

    fn find(&self, k: &K) -> (r: Option<usize>)
        requires
            self.wf(),
        ensures
            r matches Some(i) ==> i < self.entries@.len() && self.entries@[i as int].0@ == k@,
            r is None ==> !self.has(k@),
    {
        let mut i: usize = 0;
        while i < self.entries.len()
            invariant
                i <= self.entries@.len(),
                forall|j: int| 0 <= j < i ==> #[trigger] self.entries@[j].0@ != k@,
            decreases self.entries.len() - i,
        {
            if self.entries[i].0.key_eq(k) {
                return Some(i);
            }
            i += 1;
        }
        None
    }

    proof fn lemma_at_index(&self, i: int)
        requires
            self.wf(),
            0 <= i < self.entries@.len(),
        ensures
            self.has(self.entries@[i].0@),
            self.at(self.entries@[i].0@) == self.entries@[i].1@,
    {
        let k = self.entries@[i].0@;
        assert(self.entries@[i].0@ == k);
        let j = choose|j: int| 0 <= j < self.entries@.len() && #[trigger] self.entries@[j].0@ == k;
        assert(j == i);
    }

    pub fn contains_key(&self, k: &K) -> (r: bool)
        requires
            self.wf(),
        ensures
            r == self.view().dom().contains(k@),
    {
        match self.find(k) {
            Some(i) => {
                proof {
                    self.lemma_at_index(i as int);
                }
                true
            },
            None => false,
        }
    }

    pub fn get(&self, k: &K) -> (r: Option<&V>)
        requires
            self.wf(),
        ensures
            r is Some == self.view().dom().contains(k@),
            r matches Some(v) ==> v@ == self.view()[k@],
    {
        match self.find(k) {
            Some(i) => {
                proof {
                    self.lemma_at_index(i as int);
                }
                Some(&self.entries[i].1)
            },
            None => None,
        }
    }

    /// Binds `k` to `v`, replacing an earlier binding of `k` in place.
    pub fn insert(&mut self, k: K, v: V)
        requires
            old(self).wf(),
        ensures
            final(self).wf(),
            final(self).view() == old(self).view().insert(k@, v@),
            old(self).view().dom().contains(k@) ==> final(self).key_seq() == old(self).key_seq(),
            !old(self).view().dom().contains(k@) ==> final(self).key_seq() == old(self).key_seq().push(k@),
    {
        let ghost kv = k@;
        let ghost vv = v@;
        match self.find(&k) {
            Some(i) => {
                let ghost before = self.entries@;
                self.entries.set(i, (k, v));
                proof {
                    assert forall|a: int, b: int|
                        0 <= a < self.entries@.len() && 0 <= b < self.entries@.len() && a != b
                        implies #[trigger] self.entries@[a].0@ != #[trigger] self.entries@[b].0@ by {
                        assert(before[a].0@ != before[b].0@);
                    }
                    self.lemma_at_index(i as int);
                    assert forall|key: K::V| #![auto] self.view().dom().contains(key) <==> old(self).view().insert(kv, vv).dom().contains(key) by {
                        if self.has(key) {
                            let j = choose|j: int| 0 <= j < self.entries@.len() && #[trigger] self.entries@[j].0@ == key;
                            if j != i {
                                assert(before[j].0@ == key);
                            }
                        }
                        if old(self).has(key) {
                            let j = choose|j: int| 0 <= j < before.len() && #[trigger] before[j].0@ == key;
                            if j != i {
                                assert(self.entries@[j].0@ == key);
                            }
                        }
                    }
                    assert forall|key: K::V| #![auto] self.view().dom().contains(key) implies self.view()[key] == old(self).view().insert(kv, vv)[key] by {
                        if key != kv {
                            let j = choose|j: int| 0 <= j < self.entries@.len() && #[trigger] self.entries@[j].0@ == key;
                            assert(j != i);
                            self.lemma_at_index(j);
                            old(self).lemma_at_index(j);
                        }
                    }
                    assert(self.view() =~= old(self).view().insert(kv, vv));
                    assert(self.key_seq() =~= old(self).key_seq());
                }
            },
            None => {
                let ghost before = self.entries@;
                self.entries.push((k, v));
                proof {
                    let n = before.len() as int;
                    assert forall|a: int, b: int|
                        0 <= a < self.entries@.len() && 0 <= b < self.entries@.len() && a != b
                        implies #[trigger] self.entries@[a].0@ != #[trigger] self.entries@[b].0@ by {
                        if a < n && b < n {
                            assert(before[a].0@ != before[b].0@);
                        } else if a == n {
                            assert(self.entries@[b] == before[b]);
                            if before[b].0@ == kv {
                                assert(old(self).has(kv));
                            }
                        } else {
                            assert(self.entries@[a] == before[a]);
                            if before[a].0@ == kv {
                                assert(old(self).has(kv));
                            }
                        }
                    }
                    self.lemma_at_index(n);
                    assert forall|key: K::V| #![auto] self.view().dom().contains(key) <==> old(self).view().insert(kv, vv).dom().contains(key) by {
                        if self.has(key) {
                            let j = choose|j: int| 0 <= j < self.entries@.len() && #[trigger] self.entries@[j].0@ == key;
                            if j != n {
                                assert(before[j].0@ == key);
                            }
                        }
                        if old(self).has(key) {
                            let j = choose|j: int| 0 <= j < before.len() && #[trigger] before[j].0@ == key;
                            assert(self.entries@[j].0@ == key);
                        }
                    }
                    assert forall|key: K::V| #![auto] self.view().dom().contains(key) implies self.view()[key] == old(self).view().insert(kv, vv)[key] by {
                        if key != kv {
                            let j = choose|j: int| 0 <= j < self.entries@.len() && #[trigger] self.entries@[j].0@ == key;
                            assert(j != n);
                            self.lemma_at_index(j);
                            old(self).lemma_at_index(j);
                        }
                    }
                    assert(self.view() =~= old(self).view().insert(kv, vv));
                    assert(self.key_seq() =~= old(self).key_seq().push(kv));
                }
            },
        }
    }

    /// The key at position `i` of the insertion order.
    pub fn key_at(&self, i: usize) -> (r: &K)
        requires
            i < self.key_seq().len(),
        ensures
            r@ == self.key_seq()[i as int],
    {
        &self.entries[i].0
    }

    /// A copy with the same view and order.
    pub fn copy(&self) -> (r: Self)
        requires
            self.wf(),
        ensures
            r.wf(),
            r.view() == self.view(),
            r.key_seq() == self.key_seq(),
    {
        let mut out: Vec<(K, V)> = Vec::new();
        let mut i: usize = 0;
        while i < self.entries.len()
            invariant
                i <= self.entries@.len(),
                out@.len() == i,
                forall|j: int| 0 <= j < i ==> #[trigger] out@[j].0@ == self.entries@[j].0@ && out@[j].1@ == self.entries@[j].1@,
            decreases self.entries.len() - i,
        {
            out.push((self.entries[i].0.duplicate(), self.entries[i].1.duplicate()));
            i += 1;
        }
        let r = AssocMap { entries: out };
        proof {
            assert forall|a: int, b: int|
                0 <= a < r.entries@.len() && 0 <= b < r.entries@.len() && a != b
                implies #[trigger] r.entries@[a].0@ != #[trigger] r.entries@[b].0@ by {
                assert(self.entries@[a].0@ != self.entries@[b].0@);
            }
            assert forall|key: K::V| #![auto] r.view().dom().contains(key) <==> self.view().dom().contains(key) by {
                if r.has(key) {
                    let j = choose|j: int| 0 <= j < r.entries@.len() && #[trigger] r.entries@[j].0@ == key;
                    assert(self.entries@[j].0@ == key);
                }
                if self.has(key) {
                    let j = choose|j: int| 0 <= j < self.entries@.len() && #[trigger] self.entries@[j].0@ == key;
                    assert(r.entries@[j].0@ == key);
                }
            }
            assert forall|key: K::V| #![auto] r.view().dom().contains(key) implies r.view()[key] == self.view()[key] by {
                let j = choose|j: int| 0 <= j < r.entries@.len() && #[trigger] r.entries@[j].0@ == key;
                r.lemma_at_index(j);
                self.lemma_at_index(j);
            }
            assert(r.view() =~= self.view());
            assert(r.key_seq() =~= self.key_seq());
        }
        r
    }
}

/// References to the elements of `v`, in order.
pub fn refs_of<'a, T>(v: &'a Vec<T>) -> (r: Vec<&'a T>)
    ensures
        r@.len() == v@.len(),
        forall|i: int| 0 <= i < v@.len() ==> *#[trigger] r@[i] == v@[i],
{
    let mut r: Vec<&'a T> = Vec::new();
    let mut i: usize = 0;
    while i < v.len()
        invariant
            i <= v@.len(),
            r@.len() == i,
            forall|j: int| 0 <= j < i ==> *#[trigger] r@[j] == v@[j],
        decreases v.len() - i,
    {
        r.push(&v[i]);
        i += 1;
    }
    r
}

} // verus!
