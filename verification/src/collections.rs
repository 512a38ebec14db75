//! An insertion-ordered map used by the registries of the library.
//!
//! Registries keep their entries in the order in which keys were first
//! inserted, so that listings (class names, property names, ...) are
//! deterministic, and no key occurs twice.
use vstd::prelude::*;

verus! {

/// Keys that can be compared and copied with a known effect on their view.
pub trait MapKey: Sized + View {
    fn key_eq(&self, other: &Self) -> (r: bool)
        ensures
            r == (self@ == other@);

    fn key_clone(&self) -> (r: Self)
        ensures
            r@ == self@;
}

impl MapKey for String {
    fn key_eq(&self, other: &Self) -> (r: bool) {
        *self == *other
    }

    fn key_clone(&self) -> (r: Self) {
        self.clone()
    }
}

impl MapKey for u64 {
    fn key_eq(&self, other: &Self) -> (r: bool) {
        *self == *other
    }

    fn key_clone(&self) -> (r: Self) {
        *self
    }
}

impl MapKey for u32 {
    fn key_eq(&self, other: &Self) -> (r: bool) {
        *self == *other
    }

    fn key_clone(&self) -> (r: Self) {
        *self
    }
}

/// A finite map whose keys are listed in first-insertion order without duplicates.
pub struct AssocMap<K: MapKey, V> {
    entries: Vec<(K, V)>,
}

impl<K: MapKey, V> View for AssocMap<K, V> {
    type V = Map<K::V, V>;

    closed spec fn view(&self) -> Map<K::V, V> {
        Map::new(
            |k: K::V| self.key_seq().contains(k),
            |k: K::V| self.entries@[self.key_seq().index_of(k)].1,
        )
    }
}

impl<K: MapKey, V> AssocMap<K, V> {
    /// The map's well-formedness: no key occurs twice.
    #[verifier::type_invariant]
    pub closed spec fn inv(self) -> bool {
        self.key_seq().no_duplicates()
    }

    /// A well-formed map lists each key once.
    pub proof fn lemma_keys_distinct(self)
        requires
            self.inv(),
        ensures
            self.key_seq().no_duplicates(),
    {
    }

    /// The keys of the map, in first-insertion order.
    pub closed spec fn key_seq(self) -> Seq<K::V> {
        self.entries@.map_values(|e: (K, V)| e.0@)
    }

    /// The keys of the map form its domain.
    pub broadcast proof fn lemma_dom(self)
        ensures
            #[trigger] self@.dom() == self.key_seq().to_set(),
    {
        assert(self@.dom() =~= self.key_seq().to_set());
    }

    proof fn lemma_value_at(self, i: int)
        requires
            self.key_seq().no_duplicates(),
            0 <= i < self.entries@.len(),
        ensures
            self@.contains_key(self.entries@[i].0@),
            self@[self.entries@[i].0@] == self.entries@[i].1,
            self.key_seq()[i] == self.entries@[i].0@,
    {
        let k = self.entries@[i].0@;
        assert(self.key_seq()[i] == k);
        assert(self.key_seq().contains(k));
        let j = self.key_seq().index_of(k);
        assert(self.key_seq()[j] == k);
    }

    pub fn new() -> (m: Self)
        ensures
            m@ == Map::<K::V, V>::empty(),
            m.key_seq() == Seq::<K::V>::empty(),
    {
        let m = AssocMap { entries: Vec::new() };
        assert(m@ =~= Map::<K::V, V>::empty());
        assert(m.key_seq() =~= Seq::<K::V>::empty());
        m
    }

    /// Number of entries.
    pub fn len(&self) -> (n: usize)
        ensures
            n == self.key_seq().len(),
            n == self@.len(),
            self.key_seq().no_duplicates(),
    {
        proof {
            use_type_invariant(self);
            self.key_seq().unique_seq_to_set();
            self.lemma_dom();
        }
        self.entries.len()
    }

    fn find(&self, k: &K) -> (r: Option<usize>)
        ensures
            match r {
                Some(i) => i < self.entries@.len() && self.entries@[i as int].0@ == k@,
                None => !self.key_seq().contains(k@),
            },
    {
        let n = self.entries.len();
        let mut i: usize = 0;
        while i < n
            invariant
                n == self.entries@.len(),
                i <= n,
                forall|j: int| 0 <= j < i ==> self.entries@[j].0@ != k@,
            decreases n - i,
        {
            if self.entries[i].0.key_eq(k) {
                return Some(i);
            }
            i = i + 1;
        }
        proof {
            if self.key_seq().contains(k@) {
                let j = choose|j: int| 0 <= j < self.key_seq().len() && self.key_seq()[j] == k@;
                assert(self.entries@[j].0@ == k@);
            }
        }
        None
    }

    pub fn contains_key(&self, k: &K) -> (r: bool)
        ensures
            r == self@.contains_key(k@),
    {
        match self.find(k) {
            Some(i) => {
                proof {
                    assert(self.key_seq()[i as int] == k@);
                }
                true
            },
            None => false,
        }
    }

    pub fn get(&self, k: &K) -> (r: Option<&V>)
        ensures
            match r {
                Some(v) => self@.contains_key(k@) && *v == self@[k@],
                None => !self@.contains_key(k@),
            },
    {
        proof {
            use_type_invariant(self);
        }
        match self.find(k) {
            Some(i) => {
                proof {
                    self.lemma_value_at(i as int);
                }
                Some(&self.entries[i].1)
            },
            None => None,
        }
    }

    /// The key and value stored at position `i` of the key order.
    pub fn entry_at(&self, i: usize) -> (r: (&K, &V))
        requires
            i < self.key_seq().len(),
        ensures
            r.0@ == self.key_seq()[i as int],
            self@.contains_key(r.0@),
            *r.1 == self@[r.0@],
    {
        proof {
            use_type_invariant(self);
            self.lemma_value_at(i as int);
        }
        (&self.entries[i].0, &self.entries[i].1)
    }

    /// Inserts or replaces the value of a key; a new key goes to the end of the key order.
    pub fn insert(&mut self, k: K, v: V)
        ensures
            final(self)@ == old(self)@.insert(k@, v),
            final(self).key_seq() == (if old(self)@.contains_key(k@) {
                old(self).key_seq()
            } else {
                old(self).key_seq().push(k@)
            }),
    {
        proof {
            use_type_invariant(&*self);
        }
        let ghost old_self = *self;
        let ghost kv = k@;
        match self.find(&k) {
            Some(i) => {
                proof {
                    assert(old_self.key_seq()[i as int] == kv);
                }
                let mut entries: Vec<(K, V)> = Vec::new();
                std::mem::swap(&mut entries, &mut self.entries);
                entries.set(i, (k, v));
                proof {
                    let ks = entries@.map_values(|e: (K, V)| e.0@);
                    assert(ks =~= old_self.key_seq());
                }
                self.entries = entries;
                proof {
                    assert(self.key_seq() =~= old_self.key_seq());
                    assert(self.key_seq().no_duplicates());
                    assert forall|q: K::V| #![auto] self@.contains_key(q) implies self@[q] == old_self@.insert(kv, v)[q] by {
                        let j = self.key_seq().index_of(q);
                        assert(self.key_seq()[j] == q);
                        if q == kv {
                            assert(j == i);
                        } else {
                            let jo = old_self.key_seq().index_of(q);
                            assert(old_self.key_seq()[jo] == q);
                            assert(j == jo);
                        }
                    }
                    assert(self@ =~= old_self@.insert(kv, v));
                }
            },
            None => {
                let mut entries: Vec<(K, V)> = Vec::new();
                std::mem::swap(&mut entries, &mut self.entries);
                entries.push((k, v));
                proof {
                    let ks = entries@.map_values(|e: (K, V)| e.0@);
                    assert(ks =~= old_self.key_seq().push(kv));
                    let n = old_self.entries@.len();
                    assert forall|a: int, b: int| 0 <= a < b < ks.len() implies ks[a] != ks[b] by {
                        if b == n {
                            assert(old_self.key_seq()[a] == ks[a]);
                            assert(old_self.key_seq().contains(ks[a]));
                        } else {
                            assert(old_self.key_seq()[a] == ks[a]);
                            assert(old_self.key_seq()[b] == ks[b]);
                        }
                    }
                }
                self.entries = entries;
                proof {
                    assert(self.key_seq() =~= old_self.key_seq().push(kv));
                    let n = old_self.entries@.len();
                    assert forall|a: int, b: int| 0 <= a < b < self.key_seq().len() implies self.key_seq()[a] != self.key_seq()[b] by {
                        if b == n {
                            assert(old_self.key_seq()[a] == self.key_seq()[a]);
                        }
                    }
                    assert forall|q: K::V| self@.contains_key(q) <==> old_self@.insert(kv, v).contains_key(q) by {
                        if self.key_seq().contains(q) {
                            let a = choose|a: int| 0 <= a < self.key_seq().len() && self.key_seq()[a] == q;
                            if a < n {
                                assert(old_self.key_seq()[a] == q);
                            }
                        }
                        if old_self.key_seq().contains(q) {
                            let a = choose|a: int| 0 <= a < old_self.key_seq().len() && old_self.key_seq()[a] == q;
                            assert(self.key_seq()[a] == q);
                        }
                        if q == kv {
                            assert(self.key_seq()[n as int] == q);
                        }
                    }
                    assert forall|q: K::V| #![auto] self@.contains_key(q) implies self@[q] == old_self@.insert(kv, v)[q] by {
                        let j = self.key_seq().index_of(q);
                        assert(self.key_seq()[j] == q);
                        if q == kv {
                            assert(j == n);
                        } else {
                            let jo = old_self.key_seq().index_of(q);
                            assert(old_self.key_seq()[jo] == q);
                            assert(self.key_seq()[jo] == q);
                            assert(j == jo);
                        }
                    }
                    assert(self@ =~= old_self@.insert(kv, v));
                }
            },
        }
    }

    /// Replaces the value of a key that is present, returning the value it had;
    /// the key order is unchanged. Nothing changes for a key that is absent.
    pub fn swap_value(&mut self, k: &K, v: V) -> (r: Option<V>)
        ensures
            old(self)@.contains_key(k@) ==> r == Some(old(self)@[k@]) && final(self)@ == old(self)@.insert(k@, v),
            !old(self)@.contains_key(k@) ==> r is None && final(self)@ == old(self)@,
            final(self).key_seq() == old(self).key_seq(),
    {
        proof {
            use_type_invariant(&*self);
        }
        let ghost old_self = *self;
        let ghost kv = k@;
        match self.find(k) {
            Some(i) => {
                proof {
                    old_self.lemma_value_at(i as int);
                }
                let mut entries: Vec<(K, V)> = Vec::new();
                std::mem::swap(&mut entries, &mut self.entries);
                let (key, old_v) = entries.remove(i);
                entries.insert(i, (key, v));
                proof {
                    let ks = entries@.map_values(|e: (K, V)| e.0@);
                    assert forall|a: int| 0 <= a < ks.len() implies ks[a] == old_self.key_seq()[a] by {
                        if a != i {
                            assert(entries@[a] == old_self.entries@[a]);
                        }
                    }
                    assert(ks =~= old_self.key_seq());
                }
                self.entries = entries;
                proof {
                    assert(self.key_seq() =~= old_self.key_seq());
                    assert(self.key_seq().no_duplicates());
                    assert forall|q: K::V| #![auto] self@.contains_key(q) implies self@[q] == old_self@.insert(kv, v)[q] by {
                        let j = self.key_seq().index_of(q);
                        assert(self.key_seq()[j] == q);
                        if q == kv {
                            assert(j == i);
                        } else {
                            let jo = old_self.key_seq().index_of(q);
                            assert(old_self.key_seq()[jo] == q);
                            assert(j == jo);
                            assert(self.entries@[j] == old_self.entries@[j]);
                        }
                    }
                    assert(self@ =~= old_self@.insert(kv, v));
                }
                Some(old_v)
            },
            None => None,
        }
    }

    /// Removes a key, returning its value.
    pub fn remove(&mut self, k: &K) -> (r: Option<V>)
        ensures
            old(self)@.contains_key(k@) ==> r == Some(old(self)@[k@]),
            !old(self)@.contains_key(k@) ==> r is None,
            final(self)@ == old(self)@.remove(k@),
            final(self).key_seq() == (if old(self)@.contains_key(k@) {
                old(self).key_seq().remove(old(self).key_seq().index_of(k@))
            } else {
                old(self).key_seq()
            }),
    {
        proof {
            use_type_invariant(&*self);
        }
        let ghost old_self = *self;
        let ghost kv = k@;
        match self.find(k) {
            Some(i) => {
                proof {
                    old_self.lemma_value_at(i as int);
                    let j = old_self.key_seq().index_of(kv);
                    assert(old_self.key_seq()[j] == kv);
                    assert(j == i);
                }
                let mut entries: Vec<(K, V)> = Vec::new();
                std::mem::swap(&mut entries, &mut self.entries);
                let (_, v) = entries.remove(i);
                proof {
                    let ks = entries@.map_values(|e: (K, V)| e.0@);
                    assert(ks =~= old_self.key_seq().remove(i as int));
                    assert forall|a: int, b: int| 0 <= a < b < ks.len() implies ks[a] != ks[b] by {
                        let oa = if a < i { a } else { a + 1 };
                        let ob = if b < i { b } else { b + 1 };
                        assert(ks[a] == old_self.key_seq()[oa]);
                        assert(ks[b] == old_self.key_seq()[ob]);
                    }
                }
                self.entries = entries;
                proof {
                    assert(self.key_seq() =~= old_self.key_seq().remove(i as int));
                    let n = old_self.entries@.len();
                    assert forall|a: int| 0 <= a < self.key_seq().len() implies (#[trigger] self.key_seq()[a]) == old_self.key_seq()[if a < i { a } else { a + 1 }] by {}
                    assert forall|a: int, b: int| 0 <= a < b < self.key_seq().len() implies self.key_seq()[a] != self.key_seq()[b] by {
                        let oa = if a < i { a } else { a + 1 };
                        let ob = if b < i { b } else { b + 1 };
                        assert(self.key_seq()[a] == old_self.key_seq()[oa]);
                        assert(self.key_seq()[b] == old_self.key_seq()[ob]);
                    }
                    assert forall|q: K::V| self@.contains_key(q) <==> old_self@.remove(kv).contains_key(q) by {
                        if self.key_seq().contains(q) {
                            let a = choose|a: int| 0 <= a < self.key_seq().len() && self.key_seq()[a] == q;
                            let oa = if a < i { a } else { a + 1 };
                            assert(old_self.key_seq()[oa] == q);
                            assert(q != kv);
                        }
                        if old_self.key_seq().contains(q) && q != kv {
                            let oa = choose|oa: int| 0 <= oa < old_self.key_seq().len() && old_self.key_seq()[oa] == q;
                            assert(oa != i);
                            let a = if oa < i { oa } else { oa - 1 };
                            assert(self.key_seq()[a] == q);
                        }
                    }
                    assert forall|q: K::V| #![auto] self@.contains_key(q) implies self@[q] == old_self@.remove(kv)[q] by {
                        let a = self.key_seq().index_of(q);
                        assert(self.key_seq()[a] == q);
                        let oa = if a < i { a } else { a + 1 };
                        assert(old_self.key_seq()[oa] == q);
                        let jo = old_self.key_seq().index_of(q);
                        assert(old_self.key_seq()[jo] == q);
                        assert(jo == oa);
                    }
                    assert(self@ =~= old_self@.remove(kv));
                }
                Some(v)
            },
            None => {
                proof {
                    assert(old_self@ =~= old_self@.remove(kv));
                }
                None
            },
        }
    }

    /// All keys, in first-insertion order.
    pub fn keys(&self) -> (r: Vec<K>)
        ensures
            r@.map_values(|x: K| x@) == self.key_seq(),
            self.key_seq().no_duplicates(),
    {
        proof {
            use_type_invariant(self);
        }
        let n = self.entries.len();
        let mut out: Vec<K> = Vec::new();
        let mut i: usize = 0;
        while i < n
            invariant
                n == self.entries@.len(),
                i <= n,
                out@.len() == i,
                forall|j: int| 0 <= j < i ==> (#[trigger] out@[j])@ == self.entries@[j].0@,
            decreases n - i,
        {
            out.push(self.entries[i].0.key_clone());
            i = i + 1;
        }
        assert(out@.map_values(|x: K| x@) =~= self.key_seq());
        out
    }
}

/// Values that can be copied exactly.
pub trait Duplicate: Sized {
    fn duplicate(&self) -> (r: Self)
        ensures
            r == *self,
    ;
}

impl Duplicate for u64 {
    fn duplicate(&self) -> (r: Self) {
        *self
    }
}

impl<K: MapKey, V: Duplicate> AssocMap<K, V> {
    /// A copy of the map, with the same keys in the same order and the same values.
    pub fn duplicate_map(&self) -> (r: Self)
        ensures
            r@ == self@,
            r.key_seq() == self.key_seq(),
    {
        proof {
            use_type_invariant(self);
        }
        let n = self.entries.len();
        let mut out: Vec<(K, V)> = Vec::new();
        let mut i: usize = 0;
        while i < n
            invariant
                n == self.entries@.len(),
                i <= n,
                out@.len() == i,
                forall|j: int| 0 <= j < i ==> (#[trigger] out@[j]).0@ == self.entries@[j].0@
                    && out@[j].1 == self.entries@[j].1,
            decreases n - i,
        {
            out.push((self.entries[i].0.key_clone(), self.entries[i].1.duplicate()));
            i = i + 1;
        }
        assert(out@.map_values(|e: (K, V)| e.0@) =~= self.key_seq());
        let r = AssocMap { entries: out };
        assert(r.key_seq() =~= self.key_seq());
        assert(r@ =~= self@);
        r
    }
}

/// Filtering keeps a sequence whose elements all pass.
pub proof fn lemma_filter_all<A>(s: Seq<A>, p: spec_fn(A) -> bool)
    requires
        forall|i: int| 0 <= i < s.len() ==> p(#[trigger] s[i]),
    ensures
        s.filter(p) == s,
    decreases s.len(),
{
    reveal(Seq::filter);
    if s.len() > 0 {
        lemma_filter_all(s.drop_last(), p);
        assert(s.drop_last().push(s.last()) =~= s);
    }
}

/// Filtering a sequence with an element pushed that fails is filtering the sequence.
pub proof fn lemma_filter_push_fail<A>(s: Seq<A>, x: A, p: spec_fn(A) -> bool)
    requires
        !p(x),
    ensures
        s.push(x).filter(p) == s.filter(p),
{
    reveal(Seq::filter);
    assert(s.push(x).drop_last() =~= s);
}


/// Filtering keeps elements with distinct keys distinct, and takes each
/// element from the sequence.
pub proof fn lemma_filter_distinct<A, B>(s: Seq<A>, p: spec_fn(A) -> bool, key: spec_fn(A) -> B)
    requires
        forall|i: int, j: int| 0 <= i < j < s.len() ==> key(#[trigger] s[i]) != key(#[trigger] s[j]),
    ensures
        forall|i: int, j: int| 0 <= i < j < s.filter(p).len() ==>
            key(#[trigger] s.filter(p)[i]) != key(#[trigger] s.filter(p)[j]),
        forall|i: int| 0 <= i < s.filter(p).len() ==> exists|k: int| 0 <= k < s.len() && #[trigger] s.filter(p)[i] == s[k],
    decreases s.len(),
{
    reveal(Seq::filter);
    if s.len() > 0 {
        let t = s.drop_last();
        lemma_filter_distinct(t, p, key);
        let ft = t.filter(p);
        let f = s.filter(p);
        assert forall|i: int| 0 <= i < ft.len() implies exists|k: int| 0 <= k < s.len() && #[trigger] ft[i] == s[k] by {
            let k = choose|k: int| 0 <= k < t.len() && ft[i] == t[k];
            assert(ft[i] == s[k]);
        }
        if p(s.last()) {
            assert(f == ft.push(s.last()));
            assert forall|i: int, j: int| 0 <= i < j < f.len() implies key(#[trigger] f[i]) != key(#[trigger] f[j]) by {
                if j == f.len() - 1 {
                    let k = choose|k: int| 0 <= k < t.len() && ft[i] == t[k];
                    assert(f[i] == s[k]);
                    assert(f[j] == s[s.len() - 1]);
                } else {
                    assert(f[i] == ft[i]);
                    assert(f[j] == ft[j]);
                }
            }
            assert forall|i: int| 0 <= i < f.len() implies exists|k: int| 0 <= k < s.len() && #[trigger] f[i] == s[k] by {
                if i == f.len() - 1 {
                    assert(f[i] == s[s.len() - 1]);
                } else {
                    assert(f[i] == ft[i]);
                }
            }
        } else {
            assert(f == ft);
        }
    }
}

} // verus!
