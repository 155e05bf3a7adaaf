use vstd::prelude::*;

verus! {

/// A key of a [`KeyedMap`]: a value with a mathematical key and an executable
/// comparison that agrees with it.
pub trait MapKey: Sized {
    type Key;

    spec fn key(&self) -> Self::Key;

    fn same_key(&self, other: &Self) -> (r: bool)
        ensures
            r == (self.key() == other.key()),
    ;
}

impl MapKey for char {
    type Key = char;

    open spec fn key(&self) -> char {
        *self
    }

    fn same_key(&self, other: &Self) -> (r: bool) {
        *self == *other
    }
}

impl MapKey for String {
    type Key = Seq<char>;

    open spec fn key(&self) -> Seq<char> {
        self@
    }

    fn same_key(&self, other: &Self) -> (r: bool) {
        *self == *other
    }
}

impl MapKey for (i32, i32) {
    type Key = (i32, i32);

    open spec fn key(&self) -> (i32, i32) {
        *self
    }

    fn same_key(&self, other: &Self) -> (r: bool) {
        self.0 == other.0 && self.1 == other.1
    }
}

impl MapKey for (u32, u32) {
    type Key = (u32, u32);

    open spec fn key(&self) -> (u32, u32) {
        *self
    }

    fn same_key(&self, other: &Self) -> (r: bool) {
        self.0 == other.0 && self.1 == other.1
    }
}

/// A finite map that keeps its entries in insertion order; each key occurs at
/// most once.
pub struct KeyedMap<K: MapKey, V> {
    entries: Vec<(K, V)>,
}

impl<K: MapKey, V> KeyedMap<K, V> {
    /// No two entries share a key.
    #[verifier::type_invariant]
    pub closed spec fn keys_unique(&self) -> bool {
        forall|i: int, j: int|
            0 <= i < j < self.entries@.len() ==> #[trigger] self.entries@[i].0.key()
                != #[trigger] self.entries@[j].0.key()
    }

    /// The entries in insertion order.
    pub closed spec fn entries(&self) -> Seq<(K, V)> {
        self.entries@
    }

    pub open spec fn has(&self, k: K::Key) -> bool {
        exists|i: int| 0 <= i < self.entries().len() && #[trigger] self.entries()[i].0.key() == k
    }

    pub open spec fn index_of(&self, k: K::Key) -> int {
        choose|i: int| 0 <= i < self.entries().len() && #[trigger] self.entries()[i].0.key() == k
    }

    /// The map from keys to values.
    pub open spec fn map(&self) -> Map<K::Key, V> {
        Map::new(|k: K::Key| self.has(k), |k: K::Key| self.entries()[self.index_of(k)].1)
    }

    /// Every key occurs at most once among the entries.
    proof fn lemma_unique(&self)
        requires
            self.keys_unique(),
        ensures
            forall|i: int, j: int|
                0 <= i < self.entries().len() && 0 <= j < self.entries().len() && i != j
                    ==> #[trigger] self.entries()[i].0.key() != #[trigger] self.entries()[j].0.key(),
    {
        assert forall|i: int, j: int|
            0 <= i < self.entries().len() && 0 <= j < self.entries().len() && i != j
                implies #[trigger] self.entries()[i].0.key() != #[trigger] self.entries()[j].0.key() by {
            if i < j {
                assert(self.entries@[i].0.key() != self.entries@[j].0.key());
            } else {
                assert(self.entries@[j].0.key() != self.entries@[i].0.key());
            }
        }
    }

    /// The value of the entry at `i` is what the map holds for its key.
    proof fn lemma_entry_value(&self, i: int)
        requires
            self.keys_unique(),
            0 <= i < self.entries().len(),
        ensures
            self.map().contains_key(self.entries()[i].0.key()),
            self.map()[self.entries()[i].0.key()] == self.entries()[i].1,
            self.index_of(self.entries()[i].0.key()) == i,
    {
        self.lemma_unique();
        let k = self.entries()[i].0.key();
        assert(self.has(k));
        let j = self.index_of(k);
        assert(self.entries()[j].0.key() == k);
    }

    pub fn new() -> (m: Self)
        ensures
            m.entries() == Seq::<(K, V)>::empty(),
            m.map() == Map::<K::Key, V>::empty(),
    {
        let m = KeyedMap { entries: Vec::new() };
        assert(m.map() =~= Map::<K::Key, V>::empty());
        m
    }

    pub fn len(&self) -> (n: usize)
        ensures
            n == self.entries().len(),
    {
        self.entries.len()
    }

    /// The position of the entry with key `k`, if any.
    pub fn find(&self, k: &K) -> (r: Option<usize>)
        ensures
            r is None <==> !self.map().contains_key(k.key()),
            r matches Some(i) ==> i < self.entries().len() && self.entries()[i as int].0.key()
                == k.key() && self.map()[k.key()] == self.entries()[i as int].1,
    {
        proof {
            use_type_invariant(self);
        }
        let mut i: usize = 0;
        while i < self.entries.len()
            invariant
                self.keys_unique(),
                i <= self.entries@.len(),
                forall|j: int| 0 <= j < i ==> #[trigger] self.entries@[j].0.key() != k.key(),
            decreases self.entries@.len() - i,
        {
            if self.entries[i].0.same_key(k) {
                proof {
                    self.lemma_entry_value(i as int);
                }
                return Some(i);
            }
            i = i + 1;
        }
        None
    }

    pub fn get(&self, k: &K) -> (r: Option<&V>)
        ensures
            r is Some <==> self.map().contains_key(k.key()),
            r matches Some(v) ==> *v == self.map()[k.key()],
    {
        match self.find(k) {
            None => None,
            Some(i) => Some(&self.entries[i].1),
        }
    }

    pub fn contains_key(&self, k: &K) -> (r: bool)
        ensures
            r == self.map().contains_key(k.key()),
    {
        self.find(k).is_some()
    }

    pub fn key_at(&self, i: usize) -> (r: &K)
        requires
            i < self.entries().len(),
        ensures
            *r == self.entries()[i as int].0,
            self.map().contains_key(r.key()),
    {
        proof {
            use_type_invariant(self);
            self.lemma_entry_value(i as int);
        }
        &self.entries[i].0
    }

    pub fn value_at(&self, i: usize) -> (r: &V)
        requires
            i < self.entries().len(),
        ensures
            *r == self.entries()[i as int].1,
            *r == self.map()[self.entries()[i as int].0.key()],
    {
        proof {
            use_type_invariant(self);
            self.lemma_entry_value(i as int);
        }
        &self.entries[i].1
    }

    /// The keys of the map are exactly the keys of the entries, and the
    /// entries hold distinct keys.
    pub fn lemma_entries_cover(&self)
        ensures
            forall|k: K::Key| #[trigger] self.map().contains_key(k) <==> exists|i: int|
                0 <= i < self.entries().len() && #[trigger] self.entries()[i].0.key() == k,
            forall|i: int, j: int|
                0 <= i < self.entries().len() && 0 <= j < self.entries().len() && i != j
                    ==> #[trigger] self.entries()[i].0.key() != #[trigger] self.entries()[j].0.key(),
    {
        proof {
            use_type_invariant(self);
            self.lemma_unique();
        }
    }

    /// Sets the value of `k`: an existing entry keeps its position, a new key
    /// is appended.
    pub fn insert(&mut self, k: K, v: V)
        ensures
            final(self).map() == old(self).map().insert(k.key(), v),
            old(self).map().contains_key(k.key()) ==> final(self).entries().len()
                == old(self).entries().len(),
            !old(self).map().contains_key(k.key()) ==> final(self).entries() == old(
                self,
            ).entries().push((k, v)),
    {
        proof {
            use_type_invariant(&*self);
            self.lemma_unique();
        }
        let ghost old_map = self.map();
        let ghost old_self = *self;
        let ghost kk = k.key();
        match self.find(&k) {
            Some(i) => {
                let ghost old_entries = self.entries@;
                let mut entries = Vec::new();
                std::mem::swap(&mut entries, &mut self.entries);
                entries.set(i, (k, v));
                proof {
                    assert(entries@ == old_entries.update(i as int, (k, v)));
                    assert forall|a: int, b: int|
                        0 <= a < b < entries@.len() implies #[trigger] entries@[a].0.key()
                            != #[trigger] entries@[b].0.key() by {
                        assert(old_entries[a].0.key() != old_entries[b].0.key());
                    }
                }
                self.entries = entries;
                proof {
                    self.lemma_unique();
                    assert forall|key: K::Key| #[trigger] self.map().contains_key(key)
                        == old_map.insert(kk, v).contains_key(key) by {
                        if self.has(key) {
                            let j = choose|j: int|
                                0 <= j < self.entries().len() && #[trigger] self.entries()[j].0.key()
                                    == key;
                            if j != i {
                                assert(old_entries[j].0.key() == key);
                            }
                        }
                        if old_map.contains_key(key) && key != kk {
                            let j = choose|j: int|
                                0 <= j < old_entries.len() && #[trigger] old_entries[j].0.key()
                                    == key;
                            assert(j != i);
                            assert(self.entries()[j].0.key() == key);
                        }
                        if key == kk {
                            assert(self.entries()[i as int].0.key() == key);
                        }
                    }
                    assert forall|key: K::Key| #[trigger] self.map().contains_key(key) implies self.map()[key]
                        == old_map.insert(kk, v)[key] by {
                        let j = choose|j: int|
                            0 <= j < self.entries().len() && #[trigger] self.entries()[j].0.key() == key;
                        self.lemma_entry_value(j);
                        if j != i {
                            assert(old_entries[j] == self.entries()[j]);
                            old_self.lemma_entry_value(j);
                        }
                    }
                    assert(self.map() =~= old_map.insert(kk, v));
                }
            },
            None => {
                let ghost old_entries = self.entries@;
                let mut entries = Vec::new();
                std::mem::swap(&mut entries, &mut self.entries);
                entries.push((k, v));
                proof {
                    assert(entries@ == old_entries.push((k, v)));
                    assert forall|a: int, b: int|
                        0 <= a < b < entries@.len() implies #[trigger] entries@[a].0.key()
                            != #[trigger] entries@[b].0.key() by {
                        if b < old_entries.len() {
                            assert(old_entries[a].0.key() != old_entries[b].0.key());
                        } else {
                            assert(old_self.entries()[a].0.key() == old_entries[a].0.key());
                        }
                    }
                }
                self.entries = entries;
                proof {
                    self.lemma_unique();
                    let n = old_entries.len() as int;
                    assert forall|key: K::Key| #[trigger] self.map().contains_key(key)
                        == old_map.insert(kk, v).contains_key(key) by {
                        if self.has(key) {
                            let j = choose|j: int|
                                0 <= j < self.entries().len() && #[trigger] self.entries()[j].0.key()
                                    == key;
                            if j != n {
                                assert(old_entries[j].0.key() == key);
                            }
                        }
                        if old_map.contains_key(key) {
                            let j = choose|j: int|
                                0 <= j < old_entries.len() && #[trigger] old_entries[j].0.key()
                                    == key;
                            assert(self.entries()[j].0.key() == key);
                        }
                        if key == kk {
                            assert(self.entries()[n].0.key() == key);
                        }
                    }
                    assert forall|key: K::Key| #[trigger] self.map().contains_key(key) implies self.map()[key]
                        == old_map.insert(kk, v)[key] by {
                        let j = choose|j: int|
                            0 <= j < self.entries().len() && #[trigger] self.entries()[j].0.key() == key;
                        self.lemma_entry_value(j);
                        if j != n {
                            assert(old_entries[j] == self.entries()[j]);
                            old_self.lemma_entry_value(j);
                        }
                    }
                    assert(self.map() =~= old_map.insert(kk, v));
                }
            },
        }
    }

    /// The map with `f` applied to every value; keys and order stay.
    pub fn map_values<W, F: Fn(V) -> W>(self, f: F) -> (r: KeyedMap<K, W>)
        requires
            forall|i: int| 0 <= i < self.entries().len() ==> call_requires(f, (#[trigger] self.entries()[i].1,)),
        ensures
            r.entries().len() == self.entries().len(),
            forall|i: int|
                0 <= i < self.entries().len() ==> #[trigger] r.entries()[i].0 == self.entries()[i].0
                    && call_ensures(f, (self.entries()[i].1,), r.entries()[i].1),
            r.map().dom() == self.map().dom(),
            forall|k: K::Key|
                #[trigger] self.map().contains_key(k) ==> call_ensures(f, (self.map()[k],), r.map()[k]),
    {
        proof {
            use_type_invariant(&self);
            self.lemma_unique();
        }
        let ghost old_self = self;
        let ghost es = self.entries@;
        let n = self.entries.len();
        let KeyedMap { entries } = self;
        let mut rev = crate::types::reverse_vec(entries);
        let mut out: Vec<(K, W)> = Vec::new();
        assert(es == old_self.entries());
        assert forall|j: int| 0 <= j < n implies call_requires(f, (#[trigger] es[j].1,)) by {
            assert(old_self.entries()[j].1 == es[j].1);
        }
        let mut i: usize = 0;
        while i < n
            invariant
                n == es.len(),
                i <= n,
                rev@.len() == n - i,
                forall|j: int| 0 <= j < n - i ==> #[trigger] rev@[j] == es[n - 1 - j],
                out@.len() == i,
                forall|j: int| 0 <= j < n ==> call_requires(f, (#[trigger] es[j].1,)),
                forall|j: int|
                    0 <= j < i ==> #[trigger] out@[j].0 == es[j].0 && call_ensures(f, (es[j].1,), out@[j].1),
            decreases n - i,
        {
            let (k, v) = rev.pop().unwrap();
            assert(es[i as int] == (k, v));
            let w = f(v);
            out.push((k, w));
            i = i + 1;
        }
        proof {
            assert forall|a: int, b: int|
                0 <= a < b < out@.len() implies #[trigger] out@[a].0.key() != #[trigger] out@[b].0.key() by {
                assert(es[a].0.key() != es[b].0.key());
            }
        }
        let r = KeyedMap { entries: out };
        proof {
            r.lemma_unique();
            assert forall|k: K::Key| r.map().contains_key(k) <==> old_self.map().contains_key(k) by {
                if r.has(k) {
                    let j = choose|j: int| 0 <= j < r.entries().len() && #[trigger] r.entries()[j].0.key() == k;
                    assert(old_self.entries()[j].0.key() == k);
                }
                if old_self.has(k) {
                    let j = choose|j: int| 0 <= j < old_self.entries().len() && #[trigger] old_self.entries()[j].0.key() == k;
                    assert(r.entries()[j].0.key() == k);
                }
            }
            assert(r.map().dom() =~= old_self.map().dom());
            assert forall|k: K::Key| #[trigger] old_self.map().contains_key(k) implies call_ensures(
                f,
                (old_self.map()[k],),
                r.map()[k],
            ) by {
                let j = choose|j: int| 0 <= j < old_self.entries().len() && #[trigger] old_self.entries()[j].0.key() == k;
                old_self.lemma_entry_value(j);
                r.lemma_entry_value(j);
            }
        }
        r
    }

    /// A copy of a map whose keys and values are copied bit for bit.
    pub fn copied(&self) -> (r: Self)
        where K: Copy, V: Copy,
        ensures
            r.entries() == self.entries(),
            r.map() == self.map(),
    {
        proof {
            use_type_invariant(self);
        }
        let mut out: Vec<(K, V)> = Vec::new();
        let mut i: usize = 0;
        while i < self.entries.len()
            invariant
                i <= self.entries@.len(),
                out@ == self.entries@.take(i as int),
            decreases self.entries@.len() - i,
        {
            let e = self.entries[i];
            out.push(e);
            proof {
                assert(out@ =~= self.entries@.take(i + 1));
            }
            i = i + 1;
        }
        proof {
            assert(self.entries@.take(self.entries@.len() as int) =~= self.entries@);
        }
        KeyedMap { entries: out }
    }

    /// The entries in insertion order, taking the map apart.
    pub fn into_entries(self) -> (r: Vec<(K, V)>)
        ensures
            r@ == self.entries(),
            forall|i: int, j: int|
                0 <= i < r@.len() && 0 <= j < r@.len() && i != j ==> #[trigger] r@[i].0.key() != #[trigger] r@[j].0.key(),
            forall|i: int| 0 <= i < r@.len() ==> self.map().contains_key(#[trigger] r@[i].0.key()) && self.map()[r@[i].0.key()] == r@[i].1,
            forall|k: K::Key| #[trigger] self.map().contains_key(k) ==> exists|i: int| 0 <= i < r@.len() && #[trigger] r@[i].0.key() == k,
    {
        proof {
            use_type_invariant(&self);
            self.lemma_unique();
            assert forall|i: int| 0 <= i < self.entries().len() implies self.map().contains_key(#[trigger] self.entries()[i].0.key()) && self.map()[self.entries()[i].0.key()] == self.entries()[i].1 by {
                self.lemma_entry_value(i);
            }
        }
        self.entries
    }

    /// Removes the entry with key `k`, if any, and returns its value; the
    /// other entries keep their order.
    pub fn remove(&mut self, k: &K) -> (r: Option<V>)
        ensures
            final(self).map() == old(self).map().remove(k.key()),
            r is Some <==> old(self).map().contains_key(k.key()),
            r matches Some(v) ==> v == old(self).map()[k.key()],
    {
        proof {
            use_type_invariant(&*self);
            self.lemma_unique();
        }
        let ghost old_self = *self;
        let ghost old_map = self.map();
        match self.find(k) {
            None => {
                assert(old_map.remove(k.key()) =~= old_map);
                None
            },
            Some(i) => {
                let ghost es = self.entries@;
                let mut entries = Vec::new();
                std::mem::swap(&mut entries, &mut self.entries);
                let (_, v) = entries.remove(i);
                proof {
                    assert(entries@ == es.remove(i as int));
                    assert forall|a: int, b: int|
                        0 <= a < b < entries@.len() implies #[trigger] entries@[a].0.key()
                            != #[trigger] entries@[b].0.key() by {
                        let a2 = if a < i { a } else { a + 1 };
                        let b2 = if b < i { b } else { b + 1 };
                        assert(es[a2].0.key() != es[b2].0.key());
                    }
                }
                self.entries = entries;
                proof {
                    self.lemma_unique();
                    let kk = k.key();
                    assert forall|key: K::Key| #[trigger] self.map().contains_key(key) == old_map.remove(kk).contains_key(key) by {
                        if self.has(key) {
                            let j = choose|j: int| 0 <= j < self.entries().len() && #[trigger] self.entries()[j].0.key() == key;
                            let j2 = if j < i { j } else { j + 1 };
                            assert(es[j2].0.key() == key);
                            assert(old_self.entries()[j2].0.key() == key);
                            assert(j2 != i);
                        }
                        if old_map.contains_key(key) && key != kk {
                            let j = choose|j: int| 0 <= j < es.len() && #[trigger] es[j].0.key() == key;
                            assert(j != i);
                            let j2 = if j < i { j } else { j - 1 };
                            assert(self.entries()[j2].0.key() == key);
                        }
                    }
                    assert forall|key: K::Key| #[trigger] self.map().contains_key(key) implies self.map()[key] == old_map[key] by {
                        let j = choose|j: int| 0 <= j < self.entries().len() && #[trigger] self.entries()[j].0.key() == key;
                        self.lemma_entry_value(j);
                        let j2 = if j < i { j } else { j + 1 };
                        assert(es[j2] == self.entries()[j]);
                        old_self.lemma_entry_value(j2);
                    }
                    assert(self.map() =~= old_map.remove(kk));
                    old_self.lemma_entry_value(i as int);
                }
                Some(v)
            },
        }
    }
}

} // verus!
