//! A small verified key-value store, the building block for the per-kind
//! caches, the in-memory ledger, durable lazy maps and the per-frame
//! ownership sets.
use vstd::prelude::*;

verus! {

/// A key a store can look up: comparison agrees with equality of the
/// keys' mathematical models.
pub trait StoreKey: View {
    /// Whether the two keys are the same key.
    fn same(&self, other: &Self) -> (r: bool)
        ensures
            r == (self@ == other@),
    ;
}

impl StoreKey for Vec<u8> {
    #[verifier::loop_isolation(false)]
    fn same(&self, other: &Self) -> (r: bool) {
        if self.len() != other.len() {
            return false;
        }
        let n = self.len();
        let mut i: usize = 0;
        while i < n
            invariant
                i <= n,
                forall|j: int| 0 <= j < i ==> self@[j] == other@[j],
            decreases n - i,
        {
            if self[i] != other[i] {
                return false;
            }
            i += 1;
        }
        proof {
            assert(self@ =~= other@);
        }
        true
    }
}

/// A value that can be copied without changing what it models.
pub trait Duplicable: View + Sized {
    /// A fresh value with the same model.
    fn duplicate(&self) -> (r: Self)
        ensures
            r@ == self@,
    ;
}

impl Duplicable for Vec<u8> {
    fn duplicate(&self) -> (r: Self) {
        let r = self.clone();
        proof {
            assert(r@ =~= self@);
        }
        r
    }
}

impl Duplicable for String {
    fn duplicate(&self) -> (r: Self) {
        self.clone()
    }
}

/// The map described by an entry list, later entries shadowing earlier
/// ones; with unique keys the order never matters.
pub open spec fn entries_map<K: View, V: View>(s: Seq<(K, V)>) -> Map<K::V, V::V>
    decreases s.len(),
{
    if s.len() == 0 {
        Map::empty()
    } else {
        entries_map(s.drop_last()).insert(s.last().0@, s.last().1@)
    }
}

/// Whether the entry list holds each key at most once.
pub open spec fn keys_unique<K: View, V>(s: Seq<(K, V)>) -> bool {
    forall|i: int, j: int|
        0 <= i < s.len() && 0 <= j < s.len() && i != j ==> (#[trigger] s[i]).0@ != (
        #[trigger] s[j]).0@
}

/// A key maps to something exactly when some entry holds it.
pub proof fn lemma_entries_map_contains<K: View, V: View>(s: Seq<(K, V)>, k: K::V)
    ensures
        entries_map(s).contains_key(k) <==> exists|i: int| 0 <= i < s.len() && (#[trigger] s[i]).0@
            == k,
    decreases s.len(),
{
    if s.len() > 0 {
        lemma_entries_map_contains(s.drop_last(), k);
        if entries_map(s).contains_key(k) {
            if s.last().0@ == k {
                assert(s[s.len() - 1].0@ == k);
            } else {
                let i = choose|i: int|
                    0 <= i < s.drop_last().len() && (#[trigger] s.drop_last()[i]).0@ == k;
                assert(s[i].0@ == k);
            }
        }
        if exists|i: int| 0 <= i < s.len() && (#[trigger] s[i]).0@ == k {
            let i = choose|i: int| 0 <= i < s.len() && (#[trigger] s[i]).0@ == k;
            if i < s.len() - 1 {
                assert(s.drop_last()[i].0@ == k);
            }
        }
    }
}

/// With unique keys, the entry holding a key gives that key's value.
pub proof fn lemma_entries_map_index<K: View, V: View>(s: Seq<(K, V)>, i: int)
    requires
        keys_unique(s),
        0 <= i < s.len(),
    ensures
        entries_map(s).contains_key(s[i].0@),
        entries_map(s)[s[i].0@] == s[i].1@,
    decreases s.len(),
{
    lemma_entries_map_contains(s, s[i].0@);
    if i == s.len() - 1 {
    } else {
        assert(s.last().0@ != s[i].0@);
        assert(s.drop_last()[i] == s[i]);
        lemma_entries_map_index(s.drop_last(), i);
    }
}

/// Removing the entry that holds a key removes exactly that key.
pub proof fn lemma_entries_map_remove<K: View, V: View>(s: Seq<(K, V)>, i: int)
    requires
        keys_unique(s),
        0 <= i < s.len(),
    ensures
        entries_map(s.remove(i)) == entries_map(s).remove(s[i].0@),
    decreases s.len(),
{
    let k = s[i].0@;
    if i == s.len() - 1 {
        assert(s.remove(i) =~= s.drop_last());
        lemma_entries_map_contains(s.drop_last(), k);
        assert(!entries_map(s.drop_last()).contains_key(k)) by {
            if entries_map(s.drop_last()).contains_key(k) {
                let j = choose|j: int|
                    0 <= j < s.drop_last().len() && (#[trigger] s.drop_last()[j]).0@ == k;
                assert(s[j].0@ == k);
            }
        }
        assert(entries_map(s).remove(k) =~= entries_map(s.drop_last()));
    } else {
        assert(s.remove(i).last() == s.last());
        assert(s.remove(i).drop_last() =~= s.drop_last().remove(i));
        lemma_entries_map_remove(s.drop_last(), i);
        assert(entries_map(s.remove(i)) == entries_map(s.drop_last().remove(i)).insert(
            s.last().0@,
            s.last().1@,
        ));
        assert(entries_map(s).remove(k) =~= entries_map(s.drop_last()).remove(k).insert(
            s.last().0@,
            s.last().1@,
        )) by {
            assert(s.last().0@ != k);
        }
    }
}

/// Replacing the value of the entry that holds a key updates exactly that
/// key, and keeps the keys unique.
pub proof fn lemma_entries_map_update<K: View, V: View>(s: Seq<(K, V)>, i: int, p: (K, V))
    requires
        keys_unique(s),
        0 <= i < s.len(),
        p.0@ == s[i].0@,
    ensures
        entries_map(s.update(i, p)) == entries_map(s).insert(p.0@, p.1@),
        keys_unique(s.update(i, p)),
    decreases s.len(),
{
    let k = s[i].0@;
    let t = s.update(i, p);
    if i == s.len() - 1 {
        assert(t.drop_last() =~= s.drop_last());
        assert(t.last() == p);
    } else {
        assert(t.last() == s.last());
        assert(t.drop_last() =~= s.drop_last().update(i, p));
        lemma_entries_map_update(s.drop_last(), i, p);
        assert(s.last().0@ != k);
        assert(entries_map(s.drop_last()).insert(k, p.1@).insert(s.last().0@, s.last().1@)
            =~= entries_map(s.drop_last()).insert(s.last().0@, s.last().1@).insert(k, p.1@));
    }
}

/// Uniqueness of keys survives removing an entry.
pub proof fn lemma_keys_unique_remove<K: View, V>(s: Seq<(K, V)>, i: int)
    requires
        keys_unique(s),
        0 <= i < s.len(),
    ensures
        keys_unique(s.remove(i)),
{
    let t = s.remove(i);
    assert forall|m: int, n: int|
        0 <= m < t.len() && 0 <= n < t.len() && m != n implies (#[trigger] t[m]).0@ != (
    #[trigger] t[n]).0@ by {
        let m0 = if m < i {
            m
        } else {
            m + 1
        };
        let n0 = if n < i {
            n
        } else {
            n + 1
        };
        assert(t[m] == s[m0]);
        assert(t[n] == s[n0]);
    }
}

/// Entry lists with pointwise equal models describe the same map and
/// agree on key uniqueness.
pub proof fn lemma_entries_map_congruence<K: View, V: View>(s1: Seq<(K, V)>, s2: Seq<(K, V)>)
    requires
        s1.len() == s2.len(),
        forall|j: int|
            0 <= j < s1.len() ==> (#[trigger] s1[j]).0@ == s2[j].0@ && s1[j].1@ == s2[j].1@,
    ensures
        entries_map(s1) == entries_map(s2),
        keys_unique(s2) ==> keys_unique(s1),
    decreases s1.len(),
{
    if s1.len() > 0 {
        assert(s1.drop_last().len() == s2.drop_last().len());
        assert(forall|j: int|
            0 <= j < s1.drop_last().len() ==> (#[trigger] s1.drop_last()[j]).0@
                == s2.drop_last()[j].0@ && s1.drop_last()[j].1@ == s2.drop_last()[j].1@) by {
            assert(forall|j: int|
                0 <= j < s1.len() - 1 ==> s1.drop_last()[j] == s1[j] && s2.drop_last()[j] == (
                #[trigger] s2[j]));
        }
        lemma_entries_map_congruence(s1.drop_last(), s2.drop_last());
        assert(s1.last().0@ == s2.last().0@ && s1.last().1@ == s2.last().1@) by {
            assert(s1[s1.len() - 1].0@ == s2[s1.len() - 1].0@ && s1[s1.len() - 1].1@ == s2[s1.len()
                - 1].1@);
        }
    } else {
        assert(keys_unique(s1));
    }
}

/// A key-value store with one entry per key. Lookups are linear scans;
/// the store's contract speaks only of the map it represents.
pub struct KvStore<K: StoreKey, V: View> {
    entries: Vec<(K, V)>,
}

impl<K: StoreKey, V: View> View for KvStore<K, V> {
    type V = Map<K::V, V::V>;

    closed spec fn view(&self) -> Map<K::V, V::V> {
        entries_map(self.entries@)
    }
}

impl<K: StoreKey, V: View> KvStore<K, V> {
    /// The store's internal well-formedness: each key appears at most
    /// once. Constructors establish it and every method preserves it.
    pub closed spec fn wf(&self) -> bool {
        keys_unique(self.entries@)
    }

    /// The models of the stored keys, each exactly once, in insertion
    /// order.
    pub closed spec fn key_seq(&self) -> Seq<K::V> {
        self.entries@.map_values(|p: (K, V)| p.0@)
    }

    /// The facts a caller may rely on to iterate the store: the key list
    /// holds each stored key exactly once.
    proof fn keys_facts(&self)
        requires
            self.wf(),
        ensures
            self.key_seq().no_duplicates(),
            forall|k: K::V| self@.contains_key(k) <==> self.key_seq().contains(k),
            self.key_seq().len() == self@.dom().len(),
    {
        assert forall|k: K::V| self@.contains_key(k) <==> self.key_seq().contains(k) by {
            lemma_entries_map_contains(self.entries@, k);
            if self@.contains_key(k) {
                let i = choose|i: int|
                    0 <= i < self.entries@.len() && (#[trigger] self.entries@[i]).0@ == k;
                assert(self.key_seq()[i] == k);
            }
            if self.key_seq().contains(k) {
                let i = choose|i: int| 0 <= i < self.key_seq().len() && self.key_seq()[i] == k;
                assert(self.entries@[i].0@ == k);
            }
        }
        assert(self.key_seq().no_duplicates());
        self.key_seq().unique_seq_to_set();
        assert(self@.dom() =~= self.key_seq().to_set()) by {
            assert forall|k: K::V| #[trigger]
                self@.dom().contains(k) <==> self.key_seq().to_set().contains(k) by {
                assert(self@.contains_key(k) <==> self.key_seq().contains(k));
            }
        }
    }

    pub fn new() -> (r: Self)
        ensures
            r.wf(),
            r@ == Map::<K::V, V::V>::empty(),
            r.key_seq() == Seq::<K::V>::empty(),
    {
        let r = Self { entries: Vec::new() };
        proof {
            assert(r.key_seq() =~= Seq::<K::V>::empty());
        }
        r
    }

    /// How many keys the store holds. The ensured facts also let a caller
    /// iterate the store by position: the key list holds each stored key
    /// exactly once.
    pub fn len(&self) -> (r: usize)
        requires
            self.wf(),
        ensures
            r == self.key_seq().len(),
            r == self@.dom().len(),
            self.key_seq().no_duplicates(),
            forall|k: K::V| self@.contains_key(k) <==> self.key_seq().contains(k),
    {
        proof {
            self.keys_facts();
        }
        self.entries.len()
    }

    /// The entry at a position, for iteration: its key is `key_seq()` at
    /// that position and its value is the stored value of that key.
    pub fn entry_at(&self, i: usize) -> (r: &(K, V))
        requires
            self.wf(),
            i < self.key_seq().len(),
        ensures
            r.0@ == self.key_seq()[i as int],
            self@.contains_key(r.0@),
            r.1@ == self@[r.0@],
    {
        proof {
            lemma_entries_map_index(self.entries@, i as int);
        }
        &self.entries[i]
    }

    /// The position of the entry holding the key, if any.
    #[verifier::loop_isolation(false)]
    fn find_index(&self, k: &K) -> (r: Option<usize>)
        ensures
            match r {
                Some(i) => i < self.entries@.len() && self.entries@[i as int].0@ == k@,
                None => forall|j: int|
                    0 <= j < self.entries@.len() ==> (#[trigger] self.entries@[j]).0@ != k@,
            },
    {
        let n = self.entries.len();
        let mut i: usize = 0;
        while i < n
            invariant
                n == self.entries@.len(),
                i <= n,
                forall|j: int| 0 <= j < i ==> (#[trigger] self.entries@[j]).0@ != k@,
            decreases n - i,
        {
            if self.entries[i].0.same(k) {
                return Some(i);
            }
            i += 1;
        }
        None
    }

    /// Whether the store holds the key.
    pub fn contains_key(&self, k: &K) -> (r: bool)
        requires
            self.wf(),
        ensures
            r == self@.contains_key(k@),
    {
        proof {
            lemma_entries_map_contains(self.entries@, k@);
        }
        self.find_index(k).is_some()
    }

    /// A borrow of the value stored under the key, if any.
    pub fn get(&self, k: &K) -> (r: Option<&V>)
        requires
            self.wf(),
        ensures
            r is Some <==> self@.contains_key(k@),
            r is Some ==> r->0@ == self@[k@],
    {
        proof {
            lemma_entries_map_contains(self.entries@, k@);
        }
        match self.find_index(k) {
            Some(i) => {
                proof {
                    lemma_entries_map_index(self.entries@, i as int);
                }
                Some(&self.entries[i].1)
            },
            None => None,
        }
    }

    /// A mutable borrow of the value stored under the key, if any: the
    /// store afterwards holds, under that key, whatever the caller leaves
    /// behind the borrow, and is otherwise unchanged.
    pub fn get_mut(&mut self, k: &K) -> (r: Option<&mut V>)
        requires
            old(self).wf(),
        ensures
            final(self).wf(),
            r is Some <==> old(self)@.contains_key(k@),
            match r {
                Some(m) => {
                    &&& (*m)@ == old(self)@[k@]
                    &&& final(self)@ == old(self)@.insert(k@, (*final(m))@)
                    &&& final(self).key_seq() == old(self).key_seq()
                },
                None => final(self)@ == old(self)@ && final(self).key_seq() == old(self).key_seq(),
            },
    {
        proof {
            lemma_entries_map_contains(self.entries@, k@);
        }
        match self.find_index(k) {
            Some(i) => {
                proof {
                    lemma_entries_map_index(self.entries@, i as int);
                    let orig = self.entries@;
                    assert forall|p: (K, V)| p.0@ == orig[i as int].0@ implies {
                        &&& entries_map(#[trigger] orig.update(i as int, p)) == entries_map(
                            orig,
                        ).insert(p.0@, p.1@)
                        &&& keys_unique(orig.update(i as int, p))
                        &&& orig.update(i as int, p).map_values(|q: (K, V)| q.0@)
                            == orig.map_values(|q: (K, V)| q.0@)
                    } by {
                        lemma_entries_map_update(orig, i as int, p);
                        assert(orig.update(i as int, p).map_values(|q: (K, V)| q.0@)
                            =~= orig.map_values(|q: (K, V)| q.0@));
                    }
                }
                let entry = &mut self.entries[i];
                Some(&mut entry.1)
            },
            None => None,
        }
    }

    /// Stores the value under the key, replacing what was there.
    pub fn insert(&mut self, k: K, v: V)
        requires
            old(self).wf(),
        ensures
            final(self).wf(),
            final(self)@ == old(self)@.insert(k@, v@),
    {
        proof {
            lemma_entries_map_contains(self.entries@, k@);
        }
        let ghost orig = self.entries@;
        let ghost kv = k@;
        match self.find_index(&k) {
            Some(i) => {
                proof {
                    lemma_entries_map_index(self.entries@, i as int);
                    assert(forall|j: int|
                        0 <= j < orig.len() && j != i ==> (#[trigger] orig[j]).0@ != kv);
                    lemma_keys_unique_remove(orig, i as int);
                }
                self.entries.remove(i);
                proof {
                    lemma_entries_map_remove(orig, i as int);
                    assert(forall|j: int|
                        0 <= j < self.entries@.len() ==> (#[trigger] self.entries@[j]).0@ != kv);
                }
                self.entries.push((k, v));
                proof {
                    assert(self.entries@.drop_last() =~= orig.remove(i as int));
                    assert(self.entries@.last().0@ == kv);
                    assert(self@ == entries_map(orig).remove(kv).insert(kv, v@));
                    assert(entries_map(orig).remove(kv).insert(kv, v@) =~= entries_map(
                        orig,
                    ).insert(kv, v@));
                }
            },
            None => {
                self.entries.push((k, v));
                proof {
                    assert(self.entries@.drop_last() =~= orig);
                }
            },
        }
    }

    /// A fresh store describing the same map.
    #[verifier::loop_isolation(false)]
    pub fn duplicate(&self) -> (r: Self) where K: Duplicable, V: Duplicable
        requires
            self.wf(),
        ensures
            r.wf(),
            r@ == self@,
    {
        let mut out: Vec<(K, V)> = Vec::new();
        let n = self.entries.len();
        let mut i: usize = 0;
        while i < n
            invariant
                n == self.entries@.len(),
                i <= n,
                out@.len() == i,
                forall|j: int|
                    0 <= j < i ==> (#[trigger] out@[j]).0@ == self.entries@[j].0@ && out@[j].1@
                        == self.entries@[j].1@,
            decreases n - i,
        {
            let k = self.entries[i].0.duplicate();
            let v = self.entries[i].1.duplicate();
            out.push((k, v));
            i += 1;
        }
        proof {
            lemma_entries_map_congruence(out@, self.entries@);
        }
        Self { entries: out }
    }

    /// Takes the value stored under the key out of the store.
    pub fn remove(&mut self, k: &K) -> (r: Option<V>)
        requires
            old(self).wf(),
        ensures
            final(self).wf(),
            r is Some <==> old(self)@.contains_key(k@),
            r is Some ==> r->0@ == old(self)@[k@],
            final(self)@ == old(self)@.remove(k@),
    {
        proof {
            lemma_entries_map_contains(self.entries@, k@);
        }
        let ghost orig = self.entries@;
        match self.find_index(k) {
            Some(i) => {
                proof {
                    lemma_entries_map_index(self.entries@, i as int);
                    lemma_entries_map_remove(orig, i as int);
                    lemma_keys_unique_remove(orig, i as int);
                }
                let pair = self.entries.remove(i);
                Some(pair.1)
            },
            None => {
                proof {
                    assert(old(self)@.remove(k@) =~= old(self)@);
                }
                None
            },
        }
    }
}

} // verus!
