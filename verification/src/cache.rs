//! A cache of values under SHA-256 keys, which is emptied when it is full.

use vstd::prelude::*;

verus! {

/// The most entries that a cache holds.
pub const MAX_CACHED_MODULES: usize = 128;

/// A cache.
pub struct BoundedCache<V> {
    entries: Vec<([u8; 32], V)>,
}

/// The entries of a cache.
pub type Entries<V> = Seq<([u8; 32], V)>;

/// The position of a key, or -1.
pub open spec fn key_index<V>(es: Entries<V>, key: Seq<u8>) -> int
    decreases es.len(),
{
    if es.len() == 0 {
        -1
    } else if es.last().0@ == key {
        es.len() - 1
    } else {
        key_index(es.drop_last(), key)
    }
}

/// What the entries map each key to.
pub open spec fn entry_map<V>(es: Entries<V>) -> Map<Seq<u8>, V> {
    Map::new(|k: Seq<u8>| key_index(es, k) >= 0, |k: Seq<u8>| es[key_index(es, k)].1)
}

impl<V> View for BoundedCache<V> {
    type V = Map<Seq<u8>, V>;

    closed spec fn view(&self) -> Map<Seq<u8>, V> {
        entry_map(self.entries@)
    }
}

proof fn lemma_key_index<V>(es: Entries<V>, key: Seq<u8>)
    ensures
        -1 <= key_index(es, key) < es.len(),
        key_index(es, key) >= 0 ==> es[key_index(es, key)].0@ == key,
        forall|i: int| 0 <= i < es.len() && (#[trigger] es[i]).0@ == key ==> i <= key_index(es, key),
    decreases es.len(),
{
    if es.len() > 0 {
        lemma_key_index(es.drop_last(), key);
        assert forall|i: int| 0 <= i < es.len() && (#[trigger] es[i]).0@ == key implies i
            <= key_index(es, key) by {
            if i < es.len() - 1 {
                assert(es.drop_last()[i] == es[i]);
            }
        }
    }
}

fn same_key(a: &[u8; 32], b: &[u8; 32]) -> (r: bool)
    ensures
        r == (a@ == b@),
{
    let mut i: usize = 0;
    while i < 32
        invariant
            i <= 32,
            forall|j: int| 0 <= j < i ==> a@[j] == b@[j],
        decreases 32 - i,
    {
        if a[i] != b[i] {
            assert(a@[i as int] != b@[i as int]);
            return false;
        }
        i += 1;
    }
    assert(a@ =~= b@);
    true
}

/// Whether no key stands twice.
spec fn keys_distinct<V>(es: Entries<V>) -> bool {
    forall|i: int, j: int|
        0 <= i < j < es.len() ==> (#[trigger] es[i]).0@ != (#[trigger] es[j]).0@
}

proof fn lemma_dom_len<V>(es: Entries<V>)
    requires
        keys_distinct(es),
    ensures
        entry_map(es).dom().finite(),
        entry_map(es).dom().len() == es.len(),
    decreases es.len(),
{
    if es.len() == 0 {
        assert(entry_map(es).dom() =~= Set::empty());
    } else {
        let before = es.drop_last();
        let key = es.last().0@;
        assert(keys_distinct(before)) by {
            assert forall|i: int, j: int| 0 <= i < j < before.len() implies (
            #[trigger] before[i]).0@ != (#[trigger] before[j]).0@ by {
                assert(before[i] == es[i] && before[j] == es[j]);
            }
        }
        lemma_dom_len(before);
        lemma_key_index(before, key);
        if key_index(before, key) >= 0 {
            let i = key_index(before, key);
            assert(es[i] == before[i]);
            assert(es[i].0@ != es[es.len() - 1].0@);
        }
        assert forall|k: Seq<u8>| #[trigger] entry_map(es).dom().contains(k) == entry_map(
            before,
        ).dom().insert(key).contains(k) by {
            lemma_key_index(before, k);
        }
        assert(entry_map(es).dom() =~= entry_map(before).dom().insert(key));
    }
}

/// What a cache holds after a value was put into it.
pub open spec fn cache_set<V>(m: Map<Seq<u8>, V>, key: Seq<u8>, value: V) -> Map<Seq<u8>, V> {
    if m.dom().len() >= MAX_CACHED_MODULES {
        Map::<Seq<u8>, V>::empty().insert(key, value)
    } else {
        m.insert(key, value)
    }
}

impl<V> BoundedCache<V> {
    #[verifier::type_invariant]
    spec fn inv(self) -> bool {
        &&& self.entries@.len() <= MAX_CACHED_MODULES
        &&& keys_distinct(self.entries@)
    }

    /// An empty cache.
    pub fn new() -> (r: BoundedCache<V>)
        ensures
            r@ == Map::<Seq<u8>, V>::empty(),
    {
        let r = BoundedCache { entries: Vec::new() };
        assert(r@ =~= Map::empty());
        r
    }

    fn find(&self, key: &[u8; 32]) -> (r: Option<usize>)
        ensures
            match r {
                Some(i) => i == key_index(self.entries@, key@) && i < self.entries@.len(),
                None => key_index(self.entries@, key@) == -1,
            },
    {
        let mut i: usize = self.entries.len();
        assert(self.entries@.take(i as int) =~= self.entries@);
        while i > 0
            invariant
                i <= self.entries.len(),
                key_index(self.entries@, key@) == key_index(self.entries@.take(i as int), key@),
            decreases i,
        {
            assert(self.entries@.take(i as int).drop_last() =~= self.entries@.take(i - 1));
            i -= 1;
            if same_key(&self.entries[i].0, key) {
                return Some(i);
            }
        }
        None
    }

    /// The value under a key.
    pub fn get(&self, key: &[u8; 32]) -> (r: Option<&V>)
        ensures
            match r {
                Some(v) => self@.contains_key(key@) && *v == self@[key@],
                None => !self@.contains_key(key@),
            },
    {
        match self.find(key) {
            None => None,
            Some(i) => Some(&self.entries[i].1),
        }
    }

    /// Put a value under a key. A cache that is full is emptied first.
    pub fn insert(&mut self, key: [u8; 32], value: V)
        ensures
            final(self)@ == cache_set(old(self)@, key@, value),
    {
        proof {
            use_type_invariant(&*self);
            lemma_dom_len(self.entries@);
        }
        if self.entries.len() >= MAX_CACHED_MODULES {
            self.entries = Vec::new();
            assert(self@ =~= Map::empty());
        }
        let ghost before = self.entries@;
        proof {
            lemma_key_index(before, key@);
        }
        let found = self.find(&key);
        let mut entries: Vec<([u8; 32], V)> = Vec::new();
        std::mem::swap(&mut entries, &mut self.entries);
        match found {
            Some(i) => {
                entries.set(i, (key, value));
                proof {
                    let after = entries@;
                    assert forall|k: Seq<u8>| #[trigger] key_index(after, k) == key_index(
                        before,
                        k,
                    ) by {
                        lemma_key_index(after, k);
                        lemma_key_index(before, k);
                        let a = key_index(after, k);
                        let b = key_index(before, k);
                        if a >= 0 {
                            assert(before[a].0@ == after[a].0@);
                        }
                        if b >= 0 {
                            assert(before[b].0@ == after[b].0@);
                        }
                    }
                    let got = entry_map(after);
                    let want = entry_map(before).insert(key@, value);
                    assert forall|k: Seq<u8>| #[trigger] got.dom().contains(k)
                        == want.dom().contains(k) by {
                        assert(key_index(after, k) == key_index(after, k));
                        lemma_key_index(before, k);
                    }
                    assert forall|k: Seq<u8>| got.dom().contains(k) implies #[trigger] got[k]
                        == want[k] by {
                        assert(key_index(after, k) == key_index(after, k));
                        lemma_key_index(before, k);
                    }
                    assert(got =~= want);
                }
            },
            None => {
                entries.push((key, value));
                proof {
                    let after = entries@;
                    assert(after.drop_last() =~= before);
                    assert forall|k: Seq<u8>| #[trigger] key_index(after, k) == if k == key@ {
                        before.len() as int
                    } else {
                        key_index(before, k)
                    } by {}
                    let got = entry_map(after);
                    let want = entry_map(before).insert(key@, value);
                    assert forall|k: Seq<u8>| #[trigger] got.dom().contains(k)
                        == want.dom().contains(k) by {
                        assert(key_index(after, k) == key_index(after, k));
                        lemma_key_index(before, k);
                    }
                    assert forall|k: Seq<u8>| got.dom().contains(k) implies #[trigger] got[k]
                        == want[k] by {
                        assert(key_index(after, k) == key_index(after, k));
                        lemma_key_index(before, k);
                    }
                    assert(got =~= want);
                    assert forall|i: int, j: int| 0 <= i < j < after.len() implies (
                    #[trigger] after[i]).0@ != (#[trigger] after[j]).0@ by {
                        if j == before.len() {
                            assert(before[i].0@ != key@);
                        }
                    }
                }
            },
        }
        self.entries = entries;
    }

    /// How many entries a cache has. It is never more than the most.
    pub fn len(&self) -> (r: usize)
        ensures
            r == self@.dom().len(),
            r <= MAX_CACHED_MODULES,
    {
        proof {
            use_type_invariant(self);
            lemma_dom_len(self.entries@);
        }
        self.entries.len()
    }
}

/// A value that was just put into a cache is there.
pub proof fn cached_value_is_found<V>(m: Map<Seq<u8>, V>, key: Seq<u8>, value: V)
    ensures
        cache_set(m, key, value).contains_key(key),
        cache_set(m, key, value)[key] == value,
{
}

/// While there is room, a value is kept beside all others, which stay as they are; where there is
/// none left, everything else goes. So no more is ever kept than there is room for.
pub proof fn full_caches_start_over<V>(m: Map<Seq<u8>, V>, key: Seq<u8>, value: V, other: Seq<u8>)
    requires
        m.dom().finite(),
        m.dom().len() <= 128,
        other != key,
    ensures
        m.dom().len() < 128 ==> cache_set(m, key, value).contains_key(other) == m.contains_key(other),
        m.dom().len() < 128 && m.contains_key(other) ==> cache_set(m, key, value)[other] == m[other],
        m.dom().len() == 128 ==> !cache_set(m, key, value).contains_key(other),
        cache_set(m, key, value).dom().finite(),
        cache_set(m, key, value).dom().len() <= 128,
{
    let set = cache_set(m, key, value);
    if m.dom().len() < 128 {
        assert(set.dom() =~= m.dom().insert(key));
    } else {
        assert(set.dom() =~= Set::empty().insert(key));
    }
}

/// What is put into a cache is found there, under its key.
pub proof fn inserted_values_are_found<V>(
    cache: &mut BoundedCache<V>,
    key: [u8; 32],
    value: V,
    found: Option<&V>,
    other: [u8; 32],
    elsewhere: Option<&V>,
)
    requires
        call_ensures(BoundedCache::<V>::insert, (cache, key, value), ()),
        call_ensures(BoundedCache::<V>::get, (final(cache), &key), found),
        call_ensures(BoundedCache::<V>::get, (final(cache), &other), elsewhere),
        other@ != key@,
    ensures
        found matches Some(v) && *v == value,
        elsewhere matches Some(v) ==> old(cache)@.contains_key(other@) && *v == old(cache)@[other@],
        old(cache)@.dom().len() < 128 && old(cache)@.contains_key(other@) ==> elsewhere is Some,
{
}

} // verus!
