//! Key-addressed storage: association-list maps and key sets with
//! mathematical `Map` and `Set` views.
//!
//! The world store is built from these. An entry list with pairwise
//! distinct keys behaves exactly like a finite map, and every operation
//! below carries that meaning in its contract, so callers reason about
//! `Map` values rather than about the scan that implements them.

use vstd::prelude::*;

verus! {

/// A copyable key whose executable equality test decides mathematical
/// equality.
pub trait MapKey: Copy {
    /// Decides whether two keys are the same key.
    fn key_eq(&self, other: &Self) -> (r: bool)
        ensures
            r <==> self == other,
    ;
}

impl MapKey for u64 {
    fn key_eq(&self, other: &Self) -> (r: bool)
        ensures
            r <==> self == other,
    {
        *self == *other
    }
}

/// The finite map described by an entry list: later entries win, though
/// a well-formed `KeyedMap` never holds two entries for one key.
pub open spec fn seq_map<K, V>(s: Seq<(K, V)>) -> Map<K, V>
    decreases s.len(),
{
    if s.len() == 0 {
        Map::empty()
    } else {
        seq_map(s.drop_last()).insert(s.last().0, s.last().1)
    }
}

/// No two entries share a key.
pub open spec fn distinct_keys<K, V>(s: Seq<(K, V)>) -> bool {
    forall|i: int, j: int| 0 <= i < j < s.len() ==> s[i].0 != s[j].0
}

/// The map of an entry list contains exactly the listed keys.
proof fn lemma_seq_map_contains<K, V>(s: Seq<(K, V)>, k: K)
    ensures
        seq_map(s).contains_key(k) <==> exists|i: int| 0 <= i < s.len() && s[i].0 == k,
    decreases s.len(),
{
    if s.len() > 0 {
        lemma_seq_map_contains(s.drop_last(), k);
        if s.last().0 == k {
            assert(s[s.len() - 1].0 == k);
        } else if seq_map(s).contains_key(k) {
            let i = choose|i: int| 0 <= i < s.drop_last().len() && s.drop_last()[i].0 == k;
            assert(s[i].0 == k);
        } else if exists|i: int| 0 <= i < s.len() && s[i].0 == k {
            let i = choose|i: int| 0 <= i < s.len() && s[i].0 == k;
            assert(s.drop_last()[i].0 == k);
        }
    }
}

/// With distinct keys, the map of an entry list sends each listed key to
/// the value listed beside it.
proof fn lemma_seq_map_index<K, V>(s: Seq<(K, V)>, i: int)
    requires
        distinct_keys(s),
        0 <= i < s.len(),
    ensures
        seq_map(s).contains_key(s[i].0),
        seq_map(s)[s[i].0] == s[i].1,
    decreases s.len(),
{
    lemma_seq_map_contains(s, s[i].0);
    if i < s.len() - 1 {
        assert(s.drop_last()[i] == s[i]);
        lemma_seq_map_index(s.drop_last(), i);
        assert(s[i].0 != s.last().0);
    }
}

/// Replacing the value at one entry replaces exactly that key's image.
proof fn lemma_seq_map_update_one<K, V>(s: Seq<(K, V)>, i: int, v: V)
    requires
        distinct_keys(s),
        0 <= i < s.len(),
    ensures
        seq_map(s.update(i, (s[i].0, v))) == seq_map(s).insert(s[i].0, v),
        distinct_keys(s.update(i, (s[i].0, v))),
    decreases s.len(),
{
    let k = s[i].0;
    let t = s.update(i, (k, v));
    assert(distinct_keys(t)) by {
        assert(forall|m: int, n: int| 0 <= m < n < t.len() ==> t[m].0 != t[n].0) by {
            assert(forall|m: int| 0 <= m < t.len() ==> t[m].0 == s[m].0);
        }
    }
    if i == s.len() - 1 {
        assert(t.drop_last() =~= s.drop_last());
        assert(seq_map(t) == seq_map(s.drop_last()).insert(k, v));
        assert(seq_map(s).insert(k, v) =~= seq_map(s.drop_last()).insert(k, v));
    } else {
        assert(t.drop_last() =~= s.drop_last().update(i, (k, v)));
        assert(s.drop_last()[i] == s[i]);
        lemma_seq_map_update_one(s.drop_last(), i, v);
        assert(seq_map(t) == seq_map(s.drop_last()).insert(k, v).insert(s.last().0, s.last().1));
        assert(k != s.last().0);
        assert(seq_map(s.drop_last()).insert(k, v).insert(s.last().0, s.last().1) =~= seq_map(
            s,
        ).insert(k, v));
    }
}

/// Replacing the value at one entry, for every replacement value.
proof fn lemma_seq_map_update<K, V>(s: Seq<(K, V)>, i: int)
    requires
        distinct_keys(s),
        0 <= i < s.len(),
    ensures
        forall|v: V| #[trigger]
            seq_map(s.update(i, (s[i].0, v))) == seq_map(s).insert(s[i].0, v),
        forall|v: V| distinct_keys(#[trigger] s.update(i, (s[i].0, v))),
{
    assert forall|v: V|
        #[trigger] seq_map(s.update(i, (s[i].0, v))) == seq_map(s).insert(s[i].0, v)
            && distinct_keys(s.update(i, (s[i].0, v))) by {
        lemma_seq_map_update_one(s, i, v);
    }
}

/// Appending an entry with a fresh key extends the map and keeps the keys
/// distinct.
proof fn lemma_seq_map_push<K, V>(s: Seq<(K, V)>, k: K, v: V)
    requires
        distinct_keys(s),
        forall|i: int| 0 <= i < s.len() ==> s[i].0 != k,
    ensures
        seq_map(s.push((k, v))) == seq_map(s).insert(k, v),
        distinct_keys(s.push((k, v))),
{
    let t = s.push((k, v));
    assert(t.drop_last() =~= s);
    assert(t.last() == (k, v));
    assert(forall|m: int, n: int| 0 <= m < n < t.len() ==> t[m].0 != t[n].0) by {
        assert(forall|m: int| 0 <= m < s.len() ==> t[m] == s[m]);
    }
}

/// A type-erased store addressed by key: the backbone of both the
/// resource map and the per-type component columns.
pub struct KeyedMap<K, V> {
    entries: Vec<(K, V)>,
}

impl<K: MapKey, V> View for KeyedMap<K, V> {
    type V = Map<K, V>;

    closed spec fn view(&self) -> Map<K, V> {
        seq_map(self.entries@)
    }
}

impl<K: MapKey, V> KeyedMap<K, V> {
    /// Entries hold pairwise distinct keys, so the list denotes a map.
    pub closed spec fn wf(&self) -> bool {
        distinct_keys(self.entries@)
    }

    /// The empty map.
    pub fn new() -> (r: Self)
        ensures
            r@ == Map::<K, V>::empty(),
            r.wf(),
    {
        KeyedMap { entries: Vec::new() }
    }

    /// Position of the entry holding `k`, if one does.
    fn index_of(&self, k: K) -> (r: Option<usize>)
        ensures
            match r {
                Some(i) => i < self.entries@.len() && self.entries@[i as int].0 == k,
                None => forall|i: int| 0 <= i < self.entries@.len() ==> self.entries@[i].0 != k,
            },
    {
        let n = self.entries.len();
        let mut i: usize = 0;
        while i < n
            invariant
                n == self.entries@.len(),
                0 <= i <= n,
                forall|j: int| 0 <= j < i ==> self.entries@[j].0 != k,
            decreases n - i,
        {
            if self.entries[i].0.key_eq(&k) {
                return Some(i);
            }
            i += 1;
        }
        None
    }

    /// Whether a value is stored under `k`.
    pub fn contains_key(&self, k: K) -> (r: bool)
        ensures
            r == self@.contains_key(k),
    {
        proof {
            lemma_seq_map_contains(self.entries@, k);
        }
        self.index_of(k).is_some()
    }

    /// The value stored under `k`, if one is.
    pub fn get(&self, k: K) -> (r: Option<&V>)
        requires
            self.wf(),
        ensures
            match r {
                Some(v) => self@.contains_key(k) && *v == self@[k],
                None => !self@.contains_key(k),
            },
    {
        proof {
            lemma_seq_map_contains(self.entries@, k);
        }
        match self.index_of(k) {
            Some(i) => {
                proof {
                    lemma_seq_map_index(self.entries@, i as int);
                }
                Some(&self.entries[i].1)
            },
            None => None,
        }
    }

    /// Exclusive access to the value stored under `k`, if one is; the
    /// map afterwards holds whatever the caller leaves behind the
    /// returned reference.
    pub fn get_mut(&mut self, k: K) -> (r: Option<&mut V>)
        requires
            old(self).wf(),
        ensures
            final(self).wf(),
            match r {
                Some(v) => old(self)@.contains_key(k) && *v == old(self)@[k] && final(self)@
                    == old(self)@.insert(k, *final(v)),
                None => !old(self)@.contains_key(k) && final(self)@ == old(self)@,
            },
    {
        proof {
            lemma_seq_map_contains(self.entries@, k);
        }
        match self.index_of(k) {
            Some(i) => {
                proof {
                    lemma_seq_map_index(self.entries@, i as int);
                    lemma_seq_map_update(self.entries@, i as int);
                }
                let entry = &mut self.entries[i];
                Some(&mut entry.1)
            },
            None => None,
        }
    }

    /// Stores `v` under `k`, replacing any previous value.
    pub fn insert(&mut self, k: K, v: V)
        requires
            old(self).wf(),
        ensures
            final(self).wf(),
            final(self)@ == old(self)@.insert(k, v),
    {
        match self.index_of(k) {
            Some(i) => {
                proof {
                    lemma_seq_map_update(self.entries@, i as int);
                }
                let entry = &mut self.entries[i];
                *entry = (k, v);
            },
            None => {
                proof {
                    lemma_seq_map_push(self.entries@, k, v);
                }
                self.entries.push((k, v));
            },
        }
    }

    /// Every key of the map, each exactly once, in storage order.
    pub fn keys(&self) -> (r: Vec<K>)
        requires
            self.wf(),
        ensures
            r@.no_duplicates(),
            forall|k: K| r@.contains(k) <==> self@.contains_key(k),
    {
        let n = self.entries.len();
        let mut r: Vec<K> = Vec::new();
        let mut i: usize = 0;
        while i < n
            invariant
                n == self.entries@.len(),
                0 <= i <= n,
                r@.len() == i,
                forall|j: int| 0 <= j < i ==> r@[j] == self.entries@[j].0,
            decreases n - i,
        {
            r.push(self.entries[i].0);
            i += 1;
        }
        proof {
            assert(r@.no_duplicates()) by {
                assert(forall|m: int, n2: int|
                    0 <= m < n2 < r@.len() ==> r@[m] != r@[n2]) by {
                    assert(distinct_keys(self.entries@));
                }
            }
            assert forall|k: K| r@.contains(k) <==> self@.contains_key(k) by {
                lemma_seq_map_contains(self.entries@, k);
                if r@.contains(k) {
                    let j = choose|j: int| 0 <= j < r@.len() && r@[j] == k;
                    assert(self.entries@[j].0 == k);
                }
                if self@.contains_key(k) {
                    let j = choose|j: int|
                        0 <= j < self.entries@.len() && self.entries@[j].0 == k;
                    assert(r@[j] == k);
                }
            }
        }
        r
    }
}

/// A finite set of `u64` type keys, as stored in the entity index.
pub struct KeySet {
    keys: Vec<u64>,
}

impl View for KeySet {
    type V = Set<u64>;

    closed spec fn view(&self) -> Set<u64> {
        self.keys@.to_set()
    }
}

impl KeySet {
    /// The empty set.
    pub fn new() -> (r: Self)
        ensures
            r@ == Set::<u64>::empty(),
    {
        let r = KeySet { keys: Vec::new() };
        proof {
            assert(r.keys@.to_set() =~= Set::<u64>::empty());
        }
        r
    }

    /// Whether `k` is a member.
    pub fn contains(&self, k: u64) -> (r: bool)
        ensures
            r == self@.contains(k),
    {
        let n = self.keys.len();
        let mut i: usize = 0;
        while i < n
            invariant
                n == self.keys@.len(),
                0 <= i <= n,
                forall|j: int| 0 <= j < i ==> self.keys@[j] != k,
            decreases n - i,
        {
            if self.keys[i] == k {
                assert(self.keys@.contains(k));
                return true;
            }
            i += 1;
        }
        assert(!self.keys@.contains(k));
        false
    }

    /// Adds `k`; adding a member again changes nothing.
    pub fn insert(&mut self, k: u64)
        ensures
            final(self)@ == old(self)@.insert(k),
    {
        if !self.contains(k) {
            self.keys.push(k);
            proof {
                let s = old(self).keys@;
                let t = self.keys@;
                assert(t.drop_last() =~= s);
                assert forall|x: u64| t.to_set().contains(x) implies s.to_set().insert(k).contains(
                    x,
                ) by {
                    let j = choose|j: int| 0 <= j < t.len() && t[j] == x;
                    if j < s.len() {
                        assert(s[j] == x);
                    }
                }
                assert forall|x: u64| s.to_set().insert(k).contains(x) implies t.to_set().contains(
                    x,
                ) by {
                    if x == k {
                        assert(t[t.len() - 1] == k);
                    } else {
                        let j = choose|j: int| 0 <= j < s.len() && s[j] == x;
                        assert(t[j] == x);
                    }
                }
                assert(t.to_set() =~= s.to_set().insert(k));
            }
        } else {
            proof {
                let s = self.keys@.to_set();
                assert(s.contains(k));
                assert forall|x: u64| s.insert(k).contains(x) implies s.contains(x) by {
                    if x != k {
                        assert(s.contains(x));
                    }
                }
                assert(s =~= s.insert(k));
            }
        }
    }

    /// Whether every member of `other` is a member of `self`.
    pub fn contains_all(&self, other: &KeySet) -> (r: bool)
        ensures
            r == other@.subset_of(self@),
    {
        let n = other.keys.len();
        let mut i: usize = 0;
        while i < n
            invariant
                n == other.keys@.len(),
                0 <= i <= n,
                forall|j: int| 0 <= j < i ==> self@.contains(#[trigger] other.keys@[j]),
            decreases n - i,
        {
            if !self.contains(other.keys[i]) {
                assert(other@.contains(other.keys@[i as int]));
                return false;
            }
            i += 1;
        }
        assert forall|k: u64| other@.contains(k) implies self@.contains(k) by {
            let j = choose|j: int| 0 <= j < other.keys@.len() && other.keys@[j] == k;
            assert(self@.contains(other.keys@[j]));
        }
        true
    }

    /// Whether `self` and `other` share no member.
    pub fn is_disjoint(&self, other: &KeySet) -> (r: bool)
        ensures
            r == self@.disjoint(other@),
    {
        let n = self.keys.len();
        let mut i: usize = 0;
        while i < n
            invariant
                n == self.keys@.len(),
                0 <= i <= n,
                forall|j: int| 0 <= j < i ==> !other@.contains(#[trigger] self.keys@[j]),
            decreases n - i,
        {
            if other.contains(self.keys[i]) {
                assert(self@.contains(self.keys@[i as int]));
                return false;
            }
            i += 1;
        }
        assert forall|k: u64| self@.contains(k) implies !other@.contains(k) by {
            let j = choose|j: int| 0 <= j < self.keys@.len() && self.keys@[j] == k;
            assert(!other@.contains(self.keys@[j]));
        }
        true
    }
}

} // verus!
