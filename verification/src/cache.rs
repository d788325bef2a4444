//! The cache of search results: entries keyed by query, each with the time
//! (in seconds) it was stored, valid for a fixed time and bounded in number.

use vstd::prelude::*;
use crate::text::str_eq;

verus! {

/// Entries kept at most (before one is dropped to make room).
pub const CACHE_MAX_SIZE: usize = 100;

/// Seconds an entry stays valid.
pub const CACHE_TTL_SECS: u64 = 300;

/// Search results by query, with the second they were stored.
pub struct SearchCache<V> {
    keys: Vec<String>,
    vals: Vec<(V, u64)>,
    max_size: usize,
    ttl_secs: u64,
}

impl<V> View for SearchCache<V> {
    type V = Map<Seq<char>, (V, u64)>;

    closed spec fn view(&self) -> Map<Seq<char>, (V, u64)> {
        Map::new(
            |k: Seq<char>| exists|i: int| 0 <= i < self.keys@.len() && #[trigger] self.keys@[i]@ == k,
            |k: Seq<char>| self.vals@[choose|i: int| 0 <= i < self.keys@.len() && #[trigger] self.keys@[i]@ == k],
        )
    }
}

/// What a lookup of `key` at `now` finds in the entries `m` when entries
/// stay valid for `ttl` seconds: the stored results while fewer than `ttl`
/// seconds have passed since they were stored (a `now` before that counts
/// as no time passed), and nothing otherwise.
pub open spec fn lookup_spec<V>(m: Map<Seq<char>, (V, u64)>, key: Seq<char>, now: u64, ttl: nat) -> Option<V> {
    if m.contains_key(key) && (if now >= m[key].1 { now - m[key].1 } else { 0 }) < ttl {
        Some(m[key].0)
    } else {
        None
    }
}

/// A read gives back what the last write of its key stored, for as long as
/// the entry is valid, and nothing after: whatever else the entries hold,
/// once `key` maps to results stored at `t`, a lookup at `now` (not before
/// `t`) finds those results exactly when fewer than `ttl` seconds have passed.
pub proof fn law_lookup_finds_stored_entry<V>(m: Map<Seq<char>, (V, u64)>, key: Seq<char>, v: V, t: u64, now: u64, ttl: nat)
    requires
        m.contains_key(key),
        m[key] == (v, t),
        t <= now,
    ensures
        lookup_spec(m, key, now, ttl) == (if now - t < ttl { Some(v) } else { None::<V> }),
{
}

impl<V> SearchCache<V> {
    #[verifier::type_invariant]
    spec fn wf(&self) -> bool {
        &&& self.keys@.len() == self.vals@.len()
        &&& forall|i: int, j: int|
            0 <= i < self.keys@.len() && 0 <= j < self.keys@.len() && i != j
                ==> #[trigger] self.keys@[i]@ != #[trigger] self.keys@[j]@
    }

    /// The number of entries at which `put` first drops one.
    pub closed spec fn capacity(&self) -> nat {
        self.max_size as nat
    }

    /// Seconds an entry stays valid.
    pub closed spec fn ttl(&self) -> nat {
        self.ttl_secs as nat
    }

    /// An empty cache of 100 entries valid for 300 seconds.
    pub fn new() -> (res: Self)
        ensures
            res@ == Map::<Seq<char>, (V, u64)>::empty(),
            res.capacity() == CACHE_MAX_SIZE,
            res.ttl() == CACHE_TTL_SECS,
    {
        let c = SearchCache { keys: Vec::new(), vals: Vec::new(), max_size: CACHE_MAX_SIZE, ttl_secs: CACHE_TTL_SECS };
        assert(c@ =~= Map::<Seq<char>, (V, u64)>::empty());
        c
    }

    fn index_of(&self, key: &str) -> (res: Option<usize>)
        ensures
            match res {
                Some(i) => i < self.keys@.len() && self.keys@[i as int]@ == key@,
                None => forall|i: int| 0 <= i < self.keys@.len() ==> self.keys@[i]@ != key@,
            },
    {
        let mut i: usize = 0;
        while i < self.keys.len()
            invariant
                i <= self.keys@.len(),
                forall|k: int| 0 <= k < i ==> self.keys@[k]@ != key@,
            decreases self.keys.len() - i,
        {
            if str_eq(self.keys[i].as_str(), key) {
                return Some(i);
            }
            i = i + 1;
        }
        None
    }

    proof fn lemma_entry(&self, i: int)
        requires
            self.wf(),
            0 <= i < self.keys@.len(),
        ensures
            self@.contains_key(self.keys@[i]@),
            self@[self.keys@[i]@] == self.vals@[i],
    {
        let k = self.keys@[i]@;
        assert(self@.contains_key(k));
        let c = choose|j: int| 0 <= j < self.keys@.len() && #[trigger] self.keys@[j]@ == k;
        assert(c == i);
    }

    /// The results stored for `key` if they were stored less than `ttl()`
    /// seconds before `now` (a `now` before the storing time counts as no
    /// time passed).
    pub fn get(&mut self, key: &str, now: u64) -> (res: Option<V>)
        where V: Clone,
        ensures
            final(self)@ == old(self)@,
            final(self).capacity() == old(self).capacity(),
            final(self).ttl() == old(self).ttl(),
            match res {
                Some(v) => lookup_spec(old(self)@, key@, now, old(self).ttl()) matches Some(x) && cloned::<V>(x, v),
                None => lookup_spec(old(self)@, key@, now, old(self).ttl()) is None,
            },
    {
        proof {
            use_type_invariant(&*self);
        }
        match self.index_of(key) {
            Some(i) => {
                proof {
                    self.lemma_entry(i as int);
                }
                let ts = self.vals[i].1;
                let age = now.saturating_sub(ts);
                if age < self.ttl_secs {
                    Some(self.vals[i].0.clone())
                } else {
                    None
                }
            },
            None => {
                assert(!self@.contains_key(key@));
                None
            },
        }
    }

    fn newest_index(&self) -> (res: usize)
        requires
            self.wf(),
            self.vals@.len() > 0,
        ensures
            res < self.vals@.len(),
            forall|i: int| 0 <= i < self.vals@.len() ==> self.vals@[i].1 <= self.vals@[res as int].1,
    {
        let mut best: usize = 0;
        let mut i: usize = 1;
        while i < self.vals.len()
            invariant
                1 <= i <= self.vals@.len(),
                best < self.vals@.len(),
                forall|k: int| 0 <= k < i ==> self.vals@[k].1 <= self.vals@[best as int].1,
            decreases self.vals.len() - i,
        {
            if self.vals[i].1 > self.vals[best].1 {
                best = i;
            }
            i = i + 1;
        }
        best
    }

    /// Stores `results` for `key` at time `now`. When the cache holds
    /// `capacity()` entries or more, one entry stored most recently is dropped
    /// first (even when `key` is already present).
    pub fn put(&mut self, key: String, results: V, now: u64)
        ensures
            final(self).capacity() == old(self).capacity(),
            final(self).ttl() == old(self).ttl(),
            old(self)@.len() >= old(self).capacity() && old(self)@.len() > 0 ==> exists|k: Seq<char>| {
                &&& #[trigger] old(self)@.contains_key(k)
                &&& forall|k2: Seq<char>| old(self)@.contains_key(k2) ==> old(self)@[k2].1 <= old(self)@[k].1
                &&& final(self)@ == old(self)@.remove(k).insert(key@, (results, now))
            },
            !(old(self)@.len() >= old(self).capacity() && old(self)@.len() > 0) ==> final(self)@ == old(self)@.insert(
                key@,
                (results, now),
            ),
            final(self)@.contains_key(key@),
            final(self)@[key@] == (results, now),
    {
        proof {
            use_type_invariant(&*self);
            self.lemma_len();
        }
        let ghost old_map = self@;
        if self.keys.len() >= self.max_size && self.keys.len() > 0 {
            let j = self.newest_index();
            let ghost kj = self.keys@[j as int]@;
            proof {
                self.lemma_entry(j as int);
                assert forall|k2: Seq<char>| old_map.contains_key(k2) implies old_map[k2].1 <= old_map[kj].1 by {
                    let c = choose|q: int| 0 <= q < self.keys@.len() && #[trigger] self.keys@[q]@ == k2;
                    self.lemma_entry(c);
                }
            }
            self.remove_at(j);
            assert(self@ == old_map.remove(kj));
            self.insert_entry(key, results, now);
            assert(old_map.contains_key(kj));
        } else {
            self.insert_entry(key, results, now);
        }
    }

    proof fn lemma_len(&self)
        requires
            self.wf(),
        ensures
            self@.len() == self.keys@.len(),
            self@.dom().finite(),
    {
        let kv = self.keys@.map_values(|s: String| s@);
        assert forall|i: int, j: int| 0 <= i < kv.len() && 0 <= j < kv.len() && i != j implies kv[i] != kv[j] by {}
        assert(kv.no_duplicates());
        kv.unique_seq_to_set();
        assert forall|k: Seq<char>| #[trigger] self@.dom().contains(k) == kv.to_set().contains(k) by {
            if self@.dom().contains(k) {
                let c = choose|q: int| 0 <= q < self.keys@.len() && #[trigger] self.keys@[q]@ == k;
                assert(kv[c] == k);
            }
            if kv.to_set().contains(k) {
                let c = choose|q: int| 0 <= q < kv.len() && kv[q] == k;
                assert(self.keys@[c]@ == k);
            }
        }
        assert(self@.dom() =~= kv.to_set());
    }

    fn remove_at(&mut self, j: usize)
        requires
            j < old(self).keys@.len(),
        ensures
            final(self)@ == old(self)@.remove(old(self).keys@[j as int]@),
            final(self).max_size == old(self).max_size,
            final(self).ttl_secs == old(self).ttl_secs,
    {
        proof {
            use_type_invariant(&*self);
        }
        let ghost old_map = self@;
        let ghost kj = self.keys@[j as int]@;
        let ghost ok = old(self).keys@;
        let ghost ov = old(self).vals@;
        let mut tmp: SearchCache<V> = SearchCache { keys: Vec::new(), vals: Vec::new(), max_size: 0, ttl_secs: 0 };
        std::mem::swap(&mut tmp, self);
        let SearchCache { keys: mut keys, vals: mut vals, max_size, ttl_secs } = tmp;
        keys.remove(j);
        vals.remove(j);
        assert forall|i: int, q: int|
            0 <= i < keys@.len() && 0 <= q < keys@.len() && i != q implies #[trigger] keys@[i]@ != #[trigger] keys@[q]@ by {
            let oi = if i < j { i } else { i + 1 };
            let oq = if q < j { q } else { q + 1 };
            assert(keys@[i] == ok[oi]);
            assert(keys@[q] == ok[oq]);
        }
        *self = SearchCache { keys, vals, max_size, ttl_secs };
        assert forall|k: Seq<char>| #[trigger] self@.contains_key(k) == old_map.remove(kj).contains_key(k) by {
            if self@.contains_key(k) {
                let c = choose|q: int| 0 <= q < self.keys@.len() && #[trigger] self.keys@[q]@ == k;
                let oc = if c < j { c } else { c + 1 };
                assert(ok[oc]@ == k);
                assert(old_map.contains_key(k));
                assert(oc != j);
            }
            if old_map.remove(kj).contains_key(k) {
                let c = choose|q: int| 0 <= q < ok.len() && #[trigger] ok[q]@ == k;
                assert(c != j);
                let nc = if c < j { c } else { c - 1 };
                assert(self.keys@[nc]@ == k);
            }
        }
        assert forall|k: Seq<char>| self@.contains_key(k) implies #[trigger] self@[k] == old_map.remove(kj)[k] by {
            let c = choose|q: int| 0 <= q < self.keys@.len() && #[trigger] self.keys@[q]@ == k;
            let oc = if c < j { c } else { c + 1 };
            assert(ok[oc]@ == k);
            let c2 = choose|q: int| 0 <= q < ok.len() && #[trigger] ok[q]@ == k;
            assert(c2 == oc);
            assert(self.vals@[c] == ov[oc]);
        }
        assert(self@ =~= old_map.remove(kj));
    }

    fn insert_entry(&mut self, key: String, results: V, now: u64)
        ensures
            final(self)@ == old(self)@.insert(key@, (results, now)),
            final(self).max_size == old(self).max_size,
            final(self).ttl_secs == old(self).ttl_secs,
    {
        proof {
            use_type_invariant(&*self);
        }
        let ghost old_map = self@;
        let ghost kv = key@;
        let ghost ok = self.keys@;
        let ghost ov = self.vals@;
        match self.index_of(key.as_str()) {
            Some(i) => {
                let mut tmp: SearchCache<V> = SearchCache { keys: Vec::new(), vals: Vec::new(), max_size: 0, ttl_secs: 0 };
                std::mem::swap(&mut tmp, self);
                let SearchCache { keys, vals: mut vals, max_size, ttl_secs } = tmp;
                vals.set(i, (results, now));
                *self = SearchCache { keys, vals, max_size, ttl_secs };
                assert forall|k: Seq<char>| #[trigger] self@.contains_key(k) == old_map.insert(kv, (results, now)).contains_key(k) by {
                    if k == kv {
                        assert(self.keys@[i as int]@ == k);
                    }
                    if old_map.contains_key(k) {
                        let c = choose|q: int| 0 <= q < ok.len() && #[trigger] ok[q]@ == k;
                        assert(self.keys@[c]@ == k);
                    }
                }
                assert forall|k: Seq<char>| self@.contains_key(k) implies #[trigger] self@[k] == old_map.insert(kv, (results, now))[k] by {
                    let c = choose|q: int| 0 <= q < self.keys@.len() && #[trigger] self.keys@[q]@ == k;
                    if k == kv {
                        assert(c == i);
                    } else {
                        let c2 = choose|q: int| 0 <= q < ok.len() && #[trigger] ok[q]@ == k;
                        assert(c == c2);
                    }
                }
                assert(self@ =~= old_map.insert(kv, (results, now)));
            },
            None => {
                let mut tmp: SearchCache<V> = SearchCache { keys: Vec::new(), vals: Vec::new(), max_size: 0, ttl_secs: 0 };
                std::mem::swap(&mut tmp, self);
                let SearchCache { keys: mut keys, vals: mut vals, max_size, ttl_secs } = tmp;
                keys.push(key);
                vals.push((results, now));
                let n = keys.len() - 1;
                assert forall|a: int, b: int|
                    0 <= a < keys@.len() && 0 <= b < keys@.len() && a != b implies #[trigger] keys@[a]@ != #[trigger] keys@[b]@ by {
                    if a < n && b < n {
                        assert(keys@[a] == ok[a] && keys@[b] == ok[b]);
                    } else if a == n {
                        assert(keys@[b] == ok[b]);
                    } else {
                        assert(keys@[a] == ok[a]);
                    }
                }
                *self = SearchCache { keys, vals, max_size, ttl_secs };
                assert forall|k: Seq<char>| #[trigger] self@.contains_key(k) == old_map.insert(kv, (results, now)).contains_key(k) by {
                    if k == kv {
                        assert(self.keys@[n as int]@ == k);
                    } else if old_map.contains_key(k) {
                        let c = choose|q: int| 0 <= q < ok.len() && #[trigger] ok[q]@ == k;
                        assert(self.keys@[c]@ == k);
                    }
                }
                assert forall|k: Seq<char>| self@.contains_key(k) implies #[trigger] self@[k] == old_map.insert(kv, (results, now))[k] by {
                    let c = choose|q: int| 0 <= q < self.keys@.len() && #[trigger] self.keys@[q]@ == k;
                    if k == kv {
                        assert(c == n);
                    } else {
                        let c2 = choose|q: int| 0 <= q < ok.len() && #[trigger] ok[q]@ == k;
                        assert(c == c2);
                    }
                }
                assert(self@ =~= old_map.insert(kv, (results, now)));
            },
        }
    }

    /// Drops every entry.
    pub fn clear(&mut self)
        ensures
            final(self)@ == Map::<Seq<char>, (V, u64)>::empty(),
            final(self).capacity() == old(self).capacity(),
            final(self).ttl() == old(self).ttl(),
    {
        let max_size = self.max_size;
        let ttl_secs = self.ttl_secs;
        *self = SearchCache { keys: Vec::new(), vals: Vec::new(), max_size, ttl_secs };
        assert(self@ =~= Map::<Seq<char>, (V, u64)>::empty());
    }

    /// The number of entries.
    pub fn len(&self) -> (res: usize)
        ensures
            res == self@.len(),
    {
        proof {
            use_type_invariant(self);
            self.lemma_len();
        }
        self.keys.len()
    }
}

} // verus!
