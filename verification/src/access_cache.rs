use vstd::prelude::*;

verus! {

/// One cached value, under its key, with the time it was last used.
pub struct CacheSlot<V> {
    pub key: String,
    pub value: V,
    pub last_access_epoch_ms: u64,
}

/// A bounded in-memory cache keyed by strings that remembers when each entry
/// was last used, so that the least recently used entries can be evicted and
/// idle ones expired. Its view maps each key to its value and last access.
pub struct AccessCache<V> {
    slots: Vec<CacheSlot<V>>,
    contents: Ghost<Map<Seq<char>, (V, u64)>>,
}

impl<V> View for AccessCache<V> {
    type V = Map<Seq<char>, (V, u64)>;

    closed spec fn view(&self) -> Map<Seq<char>, (V, u64)> {
        self.contents@
    }
}

/// The last access time of `key` in a cache view.
pub open spec fn access_of<V>(m: Map<Seq<char>, (V, u64)>, key: Seq<char>) -> u64 {
    m[key].1
}

/// `after` is what evicting least recently used entries from `before` down
/// to `max_entries` leaves: only entries of `before`, unchanged; as many as
/// fit; and no evicted entry was used later than any kept one.
pub open spec fn evicted_oldest<V>(
    before: Map<Seq<char>, (V, u64)>,
    after: Map<Seq<char>, (V, u64)>,
    max_entries: nat,
) -> bool {
    &&& after.dom().finite()
    &&& after <= before
    &&& after.len() == (if before.len() <= max_entries {
        before.len()
    } else {
        max_entries
    })
    &&& forall|gone: Seq<char>, kept: Seq<char>|
        #![trigger before.contains_key(gone), after.contains_key(kept)]
        before.contains_key(gone) && !after.contains_key(gone) && after.contains_key(kept)
            ==> access_of(before, gone) <= access_of(after, kept)
}

/// Whether an entry last used at `last_access` is still fresh at `now` under
/// the idle limit `ttl` (the elapsed time saturates at zero).
pub open spec fn is_fresh(now: u64, last_access: u64, ttl: u64) -> bool {
    (if now >= last_access {
        now - last_access
    } else {
        0
    }) <= ttl
}

impl<V> AccessCache<V> {
    /// The slots and the map agree, and no key occurs twice.
    pub closed spec fn wf(&self) -> bool {
        &&& self.contents@.dom().finite()
        &&& self.contents@.dom().len() == self.slots@.len()
        &&& forall|i: int|
            #![trigger self.slots@[i]]
            0 <= i < self.slots@.len() ==> self.contents@.contains_key(self.slots@[i].key@)
                && self.contents@[self.slots@[i].key@] == (
                self.slots@[i].value,
                self.slots@[i].last_access_epoch_ms,
            )
        &&& forall|i: int, j: int|
            #![trigger self.slots@[i], self.slots@[j]]
            0 <= i < j < self.slots@.len() ==> self.slots@[i].key@ != self.slots@[j].key@
        &&& forall|k: Seq<char>|
            #![trigger self.contents@.contains_key(k)]
            self.contents@.contains_key(k) ==> exists|i: int|
                0 <= i < self.slots@.len() && #[trigger] self.slots@[i].key@ == k
    }

    /// A well-formed cache holds finitely many entries.
    pub proof fn lemma_view_finite(&self)
        requires
            self.wf(),
        ensures
            self@.dom().finite(),
    {
    }

    /// An empty cache.
    pub fn new() -> (c: Self)
        ensures
            c.wf(),
            c@ == Map::<Seq<char>, (V, u64)>::empty(),
    {
        AccessCache { slots: Vec::new(), contents: Ghost(Map::empty()) }
    }

    /// How many entries the cache holds.
    pub fn len(&self) -> (n: usize)
        requires
            self.wf(),
        ensures
            n == self@.len(),
    {
        self.slots.len()
    }

    fn index_of(&self, key: &String) -> (r: Option<usize>)
        requires
            self.wf(),
        ensures
            match r {
                Some(i) => i < self.slots@.len() && self.slots@[i as int].key@ == key@,
                None => !self@.contains_key(key@),
            },
    {
        let mut i: usize = 0;
        while i < self.slots.len()
            invariant
                self.wf(),
                i <= self.slots@.len(),
                forall|j: int| 0 <= j < i ==> #[trigger] self.slots@[j].key@ != key@,
            decreases self.slots@.len() - i,
        {
            if self.slots[i].key == *key {
                return Some(i);
            }
            i = i + 1;
        }
        None
    }

    /// The value cached under `key`, if any.
    pub fn get(&self, key: &String) -> (r: Option<&V>)
        requires
            self.wf(),
        ensures
            match r {
                Some(v) => self@.contains_key(key@) && *v == self@[key@].0,
                None => !self@.contains_key(key@),
            },
    {
        match self.index_of(key) {
            Some(i) => Some(&self.slots[i].value),
            None => None,
        }
    }

    /// When `key` was last used, if it is cached.
    pub fn last_access(&self, key: &String) -> (r: Option<u64>)
        requires
            self.wf(),
        ensures
            match r {
                Some(t) => self@.contains_key(key@) && t == self@[key@].1,
                None => !self@.contains_key(key@),
            },
    {
        match self.index_of(key) {
            Some(i) => Some(self.slots[i].last_access_epoch_ms),
            None => None,
        }
    }

    /// Marks `key` as used at `now_ms`; returns whether it was cached.
    pub fn touch(&mut self, key: &String, now_ms: u64) -> (hit: bool)
        requires
            old(self).wf(),
        ensures
            final(self).wf(),
            hit == old(self)@.contains_key(key@),
            final(self)@ == (if hit {
                old(self)@.insert(key@, (old(self)@[key@].0, now_ms))
            } else {
                old(self)@
            }),
    {
        match self.index_of(key) {
            Some(i) => {
                let ghost old_map = self.contents@;
                let ghost old_slots = self.slots@;
                self.slots[i].last_access_epoch_ms = now_ms;
                self.contents = Ghost(old_map.insert(key@, (old_map[key@].0, now_ms)));
                proof {
                    assert(old_map.insert(key@, (old_map[key@].0, now_ms)).dom() =~= old_map.dom());
                    assert forall|k: Seq<char>| #[trigger]
                        self.contents@.contains_key(k) implies exists|j: int|
                        0 <= j < self.slots@.len() && #[trigger] self.slots@[j].key@ == k by {
                        let j = choose|j: int|
                            0 <= j < old_slots.len() && #[trigger] old_slots[j].key@ == k;
                        assert(self.slots@[j].key@ == k);
                    }
                }
                true
            },
            None => false,
        }
    }

    /// Caches `value` under `key`, used at `now_ms`, replacing any entry there.
    pub fn insert(&mut self, key: String, value: V, now_ms: u64)
        requires
            old(self).wf(),
        ensures
            final(self).wf(),
            final(self)@ == old(self)@.insert(key@, (value, now_ms)),
    {
        let ghost old_map = self.contents@;
        let ghost old_slots = self.slots@;
        let ghost k = key@;
        match self.index_of(&key) {
            Some(i) => {
                self.slots.set(i, CacheSlot { key, value, last_access_epoch_ms: now_ms });
                self.contents = Ghost(old_map.insert(k, (value, now_ms)));
                proof {
                    assert(old_map.insert(k, (value, now_ms)).dom() =~= old_map.dom());
                    assert forall|q: Seq<char>| #[trigger]
                        self.contents@.contains_key(q) implies exists|j: int|
                        0 <= j < self.slots@.len() && #[trigger] self.slots@[j].key@ == q by {
                        let j = choose|j: int|
                            0 <= j < old_slots.len() && #[trigger] old_slots[j].key@ == q;
                        assert(self.slots@[j].key@ == q);
                    }
                }
            },
            None => {
                self.slots.push(CacheSlot { key, value, last_access_epoch_ms: now_ms });
                self.contents = Ghost(old_map.insert(k, (value, now_ms)));
                proof {
                    assert(old_map.insert(k, (value, now_ms)).dom() =~= old_map.dom().insert(k));
                    let n = old_slots.len() as int;
                    assert(self.slots@[n].key@ == k);
                    assert forall|q: Seq<char>| #[trigger]
                        self.contents@.contains_key(q) implies exists|j: int|
                        0 <= j < self.slots@.len() && #[trigger] self.slots@[j].key@ == q by {
                        if q != k {
                            let j = choose|j: int|
                                0 <= j < old_slots.len() && #[trigger] old_slots[j].key@ == q;
                            assert(self.slots@[j].key@ == q);
                        }
                    }
                }
            },
        }
    }

    fn remove_at(&mut self, i: usize)
        requires
            old(self).wf(),
            i < old(self).slots@.len(),
        ensures
            final(self).wf(),
            final(self)@ == old(self)@.remove(old(self).slots@[i as int].key@),
            final(self).slots@ == old(self).slots@.remove(i as int),
    {
        let ghost old_map = self.contents@;
        let ghost old_slots = self.slots@;
        let ghost k = self.slots@[i as int].key@;
        self.slots.remove(i);
        self.contents = Ghost(old_map.remove(k));
        proof {
            assert(old_map.remove(k).dom() =~= old_map.dom().remove(k));
            assert forall|j: int|
                #![trigger self.slots@[j]]
                0 <= j < self.slots@.len() implies self.contents@.contains_key(self.slots@[j].key@)
                && self.contents@[self.slots@[j].key@] == (
                self.slots@[j].value,
                self.slots@[j].last_access_epoch_ms,
            ) by {
                if j < i {
                    assert(self.slots@[j] == old_slots[j]);
                    assert(old_slots[j].key@ != k);
                } else {
                    assert(self.slots@[j] == old_slots[j + 1]);
                    assert(old_slots[j + 1].key@ != k);
                }
            }
            assert forall|a: int, b: int|
                #![trigger self.slots@[a], self.slots@[b]]
                0 <= a < b < self.slots@.len() implies self.slots@[a].key@
                != self.slots@[b].key@ by {
                let a0 = if a < i {
                    a
                } else {
                    a + 1
                };
                let b0 = if b < i {
                    b
                } else {
                    b + 1
                };
                assert(self.slots@[a] == old_slots[a0]);
                assert(self.slots@[b] == old_slots[b0]);
                assert(old_slots[a0].key@ != old_slots[b0].key@);
            }
            assert forall|q: Seq<char>| #[trigger]
                self.contents@.contains_key(q) implies exists|j: int|
                0 <= j < self.slots@.len() && #[trigger] self.slots@[j].key@ == q by {
                let j = choose|j: int| 0 <= j < old_slots.len() && #[trigger] old_slots[j].key@ == q;
                assert(j != i);
                if j < i {
                    assert(self.slots@[j] == old_slots[j]);
                } else {
                    assert(self.slots@[j - 1] == old_slots[j]);
                }
            }
        }
    }

    /// Drops the entry under `key`, if any.
    pub fn remove(&mut self, key: &String)
        requires
            old(self).wf(),
        ensures
            final(self).wf(),
            final(self)@ == old(self)@.remove(key@),
    {
        match self.index_of(key) {
            Some(i) => {
                self.remove_at(i);
            },
            None => {
                assert(self.contents@.remove(key@) =~= self.contents@);
            },
        }
    }

    fn oldest_index(&self) -> (i: usize)
        requires
            self.wf(),
            self.slots@.len() > 0,
        ensures
            i < self.slots@.len(),
            forall|j: int|
                0 <= j < self.slots@.len() ==> self.slots@[i as int].last_access_epoch_ms
                    <= #[trigger] self.slots@[j].last_access_epoch_ms,
    {
        let mut best: usize = 0;
        let mut j: usize = 1;
        while j < self.slots.len()
            invariant
                self.wf(),
                self.slots@.len() > 0,
                best < j <= self.slots@.len(),
                forall|q: int|
                    0 <= q < j ==> self.slots@[best as int].last_access_epoch_ms
                        <= #[trigger] self.slots@[q].last_access_epoch_ms,
            decreases self.slots@.len() - j,
        {
            if self.slots[j].last_access_epoch_ms < self.slots[best].last_access_epoch_ms {
                best = j;
            }
            j = j + 1;
        }
        best
    }

    /// Evicts least recently used entries until at most `max_entries` remain.
    pub fn evict_oldest(&mut self, max_entries: usize)
        requires
            old(self).wf(),
        ensures
            final(self).wf(),
            evicted_oldest(old(self)@, final(self)@, max_entries as nat),
    {
        let ghost start = self.contents@;
        while self.slots.len() > max_entries
            invariant
                self.wf(),
                self.contents@ <= start,
                start.dom().finite(),
                self.contents@.len() >= max_entries || self.contents@ == start,
                self.contents@.len() <= start.len(),
                forall|gone: Seq<char>, kept: Seq<char>|
                    #![trigger start.contains_key(gone), self.contents@.contains_key(kept)]
                    start.contains_key(gone) && !self.contents@.contains_key(gone)
                        && self.contents@.contains_key(kept) ==> access_of(start, gone)
                        <= access_of(self.contents@, kept),
            decreases self.slots@.len(),
        {
            let i = self.oldest_index();
            let ghost before = self.contents@;
            let ghost slots_before = self.slots@;
            let ghost victim = self.slots@[i as int].key@;
            self.remove_at(i);
            proof {
                assert forall|gone: Seq<char>, kept: Seq<char>|
                    #![trigger start.contains_key(gone), self.contents@.contains_key(kept)]
                    start.contains_key(gone) && !self.contents@.contains_key(gone)
                        && self.contents@.contains_key(kept) implies access_of(start, gone)
                    <= access_of(self.contents@, kept) by {
                    assert(before.contains_key(kept));
                    let j = choose|j: int|
                        0 <= j < slots_before.len() && #[trigger] slots_before[j].key@ == kept;
                    assert(slots_before[j].last_access_epoch_ms == before[kept].1);
                    if gone == victim {
                        assert(start[gone] == before[gone]);
                    }
                }
            }
        }
        proof {
            if self.contents@.len() < start.len() {
                assert(self.contents@.len() <= max_entries);
            }
        }
    }

    /// Drops the entries idle for longer than `ttl_ms` at `now_ms`; a zero
    /// `ttl_ms` keeps everything.
    pub fn retain_fresh(&mut self, now_ms: u64, ttl_ms: u64)
        requires
            old(self).wf(),
        ensures
            final(self).wf(),
            ttl_ms == 0 ==> final(self)@ == old(self)@,
            ttl_ms != 0 ==> final(self)@ == old(self)@.restrict(
                old(self)@.dom().filter(
                    |k: Seq<char>| is_fresh(now_ms, old(self)@[k].1, ttl_ms),
                ),
            ),
    {
        if ttl_ms == 0 {
            return;
        }
        let ghost start = self.contents@;
        let ghost keep = start.dom().filter(|k: Seq<char>| is_fresh(now_ms, start[k].1, ttl_ms));
        let mut i: usize = 0;
        while i < self.slots.len()
            invariant
                self.wf(),
                i <= self.slots@.len(),
                self.contents@ <= start,
                forall|j: int|
                    #![trigger self.slots@[j]]
                    0 <= j < i ==> is_fresh(now_ms, self.slots@[j].last_access_epoch_ms, ttl_ms),
                forall|k: Seq<char>|
                    #![trigger start.contains_key(k)]
                    start.contains_key(k) && is_fresh(now_ms, start[k].1, ttl_ms)
                        ==> self.contents@.contains_key(k),
            decreases self.slots@.len() - i,
        {
            let last = self.slots[i].last_access_epoch_ms;
            let elapsed = now_ms.saturating_sub(last);
            if elapsed <= ttl_ms {
                i = i + 1;
            } else {
                let ghost slots_before = self.slots@;
                let ghost before = self.contents@;
                self.remove_at(i);
                proof {
                    assert forall|j: int|
                        #![trigger self.slots@[j]]
                        0 <= j < i implies is_fresh(
                        now_ms,
                        self.slots@[j].last_access_epoch_ms,
                        ttl_ms,
                    ) by {
                        assert(self.slots@[j] == slots_before[j]);
                    }
                }
            }
        }
        proof {
            assert forall|k: Seq<char>| #[trigger]
                self.contents@.contains_key(k) implies keep.contains(k) by {
                let j = choose|j: int|
                    0 <= j < self.slots@.len() && #[trigger] self.slots@[j].key@ == k;
                assert(self.contents@[k].1 == self.slots@[j].last_access_epoch_ms);
            }
            assert(self.contents@ =~= start.restrict(keep));
        }
    }
}


/// A cached value with an estimated size in bytes.
pub trait CacheWeight {
    /// The estimated size.
    spec fn weight_spec(&self) -> nat;

    /// Reports the estimated size.
    fn weight(&self) -> (w: u64)
        ensures
            w == self.weight_spec(),
    ;
}

/// The summed estimated sizes of the values of a cache view.
pub open spec fn weight_sum<V: CacheWeight>(m: Map<Seq<char>, (V, u64)>) -> nat
    decreases m.dom().len(),
{
    if m.dom().finite() && m.dom().len() > 0 {
        let k = m.dom().choose();
        proof {
            assert(m.dom().contains(k));
            assert(m.remove(k).dom() =~= m.dom().remove(k));
        }
        m[k].0.weight_spec() + weight_sum(m.remove(k))
    } else {
        0
    }
}

/// `n`, or `u64::MAX` when it is larger.
pub open spec fn saturated(n: nat) -> nat {
    if n > u64::MAX {
        u64::MAX as nat
    } else {
        n
    }
}

/// Whether a cache view holds at most `max_entries` entries and, when
/// `max_bytes` is not zero, at most `max_bytes` estimated bytes (summed
/// with saturation).
pub open spec fn within_budget<V: CacheWeight>(
    m: Map<Seq<char>, (V, u64)>,
    max_entries: nat,
    max_bytes: u64,
) -> bool {
    m.len() <= max_entries && (max_bytes == 0 || saturated(weight_sum(m)) <= max_bytes)
}

/// Taking any one entry out of the sum leaves the sum of the rest.
pub proof fn lemma_weight_sum_remove<V: CacheWeight>(m: Map<Seq<char>, (V, u64)>, k: Seq<char>)
    requires
        m.dom().finite(),
        m.dom().contains(k),
    ensures
        weight_sum(m) == m[k].0.weight_spec() + weight_sum(m.remove(k)),
    decreases m.dom().len(),
{
    let c = m.dom().choose();
    assert(m.remove(k).dom() =~= m.dom().remove(k));
    if c != k {
        let mc = m.remove(c);
        assert(mc.dom() =~= m.dom().remove(c));
        assert(mc.dom().contains(k));
        lemma_weight_sum_remove(mc, k);
        let mk = m.remove(k);
        assert(mk.dom().contains(c));
        lemma_weight_sum_remove(mk, c);
        assert(mc.remove(k) =~= mk.remove(c));
    }
}

proof fn lemma_weight_sum_insert<V: CacheWeight>(m: Map<Seq<char>, (V, u64)>, k: Seq<char>, v: (V, u64))
    requires
        m.dom().finite(),
        !m.dom().contains(k),
    ensures
        weight_sum(m.insert(k, v)) == v.0.weight_spec() + weight_sum(m),
{
    lemma_weight_sum_remove(m.insert(k, v), k);
    assert(m.insert(k, v).remove(k) =~= m);
}

impl<V: CacheWeight> AccessCache<V> {
    /// The summed estimated sizes of the entries, saturating at `u64::MAX`.
    pub fn total_weight(&self) -> (t: u64)
        requires
            self.wf(),
        ensures
            t == saturated(weight_sum(self@)),
    {
        let mut t: u64 = 0;
        let mut i: usize = 0;
        while i < self.slots.len()
            invariant
                self.wf(),
                i <= self.slots@.len(),
                t == saturated(
                    weight_sum(
                        self@.restrict(
                            Set::new(
                                |k: Seq<char>|
                                    exists|j: int| 0 <= j < i && #[trigger] self.slots@[j].key@ == k,
                            ),
                        ),
                    ),
                ),
            decreases self.slots@.len() - i,
        {
            let ghost before = self@.restrict(
                Set::new(|k: Seq<char>| exists|j: int| 0 <= j < i && #[trigger] self.slots@[j].key@ == k),
            );
            let ghost after = self@.restrict(
                Set::new(|k: Seq<char>| exists|j: int| 0 <= j < i + 1 && #[trigger] self.slots@[j].key@ == k),
            );
            let ghost key = self.slots@[i as int].key@;
            proof {
                assert(before.dom().subset_of(self@.dom()));
                vstd::set_lib::lemma_len_subset(before.dom(), self@.dom());
                assert(before.dom().finite()) by {
                    vstd::set_lib::lemma_set_subset_finite(self@.dom(), before.dom());
                }
                assert(!before.dom().contains(key)) by {
                    if before.dom().contains(key) {
                        let j = choose|j: int| 0 <= j < i && #[trigger] self.slots@[j].key@ == key;
                        assert(self.slots@[j].key@ != self.slots@[i as int].key@);
                    }
                }
                assert(after =~= before.insert(key, self@[key]));
                lemma_weight_sum_insert(before, key, self@[key]);
                assert(self@[key].0 == self.slots@[i as int].value);
            }
            t = t.saturating_add(self.slots[i].value.weight());
            i = i + 1;
        }
        proof {
            let all = self@.restrict(
                Set::new(|k: Seq<char>| exists|j: int| 0 <= j < i && #[trigger] self.slots@[j].key@ == k),
            );
            assert(all =~= self@);
        }
        t
    }

    /// Evicts least recently used entries until at most `max_entries`
    /// remain and, when `max_bytes` is not zero, their estimated sizes sum
    /// to at most `max_bytes`.
    pub fn evict_oldest_within(&mut self, max_entries: usize, max_bytes: u64)
        requires
            old(self).wf(),
        ensures
            final(self).wf(),
            final(self)@ <= old(self)@,
            within_budget(final(self)@, max_entries as nat, max_bytes),
            forall|gone: Seq<char>, kept: Seq<char>|
                #![trigger old(self)@.contains_key(gone), final(self)@.contains_key(kept)]
                old(self)@.contains_key(gone) && !final(self)@.contains_key(gone)
                    && final(self)@.contains_key(kept) ==> access_of(old(self)@, gone)
                    <= access_of(final(self)@, kept),
            final(self)@ != old(self)@ ==> exists|g: Seq<char>|
                old(self)@.contains_key(g) && !final(self)@.contains_key(g) && !within_budget(
                    #[trigger] final(self)@.insert(g, old(self)@[g]),
                    max_entries as nat,
                    max_bytes,
                ),
    {
        let ghost start = self.contents@;
        loop
            invariant_except_break
                self.wf(),
                self.contents@ <= start,
                start.dom().finite(),
                forall|gone: Seq<char>, kept: Seq<char>|
                    #![trigger start.contains_key(gone), self.contents@.contains_key(kept)]
                    start.contains_key(gone) && !self.contents@.contains_key(gone)
                        && self.contents@.contains_key(kept) ==> access_of(start, gone)
                        <= access_of(self.contents@, kept),
                self.contents@ != start ==> exists|g: Seq<char>|
                    start.contains_key(g) && !self.contents@.contains_key(g) && !within_budget(
                        #[trigger] self.contents@.insert(g, start[g]),
                        max_entries as nat,
                        max_bytes,
                    ),
            ensures
                self.wf(),
                self.contents@ <= start,
                within_budget(self.contents@, max_entries as nat, max_bytes),
                forall|gone: Seq<char>, kept: Seq<char>|
                    #![trigger start.contains_key(gone), self.contents@.contains_key(kept)]
                    start.contains_key(gone) && !self.contents@.contains_key(gone)
                        && self.contents@.contains_key(kept) ==> access_of(start, gone)
                        <= access_of(self.contents@, kept),
                self.contents@ != start ==> exists|g: Seq<char>|
                    start.contains_key(g) && !self.contents@.contains_key(g) && !within_budget(
                        #[trigger] self.contents@.insert(g, start[g]),
                        max_entries as nat,
                        max_bytes,
                    ),
            decreases self.slots@.len(),
        {
            let total = self.total_weight();
            let over = self.slots.len() > max_entries || (max_bytes > 0 && total > max_bytes);
            if !over {
                break;
            }
            if self.slots.len() == 0 {
                proof {
                    assert(self.contents@.dom() =~= Set::<Seq<char>>::empty());
                    assert(weight_sum(self.contents@) == 0);
                }
                break;
            }
            let i = self.oldest_index();
            let ghost before = self.contents@;
            let ghost slots_before = self.slots@;
            let ghost victim = self.slots@[i as int].key@;
            self.remove_at(i);
            proof {
                assert forall|gone: Seq<char>, kept: Seq<char>|
                    #![trigger start.contains_key(gone), self.contents@.contains_key(kept)]
                    start.contains_key(gone) && !self.contents@.contains_key(gone)
                        && self.contents@.contains_key(kept) implies access_of(start, gone)
                    <= access_of(self.contents@, kept) by {
                    assert(before.contains_key(kept));
                    let j = choose|j: int|
                        0 <= j < slots_before.len() && #[trigger] slots_before[j].key@ == kept;
                    assert(slots_before[j].last_access_epoch_ms == before[kept].1);
                    if gone == victim {
                        assert(start[gone] == before[gone]);
                    }
                }
                assert(start.contains_key(victim));
                assert forall|k: Seq<char>| #[trigger] self.contents@.contains_key(k) implies start.contains_key(k)
                    && start[k] == self.contents@[k] by {
                    assert(before.contains_key(k));
                }
                assert(self.contents@ <= start);
                assert(self.contents@.insert(victim, start[victim]) =~= before);
                assert(!within_budget(before, max_entries as nat, max_bytes));
            }
        }
    }
}
} // verus!
