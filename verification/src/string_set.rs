use vstd::prelude::*;
use crate::strorder::sorted_distinct;
use crate::surface::{chars_views, copy_str, sorted_strings, strings_view};
use crate::text::{chars_of, str_eq};

verus! {

/// A set of strings, kept in the order they were first added.
pub struct StringSet {
    items: Vec<String>,
}

/// Whether some string of `v` reads `k`.
pub open spec fn holds(v: Seq<String>, k: Seq<char>) -> bool {
    exists|i: int| 0 <= i < v.len() && (#[trigger] v[i])@ == k
}

impl View for StringSet {
    type V = Set<Seq<char>>;

    closed spec fn view(&self) -> Set<Seq<char>> {
        Set::new(|k: Seq<char>| holds(self.items@, k))
    }
}

impl StringSet {
    /// No string is held twice.
    #[verifier::type_invariant]
    spec fn distinct(self) -> bool {
        forall|i: int, j: int|
            #![trigger self.items@[i], self.items@[j]]
            0 <= i < j < self.items@.len() ==> self.items@[i]@ != self.items@[j]@
    }

    /// The empty set.
    pub fn new() -> (s: Self)
        ensures
            s@ == Set::<Seq<char>>::empty(),
    {
        let s = StringSet { items: Vec::new() };
        assert(s@ =~= Set::<Seq<char>>::empty());
        s
    }

    /// Whether `k` is in the set.
    pub fn contains(&self, k: &str) -> (b: bool)
        ensures
            b == self@.contains(k@),
    {
        let mut i: usize = 0;
        while i < self.items.len()
            invariant
                i <= self.items@.len(),
                forall|j: int| 0 <= j < i ==> (#[trigger] self.items@[j])@ != k@,
            decreases self.items@.len() - i,
        {
            if str_eq(self.items[i].as_str(), k) {
                assert(holds(self.items@, k@));
                return true;
            }
            i = i + 1;
        }
        false
    }

    /// Adds `k`; returns whether it was new.
    pub fn insert(&mut self, k: String) -> (added: bool)
        ensures
            added == !old(self)@.contains(k@),
            final(self)@ == old(self)@.insert(k@),
    {
        if self.contains(k.as_str()) {
            assert(self@.insert(k@) =~= self@);
            return false;
        }
        proof {
            use_type_invariant(&*self);
        }
        let mut items: Vec<String> = Vec::new();
        std::mem::swap(&mut items, &mut self.items);
        let ghost before = items@;
        let ghost kv = k@;
        assert(forall|j: int| 0 <= j < before.len() ==> (#[trigger] before[j])@ != kv) by {
            assert forall|j: int| 0 <= j < before.len() implies (#[trigger] before[j])@ != kv by {
                if before[j]@ == kv {
                    assert(holds(before, kv));
                }
            }
        }
        items.push(k);
        proof {
            assert forall|q: Seq<char>| holds(items@, q) == (holds(before, q) || q == kv) by {
                if holds(before, q) {
                    let j = choose|j: int| 0 <= j < before.len() && (#[trigger] before[j])@ == q;
                    assert(items@[j] == before[j]);
                }
                if holds(items@, q) && q != kv {
                    let j = choose|j: int| 0 <= j < items@.len() && (#[trigger] items@[j])@ == q;
                    assert(j < before.len());
                    assert(before[j] == items@[j]);
                }
                if q == kv {
                    assert(items@[before.len() as int]@ == q);
                }
            }
            assert forall|i: int, j: int|
                #![trigger items@[i], items@[j]]
                0 <= i < j < items@.len() implies items@[i]@ != items@[j]@ by {
                if j == before.len() {
                    assert(items@[i] == before[i]);
                } else {
                    assert(items@[i] == before[i]);
                    assert(items@[j] == before[j]);
                }
            }
        }
        self.items = items;
        assert(self@ =~= Set::new(|q: Seq<char>| holds(before, q)).insert(kv));
        true
    }

    /// Takes `k` out; returns whether it was there.
    pub fn remove(&mut self, k: &str) -> (removed: bool)
        ensures
            removed == old(self)@.contains(k@),
            final(self)@ == old(self)@.remove(k@),
    {
        proof {
            use_type_invariant(&*self);
        }
        let ghost start = self.items@;
        let mut kept: Vec<String> = Vec::new();
        let mut found = false;
        let mut i: usize = 0;
        while i < self.items.len()
            invariant
                i <= self.items@.len(),
                self.items@ == start,
                forall|a: int, b: int|
                    #![trigger start[a], start[b]]
                    0 <= a < b < start.len() ==> start[a]@ != start[b]@,
                forall|a: int, b: int|
                    #![trigger kept@[a], kept@[b]]
                    0 <= a < b < kept@.len() ==> kept@[a]@ != kept@[b]@,
                forall|q: Seq<char>|
                    holds(kept@, q) == (q != k@ && exists|j: int|
                        0 <= j < i && (#[trigger] start[j])@ == q),
                found == exists|j: int| 0 <= j < i && (#[trigger] start[j])@ == k@,
            decreases self.items@.len() - i,
        {
            let ghost before = kept@;
            if str_eq(self.items[i].as_str(), k) {
                found = true;
            } else {
                let s = copy_str(self.items[i].as_str());
                proof {
                    assert forall|a: int| 0 <= a < before.len() implies (#[trigger] before[a])@
                        != s@ by {
                        assert(holds(before, before[a]@));
                        let j = choose|j: int| 0 <= j < i && (#[trigger] start[j])@ == before[a]@;
                        assert(start[j]@ != start[i as int]@);
                    }
                }
                kept.push(s);
                proof {
                    assert forall|a: int, b: int|
                        #![trigger kept@[a], kept@[b]]
                        0 <= a < b < kept@.len() implies kept@[a]@ != kept@[b]@ by {
                        assert(kept@[a] == before[a]);
                        if b < before.len() {
                            assert(kept@[b] == before[b]);
                        }
                    }
                    assert forall|q: Seq<char>|
                        holds(kept@, q) == (q != k@ && exists|j: int|
                            0 <= j < i + 1 && (#[trigger] start[j])@ == q) by {
                        if holds(kept@, q) {
                            let a = choose|a: int| 0 <= a < kept@.len() && (#[trigger] kept@[a])@ == q;
                            if a < before.len() {
                                assert(kept@[a] == before[a]);
                                assert(holds(before, q));
                            }
                        }
                        if q != k@ && exists|j: int| 0 <= j < i + 1 && (#[trigger] start[j])@ == q {
                            let j = choose|j: int| 0 <= j < i + 1 && (#[trigger] start[j])@ == q;
                            if j < i {
                                assert(holds(before, q));
                                let a = choose|a: int| 0 <= a < before.len() && (#[trigger] before[a])@ == q;
                                assert(kept@[a] == before[a]);
                            } else {
                                assert(kept@[before.len() as int] == s);
                            }
                        }
                    }
                }
            }
            proof {
                if !(self.items@[i as int]@ != k@) {
                    assert forall|q: Seq<char>|
                        holds(kept@, q) == (q != k@ && exists|j: int|
                            0 <= j < i + 1 && (#[trigger] start[j])@ == q) by {
                        if q != k@ && exists|j: int| 0 <= j < i + 1 && (#[trigger] start[j])@ == q {
                            let j = choose|j: int| 0 <= j < i + 1 && (#[trigger] start[j])@ == q;
                            assert(j < i);
                        }
                    }
                }
            }
            i = i + 1;
        }
        self.items = kept;
        proof {
            assert(self@ =~= Set::new(|q: Seq<char>| holds(start, q)).remove(k@)) by {
                assert forall|q: Seq<char>| holds(start, q) == (exists|j: int|
                    0 <= j < i && (#[trigger] start[j])@ == q) by {}
            }
            if found {
                assert(holds(start, k@));
            }
        }
        found
    }

    /// How many strings the set holds.
    pub fn len(&self) -> (n: usize)
        ensures
            n == self@.len(),
            self@.finite(),
    {
        proof {
            use_type_invariant(self);
            let s = strings_view(self.items@);
            assert(s.no_duplicates()) by {
                assert forall|i: int, j: int|
                    0 <= i < s.len() && 0 <= j < s.len() && i != j implies s[i] != s[j] by {
                    if i < j {
                        assert(self.items@[i]@ != self.items@[j]@);
                    } else {
                        assert(self.items@[j]@ != self.items@[i]@);
                    }
                }
            }
            assert(s.to_set() =~= self@) by {
                assert forall|q: Seq<char>| s.to_set().contains(q) == self@.contains(q) by {
                    if s.contains(q) {
                        let j = choose|j: int| 0 <= j < s.len() && s[j] == q;
                        assert(self.items@[j]@ == q);
                    }
                    if holds(self.items@, q) {
                        let j = choose|j: int| 0 <= j < self.items@.len() && (#[trigger] self.items@[j])@ == q;
                        assert(s[j] == q);
                    }
                }
            }
            s.unique_seq_to_set();
        }
        self.items.len()
    }

    /// The strings of the set, in the order they were added.
    pub fn items(&self) -> (v: &Vec<String>)
        ensures
            forall|k: Seq<char>| self@.contains(k) <==> holds(v@, k),
    {
        &self.items
    }

    /// The strings of the set, each once, in increasing order.
    pub fn sorted_items(&self) -> (v: Vec<String>)
        ensures
            strings_view(v@) == sorted_distinct(self@),
    {
        let mut chars: Vec<Vec<char>> = Vec::new();
        let mut i: usize = 0;
        while i < self.items.len()
            invariant
                i <= self.items@.len(),
                chars_views(chars@) == strings_view(self.items@).take(i as int),
            decreases self.items@.len() - i,
        {
            let ghost before = chars@;
            chars.push(chars_of(self.items[i].as_str()));
            assert(chars_views(chars@) =~= chars_views(before).push(self.items@[i as int]@));
            assert(strings_view(self.items@).take(i + 1) =~= strings_view(self.items@).take(
                i as int,
            ).push(self.items@[i as int]@));
            i = i + 1;
        }
        proof {
            let s = strings_view(self.items@);
            assert(s.take(i as int) =~= s);
            assert(s.to_set() =~= self@) by {
                assert forall|q: Seq<char>| s.to_set().contains(q) == self@.contains(q) by {
                    if s.contains(q) {
                        let j = choose|j: int| 0 <= j < s.len() && s[j] == q;
                        assert(self.items@[j]@ == q);
                    }
                    if holds(self.items@, q) {
                        let j = choose|j: int| 0 <= j < self.items@.len() && (#[trigger] self.items@[j])@ == q;
                        assert(s[j] == q);
                    }
                }
            }
        }
        sorted_strings(&chars)
    }
}

} // verus!
