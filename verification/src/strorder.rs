use vstd::prelude::*;

verus! {

/// The order of `String`s: by code point, a proper prefix first.
pub open spec fn str_lt(a: Seq<char>, b: Seq<char>) -> bool
    decreases a.len(),
{
    if b.len() == 0 {
        false
    } else if a.len() == 0 {
        true
    } else if a[0] != b[0] {
        (a[0] as int) < (b[0] as int)
    } else {
        str_lt(a.drop_first(), b.drop_first())
    }
}

pub proof fn lemma_str_lt_irreflexive(a: Seq<char>)
    ensures
        !str_lt(a, a),
    decreases a.len(),
{
    if a.len() > 0 {
        lemma_str_lt_irreflexive(a.drop_first());
    }
}

pub proof fn lemma_str_lt_transitive(a: Seq<char>, b: Seq<char>, c: Seq<char>)
    requires
        str_lt(a, b),
        str_lt(b, c),
    ensures
        str_lt(a, c),
    decreases a.len(),
{
    if a.len() > 0 && b.len() > 0 && c.len() > 0 && a[0] == b[0] && b[0] == c[0] {
        lemma_str_lt_transitive(a.drop_first(), b.drop_first(), c.drop_first());
    }
}

pub proof fn lemma_str_lt_total(a: Seq<char>, b: Seq<char>)
    requires
        a != b,
    ensures
        str_lt(a, b) || str_lt(b, a),
    decreases a.len(),
{
    if a.len() == 0 {
        assert(b.len() > 0) by {
            if b.len() == 0 {
                assert(a =~= b);
            }
        }
    } else if b.len() == 0 {
    } else if a[0] == b[0] {
        if a.drop_first() == b.drop_first() {
            assert(a =~= seq![a[0]] + a.drop_first());
            assert(b =~= seq![b[0]] + b.drop_first());
        }
        lemma_str_lt_total(a.drop_first(), b.drop_first());
    }
}

pub proof fn lemma_str_lt_asymmetric(a: Seq<char>, b: Seq<char>)
    ensures
        str_lt(a, b) ==> !str_lt(b, a),
{
    if str_lt(a, b) && str_lt(b, a) {
        lemma_str_lt_transitive(a, b, a);
        lemma_str_lt_irreflexive(a);
    }
}

/// Whether `s` is in strictly increasing order, so without duplicates.
pub open spec fn strictly_sorted(s: Seq<Seq<char>>) -> bool {
    forall|i: int, j: int| 0 <= i < j < s.len() ==> str_lt(#[trigger] s[i], #[trigger] s[j])
}

/// The one strictly increasing sequence that holds exactly the strings of
/// `set`.
pub open spec fn sorted_distinct(set: Set<Seq<char>>) -> Seq<Seq<char>> {
    choose|s: Seq<Seq<char>>| strictly_sorted(s) && s.to_set() == set
}

proof fn lemma_strictly_sorted_min(s: Seq<Seq<char>>, x: Seq<char>)
    requires
        strictly_sorted(s),
        s.len() > 0,
        s.contains(x),
        x != s[0],
    ensures
        str_lt(s[0], x),
{
    let k = choose|k: int| 0 <= k < s.len() && s[k] == x;
    assert(k != 0);
}

/// Two strictly increasing sequences with the same strings are equal.
pub proof fn lemma_strictly_sorted_unique(a: Seq<Seq<char>>, b: Seq<Seq<char>>)
    requires
        strictly_sorted(a),
        strictly_sorted(b),
        a.to_set() == b.to_set(),
    ensures
        a == b,
    decreases a.len(),
{
    if a.len() == 0 {
        if b.len() > 0 {
            assert(b.to_set().contains(b[0]));
            assert(a.to_set().contains(b[0]));
        }
        assert(a =~= b);
    } else if b.len() == 0 {
        assert(a.to_set().contains(a[0]));
        assert(b.to_set().contains(a[0]));
    } else {
        assert(a.to_set().contains(a[0]));
        assert(b.to_set().contains(b[0]));
        assert(b.contains(a[0]));
        assert(a.contains(b[0]));
        if a[0] != b[0] {
            lemma_strictly_sorted_min(b, a[0]);
            lemma_strictly_sorted_min(a, b[0]);
            lemma_str_lt_asymmetric(a[0], b[0]);
        }
        let ta = a.drop_first();
        let tb = b.drop_first();
        assert(strictly_sorted(ta)) by {
            assert forall|i: int, j: int| 0 <= i < j < ta.len() implies str_lt(
                #[trigger] ta[i],
                #[trigger] ta[j],
            ) by {
                assert(ta[i] == a[i + 1]);
                assert(ta[j] == a[j + 1]);
            }
        }
        assert(strictly_sorted(tb)) by {
            assert forall|i: int, j: int| 0 <= i < j < tb.len() implies str_lt(
                #[trigger] tb[i],
                #[trigger] tb[j],
            ) by {
                assert(tb[i] == b[i + 1]);
                assert(tb[j] == b[j + 1]);
            }
        }
        assert(ta.to_set() =~= tb.to_set()) by {
            assert forall|x: Seq<char>| ta.to_set().contains(x) implies tb.to_set().contains(x) by {
                let k = choose|k: int| 0 <= k < ta.len() && ta[k] == x;
                assert(a[k + 1] == x);
                assert(a.to_set().contains(x));
                assert(b.contains(x));
                let m = choose|m: int| 0 <= m < b.len() && b[m] == x;
                lemma_str_lt_irreflexive(x);
                if m == 0 {
                    assert(str_lt(a[0], a[k + 1]));
                }
                assert(tb[m - 1] == x);
            }
            assert forall|x: Seq<char>| tb.to_set().contains(x) implies ta.to_set().contains(x) by {
                let k = choose|k: int| 0 <= k < tb.len() && tb[k] == x;
                assert(b[k + 1] == x);
                assert(b.to_set().contains(x));
                assert(a.contains(x));
                let m = choose|m: int| 0 <= m < a.len() && a[m] == x;
                lemma_str_lt_irreflexive(x);
                if m == 0 {
                    assert(str_lt(b[0], b[k + 1]));
                }
                assert(ta[m - 1] == x);
            }
        }
        lemma_strictly_sorted_unique(ta, tb);
        assert(a =~= seq![a[0]] + ta);
        assert(b =~= seq![b[0]] + tb);
    }
}

/// A strictly increasing sequence is the sorted form of its strings.
pub proof fn lemma_sorted_distinct_of(s: Seq<Seq<char>>)
    requires
        strictly_sorted(s),
    ensures
        sorted_distinct(s.to_set()) == s,
{
    let c = sorted_distinct(s.to_set());
    assert(strictly_sorted(c) && c.to_set() == s.to_set());
    lemma_strictly_sorted_unique(c, s);
}

pub(crate) fn str_lt_exec(a: &Vec<char>, b: &Vec<char>) -> (r: bool)
    ensures
        r == str_lt(a@, b@),
{
    let mut i: usize = 0;
    assert(a@.skip(0) =~= a@);
    assert(b@.skip(0) =~= b@);
    while i < a.len() && i < b.len() && a[i] == b[i]
        invariant
            i <= a@.len(),
            i <= b@.len(),
            str_lt(a@, b@) == str_lt(a@.skip(i as int), b@.skip(i as int)),
        decreases a@.len() - i,
    {
        assert(a@.skip(i as int).drop_first() =~= a@.skip(i + 1));
        assert(b@.skip(i as int).drop_first() =~= b@.skip(i + 1));
        i = i + 1;
    }
    if i == b.len() {
        return false;
    }
    if i == a.len() {
        return true;
    }
    assert(a@.skip(i as int)[0] == a@[i as int]);
    assert(b@.skip(i as int)[0] == b@[i as int]);
    let x = a[i];
    let y = b[i];
    let r = x < y;
    assert(r == ((x as int) < (y as int)));
    r
}

proof fn lemma_push_to_set(s: Seq<Seq<char>>, x: Seq<char>)
    ensures
        s.push(x).to_set() == s.to_set().insert(x),
{
    assert forall|y: Seq<char>| s.push(x).to_set().contains(y) == s.to_set().insert(x).contains(
        y,
    ) by {
        if s.push(x).to_set().contains(y) {
            let k = choose|k: int| 0 <= k < s.push(x).len() && s.push(x)[k] == y;
            if k < s.len() {
                assert(s[k] == y);
            }
        }
        if s.to_set().contains(y) {
            let k = choose|k: int| 0 <= k < s.len() && s[k] == y;
            assert(s.push(x)[k] == y);
        }
        if y == x {
            assert(s.push(x)[s.len() as int] == x);
        }
    }
    assert(s.push(x).to_set() =~= s.to_set().insert(x));
}

/// The strings of `items`, as sorted distinct positions: each string once,
/// in increasing order, by the index of one of its occurrences.
pub fn sorted_distinct_indices(items: &Vec<Vec<char>>) -> (order: Vec<usize>)
    ensures
        forall|k: int| 0 <= k < order@.len() ==> #[trigger] order@[k] < items@.len(),
        strictly_sorted(order@.map_values(|i: usize| items@[i as int]@)),
        order@.map_values(|i: usize| items@[i as int]@).to_set() == items@.map_values(
            |v: Vec<char>| v@,
        ).to_set(),
{
    let ghost view = items@.map_values(|v: Vec<char>| v@);
    let mut order: Vec<usize> = Vec::new();
    let mut i: usize = 0;
    while i < items.len()
        invariant
            i <= items@.len(),
            view == items@.map_values(|v: Vec<char>| v@),
            forall|k: int| 0 <= k < order@.len() ==> #[trigger] order@[k] < items@.len(),
            strictly_sorted(order@.map_values(|q: usize| items@[q as int]@)),
            order@.map_values(|q: usize| items@[q as int]@).to_set() == view.take(
                i as int,
            ).to_set(),
        decreases items@.len() - i,
    {
        let ghost sv = order@.map_values(|q: usize| items@[q as int]@);
        let mut p: usize = 0;
        while p < order.len() && str_lt_exec(&items[order[p]], &items[i])
            invariant
                p <= order@.len(),
                i < items@.len(),
                forall|k: int| 0 <= k < order@.len() ==> #[trigger] order@[k] < items@.len(),
                sv == order@.map_values(|q: usize| items@[q as int]@),
                forall|k: int| 0 <= k < p ==> str_lt(#[trigger] sv[k], items@[i as int]@),
            decreases order@.len() - p,
        {
            p = p + 1;
        }
        let ghost x = items@[i as int]@;
        assert(view.take(i + 1) =~= view.take(i as int).push(x));
        proof {
            lemma_push_to_set(view.take(i as int), x);
        }
        let mut duplicate = false;
        if p < order.len() {
            let q = order[p];
            assert(!str_lt(sv[p as int], x));
            if !str_lt_exec(&items[i], &items[q]) {
                duplicate = true;
                proof {
                    if x != sv[p as int] {
                        lemma_str_lt_total(x, sv[p as int]);
                    }
                }
            }
        }
        if duplicate {
            proof {
                assert(sv[p as int] == x);
                assert(sv.to_set().contains(x));
                assert(view.take(i + 1).to_set() =~= view.take(i as int).to_set().insert(x));
            }
        } else {
            let ghost old_order = order@;
            order.insert(p, i);
            proof {
                let nv = order@.map_values(|q: usize| items@[q as int]@);
                assert(nv =~= sv.insert(p as int, x));
                if p < sv.len() {
                    if !str_lt(x, sv[p as int]) {
                        lemma_str_lt_total(x, sv[p as int]);
                    }
                }
                assert forall|a: int, b: int| 0 <= a < b < nv.len() implies str_lt(
                    #[trigger] nv[a],
                    #[trigger] nv[b],
                ) by {
                    if a < p && b < p {
                        assert(nv[a] == sv[a] && nv[b] == sv[b]);
                    } else if a < p && b == p {
                        assert(nv[a] == sv[a]);
                    } else if a < p && b > p {
                        assert(nv[a] == sv[a] && nv[b] == sv[b - 1]);
                    } else if a == p {
                        assert(nv[b] == sv[b - 1]);
                        if b - 1 > p {
                            lemma_str_lt_transitive(x, sv[p as int], sv[b - 1]);
                        }
                    } else {
                        assert(nv[a] == sv[a - 1] && nv[b] == sv[b - 1]);
                    }
                }
                assert forall|k: int| 0 <= k < order@.len() implies #[trigger] order@[k]
                    < items@.len() by {
                    if k < p {
                        assert(order@[k] == old_order[k]);
                    } else if k > p {
                        assert(order@[k] == old_order[k - 1]);
                    }
                }
                assert(nv.to_set() =~= sv.to_set().insert(x)) by {
                    assert forall|y: Seq<char>| nv.to_set().contains(y) == sv.to_set().insert(
                        x,
                    ).contains(y) by {
                        if nv.to_set().contains(y) {
                            let k = choose|k: int| 0 <= k < nv.len() && nv[k] == y;
                            if k < p {
                                assert(sv[k] == y);
                            } else if k > p {
                                assert(sv[k - 1] == y);
                            }
                        }
                        if sv.to_set().contains(y) {
                            let k = choose|k: int| 0 <= k < sv.len() && sv[k] == y;
                            if k < p {
                                assert(nv[k] == y);
                            } else {
                                assert(nv[k + 1] == y);
                            }
                        }
                        if y == x {
                            assert(nv[p as int] == x);
                        }
                    }
                }
                assert(view.take(i + 1).to_set() =~= view.take(i as int).to_set().insert(x));
            }
        }
        i = i + 1;
    }
    assert(view.take(i as int) =~= view);
    order
}


/// `x` put into a strictly increasing sequence at its place.
pub open spec fn sorted_insert(t: Seq<Seq<char>>, x: Seq<char>) -> Seq<Seq<char>>
    decreases t.len(),
{
    if t.len() == 0 {
        seq![x]
    } else if str_lt(x, t[0]) {
        seq![x] + t
    } else {
        seq![t[0]] + sorted_insert(t.drop_first(), x)
    }
}

proof fn lemma_sorted_insert(t: Seq<Seq<char>>, x: Seq<char>)
    requires
        strictly_sorted(t),
        !t.contains(x),
    ensures
        strictly_sorted(sorted_insert(t, x)),
        sorted_insert(t, x).to_set() == t.to_set().insert(x),
        sorted_insert(t, x).len() > 0,
        sorted_insert(t, x)[0] == x || (t.len() > 0 && sorted_insert(t, x)[0] == t[0]),
    decreases t.len(),
{
    let r = sorted_insert(t, x);
    if t.len() == 0 {
        assert(r.to_set() =~= t.to_set().insert(x)) by {
            assert(r =~= seq![x]);
            assert forall|y: Seq<char>| r.contains(y) <==> t.to_set().insert(x).contains(y) by {
                if r.contains(y) {
                    let k = choose|k: int| 0 <= k < r.len() && r[k] == y;
                    assert(k == 0);
                }
                if y == x {
                    assert(r[0] == y);
                }
            }
        }
    } else if str_lt(x, t[0]) {
        assert forall|i: int, j: int| 0 <= i < j < r.len() implies str_lt(
            #[trigger] r[i],
            #[trigger] r[j],
        ) by {
            if i == 0 {
                assert(r[j] == t[j - 1]);
                if j - 1 > 0 {
                    lemma_str_lt_transitive(x, t[0], t[j - 1]);
                }
            } else {
                assert(r[i] == t[i - 1] && r[j] == t[j - 1]);
            }
        }
        assert(r.to_set() =~= t.to_set().insert(x)) by {
            assert forall|y: Seq<char>| r.contains(y) <==> t.to_set().insert(x).contains(y) by {
                if r.contains(y) {
                    let k = choose|k: int| 0 <= k < r.len() && r[k] == y;
                    if k > 0 {
                        assert(t[k - 1] == y);
                    }
                }
                if t.contains(y) {
                    let k = choose|k: int| 0 <= k < t.len() && t[k] == y;
                    assert(r[k + 1] == y);
                }
                if y == x {
                    assert(r[0] == y);
                }
            }
        }
    } else {
        let tail = t.drop_first();
        assert(strictly_sorted(tail)) by {
            assert forall|i: int, j: int| 0 <= i < j < tail.len() implies str_lt(
                #[trigger] tail[i],
                #[trigger] tail[j],
            ) by {
                assert(tail[i] == t[i + 1]);
                assert(tail[j] == t[j + 1]);
            }
        }
        assert(!tail.contains(x)) by {
            if tail.contains(x) {
                let k = choose|k: int| 0 <= k < tail.len() && tail[k] == x;
                assert(t[k + 1] == x);
            }
        }
        lemma_sorted_insert(tail, x);
        let rt = sorted_insert(tail, x);
        assert(r == seq![t[0]] + rt);
        assert(t[0] != x) by {
            assert(t[0] == t[0]);
            if t[0] == x {
                assert(t.contains(x));
            }
        }
        lemma_str_lt_total(x, t[0]);
        assert(str_lt(t[0], x));
        assert forall|i: int, j: int| 0 <= i < j < r.len() implies str_lt(
            #[trigger] r[i],
            #[trigger] r[j],
        ) by {
            if i == 0 {
                assert(rt.to_set().contains(rt[j - 1]));
                assert(rt[j - 1] == r[j]);
                if rt[j - 1] != x {
                    assert(tail.to_set().contains(rt[j - 1]));
                    let k = choose|k: int| 0 <= k < tail.len() && tail[k] == rt[j - 1];
                    assert(t[k + 1] == rt[j - 1]);
                }
            } else {
                assert(r[i] == rt[i - 1] && r[j] == rt[j - 1]);
            }
        }
        assert(r.to_set() =~= t.to_set().insert(x)) by {
            assert forall|y: Seq<char>| r.contains(y) <==> t.to_set().insert(x).contains(y) by {
                if r.contains(y) {
                    let k = choose|k: int| 0 <= k < r.len() && r[k] == y;
                    if k > 0 {
                        assert(rt[k - 1] == y);
                        assert(rt.to_set().contains(y));
                        if y != x {
                            let m = choose|m: int| 0 <= m < tail.len() && tail[m] == y;
                            assert(t[m + 1] == y);
                        }
                    } else {
                        assert(t[0] == y);
                    }
                }
                if t.contains(y) {
                    let k = choose|k: int| 0 <= k < t.len() && t[k] == y;
                    if k == 0 {
                        assert(r[0] == y);
                    } else {
                        assert(tail[k - 1] == y);
                        assert(rt.to_set().contains(y));
                        let m = choose|m: int| 0 <= m < rt.len() && rt[m] == y;
                        assert(r[m + 1] == y);
                    }
                }
                if y == x {
                    assert(rt.to_set().contains(x));
                    let m = choose|m: int| 0 <= m < rt.len() && rt[m] == x;
                    assert(r[m + 1] == x);
                }
            }
        }
    }
}

/// Every finite set of strings has its strictly increasing listing, of its
/// size.
pub proof fn lemma_sorted_distinct_exists(set: Set<Seq<char>>)
    requires
        set.finite(),
    ensures
        strictly_sorted(sorted_distinct(set)),
        sorted_distinct(set).to_set() == set,
        sorted_distinct(set).len() == set.len(),
    decreases set.len(),
{
    if set.len() == 0 {
        let e = Seq::<Seq<char>>::empty();
        assert(set =~= Set::<Seq<char>>::empty());
        assert(e.to_set() =~= set);
        assert(strictly_sorted(e));
    } else {
        let x = set.choose();
        let rest = set.remove(x);
        lemma_sorted_distinct_exists(rest);
        let t = sorted_distinct(rest);
        assert(!t.contains(x)) by {
            if t.contains(x) {
                assert(t.to_set().contains(x));
            }
        }
        lemma_sorted_insert(t, x);
        let w = sorted_insert(t, x);
        assert(w.to_set() =~= set);
        assert(strictly_sorted(w));
    }
    let c = sorted_distinct(set);
    assert(strictly_sorted(c) && c.to_set() == set);
    assert(c.no_duplicates()) by {
        assert forall|i: int, j: int| 0 <= i < c.len() && 0 <= j < c.len() && i != j implies c[i]
            != c[j] by {
            if i < j {
                assert(str_lt(c[i], c[j]));
                lemma_str_lt_irreflexive(c[i]);
            } else {
                assert(str_lt(c[j], c[i]));
                lemma_str_lt_irreflexive(c[j]);
            }
        }
    }
    c.unique_seq_to_set();
}

} // verus!
