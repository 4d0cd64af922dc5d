use vstd::prelude::*;
use crate::hashing::{append_bytes, blake3_hex, blake3_hex_digest};
use crate::strorder::{str_lt, str_lt_exec};
use crate::surface::{copy_str, strings_view};
use crate::text::{chars_of, str_eq, string_from_range, trim, trim_range};
use crate::versions::{find_char_from_pub, lemma_next_index_of_pub, next_index_of};
use vstd::utf8::encode_utf8;

verus! {

/// The pieces of `s` between its `,` separators, from position `i` on.
pub open spec fn comma_pieces_from(s: Seq<char>, i: int) -> Seq<Seq<char>>
    decreases s.len() + 1 - i,
{
    if i < 0 || i > s.len() {
        Seq::empty()
    } else {
        let e = next_index_of(s, i, ',');
        if e < i || e > s.len() {
            Seq::empty()
        } else if e == s.len() {
            seq![s.subrange(i, e)]
        } else {
            seq![s.subrange(i, e)] + comma_pieces_from(s, e + 1)
        }
    }
}

/// The non-blank pieces of a comma-separated list, each trimmed, in order.
pub open spec fn comma_items(pieces: Seq<Seq<char>>) -> Seq<Seq<char>>
    decreases pieces.len(),
{
    if pieces.len() == 0 {
        Seq::empty()
    } else {
        let t = trim(pieces[0]);
        if t.len() > 0 {
            seq![t] + comma_items(pieces.drop_first())
        } else {
            comma_items(pieces.drop_first())
        }
    }
}

proof fn lemma_comma_items_append(a: Seq<Seq<char>>, b: Seq<Seq<char>>)
    ensures
        comma_items(a + b) == comma_items(a) + comma_items(b),
    decreases a.len(),
{
    if a.len() > 0 {
        assert((a + b).drop_first() =~= a.drop_first() + b);
        assert((a + b)[0] == a[0]);
        lemma_comma_items_append(a.drop_first(), b);
        if trim(a[0]).len() > 0 {
            assert(seq![trim(a[0])] + (comma_items(a.drop_first()) + comma_items(b)) =~= (seq![
                trim(a[0]),
            ] + comma_items(a.drop_first())) + comma_items(b));
        }
    } else {
        assert(a + b =~= b);
    }
}

/// Splits a comma-separated list into its trimmed non-blank items.
fn split_comma_items(raw: &str) -> (r: Vec<String>)
    ensures
        strings_view(r@) == comma_items(comma_pieces_from(raw@, 0)),
{
    let v = chars_of(raw);
    let mut out: Vec<String> = Vec::new();
    let mut i: usize = 0;
    let ghost mut done: Seq<Seq<char>> = Seq::empty();
    loop
        invariant_except_break
            i <= v@.len(),
            v@ == raw@,
            comma_pieces_from(v@, 0) == done + comma_pieces_from(v@, i as int),
            strings_view(out@) == comma_items(done),
        ensures
            strings_view(out@) == comma_items(comma_pieces_from(v@, 0)),
        decreases v@.len() + 1 - i,
    {
        proof {
            lemma_next_index_of_pub(v@, i as int, ',');
        }
        let e = find_char_from_pub(&v, i, ',');
        let (a, b) = trim_range(&v, i, e);
        let ghost piece = v@.subrange(i as int, e as int);
        let ghost before = out@;
        if a < b {
            out.push(string_from_range(&v, a, b));
        }
        proof {
            lemma_comma_items_append(done, seq![piece]);
            assert(seq![piece].drop_first() =~= Seq::<Seq<char>>::empty());
            assert(comma_items(Seq::<Seq<char>>::empty()) =~= Seq::<Seq<char>>::empty());
            assert(seq![piece][0] == piece);
            assert(v@.subrange(a as int, b as int) == trim(piece));
            if a < b {
                assert(comma_items(seq![piece]) =~= seq![trim(piece)]);
            } else {
                assert(comma_items(seq![piece]) =~= Seq::<Seq<char>>::empty());
            }
            if a < b {
                assert(strings_view(out@) =~= strings_view(before).push(trim(piece)));
                assert(comma_items(done) + seq![trim(piece)] =~= comma_items(done) + comma_items(
                    seq![piece],
                ));
            } else {
                assert(strings_view(out@) =~= comma_items(done) + comma_items(seq![piece]));
            }
        }
        if e == v.len() {
            proof {
                assert(comma_pieces_from(v@, i as int) == seq![piece]);
            }
            break;
        }
        proof {
            assert(comma_pieces_from(v@, i as int) == seq![piece] + comma_pieces_from(
                v@,
                e + 1,
            ));
            assert(done + comma_pieces_from(v@, i as int) =~= (done + seq![piece])
                + comma_pieces_from(v@, e + 1));
            done = done + seq![piece];
        }
        i = e + 1;
    }
    out
}

/// The environment variable prefixes that build caching looks at by default.
pub open spec fn default_env_prefixes() -> Seq<Seq<char>> {
    seq!["CAIRO_"@, "SCARB_"@, "STARKNET_"@]
}

/// `list` with each of `extra` appended unless already present, in order.
pub open spec fn add_missing(list: Seq<Seq<char>>, extra: Seq<Seq<char>>) -> Seq<Seq<char>>
    decreases extra.len(),
{
    if extra.len() == 0 {
        list
    } else {
        let l = add_missing(list, extra.drop_last());
        if l.contains(extra.last()) {
            l
        } else {
            l.push(extra.last())
        }
    }
}

/// The prefixes of the environment variables that decide a build: the
/// override list (`UC_BUILD_ENV_PREFIXES`) when it is set; otherwise the
/// default prefixes followed by the new ones of the extra list
/// (`UC_BUILD_ENV_PREFIXES_EXTRA`). Lists are comma-separated, with items
/// trimmed and blank items dropped.
pub open spec fn env_prefixes(override_list: Option<Seq<char>>, extra_list: Option<Seq<char>>) -> Seq<
    Seq<char>,
> {
    match override_list {
        Some(o) => comma_items(comma_pieces_from(o, 0)),
        None => match extra_list {
            Some(x) => add_missing(default_env_prefixes(), comma_items(comma_pieces_from(x, 0))),
            None => default_env_prefixes(),
        },
    }
}

fn contains_string(list: &Vec<String>, k: &str) -> (b: bool)
    ensures
        b == strings_view(list@).contains(k@),
{
    let mut i: usize = 0;
    while i < list.len()
        invariant
            i <= list@.len(),
            forall|j: int| 0 <= j < i ==> list@[j]@ != k@,
        decreases list@.len() - i,
    {
        if str_eq(list[i].as_str(), k) {
            assert(strings_view(list@)[i as int] == k@);
            return true;
        }
        i = i + 1;
    }
    proof {
        if strings_view(list@).contains(k@) {
            let j = choose|j: int| 0 <= j < strings_view(list@).len() && strings_view(list@)[j] == k@;
            assert(list@[j]@ == k@);
        }
    }
    false
}

/// The build environment prefixes, from the raw values of the override and
/// extra settings.
pub fn build_env_prefixes(override_raw: Option<&str>, extra_raw: Option<&str>) -> (r: Vec<String>)
    ensures
        strings_view(r@) == env_prefixes(
            match override_raw {
                Some(s) => Some(s@),
                None => None,
            },
            match extra_raw {
                Some(s) => Some(s@),
                None => None,
            },
        ),
{
    if let Some(o) = override_raw {
        return split_comma_items(o);
    }
    let mut prefixes: Vec<String> = Vec::new();
    prefixes.push(String::from_str("CAIRO_"));
    prefixes.push(String::from_str("SCARB_"));
    prefixes.push(String::from_str("STARKNET_"));
    assert(strings_view(prefixes@) =~= default_env_prefixes());
    match extra_raw {
        None => prefixes,
        Some(x) => {
            let extra = split_comma_items(x);
            let mut i: usize = 0;
            while i < extra.len()
                invariant
                    i <= extra@.len(),
                    strings_view(prefixes@) == add_missing(
                        default_env_prefixes(),
                        strings_view(extra@).take(i as int),
                    ),
                decreases extra@.len() - i,
            {
                let ghost before = prefixes@;
                assert(strings_view(extra@).take(i + 1).drop_last() =~= strings_view(extra@).take(
                    i as int,
                ));
                if !contains_string(&prefixes, extra[i].as_str()) {
                    prefixes.push(copy_str(extra[i].as_str()));
                    assert(strings_view(prefixes@) =~= strings_view(before).push(extra@[i as int]@));
                }
                i = i + 1;
            }
            assert(strings_view(extra@).take(i as int) =~= strings_view(extra@));
            prefixes
        },
    }
}


/// Whether `k` starts with `p`.
pub open spec fn starts_with(k: Seq<char>, p: Seq<char>) -> bool {
    p.len() <= k.len() && k.take(p.len() as int) == p
}

/// Whether `k` starts with one of `prefixes`.
pub open spec fn has_env_prefix(k: Seq<char>, prefixes: Seq<Seq<char>>) -> bool {
    exists|j: int| 0 <= j < prefixes.len() && starts_with(k, #[trigger] prefixes[j])
}

/// The variables (as name and value) whose names start with one of
/// `prefixes`, in order.
pub open spec fn selected_vars(vars: Seq<(String, String)>, prefixes: Seq<Seq<char>>) -> Seq<
    (Seq<char>, Seq<char>),
>
    decreases vars.len(),
{
    if vars.len() == 0 {
        Seq::empty()
    } else {
        let r = selected_vars(vars.drop_last(), prefixes);
        if has_env_prefix(vars.last().0@, prefixes) {
            r.push((vars.last().0@, vars.last().1@))
        } else {
            r
        }
    }
}

/// The order of variables: by name, then by value.
pub open spec fn var_lt(a: (Seq<char>, Seq<char>), b: (Seq<char>, Seq<char>)) -> bool {
    str_lt(a.0, b.0) || (a.0 == b.0 && str_lt(a.1, b.1))
}

/// `x` inserted into `s` after the entries it is not smaller than.
pub open spec fn insert_var(s: Seq<(Seq<char>, Seq<char>)>, x: (Seq<char>, Seq<char>)) -> Seq<
    (Seq<char>, Seq<char>),
>
    decreases s.len(),
{
    if s.len() == 0 {
        seq![x]
    } else if var_lt(x, s.last()) {
        insert_var(s.drop_last(), x).push(s.last())
    } else {
        s.push(x)
    }
}

/// The variables sorted by name, then value.
pub open spec fn sort_vars(s: Seq<(Seq<char>, Seq<char>)>) -> Seq<(Seq<char>, Seq<char>)>
    decreases s.len(),
{
    if s.len() == 0 {
        Seq::empty()
    } else {
        insert_var(sort_vars(s.drop_last()), s.last())
    }
}

/// Each variable as `name=value` and a newline, in order, as UTF-8.
pub open spec fn var_lines(s: Seq<(Seq<char>, Seq<char>)>) -> Seq<u8>
    decreases s.len(),
{
    if s.len() == 0 {
        Seq::empty()
    } else {
        var_lines(s.drop_last()) + encode_utf8(s.last().0) + seq![0x3du8] + encode_utf8(
            s.last().1,
        ) + seq![0x0au8]
    }
}

proof fn lemma_insert_var_at(s: Seq<(Seq<char>, Seq<char>)>, x: (Seq<char>, Seq<char>), p: int)
    requires
        0 <= p <= s.len(),
        forall|j: int| p <= j < s.len() ==> var_lt(x, #[trigger] s[j]),
        p == 0 || !var_lt(x, s[p - 1]),
    ensures
        insert_var(s, x) == s.insert(p, x),
    decreases s.len(),
{
    if s.len() == 0 {
        assert(s.insert(p, x) =~= seq![x]);
    } else if p == s.len() {
        assert(s.insert(p, x) =~= s.push(x));
    } else {
        assert(var_lt(x, s[s.len() - 1]));
        let d = s.drop_last();
        assert forall|j: int| p <= j < d.len() implies var_lt(x, #[trigger] d[j]) by {
            assert(d[j] == s[j]);
        }
        if p > 0 {
            assert(d[p - 1] == s[p - 1]);
        }
        lemma_insert_var_at(d, x, p);
        assert(d.insert(p, x).push(s.last()) =~= s.insert(p, x));
    }
}

fn var_lt_exec(
    keys: &Vec<Vec<char>>,
    values: &Vec<Vec<char>>,
    a: usize,
    b: usize,
) -> (r: bool)
    requires
        a < keys@.len(),
        b < keys@.len(),
        keys@.len() == values@.len(),
    ensures
        r == var_lt((keys@[a as int]@, values@[a as int]@), (keys@[b as int]@, values@[b as int]@)),
{
    if str_lt_exec(&keys[a], &keys[b]) {
        return true;
    }
    let same = crate::text::range_eq(&keys[a], 0, keys[a].len(), &keys[b]);
    assert(keys@[a as int]@.subrange(0, keys@[a as int]@.len() as int) =~= keys@[a as int]@);
    same && str_lt_exec(&values[a], &values[b])
}

fn starts_with_exec(k: &Vec<char>, p: &Vec<char>) -> (b: bool)
    ensures
        b == starts_with(k@, p@),
{
    if p.len() > k.len() {
        return false;
    }
    let r = crate::text::range_eq(k, 0, p.len(), p);
    assert(k@.subrange(0, p@.len() as int) =~= k@.take(p@.len() as int));
    r
}

/// The fingerprint of the build environment: the variables whose names
/// start with one of `prefixes`, sorted by name and value, each hashed as a
/// `name=value` line after a domain tag.
pub fn compute_build_env_fingerprint(vars: &Vec<(String, String)>, prefixes: &Vec<String>) -> (f:
    String)
    ensures
        crate::hashing::is_hex_digest(f@),
        f@ == blake3_hex_digest(
            encode_utf8("uc-build-env-v1"@) + var_lines(
                sort_vars(selected_vars(vars@, strings_view(prefixes@))),
            ),
        ),
{
    let ghost pv = strings_view(prefixes@);
    let mut pchars: Vec<Vec<char>> = Vec::new();
    let mut q: usize = 0;
    while q < prefixes.len()
        invariant
            q <= prefixes@.len(),
            pchars@.len() == q,
            forall|j: int| 0 <= j < q ==> (#[trigger] pchars@[j])@ == prefixes@[j]@,
        decreases prefixes@.len() - q,
    {
        pchars.push(chars_of(prefixes[q].as_str()));
        q = q + 1;
    }
    let mut keys: Vec<Vec<char>> = Vec::new();
    let mut values: Vec<Vec<char>> = Vec::new();
    let mut order: Vec<usize> = Vec::new();
    let ghost mut sel: Seq<(Seq<char>, Seq<char>)> = Seq::empty();
    let mut i: usize = 0;
    while i < vars.len()
        invariant
            i <= vars@.len(),
            keys@.len() == i,
            values@.len() == i,
            forall|j: int| 0 <= j < i ==> (#[trigger] keys@[j])@ == vars@[j].0@,
            forall|j: int| 0 <= j < i ==> (#[trigger] values@[j])@ == vars@[j].1@,
            pchars@.len() == prefixes@.len(),
            forall|j: int| 0 <= j < prefixes@.len() ==> (#[trigger] pchars@[j])@ == prefixes@[j]@,
            pv == strings_view(prefixes@),
            forall|j: int| 0 <= j < order@.len() ==> #[trigger] order@[j] < i,
            order@.map_values(|o: usize| (keys@[o as int]@, values@[o as int]@)) == sort_vars(
                sel,
            ),
            sel == selected_vars(vars@.take(i as int), pv),
        decreases vars@.len() - i,
    {
        let ghost old_keys = keys@;
        let ghost old_values = values@;
        keys.push(chars_of(vars[i].0.as_str()));
        values.push(chars_of(vars[i].1.as_str()));
        assert(vars@.take(i + 1).drop_last() =~= vars@.take(i as int));
        proof {
            assert forall|t: int| 0 <= t < order@.len() implies keys@[#[trigger] order@[t] as int]
                == old_keys[order@[t] as int] && values@[order@[t] as int] == old_values[order@[t] as int] by {}
            assert(order@.map_values(|o: usize| (keys@[o as int]@, values@[o as int]@)) =~= order@.map_values(
                |o: usize| (old_keys[o as int]@, old_values[o as int]@),
            ));
        }
        let mut matched = false;
        let mut j: usize = 0;
        while j < pchars.len()
            invariant
                j <= pchars@.len(),
                i < keys@.len(),
                pchars@.len() == prefixes@.len(),
                forall|t: int| 0 <= t < prefixes@.len() ==> (#[trigger] pchars@[t])@ == prefixes@[t]@,
                pv == strings_view(prefixes@),
                matched == exists|t: int| 0 <= t < j && starts_with(keys@[i as int]@, #[trigger] pv[t]),
            decreases pchars@.len() - j,
        {
            if starts_with_exec(&keys[i], &pchars[j]) {
                assert(pv[j as int] == pchars@[j as int]@);
                matched = true;
            }
            proof {
                if matched {
                    assert(exists|t: int| 0 <= t < j + 1 && starts_with(keys@[i as int]@, #[trigger] pv[t]));
                }
                if exists|t: int| 0 <= t < j + 1 && starts_with(keys@[i as int]@, #[trigger] pv[t]) {
                    let t = choose|t: int| 0 <= t < j + 1 && starts_with(keys@[i as int]@, #[trigger] pv[t]);
                    if t == j {
                        assert(pv[j as int] == pchars@[j as int]@);
                    }
                }
            }
            j = j + 1;
        }
        if matched {
            let ghost x = (keys@[i as int]@, values@[i as int]@);
            let ghost before = order@.map_values(|o: usize| (keys@[o as int]@, values@[o as int]@));
            let mut p = order.len();
            while p > 0 && var_lt_exec(&keys, &values, i, order[p - 1])
                invariant
                    p <= order@.len(),
                    i < keys@.len(),
                    keys@.len() == values@.len(),
                    forall|t: int| 0 <= t < order@.len() ==> #[trigger] order@[t] < i,
                    before == order@.map_values(|o: usize| (keys@[o as int]@, values@[o as int]@)),
                    x == (keys@[i as int]@, values@[i as int]@),
                    forall|t: int| p <= t < order@.len() ==> var_lt(x, #[trigger] before[t]),
                decreases p,
            {
                p = p - 1;
            }
            proof {
                lemma_insert_var_at(before, x, p as int);
            }
            order.insert(p, i);
            proof {
                assert(order@.map_values(|o: usize| (keys@[o as int]@, values@[o as int]@)) =~= before.insert(
                    p as int,
                    x,
                ));
                sel = sel.push(x);
                assert(sel.drop_last() =~= selected_vars(vars@.take(i as int), pv));
                assert(sort_vars(sel) == insert_var(sort_vars(sel.drop_last()), x));
            }
        } else {
            proof {
                assert(order@.map_values(|o: usize| (keys@[o as int]@, values@[o as int]@)) =~= sort_vars(sel));
            }
        }
        i = i + 1;
    }
    assert(vars@.take(i as int) =~= vars@);
    let ghost sorted = sort_vars(sel);
    let mut data: Vec<u8> = Vec::new();
    append_bytes(&mut data, "uc-build-env-v1".as_bytes());
    let ghost prefix = data@;
    let mut m: usize = 0;
    while m < order.len()
        invariant
            m <= order@.len(),
            forall|j: int| 0 <= j < order@.len() ==> #[trigger] order@[j] < vars@.len(),
            keys@.len() == vars@.len(),
            values@.len() == vars@.len(),
            forall|j: int| 0 <= j < vars@.len() ==> (#[trigger] keys@[j])@ == vars@[j].0@,
            forall|j: int| 0 <= j < vars@.len() ==> (#[trigger] values@[j])@ == vars@[j].1@,
            order@.map_values(|o: usize| (keys@[o as int]@, values@[o as int]@)) == sorted,
            data@ == prefix + var_lines(sorted.take(m as int)),
        decreases order@.len() - m,
    {
        let o = order[m];
        append_bytes(&mut data, vars[o].0.as_str().as_bytes());
        data.push(0x3d);
        append_bytes(&mut data, vars[o].1.as_str().as_bytes());
        data.push(0x0a);
        proof {
            assert(sorted.take(m + 1).drop_last() =~= sorted.take(m as int));
            assert(sorted[m as int] == (keys@[o as int]@, values@[o as int]@));
            assert(data@ =~= prefix + var_lines(sorted.take(m + 1)));
        }
        m = m + 1;
    }
    assert(sorted.take(m as int) =~= sorted);
    blake3_hex(data.as_slice())
}

} // verus!
