use vstd::prelude::*;

verus! {

broadcast use vstd::string::group_string_axioms;

pub open spec fn is_ascii_digit(c: char) -> bool {
    '0' <= c <= '9'
}

pub open spec fn is_ascii_lower_alpha(c: char) -> bool {
    'a' <= c <= 'z'
}

pub open spec fn is_ascii_upper_alpha(c: char) -> bool {
    'A' <= c <= 'Z'
}

pub open spec fn is_ascii_alphanumeric(c: char) -> bool {
    is_ascii_digit(c) || is_ascii_lower_alpha(c) || is_ascii_upper_alpha(c)
}

pub open spec fn is_ascii_hexdigit(c: char) -> bool {
    is_ascii_digit(c) || ('a' <= c <= 'f') || ('A' <= c <= 'F')
}

/// `c` with an ASCII capital letter turned into its small letter.
pub open spec fn ascii_lower(c: char) -> char {
    if is_ascii_upper_alpha(c) {
        ((c as u32) + 32) as char
    } else {
        c
    }
}

/// `s` with every ASCII capital letter turned into its small letter.
pub open spec fn ascii_lowercase(s: Seq<char>) -> Seq<char> {
    s.map_values(|c: char| ascii_lower(c))
}

/// Equality up to ASCII case.
pub open spec fn eq_ignore_ascii_case(a: Seq<char>, b: Seq<char>) -> bool {
    ascii_lowercase(a) == ascii_lowercase(b)
}

/// The characters with the Unicode `White_Space` property, which `str::trim`
/// removes.
pub open spec fn is_white_space(c: char) -> bool {
    ||| c == ' '
    ||| '\t' <= c <= '\r'
    ||| c == '\u{85}'
    ||| c == '\u{A0}'
    ||| c == '\u{1680}'
    ||| '\u{2000}' <= c <= '\u{200A}'
    ||| c == '\u{2028}'
    ||| c == '\u{2029}'
    ||| c == '\u{202F}'
    ||| c == '\u{205F}'
    ||| c == '\u{3000}'
}

/// `s` without the white space at its start.
pub open spec fn trim_start(s: Seq<char>) -> Seq<char>
    decreases s.len(),
{
    if s.len() > 0 && is_white_space(s[0]) {
        trim_start(s.drop_first())
    } else {
        s
    }
}

/// `s` without the white space at its end.
pub open spec fn trim_end(s: Seq<char>) -> Seq<char>
    decreases s.len(),
{
    if s.len() > 0 && is_white_space(s.last()) {
        trim_end(s.drop_last())
    } else {
        s
    }
}

/// `s` without white space at either end, as `str::trim` gives it.
pub open spec fn trim(s: Seq<char>) -> Seq<char> {
    trim_end(trim_start(s))
}

pub fn is_white_space_char(c: char) -> (b: bool)
    ensures
        b == is_white_space(c),
{
    c == ' ' || ('\t' <= c && c <= '\r') || c == '\u{85}' || c == '\u{A0}' || c == '\u{1680}' || (
    '\u{2000}' <= c && c <= '\u{200A}') || c == '\u{2028}' || c == '\u{2029}' || c == '\u{202F}'
        || c == '\u{205F}' || c == '\u{3000}'
}

pub fn lower_char(c: char) -> (l: char)
    ensures
        l == ascii_lower(c),
{
    if 'A' <= c && c <= 'Z' {
        let code: u8 = c as u8;
        let shifted: u8 = code + 32;
        shifted as char
    } else {
        c
    }
}

/// The characters of `s`, in order, in a vector.
pub fn chars_of(s: &str) -> (v: Vec<char>)
    ensures
        v@ == s@,
{
    let mut v: Vec<char> = Vec::new();
    for c in it: s.chars()
        invariant
            v@ == it.seq().take(it.index() as int),
            it.seq() == s@,
    {
        v.push(c);
    }
    v
}

/// Appends one character to a `String` (`String::push`).
#[verifier::external_body]
pub fn push_char(s: &mut String, c: char)
    ensures
        final(s)@ == old(s)@.push(c),
{
    s.push(c);
}

/// A `String` of the characters `v[start..end]`.
pub fn string_from_range(v: &Vec<char>, start: usize, end: usize) -> (s: String)
    requires
        start <= end <= v.len(),
    ensures
        s@ == v@.subrange(start as int, end as int),
{
    let mut s = String::new();
    let mut i = start;
    while i < end
        invariant
            start <= i <= end <= v.len(),
            s@ == v@.subrange(start as int, i as int),
        decreases end - i,
    {
        push_char(&mut s, v[i]);
        i = i + 1;
        assert(s@ =~= v@.subrange(start as int, i as int));
    }
    s
}

/// A `String` of all the characters of `v`.
pub fn string_from_chars(v: &Vec<char>) -> (s: String)
    ensures
        s@ == v@,
{
    let s = string_from_range(v, 0, v.len());
    assert(v@.subrange(0, v@.len() as int) =~= v@);
    s
}

/// Appends the characters of `t` to `s`.
pub fn push_str(s: &mut String, t: &str)
    ensures
        final(s)@ == old(s)@ + t@,
{
    let chars = chars_of(t);
    let ghost start = s@;
    let mut i: usize = 0;
    while i < chars.len()
        invariant
            i <= chars.len(),
            chars@ == t@,
            s@ == start + chars@.subrange(0, i as int),
        decreases chars.len() - i,
    {
        push_char(s, chars[i]);
        i = i + 1;
        assert(s@ =~= start + chars@.subrange(0, i as int));
    }
    assert(chars@.subrange(0, i as int) =~= chars@);
}

proof fn lemma_trim_start_suffix(s: Seq<char>) -> (k: int)
    ensures
        0 <= k <= s.len(),
        trim_start(s) == s.subrange(k, s.len() as int),
        forall|j: int| 0 <= j < k ==> is_white_space(#[trigger] s[j]),
        k < s.len() ==> !is_white_space(s[k]),
    decreases s.len(),
{
    if s.len() > 0 && is_white_space(s[0]) {
        let k0 = lemma_trim_start_suffix(s.drop_first());
        assert(s.drop_first().subrange(k0, s.drop_first().len() as int) =~= s.subrange(
            k0 + 1,
            s.len() as int,
        ));
        assert forall|j: int| 0 <= j < k0 + 1 implies is_white_space(#[trigger] s[j]) by {
            if j > 0 {
                assert(s[j] == s.drop_first()[j - 1]);
            }
        }
        k0 + 1
    } else {
        assert(s.subrange(0, s.len() as int) =~= s);
        0
    }
}

proof fn lemma_trim_end_prefix(s: Seq<char>) -> (k: int)
    ensures
        0 <= k <= s.len(),
        trim_end(s) == s.subrange(0, k),
        forall|j: int| k <= j < s.len() ==> is_white_space(#[trigger] s[j]),
        k > 0 ==> !is_white_space(s[k - 1]),
    decreases s.len(),
{
    if s.len() > 0 && is_white_space(s.last()) {
        let k0 = lemma_trim_end_prefix(s.drop_last());
        assert(s.drop_last().subrange(0, k0) =~= s.subrange(0, k0));
        assert forall|j: int| k0 <= j < s.len() implies is_white_space(#[trigger] s[j]) by {
            if j < s.len() - 1 {
                assert(s[j] == s.drop_last()[j]);
            }
        }
        k0
    } else {
        assert(s.subrange(0, s.len() as int) =~= s);
        s.len() as int
    }
}

/// The bounds of `v` without the white space at either end.
pub fn trim_bounds(v: &Vec<char>) -> (r: (usize, usize))
    ensures
        r.0 <= r.1 <= v.len(),
        v@.subrange(r.0 as int, r.1 as int) == trim(v@),
{
    let mut start: usize = 0;
    while start < v.len() && is_white_space_char(v[start])
        invariant
            start <= v.len(),
            forall|j: int| 0 <= j < start ==> is_white_space(#[trigger] v@[j]),
        decreases v.len() - start,
    {
        start = start + 1;
    }
    let mut end: usize = v.len();
    while end > start && is_white_space_char(v[end - 1])
        invariant
            start <= end <= v.len(),
            forall|j: int| end <= j < v.len() ==> is_white_space(#[trigger] v@[j]),
        decreases end - start,
    {
        end = end - 1;
    }
    proof {
        let k = lemma_trim_start_suffix(v@);
        if k < start {
            assert(is_white_space(v@[k]));
        }
        if start < k {
            assert(is_white_space(v@[start as int]));
        }
        assert(k == start);
        let rest = v@.subrange(start as int, v@.len() as int);
        let k2 = lemma_trim_end_prefix(rest);
        if k2 + start < end {
            assert(rest[end - 1 - start] == v@[end - 1]);
            assert(is_white_space(rest[end - 1 - start]));
        }
        if end < k2 + start {
            assert(rest[k2 - 1] == v@[k2 - 1 + start]);
            assert(is_white_space(v@[k2 - 1 + start]));
        }
        assert(k2 + start == end);
        assert(rest.subrange(0, end - start) =~= v@.subrange(start as int, end as int));
    }
    (start, end)
}

/// Whether the characters of `v` from `start` read `lit`.
pub fn chars_match_at(v: &Vec<char>, start: usize, lit: &Vec<char>) -> (b: bool)
    ensures
        b == (start + lit.len() <= v.len() && v@.subrange(
            start as int,
            start + lit.len(),
        ) == lit@),
{
    if start > v.len() || lit.len() > v.len() - start {
        return false;
    }
    let mut k: usize = 0;
    while k < lit.len()
        invariant
            start + lit.len() <= v.len(),
            k <= lit.len(),
            forall|j: int| 0 <= j < k ==> v@[start + j] == lit@[j],
        decreases lit.len() - k,
    {
        if v[start + k] != lit[k] {
            assert(v@.subrange(start as int, start + lit.len())[k as int] != lit@[k as int]);
            return false;
        }
        k = k + 1;
    }
    assert(v@.subrange(start as int, start + lit.len()) =~= lit@);
    true
}

/// Whether the characters of `v[start..end]` equal those of `lit`.
pub fn range_eq(v: &Vec<char>, start: usize, end: usize, lit: &Vec<char>) -> (b: bool)
    requires
        start <= end <= v.len(),
    ensures
        b == (v@.subrange(start as int, end as int) == lit@),
{
    if end - start != lit.len() {
        proof {
            if v@.subrange(start as int, end as int) == lit@ {
                assert(v@.subrange(start as int, end as int).len() == lit@.len());
            }
        }
        return false;
    }
    chars_match_at(v, start, lit)
}

/// The ASCII-lowercased characters of `v[start..end]`.
pub fn lowercase_range(v: &Vec<char>, start: usize, end: usize) -> (l: Vec<char>)
    requires
        start <= end <= v.len(),
    ensures
        l@ == ascii_lowercase(v@.subrange(start as int, end as int)),
{
    let mut l: Vec<char> = Vec::new();
    let mut i = start;
    while i < end
        invariant
            start <= i <= end <= v.len(),
            l@ == ascii_lowercase(v@.subrange(start as int, i as int)),
        decreases end - i,
    {
        l.push(lower_char(v[i]));
        i = i + 1;
        assert(l@ =~= ascii_lowercase(v@.subrange(start as int, i as int)));
    }
    l
}

/// Whether two strings hold the same characters.
pub fn str_eq(a: &str, b: &str) -> (r: bool)
    ensures
        r == (a@ == b@),
{
    let av = chars_of(a);
    let bv = chars_of(b);
    assert(av@.subrange(0, av@.len() as int) =~= av@);
    range_eq(&av, 0, av.len(), &bv)
}

/// Whether two strings hold the same characters up to ASCII case.
pub fn str_eq_ignore_ascii_case(a: &str, b: &str) -> (r: bool)
    ensures
        r == eq_ignore_ascii_case(a@, b@),
{
    let av = chars_of(a);
    let bv = chars_of(b);
    let al = lowercase_range(&av, 0, av.len());
    let bl = lowercase_range(&bv, 0, bv.len());
    assert(av@.subrange(0, av@.len() as int) =~= av@);
    assert(bv@.subrange(0, bv@.len() as int) =~= bv@);
    assert(al@.subrange(0, al@.len() as int) =~= al@);
    range_eq(&al, 0, al.len(), &bl)
}

/// The bounds of `v[start..end]` without white space at either end.
pub fn trim_range(v: &Vec<char>, start: usize, end: usize) -> (r: (usize, usize))
    requires
        start <= end <= v.len(),
    ensures
        start <= r.0 <= r.1 <= end,
        v@.subrange(r.0 as int, r.1 as int) == trim(v@.subrange(start as int, end as int)),
{
    let mut piece: Vec<char> = Vec::new();
    let mut i = start;
    while i < end
        invariant
            start <= i <= end <= v.len(),
            piece@ == v@.subrange(start as int, i as int),
        decreases end - i,
    {
        piece.push(v[i]);
        i = i + 1;
        assert(piece@ =~= v@.subrange(start as int, i as int));
    }
    let (a, b) = trim_bounds(&piece);
    assert(piece@.subrange(a as int, b as int) =~= v@.subrange(start + a, start + b));
    (start + a, start + b)
}

} // verus!
