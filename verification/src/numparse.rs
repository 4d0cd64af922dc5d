use vstd::prelude::*;
use crate::text::{chars_of, is_ascii_digit};

verus! {

/// The value of a run of ASCII decimal digits.
pub open spec fn digits_value(s: Seq<char>) -> nat
    decreases s.len(),
{
    if s.len() == 0 {
        0
    } else {
        digits_value(s.drop_last()) * 10 + ((s.last() as u32) - ('0' as u32)) as nat
    }
}

pub open spec fn all_ascii_digits(s: Seq<char>) -> bool {
    forall|i: int| 0 <= i < s.len() ==> is_ascii_digit(#[trigger] s[i])
}

/// The digits of an unsigned integer literal: an optional `+`, then the rest.
pub open spec fn unsigned_digits(s: Seq<char>) -> Seq<char> {
    if s.len() > 0 && s[0] == '+' {
        s.drop_first()
    } else {
        s
    }
}

/// What `str::parse` gives for an unsigned integer type whose largest value
/// is `max`: an optional `+` followed by at least one ASCII digit, with the
/// value at most `max`; anything else (white space included) is refused.
pub open spec fn parse_unsigned(s: Seq<char>, max: nat) -> Option<nat> {
    let d = unsigned_digits(s);
    if d.len() > 0 && all_ascii_digits(d) && digits_value(d) <= max {
        Some(digits_value(d))
    } else {
        None
    }
}

proof fn lemma_digits_value_take_step(s: Seq<char>, j: int)
    requires
        0 <= j < s.len(),
    ensures
        digits_value(s.take(j + 1)) == digits_value(s.take(j)) * 10 + ((s[j] as u32) - ('0' as u32)) as nat,
{
    assert(s.take(j + 1).drop_last() =~= s.take(j));
}

proof fn lemma_digits_value_monotone(s: Seq<char>, j: int, k: int)
    requires
        0 <= j <= k <= s.len(),
        all_ascii_digits(s),
    ensures
        digits_value(s.take(j)) <= digits_value(s.take(k)),
    decreases k - j,
{
    if j < k {
        lemma_digits_value_monotone(s, j, k - 1);
        lemma_digits_value_take_step(s, k - 1);
    }
}

/// Decimal digits read positionally: the digits of `s` followed by `t`
/// stand for the value of `s` shifted left by the length of `t`, plus the
/// value of `t`. In particular leading zeros add nothing.
pub proof fn lemma_digits_value_concat(s: Seq<char>, t: Seq<char>)
    ensures
        digits_value(s + t) == digits_value(s) * vstd::arithmetic::power::pow(10, t.len()) + digits_value(t),
        digits_value(seq!['0'] + t) == digits_value(t),
    decreases t.len(),
{
    vstd::arithmetic::power::lemma_pow0(10);
    if t.len() == 0 {
        assert(s + t =~= s);
        assert(seq!['0'] + t =~= seq!['0']);
        assert(seq!['0'].drop_last() =~= Seq::<char>::empty());
        assert(seq!['0'].last() == '0');
        assert(digits_value(seq!['0']) == digits_value(Seq::<char>::empty()) * 10 + (('0' as u32) - ('0'
            as u32)) as nat);
    } else {
        let d = t.drop_last();
        lemma_digits_value_concat(s, d);
        assert((s + t).drop_last() =~= s + d);
        assert((seq!['0'] + t).drop_last() =~= seq!['0'] + d);
        assert((seq!['0'] + t).last() == t.last());
        assert((s + t).last() == t.last());
        vstd::arithmetic::power::lemma_pow_positive(10, d.len());
        let p = vstd::arithmetic::power::pow(10, d.len());
        assert(vstd::arithmetic::power::pow(10, t.len()) == 10 * p) by {
            vstd::arithmetic::power::lemma_pow_adds(10, d.len(), 1);
            vstd::arithmetic::power::lemma_pow1(10);
        }
        let a = digits_value(s);
        let b = digits_value(d);
        assert((a * p + b) * 10 == a * (10 * p) + b * 10) by (nonlinear_arith);
    }
}

/// A parsed value is at most the limit, and it is exactly the value of the
/// literal's digits after an optional `+`, all of which are ASCII digits.
pub proof fn lemma_parse_unsigned_result(s: Seq<char>, max: nat)
    ensures
        parse_unsigned(s, max) matches Some(v) ==> v <= max && unsigned_digits(s).len() > 0
            && all_ascii_digits(unsigned_digits(s)) && v == digits_value(unsigned_digits(s)),
        s.len() > 0 && s[0] == '+' && s.len() > 1 && s[1] != '+' ==> parse_unsigned(s, max) == parse_unsigned(
            s.drop_first(),
            max,
        ),
        s.len() == 0 ==> parse_unsigned(s, max) is None,
{
}

/// Parses an unsigned decimal literal no larger than `max`, as `str::parse`
/// does for an unsigned integer type whose largest value is `max`.
pub fn parse_unsigned_str(s: &str, max: u64) -> (r: Option<u64>)
    ensures
        match parse_unsigned(s@, max as nat) {
            Some(v) => r == Some(v as u64),
            None => r is None,
        },
{
    let chars = chars_of(s);
    let mut start: usize = 0;
    if chars.len() > 0 && chars[0] == '+' {
        start = 1;
    }
    let ghost d = unsigned_digits(s@);
    assert(d =~= chars@.subrange(start as int, chars@.len() as int));
    if start >= chars.len() {
        return None;
    }
    let mut value: u64 = 0;
    let mut i: usize = start;
    while i < chars.len()
        invariant
            start <= i <= chars.len(),
            chars@ == s@,
            d == unsigned_digits(s@),
            d == chars@.subrange(start as int, chars@.len() as int),
            all_ascii_digits(d.take(i - start)),
            value as nat == digits_value(d.take(i - start)),
            value <= max,
        decreases chars.len() - i,
    {
        let c = chars[i];
        assert(d[i - start] == c);
        if !('0' <= c && c <= '9') {
            assert(!is_ascii_digit(d[i - start]));
            assert(!all_ascii_digits(d));
            return None;
        }
        let digit: u64 = (c as u32 - '0' as u32) as u64;
        proof {
            lemma_digits_value_take_step(d, i - start);
        }
        if digit > max || value > (max - digit) / 10 {
            proof {
                if digit <= max {
                    assert(value * 10 + digit > max) by (nonlinear_arith)
                        requires
                            value > (max - digit) / 10,
                            digit <= max,
                    ;
                }
                if all_ascii_digits(d) {
                    lemma_digits_value_monotone(d, i - start + 1, d.len() as int);
                    assert(d.take(d.len() as int) =~= d);
                }
            }
            return None;
        }
        assert(value * 10 + digit <= max) by (nonlinear_arith)
            requires
                value <= (max - digit) / 10,
                digit <= max,
        ;
        value = value * 10 + digit;
        i = i + 1;
        assert(all_ascii_digits(d.take(i - start))) by {
            assert forall|k: int| 0 <= k < i - start implies is_ascii_digit(
                #[trigger] d.take(i - start)[k],
            ) by {
                if k < i - start - 1 {
                    assert(d.take(i - start)[k] == d.take(i - start - 1)[k]);
                }
            }
        }
    }
    assert(d.take(d.len() as int) =~= d);
    Some(value)
}

/// `str::parse::<u64>`.
pub fn parse_u64_str(s: &str) -> (r: Option<u64>)
    ensures
        match parse_unsigned(s@, u64::MAX as nat) {
            Some(v) => r == Some(v as u64),
            None => r is None,
        },
{
    parse_unsigned_str(s, u64::MAX)
}

/// `str::parse::<usize>`.
pub fn parse_usize_str(s: &str) -> (r: Option<usize>)
    ensures
        match parse_unsigned(s@, usize::MAX as nat) {
            Some(v) => r == Some(v as usize),
            None => r is None,
        },
{
    match parse_unsigned_str(s, usize::MAX as u64) {
        Some(v) => Some(v as usize),
        None => None,
    }
}

/// `str::parse::<u32>`.
pub fn parse_u32_str(s: &str) -> (r: Option<u32>)
    ensures
        match parse_unsigned(s@, u32::MAX as nat) {
            Some(v) => r == Some(v as u32),
            None => r is None,
        },
{
    match parse_unsigned_str(s, u32::MAX as u64) {
        Some(v) => Some(v as u32),
        None => None,
    }
}

} // verus!
