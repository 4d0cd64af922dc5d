use vstd::prelude::*;
use crate::errors::{plain_error, ErrorKind, SemverPart, UcError};
use crate::numparse::{parse_u64_str, parse_unsigned, parse_unsigned_str};
use crate::settings::{parse_env_u64, raw_view, setting_number};
use crate::surface::copy_str;
use crate::text::{
    chars_of, eq_ignore_ascii_case, is_ascii_digit, is_white_space, is_white_space_char,
    str_eq_ignore_ascii_case, string_from_range, trim, trim_bounds,
};
use crate::versions::{contains_chars, contains_seq, find_char_from_pub, lemma_next_index_of_pub, next_index_of};

verus! {

/// The oldest Scarb release that builds go through, unless configured.
pub const DEFAULT_MIN_SCARB_VERSION: &'static str = "2.14.0";

/// The schema of the cached result of the toolchain check.
pub const TOOLCHAIN_CHECK_CACHE_SCHEMA_VERSION: u32 = 1;

/// How long a toolchain check result is reused, in milliseconds.
pub const DEFAULT_SCARB_TOOLCHAIN_CACHE_TTL_MS: u64 = 300_000;

/// The characters of `s` from `i` up to its next `.` (or its end).
pub open spec fn dot_part(s: Seq<char>, i: int) -> Seq<char> {
    s.subrange(i, next_index_of(s, i, '.'))
}

/// The ASCII digits at the start of `s`.
pub open spec fn digit_prefix(s: Seq<char>) -> Seq<char>
    decreases s.len(),
{
    if s.len() > 0 && is_ascii_digit(s[0]) {
        seq![s[0]] + digit_prefix(s.drop_first())
    } else {
        Seq::empty()
    }
}

/// A `major.minor.patch` version read as its first three `.`-separated
/// parts of the trimmed text; the patch part counts only up to its first
/// non-digit. Each part that is missing or not a `u64` is an error, checked
/// in order.
pub open spec fn semver_triplet(value: Seq<char>) -> Result<(u64, u64, u64), ErrorKind> {
    let t = trim(value);
    let e1 = next_index_of(t, 0, '.');
    match parse_unsigned(dot_part(t, 0), u64::MAX as nat) {
        None => Err(ErrorKind::SemverPartInvalid { part: SemverPart::Major }),
        Some(major) => if e1 >= t.len() {
            Err(ErrorKind::SemverPartMissing { part: SemverPart::Minor })
        } else {
            let e2 = next_index_of(t, e1 + 1, '.');
            match parse_unsigned(dot_part(t, e1 + 1), u64::MAX as nat) {
                None => Err(ErrorKind::SemverPartInvalid { part: SemverPart::Minor }),
                Some(minor) => if e2 >= t.len() {
                    Err(ErrorKind::SemverPartMissing { part: SemverPart::Patch })
                } else {
                    match parse_unsigned(digit_prefix(dot_part(t, e2 + 1)), u64::MAX as nat) {
                        None => Err(ErrorKind::SemverPartInvalid { part: SemverPart::Patch }),
                        Some(patch) => Ok((major as u64, minor as u64, patch as u64)),
                    }
                },
            }
        },
    }
}

proof fn lemma_digit_prefix(s: Seq<char>, k: int)
    requires
        0 <= k <= s.len(),
        forall|j: int| 0 <= j < k ==> is_ascii_digit(#[trigger] s[j]),
        k == s.len() || !is_ascii_digit(s[k]),
    ensures
        digit_prefix(s) == s.take(k),
    decreases k,
{
    if k > 0 {
        assert forall|j: int| 0 <= j < k - 1 implies is_ascii_digit(#[trigger] s.drop_first()[j]) by {
            assert(s.drop_first()[j] == s[j + 1]);
        }
        if k - 1 < s.drop_first().len() {
            assert(s.drop_first()[k - 1] == s[k]);
        }
        lemma_digit_prefix(s.drop_first(), k - 1);
        assert(seq![s[0]] + s.drop_first().take(k - 1) =~= s.take(k));
    } else {
        if s.len() > 0 {
            assert(!is_ascii_digit(s[0]));
        }
        assert(s.take(0) =~= Seq::<char>::empty());
    }
}

fn parse_part(t: &Vec<char>, a: usize, b: usize) -> (r: Option<u64>)
    requires
        a <= b <= t@.len(),
    ensures
        match parse_unsigned(t@.subrange(a as int, b as int), u64::MAX as nat) {
            Some(x) => r == Some(x as u64),
            None => r is None,
        },
{
    let part = string_from_range(t, a, b);
    parse_unsigned_str(part.as_str(), u64::MAX)
}

fn parse_digit_prefix(t: &Vec<char>, a: usize, b: usize) -> (r: Option<u64>)
    requires
        a <= b <= t@.len(),
    ensures
        match parse_unsigned(digit_prefix(t@.subrange(a as int, b as int)), u64::MAX as nat) {
            Some(x) => r == Some(x as u64),
            None => r is None,
        },
{
    let ghost p = t@.subrange(a as int, b as int);
    let mut k = a;
    while k < b && '0' <= t[k] && t[k] <= '9'
        invariant
            a <= k <= b <= t@.len(),
            p == t@.subrange(a as int, b as int),
            forall|j: int| a <= j < k ==> is_ascii_digit(#[trigger] t@[j]),
        decreases b - k,
    {
        k = k + 1;
    }
    proof {
        assert forall|j: int| 0 <= j < k - a implies is_ascii_digit(#[trigger] p[j]) by {
            assert(p[j] == t@[a + j]);
        }
        if k < b {
            assert(p[k - a] == t@[k as int]);
        }
        lemma_digit_prefix(p, k - a);
        assert(t@.subrange(a as int, k as int) =~= p.take(k - a));
    }
    parse_part(t, a, k)
}

/// Reads a `major.minor.patch` version.
pub fn parse_semver_triplet(value: &str) -> (r: Result<(u64, u64, u64), UcError>)
    ensures
        match semver_triplet(value@) {
            Ok(v) => r == Ok::<(u64, u64, u64), UcError>(v),
            Err(k) => r is Err && r->Err_0.kind == k,
        },
{
    let v = chars_of(value);
    let (s, e) = trim_bounds(&v);
    let trimmed = string_from_range(&v, s, e);
    let t = chars_of(trimmed.as_str());
    assert(t@ == trim(value@));
    proof {
        lemma_next_index_of_pub(t@, 0, '.');
    }
    let e1 = find_char_from_pub(&t, 0, '.');
    let major = match parse_part(&t, 0, e1) {
        None => {
            return Err(plain_error(ErrorKind::SemverPartInvalid { part: SemverPart::Major }));
        },
        Some(x) => x,
    };
    if e1 >= t.len() {
        return Err(plain_error(ErrorKind::SemverPartMissing { part: SemverPart::Minor }));
    }
    proof {
        lemma_next_index_of_pub(t@, e1 + 1, '.');
    }
    let e2 = find_char_from_pub(&t, e1 + 1, '.');
    let minor = match parse_part(&t, e1 + 1, e2) {
        None => {
            return Err(plain_error(ErrorKind::SemverPartInvalid { part: SemverPart::Minor }));
        },
        Some(x) => x,
    };
    if e2 >= t.len() {
        return Err(plain_error(ErrorKind::SemverPartMissing { part: SemverPart::Patch }));
    }
    proof {
        lemma_next_index_of_pub(t@, e2 + 1, '.');
    }
    let e3 = find_char_from_pub(&t, e2 + 1, '.');
    match parse_digit_prefix(&t, e2 + 1, e3) {
        None => Err(plain_error(ErrorKind::SemverPartInvalid { part: SemverPart::Patch })),
        Some(patch) => Ok((major, minor, patch)),
    }
}

/// The position of the first non-whitespace character of `s` from `i` on.
pub open spec fn skip_white(s: Seq<char>, i: int) -> int
    decreases s.len() - i,
{
    if 0 <= i < s.len() && is_white_space(s[i]) {
        skip_white(s, i + 1)
    } else {
        i
    }
}

/// The position of the first whitespace character of `s` from `i` on.
pub open spec fn skip_word(s: Seq<char>, i: int) -> int
    decreases s.len() - i,
{
    if 0 <= i < s.len() && !is_white_space(s[i]) {
        skip_word(s, i + 1)
    } else {
        i
    }
}

proof fn lemma_skips(s: Seq<char>, i: int)
    requires
        0 <= i <= s.len(),
    ensures
        i <= skip_white(s, i) <= s.len(),
        i <= skip_word(s, i) <= s.len(),
    decreases s.len() - i,
{
    if i < s.len() {
        lemma_skips(s, i + 1);
    }
}

fn skip_white_exec(v: &Vec<char>, i: usize) -> (j: usize)
    requires
        i <= v@.len(),
    ensures
        j == skip_white(v@, i as int),
{
    let mut j = i;
    while j < v.len() && is_white_space_char(v[j])
        invariant
            i <= j <= v@.len(),
            skip_white(v@, j as int) == skip_white(v@, i as int),
        decreases v@.len() - j,
    {
        j = j + 1;
    }
    j
}

fn skip_word_exec(v: &Vec<char>, i: usize) -> (j: usize)
    requires
        i <= v@.len(),
    ensures
        j == skip_word(v@, i as int),
{
    let mut j = i;
    while j < v.len() && !is_white_space_char(v[j])
        invariant
            i <= j <= v@.len(),
            skip_word(v@, j as int) == skip_word(v@, i as int),
        decreases v@.len() - j,
    {
        j = j + 1;
    }
    j
}

/// The first two whitespace-separated words of `line`, each empty when
/// missing.
pub open spec fn first_two_words(line: Seq<char>) -> (Seq<char>, Seq<char>) {
    let a = skip_white(line, 0);
    let b = skip_word(line, a);
    let c = skip_white(line, b);
    let d = skip_word(line, c);
    (line.subrange(a, b), line.subrange(c, d))
}

/// Reads the Scarb version from the first line of `scarb --version`: its
/// first word must be `scarb` (in any ASCII case) and its second word is the
/// version.
pub fn parse_scarb_semver(version_line: &str) -> (r: Result<(u64, u64, u64), UcError>)
    ensures
        ({
            let (tool, semver) = first_two_words(version_line@);
            &&& !eq_ignore_ascii_case(tool, "scarb"@) ==> r is Err && (r->Err_0.kind matches ErrorKind::UnexpectedScarbVersionOutput {
                line,
            } && line@ == version_line@)
            &&& eq_ignore_ascii_case(tool, "scarb"@) && semver.len() == 0 ==> r is Err
                && r->Err_0.kind == ErrorKind::MissingScarbSemverToken
            &&& eq_ignore_ascii_case(tool, "scarb"@) && semver.len() > 0 ==> match semver_triplet(
                semver,
            ) {
                Ok(v) => r == Ok::<(u64, u64, u64), UcError>(v),
                Err(k) => r is Err && r->Err_0.kind == k,
            }
        }),
{
    let v = chars_of(version_line);
    proof {
        lemma_skips(v@, 0);
    }
    let a = skip_white_exec(&v, 0);
    proof {
        lemma_skips(v@, a as int);
    }
    let b = skip_word_exec(&v, a);
    proof {
        lemma_skips(v@, b as int);
    }
    let c = skip_white_exec(&v, b);
    proof {
        lemma_skips(v@, c as int);
    }
    let d = skip_word_exec(&v, c);
    let tool = string_from_range(&v, a, b);
    if !str_eq_ignore_ascii_case(tool.as_str(), "scarb") {
        return Err(plain_error(ErrorKind::UnexpectedScarbVersionOutput { line: copy_str(version_line) }));
    }
    if c == d {
        return Err(plain_error(ErrorKind::MissingScarbSemverToken));
    }
    let semver = string_from_range(&v, c, d);
    parse_semver_triplet(semver.as_str())
}

/// The configured minimum Scarb version: the setting trimmed, unless it is
/// unset or blank.
pub open spec fn min_version_text(raw: Option<Seq<char>>) -> Seq<char> {
    match raw {
        Some(r) => if trim(r).len() > 0 {
            trim(r)
        } else {
            DEFAULT_MIN_SCARB_VERSION@
        },
        None => DEFAULT_MIN_SCARB_VERSION@,
    }
}

fn trimmed_nonblank(raw: &str) -> (r: Option<String>)
    ensures
        match r {
            Some(t) => trim(raw@).len() > 0 && t@ == trim(raw@),
            None => trim(raw@).len() == 0,
        },
{
    let v = chars_of(raw);
    let (s, e) = trim_bounds(&v);
    if s == e {
        return None;
    }
    Some(string_from_range(&v, s, e))
}

/// The minimum Scarb version, from the raw `UC_MIN_SCARB_VERSION` value.
pub fn min_scarb_version(raw: Option<&str>) -> (v: String)
    ensures
        v@ == min_version_text(raw_view(raw)),
{
    match raw {
        Some(r) => match trimmed_nonblank(r) {
            Some(t) => t,
            None => String::from_str(DEFAULT_MIN_SCARB_VERSION),
        },
        None => String::from_str(DEFAULT_MIN_SCARB_VERSION),
    }
}

/// An explicitly configured Scarb version line (`UC_SCARB_VERSION_LINE`),
/// trimmed, when it is not blank.
pub fn scarb_version_line_override(raw: Option<&str>) -> (r: Option<String>)
    ensures
        match raw {
            Some(s) => match r {
                Some(t) => trim(s@).len() > 0 && t@ == trim(s@),
                None => trim(s@).len() == 0,
            },
            None => r is None,
        },
{
    match raw {
        Some(s) => trimmed_nonblank(s),
        None => None,
    }
}

/// The version line that `scarb --version` printed: its first line,
/// trimmed; nothing printed, a blank line or `scarb unknown` is an error.
pub open spec fn version_line_of(stdout: Seq<char>) -> Option<Seq<char>> {
    let first = if stdout.len() == 0 {
        "scarb unknown"@
    } else {
        trim(stdout.take(next_index_of(stdout, 0, '\n')))
    };
    if first.len() == 0 || first == "scarb unknown"@ {
        None
    } else {
        Some(first)
    }
}

/// Reads the version line from what `scarb --version` printed.
pub fn scarb_version_line_from_output(stdout: &str) -> (r: Result<String, UcError>)
    ensures
        match version_line_of(stdout@) {
            Some(l) => r is Ok && r->Ok_0@ == l,
            None => r is Err && r->Err_0.kind == ErrorKind::ScarbVersionOutputUnparsable,
        },
{
    let v = chars_of(stdout);
    let unknown = chars_of("scarb unknown");
    if v.len() == 0 {
        return Err(plain_error(ErrorKind::ScarbVersionOutputUnparsable));
    }
    proof {
        lemma_next_index_of_pub(v@, 0, '\n');
    }
    let e = find_char_from_pub(&v, 0, '\n');
    let line = string_from_range(&v, 0, e);
    assert(line@ =~= v@.take(e as int));
    match trimmed_nonblank(line.as_str()) {
        None => Err(plain_error(ErrorKind::ScarbVersionOutputUnparsable)),
        Some(t) => {
            let tc = chars_of(t.as_str());
            if crate::text::range_eq(&tc, 0, tc.len(), &unknown) {
                assert(tc@.subrange(0, tc@.len() as int) =~= tc@);
                return Err(plain_error(ErrorKind::ScarbVersionOutputUnparsable));
            }
            assert(tc@.subrange(0, tc@.len() as int) =~= tc@);
            Ok(t)
        },
    }
}

/// The Scarb toolchain cache's freshness limit in milliseconds, from the raw
/// `UC_SCARB_TOOLCHAIN_CACHE_TTL_MS` value.
pub fn scarb_toolchain_cache_ttl_ms(raw: Option<&str>) -> (v: u64)
    ensures
        v == setting_number(raw_view(raw), DEFAULT_SCARB_TOOLCHAIN_CACHE_TTL_MS as nat, u64::MAX as nat),
{
    parse_env_u64(raw, DEFAULT_SCARB_TOOLCHAIN_CACHE_TTL_MS)
}

/// Reuses the version line of an earlier toolchain check: only one of the
/// current schema, checked no longer than `ttl_ms` ago (time running
/// backwards counts as no time), with a non-blank line, which is trimmed.
pub fn cached_toolchain_version_line(
    schema_version: u32,
    checked_epoch_ms: u64,
    version_line: &str,
    now_ms: u64,
    ttl_ms: u64,
) -> (r: Option<String>)
    ensures
        (schema_version == TOOLCHAIN_CHECK_CACHE_SCHEMA_VERSION && (if now_ms >= checked_epoch_ms {
            now_ms - checked_epoch_ms
        } else {
            0
        }) <= ttl_ms && trim(version_line@).len() > 0) ==> r is Some && r->0@ == trim(
            version_line@,
        ),
        !(schema_version == TOOLCHAIN_CHECK_CACHE_SCHEMA_VERSION && (if now_ms >= checked_epoch_ms {
            now_ms - checked_epoch_ms
        } else {
            0
        }) <= ttl_ms && trim(version_line@).len() > 0) ==> r is None,
{
    if schema_version != TOOLCHAIN_CHECK_CACHE_SCHEMA_VERSION {
        return None;
    }
    if now_ms.saturating_sub(checked_epoch_ms) > ttl_ms {
        return None;
    }
    trimmed_nonblank(version_line)
}

/// Whether version `a` is older than `b`, part by part.
pub open spec fn version_lt(a: (u64, u64, u64), b: (u64, u64, u64)) -> bool {
    a.0 < b.0 || (a.0 == b.0 && (a.1 < b.1 || (a.1 == b.1 && a.2 < b.2)))
}

/// Checks a Scarb version line against the configured minimum version
/// (`UC_MIN_SCARB_VERSION`, raw) and the token it must contain
/// (`UC_EXPECT_SCARB_VERSION`, when set), in that order.
pub fn validate_scarb_version_constraints(
    version: &str,
    min_raw: Option<&str>,
    expected: Option<&str>,
) -> (r: Result<(), UcError>)
    ensures
        ({
            let (tool, semver) = first_two_words(version@);
            let current: Result<(u64, u64, u64), Option<ErrorKind>> = if !eq_ignore_ascii_case(
                tool,
                "scarb"@,
            ) {
                Err(None)
            } else if semver.len() == 0 {
                Err(Some(ErrorKind::MissingScarbSemverToken))
            } else {
                match semver_triplet(semver) {
                    Ok(v) => Ok(v),
                    Err(k) => Err(Some(k)),
                }
            };
            let min_text = min_version_text(raw_view(min_raw));
            match current {
                Err(None) => r is Err && (r->Err_0.kind matches ErrorKind::UnexpectedScarbVersionOutput {
                    line,
                } && line@ == version@),
                Err(Some(k)) => r is Err && r->Err_0.kind == k,
                Ok(cur) => match semver_triplet(min_text) {
                    Err(_) => r is Err && (r->Err_0.kind matches ErrorKind::InvalidMinScarbVersion {
                        value,
                    } && value@ == min_text),
                    Ok(min) => if version_lt(cur, min) {
                        r is Err && (r->Err_0.kind matches ErrorKind::ScarbVersionBelowMinimum {
                            version: v,
                            minimum: m,
                        } && v@ == version@ && m@ == min_text)
                    } else {
                        match expected {
                            Some(e) => if contains_seq(version@, e@) {
                                r is Ok
                            } else {
                                r is Err && (r->Err_0.kind matches ErrorKind::ScarbVersionMismatch {
                                    expected: x,
                                    version: v,
                                } && x@ == e@ && v@ == version@)
                            },
                            None => r is Ok,
                        }
                    },
                },
            }
        }),
{
    let current = match parse_scarb_semver(version) {
        Ok(c) => c,
        Err(e) => {
            return Err(e);
        },
    };
    let minimum_text = min_scarb_version(min_raw);
    let minimum = match parse_semver_triplet(minimum_text.as_str()) {
        Ok(m) => m,
        Err(_) => {
            return Err(plain_error(ErrorKind::InvalidMinScarbVersion { value: minimum_text }));
        },
    };
    if current.0 < minimum.0 || (current.0 == minimum.0 && (current.1 < minimum.1 || (current.1
        == minimum.1 && current.2 < minimum.2))) {
        return Err(
            plain_error(
                ErrorKind::ScarbVersionBelowMinimum { version: copy_str(version), minimum: minimum_text },
            ),
        );
    }
    match expected {
        Some(e) => {
            let vc = chars_of(version);
            let ec = chars_of(e);
            if !contains_chars(&vc, &ec) {
                return Err(
                    plain_error(
                        ErrorKind::ScarbVersionMismatch { expected: copy_str(e), version: copy_str(version) },
                    ),
                );
            }
            Ok(())
        },
        None => Ok(()),
    }
}

} // verus!
