use vstd::prelude::*;
use crate::errors::{native_fallback_eligible_error, plain_error, ErrorKind, UcError};
use crate::hashing::{blake3_hex, blake3_hex_digest};
use crate::numparse::{all_ascii_digits, digits_value, parse_u32_str, parse_unsigned, parse_unsigned_str};
use crate::text::{
    ascii_lowercase, chars_match_at, chars_of, is_ascii_digit, lowercase_range, push_char,
    push_str, str_eq, string_from_chars, string_from_range, trim, trim_bounds, trim_range,
};
use vstd::string::StringSliceAdditionalSpecFns;

verus! {

/// The position of the first `c` in `s` at or after `i`, or `s.len()`.
pub open spec fn next_index_of(s: Seq<char>, i: int, c: char) -> int
    decreases s.len() - i,
{
    if i >= s.len() {
        s.len() as int
    } else if s[i] == c {
        i
    } else {
        next_index_of(s, i + 1, c)
    }
}

proof fn lemma_next_index_of(s: Seq<char>, i: int, c: char)
    requires
        0 <= i <= s.len(),
    ensures
        i <= next_index_of(s, i, c) <= s.len(),
        next_index_of(s, i, c) < s.len() ==> s[next_index_of(s, i, c)] == c,
        forall|j: int| i <= j < next_index_of(s, i, c) ==> #[trigger] s[j] != c,
    decreases s.len() - i,
{
    if i < s.len() && s[i] != c {
        lemma_next_index_of(s, i + 1, c);
    }
}

/// `next_index_of` finds the next `c`.
pub proof fn lemma_next_index_of_pub(s: Seq<char>, i: int, c: char)
    requires
        0 <= i <= s.len(),
    ensures
        i <= next_index_of(s, i, c) <= s.len(),
        next_index_of(s, i, c) < s.len() ==> s[next_index_of(s, i, c)] == c,
        forall|j: int| i <= j < next_index_of(s, i, c) ==> #[trigger] s[j] != c,
{
    lemma_next_index_of(s, i, c);
}

/// The position of the first `c` in `v` at or after `i`, or `v.len()`.
pub fn find_char_from_pub(v: &Vec<char>, i: usize, c: char) -> (j: usize)
    requires
        i <= v.len(),
    ensures
        j == next_index_of(v@, i as int, c),
        i <= j <= v.len(),
{
    find_char_from(v, i, c)
}

fn find_char_from(v: &Vec<char>, i: usize, c: char) -> (j: usize)
    requires
        i <= v.len(),
    ensures
        j == next_index_of(v@, i as int, c),
        i <= j <= v.len(),
{
    proof {
        lemma_next_index_of(v@, i as int, c);
    }
    let mut j = i;
    while j < v.len() && v[j] != c
        invariant
            i <= j <= v@.len(),
            forall|q: int| i <= q < j ==> #[trigger] v@[q] != c,
            i <= next_index_of(v@, i as int, c) <= v@.len(),
            next_index_of(v@, i as int, c) < v@.len() ==> v@[next_index_of(v@, i as int, c)] == c,
            forall|q: int| i <= q < next_index_of(v@, i as int, c) ==> #[trigger] v@[q] != c,
        decreases v@.len() - j,
    {
        j = j + 1;
    }
    proof {
        let k = next_index_of(v@, i as int, c);
        if k < j {
            assert(v@[k] == c);
        }
        if j < k {
            assert(v@[j as int] == c);
        }
    }
    j
}

/// Whether `t` reads `prefix`, then at least a closing `"`.
pub open spec fn is_quoted_field(t: Seq<char>, prefix: Seq<char>) -> bool {
    t.len() >= prefix.len() + 1 && t.take(prefix.len() as int) == prefix && t.last() == '"'
}

/// What stands between `prefix` and the closing `"`.
pub open spec fn quoted_value(t: Seq<char>, prefix: Seq<char>) -> Seq<char> {
    t.subrange(prefix.len() as int, t.len() - 1)
}

/// The version of the package named `dep` in a lockfile, scanned line by line
/// from position `i`: a `[[package]]` line starts a new package, a `name`
/// line says whether it is `dep`, and the first `version` line of `dep` holds
/// the answer.
pub open spec fn lock_scan(s: Seq<char>, i: int, in_target: bool, dep: Seq<char>) -> Option<
    Seq<char>,
>
    decreases s.len() + 1 - i,
{
    if i < 0 || i > s.len() {
        None
    } else {
        let e = next_index_of(s, i, '\n');
        let t = trim(s.subrange(i, e));
        if e < i || e > s.len() {
            None
        } else if t == "[[package]]"@ {
            lock_scan(s, e + 1, false, dep)
        } else if is_quoted_field(t, "name = \""@) {
            lock_scan(s, e + 1, quoted_value(t, "name = \""@) == dep, dep)
        } else if in_target && is_quoted_field(t, "version = \""@) {
            Some(quoted_value(t, "version = \""@))
        } else {
            lock_scan(s, e + 1, in_target, dep)
        }
    }
}

fn quoted_field_at(v: &Vec<char>, a: usize, b: usize, prefix: &Vec<char>) -> (r: bool)
    requires
        a <= b <= v.len(),
    ensures
        r == is_quoted_field(v@.subrange(a as int, b as int), prefix@),
{
    let ghost t = v@.subrange(a as int, b as int);
    if b - a <= prefix.len() {
        return false;
    }
    let m = chars_match_at(v, a, prefix);
    assert(t.take(prefix@.len() as int) =~= v@.subrange(a as int, a + prefix@.len()));
    m && v[b - 1] == '"'
}

/// Finds the version of `dependency_name` in a `Cargo.lock`-style lockfile.
pub fn parse_lockfile_dependency_version(lockfile: &str, dependency_name: &str) -> (r: Option<
    String,
>)
    ensures
        match lock_scan(lockfile@, 0, false, dependency_name@) {
            Some(v) => r is Some && r->0@ == v,
            None => r is None,
        },
{
    let s = chars_of(lockfile);
    let dep = chars_of(dependency_name);
    let package = chars_of("[[package]]");
    let name_prefix = chars_of("name = \"");
    let version_prefix = chars_of("version = \"");
    let mut in_target = false;
    let mut i: usize = 0;
    while i <= s.len()
        invariant
            s@ == lockfile@,
            dep@ == dependency_name@,
            package@ == "[[package]]"@,
            name_prefix@ == "name = \""@,
            version_prefix@ == "version = \""@,
            lock_scan(s@, i as int, in_target, dep@) == lock_scan(
                lockfile@,
                0,
                false,
                dependency_name@,
            ),
        decreases s@.len() + 1 - i,
    {
        let e = find_char_from(&s, i, '\n');
        let (a, b) = trim_range(&s, i, e);
        let ghost t = s@.subrange(a as int, b as int);
        let len_ok = b - a == package.len();
        let m = chars_match_at(&s, a, &package);
        let is_package = len_ok && m;
        assert(is_package == (t == "[[package]]"@)) by {
            if len_ok {
                assert(s@.subrange(a as int, a + package@.len()) == t);
            } else if t == "[[package]]"@ {
                assert(t.len() == package@.len());
            }
        }
        if is_package {
            in_target = false;
        } else if quoted_field_at(&s, a, b, &name_prefix) {
            let start = a + name_prefix.len();
            let end = b - 1;
            let len_same = end - start == dep.len();
            let m2 = chars_match_at(&s, start, &dep);
            let same = len_same && m2;
            proof {
                let q = quoted_value(t, "name = \""@);
                assert(q =~= s@.subrange(start as int, end as int));
                if len_same {
                    assert(s@.subrange(start as int, start + dep@.len()) == q);
                } else if q == dep@ {
                    assert(q.len() == dep@.len());
                }
            }
            in_target = same;
        } else if in_target && quoted_field_at(&s, a, b, &version_prefix) {
            let start = a + version_prefix.len();
            let end = b - 1;
            let version = string_from_range(&s, start, end);
            assert(version@ =~= quoted_value(t, "version = \""@));
            return Some(version);
        }
        if e == s.len() {
            assert(lock_scan(s@, e + 1, in_target, dep@) is None);
            return None;
        }
        i = e + 1;
    }
    None
}

/// The digits at the start of `s`.
pub open spec fn leading_digits(s: Seq<char>) -> Seq<char>
    decreases s.len(),
{
    if s.len() > 0 && is_ascii_digit(s[0]) {
        seq![s[0]] + leading_digits(s.drop_first())
    } else {
        Seq::empty()
    }
}

/// The number that a version component starts with, after trimming: its
/// leading ASCII digits, if there are any and they fit in a `u64`.
pub open spec fn leading_component_value(raw: Seq<char>) -> Option<nat> {
    let d = leading_digits(trim(raw));
    if d.len() > 0 && digits_value(d) <= u64::MAX {
        Some(digits_value(d))
    } else {
        None
    }
}

proof fn lemma_leading_digits_prefix(s: Seq<char>, k: int)
    requires
        0 <= k <= s.len(),
        forall|j: int| 0 <= j < k ==> is_ascii_digit(#[trigger] s[j]),
        k == s.len() || !is_ascii_digit(s[k]),
    ensures
        leading_digits(s) == s.take(k),
    decreases k,
{
    if k > 0 {
        assert forall|j: int| 0 <= j < k - 1 implies is_ascii_digit(#[trigger] s.drop_first()[j]) by {
            assert(s.drop_first()[j] == s[j + 1]);
        }
        if k - 1 < s.drop_first().len() {
            assert(s.drop_first()[k - 1] == s[k]);
        }
        lemma_leading_digits_prefix(s.drop_first(), k - 1);
        assert(seq![s[0]] + s.drop_first().take(k - 1) =~= s.take(k));
    } else {
        if s.len() > 0 {
            assert(!is_ascii_digit(s[0]));
        }
        assert(s.take(0) =~= Seq::<char>::empty());
    }
}

fn leading_value_of_range(v: &Vec<char>, a: usize, b: usize) -> (r: Option<u64>)
    requires
        a <= b <= v.len(),
    ensures
        match leading_component_value(v@.subrange(a as int, b as int)) {
            Some(x) => r == Some(x as u64),
            None => r is None,
        },
{
    let (s, e) = trim_range(v, a, b);
    let ghost t = v@.subrange(s as int, e as int);
    let mut k = s;
    while k < e && '0' <= v[k] && v[k] <= '9'
        invariant
            s <= k <= e <= v@.len(),
            forall|j: int| s <= j < k ==> is_ascii_digit(#[trigger] v@[j]),
        decreases e - k,
    {
        k = k + 1;
    }
    proof {
        assert forall|j: int| 0 <= j < k - s implies is_ascii_digit(#[trigger] t[j]) by {
            assert(t[j] == v@[s + j]);
        }
        if k < e {
            assert(t[k - s] == v@[k as int]);
        }
        lemma_leading_digits_prefix(t, k - s);
    }
    if k == s {
        return None;
    }
    let digits = string_from_range(v, s, k);
    proof {
        assert(digits@ =~= t.take(k - s));
        assert(digits@ == leading_digits(t));
        assert(all_ascii_digits(digits@)) by {
            assert forall|j: int| 0 <= j < digits@.len() implies is_ascii_digit(
                #[trigger] digits@[j],
            ) by {
                assert(digits@[j] == v@[s + j]);
            }
        }
        assert(digits@.len() == 0 || digits@[0] != '+');
        assert(crate::numparse::unsigned_digits(digits@) == digits@);
    }
    parse_unsigned_str(digits.as_str(), u64::MAX)
}

/// Reads the number that a version component starts with.
pub fn parse_version_component_leading_u64(raw: &str) -> (r: Option<u64>)
    ensures
        match leading_component_value(raw@) {
            Some(x) => r == Some(x as u64),
            None => r is None,
        },
{
    let v = chars_of(raw);
    assert(v@.subrange(0, v@.len() as int) =~= v@);
    leading_value_of_range(&v, 0, v.len())
}

/// `s` without its leading `v` characters.
pub open spec fn trim_start_v(s: Seq<char>) -> Seq<char>
    decreases s.len(),
{
    if s.len() > 0 && s[0] == 'v' {
        trim_start_v(s.drop_first())
    } else {
        s
    }
}

/// The major and minor numbers of a Cairo version such as `2.11.4` or
/// `v2.11`: the trimmed text without leading `v`s split at `.`, each of the
/// first two parts read by its leading digits; none without a second part.
pub open spec fn cairo_major_minor(raw: Seq<char>) -> Option<(nat, nat)> {
    let n = trim_start_v(trim(raw));
    let d1 = next_index_of(n, 0, '.');
    if d1 >= n.len() {
        None
    } else {
        let d2 = next_index_of(n, d1 + 1, '.');
        match (
            leading_component_value(n.subrange(0, d1)),
            leading_component_value(n.subrange(d1 + 1, d2)),
        ) {
            (Some(major), Some(minor)) => Some((major, minor)),
            _ => None,
        }
    }
}

/// Reads the major and minor numbers of a Cairo version.
pub fn parse_cairo_version_major_minor(raw: &str) -> (r: Option<(u64, u64)>)
    ensures
        match cairo_major_minor(raw@) {
            Some((a, b)) => r == Some((a as u64, b as u64)),
            None => r is None,
        },
{
    let v = chars_of(raw);
    let (s, e) = trim_bounds(&v);
    let mut start = s;
    while start < e && v[start] == 'v'
        invariant
            s <= start <= e <= v@.len(),
            trim_start_v(v@.subrange(s as int, e as int)) == trim_start_v(
                v@.subrange(start as int, e as int),
            ),
        decreases e - start,
    {
        assert(v@.subrange(start as int, e as int).drop_first() =~= v@.subrange(
            start + 1,
            e as int,
        ));
        start = start + 1;
    }
    let ghost n = v@.subrange(start as int, e as int);
    proof {
        if n.len() > 0 {
            assert(n[0] == v@[start as int]);
        }
        assert(trim_start_v(n) == n);
    }
    let mut piece: Vec<char> = Vec::new();
    let mut q = start;
    while q < e
        invariant
            start <= q <= e <= v@.len(),
            piece@ == v@.subrange(start as int, q as int),
        decreases e - q,
    {
        piece.push(v[q]);
        q = q + 1;
        assert(piece@ =~= v@.subrange(start as int, q as int));
    }
    assert(piece@ == n);
    let d1 = find_char_from(&piece, 0, '.');
    if d1 >= piece.len() {
        return None;
    }
    let d2 = find_char_from(&piece, d1 + 1, '.');
    let major = leading_value_of_range(&piece, 0, d1);
    let minor = leading_value_of_range(&piece, d1 + 1, d2);
    match (major, minor) {
        (Some(a), Some(b)) => Some((a, b)),
        _ => None,
    }
}

/// The protocol version that this client and daemon speak.
pub const DAEMON_PROTOCOL_VERSION: &'static str = "0.1.0";

/// The namespace used for the native compiler version when the lockfile
/// does not name `cairo-lang-compiler`: `lockhash-` and the first 32 hex
/// digits of the BLAKE3 digest of the lockfile's UTF-8 bytes.
pub open spec fn lockfile_fallback_version(lockfile: Seq<char>) -> Seq<char> {
    "lockhash-"@ + blake3_hex_digest(vstd::utf8::encode_utf8(lockfile)).take(32)
}

/// Names the native compiler by a hash of the lockfile it was built with.
pub fn native_lockfile_fallback_version(lockfile: &str) -> (v: String)
    ensures
        v@ == lockfile_fallback_version(lockfile@),
{
    let digest = blake3_hex(lockfile.as_bytes());
    let d = chars_of(digest.as_str());
    let mut v = String::from_str("lockhash-");
    let head = string_from_range(&d, 0, 32);
    push_str(&mut v, head.as_str());
    assert(d@.subrange(0, 32) =~= blake3_hex_digest(vstd::utf8::encode_utf8(lockfile@)).take(32));
    v
}

/// The version of the native Cairo compiler: `disabled` when the build has
/// no native backend (no lockfile), else the `cairo-lang-compiler` version
/// the lockfile pins, or the lockfile hash namespace when it pins none.
pub open spec fn compiler_version_of(lockfile: Option<Seq<char>>) -> Seq<char> {
    match lockfile {
        None => "disabled"@,
        Some(l) => match lock_scan(l, 0, false, "cairo-lang-compiler"@) {
            Some(v) => v,
            None => lockfile_fallback_version(l),
        },
    }
}

/// The version of the native Cairo compiler, from the lockfile it was built
/// with, if it was built with one.
pub fn native_cairo_lang_compiler_version(lockfile: Option<&str>) -> (v: String)
    ensures
        v@ == compiler_version_of(match lockfile {
            Some(l) => Some(l@),
            None => None,
        }),
{
    match lockfile {
        None => String::from_str("disabled"),
        Some(l) => match parse_lockfile_dependency_version(l, "cairo-lang-compiler") {
            Some(v) => v,
            None => native_lockfile_fallback_version(l),
        },
    }
}

/// The version line of the native backend:
/// `uc-native <package version> cairo-lang <compiler version>`.
pub fn native_compiler_version_line(package_version: &str, compiler_version: &str) -> (line: String)
    ensures
        line@ == "uc-native "@ + package_version@ + " cairo-lang "@ + compiler_version@,
{
    let mut line = String::from_str("uc-native ");
    push_str(&mut line, package_version);
    push_str(&mut line, " cairo-lang ");
    push_str(&mut line, compiler_version);
    line
}

/// Whether a metadata format version is supported.
pub open spec fn supported_metadata_format_version(version: u32) -> bool {
    version == 1 || version == 2
}

/// Reads a metadata format version: a trimmed unsigned number, 1 or 2.
pub fn parse_metadata_format_version(input: &str) -> (r: Result<u32, UcError>)
    ensures
        match parse_unsigned(trim(input@), u32::MAX as nat) {
            None => r is Err && (r->Err_0.kind matches ErrorKind::InvalidMetadataFormatVersion {
                input: i,
            } && i@ == input@),
            Some(v) => if supported_metadata_format_version(v as u32) {
                r == Ok::<u32, UcError>(v as u32)
            } else {
                r is Err && r->Err_0.kind == (ErrorKind::UnsupportedMetadataFormatVersion {
                    version: v as u32,
                })
            },
        },
{
    let chars = chars_of(input);
    let (a, b) = trim_bounds(&chars);
    let trimmed = string_from_range(&chars, a, b);
    match parse_u32_str(trimmed.as_str()) {
        None => Err(
            plain_error(
                ErrorKind::InvalidMetadataFormatVersion { input: string_from_chars(&chars) },
            ),
        ),
        Some(v) => {
            if v == 1 || v == 2 {
                Ok(v)
            } else {
                Err(plain_error(ErrorKind::UnsupportedMetadataFormatVersion { version: v }))
            }
        },
    }
}

/// Accepts metadata format versions 1 and 2 only.
pub fn validate_metadata_format_version(version: u32) -> (r: Result<(), UcError>)
    ensures
        supported_metadata_format_version(version) ==> r is Ok,
        !supported_metadata_format_version(version) ==> r is Err && r->Err_0.kind
            == (ErrorKind::UnsupportedMetadataFormatVersion { version }),
{
    if version == 1 || version == 2 {
        Ok(())
    } else {
        Err(plain_error(ErrorKind::UnsupportedMetadataFormatVersion { version }))
    }
}

/// Accepts a daemon that speaks this client's protocol version.
pub fn validate_daemon_protocol_version(version: &str) -> (r: Result<(), UcError>)
    ensures
        version@ == DAEMON_PROTOCOL_VERSION@ ==> r is Ok,
        version@ != DAEMON_PROTOCOL_VERSION@ ==> r is Err && (r->Err_0.kind matches ErrorKind::DaemonProtocolMismatch {
            daemon_version: d,
        } && d@ == version@),
{
    if str_eq(version, DAEMON_PROTOCOL_VERSION) {
        Ok(())
    } else {
        let v = chars_of(version);
        Err(plain_error(ErrorKind::DaemonProtocolMismatch { daemon_version: string_from_chars(&v) }))
    }
}

/// Whether `s` holds `p` somewhere.
pub open spec fn contains_seq(s: Seq<char>, p: Seq<char>) -> bool {
    exists|i: int| 0 <= i && i + p.len() <= s.len() && #[trigger] s.subrange(i, i + p.len()) == p
}

pub(crate) fn contains_chars(s: &Vec<char>, p: &Vec<char>) -> (b: bool)
    ensures
        b == contains_seq(s@, p@),
{
    if p.len() > s.len() {
        return false;
    }
    if p.len() == 0 {
        assert(s@.subrange(0, 0 + p@.len() as int) =~= p@);
        return true;
    }
    let mut i: usize = 0;
    while i <= s.len() - p.len()
        invariant
            1 <= p@.len() <= s@.len(),
            i <= s@.len() - p@.len() + 1,
            forall|j: int| 0 <= j < i ==> #[trigger] s@.subrange(j, j + p@.len()) != p@,
        decreases s@.len() - p@.len() + 1 - i,
    {
        if chars_match_at(s, i, p) {
            return true;
        }
        i = i + 1;
    }
    false
}

/// Whether a daemon error message reports a protocol mismatch, in any ASCII
/// case.
pub open spec fn reports_protocol_mismatch(message: Seq<char>) -> bool {
    let n = ascii_lowercase(message);
    contains_seq(n, "protocol mismatch"@) || contains_seq(
        n,
        "daemon build request protocol mismatch"@,
    ) || contains_seq(n, "daemon metadata request protocol mismatch"@)
}

/// Whether a daemon error message reports a protocol mismatch.
pub fn daemon_response_protocol_mismatch(message: &str) -> (b: bool)
    ensures
        b == reports_protocol_mismatch(message@),
{
    let chars = chars_of(message);
    let n = lowercase_range(&chars, 0, chars.len());
    assert(chars@.subrange(0, chars@.len() as int) =~= chars@);
    let p1 = chars_of("protocol mismatch");
    let p2 = chars_of("daemon build request protocol mismatch");
    let p3 = chars_of("daemon metadata request protocol mismatch");
    contains_chars(&n, &p1) || contains_chars(&n, &p2) || contains_chars(&n, &p3)
}

} // verus!
