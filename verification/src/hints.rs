use vstd::prelude::*;
use crate::errors::{plain_error, ErrorKind, UcError};
use crate::text::{
    ascii_lowercase, chars_of, is_ascii_hexdigit, lowercase_range, range_eq, str_eq,
    string_from_range, trim, trim_bounds,
};
use vstd::string::StringSliceAdditionalSpecFns;

verus! {

/// Length of a session key, in hex digits.
pub const SESSION_KEY_LEN: usize = 64;

/// Shortest accepted artifact digest, in hex digits.
pub const MIN_HASH_LEN: usize = 2;

/// Whether `digest` is accepted as a hex digest of at least `min_len` bytes.
pub open spec fn valid_hex_digest(digest: &str, min_len: usize) -> bool {
    digest.spec_bytes().len() >= min_len && forall|i: int|
        0 <= i < digest@.len() ==> is_ascii_hexdigit(#[trigger] digest@[i])
}

/// What checking a hex digest gives: too short comes first, then a
/// character that is not an ASCII hex digit.
pub open spec fn hex_digest_check(digest: Seq<char>, min_len: usize) -> Result<(), ErrorKind> {
    if vstd::utf8::encode_utf8(digest).len() < min_len {
        Err(ErrorKind::HexDigestTooShort {
            len: vstd::utf8::encode_utf8(digest).len() as usize,
            min_len,
        })
    } else if !(forall|i: int| 0 <= i < digest.len() ==> is_ascii_hexdigit(#[trigger] digest[i])) {
        Err(ErrorKind::HexDigestNotHex)
    } else {
        Ok(())
    }
}

/// Checks that `digest` is at least `min_len` bytes of ASCII hex digits;
/// the length is checked first.
pub fn validate_hex_digest(digest: &str, min_len: usize) -> (r: Result<(), UcError>)
    ensures
        valid_hex_digest(digest, min_len) ==> r is Ok,
        digest.spec_bytes().len() < min_len ==> r is Err && r->Err_0.kind
            == (ErrorKind::HexDigestTooShort { len: digest.spec_bytes().len() as usize, min_len }),
        digest.spec_bytes().len() >= min_len && !valid_hex_digest(digest, min_len) ==> r is Err
            && r->Err_0.kind == ErrorKind::HexDigestNotHex,
        match hex_digest_check(digest@, min_len) {
            Ok(()) => r is Ok,
            Err(k) => r is Err && r->Err_0.kind == k,
        },
{
    let bytes = digest.as_bytes();
    let len = bytes.len();
    assert(len == digest.spec_bytes().len());
    if len < min_len {
        return Err(plain_error(ErrorKind::HexDigestTooShort { len, min_len }));
    }
    let chars = chars_of(digest);
    let mut i: usize = 0;
    while i < chars.len()
        invariant
            i <= chars@.len(),
            chars@ == digest@,
            digest.spec_bytes().len() >= min_len,
            forall|j: int| 0 <= j < i ==> is_ascii_hexdigit(#[trigger] chars@[j]),
        decreases chars@.len() - i,
    {
        let c = chars[i];
        if !(('0' <= c && c <= '9') || ('a' <= c && c <= 'f') || ('A' <= c && c <= 'F')) {
            assert(!is_ascii_hexdigit(digest@[i as int]));
            return Err(plain_error(ErrorKind::HexDigestNotHex));
        }
        i = i + 1;
    }
    Ok(())
}

/// The session key that a probe hint file names: its trimmed contents, when
/// they are a valid session key other than the primary key.
pub open spec fn hinted_session_key(contents: Seq<char>, primary: Seq<char>) -> Option<Seq<char>> {
    let t = trim(contents);
    if t.len() == 0 || t == primary {
        None
    } else if vstd::utf8::encode_utf8(t).len() >= SESSION_KEY_LEN && forall|i: int|
        0 <= i < t.len() ==> is_ascii_hexdigit(#[trigger] t[i]) {
        Some(t)
    } else {
        None
    }
}

/// Reads a daemon probe hint: the fallback session key it names, if it names
/// a valid one other than the primary key.
pub fn daemon_local_probe_hint_from_contents(contents: &str, primary_session_key: &str) -> (r:
    Option<String>)
    ensures
        match hinted_session_key(contents@, primary_session_key@) {
            Some(k) => r is Some && r->0@ == k,
            None => r is None,
        },
{
    let chars = chars_of(contents);
    let (a, b) = trim_bounds(&chars);
    let hinted = string_from_range(&chars, a, b);
    if a == b || str_eq(hinted.as_str(), primary_session_key) {
        return None;
    }
    match validate_hex_digest(hinted.as_str(), SESSION_KEY_LEN) {
        Ok(()) => Some(hinted),
        Err(_) => None,
    }
}

/// Whether a native-supported hint says yes: its trimmed, lowercased
/// contents are neither empty nor `0`, `false`, `no` or `off`.
pub open spec fn native_supported(contents: Seq<char>) -> bool {
    let v = ascii_lowercase(trim(contents));
    v.len() > 0 && v != "0"@ && v != "false"@ && v != "no"@ && v != "off"@
}

/// Reads a native-supported hint file's contents.
pub fn daemon_local_native_supported_from_contents(contents: &str) -> (b: bool)
    ensures
        b == native_supported(contents@),
{
    let chars = chars_of(contents);
    let (a, b) = trim_bounds(&chars);
    let v = lowercase_range(&chars, a, b);
    assert(v@.subrange(0, v@.len() as int) =~= v@);
    if v.len() == 0 {
        return false;
    }
    let zero = chars_of("0");
    let f = chars_of("false");
    let no = chars_of("no");
    let off = chars_of("off");
    !(range_eq(&v, 0, v.len(), &zero) || range_eq(&v, 0, v.len(), &f) || range_eq(
        &v,
        0,
        v.len(),
        &no,
    ) || range_eq(&v, 0, v.len(), &off))
}


/// The file name suffix of a fallback session key hint.
pub const DAEMON_LOCAL_PROBE_HINT_SUFFIX: &'static str = ".fallback-session-key";

/// The file name suffix of a native support hint.
pub const DAEMON_LOCAL_NATIVE_SUPPORTED_HINT_SUFFIX: &'static str = ".native-supported";

/// The most hint files kept.
pub const DAEMON_LOCAL_PROBE_HINT_MAX_ENTRIES: usize = 256;

/// How long a hint file is kept, in nanoseconds (seven days).
pub const DAEMON_LOCAL_PROBE_HINT_MAX_AGE_NANOS: u128 = 604_800_000_000_000;

/// Whether `s` ends with `suffix`.
pub open spec fn ends_with(s: Seq<char>, suffix: Seq<char>) -> bool {
    suffix.len() <= s.len() && s.skip(s.len() - suffix.len()) == suffix
}

fn ends_with_exec(s: &Vec<char>, suffix: &Vec<char>) -> (b: bool)
    ensures
        b == ends_with(s@, suffix@),
{
    if suffix.len() > s.len() {
        return false;
    }
    let r = range_eq(s, s.len() - suffix.len(), s.len(), suffix);
    assert(s@.subrange(s@.len() - suffix@.len(), s@.len() as int) =~= s@.skip(
        s@.len() - suffix@.len(),
    ));
    r
}

/// What a hint directory entry shows: its file name and, when it could be
/// read, its modification time in nanoseconds since the epoch.
#[derive(Debug, Clone)]
pub struct HintFileInfo {
    pub file_name: String,
    pub modified_nanos: Option<u128>,
}

/// Whether an entry is a hint file whose age could be read.
pub open spec fn is_hint_candidate(e: HintFileInfo) -> bool {
    (ends_with(e.file_name@, DAEMON_LOCAL_PROBE_HINT_SUFFIX@) || ends_with(
        e.file_name@,
        DAEMON_LOCAL_NATIVE_SUPPORTED_HINT_SUFFIX@,
    )) && e.modified_nanos is Some
}

/// Whether a hint file is older than the age limit at `now_nanos` (a time
/// after `now_nanos` is no age).
pub open spec fn hint_expired(e: HintFileInfo, now_nanos: u128) -> bool {
    now_nanos > e.modified_nanos->0 && now_nanos - e.modified_nanos->0
        > DAEMON_LOCAL_PROBE_HINT_MAX_AGE_NANOS
}

/// Whether an entry is a hint file that survives the age limit.
pub open spec fn hint_survives(e: HintFileInfo, now_nanos: u128) -> bool {
    is_hint_candidate(e) && !hint_expired(e, now_nanos)
}

/// How many surviving hint files among the first `n` entries come before
/// entry `i` when sorted by modification time (ties in directory order).
pub open spec fn hint_rank_in(entries: Seq<HintFileInfo>, now_nanos: u128, i: int, n: int) -> nat
    decreases n,
{
    if n <= 0 {
        0
    } else {
        let j = n - 1;
        hint_rank_in(entries, now_nanos, i, n - 1) + if hint_survives(entries[j], now_nanos) && (
        entries[j].modified_nanos->0 < entries[i].modified_nanos->0 || (
        entries[j].modified_nanos->0 == entries[i].modified_nanos->0 && j < i)) {
            1nat
        } else {
            0nat
        }
    }
}

/// How many of the first `n` entries are surviving hint files.
pub open spec fn survivors_in(entries: Seq<HintFileInfo>, now_nanos: u128, n: int) -> nat
    decreases n,
{
    if n <= 0 {
        0
    } else {
        survivors_in(entries, now_nanos, n - 1) + if hint_survives(entries[n - 1], now_nanos) {
            1nat
        } else {
            0nat
        }
    }
}

/// Whether pruning the hint directory removes entry `i`: an expired hint
/// file always; a surviving one when it is among the oldest that exceed the
/// entry limit.
pub open spec fn hint_removed(entries: Seq<HintFileInfo>, now_nanos: u128, i: int) -> bool {
    let e = entries[i];
    let survivors = survivors_in(entries, now_nanos, entries.len() as int);
    let stale = if survivors > DAEMON_LOCAL_PROBE_HINT_MAX_ENTRIES {
        survivors - DAEMON_LOCAL_PROBE_HINT_MAX_ENTRIES
    } else {
        0
    };
    (is_hint_candidate(e) && hint_expired(e, now_nanos)) || (hint_survives(e, now_nanos)
        && hint_rank_in(entries, now_nanos, i, entries.len() as int) < stale)
}

/// Whether surviving entry `j` comes before entry `i` in pruning order:
/// older, or as old and earlier in the directory.
pub open spec fn hint_before(entries: Seq<HintFileInfo>, j: int, i: int) -> bool {
    entries[j].modified_nanos->0 < entries[i].modified_nanos->0 || (entries[j].modified_nanos->0
        == entries[i].modified_nanos->0 && j < i)
}

proof fn lemma_hint_rank_order(entries: Seq<HintFileInfo>, now_nanos: u128, i: int, j: int, n: int)
    requires
        0 <= i < entries.len(),
        0 <= j < entries.len(),
        0 <= n <= entries.len(),
        hint_survives(entries[j], now_nanos),
        hint_before(entries, j, i),
    ensures
        hint_rank_in(entries, now_nanos, i, n) >= hint_rank_in(entries, now_nanos, j, n) + (if j < n {
            1int
        } else {
            0int
        }),
    decreases n,
{
    if n > 0 {
        lemma_hint_rank_order(entries, now_nanos, i, j, n - 1);
    }
}

/// Pruning the hint directory removes every expired hint file, never
/// touches an entry that is not a hint file (or whose age is unknown), and
/// removes surviving hint files oldest first: a removed survivor is never
/// newer than a kept one.
pub proof fn lemma_prune_order(entries: Seq<HintFileInfo>, now_nanos: u128, i: int, j: int)
    requires
        0 <= i < entries.len(),
        0 <= j < entries.len(),
    ensures
        !is_hint_candidate(entries[i]) ==> !hint_removed(entries, now_nanos, i),
        is_hint_candidate(entries[i]) && hint_expired(entries[i], now_nanos) ==> hint_removed(
            entries,
            now_nanos,
            i,
        ),
        hint_survives(entries[i], now_nanos) && hint_survives(entries[j], now_nanos) && hint_removed(
            entries,
            now_nanos,
            i,
        ) && !hint_removed(entries, now_nanos, j) ==> entries[i].modified_nanos->0
            <= entries[j].modified_nanos->0,
{
    if hint_survives(entries[i], now_nanos) && hint_survives(entries[j], now_nanos) && hint_removed(
        entries,
        now_nanos,
        i,
    ) && !hint_removed(entries, now_nanos, j) && hint_before(entries, j, i) {
        lemma_hint_rank_order(entries, now_nanos, i, j, entries.len() as int);
    }
}

fn hint_survives_exec(e: &HintFileInfo, now_nanos: u128, probe: &Vec<char>, native: &Vec<char>) -> (b: (bool, bool))
    requires
        probe@ == DAEMON_LOCAL_PROBE_HINT_SUFFIX@,
        native@ == DAEMON_LOCAL_NATIVE_SUPPORTED_HINT_SUFFIX@,
    ensures
        b.0 == is_hint_candidate(*e),
        b.1 == hint_survives(*e, now_nanos),
{
    let name = chars_of(e.file_name.as_str());
    let named = ends_with_exec(&name, probe) || ends_with_exec(&name, native);
    match e.modified_nanos {
        None => (false, false),
        Some(m) => {
            let expired = now_nanos > m && now_nanos - m > DAEMON_LOCAL_PROBE_HINT_MAX_AGE_NANOS;
            (named, named && !expired)
        },
    }
}

/// Decides which entries of the hint directory pruning removes, at
/// `now_nanos`: `r[i]` tells whether entry `i` goes.
pub fn prune_daemon_local_probe_hints(entries: &Vec<HintFileInfo>, now_nanos: u128) -> (r: Vec<bool>)
    ensures
        r@.len() == entries@.len(),
        forall|i: int| 0 <= i < entries@.len() ==> r@[i] == hint_removed(entries@, now_nanos, i),
{
    let probe = chars_of(DAEMON_LOCAL_PROBE_HINT_SUFFIX);
    let native = chars_of(DAEMON_LOCAL_NATIVE_SUPPORTED_HINT_SUFFIX);
    let n = entries.len();
    let mut cand: Vec<bool> = Vec::new();
    let mut alive: Vec<bool> = Vec::new();
    let mut survivors: usize = 0;
    let mut i: usize = 0;
    while i < n
        invariant
            n == entries@.len(),
            i <= n,
            probe@ == DAEMON_LOCAL_PROBE_HINT_SUFFIX@,
            native@ == DAEMON_LOCAL_NATIVE_SUPPORTED_HINT_SUFFIX@,
            cand@.len() == i,
            alive@.len() == i,
            forall|j: int| 0 <= j < i ==> cand@[j] == is_hint_candidate(#[trigger] entries@[j]),
            forall|j: int| 0 <= j < i ==> alive@[j] == hint_survives(#[trigger] entries@[j], now_nanos),
            survivors == survivors_in(entries@, now_nanos, i as int),
            survivors <= i,
        decreases n - i,
    {
        let (c, a) = hint_survives_exec(&entries[i], now_nanos, &probe, &native);
        cand.push(c);
        alive.push(a);
        if a {
            survivors = survivors + 1;
        }
        i = i + 1;
    }
    let stale: usize = if survivors > DAEMON_LOCAL_PROBE_HINT_MAX_ENTRIES {
        survivors - DAEMON_LOCAL_PROBE_HINT_MAX_ENTRIES
    } else {
        0
    };
    let mut r: Vec<bool> = Vec::new();
    let mut k: usize = 0;
    while k < n
        invariant
            n == entries@.len(),
            k <= n,
            cand@.len() == n,
            alive@.len() == n,
            forall|j: int| 0 <= j < n ==> cand@[j] == is_hint_candidate(#[trigger] entries@[j]),
            forall|j: int| 0 <= j < n ==> alive@[j] == hint_survives(#[trigger] entries@[j], now_nanos),
            survivors == survivors_in(entries@, now_nanos, n as int),
            stale == (if survivors > DAEMON_LOCAL_PROBE_HINT_MAX_ENTRIES {
                survivors - DAEMON_LOCAL_PROBE_HINT_MAX_ENTRIES
            } else {
                0
            }),
            r@.len() == k,
            forall|j: int| 0 <= j < k ==> r@[j] == hint_removed(entries@, now_nanos, j),
        decreases n - k,
    {
        let removed = if cand[k] && !alive[k] {
            true
        } else if alive[k] {
            let mk = match entries[k].modified_nanos {
                Some(m) => m,
                None => 0,
            };
            let mut rank: usize = 0;
            let mut j: usize = 0;
            while j < n
                invariant
                    n == entries@.len(),
                    j <= n,
                    k < n,
                    alive@.len() == n,
                    forall|q: int| 0 <= q < n ==> alive@[q] == hint_survives(#[trigger] entries@[q], now_nanos),
                    entries@[k as int].modified_nanos is Some,
                    mk == entries@[k as int].modified_nanos->0,
                    rank == hint_rank_in(entries@, now_nanos, k as int, j as int),
                    rank <= j,
                decreases n - j,
            {
                if alive[j] {
                    let mj = match entries[j].modified_nanos {
                        Some(m) => m,
                        None => 0,
                    };
                    if mj < mk || (mj == mk && j < k) {
                        rank = rank + 1;
                    }
                }
                j = j + 1;
            }
            rank < stale
        } else {
            false
        };
        r.push(removed);
        k = k + 1;
    }
    r
}

/// Where a hint file lives under the workspace root: in the probe hint
/// directory, named by the primary session key and the hint's suffix.
pub open spec fn hint_file_path(workspace_root: Seq<char>, key: Seq<char>, suffix: Seq<char>) -> Seq<char> {
    let rel = ".uc/cache/probe-hints/"@ + key + suffix;
    if workspace_root.len() == 0 {
        rel
    } else if workspace_root.last() == '/' {
        workspace_root + rel
    } else {
        workspace_root + "/"@ + rel
    }
}

fn hint_path_with_suffix(workspace_root: &str, primary_session_key: &str, suffix: &str) -> (r: Result<String, UcError>)
    ensures
        match hex_digest_check(primary_session_key@, SESSION_KEY_LEN) {
            Ok(()) => r is Ok && r->Ok_0@ == hint_file_path(workspace_root@, primary_session_key@, suffix@),
            Err(k) => r is Err && r->Err_0.kind == k,
        },
{
    match validate_hex_digest(primary_session_key, SESSION_KEY_LEN) {
        Err(e) => Err(e),
        Ok(()) => {
            let root = chars_of(workspace_root);
            let mut p = string_from_range(&root, 0, root.len());
            assert(root@.subrange(0, root@.len() as int) =~= root@);
            if root.len() > 0 && root[root.len() - 1] != '/' {
                crate::text::push_str(&mut p, "/");
            }
            crate::text::push_str(&mut p, ".uc/cache/probe-hints/");
            crate::text::push_str(&mut p, primary_session_key);
            crate::text::push_str(&mut p, suffix);
            proof {
                if root@.len() > 0 && root@.last() != '/' {
                    assert(p@ =~= root@ + "/"@ + (".uc/cache/probe-hints/"@ + primary_session_key@ + suffix@));
                } else {
                    assert(p@ =~= root@ + (".uc/cache/probe-hints/"@ + primary_session_key@ + suffix@));
                }
            }
            Ok(p)
        },
    }
}

/// The fallback session key hint file for a primary session key, which must
/// be a hex digest of at least `SESSION_KEY_LEN` characters.
pub fn daemon_local_probe_hint_path(workspace_root: &str, primary_session_key: &str) -> (r: Result<
    String,
    UcError,
>)
    ensures
        match hex_digest_check(primary_session_key@, SESSION_KEY_LEN) {
            Ok(()) => r is Ok && r->Ok_0@ == hint_file_path(
                workspace_root@,
                primary_session_key@,
                DAEMON_LOCAL_PROBE_HINT_SUFFIX@,
            ),
            Err(k) => r is Err && r->Err_0.kind == k,
        },
{
    hint_path_with_suffix(workspace_root, primary_session_key, DAEMON_LOCAL_PROBE_HINT_SUFFIX)
}

/// The native support hint file for a primary session key.
pub fn daemon_local_native_supported_hint_path(workspace_root: &str, primary_session_key: &str) -> (r:
    Result<String, UcError>)
    ensures
        match hex_digest_check(primary_session_key@, SESSION_KEY_LEN) {
            Ok(()) => r is Ok && r->Ok_0@ == hint_file_path(
                workspace_root@,
                primary_session_key@,
                DAEMON_LOCAL_NATIVE_SUPPORTED_HINT_SUFFIX@,
            ),
            Err(k) => r is Err && r->Err_0.kind == k,
        },
{
    hint_path_with_suffix(
        workspace_root,
        primary_session_key,
        DAEMON_LOCAL_NATIVE_SUPPORTED_HINT_SUFFIX,
    )
}

} // verus!
