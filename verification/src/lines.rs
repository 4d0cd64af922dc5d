use vstd::prelude::*;
use crate::errors::{plain_error, ErrorKind, UcError};
use crate::numparse::parse_unsigned;
use crate::text::{chars_match_at, chars_of, is_white_space, string_from_range, trim, trim_range, trim_start};
use crate::versions::next_index_of;
use vstd::utf8::{decode_utf8, valid_utf8};

verus! {

/// `String::from_utf8`: the text that `bytes` encode, when they are valid
/// UTF-8.
#[verifier::external_body]
fn string_from_utf8(bytes: Vec<u8>) -> (r: Option<String>)
    ensures
        match r {
            Some(s) => valid_utf8(bytes@) && s@ == decode_utf8(bytes@),
            None => !valid_utf8(bytes@),
        },
{
    String::from_utf8(bytes).ok()
}

/// The length of the line at the start of `data`: up to its first newline,
/// or all of it.
pub open spec fn first_line_len(data: Seq<u8>) -> int
    decreases data.len(),
{
    if data.len() == 0 {
        0
    } else if data[0] == 0x0a {
        0
    } else {
        1 + first_line_len(data.drop_first())
    }
}

proof fn lemma_first_line_len(data: Seq<u8>)
    ensures
        0 <= first_line_len(data) <= data.len(),
        first_line_len(data) < data.len() ==> data[first_line_len(data)] == 0x0a,
        forall|j: int| 0 <= j < first_line_len(data) ==> #[trigger] data[j] != 0x0a,
    decreases data.len(),
{
    if data.len() > 0 && data[0] != 0x0a {
        lemma_first_line_len(data.drop_first());
        assert forall|j: int| 0 <= j < first_line_len(data) implies #[trigger] data[j] != 0x0a by {
            if j > 0 {
                assert(data[j] == data.drop_first()[j - 1]);
            }
        }
    }
}

/// Reads the first line of what a reader delivers, without its newline,
/// refusing a line longer than `max_bytes` bytes; returns the line and how
/// many bytes it used up (the newline included).
pub fn read_line_limited(data: &[u8], max_bytes: usize) -> (r: Result<(String, usize), UcError>)
    ensures
        ({
            let n = first_line_len(data@);
            let line = data@.take(n);
            &&& n > max_bytes ==> r is Err && r->Err_0.kind == (ErrorKind::LineTooLong {
                max_bytes,
            })
            &&& n <= max_bytes && !valid_utf8(line) ==> r is Err && r->Err_0.kind
                == ErrorKind::LineNotUtf8
            &&& n <= max_bytes && valid_utf8(line) ==> r is Ok && r->Ok_0.0@ == decode_utf8(line)
                && r->Ok_0.1 == (if n < data@.len() {
                n + 1
            } else {
                n
            })
        }),
{
    proof {
        lemma_first_line_len(data@);
    }
    let mut n: usize = 0;
    while n < data.len() && data[n] != 0x0a
        invariant
            n <= data@.len(),
            forall|j: int| 0 <= j < n ==> #[trigger] data@[j] != 0x0a,
            0 <= first_line_len(data@) <= data@.len(),
            first_line_len(data@) < data@.len() ==> data@[first_line_len(data@)] == 0x0a,
            forall|j: int| 0 <= j < first_line_len(data@) ==> #[trigger] data@[j] != 0x0a,
        decreases data@.len() - n,
    {
        n = n + 1;
    }
    proof {
        let k = first_line_len(data@);
        if k < n {
            assert(data@[k] == 0x0a);
        }
        if n < k {
            assert(data@[n as int] == 0x0a);
        }
    }
    if n > max_bytes {
        return Err(plain_error(ErrorKind::LineTooLong { max_bytes }));
    }
    let consumed = if n < data.len() {
        n + 1
    } else {
        n
    };
    let mut bytes: Vec<u8> = Vec::new();
    let mut i: usize = 0;
    while i < n
        invariant
            i <= n <= data@.len(),
            bytes@ == data@.take(i as int),
        decreases n - i,
    {
        bytes.push(data[i]);
        i = i + 1;
        assert(bytes@ =~= data@.take(i as int));
    }
    match string_from_utf8(bytes) {
        Some(s) => Ok((s, consumed)),
        None => Err(plain_error(ErrorKind::LineNotUtf8)),
    }
}

/// The pid that a cache lock file records: the first line starting with
/// `pid=` whose rest, trimmed, is a `u32`; scanned from position `i`.
pub open spec fn pid_scan(s: Seq<char>, i: int) -> Option<nat>
    decreases s.len() + 1 - i,
{
    if i < 0 || i > s.len() {
        None
    } else {
        let e = next_index_of(s, i, '\n');
        let line = s.subrange(i, e);
        if e < i || e > s.len() {
            None
        } else if line.len() >= 4 && line.take(4) == "pid="@ && parse_unsigned(
            trim(line.skip(4)),
            u32::MAX as nat,
        ) is Some {
            parse_unsigned(trim(line.skip(4)), u32::MAX as nat)
        } else {
            pid_scan(s, e + 1)
        }
    }
}

fn find_newline(v: &Vec<char>, i: usize) -> (j: usize)
    requires
        i <= v.len(),
    ensures
        j == next_index_of(v@, i as int, '\n'),
        i <= j <= v.len(),
{
    let mut j = i;
    while j < v.len() && v[j] != '\n'
        invariant
            i <= j <= v@.len(),
            next_index_of(v@, i as int, '\n') == next_index_of(v@, j as int, '\n'),
        decreases v@.len() - j,
    {
        j = j + 1;
    }
    j
}

/// The pid recorded in a cache lock file.
pub fn lock_file_pid(contents: &str) -> (r: Option<u32>)
    ensures
        match pid_scan(contents@, 0) {
            Some(p) => r == Some(p as u32),
            None => r is None,
        },
{
    let s = chars_of(contents);
    let marker = chars_of("pid=");
    proof {
        reveal_strlit("pid=");
    }
    let mut i: usize = 0;
    while i <= s.len()
        invariant
            s@ == contents@,
            marker@ == "pid="@,
            pid_scan(s@, i as int) == pid_scan(contents@, 0),
        decreases s@.len() + 1 - i,
    {
        proof {
            reveal_strlit("pid=");
        }
        let e = find_newline(&s, i);
        let ghost line = s@.subrange(i as int, e as int);
        let len_ok = e - i >= 4;
        let m = chars_match_at(&s, i, &marker);
        let starts = len_ok && m;
        assert(starts == (line.len() >= 4 && line.take(4) == "pid="@)) by {
            if e - i >= 4 {
                assert(line.take(4) =~= s@.subrange(i as int, i + 4));
            }
        }
        if starts {
            let (a, b) = trim_range(&s, i + 4, e);
            let rest = string_from_range(&s, a, b);
            assert(line.skip(4) =~= s@.subrange(i + 4, e as int));
            match crate::numparse::parse_u32_str(rest.as_str()) {
                Some(p) => {
                    return Some(p);
                },
                None => {},
            }
        }
        if e == s.len() {
            assert(pid_scan(s@, e + 1) is None);
            return None;
        }
        i = e + 1;
    }
    None
}

/// Whether some line of `s`, without its leading white space, starts with
/// `pid=`.
pub open spec fn has_pid_marker(s: Seq<char>) -> bool {
    exists|i: int|
        #![trigger next_index_of(s, i, '\n')]
        0 <= i <= s.len() && (i == 0 || s[i - 1] == '\n') && {
            let t = trim_start(s.subrange(i, next_index_of(s, i, '\n')));
            t.len() >= 4 && t.take(4) == "pid="@
        }
}

/// Whether a cache lock file records a pid at all.
pub fn lock_file_has_pid_marker(contents: &str) -> (b: bool)
    ensures
        b == has_pid_marker(contents@),
{
    let s = chars_of(contents);
    let marker = chars_of("pid=");
    proof {
        reveal_strlit("pid=");
    }
    let mut i: usize = 0;
    while i <= s.len()
        invariant
            s@ == contents@,
            marker@ == "pid="@,
            i <= s@.len() + 1,
            i <= s@.len() ==> (i == 0 || s@[i - 1] == '\n'),
            forall|k: int|
                #![trigger next_index_of(s@, k, '\n')]
                0 <= k < i && (k == 0 || s@[k - 1] == '\n') ==> {
                    let t = trim_start(s@.subrange(k, next_index_of(s@, k, '\n')));
                    !(t.len() >= 4 && t.take(4) == "pid="@)
                },
        decreases s@.len() + 1 - i,
    {
        let e = find_newline(&s, i);
        proof {
            reveal_strlit("pid=");
            crate::versions::lemma_next_index_of_pub(s@, i as int, '\n');
        }
        let mut a = i;
        while a < e && crate::text::is_white_space_char(s[a])
            invariant
                i <= a <= e <= s@.len(),
                trim_start(s@.subrange(i as int, e as int)) == trim_start(
                    s@.subrange(a as int, e as int),
                ),
            decreases e - a,
        {
            assert(s@.subrange(a as int, e as int).drop_first() =~= s@.subrange(a + 1, e as int));
            a = a + 1;
        }
        let ghost t = s@.subrange(a as int, e as int);
        proof {
            if t.len() > 0 {
                assert(t[0] == s@[a as int]);
            }
            assert(trim_start(t) == t);
        }
        let len_ok = e - a >= 4;
        let m = chars_match_at(&s, a, &marker);
        let found = len_ok && m;
        assert(found == (t.len() >= 4 && t.take(4) == "pid="@)) by {
            if e - a >= 4 {
                assert(t.take(4) =~= s@.subrange(a as int, a + 4));
            }
        }
        if found {
            return true;
        }
        if e == s.len() {
            proof {
                assert forall|k: int|
                    #![trigger next_index_of(s@, k, '\n')]
                    0 <= k <= s@.len() && (k == 0 || s@[k - 1] == '\n') implies {
                        let t2 = trim_start(s@.subrange(k, next_index_of(s@, k, '\n')));
                        !(t2.len() >= 4 && t2.take(4) == "pid="@)
                    } by {
                    if k > i {
                        assert(s@[k - 1] != '\n');
                    }
                }
            }
            return false;
        }
        proof {
            assert forall|k: int|
                #![trigger next_index_of(s@, k, '\n')]
                0 <= k < e + 1 && (k == 0 || s@[k - 1] == '\n') implies {
                    let t2 = trim_start(s@.subrange(k, next_index_of(s@, k, '\n')));
                    !(t2.len() >= 4 && t2.take(4) == "pid="@)
                } by {
                if i < k {
                    assert(s@[k - 1] != '\n');
                }
            }
        }
        i = e + 1;
    }
    false
}

/// Milliseconds after which a cache lock without a live owner counts as stale.
pub const CACHE_LOCK_STALE_AFTER_MS: u64 = 300_000;

/// Whether a cache lock may be cleaned up by its age: never while its owner
/// lives, else once it is older than the stale limit.
pub fn should_cleanup_stale_lock_by_age(has_live_pid: bool, age_ms: u64) -> (b: bool)
    ensures
        b == (!has_live_pid && age_ms > CACHE_LOCK_STALE_AFTER_MS),
{
    if has_live_pid {
        return false;
    }
    age_ms > CACHE_LOCK_STALE_AFTER_MS
}

} // verus!
